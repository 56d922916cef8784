//! The state of the file explorer and the operations on it that do not
//! touch the disk: the listing it shows, selection and scrolling, the live
//! filter, the sort order, and what the preview pane needs.
//!
//! Operations that read a directory take the listing read by the caller
//! (in the order the file system gave it) and the mounted drives found.

use vstd::prelude::*;
use crate::entries::{
    classify, classify_file, explorer_match, fuzzy_match, is_sorted_order, keys_of,
    last_piece, last_piece_chars, next_sort, sort_entries, sort_label, FileEntry, PreviewKind,
    SortMode,
};
use crate::fmt::{format_size, size_text};
use crate::layout::ExplorerLayout;
use crate::paths::{file_name_of, opt_text, parent_of, path_eq, path_file_name, path_parent, same_path};
use crate::text::{is_subsequence, lowercase, string_of, text_concat, text_eq, unicode_lowercase};

verus! {

// ── Small types ────────────────────────────────────────────────────────────

/// The text dialog that is open.
#[derive(Clone, Copy, PartialEq, Eq, Structural, Debug)]
pub enum Dialog {
    NewFile,
    NewDir,
    Rename,
}

/// The yes/no question that is open.
#[derive(Clone, Debug)]
pub enum Confirm {
    Delete { name: String, is_dir: bool },
    Overwrite { src: String, dest: String },
}

/// A program that can open the selected entry.
#[derive(Clone, Debug)]
pub struct Opener {
    pub name: String,
    pub command: String,
    pub icon: String,
}

/// A removable drive or mount found under the usual mount roots.
#[derive(Clone, Debug)]
pub struct MountedDrive {
    pub name: String,
    pub path: String,
    pub size_total: u64,
    pub size_used: u64,
    pub icon: String,
}

/// What the preview pane last computed, and for which path.
#[derive(Debug)]
pub struct PreviewCache {
    pub path: Option<String>,
    pub lines: Vec<String>,
    pub kind: PreviewKind,
    pub info: Vec<String>,
}

/// What the caller must read or run to fill the preview pane.
#[derive(Debug)]
pub enum PreviewJob {
    /// The pane is complete.
    Ready,
    /// List this directory.
    Directory(String),
    /// Render this image.
    Image(String),
    /// Show a frame and the media facts of this video.
    Video(String),
    /// Show the media facts and tags of this audio file.
    Audio(String),
    /// Show a hex dump of this file.
    Binary(String),
    /// Show the first lines of this text file.
    Text(String),
}

/// The texts of a list of strings.
pub open spec fn lines_of(v: Seq<String>) -> Seq<Seq<char>> {
    v.map_values(|s: String| s@)
}

/// The largest text file the preview pane reads (2 MiB).
pub const TEXT_PREVIEW_LIMIT: u64 = 2097152;

/// The info line with a size.
pub open spec fn size_line(size: u64) -> Seq<char> {
    "💾 "@ + size_text(size as nat)
}

// ── Listing specifications ─────────────────────────────────────────────────

/// The entries of `s` for which `keep` holds, in order.
pub open spec fn kept(s: Seq<FileEntry>, keep: spec_fn(FileEntry) -> bool) -> Seq<FileEntry>
    decreases s.len(),
{
    if s.len() == 0 {
        Seq::empty()
    } else if keep(s.last()) {
        kept(s.drop_last(), keep).push(s.last())
    } else {
        kept(s.drop_last(), keep)
    }
}

/// Which entries a listing keeps: all of them when hidden entries are
/// shown, else those whose name does not start with `.`.
pub open spec fn listed_when(show_hidden: bool) -> spec_fn(FileEntry) -> bool {
    |e: FileEntry| show_hidden || !(e.name@.len() > 0 && e.name@[0] == '.')
}

/// Which entries the filter keeps: all of them for an empty filter, else
/// those whose lowercase name matches the lowercase filter.
pub open spec fn matched_by(filter: Seq<char>) -> spec_fn(FileEntry) -> bool {
    |e: FileEntry| filter.len() == 0 || explorer_match(unicode_lowercase(e.name@), unicode_lowercase(filter))
}

/// `e` is the `..` row that leads to `parent`.
pub open spec fn is_parent_row(e: FileEntry, parent: Seq<char>) -> bool {
    &&& e.name@ == ".."@
    &&& e.path@ == parent
    &&& e.is_dir
    &&& !e.is_symlink
    &&& e.size == 0
    &&& e.modified == 0
    &&& !e.is_hidden
    &&& !e.is_executable
    &&& !e.is_readonly
}

/// `sorted` is `raw` sorted stably by `mode`.
pub open spec fn sorted_listing(sorted: Seq<FileEntry>, raw: Seq<FileEntry>, mode: SortMode) -> bool {
    exists|order: Seq<int>|
        {
            &&& #[trigger] is_sorted_order(raw.len() as int, keys_of(raw, mode), order)
            &&& sorted.len() == order.len()
            &&& forall|k: int| 0 <= k < order.len() ==> #[trigger] sorted[k] == raw[order[k]]
        }
}

/// The rows shown for directory `cwd`: a `..` row first when `cwd` has a
/// parent, then the entries of `all` that `filter` keeps.
pub open spec fn shows(rows: Seq<FileEntry>, all: Seq<FileEntry>, filter: Seq<char>, cwd: Seq<char>) -> bool {
    let f = kept(all, matched_by(filter));
    match path_parent(cwd) {
        Some(p) => rows.len() == f.len() + 1 && is_parent_row(rows[0], p) && rows.skip(1) == f,
        None => rows == f,
    }
}

/// `sel` clamped to a list of `n` rows.
pub open spec fn clamped(sel: usize, n: int) -> usize {
    if n == 0 {
        0
    } else if sel >= n {
        (n - 1) as usize
    } else {
        sel
    }
}

/// The cached preview no longer belongs to the selected path `sel`.
pub open spec fn cache_stale(c: PreviewCache, sel: Option<Seq<char>>) -> bool {
    match (sel, c.path) {
        (Some(a), Some(b)) => !path_eq(a, b@),
        (None, None) => false,
        _ => true,
    }
}

/// `new` is `old` after dropping a preview that does not belong to `sel`.
pub open spec fn invalidated(new: PreviewCache, old: PreviewCache, sel: Option<Seq<char>>) -> bool {
    if cache_stale(old, sel) {
        &&& opt_text(new.path) == sel
        &&& new.lines@.len() == 0
        &&& new.kind == PreviewKind::Empty
        &&& new.info@.len() == 0
    } else {
        new == old
    }
}

/// A copy of a listing.
fn copy_entries(v: &Vec<FileEntry>) -> (r: Vec<FileEntry>)
    ensures
        r@ == v@,
{
    let mut r: Vec<FileEntry> = Vec::new();
    for i in 0..v.len()
        invariant
            r@ == v@.take(i as int),
    {
        r.push(v[i].clone());
        assert(v@.take(i + 1) == v@.take(i as int).push(v@[i as int]));
    }
    assert(v@.take(v.len() as int) == v@);
    r
}

/// The entries of a raw listing that are shown: all when hidden entries
/// are shown, else those whose name does not start with `.`.
pub fn visible_entries(listing: Vec<FileEntry>, show_hidden: bool) -> (r: Vec<FileEntry>)
    ensures
        r@ == kept(listing@, listed_when(show_hidden)),
{
    let mut r: Vec<FileEntry> = Vec::new();
    for i in 0..listing.len()
        invariant
            r@ == kept(listing@.take(i as int), listed_when(show_hidden)),
    {
        let e = &listing[i];
        let cs = crate::text::chars_of(e.name.as_str());
        let dotted = cs.len() > 0 && cs[0] == '.';
        proof {
            let t = listing@.take(i + 1);
            assert(t.drop_last() == listing@.take(i as int));
            assert(t.last() == listing@[i as int]);
        }
        if show_hidden || !dotted {
            r.push(e.clone());
        }
    }
    assert(listing@.take(listing.len() as int) == listing@);
    r
}

/// Row `e` is named `n` and is not the `..` row.
pub open spec fn names_row(e: FileEntry, n: Seq<char>) -> bool {
    e.name@ == n && !(e.name@ == ".."@ && e.is_dir)
}

/// The first row at or after `from` that `names_row` `n`.
pub open spec fn first_named(rows: Seq<FileEntry>, n: Seq<char>, from: int) -> Option<int>
    decreases rows.len() - from,
{
    if from < 0 || from >= rows.len() {
        None
    } else if names_row(rows[from], n) {
        Some(from)
    } else {
        first_named(rows, n, from + 1)
    }
}

/// The path of row `sel`, if there is such a row.
pub open spec fn row_path(rows: Seq<FileEntry>, sel: usize) -> Option<Seq<char>> {
    if sel < rows.len() {
        Some(rows[sel as int].path@)
    } else {
        None
    }
}

/// The row selected after going up: the first row named like the
/// directory just left (not the `..` row), else `fallback`.
pub open spec fn reselected(rows: Seq<FileEntry>, name: Option<Seq<char>>, fallback: usize) -> usize {
    match name {
        Some(n) => match first_named(rows, n, 0) {
            Some(i) => i as usize,
            None => fallback,
        },
        None => fallback,
    }
}

/// The first row named `n` that is not the `..` row.
fn position_named(rows: &Vec<FileEntry>, n: &str) -> (r: Option<usize>)
    ensures
        match r {
            Some(i) => first_named(rows@, n@, 0) == Some(i as int),
            None => first_named(rows@, n@, 0) is None,
        },
{
    let mut i: usize = 0;
    while i < rows.len()
        invariant
            i <= rows.len(),
            first_named(rows@, n@, 0) == first_named(rows@, n@, i as int),
        decreases rows.len() - i,
    {
        let e = &rows[i];
        if text_eq(e.name.as_str(), n) && !ExplorerState::is_parent_entry(e) {
            return Some(i);
        }
        i = i + 1;
    }
    None
}

/// In a sorted listing no directory comes after a file, whatever the sort
/// mode.
pub proof fn law_directories_first(sorted: Seq<FileEntry>, raw: Seq<FileEntry>, mode: SortMode, k: int, l: int)
    requires
        sorted_listing(sorted, raw, mode),
        0 <= k < l < sorted.len(),
        !sorted[k].is_dir,
    ensures
        !sorted[l].is_dir,
{
    let order = choose|order: Seq<int>|
        {
            &&& #[trigger] is_sorted_order(raw.len() as int, keys_of(raw, mode), order)
            &&& sorted.len() == order.len()
            &&& forall|i: int| 0 <= i < order.len() ==> #[trigger] sorted[i] == raw[order[i]]
        };
    assert(sorted[k] == raw[order[k]]);
    assert(sorted[l] == raw[order[l]]);
    let key = keys_of(raw, mode);
    assert(crate::entries::key_lt(key(order[k]), key(order[l])) || key(order[k]) == key(order[l]));
}

/// Sorting keeps every entry of the listing: each one is somewhere in the
/// sorted listing.
pub proof fn law_sort_keeps_entries(sorted: Seq<FileEntry>, raw: Seq<FileEntry>, mode: SortMode, i: int)
    requires
        sorted_listing(sorted, raw, mode),
        0 <= i < raw.len(),
    ensures
        sorted.contains(raw[i]),
{
    let order = choose|order: Seq<int>|
        {
            &&& #[trigger] is_sorted_order(raw.len() as int, keys_of(raw, mode), order)
            &&& sorted.len() == order.len()
            &&& forall|j: int| 0 <= j < order.len() ==> #[trigger] sorted[j] == raw[order[j]]
        };
    assert(order.contains(i));
    let w = choose|w: int| 0 <= w < order.len() && order[w] == i;
    assert(sorted[w] == raw[i]);
}

// ── The explorer state ─────────────────────────────────────────────────────

/// Everything the explorer screen shows and remembers.
pub struct ExplorerState {
    pub cwd: String,
    /// The rows shown: a `..` row (when `cwd` has a parent) and the entries
    /// the filter keeps.
    pub entries: Vec<FileEntry>,
    /// The sorted listing of `cwd`.
    pub all_entries: Vec<FileEntry>,
    pub selected: usize,
    pub scroll_offset: usize,
    pub show_hidden: bool,
    pub sort_mode: SortMode,
    pub filter: String,
    pub filter_active: bool,
    pub dialog: Option<Dialog>,
    pub dialog_input: String,
    pub confirm: Option<Confirm>,
    pub status_msg: Option<String>,
    pub yanked: Option<String>,
    pub cut_mode: bool,
    pub show_preview: bool,
    pub history: Vec<String>,
    pub tick: u64,
    pub show_open_with: bool,
    pub open_with_selected: usize,
    pub openers: Vec<Opener>,
    /// The preview pane's cache (the preview of `preview.path`).
    pub preview: PreviewCache,
    pub mounted_drives: Vec<MountedDrive>,
    pub layout: ExplorerLayout,
}

impl ExplorerState {
    /// The path of the selected row, if the selection is on a row.
    pub open spec fn selected_path(&self) -> Option<Seq<char>> {
        if self.selected < self.entries@.len() {
            Some(self.entries@[self.selected as int].path@)
        } else {
            None
        }
    }

    /// The fields that describe the listing are those of `o`.
    pub open spec fn same_listing(&self, o: &ExplorerState) -> bool {
        &&& self.cwd == o.cwd
        &&& self.entries@ == o.entries@
        &&& self.all_entries@ == o.all_entries@
        &&& self.show_hidden == o.show_hidden
        &&& self.sort_mode == o.sort_mode
        &&& self.filter == o.filter
        &&& self.filter_active == o.filter_active
        &&& self.history@ == o.history@
        &&& self.mounted_drives@ == o.mounted_drives@
        &&& self.openers@ == o.openers@
    }

    /// The dialogs, messages, clipboard and toggles are those of `o`.
    pub open spec fn same_modes(&self, o: &ExplorerState) -> bool {
        &&& self.dialog == o.dialog
        &&& self.dialog_input == o.dialog_input
        &&& self.confirm == o.confirm
        &&& self.status_msg == o.status_msg
        &&& self.yanked == o.yanked
        &&& self.cut_mode == o.cut_mode
        &&& self.show_preview == o.show_preview
        &&& self.tick == o.tick
        &&& self.show_open_with == o.show_open_with
        &&& self.open_with_selected == o.open_with_selected
        &&& self.layout == o.layout
    }

    /// A fresh explorer on `start`, with the openers and drives found on
    /// this machine, showing nothing until the first refresh: selection at
    /// the top, hidden entries hidden, sorted by name, no filter, dialog,
    /// message or clipboard, preview off and empty.
    pub fn new(start: &str, openers: Vec<Opener>, mounted_drives: Vec<MountedDrive>) -> (r: ExplorerState)
        ensures
            r.cwd@ == start@,
            r.entries@.len() == 0,
            r.all_entries@.len() == 0,
            r.selected == 0,
            r.scroll_offset == 0,
            !r.show_hidden,
            r.sort_mode == SortMode::Name,
            r.filter@.len() == 0,
            !r.filter_active,
            r.dialog is None,
            r.dialog_input@.len() == 0,
            r.confirm is None,
            r.status_msg is None,
            r.yanked is None,
            !r.cut_mode,
            !r.show_preview,
            r.history@.len() == 0,
            r.tick == 0,
            !r.show_open_with,
            r.open_with_selected == 0,
            r.openers@ == openers@,
            r.preview.path is None,
            r.preview.lines@.len() == 0,
            r.preview.kind == PreviewKind::Empty,
            r.preview.info@.len() == 0,
            r.mounted_drives@ == mounted_drives@,
            r.layout.is_blank(),
    {
        ExplorerState {
            cwd: string_of(&crate::text::chars_of(start)),
            entries: Vec::new(),
            all_entries: Vec::new(),
            selected: 0,
            scroll_offset: 0,
            show_hidden: false,
            sort_mode: SortMode::Name,
            filter: String::new(),
            filter_active: false,
            dialog: None,
            dialog_input: String::new(),
            confirm: None,
            status_msg: None,
            yanked: None,
            cut_mode: false,
            show_preview: false,
            history: Vec::new(),
            tick: 0,
            show_open_with: false,
            open_with_selected: 0,
            openers,
            preview: PreviewCache { path: None, lines: Vec::new(), kind: PreviewKind::Empty, info: Vec::new() },
            mounted_drives,
            layout: ExplorerLayout::default(),
        }
    }

    /// The row under the selection, if any.
    pub fn selected_entry(&self) -> (r: Option<&FileEntry>)
        ensures
            r == if self.selected < self.entries@.len() {
                Some(&self.entries@[self.selected as int])
            } else {
                None
            },
    {
        if self.selected < self.entries.len() {
            Some(&self.entries[self.selected])
        } else {
            None
        }
    }

    /// Whether `entry` is the `..` row.
    pub fn is_parent_entry(entry: &FileEntry) -> (r: bool)
        ensures
            r == (entry.name@ == ".."@ && entry.is_dir),
    {
        text_eq(entry.name.as_str(), "..") && entry.is_dir
    }

    /// The name shown on a row: directories other than the `..` row get a
    /// trailing `/`.
    pub open spec fn row_label_text(entry: FileEntry) -> Seq<char> {
        if entry.is_dir && !(entry.name@ == ".."@ && entry.is_dir) {
            entry.name@ + "/"@
        } else {
            entry.name@
        }
    }

    /// The name shown on a row (see `row_label_text`).
    pub fn row_label(entry: &FileEntry) -> (r: String)
        ensures
            r@ == Self::row_label_text(*entry),
    {
        if entry.is_dir && !Self::is_parent_entry(entry) {
            text_concat(entry.name.as_str(), "/")
        } else {
            string_of(&crate::text::chars_of(entry.name.as_str()))
        }
    }

    /// The two-cell badge of a row: ` l` for a link, ` x` for an
    /// executable file, ` r` for a read-only file, else blank.
    pub open spec fn row_badge_text(entry: FileEntry) -> Seq<char> {
        if entry.is_symlink {
            " l"@
        } else if entry.is_executable && !entry.is_dir {
            " x"@
        } else if entry.is_readonly && !entry.is_dir {
            " r"@
        } else {
            "  "@
        }
    }

    /// The badge of a row (see `row_badge_text`).
    pub fn row_badge(entry: &FileEntry) -> (r: &'static str)
        ensures
            r@ == Self::row_badge_text(*entry),
    {
        if entry.is_symlink {
            " l"
        } else if entry.is_executable && !entry.is_dir {
            " x"
        } else if entry.is_readonly && !entry.is_dir {
            " r"
        } else {
            "  "
        }
    }

    /// Drops the cached preview when it was made for another path than the
    /// selected one.
    pub fn invalidate_preview(&mut self)
        ensures
            final(self).same_listing(&*old(self)),
            final(self).same_modes(&*old(self)),
            final(self).selected == old(self).selected,
            final(self).scroll_offset == old(self).scroll_offset,
            invalidated(final(self).preview, old(self).preview, old(self).selected_path()),
    {
        let current: Option<&str> = match self.selected_entry() {
            Some(e) => Some(e.path.as_str()),
            None => None,
        };
        let stale = match (current, &self.preview.path) {
            (Some(a), Some(b)) => !same_path(a, b.as_str()),
            (None, None) => false,
            _ => true,
        };
        if stale {
            let p: Option<String> = match current {
                Some(a) => Some(string_of(&crate::text::chars_of(a))),
                None => None,
            };
            self.preview = PreviewCache { path: p, lines: Vec::new(), kind: PreviewKind::Empty, info: Vec::new() };
        }
    }

    /// Rebuilds the shown rows from the sorted listing: a `..` row when the
    /// directory has a parent, then the entries the filter keeps.
    pub fn apply_filter(&mut self)
        ensures
            shows(final(self).entries@, old(self).all_entries@, old(self).filter@, old(self).cwd@),
            final(self).all_entries@ == old(self).all_entries@,
            final(self).cwd == old(self).cwd,
            final(self).filter == old(self).filter,
            final(self).filter_active == old(self).filter_active,
            final(self).show_hidden == old(self).show_hidden,
            final(self).sort_mode == old(self).sort_mode,
            final(self).history@ == old(self).history@,
            final(self).mounted_drives@ == old(self).mounted_drives@,
            final(self).openers@ == old(self).openers@,
            final(self).same_modes(&*old(self)),
            final(self).selected == old(self).selected,
            final(self).scroll_offset == old(self).scroll_offset,
            final(self).preview == old(self).preview,
    {
        let ghost keep = matched_by(self.filter@);
        let empty = self.filter.as_str().is_empty();
        let q = lowercase(self.filter.as_str());
        let mut rows: Vec<FileEntry> = Vec::new();
        for i in 0..self.all_entries.len()
            invariant
                keep == matched_by(self.filter@),
                empty == (self.filter@.len() == 0),
                q@ == unicode_lowercase(self.filter@),
                rows@ == kept(self.all_entries@.take(i as int), keep),
        {
            let e = &self.all_entries[i];
            proof {
                let t = self.all_entries@.take(i + 1);
                assert(t.drop_last() == self.all_entries@.take(i as int));
                assert(t.last() == self.all_entries@[i as int]);
            }
            let ok = empty || {
                let n = lowercase(e.name.as_str());
                fuzzy_match(n.as_str(), q.as_str())
            };
            if ok {
                rows.push(e.clone());
            }
        }
        assert(self.all_entries@.take(self.all_entries@.len() as int) == self.all_entries@);
        let ghost f = rows@;
        match parent_of(self.cwd.as_str()) {
            Some(p) => {
                rows.insert(
                    0,
                    FileEntry {
                        name: string_of(&crate::text::chars_of("..")),
                        path: p,
                        is_dir: true,
                        is_symlink: false,
                        size: 0,
                        modified: 0,
                        is_hidden: false,
                        is_executable: false,
                        is_readonly: false,
                    },
                );
                assert(rows@.skip(1) =~= f);
            },
            None => {},
        }
        self.entries = rows;
    }

    /// Moves to the next sort mode and says which one it is
    /// (`sort: name`, `sort: size`, ...). The listing is re-sorted by the
    /// next refresh.
    pub fn cycle_sort(&mut self)
        ensures
            final(self).sort_mode == next_sort(old(self).sort_mode),
            final(self).status_msg matches Some(m) && m@ == "sort: "@ + sort_label(final(self).sort_mode),
            final(self).cwd == old(self).cwd,
            final(self).entries@ == old(self).entries@,
            final(self).all_entries@ == old(self).all_entries@,
            final(self).filter == old(self).filter,
            final(self).filter_active == old(self).filter_active,
            final(self).show_hidden == old(self).show_hidden,
            final(self).history@ == old(self).history@,
            final(self).mounted_drives@ == old(self).mounted_drives@,
            final(self).openers@ == old(self).openers@,
            final(self).selected == old(self).selected,
            final(self).scroll_offset == old(self).scroll_offset,
            final(self).preview == old(self).preview,
            final(self).dialog == old(self).dialog,
            final(self).dialog_input == old(self).dialog_input,
            final(self).confirm == old(self).confirm,
            final(self).yanked == old(self).yanked,
            final(self).cut_mode == old(self).cut_mode,
            final(self).show_preview == old(self).show_preview,
            final(self).tick == old(self).tick,
            final(self).show_open_with == old(self).show_open_with,
            final(self).open_with_selected == old(self).open_with_selected,
            final(self).layout == old(self).layout,
    {
        self.sort_mode = self.sort_mode.next();
        self.status_msg = Some(text_concat("sort: ", self.sort_mode.label()));
    }

    /// Brings the selection back onto the rows (to the last row, or to 0
    /// when there are none).
    pub fn clamp_selected(&mut self)
        ensures
            final(self).selected == clamped(old(self).selected, old(self).entries@.len() as int),
            final(self).same_listing(&*old(self)),
            final(self).same_modes(&*old(self)),
            final(self).scroll_offset == old(self).scroll_offset,
            final(self).preview == old(self).preview,
    {
        if self.entries.len() == 0 {
            self.selected = 0;
        } else if self.selected >= self.entries.len() {
            self.selected = self.entries.len() - 1;
        }
    }

    /// Moves the selection up one row, wrapping from the top to the bottom.
    pub fn move_up(&mut self)
        ensures
            final(self).selected == if old(self).entries@.len() == 0 {
                old(self).selected
            } else if old(self).selected == 0 {
                (old(self).entries@.len() - 1) as usize
            } else {
                (old(self).selected - 1) as usize
            },
            old(self).entries@.len() == 0 ==> final(self).preview == old(self).preview,
            old(self).entries@.len() > 0 ==> invalidated(final(self).preview, old(self).preview, final(self).selected_path()),
            final(self).same_listing(&*old(self)),
            final(self).same_modes(&*old(self)),
            final(self).scroll_offset == old(self).scroll_offset,
    {
        if self.entries.len() == 0 {
            return;
        }
        if self.selected == 0 {
            self.selected = self.entries.len() - 1;
        } else {
            self.selected = self.selected - 1;
        }
        self.invalidate_preview();
    }

    /// Moves the selection down one row, wrapping from the bottom to the
    /// top.
    pub fn move_down(&mut self)
        requires
            old(self).entries@.len() > 0 ==> old(self).selected < usize::MAX,
        ensures
            final(self).selected == if old(self).entries@.len() == 0 {
                old(self).selected
            } else {
                ((old(self).selected + 1) % (old(self).entries@.len() as int)) as usize
            },
            old(self).entries@.len() == 0 ==> final(self).preview == old(self).preview,
            old(self).entries@.len() > 0 ==> invalidated(final(self).preview, old(self).preview, final(self).selected_path()),
            final(self).same_listing(&*old(self)),
            final(self).same_modes(&*old(self)),
            final(self).scroll_offset == old(self).scroll_offset,
    {
        if self.entries.len() == 0 {
            return;
        }
        self.selected = (self.selected + 1) % self.entries.len();
        self.invalidate_preview();
    }

    /// Moves the selection up `n` rows, stopping at the top.
    pub fn page_up(&mut self, n: usize)
        ensures
            final(self).selected == if old(self).selected >= n { (old(self).selected - n) as usize } else { 0 },
            invalidated(final(self).preview, old(self).preview, final(self).selected_path()),
            final(self).same_listing(&*old(self)),
            final(self).same_modes(&*old(self)),
            final(self).scroll_offset == old(self).scroll_offset,
    {
        self.selected = if self.selected >= n { self.selected - n } else { 0 };
        self.invalidate_preview();
    }

    /// Moves the selection down `n` rows, stopping at the last row.
    pub fn page_down(&mut self, n: usize)
        requires
            old(self).entries@.len() > 0 ==> old(self).selected + n <= usize::MAX,
        ensures
            final(self).selected == if old(self).entries@.len() == 0 {
                old(self).selected
            } else if old(self).selected + n < old(self).entries@.len() - 1 {
                (old(self).selected + n) as usize
            } else {
                (old(self).entries@.len() - 1) as usize
            },
            old(self).entries@.len() == 0 ==> final(self).preview == old(self).preview,
            old(self).entries@.len() > 0 ==> invalidated(final(self).preview, old(self).preview, final(self).selected_path()),
            final(self).same_listing(&*old(self)),
            final(self).same_modes(&*old(self)),
            final(self).scroll_offset == old(self).scroll_offset,
    {
        if self.entries.len() == 0 {
            return;
        }
        let last = self.entries.len() - 1;
        let t = self.selected + n;
        self.selected = if t < last { t } else { last };
        self.invalidate_preview();
    }

    /// Scrolls just enough for the selection to be among the `h` visible
    /// rows.
    pub fn adjust_scroll(&mut self, h: usize)
        requires
            h > 0 && old(self).selected >= old(self).scroll_offset ==> old(self).scroll_offset + h <= usize::MAX,
        ensures
            final(self).scroll_offset == if h == 0 {
                old(self).scroll_offset
            } else if old(self).selected < old(self).scroll_offset {
                old(self).selected
            } else if old(self).selected >= old(self).scroll_offset + h {
                (old(self).selected - h + 1) as usize
            } else {
                old(self).scroll_offset
            },
            final(self).selected == old(self).selected,
            final(self).same_listing(&*old(self)),
            final(self).same_modes(&*old(self)),
            final(self).preview == old(self).preview,
    {
        if h == 0 {
            return;
        }
        if self.selected < self.scroll_offset {
            self.scroll_offset = self.selected;
        } else if self.selected >= self.scroll_offset + h {
            self.scroll_offset = self.selected - h + 1;
        }
    }

    /// Opens the "open with" menu on its first item, when a row is
    /// selected.
    pub fn show_open_with_menu(&mut self)
        ensures
            old(self).selected < old(self).entries@.len() ==> final(self).show_open_with && final(self).open_with_selected == 0,
            old(self).selected >= old(self).entries@.len() ==> final(self).show_open_with == old(self).show_open_with
                && final(self).open_with_selected == old(self).open_with_selected,
            final(self).same_listing(&*old(self)),
            final(self).selected == old(self).selected,
            final(self).scroll_offset == old(self).scroll_offset,
            final(self).preview == old(self).preview,
            final(self).dialog == old(self).dialog,
            final(self).dialog_input == old(self).dialog_input,
            final(self).confirm == old(self).confirm,
            final(self).status_msg == old(self).status_msg,
            final(self).yanked == old(self).yanked,
            final(self).cut_mode == old(self).cut_mode,
            final(self).show_preview == old(self).show_preview,
            final(self).tick == old(self).tick,
            final(self).layout == old(self).layout,
    {
        if self.selected < self.entries.len() {
            self.show_open_with = true;
            self.open_with_selected = 0;
        }
    }

    /// Starts typing a live filter, from an empty one.
    pub fn start_filter(&mut self)
        ensures
            final(self).filter_active,
            final(self).filter@.len() == 0,
            final(self).entries@ == old(self).entries@,
            final(self).all_entries@ == old(self).all_entries@,
            final(self).cwd == old(self).cwd,
            final(self).selected == old(self).selected,
            final(self).scroll_offset == old(self).scroll_offset,
            final(self).same_modes(&*old(self)),
            final(self).preview == old(self).preview,
    {
        self.filter_active = true;
        self.filter = String::new();
    }

    /// Adds a character to the filter, re-filters and selects the top row.
    pub fn filter_push(&mut self, c: char)
        ensures
            final(self).filter@ == old(self).filter@.push(c),
            shows(final(self).entries@, old(self).all_entries@, final(self).filter@, old(self).cwd@),
            final(self).selected == 0,
            final(self).scroll_offset == 0,
            final(self).all_entries@ == old(self).all_entries@,
            final(self).cwd == old(self).cwd,
            final(self).filter_active == old(self).filter_active,
            final(self).same_modes(&*old(self)),
            final(self).preview == old(self).preview,
    {
        crate::text::push_char(&mut self.filter, c);
        self.apply_filter();
        self.selected = 0;
        self.scroll_offset = 0;
    }

    /// Removes the filter's last character (if any), re-filters and
    /// selects the top row.
    pub fn filter_pop(&mut self)
        ensures
            final(self).filter@ == if old(self).filter@.len() == 0 {
                old(self).filter@
            } else {
                old(self).filter@.drop_last()
            },
            shows(final(self).entries@, old(self).all_entries@, final(self).filter@, old(self).cwd@),
            final(self).selected == 0,
            final(self).scroll_offset == 0,
            final(self).all_entries@ == old(self).all_entries@,
            final(self).cwd == old(self).cwd,
            final(self).filter_active == old(self).filter_active,
            final(self).same_modes(&*old(self)),
            final(self).preview == old(self).preview,
    {
        let mut cs = crate::text::chars_of(self.filter.as_str());
        if cs.len() > 0 {
            cs.pop();
            self.filter = string_of(&cs);
        }
        self.apply_filter();
        self.selected = 0;
        self.scroll_offset = 0;
    }

    /// Stops typing the filter; with an empty filter the rows become the
    /// unfiltered listing (a `..` row when the directory has a parent, then
    /// the whole sorted listing), as `apply_filter` builds it.
    pub fn end_filter(&mut self)
        ensures
            !final(self).filter_active,
            old(self).filter@.len() == 0 ==> shows(final(self).entries@, old(self).all_entries@, Seq::empty(), old(self).cwd@),
            old(self).filter@.len() > 0 ==> final(self).entries@ == old(self).entries@,
            final(self).filter == old(self).filter,
            final(self).all_entries@ == old(self).all_entries@,
            final(self).cwd == old(self).cwd,
            final(self).selected == old(self).selected,
            final(self).scroll_offset == old(self).scroll_offset,
            final(self).same_modes(&*old(self)),
            final(self).preview == old(self).preview,
    {
        self.filter_active = false;
        if self.filter.as_str().is_empty() {
            assert(self.filter@ =~= Seq::<char>::empty());
            self.apply_filter();
        }
    }

    /// Drops the filter: the rows become the unfiltered listing (a `..`
    /// row when the directory has a parent, then the whole sorted listing),
    /// as `apply_filter` builds it, and the top row is selected.
    pub fn clear_filter(&mut self)
        ensures
            final(self).filter@.len() == 0,
            !final(self).filter_active,
            shows(final(self).entries@, old(self).all_entries@, Seq::empty(), old(self).cwd@),
            final(self).selected == 0,
            final(self).scroll_offset == 0,
            final(self).all_entries@ == old(self).all_entries@,
            final(self).cwd == old(self).cwd,
            final(self).same_modes(&*old(self)),
            final(self).preview == old(self).preview,
    {
        self.filter = String::new();
        self.filter_active = false;
        self.apply_filter();
        self.selected = 0;
        self.scroll_offset = 0;
    }

    /// The directory `go_up` moves to, if the current one has a parent.
    pub fn parent_dir(&self) -> (r: Option<String>)
        ensures
            opt_text(r) == path_parent(self.cwd@),
    {
        parent_of(self.cwd.as_str())
    }

    /// Enters directory `path`, whose listing is `listing`: remembers the
    /// current directory in the history, drops the filter, scrolls to the
    /// top and shows the new listing, selecting its first real entry (the
    /// row after `..`) when there is one.
    pub fn enter_dir(&mut self, path: &str, listing: Vec<FileEntry>, drives: Vec<MountedDrive>)
        ensures
            final(self).history@ == old(self).history@.push(old(self).cwd),
            final(self).cwd@ == path@,
            final(self).filter@.len() == 0,
            !final(self).filter_active,
            final(self).scroll_offset == 0,
            sorted_listing(final(self).all_entries@, kept(listing@, listed_when(old(self).show_hidden)), old(self).sort_mode),
            shows(final(self).entries@, final(self).all_entries@, Seq::empty(), path@),
            final(self).selected == if path_parent(path@) is Some && final(self).entries@.len() > 1 { 1usize } else { 0usize },
            invalidated(
                final(self).preview,
                old(self).preview,
                if final(self).entries@.len() > 0 { Some(final(self).entries@[0].path@) } else { None },
            ),
            final(self).mounted_drives@ == drives@,
            final(self).show_hidden == old(self).show_hidden,
            final(self).sort_mode == old(self).sort_mode,
            final(self).openers@ == old(self).openers@,
            final(self).same_modes(&*old(self)),
    {
        self.history.push(self.cwd.clone());
        self.cwd = path.to_owned();
        self.selected = 0;
        self.scroll_offset = 0;
        self.filter = String::new();
        self.filter_active = false;
        self.refresh_with(listing, drives);
        if parent_of(self.cwd.as_str()).is_some() && self.entries.len() > 1 {
            self.selected = 1;
        }
    }

    /// Goes to the parent directory, whose listing is `listing`: remembers
    /// the current directory in the history, drops the filter, shows the
    /// new listing and selects the directory just left (when it is
    /// listed). Nothing changes when there is no parent.
    pub fn go_up(&mut self, listing: Vec<FileEntry>, drives: Vec<MountedDrive>)
        ensures
            path_parent(old(self).cwd@) is None ==> *final(self) == *old(self),
            path_parent(old(self).cwd@) is Some ==> final(self).history@ == old(self).history@.push(old(self).cwd),
            path_parent(old(self).cwd@) is Some ==> path_parent(old(self).cwd@) == Some(final(self).cwd@),
            path_parent(old(self).cwd@) is Some ==> final(self).filter@.len() == 0 && !final(self).filter_active,
            path_parent(old(self).cwd@) is Some ==> sorted_listing(
                final(self).all_entries@,
                kept(listing@, listed_when(old(self).show_hidden)),
                old(self).sort_mode,
            ),
            path_parent(old(self).cwd@) is Some ==> shows(final(self).entries@, final(self).all_entries@, Seq::empty(), final(self).cwd@),
            path_parent(old(self).cwd@) is Some ==> invalidated(
                final(self).preview,
                old(self).preview,
                row_path(final(self).entries@, clamped(old(self).selected, final(self).entries@.len() as int)),
            ),
            path_parent(old(self).cwd@) is Some ==> final(self).selected == reselected(
                final(self).entries@,
                path_file_name(old(self).cwd@),
                clamped(old(self).selected, final(self).entries@.len() as int),
            ),
            path_parent(old(self).cwd@) is Some ==> final(self).mounted_drives@ == drives@,
            final(self).scroll_offset == old(self).scroll_offset,
            final(self).show_hidden == old(self).show_hidden,
            final(self).sort_mode == old(self).sort_mode,
            final(self).openers@ == old(self).openers@,
            final(self).same_modes(&*old(self)),
    {
        let parent = match parent_of(self.cwd.as_str()) {
            Some(p) => p,
            None => return,
        };
        let old_name = file_name_of(self.cwd.as_str());
        self.history.push(self.cwd.clone());
        self.cwd = parent;
        self.filter = String::new();
        self.filter_active = false;
        self.refresh_with(listing, drives);
        if let Some(name) = old_name {
            if let Some(idx) = position_named(&self.entries, name.as_str()) {
                self.selected = idx;
            }
        }
    }

    /// Prepares the preview of the selected row and says what the caller
    /// must still read. Without a selection the pane says
    /// `(no selection)`; a preview already made is kept. A directory gets
    /// its name and path as info; a file is classified by its lowercase
    /// extension: images, videos and audio are left to the caller, a
    /// binary file gets a size line, a text file over 2 MiB is reported
    /// too large, and a smaller one gets its name and size as info.
    pub fn plan_preview(&mut self) -> (job: PreviewJob)
        ensures
            final(self).same_listing(&*old(self)),
            final(self).same_modes(&*old(self)),
            final(self).selected == old(self).selected,
            final(self).scroll_offset == old(self).scroll_offset,
            final(self).preview.path == old(self).preview.path,
            old(self).selected >= old(self).entries@.len() ==> {
                &&& job is Ready
                &&& final(self).preview.kind == PreviewKind::Empty
                &&& lines_of(final(self).preview.lines@) == seq!["(no selection)"@]
                &&& final(self).preview.info@ == old(self).preview.info@
            },
            old(self).selected < old(self).entries@.len() && old(self).preview.lines@.len() > 0 ==> {
                &&& job is Ready
                &&& final(self).preview == old(self).preview
            },
            old(self).selected < old(self).entries@.len() && old(self).preview.lines@.len() == 0 ==> {
                let e = old(self).entries@[old(self).selected as int];
                let kind = classify(unicode_lowercase(last_piece(e.name@)));
                &&& e.is_dir ==> {
                    &&& job matches PreviewJob::Directory(p) && p@ == e.path@
                    &&& final(self).preview.kind == PreviewKind::Directory
                    &&& lines_of(final(self).preview.info@) == seq!["📁 Directory: "@ + e.name@, "📍 "@ + e.path@]
                    &&& final(self).preview.lines@ == old(self).preview.lines@
                }
                &&& !e.is_dir && kind == PreviewKind::Image ==> {
                    &&& job matches PreviewJob::Image(p) && p@ == e.path@
                    &&& final(self).preview.kind == PreviewKind::Image
                    &&& final(self).preview.lines@ == old(self).preview.lines@
                    &&& final(self).preview.info@ == old(self).preview.info@
                }
                &&& !e.is_dir && kind == PreviewKind::Video ==> {
                    &&& job matches PreviewJob::Video(p) && p@ == e.path@
                    &&& final(self).preview.kind == PreviewKind::Video
                    &&& final(self).preview.lines@ == old(self).preview.lines@
                    &&& final(self).preview.info@ == old(self).preview.info@
                }
                &&& !e.is_dir && kind == PreviewKind::Audio ==> {
                    &&& job matches PreviewJob::Audio(p) && p@ == e.path@
                    &&& final(self).preview.kind == PreviewKind::Audio
                    &&& final(self).preview.lines@ == old(self).preview.lines@
                    &&& final(self).preview.info@ == old(self).preview.info@
                }
                &&& !e.is_dir && kind == PreviewKind::Binary ==> {
                    &&& job matches PreviewJob::Binary(p) && p@ == e.path@
                    &&& final(self).preview.kind == PreviewKind::Binary
                    &&& final(self).preview.lines@ == old(self).preview.lines@
                    &&& lines_of(final(self).preview.info@) == seq!["⚙️ Binary file"@, size_line(e.size)]
                }
                &&& !e.is_dir && kind == PreviewKind::Text && e.size > TEXT_PREVIEW_LIMIT ==> {
                    &&& job is Ready
                    &&& final(self).preview.kind == PreviewKind::TooLarge
                    &&& lines_of(final(self).preview.lines@) == seq!["(too large for preview)"@]
                    &&& lines_of(final(self).preview.info@) == seq!["📄 "@ + e.name@, size_line(e.size)]
                }
                &&& !e.is_dir && kind == PreviewKind::Text && e.size <= TEXT_PREVIEW_LIMIT ==> {
                    &&& job matches PreviewJob::Text(p) && p@ == e.path@
                    &&& final(self).preview.kind == PreviewKind::Text
                    &&& final(self).preview.lines@ == old(self).preview.lines@
                    &&& lines_of(final(self).preview.info@) == seq!["📄 "@ + e.name@, size_line(e.size)]
                }
            },
    {
        if self.selected >= self.entries.len() {
            self.preview.kind = PreviewKind::Empty;
            let mut lines: Vec<String> = Vec::new();
            lines.push("(no selection)".to_owned());
            proof {
                assert(lines_of(lines@) =~= seq!["(no selection)"@]);
            }
            self.preview.lines = lines;
            return PreviewJob::Ready;
        }
        if self.preview.lines.len() > 0 {
            return PreviewJob::Ready;
        }
        let e = self.entries[self.selected].clone();
        if e.is_dir {
            self.preview.kind = PreviewKind::Directory;
            let mut info: Vec<String> = Vec::new();
            info.push(text_concat("📁 Directory: ", e.name.as_str()));
            info.push(text_concat("📍 ", e.path.as_str()));
            proof {
                assert(lines_of(info@) =~= seq!["📁 Directory: "@ + e.name@, "📍 "@ + e.path@]);
            }
            self.preview.info = info;
            return PreviewJob::Directory(e.path);
        }
        let ext = string_of(&last_piece_chars(e.name.as_str()));
        let kind = classify_file(lowercase(ext.as_str()).as_str());
        self.preview.kind = kind;
        match kind {
            PreviewKind::Image => PreviewJob::Image(e.path),
            PreviewKind::Video => PreviewJob::Video(e.path),
            PreviewKind::Audio => PreviewJob::Audio(e.path),
            PreviewKind::Binary => {
                let mut info: Vec<String> = Vec::new();
                info.push("⚙️ Binary file".to_owned());
                info.push(text_concat("💾 ", format_size(e.size).as_str()));
                proof {
                    assert(lines_of(info@) =~= seq!["⚙️ Binary file"@, size_line(e.size)]);
                }
                self.preview.info = info;
                PreviewJob::Binary(e.path)
            },
            _ => {
                let mut info: Vec<String> = Vec::new();
                info.push(text_concat("📄 ", e.name.as_str()));
                info.push(text_concat("💾 ", format_size(e.size).as_str()));
                proof {
                    assert(lines_of(info@) =~= seq!["📄 "@ + e.name@, size_line(e.size)]);
                }
                self.preview.info = info;
                if e.size > TEXT_PREVIEW_LIMIT {
                    let mut lines: Vec<String> = Vec::new();
                    lines.push("(too large for preview)".to_owned());
                    proof {
                        assert(lines_of(lines@) =~= seq!["(too large for preview)"@]);
                    }
                    self.preview.lines = lines;
                    self.preview.kind = PreviewKind::TooLarge;
                    PreviewJob::Ready
                } else {
                    PreviewJob::Text(e.path)
                }
            },
        }
    }

    /// Stores what the caller read for the preview: its lines, and its
    /// info lines when it has any.
    pub fn fill_preview(&mut self, lines: Vec<String>, info: Option<Vec<String>>)
        ensures
            final(self).preview.lines@ == lines@,
            final(self).preview.info@ == match info {
                Some(i) => i@,
                None => old(self).preview.info@,
            },
            final(self).preview.kind == old(self).preview.kind,
            final(self).preview.path == old(self).preview.path,
            final(self).same_listing(&*old(self)),
            final(self).same_modes(&*old(self)),
            final(self).selected == old(self).selected,
            final(self).scroll_offset == old(self).scroll_offset,
    {
        self.preview.lines = lines;
        if let Some(i) = info {
            self.preview.info = i;
        }
    }

    /// Shows a fresh listing of the current directory: keeps the visible
    /// entries, sorts them, re-filters, clamps the selection, drops a
    /// preview of another path, and records the drives found.
    pub fn refresh_with(&mut self, listing: Vec<FileEntry>, drives: Vec<MountedDrive>)
        ensures
            sorted_listing(final(self).all_entries@, kept(listing@, listed_when(old(self).show_hidden)), old(self).sort_mode),
            shows(final(self).entries@, final(self).all_entries@, old(self).filter@, old(self).cwd@),
            final(self).selected == clamped(old(self).selected, final(self).entries@.len() as int),
            invalidated(final(self).preview, old(self).preview, final(self).selected_path()),
            final(self).mounted_drives@ == drives@,
            final(self).cwd == old(self).cwd,
            final(self).filter == old(self).filter,
            final(self).filter_active == old(self).filter_active,
            final(self).show_hidden == old(self).show_hidden,
            final(self).sort_mode == old(self).sort_mode,
            final(self).history@ == old(self).history@,
            final(self).openers@ == old(self).openers@,
            final(self).scroll_offset == old(self).scroll_offset,
            final(self).same_modes(&*old(self)),
    {
        let mut all = visible_entries(listing, self.show_hidden);
        let ghost raw = all@;
        sort_entries(&mut all, self.sort_mode);
        self.all_entries = all;
        self.apply_filter();
        self.clamp_selected();
        self.invalidate_preview();
        self.mounted_drives = drives;
    }
}

// ── Laws ───────────────────────────────────────────────────────────────────

/// What `kept` keeps: the entries of `s` for which `keep` holds.
proof fn lemma_kept_members(s: Seq<FileEntry>, keep: spec_fn(FileEntry) -> bool, e: FileEntry)
    ensures
        s.contains(e) && keep(e) ==> kept(s, keep).contains(e),
        kept(s, keep).contains(e) ==> s.contains(e) && keep(e),
    decreases s.len(),
{
    if s.len() > 0 {
        let d = s.drop_last();
        lemma_kept_members(d, keep, e);
        let kd = kept(d, keep);
        if s.contains(e) && keep(e) {
            let i = choose|i: int| 0 <= i < s.len() && s[i] == e;
            if i < s.len() - 1 {
                assert(d[i] == e);
                if keep(s.last()) {
                    let j = choose|j: int| 0 <= j < kd.len() && kd[j] == e;
                    assert(kd.push(s.last())[j] == e);
                }
            } else {
                assert(kd.push(s.last())[kd.len() as int] == e);
            }
        }
        if kept(s, keep).contains(e) {
            let j = choose|j: int| 0 <= j < kept(s, keep).len() && kept(s, keep)[j] == e;
            if keep(s.last()) && j == kd.len() {
                assert(s[s.len() - 1] == e);
            } else {
                assert(kd[j] == e);
                assert(kd.contains(e));
                let i = choose|i: int| 0 <= i < d.len() && d[i] == e;
                assert(s[i] == e);
            }
        }
    }
}

/// The explorer's filter ignores case and accepts gaps: every entry of the
/// listing in whose lowercase name the lowercase filter appears in order
/// (for instance as a substring, so `Cargo` finds `Cargo.toml`) is among
/// the rows shown, as is every entry for an empty filter; and every row
/// besides the `..` row is an entry of the listing.
pub proof fn law_filter_ignores_case(rows: Seq<FileEntry>, all: Seq<FileEntry>, filter: Seq<char>, cwd: Seq<char>, e: FileEntry)
    requires
        shows(rows, all, filter, cwd),
        all.contains(e),
    ensures
        is_subsequence(unicode_lowercase(filter), unicode_lowercase(e.name@)) ==> rows.contains(e),
        filter.len() == 0 ==> rows.contains(e),
        forall|i: int| 0 <= i < rows.len() && !(path_parent(cwd) is Some && i == 0) ==> all.contains(#[trigger] rows[i]),
{
    let keep = matched_by(filter);
    let f = kept(all, keep);
    lemma_kept_members(all, keep, e);
    assert forall|i: int| 0 <= i < rows.len() && !(path_parent(cwd) is Some && i == 0) implies all.contains(#[trigger] rows[i]) by {
        lemma_kept_members(all, keep, rows[i]);
        match path_parent(cwd) {
            Some(p) => {
                assert(rows.skip(1)[i - 1] == rows[i]);
                assert(f[i - 1] == rows[i]);
                assert(f.contains(rows[i]));
            },
            None => {
                assert(f[i] == rows[i]);
                assert(f.contains(rows[i]));
            },
        }
    }
    if keep(e) {
        let j = choose|j: int| 0 <= j < f.len() && f[j] == e;
        match path_parent(cwd) {
            Some(p) => {
                assert(rows.skip(1)[j] == e);
                assert(rows[j + 1] == e);
            },
            None => {
                assert(rows[j] == e);
            },
        }
    }
}

} // verus!
