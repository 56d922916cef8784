//! The entries of the file explorer: what one row holds, how rows are
//! ordered, which rows a filter keeps, and how a file is previewed.

use vstd::prelude::*;
use crate::text::{
    chars_of, contains_chars, is_subsequence, lex_lt, lemma_lex_total, lemma_lex_trans,
    lower_chars, occurs_in, same_chars, split_chars, split_on, subsequence_chars, text_eq,
    text_lt, unicode_lowercase,
};
use crate::search::{initials, initials_of, positions};

verus! {

// ── Entries ────────────────────────────────────────────────────────────────

/// One row of a directory listing. `path` is the entry's full path.
#[derive(Debug)]
pub struct FileEntry {
    pub name: String,
    pub path: String,
    pub is_dir: bool,
    pub is_symlink: bool,
    pub size: u64,
    pub modified: u64,
    pub is_hidden: bool,
    pub is_executable: bool,
    pub is_readonly: bool,
}

impl Clone for FileEntry {
    fn clone(&self) -> (r: Self)
        ensures
            r == *self,
    {
        FileEntry {
            name: self.name.clone(),
            path: self.path.clone(),
            is_dir: self.is_dir,
            is_symlink: self.is_symlink,
            size: self.size,
            modified: self.modified,
            is_hidden: self.is_hidden,
            is_executable: self.is_executable,
            is_readonly: self.is_readonly,
        }
    }
}

/// The order of the listing.
#[derive(Clone, Copy, PartialEq, Eq, Structural, Debug)]
pub enum SortMode {
    Name,
    Size,
    Modified,
    Type,
}

/// The word shown for a sort mode.
pub open spec fn sort_label(m: SortMode) -> Seq<char> {
    match m {
        SortMode::Name => "name"@,
        SortMode::Size => "size"@,
        SortMode::Modified => "modified"@,
        SortMode::Type => "type"@,
    }
}

/// The mode that follows `m`: name, size, modified, type, then name again.
pub open spec fn next_sort(m: SortMode) -> SortMode {
    match m {
        SortMode::Name => SortMode::Size,
        SortMode::Size => SortMode::Modified,
        SortMode::Modified => SortMode::Type,
        SortMode::Type => SortMode::Name,
    }
}

impl SortMode {
    /// The word shown for this mode.
    pub fn label(&self) -> (r: &'static str)
        ensures
            r@ == sort_label(*self),
    {
        match self {
            SortMode::Name => "name",
            SortMode::Size => "size",
            SortMode::Modified => "modified",
            SortMode::Type => "type",
        }
    }

    /// The mode that follows this one.
    pub fn next(&self) -> (r: SortMode)
        ensures
            r == next_sort(*self),
    {
        match self {
            SortMode::Name => SortMode::Size,
            SortMode::Size => SortMode::Modified,
            SortMode::Modified => SortMode::Type,
            SortMode::Type => SortMode::Name,
        }
    }
}

/// The last `.`-separated piece of a name (the whole name without a `.`).
pub open spec fn last_piece(name: Seq<char>) -> Seq<char> {
    split_on(name, '.').last()
}

/// The characters of the last `.`-separated piece of `name`.
pub fn last_piece_chars(name: &str) -> (r: Vec<char>)
    ensures
        r@ == last_piece(name@),
{
    let mut pieces = split_chars(&chars_of(name), '.');
    proof {
        crate::text::lemma_split_nonempty(name@, '.');
    }
    let n = pieces.len();
    pieces.remove(n - 1)
}

/// Cycling the sort mode four times comes back to where it started
/// (name, size, modified, type, name, ...).
pub proof fn law_sort_cycle(m: SortMode)
    ensures
        next_sort(next_sort(next_sort(next_sort(m)))) == m,
        next_sort(m) != m,
{
}

// ── Filter ─────────────────────────────────────────────────────────────────

/// The explorer's filter test of a lowercase name against a lowercase
/// query: an empty query matches; else the query occurs in the name, or in
/// the initials of its words (split at `-`, `_`, `.` and space), or is a
/// subsequence of the name.
pub open spec fn explorer_match(hay: Seq<char>, needle: Seq<char>) -> bool {
    ||| needle.len() == 0
    ||| occurs_in(hay, needle)
    ||| occurs_in(initials(hay, true), needle)
    ||| is_subsequence(needle, hay)
}

/// Whether the filter text `needle` matches the name `haystack` (both
/// already lowercase).
pub fn fuzzy_match(haystack: &str, needle: &str) -> (r: bool)
    ensures
        r == explorer_match(haystack@, needle@),
{
    if needle.is_empty() {
        return true;
    }
    let h = chars_of(haystack);
    let n = chars_of(needle);
    if contains_chars(&h, &n) {
        return true;
    }
    let ini = initials_of(&h, true);
    if contains_chars(&ini, &n) {
        return true;
    }
    subsequence_chars(&n, &h)
}

// ── Order ──────────────────────────────────────────────────────────────────

/// Two sort keys compared in turn: directory rank, a number, then two
/// texts in code-point order.
pub open spec fn key_lt(a: (int, int, Seq<char>, Seq<char>), b: (int, int, Seq<char>, Seq<char>)) -> bool {
    ||| a.0 < b.0
    ||| a.0 == b.0 && a.1 < b.1
    ||| a.0 == b.0 && a.1 == b.1 && lex_lt(a.2, b.2)
    ||| a.0 == b.0 && a.1 == b.1 && a.2 == b.2 && lex_lt(a.3, b.3)
}

/// The key order is a strict total order.
pub proof fn lemma_key_order(
    a: (int, int, Seq<char>, Seq<char>),
    b: (int, int, Seq<char>, Seq<char>),
    c: (int, int, Seq<char>, Seq<char>),
)
    ensures
        !key_lt(a, a),
        !(key_lt(a, b) && key_lt(b, a)),
        key_lt(a, b) && key_lt(b, c) ==> key_lt(a, c),
        a != b ==> key_lt(a, b) || key_lt(b, a),
{
    lemma_lex_total(a.2, b.2);
    lemma_lex_total(a.3, b.3);
    lemma_lex_total(a.2, a.2);
    lemma_lex_total(a.3, a.3);
    lemma_lex_total(b.2, c.2);
    lemma_lex_total(b.3, c.3);
    if lex_lt(a.2, b.2) && lex_lt(b.2, c.2) {
        lemma_lex_trans(a.2, b.2, c.2);
    }
    if lex_lt(a.3, b.3) && lex_lt(b.3, c.3) {
        lemma_lex_trans(a.3, b.3, c.3);
    }
}

/// The sort key of an entry: directories before files, then by lowercase
/// name; by size, largest first; by modification time, newest first; or
/// by extension (the last `.`-piece) and then by name.
pub open spec fn entry_key(e: FileEntry, mode: SortMode) -> (int, int, Seq<char>, Seq<char>) {
    let d: int = if e.is_dir { 0 } else { 1 };
    match mode {
        SortMode::Name => (d, 0, unicode_lowercase(e.name@), Seq::empty()),
        SortMode::Size => (d, -(e.size as int), Seq::empty(), Seq::empty()),
        SortMode::Modified => (d, -(e.modified as int), Seq::empty(), Seq::empty()),
        SortMode::Type => (d, 0, last_piece(e.name@), e.name@),
    }
}

/// The sort key of each position of a listing.
pub open spec fn keys_of(entries: Seq<FileEntry>, mode: SortMode) -> spec_fn(int) -> (int, int, Seq<char>, Seq<char>) {
    |i: int| entry_key(entries[i], mode)
}

/// `order` lists every position below `n` once, ordered by `key` and,
/// among equal keys, by position (a stable sort).
pub open spec fn is_sorted_order(
    n: int,
    key: spec_fn(int) -> (int, int, Seq<char>, Seq<char>),
    order: Seq<int>,
) -> bool {
    &&& forall|k: int| 0 <= k < order.len() ==> 0 <= #[trigger] order[k] < n
    &&& forall|i: int| 0 <= i < n ==> #[trigger] order.contains(i)
    &&& forall|k: int, l: int|
        0 <= k < l < order.len() ==> key_lt(key(#[trigger] order[k]), key(#[trigger] order[l]))
            || (key(order[k]) == key(order[l]) && order[k] < order[l])
}

/// A sort key held in memory; the number is compared largest first.
struct SortKey {
    dir: u8,
    neg: u64,
    first: Vec<char>,
    second: Vec<char>,
}

spec fn key_view(k: SortKey) -> (int, int, Seq<char>, Seq<char>) {
    (k.dir as int, -(k.neg as int), k.first@, k.second@)
}

fn make_key(e: &FileEntry, mode: SortMode) -> (r: SortKey)
    ensures
        key_view(r) == entry_key(*e, mode),
{
    let dir: u8 = if e.is_dir { 0 } else { 1 };
    match mode {
        SortMode::Name => SortKey { dir, neg: 0, first: lower_chars(e.name.as_str()), second: Vec::new() },
        SortMode::Size => SortKey { dir, neg: e.size, first: Vec::new(), second: Vec::new() },
        SortMode::Modified => SortKey { dir, neg: e.modified, first: Vec::new(), second: Vec::new() },
        SortMode::Type => SortKey {
            dir,
            neg: 0,
            first: last_piece_chars(e.name.as_str()),
            second: chars_of(e.name.as_str()),
        },
    }
}

fn key_less(a: &SortKey, b: &SortKey) -> (r: bool)
    ensures
        r == key_lt(key_view(*a), key_view(*b)),
{
    proof {
        lemma_lex_total(a.first@, a.first@);
    }
    if a.dir != b.dir {
        return a.dir < b.dir;
    }
    if a.neg != b.neg {
        return a.neg > b.neg;
    }
    if !same_chars(&a.first, &b.first) {
        return text_lt(&a.first, &b.first);
    }
    text_lt(&a.second, &b.second)
}

/// Inserting position `ii` at `jj` keeps a sorted order sorted when no key
/// before `jj` comes after `ii`'s key and the key at `jj` (if any) does.
proof fn lemma_insert_sorted(
    old_order: Seq<int>,
    jj: int,
    ii: int,
    key: spec_fn(int) -> (int, int, Seq<char>, Seq<char>),
)
    requires
        is_sorted_order(ii, key, old_order),
        0 <= ii,
        0 <= jj <= old_order.len(),
        forall|m: int| 0 <= m < jj ==> !key_lt(key(ii), key(#[trigger] old_order[m])),
        jj < old_order.len() ==> key_lt(key(ii), key(old_order[jj])),
    ensures
        is_sorted_order(ii + 1, key, old_order.insert(jj, ii)),
{
    let newm = old_order.insert(jj, ii);
    assert forall|m: int| 0 <= m < newm.len() implies 0 <= #[trigger] newm[m] < ii + 1 by {
        if m < jj {
            assert(newm[m] == old_order[m]);
        } else if m > jj {
            assert(newm[m] == old_order[m - 1]);
        }
    }
    assert forall|x: int| 0 <= x < ii + 1 implies #[trigger] newm.contains(x) by {
        if x < ii {
            assert(old_order.contains(x));
            let w = choose|w: int| 0 <= w < old_order.len() && old_order[w] == x;
            if w < jj {
                assert(newm[w] == x);
            } else {
                assert(newm[w + 1] == x);
            }
        } else {
            assert(newm[jj] == x);
        }
    }
    assert forall|a: int, b: int| 0 <= a < b < newm.len() implies key_lt(key(#[trigger] newm[a]), key(#[trigger] newm[b]))
        || (key(newm[a]) == key(newm[b]) && newm[a] < newm[b]) by {
        if b < jj {
            assert(newm[a] == old_order[a] && newm[b] == old_order[b]);
        } else if b == jj {
            assert(newm[a] == old_order[a]);
            assert(!key_lt(key(ii), key(old_order[a])));
            assert(0 <= old_order[a] < ii);
            lemma_key_order(key(old_order[a]), key(ii), key(ii));
        } else if a > jj {
            assert(newm[a] == old_order[a - 1] && newm[b] == old_order[b - 1]);
        } else if a == jj {
            assert(newm[b] == old_order[b - 1]);
            let o1 = old_order[jj];
            let o2 = old_order[b - 1];
            assert(key_lt(key(ii), key(o1)));
            if b - 1 > jj {
                assert(key_lt(key(o1), key(o2)) || (key(o1) == key(o2) && o1 < o2));
                lemma_key_order(key(ii), key(o1), key(o2));
            }
        } else {
            assert(newm[a] == old_order[a] && newm[b] == old_order[b - 1]);
        }
    }
}

/// Inserts position `i` into a sorted order of the positions below `i`,
/// after every position whose key does not come after `i`'s key.
fn insert_sorted(
    order: &mut Vec<usize>,
    keys: &Vec<SortKey>,
    i: usize,
    Ghost(key): Ghost<spec_fn(int) -> (int, int, Seq<char>, Seq<char>)>,
)
    requires
        is_sorted_order(i as int, key, positions(old(order)@)),
        keys@.len() == i + 1,
        forall|x: int| 0 <= x <= i ==> #[trigger] key_view(keys@[x]) == key(x),
    ensures
        is_sorted_order(i + 1, key, positions(final(order)@)),
{
    let ghost old_order = positions(order@);
    assert forall|m: int| 0 <= m < order@.len() implies #[trigger] order@[m] < i by {
        assert(old_order[m] == order@[m] as int);
    }
    let mut j: usize = 0;
    while j < order.len() && !key_less(&keys[i], &keys[order[j]])
        invariant
            j <= order.len(),
            keys@.len() == i + 1,
            old_order == positions(order@),
            is_sorted_order(i as int, key, old_order),
            forall|m: int| 0 <= m < order@.len() ==> #[trigger] order@[m] < i,
            forall|m: int| 0 <= m < j ==> !key_lt(key(i as int), key(#[trigger] old_order[m])),
            forall|x: int| 0 <= x <= i ==> #[trigger] key_view(keys@[x]) == key(x),
        decreases order.len() - j,
    {
        assert(old_order[j as int] == order@[j as int] as int);
        j = j + 1;
    }
    proof {
        if j < order.len() {
            assert(old_order[j as int] == order@[j as int] as int);
        }
    }
    order.insert(j, i);
    proof {
        assert(positions(order@) =~= old_order.insert(j as int, i as int));
        lemma_insert_sorted(old_order, j as int, i as int, key);
    }
}

/// Sorts a listing, stably, by `mode`: directories first, then by
/// lowercase name, by size (largest first), by modification time (newest
/// first), or by extension and then name. Entries with equal keys keep
/// their order.
pub fn sort_entries(entries: &mut Vec<FileEntry>, mode: SortMode)
    ensures
        exists|order: Seq<int>|
            {
                &&& #[trigger] is_sorted_order(old(entries)@.len() as int, keys_of(old(entries)@, mode), order)
                &&& final(entries)@.len() == order.len()
                &&& forall|k: int| 0 <= k < order.len() ==> #[trigger] final(entries)@[k] == old(entries)@[order[k]]
            },
{
    let ghost start = entries@;
    let ghost key = keys_of(entries@, mode);
    let mut keys: Vec<SortKey> = Vec::new();
    let mut order: Vec<usize> = Vec::new();
    for i in 0..entries.len()
        invariant
            entries@ == start,
            key == keys_of(start, mode),
            keys@.len() == i,
            forall|x: int| 0 <= x < i ==> #[trigger] key_view(keys@[x]) == key(x),
            is_sorted_order(i as int, key, positions(order@)),
    {
        let k = make_key(&entries[i], mode);
        keys.push(k);
        assert(key_view(keys@[i as int]) == key(i as int));
        insert_sorted(&mut order, &keys, i, Ghost(key));
    }
    let ghost ord = positions(order@);
    let mut r: Vec<FileEntry> = Vec::new();
    for k in 0..order.len()
        invariant
            entries@ == start,
            ord == positions(order@),
            is_sorted_order(start.len() as int, key, ord),
            r@.len() == k,
            forall|m: int| 0 <= m < k ==> #[trigger] r@[m] == start[ord[m]],
    {
        assert(ord[k as int] == order@[k as int] as int);
        r.push(entries[order[k]].clone());
    }
    *entries = r;
}

// ── Preview kinds ──────────────────────────────────────────────────────────

/// What the preview pane shows for an entry.
#[derive(Clone, Copy, PartialEq, Eq, Structural, Debug)]
pub enum PreviewKind {
    Text,
    Image,
    Video,
    Audio,
    Binary,
    TooLarge,
    Directory,
    Empty,
}

/// The views of a list of texts.
pub open spec fn texts(l: Seq<&str>) -> Seq<Seq<char>> {
    l.map_values(|s: &str| s@)
}

/// Extensions previewed as images.
pub open spec fn image_exts() -> Seq<Seq<char>> {
    seq![
        "png"@, "jpg"@, "jpeg"@, "gif"@, "bmp"@, "ico"@, "webp"@, "tiff"@, "tif"@, "ppm"@,
        "pgm"@, "pbm"@, "pnm"@, "svg"@
    ]
}

/// Extensions previewed as videos.
pub open spec fn video_exts() -> Seq<Seq<char>> {
    seq![
        "mp4"@, "mkv"@, "avi"@, "mov"@, "wmv"@, "webm"@, "flv"@, "m4v"@, "ogv"@, "3gp"@,
        "ts"@, "mts"@
    ]
}

/// Extensions previewed as audio.
pub open spec fn audio_exts() -> Seq<Seq<char>> {
    seq![
        "mp3"@, "wav"@, "flac"@, "aac"@, "ogg"@, "oga"@, "opus"@, "wma"@, "m4a"@, "mid"@,
        "midi"@, "alac"@
    ]
}

/// Extensions previewed as binary data.
pub open spec fn binary_exts() -> Seq<Seq<char>> {
    seq![
        "bin"@, "exe"@, "dll"@, "so"@, "dylib"@, "o"@, "a"@, "lib"@, "wasm"@, "class"@,
        "pyc"@, "pyo"@, "elc"@, "zip"@, "tar"@, "gz"@, "bz2"@, "xz"@, "7z"@, "rar"@,
        "zst"@, "deb"@, "rpm"@, "dmg"@, "iso"@, "pkg"@, "apk"@, "msi"@, "ttf"@, "otf"@,
        "woff"@, "woff2"@, "eot"@, "sqlite"@, "db"@
    ]
}

/// The preview kind of a file with this (lowercase) extension; anything
/// not listed is text.
pub open spec fn classify(ext: Seq<char>) -> PreviewKind {
    if image_exts().contains(ext) {
        PreviewKind::Image
    } else if video_exts().contains(ext) {
        PreviewKind::Video
    } else if audio_exts().contains(ext) {
        PreviewKind::Audio
    } else if binary_exts().contains(ext) {
        PreviewKind::Binary
    } else {
        PreviewKind::Text
    }
}

/// Whether `x` is one of the texts of `list`.
pub(crate) fn listed(list: &Vec<&'static str>, x: &str) -> (r: bool)
    ensures
        r == texts(list@).contains(x@),
{
    let mut i: usize = 0;
    while i < list.len()
        invariant
            i <= list.len(),
            forall|k: int| 0 <= k < i ==> texts(list@)[k] != x@,
        decreases list.len() - i,
    {
        if text_eq(list[i], x) {
            assert(texts(list@)[i as int] == x@);
            return true;
        }
        i = i + 1;
    }
    proof {
        if texts(list@).contains(x@) {
            let k = choose|k: int| 0 <= k < texts(list@).len() && texts(list@)[k] == x@;
            assert(texts(list@)[k] != x@);
        }
    }
    false
}

/// The preview kind of a file with this lowercase extension.
pub fn classify_file(ext: &str) -> (r: PreviewKind)
    ensures
        r == classify(ext@),
{
    let images: Vec<&'static str> = vec![
        "png", "jpg", "jpeg", "gif", "bmp", "ico", "webp", "tiff", "tif", "ppm", "pgm", "pbm",
        "pnm", "svg",
    ];
    assert(texts(images@) =~= image_exts());
    if listed(&images, ext) {
        return PreviewKind::Image;
    }
    let videos: Vec<&'static str> = vec![
        "mp4", "mkv", "avi", "mov", "wmv", "webm", "flv", "m4v", "ogv", "3gp", "ts", "mts",
    ];
    assert(texts(videos@) =~= video_exts());
    if listed(&videos, ext) {
        return PreviewKind::Video;
    }
    let audio: Vec<&'static str> = vec![
        "mp3", "wav", "flac", "aac", "ogg", "oga", "opus", "wma", "m4a", "mid", "midi", "alac",
    ];
    assert(texts(audio@) =~= audio_exts());
    if listed(&audio, ext) {
        return PreviewKind::Audio;
    }
    let binary: Vec<&'static str> = vec![
        "bin", "exe", "dll", "so", "dylib", "o", "a", "lib", "wasm", "class", "pyc", "pyo",
        "elc", "zip", "tar", "gz", "bz2", "xz", "7z", "rar", "zst", "deb", "rpm", "dmg", "iso",
        "pkg", "apk", "msi", "ttf", "otf", "woff", "woff2", "eot", "sqlite", "db",
    ];
    assert(texts(binary@) =~= binary_exts());
    if listed(&binary, ext) {
        return PreviewKind::Binary;
    }
    PreviewKind::Text
}

} // verus!
