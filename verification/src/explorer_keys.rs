//! What a key press or a click does to the explorer.
//!
//! The explorer is modal: a live filter being typed, the "open with"
//! menu, a text dialog and a yes/no question each take the keys before the
//! normal bindings do. Each key changes the state and names the work that
//! needs the disk or another program (an `ExplorerAction`), which the
//! caller performs.

use vstd::prelude::*;
use crate::entries::{next_sort, sort_label};
use crate::explorer::{invalidated, shows, Confirm, Dialog, ExplorerState, MountedDrive};
use crate::fmt::{format_size, size_text};
use crate::jump::{KeyCode, KeyPress};
use crate::text::{append_text, push_char, string_of, text_concat};

verus! {

/// The work a key leaves to the caller.
#[derive(Debug)]
pub enum ExplorerAction {
    /// Nothing further.
    Stay,
    /// Leave the explorer without a directory.
    Quit,
    /// Leave the explorer, changing to this directory.
    CdHere(String),
    /// Open the selected entry with the opener at this index.
    OpenWith(usize),
    /// Carry out the open text dialog.
    ExecuteDialog,
    /// Carry out the open yes/no question.
    ExecuteConfirm,
    /// Enter this directory.
    EnterDir(String),
    /// Enter this mounted drive, then name the first drive in the status.
    EnterDrive(String),
    /// Go to the parent directory.
    GoUp,
    /// Enter the home directory.
    GoHome,
    /// Look for drives again and list them in the status.
    ListDrives,
    /// Read the current directory again.
    Refresh,
    /// Copy this yanked path into the current directory.
    Paste(String),
    /// Move this cut path into the current directory.
    MoveHere(String),
    /// Copy this path into the downloads directory.
    Import(String),
    /// Flip the executable bits of this path.
    ToggleExec(String),
    /// Open this file with the system's default program.
    OpenFile(String),
}

/// A left click remembered to detect a double click: when (in
/// milliseconds), where, and on which row.
#[derive(Clone, Copy, Debug, PartialEq, Eq, Structural)]
pub struct Click {
    pub at_ms: u64,
    pub col: u16,
    pub row: u16,
    pub index: usize,
}

/// The kind of a mouse event.
#[derive(Clone, Copy, Debug, PartialEq, Eq, Structural)]
pub enum MouseKind {
    ScrollUp,
    ScrollDown,
    LeftDown,
    Other,
}

/// Two clicks closer than this many milliseconds make a double click.
pub const DOUBLE_CLICK_MS: u64 = 400;

/// The rows a page key moves.
pub const PAGE_ROWS: usize = 15;

impl ExplorerState {
    // ── Effects ────────────────────────────────────────────────────────────

    /// The views of the list and everything else are those of `o`.
    pub open spec fn keeps_view(&self, o: &ExplorerState) -> bool {
        &&& self.same_listing(o)
        &&& self.selected == o.selected
        &&& self.scroll_offset == o.scroll_offset
        &&& self.preview == o.preview
    }

    /// Nothing changed.
    pub open spec fn unchanged(&self, o: &ExplorerState) -> bool {
        self.keeps_view(o) && self.same_modes(o)
    }

    /// Only the status message changed, to `text`.
    pub open spec fn status_set(&self, o: &ExplorerState, text: Seq<char>) -> bool {
        &&& self.keeps_view(o)
        &&& self.status_msg matches Some(m) && m@ == text
        &&& self.dialog == o.dialog
        &&& self.dialog_input == o.dialog_input
        &&& self.confirm == o.confirm
        &&& self.yanked == o.yanked
        &&& self.cut_mode == o.cut_mode
        &&& self.show_preview == o.show_preview
        &&& self.tick == o.tick
        &&& self.show_open_with == o.show_open_with
        &&& self.open_with_selected == o.open_with_selected
        &&& self.layout == o.layout
    }

    /// Only the selection (and with it the preview cache) changed, to row
    /// `target`.
    pub open spec fn selected_to(&self, o: &ExplorerState, target: usize) -> bool {
        &&& self.same_listing(o)
        &&& self.same_modes(o)
        &&& self.scroll_offset == o.scroll_offset
        &&& self.selected == target
        &&& invalidated(self.preview, o.preview, self.selected_path())
    }

    /// The selection moved up one row, wrapping to the bottom.
    pub open spec fn moved_up(&self, o: &ExplorerState) -> bool {
        if o.entries@.len() == 0 {
            self.unchanged(o)
        } else {
            self.selected_to(o, if o.selected == 0 { (o.entries@.len() - 1) as usize } else { (o.selected - 1) as usize })
        }
    }

    /// The selection moved down one row, wrapping to the top.
    pub open spec fn moved_down(&self, o: &ExplorerState) -> bool {
        if o.entries@.len() == 0 {
            self.unchanged(o)
        } else {
            self.selected_to(o, ((o.selected + 1) % (o.entries@.len() as int)) as usize)
        }
    }

    /// Only the dialog changed: `d` is open with `input` typed.
    pub open spec fn dialog_opened(&self, o: &ExplorerState, d: Dialog, input: Seq<char>) -> bool {
        &&& self.keeps_view(o)
        &&& self.dialog == Some(d)
        &&& self.dialog_input@ == input
        &&& self.confirm == o.confirm
        &&& self.status_msg == o.status_msg
        &&& self.yanked == o.yanked
        &&& self.cut_mode == o.cut_mode
        &&& self.show_preview == o.show_preview
        &&& self.tick == o.tick
        &&& self.show_open_with == o.show_open_with
        &&& self.open_with_selected == o.open_with_selected
        &&& self.layout == o.layout
    }

    /// Only the clipboard and the status changed: `path` is held (to move
    /// when `cut`), and the status reads `text`.
    pub open spec fn clipped(&self, o: &ExplorerState, path: Seq<char>, cut: bool, text: Seq<char>) -> bool {
        &&& self.keeps_view(o)
        &&& self.yanked matches Some(y) && y@ == path
        &&& self.cut_mode == cut
        &&& self.status_msg matches Some(m) && m@ == text
        &&& self.dialog == o.dialog
        &&& self.dialog_input == o.dialog_input
        &&& self.confirm == o.confirm
        &&& self.show_preview == o.show_preview
        &&& self.tick == o.tick
        &&& self.show_open_with == o.show_open_with
        &&& self.open_with_selected == o.open_with_selected
        &&& self.layout == o.layout
    }

    /// Only the "open with" menu changed: it is shown when `shown`, on
    /// item `sel`.
    pub open spec fn menu_set(&self, o: &ExplorerState, shown: bool, sel: usize) -> bool {
        &&& self.keeps_view(o)
        &&& self.show_open_with == shown
        &&& self.open_with_selected == sel
        &&& self.dialog == o.dialog
        &&& self.dialog_input == o.dialog_input
        &&& self.confirm == o.confirm
        &&& self.status_msg == o.status_msg
        &&& self.yanked == o.yanked
        &&& self.cut_mode == o.cut_mode
        &&& self.show_preview == o.show_preview
        &&& self.tick == o.tick
        &&& self.layout == o.layout
    }

    // ── Live filter mode ───────────────────────────────────────────────────

    /// A key while the filter is typed: Esc drops the filter, Enter stops
    /// typing (selecting the only row when one is left), Backspace and
    /// characters edit the filter, Up and Down move; other keys do nothing.
    pub open spec fn filter_key_effect(&self, o: &ExplorerState, code: KeyCode) -> bool {
        let rest_same = self.same_modes(o) && self.all_entries@ == o.all_entries@ && self.cwd == o.cwd
            && self.preview == o.preview;
        match code {
            KeyCode::Esc => {
                &&& rest_same
                &&& self.filter@.len() == 0
                &&& !self.filter_active
                &&& shows(self.entries@, o.all_entries@, Seq::empty(), o.cwd@)
                &&& self.selected == 0
                &&& self.scroll_offset == 0
            },
            KeyCode::Enter => {
                &&& rest_same
                &&& self.filter == o.filter
                &&& !self.filter_active
                &&& if o.filter@.len() == 0 {
                    shows(self.entries@, o.all_entries@, Seq::empty(), o.cwd@)
                } else {
                    self.entries@ == o.entries@
                }
                &&& self.selected == if self.entries@.len() == 1 { 0 } else { o.selected }
                &&& self.scroll_offset == o.scroll_offset
            },
            KeyCode::Backspace => {
                &&& rest_same
                &&& self.filter@ == if o.filter@.len() == 0 { o.filter@ } else { o.filter@.drop_last() }
                &&& self.filter_active == o.filter_active
                &&& shows(self.entries@, o.all_entries@, self.filter@, o.cwd@)
                &&& self.selected == 0
                &&& self.scroll_offset == 0
            },
            KeyCode::Char(c) => {
                &&& rest_same
                &&& self.filter@ == o.filter@.push(c)
                &&& self.filter_active == o.filter_active
                &&& shows(self.entries@, o.all_entries@, self.filter@, o.cwd@)
                &&& self.selected == 0
                &&& self.scroll_offset == 0
            },
            KeyCode::Up => self.moved_up(o),
            KeyCode::Down => self.moved_down(o),
            _ => self.unchanged(o),
        }
    }

    /// Handles a key while the filter is typed.
    pub fn filter_key(&mut self, code: KeyCode)
        requires
            old(self).entries@.len() > 0 ==> old(self).selected < usize::MAX,
        ensures
            final(self).filter_key_effect(&*old(self), code),
    {
        match code {
            KeyCode::Esc => self.clear_filter(),
            KeyCode::Enter => {
                self.end_filter();
                if self.entries.len() == 1 {
                    self.selected = 0;
                }
            },
            KeyCode::Backspace => self.filter_pop(),
            KeyCode::Char(c) => self.filter_push(c),
            KeyCode::Up => self.move_up(),
            KeyCode::Down => self.move_down(),
            _ => {},
        }
    }

    // ── The "open with" menu ───────────────────────────────────────────────

    /// A key in the "open with" menu: Esc or `q` closes it; Up/`k` and
    /// Down/`j` move through the openers, wrapping; Enter, or a digit from
    /// 1 naming an opener, closes the menu and opens with that opener;
    /// other keys do nothing.
    pub open spec fn menu_key_effect(&self, o: &ExplorerState, code: KeyCode, act: ExplorerAction) -> bool {
        let n = o.openers@.len();
        let up = if o.open_with_selected > 0 {
            (o.open_with_selected - 1) as usize
        } else if n > 0 {
            (n - 1) as usize
        } else {
            0usize
        };
        let down = if n > 0 { ((o.open_with_selected + 1) % (n as int)) as usize } else { o.open_with_selected };
        match code {
            KeyCode::Esc | KeyCode::Char('q') => act is Stay && self.menu_set(o, false, o.open_with_selected),
            KeyCode::Up | KeyCode::Char('k') => act is Stay && self.menu_set(o, o.show_open_with, up),
            KeyCode::Down | KeyCode::Char('j') => act is Stay && self.menu_set(o, o.show_open_with, down),
            KeyCode::Enter => act == ExplorerAction::OpenWith(o.open_with_selected) && self.menu_set(
                o,
                false,
                o.open_with_selected,
            ),
            KeyCode::Char(c) => if '1' <= c <= '9' && (c as int) - ('1' as int) < n {
                act == ExplorerAction::OpenWith(((c as int) - ('1' as int)) as usize) && self.menu_set(
                    o,
                    false,
                    o.open_with_selected,
                )
            } else {
                act is Stay && self.unchanged(o)
            },
            _ => act is Stay && self.unchanged(o),
        }
    }

    /// Handles a key in the "open with" menu.
    pub fn menu_key(&mut self, code: KeyCode) -> (act: ExplorerAction)
        requires
            old(self).open_with_selected < usize::MAX,
        ensures
            final(self).menu_key_effect(&*old(self), code, act),
    {
        let n = self.openers.len();
        match code {
            KeyCode::Esc | KeyCode::Char('q') => {
                self.show_open_with = false;
                ExplorerAction::Stay
            },
            KeyCode::Up | KeyCode::Char('k') => {
                if self.open_with_selected > 0 {
                    self.open_with_selected = self.open_with_selected - 1;
                } else {
                    self.open_with_selected = if n > 0 { n - 1 } else { 0 };
                }
                ExplorerAction::Stay
            },
            KeyCode::Down | KeyCode::Char('j') => {
                if n > 0 {
                    self.open_with_selected = (self.open_with_selected + 1) % n;
                }
                ExplorerAction::Stay
            },
            KeyCode::Enter => {
                let idx = self.open_with_selected;
                self.show_open_with = false;
                ExplorerAction::OpenWith(idx)
            },
            KeyCode::Char(c) => {
                if '1' <= c && c <= '9' && ((c as u32 - '1' as u32) as usize) < n {
                    self.show_open_with = false;
                    ExplorerAction::OpenWith((c as u32 - '1' as u32) as usize)
                } else {
                    ExplorerAction::Stay
                }
            },
            _ => ExplorerAction::Stay,
        }
    }

    // ── Frames ─────────────────────────────────────────────────────────────

    /// The listing fields other than the hidden and sort toggles are those
    /// of `o`, and so are the selection, scroll and preview.
    pub open spec fn keeps_rows(&self, o: &ExplorerState) -> bool {
        &&& self.cwd == o.cwd
        &&& self.entries@ == o.entries@
        &&& self.all_entries@ == o.all_entries@
        &&& self.filter == o.filter
        &&& self.filter_active == o.filter_active
        &&& self.history@ == o.history@
        &&& self.mounted_drives@ == o.mounted_drives@
        &&& self.openers@ == o.openers@
        &&& self.selected == o.selected
        &&& self.scroll_offset == o.scroll_offset
        &&& self.preview == o.preview
    }

    /// The dialogs, clipboard, toggles and menu are those of `o` (the
    /// status may differ).
    pub open spec fn modes_but_status(&self, o: &ExplorerState) -> bool {
        &&& self.dialog == o.dialog
        &&& self.dialog_input == o.dialog_input
        &&& self.confirm == o.confirm
        &&& self.yanked == o.yanked
        &&& self.cut_mode == o.cut_mode
        &&& self.show_preview == o.show_preview
        &&& self.tick == o.tick
        &&& self.show_open_with == o.show_open_with
        &&& self.open_with_selected == o.open_with_selected
        &&& self.layout == o.layout
    }

    /// The status reads `text`.
    pub open spec fn status_is(&self, text: Seq<char>) -> bool {
        self.status_msg matches Some(m) && m@ == text
    }

    // ── Text dialog ────────────────────────────────────────────────────────

    /// Only the dialog's text changed, to `input`.
    pub open spec fn input_set(&self, o: &ExplorerState, input: Seq<char>) -> bool {
        &&& self.keeps_view(o)
        &&& self.dialog_input@ == input
        &&& self.dialog == o.dialog
        &&& self.confirm == o.confirm
        &&& self.status_msg == o.status_msg
        &&& self.yanked == o.yanked
        &&& self.cut_mode == o.cut_mode
        &&& self.show_preview == o.show_preview
        &&& self.tick == o.tick
        &&& self.show_open_with == o.show_open_with
        &&& self.open_with_selected == o.open_with_selected
        &&& self.layout == o.layout
    }

    /// A key in a text dialog: Esc closes it, clearing its text and the
    /// status; Enter asks the caller to carry it out; Backspace and
    /// characters edit the text; other keys do nothing.
    pub open spec fn dialog_key_effect(&self, o: &ExplorerState, code: KeyCode, act: ExplorerAction) -> bool {
        match code {
            KeyCode::Esc => {
                &&& act is Stay
                &&& self.keeps_view(o)
                &&& self.dialog is None
                &&& self.dialog_input@.len() == 0
                &&& self.status_msg is None
                &&& self.confirm == o.confirm
                &&& self.yanked == o.yanked
                &&& self.cut_mode == o.cut_mode
                &&& self.show_preview == o.show_preview
                &&& self.tick == o.tick
                &&& self.show_open_with == o.show_open_with
                &&& self.open_with_selected == o.open_with_selected
                &&& self.layout == o.layout
            },
            KeyCode::Enter => act is ExecuteDialog && self.unchanged(o),
            KeyCode::Backspace => act is Stay && self.input_set(
                o,
                if o.dialog_input@.len() == 0 { o.dialog_input@ } else { o.dialog_input@.drop_last() },
            ),
            KeyCode::Char(c) => act is Stay && self.input_set(o, o.dialog_input@.push(c)),
            _ => act is Stay && self.unchanged(o),
        }
    }

    /// Handles a key in a text dialog.
    pub fn dialog_key(&mut self, code: KeyCode) -> (act: ExplorerAction)
        ensures
            final(self).dialog_key_effect(&*old(self), code, act),
    {
        match code {
            KeyCode::Esc => {
                self.dialog = None;
                self.dialog_input = String::new();
                self.status_msg = None;
                ExplorerAction::Stay
            },
            KeyCode::Enter => ExplorerAction::ExecuteDialog,
            KeyCode::Backspace => {
                let mut cs = crate::text::chars_of(self.dialog_input.as_str());
                if cs.len() > 0 {
                    cs.pop();
                    self.dialog_input = string_of(&cs);
                }
                ExplorerAction::Stay
            },
            KeyCode::Char(c) => {
                push_char(&mut self.dialog_input, c);
                ExplorerAction::Stay
            },
            _ => ExplorerAction::Stay,
        }
    }

    /// Closes the text dialog after it was carried out, showing its
    /// message (when there is one).
    pub fn close_dialog(&mut self, message: Option<String>)
        ensures
            final(self).keeps_view(&*old(self)),
            final(self).dialog is None,
            final(self).dialog_input@.len() == 0,
            final(self).status_msg == match message {
                Some(m) => Some(m),
                None => old(self).status_msg,
            },
            final(self).confirm == old(self).confirm,
            final(self).yanked == old(self).yanked,
            final(self).cut_mode == old(self).cut_mode,
            final(self).show_preview == old(self).show_preview,
            final(self).show_open_with == old(self).show_open_with,
    {
        if let Some(m) = message {
            self.status_msg = Some(m);
        }
        self.dialog = None;
        self.dialog_input = String::new();
    }

    // ── Yes/no question ────────────────────────────────────────────────────

    /// A key at a yes/no question: `y` or `Y` asks the caller to carry it
    /// out; any other key drops the question and says `cancelled`.
    pub open spec fn confirm_key_effect(&self, o: &ExplorerState, code: KeyCode, act: ExplorerAction) -> bool {
        match code {
            KeyCode::Char('y') | KeyCode::Char('Y') => act is ExecuteConfirm && self.unchanged(o),
            _ => {
                &&& act is Stay
                &&& self.keeps_view(o)
                &&& self.confirm is None
                &&& self.status_is("cancelled"@)
                &&& self.dialog == o.dialog
                &&& self.dialog_input == o.dialog_input
                &&& self.yanked == o.yanked
                &&& self.cut_mode == o.cut_mode
                &&& self.show_preview == o.show_preview
                &&& self.tick == o.tick
                &&& self.show_open_with == o.show_open_with
                &&& self.open_with_selected == o.open_with_selected
                &&& self.layout == o.layout
            },
        }
    }

    /// Handles a key at a yes/no question.
    pub fn confirm_key(&mut self, code: KeyCode) -> (act: ExplorerAction)
        ensures
            final(self).confirm_key_effect(&*old(self), code, act),
    {
        let yes = match code {
            KeyCode::Char(c) => c == 'y' || c == 'Y',
            _ => false,
        };
        if yes {
            ExplorerAction::ExecuteConfirm
        } else {
            self.confirm = None;
            self.status_msg = Some("cancelled".to_owned());
            ExplorerAction::Stay
        }
    }

    // ── Normal mode ────────────────────────────────────────────────────────

    /// What opening the selected row does: the `..` row goes up, a
    /// directory is entered, a file is opened with the default program
    /// (and the status says so); without a selection nothing happens.
    pub open spec fn open_entry_effect(&self, o: &ExplorerState, act: ExplorerAction) -> bool {
        if o.selected < o.entries@.len() {
            let e = o.entries@[o.selected as int];
            if e.name@ == ".."@ && e.is_dir {
                act is GoUp && self.unchanged(o)
            } else if e.is_dir {
                act matches ExplorerAction::EnterDir(p) && p@ == e.path@ && self.unchanged(o)
            } else {
                &&& act matches ExplorerAction::OpenFile(p) && p@ == e.path@
                &&& self.keeps_view(o)
                &&& self.modes_but_status(o)
                &&& self.status_is("opened "@ + e.path@)
            }
        } else {
            act is Stay && self.unchanged(o)
        }
    }

    /// Opens the selected row (see `open_entry_effect`).
    pub fn open_entry(&mut self) -> (act: ExplorerAction)
        ensures
            final(self).open_entry_effect(&*old(self), act),
    {
        if self.selected >= self.entries.len() {
            return ExplorerAction::Stay;
        }
        let e = &self.entries[self.selected];
        if ExplorerState::is_parent_entry(e) {
            ExplorerAction::GoUp
        } else if e.is_dir {
            ExplorerAction::EnterDir(e.path.clone())
        } else {
            let p = e.path.clone();
            self.status_msg = Some(text_concat("opened ", p.as_str()));
            ExplorerAction::OpenFile(p)
        }
    }

    /// What a key does in the normal mode. Quitting: `q`, Esc, Ctrl-C.
    /// Moving: Up/`k`, Down/`j` (wrapping), PageUp/PageDown (15 rows),
    /// Home/`g`, End/`G`. Enter/Right/`l` open the row; `o` opens the
    /// "open with" menu; Backspace/Left/`h` go up; `~` goes home; `m`
    /// enters the first drive; `M` lists the drives; `.` shows or hides
    /// hidden entries; `s` changes the sort; `n`/`N` ask for a new file or
    /// directory name; `r` renames; `d`/Delete ask before deleting; `y`
    /// yanks and `x` cuts the row; `p` pastes and `P` moves here; `I`
    /// imports into the downloads directory; `c` leaves into the selected
    /// directory (else the current one); `v` toggles the preview; `/`
    /// starts a filter and `\` drops it; `X` flips the executable bits.
    pub open spec fn normal_key_effect(&self, o: &ExplorerState, key: KeyPress, act: ExplorerAction) -> bool {
        let n = o.entries@.len();
        let has_sel = o.selected < n;
        let e = o.entries@[o.selected as int];
        match key.code {
            KeyCode::Char('q') | KeyCode::Esc => act is Quit && self.unchanged(o),
            KeyCode::Char('c') if key.ctrl => act is Quit && self.unchanged(o),
            KeyCode::Up | KeyCode::Char('k') => act is Stay && self.moved_up(o),
            KeyCode::Down | KeyCode::Char('j') => act is Stay && self.moved_down(o),
            KeyCode::PageUp => act is Stay && self.selected_to(
                o,
                if o.selected >= PAGE_ROWS { (o.selected - PAGE_ROWS) as usize } else { 0 },
            ),
            KeyCode::PageDown => act is Stay && if n == 0 {
                self.unchanged(o)
            } else {
                self.selected_to(o, if o.selected + PAGE_ROWS < n - 1 { (o.selected + PAGE_ROWS) as usize } else { (n - 1) as usize })
            },
            KeyCode::Home | KeyCode::Char('g') => act is Stay && self.selected_to(o, 0),
            KeyCode::End | KeyCode::Char('G') => act is Stay && if n > 0 {
                self.selected_to(o, (n - 1) as usize)
            } else {
                self.unchanged(o)
            },
            KeyCode::Enter | KeyCode::Right | KeyCode::Char('l') => self.open_entry_effect(o, act),
            KeyCode::Char('o') => act is Stay && if has_sel { self.menu_set(o, true, 0) } else { self.unchanged(o) },
            KeyCode::Backspace | KeyCode::Left | KeyCode::Char('h') => act is GoUp && self.unchanged(o),
            KeyCode::Char('~') => act is GoHome && self.unchanged(o),
            KeyCode::Char('m') => if o.mounted_drives@.len() > 0 {
                act matches ExplorerAction::EnterDrive(p) && p@ == o.mounted_drives@[0].path@ && self.unchanged(o)
            } else {
                act is Stay && self.status_set(o, "no external drives found"@)
            },
            KeyCode::Char('M') => act is ListDrives && self.unchanged(o),
            KeyCode::Char('.') => {
                &&& act is Refresh
                &&& self.show_hidden == !o.show_hidden
                &&& self.sort_mode == o.sort_mode
                &&& self.keeps_rows(o)
                &&& self.modes_but_status(o)
                &&& self.status_is(if self.show_hidden { "showing hidden"@ } else { "hiding hidden"@ })
            },
            KeyCode::Char('s') => {
                &&& act is Refresh
                &&& self.sort_mode == next_sort(o.sort_mode)
                &&& self.show_hidden == o.show_hidden
                &&& self.keeps_rows(o)
                &&& self.modes_but_status(o)
                &&& self.status_is("sort: "@ + sort_label(self.sort_mode))
            },
            KeyCode::Char('n') => act is Stay && self.dialog_opened(o, Dialog::NewFile, Seq::empty()),
            KeyCode::Char('N') => act is Stay && self.dialog_opened(o, Dialog::NewDir, Seq::empty()),
            KeyCode::Char('r') => act is Stay && if has_sel {
                self.dialog_opened(o, Dialog::Rename, e.name@)
            } else {
                self.unchanged(o)
            },
            KeyCode::Char('d') | KeyCode::Delete => act is Stay && if has_sel {
                &&& self.keeps_view(o)
                &&& self.confirm matches Some(Confirm::Delete { name, is_dir }) && name@ == e.name@ && is_dir == e.is_dir
                &&& self.dialog == o.dialog
                &&& self.dialog_input == o.dialog_input
                &&& self.status_msg == o.status_msg
                &&& self.yanked == o.yanked
                &&& self.cut_mode == o.cut_mode
                &&& self.show_preview == o.show_preview
                &&& self.tick == o.tick
                &&& self.show_open_with == o.show_open_with
                &&& self.open_with_selected == o.open_with_selected
                &&& self.layout == o.layout
            } else {
                self.unchanged(o)
            },
            KeyCode::Char('y') => act is Stay && if has_sel {
                self.clipped(o, e.path@, false, "📋 yanked: "@ + e.name@ + " ("@ + size_text(e.size as nat) + ")"@)
            } else {
                self.unchanged(o)
            },
            KeyCode::Char('p') => match o.yanked {
                Some(y) => act == ExplorerAction::Paste(y) && self.unchanged(o),
                None => act is Stay && self.status_set(o, "nothing yanked — press y first"@),
            },
            KeyCode::Char('x') => act is Stay && if has_sel {
                self.clipped(o, e.path@, true, "✂️ cut: "@ + e.name@)
            } else {
                self.unchanged(o)
            },
            KeyCode::Char('P') => if o.cut_mode {
                match o.yanked {
                    Some(y) => {
                        &&& act == ExplorerAction::MoveHere(y)
                        &&& self.keeps_view(o)
                        &&& self.yanked is None
                        &&& !self.cut_mode
                        &&& self.status_msg == o.status_msg
                        &&& self.dialog == o.dialog
                        &&& self.dialog_input == o.dialog_input
                        &&& self.confirm == o.confirm
                        &&& self.show_preview == o.show_preview
                        &&& self.tick == o.tick
                        &&& self.show_open_with == o.show_open_with
                        &&& self.open_with_selected == o.open_with_selected
                        &&& self.layout == o.layout
                    },
                    None => act is Stay && self.unchanged(o),
                }
            } else {
                act is Stay && self.status_set(o, "nothing to move — press x first"@)
            },
            KeyCode::Char('I') => if has_sel {
                act matches ExplorerAction::Import(p) && p@ == e.path@ && self.unchanged(o)
            } else {
                act is Stay && self.unchanged(o)
            },
            KeyCode::Char('c') => {
                &&& act matches ExplorerAction::CdHere(p) && p@ == if has_sel && e.is_dir { e.path@ } else { o.cwd@ }
                &&& self.unchanged(o)
            },
            KeyCode::Char('v') => {
                &&& act is Stay
                &&& self.keeps_view(o)
                &&& self.show_preview == !o.show_preview
                &&& self.dialog == o.dialog
                &&& self.dialog_input == o.dialog_input
                &&& self.confirm == o.confirm
                &&& self.status_msg == o.status_msg
                &&& self.yanked == o.yanked
                &&& self.cut_mode == o.cut_mode
                &&& self.tick == o.tick
                &&& self.show_open_with == o.show_open_with
                &&& self.open_with_selected == o.open_with_selected
                &&& self.layout == o.layout
            },
            KeyCode::Char('/') => {
                &&& act is Stay
                &&& self.filter_active
                &&& self.filter@.len() == 0
                &&& self.entries@ == o.entries@
                &&& self.all_entries@ == o.all_entries@
                &&& self.cwd == o.cwd
                &&& self.selected == o.selected
                &&& self.scroll_offset == o.scroll_offset
                &&& self.preview == o.preview
                &&& self.same_modes(o)
            },
            KeyCode::Char('\\') => {
                &&& act is Stay
                &&& self.filter@.len() == 0
                &&& !self.filter_active
                &&& shows(self.entries@, o.all_entries@, Seq::empty(), o.cwd@)
                &&& self.all_entries@ == o.all_entries@
                &&& self.cwd == o.cwd
                &&& self.selected == 0
                &&& self.scroll_offset == 0
                &&& self.preview == o.preview
                &&& self.modes_but_status(o)
                &&& self.status_is("filter cleared"@)
            },
            KeyCode::Char('X') => if has_sel {
                act matches ExplorerAction::ToggleExec(p) && p@ == e.path@ && self.unchanged(o)
            } else {
                act is Stay && self.unchanged(o)
            },
            _ => act is Stay && self.unchanged(o),
        }
    }

    /// Handles a key in the normal mode (see `normal_key_effect`).
    pub fn normal_key(&mut self, key: KeyPress) -> (act: ExplorerAction)
        requires
            old(self).entries@.len() > 0 ==> old(self).selected + PAGE_ROWS <= usize::MAX,
        ensures
            final(self).normal_key_effect(&*old(self), key, act),
    {
        match key.code {
            KeyCode::Esc => ExplorerAction::Quit,
            KeyCode::Up => {
                self.move_up();
                ExplorerAction::Stay
            },
            KeyCode::Down => {
                self.move_down();
                ExplorerAction::Stay
            },
            KeyCode::PageUp => {
                self.page_up(PAGE_ROWS);
                ExplorerAction::Stay
            },
            KeyCode::PageDown => {
                self.page_down(PAGE_ROWS);
                ExplorerAction::Stay
            },
            KeyCode::Home => {
                self.to_top();
                ExplorerAction::Stay
            },
            KeyCode::End => {
                self.to_bottom();
                ExplorerAction::Stay
            },
            KeyCode::Enter | KeyCode::Right => self.open_entry(),
            KeyCode::Backspace | KeyCode::Left => ExplorerAction::GoUp,
            KeyCode::Delete => {
                self.ask_delete();
                ExplorerAction::Stay
            },
            KeyCode::Char(c) => self.normal_char(c, key.ctrl),
            KeyCode::Other => ExplorerAction::Stay,
        }
    }

    /// Selects the top row.
    fn to_top(&mut self)
        ensures
            final(self).selected_to(&*old(self), 0),
    {
        self.selected = 0;
        self.invalidate_preview();
    }

    /// Selects the last row, if there is one.
    fn to_bottom(&mut self)
        ensures
            old(self).entries@.len() > 0 ==> final(self).selected_to(&*old(self), (old(self).entries@.len() - 1) as usize),
            old(self).entries@.len() == 0 ==> final(self).unchanged(&*old(self)),
    {
        let n = self.entries.len();
        if n > 0 {
            self.selected = n - 1;
            self.invalidate_preview();
        }
    }

    /// Asks whether to delete the selected row, if any.
    fn ask_delete(&mut self)
        ensures
            final(self).normal_key_effect(
                &*old(self),
                KeyPress { code: KeyCode::Delete, ctrl: false, plain: true },
                ExplorerAction::Stay,
            ),
    {
        if self.selected < self.entries.len() {
            let e = &self.entries[self.selected];
            self.confirm = Some(Confirm::Delete { name: e.name.clone(), is_dir: e.is_dir });
        }
    }

    /// Handles a character key in the normal mode.
    fn normal_char(&mut self, c: char, ctrl: bool) -> (act: ExplorerAction)
        requires
            old(self).entries@.len() > 0 ==> old(self).selected + PAGE_ROWS <= usize::MAX,
        ensures
            final(self).normal_key_effect(&*old(self), KeyPress { code: KeyCode::Char(c), ctrl, plain: !ctrl }, act),
            forall|p: bool| final(self).normal_key_effect(&*old(self), KeyPress { code: KeyCode::Char(c), ctrl, plain: p }, act),
    {
        let has_sel = self.selected < self.entries.len();
        if c == 'q' || (c == 'c' && ctrl) {
            ExplorerAction::Quit
        } else if c == 'k' {
            self.move_up();
            ExplorerAction::Stay
        } else if c == 'j' {
            self.move_down();
            ExplorerAction::Stay
        } else if c == 'g' {
            self.to_top();
            ExplorerAction::Stay
        } else if c == 'G' {
            self.to_bottom();
            ExplorerAction::Stay
        } else if c == 'l' {
            self.open_entry()
        } else if c == 'o' {
            self.show_open_with_menu();
            ExplorerAction::Stay
        } else if c == 'h' {
            ExplorerAction::GoUp
        } else if c == '~' {
            ExplorerAction::GoHome
        } else if c == 'm' {
            if self.mounted_drives.len() > 0 {
                ExplorerAction::EnterDrive(self.mounted_drives[0].path.clone())
            } else {
                self.status_msg = Some("no external drives found".to_owned());
                ExplorerAction::Stay
            }
        } else if c == 'M' {
            ExplorerAction::ListDrives
        } else if c == '.' {
            self.show_hidden = !self.show_hidden;
            self.status_msg = Some(
                if self.show_hidden { "showing hidden".to_owned() } else { "hiding hidden".to_owned() },
            );
            ExplorerAction::Refresh
        } else if c == 's' {
            self.cycle_sort();
            ExplorerAction::Refresh
        } else if c == 'n' {
            self.dialog = Some(Dialog::NewFile);
            self.dialog_input = String::new();
            ExplorerAction::Stay
        } else if c == 'N' {
            self.dialog = Some(Dialog::NewDir);
            self.dialog_input = String::new();
            ExplorerAction::Stay
        } else if c == 'r' {
            if has_sel {
                let name = self.entries[self.selected].name.clone();
                self.dialog = Some(Dialog::Rename);
                self.dialog_input = name;
            }
            ExplorerAction::Stay
        } else if c == 'd' {
            self.ask_delete();
            ExplorerAction::Stay
        } else if c == 'y' {
            if has_sel {
                let e = &self.entries[self.selected];
                let mut m = "📋 yanked: ".to_owned();
                append_text(&mut m, e.name.as_str());
                append_text(&mut m, " (");
                append_text(&mut m, format_size(e.size).as_str());
                append_text(&mut m, ")");
                self.yanked = Some(e.path.clone());
                self.cut_mode = false;
                self.status_msg = Some(m);
            }
            ExplorerAction::Stay
        } else if c == 'p' {
            match &self.yanked {
                Some(y) => ExplorerAction::Paste(y.clone()),
                None => {
                    self.status_msg = Some("nothing yanked — press y first".to_owned());
                    ExplorerAction::Stay
                },
            }
        } else if c == 'x' {
            if has_sel {
                let e = &self.entries[self.selected];
                let m = text_concat("✂️ cut: ", e.name.as_str());
                self.yanked = Some(e.path.clone());
                self.cut_mode = true;
                self.status_msg = Some(m);
            }
            ExplorerAction::Stay
        } else if c == 'P' {
            if self.cut_mode {
                match &self.yanked {
                    Some(y) => {
                        let src = y.clone();
                        self.yanked = None;
                        self.cut_mode = false;
                        ExplorerAction::MoveHere(src)
                    },
                    None => ExplorerAction::Stay,
                }
            } else {
                self.status_msg = Some("nothing to move — press x first".to_owned());
                ExplorerAction::Stay
            }
        } else if c == 'I' {
            if has_sel {
                ExplorerAction::Import(self.entries[self.selected].path.clone())
            } else {
                ExplorerAction::Stay
            }
        } else if c == 'c' {
            if has_sel && self.entries[self.selected].is_dir {
                ExplorerAction::CdHere(self.entries[self.selected].path.clone())
            } else {
                ExplorerAction::CdHere(self.cwd.clone())
            }
        } else if c == 'v' {
            self.show_preview = !self.show_preview;
            ExplorerAction::Stay
        } else if c == '/' {
            self.start_filter();
            ExplorerAction::Stay
        } else if c == '\\' {
            self.clear_filter();
            self.status_msg = Some("filter cleared".to_owned());
            ExplorerAction::Stay
        } else if c == 'X' {
            if has_sel {
                ExplorerAction::ToggleExec(self.entries[self.selected].path.clone())
            } else {
                ExplorerAction::Stay
            }
        } else {
            ExplorerAction::Stay
        }
    }

    // ── Dispatch ───────────────────────────────────────────────────────────

    /// What a key does: the live filter takes it first, then the "open
    /// with" menu, a text dialog, a yes/no question, and else the normal
    /// bindings.
    pub open spec fn key_effect(&self, o: &ExplorerState, key: KeyPress, act: ExplorerAction) -> bool {
        if o.filter_active {
            act is Stay && self.filter_key_effect(o, key.code)
        } else if o.show_open_with {
            self.menu_key_effect(o, key.code, act)
        } else if o.dialog is Some {
            self.dialog_key_effect(o, key.code, act)
        } else if o.confirm is Some {
            self.confirm_key_effect(o, key.code, act)
        } else {
            self.normal_key_effect(o, key, act)
        }
    }

    /// Handles a key press (see `key_effect`).
    pub fn handle_key(&mut self, key: KeyPress) -> (act: ExplorerAction)
        requires
            old(self).entries@.len() > 0 ==> old(self).selected + PAGE_ROWS <= usize::MAX,
            old(self).open_with_selected < usize::MAX,
        ensures
            final(self).key_effect(&*old(self), key, act),
    {
        if self.filter_active {
            self.filter_key(key.code);
            ExplorerAction::Stay
        } else if self.show_open_with {
            self.menu_key(key.code)
        } else if self.dialog.is_some() {
            self.dialog_key(key.code)
        } else if self.confirm.is_some() {
            self.confirm_key(key.code)
        } else {
            self.normal_key(key)
        }
    }

    // ── Drives ─────────────────────────────────────────────────────────────

    /// Records the drives found and lists them in the status, or says that
    /// none were found.
    pub fn list_drives(&mut self, drives: Vec<MountedDrive>)
        ensures
            final(self).mounted_drives@ == drives@,
            final(self).status_is(
                if drives@.len() == 0 {
                    "no drives at /media, /mnt, or /run/media"@
                } else {
                    "drives: "@ + joined(drive_labels(drives@), " | "@)
                },
            ),
            final(self).cwd == old(self).cwd,
            final(self).entries@ == old(self).entries@,
            final(self).all_entries@ == old(self).all_entries@,
            final(self).selected == old(self).selected,
            final(self).scroll_offset == old(self).scroll_offset,
            final(self).preview == old(self).preview,
            final(self).modes_but_status(&*old(self)),
    {
        if drives.len() == 0 {
            self.status_msg = Some("no drives at /media, /mnt, or /run/media".to_owned());
        } else {
            let mut m = "drives: ".to_owned();
            for i in 0..drives.len()
                invariant
                    m@ == "drives: "@ + joined(drive_labels(drives@.take(i as int)), " | "@),
            {
                let ghost before = m@;
                let ghost ls = drive_labels(drives@.take(i as int));
                let ghost ls1 = drive_labels(drives@.take(i + 1));
                let label = drive_label_text(&drives[i]);
                proof {
                    assert(ls1 =~= ls.push(drive_label(drives@[i as int])));
                    assert(ls1.drop_last() =~= ls);
                }
                if i > 0 {
                    append_text(&mut m, " | ");
                    append_text(&mut m, label.as_str());
                    proof {
                        assert(joined(ls1, " | "@) == joined(ls, " | "@) + " | "@ + label@);
                        assert(m@ =~= "drives: "@ + (joined(ls, " | "@) + " | "@ + label@));
                    }
                } else {
                    append_text(&mut m, label.as_str());
                    proof {
                        assert(joined(ls, " | "@) =~= Seq::<char>::empty());
                        assert(joined(ls1, " | "@) == label@);
                        assert(m@ =~= "drives: "@ + label@);
                    }
                }
            }
            assert(drives@.take(drives.len() as int) =~= drives@);
            self.status_msg = Some(m);
        }
        self.mounted_drives = drives;
    }

    /// Names the first drive in the status after entering it.
    pub fn name_first_drive(&mut self)
        requires
            old(self).mounted_drives@.len() > 0,
        ensures
            final(self).status_set(&*old(self), "📱 "@ + old(self).mounted_drives@[0].name@),
    {
        self.status_msg = Some(text_concat("📱 ", self.mounted_drives[0].name.as_str()));
    }

    // ── Mouse ──────────────────────────────────────────────────────────────

    /// A press at (`col`, `row`) at time `now_ms` repeats click `c`: the
    /// same cell and row, less than 400 ms later (no time passes on a clock
    /// that went back).
    pub open spec fn repeats(c: Click, col: u16, row: u16, index: usize, now_ms: u64) -> bool {
        &&& (if now_ms >= c.at_ms { now_ms - c.at_ms } else { 0 }) < DOUBLE_CLICK_MS
        &&& c.col == col
        &&& c.row == row
        &&& c.index == index
    }

    /// What a mouse event does: the wheel moves the selection; a left
    /// press on a row selects it, and a second press on the same row
    /// within 400 ms opens it; anything else does nothing. `last` is the
    /// press remembered for double clicks, and `r.1` the one to remember
    /// next.
    pub open spec fn mouse_effect(
        &self,
        o: &ExplorerState,
        kind: MouseKind,
        col: u16,
        row: u16,
        now_ms: u64,
        last: Option<Click>,
        r: (ExplorerAction, Option<Click>),
    ) -> bool {
        let hit = o.layout.hit_row(col, row, o.scroll_offset);
        match kind {
            MouseKind::ScrollUp => r.0 is Stay && r.1 == last && self.moved_up(o),
            MouseKind::ScrollDown => r.0 is Stay && r.1 == last && self.moved_down(o),
            MouseKind::LeftDown => match hit {
                Some(idx) => if idx < o.entries@.len() {
                    if last matches Some(c) && Self::repeats(c, col, row, idx, now_ms) {
                        &&& r.1 is None
                        &&& exists|mid: ExplorerState| #[trigger] mid.selected_to(o, idx) && self.open_entry_effect(&mid, r.0)
                    } else {
                        &&& r.0 is Stay
                        &&& r.1 == Some(Click { at_ms: now_ms, col, row, index: idx })
                        &&& self.selected_to(o, idx)
                    }
                } else {
                    r.0 is Stay && r.1 == last && self.unchanged(o)
                },
                None => r.0 is Stay && r.1 == last && self.unchanged(o),
            },
            MouseKind::Other => r.0 is Stay && r.1 == last && self.unchanged(o),
        }
    }

    /// Handles a mouse event (see `mouse_effect`).
    pub fn mouse_event(
        &mut self,
        kind: MouseKind,
        col: u16,
        row: u16,
        now_ms: u64,
        last: Option<Click>,
    ) -> (r: (ExplorerAction, Option<Click>))
        requires
            old(self).layout.file_list.fits(),
            old(self).layout.row_fits(col, row, old(self).scroll_offset),
            old(self).entries@.len() > 0 ==> old(self).selected < usize::MAX,
        ensures
            final(self).mouse_effect(&*old(self), kind, col, row, now_ms, last, r),
    {
        match kind {
            MouseKind::ScrollUp => {
                self.move_up();
                (ExplorerAction::Stay, last)
            },
            MouseKind::ScrollDown => {
                self.move_down();
                (ExplorerAction::Stay, last)
            },
            MouseKind::LeftDown => {
                match self.layout.row_at(col, row, self.scroll_offset) {
                    Some(idx) => {
                        if idx < self.entries.len() {
                            let double = match last {
                                Some(c) => {
                                    let age = if now_ms >= c.at_ms { now_ms - c.at_ms } else { 0 };
                                    age < DOUBLE_CLICK_MS && c.col == col && c.row == row && c.index == idx
                                },
                                None => false,
                            };
                            let ghost o = *self;
                            self.selected = idx;
                            self.invalidate_preview();
                            if double {
                                let ghost mid = *self;
                                let act = self.open_entry();
                                assert(mid.selected_to(&o, idx));
                                (act, None)
                            } else {
                                (ExplorerAction::Stay, Some(Click { at_ms: now_ms, col, row, index: idx }))
                            }
                        } else {
                            (ExplorerAction::Stay, last)
                        }
                    },
                    None => (ExplorerAction::Stay, last),
                }
            },
            MouseKind::Other => (ExplorerAction::Stay, last),
        }
    }
}

/// The label of a drive, as text.
fn drive_label_text(d: &MountedDrive) -> (r: String)
    ensures
        r@ == drive_label(*d),
{
    let mut m = d.icon.clone();
    append_text(&mut m, " ");
    append_text(&mut m, d.name.as_str());
    append_text(&mut m, " (");
    append_text(&mut m, format_size(d.size_total).as_str());
    append_text(&mut m, ")");
    m
}

/// How a drive is listed: icon, name and total size.
pub open spec fn drive_label(d: MountedDrive) -> Seq<char> {
    d.icon@ + " "@ + d.name@ + " ("@ + size_text(d.size_total as nat) + ")"@
}

/// The labels of a list of drives.
pub open spec fn drive_labels(ds: Seq<MountedDrive>) -> Seq<Seq<char>> {
    ds.map_values(|d: MountedDrive| drive_label(d))
}

/// The texts of `parts` with `sep` between each two.
pub open spec fn joined(parts: Seq<Seq<char>>, sep: Seq<char>) -> Seq<char>
    decreases parts.len(),
{
    if parts.len() == 0 {
        Seq::empty()
    } else if parts.len() == 1 {
        parts[0]
    } else {
        joined(parts.drop_last(), sep) + sep + parts.last()
    }
}

/// Typing a character into the live filter and erasing it again gives back
/// the filter text and shows the rows that filter shows.
pub proof fn law_filter_erase_undoes_type(o: ExplorerState, m: ExplorerState, n: ExplorerState, c: char)
    requires
        o.filter_active,
        m.filter_key_effect(&o, KeyCode::Char(c)),
        n.filter_key_effect(&m, KeyCode::Backspace),
    ensures
        n.filter@ == o.filter@,
        shows(n.entries@, o.all_entries@, o.filter@, o.cwd@),
        n.filter_active,
{
    assert(m.filter@.drop_last() =~= o.filter@);
}

/// Moving the selection up and then down comes back to the same row.
pub proof fn law_down_undoes_up(o: ExplorerState, m: ExplorerState, n: ExplorerState)
    requires
        o.selected < o.entries@.len() <= usize::MAX,
        m.moved_up(&o),
        n.moved_down(&m),
    ensures
        n.selected == o.selected,
{
    let len = o.entries@.len() as int;
    assert(m.entries@.len() == len);
    if o.selected == 0 {
        assert(m.selected == len - 1);
        assert((len - 1 + 1) % len == 0) by (nonlinear_arith)
            requires
                len > 0,
        ;
    } else {
        assert(m.selected == o.selected - 1);
        assert((o.selected - 1 + 1) % len == o.selected as int) by (nonlinear_arith)
            requires
                0 < o.selected < len,
        ;
    }
}

} // verus!
