//! The explorer's file operations, apart from the disk work itself: what a
//! dialog or a yes/no question asks for, how pasted and imported copies are
//! named, the command that opens an entry with a chosen program, how the
//! executable bits are flipped, and the messages that report success.

use vstd::prelude::*;
use crate::explorer::{Confirm, Dialog, ExplorerState, Opener};
use crate::fmt::{decimal, decimal_chars, format_size, size_text};
use crate::paths::{
    extension_of, file_name_of, join_path, opt_text, path_extension, path_file_name, path_join,
    path_stem, stem_of,
};
use crate::text::{append_text, chars_of, string_of, text_concat, trim_chars, trimmed};

verus! {

// ── Dialogs and questions ──────────────────────────────────────────────────

/// What carrying out the open text dialog asks for.
#[derive(Debug)]
pub enum DialogRequest {
    /// No dialog is open.
    Closed,
    /// Nothing to do on disk; show this message.
    Reply(String),
    /// Create the file (or, with `dir`, the directory) `path`, named `name`.
    Create { path: String, name: String, dir: bool },
    /// Rename `from` to `to`, whose name is `name`.
    Rename { from: String, to: String, name: String },
}

/// What carrying out the open yes/no question asks for.
#[derive(Debug)]
pub enum ConfirmRequest {
    /// No question is open.
    Closed,
    /// Nothing to do on disk; show this message.
    Reply(String),
    /// Delete `path` (a whole tree when `is_dir`), named `name`.
    Remove { path: String, is_dir: bool, name: String },
    /// Copy `src` over `dest`; `name` is the source's file name.
    Copy { src: String, dest: String, name: String },
}

/// The text of a file name, or `default` when there is none.
pub open spec fn name_or(name: Option<Seq<char>>, default: Seq<char>) -> Seq<char> {
    match name {
        Some(n) => n,
        None => default,
    }
}

/// What the open dialog asks for: the typed name is trimmed and must not
/// be empty; a new file or directory is created under the current
/// directory; a rename moves the selected entry to that name in the
/// current directory (and needs a selection).
pub fn dialog_request(state: &ExplorerState) -> (r: DialogRequest)
    ensures
        state.dialog is None ==> r is Closed,
        state.dialog is Some && trimmed(state.dialog_input@).len() == 0 ==> (r matches DialogRequest::Reply(m)
            && m@ == "name cannot be empty"@),
        state.dialog matches Some(d) ==> trimmed(state.dialog_input@).len() > 0 ==> {
            let input = trimmed(state.dialog_input@);
            match d {
                Dialog::NewFile => r matches DialogRequest::Create { path, name, dir } && path@ == path_join(
                    state.cwd@,
                    input,
                ) && name@ == input && !dir,
                Dialog::NewDir => r matches DialogRequest::Create { path, name, dir } && path@ == path_join(
                    state.cwd@,
                    input,
                ) && name@ == input && dir,
                Dialog::Rename => if state.selected < state.entries@.len() {
                    r matches DialogRequest::Rename { from, to, name } && from@ == state.entries@[state.selected as int].path@
                        && to@ == path_join(state.cwd@, input) && name@ == input
                } else {
                    r matches DialogRequest::Reply(m) && m@ == "nothing selected"@
                },
            }
        },
{
    let d = match state.dialog {
        Some(d) => d,
        None => return DialogRequest::Closed,
    };
    let input = string_of(&trim_chars(&chars_of(state.dialog_input.as_str())));
    if input.as_str().is_empty() {
        return DialogRequest::Reply("name cannot be empty".to_owned());
    }
    match d {
        Dialog::NewFile => DialogRequest::Create {
            path: join_path(state.cwd.as_str(), input.as_str()),
            name: input,
            dir: false,
        },
        Dialog::NewDir => DialogRequest::Create {
            path: join_path(state.cwd.as_str(), input.as_str()),
            name: input,
            dir: true,
        },
        Dialog::Rename => {
            if state.selected < state.entries.len() {
                DialogRequest::Rename {
                    from: state.entries[state.selected].path.clone(),
                    to: join_path(state.cwd.as_str(), input.as_str()),
                    name: input,
                }
            } else {
                DialogRequest::Reply("nothing selected".to_owned())
            }
        },
    }
}

/// What the open question asks for: a delete removes the selected entry
/// (and needs a selection); an overwrite copies its source over its
/// destination.
pub fn confirm_request(state: &ExplorerState) -> (r: ConfirmRequest)
    ensures
        state.confirm is None ==> r is Closed,
        state.confirm matches Some(Confirm::Delete { name, is_dir }) ==> if state.selected < state.entries@.len() {
            r matches ConfirmRequest::Remove { path, is_dir: d, name: n } && path@ == state.entries@[state.selected as int].path@
                && d == is_dir && n@ == name@
        } else {
            r matches ConfirmRequest::Reply(m) && m@ == "nothing selected"@
        },
        state.confirm matches Some(Confirm::Overwrite { src, dest }) ==> r matches ConfirmRequest::Copy {
            src: s,
            dest: d,
            name,
        } && s@ == src@ && d@ == dest@ && name@ == name_or(path_file_name(src@), Seq::empty()),
{
    match &state.confirm {
        None => ConfirmRequest::Closed,
        Some(Confirm::Delete { name, is_dir }) => {
            if state.selected < state.entries.len() {
                ConfirmRequest::Remove {
                    path: state.entries[state.selected].path.clone(),
                    is_dir: *is_dir,
                    name: name.clone(),
                }
            } else {
                ConfirmRequest::Reply("nothing selected".to_owned())
            }
        },
        Some(Confirm::Overwrite { src, dest }) => {
            let name = match file_name_of(src.as_str()) {
                Some(n) => n,
                None => String::new(),
            };
            ConfirmRequest::Copy { src: src.clone(), dest: dest.clone(), name }
        },
    }
}

// ── Opening with a program ─────────────────────────────────────────────────

/// The shell command line that opens the selected entry with opener `idx`
/// (the opener's command, then the entry's path in double quotes), with
/// the opener's name; none without a selection or such an opener.
pub fn open_with_request(state: &ExplorerState, idx: usize) -> (r: Option<(String, String)>)
    ensures
        state.selected < state.entries@.len() && idx < state.openers@.len() ==> (r matches Some((line, name))
            && line@ == state.openers@[idx as int].command@ + " \""@ + state.entries@[state.selected as int].path@
            + "\""@ && name@ == state.openers@[idx as int].name@),
        !(state.selected < state.entries@.len() && idx < state.openers@.len()) ==> r is None,
{
    if state.selected >= state.entries.len() || idx >= state.openers.len() {
        return None;
    }
    let o = &state.openers[idx];
    let mut line = o.command.clone();
    append_text(&mut line, " \"");
    append_text(&mut line, state.entries[state.selected].path.as_str());
    append_text(&mut line, "\"");
    Some((line, o.name.clone()))
}

/// The programs offered in the "open with" menu, when installed: display
/// name, command, icon.
pub open spec fn opener_table() -> Seq<(Seq<char>, Seq<char>, Seq<char>)> {
    seq![
        ("VS Code"@, "code"@, "💻"@), ("VS Code Insiders"@, "code-insiders"@, "💻"@),
        ("Cursor"@, "cursor"@, "💻"@), ("Zed"@, "zed"@, "💻"@),
        ("Neovim"@, "nvim"@, "📝"@), ("Vim"@, "vim"@, "📝"@),
        ("Nano"@, "nano"@, "📝"@), ("Helix"@, "hx"@, "📝"@),
        ("Emacs"@, "emacs"@, "📝"@), ("Micro"@, "micro"@, "📝"@),
        ("Sublime Text"@, "subl"@, "💻"@),
        ("IntelliJ IDEA"@, "idea"@, "☕"@), ("PyCharm"@, "pycharm"@, "🐍"@),
        ("WebStorm"@, "webstorm"@, "🌐"@), ("CLion"@, "clion"@, "⚙️"@),
        ("GoLand"@, "goland"@, "🔷"@), ("RustRover"@, "rustrover"@, "🦀"@),
        ("Kate"@, "kate"@, "📝"@), ("Gedit"@, "gedit"@, "📝"@), ("Mousepad"@, "mousepad"@, "📝"@),
        ("Thunar"@, "thunar"@, "📂"@), ("Nautilus"@, "nautilus"@, "📂"@),
        ("Dolphin"@, "dolphin"@, "📂"@), ("Nemo"@, "nemo"@, "📂"@), ("Ranger"@, "ranger"@, "📂"@),
        ("Less"@, "less"@, "👁️"@), ("Bat"@, "bat"@, "👁️"@), ("Cat"@, "cat"@, "👁️"@),
        ("Eye of GNOME"@, "eog"@, "🖼️"@), ("feh"@, "feh"@, "🖼️"@),
        ("Gwenview"@, "gwenview"@, "🖼️"@), ("Ristretto"@, "ristretto"@, "🖼️"@),
        ("VLC"@, "vlc"@, "🎬"@), ("MPV"@, "mpv"@, "🎬"@), ("Celluloid"@, "celluloid"@, "🎬"@),
        ("Evince"@, "evince"@, "📕"@), ("Okular"@, "okular"@, "📕"@),
        ("Zathura"@, "zathura"@, "📕"@), ("LibreOffice"@, "libreoffice"@, "📄"@),
        ("Firefox"@, "firefox"@, "🌐"@), ("Chromium"@, "chromium"@, "🌐"@),
        ("Google Chrome"@, "google-chrome-stable"@, "🌐"@), ("Brave"@, "brave"@, "🌐"@),
        ("GIMP"@, "gimp"@, "🎨"@), ("Inkscape"@, "inkscape"@, "🎨"@),
        ("Blender"@, "blender"@, "🎮"@), ("Audacity"@, "audacity"@, "🎵"@),
        ("Kdenlive"@, "kdenlive"@, "🎬"@)
    ]
}

/// The views of a table of three texts.
pub open spec fn triples(t: Seq<(&str, &str, &str)>) -> Seq<(Seq<char>, Seq<char>, Seq<char>)> {
    t.map_values(|e: (&str, &str, &str)| (e.0@, e.1@, e.2@))
}

/// The programs offered in the "open with" menu, in the order of
/// `opener_table`.
pub fn opener_candidates() -> (r: Vec<(&'static str, &'static str, &'static str)>)
    ensures
        triples(r@) == opener_table(),
{
    let r = vec![
        ("VS Code", "code", "💻"), ("VS Code Insiders", "code-insiders", "💻"),
        ("Cursor", "cursor", "💻"), ("Zed", "zed", "💻"),
        ("Neovim", "nvim", "📝"), ("Vim", "vim", "📝"),
        ("Nano", "nano", "📝"), ("Helix", "hx", "📝"),
        ("Emacs", "emacs", "📝"), ("Micro", "micro", "📝"),
        ("Sublime Text", "subl", "💻"),
        ("IntelliJ IDEA", "idea", "☕"), ("PyCharm", "pycharm", "🐍"),
        ("WebStorm", "webstorm", "🌐"), ("CLion", "clion", "⚙️"),
        ("GoLand", "goland", "🔷"), ("RustRover", "rustrover", "🦀"),
        ("Kate", "kate", "📝"), ("Gedit", "gedit", "📝"), ("Mousepad", "mousepad", "📝"),
        ("Thunar", "thunar", "📂"), ("Nautilus", "nautilus", "📂"),
        ("Dolphin", "dolphin", "📂"), ("Nemo", "nemo", "📂"), ("Ranger", "ranger", "📂"),
        ("Less", "less", "👁️"), ("Bat", "bat", "👁️"), ("Cat", "cat", "👁️"),
        ("Eye of GNOME", "eog", "🖼️"), ("feh", "feh", "🖼️"),
        ("Gwenview", "gwenview", "🖼️"), ("Ristretto", "ristretto", "🖼️"),
        ("VLC", "vlc", "🎬"), ("MPV", "mpv", "🎬"), ("Celluloid", "celluloid", "🎬"),
        ("Evince", "evince", "📕"), ("Okular", "okular", "📕"),
        ("Zathura", "zathura", "📕"), ("LibreOffice", "libreoffice", "📄"),
        ("Firefox", "firefox", "🌐"), ("Chromium", "chromium", "🌐"),
        ("Google Chrome", "google-chrome-stable", "🌐"), ("Brave", "brave", "🌐"),
        ("GIMP", "gimp", "🎨"), ("Inkscape", "inkscape", "🎨"),
        ("Blender", "blender", "🎮"), ("Audacity", "audacity", "🎵"),
        ("Kdenlive", "kdenlive", "🎬"),
    ];
    assert(triples(r@) =~= opener_table());
    r
}

/// `o` is the opener described by table row `t`.
pub open spec fn is_opener(o: Opener, t: (Seq<char>, Seq<char>, Seq<char>)) -> bool {
    o.name@ == t.0 && o.command@ == t.1 && o.icon@ == t.2
}

/// The rows of `t` whose program is present, in order.
pub open spec fn present_rows(
    t: Seq<(Seq<char>, Seq<char>, Seq<char>)>,
    present: Seq<bool>,
) -> Seq<(Seq<char>, Seq<char>, Seq<char>)>
    decreases t.len(),
{
    if t.len() == 0 || present.len() < t.len() {
        Seq::empty()
    } else if present[t.len() - 1] {
        present_rows(t.drop_last(), present).push(t.last())
    } else {
        present_rows(t.drop_last(), present)
    }
}

/// The "open with" menu: the system's default opener (running
/// `default_command`) first, then each program of `opener_table` that is
/// present (`present[i]` tells whether row `i`'s command is installed).
pub fn openers_from(default_command: &str, present: &Vec<bool>) -> (r: Vec<Opener>)
    requires
        present@.len() == opener_table().len(),
    ensures
        r@.len() == present_rows(opener_table(), present@).len() + 1,
        r@[0].name@ == "System Default"@ && r@[0].command@ == default_command@ && r@[0].icon@ == "🔧"@,
        forall|k: int| 0 < k < r@.len() ==> is_opener(#[trigger] r@[k], present_rows(opener_table(), present@)[k - 1]),
{
    let table = opener_candidates();
    let mut r: Vec<Opener> = Vec::new();
    r.push(Opener { name: "System Default".to_owned(), command: default_command.to_owned(), icon: "🔧".to_owned() });
    for i in 0..table.len()
        invariant
            triples(table@) == opener_table(),
            present@.len() == table@.len(),
            r@.len() == present_rows(triples(table@).take(i as int), present@).len() + 1,
            r@[0].name@ == "System Default"@ && r@[0].command@ == default_command@ && r@[0].icon@ == "🔧"@,
            forall|k: int| 0 < k < r@.len() ==> is_opener(#[trigger] r@[k], present_rows(triples(table@).take(i as int), present@)[k - 1]),
    {
        let ghost t = triples(table@);
        proof {
            assert(t.take(i + 1).drop_last() =~= t.take(i as int));
            assert(t.take(i + 1).last() == t[i as int]);
        }
        if present[i] {
            let (n, c, ic) = table[i];
            r.push(Opener { name: n.to_owned(), command: c.to_owned(), icon: ic.to_owned() });
        }
    }
    assert(triples(table@).take(table@.len() as int) =~= triples(table@));
    r
}

// ── Copies ─────────────────────────────────────────────────────────────────

/// The file name a copy or a move keeps (`unknown` without one).
pub fn source_name(source: &str) -> (r: String)
    ensures
        r@ == name_or(path_file_name(source@), "unknown"@),
{
    match file_name_of(source) {
        Some(n) => n,
        None => "unknown".to_owned(),
    }
}

/// The extension of a path with its dot, or nothing.
pub open spec fn dotted_extension(p: Seq<char>) -> Seq<char> {
    match path_extension(p) {
        Some(e) => "."@ + e,
        None => Seq::empty(),
    }
}

/// The `i`-th alternative when pasting onto an existing `dest` in
/// `target_dir`: `<stem>_copy<i><.ext>`.
pub open spec fn numbered_copy_path(target_dir: Seq<char>, dest: Seq<char>, i: nat) -> Seq<char> {
    path_join(target_dir, name_or(path_stem(dest), Seq::empty()) + "_copy"@ + decimal(i) + dotted_extension(dest))
}

/// The text of a path's extension with its dot, or nothing.
fn dotted_extension_of(p: &str) -> (r: String)
    ensures
        r@ == dotted_extension(p@),
{
    match extension_of(p) {
        Some(e) => text_concat(".", e.as_str()),
        None => String::new(),
    }
}

/// The `i`-th alternative name for a paste onto the existing `dest`.
pub fn numbered_copy(target_dir: &str, dest: &str, i: u64) -> (r: String)
    ensures
        r@ == numbered_copy_path(target_dir@, dest@, i as nat),
{
    let mut name = match stem_of(dest) {
        Some(s) => s,
        None => String::new(),
    };
    append_text(&mut name, "_copy");
    append_text(&mut name, string_of(&decimal_chars(i as u128)).as_str());
    append_text(&mut name, dotted_extension_of(dest).as_str());
    join_path(target_dir, name.as_str())
}

/// Where an import goes: the source's name in `target_dir`, or
/// `<stem>_import<.ext>` there when that name is `taken`.
pub open spec fn import_path(source: Seq<char>, target_dir: Seq<char>, taken: bool) -> Seq<char> {
    let first = path_join(target_dir, name_or(path_file_name(source), Seq::empty()));
    if taken {
        path_join(target_dir, name_or(path_stem(first), Seq::empty()) + "_import"@ + dotted_extension(first))
    } else {
        first
    }
}

/// The first destination of an import of `source` into `target_dir`.
pub fn import_destination(source: &str, target_dir: &str) -> (r: String)
    ensures
        r@ == import_path(source@, target_dir@, false),
{
    let name = match file_name_of(source) {
        Some(n) => n,
        None => String::new(),
    };
    join_path(target_dir, name.as_str())
}

/// Plans the copy of `source` (say from a phone or a USB drive) into
/// `target_dir`: its file name, and where the copy goes, given whether the
/// first destination (`import_destination`) is already `taken`.
pub fn copy_from_external(source: &str, target_dir: &str, taken: bool) -> (r: (String, String))
    ensures
        r.0@ == name_or(path_file_name(source@), Seq::empty()),
        r.1@ == import_path(source@, target_dir@, taken),
{
    let name = match file_name_of(source) {
        Some(n) => n,
        None => String::new(),
    };
    let first = join_path(target_dir, name.as_str());
    if !taken {
        return (name, first);
    }
    let mut alt = match stem_of(first.as_str()) {
        Some(s) => s,
        None => String::new(),
    };
    append_text(&mut alt, "_import");
    append_text(&mut alt, dotted_extension_of(first.as_str()).as_str());
    (name, join_path(target_dir, alt.as_str()))
}

/// The message after a paste of `name` to `dest`, with the bytes copied
/// for a file (none for a directory).
pub fn pasted_message(name: &str, bytes: Option<u64>, dest: &str) -> (r: String)
    ensures
        r@ == "✓ pasted: "@ + name@ + match bytes {
            Some(b) => " ("@ + size_text(b as nat) + ")"@,
            None => Seq::empty(),
        } + " → "@ + name_or(path_file_name(dest@), Seq::empty()),
{
    let mut m = text_concat("✓ pasted: ", name);
    let ghost head = m@;
    match bytes {
        Some(b) => {
            append_text(&mut m, " (");
            append_text(&mut m, format_size(b).as_str());
            append_text(&mut m, ")");
        },
        None => {},
    }
    append_text(&mut m, " → ");
    match file_name_of(dest) {
        Some(n) => append_text(&mut m, n.as_str()),
        None => {},
    }
    proof {
        match bytes {
            Some(b) => {
                assert(m@ =~= "✓ pasted: "@ + name@ + (" ("@ + size_text(b as nat) + ")"@) + " → "@ + name_or(path_file_name(dest@), Seq::empty()));
            },
            None => {
                assert(m@ =~= "✓ pasted: "@ + name@ + Seq::<char>::empty() + " → "@ + name_or(path_file_name(dest@), Seq::empty()));
            },
        }
    }
    m
}

/// The text of a failure: a cross and the error's text.
pub open spec fn failure_text(e: Seq<char>) -> Seq<char> {
    "✗ "@ + e
}

/// What is shown once a dialog's request was carried out: nothing for a
/// closed dialog, its reply, else the refusal when the destination already
/// exists (then nothing was done on disk), the failure's text, or the
/// success message.
pub open spec fn dialog_reply_text(req: DialogRequest, dest_exists: bool, failure: Option<Seq<char>>) -> Option<Seq<char>> {
    match req {
        DialogRequest::Closed => None,
        DialogRequest::Reply(m) => Some(m@),
        DialogRequest::Create { path, name, dir } => Some(
            if dest_exists {
                "'"@ + name@ + "' already exists"@
            } else {
                match failure {
                    Some(e) => failure_text(e),
                    None => "✓ created: "@ + name@ + if dir { "/"@ } else { Seq::empty() },
                }
            },
        ),
        DialogRequest::Rename { from, to, name } => Some(
            if dest_exists {
                "'"@ + name@ + "' already exists"@
            } else {
                match failure {
                    Some(e) => failure_text(e),
                    None => "✓ renamed → "@ + name@,
                }
            },
        ),
    }
}

/// The message once a dialog's request was carried out (see
/// `dialog_reply_text`); `dest_exists` says whether the file to create or
/// rename to was there already, and `failure` holds the error's text of
/// the disk operation, if it failed.
pub fn dialog_reply(req: DialogRequest, dest_exists: bool, failure: Option<String>) -> (r: Option<String>)
    ensures
        match r {
            Some(m) => dialog_reply_text(req, dest_exists, opt_text(failure)) == Some(m@),
            None => dialog_reply_text(req, dest_exists, opt_text(failure)) is None,
        },
{
    match req {
        DialogRequest::Closed => None,
        DialogRequest::Reply(m) => Some(m),
        DialogRequest::Create { path, name, dir } => {
            if dest_exists {
                let mut m = text_concat("'", name.as_str());
                append_text(&mut m, "' already exists");
                Some(m)
            } else {
                match failure {
                    Some(e) => Some(text_concat("✗ ", e.as_str())),
                    None => {
                        let mut m = text_concat("✓ created: ", name.as_str());
                        if dir {
                            append_text(&mut m, "/");
                        } else {
                            assert(m@ + Seq::<char>::empty() =~= m@);
                        }
                        Some(m)
                    },
                }
            }
        },
        DialogRequest::Rename { from, to, name } => {
            if dest_exists {
                let mut m = text_concat("'", name.as_str());
                append_text(&mut m, "' already exists");
                Some(m)
            } else {
                match failure {
                    Some(e) => Some(text_concat("✗ ", e.as_str())),
                    None => Some(text_concat("✓ renamed → ", name.as_str())),
                }
            }
        },
    }
}

/// What is shown once a question's request was carried out: nothing for a
/// closed question, its reply, else the failure's text or the success
/// message.
pub open spec fn confirm_reply_text(req: ConfirmRequest, failure: Option<Seq<char>>) -> Option<Seq<char>> {
    match req {
        ConfirmRequest::Closed => None,
        ConfirmRequest::Reply(m) => Some(m@),
        ConfirmRequest::Remove { path, is_dir, name } => Some(
            match failure {
                Some(e) => failure_text(e),
                None => "✓ deleted: "@ + name@,
            },
        ),
        ConfirmRequest::Copy { src, dest, name } => Some(
            match failure {
                Some(e) => failure_text(e),
                None => "✓ copied: "@ + name@,
            },
        ),
    }
}

/// The message once a question's request was carried out (see
/// `confirm_reply_text`); `failure` holds the error's text of the disk
/// operation, if it failed.
pub fn confirm_reply(req: ConfirmRequest, failure: Option<String>) -> (r: Option<String>)
    ensures
        match r {
            Some(m) => confirm_reply_text(req, opt_text(failure)) == Some(m@),
            None => confirm_reply_text(req, opt_text(failure)) is None,
        },
{
    match req {
        ConfirmRequest::Closed => None,
        ConfirmRequest::Reply(m) => Some(m),
        ConfirmRequest::Remove { path, is_dir, name } => match failure {
            Some(e) => Some(text_concat("✗ ", e.as_str())),
            None => Some(text_concat("✓ deleted: ", name.as_str())),
        },
        ConfirmRequest::Copy { src, dest, name } => match failure {
            Some(e) => Some(text_concat("✗ ", e.as_str())),
            None => Some(text_concat("✓ copied: ", name.as_str())),
        },
    }
}

/// What a move of `name` reports: a refusal when the destination exists
/// (nothing is moved), success when the rename worked, else the outcome of
/// the copy that stands in for it across devices.
pub open spec fn move_reply_text(name: Seq<char>, dest_exists: bool, renamed: bool, copy_failure: Option<Seq<char>>) -> Seq<char> {
    if dest_exists {
        "✗ '"@ + name + "' already exists"@
    } else if renamed {
        "✓ moved: "@ + name
    } else {
        match copy_failure {
            Some(e) => "✗ move failed: "@ + e,
            None => "✓ moved: "@ + name + " (cross-device)"@,
        }
    }
}

/// The message of a move (see `move_reply_text`).
pub fn move_reply(name: &str, dest_exists: bool, renamed: bool, copy_failure: Option<String>) -> (r: String)
    ensures
        r@ == move_reply_text(name@, dest_exists, renamed, opt_text(copy_failure)),
{
    if dest_exists {
        let mut m = text_concat("✗ '", name);
        append_text(&mut m, "' already exists");
        m
    } else if renamed {
        text_concat("✓ moved: ", name)
    } else {
        match copy_failure {
            Some(e) => text_concat("✗ move failed: ", e.as_str()),
            None => {
                let mut m = text_concat("✓ moved: ", name);
                append_text(&mut m, " (cross-device)");
                m
            },
        }
    }
}

/// The message after an import of `name` that copied `bytes` bytes.
pub fn imported_message(name: &str, bytes: u64) -> (r: String)
    ensures
        r@ == "✓ imported: "@ + name@ + " ("@ + size_text(bytes as nat) + ")"@,
{
    let mut m = text_concat("✓ imported: ", name);
    append_text(&mut m, " (");
    append_text(&mut m, format_size(bytes).as_str());
    append_text(&mut m, ")");
    m
}

// ── Permissions ────────────────────────────────────────────────────────────

/// Flips the executable bits of a Unix mode: when any is set, all three
/// are cleared; else read and execute are granted to all and write to the
/// owner (`0o755` is added). Gives the new mode and the message to show
/// once it is applied.
pub fn toggle_executable(mode: u32) -> (r: (u32, &'static str))
    ensures
        mode & 0o111 != 0 ==> r.0 == mode & !0o111u32 && r.1@ == "✓ removed +x"@,
        mode & 0o111 == 0 ==> r.0 == mode | 0o755 && r.1@ == "✓ added +x"@,
{
    if mode & 0o111 != 0 {
        (mode & !0o111u32, "✓ removed +x")
    } else {
        (mode | 0o755, "✓ added +x")
    }
}

} // verus!
