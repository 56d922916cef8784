use jump_cli::actions::{
    confirm_request, copy_from_external, dialog_request, imported_message, import_destination,
    numbered_copy, open_with_request, opener_candidates, openers_from, pasted_message, source_name,
    toggle_executable, ConfirmRequest, DialogRequest,
};
use jump_cli::chrome::{blink_at, cursor_blink, fit_cell, parse_ansi, rank_badge, spinner, syntax_tone, Hint, ListCols, Tone};
use jump_cli::cli::{mode_of, Cli, Mode};
use jump_cli::entries::FileEntry;
use jump_cli::explorer::{Confirm, Dialog, ExplorerState, Opener};
use jump_cli::icons::{entry_icon, file_icon};
use jump_cli::jump::{App, JumpAction, KeyCode, KeyPress, SearchResults};
use jump_cli::layout::{ExplorerLayout, JumpLayout, Rect};
use jump_cli::store::VisitStats;

fn typed(c: char) -> KeyPress {
    KeyPress { code: KeyCode::Char(c), ctrl: false, plain: true }
}

fn ctrl(c: char) -> KeyPress {
    KeyPress { code: KeyCode::Char(c), ctrl: true, plain: false }
}

fn code(k: KeyCode) -> KeyPress {
    KeyPress { code: k, ctrl: false, plain: true }
}

fn results(q: &str, m: &[&str]) -> SearchResults {
    SearchResults {
        query: q.to_string(),
        matches: m.iter().map(|s| s.to_string()).collect(),
        local_count: m.len(),
        searching: false,
        tick: 0,
    }
}

#[test]
fn typing_then_backspace_gives_back_the_query() {
    let mut app = App::new("ab", vec![], vec![]);
    app.cursor_left();
    let a = app.handle_key(typed('é'));
    assert!(matches!(a, JumpAction::InputChanged));
    assert_eq!(app.input, "aéb");
    assert_eq!(app.cursor, 3);
    app.handle_key(code(KeyCode::Backspace));
    assert_eq!(app.input, "ab");
    assert_eq!(app.cursor, 1);
}

#[test]
fn line_editing_keys() {
    let mut app = App::new("foo bar-baz", vec![], vec![]);
    app.handle_key(ctrl('w'));
    assert_eq!(app.input, "foo bar");
    app.handle_key(code(KeyCode::Home));
    assert_eq!(app.cursor, 0);
    app.handle_key(code(KeyCode::Delete));
    assert_eq!(app.input, "oo bar");
    app.handle_key(ctrl('e'));
    assert_eq!(app.cursor, app.input.len());
    app.handle_key(ctrl('u'));
    assert_eq!(app.input, "");
    assert_eq!(app.cursor, 0);
    assert!(matches!(app.handle_key(code(KeyCode::Esc)), JumpAction::Cancel));
    assert!(matches!(app.handle_key(ctrl('c')), JumpAction::Cancel));
}

#[test]
fn results_for_another_query_are_ignored() {
    let mut app = App::new("src", vec![], vec![]);
    assert!(!app.accept_results(results("sr", &["/a/sr"])));
    assert!(app.results.matches.is_empty());
    assert!(app.accept_results(results("src", &["/a/src", "/b/src"])));
    app.handle_key(code(KeyCode::Down));
    app.handle_key(code(KeyCode::Down));
    assert_eq!(app.selected, 0);
    app.handle_key(code(KeyCode::Up));
    assert_eq!(app.selected, 1);
    match app.handle_key(code(KeyCode::Enter)) {
        JumpAction::Jump(p) => assert_eq!(p, "/b/src"),
        other => panic!("unexpected {:?}", other),
    }
    assert!(app.begin_search());
    assert!(app.results.searching);
}

#[test]
fn pins_show_when_there_are_no_results() {
    let pins = vec![("work".to_string(), "/w".to_string()), ("api".to_string(), "/a".to_string())];
    let mut app = App::new("", pins, vec![]);
    let shown = app.matching_pins();
    assert_eq!(shown, vec![("api".to_string(), "/a".to_string()), ("work".to_string(), "/w".to_string())]);
    match app.handle_key(code(KeyCode::Enter)) {
        JumpAction::JumpToPin(p) => assert_eq!(p, "/a"),
        other => panic!("unexpected {:?}", other),
    }
    app.handle_key(typed('w'));
    assert_eq!(app.matching_pins(), vec![("work".to_string(), "/w".to_string())]);
    assert!(!app.begin_search() || app.input == "w");
}

#[test]
fn app_frecency_in_quarters() {
    let app = App::new("", vec![], vec![("/x".to_string(), VisitStats { visits: 3, last: 100 })]);
    assert_eq!(app.frecency_quarters("/x", 100), 48);
    assert_eq!(app.frecency_quarters("/y", 100), 0);
}

#[test]
fn jump_layout_hits() {
    let lay = JumpLayout {
        search: Rect { x: 0, y: 0, width: 30, height: 3 },
        list: Rect { x: 0, y: 3, width: 30, height: 10 },
        search_text_x: 4,
    };
    assert_eq!(lay.row_at(2, 5, 10), Some(12));
    assert_eq!(lay.row_at(2, 1, 0), None);
    assert_eq!(lay.cursor_at_search_click(6, 1, 5), Some(2));
    assert_eq!(lay.cursor_at_search_click(29, 1, 5), Some(5));
    let ex = ExplorerLayout { file_list: Rect { x: 1, y: 1, width: 10, height: 10 }, row_height: 2 };
    assert_eq!(ex.row_at(2, 6, 3), Some(5));
    assert_eq!(ex.row_at(0, 6, 3), None);
}

fn entry(name: &str, dir: bool) -> FileEntry {
    FileEntry {
        name: name.to_string(),
        path: format!("/d/{}", name),
        is_dir: dir,
        is_symlink: false,
        size: 1,
        modified: 1,
        is_hidden: false,
        is_executable: false,
        is_readonly: false,
    }
}

fn explorer() -> ExplorerState {
    let openers = vec![Opener { name: "Vim".to_string(), command: "vim".to_string(), icon: "📝".to_string() }];
    let mut s = ExplorerState::new("/d", openers, vec![]);
    s.refresh_with(vec![entry("a.txt", false), entry("sub", true)], vec![]);
    s
}

#[test]
fn dialog_requests() {
    let mut s = explorer();
    assert!(matches!(dialog_request(&s), DialogRequest::Closed));
    s.dialog = Some(Dialog::NewFile);
    s.dialog_input = "   ".to_string();
    match dialog_request(&s) {
        DialogRequest::Reply(m) => assert_eq!(m, "name cannot be empty"),
        other => panic!("unexpected {:?}", other),
    }
    s.dialog_input = "  notes.md ".to_string();
    match dialog_request(&s) {
        DialogRequest::Create { path, name, dir } => {
            assert_eq!(path, "/d/notes.md");
            assert_eq!(name, "notes.md");
            assert!(!dir);
        }
        other => panic!("unexpected {:?}", other),
    }
    s.dialog = Some(Dialog::NewDir);
    assert!(matches!(dialog_request(&s), DialogRequest::Create { dir: true, .. }));
    s.dialog = Some(Dialog::Rename);
    s.selected = 2;
    match dialog_request(&s) {
        DialogRequest::Rename { from, to, name } => {
            assert_eq!(from, "/d/a.txt");
            assert_eq!(to, "/d/notes.md");
            assert_eq!(name, "notes.md");
        }
        other => panic!("unexpected {:?}", other),
    }
    s.selected = 7;
    match dialog_request(&s) {
        DialogRequest::Reply(m) => assert_eq!(m, "nothing selected"),
        other => panic!("unexpected {:?}", other),
    }
}

#[test]
fn confirm_requests() {
    let mut s = explorer();
    assert!(matches!(confirm_request(&s), ConfirmRequest::Closed));
    s.selected = 1;
    s.confirm = Some(Confirm::Delete { name: "sub".to_string(), is_dir: true });
    match confirm_request(&s) {
        ConfirmRequest::Remove { path, is_dir, name } => {
            assert_eq!(path, "/d/sub");
            assert!(is_dir);
            assert_eq!(name, "sub");
        }
        other => panic!("unexpected {:?}", other),
    }
    s.confirm = Some(Confirm::Overwrite { src: "/x/y.txt".to_string(), dest: "/d/y.txt".to_string() });
    match confirm_request(&s) {
        ConfirmRequest::Copy { src, dest, name } => {
            assert_eq!((src.as_str(), dest.as_str(), name.as_str()), ("/x/y.txt", "/d/y.txt", "y.txt"));
        }
        other => panic!("unexpected {:?}", other),
    }
}

#[test]
fn open_with_command_line() {
    let mut s = explorer();
    s.selected = 2;
    assert_eq!(open_with_request(&s, 0), Some(("vim \"/d/a.txt\"".to_string(), "Vim".to_string())));
    assert_eq!(open_with_request(&s, 1), None);
    s.selected = 9;
    assert_eq!(open_with_request(&s, 0), None);
}

#[test]
fn openers_keep_table_order() {
    let table = opener_candidates();
    assert_eq!(table.len(), 48);
    let mut present = vec![false; table.len()];
    present[4] = true;
    present[1] = true;
    let o = openers_from("xdg-open", &present);
    let names: Vec<&str> = o.iter().map(|x| x.name.as_str()).collect();
    assert_eq!(names, vec!["System Default", "VS Code Insiders", "Neovim"]);
    assert_eq!(o[0].command, "xdg-open");
    assert_eq!(o[0].icon, "🔧");
    assert_eq!(o[2].command, "nvim");
}

#[test]
fn copy_names() {
    assert_eq!(source_name("/a/b/report.pdf"), "report.pdf");
    assert_eq!(source_name("/"), "unknown");
    assert_eq!(numbered_copy("/t", "/t/report.pdf", 2), "/t/report_copy2.pdf");
    assert_eq!(numbered_copy("/t", "/t/Makefile", 1), "/t/Makefile_copy1");
    assert_eq!(numbered_copy("/t", "/t/a.tar.gz", 3), "/t/a.tar_copy3.gz");
    assert_eq!(import_destination("/media/usb/pic.jpg", "/h/Downloads"), "/h/Downloads/pic.jpg");
    assert_eq!(
        copy_from_external("/media/usb/pic.jpg", "/h/Downloads", false),
        ("pic.jpg".to_string(), "/h/Downloads/pic.jpg".to_string())
    );
    assert_eq!(
        copy_from_external("/media/usb/pic.jpg", "/h/Downloads", true),
        ("pic.jpg".to_string(), "/h/Downloads/pic_import.jpg".to_string())
    );
}

#[test]
fn copy_messages() {
    assert_eq!(pasted_message("a.txt", Some(2048), "/t/a_copy1.txt"), "✓ pasted: a.txt (2.0K) → a_copy1.txt");
    assert_eq!(pasted_message("dir", None, "/t/dir"), "✓ pasted: dir → dir");
    assert_eq!(imported_message("pic.jpg", 5), "✓ imported: pic.jpg (5B)");
}

#[test]
fn executable_bits_flip() {
    assert_eq!(toggle_executable(0o100644), (0o100755, "✓ added +x"));
    assert_eq!(toggle_executable(0o100755), (0o100644, "✓ removed +x"));
    assert_eq!(toggle_executable(0o100700), (0o100600, "✓ removed +x"));
    assert_eq!(toggle_executable(0o600), (0o755, "✓ added +x"));
}

#[test]
fn spinner_and_blink() {
    assert_eq!(spinner(0), "⠋");
    assert_eq!(spinner(9), "⠙");
    assert_eq!(spinner(7), "⠧");
    assert!(blink_at(0));
    assert!(blink_at(529));
    assert!(!blink_at(530));
    assert!(!blink_at(999));
    let _ = cursor_blink();
}

#[test]
fn cells_columns_badges() {
    assert_eq!(fit_cell("abc", 5), "abc  ");
    assert_eq!(fit_cell("abcdef", 3), "abc");
    assert_eq!(fit_cell("日本", 3), "日本 ");
    assert_eq!(fit_cell("abc", 3), "abc");
    assert_eq!(ListCols::from_width(100).name_w, 77);
    assert_eq!(ListCols::from_width(30).name_w, 14);
    assert_eq!(ListCols::from_width(0).name_w, 14);
    assert_eq!(rank_badge(0), "exact ");
    assert_eq!(rank_badge(1), "prefix");
    assert_eq!(rank_badge(2), "match ");
    assert_eq!(rank_badge(9), "fuzzy ");
    let h = Hint { key: "q", label: "quit" };
    assert_eq!((h.key, h.label), ("q", "quit"));
}

#[test]
fn source_line_tones() {
    assert_eq!(syntax_tone("   // note"), Tone::Muted);
    assert_eq!(syntax_tone("#include <x>"), Tone::Muted);
    assert_eq!(syntax_tone("pub fn main() {"), Tone::Bright);
    assert_eq!(syntax_tone("  use std::io;"), Tone::Normal);
    assert_eq!(syntax_tone("let x = 1;"), Tone::Dim);
    assert_eq!(syntax_tone("fnord"), Tone::Dim);
}

#[test]
fn ansi_codes_are_dropped() {
    assert_eq!(parse_ansi("plain"), vec!["plain".to_string()]);
    assert_eq!(parse_ansi(""), vec!["".to_string()]);
    assert_eq!(
        parse_ansi("\x1b[38;2;1;2;3m▀\x1b[0m tail"),
        vec!["▀".to_string(), " tail".to_string()]
    );
    assert_eq!(parse_ansi("ab\x1b[31"), vec!["ab".to_string()]);
    assert_eq!(parse_ansi("\x1b[0m"), vec!["".to_string()]);
}

#[test]
fn icons_for_names() {
    assert_eq!(file_icon("SRC", true), "⚡");
    assert_eq!(file_icon("target", true), "📦");
    assert_eq!(file_icon("random", true), "📁");
    assert_eq!(file_icon("Cargo.toml", false), "🦀");
    assert_eq!(file_icon("x.toml", false), "📋");
    assert_eq!(file_icon("main.RS", false), "🦀");
    assert_eq!(file_icon("unknown.zzz", false), "📄");
    assert!(!entry_icon("main.rs", false).is_empty());
}

fn cli() -> Cli {
    Cli {
        query: None,
        root: None,
        local_depth: 4,
        depth: 6,
        all: false,
        respect_gitignore: false,
        output: None,
        list: false,
        explore: false,
        pin: None,
        unpin: None,
    }
}

#[test]
fn command_line_modes() {
    assert!(matches!(mode_of(&cli()), Mode::Search(None)));
    let q = Cli { query: Some("-".to_string()), ..cli() };
    assert!(matches!(mode_of(&q), Mode::Back));
    let e = Cli { explore: true, list: true, query: Some("~/x".to_string()), ..cli() };
    match mode_of(&e) {
        Mode::Explore(Some(p)) => assert_eq!(p, "~/x"),
        other => panic!("unexpected {:?}", other),
    }
    let p1 = Cli { pin: Some(vec!["work".to_string()]), unpin: Some("x".to_string()), ..cli() };
    match mode_of(&p1) {
        Mode::Pin { name, path } => {
            assert_eq!(name, "work");
            assert_eq!(path, None);
        }
        other => panic!("unexpected {:?}", other),
    }
    let p2 = Cli { pin: Some(vec!["api".to_string(), "/p/api".to_string()]), ..cli() };
    assert!(matches!(mode_of(&p2), Mode::Pin { path: Some(_), .. }));
    let u = Cli { unpin: Some("work".to_string()), query: Some("-".to_string()), ..cli() };
    assert!(matches!(mode_of(&u), Mode::Unpin(_)));
    let l = Cli { list: true, ..cli() };
    assert!(matches!(mode_of(&l), Mode::List));
}
