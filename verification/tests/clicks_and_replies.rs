use jump_cli::actions::{confirm_reply, dialog_reply, move_reply, ConfirmRequest, DialogRequest};
use jump_cli::entries::FileEntry;
use jump_cli::explorer::ExplorerState;
use jump_cli::explorer_keys::{Click, MouseKind};
use jump_cli::filter::{is_gitignored, prune_dir, ArtifactMarkers};
use jump_cli::icons::{entry_icon, file_icon};
use jump_cli::jump::{App, JumpAction, KeyCode, KeyPress, SearchResults};
use jump_cli::layout::{JumpLayout, Rect};

fn entry(name: &str, dir: bool) -> FileEntry {
    FileEntry {
        name: name.to_string(),
        path: format!("/home/u/{}", name),
        is_dir: dir,
        is_symlink: false,
        size: 1,
        modified: 1,
        is_hidden: name.starts_with('.'),
        is_executable: false,
        is_readonly: false,
    }
}

fn names(v: &[FileEntry]) -> Vec<String> {
    v.iter().map(|e| e.name.clone()).collect()
}

fn key(c: char) -> KeyPress {
    KeyPress { code: KeyCode::Char(c), ctrl: false, plain: true }
}

fn code(k: KeyCode) -> KeyPress {
    KeyPress { code: k, ctrl: false, plain: true }
}

fn explorer() -> ExplorerState {
    let mut s = ExplorerState::new("/home/u", vec![], vec![]);
    s.refresh_with(vec![entry("b", false), entry("a", true)], vec![]);
    s
}

#[test]
fn clearing_the_filter_keeps_the_parent_row() {
    let mut s = explorer();
    s.start_filter();
    s.filter_push('b');
    assert_eq!(names(&s.entries), vec!["..", "b"]);
    s.clear_filter();
    assert_eq!(names(&s.entries), vec!["..", "a", "b"]);
    assert_eq!(s.entries[0].path, "/home");
    assert_eq!(s.selected, 0);
    assert!(!s.filter_active);
}

#[test]
fn escape_and_enter_with_empty_filter_show_the_parent_row() {
    let mut s = explorer();
    s.handle_key(key('/'));
    s.handle_key(key('a'));
    s.handle_key(code(KeyCode::Esc));
    assert_eq!(names(&s.entries), vec!["..", "a", "b"]);
    s.handle_key(key('/'));
    s.handle_key(code(KeyCode::Enter));
    assert_eq!(names(&s.entries), vec!["..", "a", "b"]);
}

#[test]
fn clearing_at_the_root_has_no_parent_row() {
    let mut s = ExplorerState::new("/", vec![], vec![]);
    s.refresh_with(vec![entry("etc", true)], vec![]);
    s.clear_filter();
    assert_eq!(names(&s.entries), vec!["etc"]);
}

fn jump_app() -> App {
    let mut app = App::new("abc", vec![], vec![]);
    app.results = SearchResults {
        query: "abc".to_string(),
        matches: vec!["/x/abc".to_string(), "/y/abc".to_string(), "/z/abc".to_string()],
        local_count: 3,
        searching: false,
        tick: 0,
    };
    app.layout = JumpLayout {
        search: Rect { x: 0, y: 0, width: 40, height: 3 },
        list: Rect { x: 0, y: 5, width: 40, height: 10 },
        search_text_x: 4,
    };
    app
}

#[test]
fn jump_click_selects_and_double_click_jumps() {
    let mut app = jump_app();
    let (a, last) = app.mouse_event(MouseKind::LeftDown, 10, 6, 1000, None);
    assert!(matches!(a, JumpAction::Stay));
    assert_eq!(app.selected, 1);
    assert_eq!(last, Some(Click { at_ms: 1000, col: 10, row: 6, index: 1 }));
    let (a, last) = app.mouse_event(MouseKind::LeftDown, 10, 6, 1200, last);
    assert_eq!(last, None);
    match a {
        JumpAction::Jump(p) => assert_eq!(p, "/y/abc"),
        other => panic!("unexpected {:?}", other),
    }
}

#[test]
fn jump_slow_second_click_only_selects() {
    let mut app = jump_app();
    let (_, last) = app.mouse_event(MouseKind::LeftDown, 10, 7, 1000, None);
    let (a, last) = app.mouse_event(MouseKind::LeftDown, 10, 7, 1400, last);
    assert!(matches!(a, JumpAction::Stay));
    assert_eq!(app.selected, 2);
    assert_eq!(last, Some(Click { at_ms: 1400, col: 10, row: 7, index: 2 }));
}

#[test]
fn jump_click_in_search_field_moves_cursor() {
    let mut app = jump_app();
    app.mouse_event(MouseKind::LeftDown, 5, 1, 0, None);
    assert_eq!(app.cursor, 1);
    app.mouse_event(MouseKind::LeftDown, 1, 1, 0, None);
    assert_eq!(app.cursor, 0);
    app.mouse_event(MouseKind::LeftDown, 30, 1, 0, None);
    assert_eq!(app.cursor, 3);
    assert_eq!(app.input, "abc");
}

#[test]
fn jump_wheel_moves_and_outside_clicks_do_nothing() {
    let mut app = jump_app();
    app.mouse_event(MouseKind::ScrollDown, 0, 0, 0, None);
    assert_eq!(app.selected, 1);
    app.mouse_event(MouseKind::ScrollUp, 0, 0, 0, None);
    app.mouse_event(MouseKind::ScrollUp, 0, 0, 0, None);
    assert_eq!(app.selected, 2);
    let before = Some(Click { at_ms: 5, col: 1, row: 1, index: 0 });
    let (a, last) = app.mouse_event(MouseKind::LeftDown, 10, 30, 0, before);
    assert!(matches!(a, JumpAction::Stay));
    assert_eq!(last, before);
    assert_eq!(app.selected, 2);
}

#[test]
fn pins_are_listed_in_strict_name_order() {
    let pins = vec![
        ("web".to_string(), "/w".to_string()),
        ("api".to_string(), "/a".to_string()),
        ("docs".to_string(), "/d".to_string()),
    ];
    let app = App::new("", pins, vec![]);
    let shown: Vec<String> = app.matching_pins().into_iter().map(|p| p.0).collect();
    assert_eq!(shown, vec!["api", "docs", "web"]);
}

#[test]
fn insert_then_backspace_restores_input_and_cursor() {
    let mut app = App::new("héllo", vec![], vec![]);
    app.cursor_left();
    app.cursor_left();
    let (input, cursor) = (app.input.clone(), app.cursor);
    app.selected = 0;
    app.insert_char('ß');
    app.backspace();
    assert_eq!(app.input, input);
    assert_eq!(app.cursor, cursor);
    assert_eq!(app.selected, 0);
    assert_eq!(app.scroll_offset, 0);
}

#[test]
fn gitignore_more_patterns_never_unignore_and_order_is_irrelevant() {
    let ps = vec!["build/".to_string(), "*.cache".to_string()];
    let mut more = ps.clone();
    more.push("tmp".to_string());
    assert!(is_gitignored("web.cache", &ps));
    assert!(is_gitignored("web.cache", &more));
    assert!(is_gitignored("tmp", &more));
    assert!(!is_gitignored("tmp", &ps));
    let rev: Vec<String> = ps.iter().rev().cloned().collect();
    for n in ["build", "web.cache", "src"] {
        assert_eq!(is_gitignored(n, &ps), is_gitignored(n, &rev));
    }
    assert!(!is_gitignored("build", &[]));
}

#[test]
fn icons_ignore_case() {
    assert_eq!(file_icon("README.MD", false), file_icon("readme.md", false));
    assert_eq!(file_icon("Main.RS", false), file_icon("main.rs", false));
    assert_eq!(file_icon("Node_Modules", true), file_icon("node_modules", true));
    assert_eq!(entry_icon("Cargo.TOML", false), entry_icon("cargo.toml", false));
    assert_eq!(entry_icon("SRC", true), entry_icon("src", true));
}

#[test]
fn pruning_directories() {
    let none = ArtifactMarkers::default();
    let cargo = ArtifactMarkers { cachedir_tag: true, ..ArtifactMarkers::default() };
    let gi = vec!["out/".to_string()];
    assert!(prune_dir(".git", &none, false, &[]));
    assert!(prune_dir("node_modules", &none, false, &[]));
    assert!(prune_dir("target", &cargo, false, &[]));
    assert!(prune_dir("target", &none, false, &[]));
    assert!(!prune_dir("Target2", &cargo, false, &[]));
    assert!(prune_dir("out", &none, true, &gi));
    assert!(!prune_dir("out", &none, false, &gi));
    assert!(!prune_dir("src", &none, true, &gi));
}

#[test]
fn dialog_and_question_replies() {
    let create = |dir: bool| DialogRequest::Create { path: "/t/x".to_string(), name: "x".to_string(), dir };
    assert_eq!(dialog_reply(create(true), false, None).as_deref(), Some("✓ created: x/"));
    assert_eq!(dialog_reply(create(false), false, None).as_deref(), Some("✓ created: x"));
    assert_eq!(dialog_reply(create(false), true, None).as_deref(), Some("'x' already exists"));
    assert_eq!(dialog_reply(create(false), false, Some("denied".to_string())).as_deref(), Some("✗ denied"));
    let rename = DialogRequest::Rename { from: "/t/a".to_string(), to: "/t/b".to_string(), name: "b".to_string() };
    assert_eq!(dialog_reply(rename, false, None).as_deref(), Some("✓ renamed → b"));
    assert_eq!(dialog_reply(DialogRequest::Closed, false, None), None);
    assert_eq!(dialog_reply(DialogRequest::Reply("hi".to_string()), false, None).as_deref(), Some("hi"));
    let remove = ConfirmRequest::Remove { path: "/t/a".to_string(), is_dir: false, name: "a".to_string() };
    assert_eq!(confirm_reply(remove, None).as_deref(), Some("✓ deleted: a"));
    let copy = ConfirmRequest::Copy { src: "/s/a".to_string(), dest: "/t/a".to_string(), name: "a".to_string() };
    assert_eq!(confirm_reply(copy, Some("full".to_string())).as_deref(), Some("✗ full"));
    assert_eq!(confirm_reply(ConfirmRequest::Closed, None), None);
}

#[test]
fn move_replies() {
    assert_eq!(move_reply("a", true, false, None), "✗ 'a' already exists");
    assert_eq!(move_reply("a", false, true, None), "✓ moved: a");
    assert_eq!(move_reply("a", false, false, None), "✓ moved: a (cross-device)");
    assert_eq!(move_reply("a", false, false, Some("nope".to_string())), "✗ move failed: nope");
}

#[test]
fn row_labels_and_badges() {
    let mut d = entry("docs", true);
    assert_eq!(ExplorerState::row_label(&d), "docs/");
    assert_eq!(ExplorerState::row_badge(&d), "  ");
    d.is_readonly = true;
    assert_eq!(ExplorerState::row_badge(&d), "  ");
    d.is_symlink = true;
    assert_eq!(ExplorerState::row_badge(&d), " l");
    let up = entry("..", true);
    assert_eq!(ExplorerState::row_label(&up), "..");
    let mut f = entry("run.sh", false);
    assert_eq!(ExplorerState::row_label(&f), "run.sh");
    f.is_readonly = true;
    assert_eq!(ExplorerState::row_badge(&f), " r");
    f.is_executable = true;
    assert_eq!(ExplorerState::row_badge(&f), " x");
}
