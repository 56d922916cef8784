use jump_cli::entries::{classify_file, fuzzy_match, sort_entries, FileEntry, PreviewKind, SortMode};
use jump_cli::explorer::{visible_entries, Confirm, Dialog, ExplorerState, MountedDrive, Opener, PreviewJob};
use jump_cli::explorer_keys::{Click, ExplorerAction, MouseKind};
use jump_cli::jump::{KeyCode, KeyPress};
use jump_cli::layout::{ExplorerLayout, Rect};

fn entry(name: &str, dir: bool, size: u64, modified: u64) -> FileEntry {
    FileEntry {
        name: name.to_string(),
        path: format!("/home/u/{}", name),
        is_dir: dir,
        is_symlink: false,
        size,
        modified,
        is_hidden: name.starts_with('.'),
        is_executable: false,
        is_readonly: false,
    }
}

fn names(v: &[FileEntry]) -> Vec<String> {
    v.iter().map(|e| e.name.clone()).collect()
}

fn key(c: char) -> KeyPress {
    KeyPress { code: KeyCode::Char(c), ctrl: false, plain: true }
}

fn code(k: KeyCode) -> KeyPress {
    KeyPress { code: k, ctrl: false, plain: true }
}

fn listing() -> Vec<FileEntry> {
    vec![
        entry("b.txt", false, 300, 10),
        entry("Zeta", true, 0, 5),
        entry("a.rs", false, 100, 30),
        entry(".hidden", false, 1, 1),
        entry("alpha", true, 0, 7),
        entry("C.md", false, 200, 20),
    ]
}

fn state_in(cwd: &str) -> ExplorerState {
    let mut s = ExplorerState::new(cwd, vec![], vec![]);
    s.refresh_with(listing(), vec![]);
    s
}

#[test]
fn sort_by_name_puts_directories_first_ignoring_case() {
    let mut v = listing();
    sort_entries(&mut v, SortMode::Name);
    assert_eq!(names(&v), vec!["alpha", "Zeta", ".hidden", "a.rs", "b.txt", "C.md"]);
}

#[test]
fn sort_by_size_and_time_largest_and_newest_first() {
    let mut v = listing();
    sort_entries(&mut v, SortMode::Size);
    assert_eq!(names(&v), vec!["Zeta", "alpha", "b.txt", "C.md", "a.rs", ".hidden"]);
    let mut w = listing();
    sort_entries(&mut w, SortMode::Modified);
    assert_eq!(names(&w), vec!["alpha", "Zeta", "a.rs", "C.md", "b.txt", ".hidden"]);
}

#[test]
fn sort_by_type_uses_extension_then_name() {
    let mut v = vec![
        entry("z.rs", false, 0, 0),
        entry("a.txt", false, 0, 0),
        entry("b.rs", false, 0, 0),
        entry("Makefile", false, 0, 0),
        entry("lib", true, 0, 0),
    ];
    sort_entries(&mut v, SortMode::Type);
    assert_eq!(names(&v), vec!["lib", "Makefile", "b.rs", "z.rs", "a.txt"]);
}

#[test]
fn sort_is_stable_on_equal_keys() {
    let mut v = vec![entry("x1", false, 5, 0), entry("x2", false, 5, 0), entry("x3", false, 9, 0), entry("x4", false, 5, 0)];
    sort_entries(&mut v, SortMode::Size);
    assert_eq!(names(&v), vec!["x3", "x1", "x2", "x4"]);
}

#[test]
fn explorer_filter_matches() {
    assert!(fuzzy_match("readme.md", ""));
    assert!(fuzzy_match("readme.md", "me.m"));
    assert!(fuzzy_match("my file.tar.gz", "mftg"));
    assert!(fuzzy_match("cargo.toml", "ctl"));
    assert!(!fuzzy_match("cargo.toml", "zz"));
}

#[test]
fn preview_kinds_by_extension() {
    assert_eq!(classify_file("png"), PreviewKind::Image);
    assert_eq!(classify_file("svg"), PreviewKind::Image);
    assert_eq!(classify_file("mkv"), PreviewKind::Video);
    assert_eq!(classify_file("flac"), PreviewKind::Audio);
    assert_eq!(classify_file("woff2"), PreviewKind::Binary);
    assert_eq!(classify_file("rs"), PreviewKind::Text);
    assert_eq!(classify_file("PNG"), PreviewKind::Text);
}

#[test]
fn sort_modes_cycle_and_label() {
    let mut m = SortMode::Name;
    let mut labels = vec![];
    for _ in 0..4 {
        labels.push(m.label());
        m = m.next();
    }
    assert_eq!(labels, vec!["name", "size", "modified", "type"]);
    assert_eq!(m, SortMode::Name);
}

#[test]
fn hidden_entries_are_left_out() {
    assert_eq!(names(&visible_entries(listing(), false)), vec!["b.txt", "Zeta", "a.rs", "alpha", "C.md"]);
    assert_eq!(visible_entries(listing(), true).len(), 6);
}

#[test]
fn refresh_shows_parent_row_then_sorted_listing() {
    let s = state_in("/home/u");
    assert_eq!(names(&s.entries), vec!["..", "alpha", "Zeta", "a.rs", "b.txt", "C.md"]);
    assert_eq!(s.entries[0].path, "/home");
    assert!(ExplorerState::is_parent_entry(&s.entries[0]));
    assert_eq!(names(&s.all_entries), vec!["alpha", "Zeta", "a.rs", "b.txt", "C.md"]);
    let root = state_in("/");
    assert_eq!(root.entries[0].name, "alpha");
}

#[test]
fn filter_type_then_erase_gives_back_the_rows() {
    let mut s = state_in("/home/u");
    let before = names(&s.entries);
    s.start_filter();
    s.filter_push('z');
    assert_eq!(names(&s.entries), vec!["..", "Zeta"]);
    s.filter_pop();
    assert_eq!(s.filter, "");
    assert_eq!(names(&s.entries), before);
}

#[test]
fn filter_keys_and_enter_on_single_match() {
    let mut s = state_in("/home/u");
    s.handle_key(key('/'));
    assert!(s.filter_active);
    for c in "md".chars() {
        s.handle_key(key(c));
    }
    assert_eq!(names(&s.entries), vec!["..", "C.md"]);
    s.handle_key(code(KeyCode::Down));
    assert_eq!(s.selected, 1);
    let a = s.handle_key(code(KeyCode::Enter));
    assert!(matches!(a, ExplorerAction::Stay));
    assert!(!s.filter_active);
    assert_eq!(s.filter, "md");
    s.handle_key(key('\\'));
    assert_eq!(s.status_msg.as_deref(), Some("filter cleared"));
    assert_eq!(names(&s.entries), vec!["..", "alpha", "Zeta", "a.rs", "b.txt", "C.md"]);
}

#[test]
fn moving_wraps_and_up_then_down_returns() {
    let mut s = state_in("/home/u");
    s.selected = 0;
    s.move_up();
    assert_eq!(s.selected, 5);
    s.move_down();
    assert_eq!(s.selected, 0);
    s.page_down(15);
    assert_eq!(s.selected, 5);
    s.page_up(2);
    assert_eq!(s.selected, 3);
    s.adjust_scroll(2);
    assert_eq!(s.scroll_offset, 2);
}

#[test]
fn enter_dir_selects_first_real_row_and_go_up_returns_to_it() {
    let mut s = state_in("/home/u");
    s.enter_dir("/home/u/alpha", vec![entry("x", false, 1, 1), entry("y", false, 1, 1)], vec![]);
    assert_eq!(s.cwd, "/home/u/alpha");
    assert_eq!(s.history, vec!["/home/u".to_string()]);
    assert_eq!(s.selected, 1);
    assert_eq!(names(&s.entries), vec!["..", "x", "y"]);
    assert_eq!(s.parent_dir(), Some("/home/u".to_string()));
    let mut up = listing();
    for e in up.iter_mut() {
        e.path = format!("/home/u/{}", e.name);
    }
    s.go_up(up, vec![]);
    assert_eq!(s.cwd, "/home/u");
    assert_eq!(s.entries[s.selected].name, "alpha");
    assert_eq!(s.history.len(), 2);
}

#[test]
fn go_up_at_root_changes_nothing() {
    let mut s = state_in("/");
    s.go_up(vec![], vec![]);
    assert_eq!(s.cwd, "/");
    assert_eq!(s.entries.len(), 5);
    assert!(s.history.is_empty());
}

#[test]
fn cycle_sort_reports_the_mode() {
    let mut s = state_in("/home/u");
    let a = s.handle_key(key('s'));
    assert!(matches!(a, ExplorerAction::Refresh));
    assert_eq!(s.sort_mode, SortMode::Size);
    assert_eq!(s.status_msg.as_deref(), Some("sort: size"));
    s.refresh_with(listing(), vec![]);
    assert_eq!(names(&s.entries), vec!["..", "Zeta", "alpha", "b.txt", "C.md", "a.rs"]);
}

#[test]
fn preview_plans() {
    let mut s = state_in("/home/u");
    s.selected = 1;
    s.invalidate_preview();
    match s.plan_preview() {
        PreviewJob::Directory(p) => assert_eq!(p, "/home/u/alpha"),
        other => panic!("unexpected {:?}", other),
    }
    assert_eq!(s.preview.kind, PreviewKind::Directory);
    assert_eq!(s.preview.info, vec!["📁 Directory: alpha".to_string(), "📍 /home/u/alpha".to_string()]);
    s.fill_preview(vec!["x".to_string()], None);
    assert!(matches!(s.plan_preview(), PreviewJob::Ready));

    s.selected = 3;
    s.invalidate_preview();
    assert!(s.preview.lines.is_empty());
    match s.plan_preview() {
        PreviewJob::Text(p) => assert_eq!(p, "/home/u/a.rs"),
        other => panic!("unexpected {:?}", other),
    }
    assert_eq!(s.preview.info, vec!["📄 a.rs".to_string(), "💾 100B".to_string()]);

    s.entries[3].size = 3 * 1024 * 1024;
    s.invalidate_preview();
    s.preview.lines.clear();
    assert!(matches!(s.plan_preview(), PreviewJob::Ready));
    assert_eq!(s.preview.kind, PreviewKind::TooLarge);
    assert_eq!(s.preview.lines, vec!["(too large for preview)".to_string()]);

    s.entries[3].name = "pic.PNG".to_string();
    s.preview.lines.clear();
    assert!(matches!(s.plan_preview(), PreviewJob::Image(_)));
    s.entries[3].name = "tool.exe".to_string();
    s.preview.lines.clear();
    assert!(matches!(s.plan_preview(), PreviewJob::Binary(_)));
    assert_eq!(s.preview.info, vec!["⚙️ Binary file".to_string(), "💾 3.0M".to_string()]);

    s.selected = 99;
    assert!(matches!(s.plan_preview(), PreviewJob::Ready));
    assert_eq!(s.preview.lines, vec!["(no selection)".to_string()]);
    assert_eq!(s.preview.kind, PreviewKind::Empty);
}

#[test]
fn normal_keys_quit_and_cd() {
    let mut s = state_in("/home/u");
    assert!(matches!(s.handle_key(key('q')), ExplorerAction::Quit));
    assert!(matches!(s.handle_key(code(KeyCode::Esc)), ExplorerAction::Quit));
    let ctrl_c = KeyPress { code: KeyCode::Char('c'), ctrl: true, plain: false };
    assert!(matches!(s.handle_key(ctrl_c), ExplorerAction::Quit));
    s.selected = 1;
    match s.handle_key(key('c')) {
        ExplorerAction::CdHere(p) => assert_eq!(p, "/home/u/alpha"),
        other => panic!("unexpected {:?}", other),
    }
    s.selected = 3;
    match s.handle_key(key('c')) {
        ExplorerAction::CdHere(p) => assert_eq!(p, "/home/u"),
        other => panic!("unexpected {:?}", other),
    }
}

#[test]
fn opening_rows() {
    let mut s = state_in("/home/u");
    s.selected = 0;
    assert!(matches!(s.handle_key(code(KeyCode::Enter)), ExplorerAction::GoUp));
    s.selected = 2;
    match s.handle_key(key('l')) {
        ExplorerAction::EnterDir(p) => assert_eq!(p, "/home/u/Zeta"),
        other => panic!("unexpected {:?}", other),
    }
    s.selected = 4;
    match s.handle_key(code(KeyCode::Right)) {
        ExplorerAction::OpenFile(p) => assert_eq!(p, "/home/u/b.txt"),
        other => panic!("unexpected {:?}", other),
    }
    assert_eq!(s.status_msg.as_deref(), Some("opened /home/u/b.txt"));
    assert!(matches!(s.handle_key(key('h')), ExplorerAction::GoUp));
    assert!(matches!(s.handle_key(key('~')), ExplorerAction::GoHome));
}

#[test]
fn clipboard_keys() {
    let mut s = state_in("/home/u");
    assert!(matches!(s.handle_key(key('p')), ExplorerAction::Stay));
    assert_eq!(s.status_msg.as_deref(), Some("nothing yanked — press y first"));
    assert!(matches!(s.handle_key(key('P')), ExplorerAction::Stay));
    assert_eq!(s.status_msg.as_deref(), Some("nothing to move — press x first"));
    s.selected = 4;
    s.handle_key(key('y'));
    assert_eq!(s.status_msg.as_deref(), Some("📋 yanked: b.txt (300B)"));
    match s.handle_key(key('p')) {
        ExplorerAction::Paste(p) => assert_eq!(p, "/home/u/b.txt"),
        other => panic!("unexpected {:?}", other),
    }
    s.selected = 3;
    s.handle_key(key('x'));
    assert_eq!(s.status_msg.as_deref(), Some("✂️ cut: a.rs"));
    assert!(s.cut_mode);
    match s.handle_key(key('P')) {
        ExplorerAction::MoveHere(p) => assert_eq!(p, "/home/u/a.rs"),
        other => panic!("unexpected {:?}", other),
    }
    assert!(s.yanked.is_none());
    assert!(!s.cut_mode);
}

#[test]
fn dialogs_and_questions() {
    let mut s = state_in("/home/u");
    s.handle_key(key('n'));
    assert_eq!(s.dialog, Some(Dialog::NewFile));
    for c in "ab".chars() {
        s.handle_key(key(c));
    }
    s.handle_key(code(KeyCode::Backspace));
    assert_eq!(s.dialog_input, "a");
    assert!(matches!(s.handle_key(code(KeyCode::Enter)), ExplorerAction::ExecuteDialog));
    s.close_dialog(Some("done".to_string()));
    assert!(s.dialog.is_none());
    assert_eq!(s.dialog_input, "");
    assert_eq!(s.status_msg.as_deref(), Some("done"));

    s.selected = 2;
    s.handle_key(key('r'));
    assert_eq!(s.dialog, Some(Dialog::Rename));
    assert_eq!(s.dialog_input, "Zeta");
    s.handle_key(code(KeyCode::Esc));
    assert!(s.dialog.is_none());
    assert!(s.status_msg.is_none());

    s.handle_key(key('d'));
    match &s.confirm {
        Some(Confirm::Delete { name, is_dir }) => {
            assert_eq!(name, "Zeta");
            assert!(*is_dir);
        }
        other => panic!("unexpected {:?}", other),
    }
    assert!(matches!(s.handle_key(key('Y')), ExplorerAction::ExecuteConfirm));
    s.handle_key(key('n'));
    assert!(s.confirm.is_none());
    assert_eq!(s.status_msg.as_deref(), Some("cancelled"));
}

fn opener(name: &str) -> Opener {
    Opener { name: name.to_string(), command: name.to_lowercase(), icon: "x".to_string() }
}

#[test]
fn open_with_menu() {
    let mut s = ExplorerState::new("/home/u", vec![opener("A"), opener("B"), opener("C")], vec![]);
    s.refresh_with(listing(), vec![]);
    s.selected = 3;
    s.handle_key(key('o'));
    assert!(s.show_open_with);
    s.handle_key(code(KeyCode::Up));
    assert_eq!(s.open_with_selected, 2);
    s.handle_key(key('j'));
    assert_eq!(s.open_with_selected, 0);
    assert!(matches!(s.handle_key(key('9')), ExplorerAction::Stay));
    match s.handle_key(key('2')) {
        ExplorerAction::OpenWith(i) => assert_eq!(i, 1),
        other => panic!("unexpected {:?}", other),
    }
    assert!(!s.show_open_with);
}

#[test]
fn hidden_toggle_and_drives() {
    let mut s = state_in("/home/u");
    assert!(matches!(s.handle_key(key('.')), ExplorerAction::Refresh));
    assert_eq!(s.status_msg.as_deref(), Some("showing hidden"));
    s.refresh_with(listing(), vec![]);
    assert_eq!(s.entries.len(), 7);
    s.handle_key(key('.'));
    assert_eq!(s.status_msg.as_deref(), Some("hiding hidden"));

    assert!(matches!(s.handle_key(key('m')), ExplorerAction::Stay));
    assert_eq!(s.status_msg.as_deref(), Some("no external drives found"));
    assert!(matches!(s.handle_key(key('M')), ExplorerAction::ListDrives));
    s.list_drives(vec![]);
    assert_eq!(s.status_msg.as_deref(), Some("no drives at /media, /mnt, or /run/media"));
    let d = |n: &str, size: u64| MountedDrive {
        name: n.to_string(),
        path: format!("/media/{}", n),
        size_total: size,
        size_used: 0,
        icon: "🔌".to_string(),
    };
    s.list_drives(vec![d("usb", 2048), d("cam", 5)]);
    assert_eq!(s.status_msg.as_deref(), Some("drives: 🔌 usb (2.0K) | 🔌 cam (5B)"));
    match s.handle_key(key('m')) {
        ExplorerAction::EnterDrive(p) => assert_eq!(p, "/media/usb"),
        other => panic!("unexpected {:?}", other),
    }
    s.name_first_drive();
    assert_eq!(s.status_msg.as_deref(), Some("📱 usb"));
}

#[test]
fn mouse_click_selects_and_double_click_opens() {
    let mut s = state_in("/home/u");
    s.layout = ExplorerLayout { file_list: Rect { x: 0, y: 2, width: 40, height: 10 }, row_height: 1 };
    let (a, last) = s.mouse_event(MouseKind::LeftDown, 5, 3, 1000, None);
    assert!(matches!(a, ExplorerAction::Stay));
    assert_eq!(s.selected, 1);
    assert_eq!(last, Some(Click { at_ms: 1000, col: 5, row: 3, index: 1 }));
    let (b, last2) = s.mouse_event(MouseKind::LeftDown, 5, 3, 1300, last);
    match b {
        ExplorerAction::EnterDir(p) => assert_eq!(p, "/home/u/alpha"),
        other => panic!("unexpected {:?}", other),
    }
    assert_eq!(last2, None);
    let (_, slow) = s.mouse_event(MouseKind::LeftDown, 5, 4, 2000, None);
    let (c, _) = s.mouse_event(MouseKind::LeftDown, 5, 4, 2400, slow);
    assert!(matches!(c, ExplorerAction::Stay));
    let (_, kept) = s.mouse_event(MouseKind::LeftDown, 50, 4, 2500, slow);
    assert_eq!(kept, slow);
    s.mouse_event(MouseKind::ScrollDown, 0, 0, 0, None);
    assert_eq!(s.selected, 3);
}
