use jump_cli::entries::FileEntry;
use jump_cli::paths::{shorten_path, shorten_path_under};
use jump_cli::preview::{directory_preview, hex_dump};
use jump_cli::scan::{lines_of, parse_disk_usage, parse_u64, text_preview, words_of};

fn reference_dump(bytes: &[u8]) -> Vec<String> {
    let mut lines = vec!["⚙️ Binary — hex dump:".to_string(), String::new()];
    let show = bytes.len().min(256);
    for start in (0..show).step_by(16) {
        let end = (start + 16).min(show);
        let chunk = &bytes[start..end];
        let hex: String = chunk.iter().map(|b| format!("{:02x}", b)).collect::<Vec<_>>().join(" ");
        let ascii: String = chunk
            .iter()
            .map(|b| if b.is_ascii_graphic() || *b == b' ' { *b as char } else { '.' })
            .collect();
        lines.push(format!("  {:06x}  {:<48}  {}", start, hex, ascii));
    }
    if bytes.len() > 256 {
        lines.push(format!("  ... {} more bytes", bytes.len() - 256));
    }
    lines
}

#[test]
fn hex_dump_matches_the_layout() {
    let small = b"Hello, world!\n\x00\xff".to_vec();
    assert_eq!(hex_dump(&small), reference_dump(&small));
    assert_eq!(hex_dump(&small)[2], "  000000  48 65 6c 6c 6f 2c 20 77 6f 72 6c 64 21 0a 00 ff   Hello, world!...");
    let all: Vec<u8> = (0..=255u8).chain(0..=9u8).collect();
    assert_eq!(hex_dump(&all), reference_dump(&all));
    assert_eq!(hex_dump(&all).last().unwrap(), "  ... 10 more bytes");
    assert_eq!(hex_dump(&[]), reference_dump(&[]));
    let exact: Vec<u8> = vec![b'a'; 32];
    assert_eq!(hex_dump(&exact), reference_dump(&exact));
}

fn item(name: &str, dir: bool, size: u64) -> FileEntry {
    FileEntry {
        name: name.to_string(),
        path: String::new(),
        is_dir: dir,
        is_symlink: false,
        size,
        modified: 0,
        is_hidden: false,
        is_executable: false,
        is_readonly: false,
    }
}

#[test]
fn directory_preview_sorts_and_sums() {
    let items = vec![item("b.txt", false, 2048), item("Src", true, 4096), item("a.md", false, 10), item("lib", true, 4096)];
    let lines = directory_preview("proj", items);
    assert_eq!(
        lines,
        vec![
            "📁 proj".to_string(),
            String::new(),
            "  📁 lib".to_string(),
            "  📁 Src".to_string(),
            "  📄 a.md  10B".to_string(),
            "  📄 b.txt  2.0K".to_string(),
            String::new(),
            "📁 2  📄 2  💾 10.0K".to_string(),
        ]
    );
}

#[test]
fn directory_preview_lists_at_most_25() {
    let items: Vec<FileEntry> = (0..30).map(|i| item(&format!("f{:02}", i), false, 1)).collect();
    let lines = directory_preview("many", items);
    assert_eq!(lines.len(), 2 + 25 + 1 + 2);
    assert_eq!(lines[26], "  📄 f24  1B");
    assert_eq!(lines[27], "  ... 5 more");
    assert_eq!(lines[29], "📁 0  📄 30  💾 30B");
}

#[test]
fn paths_below_home_are_shortened() {
    assert_eq!(shorten_path_under("/home/u/code/app", Some("/home/u")), "~/code/app");
    assert_eq!(shorten_path_under("/home/u", Some("/home/u")), "~/");
    assert_eq!(shorten_path_under("/home/uu/x", Some("/home/u")), "/home/uu/x");
    assert_eq!(shorten_path_under("/etc", None), "/etc");
    assert_eq!(shorten_path("/definitely/not/home"), "/definitely/not/home");
}

#[test]
fn lines_words_and_numbers() {
    use_lines();
}

fn use_lines() {
    let sample = "a\r\nb\n\nc\r";
    let expected: Vec<String> = sample.lines().map(|l| l.to_string()).collect();
    assert_eq!(lines_of(sample), expected);
    assert_eq!(lines_of(""), Vec::<String>::new());
    assert_eq!(lines_of("x\n"), vec!["x".to_string()]);
    let w: Vec<String> = words_of(&" 12  ab\tc ".chars().collect()).into_iter().map(|v| v.into_iter().collect()).collect();
    assert_eq!(w, vec!["12".to_string(), "ab".to_string(), "c".to_string()]);
    for s in ["0", "42", "+7", "18446744073709551615", "18446744073709551616", "", "+", "-1", "1a", "007"] {
        let cs: Vec<char> = s.chars().collect();
        assert_eq!(parse_u64(&cs), s.parse::<u64>().ok(), "text {:?}", s);
    }
}

#[test]
fn df_output_and_text_preview() {
    let out = "     1B-blocks        Used\n 100000 2500\n";
    assert_eq!(parse_disk_usage(out), (100000, 2500));
    assert_eq!(parse_disk_usage("header only\n"), (0, 0));
    assert_eq!(parse_disk_usage("h\nx 5\n"), (0, 5));
    let content = (0..40).map(|i| format!("line {}", i)).collect::<Vec<_>>().join("\n");
    let p = text_preview(&content, 5);
    assert_eq!(p.len(), 15);
    assert_eq!(p[14], "line 14");
    assert_eq!(text_preview("one\ntwo", 5), vec!["one".to_string(), "two".to_string()]);
}
