use jump_cli::fmt::{decimal_chars, format_age, format_size, format_time};
use jump_cli::search::{
    match_rank, matches_fuzzy, merge_results, rank_candidates, rank_name, split_query, Candidate,
};
use jump_cli::store::{Store, VisitStats, DAY_SECS};
use jump_cli::filter::{gitignore_patterns, is_build_artifact, is_gitignored, should_skip_dir, ArtifactMarkers};

fn float_size(bytes: u64) -> String {
    if bytes < 1024 {
        format!("{}B", bytes)
    } else if bytes < 1024 * 1024 {
        format!("{:.1}K", bytes as f64 / 1024.0)
    } else if bytes < 1024 * 1024 * 1024 {
        format!("{:.1}M", bytes as f64 / (1024.0 * 1024.0))
    } else {
        format!("{:.1}G", bytes as f64 / (1024.0 * 1024.0 * 1024.0))
    }
}

#[test]
fn format_size_small_values() {
    assert_eq!(format_size(0), "0B");
    assert_eq!(format_size(1023), "1023B");
    assert_eq!(format_size(1024), "1.0K");
    assert_eq!(format_size(1536), "1.5K");
}

#[test]
fn format_size_matches_float_formatting() {
    let samples: Vec<u64> = vec![
        1024, 1075, 1126, 1280, 1331, 1945, 2047, 5000, 10240, 1048575, 1048576, 1572864,
        1153433, 3670016, 123456789, 1073741823, 1073741824, 1181116006, 5368709120,
        u64::MAX / 3, u64::MAX,
    ];
    for b in samples {
        assert_eq!(format_size(b), float_size(b), "bytes = {}", b);
    }
    let mut b: u64 = 1024;
    while b < 8 * 1024 * 1024 {
        assert_eq!(format_size(b), float_size(b), "bytes = {}", b);
        b += 51;
    }
}

#[test]
fn format_size_ties_round_to_even() {
    // 1.25 KiB and 1.75 KiB are exact halves in binary.
    assert_eq!(format_size(1280), "1.2K");
    assert_eq!(format_size(1792), "1.8K");
}

#[test]
fn format_age_units() {
    assert_eq!(format_age(0), "now");
    assert_eq!(format_age(59), "now");
    assert_eq!(format_age(60), "1m");
    assert_eq!(format_age(3599), "59m");
    assert_eq!(format_age(3600), "1h");
    assert_eq!(format_age(86399), "23h");
    assert_eq!(format_age(86400), "1d");
    assert_eq!(format_age(86400 * 30 - 1), "29d");
    assert_eq!(format_age(86400 * 30), "1mo");
    assert_eq!(format_age(86400 * 65), "2mo");
}

#[test]
fn format_time_of_the_future_is_now() {
    assert_eq!(format_time(u64::MAX), "now");
    assert!(format_time(0).ends_with("mo"));
}

#[test]
fn decimal_digits() {
    let s: String = decimal_chars(9070).into_iter().collect();
    assert_eq!(s, "9070");
    let z: String = decimal_chars(0).into_iter().collect();
    assert_eq!(z, "0");
}

#[test]
fn rank_name_orders_exact_prefix_contains_fuzzy() {
    assert_eq!(rank_name("src", "src"), 0);
    assert_eq!(rank_name("src", "SRC"), 0);
    assert_eq!(rank_name("srcs", "src"), 1);
    assert_eq!(rank_name("my-src", "src"), 2);
    assert_eq!(rank_name("nexxupp-backend", "nxb"), 3);
}

#[test]
fn match_rank_uses_the_file_name() {
    assert_eq!(match_rank("/home/u/Projects", "projects"), 0);
    assert_eq!(match_rank("/home/u/projects-old", "proj"), 1);
    assert_eq!(match_rank("/", "x"), 3);
}

#[test]
fn fuzzy_initialism_and_subsequence() {
    assert!(matches_fuzzy("nexxupp-backend", "nxb"));
    assert!(matches_fuzzy("nexxupp-backend", "NB"));
    assert!(matches_fuzzy("my_big_project", "mbp"));
    assert!(matches_fuzzy("documents", "dcmt"));
    assert!(!matches_fuzzy("documents", "xyz"));
    assert!(matches_fuzzy("anything", ""));
    // The directory search splits words at `-` and `_` only.
    assert!(!matches_fuzzy("a.b", "ab.x"));
}

#[test]
fn split_query_at_first_space() {
    assert_eq!(split_query("nexx src"), (Some("nexx".to_string()), "src".to_string()));
    assert_eq!(split_query("NeXX a b"), (Some("nexx".to_string()), "a b".to_string()));
    assert_eq!(split_query("src"), (None, "src".to_string()));
}

fn cand(path: &str) -> Candidate {
    let name = path.rsplit('/').next().unwrap().to_string();
    Candidate { path: path.to_string(), name }
}

#[test]
fn ranking_exact_prefix_contains_fuzzy_then_frecency() {
    let cands = vec![
        cand("/r/a/my-src"),
        cand("/r/b/sources"),
        cand("/r/c/src"),
        cand("/r/d/s-r-c"),
        cand("/r/e/srcs"),
        cand("/r/f/other"),
        cand("/r/g/src2"),
    ];
    let now = 1_000_000u64;
    let history = vec![
        ("/r/g/src2".to_string(), VisitStats { visits: 10, last: now }),
        ("/r/e/srcs".to_string(), VisitStats { visits: 1, last: now }),
    ];
    let r = rank_candidates("/r", "src", &cands, &history, now);
    assert_eq!(
        r,
        vec![
            "/r/c/src".to_string(),
            "/r/g/src2".to_string(),
            "/r/e/srcs".to_string(),
            "/r/a/my-src".to_string(),
            "/r/b/sources".to_string(),
            "/r/d/s-r-c".to_string(),
        ]
    );
}

#[test]
fn ranking_keeps_walk_order_on_ties_and_skips_root() {
    let cands = vec![cand("/r"), cand("/r/x/app"), cand("/r/y/app"), cand("/r/z/app")];
    let r = rank_candidates("/r", "app", &cands, &vec![], 0);
    assert_eq!(r, vec!["/r/x/app".to_string(), "/r/y/app".to_string(), "/r/z/app".to_string()]);
    assert!(rank_candidates("/r", "", &cands, &vec![], 0).is_empty());
}

#[test]
fn ranking_with_path_filter() {
    let cands = vec![cand("/r/nexx/src"), cand("/r/other/src"), cand("/r/Nexx2/lib/src")];
    let r = rank_candidates("/r", "nexx src", &cands, &vec![], 0);
    assert_eq!(r, vec!["/r/nexx/src".to_string(), "/r/Nexx2/lib/src".to_string()]);
}

#[test]
fn local_results_come_first_without_repeats() {
    let local = vec!["/h/p/a".to_string(), "/h/p/b".to_string()];
    let global = vec!["/h/q/a".to_string(), "/h/p/b".to_string(), "/h/p/a/".to_string(), "/h/z".to_string()];
    let all = merge_results(local, global);
    assert_eq!(
        all,
        vec!["/h/p/a".to_string(), "/h/p/b".to_string(), "/h/q/a".to_string(), "/h/z".to_string()]
    );
}

#[test]
fn skip_list_and_patterns() {
    assert!(should_skip_dir("node_modules"));
    assert!(should_skip_dir("target"));
    assert!(should_skip_dir("Target"));
    assert!(should_skip_dir(".git"));
    assert!(should_skip_dir(".GIT"));
    assert!(should_skip_dir(".anything"));
    assert!(should_skip_dir("foo.egg-info"));
    assert!(should_skip_dir("FOO.EGG-INFO"));
    assert!(!should_skip_dir("src"));
}

#[test]
fn gitignore_matching() {
    let pats = gitignore_patterns("# comment\n\n/build/\n*.log\n!keep\ncache\n");
    assert_eq!(
        pats,
        vec!["build/".to_string(), "*.log".to_string(), "!keep".to_string(), "cache".to_string()]
    );
    assert!(is_gitignored("build", &pats));
    assert!(is_gitignored("app.log", &pats));
    assert!(is_gitignored("cache", &pats));
    assert!(!is_gitignored("keep", &pats));
    assert!(!is_gitignored("src", &pats));
}

#[test]
fn build_artifacts_need_markers() {
    let none = ArtifactMarkers {
        cachedir_tag: false,
        rustc_info: false,
        release: false,
        debug: false,
        pyvenv_cfg: false,
        bin_activate: false,
        fingerprint: false,
    };
    assert!(!is_build_artifact("target", &none));
    let rust = ArtifactMarkers { rustc_info: true, ..none };
    assert!(is_build_artifact("target", &rust));
    assert!(!is_build_artifact("src", &rust));
    assert!(is_build_artifact("node_modules", &none));
    let venv = ArtifactMarkers { bin_activate: true, ..none };
    assert!(is_build_artifact(".venv", &venv));
    let cargo_debug = ArtifactMarkers { fingerprint: true, ..none };
    assert!(is_build_artifact("debug", &cargo_debug));
    assert!(!is_build_artifact("debug", &none));
}

#[test]
fn record_visit_counts_and_keeps_others() {
    let mut s = Store::new();
    s.record_visit_at("/a", 100);
    s.record_visit_at("/b", 200);
    s.record_visit_at("/a", 300);
    assert_eq!(s.frecency.len(), 2);
    let a = s.frecency.iter().find(|e| e.0 == "/a").unwrap().1;
    assert_eq!((a.visits, a.last), (2, 300));
    let b = s.frecency.iter().find(|e| e.0 == "/b").unwrap().1;
    assert_eq!((b.visits, b.last), (1, 200));
}

#[test]
fn frecency_decays_with_age() {
    let mut s = Store::new();
    s.record_visit_at("/a", 0);
    s.record_visit_at("/a", 0);
    // Two visits score 8, 4, 1 and 0.5 by age; the score is kept in quarters.
    assert_eq!(s.frecency_quarters("/a", 10), 32);
    assert_eq!(s.frecency_quarters("/a", DAY_SECS - 1), 32);
    assert_eq!(s.frecency_quarters("/a", DAY_SECS), 16);
    assert_eq!(s.frecency_quarters("/a", 7 * DAY_SECS), 4);
    assert_eq!(s.frecency_quarters("/a", 30 * DAY_SECS), 2);
    assert_eq!(s.frecency_quarters("/missing", 0), 0);
}

#[test]
fn record_visit_uses_the_clock() {
    let mut s = Store::new();
    s.record_visit("/x");
    s.record_visit("/x");
    assert_eq!(s.frecency[0].1.visits, 2);
    assert!(s.frecency[0].1.last > 0);
}

#[test]
fn record_jump_sets_previous() {
    let mut s = Store::new();
    s.record_jump("/t", Some("/from".to_string()));
    assert_eq!(s.prev, Some("/from".to_string()));
    assert_eq!(s.frecency[0].1.visits, 1);
}

#[test]
fn pins_read_back_and_unpin_undoes() {
    let mut s = Store::new();
    s.pin("work", "/w");
    s.pin("api", "/a");
    assert_eq!(s.pin_target("work"), Some("/w".to_string()));
    s.pin("work", "/w2");
    assert_eq!(s.pin_target("work"), Some("/w2".to_string()));
    assert_eq!(s.pins.len(), 2);
    assert!(s.unpin("work"));
    assert_eq!(s.pin_target("work"), None);
    assert_eq!(s.pin_target("api"), Some("/a".to_string()));
    assert!(!s.unpin("work"));
}
