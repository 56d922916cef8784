//! Which directories the search walk leaves out: hidden and well-known
//! build/cache/IDE directories, build artifacts, and gitignored names.

use vstd::prelude::*;
use crate::text::{
    chars_of, ends_with_chars, equals_char, has_prefix, has_suffix, leading_run, lowercase,
    same_chars, slice_chars, split_chars, split_on, strip_end, strip_start, string_of,
    text_eq, trailing_run, trim_chars, trimmed, unicode_lowercase,
};

verus! {

/// The directory names the search never enters (`*` starts a suffix
/// pattern; a name that starts with `.` must match exactly).
pub open spec fn skip_dir_names() -> Seq<Seq<char>> {
    seq![
        "node_modules"@, ".next"@, "dist"@, "build"@, "__pycache__"@,
        ".pytest_cache"@, ".mypy_cache"@, ".ruff_cache"@, "venv"@, ".venv"@,
        "env"@, ".tox"@, ".eggs"@, "*.egg-info"@, "target"@, "debug"@,
        ".gradle"@, ".m2"@, ".idea"@, ".vscode"@, ".vs"@, ".git"@, ".svn"@,
        ".hg"@, ".Trash"@, ".Trash-1000"@, "$RECYCLE.BIN"@,
        "System Volume Information"@, ".npm"@, ".yarn"@, ".pnpm-store"@,
        ".cache"@, ".local"@, ".cargo"@, ".rustup"@, "coverage"@, ".coverage"@,
        "htmlcov"@, ".nyc_output"@, ".parcel-cache"@, ".turbo"@, ".angular"@,
        ".sass-cache"@, "bower_components"@, "vendor"@, ".bundle"@,
        ".terraform"@, ".serverless"@, "__MACOSX"@, ".debug"@, ".profile"@,
        ".docker"@, ".kube"@, "snap"@, ".snap"@
    ]
}

/// The skip list, in the order of `skip_dir_names`.
pub fn skip_dirs() -> (r: Vec<&'static str>)
    ensures
        r@.len() == skip_dir_names().len(),
        forall|i: int| 0 <= i < r@.len() ==> #[trigger] r@[i]@ == skip_dir_names()[i],
{
    vec![
        "node_modules", ".next", "dist", "build", "__pycache__",
        ".pytest_cache", ".mypy_cache", ".ruff_cache", "venv", ".venv",
        "env", ".tox", ".eggs", "*.egg-info", "target", "debug",
        ".gradle", ".m2", ".idea", ".vscode", ".vs", ".git", ".svn",
        ".hg", ".Trash", ".Trash-1000", "$RECYCLE.BIN",
        "System Volume Information", ".npm", ".yarn", ".pnpm-store",
        ".cache", ".local", ".cargo", ".rustup", "coverage", ".coverage",
        "htmlcov", ".nyc_output", ".parcel-cache", ".turbo", ".angular",
        ".sass-cache", "bower_components", "vendor", ".bundle",
        ".terraform", ".serverless", "__MACOSX", ".debug", ".profile",
        ".docker", ".kube", "snap", ".snap",
    ]
}

/// Whether `name` matches one skip pattern: a pattern starting with `*`
/// (after lowercasing) matches lowercase names ending with the rest of it;
/// a pattern starting with `.` matches that exact name; any other pattern
/// matches names equal to it ignoring case.
pub open spec fn skip_pattern_matches(name: Seq<char>, pattern: Seq<char>) -> bool {
    let p = unicode_lowercase(pattern);
    if has_prefix(p, seq!['*']) {
        has_suffix(unicode_lowercase(name), strip_start(p, equals_char('*')))
    } else if has_prefix(p, seq!['.']) {
        name == pattern
    } else {
        unicode_lowercase(name) == p
    }
}

/// The search does not enter a directory that is hidden (its name starts
/// with `.`) or matches a skip pattern.
pub open spec fn skipped(name: Seq<char>) -> bool {
    has_prefix(name, seq!['.']) || exists|i: int|
        0 <= i < skip_dir_names().len() && skip_pattern_matches(name, #[trigger] skip_dir_names()[i])
}

/// Whether the search should not enter a directory with this name.
pub fn should_skip_dir(name: &str) -> (r: bool)
    ensures
        r == skipped(name@),
{
    let n = chars_of(name);
    if n.len() > 0 && n[0] == '.' {
        assert(has_prefix(name@, seq!['.'])) by {
            assert(name@.subrange(0, 1) =~= seq!['.']);
        }
        return true;
    }
    assert(!has_prefix(name@, seq!['.'])) by {
        if has_prefix(name@, seq!['.']) {
            assert(name@.subrange(0, 1)[0] == '.');
        }
    }
    let name_lower = chars_of(lowercase(name).as_str());
    let patterns = skip_dirs();
    for i in 0..patterns.len()
        invariant
            n@ == name@,
            name_lower@ == unicode_lowercase(name@),
            patterns@.len() == skip_dir_names().len(),
            forall|k: int| 0 <= k < patterns@.len() ==> #[trigger] patterns@[k]@ == skip_dir_names()[k],
            !has_prefix(name@, seq!['.']),
            forall|k: int| 0 <= k < i ==> !skip_pattern_matches(name@, #[trigger] skip_dir_names()[k]),
    {
        let pattern = patterns[i];
        if pattern_matches(&n, &name_lower, pattern) {
            return true;
        }
    }
    false
}

/// One skip pattern against a name and its lowercase form.
fn pattern_matches(name: &Vec<char>, name_lower: &Vec<char>, pattern: &str) -> (r: bool)
    requires
        name_lower@ == unicode_lowercase(name@),
    ensures
        r == skip_pattern_matches(name@, pattern@),
{
    let p = chars_of(lowercase(pattern).as_str());
    if p.len() > 0 && p[0] == '*' {
        assert(has_prefix(p@, seq!['*'])) by {
            assert(p@.subrange(0, 1) =~= seq!['*']);
        }
        let k = leading_run(&p, '*');
        let rest = slice_chars(&p, k, p.len());
        ends_with_chars(name_lower, &rest)
    } else if p.len() > 0 && p[0] == '.' {
        assert(!has_prefix(p@, seq!['*'])) by {
            if has_prefix(p@, seq!['*']) {
                assert(p@.subrange(0, 1)[0] == '*');
            }
        }
        assert(has_prefix(p@, seq!['.'])) by {
            assert(p@.subrange(0, 1) =~= seq!['.']);
        }
        same_chars(name, &chars_of(pattern))
    } else {
        assert(!has_prefix(p@, seq!['*']) && !has_prefix(p@, seq!['.'])) by {
            if has_prefix(p@, seq!['*']) || has_prefix(p@, seq!['.']) {
                assert(p@.subrange(0, 1)[0] == p@[0]);
            }
        }
        same_chars(name_lower, &p)
    }
}

/// Whether a directory name matches one gitignore pattern: trailing `/`s
/// are dropped; a pattern starting with `*` matches names ending with the
/// rest of it (leading `*`s dropped); any other pattern matches the exact
/// name.
pub open spec fn gitignore_pattern_matches(name: Seq<char>, pattern: Seq<char>) -> bool {
    let p = strip_end(pattern, equals_char('/'));
    if has_prefix(p, seq!['*']) {
        has_suffix(name, strip_start(p, equals_char('*')))
    } else {
        name == p
    }
}

/// The texts of a list of patterns.
pub open spec fn pattern_texts(patterns: Seq<String>) -> Seq<Seq<char>> {
    patterns.map_values(|p: String| p@)
}

/// Whether some pattern of `patterns` ignores `name`.
pub open spec fn ignored_by(name: Seq<char>, patterns: Seq<Seq<char>>) -> bool {
    exists|i: int| 0 <= i < patterns.len() && gitignore_pattern_matches(name, #[trigger] patterns[i])
}

/// Whether some pattern ignores `name`.
pub fn is_gitignored(name: &str, patterns: &[String]) -> (r: bool)
    ensures
        r == exists|i: int| 0 <= i < patterns@.len() && gitignore_pattern_matches(name@, #[trigger] patterns@[i]@),
        r == ignored_by(name@, pattern_texts(patterns@)),
{
    let ghost texts = pattern_texts(patterns@);
    let n = chars_of(name);
    for i in 0..patterns.len()
        invariant
            n@ == name@,
            texts == pattern_texts(patterns@),
            forall|k: int| 0 <= k < i ==> !gitignore_pattern_matches(name@, #[trigger] patterns@[k]@),
    {
        let raw = chars_of(patterns[i].as_str());
        let t = trailing_run(&raw, '/');
        let p = slice_chars(&raw, 0, raw.len() - t);
        let hit = if p.len() > 0 && p[0] == '*' {
            assert(has_prefix(p@, seq!['*'])) by {
                assert(p@.subrange(0, 1) =~= seq!['*']);
            }
            let k = leading_run(&p, '*');
            let rest = slice_chars(&p, k, p.len());
            ends_with_chars(&n, &rest)
        } else {
            assert(!has_prefix(p@, seq!['*'])) by {
                if has_prefix(p@, seq!['*']) {
                    assert(p@.subrange(0, 1)[0] == p@[0]);
                }
            }
            same_chars(&n, &p)
        };
        if hit {
            assert(texts[i as int] == patterns@[i as int]@);
            return true;
        }
    }
    assert forall|i: int| 0 <= i < texts.len() implies !gitignore_pattern_matches(name@, #[trigger] texts[i]) by {
        assert(texts[i] == patterns@[i]@);
    }
    false
}

/// No pattern list ignores anything when empty; adding patterns never
/// un-ignores a name; and only which patterns there are counts, not their
/// order or how often each occurs.
pub proof fn law_gitignore_patterns_accumulate(name: Seq<char>, ps: Seq<Seq<char>>, qs: Seq<Seq<char>>)
    ensures
        !ignored_by(name, Seq::empty()),
        ignored_by(name, ps) ==> ignored_by(name, ps + qs),
        ignored_by(name, qs) ==> ignored_by(name, ps + qs),
        ps.to_set() == qs.to_set() ==> ignored_by(name, ps) == ignored_by(name, qs),
{
    if ignored_by(name, ps) {
        let i = choose|i: int| 0 <= i < ps.len() && gitignore_pattern_matches(name, #[trigger] ps[i]);
        assert((ps + qs)[i] == ps[i]);
    }
    if ignored_by(name, qs) {
        let i = choose|i: int| 0 <= i < qs.len() && gitignore_pattern_matches(name, #[trigger] qs[i]);
        assert((ps + qs)[ps.len() + i] == qs[i]);
    }
    if ps.to_set() == qs.to_set() {
        lemma_ignored_by_set(name, ps, qs);
        lemma_ignored_by_set(name, qs, ps);
    }
}

/// A name ignored by some pattern of `ps` is ignored by `qs` when `qs`
/// holds every pattern of `ps`.
proof fn lemma_ignored_by_set(name: Seq<char>, ps: Seq<Seq<char>>, qs: Seq<Seq<char>>)
    requires
        ps.to_set() == qs.to_set(),
    ensures
        ignored_by(name, ps) ==> ignored_by(name, qs),
{
    if ignored_by(name, ps) {
        let i = choose|i: int| 0 <= i < ps.len() && gitignore_pattern_matches(name, #[trigger] ps[i]);
        assert(ps.contains(ps[i]));
        assert(ps.to_set().contains(ps[i]));
        assert(qs.to_set().contains(ps[i]));
        assert(qs.contains(ps[i]));
        let j = choose|j: int| 0 <= j < qs.len() && qs[j] == ps[i];
        assert(gitignore_pattern_matches(name, qs[j]));
    }
}


/// The gitignore lines kept as patterns: every line, trimmed, that is not
/// empty and is not a `#` comment, with its leading `/`s removed.
pub open spec fn gitignore_line_kept(line: Seq<char>) -> bool {
    let t = trimmed(line);
    t.len() > 0 && !has_prefix(t, seq!['#'])
}

/// The pattern a kept gitignore line stands for.
pub open spec fn gitignore_line_pattern(line: Seq<char>) -> Seq<char> {
    strip_start(trimmed(line), equals_char('/'))
}

/// The patterns of a `.gitignore` file's text, in order.
pub open spec fn gitignore_patterns_spec(content: Seq<char>) -> Seq<Seq<char>> {
    split_on(content, '\n').filter(|l: Seq<char>| gitignore_line_kept(l)).map_values(
        |l: Seq<char>| gitignore_line_pattern(l),
    )
}

/// The patterns of a `.gitignore` file's text: each non-empty line that is
/// not a `#` comment, trimmed and without leading `/`s.
pub fn gitignore_patterns(content: &str) -> (r: Vec<String>)
    ensures
        r@.len() == gitignore_patterns_spec(content@).len(),
        forall|k: int| 0 <= k < r@.len() ==> #[trigger] r@[k]@ == gitignore_patterns_spec(content@)[k],
{
    let lines = split_chars(&chars_of(content), '\n');
    let ghost pieces = split_on(content@, '\n');
    let ghost kept = |l: Seq<char>| gitignore_line_kept(l);
    let mut r: Vec<String> = Vec::new();
    for i in 0..lines.len()
        invariant
            lines@.len() == pieces.len(),
            pieces == split_on(content@, '\n'),
            kept == (|l: Seq<char>| gitignore_line_kept(l)),
            forall|k: int| 0 <= k < lines@.len() ==> #[trigger] lines@[k]@ == pieces[k],
            r@.len() == pieces.take(i as int).filter(kept).len(),
            forall|k: int| 0 <= k < r@.len() ==> #[trigger] r@[k]@ == gitignore_line_pattern(pieces.take(i as int).filter(kept)[k]),
    {
        proof {
            assert(pieces.take(i + 1).drop_last() =~= pieces.take(i as int));
            reveal_with_fuel(Seq::filter, 1);
        }
        let t = trim_chars(&lines[i]);
        if t.len() > 0 && t[0] != '#' {
            assert(gitignore_line_kept(pieces[i as int])) by {
                if has_prefix(t@, seq!['#']) {
                    assert(t@.subrange(0, 1)[0] == t@[0]);
                }
            }
            let k = leading_run(&t, '/');
            let p = slice_chars(&t, k, t.len());
            r.push(string_of(&p));
        } else {
            assert(!gitignore_line_kept(pieces[i as int])) by {
                if t.len() > 0 {
                    assert(t@.subrange(0, 1) =~= seq!['#']);
                }
            }
        }
    }
    proof {
        assert(pieces.take(lines@.len() as int) =~= pieces);
    }
    r
}

/// Which marker files and directories were found inside a directory, for
/// deciding whether it is a build artifact.
#[derive(Clone, Copy, Debug, Default)]
pub struct ArtifactMarkers {
    /// `CACHEDIR.TAG` exists.
    pub cachedir_tag: bool,
    /// `.rustc_info.json` exists.
    pub rustc_info: bool,
    /// `release` exists.
    pub release: bool,
    /// `debug` exists.
    pub debug: bool,
    /// `pyvenv.cfg` exists.
    pub pyvenv_cfg: bool,
    /// `bin/activate` exists.
    pub bin_activate: bool,
    /// `.fingerprint` exists.
    pub fingerprint: bool,
}

/// A directory is a build artifact when it is a Cargo `target` directory
/// (with a cache tag, `.rustc_info.json`, `release` or `debug` inside),
/// a `node_modules` directory, a Python virtualenv (`venv`, `.venv` or
/// `env` holding `pyvenv.cfg` or `bin/activate`), or a Cargo `debug`
/// directory holding `.fingerprint`.
pub open spec fn is_artifact(name: Seq<char>, m: ArtifactMarkers) -> bool {
    ||| name == "target"@ && (m.cachedir_tag || m.rustc_info || m.release || m.debug)
    ||| name == "node_modules"@
    ||| (name == "venv"@ || name == ".venv"@ || name == "env"@) && (m.pyvenv_cfg || m.bin_activate)
    ||| name == "debug"@ && m.fingerprint
}

/// Whether the markers of a directory with this name can matter: only for
/// `target`, `node_modules`, `venv`, `.venv`, `env` and `debug`.
pub open spec fn artifact_name(name: Seq<char>) -> bool {
    name == "target"@ || name == "node_modules"@ || name == "venv"@ || name == ".venv"@ || name == "env"@
        || name == "debug"@
}

/// Whether a directory with this name could be a build artifact (so that
/// its markers are worth looking up).
pub fn is_artifact_name(name: &str) -> (r: bool)
    ensures
        r == artifact_name(name@),
        !r ==> forall|m: ArtifactMarkers| !#[trigger] is_artifact(name@, m),
{
    text_eq(name, "target") || text_eq(name, "node_modules") || text_eq(name, "venv") || text_eq(name, ".venv")
        || text_eq(name, "env") || text_eq(name, "debug")
}

/// Whether a directory with this name and these markers is a build artifact.
pub fn is_build_artifact(name: &str, markers: &ArtifactMarkers) -> (r: bool)
    ensures
        r == is_artifact(name@, *markers),
{
    let m = *markers;
    if text_eq(name, "target") && (m.cachedir_tag || m.rustc_info || m.release || m.debug) {
        return true;
    }
    if text_eq(name, "node_modules") {
        return true;
    }
    if (text_eq(name, "venv") || text_eq(name, ".venv") || text_eq(name, "env")) && (m.pyvenv_cfg || m.bin_activate) {
        return true;
    }
    if text_eq(name, "debug") && m.fingerprint {
        return true;
    }
    false
}

/// Whether the search leaves out a directory and everything below it: a
/// name it always skips, a build artifact (by name and markers), or, when
/// gitignore files are respected, a name some pattern ignores.
pub open spec fn pruned(name: Seq<char>, markers: ArtifactMarkers, respect_gitignore: bool, patterns: Seq<Seq<char>>) -> bool {
    skipped(name) || is_artifact(name, markers) || (respect_gitignore && ignored_by(name, patterns))
}

/// Whether the search leaves out the directory `name` (see `pruned`).
/// Markers matter only for names `is_artifact_name` accepts.
pub fn prune_dir(name: &str, markers: &ArtifactMarkers, respect_gitignore: bool, patterns: &[String]) -> (r: bool)
    ensures
        r == pruned(name@, *markers, respect_gitignore, pattern_texts(patterns@)),
{
    if should_skip_dir(name) {
        return true;
    }
    if is_artifact_name(name) && is_build_artifact(name, markers) {
        return true;
    }
    respect_gitignore && is_gitignored(name, patterns)
}

} // verus!
