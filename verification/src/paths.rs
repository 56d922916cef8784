//! Path questions answered by `std::path`, on paths held as text.

use vstd::prelude::*;

verus! {

/// The characters of an optional string.
pub open spec fn opt_text(o: Option<String>) -> Option<Seq<char>> {
    match o {
        Some(s) => Some(s@),
        None => None,
    }
}

/// What `Path::file_name` gives for a path with these characters.
pub uninterp spec fn path_file_name(p: Seq<char>) -> Option<Seq<char>>;

/// What `Path::parent` gives for a path with these characters.
pub uninterp spec fn path_parent(p: Seq<char>) -> Option<Seq<char>>;

/// What `==` on two `Path`s (component-wise comparison) gives.
pub uninterp spec fn path_eq(a: Seq<char>, b: Seq<char>) -> bool;

/// `Path::file_name`. Trusted: a function of the path's text alone.
#[verifier::external_body]
pub(crate) fn file_name_of(p: &str) -> (r: Option<String>)
    ensures
        opt_text(r) == path_file_name(p@),
{
    std::path::Path::new(p).file_name().map(|n| n.to_string_lossy().to_string())
}

/// `Path::parent`. Trusted: a function of the path's text alone.
#[verifier::external_body]
pub(crate) fn parent_of(p: &str) -> (r: Option<String>)
    ensures
        opt_text(r) == path_parent(p@),
{
    std::path::Path::new(p).parent().map(|q| q.to_string_lossy().to_string())
}

/// `Path::eq`. Trusted: a function of the two paths' text alone.
#[verifier::external_body]
pub(crate) fn same_path(a: &str, b: &str) -> (r: bool)
    ensures
        r == path_eq(a@, b@),
{
    std::path::Path::new(a) == std::path::Path::new(b)
}

/// What `Path::join` gives for a directory and a name.
pub uninterp spec fn path_join(dir: Seq<char>, name: Seq<char>) -> Seq<char>;

/// What `Path::file_stem` gives for a path with these characters.
pub uninterp spec fn path_stem(p: Seq<char>) -> Option<Seq<char>>;

/// What `Path::extension` gives for a path with these characters.
pub uninterp spec fn path_extension(p: Seq<char>) -> Option<Seq<char>>;

/// `Path::join`. Trusted: a function of the two texts alone.
#[verifier::external_body]
pub(crate) fn join_path(dir: &str, name: &str) -> (r: String)
    ensures
        r@ == path_join(dir@, name@),
{
    std::path::Path::new(dir).join(name).to_string_lossy().to_string()
}

/// `Path::file_stem`. Trusted: a function of the path's text alone.
#[verifier::external_body]
pub(crate) fn stem_of(p: &str) -> (r: Option<String>)
    ensures
        opt_text(r) == path_stem(p@),
{
    std::path::Path::new(p).file_stem().map(|n| n.to_string_lossy().to_string())
}

/// `Path::extension`. Trusted: a function of the path's text alone.
#[verifier::external_body]
pub(crate) fn extension_of(p: &str) -> (r: Option<String>)
    ensures
        opt_text(r) == path_extension(p@),
{
    std::path::Path::new(p).extension().map(|n| n.to_string_lossy().to_string())
}

/// What `Path::strip_prefix` gives: the rest of `p` below `base`, when
/// `base` is a leading run of `p`'s components.
pub uninterp spec fn path_strip_prefix(p: Seq<char>, base: Seq<char>) -> Option<Seq<char>>;

/// `Path::strip_prefix`. Trusted: a function of the two texts alone.
#[verifier::external_body]
pub(crate) fn strip_prefix_of(p: &str, base: &str) -> (r: Option<String>)
    ensures
        opt_text(r) == path_strip_prefix(p@, base@),
{
    std::path::Path::new(p).strip_prefix(base).ok().map(|q| q.to_string_lossy().to_string())
}

/// `dirs::home_dir`: the user's home directory, if it can be found.
/// Trusted with no contract: the result depends on the environment.
#[verifier::external_body]
pub(crate) fn home_dir() -> Option<String> {
    dirs::home_dir().map(|h| h.to_string_lossy().to_string())
}

/// A path as shown to the user: below the home directory `home` it is
/// written from `~/`; otherwise it is written in full.
pub open spec fn shortened(p: Seq<char>, home: Option<Seq<char>>) -> Seq<char> {
    match home {
        Some(h) => match path_strip_prefix(p, h) {
            Some(rel) => "~/"@ + rel,
            None => p,
        },
        None => p,
    }
}

/// Writes `p` from `~/` when it lies below `home` (see `shortened`).
pub fn shorten_path_under(p: &str, home: Option<&str>) -> (r: String)
    ensures
        r@ == shortened(p@, match home {
            Some(h) => Some(h@),
            None => None,
        }),
{
    if let Some(h) = home {
        if let Some(rel) = strip_prefix_of(p, h) {
            return crate::text::text_concat("~/", rel.as_str());
        }
    }
    p.to_owned()
}

/// Writes `p` from `~/` when it lies below the user's home directory.
pub fn shorten_path(p: &str) -> (r: String)
    ensures
        exists|home: Option<Seq<char>>| r@ == shortened(p@, home),
{
    let home = home_dir();
    let r = match &home {
        Some(h) => shorten_path_under(p, Some(h.as_str())),
        None => shorten_path_under(p, None),
    };
    proof {
        let hv: Option<Seq<char>> = match home {
            Some(h) => Some(h@),
            None => None,
        };
        assert(r@ == shortened(p@, hv));
    }
    r
}

} // verus!
