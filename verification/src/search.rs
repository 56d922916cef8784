//! Directory-name matching and result ranking for `jump`.
//!
//! A query is matched against directory names: exact name, prefix,
//! substring, initialism (`nxb` for `nexxupp-backend`) or subsequence.
//! Results are ordered exact, then prefix, then substring, then fuzzy, and
//! within a rank by frecency, highest first; ties keep the walk order.

use vstd::prelude::*;
use crate::text::{
    chars_of, contains_chars, has_prefix, is_subsequence, lower_chars, lowercase, occurs_at, occurs_in,
    same_chars, starts_with_chars, string_of, subsequence_chars, unicode_lowercase,
};
use crate::paths::{file_name_of, path_eq, path_file_name, same_path};
use crate::store::{quarters_of, score_quarters, visits_in, VisitStats};
use crate::table::lookup;

verus! {

// ── Specifications ─────────────────────────────────────────────────────────

/// How well a lowercase name matches a lowercase query:
/// 0 exact, 1 prefix, 2 substring, 3 otherwise.
pub open spec fn rank_of(name_lower: Seq<char>, q: Seq<char>) -> u8 {
    if name_lower == q {
        0
    } else if has_prefix(name_lower, q) {
        1
    } else if occurs_in(name_lower, q) {
        2
    } else {
        3
    }
}

/// Characters that start a new word of a name. The narrow set (`-`, `_`)
/// is used by the directory search; the wide set adds `.` and space and is
/// used by the explorer's filter.
pub open spec fn is_separator(c: char, wide: bool) -> bool {
    c == '-' || c == '_' || (wide && (c == '.' || c == ' '))
}

/// Position `i` of `s` starts a non-empty word.
pub open spec fn starts_word(s: Seq<char>, i: int, wide: bool) -> bool {
    &&& 0 <= i < s.len()
    &&& !is_separator(s[i], wide)
    &&& (i == 0 || is_separator(s[i - 1], wide))
}

/// The first character of every non-empty word of `s`, in order.
pub open spec fn initials(s: Seq<char>, wide: bool) -> Seq<char>
    decreases s.len(),
{
    if s.len() == 0 {
        Seq::empty()
    } else if starts_word(s, s.len() - 1, wide) {
        initials(s.drop_last(), wide).push(s.last())
    } else {
        initials(s.drop_last(), wide)
    }
}

/// The fuzzy test of the directory search: an empty query matches; else the
/// lowercase query must occur in the name's initials or be a subsequence of
/// the name.
pub open spec fn fuzzy_matches(name_lower: Seq<char>, query: Seq<char>) -> bool {
    let q = unicode_lowercase(query);
    query.len() == 0 || occurs_in(initials(name_lower, false), q) || is_subsequence(q, name_lower)
}

/// The lowercase file name of a path (empty when the path has none).
pub open spec fn lower_file_name(path: Seq<char>) -> Seq<char> {
    match path_file_name(path) {
        Some(n) => unicode_lowercase(n),
        None => Seq::empty(),
    }
}

/// `p` is the position of the first space of `q`.
pub open spec fn is_first_space(q: Seq<char>, p: int) -> bool {
    &&& 0 <= p < q.len()
    &&& q[p] == ' '
    &&& forall|k: int| 0 <= k < p ==> q[k] != ' '
}

/// The path filter of a query: the lowercase text before its first space,
/// when it has one.
pub open spec fn query_path_filter(q: Seq<char>) -> Option<Seq<char>> {
    if exists|p: int| is_first_space(q, p) {
        let p = choose|p: int| is_first_space(q, p);
        Some(unicode_lowercase(q.subrange(0, p)))
    } else {
        None
    }
}

/// The name part of a query: the text after its first space, or the whole
/// query when it has none.
pub open spec fn query_name(q: Seq<char>) -> Seq<char> {
    if exists|p: int| is_first_space(q, p) {
        let p = choose|p: int| is_first_space(q, p);
        q.subrange(p + 1, q.len() as int)
    } else {
        q
    }
}

/// A walked directory is a result of `query` below `root`: its name
/// contains the name query or matches it fuzzily, its path contains the
/// path filter (if any), and it is not the root itself.
pub open spec fn is_result(root: Seq<char>, query: Seq<char>, path: Seq<char>, name: Seq<char>) -> bool {
    let nq = query_name(query);
    let name_l = unicode_lowercase(name);
    &&& occurs_in(name_l, unicode_lowercase(nq)) || fuzzy_matches(name_l, nq)
    &&& match query_path_filter(query) {
        Some(pf) => occurs_in(unicode_lowercase(path), pf),
        None => true,
    }
    &&& !path_eq(path, root)
}

/// The sort key of a result: its match rank, and four times its frecency.
pub open spec fn result_key(query: Seq<char>, path: Seq<char>, history: Seq<(String, VisitStats)>, now: u64) -> (u8, int) {
    (rank_of(lower_file_name(path), unicode_lowercase(query_name(query))), score_quarters(lookup(history, path), now))
}

/// Which positions of a walk are results of `query`.
pub open spec fn passes_at(root: Seq<char>, query: Seq<char>, cands: Seq<Candidate>) -> spec_fn(int) -> bool {
    |i: int| is_result(root, query, cands[i].path@, cands[i].name@)
}

/// The sort key of each position of a walk.
pub open spec fn keys_at(query: Seq<char>, cands: Seq<Candidate>, history: Seq<(String, VisitStats)>, now: u64) -> spec_fn(int) -> (u8, int) {
    |i: int| result_key(query, cands[i].path@, history, now)
}

/// Key `a` comes strictly before key `b`: a better (smaller) rank, or the
/// same rank and a higher frecency.
pub open spec fn key_before(a: (u8, int), b: (u8, int)) -> bool {
    a.0 < b.0 || (a.0 == b.0 && a.1 > b.1)
}

/// `order` lists, without repetition, exactly the positions `i < n` with
/// `pass(i)`, ordered by `key` and, among equal keys, by position.
pub open spec fn is_ranked_selection(
    n: int,
    pass: spec_fn(int) -> bool,
    key: spec_fn(int) -> (u8, int),
    order: Seq<int>,
) -> bool {
    &&& forall|k: int| 0 <= k < order.len() ==> 0 <= #[trigger] order[k] < n && pass(order[k])
    &&& forall|i: int| 0 <= i < n && #[trigger] pass(i) ==> order.contains(i)
    &&& forall|k: int, l: int|
        0 <= k < l < order.len() ==> key_before(key(#[trigger] order[k]), key(#[trigger] order[l]))
            || (key(order[k]) == key(order[l]) && order[k] < order[l])
}

// ── Executable matching ────────────────────────────────────────────────────

/// Ranks a lowercase name against a query: 0 exact, 1 prefix, 2 substring,
/// 3 none of these (the query is lowercased first).
pub fn rank_name(name_lower: &str, query: &str) -> (r: u8)
    ensures
        r == rank_of(name_lower@, unicode_lowercase(query@)),
{
    let q = lower_chars(query);
    let n = chars_of(name_lower);
    if same_chars(&n, &q) {
        0
    } else if starts_with_chars(&n, &q) {
        1
    } else if contains_chars(&n, &q) {
        2
    } else {
        3
    }
}

/// Ranks the file name of `path` (lowercased; empty if it has none)
/// against `query`.
pub fn match_rank(path: &str, query: &str) -> (r: u8)
    ensures
        r == rank_of(lower_file_name(path@), unicode_lowercase(query@)),
{
    let name = match file_name_of(path) {
        Some(n) => lowercase(n.as_str()),
        None => String::new(),
    };
    rank_name(name.as_str(), query)
}

/// The first character of every non-empty word of `s`.
pub fn initials_of(s: &Vec<char>, wide: bool) -> (r: Vec<char>)
    ensures
        r@ == initials(s@, wide),
{
    let mut r: Vec<char> = Vec::new();
    for i in 0..s.len()
        invariant
            r@ == initials(s@.take(i as int), wide),
    {
        let c = s[i];
        let sep = c == '-' || c == '_' || (wide && (c == '.' || c == ' '));
        let after_sep = i == 0 || {
            let p = s[i - 1];
            p == '-' || p == '_' || (wide && (p == '.' || p == ' '))
        };
        proof {
            let t = s@.take(i + 1);
            assert(t.drop_last() == s@.take(i as int));
            assert(t.last() == s@[i as int]);
            if i > 0 {
                assert(t[i - 1] == s@[i - 1]);
            }
        }
        if !sep && after_sep {
            r.push(c);
        }
    }
    assert(s@.take(s.len() as int) == s@);
    r
}

/// Fuzzy test of a lowercase directory name against a query: the
/// lowercase query occurs in the name's initials (words split at `-` and
/// `_`) or is a subsequence of the name. An empty query always matches.
pub fn matches_fuzzy(name_lower: &str, query: &str) -> (r: bool)
    ensures
        r == fuzzy_matches(name_lower@, query@),
{
    if query.is_empty() {
        return true;
    }
    let q = lower_chars(query);
    let n = chars_of(name_lower);
    let ini = initials_of(&n, false);
    if contains_chars(&ini, &q) {
        return true;
    }
    subsequence_chars(&q, &n)
}

/// Splits a query at its first space into a lowercase path filter and a
/// name query; without a space there is no path filter.
pub fn split_query(query: &str) -> (r: (Option<String>, String))
    ensures
        match r.0 {
            Some(pf) => query_path_filter(query@) == Some(pf@),
            None => query_path_filter(query@) is None,
        },
        r.1@ == query_name(query@),
{
    let q = chars_of(query);
    let mut i: usize = 0;
    while i < q.len()
        invariant
            q@ == query@,
            i <= q.len(),
            forall|k: int| 0 <= k < i ==> q@[k] != ' ',
        decreases q.len() - i,
    {
        if q[i] == ' ' {
            let mut before: Vec<char> = Vec::new();
            let mut after: Vec<char> = Vec::new();
            for k in 0..i
                invariant
                    i < q.len(),
                    before@ == q@.subrange(0, k as int),
            {
                before.push(q[k]);
            }
            for k in i + 1..q.len()
                invariant
                    i < q.len(),
                    after@ == q@.subrange(i + 1, k as int),
            {
                after.push(q[k]);
            }
            proof {
                assert(is_first_space(query@, i as int));
                let c = choose|p: int| is_first_space(query@, p);
                assert(c == i);
            }
            let b = string_of(&before);
            let pf = lowercase(b.as_str());
            return (Some(pf), string_of(&after));
        }
        i = i + 1;
    }
    assert(forall|p: int| !is_first_space(query@, p));
    (None, string_of(&q))
}

/// One directory found by the walk: its full path and its file name.
#[derive(Clone, Debug)]
pub struct Candidate {
    pub path: String,
    pub name: String,
}

/// Whether key `a` comes strictly before key `b`.
fn before(a: (u8, u128), b: (u8, u128)) -> (r: bool)
    ensures
        r == key_before((a.0, a.1 as int), (b.0, b.1 as int)),
{
    a.0 < b.0 || (a.0 == b.0 && a.1 > b.1)
}

/// The positions in `order`, as integers.
pub open spec fn positions(order: Seq<usize>) -> Seq<int> {
    order.map_values(|x: usize| x as int)
}

/// Inserts position `i` into a ranked selection of the positions below `i`,
/// after every position whose key does not come after `i`'s key.
fn insert_ranked(
    order: &mut Vec<usize>,
    keys: &Vec<(u8, u128)>,
    i: usize,
    Ghost(pass): Ghost<spec_fn(int) -> bool>,
    Ghost(key): Ghost<spec_fn(int) -> (u8, int)>,
)
    requires
        is_ranked_selection(i as int, pass, key, positions(old(order)@)),
        pass(i as int),
        keys@.len() == i + 1,
        forall|x: int| 0 <= x <= i && #[trigger] pass(x) ==> (keys@[x].0, keys@[x].1 as int) == key(x),
    ensures
        is_ranked_selection(i + 1, pass, key, positions(final(order)@)),
{
    let ghost old_order = positions(order@);
    assert forall|m: int| 0 <= m < order@.len() implies #[trigger] order@[m] < i by {
        assert(old_order[m] == order@[m] as int);
    }
    let k = keys[i];
    let mut j: usize = 0;
    while j < order.len() && !before(k, keys[order[j]])
        invariant
            j <= order.len(),
            keys@.len() == i + 1,
            (k.0, k.1 as int) == key(i as int),
            old_order == positions(order@),
            is_ranked_selection(i as int, pass, key, old_order),
            forall|m: int| 0 <= m < order@.len() ==> #[trigger] order@[m] < i,
            forall|m: int| 0 <= m < j ==> !key_before(key(i as int), #[trigger] key(old_order[m])),
            forall|x: int| 0 <= x <= i && #[trigger] pass(x) ==> (keys@[x].0, keys@[x].1 as int) == key(x),
        decreases order.len() - j,
    {
        assert(old_order[j as int] == order@[j as int] as int);
        j = j + 1;
    }
    proof {
        if j < order.len() {
            assert(old_order[j as int] == order@[j as int] as int);
            assert(pass(old_order[j as int]));
        }
    }
    order.insert(j, i);
    proof {
        assert(positions(order@) =~= old_order.insert(j as int, i as int));
        lemma_insert_ranked(old_order, j as int, i as int, pass, key);
    }
}

/// Inserting position `ii` at `jj` keeps a ranked selection ranked when
/// every key before `jj` does not come after `ii`'s key and the key at
/// `jj` (if any) comes after it.
proof fn lemma_insert_ranked(
    old_order: Seq<int>,
    jj: int,
    ii: int,
    pass: spec_fn(int) -> bool,
    key: spec_fn(int) -> (u8, int),
)
    requires
        is_ranked_selection(ii, pass, key, old_order),
        pass(ii),
        0 <= ii,
        0 <= jj <= old_order.len(),
        forall|m: int| 0 <= m < jj ==> !key_before(key(ii), #[trigger] key(old_order[m])),
        jj < old_order.len() ==> key_before(key(ii), key(old_order[jj])),
    ensures
        is_ranked_selection(ii + 1, pass, key, old_order.insert(jj, ii)),
{
    let newm = old_order.insert(jj, ii);
    assert forall|m: int| #![trigger newm[m]] 0 <= m < newm.len() implies 0 <= newm[m] && newm[m] < ii + 1 && pass(newm[m]) by {
        if m < jj {
            assert(newm[m] == old_order[m]);
        } else if m > jj {
            assert(newm[m] == old_order[m - 1]);
        } else {
            assert(newm[m] == ii);
        }
    }
    assert forall|x: int| 0 <= x < ii + 1 && #[trigger] pass(x) implies newm.contains(x) by {
        if x < ii {
            assert(old_order.contains(x));
            let w = choose|w: int| 0 <= w < old_order.len() && old_order[w] == x;
            if w < jj {
                assert(newm[w] == x);
            } else {
                assert(newm[w + 1] == x);
            }
        } else {
            assert(newm[jj] == x);
        }
    }
    assert forall|a: int, b: int| 0 <= a < b < newm.len() implies key_before(key(#[trigger] newm[a]), key(#[trigger] newm[b]))
        || (key(newm[a]) == key(newm[b]) && newm[a] < newm[b]) by {
        if b < jj {
            assert(newm[a] == old_order[a] && newm[b] == old_order[b]);
        } else if b == jj {
            assert(newm[a] == old_order[a]);
            assert(!key_before(key(ii), key(old_order[a])));
            assert(old_order[a] < ii);
        } else if a > jj {
            assert(newm[a] == old_order[a - 1] && newm[b] == old_order[b - 1]);
        } else if a == jj {
            assert(newm[b] == old_order[b - 1]);
            let o1 = old_order[jj];
            let o2 = old_order[b - 1];
            assert(key_before(key(ii), key(o1)));
            if b - 1 > jj {
                assert(key_before(key(o1), key(o2)) || (key(o1) == key(o2) && o1 < o2));
            }
        } else {
            assert(newm[a] == old_order[a] && newm[b] == old_order[b - 1]);
        }
    }
}

/// Whether a walked directory is a result of the query whose name part,
/// lowercase name part and path filter are given.
fn is_result_exec(
    root: &str,
    query: &str,
    name_query: &str,
    nq_lower: &Vec<char>,
    path_filter: &Option<Vec<char>>,
    c: &Candidate,
) -> (r: bool)
    requires
        name_query@ == query_name(query@),
        nq_lower@ == unicode_lowercase(name_query@),
        match path_filter {
            Some(pf) => query_path_filter(query@) == Some(pf@),
            None => query_path_filter(query@) is None,
        },
    ensures
        r == is_result(root@, query@, c.path@, c.name@),
{
    let name_l = lowercase(c.name.as_str());
    let name_lc = chars_of(name_l.as_str());
    let name_ok = contains_chars(&name_lc, nq_lower) || matches_fuzzy(name_l.as_str(), name_query);
    let path_ok = match path_filter {
        Some(pf) => {
            let pl = lower_chars(c.path.as_str());
            contains_chars(&pl, pf)
        },
        None => true,
    };
    name_ok && path_ok && !same_path(c.path.as_str(), root)
}

/// `r` lists the results of `query` among the walked `cands`: none for an
/// empty query; else the paths of the results (see `is_result`), each once,
/// ordered by `result_key` and, among equal keys, in walk order.
pub open spec fn ranked_results(
    root: Seq<char>,
    query: Seq<char>,
    cands: Seq<Candidate>,
    history: Seq<(String, VisitStats)>,
    now: u64,
    r: Seq<String>,
) -> bool {
    &&& query.len() == 0 ==> r.len() == 0
    &&& query.len() > 0 ==> exists|order: Seq<int>|
        {
            &&& #[trigger] is_ranked_selection(cands.len() as int, passes_at(root, query, cands), keys_at(query, cands, history, now), order)
            &&& r.len() == order.len()
            &&& forall|k: int| 0 <= k < order.len() ==> #[trigger] r[k]@ == cands[order[k]].path@
        }
}

/// The results of `query` among the walked directories, in ranked order.
///
/// A directory is a result when its lowercase name contains the name query
/// (lowercased) or matches it fuzzily, its lowercase path contains the path
/// filter of the query (if any), and it is not `root`. Results come ordered
/// by match rank (exact, prefix, substring, fuzzy), then by frecency at
/// time `now`, highest first; results with equal rank and frecency keep the
/// order of the walk. An empty query has no results.
pub fn rank_candidates(
    root: &str,
    query: &str,
    candidates: &Vec<Candidate>,
    history: &Vec<(String, VisitStats)>,
    now: u64,
) -> (r: Vec<String>)
    ensures
        ranked_results(root@, query@, candidates@, history@, now, r@),
{
    if query.is_empty() {
        return Vec::new();
    }
    let ghost n = candidates@.len() as int;
    let ghost pass = passes_at(root@, query@, candidates@);
    let ghost key = keys_at(query@, candidates@, history@, now);
    let parts = split_query(query);
    let path_filter: Option<Vec<char>> = match &parts.0 {
        Some(pf) => Some(chars_of(pf.as_str())),
        None => None,
    };
    let name_query: &str = parts.1.as_str();
    let nq_lower = lower_chars(name_query);
    let mut keys: Vec<(u8, u128)> = Vec::new();
    let mut order: Vec<usize> = Vec::new();
    for i in 0..candidates.len()
        invariant
            n == candidates@.len(),
            name_query@ == query_name(query@),
            nq_lower@ == unicode_lowercase(name_query@),
            match path_filter {
                Some(pf) => query_path_filter(query@) == Some(pf@),
                None => query_path_filter(query@) is None,
            },
            pass == passes_at(root@, query@, candidates@),
            key == keys_at(query@, candidates@, history@, now),
            keys@.len() == i,
            forall|x: int| 0 <= x < i && #[trigger] pass(x) ==> (keys@[x].0, keys@[x].1 as int) == key(x),
            is_ranked_selection(i as int, pass, key, positions(order@)),
    {
        let c = &candidates[i];
        let ok = is_result_exec(root, query, name_query, &nq_lower, &path_filter, c);
        assert(ok == pass(i as int));
        if ok {
            let rank = match_rank(c.path.as_str(), name_query);
            let score = quarters_of(visits_in(history, c.path.as_str()), now);
            keys.push((rank, score));
            assert((keys@[i as int].0, keys@[i as int].1 as int) == key(i as int));
            insert_ranked(&mut order, &keys, i, Ghost(pass), Ghost(key));
        } else {
            keys.push((3, 0));
            assert(forall|k: int| 0 <= k < order@.len() ==> #[trigger] positions(order@)[k] < i + 1);
        }
    }
    let ghost ord = positions(order@);
    let mut r: Vec<String> = Vec::new();
    for k in 0..order.len()
        invariant
            ord == positions(order@),
            is_ranked_selection(n, pass, key, ord),
            n == candidates@.len(),
            r@.len() == k,
            forall|m: int| 0 <= m < k ==> #[trigger] r@[m]@ == candidates@[ord[m]].path@,
    {
        assert(ord[k as int] == order@[k as int] as int);
        r.push(candidates[order[k]].path.clone());
    }
    r
}

/// `p` names the same directory as one of `paths`.
pub open spec fn among(paths: Seq<String>, p: Seq<char>) -> bool {
    exists|i: int| 0 <= i < paths.len() && path_eq(paths[i]@, p)
}

/// The paths of `global` that are not among `local`, in order.
pub open spec fn new_paths(global: Seq<String>, local: Seq<String>) -> Seq<String>
    decreases global.len(),
{
    if global.len() == 0 {
        Seq::empty()
    } else if among(local, global.last()@) {
        new_paths(global.drop_last(), local)
    } else {
        new_paths(global.drop_last(), local).push(global.last())
    }
}

/// Whether one of `paths` names the directory `p`.
fn contains_path(paths: &Vec<String>, p: &str) -> (r: bool)
    ensures
        r == among(paths@, p@),
{
    for i in 0..paths.len()
        invariant
            forall|j: int| 0 <= j < i ==> !path_eq(paths@[j]@, p@),
    {
        if same_path(paths[i].as_str(), p) {
            return true;
        }
    }
    false
}

/// The results shown after both searches finished: the results found near
/// the current directory first, then those of the wider search that are
/// not among them, each list in its own order.
pub fn merge_results(local: Vec<String>, global: Vec<String>) -> (r: Vec<String>)
    ensures
        r@ == local@ + new_paths(global@, local@),
{
    let mut r = local.clone();
    let ghost l = local@;
    assert(r@ == l + new_paths(global@.take(0), l)) by {
        assert(new_paths(global@.take(0), l) =~= Seq::<String>::empty());
        assert(r@ =~= l);
    }
    for i in 0..global.len()
        invariant
            l == local@,
            r@ == l + new_paths(global@.take(i as int), l),
    {
        proof {
            let t = global@.take(i + 1);
            assert(t.drop_last() == global@.take(i as int));
            assert(t.last() == global@[i as int]);
        }
        if !contains_path(&local, global[i].as_str()) {
            r.push(global[i].clone());
            assert(r@ =~= l + new_paths(global@.take(i + 1), l));
        }
    }
    assert(global@.take(global@.len() as int) == global@);
    r
}

// ── Laws ───────────────────────────────────────────────────────────────────

/// A prefix occurs in the text, at its start.
proof fn lemma_prefix_occurs(s: Seq<char>, p: Seq<char>)
    requires
        has_prefix(s, p),
    ensures
        occurs_in(s, p),
{
    assert(occurs_at(s, p, 0));
}

/// The name part of `pf + " " + nq`, where `pf` holds no space, is `nq`.
proof fn lemma_query_name_split(pf: Seq<char>, nq: Seq<char>)
    requires
        !pf.contains(' '),
    ensures
        query_name(pf + seq![' '] + nq) == nq,
        query_path_filter(pf + seq![' '] + nq) == Some(unicode_lowercase(pf)),
{
    let q = pf + seq![' '] + nq;
    let n = pf.len() as int;
    assert(q[n] == ' ');
    assert forall|k: int| 0 <= k < n implies q[k] != ' ' by {
        assert(q[k] == pf[k]);
        if q[k] == ' ' {
            assert(pf.contains(' '));
        }
    }
    assert(is_first_space(q, n));
    let p = choose|p: int| is_first_space(q, p);
    if p < n {
        assert(q[p] == pf[p]);
        assert(pf.contains(' '));
    }
    assert(p == n);
    assert(q.subrange(n + 1, q.len() as int) =~= nq);
    assert(q.subrange(0, n) =~= pf);
}

/// A query without a space is all name part.
proof fn lemma_query_name_whole(q: Seq<char>)
    requires
        !q.contains(' '),
    ensures
        query_name(q) == q,
{
    if exists|p: int| is_first_space(q, p) {
        let p = choose|p: int| is_first_space(q, p);
        assert(q.contains(' '));
    }
}

/// Results are ranked against the name part `nq` of the query (the text
/// after its first space, or the whole query without one), ignoring case:
/// a result whose lowercase file name equals the lowercase name part comes
/// before one whose file name does not; one whose file name starts with it
/// before one whose file name does not; one whose file name contains it
/// before one whose file name does not. The path filter before the space
/// plays no part in the order.
pub proof fn law_results_ranked_by_name_part(
    root: Seq<char>,
    query: Seq<char>,
    pf: Seq<char>,
    nq: Seq<char>,
    cands: Seq<Candidate>,
    history: Seq<(String, VisitStats)>,
    now: u64,
    r: Seq<String>,
)
    requires
        ranked_results(root, query, cands, history, now, r),
        (query == pf + seq![' '] + nq && !pf.contains(' ')) || (query == nq && !nq.contains(' ')),
    ensures
        forall|k: int, l: int|
            0 <= k < r.len() && 0 <= l < r.len() && lower_file_name(#[trigger] r[k]@) == unicode_lowercase(nq)
                && lower_file_name(#[trigger] r[l]@) != unicode_lowercase(nq) ==> k < l,
        forall|k: int, l: int|
            0 <= k < r.len() && 0 <= l < r.len() && has_prefix(lower_file_name(#[trigger] r[k]@), unicode_lowercase(nq))
                && !has_prefix(lower_file_name(#[trigger] r[l]@), unicode_lowercase(nq)) ==> k < l,
        forall|k: int, l: int|
            0 <= k < r.len() && 0 <= l < r.len() && occurs_in(lower_file_name(#[trigger] r[k]@), unicode_lowercase(nq))
                && !occurs_in(lower_file_name(#[trigger] r[l]@), unicode_lowercase(nq)) ==> k < l,
{
    if query == pf + seq![' '] + nq && !pf.contains(' ') {
        lemma_query_name_split(pf, nq);
    } else {
        lemma_query_name_whole(nq);
    }
    let lq = unicode_lowercase(nq);
    if query.len() > 0 {
        let order = choose|order: Seq<int>|
            {
                &&& #[trigger] is_ranked_selection(cands.len() as int, passes_at(root, query, cands), keys_at(query, cands, history, now), order)
                &&& r.len() == order.len()
                &&& forall|k: int| 0 <= k < order.len() ==> #[trigger] r[k]@ == cands[order[k]].path@
            };
        let key = keys_at(query, cands, history, now);
        assert forall|k: int, l: int| 0 <= k < r.len() && 0 <= l < r.len() && l <= k implies
            rank_of(lower_file_name(#[trigger] r[l]@), lq) <= rank_of(lower_file_name(#[trigger] r[k]@), lq) by {
            assert(r[k]@ == cands[order[k]].path@);
            assert(r[l]@ == cands[order[l]].path@);
            if l < k {
                assert(key_before(key(order[l]), key(order[k])) || (key(order[l]) == key(order[k]) && order[l] < order[k]));
            }
        }
        assert forall|a: Seq<char>| #[trigger] has_prefix(a, lq) implies occurs_in(a, lq) by {
            lemma_prefix_occurs(a, lq);
        }
        assert(has_prefix(lq, lq)) by {
            assert(lq.subrange(0, lq.len() as int) =~= lq);
        }
    } else {
        assert(r.len() == 0);
    }
}

/// Text that occurs in a name is a subsequence of it.
proof fn lemma_occurs_subsequence(hay: Seq<char>, needle: Seq<char>)
    requires
        occurs_in(hay, needle),
    ensures
        is_subsequence(needle, hay),
{
    let i = choose|i: int| occurs_at(hay, needle, i);
    let pos = Seq::new(needle.len(), |k: int| i + k);
    assert forall|k: int| 0 <= k < pos.len() implies 0 <= #[trigger] pos[k] < hay.len() && hay[pos[k]] == needle[k] by {
        assert(hay.subrange(i, i + needle.len())[k] == hay[i + k]);
    }
    assert(crate::text::is_embedding(needle, hay, pos));
}

/// The fuzzy test of the directory search accepts every name in which the
/// lowercase query appears in order, starting anywhere and with gaps
/// allowed (so also every name that contains it), and accepts every name
/// for the empty query.
pub proof fn law_fuzzy_accepts_subsequences(name_lower: Seq<char>, query: Seq<char>)
    ensures
        is_subsequence(unicode_lowercase(query), name_lower) ==> fuzzy_matches(name_lower, query),
        occurs_in(name_lower, unicode_lowercase(query)) ==> fuzzy_matches(name_lower, query),
        query.len() == 0 ==> fuzzy_matches(name_lower, query),
{
    if occurs_in(name_lower, unicode_lowercase(query)) {
        lemma_occurs_subsequence(name_lower, unicode_lowercase(query));
    }
}

/// Some entry of `r` is the path `p`.
pub open spec fn lists_path(r: Seq<String>, p: Seq<char>) -> bool {
    exists|k: int| 0 <= k < r.len() && r[k]@ == p
}

/// The search with query `pf + " " + nq` (`pf` without spaces) finds
/// every walked directory other than the root whose lowercase name
/// contains the lowercase name part `nq` and whose lowercase path contains
/// the lowercase path filter `pf`; every path it returns contains the
/// lowercase path filter; and an empty query finds nothing.
pub proof fn law_search_finds_matching_paths(
    root: Seq<char>,
    pf: Seq<char>,
    nq: Seq<char>,
    cands: Seq<Candidate>,
    history: Seq<(String, VisitStats)>,
    now: u64,
    r: Seq<String>,
)
    requires
        ranked_results(root, pf + seq![' '] + nq, cands, history, now, r),
        !pf.contains(' '),
    ensures
        forall|i: int|
            0 <= i < cands.len() && occurs_in(unicode_lowercase(#[trigger] cands[i].name@), unicode_lowercase(nq))
                && occurs_in(unicode_lowercase(cands[i].path@), unicode_lowercase(pf)) && !path_eq(cands[i].path@, root)
                ==> lists_path(r, cands[i].path@),
        forall|k: int| 0 <= k < r.len() ==> occurs_in(unicode_lowercase(#[trigger] r[k]@), unicode_lowercase(pf)),
        ranked_results(root, Seq::empty(), cands, history, now, r) ==> r.len() == 0,
{
    let query = pf + seq![' '] + nq;
    lemma_query_name_split(pf, nq);
    assert(query.len() > 0);
    let pass = passes_at(root, query, cands);
    let order = choose|order: Seq<int>|
        {
            &&& #[trigger] is_ranked_selection(cands.len() as int, pass, keys_at(query, cands, history, now), order)
            &&& r.len() == order.len()
            &&& forall|k: int| 0 <= k < order.len() ==> #[trigger] r[k]@ == cands[order[k]].path@
        };
    assert forall|i: int|
        0 <= i < cands.len() && occurs_in(unicode_lowercase(#[trigger] cands[i].name@), unicode_lowercase(nq))
            && occurs_in(unicode_lowercase(cands[i].path@), unicode_lowercase(pf)) && !path_eq(cands[i].path@, root)
            implies lists_path(r, cands[i].path@) by {
        assert(pass(i));
        assert(order.contains(i));
        let k = choose|k: int| 0 <= k < order.len() && order[k] == i;
        assert(r[k]@ == cands[i].path@);
    }
    assert forall|k: int| 0 <= k < r.len() implies occurs_in(unicode_lowercase(#[trigger] r[k]@), unicode_lowercase(pf)) by {
        assert(r[k]@ == cands[order[k]].path@);
        assert(pass(order[k]));
    }
}

} // verus!
