//! Small keyed tables: a `Vec` of `(String, V)` pairs looked up by key.
//! A lookup finds the first pair whose key matches; tables built by this
//! library never hold a key twice.

use vstd::prelude::*;
use crate::text::{chars_of, same_chars};

verus! {

/// `i` is the first position of `t` whose key is `k`.
pub open spec fn is_first_key<V>(t: Seq<(String, V)>, k: Seq<char>, i: int) -> bool {
    &&& 0 <= i < t.len()
    &&& t[i].0@ == k
    &&& forall|j: int| 0 <= j < i ==> t[j].0@ != k
}

/// The value stored under `k` (the first pair with that key), if any.
pub open spec fn lookup<V>(t: Seq<(String, V)>, k: Seq<char>) -> Option<V> {
    if exists|i: int| is_first_key(t, k, i) {
        Some(t[choose|i: int| is_first_key(t, k, i)].1)
    } else {
        None
    }
}

/// No key occurs twice in `t`.
pub open spec fn keys_unique<V>(t: Seq<(String, V)>) -> bool {
    forall|i: int, j: int| 0 <= i < j < t.len() ==> t[i].0@ != t[j].0@
}

/// The position of the first pair with key `k`, if any.
pub fn find_key<V>(t: &Vec<(String, V)>, k: &str) -> (r: Option<usize>)
    ensures
        match r {
            Some(i) => is_first_key(t@, k@, i as int),
            None => forall|i: int| 0 <= i < t@.len() ==> t@[i].0@ != k@,
        },
{
    let kc = chars_of(k);
    for i in 0..t.len()
        invariant
            kc@ == k@,
            forall|j: int| 0 <= j < i ==> t@[j].0@ != k@,
    {
        let e = chars_of(t[i].0.as_str());
        if same_chars(&e, &kc) {
            return Some(i);
        }
    }
    None
}

/// Where a key sits in a table is its first position.
pub proof fn lemma_first_key_unique<V>(t: Seq<(String, V)>, k: Seq<char>, i: int)
    requires
        is_first_key(t, k, i),
    ensures
        lookup(t, k) == Some(t[i].1),
{
    let c = choose|j: int| is_first_key(t, k, j);
    assert(is_first_key(t, k, c));
    if c < i {
        assert(t[c].0@ != k);
    } else if c > i {
        assert(t[i].0@ != k);
    }
}

/// A key found nowhere has no value.
pub proof fn lemma_absent_key<V>(t: Seq<(String, V)>, k: Seq<char>)
    requires
        forall|i: int| 0 <= i < t.len() ==> t[i].0@ != k,
    ensures
        lookup(t, k) == None::<V>,
{
}

/// Two tables agree on every key but `k`.
pub open spec fn agree_except<V>(a: Seq<(String, V)>, b: Seq<(String, V)>, k: Seq<char>) -> bool {
    forall|k2: Seq<char>| k2 != k ==> #[trigger] lookup(a, k2) == lookup(b, k2)
}

/// Stores `v` under `k`: replaces the value of the first pair with key
/// `k`, or adds a pair at the end. Every other key keeps its value.
pub fn table_set<V>(t: &mut Vec<(String, V)>, k: &str, v: V)
    ensures
        lookup(final(t)@, k@) == Some(v),
        agree_except(final(t)@, old(t)@, k@),
        keys_unique(old(t)@) ==> keys_unique(final(t)@),
{
    let ghost t0 = t@;
    match find_key(t, k) {
        Some(i) => {
            let key = k.to_owned();
            t.set(i, (key, v));
            proof {
                let t1 = t@;
                assert(forall|m: int| 0 <= m < t0.len() ==> #[trigger] t1[m].0@ == t0[m].0@);
                assert(is_first_key(t1, k@, i as int));
                lemma_first_key_unique(t1, k@, i as int);
                lemma_same_keys(t0, t1, k@, i as int);
            }
        },
        None => {
            t.push((k.to_owned(), v));
            proof {
                let t1 = t@;
                let n = t0.len() as int;
                assert(forall|m: int| 0 <= m < n ==> #[trigger] t1[m] == t0[m]);
                assert(is_first_key(t1, k@, n));
                lemma_first_key_unique(t1, k@, n);
                assert forall|k2: Seq<char>| k2 != k@ implies #[trigger] lookup(t1, k2) == lookup(t0, k2) by {
                    if exists|j: int| is_first_key(t0, k2, j) {
                        let j = choose|j: int| is_first_key(t0, k2, j);
                        assert(is_first_key(t1, k2, j));
                        lemma_first_key_unique(t0, k2, j);
                        lemma_first_key_unique(t1, k2, j);
                    } else {
                        assert forall|j: int| !is_first_key(t1, k2, j) by {
                            if is_first_key(t1, k2, j) && j < n {
                                assert forall|m: int| 0 <= m < j implies t0[m].0@ != k2 by {
                                    assert(t1[m].0@ != k2);
                                }
                                assert(is_first_key(t0, k2, j));
                            }
                        }
                    }
                }
            }
        },
    }
}

/// Replacing the value at position `i` (keeping every key) changes no
/// lookup of another key than the one at `i`.
proof fn lemma_same_keys<V>(t0: Seq<(String, V)>, t1: Seq<(String, V)>, k: Seq<char>, i: int)
    requires
        t0.len() == t1.len(),
        0 <= i < t0.len(),
        t0[i].0@ == k,
        forall|m: int| 0 <= m < t0.len() ==> #[trigger] t1[m].0@ == t0[m].0@,
        forall|m: int| 0 <= m < t0.len() && m != i ==> #[trigger] t1[m] == t0[m],
    ensures
        agree_except(t1, t0, k),
        keys_unique(t0) ==> keys_unique(t1),
{
    assert forall|k2: Seq<char>| k2 != k implies #[trigger] lookup(t1, k2) == lookup(t0, k2) by {
        if exists|j: int| is_first_key(t0, k2, j) {
            let j = choose|j: int| is_first_key(t0, k2, j);
            assert(is_first_key(t1, k2, j));
            lemma_first_key_unique(t0, k2, j);
            lemma_first_key_unique(t1, k2, j);
        } else {
            assert forall|j: int| !is_first_key(t1, k2, j) by {
                if is_first_key(t1, k2, j) {
                    assert forall|m: int| 0 <= m < j implies t0[m].0@ != k2 by {
                        assert(t1[m].0@ != k2);
                    }
                    assert(is_first_key(t0, k2, j));
                }
            }
        }
    }
}

/// Removes the pair with key `k` from a table without repeated keys, and
/// says whether there was one. Every other key keeps its value.
pub fn table_remove<V>(t: &mut Vec<(String, V)>, k: &str) -> (r: bool)
    requires
        keys_unique(old(t)@),
    ensures
        r == (lookup(old(t)@, k@) is Some),
        lookup(final(t)@, k@) is None,
        agree_except(final(t)@, old(t)@, k@),
        keys_unique(final(t)@),
{
    let ghost t0 = t@;
    match find_key(t, k) {
        Some(i) => {
            proof {
                lemma_first_key_unique(t0, k@, i as int);
            }
            let _ = t.remove(i);
            proof {
                let t1 = t@;
                let ii = i as int;
                assert(forall|m: int| 0 <= m < ii ==> #[trigger] t1[m] == t0[m]);
                assert(forall|m: int| ii <= m < t1.len() ==> #[trigger] t1[m] == t0[m + 1]);
                assert forall|m: int| 0 <= m < t1.len() implies #[trigger] t1[m].0@ != k@ by {
                    if m >= ii {
                        assert(t1[m] == t0[m + 1]);
                    }
                }
                lemma_absent_key(t1, k@);
                assert forall|k2: Seq<char>| k2 != k@ implies #[trigger] lookup(t1, k2) == lookup(t0, k2) by {
                    if exists|j: int| is_first_key(t0, k2, j) {
                        let j = choose|j: int| is_first_key(t0, k2, j);
                        lemma_first_key_unique(t0, k2, j);
                        if j < ii {
                            assert(is_first_key(t1, k2, j));
                            lemma_first_key_unique(t1, k2, j);
                        } else {
                            assert(j != ii);
                            assert(t1[j - 1] == t0[j]);
                            assert forall|m: int| 0 <= m < j - 1 implies t1[m].0@ != k2 by {
                                if m >= ii {
                                    assert(t1[m] == t0[m + 1]);
                                }
                            }
                            assert(is_first_key(t1, k2, j - 1));
                            lemma_first_key_unique(t1, k2, j - 1);
                        }
                    } else {
                        assert forall|j: int| !is_first_key(t1, k2, j) by {
                            if is_first_key(t1, k2, j) {
                                if j < ii {
                                    assert forall|m: int| 0 <= m < j implies t0[m].0@ != k2 by {
                                        assert(t1[m].0@ != k2);
                                    }
                                    assert(is_first_key(t0, k2, j));
                                } else {
                                    assert(t0[j + 1].0@ == k2);
                                    assert forall|m: int| 0 <= m < j + 1 implies t0[m].0@ != k2 by {
                                        if m < ii {
                                            assert(t1[m].0@ != k2);
                                        } else if m > ii {
                                            assert(t1[m - 1] == t0[m]);
                                        }
                                    }
                                    assert(is_first_key(t0, k2, j + 1));
                                }
                            }
                        }
                    }
                }
                assert forall|a: int, b: int| 0 <= a < b < t1.len() implies t1[a].0@ != t1[b].0@ by {
                    let a0 = if a < ii { a } else { a + 1 };
                    let b0 = if b < ii { b } else { b + 1 };
                    assert(t1[a] == t0[a0]);
                    assert(t1[b] == t0[b0]);
                }
            }
            true
        },
        None => {
            proof {
                lemma_absent_key(t0, k@);
            }
            false
        },
    }
}

} // verus!
