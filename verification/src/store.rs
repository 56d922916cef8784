//! Visit history ("frecency") and named pins.

use vstd::prelude::*;
use crate::table::{
    agree_except, find_key, is_first_key, keys_unique, lemma_first_key_unique, lookup, table_remove,
    table_set,
};
use crate::clock::unix_now;

verus! {

/// How often and when a directory was last jumped to.
#[derive(Clone, Copy, Debug, Default)]
pub struct VisitStats {
    pub visits: u64,
    pub last: u64,
}

/// Everything that persists between runs: visit history keyed by path,
/// pins keyed by name, and the directory jumped from last.
#[derive(Debug, Default)]
pub struct Store {
    pub frecency: Vec<(String, VisitStats)>,
    pub pins: Vec<(String, String)>,
    pub prev: Option<String>,
}

/// Seconds in one day.
pub const DAY_SECS: u64 = 86400;

/// Weight of a visit, in quarters, by how many seconds ago it happened:
/// within a day 4, within a week 2, within thirty days 0.5, older 0.25.
pub open spec fn decay_quarters(age: int) -> int {
    if age < 86400 {
        16
    } else if age < 7 * 86400 {
        8
    } else if age < 30 * 86400 {
        2
    } else {
        1
    }
}

/// Seconds between `last` and `now`, or 0 when `last` lies in the future.
pub open spec fn age_of(last: u64, now: u64) -> int {
    if now >= last { now - last } else { 0 }
}

/// Four times the frecency score of a path with the given stats at time
/// `now` (the score is visits times the decay weight; 0 when never visited).
pub open spec fn score_quarters(s: Option<VisitStats>, now: u64) -> int {
    match s {
        None => 0,
        Some(v) => v.visits * decay_quarters(age_of(v.last, now)),
    }
}

/// Four times the frecency score, computed from the stats.
pub fn quarters_of(s: Option<VisitStats>, now: u64) -> (r: u128)
    ensures
        r == score_quarters(s, now),
{
    match s {
        None => 0,
        Some(v) => {
            let age: u64 = if now >= v.last { now - v.last } else { 0 };
            let w: u128 = if age < DAY_SECS {
                16
            } else if age < 7 * DAY_SECS {
                8
            } else if age < 30 * DAY_SECS {
                2
            } else {
                1
            };
            (v.visits as u128) * w
        },
    }
}

/// The stats recorded for `path` in a history table, if any.
pub fn visits_in(table: &Vec<(String, VisitStats)>, path: &str) -> (r: Option<VisitStats>)
    ensures
        r == lookup(table@, path@),
{
    match find_key(table, path) {
        Some(i) => {
            proof {
                lemma_first_key_unique(table@, path@, i as int);
            }
            Some(table[i].1)
        },
        None => None,
    }
}

impl Store {
    /// The history entry of `path`, if it was ever visited.
    pub open spec fn stats(&self, path: Seq<char>) -> Option<VisitStats> {
        lookup(self.frecency@, path)
    }

    /// The directory a pin name points at, if the pin exists.
    pub open spec fn pin_of(&self, name: Seq<char>) -> Option<String> {
        lookup(self.pins@, name)
    }

    /// A store with no history, no pins and no previous directory.
    pub fn new() -> (r: Store)
        ensures
            r.frecency@.len() == 0,
            r.pins@.len() == 0,
            r.prev is None,
    {
        Store { frecency: Vec::new(), pins: Vec::new(), prev: None }
    }

    /// Counts one more visit of `path` at time `now`: its visit count grows
    /// by one and its last-visit time becomes `now`; every other path keeps
    /// its stats, and pins and the previous directory are untouched.
    pub fn record_visit_at(&mut self, path: &str, now: u64)
        requires
            match old(self).stats(path@) {
                Some(s) => s.visits < u64::MAX,
                None => true,
            },
        ensures
            final(self).stats(path@) == Some(VisitStats {
                visits: match old(self).stats(path@) {
                    Some(s) => (s.visits + 1) as u64,
                    None => 1u64,
                },
                last: now,
            }),
            forall|k: Seq<char>| k != path@ ==> #[trigger] final(self).stats(k) == old(self).stats(k),
            keys_unique(old(self).frecency@) ==> keys_unique(final(self).frecency@),
            final(self).pins == old(self).pins,
            final(self).prev == old(self).prev,
    {
        let ghost t0 = self.frecency@;
        match find_key(&self.frecency, path) {
            Some(i) => {
                proof {
                    lemma_first_key_unique(t0, path@, i as int);
                }
                let old_stats = self.frecency[i].1;
                let key = self.frecency[i].0.clone();
                self.frecency.set(i, (key, VisitStats { visits: old_stats.visits + 1, last: now }));
                proof {
                    let t1 = self.frecency@;
                    assert(forall|m: int| 0 <= m < t0.len() ==> #[trigger] t1[m].0@ == t0[m].0@);
                    assert(is_first_key(t1, path@, i as int));
                    lemma_first_key_unique(t1, path@, i as int);
                    assert forall|k: Seq<char>| k != path@ implies #[trigger] lookup(t1, k) == lookup(t0, k) by {
                        if exists|j: int| is_first_key(t0, k, j) {
                            let j = choose|j: int| is_first_key(t0, k, j);
                            assert(is_first_key(t1, k, j));
                            lemma_first_key_unique(t0, k, j);
                            lemma_first_key_unique(t1, k, j);
                        } else {
                            assert forall|j: int| !is_first_key(t1, k, j) by {
                                if is_first_key(t1, k, j) {
                                    assert(t0[j].0@ == k);
                                    assert forall|m: int| 0 <= m < j implies t0[m].0@ != k by {
                                        assert(t1[m].0@ != k);
                                    }
                                    assert(is_first_key(t0, k, j));
                                }
                            }
                        }
                    }
                }
            },
            None => {
                let key = crate::text::string_of(&crate::text::chars_of(path));
                self.frecency.push((key, VisitStats { visits: 1, last: now }));
                proof {
                    let t1 = self.frecency@;
                    let n = t0.len() as int;
                    assert(forall|m: int| 0 <= m < n ==> #[trigger] t1[m] == t0[m]);
                    assert(is_first_key(t1, path@, n));
                    lemma_first_key_unique(t1, path@, n);
                    assert forall|k: Seq<char>| k != path@ implies #[trigger] lookup(t1, k) == lookup(t0, k) by {
                        if exists|j: int| is_first_key(t0, k, j) {
                            let j = choose|j: int| is_first_key(t0, k, j);
                            assert(is_first_key(t1, k, j));
                            lemma_first_key_unique(t0, k, j);
                            lemma_first_key_unique(t1, k, j);
                        } else {
                            assert forall|j: int| !is_first_key(t1, k, j) by {
                                if is_first_key(t1, k, j) && j < n {
                                    assert(t0[j].0@ == k);
                                    assert forall|m: int| 0 <= m < j implies t0[m].0@ != k by {
                                        assert(t1[m].0@ != k);
                                    }
                                    assert(is_first_key(t0, k, j));
                                }
                            }
                        }
                    }
                }
            },
        }
    }

    /// Counts one more visit of `path` now (the clock decides the time).
    /// The visit count grows by one; every other path keeps its stats.
    pub fn record_visit(&mut self, path: &str)
        requires
            match old(self).stats(path@) {
                Some(s) => s.visits < u64::MAX,
                None => true,
            },
        ensures
            final(self).stats(path@) matches Some(s) && s.visits == match old(self).stats(path@) {
                Some(o) => o.visits + 1,
                None => 1,
            },
            forall|k: Seq<char>| k != path@ ==> #[trigger] final(self).stats(k) == old(self).stats(k),
            keys_unique(old(self).frecency@) ==> keys_unique(final(self).frecency@),
            final(self).pins == old(self).pins,
            final(self).prev == old(self).prev,
    {
        let now = unix_now();
        self.record_visit_at(path, now);
    }

    /// Four times the frecency score of `path` at time `now`.
    pub fn frecency_quarters(&self, path: &str, now: u64) -> (r: u128)
        ensures
            r == score_quarters(self.stats(path@), now),
    {
        quarters_of(visits_in(&self.frecency, path), now)
    }

    /// Records a jump to `target` from the directory `from`: `from`
    /// becomes the previous directory and `target` gets one more visit now.
    pub fn record_jump(&mut self, target: &str, from: Option<String>)
        requires
            match old(self).stats(target@) {
                Some(s) => s.visits < u64::MAX,
                None => true,
            },
        ensures
            final(self).prev == from,
            final(self).stats(target@) matches Some(s) && s.visits == match old(self).stats(target@) {
                Some(o) => o.visits + 1,
                None => 1,
            },
            forall|k: Seq<char>| k != target@ ==> #[trigger] final(self).stats(k) == old(self).stats(k),
            final(self).pins == old(self).pins,
            old(self).wf() ==> final(self).wf(),
    {
        self.prev = from;
        self.record_visit(target);
    }

    /// No path and no pin name occurs twice.
    pub open spec fn wf(&self) -> bool {
        keys_unique(self.frecency@) && keys_unique(self.pins@)
    }

    /// `self` is `o` with `name` pinned to `path`: the pin reads `path`,
    /// every other pin and all history are kept.
    pub open spec fn pinned(&self, o: &Store, name: Seq<char>, path: Seq<char>) -> bool {
        &&& self.pin_of(name) matches Some(p) && p@ == path
        &&& agree_except(self.pins@, o.pins@, name)
        &&& self.frecency == o.frecency
        &&& self.prev == o.prev
    }

    /// `self` is `o` without the pin `name`; `found` tells whether it
    /// existed. Every other pin and all history are kept.
    pub open spec fn unpinned(&self, o: &Store, name: Seq<char>, found: bool) -> bool {
        &&& found == (o.pin_of(name) is Some)
        &&& self.pin_of(name) is None
        &&& agree_except(self.pins@, o.pins@, name)
        &&& self.frecency == o.frecency
        &&& self.prev == o.prev
    }

    /// Pins `name` to `path`, replacing an earlier pin of that name.
    pub fn pin(&mut self, name: &str, path: &str)
        ensures
            final(self).pinned(&*old(self), name@, path@),
            old(self).wf() ==> final(self).wf(),
    {
        table_set(&mut self.pins, name, path.to_owned());
    }

    /// Removes the pin `name`, saying whether there was one.
    pub fn unpin(&mut self, name: &str) -> (found: bool)
        requires
            old(self).wf(),
        ensures
            final(self).unpinned(&*old(self), name@, found),
            final(self).wf(),
    {
        table_remove(&mut self.pins, name)
    }

    /// The directory pinned under `name`, if any.
    pub fn pin_target(&self, name: &str) -> (r: Option<String>)
        ensures
            r == self.pin_of(name@),
    {
        match find_key(&self.pins, name) {
            Some(i) => {
                proof {
                    lemma_first_key_unique(self.pins@, name@, i as int);
                }
                Some(self.pins[i].1.clone())
            },
            None => {
                proof {
                    crate::table::lemma_absent_key(self.pins@, name@);
                }
                None
            },
        }
    }
}

/// Removing a pin undoes pinning it: after pinning `name` and unpinning
/// it again, the pin is gone, the unpin reports that it found one, and
/// every other pin is as before.
pub proof fn law_unpin_undoes_pin(s0: Store, s1: Store, s2: Store, name: Seq<char>, path: Seq<char>, found: bool)
    requires
        s1.pinned(&s0, name, path),
        s2.unpinned(&s1, name, found),
    ensures
        found,
        s2.pin_of(name) is None,
        forall|k: Seq<char>| k != name ==> #[trigger] s2.pin_of(k) == s0.pin_of(k),
        s2.frecency == s0.frecency,
{
    assert forall|k: Seq<char>| k != name implies #[trigger] s2.pin_of(k) == s0.pin_of(k) by {
        assert(lookup(s2.pins@, k) == lookup(s1.pins@, k));
        assert(lookup(s1.pins@, k) == lookup(s0.pins@, k));
    }
}

/// The last pin wins: pinning `name` to `p` and then to `q` leaves it
/// pointing at `q`, with every other pin as before.
pub proof fn law_last_pin_wins(s0: Store, s1: Store, s2: Store, name: Seq<char>, p: Seq<char>, q: Seq<char>)
    requires
        s1.pinned(&s0, name, p),
        s2.pinned(&s1, name, q),
    ensures
        s2.pin_of(name) matches Some(t) && t@ == q,
        forall|k: Seq<char>| k != name ==> #[trigger] s2.pin_of(k) == s0.pin_of(k),
{
    assert forall|k: Seq<char>| k != name implies #[trigger] s2.pin_of(k) == s0.pin_of(k) by {
        assert(lookup(s2.pins@, k) == lookup(s1.pins@, k));
        assert(lookup(s1.pins@, k) == lookup(s0.pins@, k));
    }
}

} // verus!
