//! Aggregate store: the mapping from glyph cluster to occurrence count.
//!
//! The store is an association list with distinct keys, viewed in
//! specifications as a `Map` from the cluster's characters to its count.
//! It is mutated only by `increment` (one cluster, one more occurrence) and
//! `replace` (bulk overwrite at startup load).

use vstd::prelude::*;
use crate::sat_inc;

verus! {

/// The frequency aggregate: glyph clusters and their occurrence counts.
/// Keys are unique; no order is maintained on the entries themselves.
pub struct FrequencyData {
    pub emoji_counts: Vec<(String, u64)>,
}

/// Whether some entry carries the key `k`.
pub open spec fn seq_has_key(entries: Seq<(String, u64)>, k: Seq<char>) -> bool {
    exists|i: int| 0 <= i < entries.len() && entries[i].0@ == k
}

/// All entries carry pairwise different keys.
pub open spec fn distinct_keys(entries: Seq<(String, u64)>) -> bool {
    forall|i: int, j: int|
        0 <= i < j < entries.len() ==> entries[i].0@ != entries[j].0@
}

/// The mapping an entry sequence stands for.
pub open spec fn counts_map(entries: Seq<(String, u64)>) -> Map<Seq<char>, u64>
    decreases entries.len(),
{
    if entries.len() == 0 {
        Map::empty()
    } else {
        counts_map(entries.drop_last()).insert(entries.last().0@, entries.last().1)
    }
}

/// The count a mapping gives a cluster, zero when the cluster is absent.
pub open spec fn count_of(m: Map<Seq<char>, u64>, k: Seq<char>) -> u64 {
    if m.dom().contains(k) {
        m[k]
    } else {
        0
    }
}

/// One increment of cluster `k`: its count rises by one (saturating at the
/// machine limit); every other cluster is untouched.
pub open spec fn bump(m: Map<Seq<char>, u64>, k: Seq<char>) -> Map<Seq<char>, u64> {
    m.insert(k, sat_inc(count_of(m, k)))
}

/// The mapping after a whole sequence of increments, one per event.
pub open spec fn apply_events(m: Map<Seq<char>, u64>, evs: Seq<Seq<char>>) -> Map<
    Seq<char>,
    u64,
>
    decreases evs.len(),
{
    if evs.len() == 0 {
        m
    } else {
        bump(apply_events(m, evs.drop_last()), evs.last())
    }
}

/// How many events in `evs` are the cluster `k`.
pub open spec fn occurrences(evs: Seq<Seq<char>>, k: Seq<char>) -> nat
    decreases evs.len(),
{
    if evs.len() == 0 {
        0
    } else {
        occurrences(evs.drop_last(), k) + if evs.last() == k {
            1nat
        } else {
            0nat
        }
    }
}

/// With distinct keys, the mapping sends each entry's key to that entry's
/// count, and holds no key that no entry carries.
proof fn lemma_counts_map_index(entries: Seq<(String, u64)>, i: int)
    requires
        distinct_keys(entries),
        0 <= i < entries.len(),
    ensures
        counts_map(entries).dom().contains(entries[i].0@),
        counts_map(entries)[entries[i].0@] == entries[i].1,
    decreases entries.len(),
{
    if i < entries.len() - 1 {
        assert(distinct_keys(entries.drop_last()));
        assert(entries.drop_last()[i] == entries[i]);
        lemma_counts_map_index(entries.drop_last(), i);
        assert(entries[i].0@ != entries.last().0@);
    }
}

/// A key that no entry carries is not in the mapping's domain.
proof fn lemma_counts_map_no_key(entries: Seq<(String, u64)>, k: Seq<char>)
    requires
        !seq_has_key(entries, k),
    ensures
        !counts_map(entries).dom().contains(k),
    decreases entries.len(),
{
    if entries.len() > 0 {
        assert(!seq_has_key(entries.drop_last(), k)) by {
            assert(forall|i: int|
                0 <= i < entries.len() - 1 ==> entries.drop_last()[i] == entries[i]);
        }
        lemma_counts_map_no_key(entries.drop_last(), k);
        assert(entries.last().0@ != k) by {
            assert(entries[entries.len() - 1].0@ != k);
        }
    }
}

/// Replacing the count in one entry replaces that key's value in the mapping
/// and changes nothing else.
proof fn lemma_counts_map_update(entries: Seq<(String, u64)>, i: int, e: (String, u64))
    requires
        distinct_keys(entries),
        0 <= i < entries.len(),
        e.0@ == entries[i].0@,
    ensures
        counts_map(entries.update(i, e)) == counts_map(entries).insert(e.0@, e.1),
    decreases entries.len(),
{
    let upd = entries.update(i, e);
    if i == entries.len() - 1 {
        assert(upd.drop_last() =~= entries.drop_last());
        assert(upd.last() == e);
        assert(counts_map(upd) == counts_map(entries.drop_last()).insert(e.0@, e.1));
        assert(counts_map(entries.drop_last()).insert(entries.last().0@, entries.last().1).insert(
            e.0@,
            e.1,
        ) =~= counts_map(entries.drop_last()).insert(e.0@, e.1));
    } else {
        assert(distinct_keys(entries.drop_last()));
        assert(entries.drop_last()[i] == entries[i]);
        lemma_counts_map_update(entries.drop_last(), i, e);
        assert(upd.drop_last() =~= entries.drop_last().update(i, e));
        assert(upd.last() == entries.last());
        assert(counts_map(upd) == counts_map(entries.drop_last()).insert(e.0@, e.1).insert(
            entries.last().0@,
            entries.last().1,
        ));
        assert(e.0@ != entries.last().0@) by {
            assert(entries[i].0@ != entries[entries.len() - 1].0@);
        }
        assert(counts_map(entries.drop_last()).insert(e.0@, e.1).insert(
            entries.last().0@,
            entries.last().1,
        ) =~= counts_map(entries.drop_last()).insert(
            entries.last().0@,
            entries.last().1,
        ).insert(e.0@, e.1));
    }
}

impl FrequencyData {
    /// Entry keys are pairwise distinct.
    pub open spec fn wf(&self) -> bool {
        distinct_keys(self.emoji_counts@)
    }

    /// The mapping this store holds.
    pub open spec fn view(&self) -> Map<Seq<char>, u64> {
        counts_map(self.emoji_counts@)
    }

    /// An empty store.
    pub fn new() -> (r: FrequencyData)
        ensures
            r.wf(),
            r@ == Map::<Seq<char>, u64>::empty(),
            r.emoji_counts@.len() == 0,
    {
        FrequencyData { emoji_counts: Vec::new() }
    }

    /// Sets the cluster's count to one more than it was (zero when absent),
    /// saturating at the machine limit; every other cluster keeps its count.
    pub fn increment(&mut self, cluster: String)
        requires
            old(self).wf(),
        ensures
            final(self).wf(),
            final(self)@ == bump(old(self)@, cluster@),
    {
        let ghost entries0 = self.emoji_counts@;
        let n = self.emoji_counts.len();
        let mut i: usize = 0;
        while i < n
            invariant
                i <= n,
                n == self.emoji_counts@.len(),
                self.emoji_counts@ == entries0,
                distinct_keys(entries0),
                forall|j: int| 0 <= j < i ==> entries0[j].0@ != cluster@,
            decreases n - i,
        {
            if self.emoji_counts[i].0 == cluster {
                proof {
                    lemma_counts_map_index(entries0, i as int);
                }
                let c = self.emoji_counts[i].1;
                let newc = if c < u64::MAX {
                    c + 1
                } else {
                    c
                };
                self.emoji_counts[i].1 = newc;
                proof {
                    assert(self.emoji_counts@ =~= entries0.update(
                        i as int,
                        (entries0[i as int].0, newc),
                    ));
                    lemma_counts_map_update(entries0, i as int, (entries0[i as int].0, newc));
                    assert(newc == sat_inc(count_of(counts_map(entries0), cluster@)));
                    assert(forall|j: int|
                        0 <= j < entries0.len() ==> self.emoji_counts@[j].0@ == entries0[j].0@);
                }
                return ;
            }
            i = i + 1;
        }
        proof {
            assert(!seq_has_key(entries0, cluster@));
            lemma_counts_map_no_key(entries0, cluster@);
            assert(count_of(counts_map(entries0), cluster@) == 0);
        }
        self.emoji_counts.push((cluster, 1));
        proof {
            let pushed = self.emoji_counts@;
            assert(pushed.drop_last() =~= entries0);
            assert(counts_map(pushed) == counts_map(entries0).insert(pushed.last().0@, 1u64));
            assert(distinct_keys(pushed)) by {
                assert(forall|j: int| 0 <= j < entries0.len() ==> pushed[j] == entries0[j]);
            }
        }
    }

    /// A point-in-time copy of the entries: the same keys with the same
    /// counts, safe to read independently of later increments.
    pub fn snapshot(&self) -> (r: Vec<(String, u64)>)
        ensures
            r@ == self.emoji_counts@,
    {
        let mut r: Vec<(String, u64)> = Vec::new();
        let n = self.emoji_counts.len();
        let mut i: usize = 0;
        while i < n
            invariant
                i <= n,
                n == self.emoji_counts@.len(),
                r@ =~= self.emoji_counts@.take(i as int),
            decreases n - i,
        {
            let key = self.emoji_counts[i].0.clone();
            let cnt = self.emoji_counts[i].1;
            r.push((key, cnt));
            i = i + 1;
        }
        proof {
            assert(self.emoji_counts@.take(n as int) =~= self.emoji_counts@);
        }
        r
    }

    /// Bulk overwrite of the whole store, used at startup load.
    pub fn replace(&mut self, entries: Vec<(String, u64)>)
        requires
            distinct_keys(entries@),
        ensures
            final(self).wf(),
            final(self)@ == counts_map(entries@),
    {
        self.emoji_counts = entries;
    }

    /// The count the store holds for one cluster, zero when absent.
    pub fn count(&self, cluster: &String) -> (r: u64)
        requires
            self.wf(),
        ensures
            r == count_of(self@, cluster@),
    {
        let ghost entries0 = self.emoji_counts@;
        let n = self.emoji_counts.len();
        let mut i: usize = 0;
        while i < n
            invariant
                i <= n,
                n == self.emoji_counts@.len(),
                self.emoji_counts@ == entries0,
                distinct_keys(entries0),
                forall|j: int| 0 <= j < i ==> entries0[j].0@ != cluster@,
            decreases n - i,
        {
            if self.emoji_counts[i].0 == *cluster {
                proof {
                    lemma_counts_map_index(entries0, i as int);
                }
                return self.emoji_counts[i].1;
            }
            i = i + 1;
        }
        proof {
            assert(!seq_has_key(entries0, cluster@));
            lemma_counts_map_no_key(entries0, cluster@);
        }
        0
    }
}

/// After any interleaving of increments, each cluster's count is its old
/// count plus the number of increments that named it, saturating only at the
/// machine limit: no update is lost.
pub proof fn lemma_counts_after_events(m: Map<Seq<char>, u64>, evs: Seq<Seq<char>>, k: Seq<char>)
    ensures
        count_of(apply_events(m, evs), k) as int == if count_of(m, k) + occurrences(evs, k)
            <= u64::MAX {
            count_of(m, k) + occurrences(evs, k)
        } else {
            u64::MAX as int
        },
    decreases evs.len(),
{
    if evs.len() > 0 {
        lemma_counts_after_events(m, evs.drop_last(), k);
        let prev = apply_events(m, evs.drop_last());
        assert(apply_events(m, evs) == bump(prev, evs.last()));
        if evs.last() == k {
            assert(count_of(bump(prev, k), k) == sat_inc(count_of(prev, k)));
        } else {
            assert(count_of(bump(prev, evs.last()), k) == count_of(prev, k));
        }
    }
}

/// `increment` called for cluster `a` some number of times, interleaved
/// arbitrarily with calls for a different cluster `b`, yields exactly those
/// two tallies — counting from an empty store, no update is lost.
pub proof fn lemma_no_lost_updates(evs: Seq<Seq<char>>, a: Seq<char>, b: Seq<char>)
    requires
        a != b,
        occurrences(evs, a) <= u64::MAX,
        occurrences(evs, b) <= u64::MAX,
    ensures
        count_of(apply_events(Map::empty(), evs), a) == occurrences(evs, a),
        count_of(apply_events(Map::empty(), evs), b) == occurrences(evs, b),
{
    lemma_counts_after_events(Map::empty(), evs, a);
    lemma_counts_after_events(Map::empty(), evs, b);
}

} // verus!

