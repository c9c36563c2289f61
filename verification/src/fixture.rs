//! Size-bounded ordered-map fixtures for randomized testing.
//!
//! A fixture is an ordered map drawn as a sorted, key-unique entry vector.
//! The builder takes a batch of randomly drawn key/value pairs — up to the
//! wanted maximum — and builds the map from them; since map keys are
//! unique, duplicate keys collapse onto the latest pair, and a sample
//! whose deduplicated length falls below the wanted minimum is rejected.
//! This is oversampling-then-filtering: the randomized-testing harness
//! around it retries rejected samples.

use vstd::prelude::*;
use vstd::pervasive::VecAdditionalExecFns;
use core::cmp::Ordering;
use crate::util::linear_search_by;

verus! {

/// Whether some pair of `s` carries the key `k`.
pub open spec fn has_key<V>(s: Seq<(u64, V)>, k: u64) -> bool {
    exists|i: int| 0 <= i < s.len() && s[i].0 == k
}

/// The set of keys carried by the pairs of `s`.
pub open spec fn key_set<V>(s: Seq<(u64, V)>) -> Set<u64> {
    Set::new(|k: u64| has_key(s, k))
}

/// How many distinct keys the pairs of `s` carry.
pub open spec fn distinct_key_count<V>(s: Seq<(u64, V)>) -> int
    decreases s.len(),
{
    if s.len() == 0 {
        0
    } else {
        distinct_key_count(s.drop_last()) + if has_key(s.drop_last(), s.last().0) {
            0int
        } else {
            1int
        }
    }
}

/// The value of the last pair of `s` carrying the key `k`: the one a map
/// built from `s` keeps when keys collide.
pub open spec fn last_value_for<V>(s: Seq<(u64, V)>, k: u64) -> V
    recommends
        has_key(s, k),
    decreases s.len(),
{
    if s.len() == 0 {
        arbitrary()
    } else if s.last().0 == k {
        s.last().1
    } else {
        last_value_for(s.drop_last(), k)
    }
}

/// The entries are strictly ascending by key; in particular keys are
/// unique.
pub open spec fn entries_sorted<V>(es: Seq<(u64, V)>) -> bool {
    forall|i: int, j: int| 0 <= i < j < es.len() ==> es[i].0 < es[j].0
}

/// A sequence has no more distinct keys than it has pairs.
pub proof fn lemma_distinct_key_count_bounds<V>(s: Seq<(u64, V)>)
    ensures
        0 <= distinct_key_count(s) <= s.len(),
    decreases s.len(),
{
    if s.len() > 0 {
        lemma_distinct_key_count_bounds(s.drop_last());
    }
}

proof fn lemma_key_set_push<V>(s: Seq<(u64, V)>, p: (u64, V))
    ensures
        key_set(s.push(p)) == key_set(s).insert(p.0),
        has_key(s.push(p), p.0),
        forall|k: u64| #[trigger] has_key(s.push(p), k) <==> (has_key(s, k) || k == p.0),
{
    assert forall|k: u64| #[trigger] has_key(s.push(p), k) implies (has_key(s, k) || k == p.0) by {
        let i = choose|i: int| 0 <= i < s.push(p).len() && s.push(p)[i].0 == k;
        if i < s.len() {
            assert(s[i].0 == k);
        }
    }
    assert forall|k: u64| (has_key(s, k) || k == p.0) implies #[trigger] has_key(s.push(p), k) by {
        if has_key(s, k) {
            let i = choose|i: int| 0 <= i < s.len() && s[i].0 == k;
            assert(s.push(p)[i].0 == k);
        } else {
            assert(s.push(p)[s.len() as int].0 == k);
        }
    }
    assert(key_set(s.push(p)) =~= key_set(s).insert(p.0));
}

/// Build an ordered-map fixture from randomly drawn pairs: deduplicate by
/// key, keeping the latest pair of each key, and reject the sample when
/// fewer than `min_len` distinct keys survive.  The result is `Some`
/// exactly when the pairs carry at least `min_len` distinct keys, and the
/// map is then at most as long as the drawn batch — so a batch drawn
/// shorter than a wanted maximum yields a map shorter than that maximum.
pub fn ord_map<V>(pairs: Vec<(u64, V)>, min_len: usize) -> (r: Option<Vec<(u64, V)>>)
    ensures
        (r is Some) == (distinct_key_count(pairs@) >= min_len),
        match r {
            Some(m) => {
                &&& entries_sorted(m@)
                &&& key_set(m@) == key_set(pairs@)
                &&& forall|i: int|
                    0 <= i < m@.len() ==> m@[i].1 == last_value_for(pairs@, m@[i].0)
                &&& m@.len() == distinct_key_count(pairs@)
                &&& min_len <= m@.len() <= pairs@.len()
            },
            None => distinct_key_count(pairs@) < min_len,
        },
{
    let ghost all = pairs@;
    let mut rest = pairs;
    let mut entries: Vec<(u64, V)> = Vec::new();
    let ghost t: int = 0;
    while rest.len() > 0
        invariant
            0 <= t <= all.len(),
            rest@ == all.skip(t),
            entries_sorted(entries@),
            key_set(entries@) == key_set(all.take(t)),
            forall|k: u64| #[trigger] has_key(entries@, k) == has_key(all.take(t), k),
            forall|i: int|
                0 <= i < entries@.len() ==> entries@[i].1 == last_value_for(
                    all.take(t),
                    entries@[i].0,
                ),
            entries@.len() == distinct_key_count(all.take(t)),
        decreases rest@.len(),
    {
        let ghost done = all.take(t);
        let (key, value) = rest.remove(0);
        proof {
            assert(all.skip(t)[0] == all[t]);
            assert(rest@ =~= all.skip(t + 1));
            assert(all.take(t + 1).drop_last() =~= done);
            assert(all.take(t + 1).last() == (key, value));
            lemma_key_set_push(done, (key, value));
            assert(all.take(t + 1) =~= done.push((key, value)));
        }
        let cmp = |probe: &(u64, V)| -> (o: Ordering)
            ensures
                (o == Ordering::Equal) == (probe.0 == key),
                (o == Ordering::Less) == (probe.0 < key),
                (o == Ordering::Greater) == (probe.0 > key),
            {
                if probe.0 < key {
                    Ordering::Less
                } else if probe.0 > key {
                    Ordering::Greater
                } else {
                    Ordering::Equal
                }
            };
        let found = linear_search_by(&entries, cmp);
        let ghost before = entries@;
        match found {
            Ok(i) => {
                entries.set(i, (key, value));
                proof {
                    assert(before[i as int].0 == key);
                    assert(has_key(done, key)) by {
                        assert(has_key(before, key));
                    }
                    assert forall|k: u64| #[trigger] has_key(entries@, k) == has_key(
                        all.take(t + 1),
                        k,
                    ) by {
                        assert(forall|j: int|
                            0 <= j < entries@.len() ==> entries@[j].0 == before[j].0);
                        if has_key(entries@, k) {
                            let w = choose|w: int| 0 <= w < entries@.len() && entries@[w].0 == k;
                            assert(before[w].0 == k);
                        }
                        if has_key(before, k) {
                            let w = choose|w: int| 0 <= w < before.len() && before[w].0 == k;
                            assert(entries@[w].0 == k);
                        }
                    }
                    assert(key_set(entries@) =~= key_set(all.take(t + 1)));
                    assert forall|j: int| 0 <= j < entries@.len() implies entries@[j].1
                        == last_value_for(all.take(t + 1), entries@[j].0) by {
                        if j != i {
                            assert(entries@[j] == before[j]);
                            assert(entries@[j].0 != key);
                        }
                    }
                }
            },
            Err(i) => {
                entries.insert(i, (key, value));
                proof {
                    assert(!has_key(before, key)) by {
                        if has_key(before, key) {
                            let w = choose|w: int| 0 <= w < before.len() && before[w].0 == key;
                            assert(w < i ==> before[w].0 < key);
                            assert(w >= i ==> before[w].0 > key) by {
                                if w > i {
                                    assert(before[i as int].0 < before[w].0);
                                }
                            }
                        }
                    }
                    assert(!has_key(done, key));
                    assert(entries@ =~= before.insert(i as int, (key, value)));
                    assert forall|a: int, b: int|
                        0 <= a < b < entries@.len() implies entries@[a].0 < entries@[b].0 by {
                        assert(forall|j: int| 0 <= j < i ==> entries@[j] == before[j]);
                        assert(forall|j: int|
                            i < j < entries@.len() ==> entries@[j] == before[j - 1]);
                        assert(entries@[i as int] == (key, value));
                    }
                    assert forall|k: u64| #[trigger] has_key(entries@, k) == has_key(
                        all.take(t + 1),
                        k,
                    ) by {
                        if has_key(entries@, k) {
                            let w = choose|w: int| 0 <= w < entries@.len() && entries@[w].0 == k;
                            if w < i {
                                assert(before[w].0 == k);
                            } else if w > i {
                                assert(before[w - 1].0 == k);
                            }
                        }
                        if has_key(before, k) {
                            let w = choose|w: int| 0 <= w < before.len() && before[w].0 == k;
                            if w < i {
                                assert(entries@[w].0 == k);
                            } else {
                                assert(entries@[w + 1].0 == k);
                            }
                        }
                        assert(entries@[i as int].0 == key);
                    }
                    assert(key_set(entries@) =~= key_set(all.take(t + 1)));
                    assert forall|j: int| 0 <= j < entries@.len() implies entries@[j].1
                        == last_value_for(all.take(t + 1), entries@[j].0) by {
                        if j < i {
                            assert(entries@[j] == before[j]);
                            assert(entries@[j].0 != key);
                        } else if j > i {
                            assert(entries@[j] == before[j - 1]);
                            assert(entries@[j].0 != key);
                        }
                    }
                }
            },
        }
        proof {
            t = t + 1;
        }
    }
    proof {
        assert(all.take(t) =~= all);
        lemma_distinct_key_count_bounds(all);
    }
    if entries.len() >= min_len {
        Some(entries)
    } else {
        None
    }
}

} // verus!
