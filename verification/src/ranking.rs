//! Stable ranking of items by an integer key, largest key first.
//!
//! A ranking is a sequence of indices into a sequence of keys. Indices whose
//! keys are equal keep the order in which they were given, so a ranking is
//! fully determined by its keys.

use vstd::prelude::*;

verus! {

/// Where a new key `k` goes into `order`: directly behind the last entry whose
/// key is at least `k`, or in front of everything when there is none.
pub open spec fn slot(keys: Seq<i64>, order: Seq<int>, k: i64) -> int
    decreases order.len(),
{
    if order.len() == 0 {
        0
    } else if keys[order.last()] >= k {
        order.len() as int
    } else {
        slot(keys, order.drop_last(), k)
    }
}

/// The ranking of the first `n` keys: each key in turn takes its slot among
/// the ones before it.
pub open spec fn ranked_upto(keys: Seq<i64>, n: nat) -> Seq<int>
    decreases n,
{
    if n == 0 {
        Seq::empty()
    } else {
        let before = ranked_upto(keys, (n - 1) as nat);
        before.insert(slot(keys, before, keys[n - 1]), n - 1)
    }
}

/// The ranking of all keys.
pub open spec fn ranked(keys: Seq<i64>) -> Seq<int> {
    ranked_upto(keys, keys.len())
}

/// Every entry is an index below `n`.
pub open spec fn entries_below(order: Seq<int>, n: int) -> bool {
    forall|j: int| 0 <= j < order.len() ==> 0 <= #[trigger] order[j] < n
}

/// Keys never grow along the ranking.
pub open spec fn descending(keys: Seq<i64>, order: Seq<int>) -> bool {
    forall|a: int, b: int|
        0 <= a < b < order.len() ==> keys[#[trigger] order[a]] >= keys[#[trigger] order[b]]
}

/// Entries with equal keys stand in the order of their indices.
pub open spec fn stable(keys: Seq<i64>, order: Seq<int>) -> bool {
    forall|a: int, b: int|
        0 <= a < b < order.len() && keys[#[trigger] order[a]] == keys[#[trigger] order[b]]
            ==> order[a] < order[b]
}

/// The indices of a `Vec<usize>` as mathematical integers.
pub open spec fn as_ints(order: Seq<usize>) -> Seq<int> {
    Seq::new(order.len(), |j: int| order[j] as int)
}

/// What `slot` returns splits `order` in two: behind it every key is smaller
/// than `k`, and the entry just in front of it is at least `k`.
pub proof fn lemma_slot_bounds(keys: Seq<i64>, order: Seq<int>, k: i64)
    ensures
        0 <= slot(keys, order, k) <= order.len(),
        forall|j: int| slot(keys, order, k) <= j < order.len() ==> keys[#[trigger] order[j]] < k,
        slot(keys, order, k) > 0 ==> keys[order[slot(keys, order, k) - 1]] >= k,
    decreases order.len(),
{
    if order.len() > 0 && keys[order.last()] < k {
        let shorter = order.drop_last();
        lemma_slot_bounds(keys, shorter, k);
        assert forall|j: int| slot(keys, order, k) <= j < order.len() implies keys[#[trigger] order[j]]
            < k by {
            if j < shorter.len() {
                assert(order[j] == shorter[j]);
            }
        }
        if slot(keys, order, k) > 0 {
            assert(order[slot(keys, order, k) - 1] == shorter[slot(keys, shorter, k) - 1]);
        }
    }
}

/// In a descending ranking every entry in front of the slot is at least `k`.
pub proof fn lemma_slot_front(keys: Seq<i64>, order: Seq<int>, k: i64)
    requires
        descending(keys, order),
    ensures
        forall|j: int| 0 <= j < slot(keys, order, k) ==> keys[#[trigger] order[j]] >= k,
{
    lemma_slot_bounds(keys, order, k);
    let p = slot(keys, order, k);
    assert forall|j: int| 0 <= j < p implies keys[#[trigger] order[j]] >= k by {
        if j < p - 1 {
            assert(keys[order[j]] >= keys[order[p - 1]]);
        }
    }
}

/// The slot in a leading part of a descending ranking is the slot in the whole
/// ranking, cut off at the part's length.
pub proof fn lemma_slot_of_take(keys: Seq<i64>, order: Seq<int>, k: i64, m: int)
    requires
        descending(keys, order),
        0 <= m <= order.len(),
    ensures
        slot(keys, order.take(m), k) == if slot(keys, order, k) <= m {
            slot(keys, order, k)
        } else {
            m
        },
{
    let part = order.take(m);
    let whole = slot(keys, order, k);
    let cut = slot(keys, part, k);
    lemma_slot_bounds(keys, order, k);
    lemma_slot_bounds(keys, part, k);
    lemma_slot_front(keys, order, k);
    if cut < m {
        // the entry at `cut` is smaller than `k`, so the whole slot is not behind it
        assert(part[cut] == order[cut]);
        assert(keys[order[cut]] < k);
        assert(whole <= cut);
    }
    if cut > 0 {
        assert(part[cut - 1] == order[cut - 1]);
        assert(keys[order[cut - 1]] >= k);
        assert(whole >= cut);
    }
}

/// The ranking of the first `n` keys holds each index below `n` once, never
/// grows in its keys, and keeps equal keys in the order of their indices.
pub proof fn lemma_ranked_upto(keys: Seq<i64>, n: nat)
    requires
        n <= keys.len(),
    ensures
        ranked_upto(keys, n).len() == n,
        entries_below(ranked_upto(keys, n), n as int),
        ranked_upto(keys, n).no_duplicates(),
        descending(keys, ranked_upto(keys, n)),
        stable(keys, ranked_upto(keys, n)),
    decreases n,
{
    if n > 0 {
        let before = ranked_upto(keys, (n - 1) as nat);
        let k = keys[n - 1];
        let p = slot(keys, before, k);
        let after = ranked_upto(keys, n);
        lemma_ranked_upto(keys, (n - 1) as nat);
        lemma_slot_bounds(keys, before, k);
        lemma_slot_front(keys, before, k);
        assert(after == before.insert(p, n - 1));
        assert forall|j: int| 0 <= j < after.len() implies 0 <= #[trigger] after[j] < n by {
            if j < p {
                assert(after[j] == before[j]);
            } else if j > p {
                assert(after[j] == before[j - 1]);
            }
        }
        assert forall|a: int, b: int| 0 <= a < b < after.len() implies after[a] != after[b] by {
            let ia = if a < p { a } else { a - 1 };
            let ib = if b < p { b } else { b - 1 };
            if a != p && b != p {
                assert(after[a] == before[ia] && after[b] == before[ib]);
            } else if a == p {
                assert(after[b] == before[ib]);
            } else {
                assert(after[a] == before[ia]);
            }
        }
        assert(after.no_duplicates()) by {
            assert forall|a: int, b: int|
                0 <= a < after.len() && 0 <= b < after.len() && a != b implies after[a]
                != after[b] by {
                if a < b {
                } else {
                    assert(0 <= b < a < after.len());
                }
            }
        }
        assert forall|a: int, b: int| 0 <= a < b < after.len() implies keys[#[trigger] after[a]]
            >= keys[#[trigger] after[b]] by {
            let ia = if a < p { a } else { a - 1 };
            let ib = if b < p { b } else { b - 1 };
            if a != p && b != p {
                assert(after[a] == before[ia] && after[b] == before[ib]);
            } else if a == p {
                assert(after[b] == before[ib]);
            } else {
                assert(after[a] == before[ia]);
            }
        }
        assert forall|a: int, b: int|
            0 <= a < b < after.len() && keys[#[trigger] after[a]] == keys[#[trigger] after[b]]
            implies after[a] < after[b] by {
            let ia = if a < p { a } else { a - 1 };
            let ib = if b < p { b } else { b - 1 };
            if a != p && b != p {
                assert(after[a] == before[ia] && after[b] == before[ib]);
            } else if a == p {
                assert(after[b] == before[ib]);
            } else {
                assert(after[a] == before[ia]);
            }
        }
    }
}

/// The ranking of all keys is a permutation of their indices.
pub proof fn lemma_ranked_is_permutation(keys: Seq<i64>)
    ensures
        ranked(keys).len() == keys.len(),
        ranked(keys).no_duplicates(),
        forall|i: int| 0 <= i < keys.len() ==> ranked(keys).contains(i),
        forall|j: int| 0 <= j < keys.len() ==> 0 <= #[trigger] ranked(keys)[j] < keys.len(),
{
    lemma_ranked_upto(keys, keys.len());
    let order = ranked(keys);
    let n = keys.len() as int;
    lemma_holds_all_below(order, n);
}

/// A sequence of `n` different indices below `n` holds each of them.
pub proof fn lemma_holds_all_below(order: Seq<int>, n: int)
    requires
        order.len() == n,
        order.no_duplicates(),
        entries_below(order, n),
    ensures
        forall|i: int| 0 <= i < n ==> order.contains(i),
    decreases n,
{
    if n > 0 {
        assert forall|i: int| 0 <= i < n implies order.contains(i) by {
            if !order.contains(i) {
                // without `i` the entries fit below `n` with one value to spare
                let all = Set::new(|v: int| 0 <= v < n);
                let held = order.to_set();
                vstd::set_lib::lemma_int_range(0, n);
                assert(all =~= vstd::set_lib::set_int_range(0, n));
                order.unique_seq_to_set();
                assert(held.subset_of(all.remove(i))) by {
                    assert forall|v: int| held.contains(v) implies all.remove(i).contains(v) by {
                        let j = choose|j: int| 0 <= j < order.len() && order[j] == v;
                        assert(0 <= order[j] < n);
                    }
                }
                vstd::set_lib::lemma_len_subset(held, all.remove(i));
            }
        }
    }
}

/// The ranking never grows in its keys.
pub proof fn lemma_ranked_descending(keys: Seq<i64>)
    ensures
        descending(keys, ranked(keys)),
{
    lemma_ranked_upto(keys, keys.len());
}

/// Equal keys keep the order in which they were given.
pub proof fn lemma_ranked_stable(keys: Seq<i64>)
    ensures
        stable(keys, ranked(keys)),
{
    lemma_ranked_upto(keys, keys.len());
}

/// The first `limit` entries of the ranking of `keys`, or all of them when
/// there are fewer: the indices of the largest keys, largest first, equal keys
/// in the order given.
pub fn top_ranked(keys: &Vec<i64>, limit: usize) -> (order: Vec<usize>)
    ensures
        order@.len() == if limit <= keys@.len() {
            limit as int
        } else {
            keys@.len() as int
        },
        as_ints(order@) == ranked(keys@).take(order@.len() as int),
        forall|j: int| 0 <= j < order@.len() ==> #[trigger] order@[j] < keys@.len(),
{
    let mut order: Vec<usize> = Vec::new();
    let mut i: usize = 0;
    while i < keys.len()
        invariant
            0 <= i <= keys@.len(),
            order@.len() == if limit <= i {
                limit as int
            } else {
                i as int
            },
            as_ints(order@) == ranked_upto(keys@, i as nat).take(order@.len() as int),
            forall|j: int| 0 <= j < order@.len() ==> #[trigger] order@[j] < i,
        decreases keys@.len() - i,
    {
        let k: i64 = keys[i];
        let ghost whole = ranked_upto(keys@, i as nat);
        let ghost part = as_ints(order@);
        let ghost held = order@;
        let mut p: usize = order.len();
        proof {
            lemma_ranked_upto(keys@, i as nat);
            assert(part.take(p as int) == part);
        }
        while p > 0 && keys[order[p - 1]] < k
            invariant
                0 <= p <= order@.len(),
                order@ == held,
                part == as_ints(order@),
                k == keys@[i as int],
                i < keys@.len(),
                forall|j: int| 0 <= j < order@.len() ==> #[trigger] order@[j] < i,
                slot(keys@, part, k) == slot(keys@, part.take(p as int), k),
            decreases p,
        {
            proof {
                let shown = part.take(p as int);
                assert(shown.last() == order@[p - 1] as int);
                assert(shown.drop_last() == part.take(p - 1));
            }
            p = p - 1;
        }
        proof {
            let shown = part.take(p as int);
            if p > 0 {
                assert(shown.last() == order@[p - 1] as int);
            }
            assert(slot(keys@, part, k) == p);
            lemma_slot_of_take(keys@, whole, k, held.len() as int);
            lemma_slot_bounds(keys@, whole, k);
        }
        if p < limit {
            order.insert(p, i);
            if order.len() > limit {
                order.truncate(limit);
            }
            proof {
                let full = slot(keys@, whole, k);
                assert(full == p);
                let next = whole.insert(full, i as int);
                assert(next == ranked_upto(keys@, (i + 1) as nat));
                assert(part == whole.take(held.len() as int));
                assert forall|j: int| 0 <= j < order@.len() implies as_ints(order@)[j]
                    == next.take(order@.len() as int)[j] by {
                    assert(order@[j] == held.insert(p as int, i)[j]);
                    if j < p {
                        assert(part[j] == whole[j]);
                    } else if j > p {
                        assert(part[j - 1] == whole[j - 1]);
                    }
                }
                assert(as_ints(order@) =~= next.take(order@.len() as int));
            }
        } else {
            proof {
                let full = slot(keys@, whole, k);
                let next = whole.insert(full, i as int);
                assert(next == ranked_upto(keys@, (i + 1) as nat));
                assert(part == whole.take(held.len() as int));
                assert(full >= held.len());
                assert forall|j: int| 0 <= j < order@.len() implies as_ints(order@)[j]
                    == next.take(order@.len() as int)[j] by {
                    assert(part[j] == whole[j]);
                }
                assert(as_ints(order@) =~= next.take(order@.len() as int));
            }
        }
        i = i + 1;
    }
    order
}

} // verus!
