//! Ranking of items by an integer key, largest key first.
//!
//! Reports are ranked by the time of their creation and groups by their size. Both
//! rankings are stable: of two items with the same key, the one that stood first stays first.

use vstd::prelude::*;
use vstd::relations::{sorted_by, total_ordering};
use vstd::seq_lib::{lemma_sorted_unique, to_multiset_insert};

verus! {

/// The key of the item at `index`, and zero where there is no such item.
pub open spec fn key_at(keys: Seq<i128>, index: usize) -> int {
    if index < keys.len() {
        keys[index as int] as int
    } else {
        0
    }
}

/// The relation "stands no later in the ranking": a larger key goes first, and among
/// equal keys the smaller index.
pub open spec fn ranks_before(keys: Seq<i128>) -> spec_fn(usize, usize) -> bool {
    |a: usize, b: usize|
        key_at(keys, a) > key_at(keys, b) || (key_at(keys, a) == key_at(keys, b) && a <= b)
}

/// The index `a` stands strictly before the index `b` in the ranking of `keys`.
pub open spec fn stands_before(keys: Seq<i128>, a: usize, b: usize) -> bool {
    key_at(keys, a) > key_at(keys, b) || (key_at(keys, a) == key_at(keys, b) && a < b)
}

/// The indices `0, 1, .., n - 1`.
pub open spec fn indices(n: nat) -> Seq<usize> {
    Seq::new(n, |i: int| i as usize)
}

/// The indices of `keys`, ranked: largest key first, equal keys by ascending index.
pub open spec fn descending_order(keys: Seq<i128>) -> Seq<usize> {
    indices(keys.len()).sort_by(ranks_before(keys))
}

/// The first `limit` items of a sequence, or all of it where it is shorter.
pub open spec fn leading<T>(items: Seq<T>, limit: int) -> Seq<T> {
    if limit <= 0 {
        Seq::empty()
    } else if limit >= items.len() {
        items
    } else {
        items.take(limit)
    }
}

/// The ranking relation is a total order on indices.
pub proof fn lemma_ranks_before_is_total(keys: Seq<i128>)
    ensures
        total_ordering(ranks_before(keys)),
{
    let r = ranks_before(keys);
    assert(vstd::relations::reflexive(r));
    assert(vstd::relations::antisymmetric(r));
    assert(vstd::relations::transitive(r));
    assert(vstd::relations::strongly_connected(r));
}

/// The ranking lists every index of `keys` exactly once, and an index that stands
/// earlier in it has the larger key or, with the same key, is the smaller index.
pub proof fn lemma_descending_order(keys: Seq<i128>)
    requires
        keys.len() <= usize::MAX,
    ensures
        descending_order(keys).len() == keys.len(),
        forall|i: int|
            0 <= i < keys.len() ==> (#[trigger] descending_order(keys)[i]) < keys.len(),
        descending_order(keys).no_duplicates(),
        forall|k: usize| k < keys.len() ==> descending_order(keys).contains(k),
        forall|i: int, j: int|
            0 <= i < j < keys.len() ==> stands_before(
                keys,
                #[trigger] descending_order(keys)[i],
                #[trigger] descending_order(keys)[j],
            ),
{
    broadcast use vstd::seq_lib::group_to_multiset_ensures;

    let all = indices(keys.len());
    let order = descending_order(keys);
    lemma_ranks_before_is_total(keys);
    all.lemma_sort_by_ensures(ranks_before(keys));
    assert(order.len() == keys.len()) by {
        assert(order.to_multiset().len() == all.to_multiset().len());
    }
    assert forall|k: usize| k < keys.len() implies order.contains(k) by {
        assert(all[k as int] == k);
        assert(all.contains(k));
        assert(all.to_multiset().count(k) > 0);
    }
    assert forall|i: int| 0 <= i < keys.len() implies (#[trigger] order[i]) < keys.len() by {
        assert(order.contains(order[i]));
        assert(all.contains(order[i]));
    }
    assert(all.no_duplicates());
    all.lemma_multiset_has_no_duplicates();
    order.lemma_multiset_has_no_duplicates_conv();
    assert forall|i: int, j: int| 0 <= i < j < keys.len() implies stands_before(
        keys,
        #[trigger] order[i],
        #[trigger] order[j],
    ) by {
        assert(ranks_before(keys)(order[i], order[j]));
        assert(order[i] != order[j]);
    }
}

/// Ranks the indices of `keys`, largest key first and equal keys by ascending
/// index. Linear when the keys already ascend, as those of stored reports mostly do;
/// quadratic at worst.
pub fn sort_descending(keys: &Vec<i128>) -> (order: Vec<usize>)
    ensures
        order@ == descending_order(keys@),
{
    let n = keys.len();
    let mut order: Vec<usize> = Vec::new();
    let mut i: usize = n;
    assert(indices(n as nat).subrange(n as int, n as int) =~= order@);
    while i > 0
        invariant
            n == keys.len(),
            i <= n,
            sorted_by(order@, ranks_before(keys@)),
            order@.to_multiset() == indices(n as nat).subrange(i as int, n as int).to_multiset(),
            forall|j: int| 0 <= j < order.len() ==> i <= (#[trigger] order[j]) < n,
        decreases i,
    {
        i -= 1;
        let key = keys[i];
        let mut at: usize = order.len();
        while at > 0 && keys[order[at - 1]] <= key
            invariant
                n == keys.len(),
                i < n,
                key == keys[i as int],
                at <= order.len(),
                forall|j: int| 0 <= j < order.len() ==> i < (#[trigger] order[j]) < n,
                forall|j: int| at <= j < order.len() ==> keys[(#[trigger] order[j]) as int] <= key,
            decreases at,
        {
            at -= 1;
        }
        let ghost before = order@;
        order.insert(at, i);
        proof {
            let rel = ranks_before(keys@);
            before.insert_ensures(at as int, i);
            assert forall|a: int, b: int| 0 <= a < b < order@.len() implies rel(
                order@[a],
                order@[b],
            ) by {
                if b < at {
                    assert(rel(before[a], before[b]));
                } else if b == at {
                    assert(rel(before[a], before[at - 1]));
                } else if a < at {
                    assert(order@[b] == before[b - 1]);
                    assert(rel(before[a], before[b - 1]));
                } else if a == at {
                    assert(order@[b] == before[b - 1]);
                } else {
                    assert(order@[a] == before[a - 1]);
                    assert(order@[b] == before[b - 1]);
                    assert(rel(before[a - 1], before[b - 1]));
                }
            }
            let all = indices(n as nat);
            to_multiset_insert(before, at as int, i);
            to_multiset_insert(all.subrange(i as int + 1, n as int), 0, i);
            assert(all.subrange(i as int + 1, n as int).insert(0, i) =~= all.subrange(
                i as int,
                n as int,
            ));
        }
    }
    proof {
        let all = indices(n as nat);
        assert(all.subrange(0, n as int) =~= all);
        lemma_ranks_before_is_total(keys@);
        all.lemma_sort_by_ensures(ranks_before(keys@));
        lemma_sorted_unique(order@, descending_order(keys@), ranks_before(keys@));
    }
    order
}

} // verus!
