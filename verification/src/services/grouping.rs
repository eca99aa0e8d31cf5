//! Grouping of texts: which distinct values occur, how often, and which occur most.

use crate::utils::ranking::{
    descending_order, leading, lemma_descending_order, sort_descending, stands_before,
};
use vstd::prelude::*;

verus! {

/// How often `value` occurs among `values`.
pub open spec fn occurrences(values: Seq<Seq<char>>, value: Seq<char>) -> nat {
    values.filter(|v: Seq<char>| v == value).len()
}

/// The distinct values among `values`, each once, in the order in which they first occur.
pub open spec fn distinct(values: Seq<Seq<char>>) -> Seq<Seq<char>>
    decreases values.len(),
{
    if values.len() == 0 {
        Seq::empty()
    } else {
        let earlier = distinct(values.drop_last());
        if earlier.contains(values.last()) {
            earlier
        } else {
            earlier.push(values.last())
        }
    }
}

/// The size of each group of equal values, in the order of [`distinct`].
pub open spec fn group_sizes(values: Seq<Seq<char>>) -> Seq<i128> {
    distinct(values).map_values(|v: Seq<char>| occurrences(values, v) as i128)
}

/// The `limit` largest groups of equal values with their sizes, largest first. Of
/// two groups of the same size, the one whose value occurs first in `values` goes first.
pub open spec fn top_groups(values: Seq<Seq<char>>, limit: int) -> Seq<(Seq<char>, u64)> {
    leading(descending_order(group_sizes(values)), limit).map_values(
        |g: usize|
            (distinct(values)[g as int], occurrences(values, distinct(values)[g as int]) as u64),
    )
}

/// Groups as character sequences with their sizes.
pub open spec fn group_view(groups: Seq<(String, u64)>) -> Seq<(Seq<char>, u64)> {
    groups.map_values(|g: (String, u64)| (g.0@, g.1))
}

/// Texts as character sequences.
pub open spec fn texts(values: Seq<&String>) -> Seq<Seq<char>> {
    values.map_values(|v: &String| v@)
}

/// Owned texts as character sequences.
pub open spec fn owned_texts(values: Seq<String>) -> Seq<Seq<char>> {
    values.map_values(|v: String| v@)
}

/// One more value adds one to the occurrences of that value and none to the others'.
pub proof fn lemma_occurrences_push(values: Seq<Seq<char>>, last: Seq<char>, value: Seq<char>)
    ensures
        occurrences(values.push(last), value) == occurrences(values, value) + if last == value {
            1nat
        } else {
            0nat
        },
        occurrences(values, value) <= values.len(),
{
    broadcast use Seq::lemma_filter_push, Seq::lemma_filter_len;

}

/// A value occurs among the values exactly when it has at least one occurrence.
pub proof fn lemma_occurs_iff_counted(values: Seq<Seq<char>>, value: Seq<char>)
    ensures
        values.contains(value) <==> occurrences(values, value) > 0,
    decreases values.len(),
{
    if values.len() == 0 {
        reveal(Seq::filter);
    } else {
        let earlier = values.drop_last();
        assert(values =~= earlier.push(values.last()));
        lemma_occurs_iff_counted(earlier, value);
        lemma_occurrences_push(earlier, values.last(), value);
        if values.contains(value) {
            let at = choose|at: int| 0 <= at < values.len() && values[at] == value;
            if at < earlier.len() {
                assert(earlier[at] == value);
            }
        }
        if earlier.contains(value) {
            let at = choose|at: int| 0 <= at < earlier.len() && earlier[at] == value;
            assert(values[at] == value);
        }
        if values.last() == value {
            assert(values[values.len() - 1] == value);
        }
    }
}

/// A value stands among the distinct values exactly when it occurs among the values.
pub proof fn lemma_distinct_contains(values: Seq<Seq<char>>, value: Seq<char>)
    ensures
        distinct(values).contains(value) <==> values.contains(value),
    decreases values.len(),
{
    if values.len() > 0 {
        let earlier = values.drop_last();
        lemma_distinct_contains(earlier, value);
        lemma_distinct_contains(earlier, values.last());
        if distinct(values).contains(value) && !values.contains(value) {
            let at = choose|at: int|
                0 <= at < distinct(values).len() && distinct(values)[at] == value;
            if at < distinct(earlier).len() {
                assert(distinct(earlier)[at] == value);
                assert(distinct(earlier).contains(value));
                let origin = choose|origin: int|
                    0 <= origin < earlier.len() && earlier[origin] == value;
                assert(values[origin] == value);
            } else {
                assert(values[values.len() - 1] == value);
            }
        }
        if values.contains(value) && !distinct(values).contains(value) {
            let origin = choose|origin: int| 0 <= origin < values.len() && values[origin] == value;
            if origin < earlier.len() {
                assert(earlier[origin] == value);
                assert(earlier.contains(value));
                let at = choose|at: int|
                    0 <= at < distinct(earlier).len() && distinct(earlier)[at] == value;
                assert(distinct(values)[at] == value);
            } else if distinct(earlier).contains(value) {
                let at = choose|at: int|
                    0 <= at < distinct(earlier).len() && distinct(earlier)[at] == value;
                assert(distinct(values)[at] == value);
            } else {
                assert(distinct(values)[distinct(earlier).len() as int] == value);
            }
        }
    }
}

/// Among the distinct values none stands twice, and there are no more of them than values.
pub proof fn lemma_distinct(values: Seq<Seq<char>>)
    ensures
        distinct(values).no_duplicates(),
        distinct(values).len() <= values.len(),
    decreases values.len(),
{
    if values.len() > 0 {
        lemma_distinct(values.drop_last());
    }
}

/// The largest groups come largest first, each with a value that occurs and the
/// number of its occurrences, no value twice, and no more groups than the limit.
pub proof fn lemma_top_groups(values: Seq<Seq<char>>, limit: int)
    requires
        values.len() <= usize::MAX,
    ensures
        top_groups(values, limit).len() <= distinct(values).len(),
        limit >= 0 ==> top_groups(values, limit).len() <= limit,
        limit >= distinct(values).len() ==> top_groups(values, limit).len() == distinct(
            values,
        ).len(),
        forall|i: int|
            0 <= i < top_groups(values, limit).len() ==> {
                let group = #[trigger] top_groups(values, limit)[i];
                values.contains(group.0) && group.1 == occurrences(values, group.0) && group.1 >= 1
            },
        forall|i: int, j: int|
            0 <= i < j < top_groups(values, limit).len() ==> (#[trigger] top_groups(
                values,
                limit,
            )[i]).1 >= (#[trigger] top_groups(values, limit)[j]).1,
        forall|i: int, j: int|
            0 <= i < j < top_groups(values, limit).len() ==> (#[trigger] top_groups(
                values,
                limit,
            )[i]).0 != (#[trigger] top_groups(values, limit)[j]).0,
{
    let names = distinct(values);
    let sizes = group_sizes(values);
    let order = descending_order(sizes);
    let chosen = leading(order, limit);
    let top = top_groups(values, limit);
    lemma_distinct(values);
    lemma_descending_order(sizes);
    assert forall|g: int| 0 <= g < names.len() implies values.contains(#[trigger] names[g])
        && 1 <= occurrences(values, names[g]) <= values.len() by {
        assert(names.contains(names[g]));
        lemma_distinct_contains(values, names[g]);
        lemma_occurs_iff_counted(values, names[g]);
        lemma_occurrences_push(values, names[g], names[g]);
    }
    assert forall|i: int| 0 <= i < top.len() implies {
        let group = #[trigger] top[i];
        values.contains(group.0) && group.1 == occurrences(values, group.0) && group.1 >= 1
    } by {
        assert(chosen[i] == order[i]);
        assert(values.contains(names[order[i] as int]));
    }
    assert forall|i: int, j: int| 0 <= i < j < top.len() implies (#[trigger] top[i]).1 >= (
    #[trigger] top[j]).1 && top[i].0 != top[j].0 by {
        assert(chosen[i] == order[i]);
        assert(chosen[j] == order[j]);
        assert(stands_before(sizes, order[i], order[j]));
        assert(values.contains(names[order[i] as int]));
        assert(values.contains(names[order[j] as int]));
        assert(order[i] != order[j]);
    }
}

/// The distinct values of `values` and the number of occurrences of each.
pub fn tally(values: &Vec<&String>) -> (groups: (Vec<String>, Vec<u64>))
    ensures
        owned_texts(groups.0@) == distinct(texts(values@)),
        groups.1.len() == groups.0.len(),
        forall|g: int|
            0 <= g < groups.0.len() ==> (#[trigger] groups.1[g]) == occurrences(
                texts(values@),
                groups.0[g]@,
            ),
{
    let ghost all = texts(values@);
    let mut names: Vec<String> = Vec::new();
    let mut counts: Vec<u64> = Vec::new();
    let mut at: usize = 0;
    proof {
        assert(owned_texts(names@) =~= distinct(all.take(0)));
    }
    while at < values.len()
        invariant
            at <= values.len(),
            all == texts(values@),
            owned_texts(names@) == distinct(all.take(at as int)),
            counts.len() == names.len(),
            forall|g: int|
                0 <= g < names.len() ==> (#[trigger] counts[g]) == occurrences(
                    all.take(at as int),
                    names[g]@,
                ),
        decreases values.len() - at,
    {
        let value: &String = values[at];
        let ghost seen = all.take(at as int);
        let ghost known = owned_texts(names@);
        proof {
            assert(all.take(at + 1) =~= seen.push(value@));
            assert(all.take(at + 1).drop_last() =~= seen);
        }
        let mut group: usize = 0;
        while group < names.len() && !(names[group] == *value)
            invariant
                group <= names.len(),
                known == owned_texts(names@),
                forall|g: int| 0 <= g < group ==> (#[trigger] known[g]) != value@,
            decreases names.len() - group,
        {
            proof {
                assert(known[group as int] == names[group as int]@);
            }
            group += 1;
        }
        if group < names.len() {
            proof {
                assert(known[group as int] == names[group as int]@);
                assert(known.contains(value@));
                lemma_occurrences_push(seen, value@, value@);
            }
            let count = counts[group];
            counts.set(group, count + 1);
            proof {
                assert forall|g: int| 0 <= g < names.len() implies (#[trigger] counts[g])
                    == occurrences(all.take(at + 1), names[g]@) by {
                    lemma_occurrences_push(seen, value@, names[g]@);
                    lemma_distinct(seen);
                    if g != group as int {
                        assert(known[g] == names[g]@);
                        assert(known[group as int] == names[group as int]@);
                    }
                }
            }
        } else {
            proof {
                assert(!known.contains(value@));
                lemma_distinct_contains(seen, value@);
                lemma_occurs_iff_counted(seen, value@);
                lemma_occurrences_push(seen, value@, value@);
            }
            names.push(value.clone());
            counts.push(1);
            proof {
                assert(owned_texts(names@) =~= known.push(value@));
                assert forall|g: int| 0 <= g < names.len() implies (#[trigger] counts[g])
                    == occurrences(all.take(at + 1), names[g]@) by {
                    lemma_occurrences_push(seen, value@, names[g]@);
                    if g < known.len() {
                        assert(known[g] == names[g]@);
                        assert(known.contains(names[g]@));
                    }
                }
            }
        }
        at += 1;
    }
    proof {
        assert(all.take(values.len() as int) =~= all);
    }
    (names, counts)
}

/// The `limit` largest groups of equal values among `values`, largest first.
pub fn top_groups_of(values: &Vec<&String>, limit: usize) -> (groups: Vec<(String, u64)>)
    ensures
        group_view(groups@) == top_groups(texts(values@), limit as int),
{
    let ghost all = texts(values@);
    let (names, counts) = tally(values);
    let mut keys: Vec<i128> = Vec::new();
    let mut at: usize = 0;
    while at < counts.len()
        invariant
            at <= counts.len(),
            counts.len() == names.len(),
            all == texts(values@),
            owned_texts(names@) == distinct(all),
            forall|g: int|
                0 <= g < names.len() ==> (#[trigger] counts[g]) == occurrences(all, names[g]@),
            keys@ == group_sizes(all).take(at as int),
        decreases counts.len() - at,
    {
        keys.push(counts[at] as i128);
        proof {
            assert(owned_texts(names@)[at as int] == names[at as int]@);
            assert(keys@ =~= group_sizes(all).take(at + 1));
        }
        at += 1;
    }
    proof {
        assert(group_sizes(all).take(counts.len() as int) =~= group_sizes(all));
        lemma_descending_order(keys@);
    }
    let order = sort_descending(&keys);
    let end = if limit < order.len() {
        limit
    } else {
        order.len()
    };
    let ghost chosen = leading(order@, limit as int);
    proof {
        assert(order@.subrange(0, order.len() as int) =~= order@);
        assert(chosen =~= order@.take(end as int));
    }
    let mut groups: Vec<(String, u64)> = Vec::new();
    let mut rank: usize = 0;
    while rank < end
        invariant
            rank <= end <= order.len(),
            order.len() == names.len(),
            counts.len() == names.len(),
            all == texts(values@),
            owned_texts(names@) == distinct(all),
            forall|g: int|
                0 <= g < names.len() ==> (#[trigger] counts[g]) == occurrences(all, names[g]@),
            forall|i: int| 0 <= i < order.len() ==> (#[trigger] order[i]) < names.len(),
            chosen == order@.take(end as int),
            chosen == leading(descending_order(group_sizes(all)), limit as int),
            group_view(groups@) == top_groups(all, limit as int).take(rank as int),
        decreases end - rank,
    {
        let group = order[rank];
        let ghost earlier = groups@;
        groups.push((names[group].clone(), counts[group]));
        proof {
            let top = top_groups(all, limit as int);
            assert(owned_texts(names@)[group as int] == names[group as int]@);
            assert(chosen[rank as int] == group);
            assert(top.len() == end);
            assert(top[rank as int].0 == names[group as int]@);
            assert(top[rank as int].1 == counts[group as int]);
            assert(group_view(groups@) =~= group_view(earlier).push(
                (names[group as int]@, counts[group as int]),
            ));
            assert(top.take(rank + 1) =~= top.take(rank as int).push(top[rank as int]));
        }
        rank += 1;
    }
    proof {
        assert(top_groups(all, limit as int).take(end as int) =~= top_groups(all, limit as int));
    }
    groups
}

} // verus!
