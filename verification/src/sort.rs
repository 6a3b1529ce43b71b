//! Stable sorting by a three-part key.
//!
//! A value that is [`Ranked`] carries a key of three integers. Keys are
//! compared part by part, the first part deciding first. Sorting puts the
//! values in ascending key order and leaves values of equal key in the order
//! in which they came.
use vstd::prelude::*;

verus! {

/// The key of a value: three integers, the first the most significant.
pub type Rank = (int, int, int);

/// `a` is strictly greater than `b`, part by part.
pub open spec fn rank_exceeds(a: Rank, b: Rank) -> bool {
    a.0 > b.0 || (a.0 == b.0 && (a.1 > b.1 || (a.1 == b.1 && a.2 > b.2)))
}

/// A value with a sort key.
pub trait Ranked: Sized {
    /// The key of this value.
    spec fn rank(&self) -> Rank;

    /// Whether this value has to stand after `other`: whether its key is the
    /// greater one.
    fn ranks_after(&self, other: &Self) -> (after: bool)
        ensures
            after == rank_exceeds(self.rank(), other.rank()),
    ;
}

/// No value stands before one of smaller key.
pub open spec fn ascending<T: Ranked>(items: Seq<T>) -> bool {
    forall|i: int, j: int|
        0 <= i < j < items.len() ==> !rank_exceeds(#[trigger] items[i].rank(), #[trigger] items[j].rank())
}

/// `sorted` with `item` put in behind every value whose key is not greater
/// than its own.
pub open spec fn placed<T: Ranked>(sorted: Seq<T>, item: T) -> Seq<T>
    decreases sorted.len(),
{
    if sorted.len() > 0 && rank_exceeds(sorted.last().rank(), item.rank()) {
        placed(sorted.drop_last(), item).push(sorted.last())
    } else {
        sorted.push(item)
    }
}

/// The values of `items` in ascending key order, values of equal key in the
/// order they have in `items`.
pub open spec fn stably_sorted<T: Ranked>(items: Seq<T>) -> Seq<T>
    decreases items.len(),
{
    if items.len() == 0 {
        Seq::empty()
    } else {
        placed(stably_sorted(items.drop_last()), items.last())
    }
}

/// The test for a value's key being `rank`.
pub open spec fn has_rank<T: Ranked>(rank: Rank) -> spec_fn(T) -> bool {
    |item: T| item.rank() == rank
}

/// The values of `items` whose key is `rank`, in their order.
pub open spec fn of_rank<T: Ranked>(items: Seq<T>, rank: Rank) -> Seq<T> {
    items.filter(has_rank(rank))
}

/// Putting a value in at index `at` is what [`placed`] does, when every value
/// from `at` on has a greater key and the value before `at` has not.
pub proof fn lemma_placed_is_insert<T: Ranked>(sorted: Seq<T>, item: T, at: int)
    requires
        0 <= at <= sorted.len(),
        forall|k: int| at <= k < sorted.len() ==> rank_exceeds(#[trigger] sorted[k].rank(), item.rank()),
        at > 0 ==> !rank_exceeds(sorted[at - 1].rank(), item.rank()),
    ensures
        placed(sorted, item) == sorted.insert(at, item),
    decreases sorted.len() - at,
{
    if at == sorted.len() {
        assert(sorted.insert(at, item) =~= sorted.push(item));
    } else {
        let front = sorted.drop_last();
        assert(rank_exceeds(sorted[sorted.len() - 1].rank(), item.rank()));
        assert forall|k: int| at <= k < front.len() implies rank_exceeds(
            #[trigger] front[k].rank(),
            item.rank(),
        ) by {
            assert(front[k] == sorted[k]);
        }
        lemma_placed_is_insert(front, item, at);
        assert(front.insert(at, item).push(sorted.last()) =~= sorted.insert(at, item));
    }
}

/// [`placed`] keeps an ascending sequence ascending.
pub proof fn lemma_placed_ascending<T: Ranked>(sorted: Seq<T>, item: T)
    requires
        ascending(sorted),
    ensures
        ascending(placed(sorted, item)),
        placed(sorted, item).len() == sorted.len() + 1,
        forall|k: int|
            0 <= k < placed(sorted, item).len() ==> #[trigger] placed(sorted, item)[k] == item
                || sorted.contains(placed(sorted, item)[k]),
    decreases sorted.len(),
{
    let out = placed(sorted, item);
    if sorted.len() > 0 && rank_exceeds(sorted.last().rank(), item.rank()) {
        let front = sorted.drop_last();
        let last = sorted.last();
        assert forall|i: int, j: int| 0 <= i < j < front.len() implies !rank_exceeds(
            #[trigger] front[i].rank(),
            #[trigger] front[j].rank(),
        ) by {
            assert(front[i] == sorted[i] && front[j] == sorted[j]);
        }
        lemma_placed_ascending(front, item);
        let inner = placed(front, item);
        assert(out == inner.push(last));
        assert forall|k: int| 0 <= k < out.len() implies #[trigger] out[k] == item
            || sorted.contains(out[k]) by {
            if k < inner.len() {
                assert(out[k] == inner[k]);
                if inner[k] != item {
                    let w = choose|w: int| 0 <= w < front.len() && front[w] == inner[k];
                    assert(sorted[w] == inner[k]);
                }
            } else {
                assert(out[k] == sorted[sorted.len() - 1]);
            }
        }
        assert forall|i: int, j: int| 0 <= i < j < out.len() implies !rank_exceeds(
            #[trigger] out[i].rank(),
            #[trigger] out[j].rank(),
        ) by {
            if j < inner.len() {
                assert(out[i] == inner[i] && out[j] == inner[j]);
            } else {
                assert(out[j] == last);
                assert(out[i] == inner[i]);
                if inner[i] != item {
                    let w = choose|w: int| 0 <= w < front.len() && front[w] == inner[i];
                    assert(sorted[w] == inner[i]);
                    assert(!rank_exceeds(sorted[w].rank(), sorted[sorted.len() - 1].rank()));
                }
            }
        }
    } else {
        assert forall|i: int, j: int| 0 <= i < j < out.len() implies !rank_exceeds(
            #[trigger] out[i].rank(),
            #[trigger] out[j].rank(),
        ) by {
            if j < sorted.len() {
                assert(out[i] == sorted[i] && out[j] == sorted[j]);
            } else {
                assert(out[j] == item);
                assert(out[i] == sorted[i]);
                if sorted.len() > 0 {
                    assert(!rank_exceeds(sorted[i].rank(), sorted[sorted.len() - 1].rank())
                        || i == sorted.len() - 1);
                }
            }
        }
        assert forall|k: int| 0 <= k < out.len() implies #[trigger] out[k] == item
            || sorted.contains(out[k]) by {
            if k < sorted.len() {
                assert(out[k] == sorted[k]);
            }
        }
    }
}

/// What is sorted is in ascending key order, and as long as what was given.
pub proof fn lemma_sorted_ascending<T: Ranked>(items: Seq<T>)
    ensures
        ascending(stably_sorted(items)),
        stably_sorted(items).len() == items.len(),
    decreases items.len(),
{
    if items.len() > 0 {
        lemma_sorted_ascending(items.drop_last());
        lemma_placed_ascending(stably_sorted(items.drop_last()), items.last());
    }
}

/// [`placed`] adds the one value and nothing else.
pub proof fn lemma_placed_same_items<T: Ranked>(sorted: Seq<T>, item: T)
    ensures
        placed(sorted, item).to_multiset() == sorted.to_multiset().insert(item),
    decreases sorted.len(),
{
    broadcast use vstd::seq_lib::to_multiset_build;

    if sorted.len() > 0 && rank_exceeds(sorted.last().rank(), item.rank()) {
        let front = sorted.drop_last();
        lemma_placed_same_items(front, item);
        assert(front.push(sorted.last()) =~= sorted);
        assert(placed(sorted, item).to_multiset() =~= sorted.to_multiset().insert(item));
    }
}

/// Sorting neither adds nor drops a value: each occurs as often as before.
pub proof fn lemma_sorted_same_items<T: Ranked>(items: Seq<T>)
    ensures
        stably_sorted(items).to_multiset() == items.to_multiset(),
    decreases items.len(),
{
    broadcast use vstd::seq_lib::to_multiset_build;

    if items.len() > 0 {
        let front = items.drop_last();
        lemma_sorted_same_items(front);
        lemma_placed_same_items(stably_sorted(front), items.last());
        assert(front.push(items.last()) =~= items);
    } else {
        assert(stably_sorted(items) =~= items);
    }
}

/// Sorting makes nothing up: each value of the result is one that was given,
/// and each value given is in the result.
pub proof fn lemma_sorted_holds_what_was_given<T: Ranked>(items: Seq<T>, item: T)
    ensures
        stably_sorted(items).contains(item) <==> items.contains(item),
{
    lemma_sorted_same_items(items);
    vstd::seq_lib::to_multiset_contains(items, item);
    vstd::seq_lib::to_multiset_contains(stably_sorted(items), item);
}

/// Among the values of one key, [`placed`] puts the new value last.
pub proof fn lemma_placed_keeps_ties<T: Ranked>(sorted: Seq<T>, item: T, rank: Rank)
    ensures
        of_rank(placed(sorted, item), rank) == if item.rank() == rank {
            of_rank(sorted, rank).push(item)
        } else {
            of_rank(sorted, rank)
        },
    decreases sorted.len(),
{
    let same = has_rank::<T>(rank);
    if sorted.len() > 0 && rank_exceeds(sorted.last().rank(), item.rank()) {
        let front = sorted.drop_last();
        lemma_placed_keeps_ties(front, item, rank);
        assert(front.push(sorted.last()) =~= sorted);
        placed(front, item).lemma_filter_push(sorted.last(), same);
        front.lemma_filter_push(sorted.last(), same);
    } else {
        sorted.lemma_filter_push(item, same);
    }
}

/// Sorting is stable: the values of any one key stand in the order in which
/// they were given.
pub proof fn lemma_sorted_keeps_ties<T: Ranked>(items: Seq<T>, rank: Rank)
    ensures
        of_rank(stably_sorted(items), rank) == of_rank(items, rank),
    decreases items.len(),
{
    let same = has_rank::<T>(rank);
    if items.len() > 0 {
        let front = items.drop_last();
        lemma_sorted_keeps_ties(front, rank);
        lemma_placed_keeps_ties(stably_sorted(front), items.last(), rank);
        assert(front.push(items.last()) =~= items);
        front.lemma_filter_push(items.last(), same);
    } else {
        assert(stably_sorted(items) =~= items);
    }
}

/// A sequence holds a value of the key `rank` exactly where its values of
/// that key are not none.
pub proof fn lemma_of_rank_some<T: Ranked>(items: Seq<T>, rank: Rank)
    ensures
        of_rank(items, rank).len() > 0 <==> exists|i: int|
            0 <= i < items.len() && (#[trigger] items[i]).rank() == rank,
    decreases items.len(),
{
    if items.len() > 0 {
        let front = items.drop_last();
        lemma_of_rank_some(front, rank);
        front.lemma_filter_push(items.last(), has_rank(rank));
        assert(front.push(items.last()) =~= items);
        if items.last().rank() == rank {
            assert(items[items.len() - 1].rank() == rank);
        } else if of_rank(items, rank).len() > 0 {
            let i = choose|i: int| 0 <= i < front.len() && (#[trigger] front[i]).rank() == rank;
            assert(items[i] == front[i]);
        } else if exists|i: int| 0 <= i < items.len() && (#[trigger] items[i]).rank() == rank {
            let i = choose|i: int| 0 <= i < items.len() && (#[trigger] items[i]).rank() == rank;
            assert(front[i] == items[i]);
        }
    } else {
        reveal(Seq::filter);
    }
}

/// Without its last value a sequence has the same values of each key, but
/// for the key of that value, of which it has all but the last.
pub proof fn lemma_of_rank_drop_last<T: Ranked>(items: Seq<T>, rank: Rank)
    requires
        items.len() > 0,
    ensures
        of_rank(items.drop_last(), rank) == if items.last().rank() == rank {
            of_rank(items, rank).drop_last()
        } else {
            of_rank(items, rank)
        },
        items.last().rank() == rank ==> of_rank(items, rank).len() > 0 && of_rank(
            items,
            rank,
        ).last() == items.last(),
{
    let front = items.drop_last();
    front.lemma_filter_push(items.last(), has_rank(rank));
    assert(front.push(items.last()) =~= items);
    if items.last().rank() == rank {
        assert(of_rank(front, rank).push(items.last()).drop_last() =~= of_rank(front, rank));
    }
}

/// The order is pinned down: a sequence that is ascending and has, of each
/// key, the values of `items` in their order is `items` sorted.
pub proof fn lemma_sorted_is_the_only_one<T: Ranked>(items: Seq<T>, other: Seq<T>)
    requires
        ascending(other),
        forall|rank: Rank| #[trigger] of_rank(other, rank) == of_rank(items, rank),
    ensures
        other == stably_sorted(items),
{
    let sorted = stably_sorted(items);
    lemma_sorted_ascending(items);
    assert forall|rank: Rank| #[trigger] of_rank(other, rank) == of_rank(sorted, rank) by {
        lemma_sorted_keeps_ties(items, rank);
    }
    lemma_ascending_with_same_ties(sorted, other);
}

/// Two ascending sequences that have, of each key, the same values in the
/// same order are the same.
pub proof fn lemma_ascending_with_same_ties<T: Ranked>(one: Seq<T>, other: Seq<T>)
    requires
        ascending(one),
        ascending(other),
        forall|rank: Rank| #[trigger] of_rank(other, rank) == of_rank(one, rank),
    ensures
        one == other,
    decreases one.len(),
{
    if one.len() == 0 {
        if other.len() > 0 {
            let rank = other[0].rank();
            lemma_of_rank_some(other, rank);
            lemma_of_rank_some(one, rank);
            assert(of_rank(other, rank) == of_rank(one, rank));
        }
        assert(one =~= other);
    } else {
        let last = one.last();
        let rank = last.rank();
        lemma_of_rank_drop_last(one, rank);
        assert(of_rank(other, rank) == of_rank(one, rank));
        lemma_of_rank_some(other, rank);
        let middle = choose|i: int| 0 <= i < other.len() && (#[trigger] other[i]).rank() == rank;
        let end = other.last();
        if end.rank() != rank {
            if rank_exceeds(end.rank(), rank) {
                lemma_of_rank_some(other, end.rank());
                assert(other[other.len() - 1].rank() == end.rank());
                assert(of_rank(other, end.rank()) == of_rank(one, end.rank()));
                lemma_of_rank_some(one, end.rank());
                let high = choose|i: int|
                    0 <= i < one.len() && (#[trigger] one[i]).rank() == end.rank();
                assert(!rank_exceeds(one[high].rank(), one[one.len() - 1].rank()) || high
                    == one.len() - 1);
            } else {
                assert(!rank_exceeds(other[middle].rank(), other[other.len() - 1].rank()));
            }
            assert(false);
        }
        lemma_of_rank_drop_last(other, rank);
        assert(end == last);
        let one_front = one.drop_last();
        let other_front = other.drop_last();
        assert forall|i: int, j: int| 0 <= i < j < one_front.len() implies !rank_exceeds(
            #[trigger] one_front[i].rank(),
            #[trigger] one_front[j].rank(),
        ) by {
            assert(one_front[i] == one[i] && one_front[j] == one[j]);
        }
        assert forall|i: int, j: int| 0 <= i < j < other_front.len() implies !rank_exceeds(
            #[trigger] other_front[i].rank(),
            #[trigger] other_front[j].rank(),
        ) by {
            assert(other_front[i] == other[i] && other_front[j] == other[j]);
        }
        assert forall|any: Rank| #[trigger] of_rank(other_front, any) == of_rank(
            one_front,
            any,
        ) by {
            lemma_of_rank_drop_last(one, any);
            lemma_of_rank_drop_last(other, any);
            assert(of_rank(other, any) == of_rank(one, any));
        }
        lemma_ascending_with_same_ties(one_front, other_front);
        assert(one =~= one_front.push(last));
        assert(other =~= other_front.push(end));
    }
}

/// Sorts `items` by key, stably.
///
/// The result is ascending, holds each value as often as `items` does, and
/// keeps values of equal key in the order they had.
pub fn sort_stable<T: Ranked>(items: Vec<T>) -> (sorted: Vec<T>)
    ensures
        sorted@ == stably_sorted(items@),
        ascending(sorted@),
        sorted@.len() == items@.len(),
        sorted@.to_multiset() == items@.to_multiset(),
        forall|rank: Rank| #[trigger] of_rank(sorted@, rank) == of_rank(items@, rank),
{
    let mut sorted: Vec<T> = Vec::new();
    for item in it: items
        invariant
            it.seq() == items@,
            sorted@ == stably_sorted(items@.take(it.index() as int)),
    {
        let ghost done = items@.take(it.index() as int);
        let mut at: usize = sorted.len();
        while at > 0 && sorted[at - 1].ranks_after(&item)
            invariant
                at <= sorted.len(),
                forall|k: int|
                    at <= k < sorted.len() ==> rank_exceeds(#[trigger] sorted@[k].rank(), item.rank()),
            decreases at,
        {
            at -= 1;
        }
        proof {
            lemma_placed_is_insert(sorted@, item, at as int);
            assert(items@.take(it.index() + 1).drop_last() =~= done);
        }
        sorted.insert(at, item);
    }
    proof {
        assert(items@.take(items@.len() as int) =~= items@);
        lemma_sorted_ascending(items@);
        lemma_sorted_same_items(items@);
        assert forall|rank: Rank| #[trigger] of_rank(sorted@, rank) == of_rank(items@, rank) by {
            lemma_sorted_keeps_ties(items@, rank);
        }
    }
    sorted
}

} // verus!
