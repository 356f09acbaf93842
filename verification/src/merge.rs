//! Bringing together what the branches of a fan-out brought back.

use vstd::prelude::*;
use crate::error::ChangelogError;

verus! {

/// The error of the first branch that failed, in the order of the branches.
pub open spec fn first_failure<T>(results: Seq<Result<T, ChangelogError>>) -> Option<ChangelogError>
    decreases results.len(),
{
    if results.len() == 0 {
        None
    } else {
        match first_failure(results.drop_last()) {
            Some(error) => Some(error),
            None => match results.last() {
                Err(error) => Some(error),
                Ok(_) => None,
            },
        }
    }
}

/// What the branches that succeeded returned, in the order of the branches.
pub open spec fn values_of<T>(results: Seq<Result<T, ChangelogError>>) -> Seq<T>
    decreases results.len(),
{
    if results.len() == 0 {
        Seq::empty()
    } else {
        match results.last() {
            Ok(value) => values_of(results.drop_last()).push(value),
            Err(_) => values_of(results.drop_last()),
        }
    }
}

/// The items of the lists, list after list.
pub open spec fn joined<T>(lists: Seq<Vec<T>>) -> Seq<T>
    decreases lists.len(),
{
    if lists.len() == 0 {
        Seq::empty()
    } else {
        joined(lists.drop_last()) + lists.last()@
    }
}

/// A failure among the first branches is the first failure of all of them.
pub proof fn lemma_first_failure_of_prefix<T>(results: Seq<Result<T, ChangelogError>>, count: int)
    requires
        0 <= count <= results.len(),
        first_failure(results.take(count)) is Some,
    ensures
        first_failure(results) == first_failure(results.take(count)),
    decreases results.len() - count,
{
    if count == results.len() {
        assert(results.take(count) =~= results);
    } else {
        assert(results.take(count + 1).drop_last() =~= results.take(count));
        lemma_first_failure_of_prefix(results, count + 1);
    }
}

/// The results of the branches of a fan-out as one: the values of all of them,
/// in the order of the branches, where every branch succeeded, and the error of
/// the first branch that failed where one did.
pub fn gather<T>(results: Vec<Result<T, ChangelogError>>) -> (outcome: Result<Vec<T>, ChangelogError>)
    ensures
        match first_failure(results@) {
            Some(error) => outcome == Err::<Vec<T>, ChangelogError>(error),
            None => outcome matches Ok(values) && values@ == values_of(results@),
        },
{
    let mut values: Vec<T> = Vec::new();
    for result in iter: results.into_iter()
        invariant
            iter.seq() == results@,
            first_failure(results@.take(iter.index() as int)) is None,
            values@ == values_of(results@.take(iter.index() as int)),
    {
        proof {
            assert(results@.take(iter.index() + 1).drop_last() =~= results@.take(iter.index() as int));
        }
        match result {
            Ok(value) => {
                values.push(value);
            },
            Err(error) => {
                proof {
                    lemma_first_failure_of_prefix(results@, iter.index() + 1);
                }
                return Err(error);
            },
        }
    }
    proof {
        assert(results@.take(results@.len() as int) =~= results@);
    }
    Ok(values)
}

/// The lists as one list: the items of each, list after list.
pub fn flatten<T>(lists: Vec<Vec<T>>) -> (items: Vec<T>)
    ensures
        items@ == joined(lists@),
{
    let mut items: Vec<T> = Vec::new();
    for list in iter: lists.into_iter()
        invariant
            iter.seq() == lists@,
            items@ == joined(lists@.take(iter.index() as int)),
    {
        proof {
            assert(lists@.take(iter.index() + 1).drop_last() =~= lists@.take(iter.index() as int));
        }
        let mut list = list;
        items.append(&mut list);
    }
    proof {
        assert(lists@.take(lists@.len() as int) =~= lists@);
    }
    items
}

/// What two items must share to count as the same item.
pub trait Identified {
    /// What an item is known by.
    type Identity;

    /// What this item is known by.
    spec fn identity(&self) -> Self::Identity;

    /// Whether the two are the same item.
    fn same_as(&self, other: &Self) -> (same: bool)
        ensures
            same == (self.identity() == other.identity()),
    ;
}

/// Whether one of the items is known by `identity`.
pub open spec fn holds<T: Identified>(items: Seq<T>, identity: T::Identity) -> bool {
    exists|i: int| 0 <= i < items.len() && (#[trigger] items[i]).identity() == identity
}

/// The items without those that are the same as an earlier one.
pub open spec fn first_occurrences<T: Identified>(items: Seq<T>) -> Seq<T>
    decreases items.len(),
{
    if items.len() == 0 {
        Seq::empty()
    } else if holds(items.drop_last(), items.last().identity()) {
        first_occurrences(items.drop_last())
    } else {
        first_occurrences(items.drop_last()).push(items.last())
    }
}

/// Dropping the repeated items loses no item: what is held before is held
/// after, and nothing else is.
pub proof fn lemma_first_occurrences_hold_the_same<T: Identified>(items: Seq<T>, identity: T::Identity)
    ensures
        holds(first_occurrences(items), identity) <==> holds(items, identity),
    decreases items.len(),
{
    if items.len() > 0 {
        let earlier = items.drop_last();
        let kept = first_occurrences(earlier);
        lemma_first_occurrences_hold_the_same(earlier, identity);
        lemma_first_occurrences_hold_the_same(earlier, items.last().identity());
        if holds(items, identity) {
            let i = choose|i: int| 0 <= i < items.len() && (#[trigger] items[i]).identity() == identity;
            if i < items.len() - 1 {
                assert(earlier[i] == items[i]);
                let k = choose|k: int| 0 <= k < kept.len() && (#[trigger] kept[k]).identity() == identity;
                assert(first_occurrences(items)[k] == kept[k]);
            } else if !holds(earlier, items.last().identity()) {
                assert(first_occurrences(items)[kept.len() as int] == items.last());
            }
        }
    }
}

/// After the repeated items are dropped no two items are the same.
pub proof fn lemma_first_occurrences_differ<T: Identified>(items: Seq<T>, first: int, second: int)
    requires
        0 <= first < second < first_occurrences(items).len(),
    ensures
        first_occurrences(items)[first].identity() != first_occurrences(items)[second].identity(),
    decreases items.len(),
{
    let earlier = items.drop_last();
    let kept = first_occurrences(earlier);
    if holds(earlier, items.last().identity()) {
        lemma_first_occurrences_differ(earlier, first, second);
    } else if second < kept.len() {
        lemma_first_occurrences_differ(earlier, first, second);
    } else {
        lemma_first_occurrences_hold_the_same(earlier, items.last().identity());
    }
}

/// The items without those that are the same as an earlier one, in the order
/// they came in.
pub fn distinct<T: Identified>(items: Vec<T>) -> (kept: Vec<T>)
    ensures
        kept@ == first_occurrences(items@),
{
    let mut kept: Vec<T> = Vec::new();
    for item in iter: items.into_iter()
        invariant
            iter.seq() == items@,
            kept@ == first_occurrences(items@.take(iter.index() as int)),
    {
        let ghost earlier = items@.take(iter.index() as int);
        proof {
            assert(items@.take(iter.index() + 1).drop_last() =~= earlier);
            lemma_first_occurrences_hold_the_same(earlier, item.identity());
        }
        let mut known = false;
        let mut k: usize = 0;
        while k < kept.len() && !known
            invariant
                k <= kept.len(),
                known ==> holds(kept@, item.identity()),
                !known ==> forall|j: int| 0 <= j < k ==> (#[trigger] kept@[j]).identity() != item.identity(),
            decreases kept.len() - k + if known { 0int } else { 1int },
        {
            if kept[k].same_as(&item) {
                known = true;
            } else {
                k += 1;
            }
        }
        if !known {
            kept.push(item);
        }
    }
    proof {
        assert(items@.take(items@.len() as int) =~= items@);
    }
    kept
}

/// Whether every branch succeeded.
pub open spec fn all_succeeded<T>(results: Seq<Result<T, ChangelogError>>) -> bool {
    forall|i: int| 0 <= i < results.len() ==> (#[trigger] results[i]) is Ok
}

/// The first failure is the error of a branch before which every branch
/// succeeded, and there is none only where every branch succeeded.
pub proof fn lemma_first_failure_is_first<T>(results: Seq<Result<T, ChangelogError>>)
    ensures
        match first_failure(results) {
            Some(error) => exists|i: int|
                0 <= i < results.len() && #[trigger] results[i] == Err::<T, ChangelogError>(error)
                    && all_succeeded(results.take(i)),
            None => all_succeeded(results),
        },
    decreases results.len(),
{
    if results.len() > 0 {
        let earlier = results.drop_last();
        lemma_first_failure_is_first(earlier);
        match first_failure(earlier) {
            Some(error) => {
                let i = choose|i: int|
                    0 <= i < earlier.len() && #[trigger] earlier[i] == Err::<T, ChangelogError>(error)
                        && all_succeeded(earlier.take(i));
                assert(results.take(i) =~= earlier.take(i));
            },
            None => {
                assert forall|i: int| 0 <= i < results.len() - 1 implies (#[trigger] results[i]) is Ok by {
                    assert(results[i] == earlier[i]);
                }
            },
        }
    }
}

/// One branch that failed makes the whole fail, whatever the others did.
pub proof fn lemma_one_failure_fails_all<T>(results: Seq<Result<T, ChangelogError>>, branch: int)
    requires
        0 <= branch < results.len(),
        results[branch] is Err,
    ensures
        first_failure(results) is Some,
{
    lemma_first_failure_is_first(results);
}

/// Whether exactly one of the items is known by `identity`.
pub open spec fn holds_once<T: Identified>(items: Seq<T>, identity: T::Identity) -> bool {
    &&& holds(items, identity)
    &&& forall|j: int, k: int|
        0 <= j < items.len() && 0 <= k < items.len() && (#[trigger] items[j]).identity() == identity
            && (#[trigger] items[k]).identity() == identity ==> j == k
}

/// After the repeated items are dropped, each item that was there is there
/// exactly once.
pub proof fn lemma_first_occurrences_hold_each_once<T: Identified>(items: Seq<T>, position: int)
    requires
        0 <= position < items.len(),
    ensures
        holds_once(first_occurrences(items), items[position].identity()),
{
    let identity = items[position].identity();
    let kept = first_occurrences(items);
    lemma_first_occurrences_hold_the_same(items, identity);
    assert forall|j: int, k: int|
        0 <= j < kept.len() && 0 <= k < kept.len() && (#[trigger] kept[j]).identity() == identity && (
        #[trigger] kept[k]).identity() == identity implies j == k by {
        if j < k {
            lemma_first_occurrences_differ(items, j, k);
        } else if k < j {
            lemma_first_occurrences_differ(items, k, j);
        }
    }
}

/// An item of a list is an item of the lists joined.
pub proof fn lemma_joined_holds_each_list<T>(lists: Seq<Vec<T>>, list: int, position: int)
    requires
        0 <= list < lists.len(),
        0 <= position < lists[list]@.len(),
    ensures
        exists|k: int| 0 <= k < joined(lists).len() && #[trigger] joined(lists)[k] == lists[list]@[position],
    decreases lists.len(),
{
    let earlier = lists.drop_last();
    if list == lists.len() - 1 {
        assert(joined(lists)[joined(earlier).len() + position] == lists[list]@[position]);
    } else {
        lemma_joined_holds_each_list(earlier, list, position);
        let k = choose|k: int|
            0 <= k < joined(earlier).len() && #[trigger] joined(earlier)[k] == earlier[list]@[position];
        assert(joined(lists)[k] == joined(earlier)[k]);
    }
}

/// Where every branch succeeded, the values are those of the branches, one
/// for each branch.
pub proof fn lemma_values_of_all_succeeded<T>(results: Seq<Result<T, ChangelogError>>)
    requires
        all_succeeded(results),
    ensures
        values_of(results).len() == results.len(),
        forall|i: int| 0 <= i < results.len() ==> values_of(results)[i] == (#[trigger] results[i])->Ok_0,
    decreases results.len(),
{
    if results.len() > 0 {
        let earlier = results.drop_last();
        lemma_values_of_all_succeeded(earlier);
        assert forall|i: int| 0 <= i < results.len() implies values_of(results)[i] == (
        #[trigger] results[i])->Ok_0 by {
            if i < earlier.len() {
                assert(earlier[i] == results[i]);
            }
        }
    }
}

/// What the branches of a fan-out come to where each brought a list: the
/// items of all the lists without those that are the same as an earlier one,
/// or the error of the first branch that failed.
pub open spec fn merged<T: Identified>(results: Seq<Result<Vec<T>, ChangelogError>>) -> Result<
    Seq<T>,
    ChangelogError,
> {
    match first_failure(results) {
        Some(error) => Err(error),
        None => Ok(first_occurrences(joined(values_of(results)))),
    }
}

/// Brings the lists of the branches of a fan-out together: fails with the
/// error of the first branch that failed, and else returns the items of all
/// the lists, each item once, in the order in which they first came.
pub fn merge<T: Identified>(results: Vec<Result<Vec<T>, ChangelogError>>) -> (outcome: Result<
    Vec<T>,
    ChangelogError,
>)
    ensures
        match merged(results@) {
            Ok(items) => outcome matches Ok(kept) && kept@ == items,
            Err(error) => outcome == Err::<Vec<T>, ChangelogError>(error),
        },
{
    match gather(results) {
        Ok(lists) => Ok(distinct(flatten(lists))),
        Err(error) => Err(error),
    }
}

/// A fan-out of which no branch failed is merged to a list: every item of
/// every branch is in it, and none is in it twice.
pub proof fn lemma_merged_holds_each_item_once<T: Identified>(
    results: Seq<Result<Vec<T>, ChangelogError>>,
    branch: int,
    position: int,
)
    requires
        all_succeeded(results),
        0 <= branch < results.len(),
        0 <= position < results[branch]->Ok_0@.len(),
    ensures
        merged(results) is Ok,
        holds_once(merged(results)->Ok_0, results[branch]->Ok_0@[position].identity()),
{
    lemma_first_failure_is_first(results);
    lemma_values_of_all_succeeded(results);
    let lists = values_of(results);
    lemma_joined_holds_each_list(lists, branch, position);
    let all = joined(lists);
    let at = choose|k: int| 0 <= k < all.len() && #[trigger] all[k] == lists[branch]@[position];
    lemma_first_occurrences_hold_each_once(all, at);
}

} // verus!
