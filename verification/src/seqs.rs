//! Small facts about sequences that several modules lean on.

use vstd::prelude::*;

verus! {

/// The views of the items of a sequence, in its order.
pub open spec fn views<T: View>(items: Seq<T>) -> Seq<T::V> {
    items.map_values(|item: T| item@)
}

/// Pushing an item pushes its view.
pub proof fn lemma_views_push<T: View>(items: Seq<T>, item: T)
    ensures
        views(items.push(item)) == views(items).push(item@),
{
    assert(views(items.push(item)) =~= views(items).push(item@));
}

/// A value that stands at `at` and nowhere before it is first found there.
pub proof fn lemma_first_found_at<A>(values: Seq<A>, needle: A, at: int)
    requires
        0 <= at < values.len(),
        values[at] == needle,
        forall|k: int| 0 <= k < at ==> values[k] != needle,
    ensures
        values.index_of_first(needle) == Some(at),
{
    values.index_of_first_ensures(needle);
    assert(values.contains(needle));
}

/// A value that stands nowhere is not found.
pub proof fn lemma_not_found<A>(values: Seq<A>, needle: A)
    requires
        forall|k: int| 0 <= k < values.len() ==> values[k] != needle,
    ensures
        values.index_of_first(needle) is None,
{
    values.index_of_first_ensures(needle);
}

} // verus!
