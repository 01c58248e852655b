//! Views of collections of values that have views.
use vstd::prelude::*;

verus! {

/// What the items of a sequence stand for.
pub open spec fn views<T: View>(items: Seq<T>) -> Seq<T::V> {
    items.map_values(|item: T| item@)
}

/// What an optional value stands for.
pub open spec fn view_option<T: View>(value: Option<T>) -> Option<T::V> {
    match value {
        Some(inner) => Some(inner@),
        None => None,
    }
}

/// One more item.
pub proof fn lemma_views_push<T: View>(items: Seq<T>, item: T)
    ensures
        views(items.push(item)) == views(items).push(item@),
{
    assert(views(items.push(item)) =~= views(items).push(item@));
}

/// One more item at the end of a prefix.
pub proof fn lemma_views_take<T: View>(items: Seq<T>, count: int)
    requires
        0 <= count < items.len(),
    ensures
        views(items.take(count + 1)) == views(items.take(count)).push(items[count]@),
        views(items.take(count)) == views(items).take(count),
{
    assert(views(items.take(count + 1)) =~= views(items.take(count)).push(items[count]@));
    assert(views(items.take(count)) =~= views(items).take(count));
}

} // verus!
