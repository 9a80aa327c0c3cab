//! How a sequence of values is seen in contracts: each item by its view.

use vstd::prelude::*;

verus! {

/// The views of the items of a sequence, in order.
pub open spec fn views<T: View>(items: Seq<T>) -> Seq<T::V> {
    Seq::new(items.len(), |i: int| items[i]@)
}

/// Putting an item behind a sequence puts its view behind the views.
pub proof fn lemma_views_push<T: View>(items: Seq<T>, item: T)
    ensures
        views(items.push(item)) == views(items).push(item@),
{
    assert(views(items.push(item)) =~= views(items).push(item@));
}

/// The views of a sequence put behind another are the views of both, in order.
pub proof fn lemma_views_add<T: View>(front: Seq<T>, back: Seq<T>)
    ensures
        views(front + back) == views(front) + views(back),
{
    assert(views(front + back) =~= views(front) + views(back));
}

/// The items of a sequence with one more behind it are those of the sequence
/// and that one.
pub proof fn lemma_push_to_set<A>(items: Seq<A>, item: A)
    ensures
        items.push(item).to_set() == items.to_set().insert(item),
{
    assert forall|other: A|
        items.push(item).to_set().contains(other) <==> items.to_set().insert(item).contains(
            other,
        ) by {
        if items.push(item).contains(other) {
            let i = choose|i: int| 0 <= i < items.push(item).len() && items.push(item)[i] == other;
            if i < items.len() {
                assert(items[i] == other);
            }
        }
        if items.contains(other) {
            let i = choose|i: int| 0 <= i < items.len() && items[i] == other;
            assert(items.push(item)[i] == other);
        }
        if other == item {
            assert(items.push(item)[items.len() as int] == other);
        }
    }
    assert(items.push(item).to_set() =~= items.to_set().insert(item));
}

} // verus!
