//! How the view of a vector follows the vector's contents, and where an item
//! stands in a sequence.

use vstd::prelude::*;

verus! {

/// Pushing an item onto a vector pushes the item's view onto the vector's
/// view.
pub proof fn lemma_deep_view_push<T: DeepView>(before: Vec<T>, after: Vec<T>, last: T)
    requires
        after@ == before@.push(last),
    ensures
        after.deep_view() == before.deep_view().push(last.deep_view()),
{
    assert(after.deep_view() =~= before.deep_view().push(last.deep_view()));
}

/// The place of the first item of `items` that equals `item`.
pub open spec fn first_position<A>(items: Seq<A>, item: A) -> Option<int>
    decreases items.len(),
{
    if items.len() == 0 {
        None
    } else if items.first() == item {
        Some(0)
    } else {
        match first_position(items.drop_first(), item) {
            Some(i) => Some(i + 1),
            None => None,
        }
    }
}

/// `first_position` finds an item exactly where the sequence holds it, and
/// nothing equal stands before the place it gives.
pub proof fn lemma_first_position<A>(items: Seq<A>, item: A)
    ensures
        match first_position(items, item) {
            Some(i) => 0 <= i < items.len() && items[i] == item && forall|j: int|
                0 <= j < i ==> items[j] != item,
            None => !items.contains(item),
        },
    decreases items.len(),
{
    if items.len() == 0 {
    } else if items.first() == item {
    } else {
        let rest = items.drop_first();
        lemma_first_position(rest, item);
        match first_position(rest, item) {
            Some(i) => {
                assert(items[i + 1] == rest[i]);
                assert forall|j: int| 0 <= j < i + 1 implies items[j] != item by {
                    if j > 0 {
                        assert(items[j] == rest[j - 1]);
                    }
                }
            },
            None => {
                assert forall|j: int| 0 <= j < items.len() implies items[j] != item by {
                    if j > 0 {
                        assert(rest[j - 1] == items[j]);
                    }
                }
            },
        }
    }
}

/// The place that a search from the front stops at is the first position.
pub proof fn lemma_first_position_found<A>(items: Seq<A>, item: A, i: int)
    requires
        0 <= i < items.len(),
        items[i] == item,
        forall|j: int| 0 <= j < i ==> items[j] != item,
    ensures
        first_position(items, item) == Some(i),
{
    lemma_first_position(items, item);
}

/// A sequence without a repeated item is one in which no item occurs among
/// those before it.
pub proof fn lemma_no_duplicates_by_prefix<A>(items: Seq<A>)
    ensures
        items.no_duplicates() <==> forall|i: int|
            0 <= i < items.len() ==> !(#[trigger] items.take(i)).contains(items[i]),
{
    if items.no_duplicates() {
        assert forall|i: int| 0 <= i < items.len() implies !(#[trigger] items.take(i)).contains(
            items[i],
        ) by {
            if items.take(i).contains(items[i]) {
                let j = choose|j: int| 0 <= j < items.take(i).len() && items.take(i)[j] == items[i];
                assert(items[j] == items[i]);
            }
        }
    }
    if forall|i: int| 0 <= i < items.len() ==> !(#[trigger] items.take(i)).contains(items[i]) {
        assert forall|i: int, j: int|
            0 <= i < items.len() && 0 <= j < items.len() && i != j implies items[i] != items[j] by {
            if i < j {
                assert(!items.take(j).contains(items[j]));
                assert(items.take(j)[i] == items[i]);
            } else {
                assert(!items.take(i).contains(items[i]));
                assert(items.take(i)[j] == items[j]);
            }
        }
    }
}

/// A sequence without a repeated item stays so when it grows by an item
/// that it does not hold.
pub proof fn lemma_push_no_duplicates<A>(items: Seq<A>, item: A)
    requires
        items.no_duplicates(),
        !items.contains(item),
    ensures
        items.push(item).no_duplicates(),
{
    let grown = items.push(item);
    assert forall|i: int, j: int|
        0 <= i < grown.len() && 0 <= j < grown.len() && i != j implies grown[i] != grown[j] by {
        if i < items.len() && j < items.len() {
        } else if i < items.len() {
            assert(items[i] == grown[i]);
        } else {
            assert(items[j] == grown[j]);
        }
    }
}

/// The view of two vectors in a row is the views of the two in a row.
pub proof fn lemma_deep_view_append<T: DeepView>(first: Vec<T>, second: Vec<T>, both: Vec<T>)
    requires
        both@ == first@ + second@,
    ensures
        both.deep_view() == first.deep_view() + second.deep_view(),
{
    assert(both.deep_view() =~= first.deep_view() + second.deep_view());
}

} // verus!
