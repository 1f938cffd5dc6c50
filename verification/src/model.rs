//! The mathematical model of a stack: a sequence whose first element is the
//! top, and the effect of each operation on it.

use vstd::prelude::*;

verus! {

/// The contents after `value` has been pushed onto `items`.
pub open spec fn after_push<T>(items: Seq<T>, value: T) -> Seq<T> {
    seq![value] + items
}

/// The element a peek or a pop reports: the first one, if there is any.
pub open spec fn top_of<T>(items: Seq<T>) -> Option<T> {
    if items.len() == 0 {
        None
    } else {
        Some(items[0])
    }
}

/// The contents after one pop: the top is gone; an empty stack stays empty.
pub open spec fn after_pop<T>(items: Seq<T>) -> Seq<T> {
    if items.len() == 0 {
        items
    } else {
        items.drop_first()
    }
}

/// The contents after every element of `values` has been pushed onto
/// `items`, `values[0]` first.
pub open spec fn after_push_all<T>(items: Seq<T>, values: Seq<T>) -> Seq<T>
    decreases values.len(),
{
    if values.len() == 0 {
        items
    } else {
        after_push(after_push_all(items, values.drop_last()), values.last())
    }
}

} // verus!
