//! What holds of every stack, stated over the model and proved from it.

use crate::model::{after_pop, after_push, after_push_all, top_of};
use crate::stack::LinkedListStack;
use vstd::prelude::*;

verus! {

/// Pushes with no pop between them: the stack grows by as many elements as
/// were pushed, and the last one pushed is on top. Started from the empty
/// stack, the length is the number of pushes.
pub proof fn lemma_pushes_count_and_top<T>(items: Seq<T>, values: Seq<T>)
    ensures
        after_push_all(items, values).len() == items.len() + values.len(),
        items.len() == 0 ==> after_push_all(items, values).len() == values.len(),
        values.len() > 0 ==> top_of(after_push_all(items, values)) == Some(values.last()),
    decreases values.len(),
{
    if values.len() > 0 {
        lemma_pushes_count_and_top(items, values.drop_last());
    }
}

/// Pushes stack up in reverse: what was pushed last lies first, and the
/// earlier contents lie below all of it.
pub proof fn lemma_pushes_lie_reversed<T>(items: Seq<T>, values: Seq<T>)
    ensures
        after_push_all(items, values) == values.reverse() + items,
    decreases values.len(),
{
    if values.len() == 0 {
        assert(values.reverse() + items =~= items);
    } else {
        lemma_pushes_lie_reversed(items, values.drop_last());
        assert(values.reverse() + items =~= seq![values.last()] + (values.drop_last().reverse()
            + items));
    }
}

/// A pop right after a push returns the pushed value and restores the
/// contents, so the length and the top are what they were before the push.
pub proof fn lemma_pop_undoes_push<T>(items: Seq<T>, value: T)
    ensures
        top_of(after_push(items, value)) == Some(value),
        after_pop(after_push(items, value)) == items,
        after_pop(after_push(items, value)).len() == items.len(),
        top_of(after_pop(after_push(items, value))) == top_of(items),
{
    assert(after_push(items, value).drop_first() =~= items);
}

/// Last in, first out: after pushing `first`, `second`, `third`, three pops
/// return `third`, `second`, `first`, and leave the earlier contents.
pub proof fn lemma_three_pops_reverse_three_pushes<T>(items: Seq<T>, first: T, second: T, third: T)
    ensures
        ({
            let one = after_push(items, first);
            let two = after_push(one, second);
            let three = after_push(two, third);
            &&& top_of(three) == Some(third)
            &&& after_pop(three) == two
            &&& top_of(two) == Some(second)
            &&& after_pop(two) == one
            &&& top_of(one) == Some(first)
            &&& after_pop(one) == items
        }),
{
    lemma_pop_undoes_push(items, first);
    lemma_pop_undoes_push(after_push(items, first), second);
    lemma_pop_undoes_push(after_push(after_push(items, first), second), third);
}

/// A pop on the empty stack reports nothing and leaves it empty; so does a
/// peek.
pub proof fn lemma_empty_gives_nothing<T>()
    ensures
        top_of(Seq::<T>::empty()) == None::<T>,
        after_pop(Seq::<T>::empty()) == Seq::<T>::empty(),
        after_pop(Seq::<T>::empty()).len() == 0,
{
}

/// What `peak`, `len` and `is_empty` report is fixed by the contents alone:
/// two stacks with the same contents give the same answers, and so does one
/// stack asked twice with no push or pop between.
pub proof fn lemma_reads_depend_on_contents_only<T>(
    once: LinkedListStack<T>,
    again: LinkedListStack<T>,
)
    requires
        once@ == again@,
    ensures
        top_of(once@) == top_of(again@),
        once@.len() == again@.len(),
        (once@.len() == 0) == (again@.len() == 0),
{
}

} // verus!
