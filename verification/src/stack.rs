//! The stack itself: a chain of boxed nodes and a running count.

use crate::model::{after_pop, after_push, top_of};
use crate::render::{join, joined, texts_of};
use vstd::prelude::*;
use vstd::string::to_string_from_display_ensures;

verus! {

/// One link of the chain: an element and the node below it, if any.
#[derive(Debug)]
pub struct Node<T> {
    data: T,
    next: Option<Box<Node<T>>>,
}

/// A LIFO stack. Its view is the sequence of its elements from top to bottom.
#[derive(Debug)]
pub struct LinkedListStack<T> {
    top: Option<Box<Node<T>>>,
    len: usize,
}

/// The elements reachable from `link`, nearest first.
spec fn chain_items<T>(link: Option<Box<Node<T>>>) -> Seq<T>
    decreases link,
{
    match link {
        None => Seq::empty(),
        Some(node) => seq![node.data] + chain_items(node.next),
    }
}

impl<T> View for Node<T> {
    type V = Seq<T>;

    /// This node's element followed by everything below it.
    closed spec fn view(&self) -> Seq<T> {
        seq![self.data] + chain_items(self.next)
    }
}

impl<T> View for LinkedListStack<T> {
    type V = Seq<T>;

    closed spec fn view(&self) -> Seq<T> {
        chain_items(self.top)
    }
}

/// References to the elements reachable from `link`, nearest first.
fn chain_refs<'a, T>(link: &'a Option<Box<Node<T>>>) -> (refs: Vec<&'a T>)
    ensures
        refs@.len() == chain_items(*link).len(),
        forall|i: int| 0 <= i < refs@.len() ==> *refs@[i] == chain_items(*link)[i],
{
    let ghost items = chain_items(*link);
    let mut refs: Vec<&'a T> = Vec::new();
    let mut cursor = link;
    while cursor.is_some()
        invariant
            refs@.len() <= items.len(),
            chain_items(*cursor) == items.skip(refs@.len() as int),
            forall|i: int| 0 <= i < refs@.len() ==> *refs@[i] == items[i],
        decreases items.len() - refs@.len(),
    {
        let node = cursor.as_ref().unwrap();
        proof {
            let rest = items.skip(refs@.len() as int);
            assert(rest == seq![node.data] + chain_items(node.next));
            assert(rest[0] == node.data);
            assert(chain_items(node.next) =~= rest.drop_first());
            assert(rest.drop_first() =~= items.skip(refs@.len() as int + 1));
        }
        refs.push(&node.data);
        cursor = &node.next;
    }
    proof {
        assert(chain_items(*cursor).len() == 0);
    }
    refs
}

impl<T> LinkedListStack<T> {
    /// The count always equals the number of nodes in the chain.
    #[verifier::type_invariant]
    spec fn count_matches_chain(self) -> bool {
        self.len == chain_items(self.top).len()
    }

    /// Creates an empty stack.
    pub fn new() -> (stack: Self)
        ensures
            stack@ == Seq::<T>::empty(),
    {
        LinkedListStack { top: None, len: 0 }
    }

    /// Puts `data` on top.
    ///
    /// The count is a `usize`, so a stack that already holds `usize::MAX`
    /// elements cannot take another.
    pub fn push(&mut self, data: T)
        requires
            old(self)@.len() < usize::MAX,
        ensures
            final(self)@ == after_push(old(self)@, data),
    {
        proof {
            use_type_invariant(&*self);
        }
        let mut below = LinkedListStack { top: None, len: 0 };
        core::mem::swap(self, &mut below);
        let LinkedListStack { top, len } = below;
        let node = Node { data, next: top };
        *self = LinkedListStack { top: Some(Box::new(node)), len: len + 1 };
    }

    /// Removes the top element and returns it, or `None` if the stack is empty,
    /// in which case the stack is left as it was.
    pub fn pop(&mut self) -> (removed: Option<T>)
        ensures
            removed == top_of(old(self)@),
            final(self)@ == after_pop(old(self)@),
            old(self)@.len() == 0 ==> removed is None && final(self)@.len() == 0,
    {
        proof {
            use_type_invariant(&*self);
        }
        let mut whole = LinkedListStack { top: None, len: 0 };
        core::mem::swap(self, &mut whole);
        let LinkedListStack { top, len } = whole;
        match top {
            None => None,
            Some(node) => {
                let Node { data, next } = *node;
                assert(chain_items(next) =~= chain_items(top).drop_first());
                *self = LinkedListStack { top: next, len: len - 1 };
                Some(data)
            },
        }
    }

    /// Tells whether the stack is empty: true exactly when `len()` is zero.
    pub fn is_empty(&self) -> (empty: bool)
        ensures
            empty == (self@.len() == 0),
    {
        proof {
            use_type_invariant(self);
        }
        self.len == 0
    }

    /// Returns the number of elements, read from the running count.
    pub fn len(&self) -> (count: usize)
        ensures
            count == self@.len(),
    {
        proof {
            use_type_invariant(self);
        }
        self.len
    }

    /// Returns a reference to the top element, or `None` if the stack is
    /// empty. The stack is not changed.
    pub fn peak(&self) -> (seen: Option<&T>)
        ensures
            match top_of(self@) {
                Some(value) => seen == Some(&value),
                None => seen is None,
            },
    {
        match &self.top {
            None => None,
            Some(node) => Some(&node.data),
        }
    }
}

impl<T> Default for LinkedListStack<T> {
    /// The default stack is the empty one.
    fn default() -> (stack: Self)
        ensures
            stack@ == Seq::<T>::empty(),
    {
        LinkedListStack { top: None, len: 0 }
    }
}

impl<T: Default> Default for Node<T> {
    /// A lone node that holds the element type's default value.
    fn default() -> (node: Self)
        ensures
            node@.len() == 1,
            call_ensures(T::default, (), node@[0]),
    {
        Node { data: T::default(), next: None }
    }
}

/// `copy` has a clone of each element of `items`, at the same place.
pub open spec fn clone_of<T: Clone>(items: Seq<T>, copy: Seq<T>) -> bool {
    &&& copy.len() == items.len()
    &&& forall|i: int| 0 <= i < items.len() ==> cloned::<T>(items[i], #[trigger] copy[i])
}

/// Builds a new chain that holds a clone of each element of `link`'s chain,
/// in the same order.
fn clone_chain<T: Clone>(link: &Option<Box<Node<T>>>) -> (copy: Option<Box<Node<T>>>)
    ensures
        clone_of(chain_items(*link), chain_items(copy)),
{
    let ghost items = chain_items(*link);
    let elements = chain_refs(link);
    let mut copy: Option<Box<Node<T>>> = None;
    let mut left: usize = elements.len();
    while left > 0
        invariant
            left <= elements@.len(),
            elements@.len() == items.len(),
            forall|i: int| 0 <= i < elements@.len() ==> *elements@[i] == items[i],
            chain_items(copy).len() == items.len() - left,
            forall|j: int|
                0 <= j < items.len() - left ==> #[trigger] cloned::<T>(
                    items[left + j],
                    chain_items(copy)[j],
                ),
        decreases left,
    {
        left -= 1;
        let data = elements[left].clone();
        let ghost below = chain_items(copy);
        copy = Some(Box::new(Node { data, next: copy }));
        proof {
            assert(chain_items(copy) == seq![data] + below);
            assert forall|j: int| 0 <= j < items.len() - left implies #[trigger] cloned::<T>(
                items[left + j],
                chain_items(copy)[j],
            ) by {
                if j > 0 {
                    assert(cloned::<T>(items[(left + 1) + (j - 1)], below[j - 1]));
                }
            }
        }
    }
    proof {
        assert forall|i: int| 0 <= i < items.len() implies #[trigger] cloned::<T>(
            items[i],
            chain_items(copy)[i],
        ) by {
            assert(cloned::<T>(items[left + i], chain_items(copy)[i]));
        }
    }
    copy
}

impl<T: Clone> Clone for Node<T> {
    /// A node with clones of this node's element and of all below it.
    fn clone(&self) -> (copy: Self)
        ensures
            clone_of(self@, copy@),
    {
        let copy = Node { data: self.data.clone(), next: clone_chain(&self.next) };
        proof {
            assert forall|i: int| 0 <= i < self@.len() implies #[trigger] cloned::<T>(
                self@[i],
                copy@[i],
            ) by {
                if i > 0 {
                    assert(cloned::<T>(
                        chain_items(self.next)[i - 1],
                        chain_items(copy.next)[i - 1],
                    ));
                }
            }
        }
        copy
    }
}

impl<T: Clone> Clone for LinkedListStack<T> {
    /// A stack of the same length that holds a clone of each element, in the
    /// same order.
    fn clone(&self) -> (copy: Self)
        ensures
            clone_of(self@, copy@),
    {
        proof {
            use_type_invariant(self);
        }
        LinkedListStack { top: clone_chain(&self.top), len: self.len }
    }
}

/// Each text is what `to_string` gave for the element at the same place.
pub open spec fn shown_as<T: core::fmt::Display>(items: Seq<T>, texts: Seq<String>) -> bool {
    &&& texts.len() == items.len()
    &&& forall|i: int|
        0 <= i < items.len() ==> #[trigger] to_string_from_display_ensures::<T>(
            &items[i],
            texts[i],
        )
}

impl<T: core::fmt::Display> LinkedListStack<T> {
    /// Renders the stack from top to bottom: each element's own text, with
    /// `" -> "` between neighbours; the empty string for an empty stack.
    ///
    /// What an element's text is, is up to its `Display`; the line is the
    /// join of those texts, one per element, in order.
    pub fn to_string(&self) -> (line: String)
        ensures
            exists|texts: Seq<String>|
                shown_as(self@, texts) && line@ == joined(texts_of(texts)),
            self@.len() == 0 ==> line@ == Seq::<char>::empty(),
    {
        let elements = chain_refs(&self.top);
        let mut texts: Vec<String> = Vec::new();
        let mut i: usize = 0;
        while i < elements.len()
            invariant
                i == texts@.len(),
                i <= elements@.len(),
                elements@.len() == self@.len(),
                forall|k: int| 0 <= k < elements@.len() ==> *elements@[k] == self@[k],
                forall|k: int|
                    0 <= k < texts@.len() ==> #[trigger] to_string_from_display_ensures::<T>(
                        &self@[k],
                        texts@[k],
                    ),
            decreases elements@.len() - i,
        {
            texts.push(elements[i].to_string());
            i += 1;
        }
        proof {
            assert(shown_as(self@, texts@));
        }
        join(&texts)
    }
}

} // verus!
