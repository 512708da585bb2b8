//! Sequences built by nesting: a node for every item, and a terminator.

use vstd::prelude::*;
use crate::list::List;

verus! {

/// A slice of items whose shape was fixed where it was written down.
pub trait TypeSlice<T> {
    /// The items of the slice, first item first.
    spec fn items(&self) -> Seq<T>;

    /// A list of the actual items.
    /// See [`List`] for more.
    fn list(&self) -> (list: List<'_, T>)
        ensures
            list@ == self.items(),
    ;

    /// The number of items in this slice.
    fn len(&self) -> (len: usize)
        requires
            self.items().len() <= usize::MAX,
        ensures
            len == self.items().len(),
    ;
}

/// One layer of a sequence: an item in front of the items that follow it,
/// or the terminator behind the last item.
///
/// A node holds what follows it as a [`List`], so that its own list is made
/// from what it holds, without storage of its own. A sequence of `n` items
/// is `n` nodes, every one built on the one before, and is never changed
/// once it is built.
#[derive(Debug)]
pub enum Node<'a, T> {
    /// An element in front of the rest of the sequence.
    Cons { value: T, rest: List<'a, T> },
    /// The terminating element.
    Nil,
}

impl<'a, T: Copy> Clone for Node<'a, T> {
    fn clone(&self) -> (copy: Self)
        ensures
            copy == *self,
    {
        *self
    }
}

impl<'a, T: Copy> Copy for Node<'a, T> {

}

impl<'a, T> Node<'a, T> {
    /// The list that a node projects into: its own value in front of the
    /// list that it holds, and the empty list for the terminator.
    pub open spec fn projection(&self) -> List<'_, T> {
        match self {
            Node::Cons { value, rest } => List::Item { head: value, rest: rest },
            Node::Nil => List::Empty,
        }
    }

    /// The terminator: the sequence without items.
    pub fn nil() -> (node: Self)
        ensures
            node == Node::<T>::Nil,
            node.items() == Seq::<T>::empty(),
    {
        Node::Nil
    }

    /// A layer with `value` in front of the sequence `rest`.
    pub fn cons(value: T, rest: &'a Node<'a, T>) -> (node: Self)
        ensures
            node == (Node::Cons { value, rest: rest.projection() }),
            node.items() == seq![value] + rest.items(),
    {
        Node::Cons { value, rest: rest.list() }
    }
}

impl<'a, T> TypeSlice<T> for Node<'a, T> {
    open spec fn items(&self) -> Seq<T> {
        match self {
            Node::Cons { value, rest } => seq![*value] + rest@,
            Node::Nil => Seq::empty(),
        }
    }

    fn list(&self) -> (list: List<'_, T>)
        ensures
            list == self.projection(),
    {
        match self {
            Node::Cons { value, rest } => List::Item { head: value, rest: rest },
            Node::Nil => List::Empty,
        }
    }

    fn len(&self) -> (len: usize) {
        match self {
            Node::Cons { value: _, rest } => 1 + rest.len(),
            Node::Nil => 0,
        }
    }
}

impl<'a, T> TypeSlice<T> for List<'a, T> {
    open spec fn items(&self) -> Seq<T> {
        self@
    }

    fn list(&self) -> (list: List<'_, T>)
        ensures
            list == *self,
    {
        *self
    }

    fn len(&self) -> (len: usize) {
        List::len(self)
    }
}

/// The list of a node has the items of the node, as many and in the order
/// in which they were nested.
pub proof fn lemma_projection_keeps_items<T>(node: Node<T>)
    ensures
        node.projection()@ == node.items(),
        node.projection()@.len() == node.items().len(),
{
    reveal_with_fuel(List::items, 2);
}

/// The terminator has no items. A layer has one item more than the sequence
/// it was put in front of: its value at index 0, and every item of that
/// sequence one index later than before.
pub proof fn lemma_items_as_nested<T>(value: T, rest: Node<T>)
    ensures
        Node::<T>::Nil.items().len() == 0,
        (Node::Cons { value, rest: rest.projection() }).items().len() == 1 + rest.items().len(),
        (Node::Cons { value, rest: rest.projection() }).items()[0] == value,
        forall|i: int|
            0 <= i < rest.items().len() ==> (Node::Cons {
                value,
                rest: rest.projection(),
            }).items()[i + 1] == rest.items()[i],
{
    lemma_projection_keeps_items(rest);
}

} // verus!
