//! The borrowed linked list through which a sequence is inspected.

use vstd::prelude::*;
use crate::bounds::OutOfBounds;
use crate::primitive::Primitive;

verus! {

/// A borrowed, immutable linked list: the bridge between a sequence fixed
/// where it was written and the code that inspects it.
///
/// A list owns nothing. Copying one copies two references, never an item.
#[derive(Debug, PartialEq, Eq, PartialOrd, Ord, Hash)]
pub enum List<'a, T> {
    /// An item and the list of the items after it.
    Item { head: &'a T, rest: &'a List<'a, T> },
    /// The list without items.
    Empty,
}

impl<'a, T> List<'a, T> {
    /// The items of the list, first item first.
    pub open spec fn items(self) -> Seq<T>
        decreases self,
    {
        match self {
            List::Item { head, rest } => seq![*head] + rest.items(),
            List::Empty => Seq::empty(),
        }
    }
}

impl<'a, T> View for List<'a, T> {
    type V = Seq<T>;

    /// The items of the list, first item first.
    open spec fn view(&self) -> Seq<T> {
        self.items()
    }
}

impl<'a, T> Clone for List<'a, T> {
    fn clone(&self) -> (copy: Self)
        ensures
            copy == *self,
    {
        *self
    }
}

impl<'a, T> Copy for List<'a, T> {

}

impl<'a, T> List<'a, T> {
    /// Create an empty list.
    pub fn new() -> (list: Self)
        ensures
            list == List::<T>::Empty,
            list@ == Seq::<T>::empty(),
    {
        List::Empty
    }

    /// Return the number of elements in the list.
    pub fn len(&self) -> (len: usize)
        requires
            self@.len() <= usize::MAX,
        ensures
            len == self@.len(),
        decreases self,
    {
        match self {
            List::Item { head: _, rest } => 1 + rest.len(),
            List::Empty => 0,
        }
    }

    /// Get an item by index: the item at `ix` if the list reaches that far,
    /// and nothing otherwise.
    pub fn get(&self, ix: usize) -> (item: Option<&'a T>)
        ensures
            item == (if ix < self@.len() {
                Some(&self@[ix as int])
            } else {
                None
            }),
        decreases self,
    {
        match self {
            List::Empty => None,
            List::Item { head, rest } => {
                if ix == 0 {
                    Some(*head)
                } else {
                    rest.get(ix - 1)
                }
            },
        }
    }

    /// Returns true if the list has no elements.
    pub fn is_empty(&self) -> (empty: bool)
        ensures
            empty == (*self == List::<T>::Empty),
            empty == (self@.len() == 0),
    {
        matches!(self, List::Empty)
    }

    /// Return `None` if this list is empty, else the next item and its successor.
    pub fn into_option(self) -> (parts: Option<(&'a T, &'a List<'a, T>)>)
        ensures
            parts == (match self {
                List::Item { head, rest } => Some((head, rest)),
                List::Empty => None,
            }),
    {
        match self {
            List::Item { head, rest } => Some((head, rest)),
            List::Empty => None,
        }
    }
}

impl<'a, T> List<'a, T> {
    /// Iterate the elements in the list, first item first.
    pub fn iter(&self) -> (iter: Iter<'a, T>)
        ensures
            iter@ == self@,
    {
        Iter { inner: *self }
    }

    /// The item at `index`, for an index that the list reaches.
    pub fn index(&self, index: usize) -> (item: &'a T)
        requires
            index < self@.len(),
        ensures
            *item == self@[index as int],
    {
        match self.get(index) {
            Some(item) => item,
            None => vstd::pervasive::unreached(),
        }
    }

    /// The item at `index`, or the length and the index that did not fit.
    pub fn try_index(&self, index: usize) -> (found: Result<&'a T, OutOfBounds>)
        ensures
            found == (if index < self@.len() {
                Ok::<&T, OutOfBounds>(&self@[index as int])
            } else {
                Err::<&T, OutOfBounds>(OutOfBounds { len: self@.len() as usize, index })
            }),
    {
        match self.get(index) {
            Some(item) => Ok(item),
            None => Err(OutOfBounds { len: self.len(), index }),
        }
    }
}

/// What [`List::slice_eq`] decides: as many items on both sides, and the
/// same item at every index.
pub open spec fn same_items<T>(list: Seq<T>, slice: Seq<T>) -> bool {
    &&& list.len() == slice.len()
    &&& forall|i: int| 0 <= i < list.len() ==> list[i] == slice[i]
}

impl<'a, T: Primitive> List<'a, T> {
    /// Whether the list holds exactly the items of `slice`, in its order.
    ///
    /// A difference in length is answered at once, before any item is
    /// compared: a list that reaches past the slice is longer, and one that
    /// does not is measured. Otherwise the indices are walked from the last
    /// to the first, each item fetched with [`List::get`], so the stack
    /// stays flat however long the list is.
    pub fn slice_eq(&self, slice: &[T]) -> (eq: bool)
        ensures
            eq == same_items(self@, slice@),
            eq == (self@ == slice@),
    {
        if self.get(slice.len()).is_some() {
            return false;
        }
        if self.len() != slice.len() {
            return false;
        }
        let mut ix: usize = slice.len();
        while ix > 0
            invariant
                ix <= slice@.len(),
                self@.len() == slice@.len(),
                forall|i: int| ix <= i < slice@.len() ==> self@[i] == slice@[i],
            decreases ix,
        {
            let nix: usize = ix - 1;
            match self.get(nix) {
                Some(ours) => {
                    if !ours.same(&slice[nix]) {
                        return false;
                    }
                },
                None => vstd::pervasive::unreached(),
            }
            ix = nix;
        }
        assert(self@ =~= slice@);
        true
    }
}

/// Iterator over the elements in a list.
/// See [`List::iter`].
pub struct Iter<'a, T> {
    inner: List<'a, T>,
}

impl<'a, T> View for Iter<'a, T> {
    type V = Seq<T>;

    /// The items that are still to come, next item first.
    closed spec fn view(&self) -> Seq<T> {
        self.inner@
    }
}

impl<'a, T> Iter<'a, T> {
    /// Hand out the next item and step past it; at the end, hand out nothing
    /// and stay there.
    pub fn next(&mut self) -> (item: Option<&'a T>)
        ensures
            old(self)@.len() == 0 ==> item.is_none() && final(self)@ == old(self)@,
            old(self)@.len() > 0 ==> item == Some(&old(self)@[0]) && final(self)@ == old(
                self,
            )@.skip(1),
    {
        match self.inner.into_option() {
            Some((head, rest)) => {
                self.inner = *rest;
                Some(head)
            },
            None => None,
        }
    }

    /// Walk to the end and gather every item passed on the way, in order.
    pub fn collect(self) -> (items: Vec<&'a T>)
        ensures
            items@.len() == self@.len(),
            forall|i: int| 0 <= i < self@.len() ==> *items@[i] == self@[i],
    {
        let mut walk = self;
        let mut items: Vec<&'a T> = Vec::new();
        loop
            invariant
                items@.len() + walk@.len() == self@.len(),
                walk@ == self@.skip(items@.len() as int),
                forall|i: int| 0 <= i < items@.len() ==> *items@[i] == self@[i],
            decreases walk@.len(),
        {
            match walk.next() {
                Some(item) => {
                    items.push(item);
                },
                None => {
                    return items;
                },
            }
        }
    }

    /// The number of items still to come, as both the lower and the upper bound.
    pub fn size_hint(&self) -> (hint: (usize, Option<usize>))
        requires
            self@.len() <= usize::MAX,
        ensures
            hint.0 == self@.len(),
            hint.1 == Some(self@.len() as usize),
    {
        let left: usize = self.inner.len();
        (left, Some(left))
    }
}

/// A list has the items that its shape says: none where it is empty;
/// otherwise its head at index 0, behind it every item of its rest one
/// index later than in the rest, and so one item more than the rest.
pub proof fn lemma_items_by_shape<T>(list: List<T>)
    ensures
        list is Empty ==> list@.len() == 0,
        list matches List::Item { head, rest } ==> {
            &&& list@.len() == 1 + rest@.len()
            &&& list@[0] == *head
            &&& forall|i: int| 0 <= i < rest@.len() ==> list@[i + 1] == rest@[i]
        },
{
}

/// Comparing item by item decides equality: a list and a slice have the same
/// items exactly when they are the same sequence.
pub proof fn lemma_same_items_is_equality<T>(list: Seq<T>, slice: Seq<T>)
    ensures
        same_items(list, slice) <==> list == slice,
{
    if same_items(list, slice) {
        assert(list =~= slice);
    }
}

/// Comparing does not depend on the side: what holds of a list against a
/// slice holds of the slice against the list.
pub proof fn lemma_same_items_is_symmetric<T>(list: Seq<T>, slice: Seq<T>)
    ensures
        same_items(list, slice) == same_items(slice, list),
{
}

/// The empty list has the same items as the empty slice, and as no other.
pub proof fn lemma_empty_matches_only_empty<T>(slice: Seq<T>)
    ensures
        List::<T>::Empty@.len() == 0,
        same_items(List::<T>::Empty@, slice) <==> slice.len() == 0,
{
}

} // verus!
