//! From a literal to the nesting that spells it.
//!
//! A literal of `n` values expands to `n` layers, one inside the other, the
//! first value outermost and a terminator innermost. Nothing here looks at
//! source text or writes any: a caller hands in the values of a literal and
//! turns the nesting that comes back into whatever form it needs.

use vstd::prelude::*;

verus! {

/// The nesting that a literal expands to.
#[derive(Debug, PartialEq, Eq)]
pub enum Expansion<T> {
    /// A value, and inside it the nesting of the values after it.
    Cons(T, Box<Expansion<T>>),
    /// The innermost layer, behind the last value.
    Nil,
}

impl<T> Expansion<T> {
    /// The values of the nesting, outermost first.
    pub open spec fn items(self) -> Seq<T>
        decreases self,
    {
        match self {
            Expansion::Cons(value, rest) => seq![value] + rest.items(),
            Expansion::Nil => Seq::empty(),
        }
    }

    /// The number of layers around the terminator.
    pub open spec fn depth(self) -> nat
        decreases self,
    {
        match self {
            Expansion::Cons(_, rest) => 1 + rest.depth(),
            Expansion::Nil => 0,
        }
    }
}

/// A nesting has one layer for every one of its values.
pub proof fn lemma_depth_is_number_of_items<T>(root: Expansion<T>)
    ensures
        root.depth() == root.items().len(),
    decreases root,
{
    match root {
        Expansion::Cons(_, rest) => lemma_depth_is_number_of_items(*rest),
        Expansion::Nil => {},
    }
}

/// Nest `items`, the first of them outermost.
pub fn nest<T: Copy>(items: &[T]) -> (root: Expansion<T>)
    ensures
        root.items() == items@,
        root.depth() == items@.len(),
{
    let mut root: Expansion<T> = Expansion::Nil;
    let mut ix: usize = items.len();
    while ix > 0
        invariant
            ix <= items@.len(),
            root.items() == items@.skip(ix as int),
        decreases ix,
    {
        ix = ix - 1;
        root = Expansion::Cons(items[ix], Box::new(root));
    }
    proof {
        lemma_depth_is_number_of_items(root);
    }
    root
}

/// The nesting for a string literal: a layer for every `char` of the text,
/// and the bare terminator where there is no literal or an empty one.
pub fn expand_chars(lit: Option<&str>) -> (root: Expansion<char>)
    ensures
        root.items() == (match lit {
            Some(text) => text@,
            None => Seq::<char>::empty(),
        }),
        root.depth() == root.items().len(),
{
    match lit {
        Some(text) => {
            let mut chars: Vec<char> = Vec::new();
            for c in walk: text.chars()
                invariant
                    walk.seq() == text@,
                    chars@ == text@.take(walk.index() as int),
            {
                chars.push(c);
            }
            nest(chars.as_slice())
        },
        None => Expansion::Nil,
    }
}

/// The nesting for a byte string literal: a layer for every byte, and the
/// bare terminator where there is no literal or an empty one.
pub fn expand_bytes(lit: Option<&[u8]>) -> (root: Expansion<u8>)
    ensures
        root.items() == (match lit {
            Some(bytes) => bytes@,
            None => Seq::<u8>::empty(),
        }),
        root.depth() == root.items().len(),
{
    match lit {
        Some(bytes) => nest(bytes),
        None => Expansion::Nil,
    }
}

} // verus!
