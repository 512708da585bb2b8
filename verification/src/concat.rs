//! A tree of byte-producing leaves that flattens into one contiguous run.

use vstd::prelude::*;

verus! {

/// A tree whose leaves are single bytes and whose inner nodes join two
/// subtrees, left before right.
///
/// The tree borrows its subtrees, so building one allocates nothing. Its
/// length is settled by its shape alone, and is known before a single byte
/// is written anywhere. A subtree may stand in many places at once, so a
/// tree may spell far more bytes than it has nodes; a tree is only ever
/// built where a `usize` can hold its length.
#[derive(Debug, Clone, Copy)]
pub struct Concat<'a> {
    shape: Shape<'a>,
    len: usize,
}

#[derive(Debug, Clone, Copy)]
enum Shape<'a> {
    /// The tree without bytes.
    Empty,
    /// A single byte.
    Byte(u8),
    /// The bytes of the left subtree, then the bytes of the right one.
    Join(&'a Concat<'a>, &'a Concat<'a>),
}

impl<'a> Concat<'a> {
    /// The bytes of the tree, read left to right.
    pub closed spec fn bytes_of(self) -> Seq<u8>
        decreases self,
    {
        match self.shape {
            Shape::Empty => Seq::empty(),
            Shape::Byte(byte) => seq![byte],
            Shape::Join(left, right) => left.bytes_of() + right.bytes_of(),
        }
    }

    #[verifier::type_invariant]
    spec fn counted(self) -> bool {
        self.len == self.bytes_of().len()
    }
}

impl<'a> View for Concat<'a> {
    type V = Seq<u8>;

    /// The bytes of the tree, read left to right.
    open spec fn view(&self) -> Seq<u8> {
        self.bytes_of()
    }
}

impl<'a> Concat<'a> {
    /// The tree without bytes.
    pub fn empty() -> (tree: Self)
        ensures
            tree@ == Seq::<u8>::empty(),
    {
        Concat { shape: Shape::Empty, len: 0 }
    }

    /// The tree of the single byte `byte`.
    pub fn byte(byte: u8) -> (tree: Self)
        ensures
            tree@ == seq![byte],
    {
        Concat { shape: Shape::Byte(byte), len: 1 }
    }

    /// The tree of the bytes of `left` followed by the bytes of `right`, or
    /// nothing where the two together are more than a `usize` can count.
    pub fn join(left: &'a Concat<'a>, right: &'a Concat<'a>) -> (joined: Option<Self>)
        ensures
            left@.len() + right@.len() <= usize::MAX ==> joined.is_some() && joined.unwrap()@
                == left@ + right@,
            left@.len() + right@.len() > usize::MAX ==> joined.is_none(),
    {
        proof {
            use_type_invariant(left);
            use_type_invariant(right);
        }
        match left.len.checked_add(right.len) {
            Some(len) => Some(Concat { shape: Shape::Join(left, right), len }),
            None => None,
        }
    }

    /// The number of bytes in the tree.
    pub fn len(&self) -> (len: usize)
        ensures
            len == self@.len(),
    {
        proof {
            use_type_invariant(self);
        }
        self.len
    }

    /// Write the bytes of the tree into the front of `buffer` and hand back
    /// the part of `buffer` behind them, untouched.
    pub fn write_into<'b>(&self, buffer: &'b mut [u8]) -> (rest: &'b mut [u8])
        requires
            self@.len() <= old(buffer)@.len(),
        ensures
            rest@ == old(buffer)@.skip(self@.len() as int),
            final(buffer)@ == self@ + final(rest)@,
        decreases self,
    {
        match &self.shape {
            Shape::Empty => {
                buffer
            },
            Shape::Byte(byte) => {
                let (head, tail) = buffer.split_at_mut(1);
                head[0] = *byte;
                tail
            },
            Shape::Join(left, right) => {
                match (&left.shape, &right.shape) {
                    (Shape::Byte(first), Shape::Byte(second)) => {
                        assert(self@ =~= seq![*first, *second]) by {
                            reveal_with_fuel(Concat::bytes_of, 2);
                        }
                        let (head, tail) = buffer.split_at_mut(2);
                        head[0] = *first;
                        head[1] = *second;
                        tail
                    },
                    _ => {
                        let behind_left = left.write_into(buffer);
                        right.write_into(behind_left)
                    },
                }
            },
        }
    }

    /// Whether the tree has as many bytes as `candidate`: the cheap test
    /// to make before comparing contents.
    pub fn equal_len(&self, candidate: &[u8]) -> (equal: bool)
        ensures
            equal == (self@.len() == candidate@.len()),
    {
        self.len() == candidate.len()
    }

    /// The bytes of the tree in a buffer of their own, exactly as long as
    /// the tree.
    pub fn to_owned_bytes(&self) -> (bytes: Vec<u8>)
        ensures
            bytes@ == self@,
            bytes@.len() == self@.len(),
    {
        let mut bytes: Vec<u8> = vec![0u8; self.len()];
        let rest = self.write_into(bytes.as_mut_slice());
        bytes
    }

    /// The byte at `ix`, counted from the left, if the tree reaches that far.
    fn seek(&self, ix: usize) -> (found: Option<u8>)
        ensures
            found == (if ix < self@.len() {
                Some(self@[ix as int])
            } else {
                None
            }),
        decreases self,
    {
        match &self.shape {
            Shape::Empty => None,
            Shape::Byte(byte) => {
                if ix == 0 {
                    Some(*byte)
                } else {
                    None
                }
            },
            Shape::Join(left, right) => {
                let of_left: usize = left.len();
                if ix < of_left {
                    left.seek(ix)
                } else {
                    right.seek(ix - of_left)
                }
            },
        }
    }

    /// Walk the bytes of the tree from left to right, one at a time and
    /// without a buffer. Every call starts a fresh walk.
    pub fn bytes(&'a self) -> (walk: Bytes<'a>)
        ensures
            walk@ == self@,
    {
        Bytes { tree: self, at: 0 }
    }
}

/// A walk over the bytes of a [`Concat`].
/// See [`Concat::bytes`].
pub struct Bytes<'a> {
    tree: &'a Concat<'a>,
    at: usize,
}

impl<'a> View for Bytes<'a> {
    type V = Seq<u8>;

    /// The bytes that are still to come, next byte first.
    closed spec fn view(&self) -> Seq<u8> {
        self.tree@.skip(self.at as int)
    }
}

impl<'a> Bytes<'a> {
    #[verifier::type_invariant]
    spec fn within_tree(self) -> bool {
        self.at <= self.tree@.len()
    }

    /// Hand out the next byte and step past it; at the end, hand out nothing
    /// and stay there.
    pub fn next(&mut self) -> (byte: Option<u8>)
        ensures
            old(self)@.len() == 0 ==> byte.is_none() && final(self)@ == old(self)@,
            old(self)@.len() > 0 ==> byte == Some(old(self)@[0]) && final(self)@ == old(
                self,
            )@.skip(1),
    {
        proof {
            use_type_invariant(&*self);
            use_type_invariant(self.tree);
        }
        match self.tree.seek(self.at) {
            Some(byte) => {
                self.at = self.at + 1;
                Some(byte)
            },
            None => None,
        }
    }

    /// The number of bytes still to come, as both the lower and the upper bound.
    pub fn size_hint(&self) -> (hint: (usize, Option<usize>))
        ensures
            hint.0 == self@.len(),
            hint.1 == Some(self@.len() as usize),
    {
        proof {
            use_type_invariant(self);
        }
        let left: usize = self.tree.len() - self.at;
        (left, Some(left))
    }
}

/// However three trees are grouped into one, the bytes come out in the same
/// order: those of the first, then those of the second, then those of the
/// third.
pub proof fn lemma_grouping_keeps_order(
    a: Concat,
    b: Concat,
    c: Concat,
    ab: Concat,
    bc: Concat,
    left_first: Concat,
    right_first: Concat,
)
    requires
        ab@ == a@ + b@,
        bc@ == b@ + c@,
        left_first@ == ab@ + c@,
        right_first@ == a@ + bc@,
    ensures
        left_first@ == right_first@,
        left_first@ == a@ + b@ + c@,
{
}

/// A tree that joins two others has the bytes of both and no others, so it
/// is as long as both together; joining the empty tree to either side of a
/// tree adds nothing to it.
pub proof fn lemma_join_adds_lengths(left: Concat, right: Concat, joined: Concat)
    requires
        joined@ == left@ + right@,
    ensures
        joined@.len() == left@.len() + right@.len(),
        left@.len() == 0 ==> joined@ == right@,
        right@.len() == 0 ==> joined@ == left@,
{
}

} // verus!
