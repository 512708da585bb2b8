//! The closed catalog of element kinds.

use vstd::prelude::*;

verus! {

/// An element kind: the integers of every width, `char` and `bool`.
///
/// Two values of a kind are the same exactly when they are equal as values;
/// nothing about a locale or a letter's case enters into it.
pub trait Primitive: Copy {
    /// Whether `self` and `other` are the same value.
    fn same(&self, other: &Self) -> (eq: bool)
        ensures
            eq == (*self == *other),
    ;
}

impl Primitive for usize {
    fn same(&self, other: &Self) -> (eq: bool) {
        *self == *other
    }
}

impl Primitive for u8 {
    fn same(&self, other: &Self) -> (eq: bool) {
        *self == *other
    }
}

impl Primitive for u16 {
    fn same(&self, other: &Self) -> (eq: bool) {
        *self == *other
    }
}

impl Primitive for u32 {
    fn same(&self, other: &Self) -> (eq: bool) {
        *self == *other
    }
}

impl Primitive for u64 {
    fn same(&self, other: &Self) -> (eq: bool) {
        *self == *other
    }
}

impl Primitive for u128 {
    fn same(&self, other: &Self) -> (eq: bool) {
        *self == *other
    }
}

impl Primitive for isize {
    fn same(&self, other: &Self) -> (eq: bool) {
        *self == *other
    }
}

impl Primitive for i8 {
    fn same(&self, other: &Self) -> (eq: bool) {
        *self == *other
    }
}

impl Primitive for i16 {
    fn same(&self, other: &Self) -> (eq: bool) {
        *self == *other
    }
}

impl Primitive for i32 {
    fn same(&self, other: &Self) -> (eq: bool) {
        *self == *other
    }
}

impl Primitive for i64 {
    fn same(&self, other: &Self) -> (eq: bool) {
        *self == *other
    }
}

impl Primitive for i128 {
    fn same(&self, other: &Self) -> (eq: bool) {
        *self == *other
    }
}

impl Primitive for char {
    fn same(&self, other: &Self) -> (eq: bool) {
        *self == *other
    }
}

impl Primitive for bool {
    fn same(&self, other: &Self) -> (eq: bool) {
        *self == *other
    }
}

} // verus!
