//! Slices of primitives whose shape is fixed where they are written down.
//!
//! A sequence is built by nesting: every [`Node`] holds one value and the
//! items that follow it. Consumers inspect a sequence through its [`List`],
//! a borrowed linked list that can be measured, indexed, walked and compared
//! with an ordinary slice, all without allocating.
//!
//! Beside the sequences stand
//! - a tree of byte-producing leaves that flattens into a buffer ([`concat`]),
//! - a decoder for the first scalar of a UTF-8 byte sequence ([`utf8`]),
//! - the nesting that a string or byte string literal expands to ([`expand`]).

pub mod bounds;
pub mod concat;
pub mod expand;
pub mod list;
pub mod primitive;
pub mod types;
pub mod utf8;

pub use bounds::OutOfBounds;
pub use concat::{Bytes, Concat};
pub use expand::Expansion;
pub use list::{Iter, List};
pub use primitive::Primitive;
pub use types::{Node, TypeSlice};
pub use utf8::{pop, Pop};
