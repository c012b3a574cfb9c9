//! Stack-friendly sequence containers with verified contracts.
//!
//! * [`ArrayVec`] is a bounded sequence with a fixed capacity and a compact
//!   length field.
//! * [`SmallVec`] starts out as an [`ArrayVec`] and moves its elements, in
//!   order and exactly once, to a growable vector when it outgrows it.
//! * [`SmallDST`] keeps the metadata words and the payload words of an erased
//!   value side by side in one word buffer.
//!
//! Every container satisfies the [`Vector`] contract, whose operations are
//! specified over the mathematical sequence of the live elements.
pub mod array;
pub mod array_vec;
pub mod small_dst;
pub mod small_vec;
pub mod vector;

pub use array::{Array, ArrayIndex, Capacity, IndexFor};
pub use array_vec::{ArrayVec, ArrayVecIntoIter};
pub use small_dst::SmallDST;
pub use small_vec::{SmallVec, SmallVecIter, Spilled, Storage};
pub use vector::Vector;
