//! Vectors and slices whose elements are reached through a key type of the caller's own,
//! so that a key meant for one collection cannot index an unrelated one by mistake.
use vstd::prelude::*;

pub mod index;
pub mod lemmas;
pub mod range;
pub mod slice;
pub mod vec;

pub use range::TiRange;
pub use slice::{TiBoxedSlice, TiSlice, TiSliceMut};
pub use vec::TiVec;

verus! {

} // verus!
