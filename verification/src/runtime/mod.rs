//! Runtime-side definitions shared with the compiler.
use vstd::prelude::*;

pub mod heap;
pub mod loader;
pub mod opcodes;
pub mod roundtrip;
pub mod serialization;
pub mod stdlib_runners;
pub mod vm;

verus! {

/// Position, in the list-kinds metadata, of the kind of lists of integers
/// that the standard library creates.
pub const LIST_OF_INTS_META_FLAG: usize = 0;

} // verus!
