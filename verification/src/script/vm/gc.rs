use vstd::prelude::*;

verus! {

/// Identifies an object of the heap.
#[derive(Debug, Clone, Copy, PartialEq, Eq, Structural)]
pub struct ObjectId(pub usize);

} // verus!
