//! Constants of the task state segment.
use vstd::prelude::*;

verus! {

/// The interrupt stack table slot that the double-fault handler runs on.
pub const DOUBLE_FLT_IDX: u16 = 0;

/// The size in bytes of the stack reserved for the double-fault handler.
pub const DOUBLE_FLT_STACK_SIZE: usize = 4096 * 5;

} // verus!
