//! Work requests and completions.
use vstd::prelude::*;

use crate::memory::LKey;
use crate::opcode::Opcode;

verus! {

/// The number by which a caller recognises a work request.
#[derive(Debug, Clone, Copy, PartialEq, Eq, Hash, Structural)]
pub struct WorkRequestId(pub u64);

/// A stretch of a local memory region.
#[derive(Debug, Clone, Copy, PartialEq, Eq, Structural)]
pub struct ScatterGatherEntry {
    pub lkey: LKey,
    pub offset: u64,
    pub length: u32,
}

/// How a work request ended.
#[derive(Debug, Clone, Copy, PartialEq, Eq, Structural)]
pub struct CompletionQueueEntry {
    pub wrid: WorkRequestId,
    pub status: u16,
    pub opcode: Opcode,
    pub vendor_error: u32,
    pub byte_count: u32,
    pub qp_number: u32,
}

} // verus!
