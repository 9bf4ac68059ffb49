//! The header that opens every frame.
use vstd::prelude::*;

use crate::opcode::Opcode;
use crate::RDOWS_VERSION;

verus! {

/// The fixed header of a frame.
#[derive(Debug, Clone, Copy, PartialEq, Eq, Structural)]
pub struct RdowsHeader {
    pub version: u8,
    pub opcode: Opcode,
    pub flags: u16,
    pub session_id: u32,
    pub sequence: u32,
    pub wrid: u64,
    /// Number of payload bytes that follow the header, set when the frame is
    /// encoded.
    pub payload_length: u32,
}

impl RdowsHeader {
    /// The header that `new` builds.
    pub open spec fn spec_new(
        opcode: Opcode,
        session_id: u32,
        sequence: u32,
        wrid: u64,
    ) -> RdowsHeader {
        RdowsHeader {
            version: RDOWS_VERSION,
            opcode,
            flags: 0,
            session_id,
            sequence,
            wrid,
            payload_length: 0,
        }
    }

    /// A header of the current protocol version, with no flag set and the
    /// payload length still open.
    pub fn new(opcode: Opcode, session_id: u32, sequence: u32, wrid: u64) -> (r: RdowsHeader)
        ensures
            r == RdowsHeader::spec_new(opcode, session_id, sequence, wrid),
    {
        RdowsHeader {
            version: RDOWS_VERSION,
            opcode,
            flags: 0,
            session_id,
            sequence,
            wrid,
            payload_length: 0,
        }
    }
}

/// The sequence number after `seq`: numbers wrap from the largest to zero.
pub open spec fn next_sequence(seq: u32) -> u32 {
    if seq == u32::MAX {
        0
    } else {
        (seq + 1) as u32
    }
}

/// The sequence number `count` frames after `seq`.
pub open spec fn sequence_after(seq: u32, count: nat) -> u32
    decreases count,
{
    if count == 0 {
        seq
    } else {
        next_sequence(sequence_after(seq, (count - 1) as nat))
    }
}

/// Sequence numbers count the frames modulo the size of the field.
pub proof fn law_sequence_counts(seq: u32, count: nat)
    ensures
        sequence_after(seq, count) == (seq + count) % 0x1_0000_0000,
    decreases count,
{
    if count > 0 {
        law_sequence_counts(seq, (count - 1) as nat);
    }
}

/// The number after a sequence number is one more, and zero after the largest.
pub proof fn law_next_sequence(seq: u32)
    ensures
        next_sequence(seq) == (seq + 1) % 0x1_0000_0000,
{
}

/// A new header is of this protocol's version, carries what it was given, sets no
/// flag and leaves the payload's length open.
pub proof fn law_new_header(opcode: Opcode, session_id: u32, sequence: u32, wrid: u64)
    ensures
        ({
            let h = RdowsHeader::spec_new(opcode, session_id, sequence, wrid);
            &&& h.version == 1
            &&& h.opcode == opcode
            &&& h.flags == 0
            &&& h.session_id == session_id
            &&& h.sequence == sequence
            &&& h.wrid == wrid
            &&& h.payload_length == 0
        }),
{
}

/// `RdowsHeader::new` keeps what it is given.
pub proof fn law_header_call(
    opcode: Opcode,
    session_id: u32,
    sequence: u32,
    wrid: u64,
    h: RdowsHeader,
)
    requires
        call_ensures(RdowsHeader::new, (opcode, session_id, sequence, wrid), h),
    ensures
        h.version == 1,
        h.opcode == opcode,
        h.flags == 0,
        h.session_id == session_id,
        h.sequence == sequence,
        h.wrid == wrid,
        h.payload_length == 0,
{
}

} // verus!
