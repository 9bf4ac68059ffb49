//! What each verb sends, reports and changes, field by field.
use vstd::prelude::*;

use super::model;
use super::model::{ConnectionModel, PostedModel, RegionModel};
use super::verbs::{MemoryRegionHandle, PostedRequest};
use crate::connection::ConnectionParams;
use crate::error;
use crate::error::{ErrorCode, RdowsError};
use crate::frame::RdowsHeader;
use crate::memory::{AccessFlags, LKey, RKey};
use crate::message::{AtomicReqPayload, MessageModel, MrDeregPayload, MrRegPayload, ReadReqPayload};
use crate::opcode::Opcode;
use crate::queue::{CompletionQueueEntry, ScatterGatherEntry, WorkRequestId};

verus! {

// ---------------------------------------------------------------------------
// The start of a session, and the numbering of frames
// ---------------------------------------------------------------------------

/// A session starts with what the two sides agreed on: the server's credits, the
/// server's next number, an empty queue and no region; its own next frame is
/// number one.
pub proof fn law_session_starts_as_agreed(params: ConnectionParams, cq_capacity: nat)
    ensures
        ({
            let c = model::fresh(params, cq_capacity);
            &&& c.session_id == params.session_id
            &&& c.pd == params.pd
            &&& c.max_msg_size == params.max_msg_size
            &&& c.send_credits == params.icc
            &&& c.expected_remote_seq == Some(params.initial_remote_seq)
            &&& c.next_seq == 1
            &&& c.completions.len() == 0
            &&& c.cq_capacity == cq_capacity
            &&& forall|k: u32| !c.regions.contains_key(k)
        }),
{
}

/// A frame carries the protocol's version, the session's number, the next number
/// of the session and the work request's number; numbering it moves the session
/// on to the number after it, modulo the size of the field, and changes nothing
/// else.
pub proof fn law_frame_numbering(conn: ConnectionModel, opcode: Opcode, wrid: u64)
    ensures
        conn.header(opcode, wrid) == (RdowsHeader {
            version: 1,
            opcode,
            flags: 0,
            session_id: conn.session_id,
            sequence: conn.next_seq,
            wrid,
            payload_length: 0,
        }),
        conn.numbered() == (ConnectionModel {
            next_seq: ((conn.next_seq + 1) % 0x1_0000_0000) as u32,
            ..conn
        }),
{
}

/// A frame of the remote side is taken in if it carries the number expected, or
/// if none is expected yet. Then the number after it is expected, a grant adds
/// its credits and is kept from the caller, any other frame is for the caller,
/// and nothing else changes. A frame with another number changes nothing.
pub proof fn law_frame_is_taken_in(conn: ConnectionModel, msg: MessageModel)
    requires
        msg matches MessageModel::CreditUpdate(h, p) ==> {
            ||| conn.expected_remote_seq is Some && conn.expected_remote_seq != Some(h.sequence)
            ||| conn.send_credits + p.credit_increment <= u32::MAX
        },
    ensures
        ({
            let seq = msg.header().sequence;
            let (after, r) = conn.taken_in(msg);
            let granted: int = match msg {
                MessageModel::CreditUpdate(_, p) => p.credit_increment as int,
                _ => 0,
            };
            if conn.expected_remote_seq is None || conn.expected_remote_seq == Some(seq) {
                &&& r == Ok::<bool, RdowsError>(!(msg is CreditUpdate))
                &&& after.send_credits == conn.send_credits + granted
                &&& after == (ConnectionModel {
                    expected_remote_seq: Some(((seq + 1) % 0x1_0000_0000) as u32),
                    send_credits: after.send_credits,
                    ..conn
                })
            } else {
                &&& r == Err::<bool, RdowsError>(RdowsError::Protocol(ErrorCode::ErrSeqGap))
                &&& after == conn
            }
        }),
{
}

// ---------------------------------------------------------------------------
// The completion queue
// ---------------------------------------------------------------------------

/// A poll takes as many completions as were asked for, or all there are, from
/// the front of the queue; the others stay, in their order, and nothing else
/// changes.
pub proof fn law_poll_takes_the_oldest(conn: ConnectionModel, max: usize)
    ensures
        ({
            let taken = conn.completions.take(conn.polled_count(max));
            let after = conn.polled(max);
            &&& taken.len() <= max
            &&& taken.len() == max || after.completions.len() == 0
            &&& taken + after.completions == conn.completions
            &&& after == (ConnectionModel { completions: after.completions, ..conn })
        }),
{
    let n = conn.polled_count(max);
    assert(conn.completions.take(n) + conn.completions.skip(n) =~= conn.completions);
}

/// The queue is full once as many completions wait as it has places.
pub proof fn law_full_queue(conn: ConnectionModel)
    ensures
        conn.cq_full() <==> conn.completions.len() >= conn.cq_capacity,
{
}

// ---------------------------------------------------------------------------
// Gathering
// ---------------------------------------------------------------------------

/// The stretch names a known region and lies inside it.
pub open spec fn stretch_lies_in(
    regions: Map<u32, RegionModel>,
    sg: ScatterGatherEntry,
) -> bool {
    regions.contains_key(sg.lkey.0) && (sg.offset as usize) + sg.length
        <= regions[sg.lkey.0].bytes.len()
}

/// The lengths of all stretches, added up.
pub open spec fn lengths(sg_list: Seq<ScatterGatherEntry>) -> nat
    decreases sg_list.len(),
{
    if sg_list.len() == 0 {
        0
    } else {
        sg_list[0].length as nat + lengths(sg_list.skip(1))
    }
}

proof fn lemma_lengths_push(sg_list: Seq<ScatterGatherEntry>)
    requires
        sg_list.len() > 0,
    ensures
        lengths(sg_list) == lengths(sg_list.drop_last()) + sg_list.last().length,
    decreases sg_list.len(),
{
    if sg_list.len() == 1 {
        assert(sg_list.skip(1) =~= sg_list.drop_last());
    } else {
        lemma_lengths_push(sg_list.skip(1));
        assert(sg_list.skip(1).drop_last() =~= sg_list.drop_last().skip(1));
    }
}

/// If every stretch lies in its region, gathering gives as many bytes as the
/// stretches are long together, and the bytes of stretch `i` stand behind those
/// of the stretches before it, as they lie in its region.
pub proof fn law_gathered_bytes(
    regions: Map<u32, RegionModel>,
    sg_list: Seq<ScatterGatherEntry>,
    i: int,
    j: int,
)
    requires
        forall|n: int|
            0 <= n < sg_list.len() ==> stretch_lies_in(regions, #[trigger] sg_list[n]),
        0 <= i < sg_list.len(),
        0 <= j < sg_list[i].length,
    ensures
        ({
            let sg = sg_list[i];
            &&& model::gathered(regions, sg_list) matches Ok(bytes)
            &&& bytes.len() == lengths(sg_list)
            &&& lengths(sg_list.take(i)) + j < bytes.len()
            &&& bytes[lengths(sg_list.take(i)) + j] == regions[sg.lkey.0].bytes[(
                sg.offset as usize) + j]
        }),
    decreases sg_list.len(),
{
    let head = sg_list.drop_last();
    law_gathered_length(regions, sg_list);
    law_gathered_length(regions, head);
    lemma_lengths_push(sg_list);
    if i < head.len() {
        law_gathered_bytes(regions, head, i, j);
        assert(head.take(i) =~= sg_list.take(i));
    } else {
        assert(sg_list.take(i) =~= head);
    }
}

/// If every stretch lies in its region, gathering succeeds with as many bytes as
/// the stretches are long together.
pub proof fn law_gathered_length(
    regions: Map<u32, RegionModel>,
    sg_list: Seq<ScatterGatherEntry>,
)
    requires
        forall|n: int|
            0 <= n < sg_list.len() ==> stretch_lies_in(regions, #[trigger] sg_list[n]),
    ensures
        model::gathered(regions, sg_list) matches Ok(bytes) && bytes.len() == lengths(sg_list),
    decreases sg_list.len(),
{
    if sg_list.len() > 0 {
        let head = sg_list.drop_last();
        assert forall|n: int| 0 <= n < head.len() implies stretch_lies_in(
            regions,
            #[trigger] head[n],
        ) by {
            assert(head[n] == sg_list[n]);
        }
        law_gathered_length(regions, head);
        lemma_lengths_push(sg_list);
        assert(stretch_lies_in(regions, sg_list[sg_list.len() - 1]));
    }
}

/// Gathering one list behind another gives the bytes of the one behind those of
/// the other.
pub proof fn law_gathered_one_behind_another(
    regions: Map<u32, RegionModel>,
    a: Seq<ScatterGatherEntry>,
    b: Seq<ScatterGatherEntry>,
    x: Seq<u8>,
    y: Seq<u8>,
)
    requires
        model::gathered(regions, a) == Ok::<Seq<u8>, ErrorCode>(x),
        model::gathered(regions, b) == Ok::<Seq<u8>, ErrorCode>(y),
    ensures
        model::gathered(regions, a + b) == Ok::<Seq<u8>, ErrorCode>(x + y),
    decreases b.len(),
{
    if b.len() == 0 {
        assert(a + b =~= a);
        assert(x + y =~= x);
    } else {
        let head = b.drop_last();
        let z = model::gathered(regions, head)->Ok_0;
        law_gathered_one_behind_another(regions, a, head, x, z);
        assert((a + b).drop_last() =~= a + head);
        let sg = b.last();
        let piece = regions[sg.lkey.0].bytes.subrange(
            model::stretch_start(sg),
            model::stretch_end(sg),
        );
        assert(x + (z + piece) =~= (x + z) + piece);
    }
}

/// Gathering one stretch gives the bytes of its region from its offset on, as
/// many as it is long.
pub proof fn law_gathered_stretch(regions: Map<u32, RegionModel>, sg: ScatterGatherEntry)
    requires
        stretch_lies_in(regions, sg),
    ensures
        ({
            let at = (sg.offset as usize) as int;
            model::gathered(regions, seq![sg]) == Ok::<Seq<u8>, ErrorCode>(
                regions[sg.lkey.0].bytes.subrange(at, at + sg.length),
            )
        }),
{
    reveal_with_fuel(model::gathered, 2);
    let at = (sg.offset as usize) as int;
    assert(seq![sg].drop_last() =~= Seq::<ScatterGatherEntry>::empty());
    assert(Seq::<u8>::empty() + regions[sg.lkey.0].bytes.subrange(at, at + sg.length)
        =~= regions[sg.lkey.0].bytes.subrange(at, at + sg.length));
}

/// Gathering nothing gives nothing, and fails with nothing.
pub proof fn law_gathered_nothing(regions: Map<u32, RegionModel>)
    ensures
        model::gathered(regions, Seq::empty()) matches Ok(bytes) && bytes.len() == 0,
{
}

/// Gathering fails at the first stretch that names no region or leaves its
/// region, with the error for it, whatever follows.
pub proof fn law_gathering_fails_at_first_bad_stretch(
    regions: Map<u32, RegionModel>,
    sg_list: Seq<ScatterGatherEntry>,
    i: int,
)
    requires
        0 <= i < sg_list.len(),
        forall|n: int| 0 <= n < i ==> stretch_lies_in(regions, #[trigger] sg_list[n]),
        !stretch_lies_in(regions, sg_list[i]),
    ensures
        model::gathered(regions, sg_list) == Err::<Seq<u8>, ErrorCode>(
            if regions.contains_key(sg_list[i].lkey.0) {
                ErrorCode::ErrBounds
            } else {
                ErrorCode::ErrInvalidLkey
            },
        ),
    decreases sg_list.len(),
{
    let head = sg_list.drop_last();
    if i < head.len() {
        assert forall|n: int| 0 <= n < i implies stretch_lies_in(regions, #[trigger] head[n]) by {
            assert(head[n] == sg_list[n]);
        }
        law_gathering_fails_at_first_bad_stretch(regions, head, i);
    } else {
        assert forall|n: int| 0 <= n < head.len() implies stretch_lies_in(
            regions,
            #[trigger] head[n],
        ) by {
            assert(head[n] == sg_list[n]);
        }
        law_gathered_length(regions, head);
    }
}

// ---------------------------------------------------------------------------
// What is sent
// ---------------------------------------------------------------------------

/// A message whose stretches lie in their regions is sent in two frames, numbered
/// one after the other: the list of stretches, then the bytes of the stretches,
/// all of them and in turn. Its byte count is their number.
pub proof fn law_message_carries_its_stretches(
    conn: ConnectionModel,
    wrid: u64,
    sg_list: Seq<ScatterGatherEntry>,
)
    requires
        conn.completions.len() < conn.cq_capacity,
        conn.send_credits > 0,
        forall|n: int|
            0 <= n < sg_list.len() ==> stretch_lies_in(conn.regions, #[trigger] sg_list[n]),
    ensures
        ({
            let (after, r) = conn.send_posted(wrid, sg_list);
            &&& r matches Ok(p)
            &&& p.request == MessageModel::Send(
                RdowsHeader {
                    version: 1,
                    opcode: Opcode::Send,
                    flags: 0,
                    session_id: conn.session_id,
                    sequence: conn.next_seq,
                    wrid,
                    payload_length: 0,
                },
                sg_list,
            )
            &&& p.data matches MessageModel::SendData(header, bytes)
            &&& header == (RdowsHeader {
                version: 1,
                opcode: Opcode::SendData,
                flags: 0,
                session_id: conn.session_id,
                sequence: ((conn.next_seq + 1) % 0x1_0000_0000) as u32,
                wrid,
                payload_length: 0,
            })
            &&& bytes.len() == lengths(sg_list)
            &&& Ok::<Seq<u8>, ErrorCode>(bytes) == model::gathered(conn.regions, sg_list)
            &&& p.byte_count == bytes.len() as u32
            &&& after == (ConnectionModel {
                next_seq: ((conn.next_seq + 2) % 0x1_0000_0000) as u32,
                ..conn
            })
        }),
{
    law_gathered_length(conn.regions, sg_list);
}

/// A message of one stretch carries the bytes of the local region from the
/// stretch's offset on.
pub proof fn law_message_of_one_stretch(
    conn: ConnectionModel,
    wrid: u64,
    sg: ScatterGatherEntry,
)
    requires
        conn.completions.len() < conn.cq_capacity,
        conn.send_credits > 0,
        stretch_lies_in(conn.regions, sg),
    ensures
        ({
            let at = (sg.offset as usize) as int;
            &&& conn.send_posted(wrid, seq![sg]).1 matches Ok(p)
            &&& p.data matches MessageModel::SendData(_, bytes)
            &&& bytes == conn.regions[sg.lkey.0].bytes.subrange(at, at + sg.length)
            &&& p.byte_count == sg.length
        }),
{
    law_gathered_stretch(conn.regions, sg);
    assert(seq![sg][0] == sg);
    law_message_carries_its_stretches(conn, wrid, seq![sg]);
}

/// A message whose stretches cannot be gathered is not sent: the error is that of
/// gathering, and nothing changes.
pub proof fn law_ungathered_message_is_not_sent(
    conn: ConnectionModel,
    wrid: u64,
    rkey: RKey,
    remote_va: u64,
    sg_list: Seq<ScatterGatherEntry>,
    code: ErrorCode,
)
    requires
        conn.completions.len() < conn.cq_capacity,
        model::gathered(conn.regions, sg_list) == Err::<Seq<u8>, ErrorCode>(code),
    ensures
        conn.send_credits > 0 ==> conn.send_posted(wrid, sg_list) == (
            conn,
            Err::<PostedModel, RdowsError>(RdowsError::Protocol(code)),
        ),
        conn.write_posted(wrid, rkey, remote_va, sg_list) == (
            conn,
            Err::<PostedModel, RdowsError>(RdowsError::Protocol(code)),
        ),
{
}

/// A write whose stretches lie in their regions is sent in two frames, numbered
/// one after the other: the place in the remote region, the length and the list
/// of stretches, then the bytes of the stretches, all of them and in turn.
pub proof fn law_write_carries_its_stretches(
    conn: ConnectionModel,
    wrid: u64,
    rkey: RKey,
    remote_va: u64,
    sg_list: Seq<ScatterGatherEntry>,
)
    requires
        conn.completions.len() < conn.cq_capacity,
        forall|n: int|
            0 <= n < sg_list.len() ==> stretch_lies_in(conn.regions, #[trigger] sg_list[n]),
        lengths(sg_list) <= u64::MAX,
    ensures
        ({
            let (after, r) = conn.write_posted(wrid, rkey, remote_va, sg_list);
            &&& r matches Ok(p)
            &&& p.request == MessageModel::Write(
                RdowsHeader {
                    version: 1,
                    opcode: Opcode::Write,
                    flags: 0,
                    session_id: conn.session_id,
                    sequence: conn.next_seq,
                    wrid,
                    payload_length: 0,
                },
                rkey,
                remote_va,
                lengths(sg_list) as u64,
                sg_list,
            )
            &&& p.data matches MessageModel::WriteData(header, bytes)
            &&& header == (RdowsHeader {
                version: 1,
                opcode: Opcode::WriteData,
                flags: 0,
                session_id: conn.session_id,
                sequence: ((conn.next_seq + 1) % 0x1_0000_0000) as u32,
                wrid,
                payload_length: 0,
            })
            &&& bytes.len() == lengths(sg_list)
            &&& Ok::<Seq<u8>, ErrorCode>(bytes) == model::gathered(conn.regions, sg_list)
            &&& p.byte_count == bytes.len() as u32
            &&& after == (ConnectionModel {
                next_seq: ((conn.next_seq + 2) % 0x1_0000_0000) as u32,
                ..conn
            })
        }),
{
    law_gathered_length(conn.regions, sg_list);
}

/// A write of one stretch carries the bytes of the local region from the
/// stretch's offset on.
pub proof fn law_write_of_one_stretch(
    conn: ConnectionModel,
    wrid: u64,
    rkey: RKey,
    remote_va: u64,
    sg: ScatterGatherEntry,
)
    requires
        conn.completions.len() < conn.cq_capacity,
        stretch_lies_in(conn.regions, sg),
    ensures
        ({
            let at = (sg.offset as usize) as int;
            &&& conn.write_posted(wrid, rkey, remote_va, seq![sg]).1 matches Ok(p)
            &&& p.data matches MessageModel::WriteData(_, bytes)
            &&& bytes == conn.regions[sg.lkey.0].bytes.subrange(at, at + sg.length)
            &&& p.byte_count == sg.length
        }),
{
    law_gathered_stretch(conn.regions, sg);
}

/// A read is one frame with what was asked for, and numbers nothing else.
pub proof fn law_read_request(conn: ConnectionModel, wrid: u64, payload: ReadReqPayload)
    requires
        conn.completions.len() < conn.cq_capacity,
    ensures
        conn.read_posted(wrid, payload) == (
            (ConnectionModel {
                next_seq: ((conn.next_seq + 1) % 0x1_0000_0000) as u32,
                ..conn
            }),
            Ok::<MessageModel, RdowsError>(
                MessageModel::ReadReq(
                    RdowsHeader {
                        version: 1,
                        opcode: Opcode::ReadReq,
                        flags: 0,
                        session_id: conn.session_id,
                        sequence: conn.next_seq,
                        wrid,
                        payload_length: 0,
                    },
                    payload,
                ),
            ),
        ),
{
}

/// An atomic operation is one frame with what was asked for, and numbers nothing
/// else.
pub proof fn law_atomic_request(conn: ConnectionModel, wrid: u64, payload: AtomicReqPayload)
    requires
        conn.completions.len() < conn.cq_capacity,
    ensures
        conn.atomic_posted(wrid, payload) == (
            (ConnectionModel {
                next_seq: ((conn.next_seq + 1) % 0x1_0000_0000) as u32,
                ..conn
            }),
            Ok::<MessageModel, RdowsError>(
                MessageModel::AtomicReq(
                    RdowsHeader {
                        version: 1,
                        opcode: Opcode::AtomicReq,
                        flags: 0,
                        session_id: conn.session_id,
                        sequence: conn.next_seq,
                        wrid,
                        payload_length: 0,
                    },
                    payload,
                ),
            ),
        ),
{
}

/// The requests to register and to give up a region say what the caller asked
/// for, in the session's protection domain.
pub proof fn law_region_requests(
    conn: ConnectionModel,
    access_flags: AccessFlags,
    region_len: u64,
    lkey: LKey,
)
    ensures
        ({
            let header = RdowsHeader {
                version: 1,
                opcode: Opcode::MrReg,
                flags: 0,
                session_id: conn.session_id,
                sequence: conn.next_seq,
                wrid: 0,
                payload_length: 0,
            };
            &&& conn.register_request(access_flags, region_len) == MessageModel::MrReg(
                header,
                MrRegPayload {
                    pd: conn.pd,
                    access_flags,
                    region_len,
                    suggested_lkey: None,
                },
            )
            &&& conn.deregister_request(lkey) == MessageModel::MrDereg(
                RdowsHeader { opcode: Opcode::MrDereg, ..header },
                MrDeregPayload { pd: conn.pd, lkey },
            )
        }),
{
}

// ---------------------------------------------------------------------------
// What a completion reports
// ---------------------------------------------------------------------------

/// A message that was received leaves a completion with its number and byte
/// count and without error, and costs one credit; nothing else changes.
pub proof fn law_received_message_completes(
    conn: ConnectionModel,
    wrid: u64,
    byte_count: u32,
    header: RdowsHeader,
)
    requires
        conn.completions.len() < conn.cq_capacity,
        conn.send_credits > 0,
    ensures
        conn.send_completed(wrid, byte_count, MessageModel::RecvComp(header)) == (
            (ConnectionModel {
                completions: conn.completions.push(
                    CompletionQueueEntry {
                        wrid: WorkRequestId(wrid),
                        status: 0,
                        opcode: Opcode::Send,
                        vendor_error: 0,
                        byte_count,
                        qp_number: conn.session_id,
                    },
                ),
                send_credits: (conn.send_credits - 1) as u32,
                ..conn
            }),
            Ok::<(), RdowsError>(()),
        ),
{
}

/// A write that was done leaves a completion with its number and byte count and
/// without error; nothing else changes.
pub proof fn law_done_write_completes(
    conn: ConnectionModel,
    wrid: u64,
    byte_count: u32,
    header: RdowsHeader,
)
    requires
        conn.completions.len() < conn.cq_capacity,
    ensures
        conn.write_completed(wrid, byte_count, MessageModel::WriteComp(header)) == (
            (ConnectionModel {
                completions: conn.completions.push(
                    CompletionQueueEntry {
                        wrid: WorkRequestId(wrid),
                        status: 0,
                        opcode: Opcode::Write,
                        vendor_error: 0,
                        byte_count,
                        qp_number: conn.session_id,
                    },
                ),
                ..conn
            }),
            Ok::<(), RdowsError>(()),
        ),
{
}

/// A read that brought data which the local region has room for puts the data
/// there, byte by byte, and leaves a completion with its number, without error,
/// that counts the bytes. No other byte of any region changes, and nothing else.
pub proof fn law_done_read_completes(
    conn: ConnectionModel,
    wrid: u64,
    local_lkey: LKey,
    local_va: u64,
    header: RdowsHeader,
    data: Seq<u8>,
)
    requires
        conn.completions.len() < conn.cq_capacity,
        conn.regions.contains_key(local_lkey.0),
        (local_va as usize) + data.len() <= conn.regions[local_lkey.0].bytes.len(),
    ensures
        ({
            let at = (local_va as usize) as int;
            let k = local_lkey.0;
            let resp = MessageModel::ReadResp(header, data);
            let (after, r) = conn.read_completed(wrid, local_lkey, local_va, resp);
            let before = conn.regions[k].bytes;
            &&& r == Ok::<(), RdowsError>(())
            &&& after.completions == conn.completions.push(
                CompletionQueueEntry {
                    wrid: WorkRequestId(wrid),
                    status: 0,
                    opcode: Opcode::ReadReq,
                    vendor_error: 0,
                    byte_count: data.len() as u32,
                    qp_number: conn.session_id,
                },
            )
            &&& after.regions.dom() == conn.regions.dom()
            &&& forall|other: u32|
                other != k && conn.regions.contains_key(other) ==> #[trigger] after.regions[other]
                    == conn.regions[other]
            &&& after.regions[k] == (RegionModel { bytes: after.regions[k].bytes, ..conn.regions[k]
            })
            &&& after.regions[k].bytes.len() == before.len()
            &&& forall|i: int|
                0 <= i < before.len() ==> #[trigger] after.regions[k].bytes[i] == if at <= i < at
                    + data.len() {
                    data[i - at]
                } else {
                    before[i]
                }
            &&& after == (ConnectionModel {
                completions: after.completions,
                regions: after.regions,
                ..conn
            })
        }),
{
    let resp = MessageModel::ReadResp(header, data);
    let after = conn.read_completed(wrid, local_lkey, local_va, resp).0;
    assert(after.regions.dom() =~= conn.regions.dom());
}

/// Data that the local region has no room for, or for which there is no region,
/// leaves no completion: the error says which, and nothing changes.
pub proof fn law_unplaced_read_changes_nothing(
    conn: ConnectionModel,
    wrid: u64,
    local_lkey: LKey,
    local_va: u64,
    header: RdowsHeader,
    data: Seq<u8>,
)
    requires
        !conn.regions.contains_key(local_lkey.0) || (local_va as usize) + data.len()
            > conn.regions[local_lkey.0].bytes.len(),
    ensures
        conn.read_completed(wrid, local_lkey, local_va, MessageModel::ReadResp(header, data)) == (
            conn,
            Err::<(), RdowsError>(
                RdowsError::Protocol(
                    if conn.regions.contains_key(local_lkey.0) {
                        ErrorCode::ErrBounds
                    } else {
                        ErrorCode::ErrInvalidLkey
                    },
                ),
            ),
        ),
{
}

/// An atomic operation that was done gives the word from before it and leaves a
/// completion with its number, without error, of eight bytes; nothing else
/// changes.
pub proof fn law_done_atomic_completes(
    conn: ConnectionModel,
    wrid: u64,
    header: RdowsHeader,
    payload: crate::message::AtomicRespPayload,
)
    requires
        conn.completions.len() < conn.cq_capacity,
    ensures
        conn.atomic_completed(wrid, MessageModel::AtomicResp(header, payload)) == (
            (ConnectionModel {
                completions: conn.completions.push(
                    CompletionQueueEntry {
                        wrid: WorkRequestId(wrid),
                        status: 0,
                        opcode: Opcode::AtomicReq,
                        vendor_error: 0,
                        byte_count: 8,
                        qp_number: conn.session_id,
                    },
                ),
                ..conn
            }),
            Ok::<u64, RdowsError>(payload.original_value),
        ),
{
}

/// The state after a failed request of the kind `opcode`: one more completion,
/// with the number of the error as its status and no byte.
pub open spec fn failed(
    conn: ConnectionModel,
    wrid: u64,
    opcode: Opcode,
    code: ErrorCode,
) -> ConnectionModel {
    ConnectionModel {
        completions: conn.completions.push(
            CompletionQueueEntry {
                wrid: WorkRequestId(wrid),
                status: error::code_value(code),
                opcode,
                vendor_error: 0,
                byte_count: 0,
                qp_number: conn.session_id,
            },
        ),
        ..conn
    }
}

/// A request that the remote side refused ends with its error, and leaves a
/// completion with the request's number and kind, the number of the error and no
/// byte; nothing else changes.
pub proof fn law_refused_request_completes(
    conn: ConnectionModel,
    wrid: u64,
    byte_count: u32,
    local_lkey: LKey,
    local_va: u64,
    header: RdowsHeader,
    code: ErrorCode,
    failing_seq: u32,
    text: Seq<char>,
)
    requires
        conn.completions.len() < conn.cq_capacity,
    ensures
        ({
            let resp = MessageModel::Error(header, code, failing_seq, text);
            let e = RdowsError::Protocol(code);
            &&& conn.send_completed(wrid, byte_count, resp) == (
                failed(conn, wrid, Opcode::Send, code),
                Err::<(), RdowsError>(e),
            )
            &&& conn.write_completed(wrid, byte_count, resp) == (
                failed(conn, wrid, Opcode::Write, code),
                Err::<(), RdowsError>(e),
            )
            &&& conn.read_completed(wrid, local_lkey, local_va, resp) == (
                failed(conn, wrid, Opcode::ReadReq, code),
                Err::<(), RdowsError>(e),
            )
            &&& conn.atomic_completed(wrid, resp) == (
                failed(conn, wrid, Opcode::AtomicReq, code),
                Err::<u64, RdowsError>(e),
            )
        }),
{
}

/// A reply of a kind that a request does not wait for is an error that names what
/// was expected and what came; nothing changes.
pub proof fn law_stray_reply_changes_nothing(
    conn: ConnectionModel,
    wrid: u64,
    byte_count: u32,
    lkey: LKey,
    local_va: u64,
    region_len: u64,
    resp: MessageModel,
)
    requires
        !(resp is Error),
    ensures
        ({
            let got = resp.header().opcode;
            &&& !(resp is RecvComp) ==> conn.send_completed(wrid, byte_count, resp) == (
                conn,
                Err::<(), RdowsError>(
                    RdowsError::UnexpectedMessage { expected: "RECV_COMP", got },
                ),
            )
            &&& !(resp is WriteComp) ==> conn.write_completed(wrid, byte_count, resp) == (
                conn,
                Err::<(), RdowsError>(
                    RdowsError::UnexpectedMessage { expected: "WRITE_COMP", got },
                ),
            )
            &&& !(resp is ReadResp) ==> conn.read_completed(wrid, lkey, local_va, resp) == (
                conn,
                Err::<(), RdowsError>(
                    RdowsError::UnexpectedMessage { expected: "READ_RESP", got },
                ),
            )
            &&& !(resp is AtomicResp) ==> conn.atomic_completed(wrid, resp) == (
                conn,
                Err::<u64, RdowsError>(
                    RdowsError::UnexpectedMessage { expected: "ATOMIC_RESP", got },
                ),
            )
            &&& !(resp is MrRegAck) ==> conn.registered(region_len, resp) == (
                conn,
                Err::<RegionModel, RdowsError>(
                    RdowsError::UnexpectedMessage { expected: "MR_REG_ACK", got },
                ),
            )
            &&& !(resp is MrDeregAck) ==> conn.deregistered(lkey, resp) == (
                conn,
                Err::<(), RdowsError>(
                    RdowsError::UnexpectedMessage { expected: "MR_DEREG_ACK", got },
                ),
            )
        }),
{
}

// ---------------------------------------------------------------------------
// Regions
// ---------------------------------------------------------------------------

/// A region that the remote side registered is known under the local key that it
/// chose, with the remote key that it chose, the length asked for and zeros.
/// Every other region is as it was, and nothing else changes.
pub proof fn law_registered_region_is_known(
    conn: ConnectionModel,
    region_len: u64,
    header: RdowsHeader,
    lkey: LKey,
    rkey: RKey,
    k: u32,
)
    requires
        k != lkey.0,
    ensures
        ({
            let resp = MessageModel::MrRegAck(
                header,
                crate::message::MrRegAckPayload { status: 0, lkey, rkey },
            );
            let (after, r) = conn.registered(region_len, resp);
            let new = after.regions[lkey.0];
            &&& r == Ok::<RegionModel, RdowsError>(new)
            &&& after.regions.contains_key(lkey.0)
            &&& new.lkey == lkey
            &&& new.rkey == rkey
            &&& new.len == region_len
            &&& new.bytes.len() == region_len as usize
            &&& forall|i: int| 0 <= i < new.bytes.len() ==> #[trigger] new.bytes[i] == 0
            &&& after.regions.contains_key(k) == conn.regions.contains_key(k)
            &&& conn.regions.contains_key(k) ==> after.regions[k] == conn.regions[k]
            &&& after == (ConnectionModel { regions: after.regions, ..conn })
        }),
{
}

/// After a region was given up the client knows none under its local key; every
/// other region is known as before, with its keys, length and bytes, and nothing
/// else changes.
pub proof fn law_only_the_region_given_up_is_forgotten(
    conn: ConnectionModel,
    lkey: LKey,
    header: RdowsHeader,
    k: u32,
)
    requires
        k != lkey.0,
    ensures
        ({
            let resp = MessageModel::MrDeregAck(
                header,
                crate::message::MrDeregAckPayload { status: 0 },
            );
            let (after, r) = conn.deregistered(lkey, resp);
            &&& r == Ok::<(), RdowsError>(())
            &&& !after.regions.contains_key(lkey.0)
            &&& after.regions.contains_key(k) == conn.regions.contains_key(k)
            &&& conn.regions.contains_key(k) ==> after.regions[k] == conn.regions[k]
            &&& after == (ConnectionModel { regions: after.regions, ..conn })
        }),
{
}

/// A registration or its end that the remote side refused changes nothing. The
/// error is the one whose number the status is, or an internal one where no
/// error has that number; one in an ERROR frame is handed on.
pub proof fn law_refused_registration_changes_nothing(
    conn: ConnectionModel,
    region_len: u64,
    lkey: LKey,
    header: RdowsHeader,
    ack: crate::message::MrRegAckPayload,
    dereg_ack: crate::message::MrDeregAckPayload,
    code: ErrorCode,
    failing_seq: u32,
    text: Seq<char>,
)
    requires
        ack.status != 0,
        dereg_ack.status == ack.status,
    ensures
        ({
            let (after, r) = conn.registered(region_len, MessageModel::MrRegAck(header, ack));
            let (after2, r2) = conn.deregistered(
                lkey,
                MessageModel::MrDeregAck(header, dereg_ack),
            );
            &&& after == conn
            &&& after2 == conn
            &&& r matches Err(RdowsError::Protocol(c)) && (error::code_value(c) == ack.status || (c
                == ErrorCode::ErrInternal && forall|other: ErrorCode|
                #[trigger] error::code_value(other) != ack.status))
            &&& r2 == Err::<(), RdowsError>(r->Err_0)
        }),
        ({
            let refusal = MessageModel::Error(header, code, failing_seq, text);
            &&& conn.registered(region_len, refusal) == (
                conn,
                Err::<RegionModel, RdowsError>(RdowsError::Protocol(code)),
            )
            &&& conn.deregistered(lkey, refusal) == (
                conn,
                Err::<(), RdowsError>(RdowsError::Protocol(code)),
            )
        }),
{
    error::law_value_round_trip(ack.status);
}

/// Writing into a local buffer succeeds exactly where the region is known and the
/// data fits behind the place; then the bytes of the data stand there, every
/// other byte, every other region and everything else is as it was. Otherwise the
/// error says which of the two failed, and nothing changes.
pub proof fn law_local_write(conn: ConnectionModel, k: u32, at: int, data: Seq<u8>)
    requires
        at >= 0,
    ensures
        ({
            let (after, r) = conn.local_written(k, at, data);
            if !conn.regions.contains_key(k) {
                &&& r == Err::<(), RdowsError>(RdowsError::Protocol(ErrorCode::ErrInvalidLkey))
                &&& after == conn
            } else if at + data.len() > conn.regions[k].bytes.len() {
                &&& r == Err::<(), RdowsError>(RdowsError::Protocol(ErrorCode::ErrBounds))
                &&& after == conn
            } else {
                let before = conn.regions[k].bytes;
                &&& r == Ok::<(), RdowsError>(())
                &&& after.regions.dom() == conn.regions.dom()
                &&& forall|other: u32|
                    other != k && conn.regions.contains_key(other)
                        ==> #[trigger] after.regions[other] == conn.regions[other]
                &&& after.regions[k] == (RegionModel {
                    bytes: after.regions[k].bytes,
                    ..conn.regions[k]
                })
                &&& after.regions[k].bytes.len() == before.len()
                &&& forall|i: int|
                    0 <= i < before.len() ==> #[trigger] after.regions[k].bytes[i] == if at <= i
                        < at + data.len() {
                        data[i - at]
                    } else {
                        before[i]
                    }
                &&& after == (ConnectionModel { regions: after.regions, ..conn })
            }
        }),
{
    let after = conn.local_written(k, at, data).0;
    assert(after.regions.dom() =~= conn.regions.dom());
}

/// Reading from a local buffer succeeds exactly where the region is known and
/// holds all the bytes asked for; then they are given, one by one, as they lie
/// there.
pub proof fn law_local_read(conn: ConnectionModel, k: u32, at: int, len: int)
    requires
        at >= 0,
        len >= 0,
    ensures
        ({
            let r = conn.local_read(k, at, len);
            if !conn.regions.contains_key(k) {
                r == Err::<Seq<u8>, RdowsError>(RdowsError::Protocol(ErrorCode::ErrInvalidLkey))
            } else if at + len > conn.regions[k].bytes.len() {
                r == Err::<Seq<u8>, RdowsError>(RdowsError::Protocol(ErrorCode::ErrBounds))
            } else {
                &&& r matches Ok(bytes)
                &&& bytes.len() == len
                &&& forall|i: int|
                    0 <= i < len ==> #[trigger] bytes[i] == conn.regions[k].bytes[at + i]
            }
        }),
{
}

// ---------------------------------------------------------------------------
// Models
// ---------------------------------------------------------------------------

/// The models of a region and of a posted request have all that those hold.
pub proof fn law_models_are_complete(region: MemoryRegionHandle, posted: PostedRequest)
    ensures
        region@.lkey == region.lkey,
        region@.rkey == region.rkey,
        region@.len == region.len,
        region@.bytes == region.local_buf@,
        posted@.request == posted.request@,
        posted@.data == posted.data@,
        posted@.byte_count == posted.byte_count,
{
}

/// The number of a frame is accepted if it is the one expected, or if none is
/// expected yet; then the one after it is expected, and nothing else changes. The
/// credit counter has room for a grant that is accepted exactly where the sum
/// fits into it.
pub proof fn law_numbers_and_grants(conn: ConnectionModel, msg: MessageModel, seq: u32)
    ensures
        conn.accepts_sequence(seq) <==> conn.expected_remote_seq is None
            || conn.expected_remote_seq == Some(seq),
        conn.received(seq) == (ConnectionModel {
            expected_remote_seq: Some(((seq + 1) % 0x1_0000_0000) as u32),
            ..conn
        }),
        conn.grant_fits(msg) <==> match msg {
            MessageModel::CreditUpdate(h, p) => {
                ||| conn.expected_remote_seq is Some && conn.expected_remote_seq != Some(
                    h.sequence,
                )
                ||| conn.send_credits + p.credit_increment <= u32::MAX
            },
            _ => true,
        },
{
}

/// Any completion goes to the end of the queue with what it reports, where there
/// is room, and nothing else changes.
pub proof fn law_completion_is_queued(
    conn: ConnectionModel,
    wrid: u64,
    status: u16,
    opcode: Opcode,
    byte_count: u32,
)
    ensures
        conn.completions.len() >= conn.cq_capacity ==> conn.completed(
            wrid,
            status,
            opcode,
            byte_count,
        ) == conn,
        conn.completions.len() < conn.cq_capacity ==> conn.completed(
            wrid,
            status,
            opcode,
            byte_count,
        ) == (ConnectionModel {
            completions: conn.completions.push(
                CompletionQueueEntry {
                    wrid: WorkRequestId(wrid),
                    status,
                    opcode,
                    vendor_error: 0,
                    byte_count,
                    qp_number: conn.session_id,
                },
            ),
            ..conn
        }),
{
}

} // verus!
