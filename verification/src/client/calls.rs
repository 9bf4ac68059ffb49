//! What the calls of a connection promise their callers: results and the state
//! afterwards, in terms of the arguments and the state before.
use vstd::prelude::*;

use super::effects;
use super::model;
use super::model::{ConnectionModel, RegionModel};
use super::verbs::{MemoryRegionHandle, PostedRequest};
use super::{ConnectConfig, RdowsConnection};
use crate::connection::ConnectionParams;
use crate::error;
use crate::error::{ErrorCode, RdowsError};
use crate::frame::RdowsHeader;
use crate::memory::{AccessFlags, LKey, RKey};
use crate::message::{
    AtomicReqPayload, AtomicType, MessageModel, MrDeregPayload, MrRegPayload, RdowsMessage,
    ReadReqPayload,
};
use crate::opcode::Opcode;
use crate::queue::{CompletionQueueEntry, ScatterGatherEntry, WorkRequestId};

verus! {

/// The header of the frame that a connection sends next but `skipped`.
pub open spec fn sent_header(
    c: ConnectionModel,
    skipped: int,
    opcode: Opcode,
    wrid: u64,
) -> RdowsHeader {
    RdowsHeader {
        version: 1,
        opcode,
        flags: 0,
        session_id: c.session_id,
        sequence: ((c.next_seq + skipped) % 0x1_0000_0000) as u32,
        wrid,
        payload_length: 0,
    }
}

/// The connection after it sent `count` frames.
pub open spec fn moved_on(c: ConnectionModel, count: int) -> ConnectionModel {
    ConnectionModel { next_seq: ((c.next_seq + count) % 0x1_0000_0000) as u32, ..c }
}

/// The connection with one more completion at the end of its queue, where the
/// queue has room for it.
pub open spec fn queued(
    c: ConnectionModel,
    wrid: u64,
    status: u16,
    opcode: Opcode,
    byte_count: u32,
) -> ConnectionModel {
    if c.completions.len() >= c.cq_capacity {
        c
    } else {
        ConnectionModel {
            completions: c.completions.push(
                CompletionQueueEntry {
                    wrid: WorkRequestId(wrid),
                    status,
                    opcode,
                    vendor_error: 0,
                    byte_count,
                    qp_number: c.session_id,
                },
            ),
            ..c
        }
    }
}

// ---------------------------------------------------------------------------
// The session
// ---------------------------------------------------------------------------

/// `connect` and `connect_with_config` start a session with what was agreed.
pub proof fn law_connect(
    params: ConnectionParams,
    config: ConnectConfig,
    plain: RdowsConnection,
    configured: RdowsConnection,
)
    requires
        call_ensures(RdowsConnection::connect, (params,), plain),
        call_ensures(RdowsConnection::connect_with_config, (params, config), configured),
    ensures
        configured@.cq_capacity == config.cq_capacity,
        plain@ == (ConnectionModel { cq_capacity: plain@.cq_capacity, ..configured@ }),
        plain@.cq_capacity == 65_536,
        plain@.session_id == params.session_id,
        plain@.pd == params.pd,
        plain@.max_msg_size == params.max_msg_size,
        plain@.send_credits == params.icc,
        plain@.expected_remote_seq == Some(params.initial_remote_seq),
        plain@.next_seq == 1,
        plain@.completions.len() == 0,
        forall|k: u32| !plain@.regions.contains_key(k),
{
}

/// `disconnect` gives the DISCONNECT frame of the session.
pub proof fn law_disconnect(c: RdowsConnection, r: RdowsMessage)
    requires
        call_ensures(RdowsConnection::disconnect, (c,), r),
    ensures
        r@ == MessageModel::Disconnect(sent_header(c@, 0, Opcode::Disconnect, 0)),
{
}

/// `session_id`, `send_credits` and `cq_is_full` tell what the session has.
pub proof fn law_getters(c: &RdowsConnection, id: u32, credits: u32, full: bool)
    requires
        call_ensures(RdowsConnection::session_id, (c,), id),
        call_ensures(RdowsConnection::send_credits, (c,), credits),
        call_ensures(RdowsConnection::cq_is_full, (c,), full),
    ensures
        id == c@.session_id,
        credits == c@.send_credits,
        full <==> c@.completions.len() >= c@.cq_capacity,
{
}

/// `next_header` numbers a frame.
pub proof fn law_next_header(c: &mut RdowsConnection, opcode: Opcode, wrid: u64, r: RdowsHeader)
    requires
        call_ensures(RdowsConnection::next_header, (c, opcode, wrid), r),
    ensures
        r == sent_header(old(c)@, 0, opcode, wrid),
        final(c)@ == moved_on(old(c)@, 1),
{
}

/// `set_send_credits` sets the credits and nothing else.
pub proof fn law_set_send_credits(c: &mut RdowsConnection, credits: u32)
    requires
        call_ensures(RdowsConnection::set_send_credits, (c, credits), ()),
    ensures
        final(c)@ == (ConnectionModel { send_credits: credits, ..old(c)@ }),
{
}

/// `validate_remote_seq` accepts the frame expected next, and the first frame
/// whatever its number; then it expects the number after it.
pub proof fn law_validate_remote_seq(
    c: &mut RdowsConnection,
    msg: &RdowsMessage,
    r: Result<(), RdowsError>,
)
    requires
        call_ensures(RdowsConnection::validate_remote_seq, (c, msg), r),
    ensures
        ({
            let seq = msg@.header().sequence;
            if old(c)@.expected_remote_seq is None || old(c)@.expected_remote_seq == Some(seq) {
                &&& r == Ok::<(), RdowsError>(())
                &&& final(c)@ == (ConnectionModel {
                    expected_remote_seq: Some(((seq + 1) % 0x1_0000_0000) as u32),
                    ..old(c)@
                })
            } else {
                &&& r == Err::<(), RdowsError>(RdowsError::Protocol(ErrorCode::ErrSeqGap))
                &&& final(c)@ == old(c)@
            }
        }),
{
}

/// `recv_app_message` hands every frame in turn to the caller, but for a grant,
/// whose credits it adds; a frame out of turn is an error and changes nothing.
pub proof fn law_recv_app_message(
    c: &mut RdowsConnection,
    msg: RdowsMessage,
    r: Result<Option<RdowsMessage>, RdowsError>,
)
    requires
        msg matches RdowsMessage::CreditUpdate(h, p) ==> {
            ||| old(c)@.expected_remote_seq is Some && old(c)@.expected_remote_seq != Some(
                h.sequence,
            )
            ||| old(c)@.send_credits + p.credit_increment <= u32::MAX
        },
        call_ensures(RdowsConnection::recv_app_message, (c, msg), r),
    ensures
        ({
            let seq = msg@.header().sequence;
            let next = Some(((seq + 1) % 0x1_0000_0000) as u32);
            if old(c)@.expected_remote_seq is Some && old(c)@.expected_remote_seq != Some(seq) {
                &&& r == Err::<Option<RdowsMessage>, RdowsError>(
                    RdowsError::Protocol(ErrorCode::ErrSeqGap),
                )
                &&& final(c)@ == old(c)@
            } else {
                match msg {
                    RdowsMessage::CreditUpdate(_, p) => {
                        &&& r == Ok::<Option<RdowsMessage>, RdowsError>(None)
                        &&& final(c)@.send_credits == old(c)@.send_credits + p.credit_increment
                        &&& final(c)@ == (ConnectionModel {
                            expected_remote_seq: next,
                            send_credits: final(c)@.send_credits,
                            ..old(c)@
                        })
                    },
                    _ => {
                        &&& r == Ok::<Option<RdowsMessage>, RdowsError>(Some(msg))
                        &&& final(c)@ == (ConnectionModel {
                            expected_remote_seq: next,
                            ..old(c)@
                        })
                    },
                }
            }
        }),
{
}

/// `poll_cq` takes as many completions as asked for, or all, from the front of
/// the queue, and leaves the others in their order.
pub proof fn law_poll_cq(c: &mut RdowsConnection, max: usize, r: Vec<CompletionQueueEntry>)
    requires
        call_ensures(RdowsConnection::poll_cq, (c, max), r),
    ensures
        r@ + final(c)@.completions == old(c)@.completions,
        r@.len() <= max,
        r@.len() == max || final(c)@.completions.len() == 0,
        final(c)@ == (ConnectionModel { completions: final(c)@.completions, ..old(c)@ }),
{
    effects::law_poll_takes_the_oldest(old(c)@, max);
}

// ---------------------------------------------------------------------------
// Local buffers
// ---------------------------------------------------------------------------

/// `gather_sg_data` gives the bytes of all stretches, in the order of the list:
/// as many as the stretches are long together, those of each stretch behind those
/// of the stretches before it, as they lie in its region.
pub proof fn law_gather(
    c: &RdowsConnection,
    sg_list: &[ScatterGatherEntry],
    r: Result<Vec<u8>, RdowsError>,
    i: int,
    j: int,
)
    requires
        call_ensures(RdowsConnection::gather_sg_data, (c, sg_list), r),
        forall|n: int|
            0 <= n < sg_list@.len() ==> effects::stretch_lies_in(
                c@.regions,
                #[trigger] sg_list@[n],
            ),
    ensures
        r matches Ok(bytes) && {
            &&& bytes@.len() == effects::lengths(sg_list@)
            &&& 0 <= i < sg_list@.len() && 0 <= j < sg_list@[i].length ==> {
                let sg = sg_list@[i];
                let at = effects::lengths(sg_list@.take(i)) + j;
                &&& at < bytes@.len()
                &&& bytes@[at] == c@.regions[sg.lkey.0].bytes[(sg.offset as usize) + j]
            }
        },
{
    effects::law_gathered_length(c@.regions, sg_list@);
    if 0 <= i < sg_list@.len() && 0 <= j < sg_list@[i].length {
        effects::law_gathered_bytes(c@.regions, sg_list@, i, j);
    }
}

/// `gather_sg_data` of one list behind another gives the bytes of the one behind
/// those of the other.
pub proof fn law_gather_one_behind_another(
    c: &RdowsConnection,
    a: &[ScatterGatherEntry],
    b: &[ScatterGatherEntry],
    ab: &[ScatterGatherEntry],
    x: Vec<u8>,
    y: Vec<u8>,
    r: Result<Vec<u8>, RdowsError>,
)
    requires
        ab@ == a@ + b@,
        call_ensures(
            RdowsConnection::gather_sg_data,
            (c, a),
            Ok::<Vec<u8>, RdowsError>(x),
        ),
        call_ensures(
            RdowsConnection::gather_sg_data,
            (c, b),
            Ok::<Vec<u8>, RdowsError>(y),
        ),
        call_ensures(RdowsConnection::gather_sg_data, (c, ab), r),
    ensures
        r matches Ok(bytes) && bytes@ == x@ + y@,
{
    effects::law_gathered_one_behind_another(c@.regions, a@, b@, x@, y@);
}

/// `gather_sg_data` fails at the first stretch that names no region or leaves its
/// region.
pub proof fn law_gather_fails(
    c: &RdowsConnection,
    sg_list: &[ScatterGatherEntry],
    r: Result<Vec<u8>, RdowsError>,
    i: int,
)
    requires
        call_ensures(RdowsConnection::gather_sg_data, (c, sg_list), r),
        0 <= i < sg_list@.len(),
        forall|n: int|
            0 <= n < i ==> effects::stretch_lies_in(c@.regions, #[trigger] sg_list@[n]),
        !effects::stretch_lies_in(c@.regions, sg_list@[i]),
    ensures
        r == Err::<Vec<u8>, RdowsError>(
            RdowsError::Protocol(
                if c@.regions.contains_key(sg_list@[i].lkey.0) {
                    ErrorCode::ErrBounds
                } else {
                    ErrorCode::ErrInvalidLkey
                },
            ),
        ),
{
    effects::law_gathering_fails_at_first_bad_stretch(c@.regions, sg_list@, i);
}

/// `write_local_mr` puts the data at its place, in a region that is known and has
/// room for it, and changes no other byte of any region.
pub proof fn law_write_local_mr(
    c: &mut RdowsConnection,
    lkey: LKey,
    offset: usize,
    data: &[u8],
    r: Result<(), RdowsError>,
)
    requires
        call_ensures(RdowsConnection::write_local_mr, (c, lkey, offset, data), r),
    ensures
        ({
            let before = old(c)@.regions[lkey.0].bytes;
            let after = final(c)@.regions[lkey.0].bytes;
            if !old(c)@.regions.contains_key(lkey.0) {
                &&& r == Err::<(), RdowsError>(RdowsError::Protocol(ErrorCode::ErrInvalidLkey))
                &&& final(c)@ == old(c)@
            } else if offset + data@.len() > before.len() {
                &&& r == Err::<(), RdowsError>(RdowsError::Protocol(ErrorCode::ErrBounds))
                &&& final(c)@ == old(c)@
            } else {
                &&& r == Ok::<(), RdowsError>(())
                &&& after.len() == before.len()
                &&& forall|i: int|
                    0 <= i < before.len() ==> #[trigger] after[i] == if offset <= i < offset
                        + data@.len() {
                        data@[i - offset]
                    } else {
                        before[i]
                    }
                &&& others_kept(old(c)@, final(c)@, lkey.0)
                &&& final(c)@.regions.contains_key(lkey.0)
                &&& final(c)@ == (ConnectionModel { regions: final(c)@.regions, ..old(c)@ })
            }
        }),
{
    effects::law_local_write(old(c)@, lkey.0, offset as int, data@);
}

/// Every region but the one under `k` is known in `after` exactly where it is in
/// `before`, with the same keys, length and bytes.
pub open spec fn others_kept(before: ConnectionModel, after: ConnectionModel, k: u32) -> bool {
    forall|other: u32|
        other != k ==> {
            &&& #[trigger] after.regions.contains_key(other) == before.regions.contains_key(other)
            &&& before.regions.contains_key(other) ==> {
                &&& after.regions[other].lkey == before.regions[other].lkey
                &&& after.regions[other].rkey == before.regions[other].rkey
                &&& after.regions[other].len == before.regions[other].len
                &&& after.regions[other].bytes == before.regions[other].bytes
            }
        }
}

/// `read_local_mr` gives the bytes asked for as they lie in a region that is
/// known and holds them all.
pub proof fn law_read_local_mr(
    c: &RdowsConnection,
    lkey: LKey,
    offset: usize,
    len: usize,
    r: Result<Vec<u8>, RdowsError>,
)
    requires
        call_ensures(RdowsConnection::read_local_mr, (c, lkey, offset, len), r),
    ensures
        ({
            let bytes = c@.regions[lkey.0].bytes;
            if !c@.regions.contains_key(lkey.0) {
                r == Err::<Vec<u8>, RdowsError>(RdowsError::Protocol(ErrorCode::ErrInvalidLkey))
            } else if offset + len > bytes.len() {
                r == Err::<Vec<u8>, RdowsError>(RdowsError::Protocol(ErrorCode::ErrBounds))
            } else {
                &&& r matches Ok(v)
                &&& v@.len() == len
                &&& forall|i: int| 0 <= i < len ==> #[trigger] v@[i] == bytes[offset + i]
            }
        }),
{
}

// ---------------------------------------------------------------------------
// Regions
// ---------------------------------------------------------------------------

/// `reg_mr` and `dereg_mr` ask for what they were told, in the session's
/// protection domain.
pub proof fn law_region_calls(
    c: &mut RdowsConnection,
    d: &mut RdowsConnection,
    access_flags: AccessFlags,
    region_len: u64,
    lkey: LKey,
    reg: RdowsMessage,
    dereg: RdowsMessage,
)
    requires
        call_ensures(RdowsConnection::reg_mr, (c, access_flags, region_len), reg),
        call_ensures(RdowsConnection::dereg_mr, (d, lkey), dereg),
    ensures
        reg@ == MessageModel::MrReg(
            sent_header(old(c)@, 0, Opcode::MrReg, 0),
            MrRegPayload { pd: old(c)@.pd, access_flags, region_len, suggested_lkey: None },
        ),
        final(c)@ == moved_on(old(c)@, 1),
        dereg@ == MessageModel::MrDereg(
            sent_header(old(d)@, 0, Opcode::MrDereg, 0),
            MrDeregPayload { pd: old(d)@.pd, lkey },
        ),
        final(d)@ == moved_on(old(d)@, 1),
{
}

/// `reg_mr_complete` makes the new region known with the keys that the remote
/// side chose, the length asked for and zeros, and leaves every other region and
/// everything else as it was; without success it changes nothing.
pub proof fn law_reg_mr_complete(
    c: &mut RdowsConnection,
    region_len: u64,
    resp: RdowsMessage,
    r: Result<MemoryRegionHandle, RdowsError>,
)
    requires
        call_ensures(RdowsConnection::reg_mr_complete, (c, region_len, resp), r),
    ensures
        match resp {
            RdowsMessage::MrRegAck(_, ack) => if ack.status == 0 {
                let new = final(c)@.regions[ack.lkey.0];
                &&& r matches Ok(handle)
                &&& handle.lkey == ack.lkey
                &&& handle.rkey == ack.rkey
                &&& handle.len == region_len
                &&& handle.local_buf@ == new.bytes
                &&& final(c)@.regions.contains_key(ack.lkey.0)
                &&& new.lkey == ack.lkey
                &&& new.rkey == ack.rkey
                &&& new.len == region_len
                &&& new.bytes.len() == region_len as usize
                &&& forall|i: int| 0 <= i < new.bytes.len() ==> #[trigger] new.bytes[i] == 0
                &&& others_kept(old(c)@, final(c)@, ack.lkey.0)
                &&& final(c)@ == (ConnectionModel { regions: final(c)@.regions, ..old(c)@ })
            } else {
                &&& r matches Err(RdowsError::Protocol(code))
                &&& status_names(ack.status, code)
                &&& final(c)@ == old(c)@
            },
            RdowsMessage::Error(_, p) => {
                &&& r == Err::<MemoryRegionHandle, RdowsError>(RdowsError::Protocol(p.error_code))
                &&& final(c)@ == old(c)@
            },
            _ => {
                &&& r == Err::<MemoryRegionHandle, RdowsError>(
                    RdowsError::UnexpectedMessage {
                        expected: "MR_REG_ACK",
                        got: resp@.header().opcode,
                    },
                )
                &&& final(c)@ == old(c)@
            },
        },
{
    if let RdowsMessage::MrRegAck(_, ack) = resp {
        error::law_value_round_trip(ack.status);
    }
}

/// The status is the number of `code`, or of no code, and `code` is the internal
/// error.
pub open spec fn status_names(status: u16, code: ErrorCode) -> bool {
    error::code_value(code) == status || code is ErrInternal && forall|other: ErrorCode|
        #[trigger] error::code_value(other) != status
}

/// After a success `dereg_mr_complete` knows no region under the local key, and
/// every other region as it was; without success it changes nothing.
pub proof fn law_dereg_mr_complete(
    c: &mut RdowsConnection,
    lkey: LKey,
    resp: RdowsMessage,
    r: Result<(), RdowsError>,
)
    requires
        call_ensures(RdowsConnection::dereg_mr_complete, (c, lkey, resp), r),
    ensures
        match resp {
            RdowsMessage::MrDeregAck(_, ack) => if ack.status == 0 {
                &&& r == Ok::<(), RdowsError>(())
                &&& !final(c)@.regions.contains_key(lkey.0)
                &&& others_kept(old(c)@, final(c)@, lkey.0)
                &&& final(c)@ == (ConnectionModel { regions: final(c)@.regions, ..old(c)@ })
            } else {
                &&& r matches Err(RdowsError::Protocol(code))
                &&& status_names(ack.status, code)
                &&& final(c)@ == old(c)@
            },
            RdowsMessage::Error(_, p) => {
                &&& r == Err::<(), RdowsError>(RdowsError::Protocol(p.error_code))
                &&& final(c)@ == old(c)@
            },
            _ => {
                &&& r == Err::<(), RdowsError>(
                    RdowsError::UnexpectedMessage {
                        expected: "MR_DEREG_ACK",
                        got: resp@.header().opcode,
                    },
                )
                &&& final(c)@ == old(c)@
            },
        },
{
    if let RdowsMessage::MrDeregAck(_, ack) = resp {
        error::law_value_round_trip(ack.status);
    }
}

// ---------------------------------------------------------------------------
// Requests
// ---------------------------------------------------------------------------

/// `post_send` sends the list of stretches and then exactly the bytes gathered
/// from it, where the queue has room, a credit is left and the stretches can be
/// gathered; otherwise it says which of these failed and changes nothing.
pub proof fn law_post_send(
    c: &mut RdowsConnection,
    wrid: u64,
    sg_list: &[ScatterGatherEntry],
    gathered: Result<Vec<u8>, RdowsError>,
    r: Result<PostedRequest, RdowsError>,
)
    requires
        call_ensures(RdowsConnection::post_send, (c, wrid, sg_list), r),
        call_ensures(RdowsConnection::gather_sg_data, (&*old(c), sg_list), gathered),
    ensures
        if old(c)@.completions.len() >= old(c)@.cq_capacity {
            &&& r == Err::<PostedRequest, RdowsError>(
                RdowsError::Protocol(ErrorCode::ErrCqOverflow),
            )
            &&& final(c)@ == old(c)@
        } else if old(c)@.send_credits == 0 {
            &&& r == Err::<PostedRequest, RdowsError>(RdowsError::SendCreditsExhausted)
            &&& final(c)@ == old(c)@
        } else {
            match gathered {
                Err(e) => {
                    &&& r == Err::<PostedRequest, RdowsError>(e)
                    &&& final(c)@ == old(c)@
                },
                Ok(bytes) => {
                    &&& r matches Ok(p)
                    &&& p.request@ == MessageModel::Send(
                        sent_header(old(c)@, 0, Opcode::Send, wrid),
                        sg_list@,
                    )
                    &&& p.data@ == MessageModel::SendData(
                        sent_header(old(c)@, 1, Opcode::SendData, wrid),
                        bytes@,
                    )
                    &&& p.byte_count == bytes@.len() as u32
                    &&& final(c)@ == moved_on(old(c)@, 2)
                },
            }
        },
{
}

/// `rdma_write` sends the place, the length and the list of stretches and then
/// exactly the bytes gathered from it, where the queue has room and the stretches
/// can be gathered; otherwise it says which of these failed and changes nothing.
pub proof fn law_rdma_write(
    c: &mut RdowsConnection,
    wrid: u64,
    rkey: RKey,
    remote_va: u64,
    sg_list: &[ScatterGatherEntry],
    gathered: Result<Vec<u8>, RdowsError>,
    r: Result<PostedRequest, RdowsError>,
)
    requires
        call_ensures(RdowsConnection::rdma_write, (c, wrid, rkey, remote_va, sg_list), r),
        call_ensures(RdowsConnection::gather_sg_data, (&*old(c), sg_list), gathered),
    ensures
        if old(c)@.completions.len() >= old(c)@.cq_capacity {
            &&& r == Err::<PostedRequest, RdowsError>(
                RdowsError::Protocol(ErrorCode::ErrCqOverflow),
            )
            &&& final(c)@ == old(c)@
        } else {
            match gathered {
                Err(e) => {
                    &&& r == Err::<PostedRequest, RdowsError>(e)
                    &&& final(c)@ == old(c)@
                },
                Ok(bytes) => {
                    &&& r matches Ok(p)
                    &&& p.request@ == MessageModel::Write(
                        sent_header(old(c)@, 0, Opcode::Write, wrid),
                        rkey,
                        remote_va,
                        bytes@.len() as u64,
                        sg_list@,
                    )
                    &&& p.data@ == MessageModel::WriteData(
                        sent_header(old(c)@, 1, Opcode::WriteData, wrid),
                        bytes@,
                    )
                    &&& p.byte_count == bytes@.len() as u32
                    &&& final(c)@ == moved_on(old(c)@, 2)
                },
            }
        },
{
}

/// `rdma_read` asks for the stretch of the remote region that it was told, where
/// the queue has room.
pub proof fn law_rdma_read(
    c: &mut RdowsConnection,
    wrid: u64,
    rkey: RKey,
    remote_va: u64,
    read_len: u64,
    local_lkey: LKey,
    local_va: u64,
    r: Result<RdowsMessage, RdowsError>,
)
    requires
        call_ensures(
            RdowsConnection::rdma_read,
            (c, wrid, rkey, remote_va, read_len, local_lkey, local_va),
            r,
        ),
    ensures
        if old(c)@.completions.len() >= old(c)@.cq_capacity {
            &&& r == Err::<RdowsMessage, RdowsError>(
                RdowsError::Protocol(ErrorCode::ErrCqOverflow),
            )
            &&& final(c)@ == old(c)@
        } else {
            &&& r matches Ok(frame)
            &&& frame@ == MessageModel::ReadReq(
                sent_header(old(c)@, 0, Opcode::ReadReq, wrid),
                ReadReqPayload { rkey, remote_va, read_len, local_lkey, local_va },
            )
            &&& final(c)@ == moved_on(old(c)@, 1)
        },
{
}

/// `r` is the request for an atomic operation, where the queue has room.
pub open spec fn asks_for_atomic(
    before: ConnectionModel,
    after: ConnectionModel,
    wrid: u64,
    payload: AtomicReqPayload,
    r: Result<RdowsMessage, RdowsError>,
) -> bool {
    if before.completions.len() >= before.cq_capacity {
        &&& r == Err::<RdowsMessage, RdowsError>(RdowsError::Protocol(ErrorCode::ErrCqOverflow))
        &&& after == before
    } else {
        &&& r matches Ok(frame)
        &&& frame@ == MessageModel::AtomicReq(
            sent_header(before, 0, Opcode::AtomicReq, wrid),
            payload,
        )
        &&& after == moved_on(before, 1)
    }
}

/// `atomic_cas` asks to put `swap` in place of `compare`, and `atomic_faa` asks to
/// add `addend`, in the remote word that each was told.
pub proof fn law_atomic_calls(
    c: &mut RdowsConnection,
    d: &mut RdowsConnection,
    wrid: u64,
    rkey: RKey,
    remote_va: u64,
    compare: u64,
    swap: u64,
    addend: u64,
    cas: Result<RdowsMessage, RdowsError>,
    faa: Result<RdowsMessage, RdowsError>,
)
    requires
        call_ensures(
            RdowsConnection::atomic_cas,
            (c, wrid, rkey, remote_va, compare, swap),
            cas,
        ),
        call_ensures(RdowsConnection::atomic_faa, (d, wrid, rkey, remote_va, addend), faa),
    ensures
        asks_for_atomic(
            old(c)@,
            final(c)@,
            wrid,
            (AtomicReqPayload {
                rkey,
                atomic_type: AtomicType::CompareAndSwap,
                remote_va,
                operand1: compare,
                operand2: swap,
            }),
            cas,
        ),
        asks_for_atomic(
            old(d)@,
            final(d)@,
            wrid,
            (AtomicReqPayload {
                rkey,
                atomic_type: AtomicType::FetchAndAdd,
                remote_va,
                operand1: addend,
                operand2: 0,
            }),
            faa,
        ),
{
}

// ---------------------------------------------------------------------------
// Completions
// ---------------------------------------------------------------------------

/// `post_send_complete` queues the completion of the message: without error and
/// with its byte count where it was received, which costs a credit; with the
/// error and no byte where it was refused. Nothing else changes.
pub proof fn law_post_send_complete(
    c: &mut RdowsConnection,
    wrid: u64,
    byte_count: u32,
    resp: RdowsMessage,
    r: Result<(), RdowsError>,
)
    requires
        resp is RecvComp ==> old(c)@.send_credits > 0,
        call_ensures(RdowsConnection::post_send_complete, (c, wrid, byte_count, resp), r),
    ensures
        match resp {
            RdowsMessage::RecvComp(_) => {
                &&& r == Ok::<(), RdowsError>(())
                &&& final(c)@.send_credits == old(c)@.send_credits - 1
                &&& final(c)@ == (ConnectionModel {
                    send_credits: final(c)@.send_credits,
                    ..queued(old(c)@, wrid, 0, Opcode::Send, byte_count)
                })
            },
            RdowsMessage::Error(_, p) => {
                &&& r == Err::<(), RdowsError>(RdowsError::Protocol(p.error_code))
                &&& final(c)@ == queued(
                    old(c)@,
                    wrid,
                    error::code_value(p.error_code),
                    Opcode::Send,
                    0,
                )
            },
            _ => {
                &&& r == Err::<(), RdowsError>(
                    RdowsError::UnexpectedMessage {
                        expected: "RECV_COMP",
                        got: resp@.header().opcode,
                    },
                )
                &&& final(c)@ == old(c)@
            },
        },
{
}

/// `rdma_write_complete` queues the completion of the write: without error and
/// with its byte count where it was done, with the error and no byte where it was
/// refused. Nothing else changes.
pub proof fn law_rdma_write_complete(
    c: &mut RdowsConnection,
    wrid: u64,
    byte_count: u32,
    resp: RdowsMessage,
    r: Result<(), RdowsError>,
)
    requires
        call_ensures(RdowsConnection::rdma_write_complete, (c, wrid, byte_count, resp), r),
    ensures
        match resp {
            RdowsMessage::WriteComp(_) => {
                &&& r == Ok::<(), RdowsError>(())
                &&& final(c)@ == queued(old(c)@, wrid, 0, Opcode::Write, byte_count)
            },
            RdowsMessage::Error(_, p) => {
                &&& r == Err::<(), RdowsError>(RdowsError::Protocol(p.error_code))
                &&& final(c)@ == queued(
                    old(c)@,
                    wrid,
                    error::code_value(p.error_code),
                    Opcode::Write,
                    0,
                )
            },
            _ => {
                &&& r == Err::<(), RdowsError>(
                    RdowsError::UnexpectedMessage {
                        expected: "WRITE_COMP",
                        got: resp@.header().opcode,
                    },
                )
                &&& final(c)@ == old(c)@
            },
        },
{
}

/// `rdma_read_complete` puts the data of the reply into the local region, byte by
/// byte, and queues a completion without error that counts the bytes. No other
/// byte of any region and nothing else changes. A refused read is completed with
/// the error and no byte; data without a place changes nothing.
pub proof fn law_rdma_read_complete(
    c: &mut RdowsConnection,
    wrid: u64,
    local_lkey: LKey,
    local_va: u64,
    resp: RdowsMessage,
    r: Result<(), RdowsError>,
)
    requires
        call_ensures(
            RdowsConnection::rdma_read_complete,
            (c, wrid, local_lkey, local_va, resp),
            r,
        ),
    ensures
        match resp {
            RdowsMessage::ReadResp(_, payload) => {
                let k = local_lkey.0;
                let at = (local_va as usize) as int;
                let data = payload@;
                let before = old(c)@.regions[k].bytes;
                let after = final(c)@.regions[k].bytes;
                if !old(c)@.regions.contains_key(k) {
                    &&& r == Err::<(), RdowsError>(RdowsError::Protocol(ErrorCode::ErrInvalidLkey))
                    &&& final(c)@ == old(c)@
                } else if at + data.len() > before.len() {
                    &&& r == Err::<(), RdowsError>(RdowsError::Protocol(ErrorCode::ErrBounds))
                    &&& final(c)@ == old(c)@
                } else {
                    &&& r == Ok::<(), RdowsError>(())
                    &&& final(c)@.regions.contains_key(k)
                    &&& after.len() == before.len()
                    &&& forall|i: int|
                        0 <= i < before.len() ==> #[trigger] after[i] == if at <= i < at
                            + data.len() {
                            data[i - at]
                        } else {
                            before[i]
                        }
                    &&& final(c)@.regions[k] == (RegionModel { bytes: after, ..old(c)@.regions[k] })
                    &&& others_kept(old(c)@, final(c)@, k)
                    &&& final(c)@ == (ConnectionModel {
                        regions: final(c)@.regions,
                        ..queued(old(c)@, wrid, 0, Opcode::ReadReq, data.len() as u32)
                    })
                }
            },
            RdowsMessage::Error(_, p) => {
                &&& r == Err::<(), RdowsError>(RdowsError::Protocol(p.error_code))
                &&& final(c)@ == queued(
                    old(c)@,
                    wrid,
                    error::code_value(p.error_code),
                    Opcode::ReadReq,
                    0,
                )
            },
            _ => {
                &&& r == Err::<(), RdowsError>(
                    RdowsError::UnexpectedMessage {
                        expected: "READ_RESP",
                        got: resp@.header().opcode,
                    },
                )
                &&& final(c)@ == old(c)@
            },
        },
{
}

/// `atomic_complete` gives the word from before the operation and queues a
/// completion of eight bytes without error; a refused operation is completed with
/// the error and no byte. Nothing else changes.
pub proof fn law_atomic_complete(
    c: &mut RdowsConnection,
    wrid: u64,
    resp: RdowsMessage,
    r: Result<u64, RdowsError>,
)
    requires
        call_ensures(RdowsConnection::atomic_complete, (c, wrid, resp), r),
    ensures
        match resp {
            RdowsMessage::AtomicResp(_, p) => {
                &&& r == Ok::<u64, RdowsError>(p.original_value)
                &&& final(c)@ == queued(old(c)@, wrid, 0, Opcode::AtomicReq, 8)
            },
            RdowsMessage::Error(_, p) => {
                &&& r == Err::<u64, RdowsError>(RdowsError::Protocol(p.error_code))
                &&& final(c)@ == queued(
                    old(c)@,
                    wrid,
                    error::code_value(p.error_code),
                    Opcode::AtomicReq,
                    0,
                )
            },
            _ => {
                &&& r == Err::<u64, RdowsError>(
                    RdowsError::UnexpectedMessage {
                        expected: "ATOMIC_RESP",
                        got: resp@.header().opcode,
                    },
                )
                &&& final(c)@ == old(c)@
            },
        },
{
}

// ---------------------------------------------------------------------------
// What can be asked for
// ---------------------------------------------------------------------------

/// The end of the stretch can be told by the machine.
pub open spec fn end_fits(sg: ScatterGatherEntry) -> bool {
    (sg.offset as usize) + sg.length <= usize::MAX
}

/// A list can be gathered without the machine losing count exactly where no
/// stretch of a known region ends past what it can tell, among those up to the
/// first that cannot be gathered.
pub proof fn law_sg_addressable(
    c: &RdowsConnection,
    sg_list: &[ScatterGatherEntry],
    r: bool,
    i: int,
)
    requires
        call_ensures(RdowsConnection::sg_addressable, (c, sg_list), r),
        0 <= i < sg_list@.len(),
        forall|n: int|
            0 <= n < i ==> effects::stretch_lies_in(c@.regions, #[trigger] sg_list@[n]) && end_fits(
                sg_list@[n],
            ),
    ensures
        c@.regions.contains_key(sg_list@[i].lkey.0) && !end_fits(sg_list@[i]) ==> !r,
        !effects::stretch_lies_in(c@.regions, sg_list@[i]) && end_fits(sg_list@[i]) ==> r,
        !c@.regions.contains_key(sg_list@[i].lkey.0) ==> r,
        i + 1 == sg_list@.len() && end_fits(sg_list@[i]) ==> r,
{
    lemma_addressable(c@.regions, sg_list@, i);
}

proof fn lemma_addressable(
    regions: Map<u32, RegionModel>,
    sg_list: Seq<ScatterGatherEntry>,
    i: int,
)
    requires
        0 <= i < sg_list.len(),
        forall|n: int|
            0 <= n < i ==> effects::stretch_lies_in(regions, #[trigger] sg_list[n]) && end_fits(
                sg_list[n],
            ),
    ensures
        regions.contains_key(sg_list[i].lkey.0) && !end_fits(sg_list[i])
            ==> !model::gather_addressable(regions, sg_list),
        !effects::stretch_lies_in(regions, sg_list[i]) && (end_fits(sg_list[i])
            || !regions.contains_key(sg_list[i].lkey.0)) ==> model::gather_addressable(
            regions,
            sg_list,
        ),
        i + 1 == sg_list.len() && end_fits(sg_list[i]) ==> model::gather_addressable(
            regions,
            sg_list,
        ),
    decreases sg_list.len(),
{
    let head = sg_list.drop_last();
    if i < head.len() {
        assert forall|n: int| 0 <= n < i implies effects::stretch_lies_in(
            regions,
            #[trigger] head[n],
        ) && end_fits(head[n]) by {
            assert(head[n] == sg_list[n]);
        }
        lemma_addressable(regions, head, i);
        if !effects::stretch_lies_in(regions, head[i]) {
            effects::law_gathering_fails_at_first_bad_stretch(regions, head, i);
        }
    } else {
        assert forall|n: int| 0 <= n < head.len() implies effects::stretch_lies_in(
            regions,
            #[trigger] head[n],
        ) by {
            assert(head[n] == sg_list[n]);
        }
        effects::law_gathered_length(regions, head);
        if head.len() > 0 {
            let last = head.len() - 1;
            assert forall|n: int| 0 <= n < last implies effects::stretch_lies_in(
                regions,
                #[trigger] head[n],
            ) && end_fits(head[n]) by {
                assert(head[n] == sg_list[n]);
            }
            assert(head[last] == sg_list[last]);
            lemma_addressable(regions, head, last);
        }
    }
}

/// `grant_fits` says whether the credit counter can hold what a frame in turn
/// grants.
pub proof fn law_grant_fits(c: &RdowsConnection, msg: &RdowsMessage, r: bool)
    requires
        call_ensures(RdowsConnection::grant_fits, (c, msg), r),
    ensures
        r <==> match *msg {
            RdowsMessage::CreditUpdate(h, p) => {
                ||| c@.expected_remote_seq is Some && c@.expected_remote_seq != Some(h.sequence)
                ||| c@.send_credits + p.credit_increment <= u32::MAX
            },
            _ => true,
        },
{
}

} // verus!
