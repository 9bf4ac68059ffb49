//! What holds of the client's end of a session across verbs.
use vstd::prelude::*;

use super::model::{ConnectionModel, PostedModel};
use crate::buffer;
use crate::error::{ErrorCode, RdowsError};
use crate::frame;
use crate::memory::{LKey, RKey};
use crate::message::{AtomicReqPayload, MessageModel, ReadReqPayload};
use crate::opcode::Opcode;
use crate::queue::ScatterGatherEntry;

verus! {

/// A full completion queue refuses every work request at once: nothing is
/// numbered or sent, and nothing changes.
pub proof fn law_full_queue_refuses(
    conn: ConnectionModel,
    wrid: u64,
    rkey: RKey,
    remote_va: u64,
    sg_list: Seq<ScatterGatherEntry>,
    read: ReadReqPayload,
    atomic: AtomicReqPayload,
)
    requires
        conn.cq_full(),
    ensures
        conn.send_posted(wrid, sg_list) == (
            conn,
            Err::<PostedModel, RdowsError>(RdowsError::Protocol(ErrorCode::ErrCqOverflow)),
        ),
        conn.write_posted(wrid, rkey, remote_va, sg_list) == (
            conn,
            Err::<PostedModel, RdowsError>(RdowsError::Protocol(ErrorCode::ErrCqOverflow)),
        ),
        conn.read_posted(wrid, read) == (
            conn,
            Err::<MessageModel, RdowsError>(RdowsError::Protocol(ErrorCode::ErrCqOverflow)),
        ),
        conn.atomic_posted(wrid, atomic) == (
            conn,
            Err::<MessageModel, RdowsError>(RdowsError::Protocol(ErrorCode::ErrCqOverflow)),
        ),
{
}

/// Polling makes room: a queue with a place in it is not full once a completion
/// was taken out.
pub proof fn law_polling_makes_room(conn: ConnectionModel, max: usize)
    requires
        conn.wf(),
        conn.cq_capacity > 0,
        max > 0,
    ensures
        !conn.polled(max).cq_full(),
{
}

/// Completions come out in the order in which they went in: two polls give what
/// one poll for both gives.
pub proof fn law_completions_in_order(conn: ConnectionModel, a: usize, b: usize)
    requires
        a + b <= usize::MAX,
    ensures
        conn.completions.take(conn.polled_count(a)) + conn.polled(a).completions.take(
            conn.polled(a).polled_count(b),
        ) == conn.completions.take(conn.polled_count((a + b) as usize)),
        conn.polled(a).polled(b) == conn.polled((a + b) as usize),
{
    let first = conn.polled_count(a);
    let second = conn.polled(a).polled_count(b);
    let all = conn.completions;
    assert(first + second == conn.polled_count((a + b) as usize));
    assert(all.skip(first).skip(second) =~= all.skip(first + second));
    assert(all.take(first) + all.skip(first).take(second) =~= all.take(first + second));
}

/// A reply that ends a request of the kind `opcode`: the one that it waits for,
/// or an error.
pub open spec fn ends(opcode: Opcode, resp: MessageModel) -> bool {
    match resp {
        MessageModel::RecvComp(_) => opcode == Opcode::Send,
        MessageModel::WriteComp(_) => opcode == Opcode::Write,
        MessageModel::AtomicResp(_, _) => opcode == Opcode::AtomicReq,
        MessageModel::Error(_, _, _, _) => true,
        _ => false,
    }
}

/// The status with which a reply ends a request.
pub open spec fn status_of(resp: MessageModel) -> u16 {
    match resp {
        MessageModel::Error(_, code, _, _) => crate::error::code_value(code),
        _ => 0,
    }
}

/// A message that was accepted for sending leaves exactly one completion when
/// its reply comes, with the status of the reply: there is always room for it.
pub proof fn law_accepted_send_completes(
    conn: ConnectionModel,
    wrid: u64,
    sg_list: Seq<ScatterGatherEntry>,
    resp: MessageModel,
)
    requires
        conn.send_posted(wrid, sg_list).1 is Ok,
        ends(Opcode::Send, resp),
    ensures
        ({
            let (sent, posted) = conn.send_posted(wrid, sg_list);
            let after = sent.send_completed(wrid, posted->Ok_0.byte_count, resp).0;
            &&& after.completions.len() == conn.completions.len() + 1
            &&& after.completions.drop_last() == conn.completions
            &&& after.completions.last().wrid.0 == wrid
            &&& after.completions.last().status == status_of(resp)
        }),
{
    let (sent, posted) = conn.send_posted(wrid, sg_list);
    let after = sent.send_completed(wrid, posted->Ok_0.byte_count, resp).0;
    assert(after.completions.drop_last() =~= conn.completions);
}

/// A write that was accepted leaves exactly one completion when its reply
/// comes, with the status of the reply.
pub proof fn law_accepted_write_completes(
    conn: ConnectionModel,
    wrid: u64,
    rkey: RKey,
    remote_va: u64,
    sg_list: Seq<ScatterGatherEntry>,
    resp: MessageModel,
)
    requires
        conn.write_posted(wrid, rkey, remote_va, sg_list).1 is Ok,
        ends(Opcode::Write, resp),
    ensures
        ({
            let (sent, posted) = conn.write_posted(wrid, rkey, remote_va, sg_list);
            let after = sent.write_completed(wrid, posted->Ok_0.byte_count, resp).0;
            &&& after.completions.len() == conn.completions.len() + 1
            &&& after.completions.drop_last() == conn.completions
            &&& after.completions.last().wrid.0 == wrid
            &&& after.completions.last().status == status_of(resp)
        }),
{
    let (sent, posted) = conn.write_posted(wrid, rkey, remote_va, sg_list);
    let after = sent.write_completed(wrid, posted->Ok_0.byte_count, resp).0;
    assert(after.completions.drop_last() =~= conn.completions);
}

/// An atomic operation that was accepted leaves exactly one completion when its
/// reply comes, with the status of the reply.
pub proof fn law_accepted_atomic_completes(
    conn: ConnectionModel,
    wrid: u64,
    payload: AtomicReqPayload,
    resp: MessageModel,
)
    requires
        conn.atomic_posted(wrid, payload).1 is Ok,
        ends(Opcode::AtomicReq, resp),
    ensures
        ({
            let after = conn.atomic_posted(wrid, payload).0.atomic_completed(wrid, resp).0;
            &&& after.completions.len() == conn.completions.len() + 1
            &&& after.completions.drop_last() == conn.completions
            &&& after.completions.last().wrid.0 == wrid
            &&& after.completions.last().status == status_of(resp)
        }),
{
    let after = conn.atomic_posted(wrid, payload).0.atomic_completed(wrid, resp).0;
    assert(after.completions.drop_last() =~= conn.completions);
}

/// A read that was accepted leaves exactly one completion when its reply comes:
/// an error, or data that the local region has room for.
pub proof fn law_accepted_read_completes(
    conn: ConnectionModel,
    wrid: u64,
    payload: ReadReqPayload,
    resp: MessageModel,
)
    requires
        conn.read_posted(wrid, payload).1 is Ok,
        match resp {
            MessageModel::ReadResp(_, data) => conn.local_written(
                payload.local_lkey.0,
                (payload.local_va as usize) as int,
                data,
            ).1 is Ok,
            MessageModel::Error(_, _, _, _) => true,
            _ => false,
        },
    ensures
        ({
            let after = conn.read_posted(wrid, payload).0.read_completed(
                wrid,
                payload.local_lkey,
                payload.local_va,
                resp,
            ).0;
            &&& after.completions.len() == conn.completions.len() + 1
            &&& after.completions.drop_last() == conn.completions
            &&& after.completions.last().wrid.0 == wrid
            &&& after.completions.last().status == status_of(resp)
        }),
{
    let after = conn.read_posted(wrid, payload).0.read_completed(
        wrid,
        payload.local_lkey,
        payload.local_va,
        resp,
    ).0;
    assert(after.completions.drop_last() =~= conn.completions);
}

/// Without credits a message is refused locally: nothing is sent, and nothing
/// changes.
pub proof fn law_no_credit_no_send(
    conn: ConnectionModel,
    wrid: u64,
    sg_list: Seq<ScatterGatherEntry>,
)
    requires
        conn.send_credits == 0,
        !conn.cq_full(),
    ensures
        conn.send_posted(wrid, sg_list) == (
            conn,
            Err::<PostedModel, RdowsError>(RdowsError::SendCreditsExhausted),
        ),
{
}

/// A message that is received costs one credit; one that is refused costs none;
/// posting costs none.
pub proof fn law_credit_per_received_send(
    conn: ConnectionModel,
    wrid: u64,
    sg_list: Seq<ScatterGatherEntry>,
    resp: MessageModel,
)
    requires
        conn.send_posted(wrid, sg_list).1 is Ok,
        ends(Opcode::Send, resp),
    ensures
        ({
            let (sent, posted) = conn.send_posted(wrid, sg_list);
            let after = sent.send_completed(wrid, posted->Ok_0.byte_count, resp).0;
            &&& sent.send_credits == conn.send_credits
            &&& after.send_credits == if resp is RecvComp {
                conn.send_credits - 1
            } else {
                conn.send_credits as int
            }
        }),
{
}

/// Reads, writes and atomic operations neither need nor cost credits.
pub proof fn law_one_sided_verbs_need_no_credit(
    conn: ConnectionModel,
    credits: u32,
    wrid: u64,
    rkey: RKey,
    remote_va: u64,
    sg_list: Seq<ScatterGatherEntry>,
    read: ReadReqPayload,
    atomic: AtomicReqPayload,
    byte_count: u32,
    resp: MessageModel,
)
    ensures
        ({
            let poor = ConnectionModel { send_credits: credits, ..conn };
            &&& poor.write_posted(wrid, rkey, remote_va, sg_list).1 == conn.write_posted(
                wrid,
                rkey,
                remote_va,
                sg_list,
            ).1
            &&& poor.read_posted(wrid, read).1 == conn.read_posted(wrid, read).1
            &&& poor.atomic_posted(wrid, atomic).1 == conn.atomic_posted(wrid, atomic).1
        }),
        conn.write_posted(wrid, rkey, remote_va, sg_list).0.send_credits == conn.send_credits,
        conn.write_completed(wrid, byte_count, resp).0.send_credits == conn.send_credits,
        conn.read_posted(wrid, read).0.send_credits == conn.send_credits,
        conn.read_completed(wrid, read.local_lkey, read.local_va, resp).0.send_credits
            == conn.send_credits,
        conn.atomic_posted(wrid, atomic).0.send_credits == conn.send_credits,
        conn.atomic_completed(wrid, resp).0.send_credits == conn.send_credits,
{
}

/// A grant adds its credits, and the caller waits on.
pub proof fn law_grant_adds_credits(conn: ConnectionModel, msg: MessageModel)
    requires
        conn.grant_fits(msg),
        conn.accepts_sequence(msg.header().sequence),
    ensures
        msg matches MessageModel::CreditUpdate(_, payload) ==> {
            &&& conn.taken_in(msg).1 == Ok::<bool, RdowsError>(false)
            &&& conn.taken_in(msg).0.send_credits == conn.send_credits + payload.credit_increment
        },
{
}

/// A frame is taken in only if its number follows that of the last one, and the
/// next one must follow it in turn; any other is a gap that changes nothing.
pub proof fn law_frames_in_order(conn: ConnectionModel, expected: u32, msg: MessageModel)
    requires
        conn.expected_remote_seq == Some(expected),
    ensures
        conn.taken_in(msg).1 is Ok <==> msg.header().sequence == expected,
        conn.taken_in(msg).1 is Ok ==> conn.taken_in(msg).0.expected_remote_seq == Some(
            frame::next_sequence(expected),
        ),
        conn.taken_in(msg).1 is Err ==> conn.taken_in(msg) == (
            conn,
            Err::<bool, RdowsError>(RdowsError::Protocol(ErrorCode::ErrSeqGap)),
        ),
{
}

/// What was written into a local buffer is read back.
pub proof fn law_local_write_then_read(conn: ConnectionModel, k: u32, at: int, data: Seq<u8>)
    requires
        at >= 0,
        conn.local_written(k, at, data).1 is Ok,
    ensures
        conn.local_written(k, at, data).0.local_read(k, at, data.len() as int) == Ok::<
            Seq<u8>,
            RdowsError,
        >(data),
{
    buffer::law_splice_read_back(conn.regions[k].bytes, at, data);
}

/// Writing into a local buffer changes no byte outside the place written to, in
/// no buffer.
pub proof fn law_local_write_elsewhere(
    conn: ConnectionModel,
    k: u32,
    at: int,
    data: Seq<u8>,
    other: u32,
    i: int,
)
    requires
        at >= 0,
        conn.local_written(k, at, data).1 is Ok,
        conn.regions.contains_key(other),
        0 <= i < conn.regions[other].bytes.len(),
        other != k || i < at || at + data.len() <= i,
    ensures
        ({
            let after = conn.local_written(k, at, data).0;
            &&& after.regions.contains_key(other)
            &&& after.regions[other].bytes.len() == conn.regions[other].bytes.len()
            &&& after.regions[other].bytes[i] == conn.regions[other].bytes[i]
        }),
{
    buffer::law_splice_read_back(conn.regions[k].bytes, at, data);
    if other == k {
        buffer::law_splice_elsewhere(conn.regions[k].bytes, at, data, i);
    }
}

/// What a read brought is in the local buffer.
pub proof fn law_read_fills_local_buffer(
    conn: ConnectionModel,
    wrid: u64,
    local_lkey: LKey,
    local_va: u64,
    resp: MessageModel,
)
    requires
        conn.read_completed(wrid, local_lkey, local_va, resp).1 is Ok,
    ensures
        resp matches MessageModel::ReadResp(_, data) && conn.read_completed(
            wrid,
            local_lkey,
            local_va,
            resp,
        ).0.local_read(local_lkey.0, (local_va as usize) as int, data.len() as int) == Ok::<
            Seq<u8>,
            RdowsError,
        >(data),
{
    let data = resp->ReadResp_1;
    buffer::law_splice_read_back(
        conn.regions[local_lkey.0].bytes,
        (local_va as usize) as int,
        data,
    );
}

} // verus!
