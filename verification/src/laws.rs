//! What holds of a client and a server that talk to each other.
//!
//! A frame arrives as it was sent, with the length of its payload filled in.
use vstd::prelude::*;

use crate::buffer;
use crate::client::model::ConnectionModel;
use crate::error::{ErrorCode, RdowsError};
use crate::frame::RdowsHeader;
use crate::kv::{KvModel, MR_SIZE, SLOT_COUNT, SLOT_SIZE};
use crate::memory::RKey;
use crate::message::{AtomicReqPayload, MessageModel, RdowsMessage, ReadReqPayload};
use crate::opcode::Opcode;
use crate::queue::ScatterGatherEntry;
use crate::server::session::SessionModel;
use crate::DEFAULT_MAX_MSG_SIZE;

verus! {

/// A header as it arrives.
pub open spec fn filled(h: RdowsHeader, payload_length: u32) -> RdowsHeader {
    RdowsHeader { payload_length, ..h }
}

/// A message as it arrives.
pub open spec fn framed(msg: MessageModel, n: u32) -> MessageModel {
    match msg {
        MessageModel::Connect(h, p) => MessageModel::Connect(filled(h, n), p),
        MessageModel::ConnectAck(h, p) => MessageModel::ConnectAck(filled(h, n), p),
        MessageModel::Disconnect(h) => MessageModel::Disconnect(filled(h, n)),
        MessageModel::MrReg(h, p) => MessageModel::MrReg(filled(h, n), p),
        MessageModel::MrRegAck(h, p) => MessageModel::MrRegAck(filled(h, n), p),
        MessageModel::MrDereg(h, p) => MessageModel::MrDereg(filled(h, n), p),
        MessageModel::MrDeregAck(h, p) => MessageModel::MrDeregAck(filled(h, n), p),
        MessageModel::Send(h, sg) => MessageModel::Send(filled(h, n), sg),
        MessageModel::SendData(h, d) => MessageModel::SendData(filled(h, n), d),
        MessageModel::RecvComp(h) => MessageModel::RecvComp(filled(h, n)),
        MessageModel::Write(h, k, va, len, sg) => MessageModel::Write(
            filled(h, n),
            k,
            va,
            len,
            sg,
        ),
        MessageModel::WriteData(h, d) => MessageModel::WriteData(filled(h, n), d),
        MessageModel::WriteComp(h) => MessageModel::WriteComp(filled(h, n)),
        MessageModel::ReadReq(h, p) => MessageModel::ReadReq(filled(h, n), p),
        MessageModel::ReadResp(h, d) => MessageModel::ReadResp(filled(h, n), d),
        MessageModel::AtomicReq(h, p) => MessageModel::AtomicReq(filled(h, n), p),
        MessageModel::AtomicResp(h, p) => MessageModel::AtomicResp(filled(h, n), p),
        MessageModel::Ack(h) => MessageModel::Ack(filled(h, n)),
        MessageModel::CreditUpdate(h, p) => MessageModel::CreditUpdate(filled(h, n), p),
        MessageModel::Error(h, c, seq, text) => MessageModel::Error(filled(h, n), c, seq, text),
    }
}

/// The session is open on both sides, and each side expects the number that the
/// other gives its next frame.
pub open spec fn in_step(c: ConnectionModel, s: SessionModel) -> bool {
    &&& s.state is Ready
    &&& s.expected_remote_seq == Some(c.next_seq)
    &&& c.expected_remote_seq == Some(s.next_seq)
    &&& c.session_id == s.session_id
    &&& c.pd == s.pd
}

/// CONNECT and its acknowledgement open the session: both sides are in step,
/// agree on the largest message, which is no larger than either accepts, and
/// the client has the server's credits.
pub proof fn law_handshake(
    session_id: u32,
    recv_queue_depth: u32,
    n: u32,
    draw: u32,
    ack: RdowsMessage,
    cq_capacity: nat,
)
    requires
        crate::server::session::unconnected(recv_queue_depth).handled(
            framed(crate::connection::connect_message(session_id), n),
            draw,
        ).1 matches Ok(replies) && replies == seq![ack@],
    ensures
        ({
            let s = crate::server::session::unconnected(recv_queue_depth).handled(
                framed(crate::connection::connect_message(session_id), n),
                draw,
            ).0;
            &&& crate::connection::connect_answer(session_id, ack) matches Ok(params)
            &&& in_step(crate::client::model::fresh(params, cq_capacity), s)
            &&& params.session_id == session_id
            &&& params.max_msg_size == s.max_msg_size
            &&& s.max_msg_size <= DEFAULT_MAX_MSG_SIZE
            &&& params.icc == s.icc
            &&& s.recv_queue_depth == recv_queue_depth
            &&& s.wf()
        }),
{
    let s0 = crate::server::session::unconnected(recv_queue_depth);
    let (_, r) = s0.handled(framed(crate::connection::connect_message(session_id), n), draw);
    let replies = r->Ok_0;
    assert(replies[0] == seq![ack@][0]);
    assert(replies[0] is ConnectAck);
}

/// A session that the server acknowledges has the number that the client chose,
/// so one that was opened under a number other than zero keeps such a number.
pub proof fn law_session_number_is_kept(session_id: u32, ack: RdowsMessage, cq_capacity: nat)
    ensures
        crate::connection::connect_answer(session_id, ack) matches Ok(params)
            ==> crate::client::model::fresh(params, cq_capacity).session_id == session_id,
{
}

/// What a posted write does to a server that allows it: the bytes gathered on
/// the client are in the server's region, the client's request ends with
/// success, and both sides are in step again.
pub proof fn law_remote_write(
    c: ConnectionModel,
    s: SessionModel,
    wrid: u64,
    rkey: RKey,
    va: u64,
    sg_list: Seq<ScatterGatherEntry>,
    bytes: Seq<u8>,
    n1: u32,
    n2: u32,
    n3: u32,
    draw: u32,
)
    requires
        in_step(c, s),
        !c.cq_full(),
        crate::client::model::gathered(c.regions, sg_list) == Ok::<Seq<u8>, ErrorCode>(bytes),
        s.memory.written(rkey, va, bytes) is Ok,
        n1 <= s.max_msg_size,
        n2 <= s.max_msg_size,
    ensures
        ({
            let (c1, posted) = c.write_posted(wrid, rkey, va, sg_list);
            let p = posted->Ok_0;
            let s1 = s.handled(framed(p.request, n1), draw).0;
            let (s2, replies) = s1.handled(framed(p.data, n2), draw);
            let reply = framed(replies->Ok_0[0], n3);
            let (c2, taken) = c1.taken_in(reply);
            let (c3, r) = c2.write_completed(wrid, p.byte_count, reply);
            &&& posted is Ok
            &&& s.handled(framed(p.request, n1), draw).1 == Ok::<Seq<MessageModel>, RdowsError>(
                Seq::empty(),
            )
            &&& replies is Ok
            &&& replies->Ok_0.len() == 1
            &&& s2.memory == s.memory.written(rkey, va, bytes)->Ok_0
            &&& taken == Ok::<bool, RdowsError>(true)
            &&& r == Ok::<(), RdowsError>(())
            &&& c3.completions == c.completions.push(
                c.completion(wrid, 0, Opcode::Write, bytes.len() as u32),
            )
            &&& c3.regions == c.regions
            &&& in_step(c3, s2)
        }),
{
}

/// What a posted read does with a server that allows it: the bytes of the
/// server's region are in the client's local region, the client's request ends
/// with success, and both sides are in step again.
pub proof fn law_remote_read(
    c: ConnectionModel,
    s: SessionModel,
    wrid: u64,
    payload: ReadReqPayload,
    bytes: Seq<u8>,
    n1: u32,
    n2: u32,
    draw: u32,
)
    requires
        in_step(c, s),
        !c.cq_full(),
        s.memory.read(payload.rkey, payload.remote_va, payload.read_len) == Ok::<
            Seq<u8>,
            ErrorCode,
        >(bytes),
        c.regions.contains_key(payload.local_lkey.0),
        (payload.local_va as usize) + bytes.len() <= c.regions[payload.local_lkey.0].bytes.len(),
        n1 <= s.max_msg_size,
    ensures
        ({
            let (c1, posted) = c.read_posted(wrid, payload);
            let (s1, replies) = s.handled(framed(posted->Ok_0, n1), draw);
            let reply = framed(replies->Ok_0[0], n2);
            let (c2, taken) = c1.taken_in(reply);
            let (c3, r) = c2.read_completed(wrid, payload.local_lkey, payload.local_va, reply);
            &&& posted is Ok
            &&& replies is Ok
            &&& replies->Ok_0.len() == 1
            &&& taken == Ok::<bool, RdowsError>(true)
            &&& r == Ok::<(), RdowsError>(())
            &&& c3.local_read(
                payload.local_lkey.0,
                (payload.local_va as usize) as int,
                bytes.len() as int,
            ) == Ok::<Seq<u8>, RdowsError>(bytes)
            &&& c3.completions == c.completions.push(
                c.completion(wrid, 0, Opcode::ReadReq, bytes.len() as u32),
            )
            &&& s1.memory == s.memory
            &&& in_step(c3, s1)
        }),
{
    buffer::law_splice_read_back(
        c.regions[payload.local_lkey.0].bytes,
        (payload.local_va as usize) as int,
        bytes,
    );
}

/// What a posted atomic operation does with a server that allows it: the server
/// performs it, the client gets the word from before it, and both sides are in
/// step again.
pub proof fn law_remote_atomic(
    c: ConnectionModel,
    s: SessionModel,
    wrid: u64,
    payload: AtomicReqPayload,
    n1: u32,
    n2: u32,
    draw: u32,
)
    requires
        in_step(c, s),
        !c.cq_full(),
        s.memory.atomic(
            payload.rkey,
            payload.remote_va,
            payload.atomic_type,
            payload.operand1,
            payload.operand2,
        ) is Ok,
        n1 <= s.max_msg_size,
    ensures
        ({
            let (memory, before) = s.memory.atomic(
                payload.rkey,
                payload.remote_va,
                payload.atomic_type,
                payload.operand1,
                payload.operand2,
            )->Ok_0;
            let (c1, posted) = c.atomic_posted(wrid, payload);
            let (s1, replies) = s.handled(framed(posted->Ok_0, n1), draw);
            let reply = framed(replies->Ok_0[0], n2);
            let (c2, taken) = c1.taken_in(reply);
            let (c3, r) = c2.atomic_completed(wrid, reply);
            &&& posted is Ok
            &&& replies is Ok
            &&& replies->Ok_0.len() == 1
            &&& s1.memory == memory
            &&& taken == Ok::<bool, RdowsError>(true)
            &&& r == Ok::<u64, RdowsError>(before)
            &&& c3.completions == c.completions.push(
                c.completion(wrid, 0, Opcode::AtomicReq, 8),
            )
            &&& in_step(c3, s1)
        }),
{
}

/// What a posted write does with a server that refuses it: the client's request
/// ends with the server's error, the server's memory is as before, and both
/// sides are in step again.
pub proof fn law_remote_write_refused(
    c: ConnectionModel,
    s: SessionModel,
    wrid: u64,
    rkey: RKey,
    va: u64,
    sg_list: Seq<ScatterGatherEntry>,
    bytes: Seq<u8>,
    code: ErrorCode,
    n1: u32,
    n2: u32,
    n3: u32,
    draw: u32,
)
    requires
        in_step(c, s),
        !c.cq_full(),
        crate::client::model::gathered(c.regions, sg_list) == Ok::<Seq<u8>, ErrorCode>(bytes),
        s.memory.written(rkey, va, bytes) == Err::<crate::server::memory_store::StoreModel, _>(
            code,
        ),
        n1 <= s.max_msg_size,
        n2 <= s.max_msg_size,
    ensures
        ({
            let (c1, posted) = c.write_posted(wrid, rkey, va, sg_list);
            let p = posted->Ok_0;
            let s1 = s.handled(framed(p.request, n1), draw).0;
            let (s2, replies) = s1.handled(framed(p.data, n2), draw);
            let reply = framed(replies->Ok_0[0], n3);
            let (c2, taken) = c1.taken_in(reply);
            let (c3, r) = c2.write_completed(wrid, p.byte_count, reply);
            &&& posted is Ok
            &&& replies is Ok
            &&& replies->Ok_0.len() == 1
            &&& s2.memory == s.memory
            &&& taken == Ok::<bool, RdowsError>(true)
            &&& r == Err::<(), RdowsError>(RdowsError::Protocol(code))
            &&& c3.completions == c.completions.push(
                c.completion(wrid, crate::error::code_value(code), Opcode::Write, 0),
            )
            &&& in_step(c3, s2)
        }),
{
}

/// What a posted read does with a server that refuses it.
pub proof fn law_remote_read_refused(
    c: ConnectionModel,
    s: SessionModel,
    wrid: u64,
    payload: ReadReqPayload,
    code: ErrorCode,
    n1: u32,
    n2: u32,
    draw: u32,
)
    requires
        in_step(c, s),
        !c.cq_full(),
        s.memory.read(payload.rkey, payload.remote_va, payload.read_len) == Err::<Seq<u8>, _>(
            code,
        ),
        n1 <= s.max_msg_size,
    ensures
        ({
            let (c1, posted) = c.read_posted(wrid, payload);
            let (s1, replies) = s.handled(framed(posted->Ok_0, n1), draw);
            let reply = framed(replies->Ok_0[0], n2);
            let (c2, taken) = c1.taken_in(reply);
            let (c3, r) = c2.read_completed(wrid, payload.local_lkey, payload.local_va, reply);
            &&& posted is Ok
            &&& replies is Ok
            &&& replies->Ok_0.len() == 1
            &&& s1.memory == s.memory
            &&& taken == Ok::<bool, RdowsError>(true)
            &&& r == Err::<(), RdowsError>(RdowsError::Protocol(code))
            &&& c3.completions == c.completions.push(
                c.completion(wrid, crate::error::code_value(code), Opcode::ReadReq, 0),
            )
            &&& c3.regions == c.regions
            &&& in_step(c3, s1)
        }),
{
}

/// What a posted atomic operation does with a server that refuses it.
pub proof fn law_remote_atomic_refused(
    c: ConnectionModel,
    s: SessionModel,
    wrid: u64,
    payload: AtomicReqPayload,
    code: ErrorCode,
    n1: u32,
    n2: u32,
    draw: u32,
)
    requires
        in_step(c, s),
        !c.cq_full(),
        s.memory.atomic(
            payload.rkey,
            payload.remote_va,
            payload.atomic_type,
            payload.operand1,
            payload.operand2,
        ) == Err::<(crate::server::memory_store::StoreModel, u64), _>(code),
        n1 <= s.max_msg_size,
    ensures
        ({
            let (c1, posted) = c.atomic_posted(wrid, payload);
            let (s1, replies) = s.handled(framed(posted->Ok_0, n1), draw);
            let reply = framed(replies->Ok_0[0], n2);
            let (c2, taken) = c1.taken_in(reply);
            let (c3, r) = c2.atomic_completed(wrid, reply);
            &&& posted is Ok
            &&& replies is Ok
            &&& replies->Ok_0.len() == 1
            &&& s1.memory == s.memory
            &&& taken == Ok::<bool, RdowsError>(true)
            &&& r == Err::<u64, RdowsError>(RdowsError::Protocol(code))
            &&& c3.completions == c.completions.push(
                c.completion(wrid, crate::error::code_value(code), Opcode::AtomicReq, 0),
            )
            &&& in_step(c3, s1)
        }),
{
}

/// What a posted message does with a server that has no receive for it: the
/// client's request ends with ERR_RNR, its credits are as before, and both
/// sides are in step again.
pub proof fn law_remote_send_refused(
    c: ConnectionModel,
    s: SessionModel,
    wrid: u64,
    sg_list: Seq<ScatterGatherEntry>,
    n1: u32,
    n2: u32,
    n3: u32,
    draw: u32,
)
    requires
        in_step(c, s),
        c.send_posted(wrid, sg_list).1 is Ok,
        s.recv_queue_depth == 0,
        n1 <= s.max_msg_size,
        n2 <= s.max_msg_size,
    ensures
        ({
            let (c1, posted) = c.send_posted(wrid, sg_list);
            let p = posted->Ok_0;
            let (s1, replies) = s.handled(framed(p.request, n1), draw);
            let (s2, silence) = s1.handled(framed(p.data, n2), draw);
            let reply = framed(replies->Ok_0[0], n3);
            let (c2, taken) = c1.taken_in(reply);
            let (c3, r) = c2.send_completed(wrid, p.byte_count, reply);
            &&& replies is Ok
            &&& replies->Ok_0.len() == 1
            &&& silence == Ok::<Seq<MessageModel>, RdowsError>(Seq::empty())
            &&& taken == Ok::<bool, RdowsError>(true)
            &&& r == Err::<(), RdowsError>(RdowsError::Protocol(ErrorCode::ErrRnr))
            &&& c3.completions == c.completions.push(
                c.completion(wrid, 0x0010, Opcode::Send, 0),
            )
            &&& c3.send_credits == c.send_credits
            &&& in_step(c3, s2)
        }),
{
}

/// What a posted message does with a server that has a receive for it: the
/// client's request ends with success and costs one credit. If the server then
/// grants credits, the client adds them, and both sides are in step again.
pub proof fn law_remote_send(
    c: ConnectionModel,
    s: SessionModel,
    wrid: u64,
    sg_list: Seq<ScatterGatherEntry>,
    n1: u32,
    n2: u32,
    n3: u32,
    n4: u32,
    draw: u32,
)
    requires
        in_step(c, s),
        s.wf(),
        c.send_posted(wrid, sg_list).1 is Ok,
        s.recv_queue_depth > 0,
        n1 <= s.max_msg_size,
        n2 <= s.max_msg_size,
        c.send_credits + s.sends_since_last_credit <= u32::MAX,
    ensures
        ({
            let (c1, posted) = c.send_posted(wrid, sg_list);
            let p = posted->Ok_0;
            let (s1, silence) = s.handled(framed(p.request, n1), draw);
            let (s2, replies) = s1.handled(framed(p.data, n2), draw);
            let reply = framed(replies->Ok_0[0], n3);
            let (c2, taken) = c1.taken_in(reply);
            let (c3, r) = c2.send_completed(wrid, p.byte_count, reply);
            let grant = framed(replies->Ok_0[1], n4);
            &&& silence == Ok::<Seq<MessageModel>, RdowsError>(Seq::empty())
            &&& replies is Ok
            &&& 1 <= replies->Ok_0.len() <= 2
            &&& taken == Ok::<bool, RdowsError>(true)
            &&& r == Ok::<(), RdowsError>(())
            &&& c3.completions == c.completions.push(
                c.completion(wrid, 0, Opcode::Send, p.byte_count),
            )
            &&& c3.send_credits == c.send_credits - 1
            &&& if replies->Ok_0.len() == 1 {
                in_step(c3, s2)
            } else {
                &&& c3.taken_in(grant).1 == Ok::<bool, RdowsError>(false)
                &&& c3.taken_in(grant).0.send_credits == c.send_credits
                    + s.sends_since_last_credit
                &&& in_step(c3.taken_in(grant).0, s2)
            }
        }),
{
    let (c1, posted) = c.send_posted(wrid, sg_list);
    let p = posted->Ok_0;
    let s1 = s.handled(framed(p.request, n1), draw).0;
    let replies = s1.handled(framed(p.data, n2), draw).1->Ok_0;
    assert(replies[0] is RecvComp);
}

/// The store's table lies in the server's region `store.remote_rkey`, which
/// allows reads and writes, and the store has a local buffer for a slot and
/// room for a completion.
pub open spec fn serves(store: KvModel, s: SessionModel) -> bool {
    &&& in_step(store.conn, s)
    &&& !store.conn.cq_full()
    &&& store.conn.regions.contains_key(store.local_lkey.0)
    &&& store.conn.regions[store.local_lkey.0].bytes.len() >= SLOT_SIZE
    &&& s.memory.regions.contains_key(store.remote_rkey.0)
    &&& s.memory.regions[store.remote_rkey.0].access.remote_write
    &&& s.memory.regions[store.remote_rkey.0].access.remote_read
    &&& s.memory.regions[store.remote_rkey.0].bytes.len() >= MR_SIZE
}

/// The table in the region of the server that the store uses.
pub open spec fn remote_table(store: KvModel, s: SessionModel) -> Seq<Seq<u8>> {
    crate::kv::laws::table_of(s.memory.regions[store.remote_rkey.0].bytes)
}

/// A slot that the store writes is the slot of the remote table, and no other
/// slot changes; after that the store can go on.
pub proof fn law_store_writes_remote_slot(
    store: KvModel,
    s: SessionModel,
    index: int,
    data: Seq<u8>,
    n1: u32,
    n2: u32,
    n3: u32,
    draw: u32,
)
    requires
        serves(store, s),
        0 <= index < SLOT_COUNT,
        data.len() == SLOT_SIZE,
        n1 <= s.max_msg_size,
        n2 <= s.max_msg_size,
    ensures
        ({
            let (k1, posted) = store.write_posted(index, data);
            let (wrid, p) = posted->Ok_0;
            let s1 = s.handled(framed(p.request, n1), draw).0;
            let (s2, replies) = s1.handled(framed(p.data, n2), draw);
            let reply = framed(replies->Ok_0[0], n3);
            let k2 = KvModel { conn: k1.conn.taken_in(reply).0, ..k1 };
            let (k3, r) = k2.write_done(wrid, p.byte_count, reply);
            &&& posted is Ok
            &&& replies is Ok
            &&& k1.conn.taken_in(reply).1 == Ok::<bool, RdowsError>(true)
            &&& r == Ok::<(), RdowsError>(())
            &&& remote_table(k3, s2) == remote_table(store, s).update(index, data)
            &&& serves(k3, s2)
        }),
{
    let whole = ScatterGatherEntry {
        lkey: store.local_lkey,
        offset: 0,
        length: SLOT_SIZE as u32,
    };
    let (filled, _) = store.conn.local_written(store.local_lkey.0, 0, data);
    crate::kv::laws::law_slot_write_sends_the_slot(store, index, data);
    assert(crate::client::model::gathered(filled.regions, seq![whole]) == Ok::<
        Seq<u8>,
        ErrorCode,
    >(data)) by {
        reveal_with_fuel(crate::client::model::gathered, 2);
        let bytes = store.conn.regions[store.local_lkey.0].bytes;
        buffer::law_splice_read_back(bytes, 0, data);
        assert(Seq::<u8>::empty() + filled.regions[store.local_lkey.0].bytes.subrange(
            0,
            SLOT_SIZE as int,
        ) =~= data);
        assert(seq![whole].drop_last() =~= Seq::<ScatterGatherEntry>::empty());
    }
    let va = (index * SLOT_SIZE) as u64;
    let region = s.memory.regions[store.remote_rkey.0].bytes;
    assert(s.memory.written(store.remote_rkey, va, data) is Ok);
    law_remote_write(
        filled,
        s,
        store.next_wrid,
        store.remote_rkey,
        va,
        seq![whole],
        data,
        n1,
        n2,
        n3,
        draw,
    );
    crate::kv::laws::law_region_is_the_table(region, index, data);
    buffer::law_splice_read_back(region, va as int, data);
    buffer::law_splice_read_back(
        store.conn.regions[store.local_lkey.0].bytes,
        0,
        data,
    );
}

/// A slot that the store reads is the slot of the remote table; after that the
/// store can go on.
pub proof fn law_store_reads_remote_slot(
    store: KvModel,
    s: SessionModel,
    index: int,
    n1: u32,
    n2: u32,
    draw: u32,
)
    requires
        serves(store, s),
        0 <= index < SLOT_COUNT,
        n1 <= s.max_msg_size,
    ensures
        ({
            let (k1, posted) = store.read_posted(index);
            let (wrid, request) = posted->Ok_0;
            let (s1, replies) = s.handled(framed(request, n1), draw);
            let reply = framed(replies->Ok_0[0], n2);
            let k2 = KvModel { conn: k1.conn.taken_in(reply).0, ..k1 };
            let (k3, r) = k2.read_back(wrid, reply);
            &&& posted is Ok
            &&& replies is Ok
            &&& k1.conn.taken_in(reply).1 == Ok::<bool, RdowsError>(true)
            &&& r == Ok::<Seq<u8>, RdowsError>(remote_table(store, s)[index])
            &&& s1.memory == s.memory
            &&& serves(k3, s1)
        }),
{
    let va = (index * SLOT_SIZE) as u64;
    let payload = ReadReqPayload {
        rkey: store.remote_rkey,
        remote_va: va,
        read_len: SLOT_SIZE as u64,
        local_lkey: store.local_lkey,
        local_va: 0,
    };
    let bytes = remote_table(store, s)[index];
    assert(s.memory.read(store.remote_rkey, va, SLOT_SIZE as u64) == Ok::<Seq<u8>, ErrorCode>(
        bytes,
    ));
    law_remote_read(store.conn, s, store.next_wrid, payload, bytes, n1, n2, draw);
    buffer::law_splice_read_back(store.conn.regions[store.local_lkey.0].bytes, 0, bytes);
}

/// A region is registered on both sides, under the keys that the server chose,
/// with zeros in it; both sides are in step again.
pub proof fn law_remote_register(
    c: ConnectionModel,
    s: SessionModel,
    access: crate::memory::AccessFlags,
    region_len: u64,
    n1: u32,
    n2: u32,
    draw: u32,
)
    requires
        in_step(c, s),
        s.memory.registered(access, region_len, draw) is Some,
        n1 <= s.max_msg_size,
    ensures
        ({
            let (memory, lkey, rkey) = s.memory.registered(access, region_len, draw)->0;
            let (s1, replies) = s.handled(
                framed(c.register_request(access, region_len), n1),
                draw,
            );
            let reply = framed(replies->Ok_0[0], n2);
            let (c1, taken) = c.numbered().taken_in(reply);
            let (c2, r) = c1.registered(region_len, reply);
            &&& replies is Ok
            &&& replies->Ok_0.len() == 1
            &&& s1.memory == memory
            &&& taken == Ok::<bool, RdowsError>(true)
            &&& r == Ok::<crate::client::model::RegionModel, RdowsError>(
                crate::client::model::new_region(lkey, rkey, region_len),
            )
            &&& c2.regions == c.regions.insert(
                lkey.0,
                crate::client::model::new_region(lkey, rkey, region_len),
            )
            &&& in_step(c2, s1)
        }),
{
}

} // verus!
