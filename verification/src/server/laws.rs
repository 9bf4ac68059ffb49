//! What holds of the server's memory and of a session across messages.
use vstd::prelude::*;

use super::handler::PendingOp;
use super::memory_store::StoreModel;
use super::session::SessionModel;
use crate::buffer;
use crate::error::{ErrorCode, RdowsError};
use crate::frame;
use crate::frame::RdowsHeader;
use crate::memory::{AccessFlags, LKey, RKey};
use crate::message::{AtomicReqPayload, AtomicType, MessageModel, ReadReqPayload};
use crate::opcode::Opcode;
use crate::queue::ScatterGatherEntry;
use crate::{DEFAULT_MAX_MSG_SIZE, RDOWS_VERSION};

verus! {

/// The session is open, and `msg` is the frame that it expects next, of a size
/// that was agreed on.
pub open spec fn takes(s: SessionModel, msg: MessageModel) -> bool {
    &&& s.state is Ready
    &&& s.accepts_sequence(msg.header().sequence)
    &&& msg.header().payload_length <= s.max_msg_size
}

/// A single ERROR frame with the code `code`.
pub open spec fn is_error(replies: Seq<MessageModel>, code: ErrorCode) -> bool {
    replies.len() == 1 && (replies[0] matches MessageModel::Error(_, c, _, _) && c == code)
}

/// What was written to a region is read back from it, where the region allows
/// both.
pub proof fn law_read_after_write(m: StoreModel, rkey: RKey, va: u64, data: Seq<u8>)
    requires
        m.written(rkey, va, data) is Ok,
        m.regions[rkey.0].access.remote_read,
        data.len() <= u64::MAX,
    ensures
        m.written(rkey, va, data)->Ok_0.read(rkey, va, data.len() as u64) == Ok::<
            Seq<u8>,
            ErrorCode,
        >(data),
{
    buffer::law_splice_read_back(m.regions[rkey.0].bytes, va as int, data);
}

/// A write changes no byte outside the place written to, in no region.
pub proof fn law_write_elsewhere(
    m: StoreModel,
    rkey: RKey,
    va: u64,
    data: Seq<u8>,
    other: u32,
    i: int,
)
    requires
        m.written(rkey, va, data) is Ok,
        m.regions.contains_key(other),
        0 <= i < m.regions[other].bytes.len(),
        other != rkey.0 || i < va || va + data.len() <= i,
    ensures
        ({
            let after = m.written(rkey, va, data)->Ok_0;
            &&& after.regions.contains_key(other)
            &&& after.regions[other].bytes.len() == m.regions[other].bytes.len()
            &&& after.regions[other].bytes[i] == m.regions[other].bytes[i]
        }),
{
    if other == rkey.0 {
        buffer::law_splice_elsewhere(m.regions[other].bytes, va as int, data, i);
    } else {
        buffer::law_splice_read_back(m.regions[rkey.0].bytes, va as int, data);
    }
}

/// A fetch-and-add leaves the sum, modulo the size of the word, and gives back
/// the word from before it.
pub proof fn law_fetch_and_add(m: StoreModel, rkey: RKey, va: u64, addend: u64, unused: u64)
    requires
        m.atomic(rkey, va, AtomicType::FetchAndAdd, addend, unused) is Ok,
    ensures
        ({
            let (after, before) = m.atomic(
                rkey,
                va,
                AtomicType::FetchAndAdd,
                addend,
                unused,
            )->Ok_0;
            &&& before == m.word(rkey, va)
            &&& after.word(rkey, va) == (before + addend) % 0x1_0000_0000_0000_0000
        }),
{
    let after = ((m.word(rkey, va) + addend) % 0x1_0000_0000_0000_0000) as u64;
    lemma_word_written(m, rkey, va, after);
}

/// A compare-and-swap puts `swap` in place of a word that equals `compare`,
/// leaves any other word as it is, and gives back the word from before it.
pub proof fn law_compare_and_swap(m: StoreModel, rkey: RKey, va: u64, compare: u64, swap: u64)
    requires
        m.atomic(rkey, va, AtomicType::CompareAndSwap, compare, swap) is Ok,
    ensures
        ({
            let (after, before) = m.atomic(
                rkey,
                va,
                AtomicType::CompareAndSwap,
                compare,
                swap,
            )->Ok_0;
            &&& before == m.word(rkey, va)
            &&& before == compare ==> after.word(rkey, va) == swap
            &&& before != compare ==> after == m
        }),
{
    let before = m.word(rkey, va);
    let after = if before == compare {
        swap
    } else {
        before
    };
    lemma_word_written(m, rkey, va, after);
    if before != compare {
        let bytes = m.regions[rkey.0].bytes;
        let word = bytes.subrange(va as int, va + 8);
        lemma_word_bound(word);
        buffer::law_be_bytes_of_value(word);
        assert(buffer::splice(bytes, va as int, word) =~= bytes);
        let (model, _) = m.atomic(rkey, va, AtomicType::CompareAndSwap, compare, swap)->Ok_0;
        assert(model.regions =~= m.regions);
    }
}

proof fn lemma_word_bound(word: Seq<u8>)
    requires
        word.len() == 8,
    ensures
        buffer::be_value(word) <= u64::MAX,
{
    reveal_with_fuel(buffer::be_count, 9);
    buffer::lemma_be_value_bound(word);
}

proof fn lemma_word_written(m: StoreModel, rkey: RKey, va: u64, word: u64)
    requires
        m.in_bounds(rkey, va, 8),
    ensures
        ({
            let bytes = buffer::splice(
                m.regions[rkey.0].bytes,
                va as int,
                buffer::be_bytes(word as nat, 8),
            );
            m.with_bytes(rkey, bytes).word(rkey, va) == word
        }),
{
    reveal_with_fuel(buffer::be_count, 9);
    buffer::law_be_value_of_bytes(word as nat, 8);
    buffer::law_splice_read_back(
        m.regions[rkey.0].bytes,
        va as int,
        buffer::be_bytes(word as nat, 8),
    );
}

/// A new region is all zeros, under a remote key that is not zero and that the
/// session never handed out before.
pub proof fn law_new_region(m: StoreModel, access: AccessFlags, region_len: u64, draw: u32)
    ensures
        m.registered(access, region_len, draw) matches Some((after, lkey, rkey)) ==> {
            &&& rkey.0 != 0
            &&& lkey.0 != 0
            &&& !m.issued.contains(rkey.0)
            &&& after.issued.contains(rkey.0)
            &&& after.regions.contains_key(rkey.0)
            &&& after.regions[rkey.0].bytes.len() == region_len
            &&& forall|i: int| 0 <= i < region_len ==> after.regions[rkey.0].bytes[i] == 0
        },
{
    super::memory_store::law_offered_key_is_fresh(m.issued, draw, 0);
}

/// A region that was given up is gone: its key names nothing any more.
pub proof fn law_deregistered_region_is_gone(m: StoreModel, lkey: LKey, va: u64, data: Seq<u8>)
    requires
        m.wf(),
    ensures
        m.deregistered(lkey) matches Some(after) ==> {
            let rkey = RKey(m.rkeys[lkey.0]);
            &&& after.written(rkey, va, data) == Err::<StoreModel, ErrorCode>(
                ErrorCode::ErrInvalidMkey,
            )
            &&& after.issued.contains(rkey.0)
        },
{
}

/// No message makes a session forget a remote key that it handed out, so none
/// is ever handed out twice: a new one was not in use before.
pub proof fn law_keys_are_never_reused(s: SessionModel, msg: MessageModel, draw: u32, k: u32)
    ensures
        ({
            let next = s.handled(msg, draw).0;
            &&& s.memory.issued.contains(k) ==> next.memory.issued.contains(k)
            &&& next.memory.regions.contains_key(k) && !s.memory.regions.contains_key(k)
                ==> !s.memory.issued.contains(k)
        }),
{
    super::memory_store::law_offered_key_is_fresh(s.memory.issued, draw, 0);
}

/// The session after a run of messages, each with a random number.
pub open spec fn after_all(s: SessionModel, msgs: Seq<(MessageModel, u32)>) -> SessionModel
    decreases msgs.len(),
{
    if msgs.len() == 0 {
        s
    } else {
        let (msg, draw) = msgs.last();
        after_all(s, msgs.drop_last()).handled(msg, draw).0
    }
}

/// A remote key that was handed out is not handed out again, whatever messages
/// come in between: giving up its region does not free the key.
pub proof fn law_no_key_twice_in_a_session(
    s: SessionModel,
    msgs: Seq<(MessageModel, u32)>,
    k: u32,
    access: AccessFlags,
    region_len: u64,
    draw: u32,
)
    requires
        s.memory.issued.contains(k),
    ensures
        after_all(s, msgs).memory.issued.contains(k),
        after_all(s, msgs).memory.registered(access, region_len, draw) matches Some(
            (_, _, rkey),
        ) ==> rkey.0 != k,
    decreases msgs.len(),
{
    if msgs.len() > 0 {
        let (msg, d) = msgs.last();
        law_no_key_twice_in_a_session(s, msgs.drop_last(), k, access, region_len, draw);
        law_keys_are_never_reused(after_all(s, msgs.drop_last()), msg, d, k);
    }
    law_new_region(after_all(s, msgs).memory, access, region_len, draw);
}

/// A session that refuses a message with an ERROR frame leaves the memory as it
/// was.
pub proof fn law_refused_message_changes_no_memory(
    s: SessionModel,
    msg: MessageModel,
    draw: u32,
    code: ErrorCode,
)
    requires
        s.handled(msg, draw).1 matches Ok(replies) && is_error(replies, code),
    ensures
        s.handled(msg, draw).0.memory == s.memory,
{
}

/// Read and atomic requests without a valid key, without the right, out of
/// bounds or out of alignment are answered with the error for it.
pub proof fn law_refusals(
    s: SessionModel,
    h: RdowsHeader,
    read: ReadReqPayload,
    atomic: AtomicReqPayload,
    draw: u32,
)
    requires
        takes(s, MessageModel::ReadReq(h, read)),
    ensures
        s.memory.read(read.rkey, read.remote_va, read.read_len) matches Err(code) ==> (s.handled(
            MessageModel::ReadReq(h, read),
            draw,
        ).1 matches Ok(replies) && is_error(replies, code)),
        s.memory.atomic(
            atomic.rkey,
            atomic.remote_va,
            atomic.atomic_type,
            atomic.operand1,
            atomic.operand2,
        ) matches Err(code) ==> (s.handled(MessageModel::AtomicReq(h, atomic), draw).1 matches Ok(
            replies,
        ) && is_error(replies, code)),
{
}

/// A write without a valid key, without the right or out of bounds is answered,
/// once its data has come, with the error for it.
pub proof fn law_write_refusal(
    s: SessionModel,
    write: RdowsHeader,
    data_header: RdowsHeader,
    rkey: RKey,
    va: u64,
    length: u64,
    sg_list: Seq<ScatterGatherEntry>,
    data: Seq<u8>,
    draw: u32,
)
    requires
        takes(s, MessageModel::Write(write, rkey, va, length, sg_list)),
        data_header.sequence == frame::next_sequence(write.sequence),
        data_header.payload_length <= s.max_msg_size,
    ensures
        s.memory.written(rkey, va, data) matches Err(code) ==> {
            let request = MessageModel::Write(write, rkey, va, length, sg_list);
            let (s1, r1) = s.handled(request, draw);
            let (s2, r2) = s1.handled(MessageModel::WriteData(data_header, data), draw);
            &&& r1 == Ok::<Seq<MessageModel>, RdowsError>(Seq::empty())
            &&& r2 matches Ok(replies) && is_error(replies, code)
            &&& s2.state is Ready
            &&& s2.memory == s.memory
        },
{
}

/// The two frames of a write to an open session store its data, and a read of
/// the same place then brings the data back.
pub proof fn law_write_then_read(
    s: SessionModel,
    write: RdowsHeader,
    data_header: RdowsHeader,
    read: RdowsHeader,
    rkey: RKey,
    va: u64,
    data: Seq<u8>,
    sg_list: Seq<ScatterGatherEntry>,
    local_lkey: LKey,
    local_va: u64,
    draw: u32,
)
    requires
        takes(s, MessageModel::Write(write, rkey, va, data.len() as u64, sg_list)),
        data_header.sequence == frame::next_sequence(write.sequence),
        data_header.payload_length <= s.max_msg_size,
        read.sequence == frame::next_sequence(data_header.sequence),
        read.payload_length <= s.max_msg_size,
        s.memory.written(rkey, va, data) is Ok,
        s.memory.regions[rkey.0].access.remote_read,
        data.len() <= u64::MAX,
    ensures
        ({
            let request = MessageModel::Write(write, rkey, va, data.len() as u64, sg_list);
            let (s1, r1) = s.handled(request, draw);
            let (s2, r2) = s1.handled(MessageModel::WriteData(data_header, data), draw);
            let payload = ReadReqPayload {
                rkey,
                remote_va: va,
                read_len: data.len() as u64,
                local_lkey,
                local_va,
            };
            let (s3, r3) = s2.handled(MessageModel::ReadReq(read, payload), draw);
            &&& r1 == Ok::<Seq<MessageModel>, RdowsError>(Seq::empty())
            &&& r2 == Ok::<Seq<MessageModel>, RdowsError>(
                seq![MessageModel::WriteComp(s.header(Opcode::WriteComp, data_header.wrid))],
            )
            &&& r3 == Ok::<Seq<MessageModel>, RdowsError>(
                seq![
                    MessageModel::ReadResp(
                        s.numbered().header(Opcode::ReadResp, read.wrid),
                        data,
                    ),
                ],
            )
            &&& s3.state is Ready
        }),
{
    law_read_after_write(s.memory, rkey, va, data);
}

/// A message to a session with a posted receive takes that receive, and its
/// data is answered with RECV_COMP.
pub proof fn law_send_takes_a_receive(
    s: SessionModel,
    send: RdowsHeader,
    data_header: RdowsHeader,
    sg_list: Seq<ScatterGatherEntry>,
    data: Seq<u8>,
    draw: u32,
)
    requires
        takes(s, MessageModel::Send(send, sg_list)),
        data_header.sequence == frame::next_sequence(send.sequence),
        data_header.payload_length <= s.max_msg_size,
        s.recv_queue_depth > 0,
    ensures
        ({
            let (s1, r1) = s.handled(MessageModel::Send(send, sg_list), draw);
            let (s2, r2) = s1.handled(MessageModel::SendData(data_header, data), draw);
            &&& r1 == Ok::<Seq<MessageModel>, RdowsError>(Seq::empty())
            &&& r2 matches Ok(replies)
            &&& replies.len() >= 1
            &&& replies[0] == MessageModel::RecvComp(s.header(Opcode::RecvComp, data_header.wrid))
            &&& s2.recv_queue_depth == s.recv_queue_depth - 1
            &&& s2.state is Ready
            &&& s2.memory == s.memory
        }),
{
}

/// A message to a session without a posted receive is refused with ERR_RNR and
/// its data is dropped in silence; the session stays open, and nothing but the
/// numbering of frames has changed.
pub proof fn law_no_receive_no_send(
    s: SessionModel,
    send: RdowsHeader,
    data_header: RdowsHeader,
    sg_list: Seq<ScatterGatherEntry>,
    data: Seq<u8>,
    draw: u32,
)
    requires
        takes(s, MessageModel::Send(send, sg_list)),
        data_header.sequence == frame::next_sequence(send.sequence),
        data_header.payload_length <= s.max_msg_size,
        s.recv_queue_depth == 0,
    ensures
        ({
            let (s1, r1) = s.handled(MessageModel::Send(send, sg_list), draw);
            let (s2, r2) = s1.handled(MessageModel::SendData(data_header, data), draw);
            &&& r1 matches Ok(replies) && is_error(replies, ErrorCode::ErrRnr)
            &&& r2 == Ok::<Seq<MessageModel>, RdowsError>(Seq::empty())
            &&& s2 == (SessionModel {
                pending_op: PendingOp::Idle,
                ..s.numbered().received(data_header.sequence)
            })
        }),
{
}

/// Messages, each announced and sent, numbered from `seq` on.
pub open spec fn are_sends(
    s: SessionModel,
    seq: u32,
    frames: Seq<(MessageModel, MessageModel)>,
) -> bool {
    forall|i: int|
        0 <= i < frames.len() ==> {
            let (send, data) = #[trigger] frames[i];
            &&& send is Send
            &&& data is SendData
            &&& send.header().sequence == frame::sequence_after(seq, (2 * i) as nat)
            &&& data.header().sequence == frame::sequence_after(seq, (2 * i + 1) as nat)
            &&& send.header().payload_length <= s.max_msg_size
            &&& data.header().payload_length <= s.max_msg_size
        }
}

/// The session after the frames of all these messages.
pub open spec fn after_sends(
    s: SessionModel,
    frames: Seq<(MessageModel, MessageModel)>,
    draw: u32,
) -> SessionModel
    decreases frames.len(),
{
    if frames.len() == 0 {
        s
    } else {
        let (send, data) = frames.last();
        after_sends(s, frames.drop_last(), draw).handled(send, draw).0.handled(data, draw).0
    }
}

/// Posted receives run out and are not replaced: every message takes one until
/// none is left, and the session is open all the while.
pub proof fn law_receives_run_out(
    s: SessionModel,
    seq: u32,
    frames: Seq<(MessageModel, MessageModel)>,
    draw: u32,
)
    requires
        s.state is Ready,
        s.expected_remote_seq == Some(seq),
        are_sends(s, seq, frames),
    ensures
        ({
            let after = after_sends(s, frames, draw);
            &&& after.state is Ready
            &&& after.expected_remote_seq == Some(
                frame::sequence_after(seq, 2 * frames.len()),
            )
            &&& after.recv_queue_depth == if frames.len() <= s.recv_queue_depth {
                s.recv_queue_depth - frames.len()
            } else {
                0
            }
            &&& after.memory == s.memory
            &&& after.max_msg_size == s.max_msg_size
        }),
    decreases frames.len(),
{
    if frames.len() > 0 {
        let head = frames.drop_last();
        let n = head.len();
        assert forall|i: int| 0 <= i < head.len() implies #[trigger] head[i] == frames[i] by {}
        law_receives_run_out(s, seq, head, draw);
        assert(frames.last() == frames[n as int]);
        assert(frame::sequence_after(seq, 2 * n + 1) == frame::next_sequence(
            frame::sequence_after(seq, 2 * n),
        ));
        assert(frame::sequence_after(seq, 2 * n + 2) == frame::next_sequence(
            frame::sequence_after(seq, 2 * n + 1),
        ));
        assert(2 * frames.len() == 2 * n + 2);
    }
}

/// Frames of a client that stays connected: numbered from `seq` on, each of a
/// size that was agreed on.
pub open spec fn are_in_turn(s: SessionModel, seq: u32, msgs: Seq<(MessageModel, u32)>) -> bool {
    forall|i: int|
        0 <= i < msgs.len() ==> {
            let (msg, _) = #[trigger] msgs[i];
            &&& msg.header().sequence == frame::sequence_after(seq, i as nat)
            &&& msg.header().payload_length <= s.max_msg_size
            &&& !(msg is Disconnect)
        }
}

/// How many of the frames announce a message.
pub open spec fn send_count(msgs: Seq<(MessageModel, u32)>) -> nat
    decreases msgs.len(),
{
    if msgs.len() == 0 {
        0
    } else {
        send_count(msgs.drop_last()) + if msgs.last().0 is Send {
            1nat
        } else {
            0
        }
    }
}

/// Posted receives run out whatever lies between the messages: each SEND takes
/// one until none is left, no other frame takes or gives one, and the session is
/// open all the while.
pub proof fn law_receives_run_out_among_requests(
    s: SessionModel,
    seq: u32,
    msgs: Seq<(MessageModel, u32)>,
)
    requires
        s.state is Ready,
        s.expected_remote_seq == Some(seq),
        are_in_turn(s, seq, msgs),
    ensures
        ({
            let after = after_all(s, msgs);
            &&& after.state is Ready
            &&& after.expected_remote_seq == Some(frame::sequence_after(seq, msgs.len()))
            &&& after.max_msg_size == s.max_msg_size
            &&& after.recv_queue_depth == if send_count(msgs) <= s.recv_queue_depth {
                s.recv_queue_depth - send_count(msgs)
            } else {
                0
            }
        }),
    decreases msgs.len(),
{
    if msgs.len() > 0 {
        let head = msgs.drop_last();
        assert forall|i: int| 0 <= i < head.len() implies #[trigger] head[i] == msgs[i] by {}
        law_receives_run_out_among_requests(s, seq, head);
        assert(msgs.last() == msgs[head.len() as int]);
    }
}

/// A SEND after any run of frames is accepted in silence while fewer messages
/// were announced before it than receives were posted, and refused with ERR_RNR
/// from then on.
pub proof fn law_send_among_requests(
    s: SessionModel,
    seq: u32,
    msgs: Seq<(MessageModel, u32)>,
    send: MessageModel,
    draw: u32,
)
    requires
        s.state is Ready,
        s.expected_remote_seq == Some(seq),
        are_in_turn(s, seq, msgs),
        send is Send,
        send.header().sequence == frame::sequence_after(seq, msgs.len()),
        send.header().payload_length <= s.max_msg_size,
    ensures
        after_all(s, msgs).handled(send, draw).1 matches Ok(replies) && if send_count(msgs)
            < s.recv_queue_depth {
            replies.len() == 0
        } else {
            is_error(replies, ErrorCode::ErrRnr)
        },
{
    law_receives_run_out_among_requests(s, seq, msgs);
}

/// Requests that are not messages are answered alike however many receives are
/// posted.
pub proof fn law_one_sided_requests_need_no_receive(
    s: SessionModel,
    depth: u32,
    msg: MessageModel,
    draw: u32,
)
    requires
        !(msg is Send),
    ensures
        ({
            let other = SessionModel { recv_queue_depth: depth, ..s };
            &&& other.handled(msg, draw).1 == s.handled(msg, draw).1
            &&& other.handled(msg, draw).0 == (SessionModel {
                recv_queue_depth: depth,
                ..s.handled(msg, draw).0
            })
        }),
{
}

/// Every request is answered by exactly one frame: a request of one frame at
/// once, one of two frames with its data. Credits may be granted besides.
pub proof fn law_one_answer_per_request(s: SessionModel, msg: MessageModel, draw: u32)
    requires
        takes(s, msg),
    ensures
        ({
            let (next, r) = s.handled(msg, draw);
            let replies = r->Ok_0;
            &&& r is Ok
            &&& msg is ReadReq || msg is AtomicReq || msg is MrReg || msg is MrDereg
                ==> replies.len() == 1
            &&& msg is Write ==> replies.len() == 0 && next.pending_op is AwaitingWriteData
            &&& msg is WriteData ==> replies.len() == 1
            &&& msg is Send ==> (if replies.len() == 0 {
                next.pending_op is AwaitingSendData
            } else {
                replies.len() == 1 && next.pending_op is DiscardingSendData
            })
            &&& msg is SendData && s.pending_op is AwaitingSendData ==> replies.len() >= 1
                && replies[0] is RecvComp && forall|i: int|
                1 <= i < replies.len() ==> #[trigger] replies[i] is CreditUpdate
            &&& msg is SendData && s.pending_op is DiscardingSendData ==> replies.len() == 0
        }),
{
}

/// Only the key of a new region depends on the random number.
pub proof fn law_draw_is_for_new_regions(s: SessionModel, msg: MessageModel, d1: u32, d2: u32)
    requires
        !(msg is MrReg),
    ensures
        s.handled(msg, d1) == s.handled(msg, d2),
{
}

/// Credits are granted back for every message received, a quarter of the
/// initial ones at a time: none is lost.
pub proof fn law_credits_are_granted_back(s: SessionModel)
    requires
        s.sends_since_last_credit < u32::MAX,
    ensures
        ({
            let (next, grant) = s.credited();
            let granted: int = if grant.len() == 0 {
                0
            } else {
                grant[0]->CreditUpdate_1.credit_increment as int
            };
            &&& grant.len() <= 1
            &&& grant.len() == 1 ==> grant[0] is CreditUpdate
            &&& next.sends_since_last_credit + granted == s.sends_since_last_credit + 1
            &&& grant.len() == 1 <==> s.sends_since_last_credit + 1 >= s.icc / 4
        }),
{
}

/// The largest message that a session agrees on is no larger than either side
/// accepts, and the acknowledgement tells it to the client.
pub proof fn law_negotiated_size(s: SessionModel, msg: MessageModel, draw: u32)
    requires
        s.state is AwaitingConnect,
        s.accepts_sequence(msg.header().sequence),
        msg is Connect,
        msg.header().version == RDOWS_VERSION,
    ensures
        ({
            let (next, replies) = s.handled(msg, draw);
            &&& next.state is Ready
            &&& next.max_msg_size <= msg->Connect_1.max_msg_size
            &&& next.max_msg_size <= DEFAULT_MAX_MSG_SIZE
            &&& replies matches Ok(list)
            &&& list.len() == 1
            &&& list[0] matches MessageModel::ConnectAck(_, ack) && ack.max_msg_size
                == next.max_msg_size && ack.icc == s.icc
        }),
{
}

/// A client of another protocol version is told so, and the session closes.
pub proof fn law_other_version_is_refused(s: SessionModel, msg: MessageModel, draw: u32)
    requires
        s.state is AwaitingConnect,
        s.accepts_sequence(msg.header().sequence),
        msg is Connect,
        msg.header().version != RDOWS_VERSION,
    ensures
        s.handled(msg, draw).0.state is Closed,
        s.handled(msg, draw).1 matches Ok(replies) && is_error(
            replies,
            ErrorCode::ErrProtoVersion,
        ),
{
}

/// A frame out of order is answered with ERR_SEQ_GAP, and the session closes.
pub proof fn law_gap_closes_the_session(s: SessionModel, msg: MessageModel, draw: u32)
    requires
        !(s.state is Closed),
        !s.accepts_sequence(msg.header().sequence),
    ensures
        s.handled(msg, draw).0.state is Closed,
        s.handled(msg, draw).1 matches Ok(replies) && is_error(replies, ErrorCode::ErrSeqGap),
        s.handled(msg, draw).0.memory == s.memory,
{
}

/// A closed session stays closed, changes nothing and sends nothing.
pub proof fn law_closed_is_closed(s: SessionModel, msg: MessageModel, draw: u32)
    requires
        s.state is Closed,
    ensures
        s.handled(msg, draw) == (s, Ok::<Seq<MessageModel>, RdowsError>(Seq::empty())),
{
}

/// A payload larger than what was agreed on is refused, and the session stays
/// open.
pub proof fn law_oversized_payload_is_refused(s: SessionModel, msg: MessageModel, draw: u32)
    requires
        s.state is Ready,
        s.accepts_sequence(msg.header().sequence),
        msg.header().payload_length > s.max_msg_size,
    ensures
        s.handled(msg, draw).1 matches Ok(replies) && is_error(replies, ErrorCode::ErrPayloadSize),
        s.handled(msg, draw).0 == s.numbered().received(msg.header().sequence),
{
}

} // verus!
