//! What each request does to a session and its memory, field by field and byte
//! by byte.
use vstd::prelude::*;

use super::handler::PendingOp;
use super::memory_store;
use super::memory_store::{StoreModel, StoredRegion};
use super::session;
use super::session::{Session, SessionModel, SessionState};
use crate::buffer;
use crate::error::{ErrorCode, RdowsError};
use crate::frame;
use crate::frame::RdowsHeader;
use crate::memory::{AccessFlags, LKey, RKey};
use crate::message::{
    AtomicReqPayload, AtomicRespPayload, AtomicType, ConnectPayload, CreditUpdatePayload,
    MessageModel, MrDeregAckPayload, MrDeregPayload, MrRegAckPayload, MrRegPayload,
    ReadReqPayload,
};
use crate::opcode::Opcode;
use crate::queue::ScatterGatherEntry;

verus! {

// ---------------------------------------------------------------------------
// The memory
// ---------------------------------------------------------------------------

/// A new store has no region and has handed out no key.
pub proof fn law_new_store_is_empty(k: u32)
    ensures
        !StoreModel::empty().regions.contains_key(k),
        !StoreModel::empty().rkeys.contains_key(k),
        !StoreModel::empty().issued.contains(k),
        StoreModel::empty().last_lkey == 0,
{
}

/// Every region but the one under `k` is in `after` what it is in `before`, that
/// one has the same length, rights and local key, and no key came or went.
pub open spec fn same_but_bytes_of(before: StoreModel, after: StoreModel, k: u32) -> bool {
    &&& forall|other: u32|
        #[trigger] after.regions.contains_key(other) == before.regions.contains_key(other)
    &&& forall|other: u32|
        other != k && before.regions.contains_key(other) ==> #[trigger] after.regions[other]
            == before.regions[other]
    &&& after.regions[k].lkey == before.regions[k].lkey
    &&& after.regions[k].access == before.regions[k].access
    &&& after.regions[k].bytes.len() == before.regions[k].bytes.len()
    &&& after.rkeys == before.rkeys
    &&& after.issued == before.issued
    &&& after.last_lkey == before.last_lkey
}

/// A write succeeds exactly where the key names a region that may be written and
/// the data fits into it; then the data stands at its place, and no other byte,
/// no other region and no key changed. Otherwise the error says what failed
/// first.
pub proof fn law_store_write(m: StoreModel, rkey: RKey, va: u64, data: Seq<u8>)
    ensures
        ({
            let r = m.written(rkey, va, data);
            let region = m.regions[rkey.0];
            if !m.regions.contains_key(rkey.0) {
                r == Err::<StoreModel, ErrorCode>(ErrorCode::ErrInvalidMkey)
            } else if !region.access.remote_write {
                r == Err::<StoreModel, ErrorCode>(ErrorCode::ErrAccessDenied)
            } else if va + data.len() > region.bytes.len() {
                r == Err::<StoreModel, ErrorCode>(ErrorCode::ErrBounds)
            } else {
                &&& r matches Ok(after)
                &&& same_but_bytes_of(m, after, rkey.0)
                &&& forall|i: int|
                    0 <= i < region.bytes.len() ==> #[trigger] after.regions[rkey.0].bytes[i]
                        == if va <= i < va + data.len() {
                        data[i - va]
                    } else {
                        region.bytes[i]
                    }
            }
        }),
{
}

/// A read succeeds exactly where the key names a region that may be read and
/// holds the whole stretch; then it gives the bytes of the stretch one by one.
/// Otherwise the error says what failed first.
pub proof fn law_store_read(m: StoreModel, rkey: RKey, va: u64, len: u64)
    ensures
        ({
            let r = m.read(rkey, va, len);
            let region = m.regions[rkey.0];
            if !m.regions.contains_key(rkey.0) {
                r == Err::<Seq<u8>, ErrorCode>(ErrorCode::ErrInvalidMkey)
            } else if !region.access.remote_read {
                r == Err::<Seq<u8>, ErrorCode>(ErrorCode::ErrAccessDenied)
            } else if va + len > region.bytes.len() {
                r == Err::<Seq<u8>, ErrorCode>(ErrorCode::ErrBounds)
            } else {
                &&& r matches Ok(bytes)
                &&& bytes.len() == len
                &&& forall|i: int| 0 <= i < len ==> #[trigger] bytes[i] == region.bytes[va + i]
            }
        }),
{
}

/// The number that eight bytes from `at` on stand for, the most significant byte
/// first.
pub open spec fn word_at(bytes: Seq<u8>, at: int) -> int {
    0x100_0000_0000_0000 * bytes[at] + 0x1_0000_0000_0000 * bytes[at + 1] + 0x100_0000_0000
        * bytes[at + 2] + 0x1_0000_0000 * bytes[at + 3] + 0x100_0000 * bytes[at + 4] + 0x1_0000
        * bytes[at + 5] + 0x100 * bytes[at + 6] + bytes[at + 7]
}

proof fn lemma_word_at(bytes: Seq<u8>, at: int)
    requires
        0 <= at,
        at + 8 <= bytes.len(),
    ensures
        buffer::be_value(bytes.subrange(at, at + 8)) == word_at(bytes, at),
        0 <= word_at(bytes, at) <= u64::MAX,
{
    buffer::law_be_value_of_eight(bytes.subrange(at, at + 8));
}

/// An atomic operation succeeds exactly where the key names a region that allows
/// it, at a multiple of eight, and the word lies in the region. Then it gives the
/// word from before it; a fetch-and-add leaves the sum, modulo the size of the
/// word, a compare-and-swap leaves the second operand in place of a word equal to
/// the first and any other word as it is. No other byte of any region, no
/// region's length and no key changed. Otherwise the error says what failed
/// first.
pub proof fn law_store_atomic(
    m: StoreModel,
    rkey: RKey,
    va: u64,
    atomic_type: AtomicType,
    operand1: u64,
    operand2: u64,
)
    ensures
        ({
            let r = m.atomic(rkey, va, atomic_type, operand1, operand2);
            let region = m.regions[rkey.0];
            if !m.regions.contains_key(rkey.0) {
                r == Err::<(StoreModel, u64), ErrorCode>(ErrorCode::ErrInvalidMkey)
            } else if !region.access.remote_atomic {
                r == Err::<(StoreModel, u64), ErrorCode>(ErrorCode::ErrAccessDenied)
            } else if va % 8 != 0 {
                r == Err::<(StoreModel, u64), ErrorCode>(ErrorCode::ErrAlignment)
            } else if va + 8 > region.bytes.len() {
                r == Err::<(StoreModel, u64), ErrorCode>(ErrorCode::ErrBounds)
            } else {
                &&& r matches Ok((after, word))
                &&& word == word_at(region.bytes, va as int)
                &&& word_at(after.regions[rkey.0].bytes, va as int) == match atomic_type {
                    AtomicType::FetchAndAdd => (word + operand1) % 0x1_0000_0000_0000_0000,
                    AtomicType::CompareAndSwap => if word == operand1 {
                        operand2 as int
                    } else {
                        word as int
                    },
                }
                &&& same_but_bytes_of(m, after, rkey.0)
                &&& forall|i: int|
                    0 <= i < region.bytes.len() && !(va <= i < va + 8)
                        ==> #[trigger] after.regions[rkey.0].bytes[i] == region.bytes[i]
            }
        }),
{
    let region = m.regions[rkey.0];
    let r = m.atomic(rkey, va, atomic_type, operand1, operand2);
    if r is Ok {
        lemma_word_at(region.bytes, va as int);
        let (after, word) = r->Ok_0;
        let new = memory_store::atomic_result(atomic_type, word, operand1, operand2);
        buffer::lemma_be_bytes_len(new as nat, 8);
        let bytes = after.regions[rkey.0].bytes;
        lemma_word_at(bytes, va as int);
        assert(bytes.subrange(va as int, va + 8) =~= buffer::be_bytes(new as nat, 8));
        reveal_with_fuel(buffer::be_count, 9);
        buffer::law_be_value_of_bytes(new as nat, 8);
    }
}

/// Nothing in the store can be handed out any more, or the region cannot be
/// addressed: only then is a registration refused. Otherwise the new region has
/// the length and the rights asked for, holds zeros, and stands under the next
/// local key and a new remote key, which is the one drawn where that is still
/// free; every other region and key is as it was.
pub proof fn law_store_registration(
    m: StoreModel,
    access: AccessFlags,
    region_len: u64,
    draw: u32,
    k: u32,
)
    ensures
        ({
            let r = m.registered(access, region_len, draw);
            &&& region_len > isize::MAX || m.last_lkey == u32::MAX ==> r is None
            &&& r is None ==> region_len > isize::MAX || m.last_lkey == u32::MAX || k == 0
                || m.issued.contains(k)
            &&& r matches Some((after, lkey, rkey)) ==> {
                &&& lkey.0 == m.last_lkey + 1
                &&& rkey.0 != 0
                &&& !m.issued.contains(rkey.0)
                &&& draw != 0 && !m.issued.contains(draw) ==> rkey.0 == draw
                &&& after.regions.contains_key(rkey.0)
                &&& after.regions[rkey.0].lkey == lkey
                &&& after.regions[rkey.0].access == access
                &&& after.regions[rkey.0].bytes.len() == region_len
                &&& forall|i: int|
                    0 <= i < region_len ==> #[trigger] after.regions[rkey.0].bytes[i] == 0
                &&& after.rkeys.contains_key(lkey.0) && after.rkeys[lkey.0] == rkey.0
                &&& after.last_lkey == lkey.0
                &&& after.issued.contains(k) <==> m.issued.contains(k) || k == rkey.0
                &&& k != rkey.0 ==> after.regions.contains_key(k) == m.regions.contains_key(k)
                &&& k != rkey.0 && m.regions.contains_key(k) ==> after.regions[k] == m.regions[k]
                &&& k != lkey.0 ==> after.rkeys.contains_key(k) == m.rkeys.contains_key(k)
                &&& k != lkey.0 && m.rkeys.contains_key(k) ==> after.rkeys[k] == m.rkeys[k]
            }
        }),
{
    memory_store::law_offered_key_is_fresh(m.issued, draw, k);
}

/// Where the key drawn was handed out before, the next one that was not is handed
/// out: every key from the one drawn up to it, counting round, was handed out
/// before or is zero.
pub proof fn law_next_free_key_is_handed_out(
    m: StoreModel,
    access: AccessFlags,
    region_len: u64,
    draw: u32,
    k: u32,
)
    requires
        k != 0,
        !m.issued.contains(k),
    ensures
        m.registered(access, region_len, draw) matches Some((_, _, rkey)) ==> (rkey.0 - draw)
            % 0x1_0000_0000 <= (k - draw) % 0x1_0000_0000,
{
    let distance = ((k - draw) % 0x1_0000_0000) as nat;
    assert((draw + distance) % 0x1_0000_0000 == k) by {
        vstd::arithmetic::div_mod::lemma_add_mod_noop_right(
            draw as int,
            k - draw,
            0x1_0000_0000,
        );
        vstd::arithmetic::div_mod::lemma_small_mod(k as nat, 0x1_0000_0000);
    }
    lemma_first_free_is_near(m.issued, draw, 0x1_0000_0000, distance);
}

proof fn lemma_first_free_is_near(issued: Set<u32>, draw: u32, count: nat, distance: nat)
    requires
        distance < count <= 0x1_0000_0000,
        ({
            let k = ((draw + distance) % 0x1_0000_0000) as u32;
            k != 0 && !issued.contains(k)
        }),
    ensures
        memory_store::first_free(issued, draw, count) matches Some(k) && (k - draw)
            % 0x1_0000_0000 <= distance,
    decreases count,
{
    if draw != 0 && !issued.contains(draw) {
        assert((draw - draw) % 0x1_0000_0000int == 0);
    } else {
        assert(distance > 0) by {
            if distance == 0 {
                vstd::arithmetic::div_mod::lemma_small_mod(draw as nat, 0x1_0000_0000);
            }
        }
        let next = frame::next_sequence(draw);
        assert((next + (distance - 1)) % 0x1_0000_0000 == (draw + distance) % 0x1_0000_0000) by {
            if draw == u32::MAX {
                vstd::arithmetic::div_mod::lemma_mod_add_multiples_vanish(
                    distance - 1,
                    0x1_0000_0000,
                );
            }
        }
        lemma_first_free_is_near(issued, next, (count - 1) as nat, (distance - 1) as nat);
        let k = memory_store::first_free(issued, next, (count - 1) as nat)->Some_0;
        lemma_next_distance(draw, k, distance);
    }
}

proof fn lemma_next_distance(draw: u32, k: u32, distance: nat)
    requires
        0 < distance < 0x1_0000_0000,
        (k - frame::next_sequence(draw)) % 0x1_0000_0000 <= distance - 1,
    ensures
        (k - draw) % 0x1_0000_0000 <= distance,
{
    let next = frame::next_sequence(draw);
    let m: int = 0x1_0000_0000;
    let d: int = if k >= next {
        k - next
    } else {
        k - next + m
    };
    assert((k - next) % m == d);
    if draw == u32::MAX {
        assert(d == k);
        assert((k - draw) % m == (if k >= draw { 0 } else { k - draw + m }));
    } else {
        assert((k - draw) % m == (if k >= draw { k - draw } else { k - draw + m }));
    }
}

/// A region is given up exactly where there is one under the local key; then it
/// is gone under both its keys, its remote key stays handed out, and every other
/// region and key is as it was.
pub proof fn law_store_deregistration(m: StoreModel, lkey: LKey, k: u32)
    requires
        m.wf(),
    ensures
        ({
            let r = m.deregistered(lkey);
            let gone = m.rkeys[lkey.0];
            &&& r is Some <==> m.rkeys.contains_key(lkey.0)
            &&& r matches Some(after) ==> {
                &&& m.regions.contains_key(gone) && m.regions[gone].lkey == lkey
                &&& !after.regions.contains_key(gone)
                &&& !after.rkeys.contains_key(lkey.0)
                &&& k != gone ==> after.regions.contains_key(k) == m.regions.contains_key(k)
                &&& k != gone && m.regions.contains_key(k) ==> after.regions[k] == m.regions[k]
                &&& k != lkey.0 ==> after.rkeys.contains_key(k) == m.rkeys.contains_key(k)
                &&& k != lkey.0 && m.rkeys.contains_key(k) ==> after.rkeys[k] == m.rkeys[k]
                &&& after.issued == m.issued
                &&& after.last_lkey == m.last_lkey
            }
        }),
{
}

// ---------------------------------------------------------------------------
// The session
// ---------------------------------------------------------------------------

/// A new session waits for its CONNECT frame, has no region, expects no number
/// yet, sends its first frame as number zero and can receive as many messages as
/// it was told.
pub proof fn law_new_session(recv_queue_depth: u32)
    ensures
        ({
            let s = session::unconnected(recv_queue_depth);
            &&& s.state is AwaitingConnect
            &&& s.next_seq == 0
            &&& s.expected_remote_seq is None
            &&& s.memory == StoreModel::empty()
            &&& s.pending_op is Idle
            &&& s.recv_queue_depth == recv_queue_depth
            &&& s.sends_since_last_credit == 0
            &&& s.icc == 65_535
            &&& s.max_msg_size == 0x100_0000
        }),
{
}

/// The session is open, the frame with header `h` is the one that it expects next,
/// and the payload is within the agreed size.
pub open spec fn admits(s: SessionModel, h: RdowsHeader) -> bool {
    &&& s.state is Ready
    &&& s.expected_remote_seq is None || s.expected_remote_seq == Some(h.sequence)
    &&& h.payload_length <= s.max_msg_size
}

/// The session after it took in a frame numbered `seq` and sent `count` frames.
pub open spec fn moved_on(s: SessionModel, seq: u32, count: int) -> SessionModel {
    SessionModel {
        expected_remote_seq: Some(((seq + 1) % 0x1_0000_0000) as u32),
        next_seq: ((s.next_seq + count) % 0x1_0000_0000) as u32,
        ..s
    }
}

/// The header of the frame that a session sends next but `skipped`.
pub open spec fn sent_header(
    s: SessionModel,
    skipped: int,
    opcode: Opcode,
    wrid: u64,
) -> RdowsHeader {
    RdowsHeader {
        version: 1,
        opcode,
        flags: 0,
        session_id: s.session_id,
        sequence: ((s.next_seq + skipped) % 0x1_0000_0000) as u32,
        wrid,
        payload_length: 0,
    }
}

/// `replies` is one ERROR frame about the frame `failing_seq`.
pub open spec fn refuses(
    s: SessionModel,
    replies: Seq<MessageModel>,
    code: ErrorCode,
    failing_seq: u32,
    text: Seq<char>,
) -> bool {
    replies == seq![
        MessageModel::Error(sent_header(s, 0, Opcode::Error, 0), code, failing_seq, text),
    ]
}

/// Whatever frames a session sends, they carry its number, the protocol's version,
/// no flag, the work request's number or zero, and its next numbers one after the
/// other; its next number then is the one after the last.
#[verifier::rlimit(60)]
pub proof fn law_replies_are_numbered(s: SessionModel, msg: MessageModel, draw: u32, i: int)
    requires
        s.handled(msg, draw).1 is Ok,
        0 <= i < s.handled(msg, draw).1->Ok_0.len(),
    ensures
        ({
            let (next, r) = s.handled(msg, draw);
            let replies = r->Ok_0;
            let h = replies[i].header();
            &&& h.version == 1
            &&& h.flags == 0
            &&& h.payload_length == 0
            &&& h.session_id == next.session_id
            &&& h.sequence == (s.next_seq + i) % 0x1_0000_0000
            &&& next.next_seq == (s.next_seq + replies.len()) % 0x1_0000_0000
            &&& h.wrid == msg.header().wrid || h.wrid == 0
        }),
{
}

/// A request for a region in the session's protection domain is acknowledged with
/// the keys of the region that the memory then holds; one that the memory cannot
/// hold, or in another domain, is acknowledged with the error and without keys,
/// and registers nothing.
pub proof fn law_register_request(s: SessionModel, h: RdowsHeader, p: MrRegPayload, draw: u32)
    requires
        admits(s, h),
    ensures
        ({
            let (next, r) = s.handled(MessageModel::MrReg(h, p), draw);
            let header = sent_header(s, 0, Opcode::MrRegAck, 0);
            let quiet = moved_on(s, h.sequence, 1);
            let refused = |status: u16|
                Ok::<Seq<MessageModel>, RdowsError>(
                    seq![
                        MessageModel::MrRegAck(
                            header,
                            MrRegAckPayload { status, lkey: LKey(0), rkey: RKey(0) },
                        ),
                    ],
                );
            if p.pd != s.pd {
                r == refused(3) && next == quiet
            } else {
                match s.memory.registered(p.access_flags, p.region_len, draw) {
                    None => r == refused(0xffff) && next == quiet,
                    Some((memory, lkey, rkey)) => {
                        &&& r == Ok::<Seq<MessageModel>, RdowsError>(
                            seq![
                                MessageModel::MrRegAck(
                                    header,
                                    MrRegAckPayload { status: 0, lkey, rkey },
                                ),
                            ],
                        )
                        &&& next == (SessionModel { memory, ..quiet })
                    },
                }
            }
        }),
{
}

/// A region of the session's protection domain is given up; where there is none
/// under the local key, or in another domain, the status says so and nothing is
/// given up.
pub proof fn law_deregister_request(
    s: SessionModel,
    h: RdowsHeader,
    p: MrDeregPayload,
    draw: u32,
)
    requires
        admits(s, h),
    ensures
        ({
            let (next, r) = s.handled(MessageModel::MrDereg(h, p), draw);
            let quiet = moved_on(s, h.sequence, 1);
            let status: u16 = if p.pd != s.pd {
                3
            } else if s.memory.rkeys.contains_key(p.lkey.0) {
                0
            } else {
                4
            };
            &&& r == Ok::<Seq<MessageModel>, RdowsError>(
                seq![
                    MessageModel::MrDeregAck(
                        sent_header(s, 0, Opcode::MrDeregAck, 0),
                        MrDeregAckPayload { status },
                    ),
                ],
            )
            &&& status != 0 ==> next == quiet
            &&& status == 0 ==> Some(next.memory) == s.memory.deregistered(p.lkey) && next == (
            SessionModel { memory: next.memory, ..quiet })
        }),
{
}

/// The announcement of a message takes one of the receives and waits for the
/// data; without one it is refused and its data will be dropped. Nothing else
/// changes.
pub proof fn law_send_request(
    s: SessionModel,
    h: RdowsHeader,
    sg_list: Seq<ScatterGatherEntry>,
    draw: u32,
)
    requires
        admits(s, h),
    ensures
        ({
            let (next, r) = s.handled(MessageModel::Send(h, sg_list), draw);
            &&& r matches Ok(replies)
            &&& if s.recv_queue_depth > 0 {
                &&& replies.len() == 0
                &&& next == (SessionModel {
                    recv_queue_depth: (s.recv_queue_depth - 1) as u32,
                    pending_op: PendingOp::AwaitingSendData,
                    ..moved_on(s, h.sequence, 0)
                })
            } else {
                &&& refuses(
                    s,
                    replies,
                    ErrorCode::ErrRnr,
                    h.sequence,
                    ErrorCode::ErrRnr.spec_text(),
                )
                &&& next == (SessionModel {
                    pending_op: PendingOp::DiscardingSendData,
                    ..moved_on(s, h.sequence, 1)
                })
            }
        }),
{
}

/// The data of an announced message is acknowledged with the message's number.
/// It counts towards the next grant: once a quarter of the first credits was
/// used up, a grant of exactly the messages received since the last one goes with
/// it and the count starts anew. Nothing else changes.
pub proof fn law_send_data(s: SessionModel, h: RdowsHeader, data: Seq<u8>, draw: u32)
    requires
        admits(s, h),
        s.wf(),
        s.pending_op is AwaitingSendData,
    ensures
        ({
            let (next, r) = s.handled(MessageModel::SendData(h, data), draw);
            let received = s.sends_since_last_credit + 1;
            let done = MessageModel::RecvComp(sent_header(s, 0, Opcode::RecvComp, h.wrid));
            &&& r matches Ok(replies)
            &&& if received < s.icc / 4 {
                &&& replies == seq![done]
                &&& next == (SessionModel {
                    pending_op: PendingOp::Idle,
                    sends_since_last_credit: received as u32,
                    ..moved_on(s, h.sequence, 1)
                })
            } else {
                &&& replies == seq![
                    done,
                    MessageModel::CreditUpdate(
                        sent_header(s, 1, Opcode::CreditUpdate, 0),
                        CreditUpdatePayload { credit_increment: received as u32 },
                    ),
                ]
                &&& next == (SessionModel {
                    pending_op: PendingOp::Idle,
                    sends_since_last_credit: 0,
                    ..moved_on(s, h.sequence, 2)
                })
            }
        }),
{
    let (_, r) = s.handled(MessageModel::SendData(h, data), draw);
    let received = s.sends_since_last_credit + 1;
    let done = MessageModel::RecvComp(sent_header(s, 0, Opcode::RecvComp, h.wrid));
    if received < s.icc / 4 {
        assert(r->Ok_0 =~= seq![done]);
    } else {
        assert(r->Ok_0 =~= seq![
            done,
            MessageModel::CreditUpdate(
                sent_header(s, 1, Opcode::CreditUpdate, 0),
                CreditUpdatePayload { credit_increment: received as u32 },
            ),
        ]);
    }
}

/// The data of a refused message is dropped without an answer; data that no
/// message announced is an error. Neither changes the memory or the receives.
pub proof fn law_stray_send_data(s: SessionModel, h: RdowsHeader, data: Seq<u8>, draw: u32)
    requires
        admits(s, h),
        !(s.pending_op is AwaitingSendData),
    ensures
        ({
            let (next, r) = s.handled(MessageModel::SendData(h, data), draw);
            &&& r matches Ok(replies)
            &&& if s.pending_op is DiscardingSendData {
                &&& replies.len() == 0
                &&& next == (SessionModel {
                    pending_op: PendingOp::Idle,
                    ..moved_on(s, h.sequence, 0)
                })
            } else {
                &&& refuses(
                    s,
                    replies,
                    ErrorCode::ErrInternal,
                    h.sequence,
                    "unexpected SEND_DATA without preceding SEND"@,
                )
                &&& next == moved_on(s, h.sequence, 1)
            }
        }),
{
}

/// The announcement of a write is not answered; its place is kept for the data.
pub proof fn law_write_request(
    s: SessionModel,
    h: RdowsHeader,
    rkey: RKey,
    remote_va: u64,
    length: u64,
    sg_list: Seq<ScatterGatherEntry>,
    draw: u32,
)
    requires
        admits(s, h),
    ensures
        s.handled(MessageModel::Write(h, rkey, remote_va, length, sg_list), draw) == (
            (SessionModel {
                pending_op: PendingOp::AwaitingWriteData { rkey, remote_va },
                ..moved_on(s, h.sequence, 0)
            }),
            Ok::<Seq<MessageModel>, RdowsError>(Seq::empty()),
        ),
{
}

/// The data of an announced write is written to its place and acknowledged with
/// the write's number; where the memory refuses it, the answer is the memory's
/// error. Data that no write announced is an error. Nothing but the memory
/// changes, and that only where the write was done.
pub proof fn law_write_data(s: SessionModel, h: RdowsHeader, data: Seq<u8>, draw: u32)
    requires
        admits(s, h),
    ensures
        ({
            let (next, r) = s.handled(MessageModel::WriteData(h, data), draw);
            let quiet = moved_on(s, h.sequence, 1);
            &&& r matches Ok(replies)
            &&& match s.pending_op {
                PendingOp::AwaitingWriteData { rkey, remote_va } => match s.memory.written(
                    rkey,
                    remote_va,
                    data,
                ) {
                    Ok(memory) => {
                        &&& replies == seq![
                            MessageModel::WriteComp(sent_header(s, 0, Opcode::WriteComp, h.wrid)),
                        ]
                        &&& next == (SessionModel { memory, pending_op: PendingOp::Idle, ..quiet })
                    },
                    Err(code) => {
                        &&& refuses(s, replies, code, h.sequence, code.spec_text())
                        &&& next == (SessionModel { pending_op: PendingOp::Idle, ..quiet })
                    },
                },
                _ => {
                    &&& refuses(
                        s,
                        replies,
                        ErrorCode::ErrInternal,
                        h.sequence,
                        "unexpected WRITE_DATA without preceding WRITE"@,
                    )
                    &&& next == quiet
                },
            }
        }),
{
}

/// A read is answered with the bytes asked for and the read's number, or with the
/// memory's error; nothing changes.
pub proof fn law_read_request(s: SessionModel, h: RdowsHeader, p: ReadReqPayload, draw: u32)
    requires
        admits(s, h),
    ensures
        ({
            let (next, r) = s.handled(MessageModel::ReadReq(h, p), draw);
            &&& next == moved_on(s, h.sequence, 1)
            &&& r matches Ok(replies)
            &&& match s.memory.read(p.rkey, p.remote_va, p.read_len) {
                Ok(bytes) => replies == seq![
                    MessageModel::ReadResp(sent_header(s, 0, Opcode::ReadResp, h.wrid), bytes),
                ],
                Err(code) => refuses(s, replies, code, h.sequence, code.spec_text()),
            }
        }),
{
}

/// An atomic operation is done, and answered with the word from before it and the
/// operation's number, or with the memory's error; nothing but the memory changes,
/// and that only where it was done.
pub proof fn law_atomic_request(
    s: SessionModel,
    h: RdowsHeader,
    p: AtomicReqPayload,
    draw: u32,
)
    requires
        admits(s, h),
    ensures
        ({
            let (next, r) = s.handled(MessageModel::AtomicReq(h, p), draw);
            let quiet = moved_on(s, h.sequence, 1);
            &&& r matches Ok(replies)
            &&& match s.memory.atomic(
                p.rkey,
                p.remote_va,
                p.atomic_type,
                p.operand1,
                p.operand2,
            ) {
                Ok((memory, original_value)) => {
                    &&& replies == seq![
                        MessageModel::AtomicResp(
                            sent_header(s, 0, Opcode::AtomicResp, h.wrid),
                            AtomicRespPayload { original_value },
                        ),
                    ]
                    &&& next == (SessionModel { memory, ..quiet })
                },
                Err(code) => {
                    &&& refuses(s, replies, code, h.sequence, code.spec_text())
                    &&& next == quiet
                },
            }
        }),
{
}

/// A DISCONNECT closes the session without an answer, a grant of the client is
/// not answered, and a frame that only a server sends, or a second CONNECT, is an
/// error; none of them changes anything else.
pub proof fn law_other_frames(s: SessionModel, msg: MessageModel, draw: u32)
    requires
        admits(s, msg.header()),
    ensures
        ({
            let seq = msg.header().sequence;
            let (next, r) = s.handled(msg, draw);
            &&& r matches Ok(replies)
            &&& msg is Disconnect ==> replies.len() == 0 && next == (SessionModel {
                state: SessionState::Closed,
                ..moved_on(s, seq, 0)
            })
            &&& msg is CreditUpdate ==> replies.len() == 0 && next == moved_on(s, seq, 0)
            &&& msg is Connect || msg is ConnectAck || msg is MrRegAck || msg is MrDeregAck || msg
                is RecvComp || msg is WriteComp || msg is ReadResp || msg is AtomicResp || msg
                is Ack || msg is Error ==> next == moved_on(s, seq, 1) && refuses(
                s,
                replies,
                ErrorCode::ErrUnknownOpcode,
                seq,
                "unexpected message"@,
            )
        }),
{
}

/// A frame out of turn closes a session that is not closed, with an error that
/// names the frame; one that is too large is refused. Neither changes anything
/// else.
pub proof fn law_frames_refused_unread(s: SessionModel, msg: MessageModel, draw: u32)
    requires
        !(s.state is Closed),
    ensures
        ({
            let h = msg.header();
            let (next, r) = s.handled(msg, draw);
            let in_turn = s.expected_remote_seq is None || s.expected_remote_seq == Some(
                h.sequence,
            );
            &&& !in_turn ==> {
                &&& r matches Ok(replies)
                &&& refuses(s, replies, ErrorCode::ErrSeqGap, h.sequence, "sequence number gap"@)
                &&& next == (SessionModel {
                    state: SessionState::Closed,
                    next_seq: ((s.next_seq + 1) % 0x1_0000_0000) as u32,
                    ..s
                })
            }
            &&& in_turn && s.state is Ready && h.payload_length > s.max_msg_size ==> {
                &&& r matches Ok(replies)
                &&& refuses(
                    s,
                    replies,
                    ErrorCode::ErrPayloadSize,
                    h.sequence,
                    "payload exceeds negotiated maximum message size"@,
                )
                &&& next == moved_on(s, h.sequence, 1)
            }
        }),
{
}

/// A CONNECT frame of this protocol's version opens the session under the number
/// and in the protection domain that it names, with the smaller of the two
/// message sizes, and the answer says so and grants the credits. Another version
/// is refused and closes the session; any other frame is an error.
pub proof fn law_connect_request(s: SessionModel, msg: MessageModel, draw: u32)
    requires
        s.state is AwaitingConnect,
        s.expected_remote_seq is None || s.expected_remote_seq == Some(msg.header().sequence),
    ensures
        ({
            let seq = msg.header().sequence;
            let (next, r) = s.handled(msg, draw);
            match msg {
                MessageModel::Connect(h, p) => {
                    let max_msg_size: u32 = if p.max_msg_size < 0x100_0000 {
                        p.max_msg_size
                    } else {
                        0x100_0000
                    };
                    let opened = SessionModel {
                        state: SessionState::Ready,
                        session_id: h.session_id,
                        pd: p.pd,
                        max_msg_size,
                        ..moved_on(s, seq, 1)
                    };
                    &&& r matches Ok(replies)
                    &&& h.version == 1 ==> next == opened && replies == seq![
                        MessageModel::ConnectAck(
                            RdowsHeader {
                                session_id: h.session_id,
                                ..sent_header(s, 0, Opcode::ConnectAck, 0)
                            },
                            ConnectPayload {
                                pd: p.pd,
                                capability_flags: 0,
                                max_msg_size,
                                icc: s.icc,
                            },
                        ),
                    ]
                    &&& h.version != 1 ==> next == (SessionModel {
                        state: SessionState::Closed,
                        ..moved_on(s, seq, 1)
                    }) && refuses(
                        s,
                        replies,
                        ErrorCode::ErrProtoVersion,
                        seq,
                        "unsupported protocol version"@,
                    )
                },
                _ => {
                    &&& r == Err::<Seq<MessageModel>, RdowsError>(
                        RdowsError::UnexpectedMessage {
                            expected: "CONNECT",
                            got: msg.header().opcode,
                        },
                    )
                    &&& next == moved_on(s, seq, 0)
                },
            }
        }),
{
}

/// A closed session answers nothing and stays as it is.
pub proof fn law_closed_session_rests(s: SessionModel, msg: MessageModel, draw: u32)
    requires
        s.state is Closed,
    ensures
        s.handled(msg, draw).0 == s,
        s.handled(msg, draw).1 matches Ok(replies) && replies.len() == 0,
{
}

/// The models of a session and of a region have all that those hold.
pub proof fn law_models_are_complete(s: Session, region: StoredRegion)
    ensures
        s@.state == s.state,
        s@.session_id == s.session_id,
        s@.pd == s.pd,
        s@.max_msg_size == s.max_msg_size,
        s@.next_seq == s.next_seq,
        s@.memory == s.memory_store@,
        s@.pending_op == s.pending_op,
        s@.recv_queue_depth == s.recv_queue_depth,
        s@.expected_remote_seq == s.expected_remote_seq,
        s@.sends_since_last_credit == s.sends_since_last_credit,
        s@.icc == s.icc,
        region@.lkey == region.lkey,
        region@.access == region.access,
        region@.bytes == region.bytes@,
{
}

} // verus!
