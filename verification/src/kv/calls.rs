//! What the calls of the store promise their callers.
use vstd::prelude::*;

use super::effects;
use super::laws;
use super::probe;
use super::probe::{DeleteStep, DumpOp, GetStep, Probe, PutOp, PutStep};
use super::slot;
use super::{KvError, KvModel, KvStore, SlotRead, SlotWrite, SLOT_SIZE};
use crate::client::calls;
use crate::client::model::ConnectionModel;
use crate::client::RdowsConnection;
use crate::error::{ErrorCode, RdowsError};
use crate::memory::{LKey, RKey};
use crate::message::{MessageModel, RdowsMessage, ReadReqPayload};
use crate::opcode::Opcode;
use crate::queue::{CompletionQueueEntry, ScatterGatherEntry};
use crate::text;

verus! {

// ---------------------------------------------------------------------------
// Slots
// ---------------------------------------------------------------------------

/// `hash_key` gives the hash modulo the number of slots.
pub proof fn law_hash_key(key: &[u8], r: usize)
    requires
        call_ensures(slot::hash_key, (key,), r),
    ensures
        r == slot::fnv1a(key@) % 64,
{
}

/// `encode_slot` lays out the key and the value, and `decode_slot` gives back what
/// was laid out.
pub proof fn law_encode_then_decode(
    key: &str,
    value: &str,
    data: &[u8; SLOT_SIZE],
    r: Option<(String, String)>,
)
    requires
        laws::fits(key@, value@),
        call_ensures(slot::encode_slot, (key, value), *data),
        call_ensures(slot::decode_slot, (data,), r),
    ensures
        r matches Some((k, v)) && k@ == key@ && v@ == value@,
        data@ == slot::encoded(
            vstd::utf8::encode_utf8(key@),
            vstd::utf8::encode_utf8(value@),
        ),
{
    laws::law_decode_encode(key@, value@);
}

/// `cleared_slot` is all zeros, and `decode_slot` finds no entry exactly where the
/// first byte is zero.
pub proof fn law_cleared_slot(
    cleared: [u8; SLOT_SIZE],
    data: &[u8; SLOT_SIZE],
    r: Option<(String, String)>,
    i: int,
)
    requires
        call_ensures(slot::cleared_slot, (), cleared),
        call_ensures(slot::decode_slot, (data,), r),
        0 <= i < 1024,
    ensures
        cleared@.len() == 1024,
        cleared@[i] == 0,
        r is None <==> data@[0] == 0,
{
}

/// `slot_readable` says whether a slot has no entry, or one that ends inside it.
pub proof fn law_slot_readable(data: &[u8; SLOT_SIZE], r: bool)
    requires
        call_ensures(slot::slot_readable, (data,), r),
    ensures
        r <==> data@[0] == 0 || 5 + 256 * data@[1] + data@[2] <= 1024 && 260 + 256 * data@[3]
            + data@[4] <= 1024,
{
    effects::law_slot_is_read_by_its_lengths(data@);
}

/// `hex_dump_region` gives a line for every sixteen bytes, up to as many as
/// allowed, and `slot_hex_lines` a slot in full.
pub proof fn law_hex_lines(
    data: &[u8],
    base_offset: usize,
    max_lines: usize,
    lines: Vec<String>,
    s: &[u8; SLOT_SIZE],
    whole: Vec<String>,
    i: int,
)
    requires
        call_ensures(slot::hex_dump_region, (data, base_offset, max_lines), lines),
        call_ensures(slot::slot_hex_lines, (s,), whole),
    ensures
        lines@.len() <= max_lines,
        lines@.len() == max_lines || 16 * lines@.len() >= data@.len(),
        16 * lines@.len() < data@.len() + 16,
        0 <= i < lines@.len() ==> lines@[i]@ == slot::dump_line(
            data@.subrange(
                16 * i,
                if 16 * i + 16 <= data@.len() {
                    16 * i + 16
                } else {
                    data@.len() as int
                },
            ),
            (base_offset + 16 * i) as nat,
        ),
        whole@.len() == slot::slot_text(s@).len(),
        0 <= i < whole@.len() ==> whole@[i]@ == slot::slot_text(s@)[i],
{
    effects::law_dump_shows_every_byte(data@, base_offset as nat, max_lines as nat, i);
    assert(slot::texts(lines@).len() == lines@.len());
    assert(slot::texts(whole@).len() == whole@.len());
    if 0 <= i < lines@.len() {
        assert(slot::texts(lines@)[i] == lines@[i]@);
    }
    if 0 <= i < whole@.len() {
        assert(slot::texts(whole@)[i] == whole@[i]@);
    }
}

// ---------------------------------------------------------------------------
// The store
// ---------------------------------------------------------------------------

/// A new store keeps what it was given and counts its work requests from one.
pub proof fn law_new(
    conn: RdowsConnection,
    session_id: u32,
    remote_rkey: RKey,
    local_lkey: LKey,
    r: KvStore,
    next: u64,
)
    requires
        call_ensures(KvStore::new, (conn, session_id, remote_rkey, local_lkey), r),
        call_ensures(KvStore::wrid, (&r,), next),
    ensures
        r@.conn == conn@,
        r@.session_id == session_id,
        r@.remote_rkey == remote_rkey,
        r@.remote_rkey_value == remote_rkey.0,
        r@.local_lkey == local_lkey,
        next == 1,
        next == r@.next_wrid,
{
}

/// `read_slot` asks for the bytes of one slot, at the slot's number times its
/// size, into the local buffer, under the next work request number; where the
/// queue has no room it fails.
pub proof fn law_read_slot(kv: &mut KvStore, index: usize, r: Result<SlotRead, KvError>)
    requires
        index * 1024 <= usize::MAX,
        old(kv)@.next_wrid < u64::MAX,
        call_ensures(KvStore::read_slot, (kv, index), r),
    ensures
        final(kv)@.next_wrid == old(kv)@.next_wrid + 1,
        if old(kv)@.conn.completions.len() < old(kv)@.conn.cq_capacity {
            &&& r matches Ok(read)
            &&& read.wrid == old(kv)@.next_wrid
            &&& read.frame@ == MessageModel::ReadReq(
                calls::sent_header(
                    old(kv)@.conn,
                    0,
                    Opcode::ReadReq,
                    old(kv)@.next_wrid,
                ),
                ReadReqPayload {
                    rkey: old(kv)@.remote_rkey,
                    remote_va: (1024 * index) as u64,
                    read_len: 1024,
                    local_lkey: old(kv)@.local_lkey,
                    local_va: 0,
                },
            )
            &&& final(kv)@ == (KvModel {
                conn: calls::moved_on(old(kv)@.conn, 1),
                next_wrid: final(kv)@.next_wrid,
                ..old(kv)@
            })
        } else {
            &&& r == Err::<SlotRead, KvError>(
                KvError::Rdma(RdowsError::Protocol(ErrorCode::ErrCqOverflow)),
            )
            &&& final(kv)@ == (KvModel { next_wrid: final(kv)@.next_wrid, ..old(kv)@ })
        },
{
}

/// `read_slot_complete` gives the bytes of the slot that came, and leaves no
/// completion; a refusal or another reply is handed on as an error.
pub proof fn law_read_slot_complete(
    kv: &mut KvStore,
    wrid: u64,
    resp: RdowsMessage,
    r: Result<[u8; SLOT_SIZE], KvError>,
)
    requires
        old(kv)@.conn.completions.len() == 0,
        old(kv)@.conn.cq_capacity > 0,
        old(kv)@.conn.regions.contains_key(old(kv)@.local_lkey.0),
        old(kv)@.conn.regions[old(kv)@.local_lkey.0].bytes.len() == 1024,
        call_ensures(KvStore::read_slot_complete, (kv, wrid, resp), r),
    ensures
        match resp {
            RdowsMessage::ReadResp(_, p) => if p@.len() == 1024 {
                &&& r matches Ok(data)
                &&& data@ == p@
                &&& final(kv)@ == (KvModel {
                    conn: ConnectionModel { regions: final(kv)@.conn.regions, ..old(kv)@.conn },
                    ..old(kv)@
                })
            } else {
                p@.len() > 1024 ==> {
                    &&& r == Err::<[u8; SLOT_SIZE], KvError>(
                        KvError::Rdma(RdowsError::Protocol(ErrorCode::ErrBounds)),
                    )
                    &&& final(kv)@ == old(kv)@
                }
            },
            RdowsMessage::Error(_, p) => {
                &&& r == Err::<[u8; SLOT_SIZE], KvError>(
                    KvError::Rdma(RdowsError::Protocol(p.error_code)),
                )
                &&& final(kv)@ == (KvModel {
                    conn: calls::queued(
                        old(kv)@.conn,
                        wrid,
                        crate::error::code_value(p.error_code),
                        Opcode::ReadReq,
                        0,
                    ),
                    ..old(kv)@
                })
            },
            _ => r is Err && final(kv)@ == old(kv)@,
        },
{
    match resp {
        RdowsMessage::ReadResp(h, p) => {
            if p@.len() == 1024 {
                effects::law_slot_read_reply(old(kv)@, wrid, h, p@);
            }
        },
        _ => {},
    }
}

/// `write_slot` sends the bytes of one slot, all of them, to the slot's number
/// times its size, under the next work request number.
pub proof fn law_write_slot(
    kv: &mut KvStore,
    index: usize,
    data: &[u8; SLOT_SIZE],
    r: Result<SlotWrite, KvError>,
)
    requires
        index * 1024 <= usize::MAX,
        old(kv)@.next_wrid < u64::MAX,
        old(kv)@.conn.completions.len() < old(kv)@.conn.cq_capacity,
        old(kv)@.conn.regions.contains_key(old(kv)@.local_lkey.0),
        old(kv)@.conn.regions[old(kv)@.local_lkey.0].bytes.len() >= 1024,
        call_ensures(KvStore::write_slot, (kv, index, data), r),
    ensures
        ({
            let k = old(kv)@.local_lkey;
            &&& r matches Ok(write)
            &&& write.wrid == old(kv)@.next_wrid
            &&& write.posted.request@ == MessageModel::Write(
                calls::sent_header(
                    old(kv)@.conn,
                    0,
                    Opcode::Write,
                    old(kv)@.next_wrid,
                ),
                old(kv)@.remote_rkey,
                (1024 * index) as u64,
                1024,
                seq![ScatterGatherEntry { lkey: k, offset: 0, length: 1024 }],
            )
            &&& write.posted.data@ == MessageModel::WriteData(
                calls::sent_header(
                    old(kv)@.conn,
                    1,
                    Opcode::WriteData,
                    old(kv)@.next_wrid,
                ),
                data@,
            )
            &&& write.posted.byte_count == 1024
            &&& final(kv)@.next_wrid == old(kv)@.next_wrid + 1
            &&& final(kv)@ == (KvModel {
                conn: ConnectionModel {
                    regions: final(kv)@.conn.regions,
                    ..calls::moved_on(old(kv)@.conn, 2)
                },
                next_wrid: final(kv)@.next_wrid,
                ..old(kv)@
            })
        }),
{
    effects::law_slot_write_request(old(kv)@, index as int, data@);
}

/// A queue without its oldest completion.
pub open spec fn without_oldest(c: ConnectionModel) -> Seq<CompletionQueueEntry> {
    if c.completions.len() > 0 {
        c.completions.skip(1)
    } else {
        c.completions
    }
}

/// Whatever waits in the queue and however large the local buffer is, a reply
/// with data puts it at the start of the buffer and takes the oldest completion
/// out of the queue; the first 1024 bytes of the buffer are then the slot. Data
/// without a place changes nothing, and a buffer that is too short for a slot is
/// out of bounds.
pub proof fn law_any_read_slot_complete(
    kv: &mut KvStore,
    wrid: u64,
    resp: RdowsMessage,
    r: Result<[u8; SLOT_SIZE], KvError>,
)
    requires
        call_ensures(KvStore::read_slot_complete, (kv, wrid, resp), r),
        resp is ReadResp,
    ensures
        ({
            let k = old(kv)@.local_lkey.0;
            let data = resp->ReadResp_1@;
            let before = old(kv)@.conn.regions[k].bytes;
            let after = final(kv)@.conn.regions[k].bytes;
            if !old(kv)@.conn.regions.contains_key(k) {
                &&& r == Err::<[u8; SLOT_SIZE], KvError>(
                    KvError::Rdma(RdowsError::Protocol(ErrorCode::ErrInvalidLkey)),
                )
                &&& final(kv)@ == old(kv)@
            } else if data.len() > before.len() {
                &&& r == Err::<[u8; SLOT_SIZE], KvError>(
                    KvError::Rdma(RdowsError::Protocol(ErrorCode::ErrBounds)),
                )
                &&& final(kv)@ == old(kv)@
            } else {
                &&& after.len() == before.len()
                &&& forall|i: int|
                    0 <= i < before.len() ==> #[trigger] after[i] == if i < data.len() {
                        data[i]
                    } else {
                        before[i]
                    }
                &&& calls::others_kept(old(kv)@.conn, final(kv)@.conn, k)
                &&& final(kv)@ == (KvModel {
                    conn: ConnectionModel {
                        regions: final(kv)@.conn.regions,
                        completions: without_oldest(
                            calls::queued(
                                old(kv)@.conn,
                                wrid,
                                0,
                                Opcode::ReadReq,
                                data.len() as u32,
                            ),
                        ),
                        ..old(kv)@.conn
                    },
                    ..old(kv)@
                })
                &&& if before.len() >= 1024 {
                    r matches Ok(slot) && slot@ == after.take(1024)
                } else {
                    r == Err::<[u8; SLOT_SIZE], KvError>(
                        KvError::Rdma(RdowsError::Protocol(ErrorCode::ErrBounds)),
                    )
                }
            }
        }),
{
    let k = old(kv)@.local_lkey.0;
    let data = resp->ReadResp_1@;
    let before = old(kv)@.conn.regions[k].bytes;
    if old(kv)@.conn.regions.contains_key(k) && data.len() <= before.len() {
        let q = calls::queued(old(kv)@.conn, wrid, 0, Opcode::ReadReq, data.len() as u32);
        assert(final(kv)@.conn.completions =~= without_oldest(q));
        if before.len() >= 1024 {
            assert(r->Ok_0@ =~= final(kv)@.conn.regions[k].bytes.take(1024));
        }
    }
}

/// Writing a slot without a local buffer, or with one that is too short, fails and
/// changes nothing; where the queue has no room it fails too, and only the local
/// buffer and the next work request number change.
pub proof fn law_failed_write_slot(
    kv: &mut KvStore,
    index: usize,
    data: &[u8; SLOT_SIZE],
    r: Result<SlotWrite, KvError>,
)
    requires
        old(kv)@.next_wrid < u64::MAX,
        call_ensures(KvStore::write_slot, (kv, index, data), r),
    ensures
        ({
            let k = old(kv)@.local_lkey.0;
            let before = old(kv)@.conn.regions[k].bytes;
            let after = final(kv)@.conn.regions[k].bytes;
            if !old(kv)@.conn.regions.contains_key(k) {
                &&& r == Err::<SlotWrite, KvError>(
                    KvError::Rdma(RdowsError::Protocol(ErrorCode::ErrInvalidLkey)),
                )
                &&& final(kv)@ == old(kv)@
            } else if before.len() < 1024 {
                &&& r == Err::<SlotWrite, KvError>(
                    KvError::Rdma(RdowsError::Protocol(ErrorCode::ErrBounds)),
                )
                &&& final(kv)@ == old(kv)@
            } else {
                &&& after.len() == before.len()
                &&& forall|i: int|
                    0 <= i < before.len() ==> #[trigger] after[i] == if i < 1024 {
                        data@[i]
                    } else {
                        before[i]
                    }
                &&& calls::others_kept(old(kv)@.conn, final(kv)@.conn, k)
                &&& old(kv)@.conn.completions.len() >= old(kv)@.conn.cq_capacity ==> {
                    &&& r == Err::<SlotWrite, KvError>(
                        KvError::Rdma(RdowsError::Protocol(ErrorCode::ErrCqOverflow)),
                    )
                    &&& final(kv)@ == (KvModel {
                        conn: ConnectionModel { regions: final(kv)@.conn.regions, ..old(kv)@.conn },
                        next_wrid: (old(kv)@.next_wrid + 1) as u64,
                        ..old(kv)@
                    })
                }
            }
        }),
{
    if old(kv)@.conn.regions.contains_key(old(kv)@.local_lkey.0)
        && old(kv)@.conn.regions[old(kv)@.local_lkey.0].bytes.len() >= 1024 {
        crate::client::effects::law_local_write(old(kv)@.conn, old(kv)@.local_lkey.0, 0, data@);
        let filled = old(kv)@.conn.local_written(old(kv)@.local_lkey.0, 0, data@).0;
        assert(final(kv)@.conn.regions == filled.regions);
    }
}

/// Whatever waits in the queue, a write of a slot that was done takes the oldest
/// completion out of the queue and changes nothing else.
pub proof fn law_any_write_slot_complete(
    kv: &mut KvStore,
    wrid: u64,
    byte_count: u32,
    resp: RdowsMessage,
    r: Result<(), KvError>,
)
    requires
        call_ensures(KvStore::write_slot_complete, (kv, wrid, byte_count, resp), r),
        resp is WriteComp,
    ensures
        r == Ok::<(), KvError>(()),
        final(kv)@ == (KvModel {
            conn: ConnectionModel {
                completions: without_oldest(
                    calls::queued(old(kv)@.conn, wrid, 0, Opcode::Write, byte_count),
                ),
                ..old(kv)@.conn
            },
            ..old(kv)@
        }),
{
    let q = calls::queued(old(kv)@.conn, wrid, 0, Opcode::Write, byte_count);
    assert(final(kv)@.conn.completions =~= without_oldest(q));
}

/// `write_slot_complete` accepts a write that was done, leaving no completion, and
/// hands on a refusal or another reply as an error.
pub proof fn law_write_slot_complete(
    kv: &mut KvStore,
    wrid: u64,
    byte_count: u32,
    resp: RdowsMessage,
    r: Result<(), KvError>,
)
    requires
        old(kv)@.conn.completions.len() == 0,
        old(kv)@.conn.cq_capacity > 0,
        call_ensures(KvStore::write_slot_complete, (kv, wrid, byte_count, resp), r),
    ensures
        match resp {
            RdowsMessage::WriteComp(_) => r == Ok::<(), KvError>(()) && final(kv)@ == old(kv)@,
            RdowsMessage::Error(_, p) => {
                &&& r == Err::<(), KvError>(KvError::Rdma(RdowsError::Protocol(p.error_code)))
                &&& final(kv)@ == (KvModel {
                    conn: calls::queued(
                        old(kv)@.conn,
                        wrid,
                        crate::error::code_value(p.error_code),
                        Opcode::Write,
                        0,
                    ),
                    ..old(kv)@
                })
            },
            _ => r is Err && final(kv)@ == old(kv)@,
        },
{
    match resp {
        RdowsMessage::WriteComp(h) => {
            effects::law_slot_write_reply(old(kv)@, wrid, byte_count, h);
        },
        _ => {},
    }
}

/// `recv_app_message` of the store is that of its session.
pub proof fn law_recv_app_message(
    kv: &mut KvStore,
    msg: RdowsMessage,
    r: Result<Option<RdowsMessage>, RdowsError>,
)
    requires
        call_ensures(KvStore::recv_app_message, (kv, msg), r),
    ensures
        final(kv)@ == (KvModel { conn: old(kv)@.conn.taken_in(msg@).0, ..old(kv)@ }),
        match old(kv)@.conn.taken_in(msg@).1 {
            Ok(true) => r == Ok::<Option<RdowsMessage>, RdowsError>(Some(msg)),
            Ok(false) => r == Ok::<Option<RdowsMessage>, RdowsError>(None),
            Err(e) => r == Err::<Option<RdowsMessage>, RdowsError>(e),
        },
{
}

// ---------------------------------------------------------------------------
// The operations
// ---------------------------------------------------------------------------

/// Every operation begins its search at the key's home slot; a put refuses a key
/// of more than 255 bytes and then a value of more than 764.
pub proof fn law_operations_begin(
    kv: &KvStore,
    key: &str,
    value: &str,
    put: Result<PutOp, KvError>,
    get: Probe,
    delete: Probe,
    dump: DumpOp,
)
    requires
        call_ensures(KvStore::put, (kv, key, value), put),
        call_ensures(KvStore::get, (kv, key), get),
        call_ensures(KvStore::delete, (kv, key), delete),
        call_ensures(KvStore::dump_slots, (kv,), dump),
    ensures
        ({
            let bytes = vstd::utf8::encode_utf8(key@);
            let home = slot::fnv1a(bytes) % 64;
            &&& get.key@ == key@ && get.start == home && get.seen == 0
            &&& delete.key@ == key@ && delete.start == home && delete.seen == 0
            &&& dump.slots@.len() == 0
            &&& bytes.len() > 255 ==> put == Err::<PutOp, KvError>(KvError::KeyTooLong)
            &&& bytes.len() <= 255 && vstd::utf8::encode_utf8(value@).len() > 764 ==> put == Err::<
                PutOp,
                KvError,
            >(KvError::ValueTooLong)
            &&& bytes.len() <= 255 && vstd::utf8::encode_utf8(value@).len() <= 764 ==> {
                &&& put matches Ok(op)
                &&& op.probe.key@ == key@ && op.probe.start == home && op.probe.seen == 0
                &&& op.value@ == value@
            }
        }),
{
}

/// A put writes the entry into the slot that it looks at where that is empty or
/// has the key, and says which; past an entry of another key it goes on to the
/// next slot, and fails after the last.
pub proof fn law_put_step(op: PutOp, data: &[u8; SLOT_SIZE], r: Result<PutStep, KvError>)
    requires
        call_ensures(PutOp::step, (op, data), r),
    ensures
        ({
            let at = (op.probe.start + op.probe.seen) % 64;
            let other = slot::decoded(data@) matches Some((k, _)) && k != op.probe.key@;
            if !other {
                &&& r matches Ok(PutStep::Write(index, written, result))
                &&& index == at
                &&& written@ == slot::encoded(
                    vstd::utf8::encode_utf8(op.probe.key@),
                    vstd::utf8::encode_utf8(op.value@),
                )
                &&& result.operation@ == "RDMA_WRITE"@
                &&& result.slot == at
                &&& result.offset@ == probe::offset_text(at)
                &&& result.bytes == 1024
                &&& result.key@ == op.probe.key@
                &&& result.value@ == op.value@
                &&& result.probes == op.probe.seen + 1
                &&& result.update == (data@[0] != 0)
            } else if op.probe.seen + 1 < 64 {
                &&& r matches Ok(PutStep::Next(next))
                &&& next.probe.key@ == op.probe.key@
                &&& next.probe.start == op.probe.start
                &&& next.probe.seen == op.probe.seen + 1
                &&& next.value@ == op.value@
            } else {
                r == Err::<PutStep, KvError>(KvError::TableFull)
            }
        }),
{
}

/// A lookup ends at an empty slot, without a result, and at the slot with the key,
/// with its value; past an entry of another key it goes on to the next slot, and
/// ends without a result after the last.
pub proof fn law_get_step(p: Probe, data: &[u8; SLOT_SIZE], r: GetStep)
    requires
        call_ensures(Probe::get_step, (p, data), r),
    ensures
        ({
            let at = (p.start + p.seen) % 64;
            match slot::decoded(data@) {
                None => r matches GetStep::Done(found) && found is None,
                Some((k, v)) => if k == p.key@ {
                    &&& r matches GetStep::Done(Some(result))
                    &&& result.operation@ == "RDMA_READ"@
                    &&& result.slot == at
                    &&& result.offset@ == probe::offset_text(at)
                    &&& result.bytes == 1024
                    &&& result.key@ == p.key@
                    &&& result.value@ == v
                    &&& result.probes == p.seen + 1
                    &&& slot::texts(result.raw_hex@) == slot::slot_text(data@)
                } else if p.seen + 1 < 64 {
                    &&& r matches GetStep::Next(next)
                    &&& next.key@ == p.key@
                    &&& next.start == p.start
                    &&& next.seen == p.seen + 1
                } else {
                    r matches GetStep::Done(found) && found is None
                },
            }
        }),
{
}

/// A deletion clears the slot with the key and ends there, and at an empty slot
/// without having found it; past an entry of another key it goes on to the next
/// slot, and ends after the last.
pub proof fn law_delete_step(p: Probe, data: &[u8; SLOT_SIZE], r: DeleteStep)
    requires
        call_ensures(Probe::delete_step, (p, data), r),
    ensures
        ({
            let at = (p.start + p.seen) % 64;
            match slot::decoded(data@) {
                None => {
                    &&& r matches DeleteStep::Done(result)
                    &&& result.operation@ == "RDMA_WRITE"@
                    &&& result.slot == at
                    &&& result.offset@ == probe::offset_text(at)
                    &&& result.bytes == 1024
                    &&& result.key@ == p.key@
                    &&& result.probes == p.seen + 1
                    &&& !result.found
                },
                Some((k, _)) => if k == p.key@ {
                    &&& r matches DeleteStep::Write(index, written, result)
                    &&& index == at
                    &&& written@ == Seq::new(1024, |i: int| 0u8)
                    &&& result.operation@ == "RDMA_WRITE"@
                    &&& result.slot == at
                    &&& result.offset@ == probe::offset_text(at)
                    &&& result.bytes == 1024
                    &&& result.key@ == p.key@
                    &&& result.probes == p.seen + 1
                    &&& result.found
                } else if p.seen + 1 < 64 {
                    &&& r matches DeleteStep::Next(next)
                    &&& next.key@ == p.key@
                    &&& next.start == p.start
                    &&& next.seen == p.seen + 1
                } else {
                    &&& r matches DeleteStep::Done(result)
                    &&& result.operation@ == "RDMA_READ"@
                    &&& result.slot == p.start
                    &&& result.offset@ == probe::offset_text(p.start as int)
                    &&& result.bytes == 1024
                    &&& result.key@ == p.key@
                    &&& result.probes == 64
                    &&& !result.found
                },
            }
        }),
{
}

/// A list of slots asks for one slot after the other, from the first to the last,
/// and adds each as it is.
pub proof fn law_dump_step(
    op: DumpOp,
    asked: Option<usize>,
    data: &[u8; SLOT_SIZE],
    r: DumpOp,
)
    requires
        call_ensures(DumpOp::slot_index, (&op,), asked),
        call_ensures(DumpOp::step, (op, data), r),
    ensures
        op.slots@.len() < 64 ==> asked == Some(op.slots@.len() as usize),
        op.slots@.len() >= 64 ==> asked is None,
        r.slots@.len() == op.slots@.len() + 1,
        r.slots@.drop_last() == op.slots@,
        ({
            let added = r.slots@.last();
            &&& added.index == op.slots@.len()
            &&& added.offset@ == probe::offset_text(op.slots@.len() as int)
            &&& added.occupied <==> data@[0] != 0
            &&& match slot::decoded(data@) {
                Some((k, v)) => {
                    &&& added.key matches Some(key) && key@ == k
                    &&& added.value matches Some(value) && value@ == v
                },
                None => added.key is None && added.value is None,
            }
        }),
{
}

/// What an error of the store says.
pub proof fn law_error_texts(e: KvError, wording: Seq<char>)
    ensures
        e matches KvError::Rdma(inner) ==> e.spec_text(wording) == "RDMA error: "@
            + inner.spec_text(wording),
        e is TableFull ==> e.spec_text(wording) == "hash table full"@,
        e is KeyTooLong ==> e.spec_text(wording) == "key exceeds "@ + text::decimal(255)
            + " bytes"@,
        e is ValueTooLong ==> e.spec_text(wording) == "value exceeds "@ + text::decimal(764)
            + " bytes"@,
{
}

/// A search begins at the key's home slot and looks at the slot as many places
/// further on as it has seen, counting round.
pub proof fn law_search(key: &str, begun: Probe, p: &Probe, at: usize)
    requires
        call_ensures(Probe::new, (key,), begun),
        call_ensures(Probe::slot_index, (p,), at),
    ensures
        begun.key@ == key@,
        begun.start == slot::fnv1a(vstd::utf8::encode_utf8(key@)) % 64,
        begun.seen == 0,
        at == (p.start + p.seen) % 64,
{
}

/// `to_string_with` says what the error's text is.
pub proof fn law_error_call(e: &KvError, wording: &str, said: String)
    requires
        call_ensures(KvError::to_string_with, (e, wording), said),
    ensures
        said@ == e.spec_text(wording@),
{
}

} // verus!
