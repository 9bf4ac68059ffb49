//! What a slot holds, byte by byte, and what the operations on the table give.
use vstd::prelude::*;

use super::laws;
use super::probe;
use super::probe::{ProbeModel, Verdict};
use super::slot;
use super::{DeleteResult, GetResult, KvModel, PutResult, SlotInfo};
use crate::buffer;
use crate::client::effects;
use crate::client::model::ConnectionModel;
use crate::error::RdowsError;
use crate::frame::RdowsHeader;
use crate::message::{MessageModel, ReadReqPayload};
use crate::opcode::Opcode;
use crate::queue::ScatterGatherEntry;
use crate::text;

verus! {

// ---------------------------------------------------------------------------
// The hash and the walk
// ---------------------------------------------------------------------------

/// The hash starts from a fixed number; every byte is mixed in by an exclusive or
/// and a multiplication modulo the size of the word.
pub proof fn law_hash_takes_in_every_byte(key: Seq<u8>, b: u8)
    ensures
        slot::fnv1a(Seq::empty()) == 0x811c_9dc5,
        slot::fnv1a(key.push(b)) == (slot::fnv1a(key) ^ (b as u32)) * 0x0100_0193
            % 0x1_0000_0000,
{
    assert(key.push(b).drop_last() =~= key);
}

/// A search starts at the hash of the key modulo the number of slots and goes
/// from slot to slot, from the last one on to the first.
pub proof fn law_search_walks_round(key: Seq<char>, p: ProbeModel)
    requires
        p.start >= 0,
        p.seen >= 0,
    ensures
        probe::begun(key).key == key,
        probe::begun(key).start == slot::fnv1a(vstd::utf8::encode_utf8(key)) % 64,
        probe::begun(key).seen == 0,
        p.slot() == (p.start + p.seen) % 64,
        p.advanced() == (ProbeModel { seen: p.seen + 1, ..p }),
{
}

// ---------------------------------------------------------------------------
// A slot
// ---------------------------------------------------------------------------

/// A slot with an entry holds a one, the lengths of key and value, each with the
/// upper byte first, the key, and at its place the value; every other byte is
/// zero.
pub proof fn law_slot_layout(key: Seq<u8>, value: Seq<u8>)
    requires
        key.len() <= 1019,
        value.len() <= 764,
    ensures
        ({
            let s = slot::encoded(key, value);
            &&& s.len() == 1024
            &&& s[0] == 1
            &&& 256 * s[1] + s[2] == key.len()
            &&& 256 * s[3] + s[4] == value.len()
            &&& forall|i: int|
                5 <= i < 1024 ==> #[trigger] s[i] == if 260 <= i < 260 + value.len() {
                    value[i - 260]
                } else if i < 5 + key.len() {
                    key[i - 5]
                } else {
                    0
                }
        }),
{
    let s = slot::encoded(key, value);
    let kl = buffer::be_bytes(key.len(), 2);
    let vl = buffer::be_bytes(value.len(), 2);
    reveal_with_fuel(buffer::be_count, 3);
    buffer::law_be_value_of_bytes(key.len(), 2);
    buffer::law_be_value_of_bytes(value.len(), 2);
    buffer::law_be_value_of_two(kl);
    buffer::law_be_value_of_two(vl);
    assert(s[1] == kl[0] && s[2] == kl[1] && s[3] == vl[0] && s[4] == vl[1]);
}

/// A slot without an entry is all zeros.
pub proof fn law_empty_slot_is_zero(i: int)
    requires
        0 <= i < 1024,
    ensures
        slot::empty_slot().len() == 1024,
        slot::empty_slot()[i] == 0,
{
}

/// A slot has an entry exactly where its first byte is not zero; the key and the
/// value are the texts of as many bytes as the two lengths say. It can be read
/// where it has none, or both end inside the slot.
pub proof fn law_slot_is_read_by_its_lengths(s: Seq<u8>)
    requires
        s.len() == 1024,
    ensures
        ({
            let key_len = 256 * s[1] + s[2];
            let val_len = 256 * s[3] + s[4];
            &&& slot::readable(s) <==> s[0] == 0 || 5 + key_len <= 1024 && 260 + val_len <= 1024
            &&& s[0] == 0 ==> slot::decoded(s) is None
            &&& s[0] != 0 ==> slot::decoded(s) == Some(
                (
                    slot::text_of(s.subrange(5, 5 + key_len)),
                    slot::text_of(s.subrange(260, 260 + val_len)),
                ),
            )
        }),
{
    lemma_slot_lengths(s);
}

proof fn lemma_slot_lengths(s: Seq<u8>)
    requires
        s.len() == 1024,
    ensures
        slot::key_len(s) == 256 * s[1] + s[2],
        slot::val_len(s) == 256 * s[3] + s[4],
{
    buffer::law_be_value_of_two(s.subrange(1, 3));
    buffer::law_be_value_of_two(s.subrange(3, 5));
}

/// Bytes that encode a text stand for that text.
pub proof fn law_text_of_encoded_text(t: Seq<char>)
    ensures
        slot::text_of(vstd::utf8::encode_utf8(t)) == t,
{
    vstd::utf8::encode_utf8_valid_utf8(t);
    vstd::utf8::encode_utf8_decode_utf8(t);
}

// ---------------------------------------------------------------------------
// The table
// ---------------------------------------------------------------------------

/// Slot number `j` on the walk for `key`.
pub open spec fn walked(table: Seq<Seq<u8>>, key: Seq<char>, j: int) -> Seq<u8> {
    table[(slot::fnv1a(vstd::utf8::encode_utf8(key)) + j) % 64]
}

/// The first `j` slots on the walk for `key` all have entries of other keys.
pub open spec fn passed(table: Seq<Seq<u8>>, key: Seq<char>, j: int) -> bool {
    forall|n: int|
        0 <= n < j ==> (slot::decoded(#[trigger] walked(table, key, n)) matches Some((k, _)) && k
            != key)
}

proof fn lemma_walk(table: Seq<Seq<u8>>, key: Seq<char>, seen: int, j: int, value: Seq<char>)
    requires
        0 <= seen <= j < 64,
        passed(table, key, j),
    ensures
        ({
            let p = ProbeModel { seen, ..probe::begun(key) };
            let q = ProbeModel { seen: j, ..probe::begun(key) };
            &&& q.slot() == (slot::fnv1a(vstd::utf8::encode_utf8(key)) + j) % 64
            &&& laws::get_from(table, p) == laws::get_from(table, q)
            &&& laws::put_from(table, p, value) == laws::put_from(table, q, value)
            &&& laws::delete_from(table, p) == laws::delete_from(table, q)
        }),
    decreases j - seen,
{
    let h = slot::fnv1a(vstd::utf8::encode_utf8(key)) as int;
    vstd::arithmetic::div_mod::lemma_add_mod_noop(h, j, 64);
    vstd::arithmetic::div_mod::lemma_add_mod_noop(h, seen, 64);
    if seen < j {
        let p = ProbeModel { seen, ..probe::begun(key) };
        assert(table[p.slot()] == walked(table, key, seen));
        assert(laws::goes_on(table, p));
        lemma_walk(table, key, seen + 1, j, value);
    }
}

/// The first slot on the walk that is empty or has the key decides. If it is
/// empty, the key is not found; if it has the key, its value is. A put writes
/// into that slot and nowhere else; a deletion empties it where it has the key,
/// and otherwise changes nothing.
pub proof fn law_first_open_slot_decides(
    table: Seq<Seq<u8>>,
    key: Seq<char>,
    value: Seq<char>,
    j: int,
)
    requires
        0 <= j < 64,
        passed(table, key, j),
        slot::decoded(walked(table, key, j)) matches Some((k, _)) ==> k == key,
    ensures
        ({
            let at = (slot::fnv1a(vstd::utf8::encode_utf8(key)) + j) % 64;
            let entry = slot::encoded(
                vstd::utf8::encode_utf8(key),
                vstd::utf8::encode_utf8(value),
            );
            &&& laws::put(table, key, value) == Some(table.update(at, entry))
            &&& match slot::decoded(walked(table, key, j)) {
                None => {
                    &&& laws::lookup(table, key) is None
                    &&& laws::delete(table, key) == table
                },
                Some((_, held)) => {
                    &&& laws::lookup(table, key) == Some(held)
                    &&& laws::delete(table, key) == table.update(
                        at,
                        Seq::new(1024, |i: int| 0u8),
                    )
                },
            }
        }),
{
    lemma_walk(table, key, 0, j, value);
    assert(probe::begun(key) == (ProbeModel { seen: 0, ..probe::begun(key) }));
    let p = ProbeModel { seen: j, ..probe::begun(key) };
    assert(table[p.slot()] == walked(table, key, j));
}

/// Where every slot has an entry of another key, the key is not found, nothing
/// can be put under it and a deletion changes nothing.
pub proof fn law_full_of_others(table: Seq<Seq<u8>>, key: Seq<char>, value: Seq<char>)
    requires
        passed(table, key, 64),
    ensures
        laws::put(table, key, value) is None,
        laws::lookup(table, key) is None,
        laws::delete(table, key) == table,
{
    lemma_walk(table, key, 0, 63, value);
    assert(probe::begun(key) == (ProbeModel { seen: 0, ..probe::begun(key) }));
    let p = ProbeModel { seen: 63, ..probe::begun(key) };
    assert(table[p.slot()] == walked(table, key, 63));
}

/// A slot that is empty is free to every search; one that has an entry is held
/// by its key, with its value, and taken to every other.
pub proof fn law_verdict(s: Seq<u8>, key: Seq<char>)
    ensures
        slot::decoded(s) is None <==> probe::verdict(s, key) is Free,
        slot::decoded(s) matches Some((k, v)) ==> if k == key {
            probe::verdict(s, key) == Verdict::Held(v)
        } else {
            probe::verdict(s, key) is Taken
        },
{
}

// ---------------------------------------------------------------------------
// What the operations report
// ---------------------------------------------------------------------------

/// Where a slot lies is given as a hexadecimal number of at least four digits:
/// the slot's number times its size.
pub proof fn law_offset_text(index: int)
    requires
        0 <= index < 64,
    ensures
        ({
            let t = probe::offset_text(index);
            &&& t.len() >= 6
            &&& t[0] == '0'
            &&& t[1] == 'x'
            &&& text::number(t.skip(2), 16) == index * 1024
        }),
{
    reveal_strlit("0x");
    text::law_padded_hex_is_the_number((index * 1024) as nat, 4);
    assert(probe::offset_text(index).skip(2) =~= text::hex_padded((index * 1024) as nat, 4));
}

/// A put reports the slot that it wrote, the slot's place and size, what it wrote,
/// how many slots it looked at, and whether the key was there before.
pub proof fn law_put_report(r: PutResult, p: ProbeModel, value: Seq<char>, update: bool)
    requires
        r.describes(p, value, update),
    ensures
        r.operation@ == "RDMA_WRITE"@,
        r.slot == p.slot(),
        r.offset@ == probe::offset_text(p.slot()),
        r.bytes == 1024,
        r.key@ == p.key,
        r.value@ == value,
        r.probes == p.seen + 1,
        r.update == update,
{
}

/// A lookup reports the slot that it read, the slot's place and size, what it
/// found, how many slots it looked at, and the slot in hexadecimal.
pub proof fn law_get_report(r: GetResult, p: ProbeModel, value: Seq<char>, s: Seq<u8>)
    requires
        r.describes(p, value, s),
    ensures
        r.operation@ == "RDMA_READ"@,
        r.slot == p.slot(),
        r.offset@ == probe::offset_text(p.slot()),
        r.bytes == 1024,
        r.key@ == p.key,
        r.value@ == value,
        r.probes == p.seen + 1,
        r.raw_hex@.len() == slot::slot_text(s).len(),
        forall|i: int|
            0 <= i < r.raw_hex@.len() ==> (#[trigger] r.raw_hex@[i])@ == slot::slot_text(s)[i],
{
    assert(slot::texts(r.raw_hex@).len() == r.raw_hex@.len());
    assert forall|i: int| 0 <= i < r.raw_hex@.len() implies (#[trigger] r.raw_hex@[i])@
        == slot::slot_text(s)[i] by {
        assert(slot::texts(r.raw_hex@)[i] == r.raw_hex@[i]@);
    }
}

/// A deletion reports what was done, the slot, the slot's place and size, the
/// key, how many slots it looked at, and whether the key was there.
pub proof fn law_delete_report(
    r: DeleteResult,
    p: ProbeModel,
    operation: Seq<char>,
    index: int,
    probes: int,
    found: bool,
)
    requires
        r.describes(p, operation, index, probes, found),
    ensures
        r.operation@ == operation,
        r.slot == index,
        r.offset@ == probe::offset_text(index),
        r.bytes == 1024,
        r.key@ == p.key,
        r.probes == probes,
        r.found == found,
{
}

/// A list of slots tells of each its number, its place, and its key and value
/// exactly where it has an entry.
pub proof fn law_slot_report(r: SlotInfo, index: int, s: Seq<u8>)
    requires
        r.describes(index, s),
    ensures
        r.index == index,
        r.offset@ == probe::offset_text(index),
        r.occupied <==> slot::decoded(s) is Some,
        r.key is Some <==> r.occupied,
        r.value is Some <==> r.occupied,
        slot::decoded(s) matches Some((k, v)) ==> r.key->Some_0@ == k && r.value->Some_0@ == v,
{
}

// ---------------------------------------------------------------------------
// Slots on the wire
// ---------------------------------------------------------------------------

/// Reading a slot asks for the bytes at the slot's number times its size, as many
/// as a slot has, into the start of the local buffer, under the store's next work
/// request number; nothing but that number and the next frame's changes.
pub proof fn law_slot_read_request(kv: KvModel, index: int)
    requires
        0 <= index,
        1024 * index <= u64::MAX,
        kv.next_wrid < u64::MAX,
        kv.conn.completions.len() < kv.conn.cq_capacity,
    ensures
        kv.read_posted(index) == (
            (KvModel {
                conn: ConnectionModel {
                    next_seq: ((kv.conn.next_seq + 1) % 0x1_0000_0000) as u32,
                    ..kv.conn
                },
                next_wrid: (kv.next_wrid + 1) as u64,
                ..kv
            }),
            Ok::<(u64, MessageModel), RdowsError>(
                (
                    kv.next_wrid,
                    MessageModel::ReadReq(
                        RdowsHeader {
                            version: 1,
                            opcode: Opcode::ReadReq,
                            flags: 0,
                            session_id: kv.conn.session_id,
                            sequence: kv.conn.next_seq,
                            wrid: kv.next_wrid,
                            payload_length: 0,
                        },
                        ReadReqPayload {
                            rkey: kv.remote_rkey,
                            remote_va: (1024 * index) as u64,
                            read_len: 1024,
                            local_lkey: kv.local_lkey,
                            local_va: 0,
                        },
                    ),
                ),
            ),
        ),
{
}

/// A slot that a read brought is handed on byte by byte; its completion does not
/// stay in the queue, and nothing but the local buffer changes.
pub proof fn law_slot_read_reply(kv: KvModel, wrid: u64, h: RdowsHeader, data: Seq<u8>)
    requires
        kv.conn.completions.len() == 0,
        kv.conn.cq_capacity > 0,
        kv.conn.regions.contains_key(kv.local_lkey.0),
        data.len() == 1024,
        kv.conn.regions[kv.local_lkey.0].bytes.len() >= 1024,
    ensures
        ({
            let (after, r) = kv.read_back(wrid, MessageModel::ReadResp(h, data));
            let k = kv.local_lkey.0;
            &&& r == Ok::<Seq<u8>, RdowsError>(data)
            &&& after.conn.regions.contains_key(k)
            &&& after.conn.regions[k].bytes.len() == kv.conn.regions[k].bytes.len()
            &&& forall|other: u32|
                other != k && kv.conn.regions.contains_key(other)
                    ==> after.conn.regions.contains_key(other)
                    && #[trigger] after.conn.regions[other] == kv.conn.regions[other]
            &&& after == (KvModel {
                conn: ConnectionModel { regions: after.conn.regions, ..kv.conn },
                ..kv
            })
        }),
{
    let (after, r) = kv.read_back(wrid, MessageModel::ReadResp(h, data));
    assert(r->Ok_0 =~= data);
    assert(after.conn.completions =~= kv.conn.completions);
}

/// Writing a slot sends its bytes, all of them, to the slot's number times its
/// size, under the store's next work request number.
pub proof fn law_slot_write_request(kv: KvModel, index: int, data: Seq<u8>)
    requires
        0 <= index,
        1024 * index <= u64::MAX,
        kv.next_wrid < u64::MAX,
        kv.conn.completions.len() < kv.conn.cq_capacity,
        kv.conn.regions.contains_key(kv.local_lkey.0),
        data.len() == 1024,
        kv.conn.regions[kv.local_lkey.0].bytes.len() >= 1024,
    ensures
        ({
            let (after, r) = kv.write_posted(index, data);
            let whole = ScatterGatherEntry { lkey: kv.local_lkey, offset: 0, length: 1024 };
            let header = RdowsHeader {
                version: 1,
                opcode: Opcode::Write,
                flags: 0,
                session_id: kv.conn.session_id,
                sequence: kv.conn.next_seq,
                wrid: kv.next_wrid,
                payload_length: 0,
            };
            &&& r matches Ok((wrid, p))
            &&& wrid == kv.next_wrid
            &&& p.request == MessageModel::Write(
                header,
                kv.remote_rkey,
                (1024 * index) as u64,
                1024,
                seq![whole],
            )
            &&& p.data == MessageModel::WriteData(
                RdowsHeader {
                    opcode: Opcode::WriteData,
                    sequence: ((kv.conn.next_seq + 1) % 0x1_0000_0000) as u32,
                    ..header
                },
                data,
            )
            &&& p.byte_count == 1024
            &&& forall|other: u32|
                other != kv.local_lkey.0 && kv.conn.regions.contains_key(other)
                    ==> after.conn.regions.contains_key(other)
                    && #[trigger] after.conn.regions[other] == kv.conn.regions[other]
            &&& after == (KvModel {
                conn: ConnectionModel {
                    next_seq: ((kv.conn.next_seq + 2) % 0x1_0000_0000) as u32,
                    regions: after.conn.regions,
                    ..kv.conn
                },
                next_wrid: (kv.next_wrid + 1) as u64,
                ..kv
            })
        }),
{
    let whole = ScatterGatherEntry { lkey: kv.local_lkey, offset: 0, length: 1024 };
    let filled = kv.conn.local_written(kv.local_lkey.0, 0, data).0;
    effects::law_gathered_stretch(filled.regions, whole);
    assert(filled.regions[kv.local_lkey.0].bytes.subrange(0, 1024) =~= data);
}

/// A write of a slot that was done leaves no completion in the queue and changes
/// nothing.
pub proof fn law_slot_write_reply(kv: KvModel, wrid: u64, byte_count: u32, h: RdowsHeader)
    requires
        kv.conn.completions.len() == 0,
        kv.conn.cq_capacity > 0,
    ensures
        kv.write_done(wrid, byte_count, MessageModel::WriteComp(h)) == (
            kv,
            Ok::<(), RdowsError>(()),
        ),
{
    let (after, r) = kv.write_done(wrid, byte_count, MessageModel::WriteComp(h));
    assert(after.conn.completions =~= kv.conn.completions);
}

// ---------------------------------------------------------------------------
// A slot in hexadecimal
// ---------------------------------------------------------------------------

proof fn lemma_hex_bytes(chunk: Seq<u8>, j: int)
    requires
        0 <= j < chunk.len(),
    ensures
        ({
            let hex = slot::hex_bytes(chunk);
            &&& hex.len() == 3 * chunk.len() - 1
            &&& 16 * text::digit_value(hex[3 * j]) + text::digit_value(hex[3 * j + 1]) == chunk[j]
            &&& j + 1 < chunk.len() ==> hex[3 * j + 2] == ' '
        }),
    decreases chunk.len(),
{
    text::law_hex_of_byte(chunk.last());
    if chunk.len() > 1 {
        let head = chunk.drop_last();
        lemma_hex_bytes(head, 0);
        if j < head.len() {
            lemma_hex_bytes(head, j);
        }
    }
}

/// A line of a dump starts with the offset in hexadecimal, of at least four
/// digits. Behind two spaces stand the bytes, two digits each and a space
/// between, in a column of sixteen bytes; behind two more the same bytes as
/// characters, those that are not printable as dots.
pub proof fn law_dump_line(chunk: Seq<u8>, offset: nat, j: int)
    requires
        0 < chunk.len() <= 16,
        0 <= j < chunk.len(),
    ensures
        ({
            let line = slot::dump_line(chunk, offset);
            let w = line.len() - 52 - chunk.len();
            &&& w >= 4
            &&& text::number(line.take(w), 16) == offset
            &&& line[w] == ' ' && line[w + 1] == ' '
            &&& 16 * text::digit_value(line[w + 2 + 3 * j]) + text::digit_value(
                line[w + 3 + 3 * j],
            ) == chunk[j]
            &&& line[w + 4 + 3 * j] == ' '
            &&& forall|i: int|
                w + 1 + 3 * chunk.len() <= i < w + 52 ==> #[trigger] line[i] == ' '
            &&& line[w + 52 + j] == if 32 <= chunk[j] < 127 {
                chunk[j] as char
            } else {
                '.'
            }
        }),
{
    reveal_strlit("  ");
    let line = slot::dump_line(chunk, offset);
    let place = text::hex_padded(offset, 4);
    let hex = slot::hex_bytes(chunk);
    lemma_hex_bytes(chunk, j);
    text::law_padded_hex_is_the_number(offset, 4);
    let w = place.len() as int;
    assert(line.len() == w + 52 + chunk.len());
    assert(line.take(w) =~= place);
    assert(line[w + 2 + 3 * j] == hex[3 * j]);
    assert(line[w + 3 + 3 * j] == hex[3 * j + 1]);
    if j + 1 < chunk.len() {
        assert(line[w + 4 + 3 * j] == hex[3 * j + 2]);
    }
}

/// A dump has a line for every sixteen bytes, the last with what is left, up to
/// as many as allowed; each shows its bytes at their place.
pub proof fn law_dump_shows_every_byte(data: Seq<u8>, base: nat, max_lines: nat, i: int)
    ensures
        ({
            let lines = slot::dump(data, base, max_lines);
            let end = if 16 * i + 16 <= data.len() {
                16 * i + 16
            } else {
                data.len() as int
            };
            &&& lines.len() <= max_lines
            &&& lines.len() == max_lines || 16 * lines.len() >= data.len()
            &&& 16 * lines.len() < data.len() + 16
            &&& 0 <= i < lines.len() ==> lines[i] == slot::dump_line(
                data.subrange(16 * i, end),
                (base + 16 * i) as nat,
            )
        }),
{
}

/// A slot in full has a heading and one line for its first five bytes, a heading
/// with the key's length and the key's lines, and a heading with the value's
/// length and the value's lines. Key and value are shown with all their bytes and
/// one line more, as far as a slot can hold them.
pub proof fn law_slot_text(s: Seq<u8>)
    requires
        s.len() == 1024,
    ensures
        ({
            let key_len: int = 256 * s[1] + s[2];
            let val_len: int = 256 * s[3] + s[4];
            let shown = slot::slot_text(s);
            let keys: int = if key_len <= 240 {
                (key_len + 15) / 16 + 1
            } else {
                16
            };
            let values: int = if val_len <= 736 {
                (val_len + 15) / 16 + 1
            } else {
                48
            };
            &&& shown.len() == 4 + keys + values
            &&& shown[0] == "--- header (status, key_len, val_len) ---"@
            &&& shown[1] == slot::dump_line(s.subrange(0, 5), 0)
            &&& shown[2] == "--- key data ("@ + text::decimal(key_len as nat) + " bytes) ---"@
            &&& forall|i: int|
                0 <= i < keys ==> #[trigger] shown[3 + i] == slot::dump_line(
                    s.subrange(5 + 16 * i, 21 + 16 * i),
                    (5 + 16 * i) as nat,
                )
            &&& shown[3 + keys] == "--- value data ("@ + text::decimal(val_len as nat)
                + " bytes) ---"@
            &&& forall|i: int|
                0 <= i < values ==> #[trigger] shown[4 + keys + i] == slot::dump_line(
                    s.subrange(
                        260 + 16 * i,
                        if 276 + 16 * i <= 1024 {
                            276 + 16 * i
                        } else {
                            1024
                        },
                    ),
                    (260 + 16 * i) as nat,
                )
        }),
{
    lemma_slot_lengths(s);
    let key_len: int = 256 * s[1] + s[2];
    let val_len: int = 256 * s[3] + s[4];
    let shown = slot::slot_text(s);
    let keys = slot::at_most(slot::lines_for(key_len as nat), 16);
    let val_lines = slot::lines_for(val_len as nat);
    let val_end = slot::at_most(260 + val_lines * 16, 1024);
    let head = s.subrange(0, 5);
    let key_part = s.subrange(5, (5 + keys * 16) as int);
    let val_part = s.subrange(260, val_end as int);
    let key_dump = slot::dump(key_part, 5, keys);
    let val_dump = slot::dump(val_part, 260, slot::at_most(val_lines, 48));
    assert(slot::dump(head, 0, 1).len() == 1);
    assert(slot::dump_chunk(head, 0) =~= head);
    assert(key_dump.len() == keys);
    reveal_strlit("--- ");
    reveal_strlit("key");
    reveal_strlit("value");
    reveal_strlit(" data (");
    reveal_strlit("--- key data (");
    reveal_strlit("--- value data (");
    assert("--- "@ + "key"@ + " data ("@ =~= "--- key data ("@);
    assert("--- "@ + "value"@ + " data ("@ =~= "--- value data ("@);
    assert forall|i: int| 0 <= i < keys implies #[trigger] shown[3 + i] == slot::dump_line(
        s.subrange(5 + 16 * i, 21 + 16 * i),
        (5 + 16 * i) as nat,
    ) by {
        assert(shown[3 + i] == key_dump[i]);
        assert(slot::dump_chunk(key_part, i) =~= s.subrange(5 + 16 * i, 21 + 16 * i));
    }
    let values = val_dump.len() as int;
    assert forall|i: int| 0 <= i < values implies #[trigger] shown[4 + keys + i]
        == slot::dump_line(
        s.subrange(
            260 + 16 * i,
            if 276 + 16 * i <= 1024 {
                276 + 16 * i
            } else {
                1024
            },
        ),
        (260 + 16 * i) as nat,
    ) by {
        assert(shown[4 + keys + i] == val_dump[i]);
        assert(slot::dump_chunk(val_part, i) =~= s.subrange(
            260 + 16 * i,
            if 276 + 16 * i <= 1024 {
                276 + 16 * i
            } else {
                1024
            },
        ));
    }
}

} // verus!
