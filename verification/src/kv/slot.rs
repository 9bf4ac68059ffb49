//! The slots of the hash table: how an entry lies in one, where its search
//! begins, and how a slot is shown.
use vstd::prelude::*;
use vstd::string::StringExecFns;

use super::{MAX_VALUE_LEN, SLOT_COUNT, SLOT_SIZE};
use crate::buffer;
use crate::text;
use crate::text::{push_decimal, push_hex, push_repeated};

verus! {

/// Where the status byte lies in a slot.
pub const OFF_STATUS: usize = 0;

/// Where the length of the key lies, in two bytes.
pub const OFF_KEY_LEN: usize = 1;

/// Where the length of the value lies, in two bytes.
pub const OFF_VAL_LEN: usize = 3;

/// Where the key begins.
pub const OFF_KEY: usize = 5;

/// Where the value begins.
pub const OFF_VALUE: usize = 260;

/// The 32-bit FNV-1a hash of `key`.
pub open spec fn fnv1a(key: Seq<u8>) -> u32
    decreases key.len(),
{
    if key.len() == 0 {
        2_166_136_261
    } else {
        (((fnv1a(key.drop_last()) ^ key.last() as u32) * 16_777_619) % 0x1_0000_0000) as u32
    }
}

/// The slot at which the search for `key` begins.
pub open spec fn home_slot(key: Seq<u8>) -> int {
    fnv1a(key) as int % SLOT_COUNT as int
}

/// The slot at which the search for `key` begins.
pub fn hash_key(key: &[u8]) -> (r: usize)
    ensures
        r == home_slot(key@),
        r < SLOT_COUNT,
{
    let mut hash: u32 = 2_166_136_261;
    let mut i: usize = 0;
    proof {
        assert(key@.take(0) =~= Seq::<u8>::empty());
    }
    while i < key.len()
        invariant
            i <= key@.len(),
            hash == fnv1a(key@.take(i as int)),
        decreases key@.len() - i,
    {
        proof {
            assert(key@.take(i + 1).drop_last() =~= key@.take(i as int));
        }
        hash = hash ^ key[i] as u32;
        hash = hash.wrapping_mul(16_777_619);
        i += 1;
    }
    proof {
        assert(key@.take(key@.len() as int) =~= key@);
    }
    (hash as usize) % SLOT_COUNT
}

/// A slot without an entry.
pub open spec fn empty_slot() -> Seq<u8> {
    Seq::new(SLOT_SIZE as nat, |i: int| 0u8)
}

/// The slot that holds `key` and `value`: a status byte, the two lengths in
/// network byte order, and the two texts at their places.
pub open spec fn encoded(key: Seq<u8>, value: Seq<u8>) -> Seq<u8> {
    let marked = empty_slot().update(OFF_STATUS as int, 1u8);
    let key_len = buffer::be_bytes(key.len(), 2);
    let val_len = buffer::be_bytes(value.len(), 2);
    let sized = buffer::splice(
        buffer::splice(marked, OFF_KEY_LEN as int, key_len),
        OFF_VAL_LEN as int,
        val_len,
    );
    buffer::splice(
        buffer::splice(sized, OFF_KEY as int, key),
        OFF_VALUE as int,
        value,
    )
}

/// The length of a slot's key.
pub open spec fn key_len(slot: Seq<u8>) -> nat {
    buffer::be_value(slot.subrange(OFF_KEY_LEN as int, OFF_KEY_LEN + 2))
}

/// The length of a slot's value.
pub open spec fn val_len(slot: Seq<u8>) -> nat {
    buffer::be_value(slot.subrange(OFF_VAL_LEN as int, OFF_VAL_LEN + 2))
}

/// The slot has no entry, or one whose key and value end inside the slot.
pub open spec fn readable(slot: Seq<u8>) -> bool {
    slot[OFF_STATUS as int] == 0 || {
        &&& OFF_KEY + key_len(slot) <= SLOT_SIZE
        &&& OFF_VALUE + val_len(slot) <= SLOT_SIZE
    }
}

/// The text that bytes stand for which are not UTF-8.
pub uninterp spec fn lossy_text(bytes: Seq<u8>) -> Seq<char>;

/// The text that bytes stand for: the one that they encode, if they are UTF-8.
pub open spec fn text_of(bytes: Seq<u8>) -> Seq<char> {
    if vstd::utf8::valid_utf8(bytes) {
        vstd::utf8::decode_utf8(bytes)
    } else {
        lossy_text(bytes)
    }
}

/// `String::from_utf8_lossy`: reads bytes as UTF-8. Bytes that are UTF-8 give
/// the text that they encode; in others, what is not UTF-8 is replaced, in a way
/// that depends on the bytes alone.
#[verifier::external_body]
fn text_of_bytes(bytes: &[u8]) -> (r: String)
    ensures
        r@ == if vstd::utf8::valid_utf8(bytes@) {
            vstd::utf8::decode_utf8(bytes@)
        } else {
            lossy_text(bytes@)
        },
{
    String::from_utf8_lossy(bytes).to_string()
}

/// The key and value in a slot, if it has an entry.
pub open spec fn decoded(slot: Seq<u8>) -> Option<(Seq<char>, Seq<char>)> {
    if slot[OFF_STATUS as int] == 0 {
        None
    } else {
        Some(
            (
                text_of(slot.subrange(OFF_KEY as int, OFF_KEY + key_len(slot))),
                text_of(slot.subrange(OFF_VALUE as int, OFF_VALUE + val_len(slot))),
            ),
        )
    }
}

pub(crate) fn fill(slot: &mut [u8; SLOT_SIZE], at: usize, data: &[u8])
    requires
        at + data@.len() <= SLOT_SIZE,
    ensures
        final(slot)@ == buffer::splice(old(slot)@, at as int, data@),
{
    let mut i: usize = 0;
    while i < data.len()
        invariant
            i <= data@.len(),
            at + data@.len() <= SLOT_SIZE,
            forall|j: int|
                0 <= j < SLOT_SIZE ==> #[trigger] slot@[j] == if at <= j < at + i {
                    data@[j - at]
                } else {
                    old(slot)@[j]
                },
        decreases data@.len() - i,
    {
        slot[at + i] = data[i];
        i += 1;
    }
    proof {
        assert(slot@ =~= buffer::splice(old(slot)@, at as int, data@));
    }
}

fn fill_len(slot: &mut [u8; SLOT_SIZE], at: usize, len: usize)
    requires
        at + 2 <= SLOT_SIZE,
        len < 0x1_0000,
    ensures
        final(slot)@ == buffer::splice(
            old(slot)@,
            at as int,
            buffer::be_bytes(len as nat, 2),
        ),
{
    let mut bytes: Vec<u8> = Vec::new();
    bytes.push((len / 256) as u8);
    bytes.push((len % 256) as u8);
    proof {
        reveal_with_fuel(buffer::be_bytes, 3);
        assert(bytes@ =~= buffer::be_bytes(len as nat, 2));
    }
    fill(slot, at, bytes.as_slice());
}

/// The slot that holds `key` and `value`.
pub fn encode_slot(key: &str, value: &str) -> (r: [u8; SLOT_SIZE])
    requires
        vstd::utf8::encode_utf8(key@).len() <= SLOT_SIZE - OFF_KEY,
        vstd::utf8::encode_utf8(value@).len() <= MAX_VALUE_LEN,
    ensures
        r@ == encoded(vstd::utf8::encode_utf8(key@), vstd::utf8::encode_utf8(value@)),
{
    let key_bytes = key.as_bytes();
    let value_bytes = value.as_bytes();
    let mut slot: [u8; SLOT_SIZE] = [0u8; SLOT_SIZE];
    slot[OFF_STATUS] = 1;
    proof {
        assert(slot@ =~= empty_slot().update(OFF_STATUS as int, 1u8));
    }
    fill_len(&mut slot, OFF_KEY_LEN, key_bytes.len());
    fill_len(&mut slot, OFF_VAL_LEN, value_bytes.len());
    fill(&mut slot, OFF_KEY, key_bytes);
    fill(&mut slot, OFF_VALUE, value_bytes);
    slot
}

/// A slot without an entry.
pub fn cleared_slot() -> (r: [u8; SLOT_SIZE])
    ensures
        r@ == empty_slot(),
{
    let r: [u8; SLOT_SIZE] = [0u8; SLOT_SIZE];
    proof {
        assert(r@ =~= empty_slot());
    }
    r
}

fn length_at(slot: &[u8; SLOT_SIZE], at: usize) -> (r: usize)
    requires
        at + 2 <= SLOT_SIZE,
    ensures
        r == buffer::be_value(slot@.subrange(at as int, at + 2)),
        r < 0x1_0000,
{
    proof {
        let s = slot@.subrange(at as int, at + 2);
        reveal_with_fuel(buffer::be_value, 3);
        assert(s.drop_last() =~= seq![s[0]]);
    }
    slot[at] as usize * 256 + slot[at + 1] as usize
}

/// Whether `decode_slot` can be asked for the slot.
pub fn slot_readable(slot: &[u8; SLOT_SIZE]) -> (r: bool)
    ensures
        r == readable(slot@),
{
    slot[OFF_STATUS] == 0 || (OFF_KEY + length_at(slot, OFF_KEY_LEN) <= SLOT_SIZE && OFF_VALUE
        + length_at(slot, OFF_VAL_LEN) <= SLOT_SIZE)
}

/// The key and value in a slot, if it has an entry.
pub fn decode_slot(data: &[u8; SLOT_SIZE]) -> (r: Option<(String, String)>)
    requires
        readable(data@),
    ensures
        match decoded(data@) {
            Some((key, value)) => r matches Some((k, v)) && k@ == key && v@ == value,
            None => r is None,
        },
{
    if data[OFF_STATUS] == 0 {
        return None;
    }
    let key_end: usize = OFF_KEY + length_at(data, OFF_KEY_LEN);
    let val_end: usize = OFF_VALUE + length_at(data, OFF_VAL_LEN);
    let all = vstd::array::array_as_slice(data);
    let key = text_of_bytes(vstd::slice::slice_subrange(all, OFF_KEY, key_end));
    let value = text_of_bytes(vstd::slice::slice_subrange(all, OFF_VALUE, val_end));
    Some((key, value))
}

/// Two upper-case hexadecimal digits for each byte, with spaces between.
pub open spec fn hex_bytes(chunk: Seq<u8>) -> Seq<char>
    decreases chunk.len(),
{
    if chunk.len() == 0 {
        Seq::empty()
    } else if chunk.len() == 1 {
        text::hex_padded(chunk[0] as nat, 2)
    } else {
        hex_bytes(chunk.drop_last()) + seq![' '] + text::hex_padded(
            chunk.last() as nat,
            2,
        )
    }
}

/// A byte as a character, or a dot where it is not printable ASCII.
pub open spec fn printable(b: u8) -> char {
    if 0x20 <= b <= 0x7E {
        b as char
    } else {
        '.'
    }
}

/// A line of a dump: the offset, the bytes in hexadecimal, and as characters.
pub open spec fn dump_line(chunk: Seq<u8>, offset: nat) -> Seq<char> {
    let hex = hex_bytes(chunk);
    text::hex_padded(offset, 4) + "  "@ + hex + text::filler(hex, 48, ' ') + "  "@
        + Seq::new(chunk.len(), |i: int| printable(chunk[i]))
}

/// How many lines a dump of `len` bytes has, at most `max_lines`.
pub open spec fn dump_lines(len: nat, max_lines: nat) -> nat {
    let all = (len + 15) / 16;
    if all <= max_lines {
        all
    } else {
        max_lines
    }
}

/// The bytes of line `i` of a dump.
pub open spec fn dump_chunk(data: Seq<u8>, i: int) -> Seq<u8> {
    data.subrange(
        16 * i,
        if 16 * i + 16 <= data.len() {
            16 * i + 16
        } else {
            data.len() as int
        },
    )
}

/// A dump of `data`, sixteen bytes to the line, with offsets from `base` on.
pub open spec fn dump(data: Seq<u8>, base: nat, max_lines: nat) -> Seq<Seq<char>> {
    Seq::new(
        dump_lines(data.len(), max_lines),
        |i: int| dump_line(dump_chunk(data, i), (base + 16 * i) as nat),
    )
}

/// Lines of text as sequences.
pub open spec fn texts(lines: Seq<String>) -> Seq<Seq<char>> {
    lines.map_values(|l: String| l@)
}

fn push_hex_bytes(out: &mut String, chunk: &[u8])
    ensures
        final(out)@ == old(out)@ + hex_bytes(chunk@),
{
    let mut i: usize = 0;
    proof {
        assert(chunk@.take(0) =~= Seq::<u8>::empty());
        assert(old(out)@ + hex_bytes(chunk@.take(0)) =~= old(out)@);
    }
    while i < chunk.len()
        invariant
            i <= chunk@.len(),
            out@ == old(out)@ + hex_bytes(chunk@.take(i as int)),
        decreases chunk@.len() - i,
    {
        let ghost before = out@;
        if i > 0 {
            out.push(' ');
        }
        push_hex(out, chunk[i] as u64, 2);
        proof {
            assert(chunk@.take(i + 1).drop_last() =~= chunk@.take(i as int));
            assert(out@ =~= old(out)@ + hex_bytes(chunk@.take(i + 1)));
        }
        i += 1;
    }
    proof {
        assert(chunk@.take(chunk@.len() as int) =~= chunk@);
    }
}

fn push_printable(out: &mut String, chunk: &[u8])
    ensures
        final(out)@ == old(out)@ + Seq::new(chunk@.len(), |i: int| printable(chunk@[i])),
{
    let mut i: usize = 0;
    while i < chunk.len()
        invariant
            i <= chunk@.len(),
            out@ =~= old(out)@ + Seq::new(i as nat, |j: int| printable(chunk@[j])),
        decreases chunk@.len() - i,
    {
        let b = chunk[i];
        if 0x20 <= b && b <= 0x7E {
            out.push(b as char);
        } else {
            out.push('.');
        }
        i += 1;
    }
}

fn line_of(chunk: &[u8], offset: usize) -> (r: String)
    requires
        chunk@.len() <= 16,
    ensures
        r@ == dump_line(chunk@, offset as nat),
{
    let mut r = String::new();
    push_hex(&mut r, offset as u64, 4);
    r.append("  ");
    let ghost head = r@;
    push_hex_bytes(&mut r, chunk);
    proof {
        lemma_hex_bytes_len(chunk@);
    }
    let width: usize = if chunk.len() == 0 {
        0
    } else {
        3 * chunk.len() - 1
    };
    push_repeated(&mut r, ' ', 48 - width);
    r.append("  ");
    push_printable(&mut r, chunk);
    proof {
        let hex = hex_bytes(chunk@);
        assert(text::filler(hex, 48, ' ') =~= Seq::new((48 - width) as nat, |i: int| ' '));
        assert(r@ =~= dump_line(chunk@, offset as nat));
    }
    r
}

proof fn lemma_hex_bytes_len(chunk: Seq<u8>)
    ensures
        hex_bytes(chunk).len() == if chunk.len() == 0 {
            0
        } else {
            3 * chunk.len() - 1
        },
    decreases chunk.len(),
{
    if chunk.len() > 0 {
        let b = chunk.last() as nat;
        assert(text::hex_padded(b, 2).len() == 2) by {
            reveal_with_fuel(text::hex_upper, 3);
        }
        if chunk.len() > 1 {
            lemma_hex_bytes_len(chunk.drop_last());
        }
    }
}

/// A dump of `data`, sixteen bytes to the line, with offsets from `base_offset`
/// on and at most `max_lines` lines.
pub fn hex_dump_region(data: &[u8], base_offset: usize, max_lines: usize) -> (r: Vec<String>)
    requires
        dump_lines(data@.len(), max_lines as nat) > 0 ==> base_offset + 16 * (dump_lines(
            data@.len(),
            max_lines as nat,
        ) - 1) <= usize::MAX,
    ensures
        texts(r@) == dump(data@, base_offset as nat, max_lines as nat),
{
    let mut lines: Vec<String> = Vec::new();
    let mut start: usize = 0;
    let ghost count = dump_lines(data@.len(), max_lines as nat);
    let ghost all = dump(data@, base_offset as nat, max_lines as nat);
    while lines.len() < max_lines && start < data.len()
        invariant
            lines@.len() <= count,
            count == dump_lines(data@.len(), max_lines as nat),
            all == dump(data@, base_offset as nat, max_lines as nat),
            count > 0 ==> base_offset + 16 * (count - 1) <= usize::MAX,
            start == if 16 * lines@.len() <= data@.len() {
                16 * lines@.len() as int
            } else {
                data@.len() as int
            },
            texts(lines@) =~= all.take(lines@.len() as int),
        decreases data@.len() - start,
    {
        let end: usize = if data.len() - start < 16 {
            data.len()
        } else {
            start + 16
        };
        let line = line_of(vstd::slice::slice_subrange(data, start, end), base_offset + start);
        proof {
            assert(data@.subrange(start as int, end as int) =~= dump_chunk(
                data@,
                lines@.len() as int,
            ));
            assert(line@ == all[lines@.len() as int]);
        }
        lines.push(line);
        start = end;
    }
    proof {
        assert(lines@.len() == count);
        assert(all.take(count as int) =~= all);
    }
    lines
}

/// A length in words, in the heading of a part of a slot.
pub open spec fn heading(name: Seq<char>, len: nat) -> Seq<char> {
    "--- "@ + name + " data ("@ + text::decimal(len) + " bytes) ---"@
}

/// How many lines show `len` bytes and one line after them.
pub open spec fn lines_for(len: nat) -> nat {
    (len + 15) / 16 + 1
}

/// The smaller of two numbers.
pub open spec fn at_most(a: nat, b: nat) -> nat {
    if a <= b {
        a
    } else {
        b
    }
}

/// A slot in full: its header, its key and its value, each with a heading.
pub open spec fn slot_text(slot: Seq<u8>) -> Seq<Seq<char>> {
    let key_lines = at_most(lines_for(key_len(slot)), 16);
    let val_lines = lines_for(val_len(slot));
    let val_end = at_most(OFF_VALUE as nat + val_lines * 16, SLOT_SIZE as nat);
    let header_dump = dump(slot.subrange(0, OFF_KEY as int), 0, 1);
    let key_dump = dump(
        slot.subrange(OFF_KEY as int, OFF_KEY + key_lines * 16),
        OFF_KEY as nat,
        key_lines,
    );
    let val_dump = dump(
        slot.subrange(OFF_VALUE as int, val_end as int),
        OFF_VALUE as nat,
        at_most(val_lines, 48),
    );
    seq!["--- header (status, key_len, val_len) ---"@] + header_dump + seq![
        heading("key"@, key_len(slot)),
    ] + key_dump + seq![heading("value"@, val_len(slot))] + val_dump
}

fn heading_of(name: &str, len: usize) -> (r: String)
    ensures
        r@ == heading(name@, len as nat),
{
    let mut r = "--- ".to_owned();
    r.append(name);
    r.append(" data (");
    push_decimal(&mut r, len as u64);
    r.append(" bytes) ---");
    r
}

fn extend_lines(lines: &mut Vec<String>, more: Vec<String>)
    ensures
        texts(final(lines)@) == texts(old(lines)@) + texts(more@),
{
    let ghost added = more@;
    let mut more = more;
    lines.append(&mut more);
    proof {
        assert(texts(lines@) =~= texts(old(lines)@) + texts(added));
    }
}

fn add_line(lines: &mut Vec<String>, line: String)
    ensures
        texts(final(lines)@) == texts(old(lines)@) + seq![line@],
{
    lines.push(line);
    proof {
        assert(texts(lines@) =~= texts(old(lines)@) + seq![line@]);
    }
}

/// A slot in full: its header, its key and its value, each with a heading.
pub fn slot_hex_lines(data: &[u8; SLOT_SIZE]) -> (r: Vec<String>)
    ensures
        texts(r@) == slot_text(data@),
{
    let all = vstd::array::array_as_slice(data);
    let mut lines: Vec<String> = Vec::new();
    proof {
        assert(texts(lines@) =~= Seq::<Seq<char>>::empty());
    }
    add_line(&mut lines, "--- header (status, key_len, val_len) ---".to_owned());
    let header = hex_dump_region(vstd::slice::slice_subrange(all, 0, OFF_KEY), 0, 1);
    extend_lines(&mut lines, header);

    let key_len = length_at(data, OFF_KEY_LEN);
    let key_show: usize = (key_len + 15) / 16 + 1;
    let key_lines: usize = if key_show <= 16 {
        key_show
    } else {
        16
    };
    add_line(&mut lines, heading_of("key", key_len));
    let key_dump = hex_dump_region(
        vstd::slice::slice_subrange(all, OFF_KEY, OFF_KEY + key_lines * 16),
        OFF_KEY,
        key_lines,
    );
    extend_lines(&mut lines, key_dump);

    let val_len = length_at(data, OFF_VAL_LEN);
    let val_show: usize = (val_len + 15) / 16 + 1;
    let val_end: usize = if OFF_VALUE + val_show * 16 <= SLOT_SIZE {
        OFF_VALUE + val_show * 16
    } else {
        SLOT_SIZE
    };
    add_line(&mut lines, heading_of("value", val_len));
    let val_lines: usize = if val_show <= 48 {
        val_show
    } else {
        48
    };
    let val_dump = hex_dump_region(
        vstd::slice::slice_subrange(all, OFF_VALUE, val_end),
        OFF_VALUE,
        val_lines,
    );
    extend_lines(&mut lines, val_dump);
    proof {
        assert(texts(lines@) =~= slot_text(data@));
    }
    lines
}

} // verus!
