//! What holds of the table as a whole.
use vstd::prelude::*;

use super::probe;
use super::probe::{ProbeModel, Verdict};
use super::slot;
use super::slot::{OFF_KEY, OFF_KEY_LEN, OFF_STATUS, OFF_VALUE, OFF_VAL_LEN};
use super::{KvModel, MAX_KEY_LEN, MAX_VALUE_LEN, MR_SIZE, SLOT_COUNT, SLOT_SIZE};
use crate::buffer;
use crate::error::RdowsError;
use crate::frame::RdowsHeader;
use crate::message::MessageModel;

verus! {

/// A table: every slot, each with its bytes.
pub open spec fn is_table(table: Seq<Seq<u8>>) -> bool {
    &&& table.len() == SLOT_COUNT
    &&& forall|i: int| 0 <= i < SLOT_COUNT ==> #[trigger] table[i].len() == SLOT_SIZE
}

/// Key and value fit into a slot.
pub open spec fn fits(key: Seq<char>, value: Seq<char>) -> bool {
    &&& vstd::utf8::encode_utf8(key).len() <= MAX_KEY_LEN
    &&& vstd::utf8::encode_utf8(value).len() <= MAX_VALUE_LEN
}

/// The slot that `put` writes.
pub open spec fn entry(key: Seq<char>, value: Seq<char>) -> Seq<u8> {
    slot::encoded(vstd::utf8::encode_utf8(key), vstd::utf8::encode_utf8(value))
}

/// What a slot is to the search `p`.
pub open spec fn seen_by(table: Seq<Seq<u8>>, p: ProbeModel) -> Verdict {
    probe::verdict(table[p.slot()], p.key)
}

/// The search `p` goes on past its slot.
pub open spec fn goes_on(table: Seq<Seq<u8>>, p: ProbeModel) -> bool {
    seen_by(table, p) is Taken && p.seen + 1 < SLOT_COUNT
}

/// The table after putting, step by step from `p` on; nothing if it is full.
pub open spec fn put_from(table: Seq<Seq<u8>>, p: ProbeModel, value: Seq<char>) -> Option<
    Seq<Seq<u8>>,
>
    decreases SLOT_COUNT - p.seen,
{
    if goes_on(table, p) {
        put_from(table, p.advanced(), value)
    } else if seen_by(table, p) is Taken {
        None
    } else {
        Some(table.update(p.slot(), entry(p.key, value)))
    }
}

/// The value that a lookup finds, step by step from `p` on.
pub open spec fn get_from(table: Seq<Seq<u8>>, p: ProbeModel) -> Option<Seq<char>>
    decreases SLOT_COUNT - p.seen,
{
    if goes_on(table, p) {
        get_from(table, p.advanced())
    } else {
        match seen_by(table, p) {
            Verdict::Held(value) => Some(value),
            _ => None,
        }
    }
}

/// The table after deleting, step by step from `p` on.
pub open spec fn delete_from(table: Seq<Seq<u8>>, p: ProbeModel) -> Seq<Seq<u8>>
    decreases SLOT_COUNT - p.seen,
{
    if goes_on(table, p) {
        delete_from(table, p.advanced())
    } else if seen_by(table, p) is Held {
        table.update(p.slot(), slot::empty_slot())
    } else {
        table
    }
}

/// The search `p` reads slot `index`, now or later.
pub open spec fn reads(table: Seq<Seq<u8>>, p: ProbeModel, index: int) -> bool
    decreases SLOT_COUNT - p.seen,
{
    p.slot() == index || goes_on(table, p) && reads(table, p.advanced(), index)
}

/// The value under `key`.
pub open spec fn lookup(table: Seq<Seq<u8>>, key: Seq<char>) -> Option<Seq<char>> {
    get_from(table, probe::begun(key))
}

/// The table after putting `value` under `key`.
pub open spec fn put(table: Seq<Seq<u8>>, key: Seq<char>, value: Seq<char>) -> Option<
    Seq<Seq<u8>>,
> {
    put_from(table, probe::begun(key), value)
}

/// The table after deleting `key`.
pub open spec fn delete(table: Seq<Seq<u8>>, key: Seq<char>) -> Seq<Seq<u8>> {
    delete_from(table, probe::begun(key))
}

/// What was encoded into a slot is decoded from it, and the slot can be read.
pub proof fn law_decode_encode(key: Seq<char>, value: Seq<char>)
    requires
        fits(key, value),
    ensures
        entry(key, value).len() == SLOT_SIZE,
        slot::readable(entry(key, value)),
        slot::decoded(entry(key, value)) == Some((key, value)),
{
    let k = vstd::utf8::encode_utf8(key);
    let v = vstd::utf8::encode_utf8(value);
    let slot = entry(key, value);
    let k_len = buffer::be_bytes(k.len(), 2);
    let v_len = buffer::be_bytes(v.len(), 2);
    reveal_with_fuel(buffer::be_count, 3);
    buffer::law_be_value_of_bytes(k.len(), 2);
    buffer::law_be_value_of_bytes(v.len(), 2);
    assert(slot[OFF_STATUS as int] == 1);
    assert(slot.subrange(OFF_KEY_LEN as int, OFF_KEY_LEN + 2) =~= k_len);
    assert(slot.subrange(OFF_VAL_LEN as int, OFF_VAL_LEN + 2) =~= v_len);
    assert(slot.subrange(OFF_KEY as int, OFF_KEY + k.len()) =~= k);
    assert(slot.subrange(OFF_VALUE as int, OFF_VALUE + v.len()) =~= v);
    vstd::utf8::encode_utf8_valid_utf8(key);
    vstd::utf8::encode_utf8_valid_utf8(value);
    vstd::utf8::encode_utf8_decode_utf8(key);
    vstd::utf8::encode_utf8_decode_utf8(value);
}

/// A cleared slot has no entry.
pub proof fn law_empty_slot_is_free()
    ensures
        slot::readable(slot::empty_slot()),
        slot::decoded(slot::empty_slot()) is None,
{
}

/// Where a search is in the table.
spec fn in_table(p: ProbeModel) -> bool {
    0 <= p.start < SLOT_COUNT && 0 <= p.seen < SLOT_COUNT
}

/// The search `q` began where `p` did, and is as far or farther.
spec fn farther(p: ProbeModel, q: ProbeModel) -> bool {
    p.key == q.key && p.start == q.start && p.seen <= q.seen
}

proof fn lemma_begun(key: Seq<char>)
    ensures
        in_table(probe::begun(key)),
{
}

proof fn lemma_distinct_slots(p: ProbeModel, q: ProbeModel)
    requires
        in_table(p),
        in_table(q),
        p.start == q.start,
        p.seen != q.seen,
    ensures
        p.slot() != q.slot(),
{
}

/// The search at which `put`, `get` or `delete` that is at `p` ends.
spec fn last_probe(table: Seq<Seq<u8>>, p: ProbeModel) -> ProbeModel
    decreases SLOT_COUNT - p.seen,
{
    if goes_on(table, p) {
        last_probe(table, p.advanced())
    } else {
        p
    }
}

proof fn lemma_last_probe(table: Seq<Seq<u8>>, p: ProbeModel, value: Seq<char>)
    requires
        in_table(p),
    ensures
        ({
            let last = last_probe(table, p);
            &&& in_table(last)
            &&& farther(p, last)
            &&& !goes_on(table, last)
            &&& put_from(table, p, value) == put_from(table, last, value)
            &&& get_from(table, p) == get_from(table, last)
            &&& delete_from(table, p) == delete_from(table, last)
            &&& reads(table, p, last.slot())
        }),
    decreases SLOT_COUNT - p.seen,
{
    if goes_on(table, p) {
        lemma_last_probe(table, p.advanced(), value);
    }
}

/// A change at the slot where a search ended leaves what comes before it.
proof fn lemma_walk_kept(table: Seq<Seq<u8>>, p: ProbeModel, slot: Seq<u8>)
    requires
        is_table(table),
        in_table(p),
    ensures
        ({
            let last = last_probe(table, p);
            let changed = table.update(last.slot(), slot);
            get_from(changed, p) == get_from(changed, last)
        }),
    decreases SLOT_COUNT - p.seen,
{
    lemma_last_probe(table, p, Seq::empty());
    if goes_on(table, p) {
        lemma_walk_kept(table, p.advanced(), slot);
        lemma_last_probe(table, p.advanced(), Seq::empty());
        lemma_distinct_slots(p, last_probe(table, p));
    }
}

/// A lookup gives back what was put, whatever the table holds.
pub proof fn law_get_after_put(table: Seq<Seq<u8>>, key: Seq<char>, value: Seq<char>)
    requires
        is_table(table),
        fits(key, value),
    ensures
        put(table, key, value) matches Some(after) ==> lookup(after, key) == Some(value),
{
    let p = probe::begun(key);
    lemma_begun(key);
    lemma_last_probe(table, p, value);
    lemma_walk_kept(table, p, entry(key, value));
    law_decode_encode(key, value);
}

/// Nothing is found under a key that was deleted, whatever the table holds.
pub proof fn law_get_after_delete(table: Seq<Seq<u8>>, key: Seq<char>)
    requires
        is_table(table),
    ensures
        lookup(delete(table, key), key) is None,
{
    let p = probe::begun(key);
    lemma_begun(key);
    lemma_last_probe(table, p, Seq::empty());
    lemma_walk_kept(table, p, slot::empty_slot());
    law_empty_slot_is_free();
}

/// Putting changes one slot at most, and that slot was empty or had the key:
/// no entry of another key is overwritten.
pub proof fn law_put_spares_others(
    table: Seq<Seq<u8>>,
    key: Seq<char>,
    value: Seq<char>,
    index: int,
)
    requires
        is_table(table),
        0 <= index < SLOT_COUNT,
    ensures
        put(table, key, value) matches Some(after) ==> {
            &&& after.len() == table.len()
            &&& after[index] == table[index] || !(probe::verdict(
                table[index],
                key,
            ) is Taken)
        },
{
    let p = probe::begun(key);
    lemma_begun(key);
    lemma_last_probe(table, p, value);
}

/// Putting is refused only where every slot has an entry of another key.
pub proof fn law_full_means_full(
    table: Seq<Seq<u8>>,
    key: Seq<char>,
    value: Seq<char>,
    index: int,
)
    requires
        is_table(table),
        0 <= index < SLOT_COUNT,
        put(table, key, value) is None,
    ensures
        probe::verdict(table[index], key) is Taken,
{
    let p = probe::begun(key);
    lemma_begun(key);
    let seen = (index - p.start) % (SLOT_COUNT as int);
    lemma_all_taken(table, p, value, seen);
    assert((p.start + seen) % 64 == index);
}

proof fn lemma_all_taken(table: Seq<Seq<u8>>, p: ProbeModel, value: Seq<char>, seen: int)
    requires
        in_table(p),
        put_from(table, p, value) is None,
        p.seen <= seen < SLOT_COUNT,
    ensures
        seen_by(table, ProbeModel { seen, ..p }) is Taken,
    decreases SLOT_COUNT - p.seen,
{
    if p.seen < seen {
        lemma_all_taken(table, p.advanced(), value, seen);
        assert(ProbeModel { seen, ..p.advanced() } == ProbeModel { seen, ..p });
    } else {
        assert(ProbeModel { seen, ..p } == p);
    }
}

proof fn lemma_other_kept(
    table: Seq<Seq<u8>>,
    p: ProbeModel,
    index: int,
    slot: Seq<u8>,
)
    requires
        is_table(table),
        in_table(p),
        0 <= index < SLOT_COUNT,
        get_from(table, p) is Some,
        probe::verdict(slot, p.key) is Taken,
        !(probe::verdict(table[index], p.key) is Held),
    ensures
        get_from(table.update(index, slot), p) == get_from(table, p),
    decreases SLOT_COUNT - p.seen,
{
    if goes_on(table, p) {
        lemma_other_kept(table, p.advanced(), index, slot);
    }
}

/// An entry that a lookup finds is still found after another key was put.
pub proof fn law_put_keeps_other_entries(
    table: Seq<Seq<u8>>,
    key: Seq<char>,
    value: Seq<char>,
    other: Seq<char>,
)
    requires
        is_table(table),
        fits(key, value),
        other != key,
        lookup(table, other) is Some,
    ensures
        put(table, key, value) matches Some(after) ==> lookup(after, other) == lookup(
            table,
            other,
        ),
{
    let p = probe::begun(key);
    lemma_begun(key);
    lemma_begun(other);
    lemma_last_probe(table, p, value);
    law_decode_encode(key, value);
    let index = last_probe(table, p).slot();
    if put(table, key, value) is Some {
        lemma_other_kept(table, probe::begun(other), index, entry(key, value));
    }
}

proof fn lemma_unread_kept(table: Seq<Seq<u8>>, p: ProbeModel, index: int, slot: Seq<u8>)
    requires
        is_table(table),
        in_table(p),
        0 <= index < SLOT_COUNT,
        !reads(table, p, index),
    ensures
        get_from(table.update(index, slot), p) == get_from(table, p),
    decreases SLOT_COUNT - p.seen,
{
    if goes_on(table, p) {
        lemma_unread_kept(table, p.advanced(), index, slot);
    }
}

/// The slot at which the search for `key` ends.
pub closed spec fn resting_slot(table: Seq<Seq<u8>>, key: Seq<char>) -> int {
    last_probe(table, probe::begun(key)).slot()
}

/// Deleting a key changes no slot but the one at which its search ends.
pub proof fn law_delete_touches_one_slot(table: Seq<Seq<u8>>, key: Seq<char>, index: int)
    requires
        is_table(table),
        0 <= index < SLOT_COUNT,
        index != resting_slot(table, key),
    ensures
        delete(table, key)[index] == table[index],
{
    lemma_begun(key);
    lemma_last_probe(table, probe::begun(key), Seq::empty());
}

/// Deleting a key leaves every lookup as it was whose search does not read the
/// slot that is cleared.
pub proof fn law_delete_keeps_other_entries(
    table: Seq<Seq<u8>>,
    key: Seq<char>,
    other: Seq<char>,
)
    requires
        is_table(table),
        !reads(table, probe::begun(other), resting_slot(table, key)),
    ensures
        lookup(delete(table, key), other) == lookup(table, other),
{
    let p = probe::begun(key);
    lemma_begun(key);
    lemma_begun(other);
    lemma_last_probe(table, p, Seq::empty());
    lemma_unread_kept(
        table,
        probe::begun(other),
        resting_slot(table, key),
        slot::empty_slot(),
    );
}

/// Every slot of the table can be read.
pub open spec fn all_readable(table: Seq<Seq<u8>>) -> bool {
    forall|i: int| 0 <= i < SLOT_COUNT ==> slot::readable(#[trigger] table[i])
}

/// A region of zeros is a table that can be read.
pub proof fn law_new_table_is_readable()
    ensures
        ({
            let zeros = Seq::new(SLOT_COUNT as nat, |i: int| slot::empty_slot());
            is_table(zeros) && all_readable(zeros)
        }),
{
    law_empty_slot_is_free();
}

/// A table that can be read can be read after anything was put.
pub proof fn law_put_keeps_table_readable(
    table: Seq<Seq<u8>>,
    key: Seq<char>,
    value: Seq<char>,
)
    requires
        is_table(table),
        all_readable(table),
        fits(key, value),
    ensures
        put(table, key, value) matches Some(after) ==> is_table(after) && all_readable(after),
{
    let p = probe::begun(key);
    lemma_begun(key);
    lemma_last_probe(table, p, value);
    law_decode_encode(key, value);
}

/// A table that can be read can be read after any key was deleted.
pub proof fn law_delete_keeps_table_readable(table: Seq<Seq<u8>>, key: Seq<char>)
    requires
        is_table(table),
        all_readable(table),
    ensures
        is_table(delete(table, key)),
        all_readable(delete(table, key)),
{
    let p = probe::begun(key);
    lemma_begun(key);
    lemma_last_probe(table, p, Seq::empty());
    law_empty_slot_is_free();
}

/// Putting twice under one key leaves one entry: the second put goes to the
/// slot of the first.
pub proof fn law_put_updates_in_place(
    table: Seq<Seq<u8>>,
    key: Seq<char>,
    first: Seq<char>,
    second: Seq<char>,
)
    requires
        is_table(table),
        fits(key, first),
        fits(key, second),
        put(table, key, first) is Some,
    ensures
        put(put(table, key, first)->0, key, second) == put(table, key, second),
{
    let p = probe::begun(key);
    lemma_begun(key);
    lemma_last_probe(table, p, first);
    lemma_last_probe(table, p, second);
    law_decode_encode(key, first);
    lemma_put_again(table, p, first, second);
}

proof fn lemma_put_again(
    table: Seq<Seq<u8>>,
    p: ProbeModel,
    first: Seq<char>,
    second: Seq<char>,
)
    requires
        is_table(table),
        in_table(p),
        fits(p.key, first),
        put_from(table, p, first) is Some,
    ensures
        put_from(put_from(table, p, first)->0, p, second) == put_from(table, p, second),
    decreases SLOT_COUNT - p.seen,
{
    law_decode_encode(p.key, first);
    lemma_last_probe(table, p, first);
    if goes_on(table, p) {
        lemma_put_again(table, p.advanced(), first, second);
        lemma_last_probe(table, p.advanced(), first);
        lemma_distinct_slots(p, last_probe(table, p));
    } else {
        let after = put_from(table, p, first)->0;
        assert(after.update(p.slot(), entry(p.key, second)) =~= table.update(
            p.slot(),
            entry(p.key, second),
        ));
    }
}

/// Every slot lies in the region, and no two slots overlap.
pub proof fn law_slots_tile_the_region(i: int, j: int)
    requires
        0 <= i < j < SLOT_COUNT,
    ensures
        i * SLOT_SIZE + SLOT_SIZE <= j * SLOT_SIZE,
        j * SLOT_SIZE + SLOT_SIZE <= MR_SIZE,
        SLOT_COUNT * SLOT_SIZE == MR_SIZE,
{
}

/// The table that lies in the bytes of a region.
pub open spec fn table_of(bytes: Seq<u8>) -> Seq<Seq<u8>> {
    Seq::new(
        SLOT_COUNT as nat,
        |i: int| bytes.subrange(i * SLOT_SIZE, i * SLOT_SIZE + SLOT_SIZE),
    )
}

/// Writing a slot's bytes at its place in the region changes that slot of the
/// table, and no other; reading them gives the slot.
pub proof fn law_region_is_the_table(bytes: Seq<u8>, index: int, data: Seq<u8>)
    requires
        bytes.len() >= MR_SIZE,
        0 <= index < SLOT_COUNT,
        data.len() == SLOT_SIZE,
    ensures
        is_table(table_of(bytes)),
        table_of(buffer::splice(bytes, index * SLOT_SIZE, data)) == table_of(
            bytes,
        ).update(index, data),
        bytes.subrange(index * SLOT_SIZE, index * SLOT_SIZE + SLOT_SIZE) == table_of(
            bytes,
        )[index],
{
    let after = buffer::splice(bytes, index * SLOT_SIZE, data);
    assert forall|i: int| 0 <= i < SLOT_COUNT implies #[trigger] table_of(after)[i] == table_of(
        bytes,
    ).update(index, data)[i] by {
        if i == index {
            buffer::law_splice_read_back(bytes, index * SLOT_SIZE, data);
        } else {
            assert(table_of(after)[i] =~= table_of(bytes)[i]);
        }
    }
    assert(table_of(after) =~= table_of(bytes).update(index, data));
}

/// A slot that the remote side sent is the slot that is handed out, if the
/// local buffer has room for one.
pub proof fn law_slot_read_is_the_slot_sent(
    store: KvModel,
    wrid: u64,
    header: RdowsHeader,
    data: Seq<u8>,
)
    requires
        store.conn.regions.contains_key(store.local_lkey.0),
        store.conn.regions[store.local_lkey.0].bytes.len() >= SLOT_SIZE,
        data.len() == SLOT_SIZE,
    ensures
        store.read_back(wrid, MessageModel::ReadResp(header, data)).1 == Ok::<
            Seq<u8>,
            RdowsError,
        >(data),
{
    let k = store.local_lkey.0;
    let bytes = store.conn.regions[k].bytes;
    buffer::law_splice_read_back(bytes, 0, data);
}

/// A slot that is written is sent as it is, if the local buffer has room for
/// one and the queue for its completion.
pub proof fn law_slot_write_sends_the_slot(store: KvModel, index: int, data: Seq<u8>)
    requires
        store.conn.regions.contains_key(store.local_lkey.0),
        store.conn.regions[store.local_lkey.0].bytes.len() >= SLOT_SIZE,
        !store.conn.cq_full(),
        data.len() == SLOT_SIZE,
    ensures
        store.write_posted(index, data).1 matches Ok((_, posted)) && (posted.data matches
            MessageModel::WriteData(_, sent) && sent == data),
{
    reveal_with_fuel(crate::client::model::gathered, 2);
    let k = store.local_lkey.0;
    let bytes = store.conn.regions[k].bytes;
    buffer::law_splice_read_back(bytes, 0, data);
    let filled = buffer::splice(bytes, 0, data);
    assert(Seq::<u8>::empty() + filled.subrange(0, SLOT_SIZE as int) =~= data);
    let whole = crate::queue::ScatterGatherEntry {
        lkey: store.local_lkey,
        offset: 0,
        length: SLOT_SIZE as u32,
    };
    assert(seq![whole].drop_last() =~= Seq::<crate::queue::ScatterGatherEntry>::empty());
}

} // verus!
