//! The walk along the slots: what each operation does with the slot it reads.
use vstd::prelude::*;

use super::laws;
use super::slot;
use super::slot::{cleared_slot, decode_slot, encode_slot, hash_key, slot_hex_lines};
use super::{
    DeleteResult, GetResult, KvError, PutResult, SlotInfo, MAX_KEY_LEN, MAX_VALUE_LEN, SLOT_COUNT,
    SLOT_SIZE,
};
use crate::text;
use crate::text::{push_hex, same_text};

verus! {

/// A search for a key: where it began, and how many slots it has seen.
#[verifier::ext_equal]
pub struct ProbeModel {
    pub key: Seq<char>,
    pub start: int,
    pub seen: int,
}

impl ProbeModel {
    /// The slot to read next.
    pub open spec fn slot(self) -> int {
        (self.start + self.seen) % (SLOT_COUNT as int)
    }

    /// The search one slot further on.
    pub open spec fn advanced(self) -> ProbeModel {
        ProbeModel { seen: self.seen + 1, ..self }
    }
}

/// A search for `key` that has not begun.
pub open spec fn begun(key: Seq<char>) -> ProbeModel {
    ProbeModel { key, start: slot::home_slot(vstd::utf8::encode_utf8(key)), seen: 0 }
}

/// What a slot is to the search for a key.
pub enum Verdict {
    /// It has no entry.
    Free,
    /// It has the key, with this value.
    Held(Seq<char>),
    /// It has another key.
    Taken,
}

/// What `slot` is to the search for `key`.
pub open spec fn verdict(slot: Seq<u8>, key: Seq<char>) -> Verdict {
    match slot::decoded(slot) {
        None => Verdict::Free,
        Some((k, value)) => if k == key {
            Verdict::Held(value)
        } else {
            Verdict::Taken
        },
    }
}

/// Where slot `index` lies in the region, in words.
pub open spec fn offset_text(index: int) -> Seq<char> {
    "0x"@ + text::hex_padded((index * SLOT_SIZE) as nat, 4)
}

fn offset_of(index: usize) -> (r: String)
    requires
        index < SLOT_COUNT,
    ensures
        r@ == offset_text(index as int),
{
    let mut r = "0x".to_owned();
    push_hex(&mut r, (index * SLOT_SIZE) as u64, 4);
    r
}

/// A search for a key.
pub struct Probe {
    pub key: String,
    pub start: usize,
    pub seen: usize,
}

impl View for Probe {
    type V = ProbeModel;

    open spec fn view(&self) -> ProbeModel {
        ProbeModel { key: self.key@, start: self.start as int, seen: self.seen as int }
    }
}

impl Probe {
    /// The search began in the table and has not seen all of it.
    pub open spec fn wf(self) -> bool {
        self.start < SLOT_COUNT && self.seen < SLOT_COUNT
    }

    /// A search for `key`.
    pub fn new(key: &str) -> (r: Probe)
        ensures
            r@ == begun(key@),
            r.wf(),
    {
        Probe { key: key.to_owned(), start: hash_key(key.as_bytes()), seen: 0 }
    }

    /// The slot to read next.
    pub fn slot_index(&self) -> (r: usize)
        requires
            self.wf(),
        ensures
            r == self@.slot(),
            r < SLOT_COUNT,
    {
        (self.start + self.seen) % SLOT_COUNT
    }

    fn advance(self) -> (r: Option<Probe>)
        requires
            self.wf(),
        ensures
            match r {
                Some(next) => self.seen + 1 < SLOT_COUNT && next.wf() && next@
                    == self@.advanced(),
                None => self.seen + 1 == SLOT_COUNT,
            },
    {
        let seen: usize = self.seen + 1;
        if seen < SLOT_COUNT {
            Some(Probe { key: self.key, start: self.start, seen })
        } else {
            None
        }
    }

    /// What a lookup does with the slot it asked for: an empty slot ends it, and
    /// so does the end of the table.
    pub fn get_step(self, slot: &[u8; SLOT_SIZE]) -> (r: GetStep)
        requires
            self.wf(),
            slot::readable(slot@),
        ensures
            match verdict(slot@, self@.key) {
                Verdict::Free => r matches GetStep::Done(found) && found is None,
                Verdict::Held(value) => {
                    &&& r matches GetStep::Done(Some(result))
                    &&& result.describes(self@, value, slot@)
                },
                Verdict::Taken => if self.seen + 1 < SLOT_COUNT {
                    r matches GetStep::Next(next) && next.wf() && next@ == self@.advanced()
                } else {
                    r matches GetStep::Done(found) && found is None
                },
            },
            forall|table: Seq<Seq<u8>>|
                table[self@.slot()] == slot@ ==> #[trigger] laws::get_from(table, self@)
                    == match r {
                    GetStep::Next(next) => laws::get_from(table, next@),
                    GetStep::Done(Some(result)) => Some(result.value@),
                    GetStep::Done(None) => None,
                },
    {
        match decode_slot(slot) {
            None => GetStep::Done(None),
            Some((existing_key, value)) => {
                if same_text(existing_key.as_str(), self.key.as_str()) {
                    let index = self.slot_index();
                    return GetStep::Done(
                        Some(
                            GetResult {
                                operation: "RDMA_READ",
                                slot: index,
                                offset: offset_of(index),
                                bytes: SLOT_SIZE,
                                key: self.key,
                                value,
                                probes: self.seen + 1,
                                raw_hex: slot_hex_lines(slot),
                            },
                        ),
                    );
                }
                match self.advance() {
                    Some(next) => GetStep::Next(next),
                    None => GetStep::Done(None),
                }
            },
        }
    }

    /// What a deletion does with the slot it asked for: the slot with the key is
    /// cleared.
    pub fn delete_step(self, slot: &[u8; SLOT_SIZE]) -> (r: DeleteStep)
        requires
            self.wf(),
            slot::readable(slot@),
        ensures
            match verdict(slot@, self@.key) {
                Verdict::Free => {
                    &&& r matches DeleteStep::Done(result)
                    &&& result.describes(self@, "RDMA_WRITE"@, self@.slot(), self.seen + 1, false)
                },
                Verdict::Held(_) => {
                    &&& r matches DeleteStep::Write(index, data, result)
                    &&& index == self@.slot()
                    &&& data@ == slot::empty_slot()
                    &&& result.describes(self@, "RDMA_WRITE"@, self@.slot(), self.seen + 1, true)
                },
                Verdict::Taken => if self.seen + 1 < SLOT_COUNT {
                    r matches DeleteStep::Next(next) && next.wf() && next@ == self@.advanced()
                } else {
                    &&& r matches DeleteStep::Done(result)
                    &&& result.describes(
                        self@,
                        "RDMA_READ"@,
                        self@.start,
                        SLOT_COUNT as int,
                        false,
                    )
                },
            },
            forall|table: Seq<Seq<u8>>|
                table[self@.slot()] == slot@ ==> #[trigger] laws::delete_from(table, self@)
                    == match r {
                    DeleteStep::Next(next) => laws::delete_from(table, next@),
                    DeleteStep::Write(index, data, _) => table.update(index as int, data@),
                    DeleteStep::Done(_) => table,
                },
    {
        let index = self.slot_index();
        match decode_slot(slot) {
            None => DeleteStep::Done(
                DeleteResult {
                    operation: "RDMA_WRITE",
                    slot: index,
                    offset: offset_of(index),
                    bytes: SLOT_SIZE,
                    key: self.key,
                    probes: self.seen + 1,
                    found: false,
                },
            ),
            Some((existing_key, _)) => {
                if same_text(existing_key.as_str(), self.key.as_str()) {
                    return DeleteStep::Write(
                        index,
                        cleared_slot(),
                        DeleteResult {
                            operation: "RDMA_WRITE",
                            slot: index,
                            offset: offset_of(index),
                            bytes: SLOT_SIZE,
                            key: self.key,
                            probes: self.seen + 1,
                            found: true,
                        },
                    );
                }
                let start = self.start;
                let key = self.key.clone();
                match self.advance() {
                    Some(next) => DeleteStep::Next(next),
                    None => DeleteStep::Done(
                        DeleteResult {
                            operation: "RDMA_READ",
                            slot: start,
                            offset: offset_of(start),
                            bytes: SLOT_SIZE,
                            key,
                            probes: SLOT_COUNT,
                            found: false,
                        },
                    ),
                }
            },
        }
    }
}

/// A search for the slot to put a value in.
pub struct PutOp {
    pub probe: Probe,
    pub value: String,
}

impl PutOp {
    /// The search is under way, and key and value fit into a slot.
    pub open spec fn wf(self) -> bool {
        &&& self.probe.wf()
        &&& vstd::utf8::encode_utf8(self.probe.key@).len() <= MAX_KEY_LEN
        &&& vstd::utf8::encode_utf8(self.value@).len() <= MAX_VALUE_LEN
    }

    /// What `put` does with the slot it asked for: it takes the first that is
    /// empty or has the key, and fails where every slot has another key.
    pub fn step(self, slot: &[u8; SLOT_SIZE]) -> (r: Result<PutStep, KvError>)
        requires
            self.wf(),
            slot::readable(slot@),
        ensures
            match verdict(slot@, self.probe@.key) {
                Verdict::Taken => if self.probe.seen + 1 < SLOT_COUNT {
                    &&& r matches Ok(PutStep::Next(next))
                    &&& next.wf()
                    &&& next.probe@ == self.probe@.advanced()
                    &&& next.value@ == self.value@
                } else {
                    r == Err::<PutStep, KvError>(KvError::TableFull)
                },
                held => {
                    &&& r matches Ok(PutStep::Write(index, data, result))
                    &&& index == self.probe@.slot()
                    &&& data@ == slot::encoded(
                        vstd::utf8::encode_utf8(self.probe@.key),
                        vstd::utf8::encode_utf8(self.value@),
                    )
                    &&& result.describes(self.probe@, self.value@, held is Held)
                },
            },
            forall|table: Seq<Seq<u8>>|
                table[self.probe@.slot()] == slot@ ==> #[trigger] laws::put_from(
                    table,
                    self.probe@,
                    self.value@,
                ) == match r {
                    Ok(PutStep::Next(next)) => laws::put_from(table, next.probe@, next.value@),
                    Ok(PutStep::Write(index, data, _)) => Some(
                        table.update(index as int, data@),
                    ),
                    Err(_) => None,
                },
    {
        let update = match decode_slot(slot) {
            None => false,
            Some((existing_key, _)) => {
                if !same_text(existing_key.as_str(), self.probe.key.as_str()) {
                    return match self.probe.advance() {
                        Some(probe) => Ok(PutStep::Next(PutOp { probe, value: self.value })),
                        None => Err(KvError::TableFull),
                    };
                }
                true
            },
        };
        let index = self.probe.slot_index();
        let data = encode_slot(self.probe.key.as_str(), self.value.as_str());
        let result = PutResult {
            operation: "RDMA_WRITE",
            slot: index,
            offset: offset_of(index),
            bytes: SLOT_SIZE,
            key: self.probe.key,
            value: self.value,
            probes: self.probe.seen + 1,
            update,
        };
        Ok(PutStep::Write(index, data, result))
    }
}

/// What `put` does next.
pub enum PutStep {
    /// Write the slot of this number; then the operation is done.
    Write(usize, [u8; SLOT_SIZE], PutResult),
    /// Read the next slot.
    Next(PutOp),
}

/// What a lookup does next.
pub enum GetStep {
    /// The operation is done.
    Done(Option<GetResult>),
    /// Read the next slot.
    Next(Probe),
}

/// What a deletion does next.
pub enum DeleteStep {
    /// Write the slot of this number; then the operation is done.
    Write(usize, [u8; SLOT_SIZE], DeleteResult),
    /// The operation is done.
    Done(DeleteResult),
    /// Read the next slot.
    Next(Probe),
}

impl PutResult {
    /// The result of a put that ended at the slot of `probe`.
    pub open spec fn describes(self, probe: ProbeModel, value: Seq<char>, update: bool) -> bool {
        &&& self.operation@ == "RDMA_WRITE"@
        &&& self.slot == probe.slot()
        &&& self.offset@ == offset_text(probe.slot())
        &&& self.bytes == SLOT_SIZE
        &&& self.key@ == probe.key
        &&& self.value@ == value
        &&& self.probes == probe.seen + 1
        &&& self.update == update
    }
}

impl GetResult {
    /// The result of a lookup that found `value` at the slot of `probe`.
    pub open spec fn describes(self, probe: ProbeModel, value: Seq<char>, slot: Seq<u8>) -> bool {
        &&& self.operation@ == "RDMA_READ"@
        &&& self.slot == probe.slot()
        &&& self.offset@ == offset_text(probe.slot())
        &&& self.bytes == SLOT_SIZE
        &&& self.key@ == probe.key
        &&& self.value@ == value
        &&& self.probes == probe.seen + 1
        &&& slot::texts(self.raw_hex@) == slot::slot_text(slot)
    }
}

impl DeleteResult {
    /// The result of a deletion of `probe`'s key.
    pub open spec fn describes(
        self,
        probe: ProbeModel,
        operation: Seq<char>,
        slot: int,
        probes: int,
        found: bool,
    ) -> bool {
        &&& self.operation@ == operation
        &&& self.slot == slot
        &&& self.offset@ == offset_text(slot)
        &&& self.bytes == SLOT_SIZE
        &&& self.key@ == probe.key
        &&& self.probes == probes
        &&& self.found == found
    }
}

impl SlotInfo {
    /// What slot `index` with the bytes `slot` holds.
    pub open spec fn describes(self, index: int, slot: Seq<u8>) -> bool {
        &&& self.index == index
        &&& self.offset@ == offset_text(index)
        &&& match slot::decoded(slot) {
            Some((key, value)) => {
                &&& self.occupied
                &&& self.key matches Some(k) && k@ == key
                &&& self.value matches Some(v) && v@ == value
            },
            None => !self.occupied && self.key is None && self.value is None,
        }
    }
}

/// A list of slots in the making.
pub struct DumpOp {
    pub slots: Vec<SlotInfo>,
}

impl DumpOp {
    /// The slots listed so far are the first ones of `table`, each as it is.
    pub open spec fn lists(self, table: Seq<Seq<u8>>) -> bool {
        &&& self.slots@.len() <= table.len()
        &&& forall|i: int|
            0 <= i < self.slots@.len() ==> (#[trigger] self.slots@[i]).describes(i, table[i])
    }

    /// The slot to read next, until all are listed.
    pub fn slot_index(&self) -> (r: Option<usize>)
        ensures
            r == if self.slots@.len() < SLOT_COUNT {
                Some(self.slots@.len() as usize)
            } else {
                None
            },
    {
        if self.slots.len() < SLOT_COUNT {
            Some(self.slots.len())
        } else {
            None
        }
    }

    /// Lists the slot that was asked for.
    pub fn step(self, slot: &[u8; SLOT_SIZE]) -> (r: DumpOp)
        requires
            self.slots@.len() < SLOT_COUNT,
            slot::readable(slot@),
        ensures
            r.slots@.len() == self.slots@.len() + 1,
            r.slots@.drop_last() == self.slots@,
            r.slots@.last().describes(self.slots@.len() as int, slot@),
            forall|table: Seq<Seq<u8>>| #[trigger]
                self.lists(table) && self.slots@.len() < table.len()
                    && table[self.slots@.len() as int] == slot@ ==> r.lists(table),
    {
        let index = self.slots.len();
        let (occupied, key, value) = match decode_slot(slot) {
            Some((k, v)) => (true, Some(k), Some(v)),
            None => (false, None, None),
        };
        let mut slots = self.slots;
        slots.push(SlotInfo { index, offset: offset_of(index), occupied, key, value });
        proof {
            assert(slots@.drop_last() =~= self.slots@);
        }
        DumpOp { slots }
    }
}

} // verus!
