//! A key-value store in one remote memory region.
//!
//! The region is a hash table of fixed slots, searched slot by slot from the
//! one that the key's hash names. An operation is a walk along the slots: it
//! says which slot to read next, and what to write once it is done.
use vstd::prelude::*;
use vstd::std_specs::convert::FromSpecImpl;
use vstd::string::StringExecFns;

use crate::client::model::{ConnectionModel, PostedModel};
use crate::client::verbs::PostedRequest;
use crate::client::RdowsConnection;
use crate::error::RdowsError;
use crate::memory::{LKey, RKey};
use crate::message::{MessageModel, RdowsMessage, ReadReqPayload};
use crate::queue::ScatterGatherEntry;
use crate::text;
use crate::text::push_decimal;

pub mod calls;
pub mod effects;
pub mod laws;
pub mod probe;
pub mod slot;

use probe::{DumpOp, Probe, PutOp};

verus! {

/// How many slots the table has.
pub const SLOT_COUNT: usize = 64;

/// The size of a slot in bytes.
pub const SLOT_SIZE: usize = 1024;

/// The size of the region that holds the table.
pub const MR_SIZE: u64 = 65_536;

/// The longest key, in bytes.
pub const MAX_KEY_LEN: usize = 255;

/// The longest value, in bytes.
pub const MAX_VALUE_LEN: usize = 764;

/// What can go wrong in the store.
#[derive(Debug)]
pub enum KvError {
    Rdma(RdowsError),
    TableFull,
    KeyTooLong,
    ValueTooLong,
}

impl From<RdowsError> for KvError {
    fn from(e: RdowsError) -> (r: KvError) {
        KvError::Rdma(e)
    }
}

impl FromSpecImpl<RdowsError> for KvError {
    open spec fn obeys_from_spec() -> bool {
        true
    }

    open spec fn from_spec(e: RdowsError) -> KvError {
        KvError::Rdma(e)
    }
}

impl KvError {
    /// What the error says, where `wording` is what an error of the operating
    /// system says of itself.
    pub open spec fn spec_text(self, wording: Seq<char>) -> Seq<char> {
        match self {
            KvError::Rdma(e) => "RDMA error: "@ + e.spec_text(wording),
            KvError::TableFull => "hash table full"@,
            KvError::KeyTooLong => "key exceeds "@ + text::decimal(MAX_KEY_LEN as nat)
                + " bytes"@,
            KvError::ValueTooLong => "value exceeds "@ + text::decimal(MAX_VALUE_LEN as nat)
                + " bytes"@,
        }
    }

    /// Says in words what went wrong. What an error of the operating system says
    /// of itself comes from the operating system.
    pub fn to_string(&self) -> (r: String)
        ensures
            exists|wording: Seq<char>| r@ == #[trigger] self.spec_text(wording),
            !(self matches KvError::Rdma(RdowsError::Io(_))) ==> r@ == self.spec_text(
                Seq::empty(),
            ),
    {
        let wording = match self {
            KvError::Rdma(e) => e.io_wording(),
            _ => String::new(),
        };
        let r = self.to_string_with(wording.as_str());
        assert(r@ == self.spec_text(wording@));
        proof {
            if !(self matches KvError::Rdma(RdowsError::Io(_))) {
                assert(wording@ =~= Seq::<char>::empty());
            }
        }
        r
    }

    /// `to_string` with what an error of the operating system says of itself.
    pub fn to_string_with(&self, wording: &str) -> (r: String)
        ensures
            r@ == self.spec_text(wording@),
    {
        let mut r = String::new();
        match self {
            KvError::Rdma(e) => {
                r.append("RDMA error: ");
                r.append(e.to_string_with(wording).as_str());
            },
            KvError::TableFull => {
                r.append("hash table full");
            },
            KvError::KeyTooLong => {
                r.append("key exceeds ");
                push_decimal(&mut r, MAX_KEY_LEN as u64);
                r.append(" bytes");
            },
            KvError::ValueTooLong => {
                r.append("value exceeds ");
                push_decimal(&mut r, MAX_VALUE_LEN as u64);
                r.append(" bytes");
            },
        }
        proof {
            assert(r@ =~= self.spec_text(wording@));
        }
        r
    }
}

/// What `put` did.
#[derive(Clone)]
pub struct PutResult {
    pub operation: &'static str,
    pub slot: usize,
    pub offset: String,
    pub bytes: usize,
    pub key: String,
    pub value: String,
    pub probes: usize,
    pub update: bool,
}

/// What `get` found.
#[derive(Clone)]
pub struct GetResult {
    pub operation: &'static str,
    pub slot: usize,
    pub offset: String,
    pub bytes: usize,
    pub key: String,
    pub value: String,
    pub probes: usize,
    pub raw_hex: Vec<String>,
}

/// What `delete` did.
#[derive(Clone)]
pub struct DeleteResult {
    pub operation: &'static str,
    pub slot: usize,
    pub offset: String,
    pub bytes: usize,
    pub key: String,
    pub probes: usize,
    pub found: bool,
}

/// What a slot holds.
#[derive(Clone)]
pub struct SlotInfo {
    pub index: usize,
    pub offset: String,
    pub occupied: bool,
    pub key: Option<String>,
    pub value: Option<String>,
}

/// The store on the client's side: the session, the keys of the remote table
/// and of the local buffer through which slots pass, and the next number for a
/// work request.
#[verifier::ext_equal]
pub struct KvModel {
    pub conn: ConnectionModel,
    pub remote_rkey: RKey,
    pub local_lkey: LKey,
    pub session_id: u32,
    pub remote_rkey_value: u32,
    pub next_wrid: u64,
}

impl KvModel {
    /// The state after one work request was numbered.
    pub open spec fn counted(self) -> KvModel {
        KvModel { next_wrid: (self.next_wrid + 1) as u64, ..self }
    }

    /// Reading slot `index` is asked for: the number of the work request and
    /// the frame.
    pub open spec fn read_posted(self, index: int) -> (
        KvModel,
        Result<(u64, MessageModel), RdowsError>,
    ) {
        let (conn, r) = self.conn.read_posted(
            self.next_wrid,
            ReadReqPayload {
                rkey: self.remote_rkey,
                remote_va: (index * SLOT_SIZE) as u64,
                read_len: SLOT_SIZE as u64,
                local_lkey: self.local_lkey,
                local_va: 0,
            },
        );
        (
            KvModel { conn, ..self.counted() },
            match r {
                Ok(frame) => Ok((self.next_wrid, frame)),
                Err(e) => Err(e),
            },
        )
    }

    /// The reply to reading a slot has come: it passes through the local buffer,
    /// and its completion is taken out of the queue.
    pub open spec fn read_back(self, wrid: u64, resp: MessageModel) -> (
        KvModel,
        Result<Seq<u8>, RdowsError>,
    ) {
        let (conn, r) = self.conn.read_completed(wrid, self.local_lkey, 0, resp);
        match r {
            Err(e) => (KvModel { conn, ..self }, Err(e)),
            Ok(()) => {
                let polled = conn.polled(1);
                (
                    KvModel { conn: polled, ..self },
                    polled.local_read(self.local_lkey.0, 0, SLOT_SIZE as int),
                )
            },
        }
    }

    /// Writing `data` to slot `index` is asked for, through the local buffer.
    pub open spec fn write_posted(self, index: int, data: Seq<u8>) -> (
        KvModel,
        Result<(u64, PostedModel), RdowsError>,
    ) {
        let (filled, w) = self.conn.local_written(self.local_lkey.0, 0, data);
        match w {
            Err(e) => (self, Err(e)),
            Ok(()) => {
                let whole = ScatterGatherEntry {
                    lkey: self.local_lkey,
                    offset: 0,
                    length: SLOT_SIZE as u32,
                };
                let (conn, r) = filled.write_posted(
                    self.next_wrid,
                    self.remote_rkey,
                    (index * SLOT_SIZE) as u64,
                    seq![whole],
                );
                (
                    KvModel { conn, ..self.counted() },
                    match r {
                        Ok(posted) => Ok((self.next_wrid, posted)),
                        Err(e) => Err(e),
                    },
                )
            },
        }
    }

    /// The reply to writing a slot has come; its completion is taken out of the
    /// queue.
    pub open spec fn write_done(self, wrid: u64, byte_count: u32, resp: MessageModel) -> (
        KvModel,
        Result<(), RdowsError>,
    ) {
        let (conn, r) = self.conn.write_completed(wrid, byte_count, resp);
        match r {
            Err(e) => (KvModel { conn, ..self }, Err(e)),
            Ok(()) => (KvModel { conn: conn.polled(1), ..self }, Ok(())),
        }
    }
}

/// A read of a slot that was asked for.
pub struct SlotRead {
    pub wrid: u64,
    pub frame: RdowsMessage,
}

/// A write of a slot that was asked for.
pub struct SlotWrite {
    pub wrid: u64,
    pub posted: PostedRequest,
}

/// The store on the client's side.
pub struct KvStore {
    conn: RdowsConnection,
    remote_rkey: RKey,
    local_lkey: LKey,
    pub session_id: u32,
    pub remote_rkey_value: u32,
    next_wrid: u64,
}

impl View for KvStore {
    type V = KvModel;

    closed spec fn view(&self) -> KvModel {
        KvModel {
            conn: self.conn@,
            remote_rkey: self.remote_rkey,
            local_lkey: self.local_lkey,
            session_id: self.session_id,
            remote_rkey_value: self.remote_rkey_value,
            next_wrid: self.next_wrid,
        }
    }
}

impl KvStore {
    /// A store over the session `conn`, for the table in the remote region
    /// `remote_rkey`, with the local region `local_lkey` as buffer.
    pub fn new(
        conn: RdowsConnection,
        session_id: u32,
        remote_rkey: RKey,
        local_lkey: LKey,
    ) -> (r: KvStore)
        ensures
            r@ == (KvModel {
                conn: conn@,
                remote_rkey,
                local_lkey,
                session_id,
                remote_rkey_value: remote_rkey.0,
                next_wrid: 1,
            }),
    {
        KvStore {
            conn,
            remote_rkey,
            local_lkey,
            session_id,
            remote_rkey_value: remote_rkey.0,
            next_wrid: 1,
        }
    }

    /// The number of the next work request.
    pub fn wrid(&self) -> (r: u64)
        ensures
            r == self@.next_wrid,
    {
        self.next_wrid
    }

    /// Takes in a frame of the remote side, as the session does.
    pub fn recv_app_message(&mut self, msg: RdowsMessage) -> (r: Result<
        Option<RdowsMessage>,
        RdowsError,
    >)
        requires
            old(self)@.conn.grant_fits(msg@),
        ensures
            old(self)@.conn.wf() ==> final(self)@.conn.wf(),
            final(self)@ == (KvModel { conn: old(self)@.conn.taken_in(msg@).0, ..old(self)@ }),
            r == match old(self)@.conn.taken_in(msg@).1 {
                Ok(true) => Ok::<Option<RdowsMessage>, RdowsError>(Some(msg)),
                Ok(false) => Ok(None),
                Err(e) => Err(e),
            },
    {
        self.conn.recv_app_message(msg)
    }

    /// Whether the credit counter can hold what `msg` grants.
    pub fn grant_fits(&self, msg: &RdowsMessage) -> (r: bool)
        ensures
            r == self@.conn.grant_fits(msg@),
    {
        self.conn.grant_fits(msg)
    }

    fn next_wrid(&mut self) -> (r: u64)
        requires
            old(self)@.next_wrid < u64::MAX,
        ensures
            r == old(self)@.next_wrid,
            final(self)@ == old(self)@.counted(),
    {
        let id = self.next_wrid;
        self.next_wrid = self.next_wrid + 1;
        id
    }

    /// Asks for slot `slot_index`.
    pub fn read_slot(&mut self, slot_index: usize) -> (r: Result<SlotRead, KvError>)
        requires
            old(self)@.conn.wf(),
            old(self)@.next_wrid < u64::MAX,
            slot_index * SLOT_SIZE <= usize::MAX,
        ensures
            final(self)@.conn.wf(),
            final(self)@ == old(self)@.read_posted(slot_index as int).0,
            match old(self)@.read_posted(slot_index as int).1 {
                Ok((wrid, frame)) => r matches Ok(read) && read.wrid == wrid && read.frame@
                    == frame,
                Err(e) => r == Err::<SlotRead, KvError>(KvError::Rdma(e)),
            },
    {
        let remote_va: u64 = (slot_index * SLOT_SIZE) as u64;
        let wrid = self.next_wrid();
        let posted = self.conn.rdma_read(
            wrid,
            self.remote_rkey,
            remote_va,
            SLOT_SIZE as u64,
            self.local_lkey,
            0,
        );
        match posted {
            Ok(frame) => Ok(SlotRead { wrid, frame }),
            Err(e) => Err(KvError::from(e)),
        }
    }

    /// Takes in the reply to `read_slot`: the slot.
    pub fn read_slot_complete(&mut self, wrid: u64, resp: RdowsMessage) -> (r: Result<
        [u8; SLOT_SIZE],
        KvError,
    >)
        requires
            old(self)@.conn.wf(),
        ensures
            final(self)@.conn.wf(),
            final(self)@ == old(self)@.read_back(wrid, resp@).0,
            match old(self)@.read_back(wrid, resp@).1 {
                Ok(bytes) => r matches Ok(slot) && slot@ == bytes,
                Err(e) => r == Err::<[u8; SLOT_SIZE], KvError>(KvError::Rdma(e)),
            },
    {
        if let RdowsMessage::ReadResp(_, payload) = &resp {
            let n: usize = payload.as_slice().len();
            assert(payload@.len() == n);
        }
        match self.conn.rdma_read_complete(wrid, self.local_lkey, 0, resp) {
            Err(e) => {
                return Err(KvError::from(e));
            },
            Ok(()) => {},
        }
        let _ = self.conn.poll_cq(1);
        match self.conn.read_local_mr(self.local_lkey, 0, SLOT_SIZE) {
            Err(e) => Err(KvError::from(e)),
            Ok(data) => {
                let mut buf: [u8; SLOT_SIZE] = [0u8; SLOT_SIZE];
                slot::fill(&mut buf, 0, data.as_slice());
                proof {
                    assert(buf@ =~= data@);
                }
                Ok(buf)
            },
        }
    }

    /// Asks for `slot_data` to be written to slot `slot_index`.
    pub fn write_slot(&mut self, slot_index: usize, slot_data: &[u8; SLOT_SIZE]) -> (r: Result<
        SlotWrite,
        KvError,
    >)
        requires
            old(self)@.conn.wf(),
            old(self)@.next_wrid < u64::MAX,
            slot_index * SLOT_SIZE <= usize::MAX,
        ensures
            final(self)@.conn.wf(),
            final(self)@ == old(self)@.write_posted(slot_index as int, slot_data@).0,
            match old(self)@.write_posted(slot_index as int, slot_data@).1 {
                Ok((wrid, posted)) => r matches Ok(write) && write.wrid == wrid && write.posted@
                    == posted,
                Err(e) => r == Err::<SlotWrite, KvError>(KvError::Rdma(e)),
            },
    {
        let remote_va: u64 = (slot_index * SLOT_SIZE) as u64;
        let data = vstd::array::array_as_slice(slot_data);
        match self.conn.write_local_mr(self.local_lkey, 0, data) {
            Err(e) => {
                return Err(KvError::from(e));
            },
            Ok(()) => {},
        }
        let wrid = self.next_wrid();
        let mut sg_list: Vec<ScatterGatherEntry> = Vec::new();
        sg_list.push(
            ScatterGatherEntry { lkey: self.local_lkey, offset: 0, length: SLOT_SIZE as u32 },
        );
        proof {
            reveal_with_fuel(crate::client::model::gather_addressable, 2);
            reveal_with_fuel(crate::client::model::gathered, 2);
            assert(sg_list@ =~= seq![sg_list@[0]]);
        }
        match self.conn.rdma_write(wrid, self.remote_rkey, remote_va, sg_list.as_slice()) {
            Ok(posted) => Ok(SlotWrite { wrid, posted }),
            Err(e) => Err(KvError::from(e)),
        }
    }

    /// Takes in the reply to `write_slot`.
    pub fn write_slot_complete(&mut self, wrid: u64, byte_count: u32, resp: RdowsMessage) -> (r:
        Result<(), KvError>)
        requires
            old(self)@.conn.wf(),
        ensures
            final(self)@.conn.wf(),
            final(self)@ == old(self)@.write_done(wrid, byte_count, resp@).0,
            r == match old(self)@.write_done(wrid, byte_count, resp@).1 {
                Ok(()) => Ok::<(), KvError>(()),
                Err(e) => Err(KvError::Rdma(e)),
            },
    {
        match self.conn.rdma_write_complete(wrid, byte_count, resp) {
            Err(e) => Err(KvError::from(e)),
            Ok(()) => {
                let _ = self.conn.poll_cq(1);
                Ok(())
            },
        }
    }

    /// Begins to put `value` under `key`; a key or value that is too long is
    /// refused.
    pub fn put(&self, key: &str, value: &str) -> (r: Result<PutOp, KvError>)
        ensures
            if vstd::utf8::encode_utf8(key@).len() > MAX_KEY_LEN {
                r == Err::<PutOp, KvError>(KvError::KeyTooLong)
            } else if vstd::utf8::encode_utf8(value@).len() > MAX_VALUE_LEN {
                r == Err::<PutOp, KvError>(KvError::ValueTooLong)
            } else {
                &&& r matches Ok(op)
                &&& op.wf()
                &&& op.probe@ == probe::begun(key@)
                &&& op.value@ == value@
            },
    {
        if key.as_bytes().len() > MAX_KEY_LEN {
            return Err(KvError::KeyTooLong);
        }
        if value.as_bytes().len() > MAX_VALUE_LEN {
            return Err(KvError::ValueTooLong);
        }
        Ok(PutOp { probe: Probe::new(key), value: value.to_owned() })
    }

    /// Begins to look up `key`.
    pub fn get(&self, key: &str) -> (r: Probe)
        ensures
            r@ == probe::begun(key@),
            r.wf(),
    {
        Probe::new(key)
    }

    /// Begins to delete `key`.
    pub fn delete(&self, key: &str) -> (r: Probe)
        ensures
            r@ == probe::begun(key@),
            r.wf(),
    {
        Probe::new(key)
    }

    /// Begins to list all slots.
    pub fn dump_slots(&self) -> (r: DumpOp)
        ensures
            r.slots@.len() == 0,
            forall|table: Seq<Seq<u8>>| #[trigger] r.lists(table),
    {
        DumpOp { slots: Vec::new() }
    }
}

} // verus!
