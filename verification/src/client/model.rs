//! What the client's end of a session is, and how each verb changes it.
use vstd::prelude::*;

use crate::buffer;
use crate::connection::ConnectionParams;
use crate::error::{ErrorCode, RdowsError};
use crate::frame;
use crate::frame::RdowsHeader;
use crate::memory::{AccessFlags, LKey, ProtectionDomain, RKey};
use crate::message::{
    AtomicReqPayload, MessageModel, MrDeregPayload, MrRegPayload, ReadReqPayload,
};
use crate::opcode::Opcode;
use crate::queue::{CompletionQueueEntry, ScatterGatherEntry, WorkRequestId};

verus! {

/// A registered region as the client knows it.
#[verifier::ext_equal]
pub struct RegionModel {
    pub lkey: LKey,
    pub rkey: RKey,
    pub len: u64,
    pub bytes: Seq<u8>,
}

/// The state of the client's end of a session.
#[verifier::ext_equal]
pub struct ConnectionModel {
    pub session_id: u32,
    pub pd: ProtectionDomain,
    pub max_msg_size: u32,
    pub next_seq: u32,
    pub expected_remote_seq: Option<u32>,
    pub send_credits: u32,
    pub completions: Seq<CompletionQueueEntry>,
    pub cq_capacity: nat,
    pub regions: Map<u32, RegionModel>,
}

/// A request of two frames, and the length of its data as a completion reports it.
#[verifier::ext_equal]
pub struct PostedModel {
    pub request: MessageModel,
    pub data: MessageModel,
    pub byte_count: u32,
}

/// The state in which a session starts: number zero went to the CONNECT frame.
pub open spec fn fresh(params: ConnectionParams, cq_capacity: nat) -> ConnectionModel {
    ConnectionModel {
        session_id: params.session_id,
        pd: params.pd,
        max_msg_size: params.max_msg_size,
        next_seq: 1,
        expected_remote_seq: Some(params.initial_remote_seq),
        send_credits: params.icc,
        completions: Seq::empty(),
        cq_capacity,
        regions: Map::empty(),
    }
}

/// A newly registered region: all zeros.
pub open spec fn new_region(lkey: LKey, rkey: RKey, len: u64) -> RegionModel {
    RegionModel { lkey, rkey, len, bytes: Seq::new((len as usize) as nat, |i: int| 0u8) }
}

/// Where a stretch begins in the buffer of its region.
pub open spec fn stretch_start(sg: ScatterGatherEntry) -> int {
    (sg.offset as usize) as int
}

/// Where a stretch ends.
pub open spec fn stretch_end(sg: ScatterGatherEntry) -> int {
    stretch_start(sg) + sg.length
}

/// The bytes of all stretches in turn; or, at the first stretch that names no
/// region or leaves its region, the error.
pub open spec fn gathered(
    regions: Map<u32, RegionModel>,
    sg_list: Seq<ScatterGatherEntry>,
) -> Result<Seq<u8>, ErrorCode>
    decreases sg_list.len(),
{
    if sg_list.len() == 0 {
        Ok(Seq::empty())
    } else {
        let sg = sg_list.last();
        match gathered(regions, sg_list.drop_last()) {
            Err(e) => Err(e),
            Ok(head) => if !regions.contains_key(sg.lkey.0) {
                Err(ErrorCode::ErrInvalidLkey)
            } else if stretch_end(sg) > regions[sg.lkey.0].bytes.len() {
                Err(ErrorCode::ErrBounds)
            } else {
                Ok(head + regions[sg.lkey.0].bytes.subrange(stretch_start(sg), stretch_end(sg)))
            },
        }
    }
}

/// The end of every stretch that gathering comes to is a number of the machine.
pub open spec fn gather_addressable(
    regions: Map<u32, RegionModel>,
    sg_list: Seq<ScatterGatherEntry>,
) -> bool
    decreases sg_list.len(),
{
    sg_list.len() == 0 || {
        &&& gather_addressable(regions, sg_list.drop_last())
        &&& gathered(regions, sg_list.drop_last()) is Ok && regions.contains_key(
            sg_list.last().lkey.0,
        ) ==> stretch_end(sg_list.last()) <= usize::MAX
    }
}

/// The error of a reply of another kind than the one expected.
pub open spec fn unexpected(expected: &'static str, got: MessageModel) -> RdowsError {
    RdowsError::UnexpectedMessage { expected, got: got.header().opcode }
}

impl ConnectionModel {
    /// No more completions than the queue has room for; every region stands
    /// under its own local key and has a buffer of the length registered.
    pub open spec fn wf(self) -> bool {
        &&& self.completions.len() <= self.cq_capacity
        &&& forall|k: u32| #[trigger]
            self.regions.contains_key(k) ==> self.regions[k].lkey.0 == k
                && self.regions[k].bytes.len() == self.regions[k].len as usize
    }

    /// The completion queue has no room left.
    pub open spec fn cq_full(self) -> bool {
        self.completions.len() >= self.cq_capacity
    }

    /// The header of the next frame to send.
    pub open spec fn header(self, opcode: Opcode, wrid: u64) -> RdowsHeader {
        RdowsHeader::spec_new(opcode, self.session_id, self.next_seq, wrid)
    }

    /// The state after one frame was numbered.
    pub open spec fn numbered(self) -> ConnectionModel {
        ConnectionModel { next_seq: frame::next_sequence(self.next_seq), ..self }
    }

    /// How a work request ended.
    pub open spec fn completion(
        self,
        wrid: u64,
        status: u16,
        opcode: Opcode,
        byte_count: u32,
    ) -> CompletionQueueEntry {
        CompletionQueueEntry {
            wrid: WorkRequestId(wrid),
            status,
            opcode,
            vendor_error: 0,
            byte_count,
            qp_number: self.session_id,
        }
    }

    /// The state after a completion was queued, where there was room for it.
    pub open spec fn completed(
        self,
        wrid: u64,
        status: u16,
        opcode: Opcode,
        byte_count: u32,
    ) -> ConnectionModel {
        if self.cq_full() {
            self
        } else {
            ConnectionModel {
                completions: self.completions.push(
                    self.completion(wrid, status, opcode, byte_count),
                ),
                ..self
            }
        }
    }

    /// How many completions a poll for at most `max` takes.
    pub open spec fn polled_count(self, max: usize) -> int {
        if max <= self.completions.len() {
            max as int
        } else {
            self.completions.len() as int
        }
    }

    /// The state after the oldest completions were taken, at most `max` of them.
    pub open spec fn polled(self, max: usize) -> ConnectionModel {
        ConnectionModel { completions: self.completions.skip(self.polled_count(max)), ..self }
    }

    /// The remote side's next frame may carry the number `seq`.
    pub open spec fn accepts_sequence(self, seq: u32) -> bool {
        match self.expected_remote_seq {
            Some(expected) => seq == expected,
            None => true,
        }
    }

    /// The state after a frame numbered `seq` came in order.
    pub open spec fn received(self, seq: u32) -> ConnectionModel {
        ConnectionModel { expected_remote_seq: Some(frame::next_sequence(seq)), ..self }
    }

    /// If the frame comes in order and grants credits, the counter can hold them.
    pub open spec fn grant_fits(self, msg: MessageModel) -> bool {
        msg matches MessageModel::CreditUpdate(header, payload) ==> self.accepts_sequence(
            header.sequence,
        ) ==> self.send_credits + payload.credit_increment <= u32::MAX
    }

    /// A frame of the remote side has come: the next state, and whether the
    /// frame is for the caller. One that grants credits is not: the credits are
    /// added. One out of order is an error.
    pub open spec fn taken_in(self, msg: MessageModel) -> (
        ConnectionModel,
        Result<bool, RdowsError>,
    ) {
        let seq = msg.header().sequence;
        if !self.accepts_sequence(seq) {
            (self, Err(RdowsError::Protocol(ErrorCode::ErrSeqGap)))
        } else {
            match msg {
                MessageModel::CreditUpdate(_, payload) => (
                    ConnectionModel {
                        send_credits: (self.send_credits + payload.credit_increment) as u32,
                        ..self.received(seq)
                    },
                    Ok(false),
                ),
                _ => (self.received(seq), Ok(true)),
            }
        }
    }

    /// The state with the buffer of region `k` replaced.
    pub open spec fn with_bytes(self, k: u32, bytes: Seq<u8>) -> ConnectionModel {
        ConnectionModel {
            regions: self.regions.insert(k, RegionModel { bytes, ..self.regions[k] }),
            ..self
        }
    }

    /// Writing `data` at `at` into the local buffer of region `k`.
    pub open spec fn local_written(self, k: u32, at: int, data: Seq<u8>) -> (
        ConnectionModel,
        Result<(), RdowsError>,
    ) {
        if !self.regions.contains_key(k) {
            (self, Err(RdowsError::Protocol(ErrorCode::ErrInvalidLkey)))
        } else if at + data.len() > self.regions[k].bytes.len() {
            (self, Err(RdowsError::Protocol(ErrorCode::ErrBounds)))
        } else {
            (
                self.with_bytes(k, buffer::splice(self.regions[k].bytes, at, data)),
                Ok(()),
            )
        }
    }

    /// Reading `len` bytes from `at` on in the local buffer of region `k`.
    pub open spec fn local_read(self, k: u32, at: int, len: int) -> Result<Seq<u8>, RdowsError> {
        if !self.regions.contains_key(k) {
            Err(RdowsError::Protocol(ErrorCode::ErrInvalidLkey))
        } else if at + len > self.regions[k].bytes.len() {
            Err(RdowsError::Protocol(ErrorCode::ErrBounds))
        } else {
            Ok(self.regions[k].bytes.subrange(at, at + len))
        }
    }

    /// The request for a region.
    pub open spec fn register_request(
        self,
        access_flags: AccessFlags,
        region_len: u64,
    ) -> MessageModel {
        MessageModel::MrReg(
            self.header(Opcode::MrReg, 0),
            MrRegPayload { pd: self.pd, access_flags, region_len, suggested_lkey: None },
        )
    }

    /// The reply to a request for a region has come.
    pub open spec fn registered(self, region_len: u64, resp: MessageModel) -> (
        ConnectionModel,
        Result<RegionModel, RdowsError>,
    ) {
        match resp {
            MessageModel::MrRegAck(_, ack) => if ack.status == 0 {
                let region = new_region(ack.lkey, ack.rkey, region_len);
                (
                    ConnectionModel { regions: self.regions.insert(ack.lkey.0, region), ..self },
                    Ok(region),
                )
            } else {
                (self, Err(RdowsError::Protocol(crate::error::code_or_internal(ack.status))))
            },
            MessageModel::Error(_, code, _, _) => (self, Err(RdowsError::Protocol(code))),
            _ => (self, Err(unexpected("MR_REG_ACK", resp))),
        }
    }

    /// The request to give up a region.
    pub open spec fn deregister_request(self, lkey: LKey) -> MessageModel {
        MessageModel::MrDereg(
            self.header(Opcode::MrDereg, 0),
            MrDeregPayload { pd: self.pd, lkey },
        )
    }

    /// The reply to a request to give up a region has come.
    pub open spec fn deregistered(self, lkey: LKey, resp: MessageModel) -> (
        ConnectionModel,
        Result<(), RdowsError>,
    ) {
        match resp {
            MessageModel::MrDeregAck(_, ack) => if ack.status == 0 {
                (ConnectionModel { regions: self.regions.remove(lkey.0), ..self }, Ok(()))
            } else {
                (self, Err(RdowsError::Protocol(crate::error::code_or_internal(ack.status))))
            },
            MessageModel::Error(_, code, _, _) => (self, Err(RdowsError::Protocol(code))),
            _ => (self, Err(unexpected("MR_DEREG_ACK", resp))),
        }
    }

    /// A message is posted. Nothing is sent, and nothing changes, where the
    /// completion would find no room, no credit is left, or the stretches
    /// cannot be gathered.
    pub open spec fn send_posted(self, wrid: u64, sg_list: Seq<ScatterGatherEntry>) -> (
        ConnectionModel,
        Result<PostedModel, RdowsError>,
    ) {
        if self.cq_full() {
            (self, Err(RdowsError::Protocol(ErrorCode::ErrCqOverflow)))
        } else if self.send_credits == 0 {
            (self, Err(RdowsError::SendCreditsExhausted))
        } else {
            match gathered(self.regions, sg_list) {
                Err(code) => (self, Err(RdowsError::Protocol(code))),
                Ok(bytes) => (
                    self.numbered().numbered(),
                    Ok(
                        PostedModel {
                            request: MessageModel::Send(self.header(Opcode::Send, wrid), sg_list),
                            data: MessageModel::SendData(
                                self.numbered().header(Opcode::SendData, wrid),
                                bytes,
                            ),
                            byte_count: bytes.len() as u32,
                        },
                    ),
                ),
            }
        }
    }

    /// The reply to a message has come: one that was received costs a credit,
    /// one that was refused completes with the error.
    pub open spec fn send_completed(self, wrid: u64, byte_count: u32, resp: MessageModel) -> (
        ConnectionModel,
        Result<(), RdowsError>,
    ) {
        match resp {
            MessageModel::RecvComp(_) => (
                ConnectionModel {
                    send_credits: (self.send_credits - 1) as u32,
                    ..self.completed(wrid, 0, Opcode::Send, byte_count)
                },
                Ok(()),
            ),
            MessageModel::Error(_, code, _, _) => (
                self.completed(wrid, crate::error::code_value(code), Opcode::Send, 0),
                Err(RdowsError::Protocol(code)),
            ),
            _ => (self, Err(unexpected("RECV_COMP", resp))),
        }
    }

    /// A write to the remote region `rkey` at `remote_va` is posted. It needs
    /// no credit.
    pub open spec fn write_posted(
        self,
        wrid: u64,
        rkey: RKey,
        remote_va: u64,
        sg_list: Seq<ScatterGatherEntry>,
    ) -> (ConnectionModel, Result<PostedModel, RdowsError>) {
        if self.cq_full() {
            (self, Err(RdowsError::Protocol(ErrorCode::ErrCqOverflow)))
        } else {
            match gathered(self.regions, sg_list) {
                Err(code) => (self, Err(RdowsError::Protocol(code))),
                Ok(bytes) => (
                    self.numbered().numbered(),
                    Ok(
                        PostedModel {
                            request: MessageModel::Write(
                                self.header(Opcode::Write, wrid),
                                rkey,
                                remote_va,
                                bytes.len() as u64,
                                sg_list,
                            ),
                            data: MessageModel::WriteData(
                                self.numbered().header(Opcode::WriteData, wrid),
                                bytes,
                            ),
                            byte_count: bytes.len() as u32,
                        },
                    ),
                ),
            }
        }
    }

    /// The reply to a write has come.
    pub open spec fn write_completed(self, wrid: u64, byte_count: u32, resp: MessageModel) -> (
        ConnectionModel,
        Result<(), RdowsError>,
    ) {
        match resp {
            MessageModel::WriteComp(_) => (
                self.completed(wrid, 0, Opcode::Write, byte_count),
                Ok(()),
            ),
            MessageModel::Error(_, code, _, _) => (
                self.completed(wrid, crate::error::code_value(code), Opcode::Write, 0),
                Err(RdowsError::Protocol(code)),
            ),
            _ => (self, Err(unexpected("WRITE_COMP", resp))),
        }
    }

    /// A read is posted.
    pub open spec fn read_posted(self, wrid: u64, payload: ReadReqPayload) -> (
        ConnectionModel,
        Result<MessageModel, RdowsError>,
    ) {
        if self.cq_full() {
            (self, Err(RdowsError::Protocol(ErrorCode::ErrCqOverflow)))
        } else {
            (
                self.numbered(),
                Ok(MessageModel::ReadReq(self.header(Opcode::ReadReq, wrid), payload)),
            )
        }
    }

    /// The reply to a read has come: what was read goes into the local region.
    pub open spec fn read_completed(
        self,
        wrid: u64,
        local_lkey: LKey,
        local_va: u64,
        resp: MessageModel,
    ) -> (ConnectionModel, Result<(), RdowsError>) {
        match resp {
            MessageModel::ReadResp(_, data) => {
                let (filled, r) = self.local_written(
                    local_lkey.0,
                    (local_va as usize) as int,
                    data,
                );
                if r is Ok {
                    (filled.completed(wrid, 0, Opcode::ReadReq, data.len() as u32), r)
                } else {
                    (self, r)
                }
            },
            MessageModel::Error(_, code, _, _) => (
                self.completed(wrid, crate::error::code_value(code), Opcode::ReadReq, 0),
                Err(RdowsError::Protocol(code)),
            ),
            _ => (self, Err(unexpected("READ_RESP", resp))),
        }
    }

    /// An atomic operation is posted.
    pub open spec fn atomic_posted(self, wrid: u64, payload: AtomicReqPayload) -> (
        ConnectionModel,
        Result<MessageModel, RdowsError>,
    ) {
        if self.cq_full() {
            (self, Err(RdowsError::Protocol(ErrorCode::ErrCqOverflow)))
        } else {
            (
                self.numbered(),
                Ok(MessageModel::AtomicReq(self.header(Opcode::AtomicReq, wrid), payload)),
            )
        }
    }

    /// The reply to an atomic operation has come, with the word's value from
    /// before it.
    pub open spec fn atomic_completed(self, wrid: u64, resp: MessageModel) -> (
        ConnectionModel,
        Result<u64, RdowsError>,
    ) {
        match resp {
            MessageModel::AtomicResp(_, payload) => (
                self.completed(wrid, 0, Opcode::AtomicReq, 8),
                Ok(payload.original_value),
            ),
            MessageModel::Error(_, code, _, _) => (
                self.completed(wrid, crate::error::code_value(code), Opcode::AtomicReq, 0),
                Err(RdowsError::Protocol(code)),
            ),
            _ => (self, Err(unexpected("ATOMIC_RESP", resp))),
        }
    }
}

} // verus!
