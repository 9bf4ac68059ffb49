//! The operations of an open session.
use vstd::prelude::*;

use super::session::{no_frame, one_frame, send_error, Session, SessionModel};
use crate::error::ErrorCode;
use crate::frame::RdowsHeader;
use crate::memory::{LKey, RKey};
use crate::message;
use crate::message::{
    AtomicReqPayload, AtomicRespPayload, CreditUpdatePayload, DataPayload, MessageModel,
    MrDeregAckPayload, MrDeregPayload, MrRegAckPayload, MrRegPayload, RdowsMessage,
    ReadReqPayload,
};
use crate::opcode::Opcode;

verus! {

/// What the next data frame belongs to.
#[derive(Debug, Clone, Copy, PartialEq, Eq, Structural)]
pub enum PendingOp {
    Idle,
    AwaitingSendData,
    AwaitingWriteData { rkey: RKey, remote_va: u64 },
    /// The message was refused; its data is dropped.
    DiscardingSendData,
}

impl SessionModel {
    /// An ERROR frame that names `code`.
    pub open spec fn refusal(self, code: ErrorCode, failing_seq: u32) -> (
        SessionModel,
        Seq<MessageModel>,
    ) {
        (self.numbered(), seq![self.error(code, failing_seq, code.spec_text())])
    }

    /// What an open session does on a request.
    pub open spec fn dispatched(self, msg: MessageModel, draw: u32) -> (
        SessionModel,
        Seq<MessageModel>,
    ) {
        match msg {
            MessageModel::MrReg(_, p) => self.on_register(p, draw),
            MessageModel::MrDereg(_, p) => self.on_deregister(p),
            MessageModel::Send(h, _) => self.on_send(h),
            MessageModel::SendData(h, _) => self.on_send_data(h),
            MessageModel::Write(_, rkey, remote_va, _, _) => (
                SessionModel {
                    pending_op: PendingOp::AwaitingWriteData { rkey, remote_va },
                    ..self
                },
                Seq::empty(),
            ),
            MessageModel::WriteData(h, data) => self.on_write_data(h, data),
            MessageModel::ReadReq(h, p) => self.on_read(h, p),
            MessageModel::AtomicReq(h, p) => self.on_atomic(h, p),
            _ => (
                self.numbered(),
                seq![
                    self.error(
                        ErrorCode::ErrUnknownOpcode,
                        msg.header().sequence,
                        "unexpected message"@,
                    ),
                ],
            ),
        }
    }

    /// Registers a region: the acknowledgement carries its keys, or the reason
    /// why there is none.
    pub open spec fn on_register(self, p: MrRegPayload, draw: u32) -> (
        SessionModel,
        Seq<MessageModel>,
    ) {
        let header = self.header(Opcode::MrRegAck, 0);
        if p.pd != self.pd {
            (
                self.numbered(),
                seq![MessageModel::MrRegAck(header, register_refused(ErrorCode::ErrInvalidPd))],
            )
        } else {
            match self.memory.registered(p.access_flags, p.region_len, draw) {
                Some((memory, lkey, rkey)) => (
                    SessionModel { memory, ..self }.numbered(),
                    seq![
                        MessageModel::MrRegAck(
                            header,
                            (MrRegAckPayload { status: 0, lkey, rkey }),
                        ),
                    ],
                ),
                None => (
                    self.numbered(),
                    seq![MessageModel::MrRegAck(header, register_refused(ErrorCode::ErrInternal))],
                ),
            }
        }
    }

    /// Gives up a region.
    pub open spec fn on_deregister(self, p: MrDeregPayload) -> (SessionModel, Seq<MessageModel>) {
        let header = self.header(Opcode::MrDeregAck, 0);
        if p.pd != self.pd {
            (
                self.numbered(),
                seq![MessageModel::MrDeregAck(header, deregister_status(ErrorCode::ErrInvalidPd))],
            )
        } else {
            match self.memory.deregistered(p.lkey) {
                Some(memory) => (
                    SessionModel { memory, ..self }.numbered(),
                    seq![MessageModel::MrDeregAck(header, deregister_status(ErrorCode::Success))],
                ),
                None => (
                    self.numbered(),
                    seq![
                        MessageModel::MrDeregAck(
                            header,
                            deregister_status(ErrorCode::ErrInvalidLkey),
                        ),
                    ],
                ),
            }
        }
    }

    /// A message is announced: it takes one posted receive, and is refused
    /// where there is none.
    pub open spec fn on_send(self, h: RdowsHeader) -> (SessionModel, Seq<MessageModel>) {
        if self.recv_queue_depth > 0 {
            (
                SessionModel {
                    recv_queue_depth: (self.recv_queue_depth - 1) as u32,
                    pending_op: PendingOp::AwaitingSendData,
                    ..self
                },
                Seq::empty(),
            )
        } else {
            let (next, replies) = self.refusal(ErrorCode::ErrRnr, h.sequence);
            (SessionModel { pending_op: PendingOp::DiscardingSendData, ..next }, replies)
        }
    }

    /// The data of a message has come: it is received, or dropped if the
    /// message was refused.
    pub open spec fn on_send_data(self, h: RdowsHeader) -> (SessionModel, Seq<MessageModel>) {
        let done = SessionModel { pending_op: PendingOp::Idle, ..self };
        match self.pending_op {
            PendingOp::AwaitingSendData => {
                let (next, grant) = done.numbered().credited();
                (next, seq![MessageModel::RecvComp(done.header(Opcode::RecvComp, h.wrid))] + grant)
            },
            PendingOp::DiscardingSendData => (done, Seq::empty()),
            _ => (
                self.numbered(),
                seq![
                    self.error(
                        ErrorCode::ErrInternal,
                        h.sequence,
                        "unexpected SEND_DATA without preceding SEND"@,
                    ),
                ],
            ),
        }
    }

    /// One more message was received: with every quarter of the initial
    /// credits, as many are granted anew.
    pub open spec fn credited(self) -> (SessionModel, Seq<MessageModel>) {
        let count = (self.sends_since_last_credit + 1) as u32;
        if count >= self.icc / 4 {
            (
                SessionModel { sends_since_last_credit: 0, ..self.numbered() },
                seq![
                    MessageModel::CreditUpdate(
                        self.header(Opcode::CreditUpdate, 0),
                        (CreditUpdatePayload { credit_increment: count }),
                    ),
                ],
            )
        } else {
            (SessionModel { sends_since_last_credit: count, ..self }, Seq::empty())
        }
    }

    /// The data of a write has come.
    pub open spec fn on_write_data(self, h: RdowsHeader, data: Seq<u8>) -> (
        SessionModel,
        Seq<MessageModel>,
    ) {
        let done = SessionModel { pending_op: PendingOp::Idle, ..self };
        match self.pending_op {
            PendingOp::AwaitingWriteData { rkey, remote_va } => match self.memory.written(
                rkey,
                remote_va,
                data,
            ) {
                Ok(memory) => (
                    SessionModel { memory, ..done }.numbered(),
                    seq![MessageModel::WriteComp(done.header(Opcode::WriteComp, h.wrid))],
                ),
                Err(code) => done.refusal(code, h.sequence),
            },
            _ => (
                self.numbered(),
                seq![
                    self.error(
                        ErrorCode::ErrInternal,
                        h.sequence,
                        "unexpected WRITE_DATA without preceding WRITE"@,
                    ),
                ],
            ),
        }
    }

    /// Reads from a region.
    pub open spec fn on_read(self, h: RdowsHeader, p: ReadReqPayload) -> (
        SessionModel,
        Seq<MessageModel>,
    ) {
        match self.memory.read(p.rkey, p.remote_va, p.read_len) {
            Ok(bytes) => (
                self.numbered(),
                seq![MessageModel::ReadResp(self.header(Opcode::ReadResp, h.wrid), bytes)],
            ),
            Err(code) => self.refusal(code, h.sequence),
        }
    }

    /// Performs an atomic operation on a word of a region.
    pub open spec fn on_atomic(self, h: RdowsHeader, p: AtomicReqPayload) -> (
        SessionModel,
        Seq<MessageModel>,
    ) {
        match self.memory.atomic(p.rkey, p.remote_va, p.atomic_type, p.operand1, p.operand2) {
            Ok((memory, original_value)) => (
                SessionModel { memory, ..self }.numbered(),
                seq![
                    MessageModel::AtomicResp(
                        self.header(Opcode::AtomicResp, h.wrid),
                        (AtomicRespPayload { original_value }),
                    ),
                ],
            ),
            Err(code) => self.refusal(code, h.sequence),
        }
    }
}

/// The acknowledgement of a region that could not be registered.
pub open spec fn register_refused(code: ErrorCode) -> MrRegAckPayload {
    MrRegAckPayload { status: crate::error::code_value(code), lkey: LKey(0), rkey: RKey(0) }
}

/// The acknowledgement of a deregistration.
pub open spec fn deregister_status(code: ErrorCode) -> MrDeregAckPayload {
    MrDeregAckPayload { status: crate::error::code_value(code) }
}

fn refuse(session: &mut Session, code: ErrorCode, failing_seq: u32) -> (r: Vec<RdowsMessage>)
    ensures
        final(session)@ == old(session)@.refusal(code, failing_seq).0,
        message::messages(r@) == old(session)@.refusal(code, failing_seq).1,
{
    one_frame(send_error(session, code, failing_seq, code.to_string().as_str()))
}

/// Performs the request `msg` of the client.
pub fn dispatch(session: &mut Session, msg: RdowsMessage, draw: u32) -> (r: Vec<RdowsMessage>)
    requires
        old(session)@.wf(),
    ensures
        final(session)@.wf(),
        final(session)@ == old(session)@.dispatched(msg@, draw).0,
        message::messages(r@) == old(session)@.dispatched(msg@, draw).1,
{
    match msg {
        RdowsMessage::MrReg(_, p) => handle_register(session, p, draw),
        RdowsMessage::MrDereg(_, p) => handle_deregister(session, p),
        RdowsMessage::Send(h, _) => handle_send(session, h),
        RdowsMessage::SendData(h, _) => handle_send_data(session, h),
        RdowsMessage::Write(_, p) => {
            session.pending_op = PendingOp::AwaitingWriteData {
                rkey: p.rkey,
                remote_va: p.remote_va,
            };
            no_frame()
        },
        RdowsMessage::WriteData(h, data) => handle_write_data(session, h, data),
        RdowsMessage::ReadReq(h, p) => handle_read(session, h, p),
        RdowsMessage::AtomicReq(h, p) => handle_atomic(session, h, p),
        other => {
            let sequence = other.header().sequence;
            one_frame(
                send_error(session, ErrorCode::ErrUnknownOpcode, sequence, "unexpected message"),
            )
        },
    }
}

fn handle_register(session: &mut Session, p: MrRegPayload, draw: u32) -> (r: Vec<RdowsMessage>)
    requires
        old(session)@.wf(),
    ensures
        final(session)@.wf(),
        final(session)@ == old(session)@.on_register(p, draw).0,
        message::messages(r@) == old(session)@.on_register(p, draw).1,
{
    let ack = if p.pd.0 != session.pd.0 {
        MrRegAckPayload {
            status: u16::from(ErrorCode::ErrInvalidPd),
            lkey: LKey(0),
            rkey: RKey(0),
        }
    } else {
        match session.memory_store.register(p.access_flags, p.region_len, draw) {
            Some((lkey, rkey)) => MrRegAckPayload { status: 0, lkey, rkey },
            None => MrRegAckPayload {
                status: u16::from(ErrorCode::ErrInternal),
                lkey: LKey(0),
                rkey: RKey(0),
            },
        }
    };
    let header = session.next_header(Opcode::MrRegAck, 0);
    one_frame(RdowsMessage::MrRegAck(header, ack))
}

fn handle_deregister(session: &mut Session, p: MrDeregPayload) -> (r: Vec<RdowsMessage>)
    requires
        old(session)@.wf(),
    ensures
        final(session)@.wf(),
        final(session)@ == old(session)@.on_deregister(p).0,
        message::messages(r@) == old(session)@.on_deregister(p).1,
{
    let code = if p.pd.0 != session.pd.0 {
        ErrorCode::ErrInvalidPd
    } else if session.memory_store.deregister(p.lkey) {
        ErrorCode::Success
    } else {
        ErrorCode::ErrInvalidLkey
    };
    let header = session.next_header(Opcode::MrDeregAck, 0);
    one_frame(RdowsMessage::MrDeregAck(header, MrDeregAckPayload { status: u16::from(code) }))
}

fn handle_send(session: &mut Session, h: RdowsHeader) -> (r: Vec<RdowsMessage>)
    requires
        old(session)@.wf(),
    ensures
        final(session)@.wf(),
        final(session)@ == old(session)@.on_send(h).0,
        message::messages(r@) == old(session)@.on_send(h).1,
{
    if session.recv_queue_depth > 0 {
        session.recv_queue_depth = session.recv_queue_depth - 1;
        session.pending_op = PendingOp::AwaitingSendData;
        no_frame()
    } else {
        let r = refuse(session, ErrorCode::ErrRnr, h.sequence);
        session.pending_op = PendingOp::DiscardingSendData;
        r
    }
}

fn handle_send_data(session: &mut Session, h: RdowsHeader) -> (r: Vec<RdowsMessage>)
    requires
        old(session)@.wf(),
    ensures
        final(session)@.wf(),
        final(session)@ == old(session)@.on_send_data(h).0,
        message::messages(r@) == old(session)@.on_send_data(h).1,
{
    match session.pending_op {
        PendingOp::AwaitingSendData => {
            session.pending_op = PendingOp::Idle;
            let header = session.next_header(Opcode::RecvComp, h.wrid);
            let mut r = one_frame(RdowsMessage::RecvComp(header));
            let ghost first = r@;
            let count: u32 = session.sends_since_last_credit + 1;
            if count >= session.icc / 4 {
                let header = session.next_header(Opcode::CreditUpdate, 0);
                session.sends_since_last_credit = 0;
                r.push(
                    RdowsMessage::CreditUpdate(
                        header,
                        CreditUpdatePayload { credit_increment: count },
                    ),
                );
            } else {
                session.sends_since_last_credit = count;
            }
            proof {
                assert(message::messages(first).len() == 1);
                assert(message::messages(r@)[0] == message::messages(first)[0]);
                assert(message::messages(r@) =~= old(session)@.on_send_data(h).1);
            }
            r
        },
        PendingOp::DiscardingSendData => {
            session.pending_op = PendingOp::Idle;
            no_frame()
        },
        _ => one_frame(
            send_error(
                session,
                ErrorCode::ErrInternal,
                h.sequence,
                "unexpected SEND_DATA without preceding SEND",
            ),
        ),
    }
}

fn handle_write_data(session: &mut Session, h: RdowsHeader, data: DataPayload) -> (r: Vec<
    RdowsMessage,
>)
    requires
        old(session)@.wf(),
    ensures
        final(session)@.wf(),
        final(session)@ == old(session)@.on_write_data(h, data@).0,
        message::messages(r@) == old(session)@.on_write_data(h, data@).1,
{
    match session.pending_op {
        PendingOp::AwaitingWriteData { rkey, remote_va } => {
            session.pending_op = PendingOp::Idle;
            match session.memory_store.write(rkey, remote_va, data.as_slice()) {
                Ok(()) => {
                    let header = session.next_header(Opcode::WriteComp, h.wrid);
                    one_frame(RdowsMessage::WriteComp(header))
                },
                Err(code) => refuse(session, code, h.sequence),
            }
        },
        _ => one_frame(
            send_error(
                session,
                ErrorCode::ErrInternal,
                h.sequence,
                "unexpected WRITE_DATA without preceding WRITE",
            ),
        ),
    }
}

fn handle_read(session: &mut Session, h: RdowsHeader, p: ReadReqPayload) -> (r: Vec<RdowsMessage>)
    requires
        old(session)@.wf(),
    ensures
        final(session)@.wf(),
        final(session)@ == old(session)@.on_read(h, p).0,
        message::messages(r@) == old(session)@.on_read(h, p).1,
{
    match session.memory_store.read(p.rkey, p.remote_va, p.read_len) {
        Ok(bytes) => {
            let header = session.next_header(Opcode::ReadResp, h.wrid);
            one_frame(RdowsMessage::ReadResp(header, DataPayload::new(bytes)))
        },
        Err(code) => refuse(session, code, h.sequence),
    }
}

fn handle_atomic(session: &mut Session, h: RdowsHeader, p: AtomicReqPayload) -> (r: Vec<
    RdowsMessage,
>)
    requires
        old(session)@.wf(),
    ensures
        final(session)@.wf(),
        final(session)@ == old(session)@.on_atomic(h, p).0,
        message::messages(r@) == old(session)@.on_atomic(h, p).1,
{
    let result = session.memory_store.atomic(
        p.rkey,
        p.remote_va,
        p.atomic_type,
        p.operand1,
        p.operand2,
    );
    match result {
        Ok(original_value) => {
            let header = session.next_header(Opcode::AtomicResp, h.wrid);
            one_frame(RdowsMessage::AtomicResp(header, AtomicRespPayload { original_value }))
        },
        Err(code) => refuse(session, code, h.sequence),
    }
}

} // verus!
