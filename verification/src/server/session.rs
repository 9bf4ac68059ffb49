//! The state of a session, from the CONNECT frame to the end.
use vstd::prelude::*;

use super::handler;
use super::handler::PendingOp;
use super::memory_store::{MemoryStore, StoreModel};
use crate::error::{ErrorCode, RdowsError};
use crate::frame;
use crate::frame::RdowsHeader;
use crate::memory::ProtectionDomain;
use crate::message;
use crate::message::{ConnectPayload, ErrorPayload, MessageModel, RdowsMessage};
use crate::opcode::Opcode;
use crate::random::random_word;
use crate::{DEFAULT_ICC, DEFAULT_MAX_MSG_SIZE, RDOWS_VERSION};

verus! {

/// How far a session has come.
#[derive(Debug, Clone, Copy, PartialEq, Eq, Structural)]
pub enum SessionState {
    AwaitingConnect,
    Ready,
    Closed,
}

/// A session on the server: everything but the socket.
pub struct Session {
    pub state: SessionState,
    pub session_id: u32,
    pub pd: ProtectionDomain,
    pub max_msg_size: u32,
    pub next_seq: u32,
    pub memory_store: MemoryStore,
    pub pending_op: PendingOp,
    /// How many more messages can be received.
    pub recv_queue_depth: u32,
    /// The number that the client's next frame must carry.
    pub expected_remote_seq: Option<u32>,
    /// Messages received since credits were last granted.
    pub sends_since_last_credit: u32,
    /// The credits that the client started with.
    pub icc: u32,
}

/// A session, with its memory as a model.
#[verifier::ext_equal]
pub struct SessionModel {
    pub state: SessionState,
    pub session_id: u32,
    pub pd: ProtectionDomain,
    pub max_msg_size: u32,
    pub next_seq: u32,
    pub memory: StoreModel,
    pub pending_op: PendingOp,
    pub recv_queue_depth: u32,
    pub expected_remote_seq: Option<u32>,
    pub sends_since_last_credit: u32,
    pub icc: u32,
}

impl View for Session {
    type V = SessionModel;

    open spec fn view(&self) -> SessionModel {
        SessionModel {
            state: self.state,
            session_id: self.session_id,
            pd: self.pd,
            max_msg_size: self.max_msg_size,
            next_seq: self.next_seq,
            memory: self.memory_store@,
            pending_op: self.pending_op,
            recv_queue_depth: self.recv_queue_depth,
            expected_remote_seq: self.expected_remote_seq,
            sends_since_last_credit: self.sends_since_last_credit,
            icc: self.icc,
        }
    }
}

/// The smaller of two sizes.
pub open spec fn smaller(a: u32, b: u32) -> u32 {
    if a <= b {
        a
    } else {
        b
    }
}

impl SessionModel {
    /// The memory is consistent, and grants of credits are not overdue.
    pub open spec fn wf(self) -> bool {
        &&& self.memory.wf()
        &&& self.sends_since_last_credit <= self.icc / 4
    }

    /// The header of the next frame to send.
    pub open spec fn header(self, opcode: Opcode, wrid: u64) -> RdowsHeader {
        RdowsHeader::spec_new(opcode, self.session_id, self.next_seq, wrid)
    }

    /// The state after one frame was numbered.
    pub open spec fn numbered(self) -> SessionModel {
        SessionModel { next_seq: frame::next_sequence(self.next_seq), ..self }
    }

    /// The ERROR frame that the session sends next.
    pub open spec fn error(
        self,
        code: ErrorCode,
        failing_seq: u32,
        description: Seq<char>,
    ) -> MessageModel {
        MessageModel::Error(self.header(Opcode::Error, 0), code, failing_seq, description)
    }

    /// The client's next frame may carry the number `seq`.
    pub open spec fn accepts_sequence(self, seq: u32) -> bool {
        match self.expected_remote_seq {
            Some(expected) => seq == expected,
            None => true,
        }
    }

    /// The state after a frame numbered `seq` came in order.
    pub open spec fn received(self, seq: u32) -> SessionModel {
        SessionModel { expected_remote_seq: Some(frame::next_sequence(seq)), ..self }
    }

    /// What the session does on `msg`: its next state, and the frames it sends
    /// or the error with which it ends. `draw` is the random number for the key
    /// of a region that `msg` registers.
    pub open spec fn handled(self, msg: MessageModel, draw: u32) -> (
        SessionModel,
        Result<Seq<MessageModel>, RdowsError>,
    ) {
        let seq = msg.header().sequence;
        if self.state is Closed {
            (self, Ok(Seq::empty()))
        } else if !self.accepts_sequence(seq) {
            (
                SessionModel { state: SessionState::Closed, ..self.numbered() },
                Ok(seq![self.error(ErrorCode::ErrSeqGap, seq, "sequence number gap"@)]),
            )
        } else if self.state is AwaitingConnect {
            self.received(seq).connected(msg)
        } else {
            let (next, replies) = self.received(seq).in_ready(msg, draw);
            (next, Ok(replies))
        }
    }

    /// What a session that waits for CONNECT does on `msg`.
    pub open spec fn connected(self, msg: MessageModel) -> (
        SessionModel,
        Result<Seq<MessageModel>, RdowsError>,
    ) {
        match msg {
            MessageModel::Connect(header, payload) => if header.version != RDOWS_VERSION {
                (
                    SessionModel { state: SessionState::Closed, ..self.numbered() },
                    Ok(
                        seq![
                            self.error(
                                ErrorCode::ErrProtoVersion,
                                header.sequence,
                                "unsupported protocol version"@,
                            ),
                        ],
                    ),
                )
            } else {
                let max_msg_size = smaller(payload.max_msg_size, DEFAULT_MAX_MSG_SIZE);
                let opened = SessionModel {
                    session_id: header.session_id,
                    pd: payload.pd,
                    max_msg_size,
                    ..self
                };
                let ack = ConnectPayload {
                    pd: payload.pd,
                    capability_flags: 0,
                    max_msg_size,
                    icc: self.icc,
                };
                (
                    SessionModel { state: SessionState::Ready, ..opened.numbered() },
                    Ok(
                        seq![
                            MessageModel::ConnectAck(opened.header(Opcode::ConnectAck, 0), ack),
                        ],
                    ),
                )
            },
            _ => (
                self,
                Err(
                    RdowsError::UnexpectedMessage {
                        expected: "CONNECT",
                        got: msg.header().opcode,
                    },
                ),
            ),
        }
    }

    /// What an open session does on `msg`.
    pub open spec fn in_ready(self, msg: MessageModel, draw: u32) -> (
        SessionModel,
        Seq<MessageModel>,
    ) {
        if msg.header().payload_length > self.max_msg_size {
            (
                self.numbered(),
                seq![
                    self.error(
                        ErrorCode::ErrPayloadSize,
                        msg.header().sequence,
                        "payload exceeds negotiated maximum message size"@,
                    ),
                ],
            )
        } else {
            match msg {
                MessageModel::Disconnect(_) => (
                    SessionModel { state: SessionState::Closed, ..self },
                    Seq::empty(),
                ),
                MessageModel::CreditUpdate(_, _) => (self, Seq::empty()),
                _ => self.dispatched(msg, draw),
            }
        }
    }
}

/// A session before its CONNECT frame.
pub open spec fn unconnected(recv_queue_depth: u32) -> SessionModel {
    SessionModel {
        state: SessionState::AwaitingConnect,
        session_id: 0,
        pd: ProtectionDomain(0),
        max_msg_size: DEFAULT_MAX_MSG_SIZE,
        next_seq: 0,
        memory: StoreModel::empty(),
        pending_op: PendingOp::Idle,
        recv_queue_depth,
        expected_remote_seq: None,
        sends_since_last_credit: 0,
        icc: DEFAULT_ICC,
    }
}

/// The result of a step, as the model gives it.
pub open spec fn step_result(
    r: Result<Vec<RdowsMessage>, RdowsError>,
    model: Result<Seq<MessageModel>, RdowsError>,
) -> bool {
    match model {
        Ok(replies) => r matches Ok(list) && message::messages(list@) == replies,
        Err(e) => r == Err::<Vec<RdowsMessage>, RdowsError>(e),
    }
}

impl Session {
    /// A session that waits for its CONNECT frame and can receive
    /// `recv_queue_depth` messages.
    pub fn new(recv_queue_depth: u32) -> (r: Session)
        ensures
            r@ == unconnected(recv_queue_depth),
            r@.wf(),
    {
        Session {
            state: SessionState::AwaitingConnect,
            session_id: 0,
            pd: ProtectionDomain(0),
            max_msg_size: DEFAULT_MAX_MSG_SIZE,
            next_seq: 0,
            memory_store: MemoryStore::new(),
            pending_op: PendingOp::Idle,
            recv_queue_depth,
            expected_remote_seq: None,
            sends_since_last_credit: 0,
            icc: DEFAULT_ICC,
        }
    }

    /// Numbers the next frame to send.
    pub fn next_header(&mut self, opcode: Opcode, wrid: u64) -> (r: RdowsHeader)
        ensures
            r == old(self)@.header(opcode, wrid),
            final(self)@ == old(self)@.numbered(),
    {
        let seq = self.next_seq;
        self.next_seq = self.next_seq.wrapping_add(1);
        RdowsHeader::new(opcode, self.session_id, seq, wrid)
    }

    /// Takes in a frame of the client: the frames to send in return, or the
    /// error with which the session ends.
    pub fn handle_message(&mut self, msg: RdowsMessage) -> (r: Result<
        Vec<RdowsMessage>,
        RdowsError,
    >)
        requires
            old(self)@.wf(),
        ensures
            final(self)@.wf(),
            exists|draw: u32|
                {
                    let (next, model) = #[trigger] old(self)@.handled(msg@, draw);
                    final(self)@ == next && step_result(r, model)
                },
    {
        let draw: u32 = match &msg {
            RdowsMessage::MrReg(_, _) => random_word(),
            _ => 0,
        };
        self.handle_message_with(msg, draw)
    }

    /// `handle_message` with the random number that it may need.
    pub fn handle_message_with(&mut self, msg: RdowsMessage, draw: u32) -> (r: Result<
        Vec<RdowsMessage>,
        RdowsError,
    >)
        requires
            old(self)@.wf(),
        ensures
            final(self)@.wf(),
            final(self)@ == old(self)@.handled(msg@, draw).0,
            step_result(r, old(self)@.handled(msg@, draw).1),
    {
        if let SessionState::Closed = self.state {
            return Ok(no_frame());
        }
        let sequence = msg.header().sequence;
        if let Some(expected) = self.expected_remote_seq {
            if sequence != expected {
                let error = send_error(self, ErrorCode::ErrSeqGap, sequence, "sequence number gap");
                self.state = SessionState::Closed;
                return Ok(one_frame(error));
            }
        }
        self.expected_remote_seq = Some(sequence.wrapping_add(1));
        match self.state {
            SessionState::AwaitingConnect => self.handle_connect(msg),
            SessionState::Ready => Ok(self.handle_ready(msg, draw)),
            SessionState::Closed => Ok(no_frame()),
        }
    }

    fn handle_connect(&mut self, msg: RdowsMessage) -> (r: Result<Vec<RdowsMessage>, RdowsError>)
        requires
            old(self)@.wf(),
        ensures
            final(self)@.wf(),
            final(self)@ == old(self)@.connected(msg@).0,
            step_result(r, old(self)@.connected(msg@).1),
    {
        match msg {
            RdowsMessage::Connect(header, payload) => {
                if header.version != RDOWS_VERSION {
                    let error = send_error(
                        self,
                        ErrorCode::ErrProtoVersion,
                        header.sequence,
                        "unsupported protocol version",
                    );
                    self.state = SessionState::Closed;
                    return Ok(one_frame(error));
                }
                self.session_id = header.session_id;
                self.pd = payload.pd;
                self.max_msg_size = if payload.max_msg_size <= DEFAULT_MAX_MSG_SIZE {
                    payload.max_msg_size
                } else {
                    DEFAULT_MAX_MSG_SIZE
                };
                let ack_header = self.next_header(Opcode::ConnectAck, 0);
                let ack = ConnectPayload {
                    pd: self.pd,
                    capability_flags: 0,
                    max_msg_size: self.max_msg_size,
                    icc: self.icc,
                };
                self.state = SessionState::Ready;
                Ok(one_frame(RdowsMessage::ConnectAck(ack_header, ack)))
            },
            other => Err(
                RdowsError::UnexpectedMessage { expected: "CONNECT", got: other.header().opcode },
            ),
        }
    }

    fn handle_ready(&mut self, msg: RdowsMessage, draw: u32) -> (r: Vec<RdowsMessage>)
        requires
            old(self)@.wf(),
        ensures
            final(self)@.wf(),
            final(self)@ == old(self)@.in_ready(msg@, draw).0,
            message::messages(r@) == old(self)@.in_ready(msg@, draw).1,
    {
        if msg.header().payload_length > self.max_msg_size {
            let sequence = msg.header().sequence;
            let error = send_error(
                self,
                ErrorCode::ErrPayloadSize,
                sequence,
                "payload exceeds negotiated maximum message size",
            );
            return one_frame(error);
        }
        match msg {
            RdowsMessage::Disconnect(_) => {
                self.state = SessionState::Closed;
                no_frame()
            },
            RdowsMessage::CreditUpdate(_, _) => no_frame(),
            other => handler::dispatch(self, other, draw),
        }
    }

    /// What the session's loop does on one event of its socket.
    ///
    /// The frames are sent in any case; after that the loop goes on or ends.
    pub fn on_event(&mut self, event: SessionEvent) -> (r: SessionAction)
        requires
            old(self)@.wf(),
        ensures
            final(self)@.wf(),
            match event {
                SessionEvent::Frame(msg) => exists|draw: u32|
                    {
                        let (next, model) = #[trigger] old(self)@.handled(msg@, draw);
                        &&& final(self)@ == next
                        &&& match model {
                            Ok(replies) => {
                                &&& message::messages(r.frames@) == replies
                                &&& r.go_on == !(next.state is Closed)
                            },
                            Err(_) => r.frames@.len() == 0 && !r.go_on,
                        }
                    },
                SessionEvent::Other => {
                    &&& final(self)@ == old(self)@
                    &&& r.frames@.len() == 0
                    &&& r.go_on
                },
                _ => final(self)@ == old(self)@ && r.frames@.len() == 0 && !r.go_on,
            },
    {
        match event {
            SessionEvent::Frame(msg) => match self.handle_message(msg) {
                Ok(frames) => {
                    let go_on = match self.state {
                        SessionState::Closed => false,
                        _ => true,
                    };
                    SessionAction { frames, go_on }
                },
                Err(_) => SessionAction { frames: no_frame(), go_on: false },
            },
            SessionEvent::Other => SessionAction { frames: no_frame(), go_on: true },
            _ => SessionAction { frames: no_frame(), go_on: false },
        }
    }
}

/// What a session's socket brings.
pub enum SessionEvent {
    /// A binary message that holds a frame.
    Frame(RdowsMessage),
    /// A binary message that holds none.
    Undecodable,
    /// A close message.
    Close,
    /// A text, ping or pong.
    Other,
    /// An error of the socket, or its end.
    Ended,
}

/// What is to be done after an event.
pub struct SessionAction {
    pub frames: Vec<RdowsMessage>,
    pub go_on: bool,
}

/// The ERROR frame that the session sends next.
pub fn send_error(
    session: &mut Session,
    error_code: ErrorCode,
    failing_seq: u32,
    description: &str,
) -> (r: RdowsMessage)
    ensures
        final(session)@ == old(session)@.numbered(),
        r@ == old(session)@.error(error_code, failing_seq, description@),
{
    let header = session.next_header(Opcode::Error, 0);
    let payload = ErrorPayload {
        error_code,
        failing_seq,
        description: description.to_owned(),
    };
    RdowsMessage::Error(header, payload)
}

/// No frame at all.
pub fn no_frame() -> (r: Vec<RdowsMessage>)
    ensures
        message::messages(r@) == Seq::<MessageModel>::empty(),
        r@.len() == 0,
{
    let r: Vec<RdowsMessage> = Vec::new();
    proof {
        assert(message::messages(r@) =~= Seq::<MessageModel>::empty());
    }
    r
}

/// A single frame.
pub fn one_frame(msg: RdowsMessage) -> (r: Vec<RdowsMessage>)
    ensures
        message::messages(r@) == seq![msg@],
{
    let mut r: Vec<RdowsMessage> = Vec::new();
    r.push(msg);
    proof {
        assert(message::messages(r@) =~= seq![msg@]);
    }
    r
}

} // verus!
