//! The client's end of a session.
use std::collections::HashMap;

use vstd::prelude::*;

use crate::completion::CompletionQueue;
use crate::connection::ConnectionParams;
use crate::error::{ErrorCode, RdowsError};
use crate::frame::RdowsHeader;
use crate::memory::ProtectionDomain;
use crate::message::RdowsMessage;
use crate::opcode::Opcode;
use crate::queue::{CompletionQueueEntry, WorkRequestId};

pub mod calls;
pub mod effects;
pub mod laws;
pub mod model;
pub mod verbs;

use model::ConnectionModel;
use verbs::MemoryRegionHandle;

verus! {

broadcast use vstd::std_specs::hash::group_hash_axioms;

/// How many completions a queue holds unless the caller says otherwise.
pub const DEFAULT_CQ_CAPACITY: usize = 65536;

/// What a caller chooses when connecting.
pub struct ConnectConfig {
    pub cq_capacity: usize,
}

impl Default for ConnectConfig {
    fn default() -> (r: ConnectConfig)
        ensures
            r.cq_capacity == DEFAULT_CQ_CAPACITY,
    {
        ConnectConfig { cq_capacity: DEFAULT_CQ_CAPACITY }
    }
}

/// The client's end of a session: everything but the socket.
pub struct RdowsConnection {
    session_id: u32,
    pd: ProtectionDomain,
    max_msg_size: u32,
    next_seq: u32,
    expected_remote_seq: Option<u32>,
    send_credits: u32,
    cq: CompletionQueue,
    local_mrs: HashMap<u32, MemoryRegionHandle>,
}

impl View for RdowsConnection {
    type V = ConnectionModel;

    closed spec fn view(&self) -> ConnectionModel {
        ConnectionModel {
            session_id: self.session_id,
            pd: self.pd,
            max_msg_size: self.max_msg_size,
            next_seq: self.next_seq,
            expected_remote_seq: self.expected_remote_seq,
            send_credits: self.send_credits,
            completions: self.cq@,
            cq_capacity: self.cq.spec_capacity(),
            regions: self.local_mrs@.map_values(|h: MemoryRegionHandle| h@),
        }
    }
}

impl RdowsConnection {
    /// The session that `params` were agreed for, with default settings.
    pub fn connect(params: ConnectionParams) -> (r: RdowsConnection)
        ensures
            r@.wf(),
            r@ == model::fresh(params, DEFAULT_CQ_CAPACITY as nat),
    {
        RdowsConnection::connect_with_config(params, ConnectConfig::default())
    }

    /// The session that `params` were agreed for.
    pub fn connect_with_config(params: ConnectionParams, config: ConnectConfig) -> (r:
        RdowsConnection)
        ensures
            r@.wf(),
            r@ == model::fresh(params, config.cq_capacity as nat),
    {
        let r = RdowsConnection {
            session_id: params.session_id,
            pd: params.pd,
            max_msg_size: params.max_msg_size,
            next_seq: 1,
            expected_remote_seq: Some(params.initial_remote_seq),
            send_credits: params.icc,
            cq: CompletionQueue::new(config.cq_capacity),
            local_mrs: HashMap::new(),
        };
        proof {
            assert(r@ =~= model::fresh(params, config.cq_capacity as nat));
        }
        r
    }

    /// Ends the session: the frame that says so.
    pub fn disconnect(self) -> (r: RdowsMessage)
        ensures
            r == RdowsMessage::Disconnect(self@.header(Opcode::Disconnect, 0)),
    {
        let mut conn = self;
        RdowsMessage::Disconnect(conn.next_header(Opcode::Disconnect, 0))
    }

    /// Takes the oldest completions out, at most `max` of them.
    pub fn poll_cq(&mut self, max: usize) -> (r: Vec<CompletionQueueEntry>)
        requires
            old(self)@.wf(),
        ensures
            final(self)@.wf(),
            final(self)@ == old(self)@.polled(max),
            r@ == old(self)@.completions.take(old(self)@.polled_count(max)),
    {
        let r = self.cq.poll_cq(max);
        proof {
            let all = old(self)@.completions;
            let n = old(self)@.polled_count(max);
            assert(all.skip(n) =~= self@.completions);
            assert(all.take(n) =~= r@);
        }
        r
    }

    /// The session's number.
    pub fn session_id(&self) -> (r: u32)
        ensures
            r == self@.session_id,
    {
        self.session_id
    }

    /// Whether the completion queue has no room left.
    pub fn cq_is_full(&self) -> (r: bool)
        ensures
            r == self@.cq_full(),
    {
        self.cq.is_full()
    }

    /// How many messages may still be sent.
    pub fn send_credits(&self) -> (r: u32)
        ensures
            r == self@.send_credits,
    {
        self.send_credits
    }

    /// Numbers the next frame to send.
    pub fn next_header(&mut self, opcode: Opcode, wrid: u64) -> (r: RdowsHeader)
        ensures
            r == old(self)@.header(opcode, wrid),
            final(self)@ == old(self)@.numbered(),
    {
        let seq = self.next_seq;
        self.next_seq = self.next_seq.wrapping_add(1);
        RdowsHeader::new(opcode, self.session_id, seq, wrid)
    }

    /// Sets how many messages may still be sent.
    pub fn set_send_credits(&mut self, credits: u32)
        ensures
            final(self)@ == (ConnectionModel { send_credits: credits, ..old(self)@ }),
    {
        self.send_credits = credits;
    }

    /// Checks that a frame of the remote side comes in order.
    pub fn validate_remote_seq(&mut self, msg: &RdowsMessage) -> (r: Result<(), RdowsError>)
        ensures
            if old(self)@.accepts_sequence(msg.spec_header().sequence) {
                &&& r == Ok::<(), RdowsError>(())
                &&& final(self)@ == old(self)@.received(msg.spec_header().sequence)
            } else {
                &&& r == Err::<(), RdowsError>(RdowsError::Protocol(ErrorCode::ErrSeqGap))
                &&& final(self)@ == old(self)@
            },
    {
        if let Some(expected) = self.expected_remote_seq {
            if msg.header().sequence != expected {
                return Err(RdowsError::Protocol(ErrorCode::ErrSeqGap));
            }
        }
        self.expected_remote_seq = Some(msg.header().sequence.wrapping_add(1));
        Ok(())
    }

    /// Takes in a frame of the remote side. Gives the message to the caller,
    /// unless it only grants credits: those are added, and the caller waits on.
    ///
    /// A grant that the credit counter cannot hold is left out.
    pub fn recv_app_message(&mut self, msg: RdowsMessage) -> (r: Result<
        Option<RdowsMessage>,
        RdowsError,
    >)
        requires
            old(self)@.grant_fits(msg@),
        ensures
            final(self)@ == old(self)@.taken_in(msg@).0,
            r == match old(self)@.taken_in(msg@).1 {
                Ok(true) => Ok::<Option<RdowsMessage>, RdowsError>(Some(msg)),
                Ok(false) => Ok(None),
                Err(e) => Err(e),
            },
    {
        match self.validate_remote_seq(&msg) {
            Err(e) => Err(e),
            Ok(()) => {
                match msg {
                    RdowsMessage::CreditUpdate(_, payload) => {
                        self.send_credits = self.send_credits + payload.credit_increment;
                        Ok(None)
                    },
                    other => Ok(Some(other)),
                }
            },
        }
    }

    /// Whether the credit counter can hold what `msg` grants.
    pub fn grant_fits(&self, msg: &RdowsMessage) -> (r: bool)
        ensures
            r == self@.grant_fits(msg@),
    {
        if let RdowsMessage::CreditUpdate(header, payload) = msg {
            if let Some(expected) = self.expected_remote_seq {
                if header.sequence != expected {
                    return true;
                }
            }
            return self.send_credits.checked_add(payload.credit_increment).is_some();
        }
        true
    }

    fn complete(&mut self, wrid: u64, status: u16, opcode: Opcode, byte_count: u32)
        requires
            old(self)@.wf(),
        ensures
            final(self)@.wf(),
            final(self)@ == old(self)@.completed(wrid, status, opcode, byte_count),
    {
        let cqe = CompletionQueueEntry {
            wrid: WorkRequestId(wrid),
            status,
            opcode,
            vendor_error: 0,
            byte_count,
            qp_number: self.session_id,
        };
        let _ = self.cq.push(cqe);
    }
}

} // verus!
