//! The messages of the protocol.
use vstd::prelude::*;

use crate::error::ErrorCode;
use crate::frame::RdowsHeader;
use crate::memory::{AccessFlags, LKey, ProtectionDomain, RKey};
use crate::queue::ScatterGatherEntry;

verus! {

/// `bytes::Bytes`, the shared byte buffer that carries payload data.
#[verifier::external_type_specification]
#[verifier::external_body]
pub struct ExBytes(bytes::Bytes);

/// The bytes that a buffer holds.
pub uninterp spec fn bytes_content(b: bytes::Bytes) -> Seq<u8>;

/// `bytes::Bytes::from` on a vector: the buffer holds the vector's bytes.
#[verifier::external_body]
pub(crate) fn bytes_from_vec(v: Vec<u8>) -> (r: bytes::Bytes)
    ensures
        bytes_content(r) == v@,
{
    bytes::Bytes::from(v)
}

/// `bytes::Bytes::deref`: the slice holds the buffer's bytes.
#[verifier::external_body]
pub(crate) fn bytes_as_slice(b: &bytes::Bytes) -> (r: &[u8])
    ensures
        r@ == bytes_content(*b),
{
    b
}

#[derive(Debug, Clone, Copy, PartialEq, Eq, Structural)]
pub struct ConnectPayload {
    pub pd: ProtectionDomain,
    pub capability_flags: u32,
    pub max_msg_size: u32,
    pub icc: u32,
}

#[derive(Debug, Clone, Copy, PartialEq, Eq, Structural)]
pub struct MrRegPayload {
    pub pd: ProtectionDomain,
    pub access_flags: AccessFlags,
    pub region_len: u64,
    pub suggested_lkey: Option<LKey>,
}

#[derive(Debug, Clone, Copy, PartialEq, Eq, Structural)]
pub struct MrRegAckPayload {
    pub status: u16,
    pub lkey: LKey,
    pub rkey: RKey,
}

#[derive(Debug, Clone, Copy, PartialEq, Eq, Structural)]
pub struct MrDeregPayload {
    pub pd: ProtectionDomain,
    pub lkey: LKey,
}

#[derive(Debug, Clone, Copy, PartialEq, Eq, Structural)]
pub struct MrDeregAckPayload {
    pub status: u16,
}

#[derive(Debug)]
pub struct SendPayload {
    pub sg_list: Vec<ScatterGatherEntry>,
}

#[derive(Debug)]
pub struct DataPayload {
    pub data: bytes::Bytes,
}

#[derive(Debug)]
pub struct WritePayload {
    pub rkey: RKey,
    pub remote_va: u64,
    pub length: u64,
    pub sg_list: Vec<ScatterGatherEntry>,
}

#[derive(Debug, Clone, Copy, PartialEq, Eq, Structural)]
pub struct ReadReqPayload {
    pub rkey: RKey,
    pub remote_va: u64,
    pub read_len: u64,
    pub local_lkey: LKey,
    pub local_va: u64,
}

/// The two atomic operations on a 64-bit word.
#[derive(Debug, Clone, Copy, PartialEq, Eq, Hash, Structural)]
pub enum AtomicType {
    CompareAndSwap,
    FetchAndAdd,
}

#[derive(Debug, Clone, Copy, PartialEq, Eq, Structural)]
pub struct AtomicReqPayload {
    pub rkey: RKey,
    pub atomic_type: AtomicType,
    pub remote_va: u64,
    pub operand1: u64,
    pub operand2: u64,
}

#[derive(Debug, Clone, Copy, PartialEq, Eq, Structural)]
pub struct AtomicRespPayload {
    pub original_value: u64,
}

#[derive(Debug, Clone, Copy, PartialEq, Eq, Structural)]
pub struct CreditUpdatePayload {
    pub credit_increment: u32,
}

#[derive(Debug)]
pub struct ErrorPayload {
    pub error_code: ErrorCode,
    pub failing_seq: u32,
    pub description: String,
}

impl View for DataPayload {
    type V = Seq<u8>;

    open spec fn view(&self) -> Seq<u8> {
        bytes_content(self.data)
    }
}

impl DataPayload {
    /// Wraps `data` as a payload.
    pub fn new(data: Vec<u8>) -> (r: DataPayload)
        ensures
            r@ == data@,
    {
        DataPayload { data: bytes_from_vec(data) }
    }

    /// The payload's bytes.
    pub fn as_slice(&self) -> (r: &[u8])
        ensures
            r@ == self@,
    {
        bytes_as_slice(&self.data)
    }
}

/// A frame: its header, and the payload that its kind carries.
#[derive(Debug)]
pub enum RdowsMessage {
    Connect(RdowsHeader, ConnectPayload),
    ConnectAck(RdowsHeader, ConnectPayload),
    Disconnect(RdowsHeader),
    MrReg(RdowsHeader, MrRegPayload),
    MrRegAck(RdowsHeader, MrRegAckPayload),
    MrDereg(RdowsHeader, MrDeregPayload),
    MrDeregAck(RdowsHeader, MrDeregAckPayload),
    Send(RdowsHeader, SendPayload),
    SendData(RdowsHeader, DataPayload),
    RecvComp(RdowsHeader),
    Write(RdowsHeader, WritePayload),
    WriteData(RdowsHeader, DataPayload),
    WriteComp(RdowsHeader),
    ReadReq(RdowsHeader, ReadReqPayload),
    ReadResp(RdowsHeader, DataPayload),
    AtomicReq(RdowsHeader, AtomicReqPayload),
    AtomicResp(RdowsHeader, AtomicRespPayload),
    Ack(RdowsHeader),
    CreditUpdate(RdowsHeader, CreditUpdatePayload),
    Error(RdowsHeader, ErrorPayload),
}

/// A message with its data and texts as sequences.
#[verifier::ext_equal]
pub enum MessageModel {
    Connect(RdowsHeader, ConnectPayload),
    ConnectAck(RdowsHeader, ConnectPayload),
    Disconnect(RdowsHeader),
    MrReg(RdowsHeader, MrRegPayload),
    MrRegAck(RdowsHeader, MrRegAckPayload),
    MrDereg(RdowsHeader, MrDeregPayload),
    MrDeregAck(RdowsHeader, MrDeregAckPayload),
    Send(RdowsHeader, Seq<ScatterGatherEntry>),
    SendData(RdowsHeader, Seq<u8>),
    RecvComp(RdowsHeader),
    Write(RdowsHeader, RKey, u64, u64, Seq<ScatterGatherEntry>),
    WriteData(RdowsHeader, Seq<u8>),
    WriteComp(RdowsHeader),
    ReadReq(RdowsHeader, ReadReqPayload),
    ReadResp(RdowsHeader, Seq<u8>),
    AtomicReq(RdowsHeader, AtomicReqPayload),
    AtomicResp(RdowsHeader, AtomicRespPayload),
    Ack(RdowsHeader),
    CreditUpdate(RdowsHeader, CreditUpdatePayload),
    Error(RdowsHeader, ErrorCode, u32, Seq<char>),
}

impl View for RdowsMessage {
    type V = MessageModel;

    open spec fn view(&self) -> MessageModel {
        match *self {
            RdowsMessage::Connect(h, p) => MessageModel::Connect(h, p),
            RdowsMessage::ConnectAck(h, p) => MessageModel::ConnectAck(h, p),
            RdowsMessage::Disconnect(h) => MessageModel::Disconnect(h),
            RdowsMessage::MrReg(h, p) => MessageModel::MrReg(h, p),
            RdowsMessage::MrRegAck(h, p) => MessageModel::MrRegAck(h, p),
            RdowsMessage::MrDereg(h, p) => MessageModel::MrDereg(h, p),
            RdowsMessage::MrDeregAck(h, p) => MessageModel::MrDeregAck(h, p),
            RdowsMessage::Send(h, p) => MessageModel::Send(h, p.sg_list@),
            RdowsMessage::SendData(h, p) => MessageModel::SendData(h, p@),
            RdowsMessage::RecvComp(h) => MessageModel::RecvComp(h),
            RdowsMessage::Write(h, p) => MessageModel::Write(
                h,
                p.rkey,
                p.remote_va,
                p.length,
                p.sg_list@,
            ),
            RdowsMessage::WriteData(h, p) => MessageModel::WriteData(h, p@),
            RdowsMessage::WriteComp(h) => MessageModel::WriteComp(h),
            RdowsMessage::ReadReq(h, p) => MessageModel::ReadReq(h, p),
            RdowsMessage::ReadResp(h, p) => MessageModel::ReadResp(h, p@),
            RdowsMessage::AtomicReq(h, p) => MessageModel::AtomicReq(h, p),
            RdowsMessage::AtomicResp(h, p) => MessageModel::AtomicResp(h, p),
            RdowsMessage::Ack(h) => MessageModel::Ack(h),
            RdowsMessage::CreditUpdate(h, p) => MessageModel::CreditUpdate(h, p),
            RdowsMessage::Error(h, p) => MessageModel::Error(
                h,
                p.error_code,
                p.failing_seq,
                p.description@,
            ),
        }
    }
}

impl MessageModel {
    /// The header of the message.
    pub open spec fn header(self) -> RdowsHeader {
        match self {
            MessageModel::Connect(h, _) => h,
            MessageModel::ConnectAck(h, _) => h,
            MessageModel::Disconnect(h) => h,
            MessageModel::MrReg(h, _) => h,
            MessageModel::MrRegAck(h, _) => h,
            MessageModel::MrDereg(h, _) => h,
            MessageModel::MrDeregAck(h, _) => h,
            MessageModel::Send(h, _) => h,
            MessageModel::SendData(h, _) => h,
            MessageModel::RecvComp(h) => h,
            MessageModel::Write(h, _, _, _, _) => h,
            MessageModel::WriteData(h, _) => h,
            MessageModel::WriteComp(h) => h,
            MessageModel::ReadReq(h, _) => h,
            MessageModel::ReadResp(h, _) => h,
            MessageModel::AtomicReq(h, _) => h,
            MessageModel::AtomicResp(h, _) => h,
            MessageModel::Ack(h) => h,
            MessageModel::CreditUpdate(h, _) => h,
            MessageModel::Error(h, _, _, _) => h,
        }
    }
}

/// The messages of a list, as models.
pub open spec fn messages(list: Seq<RdowsMessage>) -> Seq<MessageModel> {
    list.map_values(|m: RdowsMessage| m@)
}

impl RdowsMessage {
    /// The header of the message.
    pub open spec fn spec_header(self) -> RdowsHeader {
        self@.header()
    }

    /// The header of the message.
    pub fn header(&self) -> (r: &RdowsHeader)
        ensures
            *r == self.spec_header(),
    {
        match self {
            RdowsMessage::Connect(h, _) => h,
            RdowsMessage::ConnectAck(h, _) => h,
            RdowsMessage::Disconnect(h) => h,
            RdowsMessage::MrReg(h, _) => h,
            RdowsMessage::MrRegAck(h, _) => h,
            RdowsMessage::MrDereg(h, _) => h,
            RdowsMessage::MrDeregAck(h, _) => h,
            RdowsMessage::Send(h, _) => h,
            RdowsMessage::SendData(h, _) => h,
            RdowsMessage::RecvComp(h) => h,
            RdowsMessage::Write(h, _) => h,
            RdowsMessage::WriteData(h, _) => h,
            RdowsMessage::WriteComp(h) => h,
            RdowsMessage::ReadReq(h, _) => h,
            RdowsMessage::ReadResp(h, _) => h,
            RdowsMessage::AtomicReq(h, _) => h,
            RdowsMessage::AtomicResp(h, _) => h,
            RdowsMessage::Ack(h) => h,
            RdowsMessage::CreditUpdate(h, _) => h,
            RdowsMessage::Error(h, _) => h,
        }
    }
}

/// The model of a frame has all that the frame carries.
pub proof fn law_model_has_the_whole_frame(msg: RdowsMessage)
    ensures
        match msg {
            RdowsMessage::Connect(h, p) => msg@ == MessageModel::Connect(h, p),
            RdowsMessage::ConnectAck(h, p) => msg@ == MessageModel::ConnectAck(h, p),
            RdowsMessage::Disconnect(h) => msg@ == MessageModel::Disconnect(h),
            RdowsMessage::MrReg(h, p) => msg@ == MessageModel::MrReg(h, p),
            RdowsMessage::MrRegAck(h, p) => msg@ == MessageModel::MrRegAck(h, p),
            RdowsMessage::MrDereg(h, p) => msg@ == MessageModel::MrDereg(h, p),
            RdowsMessage::MrDeregAck(h, p) => msg@ == MessageModel::MrDeregAck(h, p),
            RdowsMessage::Send(h, p) => msg@ == MessageModel::Send(h, p.sg_list@),
            RdowsMessage::SendData(h, p) => msg@ == MessageModel::SendData(h, p@),
            RdowsMessage::RecvComp(h) => msg@ == MessageModel::RecvComp(h),
            RdowsMessage::Write(h, p) => msg@ == MessageModel::Write(
                h,
                p.rkey,
                p.remote_va,
                p.length,
                p.sg_list@,
            ),
            RdowsMessage::WriteData(h, p) => msg@ == MessageModel::WriteData(h, p@),
            RdowsMessage::WriteComp(h) => msg@ == MessageModel::WriteComp(h),
            RdowsMessage::ReadReq(h, p) => msg@ == MessageModel::ReadReq(h, p),
            RdowsMessage::ReadResp(h, p) => msg@ == MessageModel::ReadResp(h, p@),
            RdowsMessage::AtomicReq(h, p) => msg@ == MessageModel::AtomicReq(h, p),
            RdowsMessage::AtomicResp(h, p) => msg@ == MessageModel::AtomicResp(h, p),
            RdowsMessage::Ack(h) => msg@ == MessageModel::Ack(h),
            RdowsMessage::CreditUpdate(h, p) => msg@ == MessageModel::CreditUpdate(h, p),
            RdowsMessage::Error(h, p) => msg@ == MessageModel::Error(
                h,
                p.error_code,
                p.failing_seq,
                p.description@,
            ),
        },
        msg.spec_header() == msg@.header(),
{
}

/// The header of a frame is the one that it starts with.
pub proof fn law_header_of_frame(m: MessageModel)
    ensures
        match m {
            MessageModel::Connect(h, _) => m.header() == h,
            MessageModel::ConnectAck(h, _) => m.header() == h,
            MessageModel::Disconnect(h) => m.header() == h,
            MessageModel::MrReg(h, _) => m.header() == h,
            MessageModel::MrRegAck(h, _) => m.header() == h,
            MessageModel::MrDereg(h, _) => m.header() == h,
            MessageModel::MrDeregAck(h, _) => m.header() == h,
            MessageModel::Send(h, _) => m.header() == h,
            MessageModel::SendData(h, _) => m.header() == h,
            MessageModel::RecvComp(h) => m.header() == h,
            MessageModel::Write(h, _, _, _, _) => m.header() == h,
            MessageModel::WriteData(h, _) => m.header() == h,
            MessageModel::WriteComp(h) => m.header() == h,
            MessageModel::ReadReq(h, _) => m.header() == h,
            MessageModel::ReadResp(h, _) => m.header() == h,
            MessageModel::AtomicReq(h, _) => m.header() == h,
            MessageModel::AtomicResp(h, _) => m.header() == h,
            MessageModel::Ack(h) => m.header() == h,
            MessageModel::CreditUpdate(h, _) => m.header() == h,
            MessageModel::Error(h, _, _, _) => m.header() == h,
        },
{
}

/// The model of a list of frames is the list of their models, in turn.
pub proof fn law_messages_in_turn(list: Seq<RdowsMessage>, i: int)
    requires
        0 <= i < list.len(),
    ensures
        messages(list).len() == list.len(),
        messages(list)[i] == list[i]@,
{
}

/// A payload holds the bytes that it is made of, and gives them back; a frame
/// gives its header.
pub proof fn law_payload_keeps_its_bytes(
    data: Vec<u8>,
    payload: DataPayload,
    bytes: &[u8],
    msg: &RdowsMessage,
    header: &RdowsHeader,
)
    requires
        call_ensures(DataPayload::new, (data,), payload),
        call_ensures(DataPayload::as_slice, (&payload,), bytes),
        call_ensures(RdowsMessage::header, (msg,), header),
    ensures
        payload@ == data@,
        bytes@ == data@,
        *header == msg@.header(),
{
}

} // verus!
