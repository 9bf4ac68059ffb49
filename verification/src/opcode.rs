//! The kinds of frames.
use vstd::prelude::*;

verus! {

/// The kind of a frame, as its header names it.
#[derive(Debug, Clone, Copy, PartialEq, Eq, Hash, Structural)]
pub enum Opcode {
    Connect,
    ConnectAck,
    Disconnect,
    MrReg,
    MrRegAck,
    MrDereg,
    MrDeregAck,
    Send,
    SendData,
    RecvComp,
    Write,
    WriteData,
    WriteComp,
    ReadReq,
    ReadResp,
    AtomicReq,
    AtomicResp,
    Ack,
    CreditUpdate,
    Error,
}

impl Opcode {
    /// The variant's name.
    pub open spec fn spec_name(self) -> Seq<char> {
        match self {
            Opcode::Connect => "Connect"@,
            Opcode::ConnectAck => "ConnectAck"@,
            Opcode::Disconnect => "Disconnect"@,
            Opcode::MrReg => "MrReg"@,
            Opcode::MrRegAck => "MrRegAck"@,
            Opcode::MrDereg => "MrDereg"@,
            Opcode::MrDeregAck => "MrDeregAck"@,
            Opcode::Send => "Send"@,
            Opcode::SendData => "SendData"@,
            Opcode::RecvComp => "RecvComp"@,
            Opcode::Write => "Write"@,
            Opcode::WriteData => "WriteData"@,
            Opcode::WriteComp => "WriteComp"@,
            Opcode::ReadReq => "ReadReq"@,
            Opcode::ReadResp => "ReadResp"@,
            Opcode::AtomicReq => "AtomicReq"@,
            Opcode::AtomicResp => "AtomicResp"@,
            Opcode::Ack => "Ack"@,
            Opcode::CreditUpdate => "CreditUpdate"@,
            Opcode::Error => "Error"@,
        }
    }

    /// The variant's name, as `Debug` prints it.
    pub fn name(&self) -> (r: &'static str)
        ensures
            r@ == self.spec_name(),
    {
        match self {
            Opcode::Connect => "Connect",
            Opcode::ConnectAck => "ConnectAck",
            Opcode::Disconnect => "Disconnect",
            Opcode::MrReg => "MrReg",
            Opcode::MrRegAck => "MrRegAck",
            Opcode::MrDereg => "MrDereg",
            Opcode::MrDeregAck => "MrDeregAck",
            Opcode::Send => "Send",
            Opcode::SendData => "SendData",
            Opcode::RecvComp => "RecvComp",
            Opcode::Write => "Write",
            Opcode::WriteData => "WriteData",
            Opcode::WriteComp => "WriteComp",
            Opcode::ReadReq => "ReadReq",
            Opcode::ReadResp => "ReadResp",
            Opcode::AtomicReq => "AtomicReq",
            Opcode::AtomicResp => "AtomicResp",
            Opcode::Ack => "Ack",
            Opcode::CreditUpdate => "CreditUpdate",
            Opcode::Error => "Error",
        }
    }
}

/// A kind of frame is named as it is written here.
pub proof fn law_names(op: Opcode)
    ensures
        op is Connect ==> op.spec_name() == "Connect"@,
        op is ConnectAck ==> op.spec_name() == "ConnectAck"@,
        op is Disconnect ==> op.spec_name() == "Disconnect"@,
        op is MrReg ==> op.spec_name() == "MrReg"@,
        op is MrRegAck ==> op.spec_name() == "MrRegAck"@,
        op is MrDereg ==> op.spec_name() == "MrDereg"@,
        op is MrDeregAck ==> op.spec_name() == "MrDeregAck"@,
        op is Send ==> op.spec_name() == "Send"@,
        op is SendData ==> op.spec_name() == "SendData"@,
        op is RecvComp ==> op.spec_name() == "RecvComp"@,
        op is Write ==> op.spec_name() == "Write"@,
        op is WriteData ==> op.spec_name() == "WriteData"@,
        op is WriteComp ==> op.spec_name() == "WriteComp"@,
        op is ReadReq ==> op.spec_name() == "ReadReq"@,
        op is ReadResp ==> op.spec_name() == "ReadResp"@,
        op is AtomicReq ==> op.spec_name() == "AtomicReq"@,
        op is AtomicResp ==> op.spec_name() == "AtomicResp"@,
        op is Ack ==> op.spec_name() == "Ack"@,
        op is CreditUpdate ==> op.spec_name() == "CreditUpdate"@,
        op is Error ==> op.spec_name() == "Error"@,
{
}

/// `name` gives the name of the kind.
pub proof fn law_name_call(op: &Opcode, r: &'static str)
    requires
        call_ensures(Opcode::name, (op,), r),
    ensures
        r@ == op.spec_name(),
{
}

} // verus!
