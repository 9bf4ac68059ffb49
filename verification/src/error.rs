//! Wire error codes and the errors of the library.
use vstd::prelude::*;
use vstd::std_specs::convert::{FromSpecImpl, TryFromSpecImpl};
use vstd::string::StringExecFns;

use crate::opcode::Opcode;
use crate::text;
use crate::text::{push_decimal, push_hex};

verus! {

/// `std::io::Error`, carried through without being looked into.
#[verifier::external_type_specification]
#[verifier::external_body]
pub struct ExIoError(std::io::Error);

/// Wire-level error codes.
#[derive(Debug, Clone, Copy, PartialEq, Eq, Hash, Structural)]
pub enum ErrorCode {
    Success,
    ErrProtoVersion,
    ErrUnknownOpcode,
    ErrInvalidPd,
    ErrInvalidLkey,
    ErrInvalidMkey,
    ErrAccessDenied,
    ErrBounds,
    ErrAlignment,
    ErrPayloadSize,
    ErrRnr,
    ErrCqOverflow,
    ErrSeqGap,
    ErrTimeout,
    ErrInternal,
}

/// A number that is no error code.
#[derive(Debug, Clone, Copy, PartialEq, Eq, Structural)]
pub struct InvalidErrorCode(pub u16);

/// The number that stands for `code` on the wire.
pub open spec fn code_value(code: ErrorCode) -> u16 {
    match code {
        ErrorCode::Success => 0x0000,
        ErrorCode::ErrProtoVersion => 0x0001,
        ErrorCode::ErrUnknownOpcode => 0x0002,
        ErrorCode::ErrInvalidPd => 0x0003,
        ErrorCode::ErrInvalidLkey => 0x0004,
        ErrorCode::ErrInvalidMkey => 0x0005,
        ErrorCode::ErrAccessDenied => 0x0006,
        ErrorCode::ErrBounds => 0x0007,
        ErrorCode::ErrAlignment => 0x0008,
        ErrorCode::ErrPayloadSize => 0x0009,
        ErrorCode::ErrRnr => 0x0010,
        ErrorCode::ErrCqOverflow => 0x0020,
        ErrorCode::ErrSeqGap => 0x0030,
        ErrorCode::ErrTimeout => 0x0040,
        ErrorCode::ErrInternal => 0xFFFF,
    }
}

/// The code that `value` stands for, if it stands for one.
pub open spec fn code_of(value: u16) -> Result<ErrorCode, InvalidErrorCode> {
    match value {
        0x0000 => Ok(ErrorCode::Success),
        0x0001 => Ok(ErrorCode::ErrProtoVersion),
        0x0002 => Ok(ErrorCode::ErrUnknownOpcode),
        0x0003 => Ok(ErrorCode::ErrInvalidPd),
        0x0004 => Ok(ErrorCode::ErrInvalidLkey),
        0x0005 => Ok(ErrorCode::ErrInvalidMkey),
        0x0006 => Ok(ErrorCode::ErrAccessDenied),
        0x0007 => Ok(ErrorCode::ErrBounds),
        0x0008 => Ok(ErrorCode::ErrAlignment),
        0x0009 => Ok(ErrorCode::ErrPayloadSize),
        0x0010 => Ok(ErrorCode::ErrRnr),
        0x0020 => Ok(ErrorCode::ErrCqOverflow),
        0x0030 => Ok(ErrorCode::ErrSeqGap),
        0x0040 => Ok(ErrorCode::ErrTimeout),
        0xFFFF => Ok(ErrorCode::ErrInternal),
        _ => Err(InvalidErrorCode(value)),
    }
}

/// The code that `value` stands for, and `ErrInternal` where it stands for none.
pub open spec fn code_or_internal(value: u16) -> ErrorCode {
    match code_of(value) {
        Ok(c) => c,
        Err(_) => ErrorCode::ErrInternal,
    }
}

/// Decoding the number of a code gives the code back.
pub proof fn law_code_round_trip(code: ErrorCode)
    ensures
        code_of(code_value(code)) == Ok::<ErrorCode, InvalidErrorCode>(code),
{
}

/// A number that decodes to a code is the number of that code, and one that
/// does not is the number of none.
pub proof fn law_value_round_trip(value: u16)
    ensures
        match code_of(value) {
            Ok(c) => code_value(c) == value,
            Err(e) => e == InvalidErrorCode(value) && forall|c: ErrorCode|
                #[trigger] code_value(c) != value,
        },
{
}

impl From<ErrorCode> for u16 {
    fn from(code: ErrorCode) -> (r: u16) {
        match code {
            ErrorCode::Success => 0x0000,
            ErrorCode::ErrProtoVersion => 0x0001,
            ErrorCode::ErrUnknownOpcode => 0x0002,
            ErrorCode::ErrInvalidPd => 0x0003,
            ErrorCode::ErrInvalidLkey => 0x0004,
            ErrorCode::ErrInvalidMkey => 0x0005,
            ErrorCode::ErrAccessDenied => 0x0006,
            ErrorCode::ErrBounds => 0x0007,
            ErrorCode::ErrAlignment => 0x0008,
            ErrorCode::ErrPayloadSize => 0x0009,
            ErrorCode::ErrRnr => 0x0010,
            ErrorCode::ErrCqOverflow => 0x0020,
            ErrorCode::ErrSeqGap => 0x0030,
            ErrorCode::ErrTimeout => 0x0040,
            ErrorCode::ErrInternal => 0xFFFF,
        }
    }
}

impl FromSpecImpl<ErrorCode> for u16 {
    open spec fn obeys_from_spec() -> bool {
        true
    }

    open spec fn from_spec(code: ErrorCode) -> u16 {
        code_value(code)
    }
}

impl TryFrom<u16> for ErrorCode {
    type Error = InvalidErrorCode;

    fn try_from(value: u16) -> (r: Result<ErrorCode, InvalidErrorCode>) {
        match value {
            0x0000 => Ok(ErrorCode::Success),
            0x0001 => Ok(ErrorCode::ErrProtoVersion),
            0x0002 => Ok(ErrorCode::ErrUnknownOpcode),
            0x0003 => Ok(ErrorCode::ErrInvalidPd),
            0x0004 => Ok(ErrorCode::ErrInvalidLkey),
            0x0005 => Ok(ErrorCode::ErrInvalidMkey),
            0x0006 => Ok(ErrorCode::ErrAccessDenied),
            0x0007 => Ok(ErrorCode::ErrBounds),
            0x0008 => Ok(ErrorCode::ErrAlignment),
            0x0009 => Ok(ErrorCode::ErrPayloadSize),
            0x0010 => Ok(ErrorCode::ErrRnr),
            0x0020 => Ok(ErrorCode::ErrCqOverflow),
            0x0030 => Ok(ErrorCode::ErrSeqGap),
            0x0040 => Ok(ErrorCode::ErrTimeout),
            0xFFFF => Ok(ErrorCode::ErrInternal),
            _ => Err(InvalidErrorCode(value)),
        }
    }
}

impl TryFromSpecImpl<u16> for ErrorCode {
    open spec fn obeys_try_from_spec() -> bool {
        true
    }

    open spec fn try_from_spec(value: u16) -> Result<ErrorCode, InvalidErrorCode> {
        code_of(value)
    }
}

/// The error that a status field reports: the code with that number, and
/// `ErrInternal` where no code has it.
pub fn status_code(status: u16) -> (r: ErrorCode)
    ensures
        r == code_or_internal(status),
{
    match ErrorCode::try_from(status) {
        Ok(c) => c,
        Err(_) => ErrorCode::ErrInternal,
    }
}

impl ErrorCode {
    /// The code's name in the protocol.
    pub open spec fn spec_text(self) -> Seq<char> {
        match self {
            ErrorCode::Success => "SUCCESS"@,
            ErrorCode::ErrProtoVersion => "ERR_PROTO_VERSION"@,
            ErrorCode::ErrUnknownOpcode => "ERR_UNKNOWN_OPCODE"@,
            ErrorCode::ErrInvalidPd => "ERR_INVALID_PD"@,
            ErrorCode::ErrInvalidLkey => "ERR_INVALID_LKEY"@,
            ErrorCode::ErrInvalidMkey => "ERR_INVALID_MKEY"@,
            ErrorCode::ErrAccessDenied => "ERR_ACCESS_DENIED"@,
            ErrorCode::ErrBounds => "ERR_BOUNDS"@,
            ErrorCode::ErrAlignment => "ERR_ALIGNMENT"@,
            ErrorCode::ErrPayloadSize => "ERR_PAYLOAD_SIZE"@,
            ErrorCode::ErrRnr => "ERR_RNR"@,
            ErrorCode::ErrCqOverflow => "ERR_CQ_OVERFLOW"@,
            ErrorCode::ErrSeqGap => "ERR_SEQ_GAP"@,
            ErrorCode::ErrTimeout => "ERR_TIMEOUT"@,
            ErrorCode::ErrInternal => "ERR_INTERNAL"@,
        }
    }

    /// The code's name in the protocol.
    pub fn to_string(&self) -> (r: String)
        ensures
            r@ == self.spec_text(),
    {
        let name = match self {
            ErrorCode::Success => "SUCCESS",
            ErrorCode::ErrProtoVersion => "ERR_PROTO_VERSION",
            ErrorCode::ErrUnknownOpcode => "ERR_UNKNOWN_OPCODE",
            ErrorCode::ErrInvalidPd => "ERR_INVALID_PD",
            ErrorCode::ErrInvalidLkey => "ERR_INVALID_LKEY",
            ErrorCode::ErrInvalidMkey => "ERR_INVALID_MKEY",
            ErrorCode::ErrAccessDenied => "ERR_ACCESS_DENIED",
            ErrorCode::ErrBounds => "ERR_BOUNDS",
            ErrorCode::ErrAlignment => "ERR_ALIGNMENT",
            ErrorCode::ErrPayloadSize => "ERR_PAYLOAD_SIZE",
            ErrorCode::ErrRnr => "ERR_RNR",
            ErrorCode::ErrCqOverflow => "ERR_CQ_OVERFLOW",
            ErrorCode::ErrSeqGap => "ERR_SEQ_GAP",
            ErrorCode::ErrTimeout => "ERR_TIMEOUT",
            ErrorCode::ErrInternal => "ERR_INTERNAL",
        };
        name.to_owned()
    }
}

impl InvalidErrorCode {
    /// What `to_string` says of the number.
    pub open spec fn spec_text(self) -> Seq<char> {
        "invalid RDoWS error code: 0x"@ + text::hex_padded(self.0 as nat, 4)
    }

    /// Says which number it was.
    pub fn to_string(&self) -> (r: String)
        ensures
            r@ == self.spec_text(),
    {
        let mut r = "invalid RDoWS error code: 0x".to_owned();
        push_hex(&mut r, self.0 as u64, 4);
        r
    }
}

/// Library-level errors for RDoWS operations.
#[allow(inconsistent_fields)]
#[derive(Debug)]
pub enum RdowsError {
    InvalidVersion(u8),
    InvalidOpcode(u8),
    PayloadTooShort { expected: usize, got: usize },
    HeaderTooShort(usize),
    Protocol(ErrorCode),
    ConnectionRejected(String),
    SessionNotReady,
    SessionClosed,
    SendCreditsExhausted,
    UnexpectedMessage { expected: &'static str, got: Opcode },
    WebSocket(String),
    Tls(String),
    Io(std::io::Error),
}

impl From<std::io::Error> for RdowsError {
    fn from(e: std::io::Error) -> (r: RdowsError) {
        RdowsError::Io(e)
    }
}

impl FromSpecImpl<std::io::Error> for RdowsError {
    open spec fn obeys_from_spec() -> bool {
        true
    }

    open spec fn from_spec(e: std::io::Error) -> RdowsError {
        RdowsError::Io(e)
    }
}

/// `ToString::to_string` of a `std::io::Error`. Nothing is claimed of the text:
/// where the error came from the operating system, so does its wording.
#[verifier::external_body]
fn io_error_text(e: &std::io::Error) -> (r: String) {
    e.to_string()
}

impl RdowsError {
    /// What the error says, where `wording` is what an error of the operating
    /// system says of itself.
    pub open spec fn spec_text(self, wording: Seq<char>) -> Seq<char> {
        match self {
            RdowsError::InvalidVersion(v) => {
                "invalid protocol version: 0x"@ + text::hex_padded(v as nat, 2)
            },
            RdowsError::InvalidOpcode(op) => {
                "invalid opcode: 0x"@ + text::hex_padded(op as nat, 2)
            },
            RdowsError::PayloadTooShort { expected, got } => {
                "payload too short: expected at least "@ + text::decimal(expected as nat)
                    + " bytes, got "@ + text::decimal(got as nat)
            },
            RdowsError::HeaderTooShort(got) => {
                "header too short: need 24 bytes, got "@ + text::decimal(got as nat)
            },
            RdowsError::Protocol(code) => "protocol error: "@ + code.spec_text(),
            RdowsError::ConnectionRejected(why) => "connection rejected: "@ + why@,
            RdowsError::SessionNotReady => "session not ready"@,
            RdowsError::SessionClosed => "session closed"@,
            RdowsError::SendCreditsExhausted => "send credits exhausted"@,
            RdowsError::UnexpectedMessage { expected, got } => "unexpected message: expected "@
                + expected@ + ", got "@ + got.spec_name(),
            RdowsError::WebSocket(why) => "websocket error: "@ + why@,
            RdowsError::Tls(why) => "tls error: "@ + why@,
            RdowsError::Io(_) => "io error: "@ + wording,
        }
    }

    /// Says in words what went wrong. What an error of the operating system says
    /// of itself comes from the operating system.
    pub fn to_string(&self) -> (r: String)
        ensures
            exists|wording: Seq<char>| r@ == #[trigger] self.spec_text(wording),
            self !is Io ==> r@ == self.spec_text(Seq::empty()),
    {
        let wording = self.io_wording();
        let r = self.to_string_with(wording.as_str());
        assert(r@ == self.spec_text(wording@));
        r
    }

    /// What the wrapped error of the operating system says of itself, if there
    /// is one.
    pub(crate) fn io_wording(&self) -> (r: String)
        ensures
            self !is Io ==> r@.len() == 0,
    {
        match self {
            RdowsError::Io(e) => io_error_text(e),
            _ => {
                let r = String::new();
                assert(r@ =~= Seq::<char>::empty());
                r
            },
        }
    }

    /// `to_string` with what an error of the operating system says of itself.
    pub fn to_string_with(&self, wording: &str) -> (r: String)
        ensures
            r@ == self.spec_text(wording@),
    {
        let mut r = String::new();
        match self {
            RdowsError::InvalidVersion(v) => {
                r.append("invalid protocol version: 0x");
                push_hex(&mut r, *v as u64, 2);
            },
            RdowsError::InvalidOpcode(op) => {
                r.append("invalid opcode: 0x");
                push_hex(&mut r, *op as u64, 2);
            },
            RdowsError::PayloadTooShort { expected, got } => {
                r.append("payload too short: expected at least ");
                push_decimal(&mut r, *expected as u64);
                r.append(" bytes, got ");
                push_decimal(&mut r, *got as u64);
            },
            RdowsError::HeaderTooShort(got) => {
                r.append("header too short: need 24 bytes, got ");
                push_decimal(&mut r, *got as u64);
            },
            RdowsError::Protocol(code) => {
                r.append("protocol error: ");
                r.append(code.to_string().as_str());
            },
            RdowsError::ConnectionRejected(why) => {
                r.append("connection rejected: ");
                r.append(why.as_str());
            },
            RdowsError::SessionNotReady => {
                r.append("session not ready");
            },
            RdowsError::SessionClosed => {
                r.append("session closed");
            },
            RdowsError::SendCreditsExhausted => {
                r.append("send credits exhausted");
            },
            RdowsError::UnexpectedMessage { expected, got } => {
                r.append("unexpected message: expected ");
                r.append(expected);
                r.append(", got ");
                r.append(got.name());
            },
            RdowsError::WebSocket(why) => {
                r.append("websocket error: ");
                r.append(why.as_str());
            },
            RdowsError::Tls(why) => {
                r.append("tls error: ");
                r.append(why.as_str());
            },
            RdowsError::Io(_) => {
                r.append("io error: ");
                r.append(wording);
            },
        }
        proof {
            assert(r@ =~= self.spec_text(wording@));
        }
        r
    }
}

/// Every code has its number on the wire and its name in the protocol.
pub proof fn law_code_numbers_and_names(code: ErrorCode)
    ensures
        code is Success ==> code_value(code) == 0 && code.spec_text() == "SUCCESS"@,
        code is ErrProtoVersion ==> code_value(code) == 1
            && code.spec_text() == "ERR_PROTO_VERSION"@,
        code is ErrUnknownOpcode ==> code_value(code) == 2
            && code.spec_text() == "ERR_UNKNOWN_OPCODE"@,
        code is ErrInvalidPd ==> code_value(code) == 3 && code.spec_text() == "ERR_INVALID_PD"@,
        code is ErrInvalidLkey ==> code_value(code) == 4 && code.spec_text() == "ERR_INVALID_LKEY"@,
        code is ErrInvalidMkey ==> code_value(code) == 5 && code.spec_text() == "ERR_INVALID_MKEY"@,
        code is ErrAccessDenied ==> code_value(code) == 6
            && code.spec_text() == "ERR_ACCESS_DENIED"@,
        code is ErrBounds ==> code_value(code) == 7 && code.spec_text() == "ERR_BOUNDS"@,
        code is ErrAlignment ==> code_value(code) == 8 && code.spec_text() == "ERR_ALIGNMENT"@,
        code is ErrPayloadSize ==> code_value(code) == 9 && code.spec_text() == "ERR_PAYLOAD_SIZE"@,
        code is ErrRnr ==> code_value(code) == 16 && code.spec_text() == "ERR_RNR"@,
        code is ErrCqOverflow ==> code_value(code) == 32 && code.spec_text() == "ERR_CQ_OVERFLOW"@,
        code is ErrSeqGap ==> code_value(code) == 48 && code.spec_text() == "ERR_SEQ_GAP"@,
        code is ErrTimeout ==> code_value(code) == 64 && code.spec_text() == "ERR_TIMEOUT"@,
        code is ErrInternal ==> code_value(code) == 0xFFFF && code.spec_text() == "ERR_INTERNAL"@,
{
}

/// A status is the number of the error it reports, or reports an internal error
/// where it is the number of none.
pub proof fn law_status_reports_its_code(status: u16)
    ensures
        code_value(code_or_internal(status)) == status || code_or_internal(status) is ErrInternal
            && forall|c: ErrorCode| #[trigger] code_value(c) != status,
{
    law_value_round_trip(status);
}

/// An error says what went wrong, and with what.
pub proof fn law_error_texts(e: RdowsError, wording: Seq<char>)
    ensures
        ({
            let said = e.spec_text(wording);
            match e {
                RdowsError::InvalidVersion(v) => said == "invalid protocol version: 0x"@
                    + text::hex_padded(v as nat, 2),
                RdowsError::InvalidOpcode(op) => said == "invalid opcode: 0x"@
                    + text::hex_padded(op as nat, 2),
                RdowsError::PayloadTooShort { expected, got } => said
                    == "payload too short: expected at least "@ + text::decimal(expected as nat)
                    + " bytes, got "@ + text::decimal(got as nat),
                RdowsError::HeaderTooShort(got) => said == "header too short: need 24 bytes, got "@
                    + text::decimal(got as nat),
                RdowsError::Protocol(code) => said == "protocol error: "@ + code.spec_text(),
                RdowsError::ConnectionRejected(why) => said == "connection rejected: "@ + why@,
                RdowsError::SessionNotReady => said == "session not ready"@,
                RdowsError::SessionClosed => said == "session closed"@,
                RdowsError::SendCreditsExhausted => said == "send credits exhausted"@,
                RdowsError::UnexpectedMessage { expected, got } => said
                    == "unexpected message: expected "@ + expected@ + ", got "@ + got.spec_name(),
                RdowsError::WebSocket(why) => said == "websocket error: "@ + why@,
                RdowsError::Tls(why) => said == "tls error: "@ + why@,
                RdowsError::Io(_) => said == "io error: "@ + wording,
            }
        }),
{
}

/// A number that is no code is named in hexadecimal.
pub proof fn law_invalid_code_text(e: InvalidErrorCode)
    ensures
        e.spec_text() == "invalid RDoWS error code: 0x"@ + text::hex_padded(e.0 as nat, 4),
{
}

/// `to_string_with` and the `to_string` of a code say what the error is called, and
/// `status_code` gives the code that a status is the number of.
pub proof fn law_error_calls(
    e: &RdowsError,
    wording: &str,
    said: String,
    code: &ErrorCode,
    name: String,
    status: u16,
    reported: ErrorCode,
)
    requires
        call_ensures(RdowsError::to_string_with, (e, wording), said),
        call_ensures(ErrorCode::to_string, (code,), name),
        call_ensures(status_code, (status,), reported),
    ensures
        said@ == e.spec_text(wording@),
        name@ == code.spec_text(),
        code_value(reported) == status || reported is ErrInternal && forall|c: ErrorCode|
            #[trigger] code_value(c) != status,
{
    law_status_reports_its_code(status);
}

} // verus!
