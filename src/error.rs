//! Error values of SOME/IP operations.
use vstd::prelude::*;
use crate::text::{decimal, hex, into_string, push_decimal, push_hex, push_str};
use crate::types::ReturnCode;
use vstd::utf8::{decode_utf8, encode_utf8};

verus! {

/// The kind of a transport fault, as reported by the operating system.
#[derive(Debug, Clone, Copy, PartialEq, Eq, Hash, Structural)]
pub enum IoErrorKind {
    NotFound,
    PermissionDenied,
    ConnectionRefused,
    ConnectionReset,
    ConnectionAborted,
    NotConnected,
    AddrInUse,
    AddrNotAvailable,
    BrokenPipe,
    AlreadyExists,
    WouldBlock,
    InvalidInput,
    InvalidData,
    TimedOut,
    WriteZero,
    Interrupted,
    UnexpectedEof,
    Other,
}

/// A transport fault: its kind and a description.
#[derive(Debug, Clone, PartialEq, Eq)]
pub struct IoError {
    pub kind: IoErrorKind,
    pub detail: String,
}

impl IoError {
    /// Create a transport fault of the given kind.
    pub fn new(kind: IoErrorKind, detail: &str) -> (r: IoError)
        ensures
            r.kind == kind,
            r.detail@ == detail@,
    {
        IoError { kind, detail: detail.to_owned() }
    }

    /// The kind of this fault.
    pub fn kind(&self) -> (r: IoErrorKind)
        ensures
            r == self.kind,
    {
        self.kind
    }
}

/// Errors that can occur during SOME/IP operations.
#[derive(Debug, Clone, PartialEq, Eq)]
pub enum SomeIpError {
    /// Transport fault.
    Io(IoError),
    /// Logical decode failure.
    InvalidHeader(String),
    /// Unknown message type byte.
    UnknownMessageType(u8),
    /// Unknown return code byte.
    UnknownReturnCode(u8),
    /// Protocol version byte other than 0x01.
    WrongProtocolVersion(u8),
    /// Buffer shorter than required.
    MessageTooShort { expected: usize, actual: usize },
    /// Length field inconsistent with the buffer.
    LengthMismatch { header_length: u32, actual_length: usize },
    /// Payload larger than allowed.
    PayloadTooLarge { size: usize, max: usize },
    /// Error response returned by the remote side.
    ProtocolError(ReturnCode),
    /// Connection closed unexpectedly.
    ConnectionClosed,
    /// Operation timed out.
    Timeout,
    /// No response received for a request.
    NoResponse { client_id: u16, session_id: u16 },
}

/// Result type of SOME/IP operations.
pub type Result<T> = core::result::Result<T, SomeIpError>;

impl SomeIpError {
    /// Whether an error is transient: a transport fault of kind `WouldBlock`,
    /// `TimedOut` or `Interrupted`, or a timeout.
    pub open spec fn spec_is_recoverable(&self) -> bool {
        match self {
            SomeIpError::Io(e) => e.kind == IoErrorKind::WouldBlock || e.kind
                == IoErrorKind::TimedOut || e.kind == IoErrorKind::Interrupted,
            SomeIpError::Timeout => true,
            _ => false,
        }
    }

    /// Create an invalid-header error.
    pub fn invalid_header(msg: &str) -> (r: SomeIpError)
        ensures
            r matches SomeIpError::InvalidHeader(s) && s@ == msg@,
    {
        SomeIpError::InvalidHeader(msg.to_owned())
    }

    /// Whether this error is transient.
    pub fn is_recoverable(&self) -> (r: bool)
        ensures
            r == self.spec_is_recoverable(),
    {
        match self {
            SomeIpError::Io(e) => {
                let k = e.kind;
                k == IoErrorKind::WouldBlock || k == IoErrorKind::TimedOut || k
                    == IoErrorKind::Interrupted
            },
            SomeIpError::Timeout => true,
            _ => false,
        }
    }
}

impl From<IoError> for SomeIpError {
    fn from(e: IoError) -> (r: SomeIpError)
        ensures
            r == SomeIpError::Io(e),
    {
        SomeIpError::Io(e)
    }
}

impl vstd::std_specs::convert::FromSpecImpl<IoError> for SomeIpError {
    open spec fn obeys_from_spec() -> bool {
        true
    }

    open spec fn from_spec(v: IoError) -> SomeIpError {
        SomeIpError::Io(v)
    }
}


/// The UTF-8 bytes of a string literal.
pub open spec fn lit(s: &str) -> Seq<u8> {
    encode_utf8(s@)
}

/// The name of a return code in messages.
pub open spec fn code_name(c: ReturnCode) -> Seq<u8> {
    match c {
        ReturnCode::Success => lit("Ok"),
        ReturnCode::NotOk => lit("NotOk"),
        ReturnCode::UnknownService => lit("UnknownService"),
        ReturnCode::UnknownMethod => lit("UnknownMethod"),
        ReturnCode::NotReady => lit("NotReady"),
        ReturnCode::NotReachable => lit("NotReachable"),
        ReturnCode::Timeout => lit("Timeout"),
        ReturnCode::WrongProtocolVersion => lit("WrongProtocolVersion"),
        ReturnCode::WrongInterfaceVersion => lit("WrongInterfaceVersion"),
        ReturnCode::MalformedMessage => lit("MalformedMessage"),
        ReturnCode::WrongMessageType => lit("WrongMessageType"),
        ReturnCode::E2ERepeated => lit("E2ERepeated"),
        ReturnCode::E2EWrongSequence => lit("E2EWrongSequence"),
        ReturnCode::E2E => lit("E2E"),
        ReturnCode::E2ENotAvailable => lit("E2ENotAvailable"),
        ReturnCode::E2ENoNewData => lit("E2ENoNewData"),
    }
}

/// The UTF-8 bytes of the message describing an error.
pub open spec fn error_text(e: SomeIpError) -> Seq<u8> {
    match e {
        SomeIpError::Io(x) => lit("I/O error: ") + encode_utf8(x.detail@),
        SomeIpError::InvalidHeader(m) => lit("Invalid header: ") + encode_utf8(m@),
        SomeIpError::UnknownMessageType(b) => lit("Unknown message type: 0x") + hex(b as nat, 2),
        SomeIpError::UnknownReturnCode(b) => lit("Unknown return code: 0x") + hex(b as nat, 2),
        SomeIpError::WrongProtocolVersion(b) => lit("Wrong protocol version: expected 0x01, got 0x") + hex(b as nat, 2),
        SomeIpError::MessageTooShort { expected, actual } => lit("Message too short: expected at least ") + decimal(
            expected as nat,
        ) + lit(" bytes, got ") + decimal(actual as nat),
        SomeIpError::LengthMismatch { header_length, actual_length } => lit("Message length mismatch: header says ")
            + decimal(header_length as nat) + lit(" bytes, got ") + decimal(actual_length as nat),
        SomeIpError::PayloadTooLarge { size, max } => lit("Payload too large: ") + decimal(size as nat) + lit(
            " bytes exceeds maximum of ",
        ) + decimal(max as nat) + lit(" bytes"),
        SomeIpError::ProtocolError(c) => lit("Protocol error: ") + code_name(c),
        SomeIpError::ConnectionClosed => lit("Connection closed"),
        SomeIpError::Timeout => lit("Operation timed out"),
        SomeIpError::NoResponse { client_id, session_id } => lit("No response received for request (client=") + hex(
            client_id as nat,
            4,
        ) + lit(", session=") + hex(session_id as nat, 4) + lit(")"),
    }
}

fn code_name_str(c: ReturnCode) -> (r: &'static str)
    ensures
        encode_utf8(r@) == code_name(c),
{
    match c {
        ReturnCode::Success => "Ok",
        ReturnCode::NotOk => "NotOk",
        ReturnCode::UnknownService => "UnknownService",
        ReturnCode::UnknownMethod => "UnknownMethod",
        ReturnCode::NotReady => "NotReady",
        ReturnCode::NotReachable => "NotReachable",
        ReturnCode::Timeout => "Timeout",
        ReturnCode::WrongProtocolVersion => "WrongProtocolVersion",
        ReturnCode::WrongInterfaceVersion => "WrongInterfaceVersion",
        ReturnCode::MalformedMessage => "MalformedMessage",
        ReturnCode::WrongMessageType => "WrongMessageType",
        ReturnCode::E2ERepeated => "E2ERepeated",
        ReturnCode::E2EWrongSequence => "E2EWrongSequence",
        ReturnCode::E2E => "E2E",
        ReturnCode::E2ENotAvailable => "E2ENotAvailable",
        ReturnCode::E2ENoNewData => "E2ENoNewData",
    }
}

impl SomeIpError {
    /// The message describing this error.
    pub fn to_string(&self) -> (r: String)
        ensures
            r@ == decode_utf8(error_text(*self)),
    {
        let mut buf: Vec<u8> = Vec::new();
        assert(vstd::utf8::valid_utf8(buf@)) by {
            assert(buf@ =~= Seq::<u8>::empty());
        }
        match self {
            SomeIpError::Io(x) => {
                push_str(&mut buf, "I/O error: ");
                push_str(&mut buf, x.detail.as_str());
            },
            SomeIpError::InvalidHeader(m) => {
                push_str(&mut buf, "Invalid header: ");
                push_str(&mut buf, m.as_str());
            },
            SomeIpError::UnknownMessageType(b) => {
                push_str(&mut buf, "Unknown message type: 0x");
                push_hex(&mut buf, *b as u64, 2);
            },
            SomeIpError::UnknownReturnCode(b) => {
                push_str(&mut buf, "Unknown return code: 0x");
                push_hex(&mut buf, *b as u64, 2);
            },
            SomeIpError::WrongProtocolVersion(b) => {
                push_str(&mut buf, "Wrong protocol version: expected 0x01, got 0x");
                push_hex(&mut buf, *b as u64, 2);
            },
            SomeIpError::MessageTooShort { expected, actual } => {
                push_str(&mut buf, "Message too short: expected at least ");
                push_decimal(&mut buf, *expected as u64);
                push_str(&mut buf, " bytes, got ");
                push_decimal(&mut buf, *actual as u64);
            },
            SomeIpError::LengthMismatch { header_length, actual_length } => {
                push_str(&mut buf, "Message length mismatch: header says ");
                push_decimal(&mut buf, *header_length as u64);
                push_str(&mut buf, " bytes, got ");
                push_decimal(&mut buf, *actual_length as u64);
            },
            SomeIpError::PayloadTooLarge { size, max } => {
                push_str(&mut buf, "Payload too large: ");
                push_decimal(&mut buf, *size as u64);
                push_str(&mut buf, " bytes exceeds maximum of ");
                push_decimal(&mut buf, *max as u64);
                push_str(&mut buf, " bytes");
            },
            SomeIpError::ProtocolError(c) => {
                push_str(&mut buf, "Protocol error: ");
                push_str(&mut buf, code_name_str(*c));
            },
            SomeIpError::ConnectionClosed => {
                push_str(&mut buf, "Connection closed");
            },
            SomeIpError::Timeout => {
                push_str(&mut buf, "Operation timed out");
            },
            SomeIpError::NoResponse { client_id, session_id } => {
                push_str(&mut buf, "No response received for request (client=");
                push_hex(&mut buf, *client_id as u64, 4);
                push_str(&mut buf, ", session=");
                push_hex(&mut buf, *session_id as u64, 4);
                push_str(&mut buf, ")");
            },
        }
        assert(buf@ =~= error_text(*self));
        into_string(buf)
    }
}

} // verus!
