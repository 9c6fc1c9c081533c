//! Message types, return codes and protocol constants.
use vstd::prelude::*;

verus! {

/// SOME/IP protocol version (always 0x01).
pub const PROTOCOL_VERSION: u8 = 0x01;

/// SOME/IP message types.
#[derive(Debug, Clone, Copy, PartialEq, Eq, Hash, Structural)]
pub enum MessageType {
    /// Request expecting a response.
    Request,
    /// Request not expecting a response (fire-and-forget).
    RequestNoReturn,
    /// Cyclic or event-based notification.
    Notification,
    /// Response to a request.
    Response,
    /// Error response to a request.
    Error,
    /// Segmented request.
    TpRequest,
    /// Segmented request not expecting a response.
    TpRequestNoReturn,
    /// Segmented notification.
    TpNotification,
    /// Segmented response.
    TpResponse,
    /// Segmented error.
    TpError,
}

impl MessageType {
    /// The wire byte of this message type.
    pub open spec fn code(self) -> u8 {
        match self {
            MessageType::Request => 0x00,
            MessageType::RequestNoReturn => 0x01,
            MessageType::Notification => 0x02,
            MessageType::Response => 0x80,
            MessageType::Error => 0x81,
            MessageType::TpRequest => 0x20,
            MessageType::TpRequestNoReturn => 0x21,
            MessageType::TpNotification => 0x22,
            MessageType::TpResponse => 0xA0,
            MessageType::TpError => 0xA1,
        }
    }

    /// The message type whose wire byte is `b`, if any.
    pub open spec fn spec_from_code(b: u8) -> Option<MessageType> {
        if b == 0x00 {
            Some(MessageType::Request)
        } else if b == 0x01 {
            Some(MessageType::RequestNoReturn)
        } else if b == 0x02 {
            Some(MessageType::Notification)
        } else if b == 0x80 {
            Some(MessageType::Response)
        } else if b == 0x81 {
            Some(MessageType::Error)
        } else if b == 0x20 {
            Some(MessageType::TpRequest)
        } else if b == 0x21 {
            Some(MessageType::TpRequestNoReturn)
        } else if b == 0x22 {
            Some(MessageType::TpNotification)
        } else if b == 0xA0 {
            Some(MessageType::TpResponse)
        } else if b == 0xA1 {
            Some(MessageType::TpError)
        } else {
            None
        }
    }

    pub open spec fn spec_is_tp(self) -> bool {
        match self {
            MessageType::TpRequest | MessageType::TpRequestNoReturn | MessageType::TpNotification
            | MessageType::TpResponse | MessageType::TpError => true,
            _ => false,
        }
    }

    pub open spec fn spec_expects_response(self) -> bool {
        self == MessageType::Request || self == MessageType::TpRequest
    }

    pub open spec fn spec_is_response(self) -> bool {
        match self {
            MessageType::Response | MessageType::Error | MessageType::TpResponse
            | MessageType::TpError => true,
            _ => false,
        }
    }

    /// The segmented counterpart of this type (a segmented type maps to itself).
    pub open spec fn spec_to_tp(self) -> MessageType {
        match self {
            MessageType::Request => MessageType::TpRequest,
            MessageType::RequestNoReturn => MessageType::TpRequestNoReturn,
            MessageType::Notification => MessageType::TpNotification,
            MessageType::Response => MessageType::TpResponse,
            MessageType::Error => MessageType::TpError,
            _ => self,
        }
    }

    /// The unsegmented counterpart of this type (an unsegmented type maps to itself).
    pub open spec fn spec_to_base(self) -> MessageType {
        match self {
            MessageType::TpRequest => MessageType::Request,
            MessageType::TpRequestNoReturn => MessageType::RequestNoReturn,
            MessageType::TpNotification => MessageType::Notification,
            MessageType::TpResponse => MessageType::Response,
            MessageType::TpError => MessageType::Error,
            _ => self,
        }
    }

    /// Decode a message type from its wire byte.
    pub fn from_u8(value: u8) -> (r: Option<MessageType>)
        ensures
            r == Self::spec_from_code(value),
    {
        match value {
            0x00 => Some(MessageType::Request),
            0x01 => Some(MessageType::RequestNoReturn),
            0x02 => Some(MessageType::Notification),
            0x80 => Some(MessageType::Response),
            0x81 => Some(MessageType::Error),
            0x20 => Some(MessageType::TpRequest),
            0x21 => Some(MessageType::TpRequestNoReturn),
            0x22 => Some(MessageType::TpNotification),
            0xA0 => Some(MessageType::TpResponse),
            0xA1 => Some(MessageType::TpError),
            _ => None,
        }
    }

    /// The wire byte of this message type.
    pub fn to_u8(&self) -> (r: u8)
        ensures
            r == self.code(),
    {
        match self {
            MessageType::Request => 0x00,
            MessageType::RequestNoReturn => 0x01,
            MessageType::Notification => 0x02,
            MessageType::Response => 0x80,
            MessageType::Error => 0x81,
            MessageType::TpRequest => 0x20,
            MessageType::TpRequestNoReturn => 0x21,
            MessageType::TpNotification => 0x22,
            MessageType::TpResponse => 0xA0,
            MessageType::TpError => 0xA1,
        }
    }

    /// Whether this message type expects a response.
    pub fn expects_response(&self) -> (r: bool)
        ensures
            r == self.spec_expects_response(),
    {
        match self {
            MessageType::Request | MessageType::TpRequest => true,
            _ => false,
        }
    }

    /// Whether this is a response message type.
    pub fn is_response(&self) -> (r: bool)
        ensures
            r == self.spec_is_response(),
    {
        match self {
            MessageType::Response | MessageType::Error | MessageType::TpResponse
            | MessageType::TpError => true,
            _ => false,
        }
    }

    /// Whether this is a segmented message type.
    pub fn is_tp(&self) -> (r: bool)
        ensures
            r == self.spec_is_tp(),
    {
        match self {
            MessageType::TpRequest | MessageType::TpRequestNoReturn | MessageType::TpNotification
            | MessageType::TpResponse | MessageType::TpError => true,
            _ => false,
        }
    }

    /// The segmented counterpart of this type.
    pub fn to_tp(&self) -> (r: MessageType)
        ensures
            r == self.spec_to_tp(),
            r.spec_is_tp(),
            r.spec_to_base() == self.spec_to_base(),
    {
        match self {
            MessageType::Request => MessageType::TpRequest,
            MessageType::RequestNoReturn => MessageType::TpRequestNoReturn,
            MessageType::Notification => MessageType::TpNotification,
            MessageType::Response => MessageType::TpResponse,
            MessageType::Error => MessageType::TpError,
            _ => *self,
        }
    }

    /// The unsegmented counterpart of this type.
    pub fn to_base(&self) -> (r: MessageType)
        ensures
            r == self.spec_to_base(),
            !r.spec_is_tp(),
    {
        match self {
            MessageType::TpRequest => MessageType::Request,
            MessageType::TpRequestNoReturn => MessageType::RequestNoReturn,
            MessageType::TpNotification => MessageType::Notification,
            MessageType::TpResponse => MessageType::Response,
            MessageType::TpError => MessageType::Error,
            _ => *self,
        }
    }
}

/// Every message type is decoded from its own wire byte.
pub proof fn lemma_message_type_code_round_trip(t: MessageType)
    ensures
        MessageType::spec_from_code(t.code()) == Some(t),
{
}

/// SOME/IP return codes.
#[derive(Debug, Clone, Copy, PartialEq, Eq, Hash, Structural)]
pub enum ReturnCode {
    /// No error occurred.
    Success,
    /// An unspecified error occurred.
    NotOk,
    /// The requested service is unknown.
    UnknownService,
    /// The requested method is unknown.
    UnknownMethod,
    /// Service is not ready.
    NotReady,
    /// Service is not reachable.
    NotReachable,
    /// Timeout occurred.
    Timeout,
    /// Wrong protocol version.
    WrongProtocolVersion,
    /// Wrong interface version.
    WrongInterfaceVersion,
    /// Malformed message.
    MalformedMessage,
    /// Wrong message type.
    WrongMessageType,
    /// E2E repeated.
    E2ERepeated,
    /// E2E wrong sequence.
    E2EWrongSequence,
    /// E2E error (not further specified).
    E2E,
    /// E2E not available.
    E2ENotAvailable,
    /// E2E no new data.
    E2ENoNewData,
}

impl ReturnCode {
    /// The wire byte of this return code.
    pub open spec fn code(self) -> u8 {
        match self {
            ReturnCode::Success => 0x00,
            ReturnCode::NotOk => 0x01,
            ReturnCode::UnknownService => 0x02,
            ReturnCode::UnknownMethod => 0x03,
            ReturnCode::NotReady => 0x04,
            ReturnCode::NotReachable => 0x05,
            ReturnCode::Timeout => 0x06,
            ReturnCode::WrongProtocolVersion => 0x07,
            ReturnCode::WrongInterfaceVersion => 0x08,
            ReturnCode::MalformedMessage => 0x09,
            ReturnCode::WrongMessageType => 0x0A,
            ReturnCode::E2ERepeated => 0x0B,
            ReturnCode::E2EWrongSequence => 0x0C,
            ReturnCode::E2E => 0x0D,
            ReturnCode::E2ENotAvailable => 0x0E,
            ReturnCode::E2ENoNewData => 0x0F,
        }
    }

    /// The return code whose wire byte is `b`, if any (exactly the bytes up to 0x0F).
    pub open spec fn spec_from_code(b: u8) -> Option<ReturnCode> {
        if b == 0x00 {
            Some(ReturnCode::Success)
        } else if b == 0x01 {
            Some(ReturnCode::NotOk)
        } else if b == 0x02 {
            Some(ReturnCode::UnknownService)
        } else if b == 0x03 {
            Some(ReturnCode::UnknownMethod)
        } else if b == 0x04 {
            Some(ReturnCode::NotReady)
        } else if b == 0x05 {
            Some(ReturnCode::NotReachable)
        } else if b == 0x06 {
            Some(ReturnCode::Timeout)
        } else if b == 0x07 {
            Some(ReturnCode::WrongProtocolVersion)
        } else if b == 0x08 {
            Some(ReturnCode::WrongInterfaceVersion)
        } else if b == 0x09 {
            Some(ReturnCode::MalformedMessage)
        } else if b == 0x0A {
            Some(ReturnCode::WrongMessageType)
        } else if b == 0x0B {
            Some(ReturnCode::E2ERepeated)
        } else if b == 0x0C {
            Some(ReturnCode::E2EWrongSequence)
        } else if b == 0x0D {
            Some(ReturnCode::E2E)
        } else if b == 0x0E {
            Some(ReturnCode::E2ENotAvailable)
        } else if b == 0x0F {
            Some(ReturnCode::E2ENoNewData)
        } else {
            None
        }
    }

    /// Decode a return code from its wire byte.
    pub fn from_u8(value: u8) -> (r: Option<ReturnCode>)
        ensures
            r == Self::spec_from_code(value),
    {
        match value {
            0x00 => Some(ReturnCode::Success),
            0x01 => Some(ReturnCode::NotOk),
            0x02 => Some(ReturnCode::UnknownService),
            0x03 => Some(ReturnCode::UnknownMethod),
            0x04 => Some(ReturnCode::NotReady),
            0x05 => Some(ReturnCode::NotReachable),
            0x06 => Some(ReturnCode::Timeout),
            0x07 => Some(ReturnCode::WrongProtocolVersion),
            0x08 => Some(ReturnCode::WrongInterfaceVersion),
            0x09 => Some(ReturnCode::MalformedMessage),
            0x0A => Some(ReturnCode::WrongMessageType),
            0x0B => Some(ReturnCode::E2ERepeated),
            0x0C => Some(ReturnCode::E2EWrongSequence),
            0x0D => Some(ReturnCode::E2E),
            0x0E => Some(ReturnCode::E2ENotAvailable),
            0x0F => Some(ReturnCode::E2ENoNewData),
            _ => None,
        }
    }

    /// The wire byte of this return code.
    pub fn to_u8(&self) -> (r: u8)
        ensures
            r == self.code(),
    {
        match self {
            ReturnCode::Success => 0x00,
            ReturnCode::NotOk => 0x01,
            ReturnCode::UnknownService => 0x02,
            ReturnCode::UnknownMethod => 0x03,
            ReturnCode::NotReady => 0x04,
            ReturnCode::NotReachable => 0x05,
            ReturnCode::Timeout => 0x06,
            ReturnCode::WrongProtocolVersion => 0x07,
            ReturnCode::WrongInterfaceVersion => 0x08,
            ReturnCode::MalformedMessage => 0x09,
            ReturnCode::WrongMessageType => 0x0A,
            ReturnCode::E2ERepeated => 0x0B,
            ReturnCode::E2EWrongSequence => 0x0C,
            ReturnCode::E2E => 0x0D,
            ReturnCode::E2ENotAvailable => 0x0E,
            ReturnCode::E2ENoNewData => 0x0F,
        }
    }

    /// Whether this return code indicates success.
    pub fn is_ok(&self) -> (r: bool)
        ensures
            r == (*self == ReturnCode::Success),
    {
        *self == ReturnCode::Success
    }

    /// Whether this return code indicates an error.
    pub fn is_error(&self) -> (r: bool)
        ensures
            r == (*self != ReturnCode::Success),
    {
        *self != ReturnCode::Success
    }
}

impl Default for ReturnCode {
    fn default() -> (r: ReturnCode)
        ensures
            r == ReturnCode::Success,
    {
        ReturnCode::Success
    }
}

/// Every return code is decoded from its own wire byte.
pub proof fn lemma_return_code_round_trip(c: ReturnCode)
    ensures
        ReturnCode::spec_from_code(c.code()) == Some(c),
{
}

} // verus!
