//! A complete SOME/IP message (header and payload) and its builder.
use vstd::prelude::*;
use crate::error::{Result, SomeIpError};
use crate::header::{ClientId, MethodId, ServiceId, SessionId, SomeIpHeader, HEADER_SIZE};
use crate::types::{MessageType, ReturnCode, PROTOCOL_VERSION};

verus! {

/// Default largest payload of one datagram.
pub const DEFAULT_MAX_PAYLOAD_SIZE: usize = 1400;

/// A complete SOME/IP message.
#[derive(Debug, Clone, PartialEq, Eq)]
pub struct SomeIpMessage {
    /// Message header.
    pub header: SomeIpHeader,
    /// Message payload.
    pub payload: Vec<u8>,
}

impl View for SomeIpMessage {
    type V = (SomeIpHeader, Seq<u8>);

    open spec fn view(&self) -> (SomeIpHeader, Seq<u8>) {
        (self.header, self.payload@)
    }
}

/// A message is valid when its header is valid and its length field equals
/// `8 + payload length`.
pub open spec fn valid_message(m: (SomeIpHeader, Seq<u8>)) -> bool {
    &&& m.0.valid()
    &&& m.0.length as int == 8 + m.1.len()
}

/// The wire bytes of a message: header, then payload.
pub open spec fn message_bytes(m: (SomeIpHeader, Seq<u8>)) -> Seq<u8> {
    m.0.spec_bytes() + m.1
}

/// The outcome of decoding a message from `b`.
pub open spec fn parse_message(b: Seq<u8>) -> Result<(SomeIpHeader, Seq<u8>)> {
    match SomeIpHeader::parse(b) {
        Err(e) => Err(e),
        Ok(h) => if b.len() < HEADER_SIZE + h.spec_payload_length() {
            Err(SomeIpError::LengthMismatch { header_length: h.length, actual_length: (b.len() - 8) as usize })
        } else {
            Ok((h, b.subrange(HEADER_SIZE as int, HEADER_SIZE + h.spec_payload_length())))
        },
    }
}

/// A decoded message, seen through its view.
pub open spec fn message_result_view(r: Result<SomeIpMessage>) -> Result<(SomeIpHeader, Seq<u8>)> {
    match r {
        Ok(m) => Ok(m@),
        Err(e) => Err(e),
    }
}

impl SomeIpMessage {
    /// Pair `header` with `payload`, setting the length field from the payload.
    pub fn new(header: SomeIpHeader, payload: Vec<u8>) -> (r: SomeIpMessage)
        requires
            payload@.len() + 8 <= u32::MAX,
        ensures
            r.header == (SomeIpHeader { length: (payload@.len() + 8) as u32, ..header }),
            r.payload@ == payload@,
    {
        let mut header = header;
        header.set_payload_length(payload.len() as u32);
        SomeIpMessage { header, payload }
    }

    /// A message with an empty payload.
    pub fn with_header(header: SomeIpHeader) -> (r: SomeIpMessage)
        ensures
            r.header == (SomeIpHeader { length: 8, ..header }),
            r.payload@.len() == 0,
    {
        Self::new(header, Vec::new())
    }

    /// A request message builder.
    pub fn request(service_id: ServiceId, method_id: MethodId) -> (r: MessageBuilder)
        ensures
            r.is_fresh(service_id, method_id, MessageType::Request),
    {
        MessageBuilder::new(service_id, method_id, MessageType::Request)
    }

    /// A request-no-return message builder.
    pub fn request_no_return(service_id: ServiceId, method_id: MethodId) -> (r: MessageBuilder)
        ensures
            r.is_fresh(service_id, method_id, MessageType::RequestNoReturn),
    {
        MessageBuilder::new(service_id, method_id, MessageType::RequestNoReturn)
    }

    /// A notification message builder.
    pub fn notification(service_id: ServiceId, method_id: MethodId) -> (r: MessageBuilder)
        ensures
            r.is_fresh(service_id, method_id, MessageType::Notification),
    {
        MessageBuilder::new(service_id, method_id, MessageType::Notification)
    }

    /// A builder for the response to this message: same service, method,
    /// client, session and interface version; type `Response`.
    pub fn create_response(&self) -> (r: MessageBuilder)
        ensures
            r.service_id == self.header.service_id,
            r.method_id == self.header.method_id,
            r.client_id == self.header.client_id,
            r.session_id == self.header.session_id,
            r.interface_version == self.header.interface_version,
            r.message_type == MessageType::Response,
            r.return_code == ReturnCode::Success,
            r.payload@.len() == 0,
    {
        let mut builder = MessageBuilder::new(
            self.header.service_id,
            self.header.method_id,
            MessageType::Response,
        );
        builder.client_id = self.header.client_id;
        builder.session_id = self.header.session_id;
        builder.interface_version = self.header.interface_version;
        builder
    }

    /// A builder for an error response to this message with `return_code`.
    pub fn create_error_response(&self, return_code: ReturnCode) -> (r: MessageBuilder)
        ensures
            r.service_id == self.header.service_id,
            r.method_id == self.header.method_id,
            r.client_id == self.header.client_id,
            r.session_id == self.header.session_id,
            r.interface_version == self.header.interface_version,
            r.message_type == MessageType::Error,
            r.return_code == return_code,
            r.payload@.len() == 0,
    {
        let mut builder = MessageBuilder::new(
            self.header.service_id,
            self.header.method_id,
            MessageType::Error,
        );
        builder.client_id = self.header.client_id;
        builder.session_id = self.header.session_id;
        builder.interface_version = self.header.interface_version;
        builder.return_code = return_code;
        builder
    }

    /// Decode a message: the header, then `payload_length` bytes of payload.
    /// Bytes past the payload are ignored.
    pub fn from_bytes(data: &[u8]) -> (r: Result<SomeIpMessage>)
        ensures
            message_result_view(r) == parse_message(data@),
    {
        if data.len() < HEADER_SIZE {
            return Err(SomeIpError::MessageTooShort { expected: HEADER_SIZE, actual: data.len() });
        }
        let header = match SomeIpHeader::from_bytes(data) {
            Ok(h) => h,
            Err(e) => return Err(e),
        };
        let payload_len = header.payload_length() as usize;
        if data.len() - HEADER_SIZE < payload_len {
            return Err(
                SomeIpError::LengthMismatch { header_length: header.length, actual_length: data.len() - 8 },
            );
        }
        let expected_total = HEADER_SIZE + payload_len;
        let payload = vstd::slice::slice_to_vec(vstd::slice::slice_subrange(data, HEADER_SIZE, expected_total));
        Ok(SomeIpMessage { header, payload })
    }

    /// Append the wire bytes of this message to `buf`.
    pub fn write_to(&self, buf: &mut Vec<u8>)
        ensures
            final(buf)@ == old(buf)@ + message_bytes(self@),
    {
        self.header.write_to(buf);
        buf.extend_from_slice(self.payload.as_slice());
        assert(final(buf)@ =~= old(buf)@ + message_bytes(self@));
    }

    /// Encode this message: header, then payload.
    pub fn to_bytes(&self) -> (r: Vec<u8>)
        ensures
            r@ == message_bytes(self@),
    {
        let mut buf: Vec<u8> = Vec::new();
        self.write_to(&mut buf);
        assert(buf@ =~= message_bytes(self@));
        buf
    }

    /// Total size on the wire: 16 + payload length.
    pub fn total_size(&self) -> (r: usize)
        requires
            self.payload@.len() + HEADER_SIZE <= usize::MAX,
        ensures
            r == HEADER_SIZE + self.payload@.len(),
    {
        HEADER_SIZE + self.payload.len()
    }

    /// Whether this message is a (possibly segmented) request.
    pub fn is_request(&self) -> (r: bool)
        ensures
            r == (self.header.message_type == MessageType::Request || self.header.message_type
                == MessageType::TpRequest),
    {
        self.header.message_type == MessageType::Request || self.header.message_type == MessageType::TpRequest
    }

    /// Whether this message is a response.
    pub fn is_response(&self) -> (r: bool)
        ensures
            r == self.header.message_type.spec_is_response(),
    {
        self.header.message_type.is_response()
    }

    /// Whether this message expects a response.
    pub fn expects_response(&self) -> (r: bool)
        ensures
            r == self.header.message_type.spec_expects_response(),
    {
        self.header.message_type.expects_response()
    }

    /// The service ID.
    pub fn service_id(&self) -> (r: ServiceId)
        ensures
            r == self.header.service_id,
    {
        self.header.service_id
    }

    /// The method ID.
    pub fn method_id(&self) -> (r: MethodId)
        ensures
            r == self.header.method_id,
    {
        self.header.method_id
    }

    /// The client ID.
    pub fn client_id(&self) -> (r: ClientId)
        ensures
            r == self.header.client_id,
    {
        self.header.client_id
    }

    /// The session ID.
    pub fn session_id(&self) -> (r: SessionId)
        ensures
            r == self.header.session_id,
    {
        self.header.session_id
    }

    /// The return code.
    pub fn return_code(&self) -> (r: ReturnCode)
        ensures
            r == self.header.return_code,
    {
        self.header.return_code
    }

    /// Whether the return code indicates success.
    pub fn is_ok(&self) -> (r: bool)
        ensures
            r == (self.header.return_code == ReturnCode::Success),
    {
        self.header.return_code.is_ok()
    }
}

/// Message round trip: decoding the encoding of a valid message gives the
/// message back.
pub proof fn lemma_message_round_trip(m: (SomeIpHeader, Seq<u8>))
    requires
        valid_message(m),
    ensures
        parse_message(message_bytes(m)) == Ok::<(SomeIpHeader, Seq<u8>), SomeIpError>(m),
{
    let b = message_bytes(m);
    assert(b.subrange(0, 16) =~= m.0.spec_bytes());
    crate::header::lemma_header_round_trip(m.0, b);
    assert(b.subrange(16, 16 + m.1.len() as int) =~= m.1);
}

/// Builder of SOME/IP messages.
#[derive(Debug, Clone, PartialEq, Eq)]
pub struct MessageBuilder {
    pub service_id: ServiceId,
    pub method_id: MethodId,
    pub client_id: ClientId,
    pub session_id: SessionId,
    pub interface_version: u8,
    pub message_type: MessageType,
    pub return_code: ReturnCode,
    pub payload: Vec<u8>,
}

impl MessageBuilder {
    /// `self` is a fresh builder: client and session 0, interface version 1,
    /// return code `Success` and an empty payload.
    pub open spec fn is_fresh(&self, service_id: ServiceId, method_id: MethodId, message_type: MessageType) -> bool {
        &&& self.service_id == service_id
        &&& self.method_id == method_id
        &&& self.client_id == ClientId(0)
        &&& self.session_id == SessionId(0)
        &&& self.interface_version == 1
        &&& self.message_type == message_type
        &&& self.return_code == ReturnCode::Success
        &&& self.payload@.len() == 0
    }

    /// The header of a built notification with a payload of `len` bytes.
    pub open spec fn notification_header(service_id: ServiceId, method_id: MethodId, len: int) -> SomeIpHeader {
        SomeIpHeader {
            service_id,
            method_id,
            length: (8 + len) as u32,
            client_id: ClientId(0),
            session_id: SessionId(0),
            protocol_version: PROTOCOL_VERSION,
            interface_version: 1,
            message_type: MessageType::Notification,
            return_code: ReturnCode::Success,
        }
    }

    /// The header that `build` stamps.
    pub open spec fn spec_header(&self) -> SomeIpHeader {
        SomeIpHeader {
            service_id: self.service_id,
            method_id: self.method_id,
            length: (8 + self.payload@.len()) as u32,
            client_id: self.client_id,
            session_id: self.session_id,
            protocol_version: PROTOCOL_VERSION,
            interface_version: self.interface_version,
            message_type: self.message_type,
            return_code: self.return_code,
        }
    }

    /// Create a new message builder.
    pub fn new(service_id: ServiceId, method_id: MethodId, message_type: MessageType) -> (r: MessageBuilder)
        ensures
            r.is_fresh(service_id, method_id, message_type),
    {
        MessageBuilder {
            service_id,
            method_id,
            client_id: ClientId(0),
            session_id: SessionId(0),
            interface_version: 1,
            message_type,
            return_code: ReturnCode::Success,
            payload: Vec::new(),
        }
    }

    /// Set the client ID.
    pub fn client_id(self, client_id: ClientId) -> (r: MessageBuilder)
        ensures
            r == (MessageBuilder { client_id, ..self }),
    {
        MessageBuilder { client_id, ..self }
    }

    /// Set the session ID.
    pub fn session_id(self, session_id: SessionId) -> (r: MessageBuilder)
        ensures
            r == (MessageBuilder { session_id, ..self }),
    {
        MessageBuilder { session_id, ..self }
    }

    /// Set the interface version.
    pub fn interface_version(self, version: u8) -> (r: MessageBuilder)
        ensures
            r == (MessageBuilder { interface_version: version, ..self }),
    {
        MessageBuilder { interface_version: version, ..self }
    }

    /// Set the return code.
    pub fn return_code(self, code: ReturnCode) -> (r: MessageBuilder)
        ensures
            r == (MessageBuilder { return_code: code, ..self }),
    {
        MessageBuilder { return_code: code, ..self }
    }

    /// Set the payload.
    pub fn payload(self, payload: Vec<u8>) -> (r: MessageBuilder)
        ensures
            r == (MessageBuilder { payload, ..self }),
    {
        MessageBuilder { payload, ..self }
    }

    /// Set the payload from a vector.
    pub fn payload_vec(self, payload: Vec<u8>) -> (r: MessageBuilder)
        ensures
            r == (MessageBuilder { payload, ..self }),
    {
        MessageBuilder { payload, ..self }
    }

    /// Build the message: protocol version 0x01, length `8 + payload length`.
    pub fn build(self) -> (r: SomeIpMessage)
        requires
            self.payload@.len() + 8 <= u32::MAX,
        ensures
            r.header == self.spec_header(),
            r.payload@ == self.payload@,
            valid_message(r@),
    {
        let header = SomeIpHeader {
            service_id: self.service_id,
            method_id: self.method_id,
            length: 8 + self.payload.len() as u32,
            client_id: self.client_id,
            session_id: self.session_id,
            protocol_version: PROTOCOL_VERSION,
            interface_version: self.interface_version,
            message_type: self.message_type,
            return_code: self.return_code,
        };
        SomeIpMessage { header, payload: self.payload }
    }
}

} // verus!
