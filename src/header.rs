//! The 16-byte SOME/IP header and the identifier newtypes.
use vstd::prelude::*;
use crate::error::{Result, SomeIpError};
use crate::types::{MessageType, ReturnCode, PROTOCOL_VERSION};

verus! {

/// Size of the SOME/IP header in bytes.
pub const HEADER_SIZE: usize = 16;

/// Big-endian bytes of a 16-bit value.
pub open spec fn be_u16_bytes(x: u16) -> Seq<u8> {
    seq![(x / 256) as u8, (x % 256) as u8]
}

/// Big-endian bytes of a 32-bit value.
pub open spec fn be_u32_bytes(x: u32) -> Seq<u8> {
    seq![(x / 0x1000000) as u8, ((x / 0x10000) % 256) as u8, ((x / 256) % 256) as u8, (x % 256) as u8]
}

/// The 16-bit value stored big-endian at `b[i..i + 2]`.
pub open spec fn be_u16_at(b: Seq<u8>, i: int) -> u16 {
    (b[i] as int * 256 + b[i + 1] as int) as u16
}

/// The 32-bit value stored big-endian at `b[i..i + 4]`.
pub open spec fn be_u32_at(b: Seq<u8>, i: int) -> u32 {
    (b[i] as int * 0x1000000 + b[i + 1] as int * 0x10000 + b[i + 2] as int * 256 + b[i + 3] as int) as u32
}

pub proof fn lemma_be_u16(x: u16, s: Seq<u8>, i: int)
    requires
        0 <= i,
        i + 2 <= s.len(),
        s.subrange(i, i + 2) == be_u16_bytes(x),
    ensures
        be_u16_at(s, i) == x,
{
    assert(s[i] == s.subrange(i, i + 2)[0]);
    assert(s[i + 1] == s.subrange(i, i + 2)[1]);
}

pub proof fn lemma_be_u32(x: u32, s: Seq<u8>, i: int)
    requires
        0 <= i,
        i + 4 <= s.len(),
        s.subrange(i, i + 4) == be_u32_bytes(x),
    ensures
        be_u32_at(s, i) == x,
{
    assert(s[i] == s.subrange(i, i + 4)[0]);
    assert(s[i + 1] == s.subrange(i, i + 4)[1]);
    assert(s[i + 2] == s.subrange(i, i + 4)[2]);
    assert(s[i + 3] == s.subrange(i, i + 4)[3]);
}

/// Read a big-endian 16-bit value at `data[i..i + 2]`.
pub fn read_be_u16(data: &[u8], i: usize) -> (r: u16)
    requires
        i + 2 <= data@.len(),
    ensures
        r == be_u16_at(data@, i as int),
{
    (data[i] as u16) * 256 + (data[i + 1] as u16)
}

/// Read a big-endian 32-bit value at `data[i..i + 4]`.
pub fn read_be_u32(data: &[u8], i: usize) -> (r: u32)
    requires
        i + 4 <= data@.len(),
    ensures
        r == be_u32_at(data@, i as int),
{
    (data[i] as u32) * 0x1000000 + (data[i + 1] as u32) * 0x10000 + (data[i + 2] as u32) * 256 + (
    data[i + 3] as u32)
}

/// Append the big-endian bytes of a 16-bit value.
pub fn push_be_u16(buf: &mut Vec<u8>, x: u16)
    ensures
        final(buf)@ == old(buf)@ + be_u16_bytes(x),
{
    buf.push((x / 256) as u8);
    buf.push((x % 256) as u8);
    assert(final(buf)@ =~= old(buf)@ + be_u16_bytes(x));
}

/// Append the big-endian bytes of a 32-bit value.
pub fn push_be_u32(buf: &mut Vec<u8>, x: u32)
    ensures
        final(buf)@ == old(buf)@ + be_u32_bytes(x),
{
    buf.push((x / 0x1000000) as u8);
    buf.push(((x / 0x10000) % 256) as u8);
    buf.push(((x / 256) % 256) as u8);
    buf.push((x % 256) as u8);
    assert(final(buf)@ =~= old(buf)@ + be_u32_bytes(x));
}

/// Service ID: identifies a SOME/IP service.
#[derive(Debug, Clone, Copy, PartialEq, Eq, Hash, Default, Structural)]
pub struct ServiceId(pub u16);

/// Method ID: identifies a method within a service; bit 15 marks an event.
#[derive(Debug, Clone, Copy, PartialEq, Eq, Hash, Default, Structural)]
pub struct MethodId(pub u16);

/// Client ID: identifies the client making a request.
#[derive(Debug, Clone, Copy, PartialEq, Eq, Hash, Default, Structural)]
pub struct ClientId(pub u16);

/// Session ID: distinguishes the requests of one client.
#[derive(Debug, Clone, Copy, PartialEq, Eq, Hash, Default, Structural)]
pub struct SessionId(pub u16);

impl MethodId {
    /// Whether this method ID denotes an event (bit 15 set).
    pub fn is_event(&self) -> (r: bool)
        ensures
            r == (self.0 >= 0x8000),
    {
        self.0 >= 0x8000
    }

    /// The event ID with bit 15 set over `id`.
    pub fn event(id: u16) -> (r: MethodId)
        ensures
            r.0 as int == (if id >= 0x8000 { id as int } else { id + 0x8000 }),
    {
        if id >= 0x8000 {
            MethodId(id)
        } else {
            MethodId(id + 0x8000)
        }
    }

    /// The method ID with bit 15 cleared from `id`.
    pub fn method(id: u16) -> (r: MethodId)
        ensures
            r.0 == id % 0x8000,
    {
        MethodId(id % 0x8000)
    }
}

/// SOME/IP message header (16 bytes, big-endian).
#[derive(Debug, Clone, Copy, PartialEq, Eq, Structural)]
pub struct SomeIpHeader {
    /// Service ID.
    pub service_id: ServiceId,
    /// Method ID.
    pub method_id: MethodId,
    /// Payload length + 8.
    pub length: u32,
    /// Client ID.
    pub client_id: ClientId,
    /// Session ID.
    pub session_id: SessionId,
    /// Protocol version (0x01 in a valid header).
    pub protocol_version: u8,
    /// Interface version.
    pub interface_version: u8,
    /// Message type.
    pub message_type: MessageType,
    /// Return code.
    pub return_code: ReturnCode,
}

impl SomeIpHeader {
    /// A header is valid when it carries protocol version 0x01.
    pub open spec fn valid(&self) -> bool {
        self.protocol_version == PROTOCOL_VERSION
    }

    /// The 16 wire bytes of this header.
    pub open spec fn spec_bytes(&self) -> Seq<u8> {
        be_u16_bytes(self.service_id.0) + be_u16_bytes(self.method_id.0) + be_u32_bytes(self.length)
            + be_u16_bytes(self.client_id.0) + be_u16_bytes(self.session_id.0) + seq![
            self.protocol_version,
            self.interface_version,
            self.message_type.code(),
            self.return_code.code(),
        ]
    }

    /// Payload length given by the length field (`length - 8`, at least 0).
    pub open spec fn spec_payload_length(&self) -> u32 {
        if self.length >= 8 {
            (self.length - 8) as u32
        } else {
            0
        }
    }

    /// The header fields found in the first 16 bytes of `b` (no checks).
    pub open spec fn fields_of(b: Seq<u8>, t: MessageType, c: ReturnCode) -> SomeIpHeader {
        SomeIpHeader {
            service_id: ServiceId(be_u16_at(b, 0)),
            method_id: MethodId(be_u16_at(b, 2)),
            length: be_u32_at(b, 4),
            client_id: ClientId(be_u16_at(b, 8)),
            session_id: SessionId(be_u16_at(b, 10)),
            protocol_version: b[12],
            interface_version: b[13],
            message_type: t,
            return_code: c,
        }
    }

    /// The outcome of decoding a header from `b`.
    pub open spec fn parse(b: Seq<u8>) -> Result<SomeIpHeader> {
        if b.len() < HEADER_SIZE {
            Err(SomeIpError::MessageTooShort { expected: HEADER_SIZE, actual: b.len() as usize })
        } else if b[12] != PROTOCOL_VERSION {
            Err(SomeIpError::WrongProtocolVersion(b[12]))
        } else if MessageType::spec_from_code(b[14]) is None {
            Err(SomeIpError::UnknownMessageType(b[14]))
        } else if ReturnCode::spec_from_code(b[15]) is None {
            Err(SomeIpError::UnknownReturnCode(b[15]))
        } else {
            Ok(
                Self::fields_of(
                    b,
                    MessageType::spec_from_code(b[14]).unwrap(),
                    ReturnCode::spec_from_code(b[15]).unwrap(),
                ),
            )
        }
    }

    /// A request header with default client, session and interface version 1.
    pub open spec fn spec_new(service_id: ServiceId, method_id: MethodId, t: MessageType) -> SomeIpHeader {
        SomeIpHeader {
            service_id,
            method_id,
            length: 8,
            client_id: ClientId(0),
            session_id: SessionId(0),
            protocol_version: PROTOCOL_VERSION,
            interface_version: 1,
            message_type: t,
            return_code: ReturnCode::Success,
        }
    }

    /// Create a request header with the given service and method IDs.
    pub fn new(service_id: ServiceId, method_id: MethodId) -> (r: SomeIpHeader)
        ensures
            r == Self::spec_new(service_id, method_id, MessageType::Request),
    {
        SomeIpHeader {
            service_id,
            method_id,
            length: 8,
            client_id: ClientId(0),
            session_id: SessionId(0),
            protocol_version: PROTOCOL_VERSION,
            interface_version: 1,
            message_type: MessageType::Request,
            return_code: ReturnCode::Success,
        }
    }

    /// Create a request header.
    pub fn request(service_id: ServiceId, method_id: MethodId) -> (r: SomeIpHeader)
        ensures
            r == Self::spec_new(service_id, method_id, MessageType::Request),
    {
        let mut header = Self::new(service_id, method_id);
        header.message_type = MessageType::Request;
        header
    }

    /// Create a request-no-return header.
    pub fn request_no_return(service_id: ServiceId, method_id: MethodId) -> (r: SomeIpHeader)
        ensures
            r == Self::spec_new(service_id, method_id, MessageType::RequestNoReturn),
    {
        let mut header = Self::new(service_id, method_id);
        header.message_type = MessageType::RequestNoReturn;
        header
    }

    /// Create a notification header.
    pub fn notification(service_id: ServiceId, method_id: MethodId) -> (r: SomeIpHeader)
        ensures
            r == Self::spec_new(service_id, method_id, MessageType::Notification),
    {
        let mut header = Self::new(service_id, method_id);
        header.message_type = MessageType::Notification;
        header
    }

    /// The reply header to `request`, of type `t` and return code `c`.
    pub open spec fn spec_reply(request: SomeIpHeader, t: MessageType, c: ReturnCode) -> SomeIpHeader {
        SomeIpHeader {
            service_id: request.service_id,
            method_id: request.method_id,
            length: 8,
            client_id: request.client_id,
            session_id: request.session_id,
            protocol_version: PROTOCOL_VERSION,
            interface_version: request.interface_version,
            message_type: t,
            return_code: c,
        }
    }

    /// Create a response header from a request header.
    pub fn response_from(request: &SomeIpHeader) -> (r: SomeIpHeader)
        ensures
            r == Self::spec_reply(*request, MessageType::Response, ReturnCode::Success),
    {
        SomeIpHeader {
            service_id: request.service_id,
            method_id: request.method_id,
            length: 8,
            client_id: request.client_id,
            session_id: request.session_id,
            protocol_version: PROTOCOL_VERSION,
            interface_version: request.interface_version,
            message_type: MessageType::Response,
            return_code: ReturnCode::Success,
        }
    }

    /// Create an error response header from a request header.
    pub fn error_from(request: &SomeIpHeader, return_code: ReturnCode) -> (r: SomeIpHeader)
        ensures
            r == Self::spec_reply(*request, MessageType::Error, return_code),
    {
        SomeIpHeader {
            service_id: request.service_id,
            method_id: request.method_id,
            length: 8,
            client_id: request.client_id,
            session_id: request.session_id,
            protocol_version: PROTOCOL_VERSION,
            interface_version: request.interface_version,
            message_type: MessageType::Error,
            return_code,
        }
    }

    /// The payload length (`length - 8`, saturating at 0).
    pub fn payload_length(&self) -> (r: u32)
        ensures
            r == self.spec_payload_length(),
    {
        if self.length >= 8 {
            self.length - 8
        } else {
            0
        }
    }

    /// Set the length field to `payload_len + 8`.
    pub fn set_payload_length(&mut self, payload_len: u32)
        requires
            payload_len <= u32::MAX - 8,
        ensures
            *final(self) == (SomeIpHeader { length: (payload_len + 8) as u32, ..*old(self) }),
    {
        self.length = payload_len + 8;
    }

    /// Decode a header from the first 16 bytes of `data`.
    pub fn from_bytes(data: &[u8]) -> (r: Result<SomeIpHeader>)
        ensures
            r == Self::parse(data@),
    {
        if data.len() < HEADER_SIZE {
            return Err(SomeIpError::MessageTooShort { expected: HEADER_SIZE, actual: data.len() });
        }
        let service_id = ServiceId(read_be_u16(data, 0));
        let method_id = MethodId(read_be_u16(data, 2));
        let length = read_be_u32(data, 4);
        let client_id = ClientId(read_be_u16(data, 8));
        let session_id = SessionId(read_be_u16(data, 10));
        let protocol_version = data[12];
        let interface_version = data[13];
        if protocol_version != PROTOCOL_VERSION {
            return Err(SomeIpError::WrongProtocolVersion(protocol_version));
        }
        let message_type = match MessageType::from_u8(data[14]) {
            Some(t) => t,
            None => return Err(SomeIpError::UnknownMessageType(data[14])),
        };
        let return_code = match ReturnCode::from_u8(data[15]) {
            Some(c) => c,
            None => return Err(SomeIpError::UnknownReturnCode(data[15])),
        };
        Ok(
            SomeIpHeader {
                service_id,
                method_id,
                length,
                client_id,
                session_id,
                protocol_version,
                interface_version,
                message_type,
                return_code,
            },
        )
    }

    /// Append the 16 wire bytes of this header to `buf`.
    pub fn write_to(&self, buf: &mut Vec<u8>)
        ensures
            final(buf)@ == old(buf)@ + self.spec_bytes(),
    {
        push_be_u16(buf, self.service_id.0);
        push_be_u16(buf, self.method_id.0);
        push_be_u32(buf, self.length);
        push_be_u16(buf, self.client_id.0);
        push_be_u16(buf, self.session_id.0);
        buf.push(self.protocol_version);
        buf.push(self.interface_version);
        buf.push(self.message_type.to_u8());
        buf.push(self.return_code.to_u8());
        assert(final(buf)@ =~= old(buf)@ + self.spec_bytes());
    }

    /// Encode this header to its 16 wire bytes.
    pub fn to_bytes(&self) -> (r: Vec<u8>)
        ensures
            r@ == self.spec_bytes(),
            r@.len() == HEADER_SIZE,
    {
        let mut buf: Vec<u8> = Vec::with_capacity(HEADER_SIZE);
        self.write_to(&mut buf);
        assert(buf@ =~= self.spec_bytes());
        buf
    }

    /// The message ID: `service_id << 16 | method_id`.
    pub fn message_id(&self) -> (r: u32)
        ensures
            r == self.service_id.0 as int * 0x10000 + self.method_id.0 as int,
    {
        (self.service_id.0 as u32) * 0x10000 + (self.method_id.0 as u32)
    }

    /// The request ID: `client_id << 16 | session_id`.
    pub fn request_id(&self) -> (r: u32)
        ensures
            r == self.client_id.0 as int * 0x10000 + self.session_id.0 as int,
    {
        (self.client_id.0 as u32) * 0x10000 + (self.session_id.0 as u32)
    }
}

impl Default for SomeIpHeader {
    fn default() -> (r: SomeIpHeader)
        ensures
            r == SomeIpHeader::spec_new(ServiceId(0), MethodId(0), MessageType::Request),
    {
        SomeIpHeader::new(ServiceId(0), MethodId(0))
    }
}

/// The fields of a valid header are recovered from its encoding.
pub proof fn lemma_header_fields_round_trip(h: SomeIpHeader, b: Seq<u8>)
    requires
        b.len() >= HEADER_SIZE,
        b.subrange(0, 16) == h.spec_bytes(),
    ensures
        SomeIpHeader::fields_of(b, h.message_type, h.return_code) == h,
        b[12] == h.protocol_version,
        b[14] == h.message_type.code(),
        b[15] == h.return_code.code(),
{
    let s = h.spec_bytes();
    assert(s.subrange(0, 2) =~= be_u16_bytes(h.service_id.0));
    assert(s.subrange(2, 4) =~= be_u16_bytes(h.method_id.0));
    assert(s.subrange(4, 8) =~= be_u32_bytes(h.length));
    assert(s.subrange(8, 10) =~= be_u16_bytes(h.client_id.0));
    assert(s.subrange(10, 12) =~= be_u16_bytes(h.session_id.0));
    assert(b.subrange(0, 2) =~= s.subrange(0, 2));
    assert(b.subrange(2, 4) =~= s.subrange(2, 4));
    assert(b.subrange(4, 8) =~= s.subrange(4, 8));
    assert(b.subrange(8, 10) =~= s.subrange(8, 10));
    assert(b.subrange(10, 12) =~= s.subrange(10, 12));
    lemma_be_u16(h.service_id.0, b, 0);
    lemma_be_u16(h.method_id.0, b, 2);
    lemma_be_u32(h.length, b, 4);
    lemma_be_u16(h.client_id.0, b, 8);
    lemma_be_u16(h.session_id.0, b, 10);
    assert(b[12] == s[12]);
    assert(b[13] == s[13]);
    assert(b[14] == s[14]);
    assert(b[15] == s[15]);
}

/// Header round trip: a valid header encodes to exactly 16 bytes, and decoding
/// any buffer that starts with them gives the header back.
pub proof fn lemma_header_round_trip(h: SomeIpHeader, b: Seq<u8>)
    requires
        h.valid(),
        b.len() >= HEADER_SIZE,
        b.subrange(0, 16) == h.spec_bytes(),
    ensures
        h.spec_bytes().len() == HEADER_SIZE,
        SomeIpHeader::parse(b) == Ok::<SomeIpHeader, SomeIpError>(h),
{
    lemma_header_fields_round_trip(h, b);
    crate::types::lemma_message_type_code_round_trip(h.message_type);
    crate::types::lemma_return_code_round_trip(h.return_code);
}

/// Any buffer shorter than 16 bytes fails to decode with `MessageTooShort`.
pub proof fn lemma_header_too_short(b: Seq<u8>)
    requires
        b.len() < HEADER_SIZE,
    ensures
        SomeIpHeader::parse(b) == Err::<SomeIpHeader, SomeIpError>(
            SomeIpError::MessageTooShort { expected: HEADER_SIZE, actual: b.len() as usize },
        ),
{
}

/// Any buffer of at least 16 bytes whose 13th byte is not 0x01 fails to decode
/// with `WrongProtocolVersion`.
pub proof fn lemma_header_wrong_version(b: Seq<u8>)
    requires
        b.len() >= HEADER_SIZE,
        b[12] != PROTOCOL_VERSION,
    ensures
        SomeIpHeader::parse(b) == Err::<SomeIpHeader, SomeIpError>(SomeIpError::WrongProtocolVersion(b[12])),
{
}

} // verus!
