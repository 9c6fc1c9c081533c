use someip_rs::header::{ClientId, MethodId, ServiceId, SessionId, SomeIpHeader, HEADER_SIZE};
use someip_rs::message::SomeIpMessage;
use someip_rs::types::{MessageType, ReturnCode, PROTOCOL_VERSION};
use someip_rs::codec::{MessageReader, MessageWriter};
use someip_rs::error::{IoError, IoErrorKind, SomeIpError};

#[test]
fn test_message_type_from_u8() {
    assert_eq!(MessageType::from_u8(0x00), Some(MessageType::Request));
    assert_eq!(MessageType::from_u8(0x80), Some(MessageType::Response));
    assert_eq!(MessageType::from_u8(0xFF), None);
}

#[test]
fn test_message_type_expects_response() {
    assert!(MessageType::Request.expects_response());
    assert!(!MessageType::RequestNoReturn.expects_response());
    assert!(!MessageType::Notification.expects_response());
    assert!(!MessageType::Response.expects_response());
}

#[test]
fn test_return_code_from_u8() {
    assert_eq!(ReturnCode::from_u8(0x00), Some(ReturnCode::Success));
    assert_eq!(ReturnCode::from_u8(0x02), Some(ReturnCode::UnknownService));
    assert_eq!(ReturnCode::from_u8(0xFF), None);
}

#[test]
fn test_return_code_is_ok() {
    assert!(ReturnCode::Success.is_ok());
    assert!(!ReturnCode::NotOk.is_ok());
    assert!(!ReturnCode::Timeout.is_ok());
}

#[test]
fn message_type_tp_mapping() {
    assert_eq!(MessageType::Request.to_tp(), MessageType::TpRequest);
    assert_eq!(MessageType::Error.to_tp(), MessageType::TpError);
    assert_eq!(MessageType::TpResponse.to_base(), MessageType::Response);
    assert_eq!(MessageType::Notification.to_base(), MessageType::Notification);
    assert!(MessageType::TpNotification.is_tp());
    assert!(!MessageType::Notification.is_tp());
    assert_eq!(MessageType::TpError.to_u8(), 0xA1);
    assert!(MessageType::TpRequest.expects_response());
    assert!(MessageType::TpError.is_response());
    assert_eq!(ReturnCode::E2ENoNewData.to_u8(), 0x0F);
    assert_eq!(ReturnCode::from_u8(0x10), None);
}

#[test]
fn test_from_io_error() {
    let io_err = IoError::new(IoErrorKind::ConnectionRefused, "test");
    let err: SomeIpError = io_err.into();
    assert!(matches!(err, SomeIpError::Io(_)));
}

#[test]
fn error_recoverable_kinds() {
    assert!(SomeIpError::Io(IoError::new(IoErrorKind::WouldBlock, "x")).is_recoverable());
    assert!(SomeIpError::Io(IoError::new(IoErrorKind::TimedOut, "x")).is_recoverable());
    assert!(SomeIpError::Io(IoError::new(IoErrorKind::Interrupted, "x")).is_recoverable());
    assert!(!SomeIpError::Io(IoError::new(IoErrorKind::ConnectionReset, "x")).is_recoverable());
    assert!(SomeIpError::Timeout.is_recoverable());
    assert!(!SomeIpError::ConnectionClosed.is_recoverable());
    assert!(matches!(SomeIpError::invalid_header("bad"), SomeIpError::InvalidHeader(s) if s == "bad"));
}

#[test]
fn test_header_roundtrip() {
    let header = SomeIpHeader {
        service_id: ServiceId(0x1234),
        method_id: MethodId(0x5678),
        length: 16,
        client_id: ClientId(0xABCD),
        session_id: SessionId(0xEF01),
        protocol_version: PROTOCOL_VERSION,
        interface_version: 2,
        message_type: MessageType::Request,
        return_code: ReturnCode::Success,
    };
    let bytes = header.to_bytes();
    let parsed = SomeIpHeader::from_bytes(&bytes).unwrap();
    assert_eq!(header, parsed);
}

#[test]
fn test_header_byte_order() {
    let header = SomeIpHeader {
        service_id: ServiceId(0x1234),
        method_id: MethodId(0x5678),
        length: 8,
        client_id: ClientId(0x0000),
        session_id: SessionId(0x0001),
        protocol_version: PROTOCOL_VERSION,
        interface_version: 1,
        message_type: MessageType::Request,
        return_code: ReturnCode::Success,
    };
    let bytes = header.to_bytes();
    assert_eq!(bytes[0], 0x12);
    assert_eq!(bytes[1], 0x34);
    assert_eq!(bytes[2], 0x56);
    assert_eq!(bytes[3], 0x78);
}

#[test]
fn header_encodes_literal_bytes() {
    let header = SomeIpHeader {
        service_id: ServiceId(0x1234),
        method_id: MethodId(0x5678),
        length: 8,
        client_id: ClientId(0xABCD),
        session_id: SessionId(0xEF01),
        protocol_version: 0x01,
        interface_version: 2,
        message_type: MessageType::Request,
        return_code: ReturnCode::Success,
    };
    assert_eq!(
        header.to_bytes(),
        vec![0x12, 0x34, 0x56, 0x78, 0x00, 0x00, 0x00, 0x08, 0xAB, 0xCD, 0xEF, 0x01, 0x01, 0x02, 0x00, 0x00]
    );
    assert_eq!(header.message_id(), 0x1234_5678);
    assert_eq!(header.request_id(), 0xABCD_EF01);
    assert_eq!(header.payload_length(), 0);
}

#[test]
fn test_method_id_event() {
    let event = MethodId::event(0x1234);
    assert!(event.is_event());
    assert_eq!(event.0, 0x9234);
    let method = MethodId::method(0x9234);
    assert!(!method.is_event());
    assert_eq!(method.0, 0x1234);
}

#[test]
fn test_response_from() {
    let request = SomeIpHeader {
        service_id: ServiceId(0x1234),
        method_id: MethodId(0x0001),
        length: 20,
        client_id: ClientId(0x0100),
        session_id: SessionId(0x0001),
        protocol_version: PROTOCOL_VERSION,
        interface_version: 1,
        message_type: MessageType::Request,
        return_code: ReturnCode::Success,
    };
    let response = SomeIpHeader::response_from(&request);
    assert_eq!(response.service_id, request.service_id);
    assert_eq!(response.method_id, request.method_id);
    assert_eq!(response.client_id, request.client_id);
    assert_eq!(response.session_id, request.session_id);
    assert_eq!(response.message_type, MessageType::Response);
    let error = SomeIpHeader::error_from(&request, ReturnCode::NotReady);
    assert_eq!(error.message_type, MessageType::Error);
    assert_eq!(error.return_code, ReturnCode::NotReady);
}

#[test]
fn header_test_parse_too_short() {
    let data = [0u8; 10];
    let result = SomeIpHeader::from_bytes(&data);
    assert!(matches!(result, Err(SomeIpError::MessageTooShort { .. })));
    assert_eq!(result, Err(SomeIpError::MessageTooShort { expected: 16, actual: 10 }));
}

#[test]
fn test_parse_wrong_protocol_version() {
    let mut header = SomeIpHeader::default();
    header.protocol_version = 0x02;
    let mut bytes = header.to_bytes();
    bytes[12] = 0x02;
    let result = SomeIpHeader::from_bytes(&bytes);
    assert!(matches!(result, Err(SomeIpError::WrongProtocolVersion(0x02))));
}

#[test]
fn header_unknown_type_and_code() {
    let mut bytes = SomeIpHeader::default().to_bytes();
    bytes[14] = 0x03;
    assert_eq!(SomeIpHeader::from_bytes(&bytes), Err(SomeIpError::UnknownMessageType(0x03)));
    let mut bytes = SomeIpHeader::default().to_bytes();
    bytes[15] = 0x42;
    assert_eq!(SomeIpHeader::from_bytes(&bytes), Err(SomeIpError::UnknownReturnCode(0x42)));
}

#[test]
fn test_message_builder() {
    let msg = SomeIpMessage::request(ServiceId(0x1234), MethodId(0x0001))
        .client_id(ClientId(0x0100))
        .session_id(SessionId(0x0001))
        .payload(b"hello".to_vec())
        .build();
    assert_eq!(msg.header.service_id, ServiceId(0x1234));
    assert_eq!(msg.header.method_id, MethodId(0x0001));
    assert_eq!(msg.header.client_id, ClientId(0x0100));
    assert_eq!(msg.header.session_id, SessionId(0x0001));
    assert_eq!(msg.header.message_type, MessageType::Request);
    assert_eq!(msg.payload.as_slice(), b"hello");
    assert_eq!(msg.header.length, 8 + 5);
}

#[test]
fn test_message_roundtrip() {
    let original = SomeIpMessage::request(ServiceId(0x1234), MethodId(0x5678))
        .client_id(ClientId(0xABCD))
        .session_id(SessionId(0x0001))
        .payload(vec![1, 2, 3, 4, 5])
        .build();
    let bytes = original.to_bytes();
    let parsed = SomeIpMessage::from_bytes(&bytes).unwrap();
    assert_eq!(original, parsed);
}

#[test]
fn test_create_response() {
    let request = SomeIpMessage::request(ServiceId(0x1234), MethodId(0x0001))
        .client_id(ClientId(0x0100))
        .session_id(SessionId(0x0042))
        .build();
    let response = request.create_response().payload(b"response data".to_vec()).build();
    assert_eq!(response.header.service_id, request.header.service_id);
    assert_eq!(response.header.method_id, request.header.method_id);
    assert_eq!(response.header.client_id, request.header.client_id);
    assert_eq!(response.header.session_id, request.header.session_id);
    assert_eq!(response.header.message_type, MessageType::Response);
}

#[test]
fn request_response_correlation() {
    let request = SomeIpMessage::request(ServiceId(0x1234), MethodId(0x0001))
        .client_id(ClientId(0x0100))
        .session_id(SessionId(0x0001))
        .payload(b"hello".to_vec())
        .build();
    let response = request.create_response().build();
    assert_eq!(response.header.request_id(), request.header.request_id());
    assert_eq!(response.header.message_type, MessageType::Response);
    assert_eq!(response.header.return_code, ReturnCode::Success);
    assert!(response.is_response());
    assert!(request.expects_response());
    assert!(request.is_request());
}

#[test]
fn test_create_error_response() {
    let request = SomeIpMessage::request(ServiceId(0x1234), MethodId(0x0001))
        .client_id(ClientId(0x0100))
        .session_id(SessionId(0x0042))
        .build();
    let error = request.create_error_response(ReturnCode::UnknownMethod).build();
    assert_eq!(error.header.message_type, MessageType::Error);
    assert_eq!(error.header.return_code, ReturnCode::UnknownMethod);
}

#[test]
fn test_total_size() {
    let msg = SomeIpMessage::request(ServiceId(0x1234), MethodId(0x0001)).payload(vec![0u8; 100]).build();
    assert_eq!(msg.total_size(), HEADER_SIZE + 100);
}

#[test]
fn message_test_parse_too_short() {
    let data = vec![0u8; 10];
    let result = SomeIpMessage::from_bytes(&data);
    assert!(matches!(result, Err(SomeIpError::MessageTooShort { .. })));
}

#[test]
fn message_length_mismatch() {
    let msg = SomeIpMessage::request(ServiceId(1), MethodId(2)).payload(vec![9u8; 10]).build();
    let bytes = msg.to_bytes();
    let result = SomeIpMessage::from_bytes(&bytes[..20]);
    assert_eq!(result, Err(SomeIpError::LengthMismatch { header_length: 18, actual_length: 12 }));
}

#[test]
fn message_new_sets_length() {
    let m = SomeIpMessage::new(SomeIpHeader::default(), vec![1, 2, 3]);
    assert_eq!(m.header.length, 11);
    let m = SomeIpMessage::with_header(SomeIpHeader::notification(ServiceId(3), MethodId(4)));
    assert_eq!(m.header.length, 8);
    assert_eq!(m.header.message_type, MessageType::Notification);
}

#[test]
fn test_message_reader_complete() {
    let msg = SomeIpMessage::request(ServiceId(0x1234), MethodId(0x0001)).payload(b"hello".to_vec()).build();
    let data = msg.to_bytes();
    let mut reader = MessageReader::new();
    reader.feed(&data);
    let parsed = reader.try_parse().unwrap();
    assert!(parsed.is_some());
    assert_eq!(parsed.unwrap(), msg);
}

#[test]
fn test_message_reader_partial() {
    let msg = SomeIpMessage::request(ServiceId(0x1234), MethodId(0x0001)).payload(b"hello".to_vec()).build();
    let data = msg.to_bytes();
    let mut reader = MessageReader::new();
    reader.feed(&data[..10]);
    assert!(reader.try_parse().unwrap().is_none());
    reader.feed(&data[10..]);
    let parsed = reader.try_parse().unwrap();
    assert!(parsed.is_some());
    assert_eq!(parsed.unwrap(), msg);
}

#[test]
fn test_message_reader_multiple() {
    let msg1 = SomeIpMessage::request(ServiceId(0x1234), MethodId(0x0001)).payload(b"first".to_vec()).build();
    let msg2 = SomeIpMessage::request(ServiceId(0x5678), MethodId(0x0002)).payload(b"second".to_vec()).build();
    let mut data = msg1.to_bytes();
    data.extend_from_slice(&msg2.to_bytes());
    let mut reader = MessageReader::new();
    reader.feed(&data);
    let messages = reader.parse_all().unwrap();
    assert_eq!(messages.len(), 2);
    assert_eq!(messages[0], msg1);
    assert_eq!(messages[1], msg2);
}

#[test]
fn reader_byte_by_byte_matches_whole() {
    let msg1 = SomeIpMessage::request(ServiceId(1), MethodId(1)).payload(b"one".to_vec()).build();
    let msg2 = SomeIpMessage::notification(ServiceId(2), MethodId(0x8001)).build();
    let msg3 = SomeIpMessage::request(ServiceId(3), MethodId(3)).payload(vec![7u8; 40]).build();
    let mut data = msg1.to_bytes();
    data.extend_from_slice(&msg2.to_bytes());
    data.extend_from_slice(&msg3.to_bytes());
    let mut whole = MessageReader::with_capacity(16);
    whole.feed(&data);
    let expected = whole.parse_all().unwrap();
    let mut reader = MessageReader::new();
    let mut got = Vec::new();
    for b in &data {
        reader.feed(&[*b]);
        got.extend(reader.parse_all().unwrap());
    }
    assert_eq!(got, expected);
    assert_eq!(got, vec![msg1, msg2, msg3]);
    assert!(reader.is_empty());
    assert_eq!(reader.len(), 0);
}

#[test]
fn reader_surfaces_bad_version() {
    let mut bytes = SomeIpHeader::default().to_bytes();
    bytes[12] = 7;
    let mut reader = MessageReader::default();
    reader.feed(&bytes);
    assert_eq!(reader.try_parse(), Err(SomeIpError::WrongProtocolVersion(7)));
    reader.clear();
    assert!(reader.is_empty());
}

#[test]
fn test_message_writer() {
    let msg = SomeIpMessage::request(ServiceId(0x1234), MethodId(0x0001)).payload(b"test".to_vec()).build();
    let mut writer = MessageWriter::new();
    writer.encode(&msg);
    assert_eq!(writer.data(), msg.to_bytes().as_slice());
    let data = writer.take();
    assert_eq!(data, msg.to_bytes());
    assert!(writer.data().is_empty());
    writer.encode(&msg);
    writer.clear();
    assert!(writer.data().is_empty());
}

#[test]
fn test_error_display() {
    let err = SomeIpError::UnknownMessageType(0xFF);
    assert_eq!(err.to_string(), "Unknown message type: 0xFF");
    let err = SomeIpError::MessageTooShort { expected: 16, actual: 8 };
    assert_eq!(err.to_string(), "Message too short: expected at least 16 bytes, got 8");
}

#[test]
fn error_messages_of_other_kinds() {
    assert_eq!(SomeIpError::NoResponse { client_id: 0x12, session_id: 0xABCD }.to_string(), "No response received for request (client=0012, session=ABCD)");
    assert_eq!(SomeIpError::ProtocolError(ReturnCode::NotReady).to_string(), "Protocol error: NotReady");
    assert_eq!(SomeIpError::Io(IoError::new(IoErrorKind::Other, "boom")).to_string(), "I/O error: boom");
    assert_eq!(SomeIpError::PayloadTooLarge { size: 1500, max: 1400 }.to_string(), "Payload too large: 1500 bytes exceeds maximum of 1400 bytes");
    assert_eq!(SomeIpError::WrongProtocolVersion(2).to_string(), "Wrong protocol version: expected 0x01, got 0x02");
}
