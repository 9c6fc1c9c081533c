use someip_rs::header::{ClientId, MethodId, ServiceId, SessionId, SomeIpHeader};
use someip_rs::message::SomeIpMessage;
use someip_rs::tp::{decode_datagram, Datagram, needs_segmentation, segment_message, ReassemblyKey, TpHeader, TpReassembler, TpSegment, DEFAULT_MAX_SEGMENT_PAYLOAD};
use someip_rs::types::MessageType;
use someip_rs::error::SomeIpError;

#[test]
fn test_tp_header_first_segment() {
    let header = TpHeader::first(true);
    assert_eq!(header.offset, 0);
    assert!(header.more);
    assert_eq!(header.byte_offset(), 0);
}

#[test]
fn test_tp_header_from_byte_offset() {
    let header = TpHeader::from_byte_offset(1392, true);
    assert_eq!(header.offset, 87);
    assert!(header.more);
    let header = TpHeader::from_byte_offset(1400, false);
    assert_eq!(header.offset, 87);
    assert!(!header.more);
}

#[test]
fn test_tp_header_roundtrip() {
    let original = TpHeader::new(12345, true);
    let bytes = original.to_bytes();
    let parsed = TpHeader::from_bytes(&bytes).unwrap();
    assert_eq!(original, parsed);
}

#[test]
fn test_tp_header_roundtrip_last_segment() {
    let original = TpHeader::new(99999, false);
    let bytes = original.to_bytes();
    let parsed = TpHeader::from_bytes(&bytes).unwrap();
    assert_eq!(original, parsed);
}

#[test]
fn test_tp_header_byte_offset() {
    let header = TpHeader::new(100, true);
    assert_eq!(header.byte_offset(), 1600);
}

#[test]
fn test_tp_header_too_short() {
    let result = TpHeader::from_bytes(&[0, 1, 2]);
    assert!(result.is_err());
}

#[test]
fn tp_header_wire_word() {
    assert_eq!(TpHeader::new(87, true).to_bytes(), vec![0x00, 0x00, 0x05, 0x71]);
    assert_eq!(TpHeader::new(174, false).to_bytes(), vec![0x00, 0x00, 0x0A, 0xE0]);
}

#[test]
fn test_reassembly_key() {
    let mut header = SomeIpHeader::default();
    header.service_id = ServiceId(0x1234);
    header.method_id = MethodId(0x0001);
    header.client_id = ClientId(0x0100);
    header.session_id = SessionId(0x0001);
    let key = ReassemblyKey::from_header(&header);
    assert_eq!(key.service_id, ServiceId(0x1234));
    assert_eq!(key.session_id, SessionId(0x0001));
}

#[test]
fn test_segment_small_message() {
    let msg = SomeIpMessage::request(ServiceId(0x1234), MethodId(0x0001)).payload(b"small".to_vec()).build();
    let segments = segment_message(&msg, DEFAULT_MAX_SEGMENT_PAYLOAD);
    assert!(segments.is_empty());
}

#[test]
fn test_segment_large_message() {
    let msg = SomeIpMessage::request(ServiceId(0x1234), MethodId(0x0001)).payload_vec(vec![0xABu8; 3000]).build();
    let segments = segment_message(&msg, 1392);
    assert_eq!(segments.len(), 3);
    assert_eq!(segments[0].tp_header.offset, 0);
    assert!(segments[0].tp_header.more);
    assert_eq!(segments[0].payload.len(), 1392);
    assert!(segments[0].header.message_type.is_tp());
    assert_eq!(segments[1].tp_header.offset, 87);
    assert!(segments[1].tp_header.more);
    assert_eq!(segments[1].payload.len(), 1392);
    assert_eq!(segments[2].tp_header.offset, 174);
    assert!(!segments[2].tp_header.more);
    assert_eq!(segments[2].payload.len(), 216);
    assert_eq!(segments[2].header.length, 8 + 4 + 216);
    assert_eq!(segments[0].header.message_type, MessageType::TpRequest);
}

#[test]
fn test_segment_roundtrip() {
    let msg = SomeIpMessage::request(ServiceId(0x1234), MethodId(0x0001)).payload_vec(vec![0xCDu8; 2000]).build();
    let segments = segment_message(&msg, 1392);
    for segment in segments {
        let bytes = segment.to_bytes();
        let parsed = TpSegment::from_bytes(&bytes).unwrap();
        assert_eq!(segment.tp_header, parsed.tp_header);
        assert_eq!(segment.payload, parsed.payload);
    }
}

#[test]
fn test_needs_segmentation() {
    let small = SomeIpMessage::request(ServiceId(0x1234), MethodId(0x0001)).payload(b"small".to_vec()).build();
    let large = SomeIpMessage::request(ServiceId(0x1234), MethodId(0x0001)).payload_vec(vec![0u8; 2000]).build();
    assert!(!needs_segmentation(&small, 1392));
    assert!(needs_segmentation(&large, 1392));
}

#[test]
fn segment_with_inconsistent_length_is_rejected() {
    let msg = SomeIpMessage::request(ServiceId(1), MethodId(1)).payload_vec(vec![1u8; 100]).build();
    let segments = segment_message(&msg, 32);
    let bytes = segments[0].to_bytes();
    let short = &bytes[..bytes.len() - 1];
    assert!(matches!(TpSegment::from_bytes(short), Err(SomeIpError::LengthMismatch { .. })));
    assert!(matches!(TpSegment::from_bytes(&bytes[..10]), Err(SomeIpError::MessageTooShort { .. })));
    let plain = msg.to_bytes();
    assert!(matches!(TpSegment::from_bytes(&plain), Err(SomeIpError::InvalidHeader(_))));
}

fn payload_3000() -> Vec<u8> {
    (0..3000u16).map(|i| (i % 256) as u8).collect()
}

#[test]
fn test_reassemble_message() {
    let expected_payload = payload_3000();
    let msg = SomeIpMessage::request(ServiceId(0x1234), MethodId(0x0001)).payload_vec(expected_payload.clone()).build();
    let segments = segment_message(&msg, 1392);
    assert_eq!(segments.len(), 3);
    let mut reassembler = TpReassembler::new();
    assert!(reassembler.feed(segments[0].clone()).unwrap().is_none());
    assert!(reassembler.feed(segments[1].clone()).unwrap().is_none());
    assert_eq!(reassembler.active_contexts(), 1);
    let result = reassembler.feed(segments[2].clone()).unwrap();
    assert!(result.is_some());
    let reassembled = result.unwrap();
    assert_eq!(reassembled.payload.as_slice(), expected_payload.as_slice());
    assert!(!reassembled.header.message_type.is_tp());
    assert_eq!(reassembler.active_contexts(), 0);
    assert_eq!(reassembled, msg);
}

#[test]
fn test_reassemble_out_of_order() {
    let expected_payload = payload_3000();
    let msg = SomeIpMessage::request(ServiceId(0x1234), MethodId(0x0001)).payload_vec(expected_payload.clone()).build();
    let segments = segment_message(&msg, 1392);
    let mut reassembler = TpReassembler::new();
    assert!(reassembler.feed(segments[2].clone()).unwrap().is_none());
    assert!(reassembler.feed(segments[0].clone()).unwrap().is_none());
    let result = reassembler.feed(segments[1].clone()).unwrap();
    assert!(result.is_some());
    let reassembled = result.unwrap();
    assert_eq!(reassembled.payload.as_slice(), expected_payload.as_slice());
}

#[test]
fn reassemble_every_order() {
    let msg = SomeIpMessage::notification(ServiceId(9), MethodId(0x8001)).payload_vec(payload_3000()).build();
    let segments = segment_message(&msg, 1392);
    let orders = [[0, 1, 2], [0, 2, 1], [1, 0, 2], [1, 2, 0], [2, 0, 1], [2, 1, 0]];
    for order in orders.iter() {
        let mut r = TpReassembler::with_timeout(1000);
        assert!(r.feed_at(segments[order[0]].clone(), 10).unwrap().is_none());
        assert!(r.feed_at(segments[order[1]].clone(), 11).unwrap().is_none());
        let done = r.feed_at(segments[order[2]].clone(), 12).unwrap().unwrap();
        assert_eq!(done, msg);
    }
}

#[test]
fn reassembly_duplicate_segment() {
    let msg = SomeIpMessage::request(ServiceId(5), MethodId(5)).payload_vec(vec![3u8; 100]).build();
    let segments = segment_message(&msg, 48);
    assert_eq!(segments.len(), 3);
    let mut r = TpReassembler::new();
    assert!(r.feed(segments[0].clone()).unwrap().is_none());
    assert!(r.feed(segments[0].clone()).unwrap().is_none());
    assert!(r.feed(segments[2].clone()).unwrap().is_none());
    assert_eq!(r.feed(segments[1].clone()).unwrap().unwrap(), msg);
}

#[test]
fn test_multiple_concurrent_reassemblies() {
    let expected_payload1: Vec<u8> = vec![0xAAu8; 3000];
    let expected_payload2: Vec<u8> = vec![0xBBu8; 3000];
    let msg1 = SomeIpMessage::request(ServiceId(0x1234), MethodId(0x0001))
        .client_id(ClientId(0x0001))
        .session_id(SessionId(0x0001))
        .payload_vec(expected_payload1.clone())
        .build();
    let msg2 = SomeIpMessage::request(ServiceId(0x1234), MethodId(0x0001))
        .client_id(ClientId(0x0001))
        .session_id(SessionId(0x0002))
        .payload_vec(expected_payload2.clone())
        .build();
    let segments1 = segment_message(&msg1, 1392);
    let segments2 = segment_message(&msg2, 1392);
    let mut reassembler = TpReassembler::new();
    reassembler.feed(segments1[0].clone()).unwrap();
    reassembler.feed(segments2[0].clone()).unwrap();
    assert_eq!(reassembler.active_contexts(), 2);
    reassembler.feed(segments1[1].clone()).unwrap();
    reassembler.feed(segments2[1].clone()).unwrap();
    let result1 = reassembler.feed(segments1[2].clone()).unwrap();
    assert!(result1.is_some());
    assert_eq!(result1.unwrap().payload.as_slice(), expected_payload1.as_slice());
    let result2 = reassembler.feed(segments2[2].clone()).unwrap();
    assert!(result2.is_some());
    assert_eq!(result2.unwrap().payload.as_slice(), expected_payload2.as_slice());
    assert_eq!(reassembler.active_contexts(), 0);
}

#[test]
fn reassembly_cleanup_expires_old_contexts() {
    let msg = SomeIpMessage::request(ServiceId(1), MethodId(1)).payload_vec(vec![0u8; 3000]).build();
    let segments = segment_message(&msg, 1392);
    let mut r = TpReassembler::with_timeout(5000);
    r.feed_at(segments[0].clone(), 1000).unwrap();
    assert_eq!(r.cleanup_at(6000), 0);
    assert_eq!(r.active_contexts(), 1);
    assert_eq!(r.cleanup_at(6001), 1);
    assert_eq!(r.active_contexts(), 0);
    r.feed_at(segments[0].clone(), 1000).unwrap();
    r.clear();
    assert_eq!(r.active_contexts(), 0);
}

#[test]
fn reassembly_limits_drop_oldest() {
    let msg1 = SomeIpMessage::request(ServiceId(1), MethodId(1)).session_id(SessionId(1)).payload_vec(vec![1u8; 100]).build();
    let msg2 = SomeIpMessage::request(ServiceId(1), MethodId(1)).session_id(SessionId(2)).payload_vec(vec![2u8; 100]).build();
    let s1 = segment_message(&msg1, 48);
    let s2 = segment_message(&msg2, 48);
    let mut r = TpReassembler::with_limits(5000, 1, 1_000_000);
    assert!(r.feed_at(s1[0].clone(), 0).unwrap().is_none());
    assert!(r.feed_at(s2[0].clone(), 0).unwrap().is_none());
    assert_eq!(r.active_contexts(), 1);
    assert!(r.feed_at(s1[1].clone(), 0).unwrap().is_none());
    assert!(r.feed_at(s1[2].clone(), 0).unwrap().is_none());
    assert!(r.feed_at(s2[1].clone(), 0).unwrap().is_none());
    let mut bytes_limited = TpReassembler::with_limits(5000, 10, 60);
    assert!(bytes_limited.feed_at(s1[0].clone(), 0).unwrap().is_none());
    assert_eq!(bytes_limited.active_contexts(), 1);
    assert!(bytes_limited.feed_at(s1[1].clone(), 0).unwrap().is_none());
    assert_eq!(bytes_limited.active_contexts(), 0);
    let mut roomy = TpReassembler::with_limits(5000, 1, 100);
    roomy.feed_at(s2[2].clone(), 0).unwrap();
    roomy.feed_at(s2[0].clone(), 0).unwrap();
    assert_eq!(roomy.feed_at(s2[1].clone(), 0).unwrap().unwrap(), msg2);
}

#[test]
fn segment_longer_than_length_is_rejected() {
    let msg = SomeIpMessage::request(ServiceId(1), MethodId(1)).payload_vec(vec![1u8; 100]).build();
    let segments = segment_message(&msg, 32);
    let mut bytes = segments[0].to_bytes();
    bytes.push(0);
    assert!(matches!(TpSegment::from_bytes(&bytes), Err(SomeIpError::LengthMismatch { .. })));
    let mut header = SomeIpHeader::default();
    header.message_type = MessageType::TpRequest;
    header.length = 12;
    let mut data = header.to_bytes();
    data.extend_from_slice(&[0u8; 5]);
    assert!(matches!(TpSegment::from_bytes(&data), Err(SomeIpError::LengthMismatch { .. })));
}

#[test]
fn datagrams_dispatch_by_type() {
    let msg = SomeIpMessage::request(ServiceId(1), MethodId(1)).payload_vec(vec![4u8; 100]).build();
    let segments = segment_message(&msg, 32);
    assert!(matches!(decode_datagram(&segments[1].to_bytes()), Ok(Datagram::Segment(s)) if s == segments[1]));
    assert!(matches!(decode_datagram(&msg.to_bytes()), Ok(Datagram::Message(m)) if m == msg));
    assert!(matches!(decode_datagram(&[0u8; 4]), Err(SomeIpError::MessageTooShort { .. })));
}

#[test]
fn segment_shape_at_multiples_of_16() {
    let msg = SomeIpMessage::notification(ServiceId(2), MethodId(0x8002)).payload_vec((0..1000u32).map(|i| i as u8).collect()).build();
    for s in [16usize, 48, 320, 992] {
        let segs = segment_message(&msg, s);
        let n = segs.len();
        assert_eq!(n, (1000 + s - 1) / s);
        let mut joined = Vec::new();
        for (i, seg) in segs.iter().enumerate() {
            assert_eq!(seg.tp_header.more, i < n - 1);
            assert_eq!(seg.tp_header.offset as usize, i * s / 16);
            assert_eq!(seg.header.length as usize, 12 + seg.payload.len());
            if i < n - 1 {
                assert_eq!(seg.payload.len(), s);
            }
            joined.extend_from_slice(&seg.payload);
        }
        assert_eq!(joined, msg.payload);
    }
}
