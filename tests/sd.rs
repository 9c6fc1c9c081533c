use someip_rs::header::{MethodId, ServiceId};
use someip_rs::sd::{
    ConfigurationOption, Endpoint, EntryType, EventgroupEntry, EventgroupId, IPv4EndpointOption, IPv6EndpointOption,
    InstanceId, Ipv4Address, Ipv6Address, OptionType, SdEntry, SdFlags, SdMessage, SdOption, ServiceEntry,
    SocketAddress, TransportProtocol, SD_METHOD_ID, SD_SERVICE_ID,
};
use someip_rs::types::MessageType;
use someip_rs::error::SomeIpError;

fn ep_tcp() -> Endpoint {
    Endpoint::tcp(SocketAddress::V4(Ipv4Address::new(192, 168, 1, 100), 30490))
}

#[test]
fn test_entry_type_from_u8() {
    assert_eq!(EntryType::from_u8(0x00), Some(EntryType::FindService));
    assert_eq!(EntryType::from_u8(0x01), Some(EntryType::OfferService));
    assert_eq!(EntryType::from_u8(0x06), Some(EntryType::SubscribeEventgroup));
    assert_eq!(EntryType::from_u8(0x07), Some(EntryType::SubscribeEventgroupAck));
    assert_eq!(EntryType::from_u8(0xFF), None);
}

#[test]
fn test_option_type_from_u8() {
    assert_eq!(OptionType::from_u8(0x04), Some(OptionType::IPv4Endpoint));
    assert_eq!(OptionType::from_u8(0x06), Some(OptionType::IPv6Endpoint));
    assert_eq!(OptionType::from_u8(0xFF), None);
    assert!(OptionType::IPv4Multicast.is_ipv4());
    assert!(OptionType::IPv6SdEndpoint.is_ipv6());
    assert!(!OptionType::Configuration.is_ipv4());
}

#[test]
fn test_instance_id_any() {
    assert!(InstanceId::any().is_any());
    assert!(!InstanceId(0x0001).is_any());
}

#[test]
fn test_transport_protocol() {
    assert_eq!(TransportProtocol::from_u8(0x06), Some(TransportProtocol::Tcp));
    assert_eq!(TransportProtocol::from_u8(0x11), Some(TransportProtocol::Udp));
    assert_eq!(TransportProtocol::from_u8(0xFF), None);
}

#[test]
fn test_service_entry_roundtrip() {
    let entry = ServiceEntry::offer_service(ServiceId(0x1234), InstanceId(0x0001), 1, 0, 3600);
    let bytes = entry.to_bytes();
    let parsed = ServiceEntry::from_bytes(&bytes).unwrap();
    assert_eq!(entry, parsed);
}

#[test]
fn test_find_service_entry() {
    let entry = ServiceEntry::find_service(ServiceId(0x1234), InstanceId::any(), 0xFF, 0xFFFFFFFF);
    assert_eq!(entry.entry_type, EntryType::FindService);
    assert_eq!(entry.instance_id, InstanceId::any());
    assert_eq!(entry.ttl, 0xFFFFFF);
}

#[test]
fn test_eventgroup_entry_roundtrip() {
    let entry = EventgroupEntry::subscribe(ServiceId(0x1234), InstanceId(0x0001), 1, EventgroupId(0x0001), 3600);
    let bytes = entry.to_bytes();
    let parsed = EventgroupEntry::from_bytes(&bytes).unwrap();
    assert_eq!(entry, parsed);
}

#[test]
fn test_subscribe_ack_nack() {
    let ack = EventgroupEntry::subscribe_ack(ServiceId(0x1234), InstanceId(0x0001), 1, EventgroupId(0x0001), 3600, 0);
    assert!(!ack.is_negative());
    let nack = EventgroupEntry::subscribe_nack(ServiceId(0x1234), InstanceId(0x0001), 1, EventgroupId(0x0001), 0);
    assert!(nack.is_negative());
}

#[test]
fn test_sd_entry_dispatch() {
    let service = ServiceEntry::offer_service(ServiceId(0x1234), InstanceId(0x0001), 1, 0, 3600);
    let bytes = service.to_bytes();
    let entry = SdEntry::from_bytes(&bytes).unwrap();
    assert!(matches!(entry, SdEntry::Service(_)));
    let eventgroup = EventgroupEntry::subscribe(ServiceId(0x1234), InstanceId(0x0001), 1, EventgroupId(0x0001), 3600);
    let bytes = eventgroup.to_bytes();
    let entry = SdEntry::from_bytes(&bytes).unwrap();
    assert!(matches!(entry, SdEntry::Eventgroup(_)));
}

#[test]
fn entry_wire_bytes_and_errors() {
    let mut e = ServiceEntry::offer_service(ServiceId(0x1234), InstanceId(0x0001), 1, 2, 0x1_000_010);
    e.num_options_1 = 1;
    e.num_options_2 = 2;
    assert_eq!(e.ttl, 0x10);
    assert_eq!(
        e.to_bytes(),
        vec![0x01, 0, 0, 0x12, 0x12, 0x34, 0x00, 0x01, 0x01, 0x00, 0x00, 0x10, 0, 0, 0, 2]
    );
    assert!(matches!(ServiceEntry::from_bytes(&[0u8; 5]), Err(SomeIpError::MessageTooShort { expected: 16, actual: 5 })));
    let mut bad = e.to_bytes();
    bad[0] = 0x09;
    assert!(matches!(SdEntry::from_bytes(&bad), Err(SomeIpError::InvalidHeader(_))));
    assert!(matches!(EventgroupEntry::from_bytes(&e.to_bytes()), Err(SomeIpError::InvalidHeader(_))));
    assert!(ServiceEntry::stop_offer_service(ServiceId(1), InstanceId(1), 1, 0).is_stop_offer());
    let s = SdEntry::Service(e);
    assert_eq!(s.service_id(), ServiceId(0x1234));
    assert_eq!(s.instance_id(), InstanceId(1));
    assert_eq!(s.ttl(), 0x10);
}

#[test]
fn test_sd_flags_roundtrip() {
    let flags = SdFlags { reboot: true, unicast: true, explicit_initial_data: false };
    let byte = flags.to_u8();
    assert_eq!(byte, 0xC0);
    let parsed = SdFlags::from_u8(byte);
    assert_eq!(flags, parsed);
}

#[test]
fn test_ipv4_endpoint_roundtrip() {
    let opt = IPv4EndpointOption::new(Ipv4Address::new(192, 168, 1, 100), TransportProtocol::Tcp, 30490);
    let bytes = opt.to_bytes();
    assert_eq!(bytes.len(), IPv4EndpointOption::DATA_SIZE);
    let parsed = IPv4EndpointOption::from_bytes(&bytes).unwrap();
    assert_eq!(opt, parsed);
}

#[test]
fn test_ipv6_endpoint_roundtrip() {
    let opt = IPv6EndpointOption::new(Ipv6Address::new(0x2001, 0x0db8, 0, 0, 0, 0, 0, 1), TransportProtocol::Udp, 30490);
    let bytes = opt.to_bytes();
    assert_eq!(bytes.len(), IPv6EndpointOption::DATA_SIZE);
    let parsed = IPv6EndpointOption::from_bytes(&bytes).unwrap();
    assert_eq!(opt, parsed);
}

#[test]
fn test_sd_option_roundtrip() {
    let opt = SdOption::IPv4Endpoint(IPv4EndpointOption::new(Ipv4Address::new(192, 168, 1, 100), TransportProtocol::Tcp, 30490));
    let bytes = opt.to_bytes();
    let (parsed, size) = SdOption::from_bytes(&bytes).unwrap();
    assert_eq!(opt, parsed);
    assert_eq!(size, bytes.len());
    assert_eq!(bytes, vec![0, 9, 0x04, 0, 192, 168, 1, 100, 0, 0x06, 0x77, 0x1A, 0]);
}

#[test]
fn test_configuration_option() {
    let opt = ConfigurationOption::new("key=value");
    let bytes = opt.to_bytes();
    let parsed = ConfigurationOption::from_bytes(&bytes).unwrap();
    assert_eq!(opt, parsed);
    assert!(matches!(ConfigurationOption::from_bytes(&[0xFF, 0xFE]), Err(SomeIpError::InvalidHeader(_))));
}

#[test]
fn unknown_option_is_kept() {
    let opt = SdOption::Unknown { option_type: 0x02, data: vec![1, 2, 3] };
    let bytes = opt.to_bytes();
    assert_eq!(bytes, vec![0, 3, 0x02, 0, 1, 2, 3]);
    let (parsed, size) = SdOption::from_bytes(&bytes).unwrap();
    assert_eq!(parsed, opt);
    assert_eq!(size, 7);
    assert_eq!(parsed.option_type(), None);
    assert!(matches!(SdOption::from_bytes(&bytes[..5]), Err(SomeIpError::MessageTooShort { expected: 7, actual: 5 })));
}

#[test]
fn test_find_service_message() {
    let msg = SdMessage::find_service(ServiceId(0x1234), InstanceId::any(), 0xFF, 0xFFFFFFFF);
    assert!(msg.is_find_service());
    assert_eq!(msg.entries.len(), 1);
    assert!(msg.options.is_empty());
}

#[test]
fn test_offer_service_message() {
    let msg = SdMessage::offer_service(ServiceId(0x1234), InstanceId(0x0001), 1, 0, 3600, ep_tcp());
    assert!(msg.is_offer_service());
    assert!(!msg.is_stop_offer_service());
    assert_eq!(msg.entries.len(), 1);
    assert_eq!(msg.options.len(), 1);
    let stop = SdMessage::stop_offer_service(ServiceId(0x1234), InstanceId(0x0001), 1, 0);
    assert!(stop.is_stop_offer_service());
    assert!(!stop.is_offer_service());
}

#[test]
fn test_sd_message_roundtrip() {
    let original = SdMessage::offer_service(ServiceId(0x1234), InstanceId(0x0001), 1, 0, 3600, ep_tcp());
    let bytes = original.to_bytes();
    let parsed = SdMessage::from_bytes(&bytes).unwrap();
    assert_eq!(original.flags, parsed.flags);
    assert_eq!(original.entries.len(), parsed.entries.len());
    assert_eq!(original.options.len(), parsed.options.len());
    assert_eq!(original, parsed);
}

#[test]
fn sd_message_roundtrip_mixed_options() {
    let mut m = SdMessage::new();
    m.flags = SdFlags { reboot: true, unicast: false, explicit_initial_data: true };
    m.entries.push(SdEntry::Service(ServiceEntry::find_service(ServiceId(1), InstanceId(2), 3, 4)));
    m.entries.push(SdEntry::Eventgroup(EventgroupEntry::subscribe_ack(ServiceId(5), InstanceId(6), 7, EventgroupId(8), 9, 10)));
    m.options.push(SdOption::Configuration(ConfigurationOption::new("a=b")));
    m.options.push(SdOption::Unknown { option_type: 0x24, data: vec![1, 2, 3, 4] });
    m.options.push(SdOption::IPv6Multicast(IPv6EndpointOption::new(Ipv6Address::new(0xff02, 0, 0, 0, 0, 0, 0, 1), TransportProtocol::Udp, 7)));
    let parsed = SdMessage::from_bytes(&m.to_bytes()).unwrap();
    assert_eq!(parsed, m);
}

#[test]
fn sd_message_skips_unknown_entries() {
    let m = SdMessage::find_service(ServiceId(1), InstanceId(2), 3, 4);
    let mut bytes = m.to_bytes();
    bytes[8] = 0x55;
    let parsed = SdMessage::from_bytes(&bytes).unwrap();
    assert!(parsed.entries.is_empty());
    assert!(matches!(SdMessage::from_bytes(&bytes[..11]), Err(SomeIpError::MessageTooShort { expected: 12, actual: 11 })));
}

#[test]
fn test_to_someip_message() {
    let msg = SdMessage::find_service(ServiceId(0x1234), InstanceId::any(), 0xFF, 0xFFFFFFFF);
    let someip = msg.to_someip_message();
    assert_eq!(someip.header.service_id, ServiceId(SD_SERVICE_ID));
    assert_eq!(someip.header.method_id, MethodId(SD_METHOD_ID));
    assert_eq!(someip.header.message_type, MessageType::Notification);
    let back = SdMessage::from_someip_message(&someip).unwrap();
    assert_eq!(back, msg);
}

#[test]
fn test_get_endpoints_for_entry() {
    let endpoint = ep_tcp();
    let msg = SdMessage::offer_service(ServiceId(0x1234), InstanceId(0x0001), 1, 0, 3600, endpoint.clone());
    let entry = &msg.entries[0];
    let endpoints = msg.get_endpoints_for_entry(entry);
    assert_eq!(endpoints.len(), 1);
    assert_eq!(endpoints[0], endpoint);
}

#[test]
fn option_runs_out_of_bounds_give_nothing() {
    let mut msg = SdMessage::offer_service(ServiceId(1), InstanceId(1), 1, 0, 10, ep_tcp());
    if let SdEntry::Service(e) = &mut msg.entries[0] {
        e.num_options_1 = 2;
    }
    let entry = msg.entries[0];
    assert!(msg.get_options_for_entry(&entry).is_empty());
    assert!(msg.get_endpoints_for_entry(&entry).is_empty());
}

#[test]
fn subscribe_and_ack_messages() {
    let local = Endpoint::udp(SocketAddress::V4(Ipv4Address::new(127, 0, 0, 1), 30501));
    let sub = SdMessage::subscribe_eventgroup(ServiceId(0x1234), InstanceId(1), 1, EventgroupId(1), 30, local);
    assert_eq!(sub.get_endpoints_for_entry(&sub.entries[0]), vec![local]);
    let ack = SdMessage::subscribe_eventgroup_ack(ServiceId(0x1234), InstanceId(1), 1, EventgroupId(1), 30, 0, None);
    assert!(ack.options.is_empty());
    let nack = SdMessage::subscribe_eventgroup_nack(ServiceId(0x1234), InstanceId(1), 1, EventgroupId(1), 0);
    assert!(matches!(nack.entries[0], SdEntry::Eventgroup(e) if e.ttl == 0));
    let unsub = SdMessage::stop_subscribe_eventgroup(ServiceId(0x1234), InstanceId(1), 1, EventgroupId(1));
    assert!(matches!(unsub.entries[0], SdEntry::Eventgroup(e) if e.ttl == 0 && e.entry_type == EntryType::SubscribeEventgroup));
    assert_eq!(Endpoint::from_option(&local.to_option()), Some(local));
}
