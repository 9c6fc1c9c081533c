use someip_rs::header::{MethodId, ServiceId};
use someip_rs::message::SomeIpMessage;
use someip_rs::sd::{
    is_wanted_service, Endpoint, EventgroupId, InstanceId, Ipv4Address, OfferedService, SdClientState, SdEvent,
    SdMessage, SdRequest, SdServerState, ServiceInfo, SocketAddress, TransportProtocol,
};

fn datagram(m: &SdMessage) -> Vec<u8> {
    m.to_someip_message().to_bytes()
}

fn server_addr() -> SocketAddress {
    SocketAddress::V4(Ipv4Address::new(127, 0, 0, 1), 30490)
}

fn client_addr() -> SocketAddress {
    SocketAddress::V4(Ipv4Address::new(127, 0, 0, 1), 40000)
}

fn offered() -> OfferedService {
    OfferedService {
        service_id: ServiceId(0x1234),
        instance_id: InstanceId(0x0001),
        major_version: 1,
        minor_version: 0,
        endpoint: Endpoint::tcp(SocketAddress::V4(Ipv4Address::new(127, 0, 0, 1), 30500)),
        ttl: 10,
    }
}

#[test]
fn test_offered_service() {
    let service = offered();
    assert_eq!(service.service_id, ServiceId(0x1234));
    assert_eq!(service.ttl, 10);
}

#[test]
fn find_then_offer_reaches_client() {
    let mut server = SdServerState::new(1000);
    let announce = server.offer_service(offered());
    assert!(announce.is_offer_service());
    let client = SdClientState::new(0xFFFFFF);
    let find = client.find_service(ServiceId(0x1234), InstanceId(0x0001));
    let (reqs, replies) = server.process_datagram(&datagram(&find), client_addr());
    assert_eq!(reqs.len(), 1);
    let req = reqs.into_iter().next();
    let reply = replies.into_iter().next();
    assert!(matches!(req, Some(SdRequest::FindService { service_id: ServiceId(0x1234), .. })));
    let reply = reply.unwrap();
    assert_eq!(reply.options.len(), 1);
    let mut client = client;
    let ev = client.process_datagram(&datagram(&reply), server_addr(), 5000).into_iter().next().unwrap();
    match &ev {
        SdEvent::ServiceAvailable(info) => {
            assert_eq!(info.endpoints, vec![offered().endpoint]);
            assert_eq!(info.endpoints[0].protocol, TransportProtocol::Tcp);
            assert_eq!(info.remaining_ttl_at(5000), 10);
            assert_eq!(info.expires_at, 15000);
        },
        _ => panic!("expected an offer"),
    }
    assert!(is_wanted_service(&ev, ServiceId(0x1234), InstanceId::any()));
    assert!(!is_wanted_service(&ev, ServiceId(0x1234), InstanceId(2)));
    assert!(client.available_service(ServiceId(0x1234), InstanceId(1), 14999).is_some());
    assert!(client.available_service(ServiceId(0x1234), InstanceId(1), 15000).is_none());
    assert_eq!(client.cleanup_expired(15000), vec![(ServiceId(0x1234), InstanceId(1))]);
    assert!(client.get_service(ServiceId(0x1234), InstanceId(1)).is_none());
}

#[test]
fn find_for_unknown_service_gets_no_reply() {
    let mut server = SdServerState::new(1000);
    let find = SdMessage::find_service(ServiceId(0x9999), InstanceId(1), 0xFF, 0xFFFF_FFFF);
    let (reqs, replies) = server.process(&find, client_addr());
    assert_eq!(reqs.len(), 1);
    assert!(replies.is_empty());
}

#[test]
fn subscribe_ack_flow() {
    let mut server = SdServerState::new(1000);
    server.offer_service(offered());
    let mut client = SdClientState::new(30);
    assert!(client.subscribe(ServiceId(0x1234), InstanceId(1), EventgroupId(1), 1).is_err());
    let local = Endpoint::udp(SocketAddress::V4(Ipv4Address::new(127, 0, 0, 1), 30501));
    client.set_local_endpoint(local);
    let sub = client.subscribe(ServiceId(0x1234), InstanceId(1), EventgroupId(1), 1).unwrap();
    let req = server.process_datagram(&datagram(&sub), client_addr()).0.into_iter().next();
    let (ttl, counter, endpoint) = match req {
        Some(SdRequest::Subscribe { ttl, counter, endpoint, .. }) => (ttl, counter, endpoint),
        _ => panic!("expected a subscribe"),
    };
    assert_eq!(ttl, 30);
    assert_eq!(endpoint, local);
    let ack = server.accept_subscription(ServiceId(0x1234), InstanceId(1), EventgroupId(1), counter, client_addr(), endpoint, ttl, None, 0);
    assert_eq!(server.get_subscribers(ServiceId(0x1234), InstanceId(1), EventgroupId(1), 100), vec![local]);
    let ev = client.process_datagram(&datagram(&ack), server_addr(), 0).into_iter().next().unwrap();
    assert_eq!(
        ev,
        SdEvent::SubscriptionAck {
            service_id: ServiceId(0x1234),
            instance_id: InstanceId(1),
            eventgroup_id: EventgroupId(1),
            multicast_endpoint: None
        }
    );
    let nack = server.reject_subscription(ServiceId(0x1234), InstanceId(1), EventgroupId(1), 0);
    assert!(matches!(client.process(&nack, server_addr(), 0).as_slice(), [SdEvent::SubscriptionNack { .. }]));
    assert_eq!(server.cleanup_expired(30_000), vec![(ServiceId(0x1234), InstanceId(1), EventgroupId(1), client_addr())]);
    assert!(server.get_subscribers(ServiceId(0x1234), InstanceId(1), EventgroupId(1), 0).is_empty());
}

#[test]
fn unsubscribe_and_stop_offer() {
    let mut server = SdServerState::new(1000);
    server.offer_service(offered());
    let ep = Endpoint::udp(SocketAddress::V4(Ipv4Address::new(10, 0, 0, 1), 1));
    server.accept_subscription(ServiceId(0x1234), InstanceId(1), EventgroupId(1), 0, client_addr(), ep, 100, None, 0);
    let client = SdClientState::new(30);
    let unsub = client.unsubscribe(ServiceId(0x1234), InstanceId(1), EventgroupId(1), 1);
    let req = server.process(&unsub, client_addr()).0.into_iter().next();
    assert!(matches!(req, Some(SdRequest::Unsubscribe { .. })));
    assert!(server.get_subscribers(ServiceId(0x1234), InstanceId(1), EventgroupId(1), 0).is_empty());
    let stop = server.stop_offer_service(ServiceId(0x1234), InstanceId(1)).unwrap();
    assert!(server.offered_services().is_empty());
    let mut client = client;
    let _ = client.process(&server.offer_service(offered()), server_addr(), 0);
    assert_eq!(client.services().len(), 1);
    assert_eq!(
        client.process(&stop, server_addr(), 0),
        vec![SdEvent::ServiceUnavailable { service_id: ServiceId(0x1234), instance_id: InstanceId(1) }]
    );
    assert!(client.services().is_empty());
}

#[test]
fn offer_cycle_timing() {
    let mut server = SdServerState::new(1000);
    assert!(server.should_send_offers(0));
    server.offer_service(offered());
    let msgs = server.send_offers(500);
    assert_eq!(msgs.len(), 1);
    assert!(!server.should_send_offers(1499));
    assert!(server.should_send_offers(1500));
}

#[test]
fn short_or_foreign_datagrams_are_ignored() {
    let mut server = SdServerState::new(1000);
    assert_eq!(server.process_datagram(&[1, 2, 3], client_addr()), (vec![], vec![]));
    let plain = SomeIpMessage::request(ServiceId(1), MethodId(1)).payload(vec![0u8; 3]).build();
    assert_eq!(server.process_datagram(&plain.to_bytes(), client_addr()), (vec![], vec![]));
    let mut client = SdClientState::new(1);
    assert!(client.process_datagram(&[0u8; 4], server_addr(), 0).is_empty());
}

#[test]
fn test_service_info_expiry() {
    let now = std::time::SystemTime::now().duration_since(std::time::UNIX_EPOCH).unwrap().as_millis() as u64;
    let info = ServiceInfo {
        service_id: ServiceId(0x1234),
        instance_id: InstanceId(0x0001),
        major_version: 1,
        minor_version: 0,
        endpoints: vec![],
        expires_at: now + 10_000,
        source_addr: SocketAddress::V4(Ipv4Address::new(192, 168, 1, 1), 30490),
    };
    assert!(!info.is_expired());
    assert!(info.remaining_ttl() > 0);
    assert!(info.is_expired_at(now + 10_000));
    assert_eq!(info.remaining_ttl_at(now), 10);
}

#[test]
fn wildcard_find_gets_offer() {
    let mut server = SdServerState::new(1000);
    server.offer_service(offered());
    let find = SdMessage::find_service(ServiceId(0x1234), InstanceId::any(), 0xFF, 0xFFFF_FFFF);
    let (reqs, replies) = server.process_datagram(&datagram(&find), client_addr());
    assert_eq!(reqs.len(), 1);
    let req = reqs.into_iter().next();
    let reply = replies.into_iter().next();
    assert!(matches!(req, Some(SdRequest::FindService { instance_id: InstanceId(0xFFFF), .. })));
    let reply = reply.unwrap();
    assert_eq!(reply, SdMessage::offer_service(ServiceId(0x1234), InstanceId(1), 1, 0, 10, offered().endpoint));
    let other = SdMessage::find_service(ServiceId(0x9999), InstanceId::any(), 0xFF, 0xFFFF_FFFF);
    assert!(server.process(&other, client_addr()).1.is_empty());
}

#[test]
fn ack_without_options_gives_ack_event() {
    let ack = SdMessage::subscribe_eventgroup_ack(ServiceId(0x1234), InstanceId(1), 1, EventgroupId(1), 30, 0, None);
    let mut client = SdClientState::new(30);
    let ev = client.process_datagram(&datagram(&ack), server_addr(), 0);
    assert_eq!(
        ev,
        vec![SdEvent::SubscriptionAck {
            service_id: ServiceId(0x1234),
            instance_id: InstanceId(1),
            eventgroup_id: EventgroupId(1),
            multicast_endpoint: None
        }]
    );
    assert!(client.services().is_empty());
}

#[test]
fn repeated_offer_replaces_entry() {
    let mut client = SdClientState::new(30);
    let offer = SdMessage::offer_service(ServiceId(7), InstanceId(1), 1, 0, 10, offered().endpoint);
    client.process(&offer, server_addr(), 0);
    client.process(&offer, server_addr(), 5000);
    assert_eq!(client.services().len(), 1);
    assert_eq!(client.services()[0].expires_at, 15000);
    assert!(client.available_service(ServiceId(7), InstanceId(1), 14000).is_some());
}

#[test]
fn every_entry_of_a_datagram_is_handled() {
    let mut m = SdMessage::offer_service(ServiceId(1), InstanceId(1), 1, 0, 10, offered().endpoint);
    let second = SdMessage::offer_service(ServiceId(2), InstanceId(1), 1, 0, 20, offered().endpoint);
    let mut e2 = second.entries[0];
    if let someip_rs::sd::SdEntry::Service(x) = &mut e2 {
        x.index_first_option = 0;
    }
    m.entries.push(e2);
    m.entries.push(SdMessage::stop_offer_service(ServiceId(1), InstanceId(1), 1, 0).entries[0]);
    let mut client = SdClientState::new(30);
    let events = client.process(&m, server_addr(), 0);
    assert_eq!(events.len(), 3);
    assert!(matches!(&events[0], SdEvent::ServiceAvailable(i) if i.service_id == ServiceId(1)));
    assert!(matches!(&events[1], SdEvent::ServiceAvailable(i) if i.service_id == ServiceId(2) && i.expires_at == 20_000));
    assert_eq!(events[2], SdEvent::ServiceUnavailable { service_id: ServiceId(1), instance_id: InstanceId(1) });
    assert_eq!(client.services().len(), 1);
    assert_eq!(client.services()[0].service_id, ServiceId(2));

    let mut server = SdServerState::new(1000);
    server.offer_service(offered());
    let ep = Endpoint::udp(SocketAddress::V4(Ipv4Address::new(10, 0, 0, 1), 1));
    server.accept_subscription(ServiceId(0x1234), InstanceId(1), EventgroupId(1), 0, client_addr(), ep, 100, None, 0);
    server.accept_subscription(ServiceId(0x1234), InstanceId(1), EventgroupId(2), 0, client_addr(), ep, 100, None, 0);
    let mut q = SdMessage::find_service(ServiceId(0x1234), InstanceId::any(), 0xFF, 0xFFFF_FFFF);
    q.entries.push(SdMessage::find_service(ServiceId(0x9999), InstanceId(1), 0xFF, 0xFFFF_FFFF).entries[0]);
    q.entries.push(SdMessage::find_service(ServiceId(0x1234), InstanceId(1), 0xFF, 0xFFFF_FFFF).entries[0]);
    q.entries.push(SdMessage::stop_subscribe_eventgroup(ServiceId(0x1234), InstanceId(1), 1, EventgroupId(1)).entries[0]);
    q.entries.push(SdMessage::stop_subscribe_eventgroup(ServiceId(0x1234), InstanceId(1), 1, EventgroupId(2)).entries[0]);
    let (reqs, replies) = server.process(&q, client_addr());
    assert_eq!(reqs.len(), 5);
    assert_eq!(replies.len(), 2);
    assert!(server.get_subscribers(ServiceId(0x1234), InstanceId(1), EventgroupId(1), 0).is_empty());
    assert!(server.get_subscribers(ServiceId(0x1234), InstanceId(1), EventgroupId(2), 0).is_empty());
}
