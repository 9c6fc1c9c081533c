//! The state of a discovery client: the cache of offered services and the
//! messages it sends. The client's socket is driven elsewhere. Times are in
//! milliseconds.
use vstd::prelude::*;
use crate::error::{Result, SomeIpError};
use crate::header::ServiceId;
use crate::sd::entry::SdEntry;
use crate::sd::message::{endpoints_in, options_for, parse_sd, SdMessage, SdMessageView};
use crate::sd::option::{Endpoint, SdOptionView, SocketAddress};
use crate::sd::types::{EntryType, EventgroupId, InstanceId};

verus! {

/// A discovered service.
#[derive(Debug, Clone, PartialEq, Eq)]
pub struct ServiceInfo {
    pub service_id: ServiceId,
    pub instance_id: InstanceId,
    pub major_version: u8,
    pub minor_version: u32,
    /// Endpoints the offer named.
    pub endpoints: Vec<Endpoint>,
    /// When the offer expires.
    pub expires_at: u64,
    /// Where the offer came from.
    pub source_addr: SocketAddress,
}

/// What a discovered service holds.
pub struct ServiceInfoView {
    pub service_id: ServiceId,
    pub instance_id: InstanceId,
    pub major_version: u8,
    pub minor_version: u32,
    pub endpoints: Seq<Endpoint>,
    pub expires_at: u64,
    pub source_addr: SocketAddress,
}

impl View for ServiceInfo {
    type V = ServiceInfoView;

    open spec fn view(&self) -> ServiceInfoView {
        ServiceInfoView {
            service_id: self.service_id,
            instance_id: self.instance_id,
            major_version: self.major_version,
            minor_version: self.minor_version,
            endpoints: self.endpoints@,
            expires_at: self.expires_at,
            source_addr: self.source_addr,
        }
    }
}

impl ServiceInfo {
    /// Whether the offer has expired at `now`.
    pub fn is_expired_at(&self, now: u64) -> (r: bool)
        ensures
            r == (now >= self.expires_at),
    {
        now >= self.expires_at
    }

    /// Whole seconds left of the offer at `now`.
    pub fn remaining_ttl_at(&self, now: u64) -> (r: u32)
        ensures
            now >= self.expires_at ==> r == 0,
            now < self.expires_at ==> r == ((self.expires_at - now) / 1000) as u32,
    {
        if now >= self.expires_at {
            0
        } else {
            ((self.expires_at - now) / 1000) as u32
        }
    }

    /// Whether the offer has expired now.
    pub fn is_expired(&self) -> (r: bool)
        ensures
            self.expires_at == 0 ==> r,
    {
        self.is_expired_at(crate::clock::clock_millis())
    }

    /// Whole seconds left of the offer now.
    pub fn remaining_ttl(&self) -> (r: u32)
        ensures
            r <= self.expires_at / 1000,
    {
        self.remaining_ttl_at(crate::clock::clock_millis())
    }

    fn copy(&self) -> (r: ServiceInfo)
        ensures
            r@ == self@,
    {
        ServiceInfo {
            service_id: self.service_id,
            instance_id: self.instance_id,
            major_version: self.major_version,
            minor_version: self.minor_version,
            endpoints: copy_endpoints(&self.endpoints),
            expires_at: self.expires_at,
            source_addr: self.source_addr,
        }
    }
}

fn copy_endpoints(v: &Vec<Endpoint>) -> (r: Vec<Endpoint>)
    ensures
        r@ == v@,
{
    let mut out: Vec<Endpoint> = Vec::new();
    let mut k: usize = 0;
    while k < v.len()
        invariant
            0 <= k <= v@.len(),
            out@ == v@.subrange(0, k as int),
        decreases v@.len() - k,
    {
        out.push(v[k]);
        assert(out@ =~= v@.subrange(0, k + 1));
        k = k + 1;
    }
    assert(v@.subrange(0, v@.len() as int) =~= v@);
    out
}

/// An event that reached the client.
#[derive(Debug, Clone, PartialEq, Eq)]
pub enum SdEvent {
    /// A service was offered.
    ServiceAvailable(ServiceInfo),
    /// A service was withdrawn.
    ServiceUnavailable { service_id: ServiceId, instance_id: InstanceId },
    /// A subscription was acknowledged, naming a multicast endpoint if any.
    SubscriptionAck {
        service_id: ServiceId,
        instance_id: InstanceId,
        eventgroup_id: EventgroupId,
        multicast_endpoint: Option<Endpoint>,
    },
    /// A subscription was rejected.
    SubscriptionNack { service_id: ServiceId, instance_id: InstanceId, eventgroup_id: EventgroupId },
}

/// Whether entry `e` makes an event at a client: an offer or an acknowledgement.
pub open spec fn client_decides(e: SdEntry) -> bool {
    match e {
        SdEntry::Service(x) => x.entry_type == EntryType::OfferService,
        SdEntry::Eventgroup(x) => x.entry_type == EntryType::SubscribeEventgroupAck,
    }
}

/// `now + secs` seconds, saturating.
pub open spec fn expiry(now: u64, secs: u32) -> u64 {
    if now + secs as int * 1000 <= u64::MAX {
        (now + secs as int * 1000) as u64
    } else {
        u64::MAX
    }
}

/// The event that entry `e` (which decides) makes, received from `from` at `now`.
pub open spec fn event_matches(ev: SdEvent, e: SdEntry, os: Seq<SdOptionView>, from: SocketAddress, now: u64) -> bool {
    let eps = endpoints_in(options_for(os, e));
    match e {
        SdEntry::Service(x) => if x.ttl == 0 {
            ev == SdEvent::ServiceUnavailable { service_id: x.service_id, instance_id: x.instance_id }
        } else {
            ev matches SdEvent::ServiceAvailable(info) && info@ == offered_info(x, eps, from, now)
        },
        SdEntry::Eventgroup(x) => if x.ttl == 0 {
            ev == SdEvent::SubscriptionNack {
                service_id: x.service_id,
                instance_id: x.instance_id,
                eventgroup_id: x.eventgroup_id,
            }
        } else {
            ev == SdEvent::SubscriptionAck {
                service_id: x.service_id,
                instance_id: x.instance_id,
                eventgroup_id: x.eventgroup_id,
                multicast_endpoint: if eps.len() > 0 { Some(eps[0]) } else { None },
            }
        },
    }
}

/// What an offer entry `x` tells of its service.
pub open spec fn offered_info(x: crate::sd::entry::ServiceEntry, eps: Seq<Endpoint>, from: SocketAddress, now: u64) -> ServiceInfoView {
    ServiceInfoView {
        service_id: x.service_id,
        instance_id: x.instance_id,
        major_version: x.major_version,
        minor_version: x.minor_version,
        endpoints: eps,
        expires_at: expiry(now, x.ttl),
        source_addr: from,
    }
}

/// The services of `s` other than `(sid, iid)`, in order.
pub open spec fn without_service(s: Seq<ServiceInfoView>, sid: ServiceId, iid: InstanceId) -> Seq<ServiceInfoView>
    decreases s.len(),
{
    if s.len() == 0 {
        s
    } else if s.last().service_id == sid && s.last().instance_id == iid {
        without_service(s.drop_last(), sid, iid)
    } else {
        without_service(s.drop_last(), sid, iid).push(s.last())
    }
}

/// The services of `s` whose offer has not expired at `now`, in order.
pub open spec fn unexpired(s: Seq<ServiceInfoView>, now: u64) -> Seq<ServiceInfoView>
    decreases s.len(),
{
    if s.len() == 0 {
        s
    } else if now >= s.last().expires_at {
        unexpired(s.drop_last(), now)
    } else {
        unexpired(s.drop_last(), now).push(s.last())
    }
}

/// The index of the first known service `(sid, iid)` in `s`, or `s.len()`.
pub open spec fn find_service_index(s: Seq<ServiceInfoView>, sid: ServiceId, iid: InstanceId) -> int
    decreases s.len(),
{
    if s.len() == 0 {
        0
    } else if find_service_index(s.drop_last(), sid, iid) < s.len() - 1 {
        find_service_index(s.drop_last(), sid, iid)
    } else if s.last().service_id == sid && s.last().instance_id == iid {
        s.len() - 1
    } else {
        s.len() as int
    }
}

proof fn lemma_find_service_index(s: Seq<ServiceInfoView>, sid: ServiceId, iid: InstanceId, k: int)
    requires
        0 <= k <= s.len(),
        forall|j: int| 0 <= j < k ==> !(#[trigger] s[j].service_id == sid && s[j].instance_id == iid),
        k < s.len() ==> s[k].service_id == sid && s[k].instance_id == iid,
    ensures
        find_service_index(s, sid, iid) == k,
    decreases s.len(),
{
    if s.len() > 0 {
        let t = s.drop_last();
        if k < s.len() - 1 {
            assert forall|j: int| 0 <= j < k implies !(#[trigger] t[j].service_id == sid && t[j].instance_id == iid) by {
                assert(t[j] == s[j]);
            }
            lemma_find_service_index(t, sid, iid, k);
        } else {
            assert forall|j: int| 0 <= j < t.len() implies !(#[trigger] t[j].service_id == sid && t[j].instance_id == iid) by {
                assert(t[j] == s[j]);
            }
            lemma_find_service_index(t, sid, iid, t.len() as int);
        }
    }
}

/// `s` with `info` recorded: it replaces the first entry of the same service
/// and instance, or goes last when there is none.
pub open spec fn with_service(s: Seq<ServiceInfoView>, info: ServiceInfoView) -> Seq<ServiceInfoView> {
    let k = find_service_index(s, info.service_id, info.instance_id);
    if k < s.len() {
        s.update(k, info)
    } else {
        s.push(info)
    }
}

/// The keys of the services of `s` whose offer has expired at `now`, in order.
pub open spec fn expired_keys(s: Seq<ServiceInfoView>, now: u64) -> Seq<(ServiceId, InstanceId)>
    decreases s.len(),
{
    if s.len() == 0 {
        Seq::empty()
    } else if now >= s.last().expires_at {
        expired_keys(s.drop_last(), now).push((s.last().service_id, s.last().instance_id))
    } else {
        expired_keys(s.drop_last(), now)
    }
}

/// The entries of `es` that make an event at a client, in order.
pub open spec fn client_deciding(es: Seq<SdEntry>) -> Seq<SdEntry>
    decreases es.len(),
{
    if es.len() == 0 {
        Seq::empty()
    } else if client_decides(es.last()) {
        client_deciding(es.drop_last()).push(es.last())
    } else {
        client_deciding(es.drop_last())
    }
}

/// The known services after entry `e` of a message with options `os` from
/// `from` at `now`: an offer with TTL 0 forgets its service, another offer
/// records it; other entries change nothing.
pub open spec fn apply_entry(known: Seq<ServiceInfoView>, e: SdEntry, os: Seq<SdOptionView>, from: SocketAddress, now: u64) -> Seq<ServiceInfoView> {
    match e {
        SdEntry::Service(x) => if x.entry_type == EntryType::OfferService {
            if x.ttl == 0 {
                without_service(known, x.service_id, x.instance_id)
            } else {
                with_service(known, offered_info(x, endpoints_in(options_for(os, e)), from, now))
            }
        } else {
            known
        },
        SdEntry::Eventgroup(_) => known,
    }
}

/// The known services after every entry of `es`, in order.
pub open spec fn apply_entries(known: Seq<ServiceInfoView>, es: Seq<SdEntry>, os: Seq<SdOptionView>, from: SocketAddress, now: u64) -> Seq<ServiceInfoView>
    decreases es.len(),
{
    if es.len() == 0 {
        known
    } else {
        apply_entry(apply_entries(known, es.drop_last(), os, from, now), es.last(), os, from, now)
    }
}

/// The outcome of handling SD message `v` from `from` at `now` with known
/// services `known` (`known2` after): every offer or acknowledgement, in
/// order, makes one event; every offer updates the known services in turn
/// (TTL 0 forgets the service, another TTL records it).
pub open spec fn client_outcome(
    known: Seq<ServiceInfoView>,
    known2: Seq<ServiceInfoView>,
    v: SdMessageView,
    from: SocketAddress,
    now: u64,
    r: Seq<SdEvent>,
) -> bool {
    &&& r.len() == client_deciding(v.1).len()
    &&& forall|i: int| 0 <= i < r.len() ==> event_matches(#[trigger] r[i], client_deciding(v.1)[i], v.2, from, now)
    &&& known2 == apply_entries(known, v.1, v.2, from, now)
}

/// The state of a discovery client.
pub struct SdClientState {
    services: Vec<ServiceInfo>,
    subscribe_ttl: u32,
    local_endpoint: Option<Endpoint>,
}

impl SdClientState {
    /// The known services, in order of first offer.
    pub closed spec fn known(&self) -> Seq<ServiceInfoView> {
        self.services@.map_values(|x: ServiceInfo| x@)
    }

    /// The endpoint that subscriptions name, once set.
    pub closed spec fn local(&self) -> Option<Endpoint> {
        self.local_endpoint
    }

    /// The TTL of subscriptions.
    pub closed spec fn sub_ttl(&self) -> u32 {
        self.subscribe_ttl
    }

    /// A client that knows no service; its subscriptions last `subscribe_ttl` seconds.
    pub fn new(subscribe_ttl: u32) -> (r: SdClientState)
        ensures
            r.known().len() == 0,
            r.local() is None,
            r.sub_ttl() == subscribe_ttl,
    {
        let r = SdClientState { services: Vec::new(), subscribe_ttl, local_endpoint: None };
        assert(r.known() =~= Seq::<ServiceInfoView>::empty());
        r
    }

    /// Set the endpoint that subscriptions name.
    pub fn set_local_endpoint(&mut self, endpoint: Endpoint)
        ensures
            final(self).local() == Some(endpoint),
            final(self).known() == old(self).known(),
            final(self).sub_ttl() == old(self).sub_ttl(),
    {
        self.local_endpoint = Some(endpoint);
    }

    /// The find message for any version of a service.
    pub fn find_service(&self, service_id: ServiceId, instance_id: InstanceId) -> (r: SdMessage)
        ensures
            r@.1 == seq![SdEntry::Service(crate::sd::entry::ServiceEntry::spec_plain(
                EntryType::FindService,
                service_id,
                instance_id,
                0xFF,
                0xFFFF_FFFF,
                0xFF_FFFF,
            ))],
            r@.2.len() == 0,
    {
        self.find_service_version(service_id, instance_id, 0xFF, 0xFFFF_FFFF)
    }

    /// The find message for a version of a service.
    pub fn find_service_version(&self, service_id: ServiceId, instance_id: InstanceId, major_version: u8, minor_version: u32) -> (r: SdMessage)
        ensures
            r@.1 == seq![SdEntry::Service(crate::sd::entry::ServiceEntry::spec_plain(
                EntryType::FindService,
                service_id,
                instance_id,
                major_version,
                minor_version,
                0xFF_FFFF,
            ))],
            r@.2.len() == 0,
    {
        SdMessage::find_service(service_id, instance_id, major_version, minor_version)
    }

    /// The subscribe message naming the local endpoint; an invalid-header
    /// error when no local endpoint is set.
    pub fn subscribe(&self, service_id: ServiceId, instance_id: InstanceId, eventgroup_id: EventgroupId, major_version: u8) -> (r: Result<SdMessage>)
        ensures
            self.local() is None ==> r matches Err(SomeIpError::InvalidHeader(_)),
            self.local() matches Some(ep) ==> (r matches Ok(m) && m@.1 == seq![SdEntry::Eventgroup(crate::sd::entry::EventgroupEntry {
                num_options_1: 1,
                ..crate::sd::entry::EventgroupEntry::spec_plain(
                    EntryType::SubscribeEventgroup,
                    service_id,
                    instance_id,
                    major_version,
                    eventgroup_id,
                    self.sub_ttl() % 0x100_0000,
                    0,
                )
            })] && m@.2.len() == 1 && crate::sd::option::endpoint_of(m@.2[0]) == Some(ep)),
    {
        match self.local_endpoint {
            Some(ep) => Ok(
                SdMessage::subscribe_eventgroup(service_id, instance_id, major_version, eventgroup_id, self.subscribe_ttl, ep),
            ),
            None => Err(SomeIpError::invalid_header("Local endpoint not set for subscription")),
        }
    }

    /// The unsubscribe message.
    pub fn unsubscribe(&self, service_id: ServiceId, instance_id: InstanceId, eventgroup_id: EventgroupId, major_version: u8) -> (r: SdMessage)
        ensures
            r@.1 == seq![SdEntry::Eventgroup(crate::sd::entry::EventgroupEntry::spec_plain(
                EntryType::SubscribeEventgroup,
                service_id,
                instance_id,
                major_version,
                eventgroup_id,
                0,
                0,
            ))],
            r@.2.len() == 0,
    {
        SdMessage::stop_subscribe_eventgroup(service_id, instance_id, major_version, eventgroup_id)
    }

    /// The known service `(service_id, instance_id)`, if any.
    pub fn get_service(&self, service_id: ServiceId, instance_id: InstanceId) -> (r: Option<&ServiceInfo>)
        ensures
            r matches Some(info) ==> info.service_id == service_id && info.instance_id == instance_id
                && self.known().contains(info@),
            r is None ==> forall|j: int| 0 <= j < self.known().len() ==> !(#[trigger] self.known()[j].service_id
                == service_id && self.known()[j].instance_id == instance_id),
    {
        let mut k: usize = 0;
        while k < self.services.len()
            invariant
                0 <= k <= self.services@.len(),
                forall|j: int| 0 <= j < k ==> !(#[trigger] self.known()[j].service_id == service_id && self.known()[j].instance_id
                    == instance_id),
            decreases self.services@.len() - k,
        {
            if self.services[k].service_id == service_id && self.services[k].instance_id == instance_id {
                assert(self.known()[k as int] == self.services@[k as int]@);
                return Some(&self.services[k]);
            }
            k = k + 1;
        }
        None
    }

    /// The known services.
    pub fn services(&self) -> (r: &Vec<ServiceInfo>)
        ensures
            r@.map_values(|x: ServiceInfo| x@) == self.known(),
    {
        &self.services
    }

    fn remove_service(&mut self, service_id: ServiceId, instance_id: InstanceId)
        ensures
            final(self).known() == without_service(old(self).known(), service_id, instance_id),
            final(self).local() == old(self).local(),
            final(self).sub_ttl() == old(self).sub_ttl(),
    {
        let ghost s = self.known();
        let mut kept: Vec<ServiceInfo> = Vec::new();
        let mut rest: Vec<ServiceInfo> = Vec::new();
        core::mem::swap(&mut rest, &mut self.services);
        let ghost src = rest@;
        let n0 = rest.len();
        let mut k: usize = 0;
        while rest.len() > 0
            invariant
                src.len() == n0,
                0 <= k <= src.len(),
                rest@ == src.subrange(k as int, src.len() as int),
                src.map_values(|x: ServiceInfo| x@) == s,
                kept@.map_values(|x: ServiceInfo| x@) == without_service(s.subrange(0, k as int), service_id, instance_id),
            decreases rest@.len(),
        {
            assert(k < src.len());
            let x = rest.remove(0);
            proof {
                assert(x == src[k as int]);
                assert(s.subrange(0, k + 1).drop_last() =~= s.subrange(0, k as int));
                assert(s.subrange(0, k + 1).last() == x@);
            }
            if !(x.service_id == service_id && x.instance_id == instance_id) {
                let ghost before = kept@;
                kept.push(x);
                assert(kept@.map_values(|y: ServiceInfo| y@) =~= before.map_values(|y: ServiceInfo| y@).push(x@));
            }
            k = k + 1;
            assert(rest@ =~= src.subrange(k as int, src.len() as int));
        }
        assert(s.subrange(0, src.len() as int) =~= s);
        self.services = kept;
    }

    fn find(&self, service_id: ServiceId, instance_id: InstanceId) -> (r: usize)
        ensures
            r <= self.known().len(),
            forall|j: int| 0 <= j < r ==> !(#[trigger] self.known()[j].service_id == service_id && self.known()[j].instance_id
                == instance_id),
            r < self.known().len() ==> self.known()[r as int].service_id == service_id && self.known()[r as int].instance_id
                == instance_id,
            r == find_service_index(self.known(), service_id, instance_id),
    {
        let mut k: usize = 0;
        while k < self.services.len()
            invariant
                0 <= k <= self.services@.len(),
                forall|j: int| 0 <= j < k ==> !(#[trigger] self.known()[j].service_id == service_id && self.known()[j].instance_id
                    == instance_id),
            decreases self.services@.len() - k,
        {
            if self.services[k].service_id == service_id && self.services[k].instance_id == instance_id {
                proof {
                    lemma_find_service_index(self.known(), service_id, instance_id, k as int);
                }
                return k;
            }
            k = k + 1;
        }
        proof {
            lemma_find_service_index(self.known(), service_id, instance_id, k as int);
        }
        k
    }

    fn upsert_service(&mut self, info: ServiceInfo)
        ensures
            final(self).known() == with_service(old(self).known(), info@),
            final(self).local() == old(self).local(),
            final(self).sub_ttl() == old(self).sub_ttl(),
    {
        let ghost s = self.known();
        let ghost iv = info@;
        let k = self.find(info.service_id, info.instance_id);
        if k < self.services.len() {
            self.services.set(k, info);
            assert(self.known() =~= s.update(k as int, iv));
            assert(self.known()[k as int] == iv);
        } else {
            self.services.push(info);
            assert(self.known() =~= s.push(iv));
            assert(self.known()[s.len() as int] == iv);
        }
    }

    /// Handle an SD message from `from` at `now`, entry by entry: an offer
    /// with TTL 0 forgets the service and reports it unavailable; another
    /// offer records it (replacing what was known of it) and reports it
    /// available; an acknowledgement with TTL 0 reports a rejection, another
    /// one an acknowledgement with the first endpoint it names. Find and
    /// subscribe entries are ignored. The events come in entry order.
    pub fn process(&mut self, msg: &SdMessage, from: SocketAddress, now: u64) -> (r: Vec<SdEvent>)
        ensures
            client_outcome(old(self).known(), final(self).known(), msg@, from, now, r@),
            final(self).local() == old(self).local(),
            final(self).sub_ttl() == old(self).sub_ttl(),
    {
        let ghost es = msg@.1;
        let ghost os = msg@.2;
        let mut events: Vec<SdEvent> = Vec::new();
        let mut j: usize = 0;
        assert(es.subrange(0, 0) =~= Seq::<SdEntry>::empty());
        while j < msg.entries.len()
            invariant
                0 <= j <= es.len(),
                es == msg@.1,
                os == msg@.2,
                events@.len() == client_deciding(es.subrange(0, j as int)).len(),
                forall|i: int|
                    0 <= i < events@.len() ==> event_matches(
                        #[trigger] events@[i],
                        client_deciding(es.subrange(0, j as int))[i],
                        os,
                        from,
                        now,
                    ),
                self.known() == apply_entries(old(self).known(), es.subrange(0, j as int), os, from, now),
                self.local() == old(self).local(),
                self.sub_ttl() == old(self).sub_ttl(),
            decreases es.len() - j,
        {
            let entry = msg.entries[j];
            let ghost pre = es.subrange(0, j as int);
            let ghost next = es.subrange(0, j + 1);
            let ghost known_before = self.known();
            let ghost events_before = events@;
            assert(next.drop_last() =~= pre);
            assert(next.last() == entry);
            let mut event: Option<SdEvent> = None;
            match entry {
                SdEntry::Service(x) => {
                    if x.entry_type == EntryType::OfferService {
                        if x.ttl == 0 {
                            self.remove_service(x.service_id, x.instance_id);
                            event = Some(SdEvent::ServiceUnavailable { service_id: x.service_id, instance_id: x.instance_id });
                        } else {
                            let endpoints = msg.get_endpoints_for_entry(&entry);
                            let ms: u64 = (x.ttl as u64) * 1000;
                            let info = ServiceInfo {
                                service_id: x.service_id,
                                instance_id: x.instance_id,
                                major_version: x.major_version,
                                minor_version: x.minor_version,
                                endpoints,
                                expires_at: now.saturating_add(ms),
                                source_addr: from,
                            };
                            let event_info = info.copy();
                            self.upsert_service(info);
                            event = Some(SdEvent::ServiceAvailable(event_info));
                        }
                    }
                },
                SdEntry::Eventgroup(x) => {
                    if x.entry_type == EntryType::SubscribeEventgroupAck {
                        if x.ttl == 0 {
                            event = Some(
                                SdEvent::SubscriptionNack {
                                    service_id: x.service_id,
                                    instance_id: x.instance_id,
                                    eventgroup_id: x.eventgroup_id,
                                },
                            );
                        } else {
                            let endpoints = msg.get_endpoints_for_entry(&entry);
                            let multicast_endpoint = if endpoints.len() > 0 { Some(endpoints[0]) } else { None };
                            event = Some(
                                SdEvent::SubscriptionAck {
                                    service_id: x.service_id,
                                    instance_id: x.instance_id,
                                    eventgroup_id: x.eventgroup_id,
                                    multicast_endpoint,
                                },
                            );
                        }
                    }
                },
            }
            proof {
                assert(self.known() == apply_entry(known_before, entry, os, from, now));
                assert(event is Some == client_decides(entry));
            }
            match event {
                Some(ev) => {
                    proof {
                        assert(event_matches(ev, entry, os, from, now));
                    }
                    events.push(ev);
                    assert(client_deciding(next) == client_deciding(pre).push(entry));
                    assert forall|i: int| 0 <= i < events@.len() implies event_matches(
                        #[trigger] events@[i],
                        client_deciding(next)[i],
                        os,
                        from,
                        now,
                    ) by {
                        if i < events_before.len() {
                            assert(events@[i] == events_before[i]);
                        }
                    }
                },
                None => {},
            }
            j = j + 1;
        }
        assert(es.subrange(0, es.len() as int) =~= es);
        events
    }

    /// Handle a received datagram: a SOME/IP header and an SD payload. A
    /// datagram too short for the header, or whose payload is no valid SD
    /// message, is ignored.
    pub fn process_datagram(&mut self, data: &[u8], from: SocketAddress, now: u64) -> (r: Vec<SdEvent>)
        ensures
            data@.len() < 16 ==> r@.len() == 0 && final(self).known() == old(self).known(),
            data@.len() >= 16 ==> match parse_sd(data@.subrange(16, data@.len() as int)) {
                Some(Ok(v)) => client_outcome(old(self).known(), final(self).known(), v, from, now, r@),
                _ => r@.len() == 0 && final(self).known() == old(self).known(),
            },
            final(self).local() == old(self).local(),
            final(self).sub_ttl() == old(self).sub_ttl(),
    {
        if data.len() < 16 {
            return Vec::new();
        }
        match SdMessage::from_bytes(vstd::slice::slice_subrange(data, 16, data.len())) {
            Ok(msg) => self.process(&msg, from, now),
            Err(_) => Vec::new(),
        }
    }

    /// Forget the services whose offer has expired at `now`; return their keys.
    pub fn cleanup_expired(&mut self, now: u64) -> (r: Vec<(ServiceId, InstanceId)>)
        ensures
            final(self).known() == unexpired(old(self).known(), now),
            r@ == expired_keys(old(self).known(), now),
            final(self).local() == old(self).local(),
    {
        let ghost s = self.known();
        let mut kept: Vec<ServiceInfo> = Vec::new();
        let mut gone: Vec<(ServiceId, InstanceId)> = Vec::new();
        let mut rest: Vec<ServiceInfo> = Vec::new();
        core::mem::swap(&mut rest, &mut self.services);
        let ghost src = rest@;
        let n0 = rest.len();
        let mut k: usize = 0;
        while rest.len() > 0
            invariant
                src.len() == n0,
                0 <= k <= src.len(),
                rest@ == src.subrange(k as int, src.len() as int),
                src.map_values(|x: ServiceInfo| x@) == s,
                kept@.map_values(|x: ServiceInfo| x@) == unexpired(s.subrange(0, k as int), now),
                gone@ == expired_keys(s.subrange(0, k as int), now),
            decreases rest@.len(),
        {
            assert(k < src.len());
            let x = rest.remove(0);
            proof {
                assert(x == src[k as int]);
                assert(s.subrange(0, k + 1).drop_last() =~= s.subrange(0, k as int));
                assert(s.subrange(0, k + 1).last() == x@);
            }
            if now >= x.expires_at {
                gone.push((x.service_id, x.instance_id));
                assert(gone@ =~= expired_keys(s.subrange(0, k + 1), now));
            } else {
                let ghost before = kept@;
                kept.push(x);
                assert(kept@.map_values(|y: ServiceInfo| y@) =~= before.map_values(|y: ServiceInfo| y@).push(x@));
            }
            k = k + 1;
            assert(rest@ =~= src.subrange(k as int, src.len() as int));
        }
        assert(s.subrange(0, src.len() as int) =~= s);
        self.services = kept;
        gone
    }

    /// A known service `(service_id, instance_id)` whose offer has not
    /// expired at `now`, if any: what waiting for a service first looks at.
    pub fn available_service(&self, service_id: ServiceId, instance_id: InstanceId, now: u64) -> (r: Option<&ServiceInfo>)
        ensures
            r matches Some(info) ==> info.service_id == service_id && info.instance_id == instance_id && now < info.expires_at
                && self.known().contains(info@),
            r is None ==> forall|j: int|
                0 <= j < self.known().len() && #[trigger] self.known()[j].service_id == service_id && self.known()[j].instance_id
                    == instance_id ==> now >= self.known()[j].expires_at,
    {
        let mut k: usize = 0;
        while k < self.services.len()
            invariant
                0 <= k <= self.services@.len(),
                forall|j: int|
                    0 <= j < k && #[trigger] self.known()[j].service_id == service_id && self.known()[j].instance_id
                        == instance_id ==> now >= self.known()[j].expires_at,
            decreases self.services@.len() - k,
        {
            let x = &self.services[k];
            assert(self.known()[k as int] == self.services@[k as int]@);
            if x.service_id == service_id && x.instance_id == instance_id && now < x.expires_at {
                return Some(x);
            }
            k = k + 1;
        }
        None
    }
}

/// Whether an event reports the availability of the wanted service: the
/// service ID matches, and the instance does or the wildcard was asked for.
pub fn is_wanted_service(event: &SdEvent, service_id: ServiceId, instance_id: InstanceId) -> (r: bool)
    ensures
        r == (event matches SdEvent::ServiceAvailable(info) && info.service_id == service_id && (instance_id.0
            == 0xFFFF || info.instance_id == instance_id)),
{
    match event {
        SdEvent::ServiceAvailable(info) => info.service_id == service_id && (instance_id.is_any()
            || info.instance_id == instance_id),
        _ => false,
    }
}

} // verus!
