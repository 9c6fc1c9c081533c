//! The state of a discovery server: offered services, subscriptions and the
//! offer cycle. The server's socket is driven elsewhere; these functions say
//! which messages go out and which requests come in. Times are in milliseconds.
use vstd::prelude::*;
use crate::header::ServiceId;
use crate::sd::entry::SdEntry;
use crate::sd::message::{endpoints_in, options_for, parse_sd, SdMessage, SdMessageView};
use crate::sd::option::{Endpoint, SocketAddress};
use crate::sd::types::{EntryType, EventgroupId, InstanceId};

verus! {

/// A service offered by the server.
#[derive(Debug, Clone, Copy, PartialEq, Eq, Structural)]
pub struct OfferedService {
    pub service_id: ServiceId,
    pub instance_id: InstanceId,
    pub major_version: u8,
    pub minor_version: u32,
    pub endpoint: Endpoint,
    pub ttl: u32,
}

/// An accepted subscription.
#[derive(Debug, Clone, Copy, PartialEq, Eq, Structural)]
pub struct Subscription {
    pub service_id: ServiceId,
    pub instance_id: InstanceId,
    pub eventgroup_id: EventgroupId,
    pub client_addr: SocketAddress,
    pub client_endpoint: Endpoint,
    pub counter: u8,
    pub expires_at: u64,
}

/// A request that reached the server.
#[derive(Debug, Clone, Copy, PartialEq, Eq, Structural)]
pub enum SdRequest {
    FindService {
        service_id: ServiceId,
        instance_id: InstanceId,
        major_version: u8,
        minor_version: u32,
        from: SocketAddress,
    },
    Subscribe {
        service_id: ServiceId,
        instance_id: InstanceId,
        eventgroup_id: EventgroupId,
        major_version: u8,
        ttl: u32,
        counter: u8,
        endpoint: Endpoint,
        from: SocketAddress,
    },
    Unsubscribe { service_id: ServiceId, instance_id: InstanceId, eventgroup_id: EventgroupId, from: SocketAddress },
}

/// Whether entry `e` of a message with options `os` makes a request: a find,
/// an unsubscribe, or a subscribe that names an endpoint.
pub open spec fn server_decides(e: SdEntry, os: Seq<crate::sd::option::SdOptionView>) -> bool {
    match e {
        SdEntry::Service(x) => x.entry_type == EntryType::FindService,
        SdEntry::Eventgroup(x) => x.entry_type == EntryType::SubscribeEventgroup && (x.ttl == 0 || endpoints_in(
            options_for(os, e),
        ).len() > 0),
    }
}

/// The request that entry `e` (which decides) makes.
pub open spec fn server_request(e: SdEntry, os: Seq<crate::sd::option::SdOptionView>, from: SocketAddress) -> SdRequest {
    match e {
        SdEntry::Service(x) => SdRequest::FindService {
            service_id: x.service_id,
            instance_id: x.instance_id,
            major_version: x.major_version,
            minor_version: x.minor_version,
            from,
        },
        SdEntry::Eventgroup(x) => if x.ttl == 0 {
            SdRequest::Unsubscribe {
                service_id: x.service_id,
                instance_id: x.instance_id,
                eventgroup_id: x.eventgroup_id,
                from,
            }
        } else {
            SdRequest::Subscribe {
                service_id: x.service_id,
                instance_id: x.instance_id,
                eventgroup_id: x.eventgroup_id,
                major_version: x.major_version,
                ttl: x.ttl,
                counter: x.counter,
                endpoint: endpoints_in(options_for(os, e))[0],
                from,
            }
        },
    }
}

/// The index of the offer of `(s, i)` in `offers`, or `offers.len()`.
pub open spec fn find_offer(offers: Seq<OfferedService>, s: ServiceId, i: InstanceId) -> int
    decreases offers.len(),
{
    if offers.len() == 0 {
        0
    } else if find_offer(offers.drop_last(), s, i) < offers.len() - 1 {
        find_offer(offers.drop_last(), s, i)
    } else if offers.last().service_id == s && offers.last().instance_id == i {
        offers.len() - 1
    } else {
        offers.len() as int
    }
}

proof fn lemma_find_offer(offers: Seq<OfferedService>, s: ServiceId, i: InstanceId, k: int)
    requires
        0 <= k <= offers.len(),
        forall|j: int| 0 <= j < k ==> !(offers[j].service_id == s && offers[j].instance_id == i),
        k < offers.len() ==> offers[k].service_id == s && offers[k].instance_id == i,
    ensures
        find_offer(offers, s, i) == k,
    decreases offers.len(),
{
    if offers.len() > 0 {
        let t = offers.drop_last();
        if k < offers.len() - 1 {
            lemma_find_offer(t, s, i, k);
        } else {
            lemma_find_offer(t, s, i, t.len() as int);
        }
    }
}

/// Whether offer `o` answers a find for `(s, i)`: same service, and the same
/// instance unless the wildcard 0xFFFF was asked for.
pub open spec fn answers_find(o: OfferedService, s: ServiceId, i: InstanceId) -> bool {
    o.service_id == s && (i.0 == 0xFFFF || o.instance_id == i)
}

/// The index of the first offer in `offers` that answers a find for `(s, i)`,
/// or `offers.len()`.
pub open spec fn find_answer(offers: Seq<OfferedService>, s: ServiceId, i: InstanceId) -> int
    decreases offers.len(),
{
    if offers.len() == 0 {
        0
    } else if find_answer(offers.drop_last(), s, i) < offers.len() - 1 {
        find_answer(offers.drop_last(), s, i)
    } else if answers_find(offers.last(), s, i) {
        offers.len() - 1
    } else {
        offers.len() as int
    }
}

proof fn lemma_find_answer(offers: Seq<OfferedService>, s: ServiceId, i: InstanceId, k: int)
    requires
        0 <= k <= offers.len(),
        forall|j: int| 0 <= j < k ==> !answers_find(#[trigger] offers[j], s, i),
        k < offers.len() ==> answers_find(offers[k], s, i),
    ensures
        find_answer(offers, s, i) == k,
    decreases offers.len(),
{
    if offers.len() > 0 {
        let t = offers.drop_last();
        if k < offers.len() - 1 {
            assert forall|j: int| 0 <= j < k implies !answers_find(#[trigger] t[j], s, i) by {
                assert(t[j] == offers[j]);
            }
            lemma_find_answer(t, s, i, k);
        } else {
            assert forall|j: int| 0 <= j < t.len() implies !answers_find(#[trigger] t[j], s, i) by {
                assert(t[j] == offers[j]);
            }
            lemma_find_answer(t, s, i, t.len() as int);
        }
    }
}

/// The subscriptions of `subs` that `keep` holds for, in order.
pub open spec fn subs_where(subs: Seq<Subscription>, keep: spec_fn(Subscription) -> bool) -> Seq<Subscription>
    decreases subs.len(),
{
    if subs.len() == 0 {
        subs
    } else if keep(subs.last()) {
        subs_where(subs.drop_last(), keep).push(subs.last())
    } else {
        subs_where(subs.drop_last(), keep)
    }
}

/// The key of a subscription: service, instance, eventgroup, client address.
pub open spec fn subscription_key(x: Subscription) -> (ServiceId, InstanceId, EventgroupId, SocketAddress) {
    (x.service_id, x.instance_id, x.eventgroup_id, x.client_addr)
}

/// Whether `x` is the subscription of `(s, i, g)` from `addr`.
pub open spec fn same_subscription(x: Subscription, s: ServiceId, i: InstanceId, g: EventgroupId, addr: SocketAddress) -> bool {
    x.service_id == s && x.instance_id == i && x.eventgroup_id == g && x.client_addr == addr
}

/// The offer message for `o`.
pub open spec fn offer_message_of(m: SdMessageView, o: OfferedService) -> bool {
    &&& m.1.len() == 1
    &&& m.1[0] matches SdEntry::Service(x) && x.entry_type == EntryType::OfferService && x.service_id == o.service_id
        && x.instance_id == o.instance_id && x.major_version == o.major_version && x.minor_version
        == o.minor_version && x.ttl == o.ttl % 0x100_0000 && x.num_options_1 == 1 && x.index_first_option == 0
    &&& m.2.len() == 1
    &&& crate::sd::option::endpoint_of(m.2[0]) == Some(o.endpoint)
    &&& m.0 == crate::sd::message::SdFlags::spec_from_code(0)
}

/// The entries of `es` (with options `os`) that make a request, in order.
pub open spec fn server_deciding(es: Seq<SdEntry>, os: Seq<crate::sd::option::SdOptionView>) -> Seq<SdEntry>
    decreases es.len(),
{
    if es.len() == 0 {
        Seq::empty()
    } else if server_decides(es.last(), os) {
        server_deciding(es.drop_last(), os).push(es.last())
    } else {
        server_deciding(es.drop_last(), os)
    }
}

/// The offers that answer the find entries of `es`, in order (a find that no
/// offer answers gets none).
pub open spec fn find_answers(offers: Seq<OfferedService>, es: Seq<SdEntry>) -> Seq<OfferedService>
    decreases es.len(),
{
    if es.len() == 0 {
        Seq::empty()
    } else {
        let prev = find_answers(offers, es.drop_last());
        match es.last() {
            SdEntry::Service(x) => if x.entry_type == EntryType::FindService && find_answer(
                offers,
                x.service_id,
                x.instance_id,
            ) < offers.len() {
                prev.push(offers[find_answer(offers, x.service_id, x.instance_id)])
            } else {
                prev
            },
            _ => prev,
        }
    }
}

/// The subscriptions after the unsubscribe entries of `es` from `from`, in
/// order, each dropped its subscription.
pub open spec fn apply_unsubscribes(subs: Seq<Subscription>, es: Seq<SdEntry>, from: SocketAddress) -> Seq<Subscription>
    decreases es.len(),
{
    if es.len() == 0 {
        subs
    } else {
        let prev = apply_unsubscribes(subs, es.drop_last(), from);
        match es.last() {
            SdEntry::Eventgroup(x) => if x.entry_type == EntryType::SubscribeEventgroup && x.ttl == 0 {
                subs_where(
                    prev,
                    |y: Subscription| !same_subscription(y, x.service_id, x.instance_id, x.eventgroup_id, from),
                )
            } else {
                prev
            },
            _ => prev,
        }
    }
}

/// The outcome of handling SD message `v` from `from` with offers `offers` and
/// subscriptions `subs` (`subs2` after): every entry that makes a request,
/// in order, is reported; every find is answered with the first offer of
/// that service and instance (any instance for the wildcard 0xFFFF) when
/// there is one; every unsubscribe drops the matching subscription; a
/// subscribe is only reported.
pub open spec fn server_outcome(
    offers: Seq<OfferedService>,
    subs: Seq<Subscription>,
    subs2: Seq<Subscription>,
    v: SdMessageView,
    from: SocketAddress,
    reqs: Seq<SdRequest>,
    replies: Seq<SdMessageView>,
) -> bool {
    &&& reqs.len() == server_deciding(v.1, v.2).len()
    &&& forall|i: int| 0 <= i < reqs.len() ==> #[trigger] reqs[i] == server_request(server_deciding(v.1, v.2)[i], v.2, from)
    &&& replies.len() == find_answers(offers, v.1).len()
    &&& forall|i: int| 0 <= i < replies.len() ==> offer_message_of(#[trigger] replies[i], find_answers(offers, v.1)[i])
    &&& subs2 == apply_unsubscribes(subs, v.1, from)
}

/// The state of a discovery server.
pub struct SdServerState {
    offered: Vec<OfferedService>,
    subscriptions: Vec<Subscription>,
    last_offer_time: Option<u64>,
    offer_interval: u64,
}

impl SdServerState {
    /// The offered services, one per `(service, instance)`.
    pub closed spec fn offers(&self) -> Seq<OfferedService> {
        self.offered@
    }

    /// The recorded subscriptions.
    pub closed spec fn subs(&self) -> Seq<Subscription> {
        self.subscriptions@
    }

    /// When offers were last sent, if ever.
    pub closed spec fn last_offer(&self) -> Option<u64> {
        self.last_offer_time
    }

    /// The time between offer cycles.
    pub closed spec fn interval(&self) -> u64 {
        self.offer_interval
    }

    /// A server with nothing offered, whose offers repeat every `offer_interval`.
    pub fn new(offer_interval: u64) -> (r: SdServerState)
        ensures
            r.offers().len() == 0,
            r.subs().len() == 0,
            r.last_offer() is None,
            r.interval() == offer_interval,
    {
        SdServerState { offered: Vec::new(), subscriptions: Vec::new(), last_offer_time: None, offer_interval }
    }

    fn find_answering(&self, service_id: ServiceId, instance_id: InstanceId) -> (r: usize)
        ensures
            r == find_answer(self.offers(), service_id, instance_id),
            r <= self.offers().len(),
    {
        let mut k: usize = 0;
        while k < self.offered.len() && !(self.offered[k].service_id == service_id && (instance_id.0 == 0xFFFF
            || self.offered[k].instance_id == instance_id))
            invariant
                0 <= k <= self.offered@.len(),
                forall|j: int| 0 <= j < k ==> !answers_find(#[trigger] self.offered@[j], service_id, instance_id),
            decreases self.offered@.len() - k,
        {
            k = k + 1;
        }
        proof {
            lemma_find_answer(self.offered@, service_id, instance_id, k as int);
        }
        k
    }

    fn find(&self, service_id: ServiceId, instance_id: InstanceId) -> (r: usize)
        ensures
            r == find_offer(self.offers(), service_id, instance_id),
            r <= self.offers().len(),
    {
        let mut k: usize = 0;
        while k < self.offered.len() && !(self.offered[k].service_id == service_id && self.offered[k].instance_id
            == instance_id)
            invariant
                0 <= k <= self.offered@.len(),
                forall|j: int|
                    0 <= j < k ==> !(self.offered@[j].service_id == service_id && self.offered@[j].instance_id
                        == instance_id),
            decreases self.offered@.len() - k,
        {
            k = k + 1;
        }
        proof {
            lemma_find_offer(self.offered@, service_id, instance_id, k as int);
        }
        k
    }

    /// Offer a service (replacing an offer of the same service and instance);
    /// return the offer message to multicast.
    pub fn offer_service(&mut self, service: OfferedService) -> (r: SdMessage)
        ensures
            ({
                let k = find_offer(old(self).offers(), service.service_id, service.instance_id);
                final(self).offers() == if k < old(self).offers().len() {
                    old(self).offers().update(k, service)
                } else {
                    old(self).offers().push(service)
                }
            }),
            final(self).subs() == old(self).subs(),
            final(self).last_offer() == old(self).last_offer(),
            final(self).interval() == old(self).interval(),
            offer_message_of(r@, service),
    {
        let k = self.find(service.service_id, service.instance_id);
        if k < self.offered.len() {
            self.offered.set(k, service);
        } else {
            self.offered.push(service);
        }
        Self::offer_message(&service)
    }

    /// The offer message for `service`.
    pub fn offer_message(service: &OfferedService) -> (r: SdMessage)
        ensures
            offer_message_of(r@, *service),
    {
        SdMessage::offer_service(
            service.service_id,
            service.instance_id,
            service.major_version,
            service.minor_version,
            service.ttl,
            service.endpoint,
        )
    }

    /// Stop offering a service; return the stop-offer message to multicast
    /// if it was offered.
    pub fn stop_offer_service(&mut self, service_id: ServiceId, instance_id: InstanceId) -> (r: Option<SdMessage>)
        ensures
            ({
                let k = find_offer(old(self).offers(), service_id, instance_id);
                &&& k < old(self).offers().len() ==> final(self).offers() == old(self).offers().remove(k) && (r matches Some(m)
                    && m@.1 == seq![SdEntry::Service(crate::sd::entry::ServiceEntry::spec_plain(
                        EntryType::OfferService,
                        service_id,
                        instance_id,
                        old(self).offers()[k].major_version,
                        old(self).offers()[k].minor_version,
                        0,
                    ))] && m@.2.len() == 0)
                &&& k == old(self).offers().len() ==> final(self).offers() == old(self).offers() && r is None
            }),
            final(self).subs() == old(self).subs(),
            final(self).last_offer() == old(self).last_offer(),
            final(self).interval() == old(self).interval(),
    {
        let k = self.find(service_id, instance_id);
        if k < self.offered.len() {
            let service = self.offered.remove(k);
            Some(SdMessage::stop_offer_service(service_id, instance_id, service.major_version, service.minor_version))
        } else {
            None
        }
    }

    /// The offered services.
    pub fn offered_services(&self) -> (r: &Vec<OfferedService>)
        ensures
            r@ == self.offers(),
    {
        &self.offered
    }

    /// The offer messages of a cycle at `now`, one per offered service in order;
    /// records `now` as the time of the last cycle.
    pub fn send_offers(&mut self, now: u64) -> (r: Vec<SdMessage>)
        ensures
            r@.len() == old(self).offers().len(),
            forall|j: int| 0 <= j < r@.len() ==> offer_message_of(#[trigger] r@[j]@, old(self).offers()[j]),
            final(self).offers() == old(self).offers(),
            final(self).subs() == old(self).subs(),
            final(self).last_offer() == Some(now),
            final(self).interval() == old(self).interval(),
    {
        let mut out: Vec<SdMessage> = Vec::new();
        let mut k: usize = 0;
        while k < self.offered.len()
            invariant
                0 <= k <= self.offered@.len(),
                out@.len() == k,
                forall|j: int| 0 <= j < k ==> offer_message_of(#[trigger] out@[j]@, self.offered@[j]),
            decreases self.offered@.len() - k,
        {
            let m = Self::offer_message(&self.offered[k]);
            out.push(m);
            k = k + 1;
        }
        self.last_offer_time = Some(now);
        out
    }

    /// Whether an offer cycle is due at `now`: never offered, or the interval
    /// has passed since the last cycle.
    pub fn should_send_offers(&self, now: u64) -> (r: bool)
        ensures
            r == match self.last_offer() {
                Some(last) => now >= last && now - last >= self.interval(),
                None => true,
            },
    {
        match self.last_offer_time {
            Some(last) => now >= last && now - last >= self.offer_interval,
            None => true,
        }
    }

    /// The major version offered for `(s, i)`, or 0xFF when not offered.
    pub open spec fn major_of(&self, s: ServiceId, i: InstanceId) -> u8 {
        let k = find_offer(self.offers(), s, i);
        if k < self.offers().len() {
            self.offers()[k].major_version
        } else {
            0xFF
        }
    }

    fn major_version(&self, service_id: ServiceId, instance_id: InstanceId) -> (r: u8)
        ensures
            r == self.major_of(service_id, instance_id),
    {
        let k = self.find(service_id, instance_id);
        if k < self.offered.len() {
            self.offered[k].major_version
        } else {
            0xFF
        }
    }

    /// Accept a subscription at `now`: record it (replacing one with the same
    /// service, instance, eventgroup and client address) to expire `ttl`
    /// seconds later, and return the acknowledgement to send to the client.
    pub fn accept_subscription(
        &mut self,
        service_id: ServiceId,
        instance_id: InstanceId,
        eventgroup_id: EventgroupId,
        counter: u8,
        client_addr: SocketAddress,
        client_endpoint: Endpoint,
        ttl: u32,
        multicast_endpoint: Option<Endpoint>,
        now: u64,
    ) -> (r: SdMessage)
        ensures
            ({
                let sub = Subscription {
                    service_id,
                    instance_id,
                    eventgroup_id,
                    client_addr,
                    client_endpoint,
                    counter,
                    expires_at: if now + ttl as int * 1000 <= u64::MAX { (now + ttl as int * 1000) as u64 } else { u64::MAX },
                };
                final(self).subs() == subs_where(
                    old(self).subs(),
                    |x: Subscription| !same_subscription(x, service_id, instance_id, eventgroup_id, client_addr),
                ).push(sub)
            }),
            r@.1 == seq![SdEntry::Eventgroup(crate::sd::entry::EventgroupEntry {
                num_options_1: if multicast_endpoint is Some { 1u8 } else { 0u8 },
                ..crate::sd::entry::EventgroupEntry::spec_plain(
                    EntryType::SubscribeEventgroupAck,
                    service_id,
                    instance_id,
                    old(self).major_of(service_id, instance_id),
                    eventgroup_id,
                    ttl % 0x100_0000,
                    counter,
                )
            })],
            r@.2.len() == if multicast_endpoint is Some { 1int } else { 0int },
            r@.0 == crate::sd::message::SdFlags::spec_from_code(0),
            multicast_endpoint matches Some(ep) ==> crate::sd::option::endpoint_of(r@.2[0]) == Some(ep),
            final(self).offers() == old(self).offers(),
            final(self).last_offer() == old(self).last_offer(),
            final(self).interval() == old(self).interval(),
    {
        let ghost keep = |x: Subscription| !same_subscription(x, service_id, instance_id, eventgroup_id, client_addr);
        let ghost old_subs = self.subscriptions@;
        let mut kept: Vec<Subscription> = Vec::new();
        let mut k: usize = 0;
        while k < self.subscriptions.len()
            invariant
                0 <= k <= old_subs.len(),
                self.subscriptions@ == old_subs,
                kept@ == subs_where(old_subs.subrange(0, k as int), keep),
                keep == (|x: Subscription| !same_subscription(x, service_id, instance_id, eventgroup_id, client_addr)),
            decreases old_subs.len() - k,
        {
            let x = self.subscriptions[k];
            proof {
                assert(old_subs.subrange(0, k + 1).drop_last() =~= old_subs.subrange(0, k as int));
            }
            if !(x.service_id == service_id && x.instance_id == instance_id && x.eventgroup_id == eventgroup_id
                && x.client_addr == client_addr) {
                kept.push(x);
            }
            k = k + 1;
        }
        assert(old_subs.subrange(0, old_subs.len() as int) =~= old_subs);
        let ms: u64 = (ttl as u64) * 1000;
        let expires_at = now.saturating_add(ms);
        kept.push(
            Subscription { service_id, instance_id, eventgroup_id, client_addr, client_endpoint, counter, expires_at },
        );
        self.subscriptions = kept;
        let major = self.major_version(service_id, instance_id);
        SdMessage::subscribe_eventgroup_ack(
            service_id,
            instance_id,
            major,
            eventgroup_id,
            ttl,
            counter,
            multicast_endpoint,
        )
    }

    /// The rejection to send for a subscription.
    pub fn reject_subscription(
        &self,
        service_id: ServiceId,
        instance_id: InstanceId,
        eventgroup_id: EventgroupId,
        counter: u8,
    ) -> (r: SdMessage)
        ensures
            r@.1 == seq![SdEntry::Eventgroup(crate::sd::entry::EventgroupEntry::spec_plain(
                EntryType::SubscribeEventgroupAck,
                service_id,
                instance_id,
                self.major_of(service_id, instance_id),
                eventgroup_id,
                0,
                counter,
            ))],
            r@.2.len() == 0,
            r@.0 == crate::sd::message::SdFlags::spec_from_code(0),
    {
        let major = self.major_version(service_id, instance_id);
        SdMessage::subscribe_eventgroup_nack(service_id, instance_id, major, eventgroup_id, counter)
    }

    /// The endpoints of the subscribers of `(s, i, g)` whose subscription
    /// has not expired at `now`, in order.
    pub fn get_subscribers(&self, service_id: ServiceId, instance_id: InstanceId, eventgroup_id: EventgroupId, now: u64) -> (r: Vec<Endpoint>)
        ensures
            ({
                let live = subs_where(
                    self.subs(),
                    |x: Subscription| x.service_id == service_id && x.instance_id == instance_id && x.eventgroup_id
                        == eventgroup_id && now < x.expires_at,
                );
                &&& r@.len() == live.len()
                &&& forall|j: int| 0 <= j < r@.len() ==> #[trigger] r@[j] == live[j].client_endpoint
            }),
    {
        let ghost keep = |x: Subscription| x.service_id == service_id && x.instance_id == instance_id && x.eventgroup_id
            == eventgroup_id && now < x.expires_at;
        let ghost subs = self.subscriptions@;
        let mut out: Vec<Endpoint> = Vec::new();
        let mut k: usize = 0;
        while k < self.subscriptions.len()
            invariant
                0 <= k <= subs.len(),
                self.subscriptions@ == subs,
                keep == (|x: Subscription| x.service_id == service_id && x.instance_id == instance_id
                    && x.eventgroup_id == eventgroup_id && now < x.expires_at),
                out@.len() == subs_where(subs.subrange(0, k as int), keep).len(),
                forall|j: int|
                    0 <= j < out@.len() ==> #[trigger] out@[j] == subs_where(subs.subrange(0, k as int), keep)[j].client_endpoint,
            decreases subs.len() - k,
        {
            let x = self.subscriptions[k];
            proof {
                assert(subs.subrange(0, k + 1).drop_last() =~= subs.subrange(0, k as int));
            }
            if x.service_id == service_id && x.instance_id == instance_id && x.eventgroup_id == eventgroup_id && now
                < x.expires_at {
                out.push(x.client_endpoint);
            }
            k = k + 1;
        }
        assert(subs.subrange(0, subs.len() as int) =~= subs);
        out
    }

    /// Drop the subscriptions that have expired at `now`; return their keys
    /// (service, instance, eventgroup, client address), in order.
    pub fn cleanup_expired(&mut self, now: u64) -> (r: Vec<(ServiceId, InstanceId, EventgroupId, SocketAddress)>)
        ensures
            final(self).subs() == subs_where(old(self).subs(), |x: Subscription| now < x.expires_at),
            r@ == subs_where(old(self).subs(), |x: Subscription| !(now < x.expires_at)).map_values(
                |x: Subscription| subscription_key(x),
            ),
            final(self).offers() == old(self).offers(),
            final(self).last_offer() == old(self).last_offer(),
            final(self).interval() == old(self).interval(),
    {
        let ghost keep = |x: Subscription| now < x.expires_at;
        let ghost drop = |x: Subscription| !(now < x.expires_at);
        let ghost key = |x: Subscription| subscription_key(x);
        let ghost subs = self.subscriptions@;
        let mut kept: Vec<Subscription> = Vec::new();
        let mut gone: Vec<(ServiceId, InstanceId, EventgroupId, SocketAddress)> = Vec::new();
        let mut k: usize = 0;
        while k < self.subscriptions.len()
            invariant
                0 <= k <= subs.len(),
                self.subscriptions@ == subs,
                keep == (|x: Subscription| now < x.expires_at),
                drop == (|x: Subscription| !(now < x.expires_at)),
                key == (|x: Subscription| subscription_key(x)),
                kept@ == subs_where(subs.subrange(0, k as int), keep),
                gone@ == subs_where(subs.subrange(0, k as int), drop).map_values(key),
            decreases subs.len() - k,
        {
            let x = self.subscriptions[k];
            proof {
                assert(subs.subrange(0, k + 1).drop_last() =~= subs.subrange(0, k as int));
            }
            if now < x.expires_at {
                kept.push(x);
            } else {
                let ghost before = subs_where(subs.subrange(0, k as int), drop);
                gone.push((x.service_id, x.instance_id, x.eventgroup_id, x.client_addr));
                assert(gone@ =~= before.push(x).map_values(key));
            }
            k = k + 1;
        }
        assert(subs.subrange(0, subs.len() as int) =~= subs);
        self.subscriptions = kept;
        gone
    }

    /// Handle an SD message from `from`, entry by entry: every find is
    /// reported and answered with the first offer of that service and
    /// instance (any instance for the wildcard 0xFFFF) when there is one;
    /// every unsubscribe drops the matching subscription and is reported;
    /// every subscribe that names an endpoint is only reported (the caller
    /// accepts or rejects it). Returns the requests and the replies to send to
    /// `from`, each in entry order.
    pub fn process(&mut self, msg: &SdMessage, from: SocketAddress) -> (r: (Vec<SdRequest>, Vec<SdMessage>))
        ensures
            server_outcome(
                old(self).offers(),
                old(self).subs(),
                final(self).subs(),
                msg@,
                from,
                r.0@,
                r.1@.map_values(|m: SdMessage| m@),
            ),
            final(self).offers() == old(self).offers(),
            final(self).last_offer() == old(self).last_offer(),
            final(self).interval() == old(self).interval(),
    {
        let ghost es = msg@.1;
        let ghost os = msg@.2;
        let ghost offers = self.offers();
        let mut requests: Vec<SdRequest> = Vec::new();
        let mut replies: Vec<SdMessage> = Vec::new();
        let mut j: usize = 0;
        assert(es.subrange(0, 0) =~= Seq::<SdEntry>::empty());
        while j < msg.entries.len()
            invariant
                0 <= j <= es.len(),
                es == msg@.1,
                os == msg@.2,
                offers == self.offers(),
                offers == old(self).offers(),
                requests@.len() == server_deciding(es.subrange(0, j as int), os).len(),
                forall|i: int|
                    0 <= i < requests@.len() ==> #[trigger] requests@[i] == server_request(
                        server_deciding(es.subrange(0, j as int), os)[i],
                        os,
                        from,
                    ),
                replies@.len() == find_answers(offers, es.subrange(0, j as int)).len(),
                forall|i: int|
                    0 <= i < replies@.len() ==> offer_message_of(
                        (#[trigger] replies@[i])@,
                        find_answers(offers, es.subrange(0, j as int))[i],
                    ),
                self.subs() == apply_unsubscribes(old(self).subs(), es.subrange(0, j as int), from),
                self.last_offer() == old(self).last_offer(),
                self.interval() == old(self).interval(),
            decreases es.len() - j,
        {
            let entry = msg.entries[j];
            let ghost pre = es.subrange(0, j as int);
            let ghost next = es.subrange(0, j + 1);
            let ghost reqs_before = requests@;
            let ghost replies_before = replies@;
            assert(next.drop_last() =~= pre);
            assert(next.last() == entry);
            match entry {
                SdEntry::Service(x) => {
                    if x.entry_type == EntryType::FindService {
                        let k = self.find_answering(x.service_id, x.instance_id);
                        if k < self.offered.len() {
                            let reply = Self::offer_message(&self.offered[k]);
                            replies.push(reply);
                            assert forall|i: int| 0 <= i < replies@.len() implies offer_message_of(
                                (#[trigger] replies@[i])@,
                                find_answers(offers, next)[i],
                            ) by {
                                if i < replies_before.len() {
                                    assert(replies@[i] == replies_before[i]);
                                }
                            }
                        }
                        requests.push(
                            SdRequest::FindService {
                                service_id: x.service_id,
                                instance_id: x.instance_id,
                                major_version: x.major_version,
                                minor_version: x.minor_version,
                                from,
                            },
                        );
                        assert(server_deciding(next, os) == server_deciding(pre, os).push(entry));
                        assert forall|i: int| 0 <= i < requests@.len() implies #[trigger] requests@[i] == server_request(
                            server_deciding(next, os)[i],
                            os,
                            from,
                        ) by {
                            if i < reqs_before.len() {
                                assert(requests@[i] == reqs_before[i]);
                            }
                        }
                    }
                },
                SdEntry::Eventgroup(x) => {
                    if x.entry_type == EntryType::SubscribeEventgroup {
                        let endpoints = msg.get_endpoints_for_entry(&entry);
                        let mut req: Option<SdRequest> = None;
                        if x.ttl == 0 {
                            self.remove_subscription(x.service_id, x.instance_id, x.eventgroup_id, from);
                            req = Some(
                                SdRequest::Unsubscribe {
                                    service_id: x.service_id,
                                    instance_id: x.instance_id,
                                    eventgroup_id: x.eventgroup_id,
                                    from,
                                },
                            );
                        } else if endpoints.len() > 0 {
                            req = Some(
                                SdRequest::Subscribe {
                                    service_id: x.service_id,
                                    instance_id: x.instance_id,
                                    eventgroup_id: x.eventgroup_id,
                                    major_version: x.major_version,
                                    ttl: x.ttl,
                                    counter: x.counter,
                                    endpoint: endpoints[0],
                                    from,
                                },
                            );
                        }
                        match req {
                            Some(q) => {
                                assert(server_decides(entry, os));
                                assert(q == server_request(entry, os, from));
                                requests.push(q);
                                assert(server_deciding(next, os) == server_deciding(pre, os).push(entry));
                                assert forall|i: int| 0 <= i < requests@.len() implies #[trigger] requests@[i]
                                    == server_request(server_deciding(next, os)[i], os, from) by {
                                    if i < reqs_before.len() {
                                        assert(requests@[i] == reqs_before[i]);
                                    }
                                }
                            },
                            None => {},
                        }
                    }
                },
            }
            j = j + 1;
        }
        assert(es.subrange(0, es.len() as int) =~= es);
        proof {
            let rv = replies@.map_values(|m: SdMessage| m@);
            assert forall|i: int| 0 <= i < rv.len() implies offer_message_of(
                #[trigger] rv[i],
                find_answers(offers, es)[i],
            ) by {
                assert(rv[i] == replies@[i]@);
            }
        }
        (requests, replies)
    }

    fn remove_subscription(&mut self, service_id: ServiceId, instance_id: InstanceId, eventgroup_id: EventgroupId, addr: SocketAddress)
        ensures
            final(self).subs() == subs_where(
                old(self).subs(),
                |x: Subscription| !same_subscription(x, service_id, instance_id, eventgroup_id, addr),
            ),
            final(self).offers() == old(self).offers(),
            final(self).last_offer() == old(self).last_offer(),
            final(self).interval() == old(self).interval(),
    {
        let ghost keep = |x: Subscription| !same_subscription(x, service_id, instance_id, eventgroup_id, addr);
        let ghost subs = self.subscriptions@;
        let mut kept: Vec<Subscription> = Vec::new();
        let mut k: usize = 0;
        while k < self.subscriptions.len()
            invariant
                0 <= k <= subs.len(),
                self.subscriptions@ == subs,
                keep == (|x: Subscription| !same_subscription(x, service_id, instance_id, eventgroup_id, addr)),
                kept@ == subs_where(subs.subrange(0, k as int), keep),
            decreases subs.len() - k,
        {
            let x = self.subscriptions[k];
            proof {
                assert(subs.subrange(0, k + 1).drop_last() =~= subs.subrange(0, k as int));
            }
            if !(x.service_id == service_id && x.instance_id == instance_id && x.eventgroup_id == eventgroup_id
                && x.client_addr == addr) {
                kept.push(x);
            }
            k = k + 1;
        }
        assert(subs.subrange(0, subs.len() as int) =~= subs);
        self.subscriptions = kept;
    }

    /// Handle a received datagram: a SOME/IP header and an SD payload. A
    /// datagram too short for the header, or whose payload is no valid SD
    /// message, is ignored.
    pub fn process_datagram(&mut self, data: &[u8], from: SocketAddress) -> (r: (Vec<SdRequest>, Vec<SdMessage>))
        ensures
            data@.len() < 16 ==> r.0@.len() == 0 && r.1@.len() == 0 && final(self).subs() == old(self).subs(),
            data@.len() >= 16 ==> match parse_sd(data@.subrange(16, data@.len() as int)) {
                Some(Ok(v)) => server_outcome(
                    old(self).offers(),
                    old(self).subs(),
                    final(self).subs(),
                    v,
                    from,
                    r.0@,
                    r.1@.map_values(|m: SdMessage| m@),
                ),
                _ => r.0@.len() == 0 && r.1@.len() == 0 && final(self).subs() == old(self).subs(),
            },
            final(self).offers() == old(self).offers(),
            final(self).last_offer() == old(self).last_offer(),
            final(self).interval() == old(self).interval(),
    {
        if data.len() < 16 {
            return (Vec::new(), Vec::new());
        }
        match SdMessage::from_bytes(vstd::slice::slice_subrange(data, 16, data.len())) {
            Ok(msg) => self.process(&msg, from),
            Err(_) => (Vec::new(), Vec::new()),
        }
    }
}

} // verus!
