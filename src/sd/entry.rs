//! Service-discovery entries: 16 bytes each, service or eventgroup.
use vstd::prelude::*;
use crate::error::{Result, SomeIpError};
use crate::header::{be_u16_at, be_u16_bytes, be_u32_at, be_u32_bytes, push_be_u16, push_be_u32, read_be_u16, read_be_u32, ServiceId};
use crate::sd::types::{EntryType, EventgroupId, InstanceId, SD_ENTRY_SIZE};

verus! {

/// The three big-endian bytes of a 24-bit value.
pub open spec fn be_u24_bytes(x: u32) -> Seq<u8> {
    seq![((x / 0x10000) % 256) as u8, ((x / 256) % 256) as u8, (x % 256) as u8]
}

/// The 24-bit value stored big-endian at `b[i..i + 3]`.
pub open spec fn be_u24_at(b: Seq<u8>, i: int) -> u32 {
    (b[i] as int * 0x10000 + b[i + 1] as int * 256 + b[i + 2] as int) as u32
}

/// The byte that packs two 4-bit option counts.
pub open spec fn counts_byte(n1: u8, n2: u8) -> u8 {
    ((n1 % 16) * 16 + n2 % 16) as u8
}

/// A service entry (find or offer).
#[derive(Debug, Clone, Copy, PartialEq, Eq, Structural)]
pub struct ServiceEntry {
    /// Entry type (find or offer).
    pub entry_type: EntryType,
    /// Index of the first option run.
    pub index_first_option: u8,
    /// Index of the second option run.
    pub index_second_option: u8,
    /// Number of options in the first run (4 bits).
    pub num_options_1: u8,
    /// Number of options in the second run (4 bits).
    pub num_options_2: u8,
    /// Service ID.
    pub service_id: ServiceId,
    /// Instance ID.
    pub instance_id: InstanceId,
    /// Major version.
    pub major_version: u8,
    /// Time to live in seconds (24 bits; 0 stops an offer).
    pub ttl: u32,
    /// Minor version.
    pub minor_version: u32,
}

impl ServiceEntry {
    /// The fields fit their wire widths and the type is a service type.
    pub open spec fn valid(&self) -> bool {
        &&& self.entry_type.spec_is_service_entry()
        &&& self.num_options_1 < 16
        &&& self.num_options_2 < 16
        &&& self.ttl < 0x100_0000
    }

    /// The 16 wire bytes of this entry.
    pub open spec fn spec_bytes(&self) -> Seq<u8> {
        seq![self.entry_type.code(), self.index_first_option, self.index_second_option, counts_byte(self.num_options_1, self.num_options_2)]
            + be_u16_bytes(self.service_id.0) + be_u16_bytes(self.instance_id.0) + seq![self.major_version]
            + be_u24_bytes(self.ttl) + be_u32_bytes(self.minor_version)
    }

    /// The entry of type `t` whose fields are in the first 16 bytes of `b`.
    pub open spec fn fields_of(b: Seq<u8>, t: EntryType) -> ServiceEntry {
        ServiceEntry {
            entry_type: t,
            index_first_option: b[1],
            index_second_option: b[2],
            num_options_1: b[3] / 16,
            num_options_2: b[3] % 16,
            service_id: ServiceId(be_u16_at(b, 4)),
            instance_id: InstanceId(be_u16_at(b, 6)),
            major_version: b[8],
            ttl: be_u24_at(b, 9),
            minor_version: be_u32_at(b, 12),
        }
    }

    /// An entry of type `t` without options.
    pub open spec fn spec_plain(t: EntryType, service_id: ServiceId, instance_id: InstanceId, major_version: u8, minor_version: u32, ttl: u32) -> ServiceEntry {
        ServiceEntry {
            entry_type: t,
            index_first_option: 0,
            index_second_option: 0,
            num_options_1: 0,
            num_options_2: 0,
            service_id,
            instance_id,
            major_version,
            ttl,
            minor_version,
        }
    }

    /// A find entry (TTL 0xFFFFFF) without options.
    pub fn find_service(service_id: ServiceId, instance_id: InstanceId, major_version: u8, minor_version: u32) -> (r: ServiceEntry)
        ensures
            r == Self::spec_plain(EntryType::FindService, service_id, instance_id, major_version, minor_version, 0xFF_FFFF),
    {
        ServiceEntry {
            entry_type: EntryType::FindService,
            index_first_option: 0,
            index_second_option: 0,
            num_options_1: 0,
            num_options_2: 0,
            service_id,
            instance_id,
            major_version,
            ttl: 0xFF_FFFF,
            minor_version,
        }
    }

    /// An offer entry without options; the TTL keeps its low 24 bits.
    pub fn offer_service(service_id: ServiceId, instance_id: InstanceId, major_version: u8, minor_version: u32, ttl: u32) -> (r: ServiceEntry)
        ensures
            r == Self::spec_plain(EntryType::OfferService, service_id, instance_id, major_version, minor_version, ttl % 0x100_0000),
    {
        ServiceEntry {
            entry_type: EntryType::OfferService,
            index_first_option: 0,
            index_second_option: 0,
            num_options_1: 0,
            num_options_2: 0,
            service_id,
            instance_id,
            major_version,
            ttl: ttl % 0x100_0000,
            minor_version,
        }
    }

    /// A stop-offer entry: an offer with TTL 0.
    pub fn stop_offer_service(service_id: ServiceId, instance_id: InstanceId, major_version: u8, minor_version: u32) -> (r: ServiceEntry)
        ensures
            r == Self::spec_plain(EntryType::OfferService, service_id, instance_id, major_version, minor_version, 0),
    {
        Self::offer_service(service_id, instance_id, major_version, minor_version, 0)
    }

    /// Whether this is a stop offer (an offer with TTL 0).
    pub fn is_stop_offer(&self) -> (r: bool)
        ensures
            r == (self.entry_type == EntryType::OfferService && self.ttl == 0),
    {
        self.entry_type == EntryType::OfferService && self.ttl == 0
    }

    /// Decode a service entry from the first 16 bytes of `data`.
    pub fn from_bytes(data: &[u8]) -> (r: Result<ServiceEntry>)
        ensures
            data@.len() < SD_ENTRY_SIZE ==> r == Err::<ServiceEntry, SomeIpError>(
                SomeIpError::MessageTooShort { expected: SD_ENTRY_SIZE, actual: data@.len() as usize },
            ),
            data@.len() >= SD_ENTRY_SIZE ==> match EntryType::spec_from_code(data@[0]) {
                Some(t) => if t.spec_is_service_entry() {
                    r == Ok::<ServiceEntry, SomeIpError>(Self::fields_of(data@, t))
                } else {
                    r matches Err(SomeIpError::InvalidHeader(_))
                },
                None => r matches Err(SomeIpError::InvalidHeader(_)),
            },
    {
        if data.len() < SD_ENTRY_SIZE {
            return Err(SomeIpError::MessageTooShort { expected: SD_ENTRY_SIZE, actual: data.len() });
        }
        let entry_type = match EntryType::from_u8(data[0]) {
            Some(t) => t,
            None => return Err(SomeIpError::invalid_header("Unknown entry type")),
        };
        if !entry_type.is_service_entry() {
            return Err(SomeIpError::invalid_header("Expected service entry type"));
        }
        Ok(
            ServiceEntry {
                entry_type,
                index_first_option: data[1],
                index_second_option: data[2],
                num_options_1: data[3] / 16,
                num_options_2: data[3] % 16,
                service_id: ServiceId(read_be_u16(data, 4)),
                instance_id: InstanceId(read_be_u16(data, 6)),
                major_version: data[8],
                ttl: (data[9] as u32) * 0x10000 + (data[10] as u32) * 256 + (data[11] as u32),
                minor_version: read_be_u32(data, 12),
            },
        )
    }

    /// Append the 16 wire bytes of this entry to `buf`.
    pub fn write_to(&self, buf: &mut Vec<u8>)
        ensures
            final(buf)@ == old(buf)@ + self.spec_bytes(),
    {
        buf.push(self.entry_type.to_u8());
        buf.push(self.index_first_option);
        buf.push(self.index_second_option);
        buf.push((self.num_options_1 % 16) * 16 + self.num_options_2 % 16);
        push_be_u16(buf, self.service_id.0);
        push_be_u16(buf, self.instance_id.0);
        buf.push(self.major_version);
        buf.push(((self.ttl / 0x10000) % 256) as u8);
        buf.push(((self.ttl / 256) % 256) as u8);
        buf.push((self.ttl % 256) as u8);
        push_be_u32(buf, self.minor_version);
        assert(final(buf)@ =~= old(buf)@ + self.spec_bytes());
    }

    /// Encode this entry to its 16 wire bytes.
    pub fn to_bytes(&self) -> (r: Vec<u8>)
        ensures
            r@ == self.spec_bytes(),
    {
        let mut buf: Vec<u8> = Vec::with_capacity(SD_ENTRY_SIZE);
        self.write_to(&mut buf);
        assert(buf@ =~= self.spec_bytes());
        buf
    }
}

/// An eventgroup entry (subscribe or acknowledge).
#[derive(Debug, Clone, Copy, PartialEq, Eq, Structural)]
pub struct EventgroupEntry {
    /// Entry type (subscribe or acknowledge).
    pub entry_type: EntryType,
    /// Index of the first option run.
    pub index_first_option: u8,
    /// Index of the second option run.
    pub index_second_option: u8,
    /// Number of options in the first run (4 bits).
    pub num_options_1: u8,
    /// Number of options in the second run (4 bits).
    pub num_options_2: u8,
    /// Service ID.
    pub service_id: ServiceId,
    /// Instance ID.
    pub instance_id: InstanceId,
    /// Major version.
    pub major_version: u8,
    /// Time to live in seconds (24 bits; 0 unsubscribes or rejects).
    pub ttl: u32,
    /// Subscription counter (4 bits).
    pub counter: u8,
    /// Eventgroup ID.
    pub eventgroup_id: EventgroupId,
}

impl EventgroupEntry {
    /// The fields fit their wire widths and the type is an eventgroup type.
    pub open spec fn valid(&self) -> bool {
        &&& !self.entry_type.spec_is_service_entry()
        &&& self.num_options_1 < 16
        &&& self.num_options_2 < 16
        &&& self.ttl < 0x100_0000
        &&& self.counter < 16
    }

    /// The 16 wire bytes of this entry.
    pub open spec fn spec_bytes(&self) -> Seq<u8> {
        seq![self.entry_type.code(), self.index_first_option, self.index_second_option, counts_byte(self.num_options_1, self.num_options_2)]
            + be_u16_bytes(self.service_id.0) + be_u16_bytes(self.instance_id.0) + seq![self.major_version]
            + be_u24_bytes(self.ttl) + seq![self.counter % 16, 0u8] + be_u16_bytes(self.eventgroup_id.0)
    }

    /// The entry of type `t` whose fields are in the first 16 bytes of `b`.
    pub open spec fn fields_of(b: Seq<u8>, t: EntryType) -> EventgroupEntry {
        EventgroupEntry {
            entry_type: t,
            index_first_option: b[1],
            index_second_option: b[2],
            num_options_1: b[3] / 16,
            num_options_2: b[3] % 16,
            service_id: ServiceId(be_u16_at(b, 4)),
            instance_id: InstanceId(be_u16_at(b, 6)),
            major_version: b[8],
            ttl: be_u24_at(b, 9),
            counter: b[12] % 16,
            eventgroup_id: EventgroupId(be_u16_at(b, 14)),
        }
    }

    /// An entry of type `t` without options.
    pub open spec fn spec_plain(t: EntryType, service_id: ServiceId, instance_id: InstanceId, major_version: u8, eventgroup_id: EventgroupId, ttl: u32, counter: u8) -> EventgroupEntry {
        EventgroupEntry {
            entry_type: t,
            index_first_option: 0,
            index_second_option: 0,
            num_options_1: 0,
            num_options_2: 0,
            service_id,
            instance_id,
            major_version,
            ttl,
            counter,
            eventgroup_id,
        }
    }

    /// A subscribe entry without options; the TTL keeps its low 24 bits.
    pub fn subscribe(service_id: ServiceId, instance_id: InstanceId, major_version: u8, eventgroup_id: EventgroupId, ttl: u32) -> (r: EventgroupEntry)
        ensures
            r == Self::spec_plain(EntryType::SubscribeEventgroup, service_id, instance_id, major_version, eventgroup_id, ttl % 0x100_0000, 0),
    {
        EventgroupEntry {
            entry_type: EntryType::SubscribeEventgroup,
            index_first_option: 0,
            index_second_option: 0,
            num_options_1: 0,
            num_options_2: 0,
            service_id,
            instance_id,
            major_version,
            ttl: ttl % 0x100_0000,
            counter: 0,
            eventgroup_id,
        }
    }

    /// An unsubscribe entry: a subscribe with TTL 0.
    pub fn unsubscribe(service_id: ServiceId, instance_id: InstanceId, major_version: u8, eventgroup_id: EventgroupId) -> (r: EventgroupEntry)
        ensures
            r == Self::spec_plain(EntryType::SubscribeEventgroup, service_id, instance_id, major_version, eventgroup_id, 0, 0),
    {
        Self::subscribe(service_id, instance_id, major_version, eventgroup_id, 0)
    }

    /// An acknowledge entry without options; the TTL keeps its low 24 bits.
    pub fn subscribe_ack(service_id: ServiceId, instance_id: InstanceId, major_version: u8, eventgroup_id: EventgroupId, ttl: u32, counter: u8) -> (r: EventgroupEntry)
        ensures
            r == Self::spec_plain(EntryType::SubscribeEventgroupAck, service_id, instance_id, major_version, eventgroup_id, ttl % 0x100_0000, counter),
    {
        EventgroupEntry {
            entry_type: EntryType::SubscribeEventgroupAck,
            index_first_option: 0,
            index_second_option: 0,
            num_options_1: 0,
            num_options_2: 0,
            service_id,
            instance_id,
            major_version,
            ttl: ttl % 0x100_0000,
            counter,
            eventgroup_id,
        }
    }

    /// A negative acknowledge entry: an acknowledge with TTL 0.
    pub fn subscribe_nack(service_id: ServiceId, instance_id: InstanceId, major_version: u8, eventgroup_id: EventgroupId, counter: u8) -> (r: EventgroupEntry)
        ensures
            r == Self::spec_plain(EntryType::SubscribeEventgroupAck, service_id, instance_id, major_version, eventgroup_id, 0, counter),
    {
        Self::subscribe_ack(service_id, instance_id, major_version, eventgroup_id, 0, counter)
    }

    /// Whether this entry unsubscribes or rejects (TTL 0).
    pub fn is_negative(&self) -> (r: bool)
        ensures
            r == (self.ttl == 0),
    {
        self.ttl == 0
    }

    /// Decode an eventgroup entry from the first 16 bytes of `data`.
    pub fn from_bytes(data: &[u8]) -> (r: Result<EventgroupEntry>)
        ensures
            data@.len() < SD_ENTRY_SIZE ==> r == Err::<EventgroupEntry, SomeIpError>(
                SomeIpError::MessageTooShort { expected: SD_ENTRY_SIZE, actual: data@.len() as usize },
            ),
            data@.len() >= SD_ENTRY_SIZE ==> match EntryType::spec_from_code(data@[0]) {
                Some(t) => if !t.spec_is_service_entry() {
                    r == Ok::<EventgroupEntry, SomeIpError>(Self::fields_of(data@, t))
                } else {
                    r matches Err(SomeIpError::InvalidHeader(_))
                },
                None => r matches Err(SomeIpError::InvalidHeader(_)),
            },
    {
        if data.len() < SD_ENTRY_SIZE {
            return Err(SomeIpError::MessageTooShort { expected: SD_ENTRY_SIZE, actual: data.len() });
        }
        let entry_type = match EntryType::from_u8(data[0]) {
            Some(t) => t,
            None => return Err(SomeIpError::invalid_header("Unknown entry type")),
        };
        if !entry_type.is_eventgroup_entry() {
            return Err(SomeIpError::invalid_header("Expected eventgroup entry type"));
        }
        Ok(
            EventgroupEntry {
                entry_type,
                index_first_option: data[1],
                index_second_option: data[2],
                num_options_1: data[3] / 16,
                num_options_2: data[3] % 16,
                service_id: ServiceId(read_be_u16(data, 4)),
                instance_id: InstanceId(read_be_u16(data, 6)),
                major_version: data[8],
                ttl: (data[9] as u32) * 0x10000 + (data[10] as u32) * 256 + (data[11] as u32),
                counter: data[12] % 16,
                eventgroup_id: EventgroupId(read_be_u16(data, 14)),
            },
        )
    }

    /// Append the 16 wire bytes of this entry to `buf`.
    pub fn write_to(&self, buf: &mut Vec<u8>)
        ensures
            final(buf)@ == old(buf)@ + self.spec_bytes(),
    {
        buf.push(self.entry_type.to_u8());
        buf.push(self.index_first_option);
        buf.push(self.index_second_option);
        buf.push((self.num_options_1 % 16) * 16 + self.num_options_2 % 16);
        push_be_u16(buf, self.service_id.0);
        push_be_u16(buf, self.instance_id.0);
        buf.push(self.major_version);
        buf.push(((self.ttl / 0x10000) % 256) as u8);
        buf.push(((self.ttl / 256) % 256) as u8);
        buf.push((self.ttl % 256) as u8);
        buf.push(self.counter % 16);
        buf.push(0);
        push_be_u16(buf, self.eventgroup_id.0);
        assert(final(buf)@ =~= old(buf)@ + self.spec_bytes());
    }

    /// Encode this entry to its 16 wire bytes.
    pub fn to_bytes(&self) -> (r: Vec<u8>)
        ensures
            r@ == self.spec_bytes(),
    {
        let mut buf: Vec<u8> = Vec::with_capacity(SD_ENTRY_SIZE);
        self.write_to(&mut buf);
        assert(buf@ =~= self.spec_bytes());
        buf
    }
}

/// An SD entry.
#[derive(Debug, Clone, Copy, PartialEq, Eq, Structural)]
pub enum SdEntry {
    /// Service entry (find or offer).
    Service(ServiceEntry),
    /// Eventgroup entry (subscribe or acknowledge).
    Eventgroup(EventgroupEntry),
}

impl SdEntry {
    /// The entry fits its wire format.
    pub open spec fn valid(&self) -> bool {
        match self {
            SdEntry::Service(e) => e.valid(),
            SdEntry::Eventgroup(e) => e.valid(),
        }
    }

    /// The 16 wire bytes of this entry.
    pub open spec fn spec_bytes(&self) -> Seq<u8> {
        match self {
            SdEntry::Service(e) => e.spec_bytes(),
            SdEntry::Eventgroup(e) => e.spec_bytes(),
        }
    }

    /// The entry in the first 16 bytes of `b`, or `None` for an unknown type.
    pub open spec fn spec_decode(b: Seq<u8>) -> Option<SdEntry> {
        match EntryType::spec_from_code(b[0]) {
            Some(t) => if t.spec_is_service_entry() {
                Some(SdEntry::Service(ServiceEntry::fields_of(b, t)))
            } else {
                Some(SdEntry::Eventgroup(EventgroupEntry::fields_of(b, t)))
            },
            None => None,
        }
    }

    /// Decode an entry, dispatching on its type byte.
    pub fn from_bytes(data: &[u8]) -> (r: Result<SdEntry>)
        ensures
            data@.len() == 0 ==> r == Err::<SdEntry, SomeIpError>(
                SomeIpError::MessageTooShort { expected: 1, actual: 0 },
            ),
            data@.len() > 0 && EntryType::spec_from_code(data@[0]) is None ==> r matches Err(SomeIpError::InvalidHeader(_)),
            0 < data@.len() < SD_ENTRY_SIZE && EntryType::spec_from_code(data@[0]) is Some ==> r == Err::<SdEntry, SomeIpError>(
                SomeIpError::MessageTooShort { expected: SD_ENTRY_SIZE, actual: data@.len() as usize },
            ),
            data@.len() >= SD_ENTRY_SIZE && Self::spec_decode(data@) is Some ==> r == Ok::<SdEntry, SomeIpError>(
                Self::spec_decode(data@)->Some_0,
            ),
    {
        if data.len() == 0 {
            return Err(SomeIpError::MessageTooShort { expected: 1, actual: 0 });
        }
        match EntryType::from_u8(data[0]) {
            Some(t) => if t.is_service_entry() {
                match ServiceEntry::from_bytes(data) {
                    Ok(e) => Ok(SdEntry::Service(e)),
                    Err(e) => Err(e),
                }
            } else {
                match EventgroupEntry::from_bytes(data) {
                    Ok(e) => Ok(SdEntry::Eventgroup(e)),
                    Err(e) => Err(e),
                }
            },
            None => Err(SomeIpError::invalid_header("Unknown entry type")),
        }
    }

    /// Append the 16 wire bytes of this entry to `buf`.
    pub fn write_to(&self, buf: &mut Vec<u8>)
        ensures
            final(buf)@ == old(buf)@ + self.spec_bytes(),
    {
        match self {
            SdEntry::Service(e) => e.write_to(buf),
            SdEntry::Eventgroup(e) => e.write_to(buf),
        }
    }

    /// Encode this entry to its 16 wire bytes.
    pub fn to_bytes(&self) -> (r: Vec<u8>)
        ensures
            r@ == self.spec_bytes(),
    {
        match self {
            SdEntry::Service(e) => e.to_bytes(),
            SdEntry::Eventgroup(e) => e.to_bytes(),
        }
    }

    /// The service ID of this entry.
    pub fn service_id(&self) -> (r: ServiceId)
        ensures
            r == match self {
                SdEntry::Service(e) => e.service_id,
                SdEntry::Eventgroup(e) => e.service_id,
            },
    {
        match self {
            SdEntry::Service(e) => e.service_id,
            SdEntry::Eventgroup(e) => e.service_id,
        }
    }

    /// The instance ID of this entry.
    pub fn instance_id(&self) -> (r: InstanceId)
        ensures
            r == match self {
                SdEntry::Service(e) => e.instance_id,
                SdEntry::Eventgroup(e) => e.instance_id,
            },
    {
        match self {
            SdEntry::Service(e) => e.instance_id,
            SdEntry::Eventgroup(e) => e.instance_id,
        }
    }

    /// The TTL of this entry.
    pub fn ttl(&self) -> (r: u32)
        ensures
            r == match self {
                SdEntry::Service(e) => e.ttl,
                SdEntry::Eventgroup(e) => e.ttl,
            },
    {
        match self {
            SdEntry::Service(e) => e.ttl,
            SdEntry::Eventgroup(e) => e.ttl,
        }
    }
}

proof fn lemma_counts(n1: u8, n2: u8)
    requires
        n1 < 16,
        n2 < 16,
    ensures
        counts_byte(n1, n2) / 16 == n1,
        counts_byte(n1, n2) % 16 == n2,
{
}

proof fn lemma_u24(x: u32, b: Seq<u8>, i: int)
    requires
        x < 0x100_0000,
        0 <= i,
        i + 3 <= b.len(),
        b.subrange(i, i + 3) == be_u24_bytes(x),
    ensures
        be_u24_at(b, i) == x,
{
    assert(b[i] == b.subrange(i, i + 3)[0]);
    assert(b[i + 1] == b.subrange(i, i + 3)[1]);
    assert(b[i + 2] == b.subrange(i, i + 3)[2]);
}

proof fn lemma_service_round_trip(x: ServiceEntry, b: Seq<u8>)
    requires
        x.valid(),
        b.len() >= SD_ENTRY_SIZE,
        b.subrange(0, 16) == x.spec_bytes(),
    ensures
        x.spec_bytes().len() == SD_ENTRY_SIZE,
        ServiceEntry::fields_of(b, x.entry_type) == x,
        b[0] == x.entry_type.code(),
{
    let s = x.spec_bytes();
    assert(s.len() == 16);
    assert(b[0] == s[0] && b[1] == s[1] && b[2] == s[2] && b[3] == s[3] && b[8] == s[8]);
    assert(s.subrange(4, 6) =~= be_u16_bytes(x.service_id.0));
    assert(s.subrange(6, 8) =~= be_u16_bytes(x.instance_id.0));
    assert(s.subrange(9, 12) =~= be_u24_bytes(x.ttl));
    assert(s.subrange(12, 16) =~= be_u32_bytes(x.minor_version));
    assert(b.subrange(4, 6) =~= s.subrange(4, 6));
    assert(b.subrange(6, 8) =~= s.subrange(6, 8));
    assert(b.subrange(9, 12) =~= s.subrange(9, 12));
    assert(b.subrange(12, 16) =~= s.subrange(12, 16));
    crate::header::lemma_be_u16(x.service_id.0, b, 4);
    crate::header::lemma_be_u16(x.instance_id.0, b, 6);
    lemma_u24(x.ttl, b, 9);
    crate::header::lemma_be_u32(x.minor_version, b, 12);
    lemma_counts(x.num_options_1, x.num_options_2);
}

proof fn lemma_eventgroup_round_trip(x: EventgroupEntry, b: Seq<u8>)
    requires
        x.valid(),
        b.len() >= SD_ENTRY_SIZE,
        b.subrange(0, 16) == x.spec_bytes(),
    ensures
        x.spec_bytes().len() == SD_ENTRY_SIZE,
        EventgroupEntry::fields_of(b, x.entry_type) == x,
        b[0] == x.entry_type.code(),
{
    let s = x.spec_bytes();
    assert(s.len() == 16);
    assert(b[0] == s[0] && b[1] == s[1] && b[2] == s[2] && b[3] == s[3] && b[8] == s[8] && b[12] == s[12]);
    assert(s.subrange(4, 6) =~= be_u16_bytes(x.service_id.0));
    assert(s.subrange(6, 8) =~= be_u16_bytes(x.instance_id.0));
    assert(s.subrange(9, 12) =~= be_u24_bytes(x.ttl));
    assert(s.subrange(14, 16) =~= be_u16_bytes(x.eventgroup_id.0));
    assert(b.subrange(4, 6) =~= s.subrange(4, 6));
    assert(b.subrange(6, 8) =~= s.subrange(6, 8));
    assert(b.subrange(9, 12) =~= s.subrange(9, 12));
    assert(b.subrange(14, 16) =~= s.subrange(14, 16));
    crate::header::lemma_be_u16(x.service_id.0, b, 4);
    crate::header::lemma_be_u16(x.instance_id.0, b, 6);
    lemma_u24(x.ttl, b, 9);
    crate::header::lemma_be_u16(x.eventgroup_id.0, b, 14);
    lemma_counts(x.num_options_1, x.num_options_2);
}

/// Every entry encodes to 16 bytes.
pub proof fn lemma_entry_bytes_len(e: SdEntry)
    ensures
        e.spec_bytes().len() == SD_ENTRY_SIZE,
{
}

/// Entry round trip: a valid entry is decoded from its own 16 bytes.
pub proof fn lemma_entry_round_trip(e: SdEntry, b: Seq<u8>)
    requires
        e.valid(),
        b.len() >= SD_ENTRY_SIZE,
        b.subrange(0, 16) == e.spec_bytes(),
    ensures
        e.spec_bytes().len() == SD_ENTRY_SIZE,
        SdEntry::spec_decode(b) == Some(e),
{
    match e {
        SdEntry::Service(x) => lemma_service_round_trip(x, b),
        SdEntry::Eventgroup(x) => lemma_eventgroup_round_trip(x, b),
    }
}

} // verus!
