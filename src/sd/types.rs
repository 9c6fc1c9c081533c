//! Service-discovery identifiers, entry and option kinds, and constants.
use vstd::prelude::*;

verus! {

/// Service ID of SD messages.
pub const SD_SERVICE_ID: u16 = 0xFFFF;

/// Method ID of SD messages.
pub const SD_METHOD_ID: u16 = 0x8100;

/// Default SD port.
pub const SD_DEFAULT_PORT: u16 = 30490;

/// Size of an SD entry in bytes.
pub const SD_ENTRY_SIZE: usize = 16;

/// Size of an SD option header in bytes.
pub const SD_OPTION_HEADER_SIZE: usize = 4;

/// Instance ID of a service instance.
#[derive(Debug, Clone, Copy, PartialEq, Eq, Hash, Default, Structural)]
pub struct InstanceId(pub u16);

impl InstanceId {
    /// The wildcard instance ID (0xFFFF), which matches any instance.
    pub fn any() -> (r: InstanceId)
        ensures
            r.0 == 0xFFFF,
    {
        InstanceId(0xFFFF)
    }

    /// Whether this is the wildcard instance ID.
    pub fn is_any(&self) -> (r: bool)
        ensures
            r == (self.0 == 0xFFFF),
    {
        self.0 == 0xFFFF
    }
}

/// Eventgroup ID for event subscriptions.
#[derive(Debug, Clone, Copy, PartialEq, Eq, Hash, Default, Structural)]
pub struct EventgroupId(pub u16);

/// SD entry types.
#[derive(Debug, Clone, Copy, PartialEq, Eq, Hash, Structural)]
pub enum EntryType {
    /// Find a service.
    FindService,
    /// Offer a service (TTL > 0) or stop offering it (TTL = 0).
    OfferService,
    /// Subscribe to an eventgroup (TTL > 0) or unsubscribe (TTL = 0).
    SubscribeEventgroup,
    /// Acknowledge (TTL > 0) or reject (TTL = 0) a subscription.
    SubscribeEventgroupAck,
}

impl EntryType {
    /// The wire byte of this entry type.
    pub open spec fn code(self) -> u8 {
        match self {
            EntryType::FindService => 0x00,
            EntryType::OfferService => 0x01,
            EntryType::SubscribeEventgroup => 0x06,
            EntryType::SubscribeEventgroupAck => 0x07,
        }
    }

    /// The entry type whose wire byte is `b`, if any.
    pub open spec fn spec_from_code(b: u8) -> Option<EntryType> {
        if b == 0x00 {
            Some(EntryType::FindService)
        } else if b == 0x01 {
            Some(EntryType::OfferService)
        } else if b == 0x06 {
            Some(EntryType::SubscribeEventgroup)
        } else if b == 0x07 {
            Some(EntryType::SubscribeEventgroupAck)
        } else {
            None
        }
    }

    pub open spec fn spec_is_service_entry(self) -> bool {
        self == EntryType::FindService || self == EntryType::OfferService
    }

    /// Decode an entry type from its wire byte.
    pub fn from_u8(value: u8) -> (r: Option<EntryType>)
        ensures
            r == Self::spec_from_code(value),
    {
        match value {
            0x00 => Some(EntryType::FindService),
            0x01 => Some(EntryType::OfferService),
            0x06 => Some(EntryType::SubscribeEventgroup),
            0x07 => Some(EntryType::SubscribeEventgroupAck),
            _ => None,
        }
    }

    /// The wire byte of this entry type.
    pub fn to_u8(&self) -> (r: u8)
        ensures
            r == self.code(),
    {
        match self {
            EntryType::FindService => 0x00,
            EntryType::OfferService => 0x01,
            EntryType::SubscribeEventgroup => 0x06,
            EntryType::SubscribeEventgroupAck => 0x07,
        }
    }

    /// Whether this is a service entry type (find or offer).
    pub fn is_service_entry(&self) -> (r: bool)
        ensures
            r == self.spec_is_service_entry(),
    {
        match self {
            EntryType::FindService | EntryType::OfferService => true,
            _ => false,
        }
    }

    /// Whether this is an eventgroup entry type (subscribe or acknowledge).
    pub fn is_eventgroup_entry(&self) -> (r: bool)
        ensures
            r == !self.spec_is_service_entry(),
    {
        match self {
            EntryType::SubscribeEventgroup | EntryType::SubscribeEventgroupAck => true,
            _ => false,
        }
    }
}

/// SD option types.
#[derive(Debug, Clone, Copy, PartialEq, Eq, Hash, Structural)]
pub enum OptionType {
    /// Configuration string option.
    Configuration,
    /// Load balancing option.
    LoadBalancing,
    /// IPv4 endpoint option.
    IPv4Endpoint,
    /// IPv6 endpoint option.
    IPv6Endpoint,
    /// IPv4 multicast option.
    IPv4Multicast,
    /// IPv6 multicast option.
    IPv6Multicast,
    /// IPv4 SD endpoint option.
    IPv4SdEndpoint,
    /// IPv6 SD endpoint option.
    IPv6SdEndpoint,
}

impl OptionType {
    /// The wire byte of this option type.
    pub open spec fn code(self) -> u8 {
        match self {
            OptionType::Configuration => 0x01,
            OptionType::LoadBalancing => 0x02,
            OptionType::IPv4Endpoint => 0x04,
            OptionType::IPv6Endpoint => 0x06,
            OptionType::IPv4Multicast => 0x14,
            OptionType::IPv6Multicast => 0x16,
            OptionType::IPv4SdEndpoint => 0x24,
            OptionType::IPv6SdEndpoint => 0x26,
        }
    }

    /// The option type whose wire byte is `b`, if any.
    pub open spec fn spec_from_code(b: u8) -> Option<OptionType> {
        if b == 0x01 {
            Some(OptionType::Configuration)
        } else if b == 0x02 {
            Some(OptionType::LoadBalancing)
        } else if b == 0x04 {
            Some(OptionType::IPv4Endpoint)
        } else if b == 0x06 {
            Some(OptionType::IPv6Endpoint)
        } else if b == 0x14 {
            Some(OptionType::IPv4Multicast)
        } else if b == 0x16 {
            Some(OptionType::IPv6Multicast)
        } else if b == 0x24 {
            Some(OptionType::IPv4SdEndpoint)
        } else if b == 0x26 {
            Some(OptionType::IPv6SdEndpoint)
        } else {
            None
        }
    }

    /// Decode an option type from its wire byte.
    pub fn from_u8(value: u8) -> (r: Option<OptionType>)
        ensures
            r == Self::spec_from_code(value),
    {
        match value {
            0x01 => Some(OptionType::Configuration),
            0x02 => Some(OptionType::LoadBalancing),
            0x04 => Some(OptionType::IPv4Endpoint),
            0x06 => Some(OptionType::IPv6Endpoint),
            0x14 => Some(OptionType::IPv4Multicast),
            0x16 => Some(OptionType::IPv6Multicast),
            0x24 => Some(OptionType::IPv4SdEndpoint),
            0x26 => Some(OptionType::IPv6SdEndpoint),
            _ => None,
        }
    }

    /// Whether this is an IPv4 option.
    pub fn is_ipv4(&self) -> (r: bool)
        ensures
            r == (*self == OptionType::IPv4Endpoint || *self == OptionType::IPv4Multicast || *self
                == OptionType::IPv4SdEndpoint),
    {
        match self {
            OptionType::IPv4Endpoint | OptionType::IPv4Multicast | OptionType::IPv4SdEndpoint => true,
            _ => false,
        }
    }

    /// Whether this is an IPv6 option.
    pub fn is_ipv6(&self) -> (r: bool)
        ensures
            r == (*self == OptionType::IPv6Endpoint || *self == OptionType::IPv6Multicast || *self
                == OptionType::IPv6SdEndpoint),
    {
        match self {
            OptionType::IPv6Endpoint | OptionType::IPv6Multicast | OptionType::IPv6SdEndpoint => true,
            _ => false,
        }
    }
}

/// Transport protocol of an endpoint.
#[derive(Debug, Clone, Copy, PartialEq, Eq, Hash, Structural)]
pub enum TransportProtocol {
    /// TCP (0x06).
    Tcp,
    /// UDP (0x11).
    Udp,
}

impl TransportProtocol {
    /// The wire byte of this protocol.
    pub open spec fn code(self) -> u8 {
        match self {
            TransportProtocol::Tcp => 0x06,
            TransportProtocol::Udp => 0x11,
        }
    }

    /// The protocol whose wire byte is `b`, if any.
    pub open spec fn spec_from_code(b: u8) -> Option<TransportProtocol> {
        if b == 0x06 {
            Some(TransportProtocol::Tcp)
        } else if b == 0x11 {
            Some(TransportProtocol::Udp)
        } else {
            None
        }
    }

    /// Decode a protocol from its wire byte.
    pub fn from_u8(value: u8) -> (r: Option<TransportProtocol>)
        ensures
            r == Self::spec_from_code(value),
    {
        match value {
            0x06 => Some(TransportProtocol::Tcp),
            0x11 => Some(TransportProtocol::Udp),
            _ => None,
        }
    }

    /// The wire byte of this protocol.
    pub fn to_u8(&self) -> (r: u8)
        ensures
            r == self.code(),
    {
        match self {
            TransportProtocol::Tcp => 0x06,
            TransportProtocol::Udp => 0x11,
        }
    }
}

impl Default for TransportProtocol {
    fn default() -> (r: TransportProtocol)
        ensures
            r == TransportProtocol::Udp,
    {
        TransportProtocol::Udp
    }
}

} // verus!
