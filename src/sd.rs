//! Service discovery: the wire format of SD messages and the state of
//! discovery clients and servers.

pub mod client;
pub mod entry;
pub mod message;
pub mod option;
pub mod server;
pub mod types;

pub use client::{is_wanted_service, SdClientState, SdEvent, ServiceInfo};
pub use entry::{EventgroupEntry, SdEntry, ServiceEntry};
pub use message::{SdFlags, SdMessage};
pub use option::{
    ConfigurationOption, Endpoint, IPv4EndpointOption, IPv6EndpointOption, Ipv4Address, Ipv6Address, SdOption,
    SocketAddress,
};
pub use server::{OfferedService, SdRequest, SdServerState, Subscription};
pub use types::{
    EntryType, EventgroupId, InstanceId, OptionType, TransportProtocol, SD_DEFAULT_PORT, SD_ENTRY_SIZE,
    SD_METHOD_ID, SD_SERVICE_ID,
};
