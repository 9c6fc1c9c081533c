//! Service-discovery options: endpoints, multicast groups, configuration.
use vstd::prelude::*;
use vstd::utf8::{decode_utf8, encode_utf8, valid_utf8};
use crate::error::{Result, SomeIpError};
use crate::text::string_from_utf8;
use crate::header::{be_u16_at, be_u16_bytes, push_be_u16, read_be_u16};
use crate::sd::types::{OptionType, TransportProtocol, SD_OPTION_HEADER_SIZE};

verus! {

/// An IPv4 address, as its four octets.
#[derive(Debug, Clone, Copy, PartialEq, Eq, Hash, Structural)]
pub struct Ipv4Address(pub u8, pub u8, pub u8, pub u8);

impl Ipv4Address {
    /// The address `a.b.c.d`.
    pub fn new(a: u8, b: u8, c: u8, d: u8) -> (r: Ipv4Address)
        ensures
            r == Ipv4Address(a, b, c, d),
    {
        Ipv4Address(a, b, c, d)
    }
}

/// An IPv6 address, as its eight 16-bit segments.
#[derive(Debug, Clone, Copy, PartialEq, Eq, Hash, Structural)]
pub struct Ipv6Address(pub u16, pub u16, pub u16, pub u16, pub u16, pub u16, pub u16, pub u16);

impl Ipv6Address {
    /// The address with segments `a:b:c:d:e:f:g:h`.
    pub fn new(a: u16, b: u16, c: u16, d: u16, e: u16, f: u16, g: u16, h: u16) -> (r: Ipv6Address)
        ensures
            r == Ipv6Address(a, b, c, d, e, f, g, h),
    {
        Ipv6Address(a, b, c, d, e, f, g, h)
    }

    /// The 16 bytes of this address.
    pub open spec fn spec_bytes(&self) -> Seq<u8> {
        be_u16_bytes(self.0) + be_u16_bytes(self.1) + be_u16_bytes(self.2) + be_u16_bytes(self.3)
            + be_u16_bytes(self.4) + be_u16_bytes(self.5) + be_u16_bytes(self.6) + be_u16_bytes(self.7)
    }
}

/// A socket address: an IP address and a port.
#[derive(Debug, Clone, Copy, PartialEq, Eq, Hash, Structural)]
pub enum SocketAddress {
    V4(Ipv4Address, u16),
    V6(Ipv6Address, u16),
}

/// IPv4 endpoint option.
#[derive(Debug, Clone, Copy, PartialEq, Eq, Structural)]
pub struct IPv4EndpointOption {
    /// IPv4 address.
    pub address: Ipv4Address,
    /// Transport protocol.
    pub protocol: TransportProtocol,
    /// Port number.
    pub port: u16,
}

impl IPv4EndpointOption {
    /// Size of the option's data (after the option header).
    pub const DATA_SIZE: usize = 9;

    /// The option's 9 data bytes: address, reserved, protocol, port, padding.
    pub open spec fn spec_bytes(&self) -> Seq<u8> {
        seq![self.address.0, self.address.1, self.address.2, self.address.3, 0u8, self.protocol.code()]
            + be_u16_bytes(self.port) + seq![0u8]
    }

    /// The option whose address and port are in `b`, with protocol `p`.
    pub open spec fn fields_of(b: Seq<u8>, p: TransportProtocol) -> IPv4EndpointOption {
        IPv4EndpointOption { address: Ipv4Address(b[0], b[1], b[2], b[3]), protocol: p, port: be_u16_at(b, 6) }
    }

    /// The outcome of decoding the option's data `b`.
    pub open spec fn parse(b: Seq<u8>) -> Option<Result<IPv4EndpointOption>> {
        if b.len() < 9 {
            Some(Err(SomeIpError::MessageTooShort { expected: 9, actual: b.len() as usize }))
        } else {
            match TransportProtocol::spec_from_code(b[5]) {
                Some(p) => Some(Ok(Self::fields_of(b, p))),
                None => None,
            }
        }
    }

    /// Create an option.
    pub fn new(address: Ipv4Address, protocol: TransportProtocol, port: u16) -> (r: IPv4EndpointOption)
        ensures
            r == (IPv4EndpointOption { address, protocol, port }),
    {
        IPv4EndpointOption { address, protocol, port }
    }

    /// The option for IPv4 address `address` and `port`.
    pub fn from_socket_addr(address: Ipv4Address, port: u16, protocol: TransportProtocol) -> (r: IPv4EndpointOption)
        ensures
            r == (IPv4EndpointOption { address, protocol, port }),
    {
        IPv4EndpointOption { address, protocol, port }
    }

    /// The socket address of this endpoint.
    pub fn to_socket_addr(&self) -> (r: SocketAddress)
        ensures
            r == SocketAddress::V4(self.address, self.port),
    {
        SocketAddress::V4(self.address, self.port)
    }

    /// Decode the option's data; `None` stands for an unknown protocol byte,
    /// reported as an invalid-header error.
    pub fn from_bytes(data: &[u8]) -> (r: Result<IPv4EndpointOption>)
        ensures
            match Self::parse(data@) {
                Some(x) => r == x,
                None => r matches Err(SomeIpError::InvalidHeader(_)),
            },
    {
        if data.len() < 9 {
            return Err(SomeIpError::MessageTooShort { expected: 9, actual: data.len() });
        }
        let protocol = match TransportProtocol::from_u8(data[5]) {
            Some(p) => p,
            None => return Err(SomeIpError::invalid_header("Unknown protocol")),
        };
        Ok(IPv4EndpointOption { address: Ipv4Address(data[0], data[1], data[2], data[3]), protocol, port: read_be_u16(data, 6) })
    }

    /// Append the option's 9 data bytes to `buf`.
    pub fn write_to(&self, buf: &mut Vec<u8>)
        ensures
            final(buf)@ == old(buf)@ + self.spec_bytes(),
    {
        buf.push(self.address.0);
        buf.push(self.address.1);
        buf.push(self.address.2);
        buf.push(self.address.3);
        buf.push(0);
        buf.push(self.protocol.to_u8());
        push_be_u16(buf, self.port);
        buf.push(0);
        assert(final(buf)@ =~= old(buf)@ + self.spec_bytes());
    }

    /// Encode the option's 9 data bytes.
    pub fn to_bytes(&self) -> (r: Vec<u8>)
        ensures
            r@ == self.spec_bytes(),
    {
        let mut buf: Vec<u8> = Vec::with_capacity(9);
        self.write_to(&mut buf);
        assert(buf@ =~= self.spec_bytes());
        buf
    }
}

/// IPv6 endpoint option.
#[derive(Debug, Clone, Copy, PartialEq, Eq, Structural)]
pub struct IPv6EndpointOption {
    /// IPv6 address.
    pub address: Ipv6Address,
    /// Transport protocol.
    pub protocol: TransportProtocol,
    /// Port number.
    pub port: u16,
}

impl IPv6EndpointOption {
    /// Size of the option's data (after the option header).
    pub const DATA_SIZE: usize = 21;

    /// The option's 21 data bytes: address, reserved, protocol, port, padding.
    pub open spec fn spec_bytes(&self) -> Seq<u8> {
        self.address.spec_bytes() + seq![0u8, self.protocol.code()] + be_u16_bytes(self.port) + seq![0u8]
    }

    /// The option whose address and port are in `b`, with protocol `p`.
    pub open spec fn fields_of(b: Seq<u8>, p: TransportProtocol) -> IPv6EndpointOption {
        IPv6EndpointOption {
            address: Ipv6Address(
                be_u16_at(b, 0),
                be_u16_at(b, 2),
                be_u16_at(b, 4),
                be_u16_at(b, 6),
                be_u16_at(b, 8),
                be_u16_at(b, 10),
                be_u16_at(b, 12),
                be_u16_at(b, 14),
            ),
            protocol: p,
            port: be_u16_at(b, 18),
        }
    }

    /// The outcome of decoding the option's data `b`.
    pub open spec fn parse(b: Seq<u8>) -> Option<Result<IPv6EndpointOption>> {
        if b.len() < 21 {
            Some(Err(SomeIpError::MessageTooShort { expected: 21, actual: b.len() as usize }))
        } else {
            match TransportProtocol::spec_from_code(b[17]) {
                Some(p) => Some(Ok(Self::fields_of(b, p))),
                None => None,
            }
        }
    }

    /// Create an option.
    pub fn new(address: Ipv6Address, protocol: TransportProtocol, port: u16) -> (r: IPv6EndpointOption)
        ensures
            r == (IPv6EndpointOption { address, protocol, port }),
    {
        IPv6EndpointOption { address, protocol, port }
    }

    /// The option for IPv6 address `address` and `port`.
    pub fn from_socket_addr(address: Ipv6Address, port: u16, protocol: TransportProtocol) -> (r: IPv6EndpointOption)
        ensures
            r == (IPv6EndpointOption { address, protocol, port }),
    {
        IPv6EndpointOption { address, protocol, port }
    }

    /// The socket address of this endpoint.
    pub fn to_socket_addr(&self) -> (r: SocketAddress)
        ensures
            r == SocketAddress::V6(self.address, self.port),
    {
        SocketAddress::V6(self.address, self.port)
    }

    /// Decode the option's data; `None` stands for an unknown protocol byte,
    /// reported as an invalid-header error.
    pub fn from_bytes(data: &[u8]) -> (r: Result<IPv6EndpointOption>)
        ensures
            match Self::parse(data@) {
                Some(x) => r == x,
                None => r matches Err(SomeIpError::InvalidHeader(_)),
            },
    {
        if data.len() < 21 {
            return Err(SomeIpError::MessageTooShort { expected: 21, actual: data.len() });
        }
        let protocol = match TransportProtocol::from_u8(data[17]) {
            Some(p) => p,
            None => return Err(SomeIpError::invalid_header("Unknown protocol")),
        };
        let address = Ipv6Address(
            read_be_u16(data, 0),
            read_be_u16(data, 2),
            read_be_u16(data, 4),
            read_be_u16(data, 6),
            read_be_u16(data, 8),
            read_be_u16(data, 10),
            read_be_u16(data, 12),
            read_be_u16(data, 14),
        );
        Ok(IPv6EndpointOption { address, protocol, port: read_be_u16(data, 18) })
    }

    /// Append the option's 21 data bytes to `buf`.
    pub fn write_to(&self, buf: &mut Vec<u8>)
        ensures
            final(buf)@ == old(buf)@ + self.spec_bytes(),
    {
        push_be_u16(buf, self.address.0);
        push_be_u16(buf, self.address.1);
        push_be_u16(buf, self.address.2);
        push_be_u16(buf, self.address.3);
        push_be_u16(buf, self.address.4);
        push_be_u16(buf, self.address.5);
        push_be_u16(buf, self.address.6);
        push_be_u16(buf, self.address.7);
        buf.push(0);
        buf.push(self.protocol.to_u8());
        push_be_u16(buf, self.port);
        buf.push(0);
        assert(final(buf)@ =~= old(buf)@ + self.spec_bytes());
    }

    /// Encode the option's 21 data bytes.
    pub fn to_bytes(&self) -> (r: Vec<u8>)
        ensures
            r@ == self.spec_bytes(),
    {
        let mut buf: Vec<u8> = Vec::with_capacity(21);
        self.write_to(&mut buf);
        assert(buf@ =~= self.spec_bytes());
        buf
    }
}

/// Configuration string option.
#[derive(Debug, Clone, PartialEq, Eq)]
pub struct ConfigurationOption {
    /// Configuration string.
    pub config_string: String,
}

impl ConfigurationOption {
    /// Create a configuration option.
    pub fn new(config_string: &str) -> (r: ConfigurationOption)
        ensures
            r.config_string@ == config_string@,
    {
        ConfigurationOption { config_string: config_string.to_owned() }
    }

    /// Decode the option's data: UTF-8 text.
    pub fn from_bytes(data: &[u8]) -> (r: Result<ConfigurationOption>)
        ensures
            valid_utf8(data@) ==> (r matches Ok(c) && c.config_string@ == decode_utf8(data@)),
            !valid_utf8(data@) ==> r matches Err(SomeIpError::InvalidHeader(_)),
    {
        match string_from_utf8(vstd::slice::slice_to_vec(data)) {
            Some(s) => Ok(ConfigurationOption { config_string: s }),
            None => Err(SomeIpError::invalid_header("Invalid UTF-8 in configuration string")),
        }
    }

    /// Encode the option's data: the UTF-8 bytes of the string.
    pub fn to_bytes(&self) -> (r: Vec<u8>)
        ensures
            r@ == encode_utf8(self.config_string@),
    {
        vstd::slice::slice_to_vec(self.config_string.as_str().as_bytes())
    }
}

/// What an option holds, without its wire header.
pub enum SdOptionView {
    IPv4Endpoint(IPv4EndpointOption),
    IPv6Endpoint(IPv6EndpointOption),
    IPv4Multicast(IPv4EndpointOption),
    IPv6Multicast(IPv6EndpointOption),
    Configuration(Seq<char>),
    Unknown(u8, Seq<u8>),
}

/// An SD option.
#[derive(Debug, Clone, PartialEq, Eq)]
pub enum SdOption {
    /// IPv4 endpoint option.
    IPv4Endpoint(IPv4EndpointOption),
    /// IPv6 endpoint option.
    IPv6Endpoint(IPv6EndpointOption),
    /// IPv4 multicast option.
    IPv4Multicast(IPv4EndpointOption),
    /// IPv6 multicast option.
    IPv6Multicast(IPv6EndpointOption),
    /// Configuration string option.
    Configuration(ConfigurationOption),
    /// Option of a type this library does not decode, kept as it came.
    Unknown { option_type: u8, data: Vec<u8> },
}

impl View for SdOption {
    type V = SdOptionView;

    open spec fn view(&self) -> SdOptionView {
        match self {
            SdOption::IPv4Endpoint(o) => SdOptionView::IPv4Endpoint(*o),
            SdOption::IPv6Endpoint(o) => SdOptionView::IPv6Endpoint(*o),
            SdOption::IPv4Multicast(o) => SdOptionView::IPv4Multicast(*o),
            SdOption::IPv6Multicast(o) => SdOptionView::IPv6Multicast(*o),
            SdOption::Configuration(c) => SdOptionView::Configuration(c.config_string@),
            SdOption::Unknown { option_type, data } => SdOptionView::Unknown(*option_type, data@),
        }
    }
}

/// The type byte and data bytes of an option.
pub open spec fn option_parts(o: SdOptionView) -> (u8, Seq<u8>) {
    match o {
        SdOptionView::IPv4Endpoint(x) => (0x04u8, x.spec_bytes()),
        SdOptionView::IPv6Endpoint(x) => (0x06u8, x.spec_bytes()),
        SdOptionView::IPv4Multicast(x) => (0x14u8, x.spec_bytes()),
        SdOptionView::IPv6Multicast(x) => (0x16u8, x.spec_bytes()),
        SdOptionView::Configuration(s) => (0x01u8, encode_utf8(s)),
        SdOptionView::Unknown(t, d) => (t, d),
    }
}

/// The wire bytes of an option: data length, type, reserved byte, data.
pub open spec fn option_bytes(o: SdOptionView) -> Seq<u8> {
    let (t, d) = option_parts(o);
    be_u16_bytes(d.len() as u16) + seq![t, 0u8] + d
}

/// An option fits its wire format: its data fits the 16-bit length, and an
/// unknown option does not carry a type byte that decodes to a known kind.
pub open spec fn valid_option(o: SdOptionView) -> bool {
    &&& option_parts(o).1.len() <= 0xFFFF
    &&& match o {
        SdOptionView::Unknown(t, _) => t != 0x01 && t != 0x04 && t != 0x06 && t != 0x14 && t != 0x16,
        _ => true,
    }
}

/// The outcome of decoding the data `d` of an option of type byte `t`;
/// `None` stands for an invalid-header error.
#[verifier::opaque]
pub open spec fn parse_option_data(t: u8, d: Seq<u8>) -> Option<Result<SdOptionView>> {
    if t == 0x04 {
        match IPv4EndpointOption::parse(d) {
            Some(Ok(x)) => Some(Ok(SdOptionView::IPv4Endpoint(x))),
            Some(Err(e)) => Some(Err(e)),
            None => None,
        }
    } else if t == 0x06 {
        match IPv6EndpointOption::parse(d) {
            Some(Ok(x)) => Some(Ok(SdOptionView::IPv6Endpoint(x))),
            Some(Err(e)) => Some(Err(e)),
            None => None,
        }
    } else if t == 0x14 {
        match IPv4EndpointOption::parse(d) {
            Some(Ok(x)) => Some(Ok(SdOptionView::IPv4Multicast(x))),
            Some(Err(e)) => Some(Err(e)),
            None => None,
        }
    } else if t == 0x16 {
        match IPv6EndpointOption::parse(d) {
            Some(Ok(x)) => Some(Ok(SdOptionView::IPv6Multicast(x))),
            Some(Err(e)) => Some(Err(e)),
            None => None,
        }
    } else if t == 0x01 {
        if valid_utf8(d) {
            Some(Ok(SdOptionView::Configuration(decode_utf8(d))))
        } else {
            None
        }
    } else {
        Some(Ok(SdOptionView::Unknown(t, d)))
    }
}

/// The outcome of decoding the option at the front of `b`: the option and the
/// number of bytes it occupies; `None` stands for an invalid-header error.
pub open spec fn parse_option(b: Seq<u8>) -> Option<Result<(SdOptionView, int)>> {
    if b.len() < SD_OPTION_HEADER_SIZE {
        Some(Err(SomeIpError::MessageTooShort { expected: SD_OPTION_HEADER_SIZE, actual: b.len() as usize }))
    } else {
        let total = SD_OPTION_HEADER_SIZE + be_u16_at(b, 0);
        if b.len() < total {
            Some(Err(SomeIpError::MessageTooShort { expected: total as usize, actual: b.len() as usize }))
        } else {
            match parse_option_data(b[2], b.subrange(4, total)) {
                Some(Ok(o)) => Some(Ok((o, total))),
                Some(Err(e)) => Some(Err(e)),
                None => None,
            }
        }
    }
}

/// An option decoded from the front of a buffer, with its size, seen through views.
pub open spec fn option_result_view(r: Result<(SdOption, usize)>) -> Result<(SdOptionView, int)> {
    match r {
        Ok((o, n)) => Ok((o@, n as int)),
        Err(e) => Err(e),
    }
}

impl SdOption {
    /// Decode the option at the front of `data`; return it and its size.
    pub fn from_bytes(data: &[u8]) -> (r: Result<(SdOption, usize)>)
        ensures
            match parse_option(data@) {
                Some(x) => option_result_view(r) == x,
                None => r matches Err(SomeIpError::InvalidHeader(_)),
            },
    {
        if data.len() < SD_OPTION_HEADER_SIZE {
            return Err(SomeIpError::MessageTooShort { expected: SD_OPTION_HEADER_SIZE, actual: data.len() });
        }
        let length = read_be_u16(data, 0) as usize;
        let option_type_byte = data[2];
        let total_size = SD_OPTION_HEADER_SIZE + length;
        if data.len() < total_size {
            return Err(SomeIpError::MessageTooShort { expected: total_size, actual: data.len() });
        }
        let option_data = vstd::slice::slice_subrange(data, SD_OPTION_HEADER_SIZE, total_size);
        proof {
            reveal(parse_option_data);
        }
        let option = if option_type_byte == 0x04 {
            match IPv4EndpointOption::from_bytes(option_data) {
                Ok(o) => SdOption::IPv4Endpoint(o),
                Err(e) => return Err(e),
            }
        } else if option_type_byte == 0x06 {
            match IPv6EndpointOption::from_bytes(option_data) {
                Ok(o) => SdOption::IPv6Endpoint(o),
                Err(e) => return Err(e),
            }
        } else if option_type_byte == 0x14 {
            match IPv4EndpointOption::from_bytes(option_data) {
                Ok(o) => SdOption::IPv4Multicast(o),
                Err(e) => return Err(e),
            }
        } else if option_type_byte == 0x16 {
            match IPv6EndpointOption::from_bytes(option_data) {
                Ok(o) => SdOption::IPv6Multicast(o),
                Err(e) => return Err(e),
            }
        } else if option_type_byte == 0x01 {
            match ConfigurationOption::from_bytes(option_data) {
                Ok(o) => SdOption::Configuration(o),
                Err(e) => return Err(e),
            }
        } else {
            SdOption::Unknown { option_type: option_type_byte, data: vstd::slice::slice_to_vec(option_data) }
        };
        Ok((option, total_size))
    }

    /// Append the wire bytes of this option to `buf`.
    pub fn write_to(&self, buf: &mut Vec<u8>)
        requires
            option_parts(self@).1.len() <= 0xFFFF,
        ensures
            final(buf)@ == old(buf)@ + option_bytes(self@),
    {
        let (option_type, data): (u8, Vec<u8>) = match self {
            SdOption::IPv4Endpoint(o) => (0x04, o.to_bytes()),
            SdOption::IPv6Endpoint(o) => (0x06, o.to_bytes()),
            SdOption::IPv4Multicast(o) => (0x14, o.to_bytes()),
            SdOption::IPv6Multicast(o) => (0x16, o.to_bytes()),
            SdOption::Configuration(c) => (0x01, c.to_bytes()),
            SdOption::Unknown { option_type, data } => (*option_type, vstd::slice::slice_to_vec(data.as_slice())),
        };
        assert(option_parts(self@) == (option_type, data@));
        push_be_u16(buf, data.len() as u16);
        buf.push(option_type);
        buf.push(0);
        buf.extend_from_slice(data.as_slice());
        assert(final(buf)@ =~= old(buf)@ + option_bytes(self@));
    }

    /// Encode this option.
    pub fn to_bytes(&self) -> (r: Vec<u8>)
        requires
            option_parts(self@).1.len() <= 0xFFFF,
        ensures
            r@ == option_bytes(self@),
    {
        let mut buf: Vec<u8> = Vec::new();
        self.write_to(&mut buf);
        assert(buf@ =~= option_bytes(self@));
        buf
    }

    /// The number of data bytes of this option (without its 4-byte header).
    pub fn data_len(&self) -> (r: usize)
        ensures
            r == option_parts(self@).1.len(),
    {
        match self {
            SdOption::IPv4Endpoint(_) => 9,
            SdOption::IPv6Endpoint(_) => 21,
            SdOption::IPv4Multicast(_) => 9,
            SdOption::IPv6Multicast(_) => 21,
            SdOption::Configuration(c) => c.config_string.as_str().as_bytes().len(),
            SdOption::Unknown { data, .. } => data.len(),
        }
    }

    /// Whether this option fits its wire format (see `valid_option`).
    pub fn is_encodable(&self) -> (r: bool)
        ensures
            r == valid_option(self@),
    {
        let len_ok = self.data_len() <= 0xFFFF;
        match self {
            SdOption::Unknown { option_type, .. } => {
                let t = *option_type;
                len_ok && t != 0x01 && t != 0x04 && t != 0x06 && t != 0x14 && t != 0x16
            },
            _ => len_ok,
        }
    }

    /// The kind of this option; `None` for an unknown option.
    pub fn option_type(&self) -> (r: Option<OptionType>)
        ensures
            r == match self {
                SdOption::IPv4Endpoint(_) => Some(OptionType::IPv4Endpoint),
                SdOption::IPv6Endpoint(_) => Some(OptionType::IPv6Endpoint),
                SdOption::IPv4Multicast(_) => Some(OptionType::IPv4Multicast),
                SdOption::IPv6Multicast(_) => Some(OptionType::IPv6Multicast),
                SdOption::Configuration(_) => Some(OptionType::Configuration),
                SdOption::Unknown { .. } => None::<OptionType>,
            },
    {
        match self {
            SdOption::IPv4Endpoint(_) => Some(OptionType::IPv4Endpoint),
            SdOption::IPv6Endpoint(_) => Some(OptionType::IPv6Endpoint),
            SdOption::IPv4Multicast(_) => Some(OptionType::IPv4Multicast),
            SdOption::IPv6Multicast(_) => Some(OptionType::IPv6Multicast),
            SdOption::Configuration(_) => Some(OptionType::Configuration),
            SdOption::Unknown { .. } => None,
        }
    }
}

/// A network endpoint: socket address and transport protocol.
#[derive(Debug, Clone, Copy, PartialEq, Eq, Structural)]
pub struct Endpoint {
    /// Socket address.
    pub address: SocketAddress,
    /// Transport protocol.
    pub protocol: TransportProtocol,
}

/// The endpoint an option names, if it is a (unicast) endpoint option.
pub open spec fn endpoint_of(o: SdOptionView) -> Option<Endpoint> {
    match o {
        SdOptionView::IPv4Endpoint(x) => Some(Endpoint { address: SocketAddress::V4(x.address, x.port), protocol: x.protocol }),
        SdOptionView::IPv6Endpoint(x) => Some(Endpoint { address: SocketAddress::V6(x.address, x.port), protocol: x.protocol }),
        _ => None,
    }
}

impl Endpoint {
    /// Create an endpoint.
    pub fn new(address: SocketAddress, protocol: TransportProtocol) -> (r: Endpoint)
        ensures
            r == (Endpoint { address, protocol }),
    {
        Endpoint { address, protocol }
    }

    /// A TCP endpoint.
    pub fn tcp(address: SocketAddress) -> (r: Endpoint)
        ensures
            r == (Endpoint { address, protocol: TransportProtocol::Tcp }),
    {
        Endpoint { address, protocol: TransportProtocol::Tcp }
    }

    /// A UDP endpoint.
    pub fn udp(address: SocketAddress) -> (r: Endpoint)
        ensures
            r == (Endpoint { address, protocol: TransportProtocol::Udp }),
    {
        Endpoint { address, protocol: TransportProtocol::Udp }
    }

    /// The endpoint option naming this endpoint.
    pub fn to_option(&self) -> (r: SdOption)
        ensures
            endpoint_of(r@) == Some(*self),
            r@ == match self.address {
                SocketAddress::V4(ip, port) => SdOptionView::IPv4Endpoint(IPv4EndpointOption { address: ip, protocol: self.protocol, port }),
                SocketAddress::V6(ip, port) => SdOptionView::IPv6Endpoint(IPv6EndpointOption { address: ip, protocol: self.protocol, port }),
            },
    {
        match self.address {
            SocketAddress::V4(ip, port) => SdOption::IPv4Endpoint(
                IPv4EndpointOption { address: ip, protocol: self.protocol, port },
            ),
            SocketAddress::V6(ip, port) => SdOption::IPv6Endpoint(
                IPv6EndpointOption { address: ip, protocol: self.protocol, port },
            ),
        }
    }

    /// The endpoint an option names, if it is an endpoint option.
    pub fn from_option(option: &SdOption) -> (r: Option<Endpoint>)
        ensures
            r == endpoint_of(option@),
    {
        match option {
            SdOption::IPv4Endpoint(o) => Some(Endpoint { address: SocketAddress::V4(o.address, o.port), protocol: o.protocol }),
            SdOption::IPv6Endpoint(o) => Some(Endpoint { address: SocketAddress::V6(o.address, o.port), protocol: o.protocol }),
            _ => None,
        }
    }
}

} // verus!
