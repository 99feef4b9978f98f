use vstd::prelude::*;
use crate::common::text::{byte_decimal, byte_decimal_text, join_text};

verus! {

/// Next-header values of IPv6.
#[derive(Debug, Clone, Copy, PartialEq, Eq, Structural)]
pub enum IpProtocol {
    HopByHopOptions,
    Icmp,
    Igmp,
    Tcp,
    Udp,
    Ipv6Encap,
    Ipv6Route,
    Ipv6Fragment,
    Esp,
    Ah,
    IcmpV6,
    NoNextHeader,
    Ipv6DestOptions,
    Ihip,
    Unknown(u8),
}

/// The protocol that a next-header value names.
pub open spec fn spec_ip_protocol(value: u8) -> IpProtocol {
    if value == 0 {
        IpProtocol::HopByHopOptions
    } else if value == 1 {
        IpProtocol::Icmp
    } else if value == 2 {
        IpProtocol::Igmp
    } else if value == 6 {
        IpProtocol::Tcp
    } else if value == 17 {
        IpProtocol::Udp
    } else if value == 41 {
        IpProtocol::Ipv6Encap
    } else if value == 43 {
        IpProtocol::Ipv6Route
    } else if value == 44 {
        IpProtocol::Ipv6Fragment
    } else if value == 50 {
        IpProtocol::Esp
    } else if value == 51 {
        IpProtocol::Ah
    } else if value == 58 {
        IpProtocol::IcmpV6
    } else if value == 59 {
        IpProtocol::NoNextHeader
    } else if value == 60 {
        IpProtocol::Ipv6DestOptions
    } else if value == 139 {
        IpProtocol::Ihip
    } else {
        IpProtocol::Unknown(value)
    }
}

impl IpProtocol {
    /// The next-header value.
    pub open spec fn spec_value(self) -> u8 {
        match self {
            IpProtocol::HopByHopOptions => 0,
            IpProtocol::Icmp => 1,
            IpProtocol::Igmp => 2,
            IpProtocol::Tcp => 6,
            IpProtocol::Udp => 17,
            IpProtocol::Ipv6Encap => 41,
            IpProtocol::Ipv6Route => 43,
            IpProtocol::Ipv6Fragment => 44,
            IpProtocol::Esp => 50,
            IpProtocol::Ah => 51,
            IpProtocol::IcmpV6 => 58,
            IpProtocol::NoNextHeader => 59,
            IpProtocol::Ipv6DestOptions => 60,
            IpProtocol::Ihip => 139,
            IpProtocol::Unknown(v) => v,
        }
    }

    /// Whether this is an extension header type (hop-by-hop, routing,
    /// fragment, ESP, AH, destination options).
    pub fn is_extension_header(&self) -> (r: bool)
        ensures
            r == (*self is HopByHopOptions || *self is Ipv6Route || *self is Ipv6Fragment || *self is Esp
                || *self is Ah || *self is Ipv6DestOptions),
    {
        match self {
            IpProtocol::HopByHopOptions | IpProtocol::Ipv6Route | IpProtocol::Ipv6Fragment | IpProtocol::Esp
            | IpProtocol::Ah | IpProtocol::Ipv6DestOptions => true,
            _ => false,
        }
    }

    /// Whether this is an upper-layer protocol (TCP, UDP, ICMPv6, ICMP).
    pub fn is_upper_layer(&self) -> (r: bool)
        ensures
            r == (*self is Tcp || *self is Udp || *self is IcmpV6 || *self is Icmp),
    {
        match self {
            IpProtocol::Tcp | IpProtocol::Udp | IpProtocol::IcmpV6 | IpProtocol::Icmp => true,
            _ => false,
        }
    }

    /// Whether the protocol is handled: only ICMPv6.
    pub fn is_supported(&self) -> (r: bool)
        ensures
            r == (*self is IcmpV6),
    {
        match self {
            IpProtocol::IcmpV6 => true,
            _ => false,
        }
    }

    /// The protocol's name.
    pub fn name(&self) -> (r: &'static str)
        ensures
            r@ == ipv6_protocol_name(*self),
    {
        match self {
            IpProtocol::HopByHopOptions => "HopByHopOptions",
            IpProtocol::Icmp => "ICMP",
            IpProtocol::Igmp => "IGMP",
            IpProtocol::Tcp => "TCP",
            IpProtocol::Udp => "UDP",
            IpProtocol::Ipv6Encap => "IPv6Encap",
            IpProtocol::Ipv6Route => "IPv6Route",
            IpProtocol::Ipv6Fragment => "IPv6Fragment",
            IpProtocol::Esp => "ESP",
            IpProtocol::Ah => "AH",
            IpProtocol::IcmpV6 => "ICMPv6",
            IpProtocol::NoNextHeader => "NoNextHeader",
            IpProtocol::Ipv6DestOptions => "IPv6DestOptions",
            IpProtocol::Ihip => "IHIP",
            IpProtocol::Unknown(_) => "Unknown",
        }
    }
}

impl From<u8> for IpProtocol {
    fn from(value: u8) -> (r: Self) {
        match value {
            0 => IpProtocol::HopByHopOptions,
            1 => IpProtocol::Icmp,
            2 => IpProtocol::Igmp,
            6 => IpProtocol::Tcp,
            17 => IpProtocol::Udp,
            41 => IpProtocol::Ipv6Encap,
            43 => IpProtocol::Ipv6Route,
            44 => IpProtocol::Ipv6Fragment,
            50 => IpProtocol::Esp,
            51 => IpProtocol::Ah,
            58 => IpProtocol::IcmpV6,
            59 => IpProtocol::NoNextHeader,
            60 => IpProtocol::Ipv6DestOptions,
            139 => IpProtocol::Ihip,
            v => IpProtocol::Unknown(v),
        }
    }
}

impl vstd::std_specs::convert::FromSpecImpl<u8> for IpProtocol {
    open spec fn obeys_from_spec() -> bool {
        true
    }

    open spec fn from_spec(v: u8) -> Self {
        spec_ip_protocol(v)
    }
}

impl From<IpProtocol> for u8 {
    fn from(protocol: IpProtocol) -> (r: Self) {
        match protocol {
            IpProtocol::HopByHopOptions => 0,
            IpProtocol::Icmp => 1,
            IpProtocol::Igmp => 2,
            IpProtocol::Tcp => 6,
            IpProtocol::Udp => 17,
            IpProtocol::Ipv6Encap => 41,
            IpProtocol::Ipv6Route => 43,
            IpProtocol::Ipv6Fragment => 44,
            IpProtocol::Esp => 50,
            IpProtocol::Ah => 51,
            IpProtocol::IcmpV6 => 58,
            IpProtocol::NoNextHeader => 59,
            IpProtocol::Ipv6DestOptions => 60,
            IpProtocol::Ihip => 139,
            IpProtocol::Unknown(v) => v,
        }
    }
}

impl vstd::std_specs::convert::FromSpecImpl<IpProtocol> for u8 {
    open spec fn obeys_from_spec() -> bool {
        true
    }

    open spec fn from_spec(v: IpProtocol) -> Self {
        v.spec_value()
    }
}

/// Converting a next-header value to a protocol and back gives the value.
pub proof fn lemma_ip_protocol_roundtrip(value: u8)
    ensures
        spec_ip_protocol(value).spec_value() == value,
{
}

impl IpProtocol {
    /// The protocol as text: its name, or `Unknown(n)` with its number.
    pub fn to_string(&self) -> (r: String)
        ensures
            r@ == match *self {
                IpProtocol::Unknown(v) => "Unknown("@ + byte_decimal(v) + ")"@,
                _ => ipv6_protocol_name(*self),
            },
    {
        match self {
            IpProtocol::Unknown(v) => {
                let d = byte_decimal_text(*v);
                let t = join_text("Unknown(", d.as_str());
                join_text(t.as_str(), ")")
            },
            _ => self.name().to_owned(),
        }
    }
}

/// The name of a next-header protocol.
pub open spec fn ipv6_protocol_name(p: IpProtocol) -> Seq<char> {
    match p {
        IpProtocol::HopByHopOptions => "HopByHopOptions"@,
        IpProtocol::Icmp => "ICMP"@,
        IpProtocol::Igmp => "IGMP"@,
        IpProtocol::Tcp => "TCP"@,
        IpProtocol::Udp => "UDP"@,
        IpProtocol::Ipv6Encap => "IPv6Encap"@,
        IpProtocol::Ipv6Route => "IPv6Route"@,
        IpProtocol::Ipv6Fragment => "IPv6Fragment"@,
        IpProtocol::Esp => "ESP"@,
        IpProtocol::Ah => "AH"@,
        IpProtocol::IcmpV6 => "ICMPv6"@,
        IpProtocol::NoNextHeader => "NoNextHeader"@,
        IpProtocol::Ipv6DestOptions => "IPv6DestOptions"@,
        IpProtocol::Ihip => "IHIP"@,
        IpProtocol::Unknown(_) => "Unknown"@,
    }
}

} // verus!
