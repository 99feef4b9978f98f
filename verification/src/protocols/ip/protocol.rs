use vstd::prelude::*;
use crate::common::text::{byte_decimal, byte_decimal_text, join_text};

verus! {

/// Upper-layer protocol numbers carried in IPv4.
#[derive(Debug, Clone, Copy, PartialEq, Eq)]
pub enum Ipv4Protocol {
    Icmp,
    Tcp,
    Udp,
    Ipv6,
    Ospf,
    Sctp,
    Unknown(u8),
}

/// The protocol that a protocol number names.
pub open spec fn spec_ipv4_protocol(value: u8) -> Ipv4Protocol {
    if value == 1 {
        Ipv4Protocol::Icmp
    } else if value == 6 {
        Ipv4Protocol::Tcp
    } else if value == 17 {
        Ipv4Protocol::Udp
    } else if value == 41 {
        Ipv4Protocol::Ipv6
    } else if value == 89 {
        Ipv4Protocol::Ospf
    } else if value == 132 {
        Ipv4Protocol::Sctp
    } else {
        Ipv4Protocol::Unknown(value)
    }
}

impl Ipv4Protocol {
    /// The protocol number.
    pub open spec fn spec_value(self) -> u8 {
        match self {
            Ipv4Protocol::Icmp => 1,
            Ipv4Protocol::Tcp => 6,
            Ipv4Protocol::Udp => 17,
            Ipv4Protocol::Ipv6 => 41,
            Ipv4Protocol::Ospf => 89,
            Ipv4Protocol::Sctp => 132,
            Ipv4Protocol::Unknown(v) => v,
        }
    }

    /// Whether the protocol is handled (ICMP, UDP, TCP).
    pub fn is_supported(&self) -> (r: bool)
        ensures
            r == (*self is Icmp || *self is Udp || *self is Tcp),
    {
        match self {
            Ipv4Protocol::Icmp | Ipv4Protocol::Udp | Ipv4Protocol::Tcp => true,
            _ => false,
        }
    }

    /// The protocol's name.
    pub fn name(&self) -> (r: &'static str)
        ensures
            r@ == protocol_name(*self),
    {
        match self {
            Ipv4Protocol::Icmp => "ICMP",
            Ipv4Protocol::Tcp => "TCP",
            Ipv4Protocol::Udp => "UDP",
            Ipv4Protocol::Ipv6 => "IPv6",
            Ipv4Protocol::Ospf => "OSPF",
            Ipv4Protocol::Sctp => "SCTP",
            Ipv4Protocol::Unknown(_) => "Unknown",
        }
    }
}

impl From<u8> for Ipv4Protocol {
    fn from(value: u8) -> (r: Self) {
        match value {
            1 => Ipv4Protocol::Icmp,
            6 => Ipv4Protocol::Tcp,
            17 => Ipv4Protocol::Udp,
            41 => Ipv4Protocol::Ipv6,
            89 => Ipv4Protocol::Ospf,
            132 => Ipv4Protocol::Sctp,
            v => Ipv4Protocol::Unknown(v),
        }
    }
}

impl vstd::std_specs::convert::FromSpecImpl<u8> for Ipv4Protocol {
    open spec fn obeys_from_spec() -> bool {
        true
    }

    open spec fn from_spec(v: u8) -> Self {
        spec_ipv4_protocol(v)
    }
}

impl From<Ipv4Protocol> for u8 {
    fn from(protocol: Ipv4Protocol) -> (r: Self) {
        match protocol {
            Ipv4Protocol::Icmp => 1,
            Ipv4Protocol::Tcp => 6,
            Ipv4Protocol::Udp => 17,
            Ipv4Protocol::Ipv6 => 41,
            Ipv4Protocol::Ospf => 89,
            Ipv4Protocol::Sctp => 132,
            Ipv4Protocol::Unknown(v) => v,
        }
    }
}

impl vstd::std_specs::convert::FromSpecImpl<Ipv4Protocol> for u8 {
    open spec fn obeys_from_spec() -> bool {
        true
    }

    open spec fn from_spec(v: Ipv4Protocol) -> Self {
        v.spec_value()
    }
}

/// Converting a protocol number to a protocol and back gives the number.
pub proof fn lemma_ipv4_protocol_roundtrip(value: u8)
    ensures
        spec_ipv4_protocol(value).spec_value() == value,
{
}

/// The name of a protocol.
pub open spec fn protocol_name(p: Ipv4Protocol) -> Seq<char> {
    match p {
        Ipv4Protocol::Icmp => "ICMP"@,
        Ipv4Protocol::Tcp => "TCP"@,
        Ipv4Protocol::Udp => "UDP"@,
        Ipv4Protocol::Ipv6 => "IPv6"@,
        Ipv4Protocol::Ospf => "OSPF"@,
        Ipv4Protocol::Sctp => "SCTP"@,
        Ipv4Protocol::Unknown(_) => "Unknown"@,
    }
}

/// The text of a protocol: its name, or `Unknown(n)` with its number.
pub open spec fn protocol_text(p: Ipv4Protocol) -> Seq<char> {
    match p {
        Ipv4Protocol::Unknown(v) => "Unknown("@ + byte_decimal(v) + ")"@,
        _ => protocol_name(p),
    }
}

impl Ipv4Protocol {
    /// The protocol as text.
    pub fn to_string(&self) -> (r: String)
        ensures
            r@ == protocol_text(*self),
    {
        match self {
            Ipv4Protocol::Unknown(v) => {
                let d = byte_decimal_text(*v);
                let t = join_text("Unknown(", d.as_str());
                join_text(t.as_str(), ")")
            },
            _ => self.name().to_owned(),
        }
    }
}

} // verus!
