use vstd::prelude::*;

verus! {


/// Next-header number that marks an ICMPv6 payload.
pub const IPPROTO_ICMPV6: u8 = 58;

/// Smallest ICMPv6 message: type, code, checksum and four more bytes.
pub const ICMPV6_MIN_LEN: usize = 8;

/// Length of the IPv6 pseudo header that the checksum covers.
pub const ICMPV6_PSEUDO_HEADER_LEN: usize = 40;


/// ICMPv6 message types.
#[derive(Debug, Clone, Copy, PartialEq, Eq, Structural)]
pub enum Icmpv6Type {
    DestinationUnreachable,
    PacketTooBig,
    TimeExceeded,
    ParameterProblem,
    EchoRequest,
    EchoReply,
    MldQuery,
    MldReport,
    MldDone,
    RouterSolicitation,
    RouterAdvertisement,
    NeighborSolicitation,
    NeighborAdvertisement,
    Redirect,
}

impl Icmpv6Type {
    /// The numeric code of the value.
    pub open spec fn spec_value(self) -> u8 {
        match self {
            Icmpv6Type::DestinationUnreachable => 1,
            Icmpv6Type::PacketTooBig => 2,
            Icmpv6Type::TimeExceeded => 3,
            Icmpv6Type::ParameterProblem => 4,
            Icmpv6Type::EchoRequest => 128,
            Icmpv6Type::EchoReply => 129,
            Icmpv6Type::MldQuery => 130,
            Icmpv6Type::MldReport => 131,
            Icmpv6Type::MldDone => 132,
            Icmpv6Type::RouterSolicitation => 133,
            Icmpv6Type::RouterAdvertisement => 134,
            Icmpv6Type::NeighborSolicitation => 135,
            Icmpv6Type::NeighborAdvertisement => 136,
            Icmpv6Type::Redirect => 137,
        }
    }

    /// The value with the given code, if any.
    pub open spec fn spec_from(value: u8) -> Option<Self> {
        if value == 1 {
            Some(Icmpv6Type::DestinationUnreachable)
        } else if value == 2 {
            Some(Icmpv6Type::PacketTooBig)
        } else if value == 3 {
            Some(Icmpv6Type::TimeExceeded)
        } else if value == 4 {
            Some(Icmpv6Type::ParameterProblem)
        } else if value == 128 {
            Some(Icmpv6Type::EchoRequest)
        } else if value == 129 {
            Some(Icmpv6Type::EchoReply)
        } else if value == 130 {
            Some(Icmpv6Type::MldQuery)
        } else if value == 131 {
            Some(Icmpv6Type::MldReport)
        } else if value == 132 {
            Some(Icmpv6Type::MldDone)
        } else if value == 133 {
            Some(Icmpv6Type::RouterSolicitation)
        } else if value == 134 {
            Some(Icmpv6Type::RouterAdvertisement)
        } else if value == 135 {
            Some(Icmpv6Type::NeighborSolicitation)
        } else if value == 136 {
            Some(Icmpv6Type::NeighborAdvertisement)
        } else if value == 137 {
            Some(Icmpv6Type::Redirect)
        } else {
            None
        }
    }

    /// The value with the given code, if any.
    pub fn from_u8(value: u8) -> (r: Option<Self>)
        ensures
            r == Self::spec_from(value),
    {
        match value {
            1 => Some(Icmpv6Type::DestinationUnreachable),
            2 => Some(Icmpv6Type::PacketTooBig),
            3 => Some(Icmpv6Type::TimeExceeded),
            4 => Some(Icmpv6Type::ParameterProblem),
            128 => Some(Icmpv6Type::EchoRequest),
            129 => Some(Icmpv6Type::EchoReply),
            130 => Some(Icmpv6Type::MldQuery),
            131 => Some(Icmpv6Type::MldReport),
            132 => Some(Icmpv6Type::MldDone),
            133 => Some(Icmpv6Type::RouterSolicitation),
            134 => Some(Icmpv6Type::RouterAdvertisement),
            135 => Some(Icmpv6Type::NeighborSolicitation),
            136 => Some(Icmpv6Type::NeighborAdvertisement),
            137 => Some(Icmpv6Type::Redirect),
            _ => None,
        }
    }

    /// The numeric code.
    pub fn as_u8(self) -> (r: u8)
        ensures
            r == self.spec_value(),
            Self::spec_from(r) == Some(self),
    {
        match self {
            Icmpv6Type::DestinationUnreachable => 1,
            Icmpv6Type::PacketTooBig => 2,
            Icmpv6Type::TimeExceeded => 3,
            Icmpv6Type::ParameterProblem => 4,
            Icmpv6Type::EchoRequest => 128,
            Icmpv6Type::EchoReply => 129,
            Icmpv6Type::MldQuery => 130,
            Icmpv6Type::MldReport => 131,
            Icmpv6Type::MldDone => 132,
            Icmpv6Type::RouterSolicitation => 133,
            Icmpv6Type::RouterAdvertisement => 134,
            Icmpv6Type::NeighborSolicitation => 135,
            Icmpv6Type::NeighborAdvertisement => 136,
            Icmpv6Type::Redirect => 137,
        }
    }

    /// Error messages are the types below 128.
    pub fn is_error_message(self) -> (r: bool)
        ensures
            r == (self.spec_value() < 128),
    {
        self.as_u8() < 128
    }

    /// Informational messages are the types from 128 up.
    pub fn is_informational(self) -> (r: bool)
        ensures
            r == (self.spec_value() >= 128),
    {
        self.as_u8() >= 128
    }

    /// The message type's name.
    pub fn name(self) -> (r: &'static str)
        ensures
            r@ == match self {
                Icmpv6Type::DestinationUnreachable => "Destination Unreachable"@,
                Icmpv6Type::PacketTooBig => "Packet Too Big"@,
                Icmpv6Type::TimeExceeded => "Time Exceeded"@,
                Icmpv6Type::ParameterProblem => "Parameter Problem"@,
                Icmpv6Type::EchoRequest => "Echo Request"@,
                Icmpv6Type::EchoReply => "Echo Reply"@,
                Icmpv6Type::MldQuery => "MLD Query"@,
                Icmpv6Type::MldReport => "MLD Report"@,
                Icmpv6Type::MldDone => "MLD Done"@,
                Icmpv6Type::RouterSolicitation => "Router Solicitation"@,
                Icmpv6Type::RouterAdvertisement => "Router Advertisement"@,
                Icmpv6Type::NeighborSolicitation => "Neighbor Solicitation"@,
                Icmpv6Type::NeighborAdvertisement => "Neighbor Advertisement"@,
                Icmpv6Type::Redirect => "Redirect"@,
            },
    {
        match self {
            Icmpv6Type::DestinationUnreachable => "Destination Unreachable",
            Icmpv6Type::PacketTooBig => "Packet Too Big",
            Icmpv6Type::TimeExceeded => "Time Exceeded",
            Icmpv6Type::ParameterProblem => "Parameter Problem",
            Icmpv6Type::EchoRequest => "Echo Request",
            Icmpv6Type::EchoReply => "Echo Reply",
            Icmpv6Type::MldQuery => "MLD Query",
            Icmpv6Type::MldReport => "MLD Report",
            Icmpv6Type::MldDone => "MLD Done",
            Icmpv6Type::RouterSolicitation => "Router Solicitation",
            Icmpv6Type::RouterAdvertisement => "Router Advertisement",
            Icmpv6Type::NeighborSolicitation => "Neighbor Solicitation",
            Icmpv6Type::NeighborAdvertisement => "Neighbor Advertisement",
            Icmpv6Type::Redirect => "Redirect",
        }
    }

    /// The name as text.
    pub fn to_string(&self) -> (r: String)
        ensures
            r@ == match *self {
                Icmpv6Type::DestinationUnreachable => "Destination Unreachable"@,
                Icmpv6Type::PacketTooBig => "Packet Too Big"@,
                Icmpv6Type::TimeExceeded => "Time Exceeded"@,
                Icmpv6Type::ParameterProblem => "Parameter Problem"@,
                Icmpv6Type::EchoRequest => "Echo Request"@,
                Icmpv6Type::EchoReply => "Echo Reply"@,
                Icmpv6Type::MldQuery => "MLD Query"@,
                Icmpv6Type::MldReport => "MLD Report"@,
                Icmpv6Type::MldDone => "MLD Done"@,
                Icmpv6Type::RouterSolicitation => "Router Solicitation"@,
                Icmpv6Type::RouterAdvertisement => "Router Advertisement"@,
                Icmpv6Type::NeighborSolicitation => "Neighbor Solicitation"@,
                Icmpv6Type::NeighborAdvertisement => "Neighbor Advertisement"@,
                Icmpv6Type::Redirect => "Redirect"@,
            },
    {
        self.name().to_owned()
    }

}

/// Codes of a Destination Unreachable message.
#[derive(Debug, Clone, Copy, PartialEq, Eq, Structural)]
pub enum DestUnreachableCode {
    NoRoute,
    AdminProhibited,
    BeyondScope,
    AddressUnreachable,
    PortUnreachable,
    SourcePolicyFailed,
    RejectRoute,
}

impl DestUnreachableCode {
    /// The numeric code of the value.
    pub open spec fn spec_value(self) -> u8 {
        match self {
            DestUnreachableCode::NoRoute => 0,
            DestUnreachableCode::AdminProhibited => 1,
            DestUnreachableCode::BeyondScope => 2,
            DestUnreachableCode::AddressUnreachable => 3,
            DestUnreachableCode::PortUnreachable => 4,
            DestUnreachableCode::SourcePolicyFailed => 5,
            DestUnreachableCode::RejectRoute => 6,
        }
    }

    /// The value with the given code, if any.
    pub open spec fn spec_from(value: u8) -> Option<Self> {
        if value == 0 {
            Some(DestUnreachableCode::NoRoute)
        } else if value == 1 {
            Some(DestUnreachableCode::AdminProhibited)
        } else if value == 2 {
            Some(DestUnreachableCode::BeyondScope)
        } else if value == 3 {
            Some(DestUnreachableCode::AddressUnreachable)
        } else if value == 4 {
            Some(DestUnreachableCode::PortUnreachable)
        } else if value == 5 {
            Some(DestUnreachableCode::SourcePolicyFailed)
        } else if value == 6 {
            Some(DestUnreachableCode::RejectRoute)
        } else {
            None
        }
    }

    /// The value with the given code, if any.
    pub fn from_u8(value: u8) -> (r: Option<Self>)
        ensures
            r == Self::spec_from(value),
    {
        match value {
            0 => Some(DestUnreachableCode::NoRoute),
            1 => Some(DestUnreachableCode::AdminProhibited),
            2 => Some(DestUnreachableCode::BeyondScope),
            3 => Some(DestUnreachableCode::AddressUnreachable),
            4 => Some(DestUnreachableCode::PortUnreachable),
            5 => Some(DestUnreachableCode::SourcePolicyFailed),
            6 => Some(DestUnreachableCode::RejectRoute),
            _ => None,
        }
    }

    /// The numeric code.
    pub fn as_u8(self) -> (r: u8)
        ensures
            r == self.spec_value(),
            Self::spec_from(r) == Some(self),
    {
        match self {
            DestUnreachableCode::NoRoute => 0,
            DestUnreachableCode::AdminProhibited => 1,
            DestUnreachableCode::BeyondScope => 2,
            DestUnreachableCode::AddressUnreachable => 3,
            DestUnreachableCode::PortUnreachable => 4,
            DestUnreachableCode::SourcePolicyFailed => 5,
            DestUnreachableCode::RejectRoute => 6,
        }
    }


}

/// Codes of a Time Exceeded message.
#[derive(Debug, Clone, Copy, PartialEq, Eq, Structural)]
pub enum TimeExceededCode {
    HopLimitExceeded,
    ReassemblyTimeout,
}

impl TimeExceededCode {
    /// The numeric code of the value.
    pub open spec fn spec_value(self) -> u8 {
        match self {
            TimeExceededCode::HopLimitExceeded => 0,
            TimeExceededCode::ReassemblyTimeout => 1,
        }
    }

    /// The value with the given code, if any.
    pub open spec fn spec_from(value: u8) -> Option<Self> {
        if value == 0 {
            Some(TimeExceededCode::HopLimitExceeded)
        } else if value == 1 {
            Some(TimeExceededCode::ReassemblyTimeout)
        } else {
            None
        }
    }

    /// The value with the given code, if any.
    pub fn from_u8(value: u8) -> (r: Option<Self>)
        ensures
            r == Self::spec_from(value),
    {
        match value {
            0 => Some(TimeExceededCode::HopLimitExceeded),
            1 => Some(TimeExceededCode::ReassemblyTimeout),
            _ => None,
        }
    }

    /// The numeric code.
    pub fn as_u8(self) -> (r: u8)
        ensures
            r == self.spec_value(),
            Self::spec_from(r) == Some(self),
    {
        match self {
            TimeExceededCode::HopLimitExceeded => 0,
            TimeExceededCode::ReassemblyTimeout => 1,
        }
    }


}

/// Codes of a Parameter Problem message.
#[derive(Debug, Clone, Copy, PartialEq, Eq, Structural)]
pub enum ParameterProblemCode {
    HeaderField,
    UnrecognizedNextHeader,
    UnrecognizedOption,
}

impl ParameterProblemCode {
    /// The numeric code of the value.
    pub open spec fn spec_value(self) -> u8 {
        match self {
            ParameterProblemCode::HeaderField => 0,
            ParameterProblemCode::UnrecognizedNextHeader => 1,
            ParameterProblemCode::UnrecognizedOption => 2,
        }
    }

    /// The value with the given code, if any.
    pub open spec fn spec_from(value: u8) -> Option<Self> {
        if value == 0 {
            Some(ParameterProblemCode::HeaderField)
        } else if value == 1 {
            Some(ParameterProblemCode::UnrecognizedNextHeader)
        } else if value == 2 {
            Some(ParameterProblemCode::UnrecognizedOption)
        } else {
            None
        }
    }

    /// The value with the given code, if any.
    pub fn from_u8(value: u8) -> (r: Option<Self>)
        ensures
            r == Self::spec_from(value),
    {
        match value {
            0 => Some(ParameterProblemCode::HeaderField),
            1 => Some(ParameterProblemCode::UnrecognizedNextHeader),
            2 => Some(ParameterProblemCode::UnrecognizedOption),
            _ => None,
        }
    }

    /// The numeric code.
    pub fn as_u8(self) -> (r: u8)
        ensures
            r == self.spec_value(),
            Self::spec_from(r) == Some(self),
    {
        match self {
            ParameterProblemCode::HeaderField => 0,
            ParameterProblemCode::UnrecognizedNextHeader => 1,
            ParameterProblemCode::UnrecognizedOption => 2,
        }
    }


}

/// Neighbor discovery option types.
#[derive(Debug, Clone, Copy, PartialEq, Eq, Structural)]
pub enum Icmpv6OptionType {
    SourceLinkLayerAddr,
    TargetLinkLayerAddr,
    PrefixInfo,
    RedirectedHeader,
    Mtu,
    RouteInfo,
    RecursiveDns,
}

impl Icmpv6OptionType {
    /// The numeric code of the value.
    pub open spec fn spec_value(self) -> u8 {
        match self {
            Icmpv6OptionType::SourceLinkLayerAddr => 1,
            Icmpv6OptionType::TargetLinkLayerAddr => 2,
            Icmpv6OptionType::PrefixInfo => 3,
            Icmpv6OptionType::RedirectedHeader => 4,
            Icmpv6OptionType::Mtu => 5,
            Icmpv6OptionType::RouteInfo => 24,
            Icmpv6OptionType::RecursiveDns => 25,
        }
    }

    /// The value with the given code, if any.
    pub open spec fn spec_from(value: u8) -> Option<Self> {
        if value == 1 {
            Some(Icmpv6OptionType::SourceLinkLayerAddr)
        } else if value == 2 {
            Some(Icmpv6OptionType::TargetLinkLayerAddr)
        } else if value == 3 {
            Some(Icmpv6OptionType::PrefixInfo)
        } else if value == 4 {
            Some(Icmpv6OptionType::RedirectedHeader)
        } else if value == 5 {
            Some(Icmpv6OptionType::Mtu)
        } else if value == 24 {
            Some(Icmpv6OptionType::RouteInfo)
        } else if value == 25 {
            Some(Icmpv6OptionType::RecursiveDns)
        } else {
            None
        }
    }

    /// The value with the given code, if any.
    pub fn from_u8(value: u8) -> (r: Option<Self>)
        ensures
            r == Self::spec_from(value),
    {
        match value {
            1 => Some(Icmpv6OptionType::SourceLinkLayerAddr),
            2 => Some(Icmpv6OptionType::TargetLinkLayerAddr),
            3 => Some(Icmpv6OptionType::PrefixInfo),
            4 => Some(Icmpv6OptionType::RedirectedHeader),
            5 => Some(Icmpv6OptionType::Mtu),
            24 => Some(Icmpv6OptionType::RouteInfo),
            25 => Some(Icmpv6OptionType::RecursiveDns),
            _ => None,
        }
    }

    /// The numeric code.
    pub fn as_u8(self) -> (r: u8)
        ensures
            r == self.spec_value(),
            Self::spec_from(r) == Some(self),
    {
        match self {
            Icmpv6OptionType::SourceLinkLayerAddr => 1,
            Icmpv6OptionType::TargetLinkLayerAddr => 2,
            Icmpv6OptionType::PrefixInfo => 3,
            Icmpv6OptionType::RedirectedHeader => 4,
            Icmpv6OptionType::Mtu => 5,
            Icmpv6OptionType::RouteInfo => 24,
            Icmpv6OptionType::RecursiveDns => 25,
        }
    }


}

/// States of a neighbor cache entry.
#[derive(Debug, Clone, Copy, PartialEq, Eq, Structural)]
pub enum NeighborCacheState {
    Incomplete,
    Reachable,
    Stale,
    Delay,
    Probe,
    Permanent,
}

impl NeighborCacheState {
    /// The numeric code of the value.
    pub open spec fn spec_value(self) -> u8 {
        match self {
            NeighborCacheState::Incomplete => 0,
            NeighborCacheState::Reachable => 1,
            NeighborCacheState::Stale => 2,
            NeighborCacheState::Delay => 3,
            NeighborCacheState::Probe => 4,
            NeighborCacheState::Permanent => 5,
        }
    }

    /// The value with the given code, if any.
    pub open spec fn spec_from(value: u8) -> Option<Self> {
        if value == 0 {
            Some(NeighborCacheState::Incomplete)
        } else if value == 1 {
            Some(NeighborCacheState::Reachable)
        } else if value == 2 {
            Some(NeighborCacheState::Stale)
        } else if value == 3 {
            Some(NeighborCacheState::Delay)
        } else if value == 4 {
            Some(NeighborCacheState::Probe)
        } else if value == 5 {
            Some(NeighborCacheState::Permanent)
        } else {
            None
        }
    }

    /// The value with the given code, if any.
    pub fn from_u8(value: u8) -> (r: Option<Self>)
        ensures
            r == Self::spec_from(value),
    {
        match value {
            0 => Some(NeighborCacheState::Incomplete),
            1 => Some(NeighborCacheState::Reachable),
            2 => Some(NeighborCacheState::Stale),
            3 => Some(NeighborCacheState::Delay),
            4 => Some(NeighborCacheState::Probe),
            5 => Some(NeighborCacheState::Permanent),
            _ => None,
        }
    }

    /// The numeric code.
    pub fn as_u8(self) -> (r: u8)
        ensures
            r == self.spec_value(),
            Self::spec_from(r) == Some(self),
    {
        match self {
            NeighborCacheState::Incomplete => 0,
            NeighborCacheState::Reachable => 1,
            NeighborCacheState::Stale => 2,
            NeighborCacheState::Delay => 3,
            NeighborCacheState::Probe => 4,
            NeighborCacheState::Permanent => 5,
        }
    }

    /// The state's name as neighbor discovery writes it.
    pub fn name(self) -> (r: &'static str)
        ensures
            r@ == match self {
                NeighborCacheState::Incomplete => "INCOMPLETE"@,
                NeighborCacheState::Reachable => "REACHABLE"@,
                NeighborCacheState::Stale => "STALE"@,
                NeighborCacheState::Delay => "DELAY"@,
                NeighborCacheState::Probe => "PROBE"@,
                NeighborCacheState::Permanent => "PERMANENT"@,
            },
    {
        match self {
            NeighborCacheState::Incomplete => "INCOMPLETE",
            NeighborCacheState::Reachable => "REACHABLE",
            NeighborCacheState::Stale => "STALE",
            NeighborCacheState::Delay => "DELAY",
            NeighborCacheState::Probe => "PROBE",
            NeighborCacheState::Permanent => "PERMANENT",
        }
    }

    /// The name as text.
    pub fn to_string(&self) -> (r: String)
        ensures
            r@ == match *self {
                NeighborCacheState::Incomplete => "INCOMPLETE"@,
                NeighborCacheState::Reachable => "REACHABLE"@,
                NeighborCacheState::Stale => "STALE"@,
                NeighborCacheState::Delay => "DELAY"@,
                NeighborCacheState::Probe => "PROBE"@,
                NeighborCacheState::Permanent => "PERMANENT"@,
            },
    {
        self.name().to_owned()
    }

}

/// The all-nodes multicast address ff02::1.
pub const ALL_NODES_MULTICAST: [u8; 16] = [0xff, 0x02, 0, 0, 0, 0, 0, 0, 0, 0, 0, 0, 0, 0, 0, 0x01];

/// The all-routers multicast address ff02::2.
pub const ALL_ROUTERS_MULTICAST: [u8; 16] = [0xff, 0x02, 0, 0, 0, 0, 0, 0, 0, 0, 0, 0, 0, 0, 0, 0x02];

/// The first 13 bytes of every solicited-node multicast address (ff02::1:ff00:0/104).
pub const SOLICITED_NODE_MULTICAST_PREFIX: [u8; 13] = [0xff, 0x02, 0, 0, 0, 0, 0, 0, 0, 0, 0, 0x01, 0xff];

/// The solicited-node multicast address of `target`: the /104 prefix
/// followed by the target's last three bytes.
pub open spec fn solicited_node_bytes(target: Seq<u8>) -> Seq<u8> {
    seq![0xffu8, 0x02, 0, 0, 0, 0, 0, 0, 0, 0, 0, 0x01, 0xff] + target.subrange(13, 16)
}

/// Computes the solicited-node multicast address of a unicast or anycast address.
pub fn solicited_node_multicast(target_addr: &[u8; 16]) -> (r: [u8; 16])
    ensures
        r@ == solicited_node_bytes(target_addr@),
{
    let mut addr: [u8; 16] = [0xff, 0x02, 0, 0, 0, 0, 0, 0, 0, 0, 0, 0x01, 0xff, 0, 0, 0];
    addr[13] = target_addr[13];
    addr[14] = target_addr[14];
    addr[15] = target_addr[15];
    assert(addr@ =~= solicited_node_bytes(target_addr@));
    addr
}


} // verus!
