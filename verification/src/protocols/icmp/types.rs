use vstd::prelude::*;

verus! {

pub const ICMP_TYPE_ECHO_REPLY: u8 = 0;
pub const ICMP_TYPE_DEST_UNREACHABLE: u8 = 3;
pub const ICMP_TYPE_ECHO_REQUEST: u8 = 8;
pub const ICMP_TYPE_TIME_EXCEEDED: u8 = 11;
pub const ICMP_TYPE_PARAMETER_PROBLEM: u8 = 12;
pub const ICMPV6_TYPE_DEST_UNREACHABLE: u8 = 1;
pub const ICMPV6_TYPE_PACKET_TOO_BIG: u8 = 2;
pub const ICMPV6_TYPE_TIME_EXCEEDED: u8 = 3;
pub const ICMPV6_TYPE_PARAMETER_PROBLEM: u8 = 4;
pub const ICMPV6_TYPE_ECHO_REQUEST: u8 = 128;
pub const ICMPV6_TYPE_ECHO_REPLY: u8 = 129;

/// ICMP message types.
#[derive(Debug, Clone, Copy, PartialEq, Eq)]
pub enum IcmpType {
    EchoReply,
    DestinationUnreachable,
    EchoRequest,
    TimeExceeded,
}

impl IcmpType {
    /// The numeric code of the value.
    pub open spec fn spec_value(self) -> u8 {
        match self {
            IcmpType::EchoReply => 0,
            IcmpType::DestinationUnreachable => 3,
            IcmpType::EchoRequest => 8,
            IcmpType::TimeExceeded => 11,
        }
    }

    /// The value with the given code, if any.
    pub open spec fn spec_from(value: u8) -> Option<Self> {
        if value == 0 {
            Some(IcmpType::EchoReply)
        } else if value == 3 {
            Some(IcmpType::DestinationUnreachable)
        } else if value == 8 {
            Some(IcmpType::EchoRequest)
        } else if value == 11 {
            Some(IcmpType::TimeExceeded)
        } else {
            None
        }
    }

    /// The value with the given code, if any.
    pub fn from_u8(value: u8) -> (r: Option<Self>)
        ensures
            r == Self::spec_from(value),
    {
        match value {
            0 => Some(IcmpType::EchoReply),
            3 => Some(IcmpType::DestinationUnreachable),
            8 => Some(IcmpType::EchoRequest),
            11 => Some(IcmpType::TimeExceeded),
            _ => None,
        }
    }

    /// The numeric code.
    pub fn as_u8(self) -> (r: u8)
        ensures
            r == self.spec_value(),
            Self::spec_from(r) == Some(self),
    {
        match self {
            IcmpType::EchoReply => 0,
            IcmpType::DestinationUnreachable => 3,
            IcmpType::EchoRequest => 8,
            IcmpType::TimeExceeded => 11,
        }
    }

    /// The type's name.
    pub fn name(self) -> (r: &'static str)
        ensures
            r@ == match self {
                IcmpType::EchoReply => "Echo Reply"@,
                IcmpType::DestinationUnreachable => "Destination Unreachable"@,
                IcmpType::EchoRequest => "Echo Request"@,
                IcmpType::TimeExceeded => "Time Exceeded"@,
            },
    {
        match self {
            IcmpType::EchoReply => "Echo Reply",
            IcmpType::DestinationUnreachable => "Destination Unreachable",
            IcmpType::EchoRequest => "Echo Request",
            IcmpType::TimeExceeded => "Time Exceeded",
        }
    }

    /// The name as text.
    pub fn to_string(&self) -> (r: String)
        ensures
            r@ == match *self {
                IcmpType::EchoReply => "Echo Reply"@,
                IcmpType::DestinationUnreachable => "Destination Unreachable"@,
                IcmpType::EchoRequest => "Echo Request"@,
                IcmpType::TimeExceeded => "Time Exceeded"@,
            },
    {
        self.name().to_owned()
    }

}
/// Codes of Destination Unreachable.
#[derive(Debug, Clone, Copy, PartialEq, Eq)]
pub enum DestUnreachableCode {
    NetworkUnreachable,
    HostUnreachable,
    ProtocolUnreachable,
    PortUnreachable,
    FragmentationNeeded,
    SourceRouteFailed,
}

impl DestUnreachableCode {
    /// The numeric code of the value.
    pub open spec fn spec_value(self) -> u8 {
        match self {
            DestUnreachableCode::NetworkUnreachable => 0,
            DestUnreachableCode::HostUnreachable => 1,
            DestUnreachableCode::ProtocolUnreachable => 2,
            DestUnreachableCode::PortUnreachable => 3,
            DestUnreachableCode::FragmentationNeeded => 4,
            DestUnreachableCode::SourceRouteFailed => 5,
        }
    }

    /// The value with the given code, if any.
    pub open spec fn spec_from(value: u8) -> Option<Self> {
        if value == 0 {
            Some(DestUnreachableCode::NetworkUnreachable)
        } else if value == 1 {
            Some(DestUnreachableCode::HostUnreachable)
        } else if value == 2 {
            Some(DestUnreachableCode::ProtocolUnreachable)
        } else if value == 3 {
            Some(DestUnreachableCode::PortUnreachable)
        } else if value == 4 {
            Some(DestUnreachableCode::FragmentationNeeded)
        } else if value == 5 {
            Some(DestUnreachableCode::SourceRouteFailed)
        } else {
            None
        }
    }

    /// The value with the given code, if any.
    pub fn from_u8(value: u8) -> (r: Option<Self>)
        ensures
            r == Self::spec_from(value),
    {
        match value {
            0 => Some(DestUnreachableCode::NetworkUnreachable),
            1 => Some(DestUnreachableCode::HostUnreachable),
            2 => Some(DestUnreachableCode::ProtocolUnreachable),
            3 => Some(DestUnreachableCode::PortUnreachable),
            4 => Some(DestUnreachableCode::FragmentationNeeded),
            5 => Some(DestUnreachableCode::SourceRouteFailed),
            _ => None,
        }
    }

    /// The numeric code.
    pub fn as_u8(self) -> (r: u8)
        ensures
            r == self.spec_value(),
            Self::spec_from(r) == Some(self),
    {
        match self {
            DestUnreachableCode::NetworkUnreachable => 0,
            DestUnreachableCode::HostUnreachable => 1,
            DestUnreachableCode::ProtocolUnreachable => 2,
            DestUnreachableCode::PortUnreachable => 3,
            DestUnreachableCode::FragmentationNeeded => 4,
            DestUnreachableCode::SourceRouteFailed => 5,
        }
    }


}
/// Codes of Time Exceeded.
#[derive(Debug, Clone, Copy, PartialEq, Eq)]
pub enum TimeExceededCode {
    TtlExpired,
    FragmentReassemblyTimeout,
}

impl TimeExceededCode {
    /// The numeric code of the value.
    pub open spec fn spec_value(self) -> u8 {
        match self {
            TimeExceededCode::TtlExpired => 0,
            TimeExceededCode::FragmentReassemblyTimeout => 1,
        }
    }

    /// The value with the given code, if any.
    pub open spec fn spec_from(value: u8) -> Option<Self> {
        if value == 0 {
            Some(TimeExceededCode::TtlExpired)
        } else if value == 1 {
            Some(TimeExceededCode::FragmentReassemblyTimeout)
        } else {
            None
        }
    }

    /// The value with the given code, if any.
    pub fn from_u8(value: u8) -> (r: Option<Self>)
        ensures
            r == Self::spec_from(value),
    {
        match value {
            0 => Some(TimeExceededCode::TtlExpired),
            1 => Some(TimeExceededCode::FragmentReassemblyTimeout),
            _ => None,
        }
    }

    /// The numeric code.
    pub fn as_u8(self) -> (r: u8)
        ensures
            r == self.spec_value(),
            Self::spec_from(r) == Some(self),
    {
        match self {
            TimeExceededCode::TtlExpired => 0,
            TimeExceededCode::FragmentReassemblyTimeout => 1,
        }
    }


}
/// ICMPv6 message types handled by the ICMP module.
#[derive(Debug, Clone, Copy, PartialEq, Eq)]
pub enum IcmpV6Type {
    DestinationUnreachable,
    PacketTooBig,
    TimeExceeded,
    ParameterProblem,
    EchoRequest,
    EchoReply,
}

impl IcmpV6Type {
    /// The type's name.
    pub fn name(self) -> (r: &'static str)
        ensures
            r@ == match self {
                IcmpV6Type::DestinationUnreachable => "Destination Unreachable"@,
                IcmpV6Type::PacketTooBig => "Packet Too Big"@,
                IcmpV6Type::TimeExceeded => "Time Exceeded"@,
                IcmpV6Type::ParameterProblem => "Parameter Problem"@,
                IcmpV6Type::EchoRequest => "Echo Request"@,
                IcmpV6Type::EchoReply => "Echo Reply"@,
            },
    {
        match self {
            IcmpV6Type::DestinationUnreachable => "Destination Unreachable",
            IcmpV6Type::PacketTooBig => "Packet Too Big",
            IcmpV6Type::TimeExceeded => "Time Exceeded",
            IcmpV6Type::ParameterProblem => "Parameter Problem",
            IcmpV6Type::EchoRequest => "Echo Request",
            IcmpV6Type::EchoReply => "Echo Reply",
        }
    }

    /// The name as text.
    pub fn to_string(&self) -> (r: String)
        ensures
            r@ == match *self {
                IcmpV6Type::DestinationUnreachable => "Destination Unreachable"@,
                IcmpV6Type::PacketTooBig => "Packet Too Big"@,
                IcmpV6Type::TimeExceeded => "Time Exceeded"@,
                IcmpV6Type::ParameterProblem => "Parameter Problem"@,
                IcmpV6Type::EchoRequest => "Echo Request"@,
                IcmpV6Type::EchoReply => "Echo Reply"@,
            },
    {
        self.name().to_owned()
    }

    /// The numeric code of the value.
    pub open spec fn spec_value(self) -> u8 {
        match self {
            IcmpV6Type::DestinationUnreachable => 1,
            IcmpV6Type::PacketTooBig => 2,
            IcmpV6Type::TimeExceeded => 3,
            IcmpV6Type::ParameterProblem => 4,
            IcmpV6Type::EchoRequest => 128,
            IcmpV6Type::EchoReply => 129,
        }
    }

    /// The value with the given code, if any.
    pub open spec fn spec_from(value: u8) -> Option<Self> {
        if value == 1 {
            Some(IcmpV6Type::DestinationUnreachable)
        } else if value == 2 {
            Some(IcmpV6Type::PacketTooBig)
        } else if value == 3 {
            Some(IcmpV6Type::TimeExceeded)
        } else if value == 4 {
            Some(IcmpV6Type::ParameterProblem)
        } else if value == 128 {
            Some(IcmpV6Type::EchoRequest)
        } else if value == 129 {
            Some(IcmpV6Type::EchoReply)
        } else {
            None
        }
    }

    /// The value with the given code, if any.
    pub fn from_u8(value: u8) -> (r: Option<Self>)
        ensures
            r == Self::spec_from(value),
    {
        match value {
            1 => Some(IcmpV6Type::DestinationUnreachable),
            2 => Some(IcmpV6Type::PacketTooBig),
            3 => Some(IcmpV6Type::TimeExceeded),
            4 => Some(IcmpV6Type::ParameterProblem),
            128 => Some(IcmpV6Type::EchoRequest),
            129 => Some(IcmpV6Type::EchoReply),
            _ => None,
        }
    }

    /// The numeric code.
    pub fn as_u8(self) -> (r: u8)
        ensures
            r == self.spec_value(),
            Self::spec_from(r) == Some(self),
    {
        match self {
            IcmpV6Type::DestinationUnreachable => 1,
            IcmpV6Type::PacketTooBig => 2,
            IcmpV6Type::TimeExceeded => 3,
            IcmpV6Type::ParameterProblem => 4,
            IcmpV6Type::EchoRequest => 128,
            IcmpV6Type::EchoReply => 129,
        }
    }


}
/// Codes of ICMPv6 Destination Unreachable.
#[derive(Debug, Clone, Copy, PartialEq, Eq)]
pub enum IcmpV6DestUnreachableCode {
    NoRouteToDestination,
    CommunicationProhibited,
    BeyondScopeOfSourceAddress,
    AddressUnreachable,
    PortUnreachable,
    SourceAddressFailedPolicy,
    RejectRouteToDestination,
}

impl IcmpV6DestUnreachableCode {
    /// The numeric code of the value.
    pub open spec fn spec_value(self) -> u8 {
        match self {
            IcmpV6DestUnreachableCode::NoRouteToDestination => 0,
            IcmpV6DestUnreachableCode::CommunicationProhibited => 1,
            IcmpV6DestUnreachableCode::BeyondScopeOfSourceAddress => 2,
            IcmpV6DestUnreachableCode::AddressUnreachable => 3,
            IcmpV6DestUnreachableCode::PortUnreachable => 4,
            IcmpV6DestUnreachableCode::SourceAddressFailedPolicy => 5,
            IcmpV6DestUnreachableCode::RejectRouteToDestination => 6,
        }
    }

    /// The value with the given code, if any.
    pub open spec fn spec_from(value: u8) -> Option<Self> {
        if value == 0 {
            Some(IcmpV6DestUnreachableCode::NoRouteToDestination)
        } else if value == 1 {
            Some(IcmpV6DestUnreachableCode::CommunicationProhibited)
        } else if value == 2 {
            Some(IcmpV6DestUnreachableCode::BeyondScopeOfSourceAddress)
        } else if value == 3 {
            Some(IcmpV6DestUnreachableCode::AddressUnreachable)
        } else if value == 4 {
            Some(IcmpV6DestUnreachableCode::PortUnreachable)
        } else if value == 5 {
            Some(IcmpV6DestUnreachableCode::SourceAddressFailedPolicy)
        } else if value == 6 {
            Some(IcmpV6DestUnreachableCode::RejectRouteToDestination)
        } else {
            None
        }
    }

    /// The value with the given code, if any.
    pub fn from_u8(value: u8) -> (r: Option<Self>)
        ensures
            r == Self::spec_from(value),
    {
        match value {
            0 => Some(IcmpV6DestUnreachableCode::NoRouteToDestination),
            1 => Some(IcmpV6DestUnreachableCode::CommunicationProhibited),
            2 => Some(IcmpV6DestUnreachableCode::BeyondScopeOfSourceAddress),
            3 => Some(IcmpV6DestUnreachableCode::AddressUnreachable),
            4 => Some(IcmpV6DestUnreachableCode::PortUnreachable),
            5 => Some(IcmpV6DestUnreachableCode::SourceAddressFailedPolicy),
            6 => Some(IcmpV6DestUnreachableCode::RejectRouteToDestination),
            _ => None,
        }
    }

    /// The numeric code.
    pub fn as_u8(self) -> (r: u8)
        ensures
            r == self.spec_value(),
            Self::spec_from(r) == Some(self),
    {
        match self {
            IcmpV6DestUnreachableCode::NoRouteToDestination => 0,
            IcmpV6DestUnreachableCode::CommunicationProhibited => 1,
            IcmpV6DestUnreachableCode::BeyondScopeOfSourceAddress => 2,
            IcmpV6DestUnreachableCode::AddressUnreachable => 3,
            IcmpV6DestUnreachableCode::PortUnreachable => 4,
            IcmpV6DestUnreachableCode::SourceAddressFailedPolicy => 5,
            IcmpV6DestUnreachableCode::RejectRouteToDestination => 6,
        }
    }


}
/// Codes of ICMPv6 Time Exceeded.
#[derive(Debug, Clone, Copy, PartialEq, Eq)]
pub enum IcmpV6TimeExceededCode {
    HopLimitExceeded,
    FragmentReassemblyTimeout,
}

impl IcmpV6TimeExceededCode {
    /// The numeric code of the value.
    pub open spec fn spec_value(self) -> u8 {
        match self {
            IcmpV6TimeExceededCode::HopLimitExceeded => 0,
            IcmpV6TimeExceededCode::FragmentReassemblyTimeout => 1,
        }
    }

    /// The value with the given code, if any.
    pub open spec fn spec_from(value: u8) -> Option<Self> {
        if value == 0 {
            Some(IcmpV6TimeExceededCode::HopLimitExceeded)
        } else if value == 1 {
            Some(IcmpV6TimeExceededCode::FragmentReassemblyTimeout)
        } else {
            None
        }
    }

    /// The value with the given code, if any.
    pub fn from_u8(value: u8) -> (r: Option<Self>)
        ensures
            r == Self::spec_from(value),
    {
        match value {
            0 => Some(IcmpV6TimeExceededCode::HopLimitExceeded),
            1 => Some(IcmpV6TimeExceededCode::FragmentReassemblyTimeout),
            _ => None,
        }
    }

    /// The numeric code.
    pub fn as_u8(self) -> (r: u8)
        ensures
            r == self.spec_value(),
            Self::spec_from(r) == Some(self),
    {
        match self {
            IcmpV6TimeExceededCode::HopLimitExceeded => 0,
            IcmpV6TimeExceededCode::FragmentReassemblyTimeout => 1,
        }
    }


}
} // verus!
