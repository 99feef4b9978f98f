use vstd::prelude::*;
use crate::common::addr::IpAddr;
use crate::protocols::common::addr::Ipv4Addr;

verus! {

/// An address prefix, as in NLRI and withdrawn routes.
#[derive(Debug, Clone, Copy, PartialEq, Eq, Hash)]
pub struct IpPrefix {
    pub prefix: IpAddr,
    pub prefix_len: u8,
}

impl IpPrefix {
    /// The prefix `prefix/prefix_len`.
    pub fn new(prefix: IpAddr, prefix_len: u8) -> (r: Self)
        ensures
            r.prefix == prefix,
            r.prefix_len == prefix_len,
    {
        IpPrefix { prefix, prefix_len }
    }

    /// The IPv4 prefix `prefix/prefix_len`.
    pub fn ipv4(prefix: Ipv4Addr, prefix_len: u8) -> (r: Self)
        ensures
            r.prefix == IpAddr::V4(prefix),
            r.prefix_len == prefix_len,
    {
        IpPrefix { prefix: IpAddr::V4(prefix), prefix_len }
    }
}

/// The header every BGP message starts with.
#[derive(Debug, Clone)]
pub struct BgpHeader {
    /// Sixteen marker bytes, all ones.
    pub marker: [u8; 16],
    /// Length of the whole message.
    pub length: u16,
    /// 1 OPEN, 2 UPDATE, 3 NOTIFICATION, 4 KEEPALIVE, 5 ROUTE-REFRESH.
    pub msg_type: u8,
}

impl BgpHeader {
    /// The marker: sixteen bytes of 0xFF.
    pub fn default_marker() -> (r: [u8; 16])
        ensures
            r@ == Seq::new(16, |_i: int| 0xFFu8),
    {
        let r: [u8; 16] = [0xFFu8; 16];
        assert(r@ =~= Seq::new(16, |_i: int| 0xFFu8));
        r
    }

    /// A header with the default marker.
    pub fn new(length: u16, msg_type: u8) -> (r: Self)
        ensures
            r.marker@ == Seq::new(16, |_i: int| 0xFFu8),
            r.length == length,
            r.msg_type == msg_type,
    {
        BgpHeader { marker: Self::default_marker(), length, msg_type }
    }
}

/// An OPEN message.
#[derive(Debug, Clone)]
pub struct BgpOpen {
    pub version: u8,
    pub my_as: u16,
    pub hold_time: u16,
    pub bgp_identifier: Ipv4Addr,
    pub optional_parameters: Vec<OptionalParameter>,
}

/// An optional parameter of an OPEN message.
#[derive(Debug, Clone)]
pub enum OptionalParameter {
    Authentication { auth_code: u8, data: Vec<u8> },
    Capabilities { capabilities: Vec<BgpCapability> },
}

/// A capability advertised in an OPEN message.
#[derive(Debug, Clone, PartialEq, Eq)]
pub enum BgpCapability {
    MultiProtocol { afi: u16, safi: u8 },
    RouteRefresh,
    FourOctetAsNumber { as_number: u32 },
    CapabilityNegotiation,
    Unknown { code: u8, data: Vec<u8> },
}

/// An UPDATE message.
#[derive(Debug, Clone)]
pub struct BgpUpdate {
    pub withdrawn_routes: Vec<IpPrefix>,
    pub path_attributes: Vec<PathAttribute>,
    pub nlri: Vec<IpPrefix>,
}

/// A path attribute of an UPDATE message.
#[derive(Debug, Clone, PartialEq, Eq)]
pub enum PathAttribute {
    Origin { origin: u8 },
    AsPath { as_sequence: Vec<u32>, as_set: Vec<u32> },
    NextHop { next_hop: Ipv4Addr },
    MultiExitDisc { med: u32 },
    LocalPref { local_pref: u32 },
    AtomicAggregate,
    Aggregator { as_number: u32, router_id: Ipv4Addr },
    Community { communities: Vec<u32> },
    MpReachNlri { afi: u16, safi: u8, next_hop: Vec<u8>, nlri: Vec<Vec<u8>> },
    MpUnreachNlri { afi: u16, safi: u8, nlri: Vec<Vec<u8>> },
}

/// A NOTIFICATION message.
#[derive(Debug, Clone)]
pub struct BgpNotification {
    pub error_code: u8,
    pub error_subcode: u8,
    pub data: Vec<u8>,
}

/// The error codes of NOTIFICATION messages.
#[derive(Debug, Clone, Copy, PartialEq, Eq, Structural)]
pub enum BgpErrorCode {
    MessageHeaderError,
    OpenMessageError,
    UpdateMessageError,
    HoldTimerExpired,
    FiniteStateMachineError,
    Cease,
}

impl BgpErrorCode {
    /// The code's number, 1 to 6.
    pub fn value(&self) -> (r: u8)
        ensures
            r == match *self {
                BgpErrorCode::MessageHeaderError => 1u8,
                BgpErrorCode::OpenMessageError => 2u8,
                BgpErrorCode::UpdateMessageError => 3u8,
                BgpErrorCode::HoldTimerExpired => 4u8,
                BgpErrorCode::FiniteStateMachineError => 5u8,
                BgpErrorCode::Cease => 6u8,
            },
    {
        match self {
            BgpErrorCode::MessageHeaderError => 1,
            BgpErrorCode::OpenMessageError => 2,
            BgpErrorCode::UpdateMessageError => 3,
            BgpErrorCode::HoldTimerExpired => 4,
            BgpErrorCode::FiniteStateMachineError => 5,
            BgpErrorCode::Cease => 6,
        }
    }
}

/// A KEEPALIVE message.
#[derive(Debug, Clone)]
pub struct BgpKeepalive;

/// A ROUTE-REFRESH message.
#[derive(Debug, Clone)]
pub struct BgpRouteRefresh {
    pub afi: u16,
    pub reserved: u8,
    pub safi: u8,
}

/// A BGP message.
#[derive(Debug, Clone)]
pub enum BgpMessage {
    Open(BgpOpen),
    Update(BgpUpdate),
    Notification(BgpNotification),
    Keepalive(BgpKeepalive),
    RouteRefresh(BgpRouteRefresh),
}

/// The type number of a message.
pub open spec fn message_type_of(m: BgpMessage) -> u8 {
    match m {
        BgpMessage::Open(_) => 1,
        BgpMessage::Update(_) => 2,
        BgpMessage::Notification(_) => 3,
        BgpMessage::Keepalive(_) => 4,
        BgpMessage::RouteRefresh(_) => 5,
    }
}

impl BgpMessage {
    /// The message's type number.
    pub fn msg_type(&self) -> (r: u8)
        ensures
            r == message_type_of(*self),
    {
        match self {
            BgpMessage::Open(_) => 1,
            BgpMessage::Update(_) => 2,
            BgpMessage::Notification(_) => 3,
            BgpMessage::Keepalive(_) => 4,
            BgpMessage::RouteRefresh(_) => 5,
        }
    }
}

} // verus!
