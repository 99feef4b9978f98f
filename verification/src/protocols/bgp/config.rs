use vstd::prelude::*;
use crate::common::addr::IpAddr;
use crate::protocols::common::addr::Ipv4Addr;
use super::message::IpPrefix;
use super::{DEFAULT_CONNECT_RETRY_TIME, DEFAULT_HOLD_TIME};

verus! {

/// Settings of the local BGP speaker.
#[derive(Debug, Clone)]
pub struct BgpConfig {
    pub local_as: u32,
    /// The BGP identifier, usually a router address.
    pub bgp_id: Ipv4Addr,
    /// Hold time in seconds.
    pub hold_time: u16,
    /// Connect-retry time in seconds.
    pub connect_retry_time: u16,
    pub support_4byte_as: bool,
    pub support_multiprotocol: bool,
    pub support_route_refresh: bool,
    pub peers: Vec<BgpPeerConfig>,
}

impl Default for BgpConfig {
    /// AS 0, identifier 0.0.0.0, default timers, every capability on, no peers.
    fn default() -> (r: Self)
        ensures
            r.local_as == 0,
            r.bgp_id.bytes@ == seq![0u8, 0u8, 0u8, 0u8],
            r.hold_time == 180,
            r.connect_retry_time == 60,
            r.support_4byte_as,
            r.support_multiprotocol,
            r.support_route_refresh,
            r.peers@.len() == 0,
    {
        BgpConfig {
            local_as: 0,
            bgp_id: Ipv4Addr::zero(),
            hold_time: DEFAULT_HOLD_TIME,
            connect_retry_time: DEFAULT_CONNECT_RETRY_TIME,
            support_4byte_as: true,
            support_multiprotocol: true,
            support_route_refresh: true,
            peers: Vec::new(),
        }
    }
}

/// Settings of one peer.
#[derive(Debug, Clone)]
pub struct BgpPeerConfig {
    pub name: String,
    pub address: IpAddr,
    pub remote_as: u32,
    pub peer_type: BgpPeerType,
    pub enabled: bool,
    /// Only accept incoming connections.
    pub passive: bool,
}

impl Default for BgpPeerConfig {
    /// No name, address 0.0.0.0, AS 0, external, enabled, active.
    fn default() -> (r: Self)
        ensures
            r.name@ == Seq::<char>::empty(),
            r.address matches IpAddr::V4(a) && a.bytes@ == seq![0u8, 0u8, 0u8, 0u8],
            r.remote_as == 0,
            r.peer_type == BgpPeerType::External,
            r.enabled,
            !r.passive,
    {
        BgpPeerConfig {
            name: String::new(),
            address: IpAddr::V4(Ipv4Addr::zero()),
            remote_as: 0,
            peer_type: BgpPeerType::External,
            enabled: true,
            passive: false,
        }
    }
}

/// Whether a peer is in another AS (EBGP) or the same one (IBGP).
#[derive(Debug, Clone, Copy, PartialEq, Eq, Structural)]
pub enum BgpPeerType {
    External,
    Internal,
}

/// A routing policy: statements applied in order.
#[derive(Debug, Clone)]
pub struct BgpPolicy {
    pub statements: Vec<BgpPolicyStatement>,
}

impl Default for BgpPolicy {
    /// A policy with no statements.
    fn default() -> (r: Self)
        ensures
            r.statements@.len() == 0,
    {
        BgpPolicy { statements: Vec::new() }
    }
}

/// A condition and the action taken when it matches.
#[derive(Debug, Clone)]
pub struct BgpPolicyStatement {
    pub match_condition: BgpMatchCondition,
    pub action: BgpPolicyAction,
}

/// What a policy statement matches.
#[derive(Debug, Clone)]
pub enum BgpMatchCondition {
    All,
    Prefix { prefix: IpPrefix },
    AsPathLength { min: usize, max: usize },
}

/// What a policy statement does.
#[derive(Debug, Clone)]
pub enum BgpPolicyAction {
    Accept,
    Reject,
    SetLocalPref { local_pref: u32 },
}

} // verus!
