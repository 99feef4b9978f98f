use vstd::prelude::*;
use crate::common::addr::IpAddr;
use crate::protocols::common::addr::Ipv4Addr;
use super::config::BgpPeerConfig;
use super::error::BgpError;
use super::DEFAULT_HOLD_TIME;

verus! {

/// The session state of a peer.
#[derive(Debug, Clone, Copy, PartialEq, Eq, Structural)]
pub enum BgpState {
    Idle,
    Connecting,
    Established,
}

impl BgpState {
    /// The state's name.
    pub fn name(&self) -> (r: &'static str)
        ensures
            r@ == match *self {
                BgpState::Idle => "Idle"@,
                BgpState::Connecting => "Connecting"@,
                BgpState::Established => "Established"@,
            },
    {
        match self {
            BgpState::Idle => "Idle",
            BgpState::Connecting => "Connecting",
            BgpState::Established => "Established",
        }
    }
}

/// A BGP peer.
#[derive(Debug, Clone, Copy)]
pub struct BgpPeer {
    pub peer_addr: IpAddr,
    pub local_as: u32,
    pub remote_as: u32,
    pub state: BgpState,
    /// Hold time in seconds.
    pub hold_time: u16,
}

impl BgpPeer {
    /// A peer at `peer_addr`, idle, with the default hold time.
    pub fn new(peer_addr: IpAddr, local_as: u32, remote_as: u32) -> (r: Self)
        ensures
            r == (BgpPeer { peer_addr, local_as, remote_as, state: BgpState::Idle, hold_time: 180 }),
    {
        BgpPeer { peer_addr, local_as, remote_as, state: BgpState::Idle, hold_time: DEFAULT_HOLD_TIME }
    }

    /// A peer for a configured neighbour.
    pub fn from_config(config: &BgpPeerConfig, local_as: u32) -> (r: Self)
        ensures
            r == (BgpPeer {
                peer_addr: config.address,
                local_as,
                remote_as: config.remote_as,
                state: BgpState::Idle,
                hold_time: 180,
            }),
    {
        Self::new(config.address, local_as, config.remote_as)
    }

    /// The peer's address.
    pub fn peer_addr(&self) -> (r: IpAddr)
        ensures
            r == self.peer_addr,
    {
        self.peer_addr
    }

    /// The local AS number.
    pub fn local_as(&self) -> (r: u32)
        ensures
            r == self.local_as,
    {
        self.local_as
    }

    /// The peer's AS number.
    pub fn remote_as(&self) -> (r: u32)
        ensures
            r == self.remote_as,
    {
        self.remote_as
    }

    /// The session state.
    pub fn state(&self) -> (r: BgpState)
        ensures
            r == self.state,
    {
        self.state
    }

    /// Moves the session to `new_state`.
    pub fn transition_to(&mut self, new_state: BgpState)
        ensures
            *final(self) == (BgpPeer { state: new_state, ..*old(self) }),
    {
        self.state = new_state;
    }
}

/// The peers of the local speaker.
#[derive(Debug, Clone)]
pub struct BgpPeerManager {
    pub local_as: u32,
    pub router_id: Ipv4Addr,
    peers: Vec<BgpPeer>,
}

impl BgpPeerManager {
    /// The peers, in the order they were added.
    pub closed spec fn spec_peers(&self) -> Seq<BgpPeer> {
        self.peers@
    }

    /// The local AS number.
    pub closed spec fn spec_local_as(&self) -> u32 {
        self.local_as
    }

    /// The local router id.
    pub closed spec fn spec_router_id(&self) -> Ipv4Addr {
        self.router_id
    }

    /// A manager with no peers.
    pub fn new(local_as: u32, router_id: Ipv4Addr) -> (r: Self)
        ensures
            r.spec_local_as() == local_as,
            r.spec_router_id() == router_id,
            r.spec_peers() == Seq::<BgpPeer>::empty(),
    {
        BgpPeerManager { local_as, router_id, peers: Vec::new() }
    }

    /// Adds a peer; always succeeds.
    pub fn add_peer(&mut self, peer: BgpPeer) -> (r: Result<(), BgpError>)
        ensures
            r is Ok,
            final(self).spec_peers() == old(self).spec_peers().push(peer),
            final(self).spec_local_as() == old(self).spec_local_as(),
            final(self).spec_router_id() == old(self).spec_router_id(),
    {
        self.peers.push(peer);
        Ok(())
    }

    /// The number of peers.
    pub fn peer_count(&self) -> (r: usize)
        ensures
            r == self.spec_peers().len(),
    {
        self.peers.len()
    }

    /// The peers.
    pub fn peers(&self) -> (r: &[BgpPeer])
        ensures
            r@ == self.spec_peers(),
    {
        self.peers.as_slice()
    }
}

} // verus!
