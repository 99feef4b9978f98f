pub mod config;
pub mod error;
pub mod message;
pub mod packet;
pub mod peer;
pub mod process;
pub mod rib;
pub mod timer;

pub use config::{BgpConfig, BgpPeerConfig, BgpPeerType, BgpPolicy};
pub use error::BgpError;
pub use message::{
    BgpCapability, BgpErrorCode, BgpHeader, BgpKeepalive, BgpMessage, BgpNotification, BgpOpen, BgpRouteRefresh,
    BgpUpdate, IpPrefix, OptionalParameter, PathAttribute,
};
pub use packet::{encapsulate_bgp_message, parse_bgp_message};
pub use peer::{BgpPeer, BgpPeerManager, BgpState};
pub use rib::{BgpRib, BgpRoute};


use vstd::prelude::*;

verus! {

/// TCP port of BGP.
pub const BGP_PORT: u16 = 179;
/// The BGP version spoken (BGP-4).
pub const BGP_VERSION: u8 = 4;
/// Bytes of the header marker.
pub const BGP_MARKER_SIZE: usize = 16;
/// Bytes of the message header without the type octet.
pub const BGP_HEADER_SIZE: usize = 18;
/// Smallest BGP message.
pub const BGP_MIN_MESSAGE_SIZE: usize = 19;
/// Largest BGP message.
pub const BGP_MAX_MESSAGE_SIZE: usize = 4096;

/// Default hold time in seconds.
pub const DEFAULT_HOLD_TIME: u16 = 180;
/// Default connect-retry time in seconds.
pub const DEFAULT_CONNECT_RETRY_TIME: u16 = 60;
/// Default keepalive time in seconds.
pub const DEFAULT_KEEPALIVE_TIME: u16 = 60;

/// Message type OPEN.
pub const BGP_MSG_OPEN: u8 = 1;
/// Message type UPDATE.
pub const BGP_MSG_UPDATE: u8 = 2;
/// Message type NOTIFICATION.
pub const BGP_MSG_NOTIFICATION: u8 = 3;
/// Message type KEEPALIVE.
pub const BGP_MSG_KEEPALIVE: u8 = 4;
/// Message type ROUTE-REFRESH.
pub const BGP_MSG_ROUTE_REFRESH: u8 = 5;

} // verus!
