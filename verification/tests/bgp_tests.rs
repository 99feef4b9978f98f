use core_net::common::addr::IpAddr;
use core_net::protocols::bgp::config::{BgpConfig, BgpPeerConfig, BgpPeerType, BgpPolicy};
use core_net::protocols::bgp::error::BgpError;
use core_net::protocols::bgp::message::{
    BgpErrorCode, BgpHeader, BgpKeepalive, BgpMessage, BgpNotification, BgpRouteRefresh, IpPrefix,
};
use core_net::protocols::bgp::packet::{encapsulate_bgp_message, parse_bgp_message};
use core_net::protocols::bgp::peer::{BgpPeer, BgpPeerManager, BgpState};
use core_net::protocols::bgp::process::{process_bgp_packet, respond_to_message, BgpProcessResult};
use core_net::protocols::bgp::rib::{BgpRib, BgpRoute};
use core_net::protocols::bgp::timer::{BgpTimerEvent, BgpTimerManager};
use core_net::protocols::common::addr::Ipv4Addr;

fn v4(a: u8, b: u8, c: u8, d: u8) -> IpAddr {
    IpAddr::V4(Ipv4Addr::new([a, b, c, d]))
}

#[test]
fn test_rib_add_and_find() {
    let mut rib = BgpRib::new();
    let prefix = IpPrefix::new(v4(192, 168, 1, 0), 24);
    let route = BgpRoute::new(prefix, v4(10, 0, 0, 1), v4(10, 0, 0, 2));

    rib.add_or_update(route);
    assert_eq!(rib.len(), 1);

    let found = rib.find(&prefix);
    assert!(found.is_some());
    assert_eq!(found.unwrap().next_hop, v4(10, 0, 0, 1));
}

#[test]
fn test_rib_remove() {
    let mut rib = BgpRib::new();
    let prefix = IpPrefix::new(v4(192, 168, 1, 0), 24);
    let route = BgpRoute::new(prefix, v4(10, 0, 0, 1), v4(10, 0, 0, 2));

    rib.add_or_update(route);
    assert_eq!(rib.len(), 1);

    rib.remove(&prefix);
    assert_eq!(rib.len(), 0);
    assert!(rib.find(&prefix).is_none());
}

#[test]
fn test_rib_longest_prefix_match() {
    let mut rib = BgpRib::new();
    rib.add_or_update(BgpRoute::new(IpPrefix::new(v4(10, 0, 0, 0), 8), v4(10, 0, 0, 1), v4(10, 0, 0, 2)));
    rib.add_or_update(BgpRoute::new(IpPrefix::new(v4(10, 0, 1, 0), 24), v4(10, 0, 1, 1), v4(10, 0, 1, 2)));

    let result = rib.lookup(&v4(10, 0, 1, 100));
    assert!(result.is_some());
    assert_eq!(result.unwrap().next_hop, v4(10, 0, 1, 1));
}

fn route_with(local_pref: Option<u32>, as_path: Vec<u32>, peer: IpAddr) -> BgpRoute {
    BgpRoute {
        prefix: IpPrefix::new(v4(10, 0, 0, 0), 24),
        next_hop: v4(10, 0, 0, 1),
        local_pref,
        med: 0,
        as_path,
        origin: 0,
        peer,
        valid: true,
        age: 0,
    }
}

#[test]
fn test_route_preference() {
    let route1 = route_with(Some(200), vec![100, 200], v4(10, 0, 0, 2));
    let route2 = route_with(Some(100), vec![100], v4(10, 0, 0, 3));
    assert!(route1.preference() > route2.preference());
}

#[test]
fn test_timer_creation() {
    let mut mgr = BgpTimerManager::new();
    let addr = v4(192, 168, 1, 1);

    let id = mgr.add_keepalive_timer(addr, 60_000, 0);
    assert_eq!(id, 1);
    assert_eq!(mgr.len(), 1);
}

#[test]
fn test_timer_expiry() {
    let mut mgr = BgpTimerManager::new();
    let addr = v4(192, 168, 1, 1);

    mgr.add_keepalive_timer(addr, 10, 1_000);

    let expired = mgr.get_expired_timers(1_020);
    assert_eq!(expired.len(), 1);
}

#[test]
fn test_reset_timer() {
    let mut mgr = BgpTimerManager::new();
    let addr = v4(192, 168, 1, 1);

    mgr.add_keepalive_timer(addr, 10, 1_000);
    mgr.reset_keepalive_timer(&addr, 100, 1_005);

    let expired = mgr.get_expired_timers(1_015);
    assert_eq!(expired.len(), 0);
}

#[test]
fn test_remove_peer_timers() {
    let mut mgr = BgpTimerManager::new();
    let addr = v4(192, 168, 1, 1);

    mgr.add_keepalive_timer(addr, 60_000, 0);
    mgr.add_hold_timer(addr, 180_000, 0);
    mgr.add_connect_retry_timer(addr, 60_000, 0);

    assert_eq!(mgr.len(), 3);

    mgr.remove_peer_timers(&addr);

    assert_eq!(mgr.len(), 0);
}

#[test]
fn test_deactivate_timers() {
    let mut mgr = BgpTimerManager::new();
    let addr = v4(192, 168, 1, 1);

    mgr.add_keepalive_timer(addr, 10, 1_000);
    mgr.deactivate_peer_timers(&addr);

    let expired = mgr.get_expired_timers(1_020);
    assert_eq!(expired.len(), 0);
}

#[test]
fn rib_replaces_same_prefix() {
    let mut rib = BgpRib::new();
    let prefix = IpPrefix::new(v4(192, 168, 1, 0), 24);
    rib.add_or_update(BgpRoute::new(prefix, v4(10, 0, 0, 1), v4(10, 0, 0, 2)));
    rib.add_or_update(BgpRoute::new(prefix, v4(10, 0, 0, 9), v4(10, 0, 0, 2)));
    assert_eq!(rib.len(), 1);
    assert_eq!(rib.find(&prefix).unwrap().next_hop, v4(10, 0, 0, 9));
    let other_len = IpPrefix::new(v4(192, 168, 1, 0), 25);
    assert!(rib.find(&other_len).is_none());
    let removed = rib.remove(&prefix).unwrap();
    assert_eq!(removed.next_hop, v4(10, 0, 0, 9));
    assert!(rib.remove(&prefix).is_none());
    assert!(rib.is_empty());
}

#[test]
fn rib_lookup_edges() {
    let mut rib = BgpRib::new();
    rib.add_or_update(BgpRoute::new(IpPrefix::new(v4(0, 0, 0, 0), 0), v4(1, 1, 1, 1), v4(1, 1, 1, 2)));
    assert_eq!(rib.lookup(&v4(8, 8, 8, 8)).unwrap().next_hop, v4(1, 1, 1, 1));
    rib.add_or_update(BgpRoute::new(IpPrefix::new(v4(10, 0, 0, 128), 25), v4(2, 2, 2, 2), v4(1, 1, 1, 2)));
    assert_eq!(rib.lookup(&v4(10, 0, 0, 200)).unwrap().next_hop, v4(2, 2, 2, 2));
    assert_eq!(rib.lookup(&v4(10, 0, 0, 100)).unwrap().next_hop, v4(1, 1, 1, 1));
    rib.add_or_update(BgpRoute::new(IpPrefix::new(v4(10, 0, 0, 200), 32), v4(3, 3, 3, 3), v4(1, 1, 1, 2)));
    assert_eq!(rib.lookup(&v4(10, 0, 0, 200)).unwrap().next_hop, v4(3, 3, 3, 3));
    let v6 = IpAddr::V6(core_net::common::addr::Ipv6Addr::new(0x2001, 0xdb8, 0, 0, 0, 0, 0, 1));
    assert!(rib.lookup(&v6).is_none());
    let routes = rib.routes();
    assert_eq!(routes.len(), 3);
    assert_eq!(routes[1].prefix.prefix_len, 25);
    rib.clear();
    assert_eq!(rib.len(), 0);
}

#[test]
fn route_defaults_and_preference_value() {
    let route = BgpRoute::new(IpPrefix::ipv4(Ipv4Addr::new([10, 0, 0, 0]), 8), v4(1, 1, 1, 1), v4(1, 1, 1, 2));
    assert_eq!(route.local_pref, None);
    assert_eq!(route.as_path_length(), 0);
    assert_eq!(route.origin, 0);
    assert!(route.valid);
    assert_eq!(route.preference(), 100_000_000);
    let mut r2 = route.duplicate();
    r2.med = 7;
    r2.as_path = vec![1, 2, 3];
    assert_eq!(r2.preference(), 100_000_000 - 3_000 - 7);
}

#[test]
fn timer_manager_established() {
    let mut mgr = BgpTimerManager::new();
    let addr = v4(192, 168, 1, 1);
    let retry = mgr.add_connect_retry_timer(addr, 5, 0);
    mgr.enable_established_timers(addr, 30, 90, 10);
    assert_eq!(mgr.len(), 3);
    let expired = mgr.get_expired_timers(40);
    assert_eq!(expired.len(), 1);
    assert_eq!(expired[0].timer_type, BgpTimerEvent::KeepaliveTimer);
    assert_ne!(expired[0].id, retry);
    mgr.enable_established_timers(addr, 100, 200, 40);
    assert_eq!(mgr.len(), 3);
    assert!(mgr.get_expired_timers(100).is_empty());
    assert_eq!(mgr.get_expired_timers(240).len(), 2);
}

#[test]
fn timer_reset_missing() {
    let mut mgr = BgpTimerManager::new();
    let addr = v4(192, 168, 1, 1);
    assert!(!mgr.reset_hold_timer(&addr, 10, 0));
    mgr.add_keepalive_timer(addr, 10, 0);
    assert!(!mgr.reset_hold_timer(&addr, 10, 0));
    assert!(mgr.reset_keepalive_timer(&addr, 10, 0));
    assert!(!mgr.is_empty());
    let other = v4(192, 168, 1, 2);
    assert_eq!(mgr.add_hold_timer(other, 10, 0), 2);
    mgr.remove_peer_timers(&addr);
    assert_eq!(mgr.len(), 1);
}

#[test]
fn bgp_error_text() {
    assert_eq!(BgpError::InvalidMessageType(7).to_string(), "Invalid message type: 7");
    assert_eq!(BgpError::InvalidHoldTime(2).to_string(), "Invalid hold time: 2");
    assert_eq!(BgpError::AsPathLoop.to_string(), "AS_PATH loop detected");
    assert_eq!(BgpError::Other("x".to_string()).to_string(), "BGP error: x");
}

#[test]
fn bgp_messages() {
    assert_eq!(parse_bgp_message(&[0xFF; 19]).unwrap_err(), BgpError::InvalidMessageType(0));
    let keepalive = BgpMessage::Keepalive(BgpKeepalive);
    assert!(encapsulate_bgp_message(&keepalive).is_empty());
    assert_eq!(keepalive.msg_type(), 4);
    let header = BgpHeader::new(19, 4);
    assert_eq!(header.marker, [0xFF; 16]);
    assert_eq!(BgpErrorCode::Cease.value(), 6);
    assert_eq!(BgpErrorCode::MessageHeaderError.value(), 1);
    let notification = BgpMessage::Notification(BgpNotification { error_code: 6, error_subcode: 0, data: vec![] });
    assert_eq!(respond_to_message(&notification), BgpProcessResult::ConnectionClosed);
    assert_eq!(respond_to_message(&keepalive), BgpProcessResult::NoReply);
    let refresh = BgpMessage::RouteRefresh(BgpRouteRefresh { afi: 1, reserved: 0, safi: 1 });
    assert_eq!(respond_to_message(&refresh), BgpProcessResult::NoReply);
    assert_eq!(process_bgp_packet(&[0xFF; 19]), Err(BgpError::InvalidMessageType(0)));
}

#[test]
fn bgp_peers_and_config() {
    let config = BgpConfig::default();
    assert_eq!(config.hold_time, 180);
    assert_eq!(config.connect_retry_time, 60);
    assert!(config.peers.is_empty());
    let mut peer_config = BgpPeerConfig::default();
    assert_eq!(peer_config.peer_type, BgpPeerType::External);
    peer_config.address = v4(10, 0, 0, 2);
    peer_config.remote_as = 65002;
    let mut peer = BgpPeer::from_config(&peer_config, 65001);
    assert_eq!(peer.state(), BgpState::Idle);
    assert_eq!(peer.remote_as(), 65002);
    assert_eq!(peer.local_as(), 65001);
    assert_eq!(peer.peer_addr(), v4(10, 0, 0, 2));
    peer.transition_to(BgpState::Established);
    assert_eq!(peer.state.name(), "Established");
    let mut mgr = BgpPeerManager::new(65001, Ipv4Addr::new([1, 1, 1, 1]));
    assert!(mgr.add_peer(peer).is_ok());
    assert_eq!(mgr.peer_count(), 1);
    assert_eq!(mgr.peers()[0].hold_time, 180);
    assert!(BgpPolicy::default().statements.is_empty());
}
