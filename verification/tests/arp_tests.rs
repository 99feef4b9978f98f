use core_net::common::error::CoreError;
use core_net::protocols::arp::resolve::{arp_output, arp_request_frame, resolve_ip};
use core_net::protocols::arp::{
    handle_arp_packet, ArpCache, ArpConfig, ArpHandleResult, ArpOperation, ArpPacket, ArpProcessResult,
    ArpResolveResult, ArpState,
};
use core_net::protocols::common::addr::{Ipv4Addr, MacAddr};
use core_net::protocols::common::packet::Packet;

fn ip(a: u8, b: u8, c: u8, d: u8) -> Ipv4Addr {
    Ipv4Addr::new([a, b, c, d])
}

fn mac(last: u8) -> MacAddr {
    MacAddr::new([0x02, 0, 0, 0, 0, last])
}

#[test]
fn arp_packet_roundtrip() {
    let pkt = ArpPacket::new(ArpOperation::Request, mac(1), ip(10, 0, 0, 1), MacAddr::new([0; 6]), ip(10, 0, 0, 2));
    let bytes = pkt.to_bytes();
    assert_eq!(bytes.len(), 28);
    assert_eq!(&bytes[6..8], &[0, 1]);
    let mut packet = Packet::from_bytes(bytes);
    let back = ArpPacket::from_packet(&mut packet).unwrap();
    assert_eq!(back.operation, ArpOperation::Request);
    assert_eq!(back.target_protocol_addr, ip(10, 0, 0, 2));
    assert!(!back.is_gratuitous());
}

#[test]
fn arp_request_for_us_is_answered() {
    let mut cache = ArpCache::new(ArpConfig::default());
    let request = ArpPacket::new(ArpOperation::Request, mac(9), ip(10, 0, 0, 9), MacAddr::new([0; 6]), ip(10, 0, 0, 1));
    let result = handle_arp_packet(&mut cache, 1, &request, &[ip(10, 0, 0, 1)], mac(1), 1_000).unwrap();
    let reply = result.reply.expect("a reply");
    assert_eq!(reply.operation, ArpOperation::Reply);
    assert_eq!(reply.target_hardware_addr, mac(9));
    assert_eq!(reply.sender_hardware_addr, mac(1));
    let entry = cache.lookup_arp(1, ip(10, 0, 0, 9)).unwrap();
    assert_eq!(entry.hardware_addr, mac(9));
}

#[test]
fn resolve_refuses_special_addresses() {
    let mut cache = ArpCache::new(ArpConfig::default());
    for target in [ip(0, 0, 0, 0), ip(255, 255, 255, 255), ip(224, 0, 0, 1)] {
        let (result, send) = resolve_ip(&mut cache, 1, target, Packet::from_bytes(vec![1]), 0);
        assert!(!send);
        match result {
            ArpResolveResult::Failed(CoreError::InvalidPacket(_)) => {},
            other => panic!("unexpected {:?}", other),
        }
    }
    match resolve_ip(&mut cache, 1, ip(0, 0, 0, 0), Packet::new(), 0).0 {
        ArpResolveResult::Failed(CoreError::InvalidPacket(m)) => assert_eq!(m, "拒绝解析特殊IP地址: 0.0.0.0"),
        other => panic!("unexpected {:?}", other),
    }
    assert!(cache.is_empty());
}

#[test]
fn resolve_unknown_then_reply_releases_packet() {
    let mut cache = ArpCache::new(ArpConfig::default());
    let target = ip(10, 0, 0, 7);
    let (result, send) = resolve_ip(&mut cache, 1, target, Packet::from_bytes(vec![0x45, 0, 0, 20]), 0);
    assert!(matches!(result, ArpResolveResult::Pending));
    assert!(send);
    let entry = cache.lookup_arp(1, target).unwrap();
    assert_eq!(entry.state, ArpState::Incomplete);
    assert_eq!(entry.pending_packets.len(), 1);

    let (result, send) = resolve_ip(&mut cache, 1, target, Packet::from_bytes(vec![0x45, 0, 0, 21]), 10);
    assert!(matches!(result, ArpResolveResult::Pending));
    assert!(!send);
    assert_eq!(cache.lookup_arp(1, target).unwrap().pending_packets.len(), 2);

    let reply = ArpPacket::new(ArpOperation::Reply, mac(7), target, mac(1), ip(10, 0, 0, 1));
    let handled = handle_arp_packet(&mut cache, 1, &reply, &[ip(10, 0, 0, 1)], mac(1), 20).unwrap();
    assert_eq!(handled.pending_packets.len(), 2);
    let (frames, result) = arp_output(&handled, mac(7), mac(1), mac(7));
    assert!(matches!(result, ArpProcessResult::NoReply));
    assert_eq!(frames.len(), 2);
    assert_eq!(&frames[0][0..6], &mac(7).bytes);
    assert_eq!(&frames[0][6..12], &mac(1).bytes);
    assert_eq!(&frames[0][12..14], &[0x08, 0x00]);
    assert_eq!(&frames[1][14..], &[0x45, 0, 0, 21]);

    let (result, send) = resolve_ip(&mut cache, 1, target, Packet::new(), 30);
    assert!(!send);
    match result {
        ArpResolveResult::Resolved(m) => assert_eq!(m, mac(7)),
        other => panic!("unexpected {:?}", other),
    }
}

#[test]
fn resolve_stale_goes_to_delay() {
    let mut cache = ArpCache::new(ArpConfig::default());
    let target = ip(10, 0, 0, 8);
    cache.update_arp(1, target, mac(8), ArpState::Stale, 0);
    let (result, send) = resolve_ip(&mut cache, 1, target, Packet::from_bytes(vec![9]), 5);
    assert!(matches!(result, ArpResolveResult::Pending));
    assert!(!send);
    let entry = cache.lookup_arp(1, target).unwrap();
    assert_eq!(entry.state, ArpState::Delay);
    assert_eq!(entry.pending_packets.len(), 1);
}

#[test]
fn resolve_full_queue_fails() {
    let mut config = ArpConfig::default();
    config.max_pending_packets = 1;
    let mut cache = ArpCache::new(config);
    let target = ip(10, 0, 0, 9);
    let (first, _) = resolve_ip(&mut cache, 1, target, Packet::from_bytes(vec![1]), 0);
    assert!(matches!(first, ArpResolveResult::Pending));
    let (second, send) = resolve_ip(&mut cache, 1, target, Packet::from_bytes(vec![2]), 0);
    assert!(!send);
    assert!(matches!(second, ArpResolveResult::Failed(CoreError::InvalidPacket(_))));
}

#[test]
fn arp_request_frame_layout() {
    let frame = arp_request_frame(mac(1), ip(10, 0, 0, 1), ip(10, 0, 0, 2));
    assert_eq!(frame.len(), 42);
    assert_eq!(&frame[0..6], &[0xff; 6]);
    assert_eq!(&frame[6..12], &mac(1).bytes);
    assert_eq!(&frame[12..14], &[0x08, 0x06]);
    assert_eq!(&frame[20..22], &[0, 1]);
    assert_eq!(&frame[32..38], &[0; 6]);
    assert_eq!(&frame[38..42], &[10, 0, 0, 2]);
}

#[test]
fn arp_output_reply_frame() {
    let reply = ArpPacket::new(ArpOperation::Reply, mac(1), ip(10, 0, 0, 1), mac(9), ip(10, 0, 0, 9));
    let handled = ArpHandleResult::with_reply(reply);
    let (frames, result) = arp_output(&handled, mac(9), mac(1), mac(9));
    assert!(frames.is_empty());
    match result {
        ArpProcessResult::Reply(f) => {
            assert_eq!(f.len(), 42);
            assert_eq!(&f[0..6], &mac(9).bytes);
            assert_eq!(&f[12..14], &[0x08, 0x06]);
        },
        other => panic!("unexpected {:?}", other),
    }
}

#[test]
fn gratuitous_conflict_names_both_addresses() {
    let mut cache = ArpCache::new(ArpConfig::default());
    cache.update_arp(1, ip(10, 0, 0, 7), mac(7), ArpState::Reachable, 0);
    let garp = ArpPacket::new(ArpOperation::Request, mac(8), ip(10, 0, 0, 7), MacAddr::new([0; 6]), ip(10, 0, 0, 7));
    match handle_arp_packet(&mut cache, 1, &garp, &[ip(10, 0, 0, 1)], mac(1), 5) {
        Err(CoreError::IpConflict(m)) => {
            assert_eq!(m, "IP地址冲突: 10.0.0.7 (新MAC: 02:00:00:00:00:08, 现有MAC: 02:00:00:00:00:07)")
        },
        other => panic!("unexpected {:?}", other.is_ok()),
    }
    assert_eq!(cache.lookup_arp(1, ip(10, 0, 0, 7)).unwrap().hardware_addr, mac(7));
}
