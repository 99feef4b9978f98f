use core_net::common::addr::Ipv6Addr;
use core_net::protocols::common::addr::MacAddr;
use core_net::protocols::common::packet::Packet;
use core_net::protocols::icmpv6::{
    calculate_checksum, calculate_icmpv6_checksum, process_icmpv6_packet, solicited_node_multicast,
    verify_icmpv6_checksum, DestUnreachableCode, Icmpv6Config, Icmpv6Context, Icmpv6DestUnreachable,
    Icmpv6Echo, Icmpv6Error, Icmpv6Header, Icmpv6NeighborAdvertisement, Icmpv6NeighborSolicitation,
    Icmpv6Option, Icmpv6OptionType, Icmpv6Packet, Icmpv6ProcessResult, Icmpv6PseudoHeader,
    Icmpv6RouterAdvertisement, Icmpv6Type, NeighborCache, NeighborCacheState,
};

#[test]
fn test_icmpv6_type_from_u8() {
    assert_eq!(Icmpv6Type::from_u8(1), Some(Icmpv6Type::DestinationUnreachable));
    assert_eq!(Icmpv6Type::from_u8(128), Some(Icmpv6Type::EchoRequest));
    assert_eq!(Icmpv6Type::from_u8(129), Some(Icmpv6Type::EchoReply));
    assert_eq!(Icmpv6Type::from_u8(135), Some(Icmpv6Type::NeighborSolicitation));
    assert_eq!(Icmpv6Type::from_u8(136), Some(Icmpv6Type::NeighborAdvertisement));
    assert_eq!(Icmpv6Type::from_u8(255), None);
}

#[test]
fn test_icmpv6_type_properties() {
    assert!(Icmpv6Type::DestinationUnreachable.is_error_message());
    assert!(Icmpv6Type::PacketTooBig.is_error_message());
    assert!(Icmpv6Type::EchoRequest.is_informational());
    assert!(Icmpv6Type::EchoReply.is_informational());
}

#[test]
fn test_dest_unreachable_code() {
    assert_eq!(DestUnreachableCode::from_u8(0), Some(DestUnreachableCode::NoRoute));
    assert_eq!(DestUnreachableCode::from_u8(4), Some(DestUnreachableCode::PortUnreachable));
    assert_eq!(DestUnreachableCode::from_u8(7), None);
}

#[test]
fn test_neighbor_cache_state() {
    assert_eq!(NeighborCacheState::from_u8(0), Some(NeighborCacheState::Incomplete));
    assert_eq!(NeighborCacheState::from_u8(1), Some(NeighborCacheState::Reachable));
    assert_eq!(NeighborCacheState::from_u8(2), Some(NeighborCacheState::Stale));
}

#[test]
fn test_solicited_node_multicast() {
    let target = [0x20, 0x01, 0x0d, 0xb8, 0x00, 0x00, 0x00, 0x00, 0x00, 0x00, 0x00, 0x00, 0x00, 0x01, 0x02, 0x03];
    let mc = solicited_node_multicast(&target);
    assert_eq!(mc[0], 0xff);
    assert_eq!(mc[1], 0x02);
    assert_eq!(mc[13..], target[13..]);
}

#[test]
fn test_pseudo_header() {
    let src = Ipv6Addr::new(0xfe80, 0, 0, 0, 0, 0, 0, 1);
    let dst = Ipv6Addr::new(0xfe80, 0, 0, 0, 0, 0, 0, 2);
    let pseudo = Icmpv6PseudoHeader::new(src, dst, 8);
    let bytes = pseudo.to_bytes();
    assert_eq!(&bytes[0..16], &src.bytes[..]);
    assert_eq!(&bytes[16..32], &dst.bytes[..]);
    assert_eq!(u32::from_be_bytes([bytes[32], bytes[33], bytes[34], bytes[35]]), 8);
    assert_eq!(bytes[39], 58);
}

#[test]
fn icmpv6_checksum_test_calculate_checksum() {
    let data = vec![0x01, 0x02, 0x03, 0x04, 0x05, 0x06];
    let checksum = calculate_checksum(&data);
    assert_ne!(checksum, 0);
    // The complement of 0x0102 + 0x0304 + 0x0506.
    assert_eq!(checksum, 0xf6f3);
}

#[test]
fn test_calculate_icmpv6_checksum() {
    let src = Ipv6Addr::new(0xfe80, 0, 0, 0, 0, 0, 0, 1);
    let dst = Ipv6Addr::new(0xfe80, 0, 0, 0, 0, 0, 0, 2);
    let mut icmp_data = vec![128, 0, 0, 0, 0x12, 0x34, 0x00, 0x01];
    let checksum = calculate_icmpv6_checksum(src, dst, &icmp_data);
    assert_eq!(checksum, 0x7083);
    icmp_data[2] = (checksum >> 8) as u8;
    icmp_data[3] = (checksum & 0xFF) as u8;
    assert!(verify_icmpv6_checksum(src, dst, &icmp_data, 2));
}

#[test]
fn icmpv6_checksum_rejects_changed_byte() {
    let src = Ipv6Addr::new(0xfe80, 0, 0, 0, 0, 0, 0, 1);
    let dst = Ipv6Addr::new(0xfe80, 0, 0, 0, 0, 0, 0, 2);
    let mut icmp_data = vec![128, 0, 0, 0, 0x12, 0x34, 0x00, 0x01];
    let checksum = calculate_icmpv6_checksum(src, dst, &icmp_data);
    icmp_data[2] = (checksum >> 8) as u8;
    icmp_data[3] = (checksum & 0xFF) as u8;
    icmp_data[5] ^= 0x01;
    assert!(!verify_icmpv6_checksum(src, dst, &icmp_data, 2));
    assert!(!verify_icmpv6_checksum(src, dst, &icmp_data[..1], 2));
}

#[test]
fn icmpv6_config_test_default_config() {
    let config = Icmpv6Config::default();
    assert!(config.enable_echo_reply);
    assert!(config.accept_router_advertisements);
    assert!(config.enable_dad);
    assert!(!config.accept_redirects);
    assert!(config.verify_hop_limit);
    assert_eq!(config.max_neighbor_cache_entries, 256);
    assert_eq!(config.echo_timeout_ms, 1000);
}

#[test]
fn icmpv6_error_test_error_display() {
    let err = Icmpv6Error::ParseError("test error".to_string());
    assert_eq!(err.to_string(), "解析错误: test error");
    let err = Icmpv6Error::ChecksumError;
    assert_eq!(err.to_string(), "校验和错误");
    let err = Icmpv6Error::UnsupportedMessageType(255);
    assert_eq!(err.to_string(), "不支持的消息类型: 255");
    assert_eq!(Icmpv6Error::UnsupportedMessageType(0).to_string(), "不支持的消息类型: 0");
}

#[test]
fn test_neighbor_cache_basic() {
    let mut cache = NeighborCache::new(10);
    let ip = Ipv6Addr::new(0xfe80, 0, 0, 0, 0, 0, 0, 1);
    let mac = MacAddr::new([0x00, 0x11, 0x22, 0x33, 0x44, 0x55]);
    cache.update(ip, mac);
    assert_eq!(cache.lookup(&ip), Some(mac));
}

#[test]
fn test_neighbor_cache_update() {
    let mut cache = NeighborCache::new(10);
    let ip = Ipv6Addr::new(0xfe80, 0, 0, 0, 0, 0, 0, 1);
    let mac1 = MacAddr::new([0x00, 0x11, 0x22, 0x33, 0x44, 0x55]);
    let mac2 = MacAddr::new([0x00, 0x11, 0x22, 0x33, 0x44, 0x66]);
    cache.update(ip, mac1);
    cache.update(ip, mac2);
    assert_eq!(cache.lookup(&ip), Some(mac2));
    assert_eq!(cache.len(), 1);
}

#[test]
fn neighbor_cache_evicts_oldest_when_full() {
    let mut cache = NeighborCache::new(2);
    let a = Ipv6Addr::new(0xfe80, 0, 0, 0, 0, 0, 0, 1);
    let b = Ipv6Addr::new(0xfe80, 0, 0, 0, 0, 0, 0, 2);
    let c = Ipv6Addr::new(0xfe80, 0, 0, 0, 0, 0, 0, 3);
    let mac = MacAddr::new([1, 2, 3, 4, 5, 6]);
    cache.update(a, mac);
    cache.update(b, mac);
    cache.update(c, mac);
    assert_eq!(cache.len(), 2);
    assert_eq!(cache.lookup(&a), None);
    assert_eq!(cache.lookup(&b), Some(mac));
    assert_eq!(cache.lookup(&c), Some(mac));
    cache.remove(&b);
    assert_eq!(cache.lookup(&b), None);
    assert_eq!(cache.len(), 1);
    cache.clear();
    assert!(cache.is_empty());
}

#[test]
fn test_icmpv6_header() {
    let header = Icmpv6Header { type_: 128, code: 0, checksum: 0x1234 };
    let bytes = header.to_bytes();
    assert_eq!(bytes[0], 128);
    assert_eq!(bytes[1], 0);
    assert_eq!(bytes[2], 0x12);
    assert_eq!(bytes[3], 0x34);
    assert_eq!(Icmpv6Header::from_bytes(&bytes).unwrap(), header);
    assert!(matches!(Icmpv6Header::from_bytes(&bytes[..3]), Err(Icmpv6Error::ParseError(_))));
}

#[test]
fn icmpv6_packet_test_echo_encode_decode() {
    let echo = Icmpv6Echo::new_request(1234, 1, vec![0x42; 32]);
    let bytes = echo.to_bytes();
    assert_eq!(bytes[0], 128);
    assert_eq!(bytes[1], 0);
    let mut packet = Packet::from_bytes(bytes);
    let decoded = Icmpv6Echo::from_packet(&mut packet).unwrap();
    assert_eq!(decoded.type_, 128);
    assert_eq!(decoded.identifier, 1234);
    assert_eq!(decoded.sequence, 1);
}

#[test]
fn icmpv6_packet_test_echo_make_reply() {
    let request = Icmpv6Echo::new_request(1234, 1, vec![0x42; 32]);
    let reply = request.make_reply();
    assert_eq!(reply.type_, 129);
    assert_eq!(reply.identifier, 1234);
    assert_eq!(reply.sequence, 1);
    assert_eq!(reply.data, request.data);
    assert!(reply.is_reply());
    assert!(!reply.is_request());
}

#[test]
fn icmpv6_echo_rejects_bad_code_and_short_input() {
    let mut packet = Packet::from_bytes(vec![128, 1, 0, 0, 0, 1, 0, 1]);
    assert!(matches!(Icmpv6Echo::from_packet(&mut packet), Err(Icmpv6Error::InvalidPacket(_))));
    let mut packet = Packet::from_bytes(vec![128, 0, 0, 0]);
    assert!(matches!(Icmpv6Echo::from_packet(&mut packet), Err(Icmpv6Error::ParseError(_))));
}

#[test]
fn test_neighbor_solicitation() {
    let target = Ipv6Addr::new(0xfe80, 0, 0, 0, 0, 0, 0, 1);
    let ns = Icmpv6NeighborSolicitation::new(target);
    assert_eq!(ns.type_, 135);
    assert_eq!(ns.target_address, target);
}

#[test]
fn test_neighbor_advertisement_flags() {
    let target = Ipv6Addr::new(0xfe80, 0, 0, 0, 0, 0, 0, 1);
    let na = Icmpv6NeighborAdvertisement::new(target, true, true, false);
    assert!(na.router_flag());
    assert!(na.solicited_flag());
    assert!(!na.override_flag());
}

#[test]
fn test_icmpv6_option() {
    let mac = [0x00, 0x11, 0x22, 0x33, 0x44, 0x55];
    let opt = Icmpv6Option::source_link_layer_addr(&mac);
    let bytes = opt.to_bytes();
    assert_eq!(bytes[0], 1);
    assert_eq!(bytes[1], 1);
    assert_eq!(&bytes[2..8], &mac[..]);
    assert_eq!(bytes.len(), 8);
    assert_eq!(opt.get_type(), Some(Icmpv6OptionType::SourceLinkLayerAddr));
}

#[test]
fn icmpv6_option_padding() {
    let opt = Icmpv6Option { option_type: 25, option_length: 0, data: vec![1, 2, 3, 4, 5, 6, 7] };
    let bytes = opt.to_bytes();
    assert_eq!(bytes.len(), 16);
    assert_eq!(bytes[1], 2);
    assert_eq!(&bytes[9..], &[0u8; 7][..]);
}

#[test]
fn icmpv6_neighbor_advertisement_roundtrip() {
    let target = Ipv6Addr::new(0xfe80, 0, 0, 0, 0, 0, 0, 9);
    let mut na = Icmpv6NeighborAdvertisement::new(target, false, true, true);
    na.options.push(Icmpv6Option::target_link_layer_addr(&[1, 2, 3, 4, 5, 6]));
    let bytes = na.to_bytes();
    assert_eq!(bytes.len(), 32);
    let mut packet = Packet::from_bytes(bytes);
    match Icmpv6Packet::from_packet(&mut packet).unwrap() {
        Icmpv6Packet::NeighborAdvertisement(d) => {
            assert_eq!(d.target_address, target);
            assert!(d.solicited_flag() && d.override_flag() && !d.router_flag());
            assert_eq!(d.options.len(), 1);
            assert_eq!(d.options[0].data, vec![1, 2, 3, 4, 5, 6]);
        }
        _ => panic!("wrong message kind"),
    }
}

#[test]
fn icmpv6_packet_dispatch_errors() {
    let mut packet = Packet::from_bytes(vec![200, 0, 0, 0]);
    assert_eq!(Icmpv6Packet::from_packet(&mut packet), Err(Icmpv6Error::UnsupportedMessageType(200)));
    let mut packet = Packet::from_bytes(vec![1, 9, 0, 0, 0, 0, 0, 0]);
    assert!(matches!(Icmpv6Packet::from_packet(&mut packet), Err(Icmpv6Error::InvalidPacket(_))));
    let mut packet = Packet::from_bytes(vec![134, 0, 0, 0]);
    assert!(matches!(Icmpv6Packet::from_packet(&mut packet), Err(Icmpv6Error::ParseError(_))));
    let mut packet = Packet::from_bytes(vec![1, 3, 0, 0, 0, 0, 0, 0, 0x60]);
    match Icmpv6Packet::from_packet(&mut packet).unwrap() {
        Icmpv6Packet::DestUnreachable(d) => {
            assert_eq!(d.code, 3);
            assert_eq!(d.original_datagram, vec![0x60]);
            let again = Icmpv6DestUnreachable::from_packet(&mut Packet::from_bytes(d.to_bytes())).unwrap();
            assert_eq!(again.original_datagram, vec![0x60]);
        }
        _ => panic!("wrong message kind"),
    }
}

#[test]
fn icmpv6_router_advertisement_flags() {
    let mut bytes = vec![134, 0, 0, 0, 64, 0xc0, 0x07, 0x08, 0, 0, 0, 1, 0, 0, 0, 2];
    bytes.extend_from_slice(&[5, 1, 0, 0, 0, 0, 0x05, 0xdc]);
    let mut packet = Packet::from_bytes(bytes);
    let ra = Icmpv6RouterAdvertisement::from_packet(&mut packet).unwrap();
    assert!(ra.managed_flag());
    assert!(ra.other_flag());
    assert!(!ra.home_agent_flag());
    assert_eq!(ra.lifetime, 0x0708);
    assert_eq!(ra.options.len(), 1);
    assert_eq!(ra.options[0].get_type(), Some(Icmpv6OptionType::Mtu));
}

fn with_v6_checksum(src: Ipv6Addr, dst: Ipv6Addr, mut data: Vec<u8>) -> Vec<u8> {
    data[2] = 0;
    data[3] = 0;
    let checksum = calculate_icmpv6_checksum(src, dst, &data);
    data[2] = (checksum >> 8) as u8;
    data[3] = (checksum & 0xff) as u8;
    data
}

#[test]
fn icmpv6_process_echo_request_and_bad_checksum() {
    let src = Ipv6Addr::new(0xfe80, 0, 0, 0, 0, 0, 0, 1);
    let dst = Ipv6Addr::new(0xfe80, 0, 0, 0, 0, 0, 0, 2);
    let mut context = Icmpv6Context::new(Icmpv6Config::default());
    let request = with_v6_checksum(src, dst, vec![128, 0, 0, 0, 0x12, 0x34, 0, 7, 0xaa]);
    let result = process_icmpv6_packet(Packet::from_bytes(request.clone()), src, dst, 64, None, &mut context).unwrap();
    match result {
        Icmpv6ProcessResult::Reply(bytes) => {
            assert_eq!(bytes[0], 129);
            assert_eq!(&bytes[4..], &[0x12, 0x34, 0, 7, 0xaa][..]);
            assert!(verify_icmpv6_checksum(dst, src, &bytes, 2));
        }
        other => panic!("unexpected {:?}", other),
    }
    let mut bad = request;
    bad[8] = 0xab;
    let result = process_icmpv6_packet(Packet::from_bytes(bad), src, dst, 64, None, &mut context).unwrap();
    assert_eq!(result, Icmpv6ProcessResult::NoReply);
}

#[test]
fn icmpv6_process_neighbor_discovery() {
    let src = Ipv6Addr::new(0xfe80, 0, 0, 0, 0, 0, 0, 1);
    let dst = Ipv6Addr::new(0xfe80, 0, 0, 0, 0, 0, 0, 2);
    let our_mac = MacAddr::new([0x02, 0, 0, 0, 0, 0x01]);
    let mut context = Icmpv6Context::default();
    let ns = Icmpv6NeighborSolicitation::new(dst).to_bytes();
    let ns = with_v6_checksum(src, dst, ns);
    let low_hop = process_icmpv6_packet(Packet::from_bytes(ns.clone()), src, dst, 64, Some(our_mac), &mut context).unwrap();
    assert_eq!(low_hop, Icmpv6ProcessResult::NoReply);
    assert!(context.neighbor_cache.is_empty());
    match process_icmpv6_packet(Packet::from_bytes(ns), src, dst, 255, Some(our_mac), &mut context).unwrap() {
        Icmpv6ProcessResult::Reply(bytes) => {
            assert_eq!(bytes[0], 136);
            assert_eq!(bytes[4], 0x40);
            assert_eq!(&bytes[24..26], &[2, 1]);
        }
        other => panic!("unexpected {:?}", other),
    }
    assert_eq!(context.neighbor_cache.lookup(&src), Some(our_mac));

    let peer_mac = [0x02, 0, 0, 0, 0, 0x09];
    let mut na = Icmpv6NeighborAdvertisement::new(src, false, true, false);
    na.options.push(Icmpv6Option::target_link_layer_addr(&peer_mac));
    let na = with_v6_checksum(dst, src, na.to_bytes());
    let r = process_icmpv6_packet(Packet::from_bytes(na), dst, src, 255, None, &mut context).unwrap();
    assert_eq!(r, Icmpv6ProcessResult::Processed);
    assert_eq!(context.neighbor_cache.lookup(&dst), Some(MacAddr::new(peer_mac)));
}

#[test]
fn test_config_const() {
    let config = core_net::protocols::icmpv6::config::icmpv6_config_default();
    assert!(config.enable_echo_reply);
    assert!(config.accept_router_advertisements);
    assert_eq!(config.max_neighbor_cache_entries, 256);
}
