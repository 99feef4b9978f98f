use core_net::common::addr::Ipv6Addr;
use core_net::common::error::CoreError;
use core_net::protocols::common::packet::Packet;
use core_net::protocols::ipv6::{
    create_fragments, encapsulate_ipv6_packet, process_ipv6_packet, FragmentCache, FragmentInfo, IpProtocol,
    Ipv6Config, Ipv6Error, Ipv6Header, Ipv6ProcessResult, ReassemblyEntry, ReassemblyError, ReassemblyKey,
    DEFAULT_HOP_LIMIT, IPV6_HEADER_LEN, IPV6_MIN_MTU, IPV6_VERSION,
};

fn addr(last: u16) -> Ipv6Addr {
    Ipv6Addr::new(0x2001, 0xdb8, 0, 0, 0, 0, 0, last)
}

#[test]
fn test_config_default() {
    let config = Ipv6Config::default();
    assert_eq!(config.default_hop_limit, 64);
    assert_eq!(config.min_mtu, 1280);
    assert_eq!(config.max_packet_size, 65535);
    assert!(!config.enable_fragmentation);
    assert!(!config.enable_reassembly);
    assert_eq!(config.max_reassembly_entries, 256);
    assert_eq!(config.reassembly_timeout, 60);
}

#[test]
fn test_config_builders() {
    let config = Ipv6Config::new().with_enable_fragmentation(true).with_enable_reassembly(true);
    assert!(config.enable_fragmentation);
    assert!(config.enable_reassembly);
}

#[test]
fn ipv6_error_test_error_display() {
    let err = Ipv6Error::invalid_version(4);
    assert!(err.to_string().contains("版本无效"));
    assert_eq!(err.to_string(), "IPv6版本无效: 期望=6, 发现=4");
    let err = Ipv6Error::unsupported_protocol(99);
    assert!(err.to_string().contains("协议不支持"));
    let err = Ipv6Error::extension_header_not_supported(0);
    assert!(err.to_string().contains("扩展头不支持"));
    assert_eq!(Ipv6Error::packet_too_large(1500, 1280).to_string(), "IPv6数据包过大: 长度=1500, MTU=1280");
}

#[test]
fn ipv6_error_test_error_to_core_error() {
    let ipv6_err = Ipv6Error::unsupported_protocol(6);
    let core_err: CoreError = ipv6_err.to_core_error();
    match core_err {
        CoreError::UnsupportedProtocol(msg) => {
            assert!(msg.contains("协议不支持"));
        }
        _ => panic!("Expected UnsupportedProtocol"),
    }
    assert!(matches!(Ipv6Error::hop_limit_exceeded(0).to_core_error(), CoreError::InvalidPacket(_)));
}

#[test]
fn test_ipv6_header_constants() {
    assert_eq!(IPV6_VERSION, 6);
    assert_eq!(IPV6_HEADER_LEN, 40);
    assert_eq!(IPV6_MIN_MTU, 1280);
    assert_eq!(DEFAULT_HOP_LIMIT, 64);
}

#[test]
fn test_ipv6_header_new() {
    let src = addr(1);
    let dst = addr(2);
    let header = Ipv6Header::new(src, dst, 64, IpProtocol::IcmpV6, 64);
    assert_eq!(header.version, 6);
    assert_eq!(header.next_header, IpProtocol::IcmpV6);
    assert_eq!(header.source_addr, src);
    assert_eq!(header.destination_addr, dst);
    assert_eq!(header.payload_length, 64);
    assert_eq!(header.hop_limit, 64);
}

#[test]
fn test_ipv6_header_encode_decode() {
    let src = addr(1);
    let dst = addr(2);
    let header = Ipv6Header::new(src, dst, 64, IpProtocol::IcmpV6, 64);
    let bytes = header.to_bytes();
    assert_eq!(bytes[0] >> 4, 6);
    assert_eq!(bytes[6], 58);
    assert_eq!(bytes[7], 64);
    let mut packet = Packet::from_bytes(bytes.to_vec());
    let decoded = Ipv6Header::from_packet(&mut packet).unwrap();
    assert_eq!(decoded.source_addr, src);
    assert_eq!(decoded.destination_addr, dst);
    assert_eq!(decoded.next_header, IpProtocol::IcmpV6);
    assert_eq!(decoded, header);
}

#[test]
fn test_ipv6_header_flow_label() {
    let header = Ipv6Header::with_flow_label(addr(1), addr(2), 64, IpProtocol::IcmpV6, 64, 0x12345);
    assert_eq!(header.flow_label, 0x12345);
    let bytes = header.to_bytes();
    let decoded_flow = (((bytes[1] & 0x0F) as u32) << 16) | ((bytes[2] as u32) << 8) | (bytes[3] as u32);
    assert_eq!(decoded_flow, 0x12345);
    let wide = Ipv6Header::with_flow_label(addr(1), addr(2), 64, IpProtocol::IcmpV6, 64, 0xfff12345);
    assert_eq!(wide.flow_label, 0x12345);
}

#[test]
fn test_ipv6_header_set_traffic_class() {
    let mut header = Ipv6Header::new(Ipv6Addr::unspecified(), Ipv6Addr::unspecified(), 0, IpProtocol::IcmpV6, 64);
    header.set_traffic_class(0xAB);
    assert_eq!(header.traffic_class, 0xAB);
    let bytes = header.to_bytes();
    let tc = ((bytes[0] & 0x0F) << 4) | (bytes[1] >> 4);
    assert_eq!(tc, 0xAB);
    header.set_flow_label(0x1fffff);
    assert_eq!(header.flow_label, 0xfffff);
}

#[test]
fn test_ipv6_invalid_version() {
    let mut bytes = [0u8; 40];
    bytes[0] = 4 << 4;
    let mut packet = Packet::from_bytes(bytes.to_vec());
    let result = Ipv6Header::from_packet(&mut packet);
    assert!(result.is_err());
    assert!(matches!(result, Err(CoreError::UnsupportedProtocol(_))));
    let mut short = Packet::from_bytes(vec![0x60; 39]);
    assert!(matches!(Ipv6Header::from_packet(&mut short), Err(CoreError::InvalidPacket(_))));
}

#[test]
fn test_encapsulate_ipv6_packet() {
    let payload = vec![0x80, 0x00, 0x00, 0x00];
    let packet = encapsulate_ipv6_packet(addr(1), addr(2), IpProtocol::IcmpV6, &payload, 64);
    assert_eq!(packet[0] >> 4, 6);
    assert_eq!(u16::from_be_bytes([packet[4], packet[5]]), 4);
    assert_eq!(packet[6], 58);
    assert_eq!(packet[7], 64);
    assert_eq!(&packet[40..], &payload[..]);
}

#[test]
fn ipv6_process_delivers_local_icmpv6() {
    let payload = vec![0x80, 0, 0, 0, 1, 2];
    let bytes = encapsulate_ipv6_packet(addr(1), addr(2), IpProtocol::IcmpV6, &payload, 64);
    let mut packet = Packet::from_bytes(bytes.clone());
    match process_ipv6_packet(&mut packet, Some(addr(2))).unwrap() {
        Ipv6ProcessResult::DeliverToProtocol { header, data } => {
            assert_eq!(header.source_addr, addr(1));
            assert_eq!(data, payload);
        }
        other => panic!("unexpected {:?}", other),
    }
    let mut packet = Packet::from_bytes(bytes.clone());
    assert_eq!(process_ipv6_packet(&mut packet, Some(addr(3))).unwrap(), Ipv6ProcessResult::NoReply);
    let mut packet = Packet::from_bytes(bytes);
    assert_eq!(process_ipv6_packet(&mut packet, None).unwrap(), Ipv6ProcessResult::NoReply);
    let tcp = encapsulate_ipv6_packet(addr(1), addr(2), IpProtocol::Tcp, &payload, 64);
    let mut packet = Packet::from_bytes(tcp);
    assert_eq!(process_ipv6_packet(&mut packet, Some(addr(2))).unwrap(), Ipv6ProcessResult::NoReply);
}

#[test]
fn ipv6_process_errors() {
    let payload = vec![1, 2, 3];
    let zero_hop = encapsulate_ipv6_packet(addr(1), addr(2), IpProtocol::IcmpV6, &payload, 0);
    let mut packet = Packet::from_bytes(zero_hop);
    assert!(matches!(process_ipv6_packet(&mut packet, Some(addr(2))), Err(Ipv6Error::HopLimitExceeded { hop_limit: 0 })));
    let mut short = Packet::from_bytes(vec![0x60; 10]);
    assert!(matches!(
        process_ipv6_packet(&mut short, Some(addr(2))),
        Err(Ipv6Error::PacketTooShort { expected: 40, found: 10 })
    ));
    let mut truncated = encapsulate_ipv6_packet(addr(1), addr(2), IpProtocol::IcmpV6, &payload, 64);
    truncated.pop();
    let mut packet = Packet::from_bytes(truncated);
    assert!(matches!(
        process_ipv6_packet(&mut packet, Some(addr(2))),
        Err(Ipv6Error::PacketTooShort { expected: 3, found: 2 })
    ));
    let multicast_src = Ipv6Addr::new(0xff02, 0, 0, 0, 0, 0, 0, 1);
    let bytes = encapsulate_ipv6_packet(multicast_src, addr(2), IpProtocol::IcmpV6, &payload, 64);
    let mut packet = Packet::from_bytes(bytes);
    assert!(matches!(process_ipv6_packet(&mut packet, Some(addr(2))), Err(Ipv6Error::InvalidSourceAddress { .. })));
}

#[test]
fn protocol_test_protocol_from_u8() {
    assert_eq!(IpProtocol::from(58), IpProtocol::IcmpV6);
    assert_eq!(IpProtocol::from(6), IpProtocol::Tcp);
    assert_eq!(IpProtocol::from(17), IpProtocol::Udp);
    assert_eq!(IpProtocol::from(255), IpProtocol::Unknown(255));
}

#[test]
fn protocol_test_protocol_to_u8() {
    assert_eq!(u8::from(IpProtocol::IcmpV6), 58);
    assert_eq!(u8::from(IpProtocol::Tcp), 6);
    assert_eq!(u8::from(IpProtocol::Udp), 17);
    assert_eq!(u8::from(IpProtocol::Unknown(99)), 99);
}

#[test]
fn test_is_extension_header() {
    assert!(IpProtocol::HopByHopOptions.is_extension_header());
    assert!(IpProtocol::Ipv6Route.is_extension_header());
    assert!(IpProtocol::Ipv6Fragment.is_extension_header());
    assert!(IpProtocol::Esp.is_extension_header());
    assert!(IpProtocol::Ah.is_extension_header());
    assert!(IpProtocol::Ipv6DestOptions.is_extension_header());
    assert!(!IpProtocol::IcmpV6.is_extension_header());
    assert!(!IpProtocol::Tcp.is_extension_header());
    assert!(!IpProtocol::Udp.is_extension_header());
}

#[test]
fn test_is_upper_layer() {
    assert!(IpProtocol::Tcp.is_upper_layer());
    assert!(IpProtocol::Udp.is_upper_layer());
    assert!(IpProtocol::IcmpV6.is_upper_layer());
    assert!(IpProtocol::Icmp.is_upper_layer());
    assert!(!IpProtocol::HopByHopOptions.is_upper_layer());
    assert!(!IpProtocol::Ipv6Route.is_upper_layer());
}

#[test]
fn protocol_test_is_supported() {
    assert!(IpProtocol::IcmpV6.is_supported());
    assert!(!IpProtocol::Tcp.is_supported());
    assert!(!IpProtocol::Udp.is_supported());
    assert_eq!(IpProtocol::Unknown(7).name(), "Unknown");
    assert_eq!(IpProtocol::IcmpV6.name(), "ICMPv6");
}

fn key() -> ReassemblyKey {
    ReassemblyKey::new(Ipv6Addr::unspecified(), Ipv6Addr::unspecified(), 12345)
}

#[test]
fn test_reassembly_key() {
    let src = addr(1);
    let dst = addr(2);
    let key = ReassemblyKey::new(src, dst, 12345);
    assert_eq!(key.source_addr, src);
    assert_eq!(key.dest_addr, dst);
    assert_eq!(key.identification, 12345);
}

#[test]
fn test_fragment_info_overlap() {
    let frag1 = FragmentInfo::new(0, true, vec![1u8; 16]);
    let frag2 = FragmentInfo::new(2, true, vec![2u8; 16]);
    assert!(!frag1.overlaps_with(&frag2));
    let frag3 = FragmentInfo::new(1, true, vec![3u8; 16]);
    assert!(frag1.overlaps_with(&frag3));
    assert_eq!(frag3.end_offset(), 24);
}

#[test]
fn test_reassembly_entry() {
    let mut entry = ReassemblyEntry::new(key(), 0);
    let frag1 = FragmentInfo::new(0, true, vec![1u8; 16]);
    let frag2 = FragmentInfo::new(2, false, vec![2u8; 8]);
    assert!(entry.add_fragment(frag1).is_ok());
    assert!(entry.add_fragment(frag2).is_ok());
    assert_eq!(entry.total_length, Some(24));
}

#[test]
fn test_reassembly_complete() {
    let mut entry = ReassemblyEntry::new(key(), 0);
    entry.add_fragment(FragmentInfo::new(2, false, vec![2u8; 8])).unwrap();
    assert!(!entry.is_complete());
    entry.add_fragment(FragmentInfo::new(0, true, vec![1u8; 16])).unwrap();
    assert!(entry.is_complete());
    let reassembled = entry.reassemble().unwrap();
    assert_eq!(reassembled.len(), 24);
    assert_eq!(&reassembled[0..16], &[1u8; 16]);
    assert_eq!(&reassembled[16..24], &[2u8; 8]);
}

#[test]
fn test_reassembly_overlap_detection() {
    let mut entry = ReassemblyEntry::new(key(), 0);
    entry.add_fragment(FragmentInfo::new(0, true, vec![1u8; 16])).unwrap();
    let result = entry.add_fragment(FragmentInfo::new(1, true, vec![2u8; 16]));
    assert!(result.is_err());
    assert_eq!(result, Err(ReassemblyError::FragmentOverlap { offset: 1, existing_offset: 0 }));
    assert_eq!(entry.fragments.len(), 1);
}

#[test]
fn reassembly_inconsistent_total_and_incomplete() {
    let mut entry = ReassemblyEntry::new(key(), 0);
    entry.add_fragment(FragmentInfo::new(2, false, vec![2u8; 8])).unwrap();
    assert_eq!(
        entry.add_fragment(FragmentInfo::new(4, false, vec![2u8; 8])),
        Err(ReassemblyError::InconsistentTotalLength { expected: 24, found: 40 })
    );
    assert_eq!(entry.reassemble(), Err(ReassemblyError::Incomplete));
    assert_eq!(
        ReassemblyError::FragmentOverlap { offset: 1, existing_offset: 0 }.to_string(),
        "分片重叠: 偏移 1 与 0 重叠"
    );
}

#[test]
fn test_fragment_cache() {
    let mut cache = FragmentCache::new(2);
    let result = cache.add_fragment(key(), FragmentInfo::new(0, true, vec![1u8; 16]), 0).unwrap();
    assert!(result.is_none());
    assert_eq!(cache.len(), 1);
    let result = cache.add_fragment(key(), FragmentInfo::new(2, false, vec![2u8; 8]), 10).unwrap();
    assert!(result.is_some());
    assert_eq!(cache.len(), 0);
}

#[test]
fn fragment_cache_expiry_and_eviction() {
    let mut cache = FragmentCache::new(1);
    let other = ReassemblyKey::new(addr(1), addr(2), 7);
    cache.add_fragment(key(), FragmentInfo::new(0, true, vec![1u8; 8]), 0).unwrap();
    cache.add_fragment(other, FragmentInfo::new(0, true, vec![1u8; 8]), 5).unwrap();
    assert_eq!(cache.len(), 1);
    cache.cleanup_expired(60_006);
    assert!(cache.is_empty());
    cache.add_fragment(key(), FragmentInfo::new(0, true, vec![1u8; 8]), 70_000).unwrap();
    cache.clear();
    assert!(cache.is_empty());
}

#[test]
fn test_create_fragments() {
    let data = vec![1u8; 100];
    let fragments = create_fragments(&data, 60, 12345, 58);
    assert_eq!(fragments.len(), 3);
    assert_eq!(fragments[0].0, 0);
    assert!(fragments[0].1);
    assert_eq!(fragments[0].2.len(), 48);
    assert_eq!(fragments[1].0, 6);
    assert!(fragments[1].1);
    assert_eq!(fragments[1].2.len(), 48);
    assert_eq!(fragments[2].0, 12);
    assert!(!fragments[2].1);
    assert_eq!(fragments[2].2.len(), 4);
}

#[test]
fn test_create_fragments_no_fragmentation_needed() {
    let data = vec![1u8; 20];
    let fragments = create_fragments(&data, 60, 12345, 58);
    assert_eq!(fragments.len(), 1);
    assert_eq!(fragments[0].0, 0);
    assert!(!fragments[0].1);
    assert_eq!(fragments[0].2.len(), 20);
    assert_eq!(create_fragments(&data, 12, 1, 58).len(), 1);
}

#[test]
fn test_reassembly_entry_timeout() {
    let entry = ReassemblyEntry::new(key(), 1_000);
    assert!(!entry.is_expired(1_000));
    assert!(!entry.is_expired(61_000));
    assert!(entry.is_expired(61_001));
}

#[test]
fn ipv6_fragment_then_reassemble() {
    let data: Vec<u8> = (0..100u32).map(|i| (i * 7) as u8).collect();
    let frags = create_fragments(&data, 40, 9, 58);
    assert_eq!(frags.len(), 4);
    let mut entry = ReassemblyEntry::new(key(), 0);
    for (offset, more, piece) in &frags {
        entry.add_fragment(FragmentInfo::new(*offset, *more, piece.clone())).unwrap();
    }
    assert!(entry.is_complete());
    assert_eq!(entry.reassemble().unwrap(), data);
    let joined: Vec<u8> = frags.iter().flat_map(|f| f.2.clone()).collect();
    assert_eq!(joined, data);
}

#[test]
fn reassembly_gap_is_not_complete() {
    let mut entry = ReassemblyEntry::new(key(), 0);
    entry.add_fragment(FragmentInfo::new(1, false, vec![2u8; 8])).unwrap();
    entry.add_fragment(FragmentInfo::new(3, true, vec![3u8; 8])).unwrap();
    assert_eq!(entry.total_length, Some(16));
    assert!(!entry.is_complete());
    assert_eq!(entry.reassemble(), Err(ReassemblyError::Incomplete));
    entry.add_fragment(FragmentInfo::new(0, true, vec![1u8; 8])).unwrap();
    assert!(entry.is_complete());
}

#[test]
fn ipv6_address_text_forms() {
    assert_eq!(Ipv6Addr::new(0xfe80, 0, 0, 0, 0, 0, 0, 1).to_string(), "fe80::1");
    assert_eq!(Ipv6Addr::new(0, 0, 0, 0, 0, 0, 0, 0).to_string(), "::");
    assert_eq!(Ipv6Addr::new(0, 0, 0, 0, 0, 0, 0, 1).to_string(), "::1");
    assert_eq!(Ipv6Addr::new(0x2001, 0xdb8, 0, 1, 0, 0, 0, 1).to_string(), "2001:db8:0:1::1");
    assert_eq!(Ipv6Addr::new(0x2001, 0xdb8, 0, 0, 1, 0, 0, 1).to_string(), "2001:db8::1:0:0:1");
    assert_eq!(Ipv6Addr::new(1, 0, 2, 0, 3, 0, 4, 0xABCD).to_string(), "1:0:2:0:3:0:4:abcd");
    assert_eq!(Ipv6Addr::new(0x2001, 0xdb8, 0, 0, 0, 0, 0, 0).to_string(), "2001:db8::");
}

#[test]
fn ipv6_header_text_and_multicast_source() {
    let h = Ipv6Header::new(addr(1), addr(2), 8, IpProtocol::IcmpV6, 64);
    assert_eq!(h.to_string(), "IPv6 2001:db8::1 -> 2001:db8::2 NextHeader=ICMPv6 HopLimit=64 Len=8");
    let bad = Ipv6Addr::new(0xff02, 0, 0, 0, 0, 0, 0, 1);
    let mut packet = Packet::from_bytes(encapsulate_ipv6_packet(bad, addr(2), IpProtocol::IcmpV6, &[0; 8], 64));
    assert_eq!(
        process_ipv6_packet(&mut packet, Some(addr(2))),
        Err(Ipv6Error::InvalidSourceAddress { addr: "ff02::1".to_string() })
    );
}
