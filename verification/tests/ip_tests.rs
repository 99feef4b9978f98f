use core_net::common::error::CoreError;
use core_net::protocols::common::addr::Ipv4Addr;
use core_net::protocols::common::packet::Packet;
use core_net::protocols::ip::{
    calculate_checksum, verify_checksum, encapsulate_ip_datagram, fragment_datagram, process_ip_packet,
    FragmentInfo, FragmentOverlapPolicy, IpError, IpProcessResult, Ipv4Config, Ipv4Header, Ipv4Protocol,
    ReassemblyEntry, ReassemblyKey, ReassemblyTable, IP_PROTO_ICMP,
};

fn ip(a: u8, b: u8, c: u8, d: u8) -> Ipv4Addr {
    Ipv4Addr::new([a, b, c, d])
}

#[test]
fn checksum_test_calculate_checksum() {
    let data = [
        0x45, 0x00, 0x00, 0x3c, 0x00, 0x00, 0x00, 0x00, 0x40, 0x01, 0x00, 0x00, 0xc0, 0xa8, 0x01, 0x01,
        0xc0, 0xa8, 0x01, 0x02,
    ];
    let checksum = calculate_checksum(&data);
    assert_ne!(checksum, 0);
}

#[test]
fn test_verify_checksum() {
    let mut data = [
        0x45, 0x00, 0x00, 0x3c, 0x00, 0x00, 0x00, 0x00, 0x40, 0x01, 0x00, 0x00, 0xc0, 0xa8, 0x01, 0x01,
        0xc0, 0xa8, 0x01, 0x02,
    ];
    let checksum = calculate_checksum(&data);
    data[10] = (checksum >> 8) as u8;
    data[11] = (checksum & 0xFF) as u8;
    assert!(verify_checksum(&data, 10));
    data[10] = 0xFF;
    assert!(!verify_checksum(&data, 10));
}

#[test]
fn test_odd_length_data() {
    let data = [0x45, 0x00, 0x00, 0x3c, 0x00];
    let checksum = calculate_checksum(&data);
    assert_ne!(checksum, 0xFFFF);
}

#[test]
fn test_checksum_known_value() {
    // RFC 1071 style example: header from a real datagram
    let data = [
        0x45, 0x00, 0x00, 0x73, 0x00, 0x00, 0x40, 0x00, 0x40, 0x11, 0x00, 0x00, 0xc0, 0xa8, 0x00, 0x01,
        0xc0, 0xa8, 0x00, 0xc7,
    ];
    assert_eq!(calculate_checksum(&data), 0xb861);
    assert_eq!(calculate_checksum(&[]), 0xFFFF);
    assert!(!verify_checksum(&[1u8], 0));
}

#[test]
fn config_test_default_config() {
    let config = Ipv4Config::default();
    assert_eq!(config.default_ttl, 64);
    assert_eq!(config.min_mtu, 576);
    assert_eq!(config.default_mtu, 1500);
    assert!(config.verify_checksum);
    assert!(config.process_options);
    assert_eq!(config.icmp_error_rate_limit, 100);
    assert!(config.allow_fragmentation);
    assert!(!config.df_flag);
    assert_eq!(config.reassembly_timeout_secs, 30);
    assert_eq!(config.max_reassembly_entries, 64);
    assert_eq!(config.max_fragments_per_datagram, 16);
    assert!(config.detect_fragment_overlap);
}

#[test]
fn test_config_builder() {
    let config = Ipv4Config::new()
        .with_default_ttl(128)
        .with_min_mtu(1280)
        .with_verify_checksum(false)
        .with_allow_fragmentation(false)
        .with_df_flag(true);
    assert_eq!(config.default_ttl, 128);
    assert_eq!(config.min_mtu, 1280);
    assert!(!config.verify_checksum);
    assert!(!config.allow_fragmentation);
    assert!(config.df_flag);
}

#[test]
fn test_fragmentation_config() {
    let config = Ipv4Config::new()
        .with_reassembly_timeout(60)
        .with_max_reassembly_entries(128)
        .with_max_fragments_per_datagram(32)
        .with_detect_fragment_overlap(false)
        .with_fragment_overlap_policy(FragmentOverlapPolicy::First);
    assert_eq!(config.reassembly_timeout_secs, 60);
    assert_eq!(config.max_reassembly_entries, 128);
    assert_eq!(config.max_fragments_per_datagram, 32);
    assert!(!config.detect_fragment_overlap);
    assert_eq!(config.fragment_overlap_policy, FragmentOverlapPolicy::First);
}

#[test]
fn error_test_error_display() {
    let err = IpError::invalid_version(6);
    assert!(err.to_string().contains("版本无效"));
    let err = IpError::unsupported_protocol(99);
    assert!(err.to_string().contains("协议不支持"));
    let err = IpError::fragmented_packet(true, 185);
    assert!(err.to_string().contains("分片数据报"));
}

#[test]
fn ip_error_full_text() {
    assert_eq!(IpError::invalid_version(6).to_string(), "IP版本无效: 期望=4, 发现=6");
    assert_eq!(IpError::checksum_error(0xab, 0x1234).to_string(), "IP校验和错误: 期望=00ab, 计算=1234");
    assert_eq!(IpError::fragmented_packet(true, 185).to_string(), "IP分片数据报(不支持): MF=true, Offset=185");
    assert_eq!(IpError::destination_unreachable(ip(10, 1, 2, 3)).to_string(), "IP目的地址不可达: 10.1.2.3");
    assert_eq!(IpError::reassembly_table_full().to_string(), "IP重组表已满");
    match IpError::too_many_fragments(17, 16).to_core_error() {
        CoreError::InvalidPacket(m) => assert_eq!(m, "IP分片数量超过限制: count=17, max=16"),
        other => panic!("unexpected {:?}", other),
    }
}

#[test]
fn error_test_error_to_core_error() {
    let ip_err = IpError::unsupported_protocol(6);
    let core_err: CoreError = ip_err.to_core_error();
    match core_err {
        CoreError::UnsupportedProtocol(msg) => {
            assert!(msg.contains("协议不支持"));
        }
        _ => panic!("Expected UnsupportedProtocol"),
    }
}

fn key() -> ReassemblyKey {
    ReassemblyKey::new(ip(192, 168, 1, 1), ip(192, 168, 1, 2), 1, 12345)
}

#[test]
fn test_fragment_info_overlaps() {
    let frag1 = FragmentInfo::new(0, vec![0u8; 160], 0);
    let frag2 = FragmentInfo::new(20, vec![0u8; 80], 0);
    let frag3 = FragmentInfo::new(18, vec![0u8; 80], 0);
    assert!(!frag1.overlaps(&frag2));
    assert!(frag1.overlaps(&frag3));
}

#[test]
fn test_reassembly_entry_add_fragment() {
    let mut entry = ReassemblyEntry::new(key(), 0);
    let frag1 = FragmentInfo::new(0, vec![1u8; 160], 0);
    let frag2 = FragmentInfo::new(20, vec![2u8; 80], 0);
    assert!(entry.add_fragment(frag1, FragmentOverlapPolicy::Drop, 0).is_ok());
    assert!(entry.add_fragment(frag2, FragmentOverlapPolicy::Drop, 0).is_ok());
    assert_eq!(entry.fragment_count(), 2);
}

#[test]
fn test_reassembly_entry_complete() {
    let mut entry = ReassemblyEntry::new(key(), 0);
    entry.add_fragment(FragmentInfo::new(0, vec![1u8; 160], 0), FragmentOverlapPolicy::Drop, 0).unwrap();
    entry.add_fragment(FragmentInfo::new(20, vec![2u8; 80], 0), FragmentOverlapPolicy::Drop, 0).unwrap();
    assert!(!entry.is_complete());
    entry.set_last_fragment(30, 0);
    assert!(entry.is_complete());
}

#[test]
fn test_reassembly_entry_assemble() {
    let mut entry = ReassemblyEntry::new(key(), 0);
    entry.add_fragment(FragmentInfo::new(0, vec![1u8; 160], 0), FragmentOverlapPolicy::Drop, 0).unwrap();
    entry.add_fragment(FragmentInfo::new(20, vec![2u8; 80], 0), FragmentOverlapPolicy::Drop, 0).unwrap();
    let assembled = entry.assemble();
    assert_eq!(assembled.len(), 240);
    assert_eq!(assembled[0], 1);
    assert_eq!(assembled[160], 2);
}

#[test]
fn test_reassembly_overlap_policies() {
    let mut entry = ReassemblyEntry::new(key(), 0);
    entry.add_fragment(FragmentInfo::new(0, vec![1u8; 160], 0), FragmentOverlapPolicy::Drop, 0).unwrap();
    // overlapping fragment rejected by Drop
    assert!(matches!(
        entry.add_fragment(FragmentInfo::new(18, vec![3u8; 16], 5), FragmentOverlapPolicy::Drop, 5),
        Err(IpError::FragmentOverlap { offset: 18 })
    ));
    // silently ignored by First
    assert!(entry.add_fragment(FragmentInfo::new(18, vec![3u8; 16], 5), FragmentOverlapPolicy::First, 5).is_ok());
    assert_eq!(entry.fragment_count(), 1);
    assert_eq!(entry.received_bytes, 160);
    // replaces with Last
    assert!(entry.add_fragment(FragmentInfo::new(18, vec![3u8; 16], 5), FragmentOverlapPolicy::Last, 5).is_ok());
    assert_eq!(entry.fragment_count(), 1);
    assert_eq!(entry.fragments[0].offset, 18);
    assert_eq!(entry.received_bytes, 16);
    assert_eq!(entry.last_update_time, 5);
}

#[test]
fn test_reassembly_table() {
    let mut table = ReassemblyTable::default_config();
    table.get_or_create(key(), 0);
    assert_eq!(table.len(), 1);
    table.get_or_create(key(), 0);
    assert_eq!(table.len(), 1);
}

#[test]
fn test_reassembly_table_timeout() {
    let mut table = ReassemblyTable::new(10, 1);
    table.get_or_create(key(), 0);
    assert_eq!(table.len(), 1);
    let timeouts = table.handle_timeouts(500);
    assert!(timeouts.is_empty());
    let timeouts = table.handle_timeouts(1000);
    assert_eq!(timeouts.len(), 1);
    assert!(table.is_empty());
}

#[test]
fn test_reassembly_table_eviction_and_stats() {
    let mut table = ReassemblyTable::new(2, 30);
    let k1 = ReassemblyKey::new(ip(1, 1, 1, 1), ip(2, 2, 2, 2), 1, 1);
    let k2 = ReassemblyKey::new(ip(1, 1, 1, 1), ip(2, 2, 2, 2), 1, 2);
    let k3 = ReassemblyKey::new(ip(1, 1, 1, 1), ip(2, 2, 2, 2), 1, 3);
    table.get_or_create(k1, 10);
    table.get_or_create(k2, 5);
    table.get_or_create(k3, 20);
    assert_eq!(table.len(), 2);
    assert!(!table.contains_key(&k2));
    assert!(table.contains_key(&k1));
    let stats = table.stats();
    assert_eq!(stats.active_entries, 2);
    assert_eq!(stats.waiting_last_fragment, 2);
    assert_eq!(stats.max_entries, 2);
    assert!(table.remove(&k1).is_some());
    assert_eq!(table.len(), 1);
}

#[test]
fn test_ipv4_header_min_len() {
    assert_eq!(Ipv4Header::MIN_LEN, 20);
}

#[test]
fn test_ipv4_header_new() {
    let src = ip(192, 168, 1, 1);
    let dst = ip(192, 168, 1, 2);
    let header = Ipv4Header::new(src, dst, IP_PROTO_ICMP, 64);
    assert_eq!(header.version(), 4);
    assert_eq!(header.protocol, IP_PROTO_ICMP);
    assert_eq!(header.source_addr, src);
    assert_eq!(header.dest_addr, dst);
    assert_eq!(header.total_length, 84);
}

#[test]
fn test_ipv4_header_flags() {
    let header = Ipv4Header::new(ip(192, 168, 1, 1), ip(192, 168, 1, 2), IP_PROTO_ICMP, 64);
    assert!(header.has_df_flag());
    assert!(!header.has_mf_flag());
    assert_eq!(header.fragment_offset(), 0);
}

#[test]
fn test_ipv4_encode_decode() {
    let src = ip(192, 168, 1, 1);
    let dst = ip(192, 168, 1, 2);
    let header = Ipv4Header::new(src, dst, IP_PROTO_ICMP, 64);
    let bytes = header.to_bytes();
    assert!(verify_checksum(&bytes, 10));
    let mut packet = Packet::from_bytes(bytes.clone());
    let decoded = Ipv4Header::from_packet(&mut packet).unwrap();
    assert_eq!(decoded.source_addr, src);
    assert_eq!(decoded.dest_addr, dst);
    assert_eq!(decoded.protocol, IP_PROTO_ICMP);
    assert_eq!(decoded.checksum, header.checksum);
}

#[test]
fn test_ipv4_header_parse_errors() {
    let mut p = Packet::from_bytes(vec![]);
    assert!(matches!(Ipv4Header::from_packet(&mut p).unwrap_err(), CoreError::ParseError(_)));
    let mut p = Packet::from_bytes(vec![0x44; 20]);
    assert!(matches!(Ipv4Header::from_packet(&mut p).unwrap_err(), CoreError::InvalidPacket(_)));
    let mut p = Packet::from_bytes(vec![0x65; 24]);
    assert_eq!(Ipv4Header::from_packet(&mut p).unwrap_err(), CoreError::UnsupportedProtocol("IPv4版本不支持: 6".to_string()));
}

#[test]
fn mod_test_protocol_from_u8() {
    assert_eq!(Ipv4Protocol::from(1), Ipv4Protocol::Icmp);
    assert_eq!(Ipv4Protocol::from(6), Ipv4Protocol::Tcp);
    assert_eq!(Ipv4Protocol::from(17), Ipv4Protocol::Udp);
    assert_eq!(Ipv4Protocol::from(255), Ipv4Protocol::Unknown(255));
}

#[test]
fn mod_test_protocol_to_u8() {
    assert_eq!(u8::from(Ipv4Protocol::Icmp), 1);
    assert_eq!(u8::from(Ipv4Protocol::Tcp), 6);
    assert_eq!(u8::from(Ipv4Protocol::Udp), 17);
    assert_eq!(u8::from(Ipv4Protocol::Unknown(99)), 99);
}

#[test]
fn mod_test_is_supported() {
    assert!(Ipv4Protocol::Icmp.is_supported());
    assert!(Ipv4Protocol::Tcp.is_supported());
    assert!(Ipv4Protocol::Udp.is_supported());
    assert!(!Ipv4Protocol::Unknown(99).is_supported());
}

#[test]
fn test_protocol_display() {
    assert_eq!(Ipv4Protocol::Icmp.name(), "ICMP");
    assert_eq!(Ipv4Protocol::Tcp.name(), "TCP");
    assert_eq!(Ipv4Protocol::Unknown(99).name(), "Unknown");
}

#[test]
fn test_encapsulate_ip_datagram() {
    let src = ip(192, 168, 1, 1);
    let dst = ip(192, 168, 1, 2);
    let payload = vec![0x08, 0x00, 0x01, 0x02];
    let packet = encapsulate_ip_datagram(src, dst, 1, &payload);
    assert_eq!(packet[0], 0x45);
    assert_eq!(packet[9], 1);
    assert_eq!(&packet[12..16], &[192, 168, 1, 1]);
    assert_eq!(&packet[16..20], &[192, 168, 1, 2]);
    assert_eq!(&packet[20..], &payload[..]);
}

#[test]
fn test_ipv4_protocol_from_u8() {
    assert_eq!(Ipv4Protocol::from(1), Ipv4Protocol::Icmp);
    assert_eq!(Ipv4Protocol::from(6), Ipv4Protocol::Tcp);
    assert_eq!(Ipv4Protocol::from(17), Ipv4Protocol::Udp);
    assert_eq!(Ipv4Protocol::from(255), Ipv4Protocol::Unknown(255));
}

#[test]
fn test_ipv4_protocol_is_supported() {
    assert!(Ipv4Protocol::Icmp.is_supported());
    assert!(Ipv4Protocol::Tcp.is_supported());
    assert!(Ipv4Protocol::Udp.is_supported());
}

#[test]
fn test_fragment_datagram_and_reassemble() {
    let src = ip(10, 0, 0, 1);
    let dst = ip(10, 0, 0, 2);
    let payload: Vec<u8> = (0..100u32).map(|i| i as u8).collect();
    let frags = fragment_datagram(src, dst, 17, &payload, 68, 77);
    // 48 bytes of data per fragment
    assert_eq!(frags.len(), 3);
    assert_eq!(frags[0].len(), 68);
    assert_eq!(frags[2].len(), 20 + 4);
    assert!(verify_checksum(&frags[1][..20], 10));
    let mut table = ReassemblyTable::default_config();
    let mut result = None;
    for f in &frags {
        let mut p = Packet::from_bytes(f.clone());
        match process_ip_packet(&mut p, Some(dst), &mut table, 0).unwrap() {
            IpProcessResult::DeliverToProtocol { data, ip_hdr } => {
                assert_eq!(ip_hdr.protocol, 17);
                result = Some(data);
            }
            IpProcessResult::NoReply => {}
            _ => panic!("unexpected"),
        }
    }
    assert_eq!(result.unwrap(), payload);
    assert!(table.is_empty());
    // fits the MTU: one datagram
    let whole = fragment_datagram(src, dst, 17, &payload, 1500, 1);
    assert_eq!(whole.len(), 1);
    assert_eq!(whole[0], encapsulate_ip_datagram(src, dst, 17, &payload));
}

#[test]
fn test_process_ip_packet_paths() {
    let src = ip(10, 0, 0, 1);
    let dst = ip(10, 0, 0, 2);
    let mut table = ReassemblyTable::default_config();
    let dgram = encapsulate_ip_datagram(src, dst, 1, &[1, 2, 3]);
    let mut p = Packet::from_bytes(dgram.clone());
    match process_ip_packet(&mut p, Some(dst), &mut table, 0).unwrap() {
        IpProcessResult::DeliverToProtocol { data, .. } => assert_eq!(data, vec![1, 2, 3]),
        _ => panic!("expected delivery"),
    }
    let mut p = Packet::from_bytes(dgram.clone());
    assert_eq!(process_ip_packet(&mut p, Some(src), &mut table, 0).unwrap(), IpProcessResult::NoReply);
    let mut bad = dgram.clone();
    bad[10] ^= 0xFF;
    let mut p = Packet::from_bytes(bad);
    match process_ip_packet(&mut p, Some(dst), &mut table, 0) {
        Err(IpError::InvalidPacket { message }) => assert_eq!(message, "IP校验和错误"),
        _ => panic!("expected a checksum error"),
    }
    let other = encapsulate_ip_datagram(src, dst, 99, &[1]);
    let mut p = Packet::from_bytes(other);
    assert!(matches!(
        process_ip_packet(&mut p, Some(dst), &mut table, 0),
        Err(IpError::UnsupportedProtocol { protocol: 99 })
    ));
}

#[test]
fn test_const_default_config() {
    let config = core_net::protocols::ip::config::ipv4_config_default();
    assert_eq!(config.default_ttl, 64);
    assert_eq!(config.min_mtu, 576);
}

#[test]
fn test_reassembly_key_display() {
    let key = ReassemblyKey::new(ip(192, 168, 1, 1), ip(192, 168, 1, 2), 1, 12345);
    assert_eq!(key.to_string(), "<192.168.1.1:192.168.1.2:1:12345>");
}

#[test]
fn ipv4_addr_text() {
    assert_eq!(ip(10, 0, 255, 7).to_string(), "10.0.255.7");
}

#[test]
fn datagram_fragments_reassemble_in_any_order() {
    let key = ReassemblyKey::new(ip(10, 0, 0, 1), ip(10, 0, 0, 2), 17, 7);
    let mut table = ReassemblyTable::new(4, 30);
    let tail = FragmentInfo::new(1, vec![9, 10, 11], 0);
    assert!(matches!(table.add_datagram_fragment(key.clone(), tail, false, 8, 0), Ok(None)));
    assert!(table.contains_key(&key));
    let again = FragmentInfo::new(1, vec![1], 1);
    assert!(matches!(
        table.add_datagram_fragment(key.clone(), again, true, 8, 1),
        Err(IpError::FragmentOverlap { offset: 1 })
    ));
    let head = FragmentInfo::new(0, vec![1, 2, 3, 4, 5, 6, 7, 8], 2);
    match table.add_datagram_fragment(key.clone(), head, true, 8, 2) {
        Ok(Some(data)) => assert_eq!(data, vec![1, 2, 3, 4, 5, 6, 7, 8, 9, 10, 11]),
        _ => panic!("datagram not reassembled"),
    }
    assert!(!table.contains_key(&key));
}

#[test]
fn datagram_fragment_limit_is_enforced() {
    let key = ReassemblyKey::new(ip(10, 0, 0, 1), ip(10, 0, 0, 2), 17, 8);
    let mut table = ReassemblyTable::new(4, 30);
    let first = FragmentInfo::new(0, vec![0; 8], 0);
    assert!(matches!(table.add_datagram_fragment(key.clone(), first, true, 1, 0), Ok(None)));
    let second = FragmentInfo::new(1, vec![0; 8], 0);
    assert!(matches!(
        table.add_datagram_fragment(key.clone(), second, true, 1, 0),
        Err(IpError::TooManyFragments { count: 2, max: 1 })
    ));
}

#[test]
fn ipv4_header_errors_keep_the_packet() {
    let mut short = Packet::from_bytes(vec![0x45, 0, 0, 20]);
    match Ipv4Header::from_packet(&mut short) {
        Err(CoreError::InvalidPacket(m)) => assert_eq!(m, "IP数据包长度不足：需要头部20 实际剩余4"),
        _ => panic!("expected a length error"),
    }
    assert_eq!(short.remaining(), 4);
    let mut bad_ihl = Packet::from_bytes(vec![0x44; 20]);
    match Ipv4Header::from_packet(&mut bad_ihl) {
        Err(CoreError::InvalidPacket(m)) => assert_eq!(m, "IP头部长度无效: IHL=4 长度=16"),
        _ => panic!("expected an IHL error"),
    }
    assert_eq!(bad_ihl.remaining(), 20);
    let mut v6 = Packet::from_bytes(vec![0x65; 20]);
    match Ipv4Header::from_packet(&mut v6) {
        Err(CoreError::UnsupportedProtocol(m)) => assert_eq!(m, "IPv4版本不支持: 6"),
        _ => panic!("expected a version error"),
    }
    assert_eq!(v6.remaining(), 19);
}
