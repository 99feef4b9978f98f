use core_net::common::addr::Ipv6Addr;
use core_net::common::error::CoreError;
use core_net::protocols::common::packet::Packet;
use core_net::protocols::ipv6::extension::{
    parse_extension_chain, DestinationOptionsHeader, ExtensionConfig, ExtensionHeader, ExtensionHeaderType,
    FragmentHeader, HopByHopHeader, RoutingHeader, RoutingHeaderType2,
};
use core_net::protocols::ipv6::options::{
    create_padn, parse_options, Ipv6Option, JumboPayloadOption, OptionType, RouterAlertOption,
    OPTION_TYPE_JUMBO_PAYLOAD, OPTION_TYPE_ROUTER_ALERT,
};
use core_net::protocols::ipv6::IpProtocol;

#[test]
fn test_option_type_action() {
    let opt = OptionType(0x00);
    assert_eq!(opt.action(), 0);
    assert!(!opt.should_discard());

    let opt = OptionType(0x40);
    assert_eq!(opt.action(), 1);
    assert!(opt.should_discard());
    assert!(!opt.should_send_icmp());

    let opt = OptionType(0x80);
    assert_eq!(opt.action(), 2);
    assert!(opt.should_discard());
    assert!(opt.should_send_icmp());

    let opt = OptionType(0xC0);
    assert_eq!(opt.action(), 3);
    assert!(opt.should_discard());
    assert!(opt.should_send_icmp());
}

#[test]
fn test_option_type_change_flag() {
    let opt = OptionType(0x00);
    assert!(!opt.change_flag());

    let opt = OptionType(0x20);
    assert!(opt.change_flag());
}

#[test]
fn test_pad1_option() {
    let opt = Ipv6Option::new(OptionType::pad1(), Vec::new());
    assert!(opt.option_type.is_pad1());
    assert_eq!(opt.total_length(), 1);

    let bytes = opt.to_bytes();
    assert_eq!(bytes, vec![0x00]);
}

#[test]
fn test_pad1_parse() {
    let data = vec![0x00];
    let (opt, length) = Ipv6Option::from_bytes(&data).unwrap();

    assert!(opt.option_type.is_pad1());
    assert_eq!(length, 1);
}

#[test]
fn test_router_alert_option() {
    let opt = RouterAlertOption::new(RouterAlertOption::ALERT_VALUE_MLDV1);

    assert_eq!(opt.option_type, OPTION_TYPE_ROUTER_ALERT);
    assert_eq!(opt.option_length, 2);
    let alert_value = opt.alert_value;
    assert_eq!(alert_value, RouterAlertOption::ALERT_VALUE_MLDV1);

    let bytes = opt.to_bytes();
    assert_eq!(bytes.len(), RouterAlertOption::LENGTH);
    assert_eq!(bytes[0], OPTION_TYPE_ROUTER_ALERT);
    assert_eq!(bytes[1], 2);

    let parsed = RouterAlertOption::from_bytes(&bytes).unwrap();
    let alert_value = parsed.alert_value;
    let opt_alert_value = opt.alert_value;
    assert_eq!(alert_value, opt_alert_value);
}

#[test]
fn test_jumbo_payload_option() {
    let opt = JumboPayloadOption::new(100000).unwrap();

    assert_eq!(opt.option_type, OPTION_TYPE_JUMBO_PAYLOAD);
    assert_eq!(opt.option_length, 4);
    let jumbo_length = opt.jumbo_length;
    assert_eq!(jumbo_length, 100000);

    let bytes = opt.to_bytes();
    assert_eq!(bytes.len(), JumboPayloadOption::LENGTH);

    let parsed = JumboPayloadOption::from_bytes(&bytes).unwrap();
    let parsed_length = parsed.jumbo_length;
    assert_eq!(parsed_length, 100000);
}

#[test]
fn test_jumbo_payload_too_small() {
    let result = JumboPayloadOption::new(65535);
    assert!(result.is_err());
}

#[test]
fn test_create_padn() {
    let pad = create_padn(6);
    assert!(pad.option_type.is_padn());
    assert_eq!(pad.total_length(), 6);
    assert_eq!(pad.data.len(), 4);
}

#[test]
fn test_parse_options() {
    let mut data = Vec::new();
    data.push(0x00);
    data.extend_from_slice(&[0x05, 0x02, 0x00, 0x00]);
    data.extend_from_slice(&[0x01, 0x04, 0x00, 0x00, 0x00, 0x00]);

    let result = parse_options(&data).unwrap();

    assert_eq!(result.options.len(), 3);
    assert_eq!(result.total_length, 11);
}

#[test]
fn test_option_padding_detection() {
    let pad1 = OptionType::pad1();
    assert!(pad1.is_padding());

    let padn = OptionType::padn();
    assert!(padn.is_padding());

    let router_alert = OptionType::router_alert();
    assert!(!router_alert.is_padding());
}

#[test]
fn test_extension_header_total_length() {
    let ext = ExtensionHeader { next_header: 58, header_length: 0 };
    assert_eq!(ext.total_length(), 8);

    let ext = ExtensionHeader { next_header: 58, header_length: 1 };
    assert_eq!(ext.total_length(), 16);
}

#[test]
fn test_fragment_header() {
    let frag = FragmentHeader::new(58, 0, true, 12345);

    assert_eq!(frag.next_header, 58);
    assert_eq!(frag.fragment_offset(), 0);
    assert!(frag.more_fragments());
    assert!(!frag.is_atomic_fragment());
    let identification = frag.identification;
    assert_eq!(identification, 12345);
}

#[test]
fn test_atomic_fragment_detection() {
    let frag = FragmentHeader::new(58, 0, false, 12345);
    assert!(frag.is_atomic_fragment());

    let frag = FragmentHeader::new(58, 0, true, 12345);
    assert!(!frag.is_atomic_fragment());

    let frag = FragmentHeader::new(58, 8, false, 12345);
    assert!(!frag.is_atomic_fragment());
}

#[test]
fn test_routing_header_type0_detection() {
    let routing = RoutingHeader::new(58, 0, 0, 0);
    assert!(routing.is_type0());

    let routing = RoutingHeader::new(58, 2, 0, 0);
    assert!(!routing.is_type0());
}

#[test]
fn test_fragment_header_serialize() {
    let frag = FragmentHeader::new(58, 123, true, 0xABCDEF01);
    let bytes = frag.to_bytes();

    assert_eq!(bytes[0], 58);
    assert_eq!(bytes[1], 0);

    let offset_res_m = u16::from_be_bytes([bytes[2], bytes[3]]);
    assert_eq!(offset_res_m >> 3, 123);
    assert_eq!(offset_res_m & 0x01, 1);

    let id = u32::from_be_bytes([bytes[4], bytes[5], bytes[6], bytes[7]]);
    assert_eq!(id, 0xABCDEF01);
}

#[test]
fn test_extension_config_default() {
    let config = ExtensionConfig::default();
    assert_eq!(config.max_extension_headers, 8);
    assert_eq!(config.max_extension_headers_length, 2048);
    assert!(config.process_hop_by_hop);
    assert!(config.reject_atomic_fragments);
    assert!(!config.enable_fragmentation);
}

#[test]
fn option_type_names() {
    assert_eq!(OptionType::pad1().to_string(), "Pad1");
    assert_eq!(OptionType::padn().to_string(), "PadN");
    assert_eq!(OptionType::router_alert().to_string(), "RouterAlert");
    assert_eq!(OptionType(0xC2).to_string(), "OptionType(0xc2)");
    assert_eq!(OptionType(0x07).to_string(), "OptionType(0x07)");
}

#[test]
fn option_type_bits() {
    let t = OptionType::new(0xE3);
    assert_eq!(t.option_type_value(), 3);
    assert!(t.change_flag());
    assert_eq!(t.action(), 3);
    assert!(OptionType(0x01).is_padn());
    assert!(!OptionType(0x21).is_padn());
    assert!(!OptionType(0xC1).is_padn());
    assert!(!OptionType(0x02).is_padding());
}

#[test]
fn option_roundtrip_and_errors() {
    let opt = Ipv6Option::new(OptionType(0x05), vec![0xAB, 0xCD]);
    assert_eq!(opt.total_length(), 4);
    let bytes = opt.to_bytes();
    assert_eq!(bytes, vec![0x05, 0x02, 0xAB, 0xCD]);
    let (back, n) = Ipv6Option::from_bytes(&bytes).unwrap();
    assert_eq!(back, opt);
    assert_eq!(n, 4);

    assert!(matches!(Ipv6Option::from_bytes(&[]), Err(CoreError::ParseError(_))));
    assert!(matches!(Ipv6Option::from_bytes(&[0x05]), Err(CoreError::ParseError(_))));
    assert!(matches!(Ipv6Option::from_bytes(&[0x05, 0x03, 0x00]), Err(CoreError::ParseError(_))));
}

#[test]
fn parse_options_stops_at_truncated_option() {
    let data = vec![0x00, 0x01, 0x00, 0x05, 0x04, 0x00];
    let result = parse_options(&data).unwrap();
    assert_eq!(result.options.len(), 2);
    assert_eq!(result.total_length, 3);
    assert!(result.options[1].data.is_empty());
}

#[test]
fn create_padn_short() {
    let pad = create_padn(1);
    assert_eq!(pad.data.len(), 0);
    assert_eq!(pad.total_length(), 2);
}

#[test]
fn router_alert_errors() {
    assert!(matches!(RouterAlertOption::from_bytes(&[5, 2, 0]), Err(CoreError::ParseError(_))));
    match RouterAlertOption::from_bytes(&[6, 2, 0, 0]) {
        Err(CoreError::ParseError(m)) => assert_eq!(m, "无效的 Router Alert 选项类型: 6"),
        other => panic!("unexpected {:?}", other),
    }
    match RouterAlertOption::from_bytes(&[5, 3, 0, 0]) {
        Err(CoreError::ParseError(m)) => assert_eq!(m, "无效的 Router Alert 选项长度: 3"),
        other => panic!("unexpected {:?}", other),
    }
    let ok = RouterAlertOption::from_bytes(&[5, 2, 0x12, 0x34]).unwrap();
    let v = ok.alert_value;
    assert_eq!(v, 0x1234);
}

#[test]
fn jumbo_errors() {
    assert!(matches!(JumboPayloadOption::from_bytes(&[0xC2, 4, 0, 0, 0]), Err(CoreError::ParseError(_))));
    assert!(matches!(JumboPayloadOption::from_bytes(&[0xC3, 4, 0, 1, 0, 0]), Err(CoreError::ParseError(_))));
    assert!(matches!(JumboPayloadOption::from_bytes(&[0xC2, 5, 0, 1, 0, 0]), Err(CoreError::ParseError(_))));
    match JumboPayloadOption::from_bytes(&[0xC2, 4, 0, 0, 0xFF, 0xFF]) {
        Err(CoreError::InvalidPacket(m)) => assert_eq!(m, "Jumbo 长度必须大于 65535: 65535"),
        other => panic!("unexpected {:?}", other),
    }
    let j = JumboPayloadOption::from_bytes(&[0xC2, 4, 0, 1, 0, 0]).unwrap();
    let len = j.jumbo_length;
    assert_eq!(len, 65536);
    assert_eq!(j.to_bytes(), [0xC2, 4, 0, 1, 0, 0]);
}

#[test]
fn header_length_fields() {
    assert_eq!(HopByHopHeader::new(6, 0).header_length, 0);
    assert_eq!(HopByHopHeader::new(6, 6).header_length, 0);
    assert_eq!(HopByHopHeader::new(6, 14).header_length, 1);
    assert_eq!(HopByHopHeader::new(6, 17).header_length, 2);
    assert_eq!(DestinationOptionsHeader::new(6, 16).header_length, 1);
    assert_eq!(DestinationOptionsHeader::new(6, 16).total_length(), 16);
    assert_eq!(RoutingHeader::new(6, 2, 1, 24).header_length, 2);
    assert_eq!(HopByHopHeader::from_bytes(&[17, 3]).unwrap().total_length(), 32);
    assert!(HopByHopHeader::from_bytes(&[17]).is_err());
}

#[test]
fn routing_type2_roundtrip() {
    let home = Ipv6Addr::new(0x2001, 0xdb8, 0, 0, 0, 0, 0, 9);
    let h = RoutingHeaderType2::new(58, home);
    let bytes = h.to_bytes();
    assert_eq!(&bytes[..4], &[58, 2, 2, 0]);
    assert_eq!(&bytes[8..], &home.bytes);
    let back = RoutingHeaderType2::from_bytes(&bytes).unwrap();
    assert_eq!(back, h);
    assert!(RoutingHeaderType2::from_bytes(&bytes[..23]).is_err());
}

#[test]
fn fragment_header_roundtrip() {
    let frag = FragmentHeader::new(17, 100, false, 7);
    let back = FragmentHeader::from_bytes(&frag.to_bytes()).unwrap();
    assert_eq!(back, frag);
    assert_eq!(back.fragment_offset(), 100);
    assert!(!back.more_fragments());
}

#[test]
fn extension_header_type_accessors() {
    let h = ExtensionHeaderType::HopByHop { header: HopByHopHeader::new(58, 6), options: vec![1, 0, 0, 0, 0, 0] };
    assert_eq!(h.next_header(), 58);
    assert_eq!(h.total_length(), 8);
    let esp = ExtensionHeaderType::EncapsulatingSecurityPayload { data: vec![0; 12] };
    assert_eq!(esp.next_header(), 50);
    assert_eq!(esp.total_length(), 12);
    let ah = ExtensionHeaderType::AuthenticationHeader { header: vec![6, 4, 0, 0] };
    assert_eq!(ah.next_header(), 6);
    let frag = ExtensionHeaderType::Fragment { header: FragmentHeader::new(6, 1, false, 1) };
    assert_eq!(frag.total_length(), 8);
}

#[test]
fn extension_chain_hop_by_hop_then_fragment() {
    let mut bytes = vec![44, 0, 1, 4, 0, 0, 0, 0];
    bytes.extend_from_slice(&[58, 0, 0, 9, 0, 0, 0, 1]);
    bytes.extend_from_slice(&[0xAA, 0xBB]);
    let mut packet = Packet::from_bytes(bytes);
    let config = ExtensionConfig::default();
    let result = parse_extension_chain(&mut packet, IpProtocol::HopByHopOptions, &config).unwrap();
    assert_eq!(result.next_header, IpProtocol::IcmpV6);
    assert_eq!(result.headers.len(), 2);
    assert_eq!(result.chain_length, 16);
    assert_eq!(packet.remaining(), 2);
    match &result.headers[0] {
        ExtensionHeaderType::HopByHop { options, .. } => assert_eq!(options, &vec![1, 4, 0, 0, 0, 0]),
        other => panic!("unexpected {:?}", other),
    }
}

#[test]
fn extension_chain_errors() {
    let config = ExtensionConfig::default();

    let mut packet = Packet::from_bytes(vec![58, 0, 0, 0, 0, 0, 0, 0]);
    let r = parse_extension_chain(&mut packet, IpProtocol::Ipv6Route, &config);
    assert!(matches!(r, Err(CoreError::UnsupportedProtocol(_))));

    let mut packet = Packet::from_bytes(vec![58, 0, 0, 0, 0, 0, 0, 1]);
    let r = parse_extension_chain(&mut packet, IpProtocol::Ipv6Fragment, &config);
    match r {
        Err(CoreError::InvalidPacket(m)) => assert_eq!(m, "原子分片被禁止: ID=1"),
        other => panic!("unexpected {:?}", other),
    }

    let mut packet = Packet::from_bytes(vec![58, 1, 0, 0]);
    let r = parse_extension_chain(&mut packet, IpProtocol::Ipv6DestOptions, &config);
    assert!(matches!(r, Err(CoreError::ParseError(_))));

    let mut packet = Packet::from_bytes(vec![]);
    let r = parse_extension_chain(&mut packet, IpProtocol::Esp, &config);
    assert!(matches!(r, Err(CoreError::UnsupportedProtocol(_))));

    let mut small = ExtensionConfig::default();
    small.max_extension_headers = 1;
    let mut packet = Packet::from_bytes(vec![0, 0, 0, 0, 0, 0, 0, 0, 58, 0, 0, 0, 0, 0, 0, 0]);
    let r = parse_extension_chain(&mut packet, IpProtocol::HopByHopOptions, &small);
    match r {
        Err(CoreError::InvalidPacket(m)) => assert_eq!(m, "扩展头数量超过限制: 1 >= 1"),
        other => panic!("unexpected {:?}", other),
    }

    let mut short = ExtensionConfig::default();
    short.max_extension_headers_length = 8;
    let mut packet = Packet::from_bytes(vec![58, 1, 0, 0, 0, 0, 0, 0, 0, 0, 0, 0, 0, 0, 0, 0]);
    let r = parse_extension_chain(&mut packet, IpProtocol::HopByHopOptions, &short);
    match r {
        Err(CoreError::InvalidPacket(m)) => assert_eq!(m, "扩展头链过长: 16 > 8"),
        other => panic!("unexpected {:?}", other),
    }
}

#[test]
fn extension_chain_upper_layer_only() {
    let config = ExtensionConfig::default();
    let mut packet = Packet::from_bytes(vec![1, 2, 3]);
    let r = parse_extension_chain(&mut packet, IpProtocol::Tcp, &config).unwrap();
    assert_eq!(r.next_header, IpProtocol::Tcp);
    assert!(r.headers.is_empty());
    assert_eq!(r.chain_length, 0);
    assert_eq!(packet.remaining(), 3);
}
