use core_net::common::addr::IpAddr;
use core_net::protocols::common::addr::Ipv4Addr;
use core_net::protocols::ip::Ipv4Header;
use core_net::protocols::ipsec::{
    constant_time_compare, AhHeader, AhPacket, AuthTransform, CipherTransform, EspHeader, EspPacket, EspTrailer,
    IpsecError, IpsecMode, IpsecProtocol, PolicyAction, ReplayWindow, SaDirection, SaState, SadManager,
    SecurityAssociation, SecurityPolicy, SpdManager, TrafficSelector,
};
use core_net::protocols::ipsec::mode;
use core_net::common::error::CoreError;
use core_net::protocols::ipsec::ikev2::IkeError;

fn v4(a: u8, b: u8, c: u8, d: u8) -> IpAddr {
    IpAddr::V4(Ipv4Addr::new([a, b, c, d]))
}

fn sample_sa(cipher: Option<CipherTransform>, auth: AuthTransform) -> SecurityAssociation {
    SecurityAssociation::new(
        SaDirection::Outbound,
        0x12345678,
        v4(192, 168, 1, 1),
        v4(192, 168, 1, 2),
        IpsecProtocol::Esp,
        IpsecMode::Transport,
        cipher,
        auth,
        3600,
        0,
    )
}

#[test]
fn test_ah_header_creation() {
    let header = AhHeader::new(6, 0x12345678, 1, 12);
    assert_eq!(header.next_header, 6);
    assert_eq!(header.spi, 0x12345678);
    assert_eq!(header.sequence_number, 1);
    assert_eq!(header.icv_len(), 12);
}

#[test]
fn test_ah_header_roundtrip() {
    let original = AhHeader::new(17, 0xDEADBEEF, 42, 12);
    let icv = vec![0u8; 12];
    let bytes = original.to_bytes(&icv);
    let (parsed, parsed_icv) = AhHeader::parse(&bytes).unwrap();
    assert_eq!(parsed.next_header, original.next_header);
    assert_eq!(parsed.spi, original.spi);
    assert_eq!(parsed.sequence_number, original.sequence_number);
    assert_eq!(parsed_icv, icv);
}

#[test]
fn test_ah_packet_creation() {
    let packet = AhPacket::new(6, 0x12345678, 1, vec![0u8; 12], vec![1, 2, 3, 4]);
    assert_eq!(packet.header.next_header, 6);
    assert_eq!(packet.icv.len(), 12);
    assert_eq!(packet.payload, vec![1, 2, 3, 4]);
}

#[test]
fn test_ah_packet_roundtrip() {
    let original = AhPacket::new(17, 0xABCD1234, 100, vec![0xAA; 12], vec![1, 2, 3, 4, 5]);
    let bytes = original.to_bytes();
    let parsed = AhPacket::parse(&bytes).unwrap();
    assert_eq!(parsed.header.next_header, original.header.next_header);
    assert_eq!(parsed.header.spi, original.header.spi);
    assert_eq!(parsed.header.sequence_number, original.header.sequence_number);
    assert_eq!(parsed.icv, original.icv);
    assert_eq!(parsed.payload, original.payload);
}

#[test]
fn test_icv_computation() {
    let data = [1, 2, 3, 4];
    let key = [0xAA, 0xBB, 0xCC, 0xDD];
    let icv = AhPacket::compute_icv(&data, &key, 12);
    assert_eq!(icv.len(), 12);
    assert_eq!(icv[0], 0xAA ^ 1);
    assert_eq!(icv[1], 0xBB ^ 2);
    assert_eq!(icv[2], 0xCC ^ 3);
    assert_eq!(icv[3], 0xDD ^ 4);
}

#[test]
fn test_icv_verification() {
    let data = [1, 2, 3, 4];
    let key = [0xAA, 0xBB, 0xCC, 0xDD];
    let icv = AhPacket::compute_icv(&data, &key, 12);
    let packet = AhPacket::new(6, 0x1234, 1, icv.clone(), data.to_vec());
    assert!(packet.verify_icv(&data, &key));
}

#[test]
fn ah_test_invalid_length() {
    let data = [1, 2, 3];
    let result = AhHeader::parse(&data);
    assert!(matches!(result, Err(IpsecError::InvalidLength)));
}

#[test]
fn ah_icv_mismatch_is_refused() {
    let data = [1, 2, 3, 4];
    let packet = AhPacket::new(6, 0x1234, 1, vec![0u8; 12], data.to_vec());
    assert!(!packet.verify_icv(&data, &[0xAA]));
}

#[test]
fn test_esp_header_creation() {
    let header = EspHeader::new(0x12345678, 42);
    assert_eq!(header.spi, 0x12345678);
    assert_eq!(header.sequence_number, 42);
}

#[test]
fn test_esp_header_roundtrip() {
    let original = EspHeader::new(0xDEADBEEF, 100);
    let bytes = original.to_bytes();
    let parsed = EspHeader::parse(&bytes).unwrap();
    assert_eq!(parsed.spi, original.spi);
    assert_eq!(parsed.sequence_number, original.sequence_number);
}

#[test]
fn esp_header_wire_bytes() {
    let bytes = EspHeader::new(0x01020304, 0x0A0B0C0D).to_bytes();
    assert_eq!(bytes, [1, 2, 3, 4, 10, 11, 12, 13]);
}

#[test]
fn test_esp_trailer_creation() {
    let trailer = EspTrailer::new(3, 6, vec![0, 0, 0]);
    assert_eq!(trailer.pad_length, 3);
    assert_eq!(trailer.next_header, 6);
    assert_eq!(trailer.padding.len(), 3);
    assert_eq!(trailer.trailer_size(), 5);
}

#[test]
fn test_esp_trailer_calculate_padding() {
    let payload_len = 10;
    let block_size = 16;
    let pad_len = EspTrailer::calculate_padding(payload_len, block_size);
    assert_eq!(pad_len, 4);
}

#[test]
fn esp_padding_is_at_least_one() {
    assert_eq!(EspTrailer::calculate_padding(14, 16), 1);
    assert_eq!(EspTrailer::calculate_padding(15, 16), 15);
    assert_eq!(EspTrailer::calculate_padding(5, 1), 1);
}

#[test]
fn test_esp_trailer_roundtrip() {
    let original = EspTrailer::new(3, 17, vec![1, 2, 3]);
    let bytes = original.to_bytes();
    let data_with_trailer = {
        let mut data = vec![0u8; 10];
        data.extend_from_slice(&bytes);
        data
    };
    let (parsed, start) = EspTrailer::parse(&data_with_trailer).unwrap();
    assert_eq!(parsed.pad_length, original.pad_length);
    assert_eq!(parsed.next_header, original.next_header);
    assert_eq!(parsed.padding, original.padding);
    assert_eq!(start, 10);
}

#[test]
fn esp_trailer_padding_too_long() {
    let data = [0u8, 9, 6];
    assert!(matches!(EspTrailer::parse(&data), Err(IpsecError::InvalidLength)));
    assert!(matches!(EspTrailer::parse(&[1u8]), Err(IpsecError::InvalidLength)));
}

#[test]
fn test_esp_packet_creation() {
    let packet = EspPacket::create_simple(0x12345678, 1, vec![1, 2, 3, 4], 6, 16);
    assert_eq!(packet.header.spi, 0x12345678);
    assert_eq!(packet.header.sequence_number, 1);
    assert_eq!(packet.encrypted_data, vec![1, 2, 3, 4]);
    assert_eq!(packet.trailer.next_header, 6);
}

#[test]
fn test_esp_packet_roundtrip() {
    let original = EspPacket::create_simple(0xABCD1234, 100, vec![1, 2, 3, 4, 5, 6, 7, 8], 17, 16);
    let bytes = original.to_bytes();
    let parsed = EspPacket::parse(&bytes, 0).unwrap();
    assert_eq!(parsed.header.spi, original.header.spi);
    assert_eq!(parsed.header.sequence_number, original.header.sequence_number);
    assert_eq!(parsed.encrypted_data, original.encrypted_data);
    assert_eq!(parsed.trailer.next_header, original.trailer.next_header);
}

#[test]
fn test_esp_packet_with_icv() {
    let mut packet = EspPacket::create_simple(0x12345678, 1, vec![1, 2, 3, 4], 6, 16);
    packet.icv = Some(vec![0xAA; 12]);
    let bytes = packet.to_bytes();
    let parsed = EspPacket::parse(&bytes, 12).unwrap();
    assert!(parsed.icv.is_some());
    assert_eq!(parsed.icv.as_ref().unwrap().len(), 12);
}

#[test]
fn esp_test_invalid_length() {
    let data = [1, 2, 3];
    let result = EspHeader::parse(&data);
    assert!(matches!(result, Err(IpsecError::InvalidLength)));
}

#[test]
fn esp_packet_icv_check() {
    let mut packet = EspPacket::create_simple(0x01020304, 0x05060708, vec![9], 6, 4);
    assert!(packet.verify_icv(&[1, 2, 3]));
    let key = [0x10u8, 0x20, 0x30, 0x40];
    // byte i: key[i] ^ spi[i % 4] ^ seq[i % 4]
    packet.icv = Some(vec![0x10 ^ 1 ^ 5, 0x20 ^ 2 ^ 6, 0x30 ^ 3 ^ 7, 0x40 ^ 4 ^ 8]);
    assert!(packet.verify_icv(&key));
    packet.icv = Some(vec![0, 0, 0, 0]);
    assert!(!packet.verify_icv(&key));
}

#[test]
fn test_constant_time_compare() {
    assert!(constant_time_compare(b"hello", b"hello"));
    assert!(!constant_time_compare(b"hello", b"world"));
    assert!(!constant_time_compare(b"hello", b"hello!"));
    assert!(constant_time_compare(b"", b""));
}

#[test]
fn test_mode_transport_encapsulate() {
    let payload = b"TCP data";
    let next_header = 6;
    let encapsulated = mode::encapsulate_transport(payload, next_header);
    assert_eq!(encapsulated[0], next_header);
    assert_eq!(&encapsulated[1..], payload);
}

#[test]
fn test_mode_transport_decapsulate() {
    let payload = b"TCP data";
    let mut encapsulated = Vec::new();
    encapsulated.push(6);
    encapsulated.extend_from_slice(payload);
    let header = Ipv4Header::new(
        Ipv4Addr::new([192, 168, 1, 1]),
        Ipv4Addr::new([192, 168, 1, 2]),
        6,
        payload.len() + 20,
    );
    let (next_header, decapsulated) = mode::decapsulate_transport(&encapsulated, &header).unwrap();
    assert_eq!(next_header, 6);
    assert_eq!(decapsulated, encapsulated);
}

#[test]
fn mode_transport_decapsulate_empty() {
    let header = Ipv4Header::new(Ipv4Addr::new([1, 1, 1, 1]), Ipv4Addr::new([2, 2, 2, 2]), 6, 0);
    assert!(matches!(mode::decapsulate_transport(&[], &header), Err(IpsecError::InvalidLength)));
}

#[test]
fn test_mode_tunnel_encapsulate() {
    let inner_packet = vec![
        0x45, 0x00, 0x00, 0x1c, 0x00, 0x01, 0x00, 0x00, 0x40, 0x06, 0x00, 0x00, 0xc0, 0xa8, 0x01, 0x01, 0xc0, 0xa8,
        0x01, 0x02,
    ];
    let encapsulated = mode::encapsulate_tunnel(&inner_packet);
    assert_eq!(encapsulated, inner_packet);
}

#[test]
fn test_mode_tunnel_decapsulate() {
    let inner_packet = vec![
        0x45, 0x00, 0x00, 0x1c, 0x00, 0x01, 0x00, 0x00, 0x40, 0x06, 0x00, 0x00, 0xc0, 0xa8, 0x01, 0x01, 0xc0, 0xa8,
        0x01, 0x02,
    ];
    let decapsulated = mode::decapsulate_tunnel(&inner_packet).unwrap();
    assert_eq!(decapsulated, inner_packet);
}

#[test]
fn test_mode_tunnel_invalid_ip() {
    let invalid_packet = vec![0x00, 0x00, 0x00, 0x00];
    let result = mode::decapsulate_tunnel(&invalid_packet);
    assert!(result.is_err());
    assert!(matches!(result, Err(IpsecError::ParseError(m)) if m == "不是有效的 IPv4 包"));
    assert!(matches!(mode::decapsulate_tunnel(&[]), Err(IpsecError::InvalidLength)));
}

#[test]
fn mode_create_esp_packet_uses_next_sequence() {
    let mut sa = sample_sa(Some(CipherTransform::AesCbc { key_size: 128 }), AuthTransform::HmacSha1);
    let p1 = mode::create_esp_packet(&mut sa, vec![1, 2, 3, 4], 6).unwrap();
    let p2 = mode::create_esp_packet(&mut sa, vec![1, 2, 3, 4], 6).unwrap();
    assert_eq!(p1.header.sequence_number, 1);
    assert_eq!(p2.header.sequence_number, 2);
    assert_eq!(p1.header.spi, 0x12345678);
    // 4 bytes + 2 trailer bytes padded to 16
    assert_eq!(p1.trailer.padding.len(), 10);
    assert_eq!(sa.tx_sequence, 3);
}

#[test]
fn mode_create_ah_packet_computes_icv() {
    let mut sa = sample_sa(None, AuthTransform::HmacSha1).with_keys(None, vec![0xAA, 0xBB]);
    let p = mode::create_ah_packet(&mut sa, vec![1, 2], 6).unwrap();
    assert_eq!(p.header.sequence_number, 1);
    assert_eq!(p.header.payload_len, 4);
    assert_eq!(p.icv.len(), 12);
    assert_eq!(p.icv[0], 0xAA ^ 1);
    assert_eq!(p.icv[1], 0xBB ^ 2);
    assert_eq!(p.icv[2], 0);
    assert_eq!(p.payload, vec![1, 2]);
}

#[test]
fn test_sa_creation() {
    let sa = sample_sa(Some(CipherTransform::AesCbc { key_size: 128 }), AuthTransform::HmacSha1);
    assert_eq!(sa.spi, 0x12345678);
    assert_eq!(sa.protocol, IpsecProtocol::Esp);
    assert_eq!(sa.mode, IpsecMode::Transport);
    assert_eq!(sa.state, SaState::Mature);
}

#[test]
fn sa_lifetime_expiry() {
    let sa = SecurityAssociation::new(
        SaDirection::Inbound,
        1,
        v4(10, 0, 0, 1),
        v4(10, 0, 0, 2),
        IpsecProtocol::Ah,
        IpsecMode::Tunnel,
        None,
        AuthTransform::Null,
        10,
        1000,
    );
    assert!(!sa.is_expired(1000));
    assert!(!sa.is_dying(9999));
    assert!(sa.is_dying(10000));
    assert!(!sa.is_expired(10999));
    assert!(sa.is_expired(11000));
    assert!(!sa.is_dying(11000));
}

#[test]
fn test_replay_window() {
    let mut window = ReplayWindow::new(64);
    assert!(window.check_and_mark(1, 1));
    assert!(!window.check_and_mark(1, 1));
    assert!(window.check_and_mark(2, 2));
    assert!(!window.check_and_mark(1, 100));
}

#[test]
fn replay_window_marks_within_window() {
    let mut window = ReplayWindow::new(64);
    assert!(window.check_and_mark(70, 100));
    assert!(window.check_and_mark(37, 100));
    assert!(!window.check_and_mark(36, 100));
    assert!(!window.check_and_mark(70, 100));
    assert!(window.check_and_mark(101, 100));
    window.reset();
    assert!(window.check_and_mark(70, 100));
}

#[test]
fn sa_check_replay_sequence() {
    let mut sa = sample_sa(None, AuthTransform::Null);
    assert!(sa.check_replay(5));
    assert_eq!(sa.rx_sequence, 5);
    assert!(sa.check_replay(3));
    assert!(!sa.check_replay(3));
    assert!(sa.check_replay(9));
    assert_eq!(sa.next_sequence(), 1);
    assert_eq!(sa.next_sequence(), 2);
}

#[test]
fn test_traffic_selector() {
    let selector = TrafficSelector::new(Some(v4(192, 168, 1, 1)), Some(v4(192, 168, 1, 2)), 6);
    assert!(selector.matches(v4(192, 168, 1, 1), v4(192, 168, 1, 2), 6));
    assert!(!selector.matches(v4(192, 168, 1, 1), v4(192, 168, 1, 3), 6));
    assert!(!selector.matches(v4(192, 168, 1, 1), v4(192, 168, 1, 2), 17));
    let any = TrafficSelector::new(None, None, 0).with_ports((1, 2), (3, 4));
    assert_eq!(any.src_port_range, (1, 2));
    assert!(any.matches(v4(1, 1, 1, 1), v4(2, 2, 2, 2), 17));
}

#[test]
fn test_sad_manager() {
    let mut sad = SadManager::new();
    let sa = sample_sa(None, AuthTransform::Null);
    sad.add(sa.clone()).unwrap();
    let found = sad.get(0x12345678, sa.dst_addr, IpsecProtocol::Esp);
    assert!(found.is_some());
    assert_eq!(found.unwrap().spi, 0x12345678);
}

#[test]
fn sad_manager_replace_remove_cleanup() {
    let mut sad = SadManager::default();
    let sa = sample_sa(None, AuthTransform::Null);
    sad.add(sa.clone()).unwrap();
    sad.add(sa.clone().with_keys(None, vec![7])).unwrap();
    assert_eq!(sad.len(), 1);
    assert_eq!(sad.get(0x12345678, sa.dst_addr, IpsecProtocol::Esp).unwrap().auth_key, vec![7]);
    assert!(sad.get(0x12345678, sa.dst_addr, IpsecProtocol::Ah).is_none());
    sad.get_mut(0x12345678, sa.dst_addr, IpsecProtocol::Esp).unwrap().packets_processed = 3;
    assert_eq!(sad.all()[0].packets_processed, 3);
    assert!(sad.remove(0x12345678, sa.dst_addr, IpsecProtocol::Esp).is_some());
    assert!(sad.get(0x12345678, sa.dst_addr, IpsecProtocol::Esp).is_none());
    sad.add(sa.clone()).unwrap();
    sad.cleanup_expired(3_599_999);
    assert_eq!(sad.len(), 1);
    sad.cleanup_expired(3_600_000);
    assert_eq!(sad.len(), 0);
}

#[test]
fn test_spd_manager() {
    let mut spd = SpdManager::new();
    let policy = SecurityPolicy::new(TrafficSelector::new(None, None, 0), PolicyAction::Bypass, 100);
    spd.add(policy.clone());
    assert_eq!(spd.len(), 1);
    let found = spd.lookup(v4(192, 168, 1, 1), v4(192, 168, 1, 2), 6);
    assert!(found.is_some());
    assert_eq!(found.unwrap().action, PolicyAction::Bypass);
}

#[test]
fn spd_manager_orders_by_priority() {
    let mut spd = SpdManager::default();
    spd.add(SecurityPolicy::new(TrafficSelector::new(None, None, 0), PolicyAction::Bypass, 100));
    spd.add(SecurityPolicy::new(TrafficSelector::new(None, None, 6), PolicyAction::Apply, 10).with_sa(9));
    spd.add(SecurityPolicy::new(TrafficSelector::new(None, None, 0), PolicyAction::Discard, 100));
    let prios: Vec<u32> = spd.all().iter().map(|p| p.priority).collect();
    assert_eq!(prios, vec![10, 100, 100]);
    assert_eq!(spd.all()[1].action, PolicyAction::Bypass);
    assert_eq!(spd.lookup(v4(1, 1, 1, 1), v4(2, 2, 2, 2), 6).unwrap().sa_ref, Some(9));
    assert_eq!(spd.lookup(v4(1, 1, 1, 1), v4(2, 2, 2, 2), 17).unwrap().action, PolicyAction::Bypass);
    assert_eq!(spd.remove(100).unwrap().action, PolicyAction::Bypass);
    assert!(spd.remove(55).is_none());
    assert_eq!(spd.len(), 2);
}

#[test]
fn sa_test_protocol_from_u8() {
    assert_eq!(IpsecProtocol::from_u8(50), Some(IpsecProtocol::Esp));
    assert_eq!(IpsecProtocol::from_u8(51), Some(IpsecProtocol::Ah));
    assert_eq!(IpsecProtocol::from_u8(99), None);
    assert_eq!(IpsecProtocol::Ah.as_u8(), 51);
}

#[test]
fn transform_sizes() {
    assert_eq!(CipherTransform::AesGcm { key_size: 32, icv_size: 16 }.key_size(), 32);
    assert_eq!(CipherTransform::TripleDesCbc.key_size(), 24);
    assert_eq!(CipherTransform::Null.block_size(), 1);
    assert_eq!(CipherTransform::AesCtr { key_size: 16 }.block_size(), 16);
    assert_eq!(AuthTransform::HmacSha2_384.icv_size(), 24);
    assert_eq!(AuthTransform::HmacSha2_512.key_size(), 64);
}

#[test]
fn errors_convert_between_layers() {
    let e = IpsecError::from_core(CoreError::ParseError("short".to_string()));
    assert_eq!(e, IpsecError::ParseError("short".to_string()));
    let e = IpsecError::from_core(CoreError::InvalidPacket("bad".to_string()));
    assert_eq!(e, IpsecError::ParseError("bad".to_string()));
    let e = IpsecError::from_core(CoreError::UnsupportedProtocol("x\"y".to_string()));
    assert_eq!(e, IpsecError::Other("UnsupportedProtocol(\"x\\\"y\")".to_string()));
    let e = IkeError::from_core(CoreError::IpConflict("dup".to_string()));
    assert_eq!(e, IkeError::Other("IpConflict(\"dup\")".to_string()));

    assert_eq!(IpsecError::from_ike(IkeError::ParseError("p".to_string())), IpsecError::ParseError("p".to_string()));
    assert_eq!(IpsecError::from_ike(IkeError::InvalidLength), IpsecError::InvalidLength);
    assert_eq!(IpsecError::from_ike(IkeError::AuthenticationFailed), IpsecError::AuthError("认证失败".to_string()));
    assert_eq!(IpsecError::from_ike(IkeError::CryptoError("c".to_string())), IpsecError::CryptoError("c".to_string()));
    assert_eq!(IpsecError::from_ike(IkeError::Timeout), IpsecError::Other("IKEv2: Timeout".to_string()));
    assert_eq!(
        IpsecError::from_ike(IkeError::UnsupportedPayloadType(7)),
        IpsecError::Other("IKEv2: UnsupportedPayloadType(7)".to_string())
    );
    assert_eq!(
        IpsecError::from_ike(IkeError::DhError("g".to_string())),
        IpsecError::Other("IKEv2: DhError(\"g\")".to_string())
    );
}

#[test]
fn esp_parse_refuses_trailer_inside_header() {
    let data = [0, 0, 0, 1, 0, 0, 0, 1, 8, 6];
    assert_eq!(EspPacket::parse(&data, 0).err(), Some(IpsecError::InvalidLength));
}

#[test]
fn sa_replay_accepts_each_number_once() {
    let mut sa = sample_sa(None, AuthTransform::Null);
    assert!(sa.check_replay(1));
    assert!(!sa.check_replay(1));
    assert!(sa.check_replay(5));
    assert!(sa.check_replay(3));
    assert!(sa.check_replay(9));
    assert!(!sa.check_replay(3));
    assert!(!sa.check_replay(5));
    assert!(!sa.check_replay(9));
    assert!(sa.check_replay(4));
    assert!(sa.check_replay(100));
    assert!(!sa.check_replay(36));
    assert!(sa.check_replay(37));
    assert!(!sa.check_replay(37));
    assert!(!sa.check_replay(100));
}
