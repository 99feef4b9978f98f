use core_net::protocols::ipsec::ikev2::payload::{IkeCertPayload, IkeCertReqPayload, IkeVendorPayload};
use core_net::common::addr::IpAddr;
use core_net::protocols::common::addr::Ipv4Addr;
use core_net::protocols::ipsec::ikev2::crypto::{generate_dh_keypair, random_bytes_from, spi_from_timestamp};
use core_net::protocols::ipsec::ikev2::{
    compute_dh_shared, compute_key_material, generate_random_nonce, generate_random_spi, IkeAuthMethod,
    IkeAuthPayload, IkeCrypto, IkeDhGroup, IkeError, IkeEvent, IkeExchangeType, IkeFlags, IkeHeader, IkeIdPayload,
    IkeIdType, IkeInitiatorState, IkeKePayload, IkeKeyMaterial, IkeMessage, IkeNoncePayload, IkePayload,
    IkePayloadHeader, IkePayloadType, IkeProcessor, IkeProposal, IkeProtocolId, IkePseudoRandomFunction,
    IkeResponderState, IkeRole, IkeSaConfig, IkeSaEntry, IkeSaId, IkeSaManager, IkeSaPayload, IkeSaState,
    IkeStateMachine, IkeTransform, IkeTransformType, IkeTsPayload, TrafficSelector, TsType, IKEV2_NAT_PORT,
    IKEV2_PORT, IKEV2_VERSION, IKE_HEADER_LEN, SPI_LEN,
};

fn v4(a: u8, b: u8, c: u8, d: u8) -> IpAddr {
    IpAddr::V4(Ipv4Addr::new([a, b, c, d]))
}

#[test]
fn test_prf_plus() {
    let key = vec![0x01, 0x02, 0x03, 0x04];
    let data = vec![0xAA, 0xBB, 0xCC];
    let result = IkePseudoRandomFunction::prf_plus(&key, &data, 64);
    assert_eq!(result.len(), 64);
    assert!(!result.iter().all(|&b| b == 0));
}

#[test]
fn prf_plus_prefix_property() {
    let key = vec![9u8, 8, 7];
    let data = vec![1u8, 2];
    let long = IkePseudoRandomFunction::prf_plus(&key, &data, 70);
    let short = IkePseudoRandomFunction::prf_plus(&key, &data, 33);
    assert_eq!(&long[..33], &short[..]);
    assert!(IkePseudoRandomFunction::prf_plus(&key, &data, 0).is_empty());
}

#[test]
fn test_compute_skeyseed() {
    let ni = vec![0x01; 32];
    let nr = vec![0x02; 32];
    let dh_shared = vec![0x03; 32];
    let skeyseed = IkePseudoRandomFunction::compute_skeyseed(&ni, &nr, &dh_shared);
    assert_eq!(skeyseed.len(), 32);
    assert!(!skeyseed.iter().all(|&b| b == 0));
}

#[test]
fn skeyseed_first_byte() {
    // byte 0: ((1 * 3 + 3) ^ 0) * 7 = 42
    let s = IkePseudoRandomFunction::compute_skeyseed(&[1], &[], &[3]);
    assert_eq!(s[0], 42);
    // byte 1: ((1 * 3 + 3) ^ 1) * 7 = 49
    assert_eq!(s[1], 49);
}

#[test]
fn test_compute_key_material() {
    let ni = vec![0x01; 32];
    let nr = vec![0x02; 32];
    let dh_shared = vec![0x03; 32];
    let spi_i = [0x11; 8];
    let spi_r = [0x22; 8];
    let keymat = compute_key_material(&ni, &nr, &dh_shared, &spi_i, &spi_r, 32, 32).unwrap();
    assert_eq!(keymat.sk_d.len(), 32);
    assert_eq!(keymat.sk_ai.len(), 32);
    assert_eq!(keymat.sk_ar.len(), 32);
    assert_eq!(keymat.sk_ei.len(), 32);
    assert_eq!(keymat.sk_er.len(), 32);
    assert_eq!(keymat.sk_pi.len(), 32);
    assert_eq!(keymat.sk_pr.len(), 32);
}

#[test]
fn test_dh_keypair() {
    let (private, public) = generate_dh_keypair(IkeDhGroup::MODP2048).unwrap();
    assert_eq!(private.len(), 32);
    assert_eq!(public.len(), 32);
    assert_eq!(private[0], 0);
    assert_eq!(public[0], 0x13);
}

#[test]
fn test_dh_shared() {
    let (private1, public1) = generate_dh_keypair(IkeDhGroup::MODP2048).unwrap();
    let (_, public2) = generate_dh_keypair(IkeDhGroup::MODP2048).unwrap();
    let shared1 = compute_dh_shared(IkeDhGroup::MODP2048, &public2, &private1).unwrap();
    let shared2 = compute_dh_shared(IkeDhGroup::MODP2048, &public1, &private1).unwrap();
    assert_eq!(shared1.len(), 32);
    assert_eq!(shared2.len(), 32);
}

#[test]
fn dh_shared_pads_short_keys() {
    let s = compute_dh_shared(IkeDhGroup::ECP256, &[0xF0, 0x0F, 0xFF], &[0xFF, 0xFF]).unwrap();
    assert_eq!(s.len(), 32);
    assert_eq!(&s[..3], &[0x0F, 0xF0, 0x00]);
    let long = compute_dh_shared(IkeDhGroup::ECP256, &[1u8; 40], &[3u8; 40]).unwrap();
    assert_eq!(long, vec![2u8; 40]);
}

#[test]
fn test_random_spi() {
    let spi1 = generate_random_spi();
    let spi2 = generate_random_spi();
    assert_ne!(spi1, [0u8; 8]);
    assert_ne!(spi2, [0u8; 8]);
    assert_ne!(spi1, spi2);
}

#[test]
fn spi_from_fixed_timestamp() {
    let a = spi_from_timestamp(12345);
    let b = spi_from_timestamp(12345);
    assert_eq!(a, b);
    assert_ne!(a, [0u8; 8]);
    assert_eq!(&random_bytes_from(12345, 8)[..], &a[..]);
}

#[test]
fn test_random_nonce() {
    let nonce1 = generate_random_nonce(32);
    let nonce2 = generate_random_nonce(32);
    assert_eq!(nonce1.len(), 32);
    assert_eq!(nonce2.len(), 32);
    assert_ne!(nonce1, nonce2);
}

#[test]
fn test_encrypt_decrypt() {
    let key = vec![0x01, 0x02, 0x03, 0x04];
    let iv = vec![0x05, 0x06, 0x07, 0x08];
    let plaintext = b"Hello, World!".to_vec();
    let ciphertext = IkeCrypto::encrypt(&key, &plaintext, &iv);
    let decrypted = IkeCrypto::decrypt(&key, &ciphertext, &iv);
    assert_eq!(decrypted, plaintext);
    // byte 0: 'H' ^ 1 ^ 5 ^ 73
    assert_eq!(ciphertext[0], b'H' ^ 1 ^ 5 ^ 73);
}

#[test]
fn test_compute_mac() {
    let key = vec![0x01, 0x02, 0x03, 0x04];
    let data = vec![0xAA, 0xBB, 0xCC];
    let mac1 = IkeCrypto::compute_mac(&key, &data, 16);
    let mac2 = IkeCrypto::compute_mac(&key, &data, 16);
    assert_eq!(mac1, mac2);
    assert!(IkeCrypto::verify_mac(&key, &data, &mac1));
    let mut bad = mac1.clone();
    bad[0] ^= 1;
    assert!(!IkeCrypto::verify_mac(&key, &data, &bad));
}

#[test]
fn test_compute_auth_data() {
    let shared_secret = vec![0x01; 32];
    let msg_octets = vec![0x02; 64];
    let auth_data = IkeCrypto::compute_auth_data(&shared_secret, &msg_octets, 32);
    assert_eq!(auth_data.len(), 32);
}

#[test]
fn test_header_to_bytes() {
    let header = IkeHeader::new(
        [0x01, 0x02, 0x03, 0x04, 0x05, 0x06, 0x07, 0x08],
        [0x00; 8],
        IkePayloadType::SA,
        IkeExchangeType::IkeSaInit,
        IkeFlags::request(true),
        0,
    );
    let bytes = header.to_bytes();
    assert_eq!(bytes.len(), IKE_HEADER_LEN);
    assert_eq!(bytes[0..8], header.initiator_spi);
    assert_eq!(bytes[8..16], header.responder_spi);
    assert_eq!(bytes[16], IkePayloadType::SA.as_u8());
    assert_eq!(bytes[17], IKEV2_VERSION);
    assert_eq!(bytes[18], IkeExchangeType::IkeSaInit.as_u8());
    assert!(bytes[19] & 0x08 != 0);
    assert_eq!(u32::from_be_bytes([bytes[20], bytes[21], bytes[22], bytes[23]]), 0);
}

#[test]
fn test_header_from_bytes() {
    let mut data = vec![0u8; IKE_HEADER_LEN];
    data[0..8].copy_from_slice(&[0x01, 0x02, 0x03, 0x04, 0x05, 0x06, 0x07, 0x08]);
    data[8..16].copy_from_slice(&[0x00; 8]);
    data[16] = IkePayloadType::SA.as_u8();
    data[17] = IKEV2_VERSION;
    data[18] = IkeExchangeType::IkeSaInit.as_u8();
    data[19] = 0x08;
    let header = IkeHeader::from_bytes(&data).unwrap();
    assert_eq!(header.initiator_spi, [0x01, 0x02, 0x03, 0x04, 0x05, 0x06, 0x07, 0x08]);
    assert_eq!(header.responder_spi, [0u8; 8]);
    assert_eq!(header.next_payload, IkePayloadType::SA.as_u8());
    assert_eq!(header.version, IKEV2_VERSION);
    assert_eq!(header.exchange_type, IkeExchangeType::IkeSaInit);
    assert!(header.flags.initiator);
    assert!(!header.flags.response);
}

#[test]
fn test_header_invalid_length() {
    let data = vec![0u8; 10];
    let result = IkeHeader::from_bytes(&data);
    assert!(matches!(result, Err(IkeError::InvalidLength)));
}

#[test]
fn header_unsupported_exchange() {
    let mut data = vec![0u8; IKE_HEADER_LEN];
    data[18] = 99;
    assert!(matches!(IkeHeader::from_bytes(&data), Err(IkeError::UnsupportedExchangeType(99))));
    assert_eq!(IkeError::UnsupportedExchangeType(99).to_string(), "不支持的交换类型: 99");
}

#[test]
fn test_init_request_header() {
    let spi = [0x01, 0x02, 0x03, 0x04, 0x05, 0x06, 0x07, 0x08];
    let header = IkeHeader::init_request(spi);
    assert_eq!(header.initiator_spi, spi);
    assert_eq!(header.responder_spi, [0u8; 8]);
    assert_eq!(header.exchange_type, IkeExchangeType::IkeSaInit);
    assert!(header.flags.initiator);
    assert!(!header.flags.response);
    assert_eq!(header.message_id, 0);
}

#[test]
fn test_response_header() {
    let request_header = IkeHeader::init_request([0x01, 0x02, 0x03, 0x04, 0x05, 0x06, 0x07, 0x08]);
    let response_header = request_header.response(IkePayloadType::SA, 100);
    assert_eq!(response_header.initiator_spi, request_header.initiator_spi);
    assert_eq!(response_header.responder_spi, request_header.responder_spi);
    assert_eq!(response_header.exchange_type, request_header.exchange_type);
    assert!(response_header.flags.response);
    assert_eq!(response_header.length, 100);
}

#[test]
fn message_roundtrip_with_nonce() {
    let nonce = IkePayload::Nonce(IkeNoncePayload::new(IkePayloadType::NoNext, vec![7u8; 16]));
    let message = IkeMessage::init_request([1, 2, 3, 4, 5, 6, 7, 8], vec![nonce]);
    assert_eq!(message.header.next_payload, IkePayloadType::Nonce.as_u8());
    let bytes = message.to_bytes();
    assert_eq!(bytes.len(), 28 + 20);
    assert_eq!(&bytes[24..28], &[0, 0, 0, 48]);
    let parsed = IkeMessage::from_bytes(&bytes).unwrap();
    assert_eq!(parsed.payloads.len(), 1);
    match &parsed.payloads[0] {
        IkePayload::Nonce(n) => assert_eq!(n.nonce_data, vec![7u8; 16]),
        _ => panic!("expected a nonce payload"),
    }
    assert_eq!(parsed.message_id(), 0);
    assert_eq!(parsed.exchange_type(), IkeExchangeType::IkeSaInit);
    assert!(!parsed.is_response());
    assert!(parsed.get_payload(IkePayloadType::Nonce).is_some());
    assert!(parsed.get_payload(IkePayloadType::KE).is_none());
    assert_eq!(parsed.get_payloads(IkePayloadType::Nonce).len(), 1);
}

#[test]
fn message_length_beyond_data() {
    let message = IkeMessage::init_request([1, 2, 3, 4, 5, 6, 7, 8], vec![]);
    let mut bytes = message.to_bytes();
    bytes[27] = 100;
    assert!(matches!(IkeMessage::from_bytes(&bytes), Err(IkeError::InvalidLength)));
}

#[test]
fn test_exchange_type_conversion() {
    assert_eq!(IkeExchangeType::from_u8(34), Some(IkeExchangeType::IkeSaInit));
    assert_eq!(IkeExchangeType::IkeSaInit.as_u8(), 34);
    assert_eq!(IkeExchangeType::from_u8(99), None);
}

#[test]
fn test_payload_type_conversion() {
    assert_eq!(IkePayloadType::from_u8(33), Some(IkePayloadType::SA));
    assert_eq!(IkePayloadType::SA.as_u8(), 33);
    assert_eq!(IkePayloadType::from_u8(99), None);
}

#[test]
fn test_flags() {
    let flags = IkeFlags::request(true);
    assert!(flags.initiator);
    assert!(!flags.response);
    let value = flags.as_u8();
    let decoded = IkeFlags::from_u8(value);
    assert_eq!(decoded.initiator, flags.initiator);
    assert_eq!(decoded.response, flags.response);
    assert_eq!(IkeFlags::response(true).as_u8(), 0x28);
}

#[test]
fn test_dh_group_conversion() {
    assert_eq!(IkeDhGroup::from_u16(14), Some(IkeDhGroup::MODP2048));
    assert_eq!(IkeDhGroup::MODP2048.as_u16(), 14);
    assert_eq!(IkeDhGroup::from_u16(99), None);
}

#[test]
fn test_auth_method_conversion() {
    assert_eq!(IkeAuthMethod::from_u8(1), Some(IkeAuthMethod::SharedKey));
    assert_eq!(IkeAuthMethod::SharedKey.as_u8(), 1);
    assert_eq!(IkeAuthMethod::from_u8(99), None);
}

#[test]
fn test_constants() {
    assert_eq!(IKEV2_PORT, 500);
    assert_eq!(IKEV2_NAT_PORT, 4500);
    assert_eq!(IKEV2_VERSION, 0x20);
    assert_eq!(IKE_HEADER_LEN, 28);
    assert_eq!(SPI_LEN, 8);
}

#[test]
fn test_payload_header() {
    let header = IkePayloadHeader::new(IkePayloadType::SA, false, 100);
    let bytes = header.to_bytes();
    assert_eq!(bytes[0], IkePayloadType::SA.as_u8());
    assert_eq!(bytes[1], 0);
    assert_eq!(u16::from_be_bytes([bytes[2], bytes[3]]), 100);
}

#[test]
fn test_ke_payload() {
    let public_key = vec![0x01, 0x02, 0x03, 0x04];
    let payload = IkeKePayload::new(IkePayloadType::NoNext, IkeDhGroup::MODP2048, public_key.clone());
    let bytes = payload.to_bytes();
    assert_eq!(bytes.len(), 4 + 4 + public_key.len());
    let decoded = IkeKePayload::from_bytes(&bytes).unwrap();
    assert_eq!(decoded.dh_group, IkeDhGroup::MODP2048);
    assert_eq!(decoded.public_key, public_key);
}

#[test]
fn test_nonce_payload() {
    let nonce_data = vec![0xAA, 0xBB, 0xCC, 0xDD];
    let payload = IkeNoncePayload::new(IkePayloadType::NoNext, nonce_data.clone());
    let bytes = payload.to_bytes();
    assert_eq!(bytes.len(), 4 + nonce_data.len());
    let decoded = IkeNoncePayload::from_bytes(&bytes).unwrap();
    assert_eq!(decoded.nonce_data, nonce_data);
}

#[test]
fn test_traffic_selector_ipv4() {
    let ts = TrafficSelector::ipv4(6, 1000, 2000, Ipv4Addr::new([192, 168, 1, 1]), Ipv4Addr::new([192, 168, 1, 255]));
    let bytes = ts.to_bytes();
    assert_eq!(bytes[0], TsType::Ipv4.as_u8());
    assert_eq!(bytes[1], 6);
    let decoded = TrafficSelector::from_bytes(&bytes).unwrap();
    assert_eq!(decoded.ts_type, TsType::Ipv4);
    assert_eq!(decoded.protocol_id, 6);
    assert_eq!(decoded.start_port, 1000);
    assert_eq!(decoded.end_port, 2000);
}

#[test]
fn ts_payload_parse() {
    let ts = TrafficSelector::ipv4(17, 1, 2, Ipv4Addr::new([10, 0, 0, 1]), Ipv4Addr::new([10, 0, 0, 9]));
    let payload = IkeTsPayload::new(IkePayloadType::NoNext, vec![ts.clone(), ts.clone()]);
    assert_eq!(payload.num_ts, 2);
    assert_eq!(payload.to_bytes().len(), 11 + 32);
    let mut bytes = vec![0u8, 0, 0, 24, 0, 0, 0, 1];
    bytes.extend_from_slice(&ts.to_bytes());
    let parsed = IkeTsPayload::from_bytes(&bytes).unwrap();
    assert_eq!(parsed.num_ts, 1);
    assert_eq!(parsed.traffic_selectors.len(), 1);
    assert_eq!(parsed.traffic_selectors[0].end_addr, vec![10, 0, 0, 9]);
}

#[test]
fn payload_parse_errors() {
    assert!(matches!(IkeKePayload::from_bytes(&[0, 0, 0, 8, 0, 99, 0, 0]), Err(IkeError::ParseError(_))));
    assert!(matches!(IkeIdPayload::from_bytes(&[0; 5]), Err(IkeError::InvalidLength)));
    assert!(matches!(IkeAuthPayload::from_bytes(&[0, 0, 0, 8, 7, 0, 0, 0]), Err(IkeError::ParseError(_))));
    assert!(matches!(IkePayload::from_bytes(&[0, 0, 0, 4], IkePayloadType::NoNext), Err(IkeError::UnsupportedPayloadType(0))));
}

#[test]
fn sa_payload_parse() {
    let bytes = [
        34u8, 0, 0, 22, 0, 0, // header and DOI
        0, 1, 1, 0, 1, 0, 0, 0, // proposal: last, number 1, IKE, no SPI, one transform
        0, 0, 4, 0, 0, 14, 0, 0, // transform: last, DH group 14
    ];
    let parsed = IkeSaPayload::from_bytes(&bytes).unwrap();
    assert_eq!(parsed.next_payload, IkePayloadType::KE);
    assert_eq!(parsed.proposals.len(), 1);
    assert!(parsed.proposals[0].is_last);
    assert_eq!(parsed.proposals[0].protocol_id, IkeProtocolId::Ike);
    assert_eq!(parsed.proposals[0].transforms[0].transform_id, 14);
    assert_eq!(parsed.proposals[0].transforms[0].transform_type, IkeTransformType::DhGroup);
    assert_eq!(parsed.proposals[0].to_bytes_len(), 16);
    let mut bad = bytes;
    bad[8] = 9;
    assert!(matches!(IkeSaPayload::from_bytes(&bad), Err(IkeError::ParseError(m)) if m == "无效的协议 ID"));
}

fn responder_processor() -> IkeProcessor {
    let config = IkeSaConfig::new(
        IkeRole::Responder,
        v4(192, 168, 1, 2),
        v4(192, 168, 1, 1),
        IkeDhGroup::MODP2048,
        IkeAuthMethod::SharedKey,
    );
    IkeProcessor::new(IkeSaManager::new(), v4(192, 168, 1, 2), config)
}

#[test]
fn test_create_init_request() {
    let config = IkeSaConfig::new(
        IkeRole::Initiator,
        v4(192, 168, 1, 1),
        v4(192, 168, 1, 2),
        IkeDhGroup::MODP2048,
        IkeAuthMethod::SharedKey,
    );
    let mut processor = IkeProcessor::new(IkeSaManager::new(), v4(192, 168, 1, 1), config);
    let message = processor.initiate_sa(v4(192, 168, 1, 2), 0).unwrap();
    assert_eq!(message.header.exchange_type, IkeExchangeType::IkeSaInit);
    assert!(!message.header.is_response());
    assert!(!message.payloads.is_empty());
    assert_eq!(processor.sa_manager().len(), 1);
    assert!(processor.sa_manager().get_by_spi(&message.header.initiator_spi).is_some());
    match &message.payloads[0] {
        IkePayload::SA(sa) => {
            let t = &sa.proposals[0].transforms;
            assert_eq!(t.len(), 4);
            assert_eq!((t[0].transform_type, t[0].transform_id), (IkeTransformType::Encryption, 14));
            assert_eq!((t[1].transform_type, t[1].transform_id), (IkeTransformType::Prf, 2));
            assert_eq!((t[2].transform_type, t[2].transform_id), (IkeTransformType::Integrity, 2));
            assert_eq!((t[3].transform_type, t[3].transform_id), (IkeTransformType::DhGroup, 14));
            assert!(t[3].is_last && !t[2].is_last);
        },
        _ => panic!("the first payload is the proposal"),
    }
}

#[test]
fn test_process_init_request() {
    let processor = responder_processor();
    let initiator_spi = generate_random_spi();
    let (_, dh_public) = generate_dh_keypair(IkeDhGroup::MODP2048).unwrap();
    let ni = generate_random_nonce(32);
    let proposal = IkeProposal {
        is_last: true,
        proposal_num: 1,
        protocol_id: IkeProtocolId::Ike,
        spi_size: 0,
        num_transforms: 1,
        spi: vec![],
        transforms: vec![IkeTransform {
            is_last: true,
            transform_type: IkeTransformType::DhGroup,
            transform_id: 14,
            attributes: vec![],
        }],
    };
    let sa_payload = IkeSaPayload { next_payload: IkePayloadType::KE, critical: false, proposals: vec![proposal] };
    let ke_payload = IkeKePayload {
        next_payload: IkePayloadType::Nonce,
        critical: false,
        dh_group: IkeDhGroup::MODP2048,
        public_key: dh_public,
    };
    let nonce_payload = IkeNoncePayload { next_payload: IkePayloadType::NoNext, critical: false, nonce_data: ni };
    let mut header = IkeHeader::init_request(initiator_spi);
    header.next_payload = IkePayloadType::SA.as_u8();
    let message = IkeMessage::new(
        header,
        vec![IkePayload::SA(sa_payload), IkePayload::KE(ke_payload), IkePayload::Nonce(nonce_payload)],
    );
    let response = processor.process_message(&message, v4(192, 168, 1, 1), 0).unwrap();
    assert!(response.is_some());
    assert!(response.as_ref().unwrap().is_response());
    assert_eq!(response.as_ref().unwrap().payloads.len(), 3);
}

#[test]
fn process_message_errors() {
    let processor = responder_processor();
    let mut header = IkeHeader::init_request([1, 2, 3, 4, 5, 6, 7, 8]);
    let empty = IkeMessage::new(header, vec![]);
    assert!(matches!(processor.process_message(&empty, v4(1, 1, 1, 1), 0),
        Err(IkeError::ParseError(m)) if m == "缺少必需的 Payload"));
    header.flags = IkeFlags::response(true);
    let response = IkeMessage::new(header, vec![]);
    assert!(matches!(processor.process_message(&response, v4(1, 1, 1, 1), 0), Err(IkeError::SaNotFound)));
    let mut bad_version = IkeHeader::init_request([1, 2, 3, 4, 5, 6, 7, 8]);
    bad_version.version = 0x10;
    assert!(matches!(processor.process_message(&IkeMessage::new(bad_version, vec![]), v4(1, 1, 1, 1), 0),
        Err(IkeError::ParseError(m)) if m == "不支持的 IKE 版本"));
    let zero = IkeHeader::init_request([0; 8]);
    assert!(matches!(processor.process_message(&IkeMessage::new(zero, vec![]), v4(1, 1, 1, 1), 0),
        Err(IkeError::InvalidSpi)));
    let mut auth = IkeHeader::init_request([1, 2, 3, 4, 5, 6, 7, 8]);
    auth.exchange_type = IkeExchangeType::IkeAuth;
    assert!(matches!(processor.process_message(&IkeMessage::new(auth, vec![]), v4(1, 1, 1, 1), 0),
        Err(IkeError::AuthenticationFailed)));
    let auth_payload = IkePayload::AUTH(IkeAuthPayload::new(IkePayloadType::NoNext, IkeAuthMethod::SharedKey, vec![1]));
    let reply = processor.process_message(&IkeMessage::new(auth, vec![auth_payload]), v4(1, 1, 1, 1), 0).unwrap().unwrap();
    assert_eq!(reply.payloads.len(), 2);
    assert_eq!(reply.header.next_payload, IkePayloadType::IDr.as_u8());
    let mut child = IkeHeader::init_request([1, 2, 3, 4, 5, 6, 7, 8]);
    child.exchange_type = IkeExchangeType::CreateChildSa;
    let ack = processor.process_message(&IkeMessage::new(child, vec![]), v4(1, 1, 1, 1), 0).unwrap().unwrap();
    assert_eq!(ack.header.length, 28);
    assert!(ack.payloads.is_empty());
    let mut info = IkeHeader::init_request([1, 2, 3, 4, 5, 6, 7, 8]);
    info.exchange_type = IkeExchangeType::Informational;
    assert!(processor.process_message(&IkeMessage::new(info, vec![]), v4(1, 1, 1, 1), 0).unwrap().is_none());
}

#[test]
fn test_sa_id() {
    let id = IkeSaId::new([0x01, 0x02, 0x03, 0x04, 0x05, 0x06, 0x07, 0x08], [0x11, 0x12, 0x13, 0x14, 0x15, 0x16, 0x17, 0x18]);
    assert!(id.matches(&[0x01, 0x02, 0x03, 0x04, 0x05, 0x06, 0x07, 0x08], &[0x11, 0x12, 0x13, 0x14, 0x15, 0x16, 0x17, 0x18]));
    assert!(id.matches(&[0x01, 0x02, 0x03, 0x04, 0x05, 0x06, 0x07, 0x08], &[0x00; 8]));
    assert!(!id.matches(&[0x09; 8], &[0x11, 0x12, 0x13, 0x14, 0x15, 0x16, 0x17, 0x18]));
}

#[test]
fn test_sa_state() {
    assert!(!IkeSaState::Idle.can_process());
    assert!(IkeSaState::Established.can_process());
    assert!(IkeSaState::Deleted.is_terminal());
    assert!(!IkeSaState::Established.is_terminal());
}

#[test]
fn test_key_material() {
    let keymat = IkeKeyMaterial::new(
        vec![1u8; 32],
        vec![2u8; 32],
        vec![3u8; 32],
        vec![4u8; 32],
        vec![5u8; 32],
        vec![6u8; 32],
        vec![7u8; 32],
    );
    assert_eq!(keymat.initiator_enc_key(), &[4u8; 32]);
    assert_eq!(keymat.responder_enc_key(), &[5u8; 32]);
    assert_eq!(keymat.initiator_auth_key(), &[2u8; 32]);
    assert_eq!(keymat.responder_auth_key(), &[3u8; 32]);
}

fn initiator_config() -> IkeSaConfig {
    IkeSaConfig::new(IkeRole::Initiator, v4(192, 168, 1, 1), v4(192, 168, 1, 2), IkeDhGroup::MODP2048, IkeAuthMethod::SharedKey)
}

#[test]
fn test_sa_entry() {
    let spi = [0x01, 0x02, 0x03, 0x04, 0x05, 0x06, 0x07, 0x08];
    let mut sa = IkeSaEntry::new(initiator_config(), spi, 0);
    assert_eq!(sa.initiator_spi, spi);
    assert_eq!(sa.state, IkeSaState::Idle);
    sa.set_responder_spi([0x11, 0x12, 0x13, 0x14, 0x15, 0x16, 0x17, 0x18]);
    sa.set_state(IkeSaState::InitSent);
    assert_eq!(sa.responder_spi, [0x11, 0x12, 0x13, 0x14, 0x15, 0x16, 0x17, 0x18]);
    assert_eq!(sa.state, IkeSaState::InitSent);
    assert_eq!(sa.remote_spi, [0x11, 0x12, 0x13, 0x14, 0x15, 0x16, 0x17, 0x18]);
}

#[test]
fn sa_entry_children_and_ids() {
    let mut sa = IkeSaEntry::new(initiator_config(), [1; 8], 0);
    sa.add_child_sa(5);
    sa.add_child_sa(6);
    sa.add_child_sa(5);
    assert_eq!(sa.child_sas, vec![5, 6]);
    sa.remove_child_sa(5);
    assert_eq!(sa.child_sas, vec![6]);
    assert_eq!(sa.next_message_id(), 0);
    assert_eq!(sa.next_message_id(), 1);
    assert!(sa.get_enc_key(true).is_none());
    sa.set_keymat(IkeKeyMaterial::new(vec![], vec![2], vec![3], vec![4], vec![5], vec![], vec![]));
    assert_eq!(sa.get_enc_key(true).unwrap(), &[4]);
    assert_eq!(sa.get_auth_key(false).unwrap(), &[3]);
    assert!(!sa.is_expired(28_799_999));
    assert!(sa.is_expired(28_800_000));
    assert!(sa.is_dying(25_920_000));
    sa.cleanup();
    assert!(sa.keymat.is_none());
}

#[test]
fn test_sa_manager() {
    let mut manager = IkeSaManager::new();
    let spi = [0x01, 0x02, 0x03, 0x04, 0x05, 0x06, 0x07, 0x08];
    let sa = IkeSaEntry::new(initiator_config(), spi, 0);
    manager.add(sa.clone()).unwrap();
    assert_eq!(manager.len(), 1);
    let found = manager.get_by_spi(&spi);
    assert!(found.is_some());
    assert_eq!(found.unwrap().initiator_spi, spi);
    manager.remove(&sa.id);
    assert_eq!(manager.len(), 0);
}

#[test]
fn sa_manager_indexes() {
    let mut manager = IkeSaManager::default();
    let a = IkeSaEntry::new(initiator_config(), [1; 8], 0);
    let mut b = IkeSaEntry::new(initiator_config(), [2; 8], 0);
    b.lifetime_secs = 1;
    manager.add(a.clone()).unwrap();
    manager.add(b.clone()).unwrap();
    assert_eq!(manager.get_by_remote_addr(&v4(192, 168, 1, 2)).len(), 2);
    assert!(manager.get(&b.id).is_some());
    manager.get_mut(&a.id).unwrap().message_id = 9;
    assert_eq!(manager.get_by_spi(&[1; 8]).unwrap().message_id, 9);
    manager.cleanup_expired(1000);
    assert_eq!(manager.len(), 1);
    assert!(manager.get(&b.id).is_none());
    assert!(manager.get_by_spi(&[2; 8]).is_none());
    assert_eq!(manager.get_by_remote_addr(&v4(192, 168, 1, 2)).len(), 1);
    assert!(!manager.is_empty());
    assert_eq!(manager.all().len(), 1);
}

#[test]
fn test_sa_config_default() {
    let config = IkeSaConfig::default();
    assert_eq!(config.role, IkeRole::Initiator);
    assert_eq!(config.dh_group, IkeDhGroup::MODP2048);
    assert_eq!(config.auth_method, IkeAuthMethod::SharedKey);
    assert_eq!(config.lifetime_soft_secs, 14400);
    assert_eq!(config.lifetime_hard_secs, 28800);
    let tuned = config.with_psk(vec![1]).with_lifetime(10, 20).with_nat_traversal(false);
    assert_eq!(tuned.psk, Some(vec![1]));
    assert_eq!(tuned.lifetime_hard_secs, 20);
    assert!(!tuned.nat_traversal);
}

#[test]
fn test_initiator_state_transitions() {
    let mut state = IkeInitiatorState::Idle;
    state.transition(&IkeEvent::SendInitRequest).unwrap();
    assert_eq!(state, IkeInitiatorState::InitSent);
    state.transition(&IkeEvent::ReceiveInitResponse).unwrap();
    assert_eq!(state, IkeInitiatorState::AuthSent);
    state.transition(&IkeEvent::ReceiveAuthResponse).unwrap();
    assert_eq!(state, IkeInitiatorState::Established);
    assert!(state.can_send());
}

#[test]
fn test_responder_state_transitions() {
    let mut state = IkeResponderState::Idle;
    state.transition(&IkeEvent::ReceiveInitRequest).unwrap();
    assert_eq!(state, IkeResponderState::InitResponded);
    state.transition(&IkeEvent::ReceiveAuthRequest).unwrap();
    assert_eq!(state, IkeResponderState::Established);
    assert!(state.can_process());
}

#[test]
fn test_invalid_transition() {
    let mut state = IkeInitiatorState::Idle;
    let result = state.transition(&IkeEvent::ReceiveAuthResponse);
    assert!(result.is_err());
}

#[test]
fn invalid_transition_message_and_reset() {
    let mut state = IkeInitiatorState::AuthSent;
    let result = state.transition(&IkeEvent::DeleteSa);
    assert!(matches!(result, Err(IkeError::SaStateError(m)) if m == "无效的状态转换: AuthSent + DeleteSa"));
    assert_eq!(state, IkeInitiatorState::Idle);
}

#[test]
fn test_state_machine() {
    let mut sm = IkeStateMachine::new(IkeRole::Initiator);
    assert_eq!(sm.state(), IkeSaState::Idle);
    sm.handle_event(IkeEvent::SendInitRequest).unwrap();
    assert_eq!(sm.state(), IkeSaState::InitSent);
    sm.handle_event(IkeEvent::ReceiveInitResponse).unwrap();
    assert_eq!(sm.state(), IkeSaState::AuthSent);
    sm.handle_event(IkeEvent::ReceiveAuthResponse).unwrap();
    assert_eq!(sm.state(), IkeSaState::Established);
}

#[test]
fn test_retransmit() {
    let mut sm = IkeStateMachine::new(IkeRole::Initiator);
    assert_eq!(sm.retransmit_count(), 0);
    assert!(!sm.is_retransmit_exceeded());
    sm.increment_retransmit();
    sm.increment_retransmit();
    assert_eq!(sm.retransmit_count(), 2);
    assert!(!sm.is_retransmit_exceeded());
    sm.increment_retransmit();
    assert!(sm.is_retransmit_exceeded());
    sm.set_max_retransmit(5);
    assert!(!sm.is_retransmit_exceeded());
}

#[test]
fn test_responder_state_machine() {
    let mut sm = IkeStateMachine::new(IkeRole::Responder);
    assert_eq!(sm.state(), IkeSaState::Idle);
    sm.handle_event(IkeEvent::ReceiveInitRequest).unwrap();
    assert_eq!(sm.state(), IkeSaState::InitSent);
    sm.handle_event(IkeEvent::ReceiveAuthRequest).unwrap();
    assert_eq!(sm.state(), IkeSaState::Established);
    assert_eq!(sm.responder_state(), &IkeResponderState::Established);
    assert_eq!(sm.initiator_state(), &IkeInitiatorState::Idle);
}

#[test]
fn id_payload_protocol_port() {
    let mut p = IkeIdPayload::new(IkePayloadType::NoNext, IkeIdType::IdFqdn, vec![b'a']);
    p.protocol_id = Some(17);
    p.port = Some(0x01F4);
    let bytes = p.to_bytes();
    assert_eq!(&bytes[5..7], &[0x11 | 0x01, 0xF4]);
}

#[test]
fn payloads_read_back_what_was_written() {
    let auth = IkeAuthPayload {
        next_payload: IkePayloadType::Nonce,
        critical: true,
        auth_method: IkeAuthMethod::SharedKey,
        auth_data: vec![9, 8, 7],
    };
    assert_eq!(IkeAuthPayload::from_bytes(&auth.to_bytes()).unwrap(), auth);
    let cert = IkeCertPayload { next_payload: IkePayloadType::NoNext, critical: false, cert_data: vec![1, 2] };
    assert_eq!(IkeCertPayload::from_bytes(&cert.to_bytes()).unwrap(), cert);
    let req = IkeCertReqPayload { next_payload: IkePayloadType::AUTH, critical: false, cert_type: 4, ca_data: vec![3] };
    assert_eq!(IkeCertReqPayload::from_bytes(&req.to_bytes()).unwrap(), req);
    let vendor = IkeVendorPayload { next_payload: IkePayloadType::KE, critical: true, vendor_id: vec![0xde, 0xad] };
    assert_eq!(IkeVendorPayload::from_bytes(&vendor.to_bytes()).unwrap(), vendor);
    let id = IkeIdPayload::new(IkePayloadType::NoNext, IkeIdType::IdIpv4Addr, vec![10, 0, 0, 1]);
    let back = IkeIdPayload::from_bytes(&id.to_bytes()).unwrap();
    assert_eq!(back.id_data, vec![0, 0, 10, 0, 0, 1]);
}
