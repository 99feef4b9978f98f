use core_net::common::addr::Ipv6Addr;
use core_net::protocols::common::addr::Ipv4Addr;
use core_net::protocols::common::packet::Packet;
use core_net::protocols::icmp::types::ICMP_TYPE_PARAMETER_PROBLEM;
use core_net::protocols::icmp::{
    cleanup_echo_timeouts, create_dest_unreachable, create_echo_reply, create_echo_request,
    create_icmpv6_echo_request, handle_echo_reply, handle_echo_request, process_icmp_packet, process_icmpv6_packet,
    register_echo_request, extract_ip_header_plus_data, EchoManager, EchoProcessResult, IcmpDestUnreachable, IcmpEcho,
    IcmpParameterProblem, IcmpProcessResult, IcmpTimeExceeded, IcmpType, PendingEcho, ICMP_TYPE_DEST_UNREACHABLE,
    ICMP_TYPE_ECHO_REPLY, ICMP_TYPE_ECHO_REQUEST, ICMP_TYPE_TIME_EXCEEDED,
};
use core_net::protocols::ip::verify_checksum;

fn ip(a: u8, b: u8, c: u8, d: u8) -> Ipv4Addr {
    Ipv4Addr::new([a, b, c, d])
}

fn original() -> Vec<u8> {
    vec![
        0x45, 0x00, 0x00, 0x1c, 0x00, 0x00, 0x00, 0x00, 0x40, 0x01, 0x00, 0x00, 0xc0, 0xa8, 0x01, 0x01, 0xc0, 0xa8,
        0x01, 0x02, 0x00, 0x00, 0x00, 0x00, 0x00, 0x00, 0x00, 0x00,
    ]
}

#[test]
fn test_handle_echo_request() {
    let request = IcmpEcho::new_request(1234, 1, vec![0x42; 32]);
    let result = handle_echo_request(&request, ip(192, 168, 1, 100)).unwrap();
    match result {
        EchoProcessResult::Reply(reply) => {
            assert_eq!(reply.type_, 0);
            assert_eq!(reply.identifier, 1234);
            assert_eq!(reply.sequence, 1);
        }
        _ => panic!("Expected Reply"),
    }
}

#[test]
fn test_handle_echo_reply_no_match() {
    let reply = IcmpEcho::new_reply(1234, 1, vec![0x42; 32]);
    let mut mgr = EchoManager::default();
    let result = handle_echo_reply(&reply, ip(192, 168, 1, 1), &mut mgr, 0).unwrap();
    assert_eq!(result, EchoProcessResult::NoReply);
}

#[test]
fn test_register_and_match() {
    let dest = ip(192, 168, 1, 1);
    let mut mgr = EchoManager::default();
    register_echo_request(1234, 1, dest, &mut mgr, 1000).unwrap();
    let reply = IcmpEcho::new_reply(1234, 1, vec![0x42; 32]);
    let result = handle_echo_reply(&reply, dest, &mut mgr, 1020).unwrap();
    match result {
        EchoProcessResult::Matched { identifier, sequence, rtt_ms } => {
            assert_eq!(identifier, 1234);
            assert_eq!(sequence, 1);
            assert_eq!(rtt_ms, 20);
        }
        _ => panic!("Expected Matched"),
    }
}

#[test]
fn test_cleanup_timeouts() {
    let mut mgr = EchoManager::default();
    let dest = ip(192, 168, 1, 1);
    mgr.add_pending(PendingEcho::new(1234, 1, dest, 0), 0).unwrap();
    assert_eq!(mgr.pending_count(), 1);
    cleanup_echo_timeouts(&mut mgr, 10);
    assert_eq!(mgr.pending_count(), 1);
    cleanup_echo_timeouts(&mut mgr, 1000);
    assert_eq!(mgr.pending_count(), 0);
}

#[test]
fn test_handle_echo_request_destination_validation() {
    let request = IcmpEcho::new_request(1234, 1, vec![0x42; 32]);
    let result = handle_echo_request(&request, ip(192, 168, 1, 100)).unwrap();
    assert!(matches!(result, EchoProcessResult::Reply(_)));
    let result2 = handle_echo_request(&request, ip(192, 168, 1, 101)).unwrap();
    assert!(matches!(result2, EchoProcessResult::Reply(_)));
    let result3 = handle_echo_request(&request, ip(0, 0, 0, 0)).unwrap();
    assert_eq!(result3, EchoProcessResult::NoReply);
}

#[test]
fn test_echo_manager_add_remove() {
    let mut manager = EchoManager::default();
    let echo = PendingEcho::new(1234, 1, ip(192, 168, 1, 1), 0);
    manager.add_pending(echo.clone(), 0).unwrap();
    assert_eq!(manager.pending_count(), 1);
    let removed = manager.remove_pending(1234, 1);
    assert!(removed.is_some());
    assert_eq!(manager.pending_count(), 0);
}

#[test]
fn test_echo_manager_cleanup() {
    let mut manager = EchoManager::new(100, 100);
    manager.add_pending(PendingEcho::new(1234, 1, ip(192, 168, 1, 1), 0), 0).unwrap();
    manager.cleanup_timeouts(150);
    assert_eq!(manager.pending_count(), 0);
}

#[test]
fn test_echo_manager_full() {
    let mut manager = EchoManager::new(100, 1);
    manager.add_pending(PendingEcho::new(1, 1, ip(1, 1, 1, 1), 0), 0).unwrap();
    assert!(manager.add_pending(PendingEcho::new(1, 2, ip(1, 1, 1, 1), 0), 0).is_err());
    assert!(manager.get_pending(1, 1).is_some());
    assert!(manager.get_pending(1, 2).is_none());
}

#[test]
fn packet_test_echo_encode_decode() {
    let echo = IcmpEcho::new_request(1234, 1, vec![0x42; 32]);
    let bytes = echo.to_bytes();
    assert_eq!(bytes[0], ICMP_TYPE_ECHO_REQUEST);
    assert_eq!(bytes[1], 0);
    assert!(verify_checksum(&bytes, 2));
    let mut packet = Packet::from_bytes(bytes);
    let decoded = IcmpEcho::from_packet(&mut packet).unwrap();
    assert_eq!(decoded.type_, ICMP_TYPE_ECHO_REQUEST);
    assert_eq!(decoded.identifier, 1234);
    assert_eq!(decoded.sequence, 1);
}

#[test]
fn packet_test_echo_make_reply() {
    let request = IcmpEcho::new_request(1234, 1, vec![0x42; 32]);
    let reply = request.make_reply();
    assert_eq!(reply.type_, ICMP_TYPE_ECHO_REPLY);
    assert_eq!(reply.identifier, 1234);
    assert_eq!(reply.sequence, 1);
    assert_eq!(reply.data, request.data);
}

#[test]
fn test_dest_unreachable_encode_decode() {
    let dest = IcmpDestUnreachable { type_: ICMP_TYPE_DEST_UNREACHABLE, code: 0, checksum: 0, original_datagram: original() };
    let bytes = dest.to_bytes();
    assert_eq!(bytes[0], ICMP_TYPE_DEST_UNREACHABLE);
    assert_eq!(bytes[1], 0);
    let mut packet = Packet::from_bytes(bytes);
    let decoded = IcmpDestUnreachable::from_packet(&mut packet).unwrap();
    assert_eq!(decoded.type_, ICMP_TYPE_DEST_UNREACHABLE);
    assert_eq!(decoded.code, 0);
    assert_eq!(decoded.original_datagram, original());
}

#[test]
fn test_time_exceeded_encode_decode() {
    let time = IcmpTimeExceeded { type_: ICMP_TYPE_TIME_EXCEEDED, code: 0, checksum: 0, original_datagram: original() };
    let bytes = time.to_bytes();
    assert_eq!(bytes[0], ICMP_TYPE_TIME_EXCEEDED);
    assert_eq!(bytes[1], 0);
    let mut packet = Packet::from_bytes(bytes);
    let decoded = IcmpTimeExceeded::from_packet(&mut packet).unwrap();
    assert_eq!(decoded.type_, ICMP_TYPE_TIME_EXCEEDED);
    assert_eq!(decoded.code, 0);
    assert_eq!(decoded.original_datagram, original());
}

#[test]
fn test_parameter_problem_encode_decode() {
    let param = IcmpParameterProblem {
        type_: ICMP_TYPE_PARAMETER_PROBLEM,
        code: 0,
        checksum: 0,
        pointer: 8,
        original_datagram: original(),
    };
    let bytes = param.to_bytes();
    assert_eq!(bytes[0], ICMP_TYPE_PARAMETER_PROBLEM);
    assert_eq!(bytes[1], 0);
    assert_eq!(bytes[4], 8);
    let mut packet = Packet::from_bytes(bytes);
    let decoded = IcmpParameterProblem::from_packet(&mut packet).unwrap();
    assert_eq!(decoded.type_, ICMP_TYPE_PARAMETER_PROBLEM);
    assert_eq!(decoded.code, 0);
    assert_eq!(decoded.pointer, 8);
    assert_eq!(decoded.original_datagram, original());
}

#[test]
fn test_error_message_validation() {
    // code 9 is not a Destination Unreachable code
    let dest = IcmpDestUnreachable { type_: ICMP_TYPE_DEST_UNREACHABLE, code: 9, checksum: 0, original_datagram: original() };
    let mut packet = Packet::from_bytes(dest.to_bytes());
    assert!(IcmpDestUnreachable::from_packet(&mut packet).is_err());
    // original datagram too short
    let dest = IcmpDestUnreachable { type_: ICMP_TYPE_DEST_UNREACHABLE, code: 0, checksum: 0, original_datagram: vec![0x45; 10] };
    let mut packet = Packet::from_bytes(dest.to_bytes());
    assert!(IcmpDestUnreachable::from_packet(&mut packet).is_err());
    assert_eq!(extract_ip_header_plus_data(&original()).unwrap().len(), 28);
    assert!(extract_ip_header_plus_data(&original()[..27]).is_err());
}

#[test]
fn test_icmp_type_conversion() {
    assert_eq!(IcmpType::from_u8(8), Some(IcmpType::EchoRequest));
    assert_eq!(IcmpType::from_u8(5), None);
    assert_eq!(IcmpType::TimeExceeded.as_u8(), 11);
}

#[test]
fn test_create_echo_request() {
    let packet = create_echo_request(1234, 1, vec![0x42; 32]);
    assert_eq!(packet[0], ICMP_TYPE_ECHO_REQUEST);
    assert_eq!(packet[1], 0);
}

#[test]
fn test_create_echo_reply() {
    let packet = create_echo_reply(1234, 1, vec![0x42; 32]);
    assert_eq!(packet[0], ICMP_TYPE_ECHO_REPLY);
    assert_eq!(packet[1], 0);
}

#[test]
fn test_create_dest_unreachable() {
    let packet = create_dest_unreachable(0, original());
    assert_eq!(packet[0], ICMP_TYPE_DEST_UNREACHABLE);
    assert_eq!(packet[1], 0);
}

#[test]
fn test_process_echo_request() {
    let echo_bytes = create_echo_request(1234, 1, vec![0x42; 32]);
    let packet = Packet::from_bytes(echo_bytes);
    let mut mgr = EchoManager::default();
    let result = process_icmp_packet(packet, ip(192, 168, 1, 1), ip(192, 168, 1, 100), &mut mgr, 0).unwrap();
    match result {
        IcmpProcessResult::Reply(reply_bytes) => {
            assert_eq!(reply_bytes[0], ICMP_TYPE_ECHO_REPLY);
            assert!(verify_checksum(&reply_bytes, 2));
        }
        _ => panic!("Expected Reply"),
    }
    // to a broadcast address: no reply
    let packet = Packet::from_bytes(create_echo_request(1, 1, vec![]));
    assert_eq!(
        process_icmp_packet(packet, ip(192, 168, 1, 1), ip(255, 255, 255, 255), &mut mgr, 0).unwrap(),
        IcmpProcessResult::NoReply
    );
    // bad checksum: dropped
    let mut bad = create_echo_request(1, 1, vec![1, 2]);
    bad[2] ^= 1;
    assert_eq!(
        process_icmp_packet(Packet::from_bytes(bad), ip(1, 1, 1, 1), ip(2, 2, 2, 2), &mut mgr, 0).unwrap(),
        IcmpProcessResult::NoReply
    );
}

#[test]
fn test_process_icmpv6_echo() {
    let a = Ipv6Addr::new(0xfe80, 0, 0, 0, 0, 0, 0, 1);
    let b = Ipv6Addr::new(0xfe80, 0, 0, 0, 0, 0, 0, 2);
    let req = create_icmpv6_echo_request(7, 9, vec![1, 2, 3], a, b);
    match process_icmpv6_packet(Packet::from_bytes(req), a, b).unwrap() {
        IcmpProcessResult::Reply(v) => {
            assert_eq!(v[0], 129);
            assert!(core_net::protocols::icmpv6::verify_icmpv6_checksum(b, a, &v, 2));
        }
        _ => panic!("expected reply"),
    }
}

#[test]
fn echo_write_then_read() {
    let request = IcmpEcho::new_request(0x1234, 7, vec![1, 2, 3, 4, 5]);
    let bytes = request.to_bytes();
    assert!(verify_checksum(&bytes, 2));
    let mut packet = Packet::from_bytes(bytes.clone());
    let back = IcmpEcho::from_packet(&mut packet).unwrap();
    assert_eq!(back.type_, ICMP_TYPE_ECHO_REQUEST);
    assert_eq!(back.identifier, 0x1234);
    assert_eq!(back.sequence, 7);
    assert_eq!(back.data, vec![1, 2, 3, 4, 5]);
    assert_eq!(back.checksum, u16::from_be_bytes([bytes[2], bytes[3]]));
}

#[test]
fn echo_checksum_ignores_stored_value() {
    let mut echo = IcmpEcho::new_request(7, 9, vec![1, 2, 3]);
    let clean = echo.to_bytes();
    echo.checksum = 0xBEEF;
    let bytes = echo.to_bytes();
    assert_eq!(bytes, clean);
    assert!(verify_checksum(&bytes, 2));
    let mut packet = Packet::from_bytes(bytes.clone());
    let decoded = IcmpEcho::from_packet(&mut packet).unwrap();
    assert_eq!(decoded.to_bytes(), bytes);
}

#[test]
fn icmp_parse_errors_name_the_field() {
    let mut short = Packet::from_bytes(vec![8, 0, 0]);
    match IcmpEcho::from_packet(&mut short) {
        Err(core_net::common::error::CoreError::InvalidPacket(m)) => assert_eq!(m, "Echo报文长度不足：3 < 8"),
        _ => panic!("expected a length error"),
    }
    assert_eq!(short.remaining(), 3);
    let mut coded = Packet::from_bytes(vec![8, 5, 0, 0, 0, 1, 0, 1, 9]);
    match IcmpEcho::from_packet(&mut coded) {
        Err(core_net::common::error::CoreError::InvalidPacket(m)) => assert_eq!(m, "Echo报文Code字段无效：5（必须为0）"),
        _ => panic!("expected a code error"),
    }
    assert_eq!(coded.remaining(), 7);
    let mut bad_code = Packet::from_bytes(vec![3, 9, 0, 0, 0, 0, 0, 0]);
    match IcmpDestUnreachable::from_packet(&mut bad_code) {
        Err(core_net::common::error::CoreError::InvalidPacket(m)) => assert_eq!(m, "Destination Unreachable Code无效：9"),
        _ => panic!("expected a code error"),
    }
    let mut short_original = Packet::from_bytes(vec![11, 0, 0, 0, 0, 0, 0, 0, 0x45, 0]);
    match IcmpTimeExceeded::from_packet(&mut short_original) {
        Err(core_net::common::error::CoreError::InvalidPacket(m)) => {
            assert_eq!(m, "Time Exceeded原始数据报长度不足：需要至少28字节（IP头部+8字节）实际2字节")
        },
        _ => panic!("expected an original datagram error"),
    }
    let mut bad_ihl = vec![12, 0, 0, 0, 0, 0, 0, 0];
    bad_ihl.extend_from_slice(&[0x44; 28]);
    match IcmpParameterProblem::from_packet(&mut Packet::from_bytes(bad_ihl)) {
        Err(core_net::common::error::CoreError::InvalidPacket(m)) => {
            assert_eq!(m, "Parameter Problem原始数据报IP头部IHL无效：4")
        },
        _ => panic!("expected an IHL error"),
    }
}
