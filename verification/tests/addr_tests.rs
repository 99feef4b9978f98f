use core_net::protocols::ip::{Ipv4Protocol};
use core_net::protocols::icmp::types::{IcmpType, IcmpV6Type};
use core_net::protocols::icmp::error::IcmpError;
use core_net::protocols::icmpv6::{Icmpv6Type, NeighborCacheState};
use core_net::protocols::ipv6::IpProtocol;
use core_net::protocols::common::addr::{Ipv4Addr, MacAddr};

#[test]
fn test_ipv4_u32_roundtrip() {
    let a = Ipv4Addr::from_u32(0xC0A80101);
    assert_eq!(a.bytes, [192, 168, 1, 1]);
    assert_eq!(a.to_u32(), 0xC0A80101);
    assert!(MacAddr::broadcast().is_broadcast());
}

#[test]
fn text_forms_of_types() {
    assert_eq!(MacAddr::new([0x00, 0x1a, 0x2b, 0x3c, 0x4d, 0xff]).to_string(), "00:1a:2b:3c:4d:ff");
    assert_eq!(Ipv4Protocol::Icmp.to_string(), "ICMP");
    assert_eq!(Ipv4Protocol::Unknown(99).to_string(), "Unknown(99)");
    assert_eq!(IpProtocol::IcmpV6.to_string(), "ICMPv6");
    assert_eq!(IpProtocol::Unknown(200).to_string(), "Unknown(200)");
    assert_eq!(IcmpType::EchoRequest.to_string(), "Echo Request");
    assert_eq!(IcmpV6Type::PacketTooBig.to_string(), "Packet Too Big");
    assert_eq!(Icmpv6Type::NeighborSolicitation.to_string(), "Neighbor Solicitation");
    assert_eq!(NeighborCacheState::Stale.to_string(), "STALE");
    assert_eq!(IcmpError::ChecksumError { expected: 0x1f, actual: 0xabcd }.to_string(), "ICMP校验和错误: 期望 0x001f 实际 0xabcd");
    assert_eq!(IcmpError::InvalidCode { type_: 3, code: 99 }.to_string(), "无效的ICMP代码: Type=3 Code=99");
}
