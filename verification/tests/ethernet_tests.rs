use core_net::common::error::CoreError;
use core_net::protocols::common::packet::Packet;
use core_net::protocols::ethernet::EthernetHeader;

#[test]
fn ethernet_vlan_tag_is_read() {
    let mut packet = Packet::from_bytes(vec![
        0xff, 0xff, 0xff, 0xff, 0xff, 0xff, 0x00, 0x11, 0x22, 0x33, 0x44, 0x55, 0x81, 0x00, 0x00, 0x64, 0x08, 0x00,
        0x45, 0x00,
    ]);
    let h = EthernetHeader::from_packet(&mut packet).unwrap();
    assert_eq!(h.ether_type, 0x0800);
    assert_eq!(packet.vlan_id(), Some(100));
    assert_eq!(packet.remaining(), 2);
}

#[test]
fn ethernet_double_tag_keeps_inner_id() {
    let mut packet = Packet::from_bytes(vec![
        1, 2, 3, 4, 5, 6, 7, 8, 9, 10, 11, 12, 0x88, 0xA8, 0x20, 0x0A, 0x81, 0x00, 0xF0, 0x05, 0x86, 0xDD, 0x60,
    ]);
    let h = EthernetHeader::from_packet(&mut packet).unwrap();
    assert_eq!(h.ether_type, 0x86DD);
    assert_eq!(packet.vlan_id(), Some(5));
    assert_eq!(packet.remaining(), 1);
}

#[test]
fn ethernet_length_format_is_refused() {
    let mut packet = Packet::from_bytes(vec![
        0xff, 0xff, 0xff, 0xff, 0xff, 0xff, 0x00, 0x11, 0x22, 0x33, 0x44, 0x55, 0x00, 0x40,
    ]);
    match EthernetHeader::from_packet(&mut packet) {
        Err(CoreError::ParseError(m)) => assert_eq!(m, "无效的以太网类型：64 (不支持 IEEE 802.3 长度格式)"),
        _ => panic!("expected a type error"),
    }
    let mut short = Packet::from_bytes(vec![0; 10]);
    match EthernetHeader::from_packet(&mut short) {
        Err(CoreError::InvalidPacket(m)) => assert_eq!(m, "以太网报文长度不足：10 < 14"),
        _ => panic!("expected a length error"),
    }
}
