use vstd::prelude::*;
use crate::common::bytes::{be16, read_be16};
use crate::common::error::CoreError;
use crate::common::text::{decimal_digits, join_text, append_text, usize_decimal_text, u16_decimal_text};
use crate::protocols::common::addr::MacAddr;
use crate::protocols::common::packet::Packet;

verus! {

/// EtherType of IPv4.
pub const ETH_P_IP: u16 = 0x0800;
/// EtherType of ARP.
pub const ETH_P_ARP: u16 = 0x0806;
/// EtherType of IPv6.
pub const ETH_P_IPV6: u16 = 0x86DD;
/// EtherType of an 802.1Q VLAN tag.
pub const ETH_P_8021Q: u16 = 0x8100;
/// EtherType of an 802.1ad (Q-in-Q) VLAN tag.
pub const ETH_P_8021AD: u16 = 0x88A8;
/// Largest 802.3 length field.
pub const ETH_MAX_FRAME_LEN: usize = 1500;
/// Smallest EtherType value (Ethernet II).
pub const ETH_P_8023_MIN: u16 = 1536;

/// Whether `t` tags a VLAN.
pub open spec fn is_vlan_type(t: u16) -> bool {
    t == 0x8100 || t == 0x88A8
}

/// Walks up to two VLAN tags in `s` from `pos`, where `t` is the type just
/// read: each tag is a 2-byte TCI, whose low 12 bits are the VLAN id,
/// followed by the 2-byte type it carries. Gives the final type, the
/// position after the headers and the innermost VLAN id; `None` when a tag
/// is cut short.
pub open spec fn vlan_walk(s: Seq<u8>, t: u16, pos: nat, depth: nat, vid: Option<u16>) -> Option<(u16, nat, Option<u16>)>
    decreases 2 - depth,
{
    if depth >= 2 || !is_vlan_type(t) {
        Some((t, pos, vid))
    } else if s.len() < pos + 4 {
        None
    } else {
        vlan_walk(s, be16(s[pos as int + 2], s[pos as int + 3]), pos + 4, depth + 1,
            Some((be16(s[pos as int], s[pos as int + 1]) % 4096) as u16))
    }
}

/// The message of the error for a frame of `n` bytes, shorter than a header.
pub open spec fn short_frame_text(n: nat) -> Seq<char> {
    "以太网报文长度不足："@ + decimal_digits(n) + " < 14"@
}

/// The message of the error for a type field `t` below 1536.
pub open spec fn bad_type_text(t: u16) -> Seq<char> {
    "无效的以太网类型："@ + decimal_digits(t as nat) + " (不支持 IEEE 802.3 长度格式)"@
}

/// An Ethernet header.
#[derive(Debug, Clone)]
pub struct EthernetHeader {
    pub dst_mac: MacAddr,
    pub src_mac: MacAddr,
    /// The EtherType after any VLAN tags.
    pub ether_type: u16,
}

impl EthernetHeader {
    pub const MIN_LEN: usize = 14;

    /// Parses the header and up to two VLAN tags from the front of the
    /// packet, recording the innermost VLAN id in the packet. Only Ethernet
    /// II frames are accepted: a type field below 1536 (an 802.3 length) is
    /// refused.
    pub fn from_packet(packet: &mut Packet) -> (r: Result<Self, CoreError>)
        ensures
            old(packet)@.len() < 14 ==> (r matches Err(CoreError::InvalidPacket(m))
                && m@ == short_frame_text(old(packet)@.len())) && final(packet)@ == old(packet)@,
            old(packet)@.len() >= 14 ==> {
                let s = old(packet)@;
                match vlan_walk(s, be16(s[12], s[13]), 14, 0, old(packet).spec_vlan_id()) {
                    None => r matches Err(CoreError::ParseError(_)),
                    Some((t, pos, vid)) => if t < 1536 {
                        r matches Err(CoreError::ParseError(m)) && m@ == bad_type_text(t)
                    } else {
                        &&& r matches Ok(h) && h.dst_mac.bytes@ == s.subrange(0, 6) && h.src_mac.bytes@ == s.subrange(6, 12)
                            && h.ether_type == t
                        &&& final(packet)@ == s.skip(pos as int)
                        &&& final(packet).spec_vlan_id() == vid
                    },
                }
            },
    {
        if packet.remaining() < 14 {
            let n = usize_decimal_text(packet.remaining());
            let t = join_text("以太网报文长度不足：", n.as_str());
            return Err(CoreError::InvalidPacket(append_text(t, " < 14")));
        }
        let ghost s = packet@;
        let ghost v0 = packet.spec_vlan_id();
        let (dst, src, t0) = match packet.read(14) {
            Some(b) => ([b[0], b[1], b[2], b[3], b[4], b[5]], [b[6], b[7], b[8], b[9], b[10], b[11]], read_be16(b, 12)),
            None => ([0u8; 6], [0u8; 6], 0),
        };
        assert(dst@ =~= s.subrange(0, 6));
        assert(src@ =~= s.subrange(6, 12));
        let mut ether_type = t0;
        let mut depth: usize = 0;
        let ghost mut pos: nat = 14;
        while depth < 2
            invariant
                depth <= 2,
                s.len() >= pos,
                s == old(packet)@,
                s.len() >= 14,
                t0 == be16(s[12], s[13]),
                v0 == old(packet).spec_vlan_id(),
                packet@ == s.skip(pos as int),
                vlan_walk(s, t0, 14, 0, v0) == vlan_walk(s, ether_type, pos, depth as nat, packet.spec_vlan_id()),
            ensures
                vlan_walk(s, t0, 14, 0, v0) == vlan_walk(s, ether_type, pos, depth as nat, packet.spec_vlan_id()),
                vlan_walk(s, t0, 14, 0, v0) == Some((ether_type, pos, packet.spec_vlan_id())),
                packet@ == s.skip(pos as int),
                s.len() >= pos,
            decreases 2 - depth,
        {
            if ether_type != 0x8100 && ether_type != 0x88A8 {
                break;
            }
            let ghost before = packet@;
            let vid = match packet.read(2) {
                Some(tci) => read_be16(tci, 0) % 4096,
                None => {
                    return Err(CoreError::parse_error("读取VLAN标签失败"));
                },
            };
            packet.set_vlan_id(vid);
            let next = match packet.read(2) {
                Some(b) => read_be16(b, 0),
                None => {
                    return Err(CoreError::parse_error("读取VLAN后协议类型失败"));
                },
            };
            proof {
                assert(before[0] == s[pos as int] && before[1] == s[pos as int + 1]);
                assert(before[2] == s[pos as int + 2] && before[3] == s[pos as int + 3]);
                assert(packet@ =~= s.skip(pos as int + 4));
                pos = pos + 4;
            }
            ether_type = next;
            depth = depth + 1;
        }
        if ether_type < ETH_P_8023_MIN {
            let n = u16_decimal_text(ether_type);
            let t = join_text("无效的以太网类型：", n.as_str());
            return Err(CoreError::ParseError(append_text(t, " (不支持 IEEE 802.3 长度格式)")));
        }
        Ok(EthernetHeader { dst_mac: MacAddr::new(dst), src_mac: MacAddr::new(src), ether_type })
    }
}

} // verus!
