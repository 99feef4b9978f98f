pub mod header;

pub use header::{ETH_P_8021AD, ETH_P_8021Q, ETH_P_ARP, ETH_P_IP, ETH_P_IPV6, EthernetHeader};

use vstd::prelude::*;
use crate::common::bytes::{be16, lemma_be16_roundtrip, u16_bytes, push_be16, push_slice};
use header::{is_vlan_type, vlan_walk};
use crate::protocols::common::addr::MacAddr;

verus! {

/// The bytes of an Ethernet frame: destination, source, type, payload.
pub open spec fn ethernet_frame_bytes(dst: Seq<u8>, src: Seq<u8>, ether_type: u16, payload: Seq<u8>) -> Seq<u8> {
    dst + src + u16_bytes(ether_type) + payload
}

/// Builds an Ethernet frame: the 14-byte header, then the payload.
pub fn build_ethernet_frame(dst_mac: MacAddr, src_mac: MacAddr, ether_type: u16, payload: &[u8]) -> (r: Vec<u8>)
    ensures
        r@ == ethernet_frame_bytes(dst_mac.bytes@, src_mac.bytes@, ether_type, payload@),
{
    let mut frame: Vec<u8> = Vec::new();
    push_slice(&mut frame, dst_mac.bytes.as_slice());
    push_slice(&mut frame, src_mac.bytes.as_slice());
    push_be16(&mut frame, ether_type);
    push_slice(&mut frame, payload);
    frame
}

/// A frame built with an EtherType that is neither a VLAN tag nor an 802.3
/// length parses back to its addresses and type, with the payload left to
/// read and the VLAN id unchanged.
pub proof fn lemma_frame_roundtrip(dst: Seq<u8>, src: Seq<u8>, ether_type: u16, payload: Seq<u8>, vid: Option<u16>)
    requires
        dst.len() == 6,
        src.len() == 6,
        !is_vlan_type(ether_type),
    ensures
        ({
            let s = ethernet_frame_bytes(dst, src, ether_type, payload);
            &&& s.len() >= 14
            &&& be16(s[12], s[13]) == ether_type
            &&& vlan_walk(s, be16(s[12], s[13]), 14, 0, vid) == Some((ether_type, 14nat, vid))
            &&& s.subrange(0, 6) == dst
            &&& s.subrange(6, 12) == src
            &&& s.skip(14) == payload
        }),
{
    let s = ethernet_frame_bytes(dst, src, ether_type, payload);
    lemma_be16_roundtrip(ether_type);
    assert(s.subrange(0, 6) =~= dst);
    assert(s.subrange(6, 12) =~= src);
    assert(s.skip(14) =~= payload);
    assert(s[12] == u16_bytes(ether_type)[0] && s[13] == u16_bytes(ether_type)[1]);
}

} // verus!
