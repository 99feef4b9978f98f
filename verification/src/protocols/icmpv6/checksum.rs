use vstd::prelude::*;
use crate::common::addr::Ipv6Addr;
use crate::common::bytes::{int_of, nat_int, be16, u32_bytes, push_slice, push_be32, trunc32, usize_to_u32, read_be16};
use crate::protocols::ip::checksum::{internet_checksum, zero_field};

verus! {

/// The IPv6 pseudo-header covered by the ICMPv6 checksum.
#[derive(Debug, Clone, Copy)]
pub struct Icmpv6PseudoHeader {
    pub src_addr: [u8; 16],
    pub dst_addr: [u8; 16],
    pub length: u32,
    pub zeros_and_next_header: [u8; 4],
}

/// The 40 bytes of the pseudo-header for the given addresses and length.
pub open spec fn pseudo_header_bytes(src: Seq<u8>, dst: Seq<u8>, length: u32) -> Seq<u8> {
    src + dst + u32_bytes(length) + seq![0u8, 0, 0, 58]
}

/// The ICMPv6 checksum of a message between two IPv6 addresses: the ones'
/// complement of the ones' complement word sum of the pseudo-header
/// followed by the message.
pub open spec fn v6_checksum(src: Seq<u8>, dst: Seq<u8>, data: Seq<u8>) -> u16 {
    internet_checksum(pseudo_header_bytes(src, dst, trunc32(data.len())) + data)
}

/// Whether the checksum stored at `off` matches the one computed with that field zeroed.
pub open spec fn v6_checksum_ok(src: Seq<u8>, dst: Seq<u8>, data: Seq<u8>, off: int) -> bool {
    off + 2 <= data.len() && be16(data[off], data[off + 1]) == v6_checksum(src, dst, zero_field(data, off))
}

impl Icmpv6PseudoHeader {
    pub const SIZE: usize = 40;

    pub fn new(src_addr: Ipv6Addr, dst_addr: Ipv6Addr, length: u32) -> (r: Self)
        ensures
            r.src_addr@ == src_addr.bytes@,
            r.dst_addr@ == dst_addr.bytes@,
            r.length == length,
            r.zeros_and_next_header@ == seq![0u8, 0, 0, 58],
    {
        let r = Icmpv6PseudoHeader {
            src_addr: src_addr.bytes,
            dst_addr: dst_addr.bytes,
            length,
            zeros_and_next_header: [0, 0, 0, 58],
        };
        assert(r.zeros_and_next_header@ =~= seq![0u8, 0, 0, 58]);
        r
    }

    /// The 40 wire bytes.
    pub fn to_bytes(&self) -> (r: Vec<u8>)
        ensures
            r@ == self.src_addr@ + self.dst_addr@ + u32_bytes(self.length) + self.zeros_and_next_header@,
    {
        let mut v: Vec<u8> = Vec::new();
        push_slice(&mut v, &self.src_addr);
        push_slice(&mut v, &self.dst_addr);
        push_be32(&mut v, self.length);
        push_slice(&mut v, &self.zeros_and_next_header);
        v
    }
}

/// The ICMPv6 checksum of `data` between the two addresses.
pub fn calculate_icmpv6_checksum(src_addr: Ipv6Addr, dst_addr: Ipv6Addr, data: &[u8]) -> (r: u16)
    ensures
        r == v6_checksum(src_addr.bytes@, dst_addr.bytes@, data@),
{
    let pseudo = Icmpv6PseudoHeader::new(src_addr, dst_addr, usize_to_u32(data.len()));
    let mut checksum_data = pseudo.to_bytes();
    push_slice(&mut checksum_data, data);
    proof {
        assert(checksum_data@ =~= pseudo_header_bytes(src_addr.bytes@, dst_addr.bytes@, trunc32(data@.len())) + data@);
    }
    calculate_checksum(checksum_data.as_slice())
}

/// The Internet checksum of `data`: the ones' complement of its ones'
/// complement word sum.
pub fn calculate_checksum(data: &[u8]) -> (r: u16)
    ensures
        r == internet_checksum(data@),
{
    crate::protocols::ip::checksum::calculate_checksum(data)
}

/// Whether the checksum stored at `checksum_offset` is correct.
pub fn verify_icmpv6_checksum(src_addr: Ipv6Addr, dst_addr: Ipv6Addr, data: &[u8], checksum_offset: usize) -> (r: bool)
    ensures
        r == v6_checksum_ok(src_addr.bytes@, dst_addr.bytes@, data@, int_of(checksum_offset)),
{
    if checksum_offset > data.len() || data.len() - checksum_offset < 2 {
        return false;
    }
    let stored = read_be16(data, checksum_offset);
    let mut copy = crate::common::bytes::copy_range(data, 0, data.len());
    copy.set(checksum_offset, 0);
    copy.set(checksum_offset + 1, 0);
    proof {
        assert(data@.subrange(0, nat_int(data@.len())) =~= data@);
        assert(copy@ =~= zero_field(data@, int_of(checksum_offset)));
    }
    let calculated = calculate_icmpv6_checksum(src_addr, dst_addr, copy.as_slice());
    stored == calculated
}

} // verus!
