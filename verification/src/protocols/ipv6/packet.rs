use vstd::prelude::*;
use crate::common::addr::{Ipv6Addr, ipv6_text};
use crate::common::bytes::{trunc16, usize_to_u16, push_slice, copy_range};
use crate::protocols::common::packet::Packet;
use super::error::Ipv6Error;
use super::header::{Ipv6Header, ipv6_parsed_from};
use super::protocol::IpProtocol;

verus! {

/// What processing an IPv6 packet asks of the caller.
#[derive(Debug, Clone, PartialEq)]
pub enum Ipv6ProcessResult {
    /// Nothing to do.
    NoReply,
    /// Send these bytes back.
    Reply(Vec<u8>),
    /// Hand the payload to the upper-layer protocol.
    DeliverToProtocol { header: Ipv6Header, data: Vec<u8> },
    /// A fragment that waits for reassembly.
    NeedsReassembly {
        source_addr: Ipv6Addr,
        dest_addr: Ipv6Addr,
        identification: u32,
        fragment_data: Vec<u8>,
        next_header: u8,
    },
}

/// Whether a packet to `dest` is for this host, given the address of the
/// receiving interface (`None` when there is no such interface): the
/// interface's own address, loopback and ff02::1 when the interface exists,
/// and every multicast address.
pub open spec fn ipv6_is_local(dest: Seq<u8>, local_addr: Option<Ipv6Addr>) -> bool {
    ||| dest[0] == 0xff
    ||| (local_addr matches Some(a) && (a.bytes@ == dest || dest == Ipv6Addr::loopback_bytes()
        || dest == Ipv6Addr::all_nodes_bytes()))
}

/// Which IPv6 destinations are for this host: every multicast address
/// (first byte 0xff), such as a solicited-node address, always is, whatever
/// the interface's address; with an interface, its own address, the
/// loopback address ::1 and all-nodes ff02::1 are; no other address is.
pub proof fn lemma_local_destinations(dest: Seq<u8>, local_addr: Option<Ipv6Addr>)
    requires
        dest.len() == 16,
    ensures
        dest[0] == 0xff ==> ipv6_is_local(dest, local_addr),
        (local_addr matches Some(a) && a.bytes@ == dest) ==> ipv6_is_local(dest, local_addr),
        local_addr is Some && dest == Seq::new(15, |_i: int| 0u8).push(1u8) ==> ipv6_is_local(dest, local_addr),
        dest[0] != 0xff && local_addr is None ==> !ipv6_is_local(dest, local_addr),
        dest[0] != 0xff && (local_addr matches Some(a) && a.bytes@ != dest)
            && dest != Seq::new(15, |_i: int| 0u8).push(1u8) ==> !ipv6_is_local(dest, local_addr),
{
    assert(Ipv6Addr::loopback_bytes() =~= Seq::new(15, |_i: int| 0u8).push(1u8));
    assert(Ipv6Addr::all_nodes_bytes()[0] == 0xff);
}

/// Whether a next-header value is delivered to an upper layer: ICMPv6 (58) and OSPF (89).
pub open spec fn delivered_next_header(v: u8) -> bool {
    v == 58 || v == 89
}

fn is_local_address(dest_addr: &Ipv6Addr, local_addr: Option<Ipv6Addr>) -> (r: bool)
    ensures
        r == ipv6_is_local(dest_addr.bytes@, local_addr),
{
    let is_local = match local_addr {
        Some(a) => a.equals(dest_addr) || dest_addr.is_loopback()
            || dest_addr.equals(&Ipv6Addr::link_local_all_nodes()),
        None => false,
    };
    if dest_addr.is_multicast() {
        return true;
    }
    is_local
}

/// Handles a received IPv6 packet: parses the fixed header, checks hop
/// limit, source and destination, and hands ICMPv6 and OSPF payloads to the
/// upper layer. Extension headers are not walked. `local_addr` is the
/// address of the receiving interface, `None` if there is none.
pub fn process_ipv6_packet(packet: &mut Packet, local_addr: Option<Ipv6Addr>) -> (r: Result<Ipv6ProcessResult, Ipv6Error>)
    ensures
        ({
            let s = old(packet)@;
            let ok = s.len() >= 40 && s[0] / 16 == 6;
            &&& s.len() < 40 ==> r == Err::<Ipv6ProcessResult, Ipv6Error>(
                Ipv6Error::PacketTooShort { expected: 40, found: s.len() as usize })
            &&& s.len() >= 40 && s[0] / 16 != 6 ==> r == Err::<Ipv6ProcessResult, Ipv6Error>(
                Ipv6Error::PacketTooShort { expected: 40, found: (s.len() - 4) as usize })
            &&& ok && s[7] == 0 ==> r == Err::<Ipv6ProcessResult, Ipv6Error>(Ipv6Error::HopLimitExceeded { hop_limit: 0 })
            &&& ok && s[7] != 0 && s[8] == 0xff ==> (r matches Err(Ipv6Error::InvalidSourceAddress { addr })
                && addr@ == ipv6_text(s.subrange(8, 24)))
            &&& ok && s[7] != 0 && s[8] != 0xff && !ipv6_is_local(s.subrange(24, 40), local_addr)
                ==> r == Ok::<Ipv6ProcessResult, Ipv6Error>(Ipv6ProcessResult::NoReply)
            &&& ok && s[7] != 0 && s[8] != 0xff && ipv6_is_local(s.subrange(24, 40), local_addr)
                && !delivered_next_header(s[6]) ==> r == Ok::<Ipv6ProcessResult, Ipv6Error>(Ipv6ProcessResult::NoReply)
            &&& ok && s[7] != 0 && s[8] != 0xff && ipv6_is_local(s.subrange(24, 40), local_addr)
                && delivered_next_header(s[6]) ==> {
                    let pl = crate::common::bytes::be16(s[4], s[5]);
                    &&& s.len() - 40 < pl ==> r == Err::<Ipv6ProcessResult, Ipv6Error>(
                        Ipv6Error::PacketTooShort { expected: pl as usize, found: (s.len() - 40) as usize })
                    &&& s.len() - 40 >= pl ==> (r matches Ok(Ipv6ProcessResult::DeliverToProtocol { header, data })
                        && ipv6_parsed_from(header, s) && data@ == s.subrange(40, 40 + pl))
                }
            &&& ok ==> final(packet)@ == s.skip(40)
        }),
{
    let header = match Ipv6Header::from_packet(packet) {
        Ok(h) => h,
        Err(_) => {
            return Err(Ipv6Error::PacketTooShort { expected: 40, found: packet.remaining() });
        },
    };
    if header.hop_limit == 0 {
        return Err(Ipv6Error::hop_limit_exceeded(0));
    }
    if header.source_addr.is_multicast() {
        return Err(Ipv6Error::invalid_source_address(header.source_addr.to_string()));
    }
    if !is_local_address(&header.destination_addr, local_addr) {
        return Ok(Ipv6ProcessResult::NoReply);
    }
    let nh = u8::from(header.next_header);
    if nh == 58 || nh == 89 {
        let pl = crate::common::bytes::u16_to_usize(header.payload_length);
        let remaining = packet.remaining();
        if remaining < pl {
            return Err(Ipv6Error::PacketTooShort { expected: pl, found: remaining });
        }
        let data = match packet.peek(pl) {
            Some(b) => copy_range(b, 0, pl),
            None => Vec::new(),
        };
        proof {
            assert(data@ =~= old(packet)@.subrange(40, 40 + pl));
        }
        Ok(Ipv6ProcessResult::DeliverToProtocol { header, data })
    } else {
        Ok(Ipv6ProcessResult::NoReply)
    }
}

/// Builds an IPv6 packet: a header with zero traffic class and flow label,
/// the payload length truncated to 16 bits, then the payload.
pub fn encapsulate_ipv6_packet(
    source_addr: Ipv6Addr,
    dest_addr: Ipv6Addr,
    next_header: IpProtocol,
    payload: &[u8],
    hop_limit: u8,
) -> (r: Vec<u8>)
    ensures
        r@ == Ipv6Header::new_spec(source_addr, dest_addr, trunc16(payload@.len()), next_header, hop_limit).wire()
            + payload@,
{
    let header = Ipv6Header::new(source_addr, dest_addr, usize_to_u16(payload.len()), next_header, hop_limit);
    let bytes = header.to_bytes();
    let mut packet: Vec<u8> = Vec::new();
    push_slice(&mut packet, bytes.as_slice());
    push_slice(&mut packet, payload);
    packet
}

} // verus!
