use vstd::prelude::*;
use crate::common::addr::{Ipv6Addr, ipv6_text};
use crate::common::bytes::{be16, u16_bytes, read_be16, array16_at};
use crate::common::error::CoreError;
use crate::common::text::{byte_decimal_text, join_text, append_text, byte_decimal, u16_decimal, u16_decimal_text};
use crate::protocols::common::packet::Packet;
use super::protocol::{IpProtocol, spec_ip_protocol, ipv6_protocol_name};

verus! {

/// The IP version number of IPv6.
pub const IPV6_VERSION: u8 = 6;
/// Length of the fixed IPv6 header.
pub const IPV6_HEADER_LEN: usize = 40;
/// The smallest link MTU IPv6 allows (RFC 8200).
pub const IPV6_MIN_MTU: u16 = 1280;
/// Hop limit of packets this stack sends.
pub const DEFAULT_HOP_LIMIT: u8 = 64;

/// The fixed IPv6 header.
#[derive(Debug, Clone, PartialEq)]
pub struct Ipv6Header {
    pub version: u8,
    pub traffic_class: u8,
    /// 20-bit flow label.
    pub flow_label: u32,
    pub payload_length: u16,
    pub next_header: IpProtocol,
    pub hop_limit: u8,
    pub source_addr: Ipv6Addr,
    pub destination_addr: Ipv6Addr,
}

/// The four bytes holding version, traffic class and flow label.
pub open spec fn first_word_bytes(version: u8, traffic_class: u8, flow_label: u32) -> Seq<u8> {
    seq![
        ((version as nat * 16 + traffic_class as nat / 16) % 256) as u8,
        ((traffic_class as nat % 16) * 16 + (flow_label as nat / 65536) % 16) as u8,
        ((flow_label as nat / 256) % 256) as u8,
        (flow_label as nat % 256) as u8
    ]
}

/// Whether `h` holds the header fields found at the start of `s`.
pub open spec fn ipv6_parsed_from(h: Ipv6Header, s: Seq<u8>) -> bool {
    &&& s.len() >= 40
    &&& h.version == s[0] / 16
    &&& h.traffic_class == (s[0] % 16) * 16 + s[1] / 16
    &&& h.flow_label == (s[1] % 16) as nat * 65536 + s[2] as nat * 256 + s[3] as nat
    &&& h.payload_length == be16(s[4], s[5])
    &&& h.next_header == spec_ip_protocol(s[6])
    &&& h.hop_limit == s[7]
    &&& h.source_addr.bytes@ == s.subrange(8, 24)
    &&& h.destination_addr.bytes@ == s.subrange(24, 40)
}

impl Ipv6Header {
    pub const HEADER_SIZE: usize = 40;

    /// The 40 wire bytes of the header.
    pub open spec fn wire(&self) -> Seq<u8> {
        first_word_bytes(self.version, self.traffic_class, self.flow_label) + u16_bytes(self.payload_length)
            + seq![self.next_header.spec_value(), self.hop_limit] + self.source_addr.bytes@
            + self.destination_addr.bytes@
    }

    /// Parses the fixed header from the front of the packet.
    pub fn from_packet(packet: &mut Packet) -> (r: Result<Self, CoreError>)
        ensures
            old(packet)@.len() < 40 ==> (r matches Err(CoreError::InvalidPacket(_)) && final(packet)@ == old(packet)@),
            old(packet)@.len() >= 40 && old(packet)@[0] / 16 != 6 ==> (r matches Err(CoreError::UnsupportedProtocol(_))
                && final(packet)@ == old(packet)@.skip(4)),
            old(packet)@.len() >= 40 && old(packet)@[0] / 16 == 6 ==> (r matches Ok(h) && ipv6_parsed_from(h, old(packet)@)
                && final(packet)@ == old(packet)@.skip(40)),
    {
        if packet.remaining() < 40 {
            return Err(CoreError::invalid_packet("IPv6数据包长度不足"));
        }
        let ghost s = packet@;
        let (b0, b1, b2, b3) = match packet.read(4) {
            Some(b) => (b[0], b[1], b[2], b[3]),
            None => (0, 0, 0, 0),
        };
        let version = b0 / 16;
        if version != 6 {
            let text = byte_decimal_text(version);
            return Err(CoreError::UnsupportedProtocol(join_text("IPv6版本不支持: ", text.as_str())));
        }
        let traffic_class = (b0 % 16) * 16 + b1 / 16;
        let flow_label = ((b1 % 16) as u32) * 65536 + (b2 as u32) * 256 + (b3 as u32);
        let (payload_length, next, hop_limit, src, dst) = match packet.read(36) {
            Some(b) => (read_be16(b, 0), b[2], b[3], array16_at(b, 4), array16_at(b, 20)),
            None => (0, 0, 0, [0u8; 16], [0u8; 16]),
        };
        assert(src@ =~= s.subrange(8, 24));
        assert(dst@ =~= s.subrange(24, 40));
        Ok(Ipv6Header {
            version,
            traffic_class,
            flow_label,
            payload_length,
            next_header: IpProtocol::from(next),
            hop_limit,
            source_addr: Ipv6Addr::from_bytes(src),
            destination_addr: Ipv6Addr::from_bytes(dst),
        })
    }

    /// The header's length: always 40.
    pub fn header_len(&self) -> (r: usize)
        ensures
            r == 40,
    {
        40
    }

    /// The 40 wire bytes of the header.
    pub fn to_bytes(&self) -> (r: [u8; 40])
        ensures
            r@ == self.wire(),
    {
        let mut bytes = [0u8; 40];
        bytes[0] = ((self.version as u32 * 16 + (self.traffic_class / 16) as u32) % 256) as u8;
        bytes[1] = ((self.traffic_class % 16) as u32 * 16 + (self.flow_label / 65536) % 16) as u8;
        bytes[2] = ((self.flow_label / 256) % 256) as u8;
        bytes[3] = (self.flow_label % 256) as u8;
        bytes[4] = (self.payload_length / 256) as u8;
        bytes[5] = (self.payload_length % 256) as u8;
        bytes[6] = u8::from(self.next_header);
        bytes[7] = self.hop_limit;
        let mut i: usize = 0;
        while i < 16
            invariant
                i <= 16,
                bytes@.len() == 40,
                forall|j: int| 0 <= j < 8 ==> bytes@[j] == old_prefix(self)[j],
                forall|j: int| 0 <= j < i ==> bytes@[8 + j] == self.source_addr.bytes@[j]
                    && bytes@[24 + j] == self.destination_addr.bytes@[j],
            decreases 16 - i,
        {
            bytes[8 + i] = self.source_addr.bytes[i];
            bytes[24 + i] = self.destination_addr.bytes[i];
            i = i + 1;
        }
        assert(bytes@ =~= self.wire());
        bytes
    }

    /// A header with zero traffic class and flow label.
    pub open spec fn new_spec(
        source: Ipv6Addr,
        destination: Ipv6Addr,
        payload_length: u16,
        next_header: IpProtocol,
        hop_limit: u8,
    ) -> Self {
        Ipv6Header {
            version: 6,
            traffic_class: 0,
            flow_label: 0,
            payload_length,
            next_header,
            hop_limit,
            source_addr: source,
            destination_addr: destination,
        }
    }

    /// A header with zero traffic class and flow label.
    pub fn new(
        source: Ipv6Addr,
        destination: Ipv6Addr,
        payload_length: u16,
        next_header: IpProtocol,
        hop_limit: u8,
    ) -> (r: Self)
        ensures
            r == Self::new_spec(source, destination, payload_length, next_header, hop_limit),
    {
        Ipv6Header {
            version: IPV6_VERSION,
            traffic_class: 0,
            flow_label: 0,
            payload_length,
            next_header,
            hop_limit,
            source_addr: source,
            destination_addr: destination,
        }
    }

    /// A header with zero traffic class and the flow label's low 20 bits.
    pub fn with_flow_label(
        source: Ipv6Addr,
        destination: Ipv6Addr,
        payload_length: u16,
        next_header: IpProtocol,
        hop_limit: u8,
        flow_label: u32,
    ) -> (r: Self)
        ensures
            r == (Ipv6Header {
                version: 6,
                traffic_class: 0,
                flow_label: flow_label % 0x100000,
                payload_length,
                next_header,
                hop_limit,
                source_addr: source,
                destination_addr: destination,
            }),
    {
        Ipv6Header {
            version: IPV6_VERSION,
            traffic_class: 0,
            flow_label: flow_label % 0x100000,
            payload_length,
            next_header,
            hop_limit,
            source_addr: source,
            destination_addr: destination,
        }
    }

    /// Sets the traffic class.
    pub fn set_traffic_class(&mut self, tc: u8)
        ensures
            *final(self) == (Ipv6Header { traffic_class: tc, ..*old(self) }),
    {
        self.traffic_class = tc;
    }

    /// Sets the flow label to the low 20 bits of `label`.
    pub fn set_flow_label(&mut self, label: u32)
        ensures
            *final(self) == (Ipv6Header { flow_label: label % 0x100000, ..*old(self) }),
    {
        self.flow_label = label % 0x100000;
    }
}

/// The first eight wire bytes of a header.
pub open spec fn old_prefix(h: &Ipv6Header) -> Seq<u8> {
    first_word_bytes(h.version, h.traffic_class, h.flow_label) + u16_bytes(h.payload_length)
        + seq![h.next_header.spec_value(), h.hop_limit]
}

/// Encoding a version 6 header with a 20-bit flow label and parsing it back
/// gives the same header.
pub proof fn lemma_ipv6_header_roundtrip(h: Ipv6Header, rest: Seq<u8>)
    requires
        h.version == 6,
        h.flow_label < 0x100000,
        spec_ip_protocol(h.next_header.spec_value()) == h.next_header,
    ensures
        ipv6_parsed_from(h, h.wire() + rest),
{
    let s = h.wire() + rest;
    let tc = h.traffic_class as nat;
    let fl = h.flow_label as nat;
    assert(s[0] == ((6 * 16 + tc / 16) % 256) as u8);
    assert(s[0] / 16 == 6) by (nonlinear_arith)
        requires
            s[0] == ((6 * 16 + tc / 16) % 256) as u8,
            tc < 256,
    {}
    assert(s[1] == ((tc % 16) * 16 + (fl / 65536) % 16) as u8);
    assert((s[0] % 16) * 16 + s[1] / 16 == tc) by (nonlinear_arith)
        requires
            s[0] == ((6 * 16 + tc / 16) % 256) as u8,
            s[1] == ((tc % 16) * 16 + (fl / 65536) % 16) as u8,
            tc < 256,
    {}
    assert(s[2] == ((fl / 256) % 256) as u8);
    assert(s[3] == (fl % 256) as u8);
    assert((s[1] % 16) as nat * 65536 + s[2] as nat * 256 + s[3] as nat == fl) by (nonlinear_arith)
        requires
            s[1] == ((tc % 16) * 16 + (fl / 65536) % 16) as u8,
            s[2] == ((fl / 256) % 256) as u8,
            s[3] == (fl % 256) as u8,
            fl < 0x100000,
            tc < 256,
    {}
    crate::common::bytes::lemma_be16_roundtrip(h.payload_length);
    assert(s.subrange(8, 24) =~= h.source_addr.bytes@);
    assert(s.subrange(24, 40) =~= h.destination_addr.bytes@);
}

/// The text of a protocol as its `to_string` gives it.
pub open spec fn ipv6_protocol_text(p: IpProtocol) -> Seq<char> {
    match p {
        IpProtocol::Unknown(v) => "Unknown("@ + byte_decimal(v) + ")"@,
        _ => ipv6_protocol_name(p),
    }
}

/// The one-line summary of a header: addresses, next header, hop limit and
/// payload length.
pub open spec fn ipv6_header_text(h: Ipv6Header) -> Seq<char> {
    "IPv6 "@ + ipv6_text(h.source_addr.bytes@) + " -> "@ + ipv6_text(h.destination_addr.bytes@) + " NextHeader="@
        + ipv6_protocol_text(h.next_header) + " HopLimit="@ + byte_decimal(h.hop_limit) + " Len="@
        + u16_decimal(h.payload_length)
}

impl Ipv6Header {
    /// The one-line summary (see `ipv6_header_text`).
    pub fn to_string(&self) -> (r: String)
        ensures
            r@ == ipv6_header_text(*self),
    {
        let a = join_text("IPv6 ", self.source_addr.to_string().as_str());
        let b = append_text(a, " -> ");
        let c = append_text(b, self.destination_addr.to_string().as_str());
        let d = append_text(c, " NextHeader=");
        let e = append_text(d, self.next_header.to_string().as_str());
        let f = append_text(e, " HopLimit=");
        let g = append_text(f, byte_decimal_text(self.hop_limit).as_str());
        let h = append_text(g, " Len=");
        append_text(h, u16_decimal_text(self.payload_length).as_str())
    }
}

} // verus!
