use vstd::prelude::*;
use crate::common::bytes::{be16, u16_bytes, read_be16, push_be16, push_slice, copy_range, lemma_be16_roundtrip};
use crate::common::error::{CoreError, CoreErrorKind};
use crate::protocols::common::addr::{Ipv4Addr, dotted_quad};
use crate::common::text::{byte_decimal, byte_decimal_text, join_text, append_text, pair_text, u16_decimal, u16_decimal_text,
    decimal_digits, usize_decimal_text};
use crate::protocols::common::packet::Packet;
use super::checksum::{calculate_checksum, verify_checksum, internet_checksum, checksum_ok, put16, store16, lemma_put_checksum_verifies};

verus! {

/// The IP version number.
pub const IP_VERSION: u8 = 4;
/// The length of a header without options.
pub const IP_MIN_HEADER_LEN: usize = 20;
/// ICMP protocol number.
pub const IP_PROTO_ICMP: u8 = 1;
/// TCP protocol number.
pub const IP_PROTO_TCP: u8 = 6;
/// UDP protocol number.
pub const IP_PROTO_UDP: u8 = 17;
/// OSPF protocol number.
pub const IP_PROTO_OSPF: u8 = 89;
/// ESP protocol number.
pub const IP_PROTO_ESP: u8 = 50;
/// AH protocol number.
pub const IP_PROTO_AH: u8 = 51;
/// Default time to live.
pub const DEFAULT_TTL: u8 = 64;

/// An IPv4 header.
#[derive(Debug, Clone, PartialEq)]
pub struct Ipv4Header {
    pub version_ihl: u8,
    pub tos: u8,
    pub total_length: u16,
    pub identification: u16,
    pub flags_fragment: u16,
    pub ttl: u8,
    pub protocol: u8,
    pub checksum: u16,
    pub source_addr: Ipv4Addr,
    pub dest_addr: Ipv4Addr,
    pub options: Vec<u8>,
}

/// The wire bytes of a header with the given checksum field.
pub open spec fn header_bytes(h: Ipv4Header, checksum: u16) -> Seq<u8> {
    seq![h.version_ihl, h.tos] + u16_bytes(h.total_length) + u16_bytes(h.identification)
        + u16_bytes(h.flags_fragment) + seq![h.ttl, h.protocol] + u16_bytes(checksum)
        + h.source_addr.bytes@ + h.dest_addr.bytes@ + h.options@
}

/// The wire bytes of a header, with its checksum computed.
pub open spec fn header_wire(h: Ipv4Header) -> Seq<u8> {
    header_bytes(h, internet_checksum(header_bytes(h, 0)))
}

/// The header length announced by the first byte.
pub open spec fn spec_header_len(first: u8) -> int {
    (first % 16) as int * 4
}

/// Whether `s` starts with a parseable IPv4 header.
pub open spec fn ipv4_parse_ok(s: Seq<u8>) -> bool {
    &&& s.len() >= 1
    &&& spec_header_len(s[0]) >= 20
    &&& s.len() >= spec_header_len(s[0])
    &&& s[0] / 16 == 4
}

/// The error of parsing `s` as an IPv4 header when it fails.
pub open spec fn ipv4_parse_err(s: Seq<u8>) -> CoreErrorKind {
    if s.len() < 1 {
        CoreErrorKind::Parse
    } else if spec_header_len(s[0]) < 20 || s.len() < spec_header_len(s[0]) {
        CoreErrorKind::Invalid
    } else {
        CoreErrorKind::Unsupported
    }
}

/// The message of the error for a header length field `ihl` below five.
pub open spec fn bad_ihl_text(ihl: u8) -> Seq<char> {
    "IP头部长度无效: IHL="@ + decimal_digits(ihl as nat) + " 长度="@ + decimal_digits((ihl * 4) as nat)
}

/// The message of the error for `n` bytes left where a header of `len` bytes is needed.
pub open spec fn short_header_text(len: nat, n: nat) -> Seq<char> {
    "IP数据包长度不足：需要头部"@ + decimal_digits(len) + " 实际剩余"@ + decimal_digits(n)
}

/// Whether `h` holds the fields found at the start of `s`.
pub open spec fn ipv4_parsed_from(h: Ipv4Header, s: Seq<u8>) -> bool {
    &&& h.version_ihl == s[0]
    &&& h.tos == s[1]
    &&& h.total_length == be16(s[2], s[3])
    &&& h.identification == be16(s[4], s[5])
    &&& h.flags_fragment == be16(s[6], s[7])
    &&& h.ttl == s[8]
    &&& h.protocol == s[9]
    &&& h.checksum == be16(s[10], s[11])
    &&& h.source_addr.bytes@ == s.subrange(12, 16)
    &&& h.dest_addr.bytes@ == s.subrange(16, 20)
    &&& h.options@ == s.subrange(20, spec_header_len(s[0]))
}

fn addr_from(b: &[u8]) -> (r: Ipv4Addr)
    requires
        b@.len() == 4,
    ensures
        r.bytes@ == b@,
{
    let r = Ipv4Addr::new([b[0], b[1], b[2], b[3]]);
    assert(r.bytes@ =~= b@);
    r
}

impl Ipv4Header {
    /// The length of a header without options.
    pub const MIN_LEN: usize = 20;

    /// Parses a header from the front of `packet`, consuming it. A header
    /// that is cut short or gives a length below 20 bytes leaves the packet
    /// as it was; a version other than 4 is refused once its byte is read.
    pub fn from_packet(packet: &mut Packet) -> (r: Result<Self, CoreError>)
        ensures
            ipv4_parse_ok(old(packet)@) ==> (r matches Ok(h) && ipv4_parsed_from(h, old(packet)@)
                && final(packet)@ == old(packet)@.skip(spec_header_len(old(packet)@[0]))),
            !ipv4_parse_ok(old(packet)@) ==> (r matches Err(e) && e.kind() == ipv4_parse_err(old(packet)@)),
            old(packet)@.len() < 1 ==> (r matches Err(CoreError::ParseError(m)) && m@ == "读取版本/IHL失败"@)
                && final(packet)@ == old(packet)@,
            old(packet)@.len() >= 1 && spec_header_len(old(packet)@[0]) < 20 ==> (r matches Err(
                CoreError::InvalidPacket(m)) && m@ == bad_ihl_text(old(packet)@[0] % 16))
                && final(packet)@ == old(packet)@,
            old(packet)@.len() >= 1 && spec_header_len(old(packet)@[0]) >= 20
                && old(packet)@.len() < spec_header_len(old(packet)@[0]) ==> (r matches Err(
                CoreError::InvalidPacket(m)) && m@ == short_header_text(spec_header_len(old(packet)@[0]) as nat,
                old(packet)@.len())) && final(packet)@ == old(packet)@,
            old(packet)@.len() >= 1 && spec_header_len(old(packet)@[0]) >= 20
                && old(packet)@.len() >= spec_header_len(old(packet)@[0]) && old(packet)@[0] / 16 != 4 ==> (r matches Err(
                CoreError::UnsupportedProtocol(m)) && m@ == "IPv4版本不支持: "@ + byte_decimal(old(packet)@[0] / 16))
                && final(packet)@ == old(packet)@.skip(1),
    {
        let first = match packet.peek(1) {
            Some(b) => b[0],
            None => return Err(CoreError::parse_error("读取版本/IHL失败")),
        };
        let ihl = first % 16;
        let header_len = (ihl as usize) * 4;
        if header_len < 20 {
            let a = join_text("IP头部长度无效: IHL=", byte_decimal_text(ihl).as_str());
            let b = append_text(a, " 长度=");
            return Err(CoreError::InvalidPacket(append_text(b, usize_decimal_text(header_len).as_str())));
        }
        if packet.remaining() < header_len {
            let a = join_text("IP数据包长度不足：需要头部", usize_decimal_text(header_len).as_str());
            let b = append_text(a, " 实际剩余");
            return Err(CoreError::InvalidPacket(append_text(b, usize_decimal_text(packet.remaining()).as_str())));
        }
        if first / 16 != IP_VERSION {
            let ghost before = packet@;
            let _ = packet.read(1);
            assert(packet@ =~= before.skip(1));
            let version = byte_decimal_text(first / 16);
            return Err(CoreError::UnsupportedProtocol(join_text("IPv4版本不支持: ", version.as_str())));
        }
        let ghost s = packet@;
        let bytes = match packet.read(header_len) {
            Some(b) => b,
            None => return Err(CoreError::parse_error("读取IP头部失败")),
        };
        let h = Ipv4Header {
            version_ihl: bytes[0],
            tos: bytes[1],
            total_length: read_be16(bytes, 2),
            identification: read_be16(bytes, 4),
            flags_fragment: read_be16(bytes, 6),
            ttl: bytes[8],
            protocol: bytes[9],
            checksum: read_be16(bytes, 10),
            source_addr: addr_from(&bytes[12..16]),
            dest_addr: addr_from(&bytes[16..20]),
            options: copy_range(bytes, 20, header_len),
        };
        proof {
            assert(bytes@.subrange(20, header_len as int) =~= s.subrange(20, header_len as int));
            assert(bytes@.subrange(12, 16) =~= s.subrange(12, 16));
            assert(bytes@.subrange(16, 20) =~= s.subrange(16, 20));
        }
        Ok(h)
    }

    /// Whether the checksum field of the raw header `full_header` is correct.
    pub fn verify_checksum(&self, full_header: &[u8]) -> (r: bool)
        ensures
            r == checksum_ok(full_header@, 10),
    {
        verify_checksum(full_header, 10)
    }

    /// The version field.
    pub fn version(&self) -> (r: u8)
        ensures
            r == self.version_ihl / 16,
    {
        self.version_ihl / 16
    }

    /// The header length in bytes.
    pub fn header_len(&self) -> (r: usize)
        ensures
            r == spec_header_len(self.version_ihl),
    {
        ((self.version_ihl % 16) as usize) * 4
    }

    /// The header length in 32-bit words.
    pub fn ihl(&self) -> (r: u8)
        ensures
            r == self.version_ihl % 16,
    {
        self.version_ihl % 16
    }

    /// Sets the header length (in bytes), keeping the version 4.
    pub fn set_header_len(&mut self, len: usize)
        ensures
            final(self).version_ihl == 64 + ((len / 4) % 16),
            final(self).tos == old(self).tos,
            final(self).total_length == old(self).total_length,
            final(self).options == old(self).options,
    {
        let ihl = ((len / 4) % 16) as u8;
        self.version_ihl = 64 + ihl;
    }

    /// Whether the Don't Fragment flag is set.
    pub fn has_df_flag(&self) -> (r: bool)
        ensures
            r == ((self.flags_fragment / 0x4000) % 2 == 1),
    {
        (self.flags_fragment / 0x4000) % 2 == 1
    }

    /// Whether the More Fragments flag is set.
    pub fn has_mf_flag(&self) -> (r: bool)
        ensures
            r == ((self.flags_fragment / 0x2000) % 2 == 1),
    {
        (self.flags_fragment / 0x2000) % 2 == 1
    }

    /// The fragment offset in 8-byte units.
    pub fn fragment_offset(&self) -> (r: u16)
        ensures
            r == self.flags_fragment % 0x2000,
    {
        self.flags_fragment % 0x2000
    }

    /// Whether the datagram is a fragment (MF set or a nonzero offset).
    pub fn is_fragmented(&self) -> (r: bool)
        ensures
            r == ((self.flags_fragment / 0x2000) % 2 == 1 || self.flags_fragment % 0x2000 != 0),
    {
        self.has_mf_flag() || self.fragment_offset() != 0
    }

    /// The wire bytes of the header, with the checksum computed over them.
    pub fn to_bytes(&self) -> (r: Vec<u8>)
        ensures
            r@ == header_wire(*self),
            checksum_ok(r@, 10),
    {
        let mut b: Vec<u8> = Vec::new();
        b.push(self.version_ihl);
        b.push(self.tos);
        push_be16(&mut b, self.total_length);
        push_be16(&mut b, self.identification);
        push_be16(&mut b, self.flags_fragment);
        b.push(self.ttl);
        b.push(self.protocol);
        push_be16(&mut b, 0);
        push_slice(&mut b, &self.source_addr.bytes);
        push_slice(&mut b, &self.dest_addr.bytes);
        push_slice(&mut b, self.options.as_slice());
        proof {
            assert(b@ =~= header_bytes(*self, 0));
        }
        let checksum = calculate_checksum(b.as_slice());
        let ghost zeroed = b@;
        store16(&mut b, 10, checksum);
        proof {
            assert(b@ =~= header_bytes(*self, checksum));
            lemma_put_checksum_verifies(zeroed, 10);
        }
        b
    }

    /// A 20-byte header for a datagram carrying `payload_len` bytes, with DF set
    /// and the checksum computed.
    pub fn new(source_addr: Ipv4Addr, dest_addr: Ipv4Addr, protocol: u8, payload_len: usize) -> (r: Self)
        requires
            payload_len <= usize::MAX - 20,
        ensures
            r.version_ihl == 0x45,
            r.tos == 0,
            r.total_length == (20 + payload_len) as u16,
            r.identification == 0,
            r.flags_fragment == 0x4000,
            r.ttl == DEFAULT_TTL,
            r.protocol == protocol,
            r.source_addr == source_addr,
            r.dest_addr == dest_addr,
            r.options@.len() == 0,
            r.checksum == internet_checksum(header_bytes(r, 0)),
    {
        let total_length = (IP_MIN_HEADER_LEN + payload_len) as u16;
        let mut header = Ipv4Header {
            version_ihl: 0x45,
            tos: 0,
            total_length,
            identification: 0,
            flags_fragment: 0x4000,
            ttl: DEFAULT_TTL,
            protocol,
            checksum: 0,
            source_addr,
            dest_addr,
            options: Vec::new(),
        };
        let bytes = header.to_bytes();
        header.checksum = read_be16(bytes.as_slice(), 10);
        proof {
            let c = internet_checksum(header_bytes(header, 0));
            assert(header_bytes(header, 0) == header_bytes(Ipv4Header { checksum: 0, ..header }, 0));
            lemma_be16_roundtrip(c);
        }
        header
    }
}

/// Parsing the bytes of a well-formed header gives back its fields, the
/// checksum field being the computed one.
pub proof fn lemma_ipv4_header_roundtrip(h: Ipv4Header, rest: Seq<u8>)
    requires
        h.version_ihl / 16 == 4,
        spec_header_len(h.version_ihl) == 20 + h.options@.len(),
    ensures
        ipv4_parse_ok(header_wire(h) + rest),
        ipv4_parsed_from(
            Ipv4Header { checksum: internet_checksum(header_bytes(h, 0)), ..h },
            header_wire(h) + rest,
        ),
        (header_wire(h) + rest).skip(spec_header_len(h.version_ihl)) == rest,
{
    let c = internet_checksum(header_bytes(h, 0));
    let s = header_wire(h) + rest;
    lemma_be16_roundtrip(h.total_length);
    lemma_be16_roundtrip(h.identification);
    lemma_be16_roundtrip(h.flags_fragment);
    lemma_be16_roundtrip(c);
    assert(s[0] == h.version_ihl);
    assert(s.subrange(12, 16) =~= h.source_addr.bytes@);
    assert(s.subrange(16, 20) =~= h.dest_addr.bytes@);
    assert(s.subrange(20, spec_header_len(h.version_ihl)) =~= h.options@);
    assert(s.skip(spec_header_len(h.version_ihl)) =~= rest);
}

/// The summary text of a header: addresses, protocol number, TTL, length.
pub open spec fn header_text(h: Ipv4Header) -> Seq<char> {
    "IPv4 "@ + dotted_quad(h.source_addr.bytes@) + " -> "@ + dotted_quad(h.dest_addr.bytes@) + " Protocol="@
        + byte_decimal(h.protocol) + " TTL="@ + byte_decimal(h.ttl) + " Len="@ + u16_decimal(h.total_length)
}

impl Ipv4Header {
    /// The header as text, such as `IPv4 10.0.0.1 -> 10.0.0.2 Protocol=1 TTL=64 Len=84`.
    pub fn to_string(&self) -> (r: String)
        ensures
            r@ == header_text(*self),
    {
        let src = self.source_addr.to_string();
        let dst = self.dest_addr.to_string();
        let proto = byte_decimal_text(self.protocol);
        let ttl = byte_decimal_text(self.ttl);
        let len = u16_decimal_text(self.total_length);
        let t1 = pair_text("IPv4 ", src.as_str(), " -> ", dst.as_str());
        let t2 = pair_text(t1.as_str(), " Protocol=", proto.as_str(), " TTL=");
        let t3 = pair_text(t2.as_str(), ttl.as_str(), " Len=", len.as_str());
        t3
    }
}

} // verus!
