use vstd::prelude::*;
use crate::common::addr::Ipv6Addr;
use crate::common::bytes::{
    be16, be32, u16_bytes, u32_bytes, read_be16, read_be32, push_be16, push_be32, push_slice,
    copy_range, array16_at, int_of, nat_int, option_units, option_units_byte, u8_to_usize, push_repeat,
};
use crate::protocols::common::packet::Packet;
use crate::protocols::ip::checksum::{calculate_checksum, store16};
use crate::protocols::icmp::packet::{with_checksum, echo_fields, echo_fields_from, read_rest};
use super::error::Icmpv6Error;
use super::types::Icmpv6OptionType;

verus! {

// ---------- common layouts ----------

/// The bytes of a message made of type, code, a zero checksum, a 32-bit
/// field and a body.
pub open spec fn body32_fields(type_: u8, code: u8, field: u32, body: Seq<u8>) -> Seq<u8> {
    seq![type_, code, 0u8, 0u8] + u32_bytes(field) + body
}

/// Whether the fields of such a message are those at the start of `s`.
pub open spec fn body32_from(type_: u8, code: u8, checksum: u16, field: u32, body: Seq<u8>, s: Seq<u8>) -> bool {
    &&& s.len() >= 8
    &&& type_ == s[0]
    &&& code == s[1]
    &&& checksum == be16(s[2], s[3])
    &&& field == be32(s[4], s[5], s[6], s[7])
    &&& body == s.skip(8)
}

/// Reads type and code, then checksum, a 32-bit field and the rest.
fn read_body32(packet: &mut Packet) -> (r: (u16, u32, Vec<u8>))
    requires
        old(packet)@.len() >= 6,
    ensures
        r.0 == be16(old(packet)@[0], old(packet)@[1]),
        r.1 == be32(old(packet)@[2], old(packet)@[3], old(packet)@[4], old(packet)@[5]),
        r.2@ == old(packet)@.skip(6),
        final(packet)@.len() == 0,
{
    let all = read_rest(packet);
    let checksum = read_be16(all.as_slice(), 0);
    let field = read_be32(all.as_slice(), 2);
    let body = copy_range(all.as_slice(), 6, all.len());
    (checksum, field, body)
}

/// Reads type and code.
fn read_type_code(packet: &mut Packet) -> (r: (u8, u8))
    requires
        old(packet)@.len() >= 2,
    ensures
        r.0 == old(packet)@[0],
        r.1 == old(packet)@[1],
        final(packet)@ == old(packet)@.skip(2),
{
    match packet.read(2) {
        Some(b) => (b[0], b[1]),
        None => (0, 0),
    }
}

/// The short-input error of a parser.
fn short_error() -> (r: Icmpv6Error)
    ensures
        r matches Icmpv6Error::ParseError(_),
{
    Icmpv6Error::ParseError("ICMPv6报文长度不足".to_owned())
}

/// The bad-code error of a parser.
fn code_error() -> (r: Icmpv6Error)
    ensures
        r matches Icmpv6Error::InvalidPacket(_),
{
    Icmpv6Error::InvalidPacket("ICMPv6报文Code字段无效".to_owned())
}

/// Builds `body32_fields` and writes its checksum.
fn encode_body32(type_: u8, code: u8, field: u32, body: &[u8]) -> (r: Vec<u8>)
    ensures
        r@ == with_checksum(body32_fields(type_, code, field, body@)),
{
    let mut bytes: Vec<u8> = Vec::new();
    bytes.push(type_);
    bytes.push(code);
    bytes.push(0);
    bytes.push(0);
    push_be32(&mut bytes, field);
    push_slice(&mut bytes, body);
    assert(bytes@ =~= body32_fields(type_, code, field, body@));
    let checksum = calculate_checksum(bytes.as_slice());
    store16(&mut bytes, 2, checksum);
    bytes
}

// ---------- header ----------

/// The first four bytes of every ICMPv6 message.
#[derive(Debug, Clone, Copy, PartialEq)]
pub struct Icmpv6Header {
    pub type_: u8,
    pub code: u8,
    pub checksum: u16,
}

impl Icmpv6Header {
    pub const SIZE: usize = 4;

    /// Reads the header from the start of `bytes`.
    pub fn from_bytes(bytes: &[u8]) -> (r: Result<Self, Icmpv6Error>)
        ensures
            bytes@.len() < 4 ==> (r matches Err(Icmpv6Error::ParseError(_))),
            bytes@.len() >= 4 ==> r == Ok::<Self, Icmpv6Error>(Icmpv6Header {
                type_: bytes@[0],
                code: bytes@[1],
                checksum: be16(bytes@[2], bytes@[3]),
            }),
    {
        if bytes.len() < 4 {
            return Err(Icmpv6Error::ParseError("ICMPv6头部长度不足".to_owned()));
        }
        Ok(Icmpv6Header { type_: bytes[0], code: bytes[1], checksum: read_be16(bytes, 2) })
    }

    /// The four header bytes.
    pub fn to_bytes(&self) -> (r: [u8; 4])
        ensures
            r@ == seq![self.type_, self.code] + u16_bytes(self.checksum),
    {
        let mut v: Vec<u8> = Vec::new();
        push_be16(&mut v, self.checksum);
        let r: [u8; 4] = [self.type_, self.code, v[0], v[1]];
        assert(r@ =~= seq![self.type_, self.code] + u16_bytes(self.checksum));
        r
    }
}

// ---------- echo ----------

/// An echo request or reply.
#[derive(Debug, Clone, PartialEq)]
pub struct Icmpv6Echo {
    pub type_: u8,
    pub code: u8,
    pub checksum: u16,
    pub identifier: u16,
    pub sequence: u16,
    pub data: Vec<u8>,
}

impl Icmpv6Echo {
    pub const MIN_LEN: usize = 8;

    /// Whether the fields are those of the echo message in `s`.
    pub open spec fn fields_from(&self, s: Seq<u8>) -> bool {
        s.len() >= 8 && echo_fields_from(self.type_, self.code, self.checksum, self.identifier, self.sequence,
            self.data@, s)
    }

    /// An echo request (type 128) with zero code and checksum.
    pub fn new_request(identifier: u16, sequence: u16, data: Vec<u8>) -> (r: Self)
        ensures
            r.type_ == 128 && r.code == 0 && r.checksum == 0,
            r.identifier == identifier && r.sequence == sequence && r.data@ == data@,
    {
        Self::new(128, identifier, sequence, data)
    }

    /// An echo reply (type 129) with zero code and checksum.
    pub fn new_reply(identifier: u16, sequence: u16, data: Vec<u8>) -> (r: Self)
        ensures
            r.type_ == 129 && r.code == 0 && r.checksum == 0,
            r.identifier == identifier && r.sequence == sequence && r.data@ == data@,
    {
        Self::new(129, identifier, sequence, data)
    }

    fn new(type_: u8, identifier: u16, sequence: u16, data: Vec<u8>) -> (r: Self)
        ensures
            r.type_ == type_ && r.code == 0 && r.checksum == 0,
            r.identifier == identifier && r.sequence == sequence && r.data@ == data@,
    {
        Icmpv6Echo { type_, code: 0, checksum: 0, identifier, sequence, data }
    }

    /// Parses an echo message that fills the rest of the packet; the code must be 0.
    pub fn from_packet(packet: &mut Packet) -> (r: Result<Self, Icmpv6Error>)
        ensures
            old(packet)@.len() < 8 ==> (r matches Err(Icmpv6Error::ParseError(_)) && final(packet)@ == old(packet)@),
            old(packet)@.len() >= 8 && old(packet)@[1] != 0 ==> (r matches Err(Icmpv6Error::InvalidPacket(_))
                && final(packet)@ == old(packet)@.skip(2)),
            old(packet)@.len() >= 8 && old(packet)@[1] == 0 ==> (r matches Ok(e) && e.fields_from(old(packet)@)
                && final(packet)@.len() == 0),
    {
        if packet.remaining() < 8 {
            return Err(short_error());
        }
        let ghost s = packet@;
        let (type_, code) = read_type_code(packet);
        if code != 0 {
            return Err(code_error());
        }
        let all = read_rest(packet);
        let checksum = read_be16(all.as_slice(), 0);
        let identifier = read_be16(all.as_slice(), 2);
        let sequence = read_be16(all.as_slice(), 4);
        let data = copy_range(all.as_slice(), 6, all.len());
        proof { assert(data@ =~= s.skip(8)); }
        Ok(Icmpv6Echo { type_, code, checksum, identifier, sequence, data })
    }

    /// The wire bytes, the checksum computed over the message with a zero
    /// checksum field and written into bytes 2 and 3.
    pub fn to_bytes(&self) -> (r: Vec<u8>)
        ensures
            r@ == with_checksum(echo_fields(self.type_, self.code, 0, self.identifier, self.sequence,
                self.data@)),
    {
        let mut bytes: Vec<u8> = Vec::new();
        bytes.push(self.type_);
        bytes.push(self.code);
        push_be16(&mut bytes, 0);
        push_be16(&mut bytes, self.identifier);
        push_be16(&mut bytes, self.sequence);
        push_slice(&mut bytes, self.data.as_slice());
        assert(bytes@ =~= echo_fields(self.type_, self.code, 0, self.identifier, self.sequence,
            self.data@));
        let checksum = calculate_checksum(bytes.as_slice());
        store16(&mut bytes, 2, checksum);
        bytes
    }

    /// The wire bytes with a zero checksum field.
    pub fn to_bytes_without_checksum(&self) -> (r: Vec<u8>)
        ensures
            r@ == echo_fields(self.type_, self.code, 0, self.identifier, self.sequence, self.data@),
    {
        let mut bytes: Vec<u8> = Vec::new();
        bytes.push(self.type_);
        bytes.push(self.code);
        push_be16(&mut bytes, 0);
        push_be16(&mut bytes, self.identifier);
        push_be16(&mut bytes, self.sequence);
        push_slice(&mut bytes, self.data.as_slice());
        assert(bytes@ =~= echo_fields(self.type_, self.code, 0, self.identifier, self.sequence, self.data@));
        bytes
    }

    /// The reply to this message: type 129, same identifier, sequence and data.
    pub fn make_reply(&self) -> (r: Self)
        ensures
            r.type_ == 129 && r.code == 0 && r.checksum == 0,
            r.identifier == self.identifier && r.sequence == self.sequence && r.data@ == self.data@,
    {
        Self::new_reply(self.identifier, self.sequence, copy_range(self.data.as_slice(), 0, self.data.len()))
    }

    /// Whether this is an echo request (type 128).
    pub fn is_request(&self) -> (r: bool)
        ensures
            r == (self.type_ == 128),
    {
        self.type_ == 128
    }

    /// Whether this is an echo reply (type 129).
    pub fn is_reply(&self) -> (r: bool)
        ensures
            r == (self.type_ == 129),
    {
        self.type_ == 129
    }
}

// ---------- error messages ----------

/// A Destination Unreachable message.
#[derive(Debug, Clone, PartialEq)]
pub struct Icmpv6DestUnreachable {
    pub type_: u8,
    pub code: u8,
    pub checksum: u16,
    pub unused: u32,
    pub original_datagram: Vec<u8>,
}

impl Icmpv6DestUnreachable {
    pub const MIN_LEN: usize = 8;

    /// Whether the fields are those of the message in `s`.
    pub open spec fn fields_from(&self, s: Seq<u8>) -> bool {
        body32_from(self.type_, self.code, self.checksum, self.unused, self.original_datagram@, s)
    }

    /// Parses the message that fills the rest of the packet; the code must be 0 to 6.
    pub fn from_packet(packet: &mut Packet) -> (r: Result<Self, Icmpv6Error>)
        ensures
            old(packet)@.len() < 8 ==> (r matches Err(Icmpv6Error::ParseError(_)) && final(packet)@ == old(packet)@),
            old(packet)@.len() >= 8 && old(packet)@[1] > 6 ==> (r matches Err(Icmpv6Error::InvalidPacket(_))
                && final(packet)@ == old(packet)@.skip(2)),
            old(packet)@.len() >= 8 && old(packet)@[1] <= 6 ==> (r matches Ok(m) && m.fields_from(old(packet)@)
                && final(packet)@.len() == 0),
    {
        if packet.remaining() < 8 {
            return Err(short_error());
        }
        let ghost s = packet@;
        let (type_, code) = read_type_code(packet);
        if super::types::DestUnreachableCode::from_u8(code).is_none() {
            return Err(code_error());
        }
        let (checksum, unused, original_datagram) = read_body32(packet);
        proof { assert(original_datagram@ =~= s.skip(8)); }
        Ok(Icmpv6DestUnreachable { type_, code, checksum, unused, original_datagram })
    }

    /// The wire bytes, checksum computed with a zero checksum field.
    pub fn to_bytes(&self) -> (r: Vec<u8>)
        ensures
            r@ == with_checksum(body32_fields(self.type_, self.code, self.unused, self.original_datagram@)),
    {
        encode_body32(self.type_, self.code, self.unused, self.original_datagram.as_slice())
    }
}

/// A Packet Too Big message.
#[derive(Debug, Clone, PartialEq)]
pub struct Icmpv6PacketTooBig {
    pub type_: u8,
    pub code: u8,
    pub checksum: u16,
    pub mtu: u32,
    pub original_datagram: Vec<u8>,
}

impl Icmpv6PacketTooBig {
    pub const MIN_LEN: usize = 8;

    /// Whether the fields are those of the message in `s`.
    pub open spec fn fields_from(&self, s: Seq<u8>) -> bool {
        body32_from(self.type_, self.code, self.checksum, self.mtu, self.original_datagram@, s)
    }

    /// Parses the message that fills the rest of the packet; the code must be 0.
    pub fn from_packet(packet: &mut Packet) -> (r: Result<Self, Icmpv6Error>)
        ensures
            old(packet)@.len() < 8 ==> (r matches Err(Icmpv6Error::ParseError(_)) && final(packet)@ == old(packet)@),
            old(packet)@.len() >= 8 && old(packet)@[1] != 0 ==> (r matches Err(Icmpv6Error::InvalidPacket(_))
                && final(packet)@ == old(packet)@.skip(2)),
            old(packet)@.len() >= 8 && old(packet)@[1] == 0 ==> (r matches Ok(m) && m.fields_from(old(packet)@)
                && final(packet)@.len() == 0),
    {
        if packet.remaining() < 8 {
            return Err(short_error());
        }
        let ghost s = packet@;
        let (type_, code) = read_type_code(packet);
        if code != 0 {
            return Err(code_error());
        }
        let (checksum, mtu, original_datagram) = read_body32(packet);
        proof { assert(original_datagram@ =~= s.skip(8)); }
        Ok(Icmpv6PacketTooBig { type_, code, checksum, mtu, original_datagram })
    }

    /// The wire bytes, checksum computed with a zero checksum field.
    pub fn to_bytes(&self) -> (r: Vec<u8>)
        ensures
            r@ == with_checksum(body32_fields(self.type_, self.code, self.mtu, self.original_datagram@)),
    {
        encode_body32(self.type_, self.code, self.mtu, self.original_datagram.as_slice())
    }
}

/// A Time Exceeded message.
#[derive(Debug, Clone, PartialEq)]
pub struct Icmpv6TimeExceeded {
    pub type_: u8,
    pub code: u8,
    pub checksum: u16,
    pub unused: u32,
    pub original_datagram: Vec<u8>,
}

impl Icmpv6TimeExceeded {
    pub const MIN_LEN: usize = 8;

    /// Whether the fields are those of the message in `s`.
    pub open spec fn fields_from(&self, s: Seq<u8>) -> bool {
        body32_from(self.type_, self.code, self.checksum, self.unused, self.original_datagram@, s)
    }

    /// Parses the message that fills the rest of the packet; the code must be 0 or 1.
    pub fn from_packet(packet: &mut Packet) -> (r: Result<Self, Icmpv6Error>)
        ensures
            old(packet)@.len() < 8 ==> (r matches Err(Icmpv6Error::ParseError(_)) && final(packet)@ == old(packet)@),
            old(packet)@.len() >= 8 && old(packet)@[1] > 1 ==> (r matches Err(Icmpv6Error::InvalidPacket(_))
                && final(packet)@ == old(packet)@.skip(2)),
            old(packet)@.len() >= 8 && old(packet)@[1] <= 1 ==> (r matches Ok(m) && m.fields_from(old(packet)@)
                && final(packet)@.len() == 0),
    {
        if packet.remaining() < 8 {
            return Err(short_error());
        }
        let ghost s = packet@;
        let (type_, code) = read_type_code(packet);
        if super::types::TimeExceededCode::from_u8(code).is_none() {
            return Err(code_error());
        }
        let (checksum, unused, original_datagram) = read_body32(packet);
        proof { assert(original_datagram@ =~= s.skip(8)); }
        Ok(Icmpv6TimeExceeded { type_, code, checksum, unused, original_datagram })
    }

    /// The wire bytes, checksum computed with a zero checksum field.
    pub fn to_bytes(&self) -> (r: Vec<u8>)
        ensures
            r@ == with_checksum(body32_fields(self.type_, self.code, self.unused, self.original_datagram@)),
    {
        encode_body32(self.type_, self.code, self.unused, self.original_datagram.as_slice())
    }
}

/// A Parameter Problem message.
#[derive(Debug, Clone, PartialEq)]
pub struct Icmpv6ParameterProblem {
    pub type_: u8,
    pub code: u8,
    pub checksum: u16,
    /// Offset of the offending byte in the original datagram.
    pub pointer: u32,
    pub original_datagram: Vec<u8>,
}

impl Icmpv6ParameterProblem {
    pub const MIN_LEN: usize = 8;

    /// Whether the fields are those of the message in `s`.
    pub open spec fn fields_from(&self, s: Seq<u8>) -> bool {
        body32_from(self.type_, self.code, self.checksum, self.pointer, self.original_datagram@, s)
    }

    /// Parses the message that fills the rest of the packet; the code must be 0 to 2.
    pub fn from_packet(packet: &mut Packet) -> (r: Result<Self, Icmpv6Error>)
        ensures
            old(packet)@.len() < 8 ==> (r matches Err(Icmpv6Error::ParseError(_)) && final(packet)@ == old(packet)@),
            old(packet)@.len() >= 8 && old(packet)@[1] > 2 ==> (r matches Err(Icmpv6Error::InvalidPacket(_))
                && final(packet)@ == old(packet)@.skip(2)),
            old(packet)@.len() >= 8 && old(packet)@[1] <= 2 ==> (r matches Ok(m) && m.fields_from(old(packet)@)
                && final(packet)@.len() == 0),
    {
        if packet.remaining() < 8 {
            return Err(short_error());
        }
        let ghost s = packet@;
        let (type_, code) = read_type_code(packet);
        if super::types::ParameterProblemCode::from_u8(code).is_none() {
            return Err(code_error());
        }
        let (checksum, pointer, original_datagram) = read_body32(packet);
        proof { assert(original_datagram@ =~= s.skip(8)); }
        Ok(Icmpv6ParameterProblem { type_, code, checksum, pointer, original_datagram })
    }

    /// The wire bytes, checksum computed with a zero checksum field.
    pub fn to_bytes(&self) -> (r: Vec<u8>)
        ensures
            r@ == with_checksum(body32_fields(self.type_, self.code, self.pointer, self.original_datagram@)),
    {
        encode_body32(self.type_, self.code, self.pointer, self.original_datagram.as_slice())
    }
}

// ---------- options ----------

/// Data length of an option whose length field is `units` (8-byte units
/// covering the 2-byte option header; 0 means no data).
pub open spec fn option_data_len(units: u8) -> int {
    if units == 0 { 0 } else { units * 8 - 2 }
}

/// The options at the start of `s`, as (type, length field, data), read
/// until fewer than two bytes remain or an option does not fit; and what
/// is left of `s` afterwards (a non-fitting option's two header bytes are
/// consumed).
pub open spec fn options_from(s: Seq<u8>) -> (Seq<(u8, u8, Seq<u8>)>, Seq<u8>)
    decreases s.len(),
{
    if s.len() < 2 {
        (Seq::empty(), s)
    } else if s.len() - 2 < option_data_len(s[1]) {
        (Seq::empty(), s.skip(2))
    } else {
        let n = 2 + option_data_len(s[1]);
        let rest = options_from(s.skip(n as int));
        (seq![(s[0], s[1], s.subrange(2, n as int))] + rest.0, rest.1)
    }
}

/// Padding that brings an option with `n` data bytes to a multiple of 8.
pub open spec fn option_pad(n: nat) -> nat {
    ((8 - (n + 2) % 8) % 8) as nat
}

/// The wire bytes of an option with type `t` and data `d`.
pub open spec fn option_wire(t: u8, d: Seq<u8>) -> Seq<u8> {
    seq![t, option_units_byte(d.len())] + d + Seq::new(option_pad(d.len()), |_i: int| 0u8)
}

/// The wire bytes of a list of options, one after the other.
pub open spec fn options_wire(v: Seq<(u8, u8, Seq<u8>)>) -> Seq<u8>
    decreases v.len(),
{
    if v.len() == 0 {
        Seq::empty()
    } else {
        options_wire(v.drop_last()) + option_wire(v.last().0, v.last().2)
    }
}

/// A neighbor discovery option.
#[derive(Debug, Clone, PartialEq)]
pub struct Icmpv6Option {
    pub option_type: u8,
    /// Length in 8-byte units, header included.
    pub option_length: u8,
    pub data: Vec<u8>,
}

/// The options as (type, length field, data).
pub open spec fn option_views(v: Seq<Icmpv6Option>) -> Seq<(u8, u8, Seq<u8>)> {
    v.map_values(|o: Icmpv6Option| (o.option_type, o.option_length, o.data@))
}

impl Icmpv6Option {
    pub const MIN_LEN: usize = 2;

    /// Parses one option from the packet.
    pub fn from_packet(packet: &mut Packet) -> (r: Result<Self, Icmpv6Error>)
        ensures
            old(packet)@.len() < 2 ==> (r matches Err(Icmpv6Error::ParseError(_)) && final(packet)@ == old(packet)@),
            old(packet)@.len() >= 2 && old(packet)@.len() - 2 < option_data_len(old(packet)@[1])
                ==> (r matches Err(Icmpv6Error::ParseError(_)) && final(packet)@ == old(packet)@.skip(2)),
            old(packet)@.len() >= 2 && old(packet)@.len() - 2 >= option_data_len(old(packet)@[1]) ==> (r matches Ok(o)
                && o.option_type == old(packet)@[0] && o.option_length == old(packet)@[1]
                && o.data@ == old(packet)@.subrange(2, 2 + option_data_len(old(packet)@[1]))
                && final(packet)@ == old(packet)@.skip(2 + option_data_len(old(packet)@[1]))),
    {
        if packet.remaining() < 2 {
            return Err(Icmpv6Error::ParseError("选项长度不足".to_owned()));
        }
        let ghost s = packet@;
        let (option_type, option_length) = read_type_code(packet);
        let data_len: usize = if option_length == 0 { 0 } else { u8_to_usize(option_length) * 8 - 2 };
        if packet.remaining() < data_len {
            return Err(Icmpv6Error::ParseError("选项数据长度不足".to_owned()));
        }
        let ghost mid = packet@;
        let data = match packet.read(data_len) {
            Some(b) => copy_range(b, 0, b.len()),
            None => Vec::new(),
        };
        proof {
            assert(data@ =~= s.subrange(2, 2 + option_data_len(s[1])));
            assert(packet@ =~= s.skip(2 + option_data_len(s[1])));
        }
        Ok(Icmpv6Option { option_type, option_length, data })
    }

    /// The wire bytes: type, length in 8-byte units (rounded up), data, and
    /// zero padding to a multiple of 8.
    pub fn to_bytes(&self) -> (r: Vec<u8>)
        ensures
            r@ == option_wire(self.option_type, self.data@),
    {
        let mut bytes: Vec<u8> = Vec::new();
        bytes.push(self.option_type);
        bytes.push(option_units(self.data.len()));
        push_slice(&mut bytes, self.data.as_slice());
        let pad = (8 - bytes.len() % 8) % 8;
        push_repeat(&mut bytes, 0, pad);
        bytes
    }

    /// A source link-layer address option carrying `mac`.
    pub fn source_link_layer_addr(mac: &[u8; 6]) -> (r: Self)
        ensures
            r.option_type == 1 && r.option_length == 1 && r.data@ == mac@,
    {
        Icmpv6Option { option_type: 1, option_length: 1, data: copy_range(mac.as_slice(), 0, 6) }
    }

    /// A target link-layer address option carrying `mac`.
    pub fn target_link_layer_addr(mac: &[u8; 6]) -> (r: Self)
        ensures
            r.option_type == 2 && r.option_length == 1 && r.data@ == mac@,
    {
        Icmpv6Option { option_type: 2, option_length: 1, data: copy_range(mac.as_slice(), 0, 6) }
    }

    /// The option's type, if it is a known one.
    pub fn get_type(&self) -> (r: Option<Icmpv6OptionType>)
        ensures
            r == Icmpv6OptionType::spec_from(self.option_type),
    {
        Icmpv6OptionType::from_u8(self.option_type)
    }
}

/// Reads options until fewer than two bytes remain or one does not fit.
fn parse_options(packet: &mut Packet) -> (r: Vec<Icmpv6Option>)
    ensures
        option_views(r@) == options_from(old(packet)@).0,
        final(packet)@ == options_from(old(packet)@).1,
{
    let ghost s0 = packet@;
    let mut options: Vec<Icmpv6Option> = Vec::new();
    assert(option_views(options@) + options_from(packet@).0 =~= options_from(packet@).0);
    while packet.remaining() >= 2
        invariant_except_break
            options_from(s0).0 == option_views(options@) + options_from(packet@).0,
            options_from(s0).1 == options_from(packet@).1,
        ensures
            options_from(s0).0 == option_views(options@),
            options_from(s0).1 == packet@,
        decreases packet@.len(),
    {
        let ghost before = packet@;
        match Icmpv6Option::from_packet(packet) {
            Ok(opt) => {
                let ghost ov = options@;
                options.push(opt);
                proof {
                    assert(option_views(options@) =~= option_views(ov).push((opt.option_type, opt.option_length, opt.data@)));
                    assert(options_from(before).0 =~= seq![(opt.option_type, opt.option_length, opt.data@)] + options_from(packet@).0);
                    assert(option_views(ov) + options_from(before).0 =~= option_views(options@) + options_from(packet@).0);
                }
            },
            Err(_) => {
                proof {
                    assert(option_views(options@) + options_from(before).0 =~= option_views(options@));
                }
                break;
            },
        }
    }
    proof {
        if packet@.len() < 2 {
            assert(option_views(options@) + options_from(packet@).0 =~= option_views(options@));
        }
    }
    options
}

/// Appends the wire bytes of each option in turn.
fn push_options(bytes: &mut Vec<u8>, options: &Vec<Icmpv6Option>)
    ensures
        final(bytes)@ == old(bytes)@ + options_wire(option_views(options@)),
{
    let mut i: usize = 0;
    assert(option_views(options@.take(0)) =~= Seq::<(u8, u8, Seq<u8>)>::empty());
    assert(bytes@ =~= old(bytes)@ + options_wire(option_views(options@.take(0))));
    while i < options.len()
        invariant
            i <= options@.len(),
            bytes@ == old(bytes)@ + options_wire(option_views(options@.take(int_of(i)))),
        decreases options@.len() - i,
    {
        let w = options[i].to_bytes();
        push_slice(bytes, w.as_slice());
        proof {
            let v = option_views(options@.take(i + 1));
            assert(v.drop_last() =~= option_views(options@.take(int_of(i))));
            assert(v.last() == (options@[int_of(i)].option_type, options@[int_of(i)].option_length, options@[int_of(i)].data@));
            assert(bytes@ =~= old(bytes)@ + options_wire(v));
        }
        i = i + 1;
    }
    assert(options@.take(nat_int(options@.len())) =~= options@);
}

/// Writes the checksum of `bytes` (whose checksum field is zero) into bytes 2 and 3.
fn finish_checksum(bytes: &mut Vec<u8>)
    requires
        old(bytes)@.len() >= 4,
    ensures
        final(bytes)@ == with_checksum(old(bytes)@),
{
    let checksum = calculate_checksum(bytes.as_slice());
    store16(bytes, 2, checksum);
}

// ---------- neighbor discovery messages ----------

/// A Router Solicitation message.
#[derive(Debug, Clone, PartialEq)]
pub struct Icmpv6RouterSolicitation {
    pub type_: u8,
    pub code: u8,
    pub checksum: u16,
    pub reserved: u32,
    pub options: Vec<Icmpv6Option>,
}

impl Icmpv6RouterSolicitation {
    pub const MIN_LEN: usize = 8;

    /// Whether the fields are those of the message in `s`.
    pub open spec fn fields_from(&self, s: Seq<u8>) -> bool {
        &&& s.len() >= 8
        &&& self.type_ == s[0] && self.code == s[1] && self.checksum == be16(s[2], s[3])
        &&& self.reserved == be32(s[4], s[5], s[6], s[7])
        &&& option_views(self.options@) == options_from(s.skip(8)).0
    }

    /// The bytes before the options, checksum zero.
    pub open spec fn head(&self) -> Seq<u8> {
        seq![self.type_, self.code, 0u8, 0u8] + u32_bytes(self.reserved)
    }

    /// A solicitation (type 133) with no options.
    pub fn new() -> (r: Self)
        ensures
            r.type_ == 133 && r.code == 0 && r.checksum == 0 && r.reserved == 0 && r.options@.len() == 0,
    {
        Icmpv6RouterSolicitation { type_: 133, code: 0, checksum: 0, reserved: 0, options: Vec::new() }
    }

    /// Parses the message and its options from the packet.
    pub fn from_packet(packet: &mut Packet) -> (r: Result<Self, Icmpv6Error>)
        ensures
            old(packet)@.len() < 8 ==> (r matches Err(Icmpv6Error::ParseError(_)) && final(packet)@ == old(packet)@),
            old(packet)@.len() >= 8 ==> (r matches Ok(m) && m.fields_from(old(packet)@)
                && final(packet)@ == options_from(old(packet)@.skip(8)).1),
    {
        if packet.remaining() < 8 {
            return Err(short_error());
        }
        let ghost s = packet@;
        let (type_, code, checksum, reserved) = match packet.read(8) {
            Some(h) => (h[0], h[1], read_be16(h, 2), read_be32(h, 4)),
            None => (0, 0, 0, 0),
        };
        let options = parse_options(packet);
        Ok(Icmpv6RouterSolicitation { type_, code, checksum, reserved, options })
    }

    /// The wire bytes, checksum computed with a zero checksum field.
    pub fn to_bytes(&self) -> (r: Vec<u8>)
        ensures
            r@ == with_checksum(self.head() + options_wire(option_views(self.options@))),
    {
        let mut bytes: Vec<u8> = Vec::new();
        bytes.push(self.type_);
        bytes.push(self.code);
        push_be16(&mut bytes, 0);
        push_be32(&mut bytes, self.reserved);
        assert(bytes@ =~= self.head());
        push_options(&mut bytes, &self.options);
        finish_checksum(&mut bytes);
        bytes
    }
}

/// A Router Advertisement message.
#[derive(Debug, Clone, PartialEq)]
pub struct Icmpv6RouterAdvertisement {
    pub type_: u8,
    pub code: u8,
    pub checksum: u16,
    pub cur_hop_limit: u8,
    /// M, O and H flags in the top three bits.
    pub flags: u8,
    /// Router lifetime in seconds.
    pub lifetime: u16,
    /// Milliseconds.
    pub reachable_time: u32,
    /// Milliseconds.
    pub retrans_timer: u32,
    pub options: Vec<Icmpv6Option>,
}

impl Icmpv6RouterAdvertisement {
    pub const MIN_LEN: usize = 16;

    /// Whether the fields are those of the message in `s`.
    pub open spec fn fields_from(&self, s: Seq<u8>) -> bool {
        &&& s.len() >= 16
        &&& self.type_ == s[0] && self.code == s[1] && self.checksum == be16(s[2], s[3])
        &&& self.cur_hop_limit == s[4] && self.flags == s[5] && self.lifetime == be16(s[6], s[7])
        &&& self.reachable_time == be32(s[8], s[9], s[10], s[11])
        &&& self.retrans_timer == be32(s[12], s[13], s[14], s[15])
        &&& option_views(self.options@) == options_from(s.skip(16)).0
    }

    /// The bytes before the options, checksum zero.
    pub open spec fn head(&self) -> Seq<u8> {
        seq![self.type_, self.code, 0u8, 0u8, self.cur_hop_limit, self.flags] + u16_bytes(self.lifetime)
            + u32_bytes(self.reachable_time) + u32_bytes(self.retrans_timer)
    }

    /// Parses the message and its options from the packet.
    pub fn from_packet(packet: &mut Packet) -> (r: Result<Self, Icmpv6Error>)
        ensures
            old(packet)@.len() < 16 ==> (r matches Err(Icmpv6Error::ParseError(_)) && final(packet)@ == old(packet)@),
            old(packet)@.len() >= 16 ==> (r matches Ok(m) && m.fields_from(old(packet)@)
                && final(packet)@ == options_from(old(packet)@.skip(16)).1),
    {
        if packet.remaining() < 16 {
            return Err(short_error());
        }
        let (type_, code, checksum, cur_hop_limit, flags, lifetime, reachable_time, retrans_timer) =
            match packet.read(16) {
                Some(h) => (h[0], h[1], read_be16(h, 2), h[4], h[5], read_be16(h, 6), read_be32(h, 8), read_be32(h, 12)),
                None => (0, 0, 0, 0, 0, 0, 0, 0),
            };
        let options = parse_options(packet);
        Ok(Icmpv6RouterAdvertisement {
            type_, code, checksum, cur_hop_limit, flags, lifetime, reachable_time, retrans_timer, options,
        })
    }

    /// The wire bytes, checksum computed with a zero checksum field.
    pub fn to_bytes(&self) -> (r: Vec<u8>)
        ensures
            r@ == with_checksum(self.head() + options_wire(option_views(self.options@))),
    {
        let mut bytes: Vec<u8> = Vec::new();
        bytes.push(self.type_);
        bytes.push(self.code);
        push_be16(&mut bytes, 0);
        bytes.push(self.cur_hop_limit);
        bytes.push(self.flags);
        push_be16(&mut bytes, self.lifetime);
        push_be32(&mut bytes, self.reachable_time);
        push_be32(&mut bytes, self.retrans_timer);
        assert(bytes@ =~= self.head());
        push_options(&mut bytes, &self.options);
        finish_checksum(&mut bytes);
        bytes
    }

    /// The M flag (managed address configuration), bit 0x80.
    pub fn managed_flag(&self) -> (r: bool)
        ensures
            r == (self.flags & 0x80 != 0),
    {
        (self.flags & 0x80) != 0
    }

    /// The O flag (other configuration), bit 0x40.
    pub fn other_flag(&self) -> (r: bool)
        ensures
            r == (self.flags & 0x40 != 0),
    {
        (self.flags & 0x40) != 0
    }

    /// The H flag (home agent), bit 0x20.
    pub fn home_agent_flag(&self) -> (r: bool)
        ensures
            r == (self.flags & 0x20 != 0),
    {
        (self.flags & 0x20) != 0
    }
}

/// A Neighbor Solicitation message.
#[derive(Debug, Clone, PartialEq)]
pub struct Icmpv6NeighborSolicitation {
    pub type_: u8,
    pub code: u8,
    pub checksum: u16,
    pub reserved: u32,
    pub target_address: Ipv6Addr,
    pub options: Vec<Icmpv6Option>,
}

impl Icmpv6NeighborSolicitation {
    pub const MIN_LEN: usize = 24;

    /// Whether the fields are those of the message in `s`.
    pub open spec fn fields_from(&self, s: Seq<u8>) -> bool {
        &&& s.len() >= 24
        &&& self.type_ == s[0] && self.code == s[1] && self.checksum == be16(s[2], s[3])
        &&& self.reserved == be32(s[4], s[5], s[6], s[7])
        &&& self.target_address.bytes@ == s.subrange(8, 24)
        &&& option_views(self.options@) == options_from(s.skip(24)).0
    }

    /// The bytes before the options, checksum zero.
    pub open spec fn head(&self) -> Seq<u8> {
        seq![self.type_, self.code, 0u8, 0u8] + u32_bytes(self.reserved) + self.target_address.bytes@
    }

    /// A solicitation (type 135) for `target_address`, with no options.
    pub fn new(target_address: Ipv6Addr) -> (r: Self)
        ensures
            r.type_ == 135 && r.code == 0 && r.checksum == 0 && r.reserved == 0,
            r.target_address == target_address && r.options@.len() == 0,
    {
        Icmpv6NeighborSolicitation { type_: 135, code: 0, checksum: 0, reserved: 0, target_address, options: Vec::new() }
    }

    /// Parses the message and its options from the packet.
    pub fn from_packet(packet: &mut Packet) -> (r: Result<Self, Icmpv6Error>)
        ensures
            old(packet)@.len() < 24 ==> (r matches Err(Icmpv6Error::ParseError(_)) && final(packet)@ == old(packet)@),
            old(packet)@.len() >= 24 ==> (r matches Ok(m) && m.fields_from(old(packet)@)
                && final(packet)@ == options_from(old(packet)@.skip(24)).1),
    {
        if packet.remaining() < 24 {
            return Err(short_error());
        }
        let (type_, code, checksum, reserved, target) = match packet.read(24) {
            Some(h) => (h[0], h[1], read_be16(h, 2), read_be32(h, 4), array16_at(h, 8)),
            None => (0, 0, 0, 0, [0u8; 16]),
        };
        assert(target@ =~= old(packet)@.subrange(8, 24));
        let options = parse_options(packet);
        Ok(Icmpv6NeighborSolicitation {
            type_, code, checksum, reserved, target_address: Ipv6Addr::from_bytes(target), options,
        })
    }

    /// The wire bytes, checksum computed with a zero checksum field.
    pub fn to_bytes(&self) -> (r: Vec<u8>)
        ensures
            r@ == with_checksum(self.head() + options_wire(option_views(self.options@))),
    {
        let mut bytes: Vec<u8> = Vec::new();
        bytes.push(self.type_);
        bytes.push(self.code);
        push_be16(&mut bytes, 0);
        push_be32(&mut bytes, self.reserved);
        push_slice(&mut bytes, self.target_address.bytes.as_slice());
        assert(bytes@ =~= self.head());
        push_options(&mut bytes, &self.options);
        finish_checksum(&mut bytes);
        bytes
    }
}

/// The flags byte of a Neighbor Advertisement: R = 0x80, S = 0x40, O = 0x20.
pub open spec fn advert_flags(router: bool, solicited: bool, override_: bool) -> u8 {
    ((if router { 0x80u8 } else { 0u8 }) + (if solicited { 0x40u8 } else { 0u8 })
        + (if override_ { 0x20u8 } else { 0u8 })) as u8
}

/// A Neighbor Advertisement message.
#[derive(Debug, Clone, PartialEq)]
pub struct Icmpv6NeighborAdvertisement {
    pub type_: u8,
    pub code: u8,
    pub checksum: u16,
    /// R, S and O flags in the top three bits.
    pub flags: u8,
    pub reserved: [u8; 3],
    pub target_address: Ipv6Addr,
    pub options: Vec<Icmpv6Option>,
}

impl Icmpv6NeighborAdvertisement {
    pub const MIN_LEN: usize = 24;

    /// Whether the fields are those of the message in `s`.
    pub open spec fn fields_from(&self, s: Seq<u8>) -> bool {
        &&& s.len() >= 24
        &&& self.type_ == s[0] && self.code == s[1] && self.checksum == be16(s[2], s[3])
        &&& self.flags == s[4] && self.reserved@ == s.subrange(5, 8)
        &&& self.target_address.bytes@ == s.subrange(8, 24)
        &&& option_views(self.options@) == options_from(s.skip(24)).0
    }

    /// The bytes before the options, checksum zero.
    pub open spec fn head(&self) -> Seq<u8> {
        seq![self.type_, self.code, 0u8, 0u8, self.flags] + self.reserved@ + self.target_address.bytes@
    }

    /// An advertisement (type 136) for `target_address` with the given flags
    /// and no options.
    pub fn new(target_address: Ipv6Addr, router: bool, solicited: bool, override_: bool) -> (r: Self)
        ensures
            r.type_ == 136 && r.code == 0 && r.checksum == 0 && r.reserved@ == seq![0u8, 0u8, 0u8],
            r.flags == advert_flags(router, solicited, override_),
            r.target_address == target_address && r.options@.len() == 0,
    {
        let mut flags: u8 = 0;
        if router {
            flags = flags + 0x80;
        }
        if solicited {
            flags = flags + 0x40;
        }
        if override_ {
            flags = flags + 0x20;
        }
        let reserved: [u8; 3] = [0, 0, 0];
        assert(reserved@ =~= seq![0u8, 0u8, 0u8]);
        Icmpv6NeighborAdvertisement { type_: 136, code: 0, checksum: 0, flags, reserved, target_address, options: Vec::new() }
    }

    /// Parses the message and its options from the packet.
    pub fn from_packet(packet: &mut Packet) -> (r: Result<Self, Icmpv6Error>)
        ensures
            old(packet)@.len() < 24 ==> (r matches Err(Icmpv6Error::ParseError(_)) && final(packet)@ == old(packet)@),
            old(packet)@.len() >= 24 ==> (r matches Ok(m) && m.fields_from(old(packet)@)
                && final(packet)@ == options_from(old(packet)@.skip(24)).1),
    {
        if packet.remaining() < 24 {
            return Err(short_error());
        }
        let (type_, code, checksum, flags, reserved, target) = match packet.read(24) {
            Some(h) => (h[0], h[1], read_be16(h, 2), h[4], [h[5], h[6], h[7]], array16_at(h, 8)),
            None => (0, 0, 0, 0, [0u8; 3], [0u8; 16]),
        };
        assert(reserved@ =~= old(packet)@.subrange(5, 8));
        assert(target@ =~= old(packet)@.subrange(8, 24));
        let options = parse_options(packet);
        Ok(Icmpv6NeighborAdvertisement {
            type_, code, checksum, flags, reserved, target_address: Ipv6Addr::from_bytes(target), options,
        })
    }

    /// The wire bytes, checksum computed with a zero checksum field.
    pub fn to_bytes(&self) -> (r: Vec<u8>)
        ensures
            r@ == with_checksum(self.head() + options_wire(option_views(self.options@))),
    {
        let mut bytes: Vec<u8> = Vec::new();
        bytes.push(self.type_);
        bytes.push(self.code);
        push_be16(&mut bytes, 0);
        bytes.push(self.flags);
        push_slice(&mut bytes, self.reserved.as_slice());
        push_slice(&mut bytes, self.target_address.bytes.as_slice());
        assert(bytes@ =~= self.head());
        push_options(&mut bytes, &self.options);
        finish_checksum(&mut bytes);
        bytes
    }

    /// The R flag (sender is a router), bit 0x80.
    pub fn router_flag(&self) -> (r: bool)
        ensures
            r == (self.flags & 0x80 != 0),
    {
        (self.flags & 0x80) != 0
    }

    /// The S flag (sent in reply to a solicitation), bit 0x40.
    pub fn solicited_flag(&self) -> (r: bool)
        ensures
            r == (self.flags & 0x40 != 0),
    {
        (self.flags & 0x40) != 0
    }

    /// The O flag (override an existing cache entry), bit 0x20.
    pub fn override_flag(&self) -> (r: bool)
        ensures
            r == (self.flags & 0x20 != 0),
    {
        (self.flags & 0x20) != 0
    }
}

/// The flags an advertisement is built with are the flags it reports.
pub proof fn lemma_advert_flags_roundtrip(router: bool, solicited: bool, override_: bool)
    ensures
        (advert_flags(router, solicited, override_) & 0x80 != 0) == router,
        (advert_flags(router, solicited, override_) & 0x40 != 0) == solicited,
        (advert_flags(router, solicited, override_) & 0x20 != 0) == override_,
{
    let a: u8 = if router { 0x80 } else { 0 };
    let b: u8 = if solicited { 0x40 } else { 0 };
    let c: u8 = if override_ { 0x20 } else { 0 };
    assert(advert_flags(router, solicited, override_) == (a + b + c) as u8);
    assert((a == 0x80 || a == 0) && (b == 0x40 || b == 0) && (c == 0x20 || c == 0) ==> {
        &&& ((((a + b + c) as u8) & 0x80 != 0) == (a == 0x80))
        &&& ((((a + b + c) as u8) & 0x40 != 0) == (b == 0x40))
        &&& ((((a + b + c) as u8) & 0x20 != 0) == (c == 0x20))
    }) by (bit_vector);
}

/// A Redirect message.
#[derive(Debug, Clone, PartialEq)]
pub struct Icmpv6Redirect {
    pub type_: u8,
    pub code: u8,
    pub checksum: u16,
    pub reserved: u32,
    /// The better first hop.
    pub target_address: Ipv6Addr,
    /// The destination being redirected.
    pub destination_address: Ipv6Addr,
    pub options: Vec<Icmpv6Option>,
}

impl Icmpv6Redirect {
    pub const MIN_LEN: usize = 40;

    /// Whether the fields are those of the message in `s`.
    pub open spec fn fields_from(&self, s: Seq<u8>) -> bool {
        &&& s.len() >= 40
        &&& self.type_ == s[0] && self.code == s[1] && self.checksum == be16(s[2], s[3])
        &&& self.reserved == be32(s[4], s[5], s[6], s[7])
        &&& self.target_address.bytes@ == s.subrange(8, 24)
        &&& self.destination_address.bytes@ == s.subrange(24, 40)
        &&& option_views(self.options@) == options_from(s.skip(40)).0
    }

    /// The bytes before the options, checksum zero.
    pub open spec fn head(&self) -> Seq<u8> {
        seq![self.type_, self.code, 0u8, 0u8] + u32_bytes(self.reserved) + self.target_address.bytes@
            + self.destination_address.bytes@
    }

    /// Parses the message and its options from the packet.
    pub fn from_packet(packet: &mut Packet) -> (r: Result<Self, Icmpv6Error>)
        ensures
            old(packet)@.len() < 40 ==> (r matches Err(Icmpv6Error::ParseError(_)) && final(packet)@ == old(packet)@),
            old(packet)@.len() >= 40 ==> (r matches Ok(m) && m.fields_from(old(packet)@)
                && final(packet)@ == options_from(old(packet)@.skip(40)).1),
    {
        if packet.remaining() < 40 {
            return Err(short_error());
        }
        let (type_, code, checksum, reserved, target, dest) = match packet.read(40) {
            Some(h) => (h[0], h[1], read_be16(h, 2), read_be32(h, 4), array16_at(h, 8), array16_at(h, 24)),
            None => (0, 0, 0, 0, [0u8; 16], [0u8; 16]),
        };
        assert(target@ =~= old(packet)@.subrange(8, 24));
        assert(dest@ =~= old(packet)@.subrange(24, 40));
        let options = parse_options(packet);
        Ok(Icmpv6Redirect {
            type_, code, checksum, reserved,
            target_address: Ipv6Addr::from_bytes(target),
            destination_address: Ipv6Addr::from_bytes(dest),
            options,
        })
    }

    /// The wire bytes, checksum computed with a zero checksum field.
    pub fn to_bytes(&self) -> (r: Vec<u8>)
        ensures
            r@ == with_checksum(self.head() + options_wire(option_views(self.options@))),
    {
        let mut bytes: Vec<u8> = Vec::new();
        bytes.push(self.type_);
        bytes.push(self.code);
        push_be16(&mut bytes, 0);
        push_be32(&mut bytes, self.reserved);
        push_slice(&mut bytes, self.target_address.bytes.as_slice());
        push_slice(&mut bytes, self.destination_address.bytes.as_slice());
        assert(bytes@ =~= self.head());
        push_options(&mut bytes, &self.options);
        finish_checksum(&mut bytes);
        bytes
    }
}

// ---------- any message ----------

/// Whether `t` is a message type this library parses.
pub open spec fn known_type(t: u8) -> bool {
    t == 1 || t == 2 || t == 3 || t == 4 || t == 128 || t == 129 || (133 <= t <= 137)
}

/// Length of the fixed part of a message of type `t`.
pub open spec fn min_len_of(t: u8) -> nat {
    if t == 134 { 16 } else if t == 135 || t == 136 { 24 } else if t == 137 { 40 } else { 8 }
}

/// Whether the code of the message in `s` is one its type accepts.
pub open spec fn code_ok(s: Seq<u8>) -> bool {
    let t = s[0];
    let c = s[1];
    if t == 128 || t == 129 || t == 2 {
        c == 0
    } else if t == 1 {
        c <= 6
    } else if t == 3 {
        c <= 1
    } else if t == 4 {
        c <= 2
    } else {
        true
    }
}

/// What is left of the input after the message in `s` is parsed.
pub open spec fn rest_after(s: Seq<u8>) -> Seq<u8> {
    if s[0] <= 4 || s[0] == 128 || s[0] == 129 {
        Seq::empty()
    } else {
        options_from(s.skip(min_len_of(s[0]) as int)).1
    }
}

/// An ICMPv6 message of any type this library parses.
#[derive(Debug, Clone, PartialEq)]
pub enum Icmpv6Packet {
    Echo(Icmpv6Echo),
    DestUnreachable(Icmpv6DestUnreachable),
    PacketTooBig(Icmpv6PacketTooBig),
    TimeExceeded(Icmpv6TimeExceeded),
    ParameterProblem(Icmpv6ParameterProblem),
    RouterSolicitation(Icmpv6RouterSolicitation),
    RouterAdvertisement(Icmpv6RouterAdvertisement),
    NeighborSolicitation(Icmpv6NeighborSolicitation),
    NeighborAdvertisement(Icmpv6NeighborAdvertisement),
    Redirect(Icmpv6Redirect),
}

impl Icmpv6Packet {
    /// Whether this is the message that `s` holds.
    pub open spec fn decodes(&self, s: Seq<u8>) -> bool {
        match self {
            Icmpv6Packet::Echo(m) => (s[0] == 128 || s[0] == 129) && m.fields_from(s),
            Icmpv6Packet::DestUnreachable(m) => s[0] == 1 && m.fields_from(s),
            Icmpv6Packet::PacketTooBig(m) => s[0] == 2 && m.fields_from(s),
            Icmpv6Packet::TimeExceeded(m) => s[0] == 3 && m.fields_from(s),
            Icmpv6Packet::ParameterProblem(m) => s[0] == 4 && m.fields_from(s),
            Icmpv6Packet::RouterSolicitation(m) => s[0] == 133 && m.fields_from(s),
            Icmpv6Packet::RouterAdvertisement(m) => s[0] == 134 && m.fields_from(s),
            Icmpv6Packet::NeighborSolicitation(m) => s[0] == 135 && m.fields_from(s),
            Icmpv6Packet::NeighborAdvertisement(m) => s[0] == 136 && m.fields_from(s),
            Icmpv6Packet::Redirect(m) => s[0] == 137 && m.fields_from(s),
        }
    }

    /// The message's type field.
    pub open spec fn type_field(&self) -> u8 {
        match self {
            Icmpv6Packet::Echo(m) => m.type_,
            Icmpv6Packet::DestUnreachable(m) => m.type_,
            Icmpv6Packet::PacketTooBig(m) => m.type_,
            Icmpv6Packet::TimeExceeded(m) => m.type_,
            Icmpv6Packet::ParameterProblem(m) => m.type_,
            Icmpv6Packet::RouterSolicitation(m) => m.type_,
            Icmpv6Packet::RouterAdvertisement(m) => m.type_,
            Icmpv6Packet::NeighborSolicitation(m) => m.type_,
            Icmpv6Packet::NeighborAdvertisement(m) => m.type_,
            Icmpv6Packet::Redirect(m) => m.type_,
        }
    }

    /// The message's wire bytes, as the `to_bytes` of its kind gives them.
    pub open spec fn wire(&self) -> Seq<u8> {
        match self {
            Icmpv6Packet::Echo(m) => with_checksum(echo_fields(m.type_, m.code, 0, m.identifier,
                m.sequence, m.data@)),
            Icmpv6Packet::DestUnreachable(m) => with_checksum(body32_fields(m.type_, m.code, m.unused,
                m.original_datagram@)),
            Icmpv6Packet::PacketTooBig(m) => with_checksum(body32_fields(m.type_, m.code, m.mtu,
                m.original_datagram@)),
            Icmpv6Packet::TimeExceeded(m) => with_checksum(body32_fields(m.type_, m.code, m.unused,
                m.original_datagram@)),
            Icmpv6Packet::ParameterProblem(m) => with_checksum(body32_fields(m.type_, m.code, m.pointer,
                m.original_datagram@)),
            Icmpv6Packet::RouterSolicitation(m) => with_checksum(m.head() + options_wire(option_views(m.options@))),
            Icmpv6Packet::RouterAdvertisement(m) => with_checksum(m.head() + options_wire(option_views(m.options@))),
            Icmpv6Packet::NeighborSolicitation(m) => with_checksum(m.head() + options_wire(option_views(m.options@))),
            Icmpv6Packet::NeighborAdvertisement(m) => with_checksum(m.head() + options_wire(option_views(m.options@))),
            Icmpv6Packet::Redirect(m) => with_checksum(m.head() + options_wire(option_views(m.options@))),
        }
    }

    /// Parses a message of any known type, chosen by its first byte.
    pub fn from_packet(packet: &mut Packet) -> (r: Result<Self, Icmpv6Error>)
        ensures
            old(packet)@.len() == 0 ==> (r matches Err(Icmpv6Error::ParseError(_)) && final(packet)@ == old(packet)@),
            old(packet)@.len() > 0 && !known_type(old(packet)@[0]) ==> r == Err::<Self, Icmpv6Error>(
                Icmpv6Error::UnsupportedMessageType(old(packet)@[0])) && final(packet)@ == old(packet)@,
            old(packet)@.len() > 0 && known_type(old(packet)@[0]) && old(packet)@.len() < min_len_of(old(packet)@[0])
                ==> (r matches Err(Icmpv6Error::ParseError(_)) && final(packet)@ == old(packet)@),
            old(packet)@.len() > 0 && known_type(old(packet)@[0]) && old(packet)@.len() >= min_len_of(old(packet)@[0])
                && !code_ok(old(packet)@) ==> (r matches Err(Icmpv6Error::InvalidPacket(_))
                && final(packet)@ == old(packet)@.skip(2)),
            old(packet)@.len() > 0 && known_type(old(packet)@[0]) && old(packet)@.len() >= min_len_of(old(packet)@[0])
                && code_ok(old(packet)@) ==> (r matches Ok(p) && p.decodes(old(packet)@)
                && final(packet)@ == rest_after(old(packet)@)),
    {
        let t = match packet.peek(1) {
            Some(b) => b[0],
            None => {
                return Err(Icmpv6Error::ParseError("读取类型失败".to_owned()));
            },
        };
        if t == 128 || t == 129 {
            match Icmpv6Echo::from_packet(packet) {
                Ok(m) => Ok(Icmpv6Packet::Echo(m)),
                Err(e) => Err(e),
            }
        } else if t == 1 {
            match Icmpv6DestUnreachable::from_packet(packet) {
                Ok(m) => Ok(Icmpv6Packet::DestUnreachable(m)),
                Err(e) => Err(e),
            }
        } else if t == 2 {
            match Icmpv6PacketTooBig::from_packet(packet) {
                Ok(m) => Ok(Icmpv6Packet::PacketTooBig(m)),
                Err(e) => Err(e),
            }
        } else if t == 3 {
            match Icmpv6TimeExceeded::from_packet(packet) {
                Ok(m) => Ok(Icmpv6Packet::TimeExceeded(m)),
                Err(e) => Err(e),
            }
        } else if t == 4 {
            match Icmpv6ParameterProblem::from_packet(packet) {
                Ok(m) => Ok(Icmpv6Packet::ParameterProblem(m)),
                Err(e) => Err(e),
            }
        } else if t == 133 {
            match Icmpv6RouterSolicitation::from_packet(packet) {
                Ok(m) => Ok(Icmpv6Packet::RouterSolicitation(m)),
                Err(e) => Err(e),
            }
        } else if t == 134 {
            match Icmpv6RouterAdvertisement::from_packet(packet) {
                Ok(m) => Ok(Icmpv6Packet::RouterAdvertisement(m)),
                Err(e) => Err(e),
            }
        } else if t == 135 {
            match Icmpv6NeighborSolicitation::from_packet(packet) {
                Ok(m) => Ok(Icmpv6Packet::NeighborSolicitation(m)),
                Err(e) => Err(e),
            }
        } else if t == 136 {
            match Icmpv6NeighborAdvertisement::from_packet(packet) {
                Ok(m) => Ok(Icmpv6Packet::NeighborAdvertisement(m)),
                Err(e) => Err(e),
            }
        } else if t == 137 {
            match Icmpv6Redirect::from_packet(packet) {
                Ok(m) => Ok(Icmpv6Packet::Redirect(m)),
                Err(e) => Err(e),
            }
        } else {
            Err(Icmpv6Error::UnsupportedMessageType(t))
        }
    }

    /// The message's type field.
    pub fn get_type(&self) -> (r: u8)
        ensures
            r == self.type_field(),
    {
        match self {
            Icmpv6Packet::Echo(m) => m.type_,
            Icmpv6Packet::DestUnreachable(m) => m.type_,
            Icmpv6Packet::PacketTooBig(m) => m.type_,
            Icmpv6Packet::TimeExceeded(m) => m.type_,
            Icmpv6Packet::ParameterProblem(m) => m.type_,
            Icmpv6Packet::RouterSolicitation(m) => m.type_,
            Icmpv6Packet::RouterAdvertisement(m) => m.type_,
            Icmpv6Packet::NeighborSolicitation(m) => m.type_,
            Icmpv6Packet::NeighborAdvertisement(m) => m.type_,
            Icmpv6Packet::Redirect(m) => m.type_,
        }
    }

    /// The message's wire bytes.
    pub fn to_bytes(&self) -> (r: Vec<u8>)
        ensures
            r@ == self.wire(),
    {
        match self {
            Icmpv6Packet::Echo(m) => m.to_bytes(),
            Icmpv6Packet::DestUnreachable(m) => m.to_bytes(),
            Icmpv6Packet::PacketTooBig(m) => m.to_bytes(),
            Icmpv6Packet::TimeExceeded(m) => m.to_bytes(),
            Icmpv6Packet::ParameterProblem(m) => m.to_bytes(),
            Icmpv6Packet::RouterSolicitation(m) => m.to_bytes(),
            Icmpv6Packet::RouterAdvertisement(m) => m.to_bytes(),
            Icmpv6Packet::NeighborSolicitation(m) => m.to_bytes(),
            Icmpv6Packet::NeighborAdvertisement(m) => m.to_bytes(),
            Icmpv6Packet::Redirect(m) => m.to_bytes(),
        }
    }
}

} // verus!
