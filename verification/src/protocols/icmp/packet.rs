use vstd::prelude::*;
use crate::common::error::CoreError;
use crate::common::text::{decimal_digits, byte_decimal, byte_decimal_text, usize_decimal_text, join_text, append_text};
use crate::common::addr::Ipv6Addr;
use crate::common::bytes::{lemma_be16_roundtrip, u16_bytes, be16, read_be16, push_be16, push_slice, copy_range, int_of, nat_int};
use crate::protocols::common::packet::Packet;
use crate::protocols::ip::checksum::{calculate_checksum, checksum_ok, internet_checksum, lemma_put_checksum_verifies, put16, store16};
use crate::protocols::icmpv6::checksum::{calculate_icmpv6_checksum, v6_checksum};
use super::types::{ICMP_TYPE_ECHO_REQUEST, ICMP_TYPE_ECHO_REPLY, ICMP_TYPE_DEST_UNREACHABLE, ICMP_TYPE_TIME_EXCEEDED,
    ICMP_TYPE_PARAMETER_PROBLEM, ICMPV6_TYPE_ECHO_REQUEST, ICMPV6_TYPE_ECHO_REPLY};

verus! {

/// The shortest original datagram an error message carries: an IP header and 8 bytes.
pub const ICMP_ORIGINAL_DATAGRAM_MIN_LEN: usize = 28;

/// The message of the error for a message of kind `name` with `n` bytes,
/// fewer than eight.
pub open spec fn short_icmp_text(name: Seq<char>, n: nat) -> Seq<char> {
    name + "报文长度不足："@ + decimal_digits(n) + " < 8"@
}

/// The message of the error for a code out of range for its error type.
pub open spec fn bad_code_text(type_: u8, code: u8) -> Seq<char> {
    if type_ == 3 {
        "Destination Unreachable Code无效："@ + byte_decimal(code)
    } else if type_ == 11 {
        "Time Exceeded Code无效："@ + byte_decimal(code)
    } else {
        "Parameter Problem Code无效："@ + byte_decimal(code)
    }
}

/// The message of the error for an original datagram `d` that is refused
/// in a message of kind `name`.
pub open spec fn original_error_text(name: Seq<char>, d: Seq<u8>) -> Seq<char> {
    if d.len() < 28 {
        name + "原始数据报长度不足：需要至少28字节（IP头部+8字节）实际"@ + decimal_digits(d.len()) + "字节"@
    } else {
        name + "原始数据报IP头部IHL无效："@ + byte_decimal(d[0] % 16)
    }
}

/// The bytes of an echo message with the given checksum field.
pub open spec fn echo_fields(type_: u8, code: u8, checksum: u16, identifier: u16, sequence: u16, data: Seq<u8>) -> Seq<u8> {
    seq![type_, code] + u16_bytes(checksum) + u16_bytes(identifier) + u16_bytes(sequence) + data
}

/// `s` with its checksum field (bytes 2 and 3) replaced by the checksum of `s` as it is.
pub open spec fn with_checksum(s: Seq<u8>) -> Seq<u8> {
    put16(s, 2, internet_checksum(s))
}

/// Whether the fields of an echo message are those at the start of `s`.
pub open spec fn echo_fields_from(type_: u8, code: u8, checksum: u16, identifier: u16, sequence: u16, data: Seq<u8>,
    s: Seq<u8>) -> bool {
    &&& type_ == s[0]
    &&& code == s[1]
    &&& checksum == be16(s[2], s[3])
    &&& identifier == be16(s[4], s[5])
    &&& sequence == be16(s[6], s[7])
    &&& data == s.skip(8)
}

/// The bytes of an error message carrying an original datagram: type, code,
/// zero checksum, four zero bytes, then the datagram.
pub open spec fn error_fields(type_: u8, code: u8, original: Seq<u8>) -> Seq<u8> {
    seq![type_, code, 0u8, 0u8, 0u8, 0u8, 0u8, 0u8] + original
}

/// Whether an error code is acceptable for the error type.
pub open spec fn error_code_ok(type_: u8, code: u8) -> bool {
    &&& (type_ == 3 ==> code <= 5)
    &&& (type_ == 11 ==> code <= 1)
    &&& (type_ == 12 ==> code <= 2)
}

/// Whether `d` can be the original datagram of an error message: at least an
/// IP header plus 8 bytes, with a header length of at least 5 words.
pub open spec fn original_ok(d: Seq<u8>) -> bool {
    d.len() >= 28 && d[0] % 16 >= 5
}

/// Reads the rest of the packet.
pub(crate) fn read_rest(packet: &mut Packet) -> (r: Vec<u8>)
    ensures
        r@ == old(packet)@,
        final(packet)@.len() == 0,
{
    let n = packet.remaining();
    let r = match packet.read(n) {
        Some(b) => copy_range(b, 0, b.len()),
        None => Vec::new(),
    };
    proof {
        assert(old(packet)@.take(n as int) =~= old(packet)@);
    }
    r
}

/// An echo request or reply.
#[derive(Debug, Clone, PartialEq)]
pub struct IcmpEcho {
    pub type_: u8,
    pub code: u8,
    pub checksum: u16,
    pub identifier: u16,
    pub sequence: u16,
    pub data: Vec<u8>,
}

impl IcmpEcho {
    pub const MIN_LEN: usize = 8;

    /// An echo request with zero code and checksum.
    pub fn new_request(identifier: u16, sequence: u16, data: Vec<u8>) -> (r: Self)
        ensures
            r.type_ == ICMP_TYPE_ECHO_REQUEST && r.code == 0 && r.checksum == 0,
            r.identifier == identifier && r.sequence == sequence && r.data@ == data@,
    {
        Self::new(ICMP_TYPE_ECHO_REQUEST, identifier, sequence, data)
    }

    /// An echo reply with zero code and checksum.
    pub fn new_reply(identifier: u16, sequence: u16, data: Vec<u8>) -> (r: Self)
        ensures
            r.type_ == ICMP_TYPE_ECHO_REPLY && r.code == 0 && r.checksum == 0,
            r.identifier == identifier && r.sequence == sequence && r.data@ == data@,
    {
        Self::new(ICMP_TYPE_ECHO_REPLY, identifier, sequence, data)
    }

    /// An echo message of the given type with zero code and checksum.
    pub fn new(type_: u8, identifier: u16, sequence: u16, data: Vec<u8>) -> (r: Self)
        ensures
            r.type_ == type_ && r.code == 0 && r.checksum == 0,
            r.identifier == identifier && r.sequence == sequence && r.data@ == data@,
    {
        IcmpEcho { type_, code: 0, checksum: 0, identifier, sequence, data }
    }

    /// Parses an echo message that fills the rest of the packet. A message
    /// shorter than 8 bytes leaves the packet as it was; a nonzero code is
    /// refused once type and code are read.
    pub fn from_packet(packet: &mut Packet) -> (r: Result<Self, CoreError>)
        ensures
            old(packet)@.len() < 8 ==> (r matches Err(CoreError::InvalidPacket(m))
                && m@ == "Echo报文长度不足："@ + decimal_digits(old(packet)@.len()) + " < 8"@)
                && final(packet)@ == old(packet)@,
            old(packet)@.len() >= 8 && old(packet)@[1] != 0 ==> (r matches Err(CoreError::InvalidPacket(m))
                && m@ == "Echo报文Code字段无效："@ + byte_decimal(old(packet)@[1]) + "（必须为0）"@)
                && final(packet)@ == old(packet)@.skip(2),
            old(packet)@.len() >= 8 && old(packet)@[1] == 0 ==> (r matches Ok(e) && echo_fields_from(e.type_, e.code,
                e.checksum, e.identifier, e.sequence, e.data@, old(packet)@) && final(packet)@.len() == 0),
    {
        if packet.remaining() < 8 {
            let t = join_text("Echo报文长度不足：", usize_decimal_text(packet.remaining()).as_str());
            return Err(CoreError::InvalidPacket(append_text(t, " < 8")));
        }
        let ghost s0 = packet@;
        let code = match packet.peek(2) {
            Some(b) => b[1],
            None => 0,
        };
        if code != 0 {
            let _ = packet.read(2);
            assert(packet@ =~= s0.skip(2));
            let t = join_text("Echo报文Code字段无效：", byte_decimal_text(code).as_str());
            return Err(CoreError::InvalidPacket(append_text(t, "（必须为0）")));
        }
        let all = read_rest(packet);
        let data = copy_range(all.as_slice(), 8, all.len());
        Ok(IcmpEcho {
            type_: all[0],
            code: all[1],
            checksum: read_be16(all.as_slice(), 2),
            identifier: read_be16(all.as_slice(), 4),
            sequence: read_be16(all.as_slice(), 6),
            data,
        })
    }

    /// The wire bytes, the checksum computed over the message with a zero
    /// checksum field and written into bytes 2 and 3.
    pub fn to_bytes(&self) -> (r: Vec<u8>)
        ensures
            r@ == with_checksum(echo_fields(self.type_, self.code, 0, self.identifier, self.sequence, self.data@)),
    {
        let mut bytes: Vec<u8> = Vec::new();
        bytes.push(self.type_);
        bytes.push(self.code);
        push_be16(&mut bytes, 0);
        push_be16(&mut bytes, self.identifier);
        push_be16(&mut bytes, self.sequence);
        push_slice(&mut bytes, self.data.as_slice());
        assert(bytes@ =~= echo_fields(self.type_, self.code, 0, self.identifier, self.sequence, self.data@));
        let checksum = calculate_checksum(bytes.as_slice());
        store16(&mut bytes, 2, checksum);
        bytes
    }

    pub fn is_request(&self) -> (r: bool)
        ensures
            r == (self.type_ == ICMP_TYPE_ECHO_REQUEST),
    {
        self.type_ == ICMP_TYPE_ECHO_REQUEST
    }

    pub fn is_reply(&self) -> (r: bool)
        ensures
            r == (self.type_ == ICMP_TYPE_ECHO_REPLY),
    {
        self.type_ == ICMP_TYPE_ECHO_REPLY
    }

    /// The reply to this request: same identifier, sequence and data.
    pub fn make_reply(&self) -> (r: Self)
        ensures
            r.type_ == ICMP_TYPE_ECHO_REPLY && r.code == 0 && r.checksum == 0,
            r.identifier == self.identifier && r.sequence == self.sequence && r.data@ == self.data@,
    {
        IcmpEcho::new_reply(self.identifier, self.sequence, copy_range(self.data.as_slice(), 0, self.data.len()))
    }
}

/// Parses the common layout of error messages of kind `name`.
fn parse_with_original(packet: &mut Packet, name: &str) -> (r: Result<(u8, u8, u16, Vec<u8>), CoreError>)
    ensures
        ({
            let s = old(packet)@;
            &&& s.len() < 8 ==> (r matches Err(CoreError::InvalidPacket(m)) && m@ == short_icmp_text(name@, s.len()))
                && final(packet)@ == s
            &&& s.len() >= 8 && !error_code_ok(s[0], s[1]) ==> (r matches Err(CoreError::InvalidPacket(m))
                && m@ == bad_code_text(s[0], s[1])) && final(packet)@ == s.skip(2)
            &&& s.len() >= 8 && error_code_ok(s[0], s[1]) && !original_ok(s.skip(8))
                ==> (r matches Err(CoreError::InvalidPacket(m)) && m@ == original_error_text(name@, s.skip(8)))
                && final(packet)@.len() == 0
            &&& s.len() >= 8 && error_code_ok(s[0], s[1]) && original_ok(s.skip(8))
                ==> (r matches Ok(t) && t.0 == s[0] && t.1 == s[1] && t.2 == be16(s[2], s[3]) && t.3@ == s.skip(8))
                && final(packet)@.len() == 0
        }),
{
    if packet.remaining() < 8 {
        let a = join_text(name, "报文长度不足：");
        let b = append_text(a, usize_decimal_text(packet.remaining()).as_str());
        return Err(CoreError::InvalidPacket(append_text(b, " < 8")));
    }
    let ghost s0 = packet@;
    let (type_, code) = match packet.peek(2) {
        Some(b) => (b[0], b[1]),
        None => (0, 0),
    };
    if !validate_error_code(type_, code) {
        let _ = packet.read(2);
        assert(packet@ =~= s0.skip(2));
        return Err(code_error(type_, code));
    }
    let all = read_rest(packet);
    let original = copy_range(all.as_slice(), 8, all.len());
    match validate_original_datagram(original.as_slice(), name) {
        Ok(()) => {},
        Err(e) => {
            return Err(e);
        },
    }
    Ok((type_, code, read_be16(all.as_slice(), 2), original))
}

/// The error for a code out of range for its error type.
fn code_error(type_: u8, code: u8) -> (r: CoreError)
    ensures
        r matches CoreError::InvalidPacket(m) && m@ == bad_code_text(type_, code),
{
    let d = byte_decimal_text(code);
    if type_ == ICMP_TYPE_DEST_UNREACHABLE {
        CoreError::InvalidPacket(join_text("Destination Unreachable Code无效：", d.as_str()))
    } else if type_ == ICMP_TYPE_TIME_EXCEEDED {
        CoreError::InvalidPacket(join_text("Time Exceeded Code无效：", d.as_str()))
    } else {
        CoreError::InvalidPacket(join_text("Parameter Problem Code无效：", d.as_str()))
    }
}

fn validate_error_code(type_: u8, code: u8) -> (r: bool)
    ensures
        r == error_code_ok(type_, code),
{
    if type_ == ICMP_TYPE_DEST_UNREACHABLE {
        code <= 5
    } else if type_ == ICMP_TYPE_TIME_EXCEEDED {
        code <= 1
    } else if type_ == ICMP_TYPE_PARAMETER_PROBLEM {
        code <= 2
    } else {
        true
    }
}

fn encode_with_original(type_: u8, code: u8, original: &[u8]) -> (r: Vec<u8>)
    ensures
        r@ == with_checksum(error_fields(type_, code, original@)),
{
    let mut bytes: Vec<u8> = Vec::new();
    bytes.push(type_);
    bytes.push(code);
    bytes.push(0);
    bytes.push(0);
    bytes.push(0);
    bytes.push(0);
    bytes.push(0);
    bytes.push(0);
    push_slice(&mut bytes, original);
    assert(bytes@ =~= error_fields(type_, code, original@));
    let checksum = calculate_checksum(bytes.as_slice());
    store16(&mut bytes, 2, checksum);
    bytes
}

/// A Destination Unreachable message.
#[derive(Debug, Clone, PartialEq)]
pub struct IcmpDestUnreachable {
    pub type_: u8,
    pub code: u8,
    pub checksum: u16,
    pub original_datagram: Vec<u8>,
}

impl IcmpDestUnreachable {
    pub const MIN_LEN: usize = 8;

    pub fn from_packet(packet: &mut Packet) -> (r: Result<Self, CoreError>)
        ensures
            ({
                let s = old(packet)@;
                &&& s.len() < 8 ==> (r matches Err(CoreError::InvalidPacket(m))
                    && m@ == short_icmp_text("Destination Unreachable"@, s.len())) && final(packet)@ == s
                &&& s.len() >= 8 && !error_code_ok(s[0], s[1]) ==> (r matches Err(CoreError::InvalidPacket(m))
                    && m@ == bad_code_text(s[0], s[1])) && final(packet)@ == s.skip(2)
                &&& s.len() >= 8 && error_code_ok(s[0], s[1]) && !original_ok(s.skip(8))
                    ==> (r matches Err(CoreError::InvalidPacket(m)) && m@ == original_error_text("Destination Unreachable"@, s.skip(8)))
                &&& s.len() >= 8 && error_code_ok(s[0], s[1]) && original_ok(s.skip(8))
                    ==> (r matches Ok(m) && m.type_ == s[0] && m.code == s[1] && m.checksum == be16(s[2], s[3])
                        && m.original_datagram@ == s.skip(8))
            }),
    {
        match parse_with_original(packet, "Destination Unreachable") {
            Ok((type_, code, checksum, original_datagram)) => Ok(IcmpDestUnreachable { type_, code, checksum, original_datagram }),
            Err(e) => Err(e),
        }
    }

    /// The wire bytes with the checksum computed.
    pub fn to_bytes(&self) -> (r: Vec<u8>)
        ensures
            r@ == with_checksum(error_fields(self.type_, self.code, self.original_datagram@)),
    {
        encode_with_original(self.type_, self.code, self.original_datagram.as_slice())
    }
}

/// A Time Exceeded message.
#[derive(Debug, Clone, PartialEq)]
pub struct IcmpTimeExceeded {
    pub type_: u8,
    pub code: u8,
    pub checksum: u16,
    pub original_datagram: Vec<u8>,
}

impl IcmpTimeExceeded {
    pub const MIN_LEN: usize = 8;

    pub fn from_packet(packet: &mut Packet) -> (r: Result<Self, CoreError>)
        ensures
            ({
                let s = old(packet)@;
                &&& s.len() < 8 ==> (r matches Err(CoreError::InvalidPacket(m))
                    && m@ == short_icmp_text("Time Exceeded"@, s.len())) && final(packet)@ == s
                &&& s.len() >= 8 && !error_code_ok(s[0], s[1]) ==> (r matches Err(CoreError::InvalidPacket(m))
                    && m@ == bad_code_text(s[0], s[1])) && final(packet)@ == s.skip(2)
                &&& s.len() >= 8 && error_code_ok(s[0], s[1]) && !original_ok(s.skip(8))
                    ==> (r matches Err(CoreError::InvalidPacket(m)) && m@ == original_error_text("Time Exceeded"@, s.skip(8)))
                &&& s.len() >= 8 && error_code_ok(s[0], s[1]) && original_ok(s.skip(8))
                    ==> (r matches Ok(m) && m.type_ == s[0] && m.code == s[1] && m.checksum == be16(s[2], s[3])
                        && m.original_datagram@ == s.skip(8))
            }),
    {
        match parse_with_original(packet, "Time Exceeded") {
            Ok((type_, code, checksum, original_datagram)) => Ok(IcmpTimeExceeded { type_, code, checksum, original_datagram }),
            Err(e) => Err(e),
        }
    }

    /// The wire bytes with the checksum computed.
    pub fn to_bytes(&self) -> (r: Vec<u8>)
        ensures
            r@ == with_checksum(error_fields(self.type_, self.code, self.original_datagram@)),
    {
        encode_with_original(self.type_, self.code, self.original_datagram.as_slice())
    }
}

/// The bytes of a Parameter Problem message with a zero checksum field.
pub open spec fn param_problem_fields(type_: u8, code: u8, pointer: u8, original: Seq<u8>) -> Seq<u8> {
    seq![type_, code, 0u8, 0u8, pointer, 0u8, 0u8, 0u8] + original
}

/// A Parameter Problem message.
#[derive(Debug, Clone, PartialEq)]
pub struct IcmpParameterProblem {
    pub type_: u8,
    pub code: u8,
    pub checksum: u16,
    pub pointer: u8,
    pub original_datagram: Vec<u8>,
}

impl IcmpParameterProblem {
    pub const MIN_LEN: usize = 8;

    pub fn new(code: u8, pointer: u8, original_datagram: Vec<u8>) -> (r: Self)
        ensures
            r.type_ == ICMP_TYPE_PARAMETER_PROBLEM && r.code == code && r.checksum == 0 && r.pointer == pointer,
            r.original_datagram@ == original_datagram@,
    {
        IcmpParameterProblem { type_: ICMP_TYPE_PARAMETER_PROBLEM, code, checksum: 0, pointer, original_datagram }
    }

    pub fn from_packet(packet: &mut Packet) -> (r: Result<Self, CoreError>)
        ensures
            ({
                let s = old(packet)@;
                &&& s.len() < 8 ==> (r matches Err(CoreError::InvalidPacket(m))
                    && m@ == short_icmp_text("Parameter Problem"@, s.len())) && final(packet)@ == s
                &&& s.len() >= 8 && s[1] > 2 ==> (r matches Err(CoreError::InvalidPacket(m))
                    && m@ == "Parameter Problem Code无效："@ + byte_decimal(s[1])) && final(packet)@ == s.skip(2)
                &&& s.len() >= 8 && s[1] <= 2 && !original_ok(s.skip(8)) ==> (r matches Err(CoreError::InvalidPacket(m))
                    && m@ == original_error_text("Parameter Problem"@, s.skip(8)))
                &&& s.len() >= 8 && s[1] <= 2 && original_ok(s.skip(8))
                    ==> (r matches Ok(m) && m.type_ == s[0] && m.code == s[1] && m.checksum == be16(s[2], s[3])
                        && m.pointer == s[4] && m.original_datagram@ == s.skip(8))
            }),
    {
        if packet.remaining() < 8 {
            let a = join_text("Parameter Problem", "报文长度不足：");
            let t = append_text(a, usize_decimal_text(packet.remaining()).as_str());
            return Err(CoreError::InvalidPacket(append_text(t, " < 8")));
        }
        let ghost s0 = packet@;
        let code = match packet.peek(2) {
            Some(b) => b[1],
            None => 0,
        };
        if code > 2 {
            let _ = packet.read(2);
            assert(packet@ =~= s0.skip(2));
            return Err(CoreError::InvalidPacket(join_text("Parameter Problem Code无效：", byte_decimal_text(code).as_str())));
        }
        let all = read_rest(packet);
        let original_datagram = copy_range(all.as_slice(), 8, all.len());
        match validate_original_datagram(original_datagram.as_slice(), "Parameter Problem") {
            Ok(()) => {},
            Err(e) => {
                return Err(e);
            },
        }
        Ok(IcmpParameterProblem {
            type_: all[0],
            code: all[1],
            checksum: read_be16(all.as_slice(), 2),
            pointer: all[4],
            original_datagram,
        })
    }

    /// The wire bytes with the checksum computed.
    pub fn to_bytes(&self) -> (r: Vec<u8>)
        ensures
            r@ == with_checksum(param_problem_fields(self.type_, self.code, self.pointer, self.original_datagram@)),
    {
        let mut bytes: Vec<u8> = Vec::new();
        bytes.push(self.type_);
        bytes.push(self.code);
        bytes.push(0);
        bytes.push(0);
        bytes.push(self.pointer);
        bytes.push(0);
        bytes.push(0);
        bytes.push(0);
        push_slice(&mut bytes, self.original_datagram.as_slice());
        assert(bytes@ =~= param_problem_fields(self.type_, self.code, self.pointer, self.original_datagram@));
        let checksum = calculate_checksum(bytes.as_slice());
        store16(&mut bytes, 2, checksum);
        bytes
    }
}

/// The length of the IP header at the start of `d` plus 8.
pub open spec fn header_plus_8(d: Seq<u8>) -> int {
    (d[0] % 16) as int * 4 + 8
}

/// The IP header and the first 8 bytes of data of a datagram, as carried in
/// error messages.
pub fn extract_ip_header_plus_data(datagram: &[u8]) -> (r: Result<Vec<u8>, CoreError>)
    ensures
        datagram@.len() < 20 || datagram@.len() < header_plus_8(datagram@) ==> (r matches Err(CoreError::InvalidPacket(_))),
        datagram@.len() >= 20 && datagram@.len() >= header_plus_8(datagram@) ==> (r matches Ok(v)
            && v@ == datagram@.take(header_plus_8(datagram@))),
{
    if datagram.len() < 20 {
        return Err(CoreError::invalid_packet("ICMP数据包无效"));
    }
    let extract_len = header_len_plus_8(datagram[0]);
    if datagram.len() < extract_len {
        return Err(CoreError::invalid_packet("ICMP数据包无效"));
    }
    Ok(copy_range(datagram, 0, extract_len))
}

fn header_len_plus_8(first: u8) -> (r: usize)
    ensures
        r == (first % 16) as int * 4 + 8,
{
    ((first % 16) as usize) * 4 + 8
}

/// Checks that an error message's original datagram holds an IP header and 8 bytes.
pub fn validate_original_datagram(datagram: &[u8], name: &str) -> (r: Result<(), CoreError>)
    ensures
        original_ok(datagram@) ==> r is Ok,
        !original_ok(datagram@) ==> (r matches Err(CoreError::InvalidPacket(m))
            && m@ == original_error_text(name@, datagram@)),
{
    if datagram.len() < ICMP_ORIGINAL_DATAGRAM_MIN_LEN {
        let a = join_text(name, "原始数据报长度不足：需要至少28字节（IP头部+8字节）实际");
        let b = append_text(a, usize_decimal_text(datagram.len()).as_str());
        return Err(CoreError::InvalidPacket(append_text(b, "字节")));
    }
    if datagram[0] % 16 < 5 {
        let a = join_text(name, "原始数据报IP头部IHL无效：");
        return Err(CoreError::InvalidPacket(append_text(a, byte_decimal_text(datagram[0] % 16).as_str())));
    }
    Ok(())
}

/// Whether the address is 255.255.255.255.
pub fn is_broadcast_addr(addr: &[u8; 4]) -> (r: bool)
    ensures
        r == (addr@ == seq![255u8, 255, 255, 255]),
{
    let r = addr[0] == 255 && addr[1] == 255 && addr[2] == 255 && addr[3] == 255;
    proof {
        if r {
            assert(addr@ =~= seq![255u8, 255, 255, 255]);
        }
    }
    r
}

/// Whether the address is in 224.0.0.0/4.
pub fn is_multicast_addr(addr: &[u8; 4]) -> (r: bool)
    ensures
        r == (addr@[0] / 16 == 14),
{
    addr[0] / 16 == 14
}

/// A parsed ICMP message.
#[derive(Debug, Clone, PartialEq)]
pub enum IcmpPacket {
    Echo(IcmpEcho),
    DestUnreachable(IcmpDestUnreachable),
    TimeExceeded(IcmpTimeExceeded),
    ParameterProblem(IcmpParameterProblem),
}

impl IcmpPacket {
    /// Parses an ICMP message according to its type.
    pub fn from_packet(packet: &mut Packet) -> (r: Result<Self, CoreError>)
        ensures
            old(packet)@.len() == 0 ==> (r matches Err(CoreError::ParseError(_))),
            old(packet)@.len() > 0 && !(old(packet)@[0] == 0 || old(packet)@[0] == 8 || old(packet)@[0] == 3
                || old(packet)@[0] == 11 || old(packet)@[0] == 12) ==> (r matches Err(CoreError::UnsupportedProtocol(_))),
            r matches Ok(IcmpPacket::Echo(e)) ==> echo_fields_from(e.type_, e.code, e.checksum, e.identifier,
                e.sequence, e.data@, old(packet)@),
            old(packet)@.len() >= 8 && (old(packet)@[0] == 0 || old(packet)@[0] == 8) && old(packet)@[1] == 0
                ==> r matches Ok(IcmpPacket::Echo(_)),
            r matches Ok(IcmpPacket::DestUnreachable(m)) ==> m.type_ == 3 && m.original_datagram@ == old(packet)@.skip(8),
            r matches Ok(IcmpPacket::TimeExceeded(m)) ==> m.type_ == 11 && m.original_datagram@ == old(packet)@.skip(8),
            r matches Ok(IcmpPacket::ParameterProblem(m)) ==> m.type_ == 12 && m.original_datagram@ == old(packet)@.skip(8),
    {
        let type_ = match packet.peek(1) {
            Some(b) => b[0],
            None => return Err(CoreError::parse_error("读取ICMP类型失败")),
        };
        if type_ == ICMP_TYPE_ECHO_REPLY || type_ == ICMP_TYPE_ECHO_REQUEST {
            match IcmpEcho::from_packet(packet) {
                Ok(e) => Ok(IcmpPacket::Echo(e)),
                Err(e) => Err(e),
            }
        } else if type_ == ICMP_TYPE_DEST_UNREACHABLE {
            match IcmpDestUnreachable::from_packet(packet) {
                Ok(m) => Ok(IcmpPacket::DestUnreachable(m)),
                Err(e) => Err(e),
            }
        } else if type_ == ICMP_TYPE_TIME_EXCEEDED {
            match IcmpTimeExceeded::from_packet(packet) {
                Ok(m) => Ok(IcmpPacket::TimeExceeded(m)),
                Err(e) => Err(e),
            }
        } else if type_ == ICMP_TYPE_PARAMETER_PROBLEM {
            match IcmpParameterProblem::from_packet(packet) {
                Ok(m) => Ok(IcmpPacket::ParameterProblem(m)),
                Err(e) => Err(e),
            }
        } else {
            Err(CoreError::UnsupportedProtocol(crate::common::text::join_text("不支持的ICMP类型: ", crate::common::text::byte_decimal_text(type_).as_str())))
        }
    }

    /// The message type.
    pub fn get_type(&self) -> (r: u8)
        ensures
            self matches IcmpPacket::Echo(e) ==> r == e.type_,
            self matches IcmpPacket::DestUnreachable(m) ==> r == m.type_,
            self matches IcmpPacket::TimeExceeded(m) ==> r == m.type_,
            self matches IcmpPacket::ParameterProblem(m) ==> r == m.type_,
    {
        match self {
            IcmpPacket::Echo(echo) => echo.type_,
            IcmpPacket::DestUnreachable(dest) => dest.type_,
            IcmpPacket::TimeExceeded(time) => time.type_,
            IcmpPacket::ParameterProblem(param) => param.type_,
        }
    }

    /// The wire bytes of the message.
    pub fn to_bytes(&self) -> (r: Vec<u8>)
        ensures
            self matches IcmpPacket::Echo(e) ==> r@ == with_checksum(echo_fields(e.type_, e.code, 0,
                e.identifier, e.sequence, e.data@)),
            self matches IcmpPacket::DestUnreachable(m) ==> r@ == with_checksum(error_fields(m.type_, m.code, m.original_datagram@)),
            self matches IcmpPacket::TimeExceeded(m) ==> r@ == with_checksum(error_fields(m.type_, m.code, m.original_datagram@)),
            self matches IcmpPacket::ParameterProblem(m) ==> r@ == with_checksum(param_problem_fields(m.type_, m.code,
                m.pointer, m.original_datagram@)),
    {
        match self {
            IcmpPacket::Echo(echo) => echo.to_bytes(),
            IcmpPacket::DestUnreachable(dest) => dest.to_bytes(),
            IcmpPacket::TimeExceeded(time) => time.to_bytes(),
            IcmpPacket::ParameterProblem(param) => param.to_bytes(),
        }
    }
}

/// An ICMPv6 echo message as handled by the ICMP module.
#[derive(Debug, Clone, PartialEq)]
pub struct IcmpV6Echo {
    pub type_: u8,
    pub code: u8,
    pub checksum: u16,
    pub identifier: u16,
    pub sequence: u16,
    pub data: Vec<u8>,
}

impl IcmpV6Echo {
    pub const MIN_LEN: usize = 8;

    pub fn new_request(identifier: u16, sequence: u16, data: Vec<u8>) -> (r: Self)
        ensures
            r.type_ == ICMPV6_TYPE_ECHO_REQUEST && r.code == 0 && r.checksum == 0,
            r.identifier == identifier && r.sequence == sequence && r.data@ == data@,
    {
        Self::new(ICMPV6_TYPE_ECHO_REQUEST, identifier, sequence, data)
    }

    pub fn new_reply(identifier: u16, sequence: u16, data: Vec<u8>) -> (r: Self)
        ensures
            r.type_ == ICMPV6_TYPE_ECHO_REPLY && r.code == 0 && r.checksum == 0,
            r.identifier == identifier && r.sequence == sequence && r.data@ == data@,
    {
        Self::new(ICMPV6_TYPE_ECHO_REPLY, identifier, sequence, data)
    }

    /// An echo message of the given type with zero code and checksum.
    pub fn new(type_: u8, identifier: u16, sequence: u16, data: Vec<u8>) -> (r: Self)
        ensures
            r.type_ == type_ && r.code == 0 && r.checksum == 0,
            r.identifier == identifier && r.sequence == sequence && r.data@ == data@,
    {
        IcmpV6Echo { type_, code: 0, checksum: 0, identifier, sequence, data }
    }

    pub fn from_packet(packet: &mut Packet) -> (r: Result<Self, CoreError>)
        ensures
            old(packet)@.len() < 8 ==> (r matches Err(CoreError::InvalidPacket(_))),
            old(packet)@.len() >= 8 && old(packet)@[1] != 0 ==> (r matches Err(CoreError::InvalidPacket(_))),
            old(packet)@.len() >= 8 && old(packet)@[1] == 0 ==> (r matches Ok(e) && echo_fields_from(e.type_, e.code,
                e.checksum, e.identifier, e.sequence, e.data@, old(packet)@) && final(packet)@.len() == 0),
    {
        match IcmpEcho::from_packet(packet) {
            Ok(e) => Ok(IcmpV6Echo {
                type_: e.type_,
                code: e.code,
                checksum: e.checksum,
                identifier: e.identifier,
                sequence: e.sequence,
                data: e.data,
            }),
            Err(e) => Err(e),
        }
    }

    /// The wire bytes with the IPv4-style checksum computed over the message
    /// with a zero checksum field.
    pub fn to_bytes(&self) -> (r: Vec<u8>)
        ensures
            r@ == with_checksum(echo_fields(self.type_, self.code, 0, self.identifier, self.sequence, self.data@)),
    {
        let mut bytes: Vec<u8> = Vec::new();
        bytes.push(self.type_);
        bytes.push(self.code);
        push_be16(&mut bytes, 0);
        push_be16(&mut bytes, self.identifier);
        push_be16(&mut bytes, self.sequence);
        push_slice(&mut bytes, self.data.as_slice());
        assert(bytes@ =~= echo_fields(self.type_, self.code, 0, self.identifier, self.sequence, self.data@));
        let checksum = calculate_checksum(bytes.as_slice());
        store16(&mut bytes, 2, checksum);
        bytes
    }

    /// The wire bytes with the checksum over the IPv6 pseudo-header.
    pub fn to_bytes_with_addrs(&self, source_addr: Ipv6Addr, dest_addr: Ipv6Addr) -> (r: Vec<u8>)
        ensures
            r@ == put16(echo_fields(self.type_, self.code, 0, self.identifier, self.sequence, self.data@), 2,
                v6_checksum(source_addr.bytes@, dest_addr.bytes@, echo_fields(self.type_, self.code, 0,
                self.identifier, self.sequence, self.data@))),
    {
        let mut bytes: Vec<u8> = Vec::new();
        bytes.push(self.type_);
        bytes.push(self.code);
        push_be16(&mut bytes, 0);
        push_be16(&mut bytes, self.identifier);
        push_be16(&mut bytes, self.sequence);
        push_slice(&mut bytes, self.data.as_slice());
        assert(bytes@ =~= echo_fields(self.type_, self.code, 0, self.identifier, self.sequence, self.data@));
        let checksum = calculate_icmpv6_checksum(source_addr, dest_addr, bytes.as_slice());
        store16(&mut bytes, 2, checksum);
        bytes
    }

    pub fn is_request(&self) -> (r: bool)
        ensures
            r == (self.type_ == ICMPV6_TYPE_ECHO_REQUEST),
    {
        self.type_ == ICMPV6_TYPE_ECHO_REQUEST
    }

    pub fn is_reply(&self) -> (r: bool)
        ensures
            r == (self.type_ == ICMPV6_TYPE_ECHO_REPLY),
    {
        self.type_ == ICMPV6_TYPE_ECHO_REPLY
    }

    /// The reply to this request: same identifier, sequence and data.
    pub fn make_reply(&self) -> (r: Self)
        ensures
            r.type_ == ICMPV6_TYPE_ECHO_REPLY && r.code == 0 && r.checksum == 0,
            r.identifier == self.identifier && r.sequence == self.sequence && r.data@ == self.data@,
    {
        IcmpV6Echo {
            type_: ICMPV6_TYPE_ECHO_REPLY,
            code: 0,
            checksum: 0,
            identifier: self.identifier,
            sequence: self.sequence,
            data: copy_range(self.data.as_slice(), 0, self.data.len()),
        }
    }
}

/// A parsed ICMPv6 message (echo only).
#[derive(Debug, Clone, PartialEq)]
pub enum IcmpV6Packet {
    Echo(IcmpV6Echo),
}

impl IcmpV6Packet {
    pub fn from_packet(packet: &mut Packet) -> (r: Result<Self, CoreError>)
        ensures
            old(packet)@.len() == 0 ==> (r matches Err(CoreError::ParseError(_))),
            old(packet)@.len() > 0 && !(old(packet)@[0] == 128 || old(packet)@[0] == 129)
                ==> (r matches Err(CoreError::UnsupportedProtocol(_))),
            r matches Ok(IcmpV6Packet::Echo(e)) ==> echo_fields_from(e.type_, e.code, e.checksum, e.identifier,
                e.sequence, e.data@, old(packet)@),
            old(packet)@.len() >= 8 && (old(packet)@[0] == 128 || old(packet)@[0] == 129) && old(packet)@[1] == 0
                ==> r matches Ok(IcmpV6Packet::Echo(_)),
    {
        let type_ = match packet.peek(1) {
            Some(b) => b[0],
            None => return Err(CoreError::parse_error("读取ICMP类型失败")),
        };
        if type_ == ICMPV6_TYPE_ECHO_REPLY || type_ == ICMPV6_TYPE_ECHO_REQUEST {
            match IcmpV6Echo::from_packet(packet) {
                Ok(e) => Ok(IcmpV6Packet::Echo(e)),
                Err(e) => Err(e),
            }
        } else {
            Err(CoreError::UnsupportedProtocol(crate::common::text::join_text("不支持的ICMPv6类型: ", crate::common::text::byte_decimal_text(type_).as_str())))
        }
    }

    pub fn get_type(&self) -> (r: u8)
        ensures
            self matches IcmpV6Packet::Echo(e) ==> r == e.type_,
    {
        match self {
            IcmpV6Packet::Echo(echo) => echo.type_,
        }
    }

    pub fn to_bytes(&self) -> (r: Vec<u8>)
        ensures
            self matches IcmpV6Packet::Echo(e) ==> r@ == with_checksum(echo_fields(e.type_, e.code, 0,
                e.identifier, e.sequence, e.data@)),
    {
        match self {
            IcmpV6Packet::Echo(echo) => echo.to_bytes(),
        }
    }
}

/// An echo message built with zero code and checksum, once written, reads
/// back with its type, identifier, sequence and data, carries the checksum
/// of the message as built, and passes the checksum check.
pub proof fn lemma_echo_roundtrip(type_: u8, identifier: u16, sequence: u16, data: Seq<u8>)
    ensures
        ({
            let s = echo_fields(type_, 0, 0, identifier, sequence, data);
            let w = with_checksum(s);
            &&& w.len() >= 8
            &&& w[1] == 0
            &&& checksum_ok(w, 2)
            &&& echo_fields_from(type_, 0, internet_checksum(s), identifier, sequence, data, w)
        }),
{
    let s = echo_fields(type_, 0, 0, identifier, sequence, data);
    let w = with_checksum(s);
    lemma_be16_roundtrip(0);
    lemma_be16_roundtrip(identifier);
    lemma_be16_roundtrip(sequence);
    lemma_be16_roundtrip(internet_checksum(s));
    lemma_put_checksum_verifies(s, 2);
    assert(w.skip(8) =~= data);
}

/// An error message written with an accepted type and code around an
/// accepted original datagram reads back with the same type, code and
/// datagram, and its checksum verifies.
pub proof fn lemma_error_message_roundtrip(type_: u8, code: u8, original: Seq<u8>)
    requires
        error_code_ok(type_, code),
        original_ok(original),
    ensures
        ({
            let w = with_checksum(error_fields(type_, code, original));
            &&& w.len() >= 8
            &&& w[0] == type_ && w[1] == code
            &&& error_code_ok(w[0], w[1])
            &&& w.skip(8) == original
            &&& original_ok(w.skip(8))
            &&& checksum_ok(w, 2)
        }),
{
    let s = error_fields(type_, code, original);
    let w = with_checksum(s);
    lemma_put_checksum_verifies(s, 2);
    assert(w.skip(8) =~= original);
}

} // verus!
