use vstd::prelude::*;
use crate::common::error::CoreError;
use crate::common::addr::Ipv6Addr;
use crate::protocols::common::addr::Ipv4Addr;
use crate::protocols::common::packet::Packet;
use crate::protocols::ip::checksum::{verify_checksum, checksum_ok, internet_checksum, put16};
use crate::protocols::icmpv6::checksum::{verify_icmpv6_checksum, v6_checksum_ok, v6_checksum};
use super::packet::{IcmpPacket, IcmpEcho, IcmpV6Packet, IcmpV6Echo, IcmpDestUnreachable, IcmpTimeExceeded,
    is_broadcast_addr, is_multicast_addr, with_checksum, echo_fields, error_fields, echo_fields_from};
use super::echo::{handle_echo_request, handle_echo_reply, EchoProcessResult};
use super::global::EchoManager;
use super::types::{ICMP_TYPE_DEST_UNREACHABLE, ICMP_TYPE_TIME_EXCEEDED, ICMP_TYPE_ECHO_REPLY, ICMP_TYPE_ECHO_REQUEST,
    ICMPV6_TYPE_ECHO_REPLY, ICMPV6_TYPE_ECHO_REQUEST};

verus! {

/// The outcome of processing an ICMP message.
#[derive(Debug, Clone, PartialEq)]
pub enum IcmpProcessResult {
    NoReply,
    Reply(Vec<u8>),
    Processed,
}

/// The big-endian `u16` at `i` in `s`.
pub open spec fn be16_at(s: Seq<u8>, i: int) -> u16 {
    crate::common::bytes::be16(s[i], s[i + 1])
}

/// Whether `d` is a broadcast, multicast or unspecified IPv4 address.
pub open spec fn no_echo_reply_to(d: Seq<u8>) -> bool {
    d == seq![255u8, 255, 255, 255] || d[0] / 16 == 14 || d == seq![0u8, 0, 0, 0]
}

/// The reply to the echo request `s`: type 0, same identifier, sequence and
/// data, checksum computed.
pub open spec fn echo_reply_wire(s: Seq<u8>) -> Seq<u8> {
    with_checksum(echo_fields(0, 0, 0, be16_at(s, 4), be16_at(s, 6), s.skip(8)))
}

/// Processes an ICMP message from `source_addr` to `dest_addr`.
///
/// A message with a bad checksum is dropped silently. An echo request to a
/// unicast destination is answered; an echo request to a broadcast,
/// multicast or unspecified address is not. An echo reply is matched against
/// the pending requests. Error messages are accepted.
pub fn process_icmp_packet(packet: Packet, source_addr: Ipv4Addr, dest_addr: Ipv4Addr,
    echo_manager: &mut EchoManager, now: u64) -> (r: Result<IcmpProcessResult, CoreError>)
    ensures
        final(echo_manager).spec_timeout() == old(echo_manager).spec_timeout(),
        final(echo_manager).spec_max() == old(echo_manager).spec_max(),
        !checksum_ok(packet@, 2) ==> r == Ok::<IcmpProcessResult, CoreError>(IcmpProcessResult::NoReply)
            && final(echo_manager).spec_pending() == old(echo_manager).spec_pending(),
        checksum_ok(packet@, 2) && packet@.len() >= 8 && packet@[0] == 8 && packet@[1] == 0 ==> {
            &&& no_echo_reply_to(dest_addr.bytes@) ==> r == Ok::<IcmpProcessResult, CoreError>(IcmpProcessResult::NoReply)
            &&& !no_echo_reply_to(dest_addr.bytes@) ==> (r matches Ok(IcmpProcessResult::Reply(v)) && v@ == echo_reply_wire(packet@))
            &&& final(echo_manager).spec_pending() == old(echo_manager).spec_pending()
        },
        checksum_ok(packet@, 2) && packet@.len() >= 8 && packet@[0] == 0 && packet@[1] == 0 ==> {
            &&& super::global::echo_index(old(echo_manager).spec_pending(), be16_at(packet@, 4), be16_at(packet@, 6)) is Some
                ==> r == Ok::<IcmpProcessResult, CoreError>(IcmpProcessResult::Processed)
            &&& super::global::echo_index(old(echo_manager).spec_pending(), be16_at(packet@, 4), be16_at(packet@, 6)) is None
                ==> r == Ok::<IcmpProcessResult, CoreError>(IcmpProcessResult::NoReply)
        },
        r matches Ok(IcmpProcessResult::Reply(v)) ==> v@ == echo_reply_wire(packet@),
{
    let mut packet = packet;
    let data = packet.as_slice();
    if !verify_checksum(data, 2) {
        return Ok(IcmpProcessResult::NoReply);
    }
    let ghost s = packet@;
    let icmp_packet = match IcmpPacket::from_packet(&mut packet) {
        Ok(p) => p,
        Err(e) => return Err(e),
    };
    match icmp_packet {
        IcmpPacket::Echo(echo) => {
            proof {
                assert(echo.data@ == s.skip(8));
            }
            if echo.is_request() {
                if is_broadcast_addr(&dest_addr.bytes) || is_multicast_addr(&dest_addr.bytes) {
                    return Ok(IcmpProcessResult::NoReply);
                }
                match handle_echo_request(&echo, dest_addr) {
                    Ok(EchoProcessResult::Reply(reply)) => Ok(IcmpProcessResult::Reply(reply.to_bytes())),
                    Ok(_) => Ok(IcmpProcessResult::NoReply),
                    Err(e) => Err(e),
                }
            } else if echo.is_reply() {
                match handle_echo_reply(&echo, source_addr, echo_manager, now) {
                    Ok(EchoProcessResult::Matched { .. }) => Ok(IcmpProcessResult::Processed),
                    Ok(_) => Ok(IcmpProcessResult::NoReply),
                    Err(e) => Err(e),
                }
            } else {
                Ok(IcmpProcessResult::NoReply)
            }
        },
        _ => Ok(IcmpProcessResult::Processed),
    }
}

/// An echo request with its checksum computed.
pub fn create_echo_request(identifier: u16, sequence: u16, data: Vec<u8>) -> (r: Vec<u8>)
    ensures
        r@ == with_checksum(echo_fields(ICMP_TYPE_ECHO_REQUEST, 0, 0, identifier, sequence, data@)),
{
    IcmpEcho::new_request(identifier, sequence, data).to_bytes()
}

/// An echo reply with its checksum computed.
pub fn create_echo_reply(identifier: u16, sequence: u16, data: Vec<u8>) -> (r: Vec<u8>)
    ensures
        r@ == with_checksum(echo_fields(ICMP_TYPE_ECHO_REPLY, 0, 0, identifier, sequence, data@)),
{
    IcmpEcho::new_reply(identifier, sequence, data).to_bytes()
}

/// A Destination Unreachable message carrying `original_datagram`.
pub fn create_dest_unreachable(code: u8, original_datagram: Vec<u8>) -> (r: Vec<u8>)
    ensures
        r@ == with_checksum(error_fields(ICMP_TYPE_DEST_UNREACHABLE, code, original_datagram@)),
{
    let m = IcmpDestUnreachable { type_: ICMP_TYPE_DEST_UNREACHABLE, code, checksum: 0, original_datagram };
    m.to_bytes()
}

/// A Time Exceeded message carrying `original_datagram`.
pub fn create_time_exceeded(code: u8, original_datagram: Vec<u8>) -> (r: Vec<u8>)
    ensures
        r@ == with_checksum(error_fields(ICMP_TYPE_TIME_EXCEEDED, code, original_datagram@)),
{
    let m = IcmpTimeExceeded { type_: ICMP_TYPE_TIME_EXCEEDED, code, checksum: 0, original_datagram };
    m.to_bytes()
}

/// The reply to the ICMPv6 echo request `s` from `src` to `dst`.
pub open spec fn v6_echo_reply_wire(s: Seq<u8>, src: Seq<u8>, dst: Seq<u8>) -> Seq<u8> {
    let body = echo_fields(129, 0, 0, be16_at(s, 4), be16_at(s, 6), s.skip(8));
    put16(body, 2, v6_checksum(dst, src, body))
}

/// Processes an ICMPv6 echo message: a request is answered (addresses
/// swapped), a reply is accepted; a bad checksum is dropped silently.
pub fn process_icmpv6_packet(packet: Packet, source_addr: Ipv6Addr, dest_addr: Ipv6Addr)
    -> (r: Result<IcmpProcessResult, CoreError>)
    ensures
        !v6_checksum_ok(source_addr.bytes@, dest_addr.bytes@, packet@, 2) ==> r == Ok::<IcmpProcessResult, CoreError>(IcmpProcessResult::NoReply),
        v6_checksum_ok(source_addr.bytes@, dest_addr.bytes@, packet@, 2) && packet@.len() >= 8 && packet@[1] == 0 ==> {
            &&& packet@[0] == 128 ==> (r matches Ok(IcmpProcessResult::Reply(v))
                && v@ == v6_echo_reply_wire(packet@, source_addr.bytes@, dest_addr.bytes@))
            &&& packet@[0] == 129 ==> r == Ok::<IcmpProcessResult, CoreError>(IcmpProcessResult::Processed)
        },
        v6_checksum_ok(source_addr.bytes@, dest_addr.bytes@, packet@, 2) && packet@.len() > 0
            && !(packet@[0] == 128 || packet@[0] == 129) ==> (r matches Err(CoreError::UnsupportedProtocol(_))),
{
    let mut packet = packet;
    let data = packet.as_slice();
    if !verify_icmpv6_checksum(source_addr, dest_addr, data, 2) {
        return Ok(IcmpProcessResult::NoReply);
    }
    let ghost s = packet@;
    let p = match IcmpV6Packet::from_packet(&mut packet) {
        Ok(p) => p,
        Err(e) => return Err(e),
    };
    match p {
        IcmpV6Packet::Echo(echo) => {
            if echo.is_request() {
                let reply = echo.make_reply();
                Ok(IcmpProcessResult::Reply(reply.to_bytes_with_addrs(dest_addr, source_addr)))
            } else if echo.is_reply() {
                Ok(IcmpProcessResult::Processed)
            } else {
                Ok(IcmpProcessResult::NoReply)
            }
        },
    }
}

/// An ICMPv6 echo request with its checksum over the pseudo-header.
pub fn create_icmpv6_echo_request(identifier: u16, sequence: u16, data: Vec<u8>, source_addr: Ipv6Addr, dest_addr: Ipv6Addr)
    -> (r: Vec<u8>)
    ensures
        r@ == put16(echo_fields(ICMPV6_TYPE_ECHO_REQUEST, 0, 0, identifier, sequence, data@), 2,
            v6_checksum(source_addr.bytes@, dest_addr.bytes@, echo_fields(ICMPV6_TYPE_ECHO_REQUEST, 0, 0, identifier, sequence, data@))),
{
    IcmpV6Echo::new_request(identifier, sequence, data).to_bytes_with_addrs(source_addr, dest_addr)
}

/// An ICMPv6 echo reply with its checksum over the pseudo-header.
pub fn create_icmpv6_echo_reply(identifier: u16, sequence: u16, data: Vec<u8>, source_addr: Ipv6Addr, dest_addr: Ipv6Addr)
    -> (r: Vec<u8>)
    ensures
        r@ == put16(echo_fields(ICMPV6_TYPE_ECHO_REPLY, 0, 0, identifier, sequence, data@), 2,
            v6_checksum(source_addr.bytes@, dest_addr.bytes@, echo_fields(ICMPV6_TYPE_ECHO_REPLY, 0, 0, identifier, sequence, data@))),
{
    IcmpV6Echo::new_reply(identifier, sequence, data).to_bytes_with_addrs(source_addr, dest_addr)
}

} // verus!
