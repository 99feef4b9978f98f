use vstd::prelude::*;
use crate::common::addr::Ipv6Addr;
use crate::common::bytes::{be16, int_of, nat_int};
use crate::protocols::common::addr::MacAddr;
use crate::protocols::common::packet::Packet;
use crate::protocols::ip::checksum::{put16, store16};
use crate::protocols::icmp::packet::{echo_fields, with_checksum};
use super::checksum::{calculate_icmpv6_checksum, verify_icmpv6_checksum, v6_checksum, v6_checksum_ok};
use super::config::Icmpv6Config;
use super::error::Icmpv6Error;
use super::neighbor::{NeighborCache, neighbor_after_update};
use super::packet::{
    Icmpv6Echo, Icmpv6NeighborAdvertisement, Icmpv6NeighborSolicitation, Icmpv6Option, Icmpv6Packet,
    code_ok, known_type, min_len_of, option_views, option_wire, options_from,
};

verus! {

/// What processing a message asks of the caller.
#[derive(Debug, Clone, PartialEq)]
pub enum Icmpv6ProcessResult {
    /// Nothing to send.
    NoReply,
    /// Send these ICMPv6 bytes back.
    Reply(Vec<u8>),
    /// The message was handled; nothing to send.
    Processed,
}

/// State kept across messages: the neighbor cache and the settings.
pub struct Icmpv6Context {
    pub neighbor_cache: NeighborCache,
    pub config: Icmpv6Config,
}

impl Icmpv6Context {
    /// Well-formedness: the neighbor cache holds one entry per address.
    pub open spec fn wf(&self) -> bool {
        self.neighbor_cache.wf()
    }

    /// A context with an empty neighbor cache sized by the settings.
    pub fn new(config: Icmpv6Config) -> (r: Self)
        ensures
            r.wf(),
            r.neighbor_cache.spec_entries().len() == 0,
            r.neighbor_cache.spec_max_entries() == config.max_neighbor_cache_entries,
            r.config == config,
    {
        let max = config.max_neighbor_cache_entries;
        Icmpv6Context { neighbor_cache: NeighborCache::new(max), config }
    }
}

impl Default for Icmpv6Context {
    fn default() -> (r: Self)
        ensures
            r.wf(),
            r.neighbor_cache.spec_entries().len() == 0,
            r.neighbor_cache.spec_max_entries() == 256,
            Icmpv6Config::is_default(r.config),
    {
        Self::new(Icmpv6Config::default())
    }
}

/// The echo reply sent for the echo request in `s`, with its ICMPv6
/// checksum computed from `dst` (our address) to `src` (the requester).
pub open spec fn echo_reply_wire(s: Seq<u8>, src: Seq<u8>, dst: Seq<u8>) -> Seq<u8> {
    let body = echo_fields(129, 0, 0, be16(s[4], s[5]), be16(s[6], s[7]), s.skip(8));
    put16(body, 2, v6_checksum(dst, src, body))
}

/// The solicited advertisement for `target` carrying `mac` in a target
/// link-layer address option.
pub open spec fn solicited_advert_wire(target: Seq<u8>, mac: Seq<u8>) -> Seq<u8> {
    with_checksum(seq![136u8, 0u8, 0u8, 0u8, 0x40u8, 0u8, 0u8, 0u8] + target + option_wire(2, mac))
}

/// The first target link-layer address option with at least six data bytes.
pub open spec fn first_target_lla(v: Seq<(u8, u8, Seq<u8>)>) -> Option<Seq<u8>>
    decreases v.len(),
{
    if v.len() == 0 {
        None
    } else if v[0].0 == 2 && v[0].2.len() >= 6 {
        Some(v[0].2.take(6))
    } else {
        first_target_lla(v.drop_first())
    }
}

/// Whether a neighbor discovery message with this hop limit is dropped.
pub open spec fn hop_limit_rejected(config: Icmpv6Config, hop_limit: u8) -> bool {
    config.verify_hop_limit && hop_limit != 255
}

/// Whether `s` parses as a message of a known type.
pub open spec fn parses(s: Seq<u8>) -> bool {
    s.len() > 0 && known_type(s[0]) && s.len() >= min_len_of(s[0]) && code_ok(s)
}

fn handle_echo(echo: Icmpv6Echo, source_addr: Ipv6Addr, dest_addr: Ipv6Addr) -> (r: Icmpv6ProcessResult)
    ensures
        echo.type_ == 128 ==> (r matches Icmpv6ProcessResult::Reply(b) && b@ == ({
            let body = echo_fields(129, 0, 0, echo.identifier, echo.sequence, echo.data@);
            put16(body, 2, v6_checksum(dest_addr.bytes@, source_addr.bytes@, body))
        })),
        echo.type_ != 128 ==> r == Icmpv6ProcessResult::Processed,
{
    if echo.is_request() {
        let reply = echo.make_reply();
        let mut bytes = reply.to_bytes_without_checksum();
        let checksum = calculate_icmpv6_checksum(dest_addr, source_addr, bytes.as_slice());
        store16(&mut bytes, 2, checksum);
        Icmpv6ProcessResult::Reply(bytes)
    } else {
        Icmpv6ProcessResult::Processed
    }
}

fn handle_neighbor_solicitation(
    dest_addr: Ipv6Addr,
    source_addr: Ipv6Addr,
    hop_limit: u8,
    our_mac: Option<MacAddr>,
    context: &mut Icmpv6Context,
) -> (r: Icmpv6ProcessResult)
    requires
        old(context).wf(),
    ensures
        final(context).wf(),
        final(context).config == old(context).config,
        final(context).neighbor_cache.spec_max_entries() == old(context).neighbor_cache.spec_max_entries(),
        hop_limit_rejected(old(context).config, hop_limit) ==> r == Icmpv6ProcessResult::NoReply
            && final(context).neighbor_cache.spec_entries() == old(context).neighbor_cache.spec_entries(),
        !hop_limit_rejected(old(context).config, hop_limit) && our_mac is None ==> r == Icmpv6ProcessResult::NoReply
            && final(context).neighbor_cache.spec_entries() == old(context).neighbor_cache.spec_entries(),
        !hop_limit_rejected(old(context).config, hop_limit) && our_mac is Some ==> (r matches Icmpv6ProcessResult::Reply(b)
            && b@ == solicited_advert_wire(dest_addr.bytes@, our_mac.unwrap().bytes@)
            && final(context).neighbor_cache.spec_entries() == neighbor_after_update(
                old(context).neighbor_cache.spec_entries(), old(context).neighbor_cache.spec_max_entries(),
                source_addr, our_mac.unwrap())),
{
    if context.config.verify_hop_limit && hop_limit != 255 {
        return Icmpv6ProcessResult::NoReply;
    }
    match our_mac {
        Some(mac) => {
            context.neighbor_cache.update(source_addr, mac);
            let mut na = Icmpv6NeighborAdvertisement::new(dest_addr, false, true, false);
            na.options.push(Icmpv6Option::target_link_layer_addr(&mac.bytes));
            let bytes = na.to_bytes();
            proof {
                let ov = option_views(na.options@);
                assert(ov.drop_last() =~= Seq::<(u8, u8, Seq<u8>)>::empty());
                assert(ov.last() == (2u8, 1u8, mac.bytes@));
                assert(super::packet::options_wire(ov.drop_last()) =~= Seq::<u8>::empty());
                assert(super::packet::options_wire(ov) =~= option_wire(2, mac.bytes@));
                assert(na.flags == 0x40);
                assert(na.head() + super::packet::options_wire(option_views(na.options@))
                    =~= seq![136u8, 0u8, 0u8, 0u8, 0x40u8, 0u8, 0u8, 0u8] + dest_addr.bytes@ + option_wire(2, mac.bytes@));
            }
            Icmpv6ProcessResult::Reply(bytes)
        },
        None => Icmpv6ProcessResult::NoReply,
    }
}

/// Finds the first target link-layer address option with six data bytes.
fn find_target_lla(options: &Vec<Icmpv6Option>) -> (r: Option<MacAddr>)
    ensures
        r matches Some(m) ==> first_target_lla(option_views(options@)) == Some(m.bytes@),
        r is None ==> first_target_lla(option_views(options@)) is None,
{
    let mut i: usize = 0;
    assert(option_views(options@).skip(0) =~= option_views(options@));
    while i < options.len()
        invariant
            i <= options@.len(),
            first_target_lla(option_views(options@)) == first_target_lla(option_views(options@).skip(int_of(i))),
        decreases options@.len() - i,
    {
        let ghost v = option_views(options@).skip(int_of(i));
        assert(v.drop_first() =~= option_views(options@).skip(i + 1));
        if options[i].option_type == 2 && options[i].data.len() >= 6 {
            let d = &options[i].data;
            let mac: [u8; 6] = [d[0], d[1], d[2], d[3], d[4], d[5]];
            assert(mac@ =~= d@.take(6));
            return Some(MacAddr::new(mac));
        }
        i = i + 1;
    }
    proof {
        assert(option_views(options@).skip(int_of(i)).len() == 0);
    }
    None
}

fn handle_neighbor_advertisement(
    na: &Icmpv6NeighborAdvertisement,
    source_addr: Ipv6Addr,
    hop_limit: u8,
    context: &mut Icmpv6Context,
) -> (r: Icmpv6ProcessResult)
    requires
        old(context).wf(),
    ensures
        final(context).wf(),
        final(context).config == old(context).config,
        final(context).neighbor_cache.spec_max_entries() == old(context).neighbor_cache.spec_max_entries(),
        hop_limit_rejected(old(context).config, hop_limit) ==> r == Icmpv6ProcessResult::NoReply
            && final(context).neighbor_cache.spec_entries() == old(context).neighbor_cache.spec_entries(),
        !hop_limit_rejected(old(context).config, hop_limit) ==> r == Icmpv6ProcessResult::Processed
            && (match first_target_lla(option_views(na.options@)) {
                Some(m) => exists|mac: MacAddr| mac.bytes@ == m && final(context).neighbor_cache.spec_entries()
                    == neighbor_after_update(old(context).neighbor_cache.spec_entries(),
                    old(context).neighbor_cache.spec_max_entries(), source_addr, mac),
                None => final(context).neighbor_cache.spec_entries() == old(context).neighbor_cache.spec_entries(),
            }),
{
    if context.config.verify_hop_limit && hop_limit != 255 {
        return Icmpv6ProcessResult::NoReply;
    }
    match find_target_lla(&na.options) {
        Some(mac) => {
            context.neighbor_cache.update(source_addr, mac);
        },
        None => {},
    }
    Icmpv6ProcessResult::Processed
}

/// Handles a received ICMPv6 message: checks its checksum against the
/// pseudo-header of `source_addr` and `dest_addr`, parses it, answers echo
/// requests, and keeps the neighbor cache from neighbor solicitations and
/// advertisements.
pub fn process_icmpv6_packet(
    packet: Packet,
    source_addr: Ipv6Addr,
    dest_addr: Ipv6Addr,
    hop_limit: u8,
    our_mac: Option<MacAddr>,
    context: &mut Icmpv6Context,
) -> (r: Result<Icmpv6ProcessResult, Icmpv6Error>)
    requires
        old(context).wf(),
    ensures
        final(context).wf(),
        final(context).config == old(context).config,
        final(context).neighbor_cache.spec_max_entries() == old(context).neighbor_cache.spec_max_entries(),
        ({
            let s = packet@;
            let before = old(context).neighbor_cache.spec_entries();
            let after = final(context).neighbor_cache.spec_entries();
            let max = old(context).neighbor_cache.spec_max_entries();
            let ok = v6_checksum_ok(source_addr.bytes@, dest_addr.bytes@, s, 2);
            let rejected = hop_limit_rejected(old(context).config, hop_limit);
            &&& !ok ==> r == Ok::<Icmpv6ProcessResult, Icmpv6Error>(Icmpv6ProcessResult::NoReply) && after == before
            &&& ok && !known_type(s[0]) ==> r == Err::<Icmpv6ProcessResult, Icmpv6Error>(
                Icmpv6Error::UnsupportedMessageType(s[0])) && after == before
            &&& ok && known_type(s[0]) && s.len() < min_len_of(s[0]) ==> (r matches Err(Icmpv6Error::ParseError(_)))
                && after == before
            &&& ok && known_type(s[0]) && s.len() >= min_len_of(s[0]) && !code_ok(s)
                ==> (r matches Err(Icmpv6Error::InvalidPacket(_))) && after == before
            &&& ok && parses(s) && s[0] == 128 ==> (r matches Ok(Icmpv6ProcessResult::Reply(b))
                && b@ == echo_reply_wire(s, source_addr.bytes@, dest_addr.bytes@)) && after == before
            &&& ok && parses(s) && s[0] == 135 && (rejected || our_mac is None)
                ==> r == Ok::<Icmpv6ProcessResult, Icmpv6Error>(Icmpv6ProcessResult::NoReply) && after == before
            &&& ok && parses(s) && s[0] == 135 && !rejected && our_mac is Some
                ==> (r matches Ok(Icmpv6ProcessResult::Reply(b))
                && b@ == solicited_advert_wire(dest_addr.bytes@, our_mac.unwrap().bytes@))
                && after == neighbor_after_update(before, max, source_addr, our_mac.unwrap())
            &&& ok && parses(s) && s[0] == 136 && rejected
                ==> r == Ok::<Icmpv6ProcessResult, Icmpv6Error>(Icmpv6ProcessResult::NoReply) && after == before
            &&& ok && parses(s) && s[0] == 136 && !rejected
                ==> r == Ok::<Icmpv6ProcessResult, Icmpv6Error>(Icmpv6ProcessResult::Processed)
                && (match first_target_lla(options_from(s.skip(24)).0) {
                    Some(m) => exists|mac: MacAddr| mac.bytes@ == m
                        && after == neighbor_after_update(before, max, source_addr, mac),
                    None => after == before,
                })
            &&& ok && parses(s) && s[0] != 128 && s[0] != 135 && s[0] != 136
                ==> r == Ok::<Icmpv6ProcessResult, Icmpv6Error>(Icmpv6ProcessResult::Processed) && after == before
        }),
{
    let mut packet = packet;
    assert(packet@.take(nat_int(packet@.len())) =~= packet@);
    let ok = match packet.peek(packet.remaining()) {
        Some(data) => verify_icmpv6_checksum(source_addr, dest_addr, data, 2),
        None => verify_icmpv6_checksum(source_addr, dest_addr, &[], 2),
    };
    if !ok {
        return Ok(Icmpv6ProcessResult::NoReply);
    }
    let parsed = match Icmpv6Packet::from_packet(&mut packet) {
        Ok(p) => p,
        Err(e) => {
            return Err(e);
        },
    };
    match parsed {
        Icmpv6Packet::Echo(echo) => Ok(handle_echo(echo, source_addr, dest_addr)),
        Icmpv6Packet::NeighborSolicitation(_ns) => {
            Ok(handle_neighbor_solicitation(dest_addr, source_addr, hop_limit, our_mac, context))
        },
        Icmpv6Packet::NeighborAdvertisement(na) => {
            Ok(handle_neighbor_advertisement(&na, source_addr, hop_limit, context))
        },
        _ => Ok(Icmpv6ProcessResult::Processed),
    }
}

} // verus!
