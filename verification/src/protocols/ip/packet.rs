use vstd::prelude::*;
use crate::common::error::{CoreError, CoreErrorKind};
use crate::common::bytes::{be16, u16_bytes, copy_range};
use crate::protocols::common::addr::Ipv4Addr;
use crate::protocols::common::packet::Packet;
use super::header::{Ipv4Header, header_bytes, header_wire, ipv4_parse_ok, ipv4_parse_err, ipv4_parsed_from, spec_header_len, DEFAULT_TTL};
use super::checksum::{verify_checksum, checksum_ok};
use super::error::IpError;
use super::fragment::{ReassemblyKey, FragmentInfo, FragmentOverlapPolicy, ReassemblyTable, ReassemblyEntry,
    DEFAULT_MAX_FRAGMENTS_PER_DATAGRAM, located, fragment_outcome};

verus! {

/// The outcome of processing an IPv4 datagram.
#[derive(Debug, Clone, PartialEq)]
pub enum IpProcessResult {
    /// Nothing to do.
    NoReply,
    /// A datagram to send back.
    Reply(Vec<u8>),
    /// The payload (reassembled when fragmented) for the upper layer.
    DeliverToProtocol { ip_hdr: Ipv4Header, data: Vec<u8> },
}

/// Whether a datagram for `dest` is to be handled here: broadcast, loopback,
/// or the interface's own address.
pub open spec fn is_local_dest(dest: Seq<u8>, local_addr: Option<Ipv4Addr>) -> bool {
    ||| dest == seq![255u8, 255, 255, 255]
    ||| dest[0] == 127
    ||| (local_addr matches Some(a) && a.bytes@ == dest)
}

/// Which IPv4 destinations are for this host: the limited broadcast
/// address 255.255.255.255 and every 127.x.x.x address always are, whatever
/// the interface's address; the interface's own address is; no other
/// address is.
pub proof fn lemma_local_destinations(dest: Seq<u8>, local_addr: Option<Ipv4Addr>)
    requires
        dest.len() == 4,
    ensures
        dest == seq![255u8, 255, 255, 255] ==> is_local_dest(dest, local_addr),
        dest[0] == 127 ==> is_local_dest(dest, local_addr),
        (local_addr matches Some(a) && a.bytes@ == dest) ==> is_local_dest(dest, local_addr),
        dest != seq![255u8, 255, 255, 255] && dest[0] != 127 && !(local_addr matches Some(a) && a.bytes@ == dest)
            ==> !is_local_dest(dest, local_addr),
{
}

/// Whether the flags/offset field marks a fragment.
pub open spec fn is_fragment_field(f: u16) -> bool {
    (f / 0x2000) % 2 == 1 || f % 0x2000 != 0
}

/// The result of handling a local fragment whose reassembly gave `rr`: an
/// error passes through, an incomplete datagram gets no reply, and a
/// completed one goes to ICMP, TCP or UDP with header `h` and the
/// reassembled data (any other protocol is refused).
pub open spec fn fragment_delivery(h: Ipv4Header, rr: Result<Option<Vec<u8>>, IpError>,
    r: Result<IpProcessResult, IpError>) -> bool {
    match rr {
        Err(e) => r == Err::<IpProcessResult, IpError>(e),
        Ok(None) => r matches Ok(IpProcessResult::NoReply),
        Ok(Some(d)) => if h.protocol == 1 || h.protocol == 6 || h.protocol == 17 {
            r matches Ok(IpProcessResult::DeliverToProtocol { ip_hdr, data }) && ip_hdr == h && data@ == d@
        } else {
            r matches Err(IpError::UnsupportedProtocol { protocol }) && protocol == h.protocol
        },
    }
}

/// Whether `r` and the reassembly entries `after` are what a local fragment
/// with header `h` and data `payload` gives on a table holding `before`
/// (room for `max` entries) at `now`: the fragment, keyed by source,
/// destination, protocol and identification, at the header's offset and
/// with its more-fragments flag, is added as `add_datagram_fragment` does
/// (at most `DEFAULT_MAX_FRAGMENTS_PER_DATAGRAM` fragments), and its outcome
/// is delivered as `fragment_delivery` says.
pub open spec fn fragment_handled(h: Ipv4Header, payload: Seq<u8>, before: Seq<ReassemblyEntry>, max: usize,
    now: u64, after: Seq<ReassemblyEntry>, r: Result<IpProcessResult, IpError>) -> bool {
    fragment_handled_as(h, (h.flags_fragment / 0x2000) % 2 == 1, payload, before, max, now, after, r)
}

/// `fragment_handled` with the more-fragments flag `more` of `h` given.
pub open spec fn fragment_handled_as(h: Ipv4Header, more: bool, payload: Seq<u8>, before: Seq<ReassemblyEntry>,
    max: usize, now: u64, after: Seq<ReassemblyEntry>, r: Result<IpProcessResult, IpError>) -> bool {
    exists|key: ReassemblyKey, frag: FragmentInfo, staged: Seq<ReassemblyEntry>, i: int,
        rr: Result<Option<Vec<u8>>, IpError>|
        #![trigger located(before, max, key, now, staged, i), fragment_outcome(staged, i, frag, more,
            DEFAULT_MAX_FRAGMENTS_PER_DATAGRAM, now, after, rr)]
    {
        &&& key == (ReassemblyKey { source_addr: h.source_addr, dest_addr: h.dest_addr, protocol: h.protocol,
            identification: h.identification })
        &&& frag.offset == h.flags_fragment % 0x2000 && frag.data@ == payload && frag.arrival_time == now
        &&& 0 <= i < staged.len()
        &&& located(before, max, key, now, staged, i)
        &&& fragment_outcome(staged, i, frag, more, DEFAULT_MAX_FRAGMENTS_PER_DATAGRAM, now, after, rr)
        &&& fragment_delivery(h, rr, r)
    }
}

fn is_local_address(dest_addr: &Ipv4Addr, local_addr: &Option<Ipv4Addr>) -> (r: bool)
    ensures
        r == is_local_dest(dest_addr.bytes@, *local_addr),
{
    let is_local = match local_addr {
        Some(a) => a.equals(dest_addr),
        None => false,
    };
    if dest_addr.is_broadcast() || dest_addr.is_loopback() {
        return true;
    }
    is_local
}

/// Processes an IPv4 datagram received on an interface whose address is
/// `local_addr`; fragments are collected in `reassembly`.
pub fn process_ip_packet(
    packet: &mut Packet,
    local_addr: Option<Ipv4Addr>,
    reassembly: &mut ReassemblyTable,
    now: u64,
) -> (r: Result<IpProcessResult, IpError>)
    requires
        old(reassembly).all_wf(),
    ensures
        final(reassembly).all_wf(),
        final(reassembly).spec_max_entries() == old(reassembly).spec_max_entries(),
        final(reassembly).spec_timeout() == old(reassembly).spec_timeout(),
        !ipv4_parse_ok(old(packet)@) && ipv4_parse_err(old(packet)@) == CoreErrorKind::Unsupported
            ==> (r matches Err(IpError::InvalidVersion { expected: 4, found: 6 })),
        !ipv4_parse_ok(old(packet)@) && ipv4_parse_err(old(packet)@) != CoreErrorKind::Unsupported
            ==> (r matches Err(IpError::InvalidPacket { .. })),
        ({
            let s = old(packet)@;
            let hl = spec_header_len(s[0]);
            ipv4_parse_ok(s) ==> {
                &&& !checksum_ok(s.take(hl), 10) ==> (r matches Err(IpError::InvalidPacket { message })
                    && message@ == "IP校验和错误"@)
                &&& checksum_ok(s.take(hl), 10) && is_local_dest(s.subrange(16, 20), local_addr)
                    && is_fragment_field(be16(s[6], s[7])) ==> exists|h: Ipv4Header| ipv4_parsed_from(h, s)
                        && #[trigger] fragment_handled(h, s.skip(hl), old(reassembly).spec_entries(),
                            old(reassembly).spec_max_entries(), now, final(reassembly).spec_entries(), r)
                &&& checksum_ok(s.take(hl), 10) && !is_local_dest(s.subrange(16, 20), local_addr)
                    ==> (r matches Ok(IpProcessResult::NoReply)
                        && final(reassembly).spec_entries() == old(reassembly).spec_entries())
                &&& checksum_ok(s.take(hl), 10) && is_local_dest(s.subrange(16, 20), local_addr)
                    && !is_fragment_field(be16(s[6], s[7])) ==> {
                        &&& final(reassembly).spec_entries() == old(reassembly).spec_entries()
                        &&& (s[9] == 1 || s[9] == 6 || s[9] == 17) ==> (r matches Ok(IpProcessResult::DeliverToProtocol { ip_hdr, data })
                            && ipv4_parsed_from(ip_hdr, s) && data@ == s.skip(hl))
                        &&& !(s[9] == 1 || s[9] == 6 || s[9] == 17) ==> (r matches Err(IpError::UnsupportedProtocol { protocol })
                            && protocol == s[9])
                    }
                &&& (r matches Ok(IpProcessResult::DeliverToProtocol { ip_hdr, data }) ==> ipv4_parsed_from(ip_hdr, s))
                &&& !(r matches Ok(IpProcessResult::Reply(_)))
            }
        }),
{
    let raw = packet.to_vec();
    let ip_hdr = match Ipv4Header::from_packet(packet) {
        Ok(h) => h,
        Err(e) => {
            return match e {
                CoreError::UnsupportedProtocol(_) => Err(IpError::invalid_version(6)),
                CoreError::ParseError(m) | CoreError::InvalidPacket(m) | CoreError::IpConflict(m) => {
                    Err(IpError::InvalidPacket { message: m })
                },
            };
        },
    };
    let hl = ip_hdr.header_len();
    let header_raw = copy_range(raw.as_slice(), 0, hl);
    assert(header_raw@ =~= raw@.take(hl as int));
    if !verify_checksum(header_raw.as_slice(), 10) {
        return Err(IpError::InvalidPacket { message: "IP校验和错误".to_owned() });
    }
    proof {
        assert(ip_hdr.dest_addr.bytes@ == raw@.subrange(16, 20));
    }
    if ip_hdr.is_fragmented() {
        return handle_fragmented_packet(packet, ip_hdr, &local_addr, reassembly, now);
    }
    if !is_local_address(&ip_hdr.dest_addr, &local_addr) {
        return Ok(IpProcessResult::NoReply);
    }
    let p = ip_hdr.protocol;
    if p == 1 || p == 6 || p == 17 {
        let data = packet.to_vec();
        Ok(IpProcessResult::DeliverToProtocol { ip_hdr, data })
    } else {
        Err(IpError::unsupported_protocol(p))
    }
}

fn handle_fragmented_packet(
    packet: &mut Packet,
    ip_hdr: Ipv4Header,
    local_addr: &Option<Ipv4Addr>,
    reassembly: &mut ReassemblyTable,
    now: u64,
) -> (r: Result<IpProcessResult, IpError>)
    requires
        old(reassembly).all_wf(),
    ensures
        final(reassembly).all_wf(),
        final(reassembly).spec_max_entries() == old(reassembly).spec_max_entries(),
        final(reassembly).spec_timeout() == old(reassembly).spec_timeout(),
        !is_local_dest(ip_hdr.dest_addr.bytes@, *local_addr) ==> (r matches Ok(IpProcessResult::NoReply)
            && final(reassembly).spec_entries() == old(reassembly).spec_entries()),
        is_local_dest(ip_hdr.dest_addr.bytes@, *local_addr) ==> fragment_handled(ip_hdr, old(packet)@,
            old(reassembly).spec_entries(), old(reassembly).spec_max_entries(), now, final(reassembly).spec_entries(), r),
        r matches Ok(IpProcessResult::DeliverToProtocol { ip_hdr: h, data }) ==> h == ip_hdr,
        !(r matches Ok(IpProcessResult::Reply(_))),
{
    if !is_local_address(&ip_hdr.dest_addr, local_addr) {
        return Ok(IpProcessResult::NoReply);
    }
    let fragment_data = packet.to_vec();
    let key = ReassemblyKey::new(ip_hdr.source_addr, ip_hdr.dest_addr, ip_hdr.protocol, ip_hdr.identification);
    let fragment = FragmentInfo::new(ip_hdr.fragment_offset(), fragment_data, now);
    let more = ip_hdr.has_mf_flag();
    let ghost frag = fragment;
    let rr = reassembly.add_datagram_fragment(key, fragment, more, DEFAULT_MAX_FRAGMENTS_PER_DATAGRAM, now);
    let r = match rr {
        Err(e) => Err(e),
        Ok(None) => Ok(IpProcessResult::NoReply),
        Ok(Some(assembled_data)) => {
            let p = ip_hdr.protocol;
            if p == 1 || p == 6 || p == 17 {
                Ok(IpProcessResult::DeliverToProtocol { ip_hdr, data: assembled_data })
            } else {
                Err(IpError::unsupported_protocol(p))
            }
        },
    };
    proof {
        let before = old(reassembly).spec_entries();
        let max = old(reassembly).spec_max_entries();
        let (staged, i) = choose|staged: Seq<ReassemblyEntry>, i: int| 0 <= i < staged.len()
            && #[trigger] located(before, max, key, now, staged, i)
            && fragment_outcome(staged, i, frag, more, DEFAULT_MAX_FRAGMENTS_PER_DATAGRAM, now,
                reassembly.spec_entries(), rr);
        assert(fragment_delivery(ip_hdr, rr, r));
        assert(located(before, max, key, now, staged, i));
        assert(fragment_outcome(staged, i, frag, (ip_hdr.flags_fragment / 0x2000) % 2 == 1,
            DEFAULT_MAX_FRAGMENTS_PER_DATAGRAM, now, reassembly.spec_entries(), rr));
        assert(key == (ReassemblyKey { source_addr: ip_hdr.source_addr, dest_addr: ip_hdr.dest_addr,
            protocol: ip_hdr.protocol, identification: ip_hdr.identification }));
        assert(frag.offset == ip_hdr.flags_fragment % 0x2000);
        assert(frag.data@ == old(packet)@);
        assert(frag.arrival_time == now);
        assert(fragment_handled_as(ip_hdr, more, old(packet)@, before, max, now, reassembly.spec_entries(), r));
    }
    r
}

/// The bytes of a 20-byte header with the given fields (TTL 64, TOS 0) and its checksum.
pub open spec fn basic_header_wire(total_length: u16, identification: u16, flags_fragment: u16, protocol: u8,
    src: Ipv4Addr, dst: Ipv4Addr) -> Seq<u8> {
    let zero = seq![0x45u8, 0u8] + u16_bytes(total_length) + u16_bytes(identification) + u16_bytes(flags_fragment)
        + seq![DEFAULT_TTL, protocol] + u16_bytes(0) + src.bytes@ + dst.bytes@;
    seq![0x45u8, 0u8] + u16_bytes(total_length) + u16_bytes(identification) + u16_bytes(flags_fragment)
        + seq![DEFAULT_TTL, protocol] + u16_bytes(super::checksum::internet_checksum(zero)) + src.bytes@ + dst.bytes@
}

fn basic_header(total_length: u16, identification: u16, flags_fragment: u16, protocol: u8,
    src: Ipv4Addr, dst: Ipv4Addr) -> (r: Vec<u8>)
    ensures
        r@ == basic_header_wire(total_length, identification, flags_fragment, protocol, src, dst),
{
    let h = Ipv4Header {
        version_ihl: 0x45,
        tos: 0,
        total_length,
        identification,
        flags_fragment,
        ttl: DEFAULT_TTL,
        protocol,
        checksum: 0,
        source_addr: src,
        dest_addr: dst,
        options: Vec::new(),
    };
    let r = h.to_bytes();
    proof {
        assert(header_bytes(h, 0) =~= seq![0x45u8, 0u8] + u16_bytes(total_length) + u16_bytes(identification)
            + u16_bytes(flags_fragment) + seq![DEFAULT_TTL, protocol] + u16_bytes(0) + src.bytes@ + dst.bytes@);
        let c = super::checksum::internet_checksum(header_bytes(h, 0));
        assert(header_bytes(h, c) =~= seq![0x45u8, 0u8] + u16_bytes(total_length) + u16_bytes(identification)
            + u16_bytes(flags_fragment) + seq![DEFAULT_TTL, protocol] + u16_bytes(c) + src.bytes@ + dst.bytes@);
    }
    r
}

/// An IPv4 datagram: a 20-byte header (DF set) followed by the payload.
pub fn encapsulate_ip_datagram(source_addr: Ipv4Addr, dest_addr: Ipv4Addr, protocol: u8, payload: &[u8]) -> (r: Vec<u8>)
    requires
        payload@.len() <= usize::MAX - 20,
    ensures
        r@ == basic_header_wire((20 + payload@.len()) as u16, 0, 0x4000, protocol, source_addr, dest_addr) + payload@,
{
    let mut packet = basic_header((20 + payload.len()) as u16, 0, 0x4000, protocol, source_addr, dest_addr);
    crate::common::bytes::push_slice(&mut packet, payload);
    packet
}

/// The largest fragment payload for an MTU: what remains after the header,
/// rounded down to a multiple of 8.
pub open spec fn max_fragment_data(mtu: u16) -> int {
    ((mtu as int - 20) / 8) * 8
}

/// The bytes of fragment `k` when `payload` is cut into pieces of `max` bytes.
pub open spec fn fragment_wire(src: Ipv4Addr, dst: Ipv4Addr, protocol: u8, payload: Seq<u8>, max: int,
    identification: u16, k: int) -> Seq<u8> {
    let start = k * max;
    let end = if start + max >= payload.len() { payload.len() as int } else { start + max };
    let last = start + max >= payload.len();
    let off = (start / 8) as u16;
    let flags = if last { off % 0x2000 } else { (0x2000 + off % 0x2000) as u16 };
    basic_header_wire((20 + (end - start)) as u16, identification, flags, protocol, src, dst)
        + payload.subrange(start, end)
}

proof fn lemma_ceil_step(len: int, m: int, k: int)
    requires
        m > 0,
        k >= 0,
        k * m < len,
    ensures
        k + 1 <= (len + m - 1) / m,
        (k + 1) * m >= len ==> (len + m - 1) / m == k + 1,
        (k + 1) * m == k * m + m,
{
    assert(k + 1 <= (len + m - 1) / m) by (nonlinear_arith)
        requires m > 0, k >= 0, k * m < len;
    assert((k + 1) * m >= len ==> (len + m - 1) / m == k + 1) by (nonlinear_arith)
        requires m > 0, k >= 0, k * m < len;
    assert((k + 1) * m == k * m + m) by (nonlinear_arith);
}

/// Cuts a datagram into fragments that fit `mtu`, or gives the whole datagram
/// when it fits.
pub fn fragment_datagram(source_addr: Ipv4Addr, dest_addr: Ipv4Addr, protocol: u8, payload: &[u8], mtu: u16,
    identification: u16) -> (r: Vec<Vec<u8>>)
    requires
        payload@.len() <= usize::MAX - 20,
        (20 + payload@.len()) as u16 <= mtu || (mtu >= 28 && payload@.len() < 524288),
    ensures
        (20 + payload@.len()) as u16 <= mtu ==> r@.len() == 1 && r@[0]@ == basic_header_wire(
            (20 + payload@.len()) as u16, 0, 0x4000, protocol, source_addr, dest_addr) + payload@,
        (20 + payload@.len()) as u16 > mtu ==> {
            &&& r@.len() == (payload@.len() + max_fragment_data(mtu) - 1) / max_fragment_data(mtu)
            &&& forall|k: int| 0 <= k < r@.len() ==> (#[trigger] r@[k])@ == fragment_wire(source_addr, dest_addr,
                protocol, payload@, max_fragment_data(mtu), identification, k)
        },
{
    let total_len = (20 + payload.len()) as u16;
    if total_len <= mtu {
        let mut v: Vec<Vec<u8>> = Vec::new();
        v.push(encapsulate_ip_datagram(source_addr, dest_addr, protocol, payload));
        return v;
    }
    let max_data: usize = ((mtu as usize - 20) / 8) * 8;
    let ghost maxd = max_data as int;
    assert(maxd == max_fragment_data(mtu));
    assert(maxd >= 8);
    assert(maxd % 8 == 0);
    let mut fragments: Vec<Vec<u8>> = Vec::new();
    let mut payload_offset: usize = 0;
    let mut fragment_offset: u16 = 0;
    let ghost mut k: int = 0;
    while payload_offset < payload.len()
        invariant
            maxd == max_data,
            maxd >= 8,
            maxd % 8 == 0,
            maxd <= 65535,
            payload@.len() < 524288,
            k >= 0,
            payload_offset <= payload@.len(),
            payload_offset < payload@.len() ==> payload_offset == k * maxd,
            payload_offset == payload@.len() ==> k == (payload@.len() + maxd - 1) / maxd,
            payload_offset < payload@.len() ==> fragment_offset as int == payload_offset / 8,
            fragments@.len() == k,
            k <= (payload@.len() + maxd - 1) / maxd,
            forall|j: int| 0 <= j < k ==> (#[trigger] fragments@[j])@ == fragment_wire(source_addr, dest_addr,
                protocol, payload@, maxd, identification, j),
        decreases payload@.len() - payload_offset,
    {
        let remaining = payload.len() - payload_offset;
        let data_len = if remaining < max_data { remaining } else { max_data };
        let is_last = payload_offset + data_len >= payload.len();
        let mf: u16 = if is_last { 0 } else { 0x2000 };
        let flags_fragment = mf + fragment_offset % 0x2000;
        let total_length = (20 + data_len) as u16;
        proof { lemma_ceil_step(payload@.len() as int, maxd, k); }
        let mut frag = basic_header(total_length, identification, flags_fragment, protocol, source_addr, dest_addr);
        let data = copy_range(payload, payload_offset, payload_offset + data_len);
        crate::common::bytes::push_slice(&mut frag, data.as_slice());
        proof {
            assert(payload_offset / 8 == (k * maxd) / 8);
            assert(fragment_offset == ((k * maxd) / 8) as u16);
            assert(frag@ == fragment_wire(source_addr, dest_addr, protocol, payload@, maxd, identification, k));
        }
        fragments.push(frag);
        proof {
            assert((k * maxd + maxd) / 8 == (k * maxd) / 8 + maxd / 8) by (nonlinear_arith)
                requires maxd % 8 == 0, maxd >= 8, k >= 0;
        }
        payload_offset = payload_offset + data_len;
        fragment_offset = fragment_offset + (data_len / 8) as u16;
        proof {
            k = k + 1;
            assert forall|j: int| 0 <= j < k implies (#[trigger] fragments@[j])@ == fragment_wire(source_addr, dest_addr,
                protocol, payload@, maxd, identification, j) by {}
        }
    }
    fragments
}

/// The data the first `count` fragments carry after their 20-byte headers,
/// one after the other.
pub open spec fn fragments_payload(src: Ipv4Addr, dst: Ipv4Addr, protocol: u8, payload: Seq<u8>, max: int,
    identification: u16, count: nat) -> Seq<u8>
    decreases count,
{
    if count == 0 {
        Seq::empty()
    } else {
        fragments_payload(src, dst, protocol, payload, max, identification, (count - 1) as nat)
            + fragment_wire(src, dst, protocol, payload, max, identification, count - 1).skip(20)
    }
}

proof fn lemma_fragments_payload_prefix(src: Ipv4Addr, dst: Ipv4Addr, protocol: u8, payload: Seq<u8>, max: int,
    identification: u16, j: nat)
    requires
        max > 0,
        j == 0 || (j - 1) * max < payload.len(),
    ensures
        fragments_payload(src, dst, protocol, payload, max, identification, j) == payload.subrange(
            0,
            if j * max < payload.len() { j * max } else { payload.len() as int },
        ),
    decreases j,
{
    let n = payload.len() as int;
    if j == 0 {
        assert(j * max == 0) by (nonlinear_arith)
            requires
                j == 0,
        ;
        assert(payload.subrange(0, 0) =~= Seq::<u8>::empty());
    } else {
        let k = (j - 1) as nat;
        if k > 0 {
            assert((k - 1) * max < k * max) by (nonlinear_arith)
                requires
                    max > 0,
                    k > 0,
            ;
        }
        lemma_fragments_payload_prefix(src, dst, protocol, payload, max, identification, k);
        assert(j * max == k * max + max) by (nonlinear_arith)
            requires
                j == k + 1,
        ;
        let start = k * max;
        let end = if start + max >= n { n } else { start + max };
        let w = fragment_wire(src, dst, protocol, payload, max, identification, k as int);
        let h = basic_header_wire((20 + (end - start)) as u16, identification,
            if start + max >= n { ((start / 8) as u16) % 0x2000 } else { (0x2000 + ((start / 8) as u16) % 0x2000) as u16 },
            protocol, src, dst);
        assert(h.len() == 20);
        assert(w.skip(20) =~= payload.subrange(start, end));
        assert(payload.subrange(0, start) + payload.subrange(start, end) =~= payload.subrange(0, end));
    }
}

/// The fragments `fragment_datagram` cuts a datagram into carry, after their
/// headers and in order, exactly its payload.
pub proof fn lemma_fragments_reassemble(src: Ipv4Addr, dst: Ipv4Addr, protocol: u8, payload: Seq<u8>, max: int,
    identification: u16)
    requires
        max > 0,
        payload.len() > 0,
    ensures
        fragments_payload(src, dst, protocol, payload, max, identification,
            ((payload.len() + max - 1) / max) as nat) == payload,
{
    let n = payload.len() as int;
    let c = (n + max - 1) / max;
    assert(c >= 1 && (c - 1) * max < n && c * max >= n) by (nonlinear_arith)
        requires
            max > 0,
            n > 0,
            c == (n + max - 1) / max,
    ;
    lemma_fragments_payload_prefix(src, dst, protocol, payload, max, identification, c as nat);
    assert(payload.subrange(0, n) =~= payload);
}

} // verus!
