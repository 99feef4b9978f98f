use vstd::prelude::*;
use std::collections::VecDeque;
use crate::common::bytes::{be16, u16_bytes, read_be16, push_be16, push_slice};
use crate::common::error::{CoreError, ip_conflict_text};
use crate::common::text::{decimal_digits, hex4, join_text, append_text, usize_decimal_text, u16_decimal_text,
    byte_decimal_text, hex16_text};
use crate::protocols::common::addr::{Ipv4Addr, MacAddr, dotted_quad, mac_text};
use crate::protocols::common::packet::Packet;
use crate::protocols::ethernet::{build_ethernet_frame, ethernet_frame_bytes};
use super::tables::{
    ArpCache, ArpEntryModel, ArpKey, ArpState, arp_after_update, arp_index, lemma_arp_index,
};

verus! {

/// ARP operation codes.
#[derive(Debug, Clone, Copy, PartialEq, Eq, Structural)]
pub enum ArpOperation {
    Request,
    Reply,
}

impl ArpOperation {
    /// The operation code.
    pub open spec fn spec_value(self) -> u16 {
        match self {
            ArpOperation::Request => 1,
            ArpOperation::Reply => 2,
        }
    }

    /// The operation with this code: 1 is a request, 2 a reply.
    pub fn from_u16(value: u16) -> (r: Option<Self>)
        ensures
            value == 1 ==> r == Some(ArpOperation::Request),
            value == 2 ==> r == Some(ArpOperation::Reply),
            value != 1 && value != 2 ==> r is None,
    {
        match value {
            1 => Some(ArpOperation::Request),
            2 => Some(ArpOperation::Reply),
            _ => None,
        }
    }

    /// The operation code.
    pub fn to_u16(self) -> (r: u16)
        ensures
            r == self.spec_value(),
    {
        match self {
            ArpOperation::Request => 1,
            ArpOperation::Reply => 2,
        }
    }
}

/// An ARP message.
#[derive(Debug, Clone)]
pub struct ArpPacket {
    pub hardware_type: u16,
    pub protocol_type: u16,
    pub hardware_addr_len: u8,
    pub protocol_addr_len: u8,
    pub operation: ArpOperation,
    pub sender_hardware_addr: MacAddr,
    pub sender_protocol_addr: Ipv4Addr,
    pub target_hardware_addr: MacAddr,
    pub target_protocol_addr: Ipv4Addr,
}

/// Whether the ARP message in `s` is one this library accepts: Ethernet
/// and IPv4 with their address lengths, and a known operation.
pub open spec fn arp_accepts(s: Seq<u8>) -> bool {
    &&& s.len() >= 28
    &&& (be16(s[6], s[7]) == 1 || be16(s[6], s[7]) == 2)
    &&& be16(s[0], s[1]) == 1
    &&& be16(s[2], s[3]) == 0x0800
    &&& s[4] == 6
    &&& s[5] == 4
}

/// The message of the error for a message of at least 28 bytes that is
/// refused: the first field that fails, with its value.
pub open spec fn arp_refusal_text(s: Seq<u8>) -> Seq<char> {
    let op = be16(s[6], s[7]);
    if !(op == 1 || op == 2) {
        "无效的ARP操作码："@ + decimal_digits(op as nat)
    } else if be16(s[0], s[1]) != 1 {
        "不支持的硬件类型："@ + decimal_digits(be16(s[0], s[1]) as nat) + "（仅支持以太网类型1）"@
    } else if be16(s[2], s[3]) != 0x0800 {
        "不支持的协议类型：0x"@ + hex4(be16(s[2], s[3])) + "（仅支持IPv4协议0x0800）"@
    } else if s[4] != 6 {
        "无效的硬件地址长度："@ + decimal_digits(s[4] as nat) + "（以太网MAC地址应为6字节）"@
    } else {
        "无效的协议地址长度："@ + decimal_digits(s[5] as nat) + "（IPv4地址应为4字节）"@
    }
}

impl ArpPacket {
    pub const MIN_LEN: usize = 28;
    /// Hardware type of Ethernet.
    pub const ARPHRD_ETHER: u16 = 1;
    /// Protocol type of IPv4.
    pub const ETH_P_IP: u16 = 0x0800;

    /// Whether the fields are those of the message at the start of `s`.
    pub open spec fn fields_from(&self, s: Seq<u8>) -> bool {
        &&& s.len() >= 28
        &&& self.hardware_type == be16(s[0], s[1])
        &&& self.protocol_type == be16(s[2], s[3])
        &&& self.hardware_addr_len == s[4]
        &&& self.protocol_addr_len == s[5]
        &&& self.operation.spec_value() == be16(s[6], s[7])
        &&& self.sender_hardware_addr.bytes@ == s.subrange(8, 14)
        &&& self.sender_protocol_addr.bytes@ == s.subrange(14, 18)
        &&& self.target_hardware_addr.bytes@ == s.subrange(18, 24)
        &&& self.target_protocol_addr.bytes@ == s.subrange(24, 28)
    }

    /// The 28 wire bytes.
    pub open spec fn wire(&self) -> Seq<u8> {
        u16_bytes(self.hardware_type) + u16_bytes(self.protocol_type)
            + seq![self.hardware_addr_len, self.protocol_addr_len] + u16_bytes(self.operation.spec_value())
            + self.sender_hardware_addr.bytes@ + self.sender_protocol_addr.bytes@
            + self.target_hardware_addr.bytes@ + self.target_protocol_addr.bytes@
    }

    /// An Ethernet/IPv4 message.
    pub fn new(
        operation: ArpOperation,
        sender_hardware_addr: MacAddr,
        sender_protocol_addr: Ipv4Addr,
        target_hardware_addr: MacAddr,
        target_protocol_addr: Ipv4Addr,
    ) -> (r: Self)
        ensures
            r.hardware_type == 1 && r.protocol_type == 0x0800 && r.hardware_addr_len == 6 && r.protocol_addr_len == 4,
            r.operation == operation,
            r.sender_hardware_addr == sender_hardware_addr && r.sender_protocol_addr == sender_protocol_addr,
            r.target_hardware_addr == target_hardware_addr && r.target_protocol_addr == target_protocol_addr,
    {
        ArpPacket {
            hardware_type: 1,
            protocol_type: 0x0800,
            hardware_addr_len: 6,
            protocol_addr_len: 4,
            operation,
            sender_hardware_addr,
            sender_protocol_addr,
            target_hardware_addr,
            target_protocol_addr,
        }
    }

    /// Parses a message from the front of the packet.
    pub fn from_packet(packet: &mut Packet) -> (r: Result<Self, CoreError>)
        ensures
            old(packet)@.len() < 28 ==> (r matches Err(CoreError::InvalidPacket(m))
                && m@ == "ARP报文长度不足："@ + decimal_digits(old(packet)@.len()) + " < 28"@)
                && final(packet)@ == old(packet)@,
            old(packet)@.len() >= 28 && !arp_accepts(old(packet)@) ==> (r matches Err(CoreError::InvalidPacket(m))
                && m@ == arp_refusal_text(old(packet)@)) && final(packet)@ == old(packet)@.skip(8),
            arp_accepts(old(packet)@) ==> (r matches Ok(p) && p.fields_from(old(packet)@))
                && final(packet)@ == old(packet)@.skip(28),
    {
        if packet.remaining() < 28 {
            let n = usize_decimal_text(packet.remaining());
            let t = join_text("ARP报文长度不足：", n.as_str());
            return Err(CoreError::InvalidPacket(append_text(t, " < 28")));
        }
        let ghost s = packet@;
        let (hardware_type, protocol_type, hardware_addr_len, protocol_addr_len, op) = match packet.read(8) {
            Some(h) => (read_be16(h, 0), read_be16(h, 2), h[4], h[5], read_be16(h, 6)),
            None => (0, 0, 0, 0, 0),
        };
        let operation = match ArpOperation::from_u16(op) {
            Some(o) => o,
            None => {
                return Err(CoreError::InvalidPacket(join_text("无效的ARP操作码：", u16_decimal_text(op).as_str())));
            },
        };
        if hardware_type != 1 {
            let t = join_text("不支持的硬件类型：", u16_decimal_text(hardware_type).as_str());
            return Err(CoreError::InvalidPacket(append_text(t, "（仅支持以太网类型1）")));
        }
        if protocol_type != 0x0800 {
            let t = join_text("不支持的协议类型：0x", hex16_text(protocol_type).as_str());
            return Err(CoreError::InvalidPacket(append_text(t, "（仅支持IPv4协议0x0800）")));
        }
        if hardware_addr_len != 6 {
            let t = join_text("无效的硬件地址长度：", byte_decimal_text(hardware_addr_len).as_str());
            return Err(CoreError::InvalidPacket(append_text(t, "（以太网MAC地址应为6字节）")));
        }
        if protocol_addr_len != 4 {
            let t = join_text("无效的协议地址长度：", byte_decimal_text(protocol_addr_len).as_str());
            return Err(CoreError::InvalidPacket(append_text(t, "（IPv4地址应为4字节）")));
        }
        let (sha, spa, tha, tpa) = match packet.read(20) {
            Some(b) => ([b[0], b[1], b[2], b[3], b[4], b[5]], [b[6], b[7], b[8], b[9]],
                [b[10], b[11], b[12], b[13], b[14], b[15]], [b[16], b[17], b[18], b[19]]),
            None => ([0u8; 6], [0u8; 4], [0u8; 6], [0u8; 4]),
        };
        assert(sha@ =~= s.subrange(8, 14));
        assert(spa@ =~= s.subrange(14, 18));
        assert(tha@ =~= s.subrange(18, 24));
        assert(tpa@ =~= s.subrange(24, 28));
        Ok(ArpPacket {
            hardware_type,
            protocol_type,
            hardware_addr_len,
            protocol_addr_len,
            operation,
            sender_hardware_addr: MacAddr::new(sha),
            sender_protocol_addr: Ipv4Addr::new(spa),
            target_hardware_addr: MacAddr::new(tha),
            target_protocol_addr: Ipv4Addr::new(tpa),
        })
    }

    /// The 28 wire bytes.
    pub fn to_bytes(&self) -> (r: Vec<u8>)
        ensures
            r@ == self.wire(),
    {
        let mut bytes: Vec<u8> = Vec::new();
        push_be16(&mut bytes, self.hardware_type);
        push_be16(&mut bytes, self.protocol_type);
        bytes.push(self.hardware_addr_len);
        bytes.push(self.protocol_addr_len);
        push_be16(&mut bytes, self.operation.to_u16());
        push_slice(&mut bytes, self.sender_hardware_addr.bytes.as_slice());
        push_slice(&mut bytes, self.sender_protocol_addr.bytes.as_slice());
        push_slice(&mut bytes, self.target_hardware_addr.bytes.as_slice());
        push_slice(&mut bytes, self.target_protocol_addr.bytes.as_slice());
        assert(bytes@ =~= self.wire());
        bytes
    }

    /// Whether sender and target protocol addresses are the same (a gratuitous ARP).
    pub fn is_gratuitous(&self) -> (r: bool)
        ensures
            r == (self.sender_protocol_addr.bytes@ == self.target_protocol_addr.bytes@),
    {
        self.sender_protocol_addr.equals(&self.target_protocol_addr)
    }
}

/// Encoding an accepted Ethernet/IPv4 message and parsing it back gives the
/// same fields.
pub proof fn lemma_arp_roundtrip(p: ArpPacket)
    requires
        p.hardware_type == 1,
        p.protocol_type == 0x0800,
        p.hardware_addr_len == 6,
        p.protocol_addr_len == 4,
        p.sender_hardware_addr.bytes@.len() == 6,
        p.target_hardware_addr.bytes@.len() == 6,
        p.sender_protocol_addr.bytes@.len() == 4,
        p.target_protocol_addr.bytes@.len() == 4,
    ensures
        arp_accepts(p.wire()),
        p.fields_from(p.wire()),
{
    let s = p.wire();
    crate::common::bytes::lemma_be16_roundtrip(p.hardware_type);
    crate::common::bytes::lemma_be16_roundtrip(p.protocol_type);
    crate::common::bytes::lemma_be16_roundtrip(p.operation.spec_value());
    assert(s.subrange(8, 14) =~= p.sender_hardware_addr.bytes@);
    assert(s.subrange(14, 18) =~= p.sender_protocol_addr.bytes@);
    assert(s.subrange(18, 24) =~= p.target_hardware_addr.bytes@);
    assert(s.subrange(24, 28) =~= p.target_protocol_addr.bytes@);
}

/// What handling an ARP message asks of the caller.
#[derive(Debug)]
pub struct ArpHandleResult {
    /// The reply to send, if any.
    pub reply: Option<ArpPacket>,
    /// Packets that waited for this resolution and can now be sent.
    pub pending_packets: Vec<Packet>,
}

impl ArpHandleResult {
    /// Nothing to send.
    pub fn no_reply() -> (r: Self)
        ensures
            r.reply is None,
            r.pending_packets@.len() == 0,
    {
        ArpHandleResult { reply: None, pending_packets: Vec::new() }
    }

    /// Send `reply`.
    pub fn with_reply(reply: ArpPacket) -> (r: Self)
        ensures
            r.reply == Some(reply),
            r.pending_packets@.len() == 0,
    {
        ArpHandleResult { reply: Some(reply), pending_packets: Vec::new() }
    }
}

/// Whether `ip` is among `ips`.
pub open spec fn has_ip(ips: Seq<Ipv4Addr>, ip: Ipv4Addr) -> bool {
    exists|j: int| 0 <= j < ips.len() && ips[j].bytes@ == ip.bytes@
}

fn contains_ip(ips: &[Ipv4Addr], ip: &Ipv4Addr) -> (r: bool)
    ensures
        r == has_ip(ips@, *ip),
{
    let mut i: usize = 0;
    while i < ips.len()
        invariant
            i <= ips@.len(),
            forall|j: int| 0 <= j < i ==> ips@[j].bytes@ != ip.bytes@,
        decreases ips@.len() - i,
    {
        if ips[i].equals(ip) {
            return true;
        }
        i = i + 1;
    }
    false
}

/// Whether a gratuitous message from `ip` with hardware address `mac`
/// conflicts with the cache: an entry for `ip` holds another address.
pub open spec fn arp_conflict(s: Seq<(ArpKey, ArpEntryModel)>, key: ArpKey, mac: MacAddr) -> bool {
    arp_index(s, key) matches Some(i) && s[i as int].1.hardware_addr.bytes@ != mac.bytes@
}

/// The entry after a reply from its address confirms `mac` at `now`: an
/// entry waiting on a reply or probe becomes Reachable with its retry count
/// reset and its queue emptied; any other becomes Reachable as it is.
pub open spec fn entry_confirmed(e: ArpEntryModel, mac: MacAddr, now: u64) -> ArpEntryModel {
    if e.state == ArpState::Incomplete || e.state == ArpState::Delay || e.state == ArpState::Probe {
        ArpEntryModel {
            state: ArpState::Reachable,
            hardware_addr: mac,
            updated_at: now,
            confirmed_at: now,
            retry_count: 0,
            pending: Seq::empty(),
            ..e
        }
    } else {
        ArpEntryModel { state: ArpState::Reachable, hardware_addr: mac, updated_at: now, confirmed_at: now, ..e }
    }
}

/// The message of the conflict error when `mac` claims `ip` in `s`: the
/// address, the new hardware address and the one the cache holds.
pub open spec fn arp_conflict_text(s: Seq<(ArpKey, ArpEntryModel)>, key: ArpKey, mac: MacAddr) -> Seq<char> {
    ip_conflict_text(dotted_quad(key.1.bytes@), mac_text(mac.bytes@),
        mac_text(s[arp_index(s, key).unwrap() as int].1.hardware_addr.bytes@))
}

fn check_ip_conflict(cache: &ArpCache, ifindex: u32, ip: Ipv4Addr, mac: MacAddr) -> (r: Result<(), CoreError>)
    requires
        cache.wf(),
    ensures
        arp_conflict(cache.spec_entries(), (ifindex, ip), mac) ==> (r matches Err(CoreError::IpConflict(m))
            && m@ == arp_conflict_text(cache.spec_entries(), (ifindex, ip), mac)),
        !arp_conflict(cache.spec_entries(), (ifindex, ip), mac) ==> r is Ok,
{
    match cache.lookup_arp(ifindex, ip) {
        Some(existing) => {
            if !existing.hardware_addr.equals(&mac) {
                let a = ip.to_string();
                let b = mac.to_string();
                let c = existing.hardware_addr.to_string();
                return Err(CoreError::ip_conflict(a.as_str(), b.as_str(), c.as_str()));
            }
            Ok(())
        },
        None => Ok(()),
    }
}

/// Moves the packets of a queue, front first, into a vector.
fn drain_queue(q: VecDeque<Packet>) -> (r: Vec<Packet>)
    ensures
        r@ == q@,
{
    let mut q = q;
    let ghost orig = q@;
    let mut out: Vec<Packet> = Vec::new();
    while q.len() > 0
        invariant
            out@ + q@ == orig,
        decreases q@.len(),
    {
        let ghost before = q@;
        match q.pop_front() {
            Some(p) => {
                out.push(p);
                assert(out@ + q@ =~= orig);
            },
            None => {},
        }
    }
    assert(out@ =~= orig);
    out
}

/// Handles a parsed ARP message received on `ifindex` at `now`
/// (milliseconds). A gratuitous message that gives a cached address another
/// hardware address is refused as a conflict. A request teaches the
/// sender's mapping and is answered when it asks for one of `local_ips`. A
/// reply confirms the sender's entry (or creates it) and releases the
/// packets queued on it.
pub fn handle_arp_packet(
    cache: &mut ArpCache,
    ifindex: u32,
    packet: &ArpPacket,
    local_ips: &[Ipv4Addr],
    local_mac: MacAddr,
    now: u64,
) -> (r: Result<ArpHandleResult, CoreError>)
    requires
        old(cache).wf(),
    ensures
        final(cache).wf(),
        final(cache).spec_config() == old(cache).spec_config(),
        ({
            let s = old(cache).spec_entries();
            let key = (ifindex, packet.sender_protocol_addr);
            let mac = packet.sender_hardware_addr;
            let max = old(cache).spec_config().max_entries as nat;
            let garp = packet.sender_protocol_addr.bytes@ == packet.target_protocol_addr.bytes@;
            &&& garp && arp_conflict(s, key, mac) ==> (r matches Err(CoreError::IpConflict(m))
                && m@ == arp_conflict_text(s, key, mac)) && final(cache).spec_entries() == s
            &&& !(garp && arp_conflict(s, key, mac)) && packet.operation == ArpOperation::Request ==> {
                &&& final(cache).spec_entries() == arp_after_update(s, key, mac, ArpState::Reachable, now, max)
                &&& has_ip(local_ips@, packet.target_protocol_addr) ==> (r matches Ok(h) && h.pending_packets@.len() == 0
                    && h.reply == Some(ArpPacket {
                        hardware_type: 1,
                        protocol_type: 0x0800,
                        hardware_addr_len: 6,
                        protocol_addr_len: 4,
                        operation: ArpOperation::Reply,
                        sender_hardware_addr: local_mac,
                        sender_protocol_addr: packet.target_protocol_addr,
                        target_hardware_addr: packet.sender_hardware_addr,
                        target_protocol_addr: packet.sender_protocol_addr,
                    }))
                &&& !has_ip(local_ips@, packet.target_protocol_addr) ==> (r matches Ok(h) && h.reply is None
                    && h.pending_packets@.len() == 0)
            }
            &&& !(garp && arp_conflict(s, key, mac)) && packet.operation == ArpOperation::Reply ==> {
                match arp_index(s, key) {
                    Some(i) => (r matches Ok(h) && h.reply is None
                        && h.pending_packets@ == (if s[i as int].1.state == ArpState::Incomplete
                            || s[i as int].1.state == ArpState::Delay || s[i as int].1.state == ArpState::Probe {
                            s[i as int].1.pending
                        } else {
                            Seq::empty()
                        }))
                        && final(cache).spec_entries() == s.update(i as int, (s[i as int].0,
                            entry_confirmed(s[i as int].1, mac, now))),
                    None => (r matches Ok(h) && h.reply is None && h.pending_packets@.len() == 0)
                        && final(cache).spec_entries() == arp_after_update(s, key, mac, ArpState::Reachable, now, max),
                }
            }
        }),
{
    let is_garp = packet.is_gratuitous();
    if is_garp {
        match check_ip_conflict(cache, ifindex, packet.sender_protocol_addr, packet.sender_hardware_addr) {
            Ok(()) => {},
            Err(e) => {
                return Err(e);
            },
        }
    }
    match packet.operation {
        ArpOperation::Request => {
            cache.update_arp(ifindex, packet.sender_protocol_addr, packet.sender_hardware_addr, ArpState::Reachable, now);
            if contains_ip(local_ips, &packet.target_protocol_addr) {
                let reply = ArpPacket::new(
                    ArpOperation::Reply,
                    local_mac,
                    packet.target_protocol_addr,
                    packet.sender_hardware_addr,
                    packet.sender_protocol_addr,
                );
                return Ok(ArpHandleResult::with_reply(reply));
            }
            Ok(ArpHandleResult::no_reply())
        },
        ArpOperation::Reply => {
            let ghost s = cache.spec_entries();
            let mut pending_packets: Vec<Packet> = Vec::new();
            let found = cache.lookup_mut_arp(ifindex, packet.sender_protocol_addr);
            match found {
                Some(entry) => {
                    let st = entry.state;
                    if st == ArpState::Incomplete || st == ArpState::Delay || st == ArpState::Probe {
                        entry.state = ArpState::Reachable;
                        entry.hardware_addr = packet.sender_hardware_addr;
                        entry.updated_at = now;
                        entry.confirmed_at = now;
                        entry.retry_count = 0;
                        let q = entry.take_pending();
                        pending_packets = drain_queue(q);
                        assert(entry.model().pending =~= Seq::<Packet>::empty());
                    } else {
                        entry.hardware_addr = packet.sender_hardware_addr;
                        entry.updated_at = now;
                        entry.confirmed_at = now;
                        entry.state = ArpState::Reachable;
                    }
                },
                None => {
                    cache.update_arp(ifindex, packet.sender_protocol_addr, packet.sender_hardware_addr,
                        ArpState::Reachable, now);
                },
            }
            Ok(ArpHandleResult { reply: None, pending_packets })
        },
    }
}

/// Puts an ARP message in an Ethernet frame (type 0x0806).
pub fn encapsulate_ethernet(arp_packet: &ArpPacket, dst_mac: MacAddr, src_mac: MacAddr) -> (r: Vec<u8>)
    ensures
        r@ == ethernet_frame_bytes(dst_mac.bytes@, src_mac.bytes@, 0x0806, arp_packet.wire()),
{
    let payload = arp_packet.to_bytes();
    build_ethernet_frame(dst_mac, src_mac, 0x0806, payload.as_slice())
}

/// What processing a received ARP frame asks of the caller.
#[derive(Debug)]
pub enum ArpProcessResult {
    NoReply,
    /// Send this Ethernet frame.
    Reply(Vec<u8>),
}

/// The outcome of resolving an address.
#[derive(Debug)]
pub enum ArpResolveResult {
    /// The hardware address is known.
    Resolved(MacAddr),
    /// A resolution is under way; the packet waits for it.
    Pending,
    /// The address cannot be resolved.
    Failed(CoreError),
}

} // verus!
