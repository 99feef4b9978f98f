use vstd::prelude::*;
use crate::protocols::common::addr::MacAddr;
use crate::common::error::CoreError;
use crate::common::text::join_text;
use crate::protocols::common::addr::Ipv4Addr;
use crate::protocols::common::packet::Packet;
use crate::protocols::ethernet::{build_ethernet_frame, ethernet_frame_bytes};
use super::packet::{ArpHandleResult, ArpOperation, ArpPacket, ArpProcessResult, ArpResolveResult};
use super::tables::{
    ArpCache, ArpEntryModel, ArpKey, ArpState, arp_after_update, arp_index, arp_special_ip, lemma_arp_index,
    lemma_arp_index_at,
};

verus! {

/// The all-zero hardware address, recorded while an address is unresolved.
pub open spec fn unresolved_mac() -> MacAddr {
    MacAddr { bytes: [0u8, 0u8, 0u8, 0u8, 0u8, 0u8] }
}

/// Whether an entry in this state takes packets to send once resolved.
pub open spec fn arp_queueable(state: ArpState) -> bool {
    state == ArpState::Incomplete || state == ArpState::Delay || state == ArpState::Probe
}

/// The entries after queuing `packet` on the entry for `key`, and whether
/// it was queued: only an entry that is being resolved takes it, up to
/// `max` packets.
pub open spec fn arp_queue(s: Seq<(ArpKey, ArpEntryModel)>, key: ArpKey, packet: Packet, max: nat) -> (Seq<(ArpKey, ArpEntryModel)>, bool) {
    match arp_index(s, key) {
        Some(i) => {
            let e = s[i as int].1;
            if arp_queueable(e.state) && e.pending.len() < max {
                (s.update(i as int, (s[i as int].0, ArpEntryModel { pending: e.pending.push(packet), ..e })), true)
            } else {
                (s, false)
            }
        },
        None => (s, false),
    }
}

/// The entries after starting the resolution of `key` at `now`: a new entry
/// is created (state None) and then, like an entry in state None, set to
/// Incomplete.
pub open spec fn arp_start(s: Seq<(ArpKey, ArpEntryModel)>, key: ArpKey, fresh: bool, now: u64, max_entries: nat) -> Seq<(ArpKey, ArpEntryModel)> {
    let s0 = if fresh {
        arp_after_update(s, key, unresolved_mac(), ArpState::NoMapping, now, max_entries)
    } else {
        s
    };
    arp_after_update(s0, key, unresolved_mac(), ArpState::Incomplete, now, max_entries)
}

/// Decides how to reach `target_ip` on interface `ifindex` for `packet`,
/// and says whether an ARP request must be sent.
///
/// Special addresses (0.0.0.0, 255.255.255.255, multicast) are refused. A
/// Reachable entry gives its hardware address. An entry being resolved
/// (Incomplete, Delay, Probe) queues the packet; a Stale entry first goes
/// to Delay and then queues it. An entry in state None, or no entry, starts
/// a resolution: the entry becomes Incomplete, queues the packet, and a
/// request is to be sent. A packet the entry cannot take fails the
/// resolution.
pub fn resolve_ip(cache: &mut ArpCache, ifindex: u32, target_ip: Ipv4Addr, packet: Packet, now: u64) -> (r: (
    ArpResolveResult,
    bool,
))
    requires
        old(cache).wf(),
    ensures
        final(cache).wf(),
        final(cache).spec_config() == old(cache).spec_config(),
        ({
            let s = old(cache).spec_entries();
            let key: ArpKey = (ifindex, target_ip);
            let max = old(cache).spec_config().max_pending_packets as nat;
            let max_entries = old(cache).spec_config().max_entries as nat;
            if arp_special_ip(target_ip) {
                &&& r.0 matches ArpResolveResult::Failed(CoreError::InvalidPacket(_))
                &&& !r.1
                &&& final(cache).spec_entries() == s
            } else {
                match arp_index(s, key) {
                    Some(i) => {
                        let e = s[i as int].1;
                        if e.state == ArpState::Reachable {
                            &&& r.0 matches ArpResolveResult::Resolved(m)
                            &&& m == e.hardware_addr
                            &&& !r.1
                            &&& final(cache).spec_entries() == s
                        } else if arp_queueable(e.state) || e.state == ArpState::Stale {
                            let s1 = if e.state == ArpState::Stale {
                                s.update(i as int, (s[i as int].0, ArpEntryModel { state: ArpState::Delay, updated_at: now, ..e }))
                            } else {
                                s
                            };
                            let q = arp_queue(s1, key, packet, max);
                            &&& final(cache).spec_entries() == q.0
                            &&& !r.1
                            &&& q.1 ==> r.0 is Pending
                            &&& !q.1 ==> r.0 matches ArpResolveResult::Failed(CoreError::InvalidPacket(_))
                        } else {
                            let q = arp_queue(arp_start(s, key, false, now, max_entries), key, packet, max);
                            &&& final(cache).spec_entries() == q.0
                            &&& r.1 == q.1
                            &&& q.1 ==> r.0 is Pending
                            &&& !q.1 ==> r.0 matches ArpResolveResult::Failed(CoreError::InvalidPacket(_))
                        }
                    },
                    None => {
                        let q = arp_queue(arp_start(s, key, true, now, max_entries), key, packet, max);
                        &&& final(cache).spec_entries() == q.0
                        &&& r.1 == q.1
                        &&& q.1 ==> r.0 is Pending
                        &&& !q.1 ==> r.0 matches ArpResolveResult::Failed(CoreError::InvalidPacket(_))
                    },
                }
            }
        }),
{
    if target_ip.is_unspecified() || target_ip.is_broadcast() || target_ip.is_multicast() {
        let text = target_ip.to_string();
        return (
            ArpResolveResult::Failed(CoreError::InvalidPacket(join_text("拒绝解析特殊IP地址: ", text.as_str()))),
            false,
        );
    }
    let ghost s = cache.spec_entries();
    let ghost key: ArpKey = (ifindex, target_ip);
    proof { lemma_arp_index(s, key); }
    let found = match cache.lookup_arp(ifindex, target_ip) {
        Some(entry) => Some((entry.state, entry.hardware_addr)),
        None => None,
    };
    let zero = MacAddr { bytes: [0u8, 0u8, 0u8, 0u8, 0u8, 0u8] };
    match found {
        Some((ArpState::Reachable, mac)) => (ArpResolveResult::Resolved(mac), false),
        Some((ArpState::Incomplete, _)) | Some((ArpState::Delay, _)) | Some((ArpState::Probe, _)) => {
            match cache.add_pending_packet(ifindex, target_ip, packet) {
                Err(e) => (ArpResolveResult::Failed(e), false),
                Ok(()) => (ArpResolveResult::Pending, false),
            }
        },
        Some((ArpState::Stale, _)) => {
            cache.mark_used(ifindex, target_ip, now);
            proof {
                let i = arp_index(s, key)->0 as int;
                let s1 = cache.spec_entries();
                lemma_arp_index_at(s1, key, i);
            }
            match cache.add_pending_packet(ifindex, target_ip, packet) {
                Err(e) => (ArpResolveResult::Failed(e), false),
                Ok(()) => (ArpResolveResult::Pending, false),
            }
        },
        Some((ArpState::NoMapping, _)) => {
            cache.update_arp(ifindex, target_ip, zero, ArpState::Incomplete, now);
            match cache.add_pending_packet(ifindex, target_ip, packet) {
                Err(e) => (ArpResolveResult::Failed(e), false),
                Ok(()) => (ArpResolveResult::Pending, true),
            }
        },
        None => {
            cache.update_arp(ifindex, target_ip, zero, ArpState::NoMapping, now);
            cache.update_arp(ifindex, target_ip, zero, ArpState::Incomplete, now);
            match cache.add_pending_packet(ifindex, target_ip, packet) {
                Err(e) => (ArpResolveResult::Failed(e), false),
                Ok(()) => (ArpResolveResult::Pending, true),
            }
        },
    }
}

/// The Ethernet frame of an ARP request for `target_ip` from an interface
/// with `local_mac` and `local_ip`: a broadcast frame (type 0x0806) holding
/// a request with an unknown target hardware address.
pub fn arp_request_frame(local_mac: MacAddr, local_ip: Ipv4Addr, target_ip: Ipv4Addr) -> (r: Vec<u8>)
    ensures
        r@ == ethernet_frame_bytes(
            seq![0xffu8, 0xffu8, 0xffu8, 0xffu8, 0xffu8, 0xffu8],
            local_mac.bytes@,
            0x0806,
            ArpPacket {
                hardware_type: 1,
                protocol_type: 0x0800,
                hardware_addr_len: 6,
                protocol_addr_len: 4,
                operation: ArpOperation::Request,
                sender_hardware_addr: local_mac,
                sender_protocol_addr: local_ip,
                target_hardware_addr: unresolved_mac(),
                target_protocol_addr: target_ip,
            }.wire(),
        ),
{
    let zero = MacAddr { bytes: [0u8, 0u8, 0u8, 0u8, 0u8, 0u8] };
    let request = ArpPacket::new(ArpOperation::Request, local_mac, local_ip, zero, target_ip);
    let broadcast = MacAddr { bytes: [0xffu8, 0xffu8, 0xffu8, 0xffu8, 0xffu8, 0xffu8] };
    let payload = request.to_bytes();
    let r = build_ethernet_frame(broadcast, local_mac, 0x0806, payload.as_slice());
    assert(broadcast.bytes@ =~= seq![0xffu8, 0xffu8, 0xffu8, 0xffu8, 0xffu8, 0xffu8]);
    r
}

/// The frames that handling an ARP message on an interface with
/// `local_mac` gives: each released packet in an IPv4 frame to
/// `target_mac` (the resolved sender), and the reply, if any, in an ARP
/// frame to `eth_src` (the sender of the received frame).
pub fn arp_output(handled: &ArpHandleResult, eth_src: MacAddr, local_mac: MacAddr, target_mac: MacAddr) -> (r: (
    Vec<Vec<u8>>,
    ArpProcessResult,
))
    ensures
        r.0@.len() == handled.pending_packets@.len(),
        forall|i: int| 0 <= i < r.0@.len() ==> (#[trigger] r.0@[i])@ == ethernet_frame_bytes(
            target_mac.bytes@,
            local_mac.bytes@,
            0x0800,
            handled.pending_packets@[i]@,
        ),
        match handled.reply {
            Some(reply) => r.1 matches ArpProcessResult::Reply(f) && f@ == ethernet_frame_bytes(
                eth_src.bytes@,
                local_mac.bytes@,
                0x0806,
                reply.wire(),
            ),
            None => r.1 is NoReply,
        },
{
    let mut frames: Vec<Vec<u8>> = Vec::new();
    let mut i: usize = 0;
    while i < handled.pending_packets.len()
        invariant
            i <= handled.pending_packets@.len(),
            frames@.len() == i,
            forall|j: int| 0 <= j < i ==> (#[trigger] frames@[j])@ == ethernet_frame_bytes(
                target_mac.bytes@,
                local_mac.bytes@,
                0x0800,
                handled.pending_packets@[j]@,
            ),
        decreases handled.pending_packets@.len() - i,
    {
        let frame = build_ethernet_frame(target_mac, local_mac, 0x0800, handled.pending_packets[i].as_slice());
        frames.push(frame);
        i = i + 1;
    }
    let result = match &handled.reply {
        Some(reply) => {
            let payload = reply.to_bytes();
            ArpProcessResult::Reply(build_ethernet_frame(eth_src, local_mac, 0x0806, payload.as_slice()))
        },
        None => ArpProcessResult::NoReply,
    };
    (frames, result)
}

} // verus!
