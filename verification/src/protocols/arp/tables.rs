use vstd::prelude::*;
use std::collections::VecDeque;
use crate::common::error::CoreError;
use crate::protocols::common::addr::{Ipv4Addr, MacAddr};
use crate::protocols::common::packet::Packet;
use crate::protocols::ip::fragment::elapsed_ms;

verus! {

/// States of an ARP cache entry.
#[derive(Debug, Clone, Copy, PartialEq, Eq, Structural)]
pub enum ArpState {
    /// No mapping.
    NoMapping,
    /// Waiting for a reply.
    Incomplete,
    /// Usable.
    Reachable,
    /// Possibly out of date.
    Stale,
    /// Waiting before probing.
    Delay,
    /// Probing.
    Probe,
}

/// What aging one entry did.
#[derive(Debug, Clone, Copy, PartialEq, Eq, Structural)]
pub enum AgeResult {
    NoChange,
    /// A request is due (a first resolution when `was_incomplete`, else a probe).
    SendRequest { was_incomplete: bool },
    /// The entry ran out of retries and was removed.
    EntryDeleted,
    /// The entry went from Reachable to Stale.
    ToStale,
    /// The entry went from Delay to Probe.
    ToProbe,
}

/// ARP settings.
#[derive(Debug, Clone, Copy, PartialEq, Eq, Structural)]
pub struct ArpConfig {
    /// Seconds between requests of an unresolved entry.
    pub retrans_timeout: u64,
    /// Seconds a confirmation stays fresh.
    pub aging_timeout: u64,
    /// Seconds in Delay before probing.
    pub delay_timeout: u64,
    /// Seconds between probes.
    pub probe_timeout: u64,
    pub max_retries: u32,
    pub max_entries: usize,
    pub enable_gratuitous: bool,
    /// Most packets queued per entry.
    pub max_pending_packets: usize,
}

impl Default for ArpConfig {
    fn default() -> (r: Self)
        ensures
            r == (ArpConfig {
                retrans_timeout: 1,
                aging_timeout: 30,
                delay_timeout: 5,
                probe_timeout: 1,
                max_retries: 3,
                max_entries: 512,
                enable_gratuitous: true,
                max_pending_packets: 100,
            }),
    {
        ArpConfig {
            retrans_timeout: 1,
            aging_timeout: 30,
            delay_timeout: 5,
            probe_timeout: 1,
            max_retries: 3,
            max_entries: 512,
            enable_gratuitous: true,
            max_pending_packets: 100,
        }
    }
}

/// Whole seconds from `since` to `now`, both in milliseconds.
pub open spec fn secs_since(now: u64, since: u64) -> int {
    elapsed_ms(now, since) / 1000
}

/// Computes `secs_since`.
pub fn seconds_since(now: u64, since: u64) -> (r: u64)
    ensures
        r == secs_since(now, since),
{
    if now >= since { (now - since) / 1000 } else { 0 }
}

/// The contents of an ARP entry.
pub struct ArpEntryModel {
    pub ifindex: u32,
    pub proto_addr: Ipv4Addr,
    pub hardware_addr: MacAddr,
    pub state: ArpState,
    pub created_at: u64,
    pub updated_at: u64,
    pub confirmed_at: u64,
    pub pending: Seq<Packet>,
    pub retry_count: u32,
}

/// An entry after `update(mac, state)` at `now`.
pub open spec fn entry_updated(e: ArpEntryModel, mac: MacAddr, state: ArpState, now: u64) -> ArpEntryModel {
    ArpEntryModel {
        hardware_addr: mac,
        state,
        updated_at: now,
        confirmed_at: if state == ArpState::Reachable { now } else { e.confirmed_at },
        retry_count: if e.state != state { 0 } else { e.retry_count },
        ..e
    }
}

/// A new entry created at `now`, in state None with no queued packet.
pub open spec fn entry_fresh(ifindex: u32, ip: Ipv4Addr, mac: MacAddr, now: u64) -> ArpEntryModel {
    ArpEntryModel {
        ifindex,
        proto_addr: ip,
        hardware_addr: mac,
        state: ArpState::NoMapping,
        created_at: now,
        updated_at: now,
        confirmed_at: now,
        pending: Seq::empty(),
        retry_count: 0,
    }
}

/// One ARP cache entry.
#[derive(Debug, Clone)]
pub struct ArpEntry {
    pub ifindex: u32,
    pub proto_addr: Ipv4Addr,
    pub hardware_addr: MacAddr,
    pub state: ArpState,
    /// Milliseconds.
    pub created_at: u64,
    /// Milliseconds.
    pub updated_at: u64,
    /// Milliseconds.
    pub confirmed_at: u64,
    /// Packets waiting for the resolution.
    pub pending_packets: VecDeque<Packet>,
    pub retry_count: u32,
}

impl ArpEntry {
    /// The entry's contents.
    pub open spec fn model(&self) -> ArpEntryModel {
        ArpEntryModel {
            ifindex: self.ifindex,
            proto_addr: self.proto_addr,
            hardware_addr: self.hardware_addr,
            state: self.state,
            created_at: self.created_at,
            updated_at: self.updated_at,
            confirmed_at: self.confirmed_at,
            pending: self.pending_packets@,
            retry_count: self.retry_count,
        }
    }

    /// A new entry created at `now` (milliseconds), in state None.
    pub fn new(ifindex: u32, proto_addr: Ipv4Addr, hardware_addr: MacAddr, now: u64) -> (r: Self)
        ensures
            r.model() == entry_fresh(ifindex, proto_addr, hardware_addr, now),
    {
        let r = ArpEntry {
            ifindex,
            proto_addr,
            hardware_addr,
            state: ArpState::NoMapping,
            created_at: now,
            updated_at: now,
            confirmed_at: now,
            pending_packets: VecDeque::new(),
            retry_count: 0,
        };
        assert(r.model().pending =~= Seq::<Packet>::empty());
        r
    }

    /// Sets the hardware address and state at `now`; a Reachable state is a
    /// confirmation; a change of state resets the retry count.
    pub fn update(&mut self, hardware_addr: MacAddr, state: ArpState, now: u64)
        ensures
            final(self).model() == entry_updated(old(self).model(), hardware_addr, state, now),
    {
        let old_state = self.state;
        self.hardware_addr = hardware_addr;
        self.state = state;
        self.updated_at = now;
        if state == ArpState::Reachable {
            self.confirmed_at = now;
        }
        if old_state != state {
            self.retry_count = 0;
        }
    }

    /// Queues a packet; fails when `max_pending` are queued.
    pub fn add_pending(&mut self, packet: Packet, max_pending: usize) -> (r: Result<(), CoreError>)
        ensures
            old(self).pending_packets@.len() >= max_pending ==> (r matches Err(CoreError::InvalidPacket(_)))
                && final(self).model() == old(self).model(),
            old(self).pending_packets@.len() < max_pending ==> r is Ok && final(self).model()
                == (ArpEntryModel { pending: old(self).model().pending.push(packet), ..old(self).model() }),
    {
        if self.pending_packets.len() >= max_pending {
            return Err(CoreError::invalid_packet("等待队列已满"));
        }
        self.pending_packets.push_back(packet);
        Ok(())
    }

    /// Returns the queued packets, leaving the queue empty.
    pub fn take_pending(&mut self) -> (r: VecDeque<Packet>)
        ensures
            r@ == old(self).pending_packets@,
            final(self).model() == (ArpEntryModel { pending: Seq::empty(), ..old(self).model() }),
    {
        let mut taken: VecDeque<Packet> = VecDeque::new();
        std::mem::swap(&mut taken, &mut self.pending_packets);
        assert(self.model().pending =~= Seq::<Packet>::empty());
        taken
    }
}

/// Key of an ARP entry: interface index and IPv4 address.
pub type ArpKey = (u32, Ipv4Addr);

/// Whether two keys are the same interface and address.
pub open spec fn same_arp_key(a: ArpKey, b: ArpKey) -> bool {
    a.0 == b.0 && a.1.bytes@ == b.1.bytes@
}

/// Position of the entry for `key`.
pub open spec fn arp_index(s: Seq<(ArpKey, ArpEntryModel)>, key: ArpKey) -> Option<nat>
    decreases s.len(),
{
    if s.len() == 0 {
        None
    } else if same_arp_key(s[0].0, key) {
        Some(0)
    } else {
        match arp_index(s.drop_first(), key) {
            Some(i) => Some(i + 1),
            None => None,
        }
    }
}

/// No two entries have the same key.
pub open spec fn arp_keys_unique(s: Seq<(ArpKey, ArpEntryModel)>) -> bool {
    forall|i: int, j: int| 0 <= i < j < s.len() ==> !same_arp_key(#[trigger] s[i].0, #[trigger] s[j].0)
}

pub proof fn lemma_arp_index(s: Seq<(ArpKey, ArpEntryModel)>, key: ArpKey)
    ensures
        arp_index(s, key) matches Some(i) ==> i < s.len() && same_arp_key(s[i as int].0, key)
            && forall|j: int| 0 <= j < i ==> !same_arp_key((#[trigger] s[j]).0, key),
        arp_index(s, key) is None ==> forall|j: int| 0 <= j < s.len() ==> !same_arp_key((#[trigger] s[j]).0, key),
    decreases s.len(),
{
    if s.len() > 0 && !same_arp_key(s[0].0, key) {
        lemma_arp_index(s.drop_first(), key);
        assert forall|j: int| 0 < j < s.len() implies #[trigger] s[j] == s.drop_first()[j - 1] by {}
    }
}

pub proof fn lemma_arp_index_at(s: Seq<(ArpKey, ArpEntryModel)>, key: ArpKey, i: int)
    requires
        0 <= i < s.len(),
        same_arp_key(s[i].0, key),
        forall|j: int| 0 <= j < i ==> !same_arp_key((#[trigger] s[j]).0, key),
    ensures
        arp_index(s, key) == Some(i as nat),
{
    lemma_arp_index(s, key);
    match arp_index(s, key) {
        Some(k) => {
            if (k as int) < i { assert(!same_arp_key(s[k as int].0, key)); }
            if (k as int) > i { assert(!same_arp_key(s[i].0, key)); }
        },
        None => { assert(!same_arp_key(s[i].0, key)); },
    }
}

proof fn lemma_arp_absent(s: Seq<(ArpKey, ArpEntryModel)>, key: ArpKey)
    requires
        forall|j: int| 0 <= j < s.len() ==> !same_arp_key((#[trigger] s[j]).0, key),
    ensures
        arp_index(s, key) is None,
{
    lemma_arp_index(s, key);
    if let Some(k) = arp_index(s, key) {
        assert(!same_arp_key(s[k as int].0, key));
    }
}

/// Whether an entry may be evicted: not waiting on a reply or a probe.
pub open spec fn arp_evictable(e: ArpEntryModel) -> bool {
    !(e.state == ArpState::Incomplete || e.state == ArpState::Delay || e.state == ArpState::Probe)
}

/// Position of the first evictable entry with the earliest update time.
pub open spec fn oldest_evictable(s: Seq<(ArpKey, ArpEntryModel)>) -> Option<nat>
    decreases s.len(),
{
    if s.len() == 0 {
        None
    } else {
        let o = oldest_evictable(s.drop_last());
        if !arp_evictable(s.last().1) {
            o
        } else {
            match o {
                None => Some((s.len() - 1) as nat),
                Some(j) => if s.last().1.updated_at < s[j as int].1.updated_at { Some((s.len() - 1) as nat) } else { Some(j) },
            }
        }
    }
}

proof fn lemma_oldest_evictable(s: Seq<(ArpKey, ArpEntryModel)>)
    ensures
        oldest_evictable(s) matches Some(o) ==> o < s.len() && arp_evictable(s[o as int].1),
    decreases s.len(),
{
    if s.len() > 0 {
        lemma_oldest_evictable(s.drop_last());
    }
}

/// Whether an address is never cached: 0.0.0.0, 255.255.255.255, multicast.
pub open spec fn arp_special_ip(ip: Ipv4Addr) -> bool {
    ip.bytes@ == seq![0u8, 0, 0, 0] || ip.bytes@ == seq![255u8, 255, 255, 255] || (224 <= ip.bytes@[0] <= 239)
}

/// The entries after room is made for `key` in a cache holding at most `max`.
pub open spec fn arp_make_room(s: Seq<(ArpKey, ArpEntryModel)>, key: ArpKey, max: nat) -> Seq<(ArpKey, ArpEntryModel)> {
    if s.len() >= max && oldest_evictable(s) is Some && arp_index(s, key) is None {
        s.remove(oldest_evictable(s).unwrap() as int)
    } else {
        s
    }
}

/// The entries after `update_arp(key, mac, state)` at `now`.
pub open spec fn arp_after_update(s: Seq<(ArpKey, ArpEntryModel)>, key: ArpKey, mac: MacAddr, state: ArpState,
    now: u64, max: nat) -> Seq<(ArpKey, ArpEntryModel)> {
    if arp_special_ip(key.1) {
        s
    } else {
        let s1 = arp_make_room(s, key, max);
        match arp_index(s1, key) {
            Some(i) => s1.update(i as int, (s1[i as int].0, entry_updated(s1[i as int].1, mac, state, now))),
            None => s1.push((key, entry_updated(entry_fresh(key.0, key.1, mac, now), mac, state, now))),
        }
    }
}

/// The cache stays within its limit: updating a cache of at most `max`
/// entries leaves at most `max`, except when the address is new, the cache
/// is full and every entry is waiting on a reply or a probe (then nothing
/// can be evicted and the new entry is added all the same).
pub proof fn lemma_update_within_limit(s: Seq<(ArpKey, ArpEntryModel)>, key: ArpKey, mac: MacAddr, state: ArpState,
    now: u64, max: nat)
    requires
        s.len() <= max,
        !(arp_index(s, key) is None && s.len() >= max && oldest_evictable(s) is None),
    ensures
        arp_after_update(s, key, mac, state, now, max).len() <= max,
{
    lemma_arp_index(s, key);
    if !arp_special_ip(key.1) {
        if s.len() >= max && oldest_evictable(s) is Some && arp_index(s, key) is None {
            lemma_oldest_evictable(s);
            let o = oldest_evictable(s).unwrap() as int;
            let s1 = s.remove(o);
            assert forall|j: int| 0 <= j < s1.len() implies !same_arp_key((#[trigger] s1[j]).0, key) by {
                if j < o { assert(s1[j] == s[j]); } else { assert(s1[j] == s[j + 1]); }
            }
            lemma_arp_absent(s1, key);
            assert(arp_make_room(s, key, max) == s1);
            assert(arp_after_update(s, key, mac, state, now, max).len() == s1.len() + 1);
        } else {
            assert(arp_make_room(s, key, max) == s);
        }
    }
}

/// The ARP cache: entries keyed by interface and address.
pub struct ArpCache {
    keys: Vec<ArpKey>,
    values: Vec<ArpEntry>,
    config: ArpConfig,
}

impl ArpCache {
    /// The entries in the order they were added.
    pub closed spec fn spec_entries(&self) -> Seq<(ArpKey, ArpEntryModel)> {
        Seq::new(self.keys@.len(), |i: int| (self.keys@[i], self.values@[i].model()))
    }

    /// The settings.
    pub closed spec fn spec_config(&self) -> ArpConfig {
        self.config
    }

    /// Well-formedness: one entry per key.
    pub closed spec fn wf(&self) -> bool {
        &&& self.keys@.len() == self.values@.len()
        &&& forall|i: int, j: int| 0 <= i < j < self.keys@.len()
            ==> !same_arp_key(#[trigger] self.keys@[i], #[trigger] self.keys@[j])
    }

    /// A well-formed cache has one entry per key.
    pub proof fn lemma_wf_unique(&self)
        requires
            self.wf(),
        ensures
            arp_keys_unique(self.spec_entries()),
    {
        let t = self.spec_entries();
        assert forall|a: int, b: int| 0 <= a < b < t.len() implies !same_arp_key(#[trigger] t[a].0, #[trigger] t[b].0) by {
            assert(t[a].0 == self.keys@[a] && t[b].0 == self.keys@[b]);
        }
    }

    /// An empty cache with these settings.
    pub fn new(config: ArpConfig) -> (r: Self)
        ensures
            r.wf(),
            r.spec_entries().len() == 0,
            r.spec_config() == config,
    {
        let r = ArpCache { keys: Vec::new(), values: Vec::new(), config };
        assert(r.spec_entries() =~= Seq::<(ArpKey, ArpEntryModel)>::empty());
        r
    }

    /// The settings.
    pub fn config(&self) -> (r: &ArpConfig)
        ensures
            *r == self.spec_config(),
    {
        &self.config
    }

    /// Position of the entry for `key`.
    fn find(&self, key: &ArpKey) -> (r: Option<usize>)
        requires
            self.wf(),
        ensures
            r matches Some(i) ==> arp_index(self.spec_entries(), *key) == Some(i as nat) && i < self.spec_entries().len(),
            r is None ==> arp_index(self.spec_entries(), *key) is None,
    {
        let ghost s = self.spec_entries();
        let mut i: usize = 0;
        while i < self.keys.len()
            invariant
                i <= s.len(),
                self.wf(),
                s == self.spec_entries(),
                forall|j: int| 0 <= j < i ==> !same_arp_key((#[trigger] s[j]).0, *key),
            decreases s.len() - i,
        {
            let k = self.keys[i];
            assert(s[i as int].0 == k);
            if k.0 == key.0 && k.1.equals(&key.1) {
                proof { lemma_arp_index_at(s, *key, i as int); }
                return Some(i);
            }
            i = i + 1;
        }
        proof { lemma_arp_absent(s, *key); }
        None
    }

    /// The entry for this interface and address.
    pub fn lookup_arp(&self, ifindex: u32, ip_addr: Ipv4Addr) -> (r: Option<&ArpEntry>)
        requires
            self.wf(),
        ensures
            match arp_index(self.spec_entries(), (ifindex, ip_addr)) {
                Some(i) => r matches Some(e) && e.model() == self.spec_entries()[i as int].1,
                None => r is None,
            },
    {
        self.lookup(&(ifindex, ip_addr))
    }

    /// The entry for `key`.
    pub fn lookup(&self, key: &ArpKey) -> (r: Option<&ArpEntry>)
        requires
            self.wf(),
        ensures
            match arp_index(self.spec_entries(), *key) {
                Some(i) => r matches Some(e) && e.model() == self.spec_entries()[i as int].1,
                None => r is None,
            },
    {
        match self.find(key) {
            Some(i) => Some(&self.values[i]),
            None => None,
        }
    }

    /// Removes and returns the entry for this interface and address.
    pub fn remove_arp(&mut self, ifindex: u32, ip_addr: Ipv4Addr) -> (r: Option<ArpEntry>)
        requires
            old(self).wf(),
        ensures
            final(self).wf(),
            final(self).spec_config() == old(self).spec_config(),
            match arp_index(old(self).spec_entries(), (ifindex, ip_addr)) {
                Some(i) => (r matches Some(e) && e.model() == old(self).spec_entries()[i as int].1)
                    && final(self).spec_entries() == old(self).spec_entries().remove(i as int),
                None => r is None && final(self).spec_entries() == old(self).spec_entries(),
            },
    {
        self.remove(&(ifindex, ip_addr))
    }

    /// Removes and returns the entry for `key`.
    pub fn remove(&mut self, key: &ArpKey) -> (r: Option<ArpEntry>)
        requires
            old(self).wf(),
        ensures
            final(self).wf(),
            final(self).spec_config() == old(self).spec_config(),
            match arp_index(old(self).spec_entries(), *key) {
                Some(i) => (r matches Some(e) && e.model() == old(self).spec_entries()[i as int].1)
                    && final(self).spec_entries() == old(self).spec_entries().remove(i as int),
                None => r is None && final(self).spec_entries() == old(self).spec_entries(),
            },
    {
        match self.find(key) {
            Some(i) => {
                let ghost s = self.spec_entries();
                self.keys.remove(i);
                let e = self.values.remove(i);
                proof { self.lemma_removed(s, i as int); }
                Some(e)
            },
            None => None,
        }
    }

    proof fn lemma_removed(&self, s: Seq<(ArpKey, ArpEntryModel)>, i: int)
        requires
            0 <= i < s.len(),
            arp_keys_unique(s),
            self.keys@.len() + 1 == s.len(),
            self.values@.len() + 1 == s.len(),
            forall|j: int| 0 <= j < i ==> s[j] == (#[trigger] self.keys@[j], self.values@[j].model()),
            forall|j: int| i <= j < self.keys@.len() ==> s[j + 1] == (#[trigger] self.keys@[j], self.values@[j].model()),
        ensures
            self.spec_entries() == s.remove(i),
            self.wf(),
    {
        assert(self.spec_entries() =~= s.remove(i));
        let k = self.keys@;
        assert forall|a: int, b: int| 0 <= a < b < k.len() implies !same_arp_key(#[trigger] k[a], #[trigger] k[b]) by {
            let a2 = if a < i { a } else { a + 1 };
            let b2 = if b < i { b } else { b + 1 };
            assert(k[a] == s[a2].0 && k[b] == s[b2].0);
        }
    }

    /// Puts `value` under `key`, returning the entry it replaces.
    pub fn insert(&mut self, key: ArpKey, value: ArpEntry) -> (r: Option<ArpEntry>)
        requires
            old(self).wf(),
        ensures
            final(self).wf(),
            final(self).spec_config() == old(self).spec_config(),
            match arp_index(old(self).spec_entries(), key) {
                Some(i) => (r matches Some(e) && e.model() == old(self).spec_entries()[i as int].1)
                    && final(self).spec_entries() == old(self).spec_entries().update(i as int,
                        (old(self).spec_entries()[i as int].0, value.model())),
                None => r is None && final(self).spec_entries() == old(self).spec_entries().push((key, value.model())),
            },
    {
        let ghost s = self.spec_entries();
        let ghost vm = value.model();
        proof { lemma_arp_index(s, key); }
        match self.find(&key) {
            Some(i) => {
                let mut v = value;
                std::mem::swap(&mut v, &mut self.values[i]);
                assert(self.spec_entries() =~= s.update(i as int, (s[i as int].0, vm)));
                Some(v)
            },
            None => {
                self.keys.push(key);
                self.values.push(value);
                assert(self.spec_entries() =~= s.push((key, vm)));
                let ghost k = self.keys@;
                assert forall|a: int, b: int| 0 <= a < b < k.len() implies !same_arp_key(#[trigger] k[a], #[trigger] k[b]) by {
                    if b < s.len() {
                        assert(k[a] == s[a].0 && k[b] == s[b].0);
                    } else {
                        assert(k[a] == s[a].0);
                        assert(!same_arp_key(s[a].0, key));
                    }
                }
                None
            },
        }
    }

    /// Removes every entry.
    pub fn clear(&mut self)
        requires
            old(self).wf(),
        ensures
            final(self).wf(),
            final(self).spec_entries().len() == 0,
            final(self).spec_config() == old(self).spec_config(),
    {
        self.keys.clear();
        self.values.clear();
        assert(self.spec_entries() =~= Seq::<(ArpKey, ArpEntryModel)>::empty());
    }

    /// Number of entries.
    pub fn len(&self) -> (r: usize)
        requires
            self.wf(),
        ensures
            r == self.spec_entries().len(),
    {
        self.keys.len()
    }

    /// Whether the cache holds no entry.
    pub fn is_empty(&self) -> (r: bool)
        requires
            self.wf(),
        ensures
            r == (self.spec_entries().len() == 0),
    {
        self.keys.len() == 0
    }
}

impl Default for ArpCache {
    fn default() -> (r: Self)
        ensures
            r.wf(),
            r.spec_entries().len() == 0,
            r.spec_config() == (ArpConfig {
                retrans_timeout: 1,
                aging_timeout: 30,
                delay_timeout: 5,
                probe_timeout: 1,
                max_retries: 3,
                max_entries: 512,
                enable_gratuitous: true,
                max_pending_packets: 100,
            }),
    {
        Self::new(ArpConfig::default())
    }
}

impl ArpCache {
    /// The entry for `key`, to change in place.
    pub fn lookup_mut(&mut self, key: &ArpKey) -> (r: Option<&mut ArpEntry>)
        requires
            old(self).wf(),
        ensures
            match arp_index(old(self).spec_entries(), *key) {
                Some(i) => r matches Some(e) && e.model() == old(self).spec_entries()[i as int].1
                    && final(self).spec_config() == old(self).spec_config()
                    && final(self).spec_entries() =~= old(self).spec_entries().update(i as int,
                        (old(self).spec_entries()[i as int].0, final(e).model()))
                    && final(self).wf(),
                None => r is None && final(self).wf() && final(self).spec_config() == old(self).spec_config()
                    && final(self).spec_entries() == old(self).spec_entries(),
            },
    {
        match self.find(key) {
            Some(i) => Some(&mut self.values[i]),
            None => None,
        }
    }
}

impl ArpCache {
    /// The entry for this interface and address, to change in place.
    pub fn lookup_mut_arp(&mut self, ifindex: u32, ip_addr: Ipv4Addr) -> (r: Option<&mut ArpEntry>)
        requires
            old(self).wf(),
        ensures
            match arp_index(old(self).spec_entries(), (ifindex, ip_addr)) {
                Some(i) => r matches Some(e) && e.model() == old(self).spec_entries()[i as int].1
                    && final(self).spec_config() == old(self).spec_config()
                    && final(self).spec_entries() =~= old(self).spec_entries().update(i as int,
                        (old(self).spec_entries()[i as int].0, final(e).model()))
                    && final(self).wf(),
                None => r is None && final(self).wf() && final(self).spec_config() == old(self).spec_config()
                    && final(self).spec_entries() == old(self).spec_entries(),
            },
    {
        match self.find(&(ifindex, ip_addr)) {
            Some(i) => Some(&mut self.values[i]),
            None => None,
        }
    }

    /// Marks a Stale entry as used at `now`: it goes to Delay.
    pub fn mark_used(&mut self, ifindex: u32, ip_addr: Ipv4Addr, now: u64) -> (r: bool)
        requires
            old(self).wf(),
        ensures
            final(self).wf(),
            final(self).spec_config() == old(self).spec_config(),
            match arp_index(old(self).spec_entries(), (ifindex, ip_addr)) {
                Some(i) => {
                    let e = old(self).spec_entries()[i as int].1;
                    &&& e.state == ArpState::Stale ==> r && final(self).spec_entries() == old(self).spec_entries().update(
                        i as int, (old(self).spec_entries()[i as int].0,
                        ArpEntryModel { state: ArpState::Delay, updated_at: now, ..e }))
                    &&& e.state != ArpState::Stale ==> !r && final(self).spec_entries() == old(self).spec_entries()
                },
                None => !r && final(self).spec_entries() == old(self).spec_entries(),
            },
    {
        let ghost s = self.spec_entries();
        match self.find(&(ifindex, ip_addr)) {
            Some(i) => {
                if self.values[i].state == ArpState::Stale {
                    let e = &mut self.values[i];
                    e.state = ArpState::Delay;
                    e.updated_at = now;
                    assert(self.spec_entries() =~= s.update(i as int, (s[i as int].0,
                        ArpEntryModel { state: ArpState::Delay, updated_at: now, ..s[i as int].1 })));
                    true
                } else {
                    false
                }
            },
            None => false,
        }
    }
}

/// Aging one entry at `now`: the entry afterwards (`None` when it is
/// removed) and what happened.
pub open spec fn age_step(e: ArpEntryModel, c: ArpConfig, now: u64) -> (Option<ArpEntryModel>, AgeResult) {
    match e.state {
        ArpState::Reachable => if secs_since(now, e.confirmed_at) >= c.aging_timeout {
            (Some(ArpEntryModel { state: ArpState::Stale, ..e }), AgeResult::ToStale)
        } else {
            (Some(e), AgeResult::NoChange)
        },
        ArpState::Delay => if secs_since(now, e.updated_at) >= c.delay_timeout {
            (Some(ArpEntryModel { state: ArpState::Probe, retry_count: 0, updated_at: now, ..e }), AgeResult::ToProbe)
        } else {
            (Some(e), AgeResult::NoChange)
        },
        ArpState::Probe => if secs_since(now, e.updated_at) >= c.probe_timeout {
            if e.retry_count >= c.max_retries {
                (None, AgeResult::EntryDeleted)
            } else {
                (Some(ArpEntryModel { retry_count: (e.retry_count + 1) as u32, updated_at: now, ..e }),
                    AgeResult::SendRequest { was_incomplete: false })
            }
        } else {
            (Some(e), AgeResult::NoChange)
        },
        ArpState::Incomplete => if secs_since(now, e.updated_at) >= c.retrans_timeout {
            if e.retry_count >= c.max_retries {
                (None, AgeResult::EntryDeleted)
            } else {
                (Some(ArpEntryModel { retry_count: (e.retry_count + 1) as u32, updated_at: now, ..e }),
                    AgeResult::SendRequest { was_incomplete: true })
            }
        } else {
            (Some(e), AgeResult::NoChange)
        },
        _ => (Some(e), AgeResult::NoChange),
    }
}

/// The entries after aging the one for `key`, and what happened.
pub open spec fn arp_after_age(s: Seq<(ArpKey, ArpEntryModel)>, key: ArpKey, c: ArpConfig, now: u64)
    -> (Seq<(ArpKey, ArpEntryModel)>, AgeResult) {
    match arp_index(s, key) {
        None => (s, AgeResult::NoChange),
        Some(i) => match age_step(s[i as int].1, c, now) {
            (Some(e2), res) => (s.update(i as int, (s[i as int].0, e2)), res),
            (None, res) => (s.remove(i as int), res),
        },
    }
}

/// Reachability expires: aging the Reachable entry for `key` at a time at
/// least `aging_timeout` seconds after its last confirmation reports
/// `ToStale` and leaves the entry in place, Stale, with the same key,
/// hardware address and times; every other entry is untouched. Earlier
/// than that (but not before the confirmation) the entry stays as it is
/// and nothing is reported.
pub proof fn lemma_reachable_goes_stale(s: Seq<(ArpKey, ArpEntryModel)>, key: ArpKey, c: ArpConfig, now: u64, i: int)
    requires
        0 <= i,
        arp_index(s, key) == Some(i as nat),
        s[i].1.state == ArpState::Reachable,
    ensures
        ({
            let (s2, r) = arp_after_age(s, key, c, now);
            &&& now >= s[i].1.confirmed_at && now - s[i].1.confirmed_at >= c.aging_timeout * 1000 ==> {
                &&& r == AgeResult::ToStale
                &&& s2.len() == s.len()
                &&& s2[i].0 == s[i].0
                &&& s2[i].1.state == ArpState::Stale
                &&& s2[i].1.hardware_addr == s[i].1.hardware_addr
                &&& s2[i].1.confirmed_at == s[i].1.confirmed_at
                &&& s2[i].1.updated_at == s[i].1.updated_at
                &&& forall|j: int| 0 <= j < s.len() && j != i ==> s2[j] == s[j]
            }
            &&& now >= s[i].1.confirmed_at && now - s[i].1.confirmed_at < c.aging_timeout * 1000 ==> {
                &&& r == AgeResult::NoChange
                &&& s2 == s
            }
        }),
{
    lemma_arp_index(s, key);
    let e = s[i].1;
    let el = elapsed_ms(now, e.confirmed_at);
    if now >= e.confirmed_at && now - e.confirmed_at >= c.aging_timeout * 1000 {
        assert(el / 1000 >= c.aging_timeout) by (nonlinear_arith)
            requires
                el >= c.aging_timeout * 1000,
        ;
    } else if now >= e.confirmed_at {
        assert(el / 1000 < c.aging_timeout) by (nonlinear_arith)
            requires
                el < c.aging_timeout * 1000,
                el >= 0,
        ;
        assert(s.update(i, (s[i].0, e)) =~= s);
    }
}

/// The entries after aging those for `ks` in turn, and the requests due:
/// (interface, address, whether it is a probe).
pub open spec fn arp_age_all(s: Seq<(ArpKey, ArpEntryModel)>, ks: Seq<ArpKey>, c: ArpConfig, now: u64)
    -> (Seq<(ArpKey, ArpEntryModel)>, Seq<(u32, Ipv4Addr, bool)>)
    decreases ks.len(),
{
    if ks.len() == 0 {
        (s, Seq::empty())
    } else {
        let prev = arp_age_all(s, ks.drop_last(), c, now);
        let k = ks.last();
        let step = arp_after_age(prev.0, k, c, now);
        (step.0, match step.1 {
            AgeResult::SendRequest { was_incomplete } => prev.1.push((k.0, k.1, !was_incomplete)),
            _ => prev.1,
        })
    }
}

/// The entries after `cleanup` at `now`: entries in state NoMapping created
/// at least `aging_timeout` seconds ago go.
pub open spec fn arp_after_cleanup(s: Seq<(ArpKey, ArpEntryModel)>, c: ArpConfig, now: u64) -> Seq<(ArpKey, ArpEntryModel)> {
    s.filter(|p: (ArpKey, ArpEntryModel)| !(p.1.state == ArpState::NoMapping
        && secs_since(now, p.1.created_at) >= c.aging_timeout))
}

impl ArpCache {
    /// Removes the entry at `i`.
    fn remove_at(&mut self, i: usize) -> (r: ArpEntry)
        requires
            old(self).wf(),
            i < old(self).spec_entries().len(),
        ensures
            final(self).wf(),
            final(self).spec_config() == old(self).spec_config(),
            final(self).spec_entries() == old(self).spec_entries().remove(i as int),
            r.model() == old(self).spec_entries()[i as int].1,
    {
        let ghost s = self.spec_entries();
        self.keys.remove(i);
        let e = self.values.remove(i);
        proof { self.lemma_removed(s, i as int); }
        e
    }

    /// Ages the entry for `key` at `now` (see `age_step`).
    pub fn age_entry(&mut self, key: &ArpKey, now: u64) -> (r: AgeResult)
        requires
            old(self).wf(),
        ensures
            final(self).wf(),
            final(self).spec_config() == old(self).spec_config(),
            (final(self).spec_entries(), r) == arp_after_age(old(self).spec_entries(), *key, old(self).spec_config(), now),
    {
        let ghost s = self.spec_entries();
        let i = match self.find(key) {
            Some(i) => i,
            None => {
                return AgeResult::NoChange;
            },
        };
        let c = self.config;
        let state = self.values[i].state;
        let ghost e = s[i as int].1;
        match state {
            ArpState::Reachable => {
                if seconds_since(now, self.values[i].confirmed_at) >= c.aging_timeout {
                    let v = &mut self.values[i];
                    v.state = ArpState::Stale;
                    assert(self.spec_entries() =~= s.update(i as int, (s[i as int].0, ArpEntryModel { state: ArpState::Stale, ..e })));
                    AgeResult::ToStale
                } else {
                    AgeResult::NoChange
                }
            },
            ArpState::Delay => {
                if seconds_since(now, self.values[i].updated_at) >= c.delay_timeout {
                    let v = &mut self.values[i];
                    v.state = ArpState::Probe;
                    v.retry_count = 0;
                    v.updated_at = now;
                    assert(self.spec_entries() =~= s.update(i as int, (s[i as int].0,
                        ArpEntryModel { state: ArpState::Probe, retry_count: 0, updated_at: now, ..e })));
                    AgeResult::ToProbe
                } else {
                    AgeResult::NoChange
                }
            },
            ArpState::Probe | ArpState::Incomplete => {
                let timeout = if state == ArpState::Probe { c.probe_timeout } else { c.retrans_timeout };
                if seconds_since(now, self.values[i].updated_at) >= timeout {
                    if self.values[i].retry_count >= c.max_retries {
                        self.remove_at(i);
                        AgeResult::EntryDeleted
                    } else {
                        let v = &mut self.values[i];
                        v.retry_count = v.retry_count + 1;
                        v.updated_at = now;
                        assert(self.spec_entries() =~= s.update(i as int, (s[i as int].0,
                            ArpEntryModel { retry_count: (e.retry_count + 1) as u32, updated_at: now, ..e })));
                        AgeResult::SendRequest { was_incomplete: state == ArpState::Incomplete }
                    }
                } else {
                    AgeResult::NoChange
                }
            },
            _ => AgeResult::NoChange,
        }
    }

    /// Ages every entry at `now`, in the order they were added, and lists
    /// the requests due: (interface, address, whether it is a probe).
    pub fn get_pending_requests(&mut self, now: u64) -> (r: Vec<(u32, Ipv4Addr, bool)>)
        requires
            old(self).wf(),
        ensures
            final(self).wf(),
            final(self).spec_config() == old(self).spec_config(),
            ({
                let res = arp_age_all(old(self).spec_entries(), old(self).spec_entries().map_values(
                    |p: (ArpKey, ArpEntryModel)| p.0), old(self).spec_config(), now);
                &&& final(self).spec_entries() == res.0
                &&& r@ == res.1
            }),
    {
        let ghost s0 = self.spec_entries();
        let ghost ks0 = s0.map_values(|p: (ArpKey, ArpEntryModel)| p.0);
        let mut keys: Vec<ArpKey> = Vec::new();
        let mut j: usize = 0;
        while j < self.keys.len()
            invariant
                j <= self.keys@.len(),
                self.wf(),
                self.spec_entries() == s0,
                ks0 == s0.map_values(|p: (ArpKey, ArpEntryModel)| p.0),
                keys@ == ks0.take(j as int),
            decreases self.keys@.len() - j,
        {
            keys.push(self.keys[j]);
            assert(keys@ =~= ks0.take(j + 1));
            j = j + 1;
        }
        assert(keys@ =~= ks0);
        let mut pending: Vec<(u32, Ipv4Addr, bool)> = Vec::new();
        let mut k: usize = 0;
        assert(ks0.take(0) =~= Seq::<ArpKey>::empty());
        while k < keys.len()
            invariant
                k <= keys@.len(),
                keys@ == ks0,
                self.wf(),
                self.spec_config() == old(self).spec_config(),
                (self.spec_entries(), pending@) == arp_age_all(s0, ks0.take(k as int), old(self).spec_config(), now),
            decreases keys@.len() - k,
        {
            let key = keys[k];
            assert(ks0.take(k + 1).drop_last() =~= ks0.take(k as int));
            match self.age_entry(&key, now) {
                AgeResult::SendRequest { was_incomplete } => {
                    pending.push((key.0, key.1, !was_incomplete));
                },
                _ => {},
            }
            k = k + 1;
        }
        assert(ks0.take(k as int) =~= ks0);
        pending
    }

    /// Queues a packet on the entry for this interface and address; only
    /// entries in Incomplete, Delay or Probe take packets, up to the
    /// configured number.
    pub fn add_pending_packet(&mut self, ifindex: u32, ip_addr: Ipv4Addr, packet: Packet) -> (r: Result<(), CoreError>)
        requires
            old(self).wf(),
        ensures
            final(self).wf(),
            final(self).spec_config() == old(self).spec_config(),
            match arp_index(old(self).spec_entries(), (ifindex, ip_addr)) {
                None => (r matches Err(CoreError::InvalidPacket(_))) && final(self).spec_entries() == old(self).spec_entries(),
                Some(i) => {
                    let e = old(self).spec_entries()[i as int].1;
                    let queueable = e.state == ArpState::Incomplete || e.state == ArpState::Delay || e.state == ArpState::Probe;
                    &&& (!queueable || e.pending.len() >= old(self).spec_config().max_pending_packets)
                        ==> (r matches Err(CoreError::InvalidPacket(_))) && final(self).spec_entries() == old(self).spec_entries()
                    &&& (queueable && e.pending.len() < old(self).spec_config().max_pending_packets) ==> r is Ok
                        && final(self).spec_entries() == old(self).spec_entries().update(i as int,
                            (old(self).spec_entries()[i as int].0, ArpEntryModel { pending: e.pending.push(packet), ..e }))
                },
            },
    {
        let ghost s = self.spec_entries();
        match self.find(&(ifindex, ip_addr)) {
            Some(i) => {
                let st = self.values[i].state;
                if st == ArpState::Incomplete || st == ArpState::Delay || st == ArpState::Probe {
                    let max = self.config.max_pending_packets;
                    let v = &mut self.values[i];
                    let r = v.add_pending(packet, max);
                    assert(self.spec_entries() =~= s.update(i as int, (s[i as int].0, self.values@[i as int].model())));
                    r
                } else {
                    Err(CoreError::invalid_packet("ARP条目状态不支持等待队列"))
                }
            },
            None => Err(CoreError::invalid_packet("ARP条目不存在")),
        }
    }

    /// Empties the queue of the entry for this interface and address and
    /// returns how many packets it held (0 when there is no entry).
    pub fn take_pending_packets(&mut self, ifindex: u32, ip_addr: Ipv4Addr) -> (r: usize)
        requires
            old(self).wf(),
        ensures
            final(self).wf(),
            final(self).spec_config() == old(self).spec_config(),
            match arp_index(old(self).spec_entries(), (ifindex, ip_addr)) {
                None => r == 0 && final(self).spec_entries() == old(self).spec_entries(),
                Some(i) => r == old(self).spec_entries()[i as int].1.pending.len()
                    && final(self).spec_entries() == old(self).spec_entries().update(i as int,
                        (old(self).spec_entries()[i as int].0,
                        ArpEntryModel { pending: Seq::empty(), ..old(self).spec_entries()[i as int].1 })),
            },
    {
        let ghost s = self.spec_entries();
        match self.find(&(ifindex, ip_addr)) {
            Some(i) => {
                let v = &mut self.values[i];
                let taken = v.take_pending();
                assert(self.spec_entries() =~= s.update(i as int, (s[i as int].0,
                    ArpEntryModel { pending: Seq::empty(), ..s[i as int].1 })));
                taken.len()
            },
            None => 0,
        }
    }

    /// Removes the entries still in state NoMapping that were created at
    /// least `aging_timeout` seconds before `now`.
    pub fn cleanup(&mut self, now: u64)
        requires
            old(self).wf(),
        ensures
            final(self).wf(),
            final(self).spec_config() == old(self).spec_config(),
            final(self).spec_entries() == arp_after_cleanup(old(self).spec_entries(), old(self).spec_config(), now),
    {
        let ghost m = self.spec_entries();
        let ghost c = self.config;
        let ghost keep = |p: (ArpKey, ArpEntryModel)| !(p.1.state == ArpState::NoMapping
            && secs_since(now, p.1.created_at) >= c.aging_timeout);
        let mut i: usize = 0;
        let mut j: usize = 0;
        let _n = self.keys.len();
        assert(m.take(0).filter(keep) + m.skip(0) =~= m);
        while i < self.keys.len()
            invariant
                j <= m.len(),
                m.len() <= usize::MAX,
                i == m.take(j as int).filter(keep).len(),
                self.spec_entries() == m.take(j as int).filter(keep) + m.skip(j as int),
                self.wf(),
                self.config == c,
                keep == (|p: (ArpKey, ArpEntryModel)| !(p.1.state == ArpState::NoMapping
                    && secs_since(now, p.1.created_at) >= c.aging_timeout)),
            decreases m.len() - j,
        {
            reveal_with_fuel(Seq::<_>::filter, 1);
            let ghost before = self.spec_entries();
            let ghost kept = m.take(j as int).filter(keep);
            assert(m.take(j + 1).drop_last() =~= m.take(j as int));
            assert(before[i as int] == m[j as int]);
            let expired = self.values[i].state == ArpState::NoMapping
                && seconds_since(now, self.values[i].created_at) >= self.config.aging_timeout;
            if expired {
                self.remove_at(i);
                assert(!keep(m[j as int]));
                assert(m.take(j + 1).filter(keep) == kept);
                assert(self.spec_entries() =~= m.take(j + 1).filter(keep) + m.skip(j + 1));
            } else {
                assert(m.take(j + 1).filter(keep) =~= kept.push(m[j as int]));
                assert(self.spec_entries() =~= m.take(j + 1).filter(keep) + m.skip(j + 1));
                i = i + 1;
            }
            j = j + 1;
        }
        assert(m.take(j as int) =~= m);
        assert(self.spec_entries() =~= arp_after_cleanup(m, c, now));
    }
}

impl ArpCache {
    /// Position of the first evictable entry with the earliest update time.
    fn find_oldest_entry(&self) -> (r: Option<usize>)
        requires
            self.wf(),
        ensures
            r matches Some(o) ==> oldest_evictable(self.spec_entries()) == Some(o as nat),
            r is None ==> oldest_evictable(self.spec_entries()) is None,
    {
        let ghost s = self.spec_entries();
        let mut best: Option<usize> = None;
        let mut i: usize = 0;
        assert(s.take(0) =~= Seq::<(ArpKey, ArpEntryModel)>::empty());
        while i < self.keys.len()
            invariant
                i <= s.len(),
                self.wf(),
                s == self.spec_entries(),
                best matches Some(b) ==> oldest_evictable(s.take(i as int)) == Some(b as nat) && b < i,
                best is None ==> oldest_evictable(s.take(i as int)) is None,
            decreases s.len() - i,
        {
            let ghost t = s.take(i + 1);
            assert(t.drop_last() =~= s.take(i as int));
            assert(t.last() == s[i as int]);
            let st = self.values[i].state;
            if !(st == ArpState::Incomplete || st == ArpState::Delay || st == ArpState::Probe) {
                match best {
                    None => {
                        best = Some(i);
                    },
                    Some(b) => {
                        assert(t[b as int] == s[b as int]);
                        if self.values[i].updated_at < self.values[b].updated_at {
                            best = Some(i);
                        }
                    },
                }
            }
            i = i + 1;
        }
        assert(s.take(i as int) =~= s);
        best
    }

    /// Records `mac` and `state` for this interface and address at `now`.
    /// Special addresses (0.0.0.0, 255.255.255.255, multicast) are ignored.
    /// When the cache is full and the address is new, the evictable entry
    /// updated longest ago goes first.
    pub fn update_arp(&mut self, ifindex: u32, ip_addr: Ipv4Addr, mac_addr: MacAddr, state: ArpState, now: u64)
        requires
            old(self).wf(),
        ensures
            final(self).wf(),
            final(self).spec_config() == old(self).spec_config(),
            final(self).spec_entries() == arp_after_update(old(self).spec_entries(), (ifindex, ip_addr), mac_addr,
                state, now, old(self).spec_config().max_entries as nat),
    {
        if ip_addr.is_unspecified() || ip_addr.is_broadcast() || ip_addr.is_multicast() {
            return;
        }
        let key: ArpKey = (ifindex, ip_addr);
        let ghost s0 = self.spec_entries();
        if self.keys.len() >= self.config.max_entries {
            match self.find_oldest_entry() {
                Some(o) => {
                    if self.find(&key).is_none() {
                        proof { lemma_oldest_evictable(s0); }
                        self.remove_at(o);
                    }
                },
                None => {},
            }
        }
        let ghost s1 = self.spec_entries();
        assert(s1 == arp_make_room(s0, key, self.config.max_entries as nat));
        match self.find(&key) {
            Some(i) => {
                let v = &mut self.values[i];
                v.update(mac_addr, state, now);
                assert(self.spec_entries() =~= s1.update(i as int, (s1[i as int].0,
                    entry_updated(s1[i as int].1, mac_addr, state, now))));
            },
            None => {
                let mut e = ArpEntry::new(ifindex, ip_addr, mac_addr, now);
                e.update(mac_addr, state, now);
                proof { lemma_arp_index(s1, key); }
                self.keys.push(key);
                self.values.push(e);
                assert(self.spec_entries() =~= s1.push((key, entry_updated(entry_fresh(ifindex, ip_addr, mac_addr, now),
                    mac_addr, state, now))));
                let ghost k = self.keys@;
                assert forall|a: int, b: int| 0 <= a < b < k.len() implies !same_arp_key(#[trigger] k[a], #[trigger] k[b]) by {
                    if b < s1.len() {
                        assert(k[a] == s1[a].0 && k[b] == s1[b].0);
                    } else {
                        assert(k[a] == s1[a].0);
                        assert(!same_arp_key(s1[a].0, key));
                    }
                }
            },
        }
    }
}

/// After `update_arp` for an address that is not special, looking the
/// address up gives an entry with the recorded hardware address and state.
pub proof fn lemma_arp_update_then_lookup(s: Seq<(ArpKey, ArpEntryModel)>, key: ArpKey, mac: MacAddr,
    state: ArpState, now: u64, max: nat)
    requires
        !arp_special_ip(key.1),
    ensures
        ({
            let t = arp_after_update(s, key, mac, state, now, max);
            &&& arp_index(t, key) matches Some(i)
            &&& t[arp_index(t, key).unwrap() as int].1.hardware_addr == mac
            &&& t[arp_index(t, key).unwrap() as int].1.state == state
            &&& t[arp_index(t, key).unwrap() as int].1.updated_at == now
        }),
{
    let s1 = arp_make_room(s, key, max);
    let t = arp_after_update(s, key, mac, state, now, max);
    lemma_arp_index(s1, key);
    match arp_index(s1, key) {
        Some(i) => {
            assert forall|j: int| 0 <= j < i implies !same_arp_key((#[trigger] t[j]).0, key) by {
                assert(t[j] == s1[j]);
            }
            lemma_arp_index_at(t, key, i as int);
        },
        None => {
            assert forall|j: int| 0 <= j < t.len() - 1 implies !same_arp_key((#[trigger] t[j]).0, key) by {
                assert(t[j] == s1[j]);
            }
            lemma_arp_index_at(t, key, t.len() - 1);
        },
    }
}

} // verus!
