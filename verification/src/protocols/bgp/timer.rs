use vstd::prelude::*;
use crate::common::addr::IpAddr;
use crate::common::bytes::{be64, u64_bytes, lemma_be64_roundtrip};
use crate::common::keyed::{
    ByteKey, KeyedVec, after_insert, after_remove, key_index, keys_unique, lemma_insert_keeps_others,
    lemma_insert_then_lookup, lemma_key_index, lemma_remove_contains, lemma_remove_then_lookup, lookup,
};

verus! {

/// Timer ids.
pub type TimerId = u64;

impl ByteKey for u64 {
    /// The eight big-endian bytes.
    open spec fn key_bytes(&self) -> Seq<u8> {
        u64_bytes(*self)
    }

    fn same_key(&self, other: &Self) -> (r: bool) {
        proof {
            lemma_be64_roundtrip(*self);
            lemma_be64_roundtrip(*other);
        }
        *self == *other
    }
}

/// The kinds of BGP timer.
#[derive(Debug, Clone, Copy, PartialEq, Eq, Structural)]
pub enum BgpTimerEvent {
    KeepaliveTimer,
    HoldTimer,
    ConnectRetryTimer,
}

/// A timer of one peer. Times are milliseconds on the caller's clock.
#[derive(Debug, Clone, Copy)]
pub struct BgpTimer {
    pub id: TimerId,
    pub peer_addr: IpAddr,
    pub timer_type: BgpTimerEvent,
    /// When the timer expires.
    pub expires_at: u64,
    pub active: bool,
}

/// Whether a timer has expired at `now`: it is active and its time has come.
pub open spec fn timer_expired(t: BgpTimer, now: u64) -> bool {
    t.active && now >= t.expires_at
}

impl BgpTimer {
    /// An active timer expiring `delay` after `now`.
    pub fn new(id: TimerId, peer_addr: IpAddr, timer_type: BgpTimerEvent, delay: u64, now: u64) -> (r: Self)
        requires
            now + delay <= u64::MAX,
        ensures
            r == (BgpTimer { id, peer_addr, timer_type, expires_at: (now + delay) as u64, active: true }),
    {
        BgpTimer { id, peer_addr, timer_type, expires_at: now + delay, active: true }
    }

    /// Whether the timer has expired at `now`.
    pub fn is_expired(&self, now: u64) -> (r: bool)
        ensures
            r == timer_expired(*self, now),
    {
        self.active && now >= self.expires_at
    }

    /// Restarts the timer to expire `delay` after `now`.
    pub fn reset(&mut self, delay: u64, now: u64)
        requires
            now + delay <= u64::MAX,
        ensures
            *final(self) == (BgpTimer { expires_at: (now + delay) as u64, active: true, ..*old(self) }),
    {
        self.expires_at = now + delay;
        self.active = true;
    }

    /// Stops the timer.
    pub fn deactivate(&mut self)
        ensures
            *final(self) == (BgpTimer { active: false, ..*old(self) }),
    {
        self.active = false;
    }
}

/// The timers a peer has, by kind.
#[derive(Debug, Clone, Copy)]
pub struct PeerTimers {
    pub keepalive_id: Option<TimerId>,
    pub hold_id: Option<TimerId>,
    pub connect_retry_id: Option<TimerId>,
}

/// The timer manager as values.
pub struct TimerState {
    /// The timers, each under the bytes of its id.
    pub timers: Seq<(Seq<u8>, BgpTimer)>,
    /// The id the next timer gets.
    pub next_id: u64,
    /// The timers of each peer, under the bytes of its address.
    pub peers: Seq<(Seq<u8>, PeerTimers)>,
}

/// The key bytes of a timer id.
pub open spec fn timer_key(id: u64) -> Seq<u8> {
    u64_bytes(id)
}

/// The timers recorded for `addr`; none when the peer has no record.
pub open spec fn peer_slots(s: TimerState, addr: IpAddr) -> PeerTimers {
    match lookup(s.peers, addr.key_bytes()) {
        Some(p) => p,
        None => PeerTimers { keepalive_id: None, hold_id: None, connect_retry_id: None },
    }
}

/// The id recorded for a kind of timer.
pub open spec fn slot_of(p: PeerTimers, kind: BgpTimerEvent) -> Option<u64> {
    match kind {
        BgpTimerEvent::KeepaliveTimer => p.keepalive_id,
        BgpTimerEvent::HoldTimer => p.hold_id,
        BgpTimerEvent::ConnectRetryTimer => p.connect_retry_id,
    }
}

/// `p` with `id` recorded for `kind`.
pub open spec fn with_slot(p: PeerTimers, kind: BgpTimerEvent, id: u64) -> PeerTimers {
    match kind {
        BgpTimerEvent::KeepaliveTimer => PeerTimers { keepalive_id: Some(id), ..p },
        BgpTimerEvent::HoldTimer => PeerTimers { hold_id: Some(id), ..p },
        BgpTimerEvent::ConnectRetryTimer => PeerTimers { connect_retry_id: Some(id), ..p },
    }
}

/// The state after adding a timer of `kind` for `addr`: it gets the next
/// id, expires `delay` after `now`, and is recorded as the peer's timer of
/// that kind.
pub open spec fn state_after_add(s: TimerState, addr: IpAddr, kind: BgpTimerEvent, delay: u64, now: u64) -> TimerState {
    let id = s.next_id;
    TimerState {
        timers: after_insert(
            s.timers,
            timer_key(id),
            BgpTimer { id, peer_addr: addr, timer_type: kind, expires_at: (now + delay) as u64, active: true },
        ),
        next_id: (id + 1) as u64,
        peers: after_insert(s.peers, addr.key_bytes(), with_slot(peer_slots(s, addr), kind, id)),
    }
}

/// Whether the peer's timer of `kind` exists, so that it can be reset.
pub open spec fn reset_applies(s: TimerState, addr: IpAddr, kind: BgpTimerEvent) -> bool {
    match slot_of(peer_slots(s, addr), kind) {
        Some(id) => lookup(s.timers, timer_key(id)) is Some,
        None => false,
    }
}

/// The state after resetting the peer's timer of `kind` to expire `delay`
/// after `now`; unchanged when there is no such timer.
pub open spec fn state_after_reset(s: TimerState, addr: IpAddr, kind: BgpTimerEvent, delay: u64, now: u64) -> TimerState {
    match slot_of(peer_slots(s, addr), kind) {
        Some(id) => match lookup(s.timers, timer_key(id)) {
            Some(t) => TimerState {
                timers: after_insert(
                    s.timers,
                    timer_key(id),
                    BgpTimer { expires_at: (now + delay) as u64, active: true, ..t },
                ),
                ..s
            },
            None => s,
        },
        None => s,
    }
}

/// The timers after stopping the one with id `id`, if there is one.
pub open spec fn deactivate_id(t: Seq<(Seq<u8>, BgpTimer)>, id: Option<u64>) -> Seq<(Seq<u8>, BgpTimer)> {
    match id {
        Some(i) => match lookup(t, timer_key(i)) {
            Some(x) => after_insert(t, timer_key(i), BgpTimer { active: false, ..x }),
            None => t,
        },
        None => t,
    }
}

/// The timers after removing the one with id `id`, if there is one.
pub open spec fn remove_id(t: Seq<(Seq<u8>, BgpTimer)>, id: Option<u64>) -> Seq<(Seq<u8>, BgpTimer)> {
    match id {
        Some(i) => after_remove(t, timer_key(i)),
        None => t,
    }
}

/// The state after stopping every timer of the peer.
pub open spec fn state_after_deactivate(s: TimerState, addr: IpAddr) -> TimerState {
    match lookup(s.peers, addr.key_bytes()) {
        Some(p) => TimerState {
            timers: deactivate_id(deactivate_id(deactivate_id(s.timers, p.keepalive_id), p.hold_id), p.connect_retry_id),
            ..s
        },
        None => s,
    }
}

/// The state after resetting the peer's timer of `kind`, or adding one when
/// it has none.
pub open spec fn state_reset_or_add(s: TimerState, addr: IpAddr, kind: BgpTimerEvent, delay: u64, now: u64) -> TimerState {
    if reset_applies(s, addr, kind) {
        state_after_reset(s, addr, kind, delay, now)
    } else {
        state_after_add(s, addr, kind, delay, now)
    }
}

/// The state after entering Established: keepalive and hold timers reset or
/// added, the connect-retry timer stopped.
pub open spec fn state_after_established(s: TimerState, addr: IpAddr, keepalive: u64, hold: u64, now: u64) -> TimerState {
    let s1 = state_reset_or_add(s, addr, BgpTimerEvent::KeepaliveTimer, keepalive, now);
    let s2 = state_reset_or_add(s1, addr, BgpTimerEvent::HoldTimer, hold, now);
    match lookup(s2.peers, addr.key_bytes()) {
        Some(p) => TimerState { timers: deactivate_id(s2.timers, p.connect_retry_id), ..s2 },
        None => s2,
    }
}

/// The state after removing the peer and all its timers.
pub open spec fn state_after_remove_peer(s: TimerState, addr: IpAddr) -> TimerState {
    match lookup(s.peers, addr.key_bytes()) {
        Some(p) => TimerState {
            timers: remove_id(remove_id(remove_id(s.timers, p.keepalive_id), p.hold_id), p.connect_retry_id),
            next_id: s.next_id,
            peers: after_remove(s.peers, addr.key_bytes()),
        },
        None => s,
    }
}

/// The timers of `t` that have expired at `now`, in order.
pub open spec fn expired_in(t: Seq<BgpTimer>, now: u64) -> Seq<BgpTimer>
    decreases t.len(),
{
    if t.len() == 0 {
        Seq::empty()
    } else {
        let rest = expired_in(t.drop_last(), now);
        if timer_expired(t.last(), now) {
            rest.push(t.last())
        } else {
            rest
        }
    }
}

/// Each timer is stored under its own id, every id is below the next one
/// to be handed out, and ids and peers each appear once.
pub open spec fn timer_state_wf(s: TimerState) -> bool {
    &&& keys_unique(s.timers)
    &&& keys_unique(s.peers)
    &&& forall|j: int| 0 <= j < s.timers.len() ==> (#[trigger] s.timers[j]).0 == timer_key(s.timers[j].1.id)
        && s.timers[j].1.id < s.next_id
}

/// The timers of the BGP peers.
#[derive(Debug)]
pub struct BgpTimerManager {
    timers: KeyedVec<TimerId, BgpTimer>,
    next_id: TimerId,
    peer_timers: KeyedVec<IpAddr, PeerTimers>,
}

impl View for BgpTimerManager {
    type V = TimerState;

    closed spec fn view(&self) -> TimerState {
        TimerState { timers: self.timers.entries(), next_id: self.next_id, peers: self.peer_timers.entries() }
    }
}

impl BgpTimerManager {
    /// Well-formedness of the two tables and the ids.
    pub closed spec fn wf(&self) -> bool {
        &&& self.timers.wf()
        &&& self.peer_timers.wf()
        &&& timer_state_wf(self@)
    }

    proof fn lemma_wf(&self)
        requires
            self.timers.wf(),
            self.peer_timers.wf(),
        ensures
            keys_unique(self@.timers),
            keys_unique(self@.peers),
    {
        self.timers.lemma_unique();
        self.peer_timers.lemma_unique();
    }

    /// A manager with no timers; the first id is 1.
    pub fn new() -> (r: Self)
        ensures
            r.wf(),
            r@.timers.len() == 0,
            r@.peers.len() == 0,
            r@.next_id == 1,
    {
        let r = BgpTimerManager { timers: KeyedVec::new(), next_id: 1, peer_timers: KeyedVec::new() };
        proof { r.lemma_wf(); }
        r
    }

    fn add_timer(&mut self, peer_addr: IpAddr, kind: BgpTimerEvent, delay: u64, now: u64) -> (r: TimerId)
        requires
            old(self).wf(),
            old(self)@.next_id < u64::MAX,
            now + delay <= u64::MAX,
        ensures
            final(self).wf(),
            r == old(self)@.next_id,
            final(self)@ == state_after_add(old(self)@, peer_addr, kind, delay, now),
    {
        let ghost s = self@;
        let id = self.next_id;
        self.next_id = self.next_id + 1;
        let timer = BgpTimer::new(id, peer_addr, kind, delay, now);
        self.timers.insert(id, timer);
        let current = match self.peer_timers.get(&peer_addr) {
            Some(p) => *p,
            None => PeerTimers { keepalive_id: None, hold_id: None, connect_retry_id: None },
        };
        let updated = match kind {
            BgpTimerEvent::KeepaliveTimer => PeerTimers { keepalive_id: Some(id), ..current },
            BgpTimerEvent::HoldTimer => PeerTimers { hold_id: Some(id), ..current },
            BgpTimerEvent::ConnectRetryTimer => PeerTimers { connect_retry_id: Some(id), ..current },
        };
        self.peer_timers.insert(peer_addr, updated);
        proof {
            lemma_key_index(s.peers, peer_addr.key_bytes());
            lemma_add_keeps_wf(s, peer_addr, kind, delay, now);
            self.lemma_wf();
            assert(self@ == state_after_add(s, peer_addr, kind, delay, now));
        }
        id
    }

    /// Adds a keepalive timer for the peer, expiring `delay` after `now`,
    /// and returns its id.
    pub fn add_keepalive_timer(&mut self, peer_addr: IpAddr, delay: u64, now: u64) -> (r: TimerId)
        requires
            old(self).wf(),
            old(self)@.next_id < u64::MAX,
            now + delay <= u64::MAX,
        ensures
            final(self).wf(),
            r == old(self)@.next_id,
            final(self)@ == state_after_add(old(self)@, peer_addr, BgpTimerEvent::KeepaliveTimer, delay, now),
    {
        self.add_timer(peer_addr, BgpTimerEvent::KeepaliveTimer, delay, now)
    }

    /// Adds a hold timer for the peer, expiring `delay` after `now`, and
    /// returns its id.
    pub fn add_hold_timer(&mut self, peer_addr: IpAddr, delay: u64, now: u64) -> (r: TimerId)
        requires
            old(self).wf(),
            old(self)@.next_id < u64::MAX,
            now + delay <= u64::MAX,
        ensures
            final(self).wf(),
            r == old(self)@.next_id,
            final(self)@ == state_after_add(old(self)@, peer_addr, BgpTimerEvent::HoldTimer, delay, now),
    {
        self.add_timer(peer_addr, BgpTimerEvent::HoldTimer, delay, now)
    }

    /// Adds a connect-retry timer for the peer, expiring `delay` after
    /// `now`, and returns its id.
    pub fn add_connect_retry_timer(&mut self, peer_addr: IpAddr, delay: u64, now: u64) -> (r: TimerId)
        requires
            old(self).wf(),
            old(self)@.next_id < u64::MAX,
            now + delay <= u64::MAX,
        ensures
            final(self).wf(),
            r == old(self)@.next_id,
            final(self)@ == state_after_add(old(self)@, peer_addr, BgpTimerEvent::ConnectRetryTimer, delay, now),
    {
        self.add_timer(peer_addr, BgpTimerEvent::ConnectRetryTimer, delay, now)
    }

    fn reset_timer(&mut self, peer_addr: &IpAddr, kind: BgpTimerEvent, delay: u64, now: u64) -> (r: bool)
        requires
            old(self).wf(),
            now + delay <= u64::MAX,
        ensures
            final(self).wf(),
            r == reset_applies(old(self)@, *peer_addr, kind),
            final(self)@ == state_after_reset(old(self)@, *peer_addr, kind, delay, now),
    {
        let ghost s = self@;
        let slot = match self.peer_timers.get(peer_addr) {
            Some(p) => match kind {
                BgpTimerEvent::KeepaliveTimer => p.keepalive_id,
                BgpTimerEvent::HoldTimer => p.hold_id,
                BgpTimerEvent::ConnectRetryTimer => p.connect_retry_id,
            },
            None => None,
        };
        proof { lemma_key_index(s.peers, peer_addr.key_bytes()); }
        match slot {
            Some(id) => {
                proof { lemma_key_index(s.timers, timer_key(id)); }
                match self.timers.get_mut(&id) {
                    Some(timer) => {
                        timer.reset(delay, now);
                        proof {
                            let t = lookup(s.timers, timer_key(id))->0;
                            lemma_reset_keeps_wf(s, id, BgpTimer { expires_at: (now + delay) as u64, active: true, ..t });
                            self.lemma_wf();
                        }
                        true
                    },
                    None => false,
                }
            },
            None => false,
        }
    }

    /// Restarts the peer's keepalive timer to expire `delay` after `now`;
    /// false when the peer has none.
    pub fn reset_keepalive_timer(&mut self, peer_addr: &IpAddr, delay: u64, now: u64) -> (r: bool)
        requires
            old(self).wf(),
            now + delay <= u64::MAX,
        ensures
            final(self).wf(),
            r == reset_applies(old(self)@, *peer_addr, BgpTimerEvent::KeepaliveTimer),
            final(self)@ == state_after_reset(old(self)@, *peer_addr, BgpTimerEvent::KeepaliveTimer, delay, now),
    {
        self.reset_timer(peer_addr, BgpTimerEvent::KeepaliveTimer, delay, now)
    }

    /// Restarts the peer's hold timer to expire `delay` after `now`; false
    /// when the peer has none.
    pub fn reset_hold_timer(&mut self, peer_addr: &IpAddr, delay: u64, now: u64) -> (r: bool)
        requires
            old(self).wf(),
            now + delay <= u64::MAX,
        ensures
            final(self).wf(),
            r == reset_applies(old(self)@, *peer_addr, BgpTimerEvent::HoldTimer),
            final(self)@ == state_after_reset(old(self)@, *peer_addr, BgpTimerEvent::HoldTimer, delay, now),
    {
        self.reset_timer(peer_addr, BgpTimerEvent::HoldTimer, delay, now)
    }

    fn deactivate_timer(&mut self, id: Option<TimerId>)
        requires
            old(self).wf(),
        ensures
            final(self).wf(),
            final(self)@ == (TimerState { timers: deactivate_id(old(self)@.timers, id), ..old(self)@ }),
    {
        let ghost s = self@;
        if let Some(i) = id {
            proof { lemma_key_index(s.timers, timer_key(i)); }
            if let Some(timer) = self.timers.get_mut(&i) {
                timer.deactivate();
                proof {
                    let t = lookup(s.timers, timer_key(i))->0;
                    lemma_reset_keeps_wf(s, i, BgpTimer { active: false, ..t });
                    self.lemma_wf();
                }
            }
        }
    }

    /// Stops every timer of the peer.
    pub fn deactivate_peer_timers(&mut self, peer_addr: &IpAddr)
        requires
            old(self).wf(),
        ensures
            final(self).wf(),
            final(self)@ == state_after_deactivate(old(self)@, *peer_addr),
    {
        let ghost s = self@;
        proof { lemma_key_index(s.peers, peer_addr.key_bytes()); }
        let slots = match self.peer_timers.get(peer_addr) {
            Some(p) => Some(*p),
            None => None,
        };
        if let Some(p) = slots {
            self.deactivate_timer(p.keepalive_id);
            self.deactivate_timer(p.hold_id);
            self.deactivate_timer(p.connect_retry_id);
        }
    }

    /// Enters Established for the peer: resets the keepalive and hold timers
    /// (adding them where missing) and stops the connect-retry timer.
    pub fn enable_established_timers(&mut self, peer_addr: IpAddr, keepalive_delay: u64, hold_delay: u64, now: u64)
        requires
            old(self).wf(),
            old(self)@.next_id < u64::MAX - 1,
            now + keepalive_delay <= u64::MAX,
            now + hold_delay <= u64::MAX,
        ensures
            final(self).wf(),
            final(self)@ == state_after_established(old(self)@, peer_addr, keepalive_delay, hold_delay, now),
    {
        if !self.reset_keepalive_timer(&peer_addr, keepalive_delay, now) {
            self.add_keepalive_timer(peer_addr, keepalive_delay, now);
        }
        if !self.reset_hold_timer(&peer_addr, hold_delay, now) {
            self.add_hold_timer(peer_addr, hold_delay, now);
        }
        let ghost s2 = self@;
        proof { lemma_key_index(s2.peers, peer_addr.key_bytes()); }
        let retry = match self.peer_timers.get(&peer_addr) {
            Some(p) => Some(p.connect_retry_id),
            None => None,
        };
        if let Some(id) = retry {
            self.deactivate_timer(id);
        }
    }

    /// The timers that have expired at `now`, in order.
    pub fn get_expired_timers(&self, now: u64) -> (r: Vec<BgpTimer>)
        requires
            self.wf(),
        ensures
            r@ == expired_in(self@.timers.map_values(|p: (Seq<u8>, BgpTimer)| p.1), now),
    {
        let values = self.timers.values();
        let ghost all = self@.timers.map_values(|p: (Seq<u8>, BgpTimer)| p.1);
        let mut out: Vec<BgpTimer> = Vec::new();
        let mut i: usize = 0;
        assert(all.subrange(0, 0) =~= Seq::<BgpTimer>::empty());
        while i < values.len()
            invariant
                values@ == all,
                i <= all.len(),
                out@ == expired_in(all.subrange(0, i as int), now),
            decreases all.len() - i,
        {
            let t = values[i];
            assert(all.subrange(0, i + 1).drop_last() =~= all.subrange(0, i as int));
            if t.is_expired(now) {
                out.push(t);
            }
            i = i + 1;
        }
        assert(all.subrange(0, all.len() as int) =~= all);
        out
    }

    /// Removes the peer and all its timers.
    pub fn remove_peer_timers(&mut self, peer_addr: &IpAddr)
        requires
            old(self).wf(),
        ensures
            final(self).wf(),
            final(self)@ == state_after_remove_peer(old(self)@, *peer_addr),
    {
        let ghost s = self@;
        proof { lemma_key_index(s.peers, peer_addr.key_bytes()); }
        if let Some(p) = self.peer_timers.remove(peer_addr) {
            let ghost t0 = self@.timers;
            if let Some(id) = p.keepalive_id {
                self.timers.remove(&id);
            }
            proof { lemma_remove_id_keeps_wf(t0, p.keepalive_id, s.next_id); }
            let ghost t1 = self@.timers;
            if let Some(id) = p.hold_id {
                self.timers.remove(&id);
            }
            proof { lemma_remove_id_keeps_wf(t1, p.hold_id, s.next_id); }
            let ghost t2 = self@.timers;
            if let Some(id) = p.connect_retry_id {
                self.timers.remove(&id);
            }
            proof {
                lemma_remove_id_keeps_wf(t2, p.connect_retry_id, s.next_id);
                lemma_remove_contains(s.peers, peer_addr.key_bytes());
                self.lemma_wf();
            }
        }
    }

    /// The number of timers.
    pub fn len(&self) -> (r: usize)
        requires
            self.wf(),
        ensures
            r == self@.timers.len(),
    {
        self.timers.len()
    }

    /// Whether there are no timers.
    pub fn is_empty(&self) -> (r: bool)
        requires
            self.wf(),
        ensures
            r == (self@.timers.len() == 0),
    {
        self.timers.len() == 0
    }
}

impl Default for BgpTimerManager {
    /// A manager with no timers.
    fn default() -> (r: Self)
        ensures
            r.wf(),
            r@.timers.len() == 0,
            r@.peers.len() == 0,
            r@.next_id == 1,
    {
        BgpTimerManager::new()
    }
}

/// Distinct ids have distinct key bytes.
proof fn lemma_timer_key_injective(a: u64, b: u64)
    ensures
        timer_key(a) == timer_key(b) ==> a == b,
{
    lemma_be64_roundtrip(a);
    lemma_be64_roundtrip(b);
}

/// In a well-formed state the next id is not in use.
proof fn lemma_next_id_free(s: TimerState)
    requires
        timer_state_wf(s),
    ensures
        key_index(s.timers, timer_key(s.next_id)) is None,
{
    lemma_key_index(s.timers, timer_key(s.next_id));
    if let Some(i) = key_index(s.timers, timer_key(s.next_id)) {
        lemma_timer_key_injective(s.timers[i as int].1.id, s.next_id);
    }
}

/// Adding a timer keeps the state well formed and adds one timer.
pub proof fn lemma_add_keeps_wf(s: TimerState, addr: IpAddr, kind: BgpTimerEvent, delay: u64, now: u64)
    requires
        timer_state_wf(s),
        s.next_id < u64::MAX,
    ensures
        timer_state_wf(state_after_add(s, addr, kind, delay, now)),
        state_after_add(s, addr, kind, delay, now).timers.len() == s.timers.len() + 1,
{
    let t = state_after_add(s, addr, kind, delay, now);
    lemma_next_id_free(s);
    lemma_key_index(s.peers, addr.key_bytes());
    assert(t.timers == s.timers.push((timer_key(s.next_id), t.timers.last().1)));
    assert forall|i: int, j: int| 0 <= i < j < t.timers.len() implies (#[trigger] t.timers[i]).0
        != (#[trigger] t.timers[j]).0 by {
        if j == s.timers.len() {
            lemma_key_index(s.timers, timer_key(s.next_id));
            assert(t.timers[i] == s.timers[i]);
        } else {
            assert(t.timers[i] == s.timers[i] && t.timers[j] == s.timers[j]);
        }
    }
    assert forall|i: int, j: int| 0 <= i < j < t.peers.len() implies (#[trigger] t.peers[i]).0
        != (#[trigger] t.peers[j]).0 by {
        match key_index(s.peers, addr.key_bytes()) {
            Some(k) => {
                if i != k { assert(t.peers[i] == s.peers[i]); }
                if j != k { assert(t.peers[j] == s.peers[j]); }
            },
            None => {
                if j < s.peers.len() {
                    assert(t.peers[i] == s.peers[i] && t.peers[j] == s.peers[j]);
                } else {
                    assert(t.peers[i] == s.peers[i]);
                }
            },
        }
    }
    assert forall|j: int| 0 <= j < t.timers.len() implies (#[trigger] t.timers[j]).0 == timer_key(t.timers[j].1.id)
        && t.timers[j].1.id < t.next_id by {
        if j < s.timers.len() {
            assert(t.timers[j] == s.timers[j]);
        }
    }
}

/// Replacing an existing timer by one with the same id keeps the state well
/// formed.
proof fn lemma_reset_keeps_wf(s: TimerState, id: u64, x: BgpTimer)
    requires
        timer_state_wf(s),
        lookup(s.timers, timer_key(id)) is Some,
        x.id == lookup(s.timers, timer_key(id))->0.id,
    ensures
        timer_state_wf(TimerState { timers: after_insert(s.timers, timer_key(id), x), ..s }),
        after_insert(s.timers, timer_key(id), x).len() == s.timers.len(),
{
    lemma_key_index(s.timers, timer_key(id));
    let k = key_index(s.timers, timer_key(id))->0 as int;
    let t = after_insert(s.timers, timer_key(id), x);
    assert forall|i: int, j: int| 0 <= i < j < t.len() implies (#[trigger] t[i]).0 != (#[trigger] t[j]).0 by {
        if i != k { assert(t[i] == s.timers[i]); }
        if j != k { assert(t[j] == s.timers[j]); }
    }
    assert forall|j: int| 0 <= j < t.len() implies (#[trigger] t[j]).0 == timer_key(t[j].1.id) && t[j].1.id
        < s.next_id by {
        if j != k { assert(t[j] == s.timers[j]); }
    }
}

/// Removing a timer keeps ids unique, stored under their keys, and below
/// the next id.
proof fn lemma_remove_id_keeps_wf(t: Seq<(Seq<u8>, BgpTimer)>, id: Option<u64>, next: u64)
    requires
        keys_unique(t),
        forall|j: int| 0 <= j < t.len() ==> (#[trigger] t[j]).0 == timer_key(t[j].1.id) && t[j].1.id < next,
    ensures
        keys_unique(remove_id(t, id)),
        forall|j: int| 0 <= j < remove_id(t, id).len() ==> (#[trigger] remove_id(t, id)[j]).0 == timer_key(
            remove_id(t, id)[j].1.id,
        ) && remove_id(t, id)[j].1.id < next,
{
    if let Some(i) = id {
        lemma_remove_contains(t, timer_key(i));
        let r = after_remove(t, timer_key(i));
        assert forall|j: int| 0 <= j < r.len() implies (#[trigger] r[j]).0 == timer_key(r[j].1.id) && r[j].1.id
            < next by {
            assert(r.contains(r[j]));
            assert(t.contains(r[j]));
            let k = choose|k: int| 0 <= k < t.len() && t[k] == r[j];
            assert(t[k].0 == timer_key(t[k].1.id) && t[k].1.id < next);
        }
    }
}

/// After a peer is removed, neither the peer nor any of its timers remain.
pub proof fn lemma_remove_peer_leaves_nothing(s: TimerState, addr: IpAddr)
    requires
        timer_state_wf(s),
        lookup(s.peers, addr.key_bytes()) is Some,
    ensures
        ({
            let p = lookup(s.peers, addr.key_bytes())->0;
            let r = state_after_remove_peer(s, addr);
            &&& lookup(r.peers, addr.key_bytes()) is None
            &&& forall|id: u64| (p.keepalive_id == Some(id) || p.hold_id == Some(id) || p.connect_retry_id
                == Some(id)) ==> lookup(r.timers, timer_key(id)) is None
        }),
{
    let p = lookup(s.peers, addr.key_bytes())->0;
    lemma_remove_then_lookup(s.peers, addr.key_bytes());
    let t0 = s.timers;
    let t1 = remove_id(t0, p.keepalive_id);
    let t2 = remove_id(t1, p.hold_id);
    let t3 = remove_id(t2, p.connect_retry_id);
    lemma_remove_id_facts(t0, p.keepalive_id);
    lemma_remove_id_facts(t1, p.hold_id);
    lemma_remove_id_facts(t2, p.connect_retry_id);
}

/// Removing an id keeps ids unique, makes that id absent, and leaves
/// absent ids absent.
proof fn lemma_remove_id_facts(t: Seq<(Seq<u8>, BgpTimer)>, id: Option<u64>)
    requires
        keys_unique(t),
    ensures
        keys_unique(remove_id(t, id)),
        id matches Some(i) ==> lookup(remove_id(t, id), timer_key(i)) is None,
        forall|k: Seq<u8>| lookup(t, k) is None ==> lookup(remove_id(t, id), k) is None,
{
    if let Some(i) = id {
        lemma_remove_contains(t, timer_key(i));
        lemma_remove_then_lookup(t, timer_key(i));
    }
}

/// After a peer's timers are stopped, none of them is active, so none
/// expires at any time.
pub proof fn lemma_deactivated_never_expire(s: TimerState, addr: IpAddr, now: u64)
    requires
        timer_state_wf(s),
        lookup(s.peers, addr.key_bytes()) is Some,
    ensures
        ({
            let p = lookup(s.peers, addr.key_bytes())->0;
            let r = state_after_deactivate(s, addr);
            forall|id: u64| (p.keepalive_id == Some(id) || p.hold_id == Some(id) || p.connect_retry_id
                == Some(id)) ==> match lookup(r.timers, timer_key(id)) {
                Some(t) => !timer_expired(t, now),
                None => true,
            }
        }),
{
    let p = lookup(s.peers, addr.key_bytes())->0;
    let t0 = s.timers;
    let t1 = deactivate_id(t0, p.keepalive_id);
    let t2 = deactivate_id(t1, p.hold_id);
    let t3 = deactivate_id(t2, p.connect_retry_id);
    assert forall|id: u64| (p.keepalive_id == Some(id) || p.hold_id == Some(id) || p.connect_retry_id == Some(id))
        implies match lookup(t3, timer_key(id)) {
        Some(t) => !timer_expired(t, now),
        None => true,
    } by {
        lemma_deactivate_id_step(t0, p.keepalive_id, id);
        lemma_deactivate_id_step(t1, p.hold_id, id);
        lemma_deactivate_id_step(t2, p.connect_retry_id, id);
    }
}

/// Stopping the timer `d` makes it inactive and keeps other timers'
/// activity: an inactive or absent timer stays inactive or absent.
proof fn lemma_deactivate_id_step(t: Seq<(Seq<u8>, BgpTimer)>, d: Option<u64>, id: u64)
    ensures
        d == Some(id) ==> match lookup(deactivate_id(t, d), timer_key(id)) {
            Some(x) => !x.active,
            None => true,
        },
        match lookup(t, timer_key(id)) {
            Some(x) => !x.active,
            None => true,
        } ==> match lookup(deactivate_id(t, d), timer_key(id)) {
            Some(x) => !x.active,
            None => true,
        },
{
    if let Some(i) = d {
        if let Some(x) = lookup(t, timer_key(i)) {
            let y = BgpTimer { active: false, ..x };
            lemma_insert_then_lookup(t, timer_key(i), y);
            if timer_key(i) != timer_key(id) {
                lemma_insert_keeps_others(t, timer_key(i), y, timer_key(id));
            }
            lemma_timer_key_injective(i, id);
        }
    }
}

} // verus!
