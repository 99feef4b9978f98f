use vstd::prelude::*;
use crate::protocols::common::addr::Ipv4Addr;
use crate::protocols::ip::fragment::elapsed_ms;

verus! {

/// An echo request waiting for its reply.
#[derive(Debug, Clone, Copy)]
pub struct PendingEcho {
    pub identifier: u16,
    pub sequence: u16,
    /// Send time in milliseconds.
    pub sent_at: u64,
    pub destination: Ipv4Addr,
}

impl PendingEcho {
    pub fn new(identifier: u16, sequence: u16, destination: Ipv4Addr, now: u64) -> (r: Self)
        ensures
            r == (PendingEcho { identifier, sequence, sent_at: now, destination }),
    {
        PendingEcho { identifier, sequence, sent_at: now, destination }
    }

    /// Whether at least `timeout_ms` passed since the request was sent.
    pub fn is_timeout(&self, timeout_ms: u64, now: u64) -> (r: bool)
        ensures
            r == (elapsed_ms(now, self.sent_at) >= timeout_ms),
    {
        self.rtt(now) >= timeout_ms
    }

    /// Milliseconds since the request was sent.
    pub fn rtt(&self, now: u64) -> (r: u64)
        ensures
            r == elapsed_ms(now, self.sent_at),
    {
        if now >= self.sent_at { now - self.sent_at } else { 0 }
    }
}

/// Whether `e` is the pending request with this identifier and sequence number.
pub open spec fn echo_key_is(e: PendingEcho, identifier: u16, sequence: u16) -> bool {
    e.identifier == identifier && e.sequence == sequence
}

/// Position of the pending request with this key.
pub open spec fn echo_index(s: Seq<PendingEcho>, identifier: u16, sequence: u16) -> Option<nat>
    decreases s.len(),
{
    if s.len() == 0 {
        None
    } else if echo_key_is(s[0], identifier, sequence) {
        Some(0)
    } else {
        match echo_index(s.drop_first(), identifier, sequence) {
            Some(i) => Some(i + 1),
            None => None,
        }
    }
}

proof fn lemma_echo_index(s: Seq<PendingEcho>, identifier: u16, sequence: u16)
    ensures
        echo_index(s, identifier, sequence) matches Some(i) ==> i < s.len()
            && echo_key_is(s[i as int], identifier, sequence)
            && forall|j: int| 0 <= j < i ==> !echo_key_is(#[trigger] s[j], identifier, sequence),
        echo_index(s, identifier, sequence) is None ==> forall|j: int| 0 <= j < s.len()
            ==> !echo_key_is(#[trigger] s[j], identifier, sequence),
    decreases s.len(),
{
    if s.len() > 0 && !echo_key_is(s[0], identifier, sequence) {
        lemma_echo_index(s.drop_first(), identifier, sequence);
        assert forall|j: int| 0 < j < s.len() implies #[trigger] s[j] == s.drop_first()[j - 1] by {}
    }
}

/// The requests that are not older than `timeout` at `now`.
pub open spec fn kept_after(s: Seq<PendingEcho>, now: u64, timeout: u64) -> Seq<PendingEcho> {
    s.filter(|e: PendingEcho| !(elapsed_ms(now, e.sent_at) >= timeout))
}

/// `s` with `p` registered: replacing the request with the same key, or appended.
pub open spec fn after_add(s: Seq<PendingEcho>, p: PendingEcho) -> Seq<PendingEcho> {
    match echo_index(s, p.identifier, p.sequence) {
        Some(i) => s.update(i as int, p),
        None => s.push(p),
    }
}

/// `s` without the request with this key.
pub open spec fn after_remove(s: Seq<PendingEcho>, identifier: u16, sequence: u16) -> Seq<PendingEcho> {
    match echo_index(s, identifier, sequence) {
        Some(i) => s.remove(i as int),
        None => s,
    }
}

/// The round-trip time at `now` of the request with this key.
pub open spec fn rtt_of(s: Seq<PendingEcho>, identifier: u16, sequence: u16, now: u64) -> u64 {
    match echo_index(s, identifier, sequence) {
        Some(i) => elapsed_ms(now, s[i as int].sent_at) as u64,
        None => 0,
    }
}

/// Echo requests waiting for replies, keyed by identifier and sequence number.
pub struct EchoManager {
    pending: Vec<PendingEcho>,
    default_timeout: u64,
    max_pending: usize,
}

impl EchoManager {
    /// The manager never holds more requests than its limit.
    #[verifier::type_invariant]
    spec fn within_limit(&self) -> bool {
        self.pending@.len() <= self.max_pending
    }

    /// The pending requests, in insertion order.
    pub closed spec fn spec_pending(&self) -> Seq<PendingEcho> {
        self.pending@
    }

    /// The timeout in milliseconds after which a request is dropped.
    pub closed spec fn spec_timeout(&self) -> u64 {
        self.default_timeout
    }

    /// The most requests held at once.
    pub closed spec fn spec_max(&self) -> usize {
        self.max_pending
    }

    pub fn new(default_timeout_ms: u64, max_pending: usize) -> (r: Self)
        ensures
            r.spec_pending().len() == 0,
            r.spec_timeout() == default_timeout_ms,
            r.spec_max() == max_pending,
            r.spec_pending().len() <= r.spec_max(),
    {
        EchoManager { pending: Vec::new(), default_timeout: default_timeout_ms, max_pending }
    }

    fn find(&self, identifier: u16, sequence: u16) -> (r: Option<usize>)
        ensures
            r matches Some(i) ==> echo_index(self.pending@, identifier, sequence) == Some(i as nat) && i < self.pending@.len(),
            r is None ==> echo_index(self.pending@, identifier, sequence) is None,
    {
        proof { lemma_echo_index(self.pending@, identifier, sequence); }
        let mut i: usize = 0;
        while i < self.pending.len()
            invariant
                i <= self.pending@.len(),
                forall|j: int| 0 <= j < i ==> !echo_key_is(#[trigger] self.pending@[j], identifier, sequence),
            decreases self.pending@.len() - i,
        {
            if self.pending[i].identifier == identifier && self.pending[i].sequence == sequence {
                proof {
                    lemma_echo_index(self.pending@, identifier, sequence);
                    assert(echo_key_is(self.pending@[i as int], identifier, sequence));
                    if let Some(k) = echo_index(self.pending@, identifier, sequence) {
                        if k > i { assert(!echo_key_is(self.pending@[i as int], identifier, sequence)); }
                        if k < i { assert(!echo_key_is(self.pending@[k as int], identifier, sequence)); }
                    }
                }
                return Some(i);
            }
            i = i + 1;
        }
        None
    }

    /// Drops expired requests, then registers `echo`, replacing a request with
    /// the same key; fails when the manager is full.
    pub fn add_pending(&mut self, echo: PendingEcho, now: u64) -> (r: Result<(), String>)
        ensures
            final(self).spec_pending().len() <= final(self).spec_max(),
            final(self).spec_timeout() == old(self).spec_timeout(),
            final(self).spec_max() == old(self).spec_max(),
            ({
                let kept = old(self).spec_pending().filter(
                    |e: PendingEcho| !(elapsed_ms(now, e.sent_at) >= old(self).spec_timeout()));
                &&& kept.len() >= old(self).spec_max() ==> r is Err && final(self).spec_pending() == kept
                &&& kept.len() < old(self).spec_max() ==> r is Ok && (match echo_index(kept, echo.identifier, echo.sequence) {
                    Some(i) => final(self).spec_pending() == kept.update(i as int, echo),
                    None => final(self).spec_pending() == kept.push(echo),
                })
            }),
    {
        proof { use_type_invariant(&*self); }
        self.cleanup_timeouts(now);
        proof {
            old(self).spec_pending().lemma_filter_len(
                |e: PendingEcho| !(elapsed_ms(now, e.sent_at) >= old(self).spec_timeout()));
        }
        if self.pending.len() >= self.max_pending {
            return Err("Echo管理器已满".to_owned());
        }
        match self.find(echo.identifier, echo.sequence) {
            Some(i) => {
                let mut v: Vec<PendingEcho> = Vec::new();
                std::mem::swap(&mut v, &mut self.pending);
                v.set(i, echo);
                self.pending = v;
            },
            None => {
                let mut v: Vec<PendingEcho> = Vec::new();
                std::mem::swap(&mut v, &mut self.pending);
                v.push(echo);
                self.pending = v;
            },
        }
        Ok(())
    }

    /// Removes and returns the request with this key.
    pub fn remove_pending(&mut self, identifier: u16, sequence: u16) -> (r: Option<PendingEcho>)
        ensures
            final(self).spec_pending().len() <= final(self).spec_max(),
            final(self).spec_timeout() == old(self).spec_timeout(),
            final(self).spec_max() == old(self).spec_max(),
            echo_index(old(self).spec_pending(), identifier, sequence) matches Some(i) ==> r == Some(old(self).spec_pending()[i as int])
                && final(self).spec_pending() == old(self).spec_pending().remove(i as int),
            echo_index(old(self).spec_pending(), identifier, sequence) is None ==> r is None
                && final(self).spec_pending() == old(self).spec_pending(),
    {
        proof { use_type_invariant(&*self); }
        match self.find(identifier, sequence) {
            Some(i) => {
                let mut v: Vec<PendingEcho> = Vec::new();
                std::mem::swap(&mut v, &mut self.pending);
                let e = v.remove(i);
                self.pending = v;
                Some(e)
            },
            None => None,
        }
    }

    /// The request with this key.
    pub fn get_pending(&self, identifier: u16, sequence: u16) -> (r: Option<&PendingEcho>)
        ensures
            echo_index(self.spec_pending(), identifier, sequence) matches Some(i) ==> r == Some(&self.spec_pending()[i as int]),
            echo_index(self.spec_pending(), identifier, sequence) is None ==> r is None,
    {
        match self.find(identifier, sequence) {
            Some(i) => Some(&self.pending[i]),
            None => None,
        }
    }

    /// Drops every request older than the timeout.
    pub fn cleanup_timeouts(&mut self, now: u64)
        ensures
            final(self).spec_pending().len() <= final(self).spec_max(),
            final(self).spec_timeout() == old(self).spec_timeout(),
            final(self).spec_max() == old(self).spec_max(),
            final(self).spec_pending() == old(self).spec_pending().filter(
                |e: PendingEcho| !(elapsed_ms(now, e.sent_at) >= old(self).spec_timeout())),
    {
        proof { use_type_invariant(&*self); }
        let ghost orig = self.pending@;
        let ghost t = self.default_timeout;
        proof { orig.lemma_filter_len(|e: PendingEcho| !(elapsed_ms(now, e.sent_at) >= t)); }
        let ghost keep = |e: PendingEcho| !(elapsed_ms(now, e.sent_at) >= t);
        let mut kept: Vec<PendingEcho> = Vec::new();
        let mut i: usize = 0;
        while i < self.pending.len()
            invariant
                i <= orig.len(),
                self.pending@ == orig,
                t == self.default_timeout,
                keep == (|e: PendingEcho| !(elapsed_ms(now, e.sent_at) >= t)),
                kept@ == orig.take(i as int).filter(keep),
            decreases orig.len() - i,
        {
            reveal_with_fuel(Seq::<_>::filter, 1);
            assert(orig.take(i + 1).drop_last() =~= orig.take(i as int));
            let e = self.pending[i];
            if !e.is_timeout(self.default_timeout, now) {
                kept.push(e);
            }
            i = i + 1;
        }
        assert(orig.take(orig.len() as int) =~= orig);
        self.pending = kept;
    }

    pub fn pending_count(&self) -> (r: usize)
        ensures
            r == self.spec_pending().len(),
    {
        self.pending.len()
    }

    pub fn clear(&mut self)
        ensures
            final(self).spec_pending().len() == 0,
            final(self).spec_pending().len() <= final(self).spec_max(),
            final(self).spec_timeout() == old(self).spec_timeout(),
            final(self).spec_max() == old(self).spec_max(),
    {
        self.pending = Vec::new();
    }
}

impl Default for EchoManager {
    fn default() -> (r: Self)
        ensures
            r.spec_pending().len() == 0,
            r.spec_timeout() == 1000,
            r.spec_max() == 100,
    {
        Self::new(1000, 100)
    }
}

/// No two pending requests share an identifier and sequence number.
pub open spec fn echo_keys_unique(s: Seq<PendingEcho>) -> bool {
    forall|i: int, j: int| 0 <= i < j < s.len() ==> !echo_key_is(#[trigger] s[i], (#[trigger] s[j]).identifier, s[j].sequence)
}

/// A registered request is found under its identifier and sequence number.
pub proof fn lemma_echo_add_then_get(s: Seq<PendingEcho>, p: PendingEcho)
    ensures
        echo_index(after_add(s, p), p.identifier, p.sequence) matches Some(i) && after_add(s, p)[i as int] == p,
{
    let t = after_add(s, p);
    lemma_echo_index(s, p.identifier, p.sequence);
    lemma_echo_index(t, p.identifier, p.sequence);
    match echo_index(s, p.identifier, p.sequence) {
        Some(i) => {
            assert forall|j: int| 0 <= j < i implies !echo_key_is(#[trigger] t[j], p.identifier, p.sequence) by {
                assert(t[j] == s[j]);
            }
            lemma_echo_index_at(t, p.identifier, p.sequence, i as int);
        },
        None => {
            assert forall|j: int| 0 <= j < s.len() implies !echo_key_is(#[trigger] t[j], p.identifier, p.sequence) by {
                assert(t[j] == s[j]);
            }
            lemma_echo_index_at(t, p.identifier, p.sequence, s.len() as int);
        },
    }
}

proof fn lemma_echo_index_at(s: Seq<PendingEcho>, identifier: u16, sequence: u16, i: int)
    requires
        0 <= i < s.len(),
        echo_key_is(s[i], identifier, sequence),
        forall|j: int| 0 <= j < i ==> !echo_key_is(#[trigger] s[j], identifier, sequence),
    ensures
        echo_index(s, identifier, sequence) == Some(i as nat),
{
    lemma_echo_index(s, identifier, sequence);
    match echo_index(s, identifier, sequence) {
        Some(m) => {
            if (m as int) < i {
                assert(!echo_key_is(s[m as int], identifier, sequence));
            }
            if (m as int) > i {
                assert(echo_key_is(s[i], identifier, sequence));
            }
        },
        None => {
            assert(!echo_key_is(s[i], identifier, sequence));
        },
    }
}

/// Once a request is removed from requests with distinct keys, it is no
/// longer found.
pub proof fn lemma_echo_remove_then_get(s: Seq<PendingEcho>, identifier: u16, sequence: u16)
    requires
        echo_keys_unique(s),
    ensures
        echo_index(after_remove(s, identifier, sequence), identifier, sequence) is None,
{
    let t = after_remove(s, identifier, sequence);
    lemma_echo_index(s, identifier, sequence);
    lemma_echo_index(t, identifier, sequence);
    if let Some(i) = echo_index(s, identifier, sequence) {
        if let Some(k) = echo_index(t, identifier, sequence) {
            let k2: int = if (k as int) < (i as int) { k as int } else { k as int + 1 };
            assert(t[k as int] == s[k2]);
            if k2 < i {
                assert(!echo_key_is(s[k2], identifier, sequence));
            } else {
                assert(echo_key_is(s[i as int], identifier, sequence));
                assert(!echo_key_is(s[i as int], s[k2].identifier, s[k2].sequence));
            }
        }
    }
}

} // verus!
