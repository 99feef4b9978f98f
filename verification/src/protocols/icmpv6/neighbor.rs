use vstd::prelude::*;
use crate::common::addr::Ipv6Addr;
use crate::protocols::common::addr::MacAddr;

verus! {

/// Position of the first entry whose address has the bytes `key`.
pub open spec fn neighbor_index(s: Seq<(Ipv6Addr, MacAddr)>, key: Seq<u8>) -> Option<nat>
    decreases s.len(),
{
    if s.len() == 0 {
        None
    } else if s[0].0.bytes@ == key {
        Some(0)
    } else {
        match neighbor_index(s.drop_first(), key) {
            Some(i) => Some(i + 1),
            None => None,
        }
    }
}

/// The hardware address recorded for `key` in `s`.
pub open spec fn neighbor_lookup(s: Seq<(Ipv6Addr, MacAddr)>, key: Seq<u8>) -> Option<MacAddr> {
    match neighbor_index(s, key) {
        Some(i) => Some(s[i as int].1),
        None => None,
    }
}

/// No two entries of `s` have the same address.
pub open spec fn neighbor_keys_unique(s: Seq<(Ipv6Addr, MacAddr)>) -> bool {
    forall|i: int, j: int| 0 <= i < j < s.len() ==> #[trigger] s[i].0.bytes@ != #[trigger] s[j].0.bytes@
}

/// The entries after `update(addr, mac)` on a cache holding `s` with room for `max` entries.
pub open spec fn neighbor_after_update(s: Seq<(Ipv6Addr, MacAddr)>, max: nat, addr: Ipv6Addr, mac: MacAddr) -> Seq<(Ipv6Addr, MacAddr)> {
    match neighbor_index(s, addr.bytes@) {
        Some(i) => s.update(i as int, (addr, mac)),
        None => if s.len() >= max && s.len() > 0 {
            s.drop_first().push((addr, mac))
        } else {
            s.push((addr, mac))
        },
    }
}

/// The entries after `remove(addr)`.
pub open spec fn neighbor_after_remove(s: Seq<(Ipv6Addr, MacAddr)>, key: Seq<u8>) -> Seq<(Ipv6Addr, MacAddr)> {
    match neighbor_index(s, key) {
        Some(i) => s.remove(i as int),
        None => s,
    }
}

proof fn lemma_neighbor_index(s: Seq<(Ipv6Addr, MacAddr)>, key: Seq<u8>)
    ensures
        neighbor_index(s, key) matches Some(i) ==> i < s.len() && s[i as int].0.bytes@ == key
            && forall|j: int| 0 <= j < i ==> (#[trigger] s[j]).0.bytes@ != key,
        neighbor_index(s, key) is None ==> forall|j: int| 0 <= j < s.len() ==> (#[trigger] s[j]).0.bytes@ != key,
    decreases s.len(),
{
    if s.len() > 0 && s[0].0.bytes@ != key {
        lemma_neighbor_index(s.drop_first(), key);
        assert forall|j: int| 0 < j < s.len() implies #[trigger] s[j] == s.drop_first()[j - 1] by {}
    }
}

/// The first index at which `key` occurs is determined by where it occurs.
proof fn lemma_neighbor_index_at(s: Seq<(Ipv6Addr, MacAddr)>, key: Seq<u8>, i: int)
    requires
        0 <= i < s.len(),
        s[i].0.bytes@ == key,
        forall|j: int| 0 <= j < i ==> (#[trigger] s[j]).0.bytes@ != key,
    ensures
        neighbor_index(s, key) == Some(i as nat),
{
    lemma_neighbor_index(s, key);
    match neighbor_index(s, key) {
        Some(k) => {
            if (k as int) < i {
                assert(s[k as int].0.bytes@ != key);
            }
            if (k as int) > i {
                assert(s[i].0.bytes@ != key);
            }
        },
        None => {
            assert(s[i].0.bytes@ != key);
        },
    }
}

proof fn lemma_neighbor_absent(s: Seq<(Ipv6Addr, MacAddr)>, key: Seq<u8>)
    requires
        forall|j: int| 0 <= j < s.len() ==> (#[trigger] s[j]).0.bytes@ != key,
    ensures
        neighbor_index(s, key) is None,
{
    lemma_neighbor_index(s, key);
    if let Some(k) = neighbor_index(s, key) {
        assert(s[k as int].0.bytes@ != key);
    }
}

/// Neighbor cache: the hardware address of each IPv6 neighbor.
pub struct NeighborCache {
    entries: Vec<(Ipv6Addr, MacAddr)>,
    max_entries: usize,
}

impl NeighborCache {
    /// The entries, oldest first.
    pub closed spec fn spec_entries(&self) -> Seq<(Ipv6Addr, MacAddr)> {
        self.entries@
    }

    /// How many entries the cache keeps before it evicts one.
    pub closed spec fn spec_max_entries(&self) -> nat {
        self.max_entries as nat
    }

    /// Well-formedness: one entry per address, and no more entries than
    /// the limit (one when the limit is zero, since an update always
    /// records its address).
    pub open spec fn wf(&self) -> bool {
        &&& neighbor_keys_unique(self.spec_entries())
        &&& self.spec_entries().len() <= (if self.spec_max_entries() == 0 { 1 } else { self.spec_max_entries() })
    }

    /// An empty cache with room for `max_entries` entries.
    pub fn new(max_entries: usize) -> (r: Self)
        ensures
            r.wf(),
            r.spec_entries().len() == 0,
            r.spec_max_entries() == max_entries,
    {
        NeighborCache { entries: Vec::new(), max_entries }
    }

    fn find(&self, addr: &Ipv6Addr) -> (r: Option<usize>)
        ensures
            r matches Some(i) ==> neighbor_index(self.entries@, addr.bytes@) == Some(i as nat)
                && i < self.entries@.len(),
            r is None ==> neighbor_index(self.entries@, addr.bytes@) is None,
    {
        let mut i: usize = 0;
        while i < self.entries.len()
            invariant
                i <= self.entries@.len(),
                forall|j: int| 0 <= j < i ==> (#[trigger] self.entries@[j]).0.bytes@ != addr.bytes@,
            decreases self.entries@.len() - i,
        {
            if self.entries[i].0.equals(addr) {
                proof { lemma_neighbor_index_at(self.entries@, addr.bytes@, i as int); }
                return Some(i);
            }
            i = i + 1;
        }
        proof { lemma_neighbor_absent(self.entries@, addr.bytes@); }
        None
    }

    /// The hardware address recorded for `addr`.
    pub fn lookup(&self, addr: &Ipv6Addr) -> (r: Option<MacAddr>)
        ensures
            r == neighbor_lookup(self.spec_entries(), addr.bytes@),
    {
        match self.find(addr) {
            Some(i) => Some(self.entries[i].1),
            None => None,
        }
    }

    /// Records `mac` for `addr`, replacing an existing entry; when the cache is
    /// full and `addr` is new, the oldest entry is evicted first.
    pub fn update(&mut self, addr: Ipv6Addr, mac: MacAddr)
        requires
            old(self).wf(),
        ensures
            final(self).wf(),
            final(self).spec_max_entries() == old(self).spec_max_entries(),
            final(self).spec_entries() == neighbor_after_update(
                old(self).spec_entries(), old(self).spec_max_entries(), addr, mac),
            0 < final(self).spec_max_entries() ==> final(self).spec_entries().len() <= final(self).spec_max_entries(),
    {
        let ghost s = self.entries@;
        proof { lemma_neighbor_index(s, addr.bytes@); }
        match self.find(&addr) {
            Some(i) => {
                self.entries.set(i, (addr, mac));
                assert(neighbor_keys_unique(self.entries@)) by {
                    assert forall|a: int, b: int| 0 <= a < b < self.entries@.len()
                        implies #[trigger] self.entries@[a].0.bytes@ != #[trigger] self.entries@[b].0.bytes@ by {
                        if a != i && b != i {
                            assert(s[a].0.bytes@ != s[b].0.bytes@);
                        } else if a == i {
                            assert(s[a].0.bytes@ != s[b].0.bytes@);
                        } else {
                            assert(s[a].0.bytes@ != s[b].0.bytes@);
                        }
                    }
                }
            },
            None => {
                if self.entries.len() >= self.max_entries && self.entries.len() > 0 {
                    self.entries.remove(0);
                    assert(self.entries@ =~= s.drop_first());
                }
                let ghost t = self.entries@;
                self.entries.push((addr, mac));
                assert(neighbor_keys_unique(self.entries@)) by {
                    assert forall|a: int, b: int| 0 <= a < b < self.entries@.len()
                        implies #[trigger] self.entries@[a].0.bytes@ != #[trigger] self.entries@[b].0.bytes@ by {
                        if b < t.len() {
                            if t =~= s.drop_first() && t.len() + 1 == s.len() {
                                assert(s[a + 1].0.bytes@ != s[b + 1].0.bytes@);
                            } else {
                                assert(s[a].0.bytes@ != s[b].0.bytes@);
                            }
                        } else {
                            if t.len() < s.len() {
                                assert(t[a] == s[a + 1]);
                                assert(s[a + 1].0.bytes@ != addr.bytes@);
                            } else {
                                assert(s[a].0.bytes@ != addr.bytes@);
                            }
                        }
                    }
                }
            },
        }
    }

    /// Removes the entry for `addr`, if there is one.
    pub fn remove(&mut self, addr: &Ipv6Addr)
        requires
            old(self).wf(),
        ensures
            final(self).wf(),
            final(self).spec_max_entries() == old(self).spec_max_entries(),
            final(self).spec_entries() == neighbor_after_remove(old(self).spec_entries(), addr.bytes@),
            final(self).spec_entries().len() <= old(self).spec_entries().len(),
    {
        let ghost s = self.entries@;
        match self.find(addr) {
            Some(i) => {
                self.entries.remove(i);
                assert(neighbor_keys_unique(self.entries@)) by {
                    assert forall|a: int, b: int| 0 <= a < b < self.entries@.len()
                        implies #[trigger] self.entries@[a].0.bytes@ != #[trigger] self.entries@[b].0.bytes@ by {
                        let a2 = if a < i { a } else { a + 1 };
                        let b2 = if b < i { b } else { b + 1 };
                        assert(self.entries@[a] == s[a2]);
                        assert(self.entries@[b] == s[b2]);
                        assert(s[a2].0.bytes@ != s[b2].0.bytes@);
                    }
                }
            },
            None => {},
        }
    }

    /// Removes every entry.
    pub fn clear(&mut self)
        ensures
            final(self).wf(),
            final(self).spec_entries().len() == 0,
            final(self).spec_max_entries() == old(self).spec_max_entries(),
    {
        self.entries.clear();
    }

    /// Number of entries.
    pub fn len(&self) -> (r: usize)
        ensures
            r == self.spec_entries().len(),
    {
        self.entries.len()
    }

    /// Whether the cache holds no entry.
    pub fn is_empty(&self) -> (r: bool)
        ensures
            r == (self.spec_entries().len() == 0),
    {
        self.entries.len() == 0
    }
}

impl Default for NeighborCache {
    fn default() -> (r: Self)
        ensures
            r.wf(),
            r.spec_entries().len() == 0,
            r.spec_max_entries() == 128,
    {
        Self::new(128)
    }
}

/// After `update(addr, mac)`, looking `addr` up gives `mac`.
pub proof fn lemma_neighbor_update_then_lookup(s: Seq<(Ipv6Addr, MacAddr)>, max: nat, addr: Ipv6Addr, mac: MacAddr)
    ensures
        neighbor_lookup(neighbor_after_update(s, max, addr, mac), addr.bytes@) == Some(mac),
{
    let key = addr.bytes@;
    lemma_neighbor_index(s, key);
    let t = neighbor_after_update(s, max, addr, mac);
    match neighbor_index(s, key) {
        Some(i) => {
            lemma_neighbor_index_at(t, key, i as int);
        },
        None => {
            if s.len() >= max && s.len() > 0 {
                assert forall|j: int| 0 <= j < t.len() - 1 implies (#[trigger] t[j]).0.bytes@ != key by {
                    assert(t[j] == s[j + 1]);
                }
            }
            lemma_neighbor_index_at(t, key, t.len() - 1);
        },
    }
}

/// After `remove(addr)` on a cache with one entry per address, `addr` is not found.
pub proof fn lemma_neighbor_remove_then_lookup(s: Seq<(Ipv6Addr, MacAddr)>, addr: Ipv6Addr)
    requires
        neighbor_keys_unique(s),
    ensures
        neighbor_lookup(neighbor_after_remove(s, addr.bytes@), addr.bytes@) is None,
{
    let key = addr.bytes@;
    lemma_neighbor_index(s, key);
    let t = neighbor_after_remove(s, key);
    match neighbor_index(s, key) {
        Some(i) => {
            assert forall|j: int| 0 <= j < t.len() implies (#[trigger] t[j]).0.bytes@ != key by {
                if j < i {
                    assert(t[j] == s[j]);
                } else {
                    assert(t[j] == s[j + 1]);
                    assert(s[i as int].0.bytes@ != s[j + 1].0.bytes@);
                }
            }
            lemma_neighbor_absent(t, key);
        },
        None => {},
    }
}

/// Updating one address leaves every other address's entry as it was, unless
/// the update evicted it to make room.
pub proof fn lemma_neighbor_update_keeps_others(s: Seq<(Ipv6Addr, MacAddr)>, max: nat, addr: Ipv6Addr, mac: MacAddr, other: Seq<u8>)
    requires
        other != addr.bytes@,
        neighbor_keys_unique(s),
        !(neighbor_index(s, addr.bytes@) is None && s.len() >= max && s.len() > 0 && s[0].0.bytes@ == other),
    ensures
        neighbor_lookup(neighbor_after_update(s, max, addr, mac), other) == neighbor_lookup(s, other),
{
    let key = addr.bytes@;
    lemma_neighbor_index(s, key);
    lemma_neighbor_index(s, other);
    let t = neighbor_after_update(s, max, addr, mac);
    lemma_neighbor_index(t, other);
    match neighbor_index(s, other) {
        Some(k) => {
            match neighbor_index(s, key) {
                Some(i) => {
                    assert forall|j: int| 0 <= j < k implies (#[trigger] t[j]).0.bytes@ != other by {
                        assert(s[j].0.bytes@ != other);
                    }
                    lemma_neighbor_index_at(t, other, k as int);
                },
                None => {
                    if s.len() >= max && s.len() > 0 {
                        assert(k > 0);
                        assert forall|j: int| 0 <= j < k - 1 implies (#[trigger] t[j]).0.bytes@ != other by {
                            assert(t[j] == s[j + 1]);
                        }
                        assert(t[k - 1] == s[k as int]);
                        lemma_neighbor_index_at(t, other, k - 1);
                    } else {
                        assert forall|j: int| 0 <= j < k implies (#[trigger] t[j]).0.bytes@ != other by {
                            assert(t[j] == s[j]);
                        }
                        lemma_neighbor_index_at(t, other, k as int);
                    }
                },
            }
        },
        None => {
            assert forall|j: int| 0 <= j < t.len() implies (#[trigger] t[j]).0.bytes@ != other by {
                match neighbor_index(s, key) {
                    Some(i) => {
                        if j != i { assert(t[j] == s[j]); }
                    },
                    None => {
                        if s.len() >= max && s.len() > 0 {
                            if j < t.len() - 1 { assert(t[j] == s[j + 1]); }
                        } else {
                            if j < t.len() - 1 { assert(t[j] == s[j]); }
                        }
                    },
                }
            }
            lemma_neighbor_absent(t, other);
        },
    }
}

} // verus!
