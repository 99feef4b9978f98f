use vstd::prelude::*;
use crate::common::addr::IpAddr;
use crate::common::keyed::{
    ByteKey, KeyedVec, after_insert, after_remove, key_index, keys_unique, lemma_key_index, lookup,
};
use super::message::IpPrefix;

verus! {

impl ByteKey for IpPrefix {
    /// The address bytes followed by the prefix length.
    open spec fn key_bytes(&self) -> Seq<u8> {
        self.prefix.octets_of().push(self.prefix_len)
    }

    fn same_key(&self, other: &Self) -> (r: bool) {
        let same_addr = self.prefix.equals(&other.prefix);
        let r = same_addr && self.prefix_len == other.prefix_len;
        proof {
            let x = self.key_bytes();
            let y = other.key_bytes();
            let a = self.prefix.octets_of();
            let b = other.prefix.octets_of();
            if same_addr && self.prefix_len == other.prefix_len {
                assert(x =~= y);
            }
            if x == y {
                assert(x.len() == a.len() + 1 && y.len() == b.len() + 1);
                assert(x[x.len() - 1] == self.prefix_len && y[y.len() - 1] == other.prefix_len);
                assert(x.drop_last() =~= a);
                assert(y.drop_last() =~= b);
                match (self.prefix, other.prefix) {
                    (IpAddr::V4(p), IpAddr::V6(q)) => { assert(p.bytes@.len() != q.bytes@.len()); },
                    (IpAddr::V6(p), IpAddr::V4(q)) => { assert(p.bytes@.len() != q.bytes@.len()); },
                    _ => {},
                }
            }
        }
        r
    }
}

/// A route with its values.
pub struct RouteView {
    pub prefix: IpPrefix,
    pub next_hop: IpAddr,
    pub local_pref: Option<u32>,
    pub med: u32,
    pub as_path: Seq<u32>,
    pub origin: u8,
    pub peer: IpAddr,
    pub valid: bool,
    pub age: u32,
}

/// A route learned from a peer.
#[derive(Debug, Clone)]
pub struct BgpRoute {
    pub prefix: IpPrefix,
    pub next_hop: IpAddr,
    /// Local preference (IBGP only).
    pub local_pref: Option<u32>,
    /// Multi-exit discriminator.
    pub med: u32,
    pub as_path: Vec<u32>,
    /// 0 IGP, 1 EGP, 2 INCOMPLETE.
    pub origin: u8,
    /// The peer the route came from.
    pub peer: IpAddr,
    pub valid: bool,
    /// Age in seconds.
    pub age: u32,
}

impl View for BgpRoute {
    type V = RouteView;

    open spec fn view(&self) -> RouteView {
        RouteView {
            prefix: self.prefix,
            next_hop: self.next_hop,
            local_pref: self.local_pref,
            med: self.med,
            as_path: self.as_path@,
            origin: self.origin,
            peer: self.peer,
            valid: self.valid,
            age: self.age,
        }
    }
}

fn copy_u32s(v: &Vec<u32>) -> (r: Vec<u32>)
    ensures
        r@ == v@,
{
    let mut r: Vec<u32> = Vec::new();
    let mut i: usize = 0;
    while i < v.len()
        invariant
            i <= v@.len(),
            r@ == v@.subrange(0, i as int),
        decreases v@.len() - i,
    {
        r.push(v[i]);
        i = i + 1;
        assert(r@ =~= v@.subrange(0, i as int));
    }
    assert(v@.subrange(0, v@.len() as int) =~= v@);
    r
}

/// The preference of a route: local preference (100 when absent) times a
/// million, less the AS path length times a thousand, less the MED; larger
/// is preferred.
pub open spec fn route_preference(r: RouteView) -> int {
    let lp: int = match r.local_pref {
        Some(v) => v as int,
        None => 100,
    };
    lp * 1_000_000 - r.as_path.len() * 1_000 - r.med
}

/// How preference ranks routes: each AS hop costs 1000 whether or not a
/// local preference is set, each unit of MED costs 1, each unit of local
/// preference is worth a million, and an absent local preference counts as
/// 100. A route with no local preference, an empty AS path and MED 0 is
/// worth 100 000 000.
pub proof fn lemma_preference_ranking(r1: RouteView, r2: RouteView)
    ensures
        r1.local_pref == r2.local_pref && r1.med == r2.med ==> route_preference(r1) - route_preference(r2)
            == (r2.as_path.len() - r1.as_path.len()) * 1000,
        r1.local_pref == r2.local_pref && r1.as_path.len() == r2.as_path.len() ==> route_preference(r1)
            - route_preference(r2) == r2.med - r1.med,
        r1.as_path.len() == r2.as_path.len() && r1.med == r2.med && r1.local_pref is Some && r2.local_pref is Some
            ==> route_preference(r1) - route_preference(r2) == (r1.local_pref->0 - r2.local_pref->0) * 1_000_000,
        r1.as_path.len() == r2.as_path.len() && r1.med == r2.med && r1.local_pref is None
            && r2.local_pref == Some(100u32) ==> route_preference(r1) == route_preference(r2),
        r1.local_pref is None && r1.as_path.len() == 0 && r1.med == 0 ==> route_preference(r1) == 100_000_000,
{
}

impl BgpRoute {
    /// A route for `prefix` via `next_hop` from `peer`: no local
    /// preference, MED 0, empty AS path, origin IGP, valid, age 0.
    pub fn new(prefix: IpPrefix, next_hop: IpAddr, peer: IpAddr) -> (r: Self)
        ensures
            r@ == (RouteView {
                prefix,
                next_hop,
                local_pref: None,
                med: 0,
                as_path: Seq::empty(),
                origin: 0,
                peer,
                valid: true,
                age: 0,
            }),
    {
        BgpRoute { prefix, next_hop, local_pref: None, med: 0, as_path: Vec::new(), origin: 0, peer, valid: true, age: 0 }
    }

    /// A copy of the route.
    pub fn duplicate(&self) -> (r: Self)
        ensures
            r@ == self@,
    {
        BgpRoute {
            prefix: self.prefix,
            next_hop: self.next_hop,
            local_pref: self.local_pref,
            med: self.med,
            as_path: copy_u32s(&self.as_path),
            origin: self.origin,
            peer: self.peer,
            valid: self.valid,
            age: self.age,
        }
    }

    /// The length of the AS path.
    pub fn as_path_length(&self) -> (r: usize)
        ensures
            r == self.as_path@.len(),
    {
        self.as_path.len()
    }

    /// The route's preference (larger is preferred); defined where it fits
    /// in 32 bits without going below zero.
    pub fn preference(&self) -> (r: u32)
        requires
            0 <= route_preference(self@),
            match self.local_pref {
                Some(v) => v * 1_000_000 <= u32::MAX,
                None => true,
            },
            self.as_path@.len() * 1_000 <= u32::MAX,
        ensures
            r == route_preference(self@),
    {
        let local_pref: u32 = match self.local_pref {
            Some(v) => v,
            None => 100,
        };
        let as_path_len = self.as_path_length() as u32;
        local_pref * 1_000_000 - as_path_len * 1_000 - self.med
    }
}

/// The mask of the top `bits` bits of a byte (for 1 to 7 bits).
pub open spec fn byte_mask(bits: u8) -> u8 {
    0xFFu8 << ((8 - bits) as u8)
}

/// Whether `addr` lies in the prefix `prefix/len` (IPv4 bytes): the whole
/// bytes the length covers are equal, and so are the covered top bits of
/// the next byte.
pub open spec fn prefix_bits_match(addr: Seq<u8>, prefix: Seq<u8>, len: u8) -> bool {
    &&& forall|i: int| 0 <= i < len / 8 && i < 4 ==> addr[i] == prefix[i]
    &&& (len % 8 != 0 && len / 8 < 4) ==> (addr[(len / 8) as int] & byte_mask(len % 8)) == (prefix[(len / 8) as int]
        & byte_mask(len % 8))
}

/// Whether an IPv4 route covers an IPv4 address.
pub open spec fn route_matches(r: BgpRoute, addr: IpAddr) -> bool {
    &&& r.prefix.prefix is V4
    &&& addr is V4
    &&& prefix_bits_match(addr.octets_of(), r.prefix.prefix.octets_of(), r.prefix.prefix_len)
}

/// Whether matching `addr` against the route stays within the route's four
/// address bytes: a length of 40 or more is only looked at when the
/// addresses differ.
pub open spec fn route_match_defined(r: BgpRoute, addr: IpAddr) -> bool {
    r.prefix.prefix is V4 && addr is V4 && r.prefix.prefix_len / 8 >= 5 ==> r.prefix.prefix.octets_of()
        != addr.octets_of()
}

fn matches_prefix(addr: &[u8; 4], prefix_addr: &[u8; 4], prefix_len: u8) -> (r: bool)
    requires
        prefix_len / 8 >= 5 ==> addr@ != prefix_addr@,
    ensures
        r == prefix_bits_match(addr@, prefix_addr@, prefix_len),
{
    let full_bytes = (prefix_len / 8) as usize;
    let partial_bits = prefix_len % 8;
    let mut i: usize = 0;
    while i < full_bytes
        invariant
            i <= full_bytes,
            full_bytes == prefix_len / 8,
            prefix_len / 8 >= 5 ==> addr@ != prefix_addr@,
            forall|k: int| 0 <= k < i && k < 4 ==> addr@[k] == prefix_addr@[k],
            i <= 4,
        decreases full_bytes - i,
    {
        if i == 4 {
            assert(addr@ =~= prefix_addr@);
        }
        if addr[i] != prefix_addr[i] {
            return false;
        }
        i = i + 1;
    }
    if partial_bits > 0 && full_bytes < 4 {
        let mask: u8 = 0xFFu8 << (8 - partial_bits);
        if (addr[full_bytes] & mask) != (prefix_addr[full_bytes] & mask) {
            return false;
        }
    }
    true
}

/// The routing information base: at most one route per prefix.
#[derive(Debug)]
pub struct BgpRib {
    routes: KeyedVec<IpPrefix, BgpRoute>,
}

impl BgpRib {
    /// The routes, each under the bytes of its prefix, in the order their
    /// prefixes were first added.
    pub closed spec fn entries(&self) -> Seq<(Seq<u8>, BgpRoute)> {
        self.routes.entries()
    }

    /// One route per prefix, each stored under its own prefix.
    pub closed spec fn wf(&self) -> bool {
        &&& self.routes.wf()
        &&& forall|j: int| 0 <= j < self.routes.entries().len() ==> (#[trigger] self.routes.entries()[j]).0
            == self.routes.entries()[j].1.prefix.key_bytes()
    }

    /// A well-formed RIB holds one entry per prefix.
    pub proof fn lemma_wf_unique(&self)
        requires
            self.wf(),
        ensures
            keys_unique(self.entries()),
    {
        self.routes.lemma_unique();
    }

    /// An empty RIB.
    pub fn new() -> (r: Self)
        ensures
            r.wf(),
            r.entries().len() == 0,
    {
        BgpRib { routes: KeyedVec::new() }
    }

    /// Adds `route`, replacing the route for the same prefix.
    pub fn add_or_update(&mut self, route: BgpRoute)
        requires
            old(self).wf(),
        ensures
            final(self).wf(),
            final(self).entries() == after_insert(old(self).entries(), route.prefix.key_bytes(), route),
    {
        let prefix = route.prefix;
        let ghost s = self.routes.entries();
        let ghost k = prefix.key_bytes();
        proof { lemma_key_index(s, k); }
        self.routes.insert(prefix, route);
        proof {
            let t = self.routes.entries();
            assert forall|j: int| 0 <= j < t.len() implies (#[trigger] t[j]).0 == t[j].1.prefix.key_bytes() by {
                match key_index(s, k) {
                    Some(i) => { if j != i { assert(t[j] == s[j]); } },
                    None => { if j < s.len() { assert(t[j] == s[j]); } },
                }
            }
        }
    }

    /// Removes and returns the route for `prefix`.
    pub fn remove(&mut self, prefix: &IpPrefix) -> (r: Option<BgpRoute>)
        requires
            old(self).wf(),
        ensures
            final(self).wf(),
            final(self).entries() == after_remove(old(self).entries(), prefix.key_bytes()),
            r == lookup(old(self).entries(), prefix.key_bytes()),
    {
        let ghost s = self.routes.entries();
        let ghost k = prefix.key_bytes();
        proof { lemma_key_index(s, k); }
        let r = self.routes.remove(prefix);
        proof {
            let t = self.routes.entries();
            assert forall|j: int| 0 <= j < t.len() implies (#[trigger] t[j]).0 == t[j].1.prefix.key_bytes() by {
                match key_index(s, k) {
                    Some(i) => { if j < i { assert(t[j] == s[j]); } else { assert(t[j] == s[j + 1]); } },
                    None => { assert(t[j] == s[j]); },
                }
            }
        }
        r
    }

    /// The route for `prefix`.
    pub fn find(&self, prefix: &IpPrefix) -> (r: Option<&BgpRoute>)
        requires
            self.wf(),
        ensures
            match key_index(self.entries(), prefix.key_bytes()) {
                Some(i) => r == Some(&self.entries()[i as int].1),
                None => r is None,
            },
    {
        self.routes.get(prefix)
    }

    /// Longest-prefix match of an IPv4 address: the IPv4 route of greatest
    /// length that covers `addr` (a default route of length 0 covers every
    /// address), the first such when several tie.
    pub fn lookup(&self, addr: &IpAddr) -> (r: Option<&BgpRoute>)
        requires
            self.wf(),
            forall|j: int| 0 <= j < self.entries().len() ==> route_match_defined(
                #[trigger] self.entries()[j].1,
                *addr,
            ),
        ensures
            ({
                let e = self.entries();
                &&& r is None <==> forall|j: int| 0 <= j < e.len() ==> !route_matches(#[trigger] e[j].1, *addr)
                &&& r is Some ==> exists|i: int| {
                    &&& 0 <= i < e.len()
                    &&& r == Some(&e[i].1)
                    &&& route_matches(e[i].1, *addr)
                    &&& forall|j: int| 0 <= j < e.len() && route_matches(#[trigger] e[j].1, *addr)
                        ==> e[j].1.prefix.prefix_len <= e[i].1.prefix.prefix_len
                    &&& forall|j: int| 0 <= j < i && route_matches(#[trigger] e[j].1, *addr)
                        ==> e[j].1.prefix.prefix_len < e[i].1.prefix.prefix_len
                }
            }),
    {
        let ghost e = self.entries();
        let values = self.routes.values();
        let mut best: Option<usize> = None;
        let mut best_len: u8 = 0;
        let mut i: usize = 0;
        while i < values.len()
            invariant
                values@ == e.map_values(|p: (Seq<u8>, BgpRoute)| p.1),
                i <= values@.len(),
                forall|j: int| 0 <= j < e.len() ==> route_match_defined(#[trigger] e[j].1, *addr),
                best is None ==> forall|j: int| 0 <= j < i ==> !route_matches(#[trigger] e[j].1, *addr),
                best is Some ==> forall|j: int| 0 <= j < i && route_matches(#[trigger] e[j].1, *addr)
                    ==> e[j].1.prefix.prefix_len <= best_len,
                best matches Some(b) ==> {
                    &&& b < i
                    &&& route_matches(e[b as int].1, *addr)
                    &&& e[b as int].1.prefix.prefix_len == best_len
                    &&& forall|j: int| 0 <= j < b && route_matches(#[trigger] e[j].1, *addr)
                        ==> e[j].1.prefix.prefix_len < best_len
                },
            decreases values@.len() - i,
        {
            let route = &values[i];
            assert(*route == e[i as int].1);
            match (&route.prefix.prefix, addr) {
                (IpAddr::V4(route_addr), IpAddr::V4(query_addr)) => {
                    assert(route_match_defined(e[i as int].1, *addr));
                    let m = matches_prefix(&query_addr.bytes, &route_addr.bytes, route.prefix.prefix_len);
                    if m && (best.is_none() || route.prefix.prefix_len > best_len) {
                        best = Some(i);
                        best_len = route.prefix.prefix_len;
                    }
                },
                _ => {},
            }
            i = i + 1;
        }
        match best {
            Some(b) => Some(&values[b]),
            None => None,
        }
    }

    /// Copies of all routes, in order.
    pub fn routes(&self) -> (r: Vec<BgpRoute>)
        requires
            self.wf(),
        ensures
            r@.len() == self.entries().len(),
            forall|j: int| 0 <= j < r@.len() ==> (#[trigger] r@[j])@ == self.entries()[j].1@,
    {
        let values = self.routes.values();
        let mut out: Vec<BgpRoute> = Vec::new();
        let mut i: usize = 0;
        while i < values.len()
            invariant
                values@ == self.entries().map_values(|p: (Seq<u8>, BgpRoute)| p.1),
                i <= values@.len(),
                out@.len() == i,
                forall|j: int| 0 <= j < i ==> (#[trigger] out@[j])@ == self.entries()[j].1@,
            decreases values@.len() - i,
        {
            out.push(values[i].duplicate());
            i = i + 1;
        }
        out
    }

    /// The number of routes.
    pub fn len(&self) -> (r: usize)
        requires
            self.wf(),
        ensures
            r == self.entries().len(),
    {
        self.routes.len()
    }

    /// Whether there are no routes.
    pub fn is_empty(&self) -> (r: bool)
        requires
            self.wf(),
        ensures
            r == (self.entries().len() == 0),
    {
        self.routes.len() == 0
    }

    /// Removes every route.
    pub fn clear(&mut self)
        ensures
            final(self).wf(),
            final(self).entries().len() == 0,
    {
        self.routes = KeyedVec::new();
    }
}

impl Default for BgpRib {
    /// An empty RIB.
    fn default() -> (r: Self)
        ensures
            r.wf(),
            r.entries().len() == 0,
    {
        BgpRib::new()
    }
}

/// After adding a route, finding its prefix gives that route.
pub proof fn lemma_rib_add_then_find(e: Seq<(Seq<u8>, BgpRoute)>, route: BgpRoute)
    ensures
        lookup(after_insert(e, route.prefix.key_bytes(), route), route.prefix.key_bytes()) == Some(route),
{
    crate::common::keyed::lemma_insert_then_lookup(e, route.prefix.key_bytes(), route);
}

/// After removing a prefix from a RIB with one route per prefix, finding it
/// gives nothing.
pub proof fn lemma_rib_remove_then_find(e: Seq<(Seq<u8>, BgpRoute)>, prefix: IpPrefix)
    requires
        keys_unique(e),
    ensures
        lookup(after_remove(e, prefix.key_bytes()), prefix.key_bytes()) is None,
{
    crate::common::keyed::lemma_remove_then_lookup(e, prefix.key_bytes());
}

} // verus!
