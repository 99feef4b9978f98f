use vstd::prelude::*;
use crate::protocols::common::addr::Ipv4Addr;
use crate::common::text::{hex_short, hex_short_text, join_text};

verus! {

/// The eight 16-bit groups of an address's sixteen bytes.
pub open spec fn v6_groups(b: Seq<u8>) -> Seq<u16> {
    Seq::new(8, |i: int| (b[2 * i] * 256 + b[2 * i + 1]) as u16)
}

/// The number of zero groups of `g` in a row from position `i`.
pub open spec fn zero_run(g: Seq<u16>, i: nat) -> nat
    decreases g.len() - i,
{
    if i < g.len() && g[i as int] == 0 {
        1 + zero_run(g, i + 1)
    } else {
        0
    }
}

/// Start and length of the longest run of zero groups starting before `n`,
/// the first one when several are longest (length 0 when there is none).
pub open spec fn longest_zero_run(g: Seq<u16>, n: nat) -> (nat, nat)
    decreases n,
{
    if n == 0 {
        (0, 0)
    } else {
        let (s, l) = longest_zero_run(g, (n - 1) as nat);
        if zero_run(g, (n - 1) as nat) > l {
            ((n - 1) as nat, zero_run(g, (n - 1) as nat))
        } else {
            (s, l)
        }
    }
}

/// The groups in hexadecimal without leading zeros, separated by colons.
pub open spec fn groups_text(g: Seq<u16>) -> Seq<char>
    decreases g.len(),
{
    if g.len() == 0 {
        Seq::empty()
    } else if g.len() == 1 {
        hex_short(g[0])
    } else {
        groups_text(g.drop_last()) + ":"@ + hex_short(g.last())
    }
}

/// The text form of an address (RFC 5952): the groups in lower-case
/// hexadecimal without leading zeros, the first longest run of two or more
/// zero groups written as `::`.
pub open spec fn ipv6_text(b: Seq<u8>) -> Seq<char> {
    let g = v6_groups(b);
    let (s, l) = longest_zero_run(g, 8);
    if l < 2 {
        groups_text(g)
    } else {
        groups_text(g.take(s as int)) + "::"@ + groups_text(g.skip((s + l) as int))
    }
}

proof fn lemma_zero_run_bound(g: Seq<u16>, i: nat)
    requires
        i <= g.len(),
    ensures
        i + zero_run(g, i) <= g.len(),
    decreases g.len() - i,
{
    if i < g.len() && g[i as int] == 0 {
        lemma_zero_run_bound(g, i + 1);
    }
}

fn zero_run_at(g: &Vec<u16>, i: usize) -> (r: usize)
    requires
        i <= g@.len(),
    ensures
        r == zero_run(g@, i as nat),
        i + r <= g@.len(),
{
    proof { lemma_zero_run_bound(g@, i as nat); }
    let mut j = i;
    while j < g.len() && g[j] == 0
        invariant
            i <= j <= g@.len(),
            zero_run(g@, i as nat) == (j - i) + zero_run(g@, j as nat),
        decreases g@.len() - j,
    {
        j = j + 1;
    }
    j - i
}

fn join_groups(g: &Vec<u16>, a: usize, b: usize) -> (r: String)
    requires
        a <= b <= g@.len(),
    ensures
        r@ == groups_text(g@.subrange(a as int, b as int)),
{
    if a == b {
        let r = String::new();
        assert(g@.subrange(a as int, b as int) =~= Seq::<u16>::empty());
        return r;
    }
    let mut r = hex_short_text(g[a]);
    assert(g@.subrange(a as int, a + 1) =~= seq![g@[a as int]]);
    let mut k = a + 1;
    while k < b
        invariant
            a < k <= b <= g@.len(),
            r@ == groups_text(g@.subrange(a as int, k as int)),
        decreases b - k,
    {
        let t = join_text(r.as_str(), ":");
        let h = hex_short_text(g[k]);
        r = join_text(t.as_str(), h.as_str());
        assert(g@.subrange(a as int, k + 1).drop_last() =~= g@.subrange(a as int, k as int));
        k = k + 1;
    }
    r
}

/// An IPv6 address, held as its sixteen bytes.
#[derive(Debug, Clone, Copy, PartialEq, Eq, Hash, PartialOrd, Ord)]
pub struct Ipv6Addr {
    pub bytes: [u8; 16],
}

impl Ipv6Addr {
    /// Creates an address from its eight 16-bit segments.
    pub fn new(a: u16, b: u16, c: u16, d: u16, e: u16, f: u16, g: u16, h: u16) -> (r: Self)
        ensures
            r.bytes@ == crate::common::bytes::u16_bytes(a) + crate::common::bytes::u16_bytes(b)
                + crate::common::bytes::u16_bytes(c) + crate::common::bytes::u16_bytes(d)
                + crate::common::bytes::u16_bytes(e) + crate::common::bytes::u16_bytes(f)
                + crate::common::bytes::u16_bytes(g) + crate::common::bytes::u16_bytes(h),
    {
        let r = Ipv6Addr {
            bytes: [
                (a / 256) as u8, (a % 256) as u8, (b / 256) as u8, (b % 256) as u8,
                (c / 256) as u8, (c % 256) as u8, (d / 256) as u8, (d % 256) as u8,
                (e / 256) as u8, (e % 256) as u8, (f / 256) as u8, (f % 256) as u8,
                (g / 256) as u8, (g % 256) as u8, (h / 256) as u8, (h % 256) as u8,
            ],
        };
        assert(r.bytes@ =~= crate::common::bytes::u16_bytes(a) + crate::common::bytes::u16_bytes(b)
            + crate::common::bytes::u16_bytes(c) + crate::common::bytes::u16_bytes(d)
            + crate::common::bytes::u16_bytes(e) + crate::common::bytes::u16_bytes(f)
            + crate::common::bytes::u16_bytes(g) + crate::common::bytes::u16_bytes(h));
        r
    }

    /// The address in its RFC 5952 text form, such as `fe80::1`.
    pub fn to_string(&self) -> (r: String)
        ensures
            r@ == ipv6_text(self.bytes@),
    {
        let ghost gs = v6_groups(self.bytes@);
        let mut g: Vec<u16> = Vec::new();
        let mut i: usize = 0;
        while i < 8
            invariant
                i <= 8,
                gs == v6_groups(self.bytes@),
                g@ == gs.take(i as int),
            decreases 8 - i,
        {
            let v = (self.bytes[2 * i] as u16) * 256 + (self.bytes[2 * i + 1] as u16);
            g.push(v);
            assert(g@ =~= gs.take(i + 1));
            i = i + 1;
        }
        assert(g@ =~= gs);
        let mut best_s: usize = 0;
        let mut best_l: usize = 0;
        let mut n: usize = 0;
        while n < 8
            invariant
                n <= 8,
                g@ == gs,
                gs.len() == 8,
                (best_s as nat, best_l as nat) == longest_zero_run(gs, n as nat),
                best_s + best_l <= 8,
            decreases 8 - n,
        {
            let l = zero_run_at(&g, n);
            if l > best_l {
                best_s = n;
                best_l = l;
            }
            n = n + 1;
        }
        if best_l < 2 {
            let r = join_groups(&g, 0, 8);
            assert(gs.subrange(0, 8) =~= gs);
            r
        } else {
            let a = join_groups(&g, 0, best_s);
            let b = join_groups(&g, best_s + best_l, 8);
            let t = join_text(a.as_str(), "::");
            assert(gs.subrange(0, best_s as int) =~= gs.take(best_s as int));
            assert(gs.subrange((best_s + best_l) as int, 8) =~= gs.skip((best_s + best_l) as int));
            join_text(t.as_str(), b.as_str())
        }
    }

    /// Creates an address from its sixteen bytes.
    pub fn from_bytes(bytes: [u8; 16]) -> (r: Self)
        ensures
            r.bytes@ == bytes@,
    {
        Ipv6Addr { bytes }
    }

    /// The unspecified address `::`.
    pub fn unspecified() -> (r: Self)
        ensures
            r.bytes@ == Seq::new(16, |_i: int| 0u8),
    {
        let r = Ipv6Addr { bytes: [0u8; 16] };
        assert(r.bytes@ =~= Seq::new(16, |_i: int| 0u8));
        r
    }

    /// The sixteen bytes of the address.
    pub fn octets(&self) -> (r: [u8; 16])
        ensures
            r@ == self.bytes@,
    {
        self.bytes
    }

    /// Whether two addresses are the same.
    pub fn equals(&self, other: &Self) -> (r: bool)
        ensures
            r == (self.bytes@ == other.bytes@),
    {
        crate::common::bytes::bytes_eq(&self.bytes, &other.bytes)
    }

    /// Whether the address is a multicast address (ff00::/8).
    pub fn is_multicast(&self) -> (r: bool)
        ensures
            r == (self.bytes@[0] == 0xff),
    {
        self.bytes[0] == 0xff
    }

    /// The loopback address `::1`.
    pub open spec fn loopback_bytes() -> Seq<u8> {
        Seq::new(15, |_i: int| 0u8).push(1)
    }

    /// The link-local all-nodes multicast address `ff02::1`.
    pub open spec fn all_nodes_bytes() -> Seq<u8> {
        seq![0xffu8, 0x02] + Seq::new(13, |_i: int| 0u8) + seq![1u8]
    }

    /// The link-local all-nodes multicast address `ff02::1`.
    pub fn link_local_all_nodes() -> (r: Self)
        ensures
            r.bytes@ == Self::all_nodes_bytes(),
    {
        let r = Ipv6Addr { bytes: [0xff, 0x02, 0, 0, 0, 0, 0, 0, 0, 0, 0, 0, 0, 0, 0, 1] };
        assert(r.bytes@ =~= Self::all_nodes_bytes());
        r
    }

    /// Whether the address is the loopback address `::1`.
    pub fn is_loopback(&self) -> (r: bool)
        ensures
            r == (self.bytes@ == Self::loopback_bytes()),
    {
        let mut i: usize = 0;
        while i < 15
            invariant
                i <= 15,
                self.bytes@.len() == 16,
                forall|j: int| 0 <= j < i ==> self.bytes@[j] == 0,
            decreases 15 - i,
        {
            if self.bytes[i] != 0 {
                assert(self.bytes@[i as int] != Self::loopback_bytes()[i as int]);
                return false;
            }
            i = i + 1;
        }
        if self.bytes[15] != 1 {
            assert(self.bytes@[15] != Self::loopback_bytes()[15]);
            return false;
        }
        assert(self.bytes@ =~= Self::loopback_bytes());
        true
    }

    /// Whether the address is `::`.
    pub fn is_unspecified(&self) -> (r: bool)
        ensures
            r == (self.bytes@ == Seq::new(16, |_i: int| 0u8)),
    {
        let mut i: usize = 0;
        while i < 16
            invariant
                i <= 16,
                self.bytes@.len() == 16,
                forall|j: int| 0 <= j < i ==> self.bytes@[j] == 0,
            decreases 16 - i,
        {
            if self.bytes[i] != 0 {
                assert(self.bytes@[i as int] != Seq::new(16, |_i: int| 0u8)[i as int]);
                return false;
            }
            i = i + 1;
        }
        assert(self.bytes@ =~= Seq::new(16, |_i: int| 0u8));
        true
    }
}

/// An IPv4 or IPv6 address.
#[derive(Debug, Clone, Copy, PartialEq, Eq, Hash)]
pub enum IpAddr {
    V4(Ipv4Addr),
    V6(Ipv6Addr),
}

impl IpAddr {
    /// Whether this is an IPv4 address.
    pub fn is_ipv4(&self) -> (r: bool)
        ensures
            r == (self is V4),
    {
        match self {
            IpAddr::V4(_) => true,
            IpAddr::V6(_) => false,
        }
    }

    /// Whether this is an IPv6 address.
    pub fn is_ipv6(&self) -> (r: bool)
        ensures
            r == (self is V6),
    {
        match self {
            IpAddr::V4(_) => false,
            IpAddr::V6(_) => true,
        }
    }

    /// The address's bytes: four for IPv4, sixteen for IPv6.
    pub open spec fn octets_of(self) -> Seq<u8> {
        match self {
            IpAddr::V4(a) => a.bytes@,
            IpAddr::V6(a) => a.bytes@,
        }
    }

    /// Whether two addresses are of one family with the same bytes.
    pub open spec fn same_as(self, other: IpAddr) -> bool {
        (self is V4) == (other is V4) && self.octets_of() == other.octets_of()
    }

    /// Whether two addresses are the same.
    pub fn equals(&self, other: &Self) -> (r: bool)
        ensures
            r == self.same_as(*other),
    {
        match (self, other) {
            (IpAddr::V4(a), IpAddr::V4(b)) => a.equals(b),
            (IpAddr::V6(a), IpAddr::V6(b)) => a.equals(b),
            _ => false,
        }
    }
}

} // verus!
