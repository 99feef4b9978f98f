use vstd::prelude::*;
use crate::protocols::common::addr::{Ipv4Addr, dotted_quad};
use crate::common::text::{join_text, u16_decimal, u16_decimal_text, byte_decimal, byte_decimal_text};
use super::error::IpError;

verus! {

/// Default reassembly timeout in seconds.
pub const DEFAULT_REASSEMBLY_TIMEOUT_SECS: u64 = 30;
/// Default number of datagrams under reassembly.
pub const DEFAULT_MAX_REASSEMBLY_ENTRIES: usize = 64;
/// Default number of fragments per datagram.
pub const DEFAULT_MAX_FRAGMENTS_PER_DATAGRAM: usize = 16;

/// What to do with a fragment that overlaps one already held.
#[derive(Debug, Clone, Copy, PartialEq, Eq)]
pub enum FragmentOverlapPolicy {
    /// Reject the new fragment.
    Drop,
    /// Keep the fragment already held and ignore the new one.
    First,
    /// Replace the overlapped fragments with the new one.
    Last,
    /// Reject the new fragment (and report it).
    LogAndDrop,
}

impl Default for FragmentOverlapPolicy {
    fn default() -> (r: Self)
        ensures
            r == FragmentOverlapPolicy::Drop,
    {
        FragmentOverlapPolicy::Drop
    }
}

/// Milliseconds elapsed from `since` to `now` (zero if `now` is earlier).
pub open spec fn elapsed_ms(now: u64, since: u64) -> int {
    if now >= since {
        now - since
    } else {
        0
    }
}

/// Whether at least `secs` seconds passed from `since` to `now`.
pub open spec fn timed_out(now: u64, since: u64, secs: u64) -> bool {
    elapsed_ms(now, since) >= secs as int * 1000
}

/// Whether at least `secs` seconds passed from `since` to `now`.
pub fn is_elapsed(now: u64, since: u64, secs: u64) -> (r: bool)
    ensures
        r == timed_out(now, since, secs),
{
    let e = if now >= since { now - since } else { 0 };
    match secs.checked_mul(1000) {
        Some(limit) => e >= limit,
        None => false,
    }
}

/// One received fragment of a datagram.
#[derive(Debug, Clone)]
pub struct FragmentInfo {
    /// Offset in 8-byte units.
    pub offset: u16,
    /// The fragment's data.
    pub data: Vec<u8>,
    /// Arrival time in milliseconds.
    pub arrival_time: u64,
}

impl FragmentInfo {
    /// First byte position covered.
    pub open spec fn spec_start(&self) -> int {
        self.offset as int * 8
    }

    /// One past the last byte position covered.
    pub open spec fn spec_end(&self) -> int {
        self.spec_start() + self.data@.len()
    }

    /// Whether the end position fits a `usize`.
    pub open spec fn end_fits(&self) -> bool {
        self.spec_end() <= usize::MAX
    }

    /// Whether two fragments share a byte position (positions compared as `u32`).
    pub open spec fn spec_overlaps(&self, other: &FragmentInfo) -> bool {
        !((self.spec_end() as u32) <= (other.spec_start() as u32)
            || (self.spec_start() as u32) >= (other.spec_end() as u32))
    }

    pub fn new(offset: u16, data: Vec<u8>, now: u64) -> (r: Self)
        ensures
            r.offset == offset,
            r.data@ == data@,
            r.arrival_time == now,
    {
        FragmentInfo { offset, data, arrival_time: now }
    }

    pub fn start(&self) -> (r: usize)
        ensures
            r == self.spec_start(),
    {
        (self.offset as usize) * 8
    }

    pub fn end(&self) -> (r: usize)
        requires
            self.end_fits(),
        ensures
            r == self.spec_end(),
    {
        self.start() + self.data.len()
    }

    pub fn overlaps(&self, other: &FragmentInfo) -> (r: bool)
        requires
            self.end_fits(),
            other.end_fits(),
        ensures
            r == self.spec_overlaps(other),
    {
        let self_start = self.start() as u32;
        let self_end = self.end() as u32;
        let other_start = other.start() as u32;
        let other_end = other.end() as u32;
        !(self_end <= other_start || self_start >= other_end)
    }
}

/// Identifies the datagram a fragment belongs to.
#[derive(Debug, Clone, Copy, PartialEq, Eq, Hash)]
pub struct ReassemblyKey {
    pub source_addr: Ipv4Addr,
    pub dest_addr: Ipv4Addr,
    pub protocol: u8,
    pub identification: u16,
}

impl ReassemblyKey {
    /// Whether two keys name the same datagram.
    pub open spec fn same(&self, other: &ReassemblyKey) -> bool {
        &&& self.source_addr.bytes@ == other.source_addr.bytes@
        &&& self.dest_addr.bytes@ == other.dest_addr.bytes@
        &&& self.protocol == other.protocol
        &&& self.identification == other.identification
    }

    pub fn new(source_addr: Ipv4Addr, dest_addr: Ipv4Addr, protocol: u8, identification: u16) -> (r: Self)
        ensures
            r == (ReassemblyKey { source_addr, dest_addr, protocol, identification }),
    {
        ReassemblyKey { source_addr, dest_addr, protocol, identification }
    }

    /// The key as text: `<source:destination:protocol:identification>`.
    pub fn to_string(&self) -> (r: String)
        ensures
            r@ == "<"@ + dotted_quad(self.source_addr.bytes@) + ":"@ + dotted_quad(self.dest_addr.bytes@) + ":"@
                + byte_decimal(self.protocol) + ":"@ + u16_decimal(self.identification) + ">"@,
    {
        let src = self.source_addr.to_string();
        let dst = self.dest_addr.to_string();
        let proto = byte_decimal_text(self.protocol);
        let id = u16_decimal_text(self.identification);
        let t1 = join_text("<", src.as_str());
        let t2 = join_text(t1.as_str(), ":");
        let t3 = join_text(t2.as_str(), dst.as_str());
        let t4 = join_text(t3.as_str(), ":");
        let t5 = join_text(t4.as_str(), proto.as_str());
        let t6 = join_text(t5.as_str(), ":");
        let t7 = join_text(t6.as_str(), id.as_str());
        join_text(t7.as_str(), ">")
    }

    /// Whether two keys name the same datagram.
    pub fn matches(&self, other: &ReassemblyKey) -> (r: bool)
        ensures
            r == self.same(other),
    {
        self.protocol == other.protocol && self.identification == other.identification
            && self.source_addr.equals(&other.source_addr) && self.dest_addr.equals(&other.dest_addr)
    }
}

/// The sum of the fragment lengths, each taken as a `u16`.
pub open spec fn lens_sum(s: Seq<FragmentInfo>) -> nat
    decreases s.len(),
{
    if s.len() == 0 {
        0
    } else {
        lens_sum(s.drop_last()) + (s.last().data@.len() as u16) as nat
    }
}

/// Whether the fragments are ordered by offset.
pub open spec fn sorted_by_offset(s: Seq<FragmentInfo>) -> bool {
    forall|i: int, j: int| 0 <= i < j < s.len() ==> s[i].offset <= s[j].offset
}

/// Whether no two fragments overlap.
pub open spec fn pairwise_disjoint(s: Seq<FragmentInfo>) -> bool {
    forall|i: int, j: int| 0 <= i < s.len() && 0 <= j < s.len() && i != j ==> !s[i].spec_overlaps(&s[j])
}

/// `x` inserted into `s` before the first element whose offset is not smaller.
pub open spec fn sorted_insert(s: Seq<FragmentInfo>, x: FragmentInfo) -> Seq<FragmentInfo>
    decreases s.len(),
{
    if s.len() == 0 {
        seq![x]
    } else if s[0].offset < x.offset {
        seq![s[0]] + sorted_insert(s.drop_first(), x)
    } else {
        seq![x] + s
    }
}

/// 8-byte units needed for `n` bytes.
pub open spec fn units(n: u16) -> nat {
    ((n as nat + 7) / 8) as nat
}

/// The end offset (in 8-byte units) of the first `n` fragments when each starts
/// where the previous one ended, beginning at zero; `None` on a gap.
pub open spec fn contiguous_end(s: Seq<FragmentInfo>, n: nat) -> Option<nat>
    decreases n,
{
    if n == 0 {
        Some(0)
    } else {
        match contiguous_end(s, (n - 1) as nat) {
            Some(e) => if s[n - 1].offset as nat == e {
                Some(e + units(s[n - 1].data@.len() as u16))
            } else {
                None
            },
            None => None,
        }
    }
}

/// `buf` with the first `n` fragments written at their positions, in order.
pub open spec fn paint(buf: Seq<u8>, s: Seq<FragmentInfo>, n: nat) -> Seq<u8>
    decreases n,
{
    if n == 0 {
        buf
    } else {
        let b = paint(buf, s, (n - 1) as nat);
        let f = s[n - 1];
        b.take(f.spec_start()) + f.data@ + b.skip(f.spec_end())
    }
}

proof fn lemma_paint_len(buf: Seq<u8>, s: Seq<FragmentInfo>, n: nat)
    requires
        n <= s.len(),
        forall|i: int| 0 <= i < s.len() ==> s[i].spec_end() <= buf.len(),
    ensures
        paint(buf, s, n).len() == buf.len(),
    decreases n,
{
    if n > 0 {
        lemma_paint_len(buf, s, (n - 1) as nat);
    }
}

proof fn lemma_lens_sum_push(s: Seq<FragmentInfo>, x: FragmentInfo)
    ensures
        lens_sum(s.push(x)) == lens_sum(s) + (x.data@.len() as u16) as nat,
{
    assert(s.push(x).drop_last() =~= s);
}

proof fn lemma_lens_sum_concat(a: Seq<FragmentInfo>, b: Seq<FragmentInfo>)
    ensures
        lens_sum(a + b) == lens_sum(a) + lens_sum(b),
    decreases b.len(),
{
    if b.len() == 0 {
        assert(a + b =~= a);
    } else {
        lemma_lens_sum_concat(a, b.drop_last());
        assert((a + b).drop_last() =~= a + b.drop_last());
    }
}

proof fn lemma_lens_sum_filter_le(s: Seq<FragmentInfo>, p: spec_fn(FragmentInfo) -> bool)
    ensures
        lens_sum(s.filter(p)) <= lens_sum(s),
    decreases s.len(),
{
    reveal_with_fuel(Seq::<_>::filter, 1);
    if s.len() > 0 {
        lemma_lens_sum_filter_le(s.drop_last(), p);
        if p(s.last()) {
            lemma_lens_sum_push(s.drop_last().filter(p), s.last());
        }
    }
}

proof fn lemma_sorted_insert_split(s: Seq<FragmentInfo>, x: FragmentInfo, p: int)
    requires
        0 <= p <= s.len(),
        forall|i: int| 0 <= i < p ==> s[i].offset < x.offset,
        p < s.len() ==> s[p].offset >= x.offset,
    ensures
        sorted_insert(s, x) == s.take(p) + seq![x] + s.skip(p),
    decreases s.len(),
{
    if s.len() == 0 {
        assert(s.take(p) + seq![x] + s.skip(p) =~= seq![x]);
    } else if p == 0 {
        assert(s.take(p) + seq![x] + s.skip(p) =~= seq![x] + s);
    } else {
        lemma_sorted_insert_split(s.drop_first(), x, p - 1);
        assert(s.take(p) + seq![x] + s.skip(p) =~= seq![s[0]] + (s.drop_first().take(p - 1) + seq![x]
            + s.drop_first().skip(p - 1)));
    }
}

/// A datagram under reassembly.
#[derive(Debug)]
pub struct ReassemblyEntry {
    pub key: ReassemblyKey,
    /// Fragments held, ordered by offset.
    pub fragments: Vec<FragmentInfo>,
    pub last_fragment_received: bool,
    /// Offset (8-byte units) just past the end of the datagram, once known.
    pub last_fragment_offset: Option<u16>,
    /// Total data bytes held.
    pub received_bytes: u16,
    /// Creation time in milliseconds.
    pub arrival_time: u64,
    /// Time of the last change in milliseconds.
    pub last_update_time: u64,
}

impl ReassemblyEntry {
    /// The entry's bookkeeping is consistent: fragments ordered and disjoint,
    /// the byte count their total, and every fragment's end representable.
    pub open spec fn wf(&self) -> bool {
        &&& sorted_by_offset(self.fragments@)
        &&& pairwise_disjoint(self.fragments@)
        &&& self.received_bytes as nat == lens_sum(self.fragments@)
        &&& forall|i: int| 0 <= i < self.fragments@.len() ==> #[trigger] self.fragments@[i].end_fits()
    }

    pub fn new(key: ReassemblyKey, now: u64) -> (r: Self)
        ensures
            r.key == key,
            r.fragments@.len() == 0,
            !r.last_fragment_received,
            r.last_fragment_offset is None,
            r.received_bytes == 0,
            r.arrival_time == now,
            r.last_update_time == now,
            r.wf(),
    {
        ReassemblyEntry {
            key,
            fragments: Vec::new(),
            last_fragment_received: false,
            last_fragment_offset: None,
            received_bytes: 0,
            arrival_time: now,
            last_update_time: now,
        }
    }

    fn any_overlap(&self, fragment: &FragmentInfo) -> (r: bool)
        requires
            self.wf(),
            fragment.end_fits(),
        ensures
            r == exists|i: int| 0 <= i < self.fragments@.len() && #[trigger] self.fragments@[i].spec_overlaps(fragment),
    {
        let mut i: usize = 0;
        while i < self.fragments.len()
            invariant
                self.wf(),
                fragment.end_fits(),
                i <= self.fragments@.len(),
                forall|j: int| 0 <= j < i ==> !#[trigger] self.fragments@[j].spec_overlaps(fragment),
            decreases self.fragments@.len() - i,
        {
            assert(self.fragments@[i as int].end_fits());
            if self.fragments[i].overlaps(fragment) {
                return true;
            }
            i = i + 1;
        }
        false
    }

    /// Adds a fragment according to the overlap policy.
    ///
    /// With `Last`, every held fragment that overlaps the new one is removed
    /// and the new one is added. With the other policies an overlap leaves the
    /// entry unchanged: `First` accepts silently, `Drop` and `LogAndDrop`
    /// return `FragmentOverlap`. Without an overlap the fragment is inserted
    /// in offset order.
    pub fn add_fragment(&mut self, fragment: FragmentInfo, policy: FragmentOverlapPolicy, now: u64) -> (r: Result<(), IpError>)
        requires
            old(self).wf(),
            fragment.end_fits(),
            old(self).received_bytes as nat + (fragment.data@.len() as u16) as nat <= u16::MAX,
        ensures
            final(self).wf(),
            final(self).key == old(self).key,
            final(self).last_fragment_received == old(self).last_fragment_received,
            final(self).last_fragment_offset == old(self).last_fragment_offset,
            final(self).arrival_time == old(self).arrival_time,
            policy is Last ==> r is Ok && final(self).fragments@ == sorted_insert(
                old(self).fragments@.filter(|f: FragmentInfo| !f.spec_overlaps(&fragment)), fragment),
            !(policy is Last) && has_overlap(old(self).fragments@, fragment) ==> {
                &&& *final(self) == *old(self)
                &&& final(self).fragments@ == old(self).fragments@
                &&& final(self).received_bytes == old(self).received_bytes
                &&& final(self).last_update_time == old(self).last_update_time
                &&& (policy is First ==> r is Ok)
                &&& (!(policy is First) ==> (r matches Err(IpError::FragmentOverlap { offset }) && offset == fragment.offset))
            },
            !(policy is Last) && !has_overlap(old(self).fragments@, fragment) ==> r is Ok
                && final(self).fragments@ == sorted_insert(old(self).fragments@, fragment),
            r is Ok && final(self).fragments@ != old(self).fragments@ ==> final(self).last_update_time == now,
            pairwise_disjoint(old(self).fragments@) ==> pairwise_disjoint(final(self).fragments@),
    {
        let ghost old_frags = self.fragments@;
        match policy {
            FragmentOverlapPolicy::Last => {
                let mut taken: Vec<FragmentInfo> = Vec::new();
                std::mem::swap(&mut taken, &mut self.fragments);
                let (kept, Ghost(idx)) = filter_non_overlapping(taken, &fragment);
                proof {
                    lemma_subseq_props(old_frags, kept@, idx);
                }
                self.fragments = kept;
            },
            _ => {
                if self.any_overlap(&fragment) {
                    match policy {
                        FragmentOverlapPolicy::First => {
                            return Ok(());
                        },
                        _ => {
                            return Err(IpError::FragmentOverlap { offset: fragment.offset });
                        },
                    }
                }
            },
        }
        let ghost base = self.fragments@;
        insert_by_offset(&mut self.fragments, fragment);
        proof {
            lemma_sorted_insert_props(base, fragment);
        }
        self.received_bytes = total_len(&self.fragments);
        self.last_update_time = now;
        Ok(())
    }

    /// Records that the last fragment arrived and where the datagram ends.
    pub fn set_last_fragment(&mut self, offset: u16, now: u64)
        ensures
            final(self).last_fragment_received,
            final(self).last_fragment_offset == Some(offset),
            final(self).last_update_time == now,
            final(self).key == old(self).key,
            final(self).fragments == old(self).fragments,
            final(self).received_bytes == old(self).received_bytes,
            final(self).arrival_time == old(self).arrival_time,
    {
        self.last_fragment_received = true;
        self.last_fragment_offset = Some(offset);
        self.last_update_time = now;
    }

    /// Whether the fragments cover the datagram without gaps from offset zero
    /// to the recorded end.
    pub open spec fn spec_is_complete(&self) -> bool {
        &&& self.last_fragment_received
        &&& self.last_fragment_offset is Some
        &&& contiguous_end(self.fragments@, self.fragments@.len()) == Some(self.last_fragment_offset->0 as nat)
    }

    /// Whether the fragments cover the datagram without gaps.
    pub fn is_complete(&self) -> (r: bool)
        requires
            self.wf(),
        ensures
            r == self.spec_is_complete(),
    {
        if !self.last_fragment_received {
            return false;
        }
        let last_offset = match self.last_fragment_offset {
            Some(o) => o,
            None => return false,
        };
        let mut expected: u16 = 0;
        let mut i: usize = 0;
        while i < self.fragments.len()
            invariant
                self.wf(),
                i <= self.fragments@.len(),
                contiguous_end(self.fragments@, i as nat) == Some(expected as nat),
                expected as nat <= lens_sum(self.fragments@.take(i as int)),
            decreases self.fragments@.len() - i,
        {
            let f = &self.fragments[i];
            if f.offset != expected {
                proof { lemma_contiguous_none_after(self.fragments@, (i + 1) as nat, self.fragments@.len()); }
                return false;
            }
            let len16 = f.data.len() as u16;
            proof {
                assert(self.fragments@.take(i + 1).drop_last() =~= self.fragments@.take(i as int));
                lemma_lens_sum_prefix(self.fragments@, i + 1);
            }
            let add = (len16 / 8) + if len16 % 8 == 0 { 0 } else { 1 };
            expected = expected + add;
            i = i + 1;
        }
        expected == last_offset
    }

    /// The reassembled data: a buffer of `received_bytes` zeros with every
    /// fragment written at its position, in order.
    pub fn assemble(&self) -> (r: Vec<u8>)
        requires
            forall|i: int| 0 <= i < self.fragments@.len() ==> #[trigger] self.fragments@[i].spec_end() <= self.received_bytes,
        ensures
            r@ == paint(Seq::new(self.received_bytes as nat, |_k: int| 0u8), self.fragments@, self.fragments@.len()),
    {
        let total = self.received_bytes as usize;
        let mut buffer: Vec<u8> = Vec::new();
        crate::common::bytes::push_repeat(&mut buffer, 0, total);
        let ghost zeros = Seq::new(self.received_bytes as nat, |_k: int| 0u8);
        assert(buffer@ =~= zeros);
        let mut i: usize = 0;
        while i < self.fragments.len()
            invariant
                i <= self.fragments@.len(),
                total == self.received_bytes,
                zeros == Seq::new(self.received_bytes as nat, |_k: int| 0u8),
                forall|j: int| 0 <= j < self.fragments@.len() ==> #[trigger] self.fragments@[j].spec_end() <= self.received_bytes,
                buffer@ == paint(zeros, self.fragments@, i as nat),
            decreases self.fragments@.len() - i,
        {
            proof { lemma_paint_len(zeros, self.fragments@, i as nat); }
            let f = &self.fragments[i];
            assert(self.fragments@[i as int].spec_end() <= self.received_bytes);
            let start = f.start();
            let ghost before = buffer@;
            let mut k: usize = 0;
            while k < f.data.len()
                invariant
                    k <= f.data@.len(),
                    start == f.spec_start(),
                    f.spec_end() <= total,
                    before.len() == total,
                    buffer@ == before.take(start as int) + f.data@.take(k as int) + before.skip(start + k),
                decreases f.data@.len() - k,
            {
                buffer.set(start + k, f.data[k]);
                k = k + 1;
                assert(buffer@ =~= before.take(start as int) + f.data@.take(k as int) + before.skip(start + k));
            }
            assert(buffer@ =~= before.take(f.spec_start()) + f.data@ + before.skip(f.spec_end()));
            i = i + 1;
        }
        buffer
    }

    /// Whether `timeout_secs` seconds passed since the entry was created.
    pub fn is_timeout(&self, timeout_secs: u64, now: u64) -> (r: bool)
        ensures
            r == timed_out(now, self.arrival_time, timeout_secs),
    {
        is_elapsed(now, self.arrival_time, timeout_secs)
    }

    /// The number of fragments held.
    pub fn fragment_count(&self) -> (r: usize)
        ensures
            r == self.fragments@.len(),
    {
        self.fragments.len()
    }
}

/// Whether some fragment of `s` overlaps `x`.
pub open spec fn has_overlap(s: Seq<FragmentInfo>, x: FragmentInfo) -> bool {
    exists|i: int| 0 <= i < s.len() && #[trigger] s[i].spec_overlaps(&x)
}

proof fn lemma_lens_sum_prefix(s: Seq<FragmentInfo>, n: int)
    requires
        0 <= n <= s.len(),
    ensures
        lens_sum(s.take(n)) <= lens_sum(s),
{
    lemma_lens_sum_concat(s.take(n), s.skip(n));
    assert(s.take(n) + s.skip(n) =~= s);
}

proof fn lemma_contiguous_none_after(s: Seq<FragmentInfo>, n: nat, m: nat)
    requires
        n <= m,
        contiguous_end(s, n) is None,
    ensures
        contiguous_end(s, m) is None,
    decreases m - n,
{
    if n < m {
        lemma_contiguous_none_after(s, n + 1, m);
    }
}

proof fn lemma_lens_sum_subseq(s: Seq<FragmentInfo>, t: Seq<FragmentInfo>, idx: Seq<int>)
    requires
        idx.len() == t.len(),
        forall|k: int| 0 <= k < idx.len() ==> 0 <= #[trigger] idx[k] < s.len() && t[k] == s[idx[k]],
        forall|k: int, l: int| 0 <= k < l < idx.len() ==> idx[k] < idx[l],
    ensures
        lens_sum(t) <= lens_sum(s),
    decreases s.len(),
{
    if t.len() == 0 {
    } else if s.len() == 0 {
        assert(0 <= idx[0] < s.len());
    } else {
        let last = idx.len() - 1;
        if idx[last] == s.len() - 1 {
            let idx2 = idx.drop_last();
            assert forall|k: int| 0 <= k < idx2.len() implies 0 <= #[trigger] idx2[k] < s.drop_last().len()
                && t.drop_last()[k] == s.drop_last()[idx2[k]] by {
                assert(idx[k] < idx[last]);
            }
            lemma_lens_sum_subseq(s.drop_last(), t.drop_last(), idx2);
        } else {
            assert forall|k: int| 0 <= k < idx.len() implies 0 <= #[trigger] idx[k] < s.drop_last().len()
                && t[k] == s.drop_last()[idx[k]] by {
                if k < last { assert(idx[k] < idx[last]); }
            }
            lemma_lens_sum_subseq(s.drop_last(), t, idx);
        }
    }
}

/// Whether `t` consists of the elements of `s` at the increasing positions `idx`.
pub open spec fn subseq_via(s: Seq<FragmentInfo>, t: Seq<FragmentInfo>, idx: Seq<int>) -> bool {
    &&& idx.len() == t.len()
    &&& forall|k: int| 0 <= k < idx.len() ==> 0 <= #[trigger] idx[k] < s.len() && t[k] == s[idx[k]]
    &&& forall|k: int, l: int| 0 <= k < l < idx.len() ==> idx[k] < idx[l]
}

proof fn lemma_subseq_props(s: Seq<FragmentInfo>, t: Seq<FragmentInfo>, idx: Seq<int>)
    requires
        subseq_via(s, t, idx),
    ensures
        sorted_by_offset(s) ==> sorted_by_offset(t),
        pairwise_disjoint(s) ==> pairwise_disjoint(t),
        (forall|i: int| 0 <= i < s.len() ==> #[trigger] s[i].end_fits()) ==> (forall|i: int| 0 <= i < t.len() ==> #[trigger] t[i].end_fits()),
        lens_sum(t) <= lens_sum(s),
{
    if sorted_by_offset(s) {
        assert forall|k: int, l: int| 0 <= k < l < t.len() implies t[k].offset <= t[l].offset by {
            assert(idx[k] < idx[l]);
        }
    }
    if pairwise_disjoint(s) {
        assert forall|k: int, l: int| 0 <= k < t.len() && 0 <= l < t.len() && k != l
            implies !t[k].spec_overlaps(&t[l]) by {
            if k < l { assert(idx[k] < idx[l]); } else { assert(idx[l] < idx[k]); }
        }
    }
    if forall|i: int| 0 <= i < s.len() ==> #[trigger] s[i].end_fits() {
        assert forall|k: int| 0 <= k < t.len() implies #[trigger] t[k].end_fits() by {
            assert(s[idx[k]].end_fits());
        }
    }
    lemma_lens_sum_subseq(s, t, idx);
}

/// The fragments of `v` that do not overlap `x`, in order.
fn filter_non_overlapping(v: Vec<FragmentInfo>, x: &FragmentInfo) -> (r: (Vec<FragmentInfo>, Ghost<Seq<int>>))
    requires
        x.end_fits(),
        forall|i: int| 0 <= i < v@.len() ==> #[trigger] v@[i].end_fits(),
    ensures
        r.0@ == v@.filter(|f: FragmentInfo| !f.spec_overlaps(x)),
        subseq_via(v@, r.0@, r.1@),
        forall|k: int| 0 <= k < r.0@.len() ==> !#[trigger] r.0@[k].spec_overlaps(x),
{
    let ghost pred = |f: FragmentInfo| !f.spec_overlaps(x);
    let ghost orig = v@;
    let _n = v.len();
    let mut rest = v;
    let mut kept: Vec<FragmentInfo> = Vec::new();
    let ghost mut idx: Seq<int> = Seq::empty();
    let mut i: usize = 0;
    while rest.len() > 0
        invariant
            x.end_fits(),
            forall|j: int| 0 <= j < orig.len() ==> #[trigger] orig[j].end_fits(),
            i <= orig.len(),
            orig.len() <= usize::MAX,
            rest@ == orig.skip(i as int),
            pred == (|f: FragmentInfo| !f.spec_overlaps(x)),
            kept@ == orig.take(i as int).filter(pred),
            idx.len() == kept@.len(),
            forall|k: int| 0 <= k < idx.len() ==> 0 <= #[trigger] idx[k] < i && kept@[k] == orig[idx[k]],
            forall|k: int, l: int| 0 <= k < l < idx.len() ==> idx[k] < idx[l],
            forall|k: int| 0 <= k < kept@.len() ==> !#[trigger] kept@[k].spec_overlaps(x),
        decreases rest@.len(),
    {
        reveal_with_fuel(Seq::<_>::filter, 1);
        let f = rest.remove(0);
        assert(f == orig[i as int]);
        assert(orig[i as int].end_fits());
        assert(orig.take(i + 1).drop_last() =~= orig.take(i as int));
        assert(rest@ =~= orig.skip(i + 1));
        if !f.overlaps(x) {
            kept.push(f);
            proof { idx = idx.push(i as int); }
        }
        i = i + 1;
    }
    assert(orig.take(orig.len() as int) =~= orig);
    (kept, Ghost(idx))
}

/// Inserts `x` before the first fragment whose offset is not smaller.
fn insert_by_offset(v: &mut Vec<FragmentInfo>, x: FragmentInfo)
    requires
        sorted_by_offset(old(v)@),
    ensures
        final(v)@ == sorted_insert(old(v)@, x),
{
    let mut pos: usize = 0;
    while pos < v.len() && v[pos].offset < x.offset
        invariant
            pos <= v@.len(),
            v@ == old(v)@,
            forall|k: int| 0 <= k < pos ==> v@[k].offset < x.offset,
        decreases v@.len() - pos,
    {
        pos = pos + 1;
    }
    proof {
        lemma_sorted_insert_split(v@, x, pos as int);
    }
    v.insert(pos, x);
    assert(v@ =~= old(v)@.take(pos as int) + seq![x] + old(v)@.skip(pos as int));
}

/// The number of leading fragments whose offset is smaller than that of `x`.
pub open spec fn insert_pos(s: Seq<FragmentInfo>, x: FragmentInfo) -> int
    decreases s.len(),
{
    if s.len() == 0 || s[0].offset >= x.offset {
        0
    } else {
        1 + insert_pos(s.drop_first(), x)
    }
}

proof fn lemma_insert_pos(s: Seq<FragmentInfo>, x: FragmentInfo)
    ensures
        0 <= insert_pos(s, x) <= s.len(),
        forall|k: int| 0 <= k < insert_pos(s, x) ==> s[k].offset < x.offset,
        insert_pos(s, x) < s.len() ==> s[insert_pos(s, x)].offset >= x.offset,
    decreases s.len(),
{
    if s.len() > 0 && s[0].offset < x.offset {
        lemma_insert_pos(s.drop_first(), x);
        assert forall|k: int| 0 <= k < insert_pos(s, x) implies s[k].offset < x.offset by {
            if k > 0 { assert(s[k] == s.drop_first()[k - 1]); }
        }
    }
}

proof fn lemma_sorted_insert_index(s: Seq<FragmentInfo>, x: FragmentInfo)
    ensures
        sorted_insert(s, x).len() == s.len() + 1,
        forall|k: int| 0 <= k < sorted_insert(s, x).len() ==> #[trigger] sorted_insert(s, x)[k] == (if k < insert_pos(s, x) {
            s[k]
        } else if k == insert_pos(s, x) {
            x
        } else {
            s[k - 1]
        }),
        sorted_insert(s, x) == s.take(insert_pos(s, x)) + seq![x] + s.skip(insert_pos(s, x)),
{
    lemma_insert_pos(s, x);
    let pos = insert_pos(s, x);
    lemma_sorted_insert_split(s, x, pos);
    let fin = sorted_insert(s, x);
    assert(fin =~= s.take(pos) + seq![x] + s.skip(pos));
}

proof fn lemma_sorted_insert_props(s: Seq<FragmentInfo>, x: FragmentInfo)
    requires
        sorted_by_offset(s),
    ensures
        sorted_by_offset(sorted_insert(s, x)),
        lens_sum(sorted_insert(s, x)) == lens_sum(s) + (x.data@.len() as u16) as nat,
        pairwise_disjoint(s) && (forall|i: int| 0 <= i < s.len() ==> !#[trigger] s[i].spec_overlaps(&x))
            ==> pairwise_disjoint(sorted_insert(s, x)),
        (forall|i: int| 0 <= i < s.len() ==> #[trigger] s[i].end_fits()) && x.end_fits()
            ==> (forall|i: int| 0 <= i < sorted_insert(s, x).len() ==> #[trigger] sorted_insert(s, x)[i].end_fits()),
{
    lemma_sorted_insert_index(s, x);
    lemma_insert_pos(s, x);
    lemma_sorted_insert_sorted(s, x);
    lemma_sorted_insert_lens(s, x);
    lemma_sorted_insert_disjoint(s, x);
}

proof fn lemma_sorted_insert_sorted(s: Seq<FragmentInfo>, x: FragmentInfo)
    requires
        sorted_by_offset(s),
    ensures
        sorted_by_offset(sorted_insert(s, x)),
{
    lemma_sorted_insert_index(s, x);
    lemma_insert_pos(s, x);
    let pos = insert_pos(s, x);
    let fin = sorted_insert(s, x);
    assert forall|k: int, l: int| 0 <= k < l < fin.len() implies fin[k].offset <= fin[l].offset by {
        let _ = fin[k];
        let _ = fin[l];
        if k < pos && l > pos {
            assert(s[k].offset <= s[l - 1].offset);
        } else if k == pos && l > pos {
            if l - 1 > pos {
                assert(s[pos].offset <= s[l - 1].offset);
            }
        } else if k > pos {
            assert(s[k - 1].offset <= s[l - 1].offset);
        } else if l < pos {
            assert(s[k].offset <= s[l].offset);
        }
    }
}

proof fn lemma_sorted_insert_lens(s: Seq<FragmentInfo>, x: FragmentInfo)
    ensures
        lens_sum(sorted_insert(s, x)) == lens_sum(s) + (x.data@.len() as u16) as nat,
{
    lemma_sorted_insert_index(s, x);
    let pos = insert_pos(s, x);
    lemma_insert_pos(s, x);
    lemma_lens_sum_concat(s.take(pos), seq![x]);
    lemma_lens_sum_concat(s.take(pos) + seq![x], s.skip(pos));
    lemma_lens_sum_concat(s.take(pos), s.skip(pos));
    assert(s.take(pos) + s.skip(pos) =~= s);
    lemma_lens_sum_push(Seq::<FragmentInfo>::empty(), x);
    assert(Seq::<FragmentInfo>::empty().push(x) =~= seq![x]);
}

proof fn lemma_sorted_insert_disjoint(s: Seq<FragmentInfo>, x: FragmentInfo)
    ensures
        pairwise_disjoint(s) && (forall|i: int| 0 <= i < s.len() ==> !#[trigger] s[i].spec_overlaps(&x))
            ==> pairwise_disjoint(sorted_insert(s, x)),
        (forall|i: int| 0 <= i < s.len() ==> #[trigger] s[i].end_fits()) && x.end_fits()
            ==> (forall|i: int| 0 <= i < sorted_insert(s, x).len() ==> #[trigger] sorted_insert(s, x)[i].end_fits()),
{
    lemma_sorted_insert_index(s, x);
    lemma_insert_pos(s, x);
    let pos = insert_pos(s, x);
    let fin = sorted_insert(s, x);
    if pairwise_disjoint(s) && (forall|i: int| 0 <= i < s.len() ==> !#[trigger] s[i].spec_overlaps(&x)) {
        assert forall|k: int, l: int| 0 <= k < fin.len() && 0 <= l < fin.len() && k != l
            implies !fin[k].spec_overlaps(&fin[l]) by {
            let _ = fin[k];
            let _ = fin[l];
            if k == pos {
                let b = if l < pos { l } else { l - 1 };
                assert(!s[b].spec_overlaps(&x));
            } else if l == pos {
                let a = if k < pos { k } else { k - 1 };
                assert(!s[a].spec_overlaps(&x));
            } else {
                let a = if k < pos { k } else { k - 1 };
                let b = if l < pos { l } else { l - 1 };
                assert(a != b);
                assert(!s[a].spec_overlaps(&s[b]));
            }
        }
    }
    if (forall|i: int| 0 <= i < s.len() ==> #[trigger] s[i].end_fits()) && x.end_fits() {
        assert forall|k: int| 0 <= k < fin.len() implies #[trigger] fin[k].end_fits() by {
            if k < pos { assert(s[k].end_fits()); } else if k > pos { assert(s[k - 1].end_fits()); }
        }
    }
}

fn fits_received(e: &ReassemblyEntry) -> (r: bool)
    ensures
        r == forall|i: int| 0 <= i < e.fragments@.len() ==> #[trigger] e.fragments@[i].spec_end() <= e.received_bytes,
{
    let total = e.received_bytes;
    let mut i: usize = 0;
    while i < e.fragments.len()
        invariant
            i <= e.fragments@.len(),
            total == e.received_bytes,
            forall|j: int| 0 <= j < i ==> #[trigger] e.fragments@[j].spec_end() <= total,
        decreases e.fragments@.len() - i,
    {
        let f = &e.fragments[i];
        if f.data.len() > total as usize || f.start() > total as usize - f.data.len() {
            assert(e.fragments@[i as int].spec_end() > total);
            return false;
        }
        i = i + 1;
    }
    true
}

/// The sum of the fragment lengths (each as `u16`).
fn total_len(frags: &Vec<FragmentInfo>) -> (r: u16)
    requires
        lens_sum(frags@) <= u16::MAX,
    ensures
        r == lens_sum(frags@),
{
    let mut sum: u16 = 0;
    let mut i: usize = 0;
    while i < frags.len()
        invariant
            i <= frags@.len(),
            lens_sum(frags@) <= u16::MAX,
            sum as nat == lens_sum(frags@.take(i as int)),
        decreases frags@.len() - i,
    {
        proof {
            assert(frags@.take(i + 1).drop_last() =~= frags@.take(i as int));
            lemma_lens_sum_prefix(frags@, i + 1);
        }
        sum = sum + frags[i].data.len() as u16;
        i = i + 1;
    }
    assert(frags@.take(frags@.len() as int) =~= frags@);
    sum
}


/// Index of the first entry whose key names the same datagram as `key`.
pub open spec fn key_index(es: Seq<ReassemblyEntry>, key: ReassemblyKey) -> Option<nat>
    decreases es.len(),
{
    if es.len() == 0 {
        None
    } else if es[0].key.same(&key) {
        Some(0)
    } else {
        match key_index(es.drop_first(), key) {
            Some(i) => Some(i + 1),
            None => None,
        }
    }
}

proof fn lemma_key_index(es: Seq<ReassemblyEntry>, key: ReassemblyKey)
    ensures
        key_index(es, key) matches Some(i) ==> i < es.len() && es[i as int].key.same(&key)
            && forall|j: int| 0 <= j < i ==> !(#[trigger] es[j]).key.same(&key),
        key_index(es, key) is None ==> forall|j: int| 0 <= j < es.len() ==> !(#[trigger] es[j]).key.same(&key),
    decreases es.len(),
{
    if es.len() > 0 && !es[0].key.same(&key) {
        lemma_key_index(es.drop_first(), key);
        assert forall|j: int| 0 < j < es.len() implies #[trigger] es[j] == es.drop_first()[j - 1] by {}
    }
}

/// Whether `i` is the first entry with the smallest arrival time.
pub open spec fn is_first_oldest(es: Seq<ReassemblyEntry>, i: int) -> bool {
    &&& 0 <= i < es.len()
    &&& forall|j: int| 0 <= j < es.len() ==> es[i].arrival_time <= #[trigger] es[j].arrival_time
    &&& forall|j: int| 0 <= j < i ==> es[i].arrival_time < #[trigger] es[j].arrival_time
}

/// The total number of fragments held by the entries.
pub open spec fn fragment_total(es: Seq<ReassemblyEntry>) -> nat
    decreases es.len(),
{
    if es.len() == 0 {
        0
    } else {
        fragment_total(es.drop_last()) + es.last().fragments@.len()
    }
}

/// The number of entries that are complete.
pub open spec fn complete_count(es: Seq<ReassemblyEntry>) -> nat
    decreases es.len(),
{
    if es.len() == 0 {
        0
    } else {
        complete_count(es.drop_last()) + if es.last().spec_is_complete() { 1nat } else { 0nat }
    }
}

/// The number of entries still waiting for their last fragment.
pub open spec fn waiting_count(es: Seq<ReassemblyEntry>) -> nat
    decreases es.len(),
{
    if es.len() == 0 {
        0
    } else {
        waiting_count(es.drop_last()) + if !es.last().last_fragment_received { 1nat } else { 0nat }
    }
}

proof fn lemma_counts_bounded(es: Seq<ReassemblyEntry>)
    ensures
        complete_count(es) <= es.len(),
        waiting_count(es) <= es.len(),
    decreases es.len(),
{
    if es.len() > 0 {
        lemma_counts_bounded(es.drop_last());
    }
}

proof fn lemma_fragment_total_prefix(es: Seq<ReassemblyEntry>, n: int)
    requires
        0 <= n <= es.len(),
    ensures
        fragment_total(es.take(n)) <= fragment_total(es),
    decreases es.len() - n,
{
    if n < es.len() {
        lemma_fragment_total_prefix(es, n + 1);
        assert(es.take(n + 1).drop_last() =~= es.take(n));
    } else {
        assert(es.take(n) =~= es);
    }
}

/// Whether `e` is a fresh entry for `key` created at `now`: no fragments,
/// no end known, both times `now`.
pub open spec fn fresh_entry(e: ReassemblyEntry, key: ReassemblyKey, now: u64) -> bool {
    &&& e.key == key
    &&& e.fragments@.len() == 0
    &&& !e.last_fragment_received
    &&& e.last_fragment_offset is None
    &&& e.received_bytes == 0
    &&& e.arrival_time == now
    &&& e.last_update_time == now
}

/// Whether `staged` is `es` once the entry for `key` is found there, or else
/// created at `now` and appended after evicting the first oldest entry when
/// `max` or more are held; the datagram's entry stands at `i`.
pub open spec fn located(es: Seq<ReassemblyEntry>, max: usize, key: ReassemblyKey, now: u64,
    staged: Seq<ReassemblyEntry>, i: int) -> bool {
    match key_index(es, key) {
        Some(k) => staged == es && i == k,
        None => {
            &&& staged.len() > 0
            &&& i == staged.len() - 1
            &&& fresh_entry(staged[i], key, now)
            &&& (es.len() >= max && es.len() > 0 ==> exists|j: int|
                is_first_oldest(es, j) && staged.drop_last() == #[trigger] es.remove(j))
            &&& (!(es.len() >= max && es.len() > 0) ==> staged.drop_last() == es)
        },
    }
}

/// The end (8-byte units) that a last fragment of `len` bytes at `offset` records.
pub open spec fn last_end(offset: u16, len: nat) -> u16 {
    (offset + (len + 7) / 8) as u16
}

/// Whether `after` and `r` are the table's entries and the result once
/// `fragment` is added, with the `Drop` overlap policy, to the entry at `i`
/// of `staged`: refused when the entry already holds `max_fragments`
/// fragments, when the data would pass 65535 bytes, or on an overlap (the
/// entry kept as it was); otherwise inserted in offset order, the end
/// recorded when it is the last fragment, and, when the datagram is then
/// complete and every fragment lies within the bytes held, the entry
/// removed and the reassembled data returned.
pub open spec fn fragment_outcome(staged: Seq<ReassemblyEntry>, i: int, fragment: FragmentInfo, more: bool,
    max_fragments: usize, now: u64, after: Seq<ReassemblyEntry>, r: Result<Option<Vec<u8>>, IpError>) -> bool {
    let e = staged[i];
    let n = e.fragments@.len();
    let len = fragment.data@.len();
    let frags = sorted_insert(e.fragments@, fragment);
    let got_last = e.last_fragment_received || !more;
    let end = if more { e.last_fragment_offset } else { Some(last_end(fragment.offset, len)) };
    let complete = got_last && end is Some && contiguous_end(frags, frags.len()) == Some(end->0 as nat);
    let total = lens_sum(frags);
    let fits = forall|k: int| 0 <= k < frags.len() ==> #[trigger] frags[k].spec_end() <= total;
    if n >= max_fragments {
        &&& after == staged
        &&& r matches Err(IpError::TooManyFragments { count, max })
        &&& count == (if n < usize::MAX { n + 1 } else { n }) && max == max_fragments
    } else if len > 65535 || e.received_bytes + len > 65535 {
        &&& after == staged
        &&& r matches Err(IpError::InvalidPacket { message }) && message@.len() == 0
    } else if has_overlap(e.fragments@, fragment) {
        &&& after == staged
        &&& r matches Err(IpError::FragmentOverlap { offset }) && offset == fragment.offset
    } else if complete && fits {
        &&& after == staged.remove(i)
        &&& r matches Ok(Some(v)) && v@ == paint(Seq::new(total, |_k: int| 0u8), frags, frags.len())
    } else {
        &&& after == staged.update(i, after[i])
        &&& after[i].key == e.key && after[i].arrival_time == e.arrival_time
        &&& after[i].fragments@ == frags
        &&& after[i].received_bytes == total
        &&& after[i].last_fragment_received == got_last
        &&& after[i].last_fragment_offset == end
        &&& after[i].last_update_time == now
        &&& complete ==> (r matches Err(IpError::InvalidPacket { message }) && message@.len() == 0)
        &&& !complete ==> r matches Ok(None)
    }
}

/// Statistics of a reassembly table.
#[derive(Debug, Clone, PartialEq, Eq)]
pub struct ReassemblyStats {
    pub active_entries: usize,
    pub total_fragments: usize,
    pub complete_entries: usize,
    pub waiting_last_fragment: usize,
    pub max_entries: usize,
}

/// The datagrams under reassembly.
pub struct ReassemblyTable {
    entries: Vec<ReassemblyEntry>,
    max_entries: usize,
    reassembly_timeout_secs: u64,
}

impl ReassemblyTable {
    /// The entries, in insertion order.
    pub closed spec fn spec_entries(&self) -> Seq<ReassemblyEntry> {
        self.entries@
    }

    /// The number of entries beyond which the oldest is evicted.
    pub closed spec fn spec_max_entries(&self) -> usize {
        self.max_entries
    }

    /// The reassembly timeout in seconds.
    pub closed spec fn spec_timeout(&self) -> u64 {
        self.reassembly_timeout_secs
    }

    /// Every entry's bookkeeping is consistent.
    pub open spec fn all_wf(&self) -> bool {
        forall|i: int| 0 <= i < self.spec_entries().len() ==> (#[trigger] self.spec_entries()[i]).wf()
    }

    pub fn new(max_entries: usize, timeout_secs: u64) -> (r: Self)
        ensures
            r.spec_entries().len() == 0,
            r.spec_max_entries() == max_entries,
            r.spec_timeout() == timeout_secs,
    {
        ReassemblyTable { entries: Vec::new(), max_entries, reassembly_timeout_secs: timeout_secs }
    }

    pub fn default_config() -> (r: Self)
        ensures
            r.spec_entries().len() == 0,
            r.spec_max_entries() == DEFAULT_MAX_REASSEMBLY_ENTRIES,
            r.spec_timeout() == DEFAULT_REASSEMBLY_TIMEOUT_SECS,
    {
        Self::new(DEFAULT_MAX_REASSEMBLY_ENTRIES, DEFAULT_REASSEMBLY_TIMEOUT_SECS)
    }

    fn find(&self, key: &ReassemblyKey) -> (r: Option<usize>)
        ensures
            r matches Some(i) ==> key_index(self.entries@, *key) == Some(i as nat) && i < self.entries@.len(),
            r is None ==> key_index(self.entries@, *key) is None,
    {
        proof { lemma_key_index(self.entries@, *key); }
        let mut i: usize = 0;
        while i < self.entries.len()
            invariant
                i <= self.entries@.len(),
                forall|j: int| 0 <= j < i ==> !(#[trigger] self.entries@[j]).key.same(key),
            decreases self.entries@.len() - i,
        {
            if self.entries[i].key.matches(key) {
                proof {
                    lemma_key_index(self.entries@, *key);
                    if let Some(k) = key_index(self.entries@, *key) {
                        if k < i { assert(!self.entries@[k as int].key.same(key)); }
                        if k > i { assert(!self.entries@[i as int].key.same(key)); }
                    }
                }
                return Some(i);
            }
            i = i + 1;
        }
        None
    }

    fn evict_oldest(&mut self)
        ensures
            old(self).spec_entries().len() == 0 ==> final(self).spec_entries() == old(self).spec_entries(),
            old(self).spec_entries().len() > 0 ==> exists|i: int| is_first_oldest(old(self).spec_entries(), i)
                && final(self).spec_entries() == old(self).spec_entries().remove(i),
            final(self).spec_max_entries() == old(self).spec_max_entries(),
            final(self).spec_timeout() == old(self).spec_timeout(),
            old(self).all_wf() ==> final(self).all_wf(),
    {
        if self.entries.len() == 0 {
            return;
        }
        let mut best: usize = 0;
        let mut i: usize = 1;
        while i < self.entries.len()
            invariant
                1 <= i <= self.entries@.len(),
                best < i,
                forall|j: int| 0 <= j < i ==> self.entries@[best as int].arrival_time <= #[trigger] self.entries@[j].arrival_time,
                forall|j: int| 0 <= j < best ==> self.entries@[best as int].arrival_time < #[trigger] self.entries@[j].arrival_time,
            decreases self.entries@.len() - i,
        {
            if self.entries[i].arrival_time < self.entries[best].arrival_time {
                best = i;
            }
            i = i + 1;
        }
        assert(is_first_oldest(self.entries@, best as int));
        let ghost before = self.entries@;
        let _ = self.entries.remove(best);
        proof {
            if old(self).all_wf() {
                assert forall|j: int| 0 <= j < self.entries@.len() implies (#[trigger] self.entries@[j]).wf() by {
                    if j < best { assert(self.entries@[j] == before[j]); } else { assert(self.entries@[j] == before[j + 1]); }
                }
            }
        }
    }

    /// The entry for `key`, created (after evicting the oldest entry when the
    /// table is full) if there is none.
    pub fn get_or_create(&mut self, key: ReassemblyKey, now: u64) -> (r: &mut ReassemblyEntry)
        ensures
            final(self).spec_max_entries() == old(self).spec_max_entries(),
            final(self).spec_timeout() == old(self).spec_timeout(),
            key_index(old(self).spec_entries(), key) matches Some(i) ==> *r == old(self).spec_entries()[i as int]
                && final(self).spec_entries() == old(self).spec_entries().update(i as int, *final(r)),
            key_index(old(self).spec_entries(), key) is None ==> {
                &&& r.key == key
                &&& r.fragments@.len() == 0
                &&& !r.last_fragment_received
                &&& r.last_fragment_offset is None
                &&& r.received_bytes == 0
                &&& r.arrival_time == now
                &&& r.last_update_time == now
                &&& old(self).spec_entries().len() < old(self).spec_max_entries() ==>
                    final(self).spec_entries() == old(self).spec_entries().push(*final(r))
                &&& old(self).spec_entries().len() >= old(self).spec_max_entries() && old(self).spec_entries().len() > 0 ==>
                    exists|i: int| is_first_oldest(old(self).spec_entries(), i)
                    && final(self).spec_entries() == old(self).spec_entries().remove(i).push(*final(r))
                &&& old(self).spec_entries().len() == 0 ==> final(self).spec_entries() == seq![*final(r)]
            },
    {
        let idx = match self.find(&key) {
            Some(i) => i,
            None => {
                if self.entries.len() >= self.max_entries {
                    self.evict_oldest();
                }
                self.entries.push(ReassemblyEntry::new(key, now));
                self.entries.len() - 1
            },
        };
        &mut self.entries[idx]
    }

    /// Finds the entry for `key`, or creates it (after evicting the oldest
    /// entry when the table is full), and gives its index.
    fn locate(&mut self, key: ReassemblyKey, now: u64) -> (i: usize)
        requires
            old(self).all_wf(),
        ensures
            final(self).all_wf(),
            final(self).spec_max_entries() == old(self).spec_max_entries(),
            final(self).spec_timeout() == old(self).spec_timeout(),
            i < final(self).spec_entries().len(),
            located(old(self).spec_entries(), old(self).spec_max_entries(), key, now, final(self).spec_entries(), i as int),
    {
        let ghost es = self.entries@;
        match self.find(&key) {
            Some(i) => i,
            None => {
                let evict = self.entries.len() >= self.max_entries;
                if evict {
                    self.evict_oldest();
                }
                let ghost before = self.entries@;
                proof {
                    assert(self.all_wf());
                    assert forall|j: int| 0 <= j < before.len() implies (#[trigger] before[j]).wf() by {
                        assert(self.spec_entries()[j].wf());
                    }
                }
                self.entries.push(ReassemblyEntry::new(key, now));
                proof {
                    assert forall|j: int| 0 <= j < self.entries@.len() implies (#[trigger] self.spec_entries()[j]).wf() by {
                        if j < before.len() { assert(self.entries@[j] == before[j]); }
                    }
                    assert(self.entries@.drop_last() =~= before);
                    if es.len() >= self.max_entries && es.len() > 0 {
                        let j = choose|j: int| is_first_oldest(es, j) && before == es.remove(j);
                        assert(is_first_oldest(es, j) && self.entries@.drop_last() == es.remove(j));
                    }
                }
                self.entries.len() - 1
            },
        }
    }

    /// Adds a received fragment to its datagram's entry (created when
    /// missing) with the `Drop` overlap policy, records the end of the
    /// datagram when this is its last fragment, and when the datagram is then
    /// complete removes its entry and returns the reassembled data.
    pub fn add_datagram_fragment(&mut self, key: ReassemblyKey, fragment: FragmentInfo, more_fragments: bool,
        max_fragments: usize, now: u64) -> (r: Result<Option<Vec<u8>>, IpError>)
        requires
            old(self).all_wf(),
            fragment.offset < 0x2000,
        ensures
            final(self).all_wf(),
            final(self).spec_max_entries() == old(self).spec_max_entries(),
            final(self).spec_timeout() == old(self).spec_timeout(),
            exists|staged: Seq<ReassemblyEntry>, i: int| 0 <= i < staged.len()
                && #[trigger] located(old(self).spec_entries(), old(self).spec_max_entries(), key, now, staged, i)
                && fragment_outcome(staged, i, fragment, more_fragments, max_fragments, now,
                    final(self).spec_entries(), r),
    {
        let ghost frag = fragment;
        let i = self.locate(key, now);
        let ghost staged = self.entries@;
        let ghost e = staged[i as int];
        proof {
            assert(self.spec_entries()[i as int].wf());
        }
        let count = self.entries[i].fragment_count();
        if count >= max_fragments {
            let shown = if count < usize::MAX { count + 1 } else { count };
            let r = Err(IpError::too_many_fragments(shown, max_fragments));
            assert(fragment_outcome(staged, i as int, frag, more_fragments, max_fragments, now, self.spec_entries(), r));
            return r;
        }
        let data_len = fragment.data.len();
        if data_len > 65535 || self.entries[i].received_bytes as usize + data_len > 65535 {
            let r = Err(IpError::InvalidPacket { message: String::new() });
            assert(fragment_outcome(staged, i as int, frag, more_fragments, max_fragments, now, self.spec_entries(), r));
            return r;
        }
        let offset = fragment.offset;
        match self.entries[i].add_fragment(fragment, FragmentOverlapPolicy::Drop, now) {
            Ok(()) => {},
            Err(e) => {
                proof {
                    assert(self.entries@ =~= staged);
                }
                let r = Err(e);
                assert(fragment_outcome(staged, i as int, frag, more_fragments, max_fragments, now, self.spec_entries(), r));
                return r;
            },
        }
        proof {
            lemma_sorted_insert_index(e.fragments@, frag);
            assert(self.entries@[i as int].fragments@ != e.fragments@);
            assert(self.entries@[i as int].wf());
        }
        if !more_fragments {
            let data_units = (data_len + 7) / 8;
            self.entries[i].set_last_fragment(offset + data_units as u16, now);
            assert(self.entries@[i as int].wf());
        }
        proof {
            assert forall|j: int| 0 <= j < self.entries@.len() implies (#[trigger] self.entries@[j]).wf() by {
                if j != i { assert(self.entries@[j] == staged[j]); }
            }
            assert(self.entries@ =~= staged.update(i as int, self.entries@[i as int]));
        }
        if self.entries[i].is_complete() {
            if !fits_received(&self.entries[i]) {
                let r = Err(IpError::InvalidPacket { message: String::new() });
                assert(fragment_outcome(staged, i as int, frag, more_fragments, max_fragments, now, self.spec_entries(), r));
                return r;
            }
            let assembled = self.entries[i].assemble();
            let ghost mid = self.entries@;
            let _ = self.entries.remove(i);
            proof {
                assert forall|j: int| 0 <= j < self.entries@.len() implies (#[trigger] self.entries@[j]).wf() by {
                    if j < i { assert(self.entries@[j] == mid[j]); } else { assert(self.entries@[j] == mid[j + 1]); }
                }
                assert(self.entries@ =~= staged.remove(i as int));
            }
            let r = Ok(Some(assembled));
            assert(fragment_outcome(staged, i as int, frag, more_fragments, max_fragments, now, self.spec_entries(), r));
            r
        } else {
            let r = Ok(None);
            assert(fragment_outcome(staged, i as int, frag, more_fragments, max_fragments, now, self.spec_entries(), r));
            r
        }
    }

    /// Removes and returns the entry for `key`.
    pub fn remove(&mut self, key: &ReassemblyKey) -> (r: Option<ReassemblyEntry>)
        ensures
            final(self).spec_max_entries() == old(self).spec_max_entries(),
            final(self).spec_timeout() == old(self).spec_timeout(),
            key_index(old(self).spec_entries(), *key) matches Some(i) ==> r == Some(old(self).spec_entries()[i as int])
                && final(self).spec_entries() == old(self).spec_entries().remove(i as int),
            key_index(old(self).spec_entries(), *key) is None ==> r is None
                && final(self).spec_entries() == old(self).spec_entries(),
    {
        match self.find(key) {
            Some(i) => Some(self.entries.remove(i)),
            None => None,
        }
    }

    /// Whether an entry for `key` exists.
    pub fn contains_key(&self, key: &ReassemblyKey) -> (r: bool)
        ensures
            r == (key_index(self.spec_entries(), *key) is Some),
            r == exists|i: int| 0 <= i < self.spec_entries().len() && (#[trigger] self.spec_entries()[i]).key.same(key),
    {
        proof { lemma_key_index(self.entries@, *key); }
        self.find(key).is_some()
    }

    pub fn len(&self) -> (r: usize)
        ensures
            r == self.spec_entries().len(),
    {
        self.entries.len()
    }

    pub fn is_empty(&self) -> (r: bool)
        ensures
            r == (self.spec_entries().len() == 0),
    {
        self.entries.len() == 0
    }

    pub fn max_entries(&self) -> (r: usize)
        ensures
            r == self.spec_max_entries(),
    {
        self.max_entries
    }

    /// Removes every entry older than the timeout and returns their keys.
    pub fn handle_timeouts(&mut self, now: u64) -> (r: Vec<ReassemblyKey>)
        ensures
            final(self).spec_max_entries() == old(self).spec_max_entries(),
            final(self).spec_timeout() == old(self).spec_timeout(),
            final(self).spec_entries() == old(self).spec_entries().filter(
                |e: ReassemblyEntry| !timed_out(now, e.arrival_time, old(self).spec_timeout())),
            r@ == old(self).spec_entries().filter(
                |e: ReassemblyEntry| timed_out(now, e.arrival_time, old(self).spec_timeout())).map_values(
                |e: ReassemblyEntry| e.key),
    {
        let ghost orig = self.entries@;
        let ghost t = self.reassembly_timeout_secs;
        let ghost keep = |e: ReassemblyEntry| !timed_out(now, e.arrival_time, t);
        let ghost drop = |e: ReassemblyEntry| timed_out(now, e.arrival_time, t);
        let mut rest: Vec<ReassemblyEntry> = Vec::new();
        std::mem::swap(&mut rest, &mut self.entries);
        let mut kept: Vec<ReassemblyEntry> = Vec::new();
        let mut keys: Vec<ReassemblyKey> = Vec::new();
        let ghost mut i: int = 0;
        while rest.len() > 0
            invariant
                0 <= i <= orig.len(),
                rest@ == orig.skip(i),
                t == self.reassembly_timeout_secs,
                keep == (|e: ReassemblyEntry| !timed_out(now, e.arrival_time, t)),
                drop == (|e: ReassemblyEntry| timed_out(now, e.arrival_time, t)),
                kept@ == orig.take(i).filter(keep),
                keys@ == orig.take(i).filter(drop).map_values(|e: ReassemblyEntry| e.key),
            decreases rest@.len(),
        {
            reveal_with_fuel(Seq::<_>::filter, 1);
            let e = rest.remove(0);
            assert(e == orig[i]);
            assert(orig.take(i + 1).drop_last() =~= orig.take(i));
            assert(rest@ =~= orig.skip(i + 1));
            let ghost before = orig.take(i).filter(drop);
            if is_elapsed(now, e.arrival_time, self.reassembly_timeout_secs) {
                keys.push(e.key);
                assert(orig.take(i + 1).filter(drop) == before.push(e));
                assert(keys@ =~= before.push(e).map_values(|e: ReassemblyEntry| e.key));
            } else {
                kept.push(e);
            }
            proof { i = i + 1; }
        }
        assert(orig.take(orig.len() as int) =~= orig);
        self.entries = kept;
        keys
    }

    /// Removes all entries.
    pub fn clear(&mut self)
        ensures
            final(self).spec_entries().len() == 0,
            final(self).spec_max_entries() == old(self).spec_max_entries(),
            final(self).spec_timeout() == old(self).spec_timeout(),
    {
        self.entries.clear();
    }

    /// Counts of entries and fragments.
    pub fn stats(&self) -> (r: ReassemblyStats)
        requires
            forall|i: int| 0 <= i < self.spec_entries().len() ==> (#[trigger] self.spec_entries()[i]).wf(),
            fragment_total(self.spec_entries()) <= usize::MAX,
        ensures
            r.active_entries == self.spec_entries().len(),
            r.total_fragments == fragment_total(self.spec_entries()),
            r.complete_entries == complete_count(self.spec_entries()),
            r.waiting_last_fragment == waiting_count(self.spec_entries()),
            r.max_entries == self.spec_max_entries(),
    {
        let mut total_fragments: usize = 0;
        let mut complete_entries: usize = 0;
        let mut waiting_last: usize = 0;
        let mut i: usize = 0;
        while i < self.entries.len()
            invariant
                i <= self.entries@.len(),
                forall|k: int| 0 <= k < self.entries@.len() ==> (#[trigger] self.entries@[k]).wf(),
                fragment_total(self.entries@) <= usize::MAX,
                total_fragments == fragment_total(self.entries@.take(i as int)),
                complete_entries == complete_count(self.entries@.take(i as int)),
                waiting_last == waiting_count(self.entries@.take(i as int)),
            decreases self.entries@.len() - i,
        {
            let e = &self.entries[i];
            proof {
                assert(self.entries@.take(i + 1).drop_last() =~= self.entries@.take(i as int));
                lemma_fragment_total_prefix(self.entries@, i + 1);
                lemma_counts_bounded(self.entries@.take(i as int));
                assert(self.entries@[i as int].wf());
            }
            total_fragments = total_fragments + e.fragment_count();
            if e.is_complete() {
                complete_entries = complete_entries + 1;
            }
            if !e.last_fragment_received {
                waiting_last = waiting_last + 1;
            }
            i = i + 1;
        }
        assert(self.entries@.take(self.entries@.len() as int) =~= self.entries@);
        ReassemblyStats {
            active_entries: self.entries.len(),
            total_fragments,
            complete_entries,
            waiting_last_fragment: waiting_last,
            max_entries: self.max_entries,
        }
    }
}

/// Whether `s` are the fragments that cut `payload` into pieces of `max`
/// bytes (a multiple of 8), in order, the last one shorter.
pub open spec fn cut_pieces(payload: Seq<u8>, max: nat, s: Seq<FragmentInfo>) -> bool {
    let n = payload.len();
    &&& max > 0
    &&& max % 8 == 0
    &&& 0 < n <= 65535
    &&& s.len() > 0
    &&& (s.len() - 1) * max < n <= s.len() * max
    &&& forall|k: int| 0 <= k < s.len() ==> {
        &&& (#[trigger] s[k]).spec_start() == k * max
        &&& s[k].data@ == payload.subrange(k * max, if (k + 1) * max < n { (k + 1) * max } else { n as int })
    }
}

/// The end of the first `j` pieces.
spec fn piece_end(n: nat, max: nat, j: nat) -> int {
    if j * max < n { (j * max) as int } else { n as int }
}

proof fn lemma_piece(payload: Seq<u8>, max: nat, s: Seq<FragmentInfo>, k: int)
    requires
        cut_pieces(payload, max, s),
        0 <= k < s.len(),
    ensures
        s[k].spec_start() == k * max,
        k * max < payload.len(),
        s[k].spec_end() == piece_end(payload.len(), max, (k + 1) as nat),
        piece_end(payload.len(), max, k as nat) == k * max,
        (k + 1) * max == k * max + max,
        k < s.len() - 1 ==> s[k].data@.len() == max && (k + 1) * max < payload.len(),
        k == s.len() - 1 ==> piece_end(payload.len(), max, (k + 1) as nat) == payload.len(),
        s[k].offset as int * 8 == k * max,
        (k * max) % 8 == 0,
{
    assert((k + 1) * max == k * max + max) by (nonlinear_arith);
    assert(k * max <= (s.len() - 1) * max) by (nonlinear_arith)
        requires
            k <= s.len() - 1,
    ;
    if k < s.len() - 1 {
        assert((k + 1) * max <= (s.len() - 1) * max) by (nonlinear_arith)
            requires
                k + 1 <= s.len() - 1,
        ;
    }
    let q = (max / 8) as int;
    assert(max == q * 8);
    assert(k * max == (k * q) * 8) by (nonlinear_arith)
        requires
            max == q * 8,
    ;
    vstd::arithmetic::div_mod::lemma_mod_multiples_basic(k * q, 8);
}

proof fn lemma_pieces_insert(payload: Seq<u8>, max: nat, s: Seq<FragmentInfo>, k: int)
    requires
        cut_pieces(payload, max, s),
        0 <= k < s.len(),
    ensures
        !has_overlap(s.take(k), s[k]),
        sorted_insert(s.take(k), s[k]) == s.take(k + 1),
{
    let t = s.take(k);
    lemma_piece(payload, max, s, k);
    assert forall|i: int| 0 <= i < t.len() implies !(#[trigger] t[i]).spec_overlaps(&s[k]) by {
        lemma_piece(payload, max, s, i);
        assert(t[i] == s[i]);
        assert((i + 1) * max <= k * max) by (nonlinear_arith)
            requires
                i + 1 <= k,
        ;
        assert(s[i].spec_end() <= s[k].spec_start());
        assert(s[i].spec_end() <= 65535 && s[k].spec_start() <= 65535);
    }
    assert forall|i: int| 0 <= i < t.len() implies t[i].offset < s[k].offset by {
        lemma_piece(payload, max, s, i);
        assert(t[i] == s[i]);
        assert(i * max < k * max) by (nonlinear_arith)
            requires
                i < k,
                max > 0,
        ;
    }
    lemma_insert_pos(t, s[k]);
    lemma_sorted_insert_index(t, s[k]);
    assert(insert_pos(t, s[k]) == t.len());
    assert(t.take(t.len() as int) + seq![s[k]] + t.skip(t.len() as int) =~= s.take(k + 1));
}

proof fn lemma_pieces_sum(payload: Seq<u8>, max: nat, s: Seq<FragmentInfo>, j: nat)
    requires
        cut_pieces(payload, max, s),
        j <= s.len(),
    ensures
        lens_sum(s.take(j as int)) == piece_end(payload.len(), max, j),
    decreases j,
{
    if j == 0 {
        assert(s.take(0) =~= Seq::<FragmentInfo>::empty());
        assert(j * max == 0) by (nonlinear_arith)
            requires
                j == 0,
        ;
    } else {
        let k = (j - 1) as int;
        lemma_pieces_sum(payload, max, s, (j - 1) as nat);
        lemma_piece(payload, max, s, k);
        let t = s.take(j as int);
        assert(t.drop_last() =~= s.take(k));
        assert(t.last() == s[k]);
        assert(s[k].data@.len() <= 65535);
    }
}

proof fn lemma_pieces_contiguous(payload: Seq<u8>, max: nat, s: Seq<FragmentInfo>, j: nat)
    requires
        cut_pieces(payload, max, s),
        0 < j <= s.len(),
    ensures
        contiguous_end(s, j) == Some(((j - 1) * max / 8 + units(s[j - 1].data@.len() as u16)) as nat),
        j < s.len() ==> contiguous_end(s, j) == Some((j * max / 8) as nat),
    decreases j,
{
    let k = (j - 1) as int;
    lemma_piece(payload, max, s, k);
    assert(s[k].data@.len() <= 65535);
    if j > 1 {
        lemma_pieces_contiguous(payload, max, s, (j - 1) as nat);
        lemma_piece(payload, max, s, k - 1);
    } else {
        assert(k * max == 0) by (nonlinear_arith)
            requires
                k == 0,
        ;
    }
    if j < s.len() {
        assert((s[k].data@.len() as u16) as nat == max);
        assert(units(s[k].data@.len() as u16) == max / 8) by (nonlinear_arith)
            requires
                units(s[k].data@.len() as u16) == (max + 7) / 8,
                max % 8 == 0,
        ;
        assert(k * max / 8 + max / 8 == j * max / 8) by (nonlinear_arith)
            requires
                (k * max) % 8 == 0,
                max % 8 == 0,
                j * max == k * max + max,
        ;
    }
}

proof fn lemma_pieces_paint(payload: Seq<u8>, max: nat, s: Seq<FragmentInfo>, j: nat)
    requires
        cut_pieces(payload, max, s),
        j <= s.len(),
    ensures
        ({
            let zeros = Seq::new(payload.len(), |_k: int| 0u8);
            let e = piece_end(payload.len(), max, j);
            paint(zeros, s, j) == payload.subrange(0, e) + zeros.skip(e)
        }),
    decreases j,
{
    let n = payload.len();
    let zeros = Seq::new(n, |_k: int| 0u8);
    if j == 0 {
        assert(j * max == 0) by (nonlinear_arith)
            requires
                j == 0,
        ;
        assert(payload.subrange(0, 0) + zeros.skip(0) =~= zeros);
    } else {
        let k = (j - 1) as int;
        lemma_pieces_paint(payload, max, s, (j - 1) as nat);
        lemma_piece(payload, max, s, k);
        let start = k * max;
        let end = piece_end(n, max, j);
        let b = payload.subrange(0, start) + zeros.skip(start);
        assert(b.take(start) =~= payload.subrange(0, start));
        assert(b.skip(end) =~= zeros.skip(end));
        assert(payload.subrange(0, start) + payload.subrange(start, end) + zeros.skip(end) =~= payload.subrange(0, end)
            + zeros.skip(end));
    }
}

/// Fragments that cut a payload into pieces, added in order to a
/// reassembly entry, never overlap what is held and each goes after it;
/// once all are in, they cover the payload without a gap up to its end (in
/// 8-byte units, the offset recorded with the last fragment), count its
/// bytes, and reassemble to the payload.
pub proof fn lemma_fragment_then_reassemble(payload: Seq<u8>, max: nat, s: Seq<FragmentInfo>)
    requires
        cut_pieces(payload, max, s),
    ensures
        forall|k: int| 0 <= k < s.len() ==> !has_overlap(s.take(k), #[trigger] s[k]) && sorted_insert(
            s.take(k),
            s[k],
        ) == s.take(k + 1),
        lens_sum(s) == payload.len(),
        contiguous_end(s, s.len()) == Some(units(payload.len() as u16)),
        paint(Seq::new(payload.len(), |_k: int| 0u8), s, s.len()) == payload,
{
    let m = s.len();
    let n = payload.len();
    assert forall|k: int| 0 <= k < s.len() implies !has_overlap(s.take(k), #[trigger] s[k]) && sorted_insert(
        s.take(k),
        s[k],
    ) == s.take(k + 1) by {
        lemma_pieces_insert(payload, max, s, k);
    }
    lemma_pieces_sum(payload, max, s, m);
    assert(s.take(m as int) =~= s);
    lemma_piece(payload, max, s, m - 1);
    lemma_pieces_contiguous(payload, max, s, m);
    let last = s[m - 1].data@.len();
    assert(last == n - (m - 1) * max);
    assert(((m - 1) * max / 8 + units(last as u16)) as nat == units(n as u16)) by (nonlinear_arith)
        requires
            ((m - 1) * max) % 8 == 0,
            last == n - (m - 1) * max,
            last <= 65535,
            n <= 65535,
            units(last as u16) == (last + 7) / 8,
            units(n as u16) == (n + 7) / 8,
            (last as u16) as nat == last,
            (n as u16) as nat == n,
    ;
    lemma_pieces_paint(payload, max, s, m);
    let zeros = Seq::new(n, |_k: int| 0u8);
    assert(payload.subrange(0, n as int) + zeros.skip(n as int) =~= payload);
}

} // verus!
