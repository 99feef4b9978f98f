use vstd::prelude::*;
use crate::common::addr::Ipv6Addr;
use crate::common::bytes::{push_repeat, copy_range};
use crate::common::text::{append_text, u16_decimal, u16_decimal_text, usize_decimal, usize_decimal_text};
use crate::protocols::ip::fragment::elapsed_ms;

verus! {

/// Default number of datagrams under reassembly.
pub const DEFAULT_MAX_REASSEMBLY_ENTRIES: usize = 256;
/// Reassembly timeout in seconds (RFC 8200).
pub const DEFAULT_REASSEMBLY_TIMEOUT: u64 = 60;
/// Most fragments kept per datagram.
pub const DEFAULT_MAX_FRAGMENTS_PER_PACKET: usize = 64;

/// Identifies the datagram a fragment belongs to.
#[derive(Debug, Clone, Copy, PartialEq, Eq, Hash)]
pub struct ReassemblyKey {
    pub source_addr: Ipv6Addr,
    pub dest_addr: Ipv6Addr,
    pub identification: u32,
}

impl ReassemblyKey {
    /// Whether two keys name the same datagram.
    pub open spec fn same(&self, other: &ReassemblyKey) -> bool {
        &&& self.source_addr.bytes@ == other.source_addr.bytes@
        &&& self.dest_addr.bytes@ == other.dest_addr.bytes@
        &&& self.identification == other.identification
    }

    pub fn new(source_addr: Ipv6Addr, dest_addr: Ipv6Addr, identification: u32) -> (r: Self)
        ensures
            r == (ReassemblyKey { source_addr, dest_addr, identification }),
    {
        ReassemblyKey { source_addr, dest_addr, identification }
    }

    /// Whether two keys name the same datagram.
    pub fn matches(&self, other: &ReassemblyKey) -> (r: bool)
        ensures
            r == self.same(other),
    {
        self.identification == other.identification && self.source_addr.equals(&other.source_addr)
            && self.dest_addr.equals(&other.dest_addr)
    }
}

/// The contents of a fragment.
pub struct FragmentModel {
    pub offset: u16,
    pub more_fragments: bool,
    pub data: Seq<u8>,
}

impl FragmentModel {
    /// First byte position covered.
    pub open spec fn start(self) -> int {
        self.offset * 8
    }

    /// One past the last byte position covered.
    pub open spec fn end(self) -> int {
        self.start() + self.data.len()
    }

    /// Whether two fragments share a byte position.
    pub open spec fn overlaps(self, other: FragmentModel) -> bool {
        !(self.end() <= other.start() || other.end() <= self.start())
    }
}

/// One received fragment.
#[derive(Debug, Clone)]
pub struct FragmentInfo {
    /// Offset in 8-byte units.
    pub offset: u16,
    pub more_fragments: bool,
    pub data: Vec<u8>,
}

impl FragmentInfo {
    /// The fragment's contents.
    pub open spec fn model(&self) -> FragmentModel {
        FragmentModel { offset: self.offset, more_fragments: self.more_fragments, data: self.data@ }
    }

    /// Whether the end position fits a `usize`.
    pub open spec fn end_fits(&self) -> bool {
        self.model().end() <= usize::MAX
    }

    pub fn new(offset: u16, more_fragments: bool, data: Vec<u8>) -> (r: Self)
        ensures
            r.offset == offset && r.more_fragments == more_fragments && r.data@ == data@,
    {
        FragmentInfo { offset, more_fragments, data }
    }

    /// One past the last byte position covered.
    pub fn end_offset(&self) -> (r: usize)
        requires
            self.end_fits(),
        ensures
            r == self.model().end(),
    {
        (self.offset as usize) * 8 + self.data.len()
    }

    /// Whether two fragments share a byte position.
    pub fn overlaps_with(&self, other: &FragmentInfo) -> (r: bool)
        requires
            self.end_fits(),
            other.end_fits(),
        ensures
            r == self.model().overlaps(other.model()),
    {
        let self_start = (self.offset as usize) * 8;
        let self_end = self.end_offset();
        let other_start = (other.offset as usize) * 8;
        let other_end = other.end_offset();
        !(self_end <= other_start || other_end <= self_start)
    }
}

/// The contents of the fragments.
pub open spec fn fragment_models(v: Seq<FragmentInfo>) -> Seq<FragmentModel> {
    v.map_values(|f: FragmentInfo| f.model())
}

/// Errors of IPv6 reassembly.
#[derive(Debug, Clone, Copy, PartialEq, Eq, Structural)]
pub enum ReassemblyError {
    TooManyFragments { count: usize, max: usize },
    FragmentOverlap { offset: u16, existing_offset: u16 },
    InconsistentTotalLength { expected: usize, found: usize },
    Incomplete,
    InvalidFragmentData,
    Timeout,
}

impl ReassemblyError {
    /// The error's text.
    pub open spec fn text(&self) -> Seq<char> {
        match self {
            ReassemblyError::TooManyFragments { count, max } => "分片数量超过限制: "@ + usize_decimal(*count)
                + " >= "@ + usize_decimal(*max),
            ReassemblyError::FragmentOverlap { offset, existing_offset } => "分片重叠: 偏移 "@
                + u16_decimal(*offset) + " 与 "@ + u16_decimal(*existing_offset) + " 重叠"@,
            ReassemblyError::InconsistentTotalLength { expected, found } => "总长度不一致: 期望 "@
                + usize_decimal(*expected) + ", 发现 "@ + usize_decimal(*found),
            ReassemblyError::Incomplete => "重组未完成"@,
            ReassemblyError::InvalidFragmentData => "无效的分片数据"@,
            ReassemblyError::Timeout => "重组超时"@,
        }
    }

    /// The error's text.
    pub fn to_string(&self) -> (r: String)
        ensures
            r@ == self.text(),
    {
        match self {
            ReassemblyError::TooManyFragments { count, max } => append_text(append_text(append_text(
                "分片数量超过限制: ".to_owned(), usize_decimal_text(*count).as_str()), " >= "),
                usize_decimal_text(*max).as_str()),
            ReassemblyError::FragmentOverlap { offset, existing_offset } => append_text(append_text(append_text(
                append_text("分片重叠: 偏移 ".to_owned(), u16_decimal_text(*offset).as_str()), " 与 "),
                u16_decimal_text(*existing_offset).as_str()), " 重叠"),
            ReassemblyError::InconsistentTotalLength { expected, found } => append_text(append_text(append_text(
                "总长度不一致: 期望 ".to_owned(), usize_decimal_text(*expected).as_str()), ", 发现 "),
                usize_decimal_text(*found).as_str()),
            ReassemblyError::Incomplete => "重组未完成".to_owned(),
            ReassemblyError::InvalidFragmentData => "无效的分片数据".to_owned(),
            ReassemblyError::Timeout => "重组超时".to_owned(),
        }
    }
}

// ---------- reassembly of one datagram ----------

/// The state of one datagram under reassembly.
pub struct EntryModel {
    pub key: ReassemblyKey,
    pub fragments: Seq<FragmentModel>,
    pub total_length: Option<usize>,
    pub first_arrival: u64,
}

/// Position of the first fragment of `s` that overlaps `f`.
pub open spec fn first_overlap(s: Seq<FragmentModel>, f: FragmentModel) -> Option<nat>
    decreases s.len(),
{
    if s.len() == 0 {
        None
    } else if f.overlaps(s[0]) {
        Some(0)
    } else {
        match first_overlap(s.drop_first(), f) {
            Some(i) => Some(i + 1),
            None => None,
        }
    }
}

/// The entry after `f` is added, or the error that refuses it.
pub open spec fn entry_add(e: EntryModel, f: FragmentModel) -> Result<EntryModel, ReassemblyError> {
    if e.fragments.len() >= 64 {
        Err(ReassemblyError::TooManyFragments { count: e.fragments.len() as usize, max: 64 })
    } else if first_overlap(e.fragments, f) is Some {
        Err(ReassemblyError::FragmentOverlap {
            offset: f.offset,
            existing_offset: e.fragments[first_overlap(e.fragments, f).unwrap() as int].offset,
        })
    } else if !f.more_fragments && e.total_length is Some && e.total_length.unwrap() != f.end() {
        Err(ReassemblyError::InconsistentTotalLength { expected: e.total_length.unwrap(), found: f.end() as usize })
    } else {
        Ok(EntryModel {
            fragments: e.fragments.push(f),
            total_length: if !f.more_fragments { Some(f.end() as usize) } else { e.total_length },
            ..e
        })
    }
}

/// Whether some fragment of `s` holds byte position `b`.
pub open spec fn byte_held(s: Seq<FragmentModel>, b: int) -> bool {
    exists|i: int| 0 <= i < s.len() && (#[trigger] s[i]).start() <= b && b < s[i].end()
}

/// Whether all fragments arrived: the last one gave the total length and
/// every byte position below it is held by some fragment.
pub open spec fn entry_complete(e: EntryModel) -> bool {
    &&& e.total_length is Some
    &&& e.fragments.len() > 0
    &&& forall|b: int| 0 <= b < e.total_length.unwrap() ==> #[trigger] byte_held(e.fragments, b)
}

/// `order` with index `i` inserted after every index whose fragment's offset
/// is not larger than that of fragment `i`.
pub open spec fn insert_by_offset(order: Seq<usize>, s: Seq<FragmentModel>, i: usize) -> Seq<usize>
    decreases order.len(),
{
    if order.len() == 0 {
        seq![i]
    } else if s[order.last() as int].offset <= s[i as int].offset {
        order.push(i)
    } else {
        insert_by_offset(order.drop_last(), s, i).push(order.last())
    }
}

/// The indices of the first `n` fragments, stably sorted by offset.
pub open spec fn offset_order(s: Seq<FragmentModel>, n: nat) -> Seq<usize>
    decreases n,
{
    if n == 0 {
        Seq::empty()
    } else {
        insert_by_offset(offset_order(s, (n - 1) as nat), s, (n - 1) as usize)
    }
}

/// `buf` with the fragments written at their positions in the given order.
pub open spec fn paint_in_order(buf: Seq<u8>, s: Seq<FragmentModel>, order: Seq<usize>) -> Seq<u8>
    decreases order.len(),
{
    if order.len() == 0 {
        buf
    } else {
        let b = paint_in_order(buf, s, order.drop_last());
        let f = s[order.last() as int];
        b.take(f.start()) + f.data + b.skip(f.end())
    }
}

/// The reassembled datagram, or why there is none.
pub open spec fn entry_reassemble(e: EntryModel) -> Result<Seq<u8>, ReassemblyError> {
    if !entry_complete(e) {
        Err(ReassemblyError::Incomplete)
    } else if exists|i: int| 0 <= i < e.fragments.len() && e.fragments[i].end() > e.total_length.unwrap() {
        Err(ReassemblyError::InvalidFragmentData)
    } else {
        Ok(paint_in_order(Seq::new(e.total_length.unwrap() as nat, |_i: int| 0u8), e.fragments,
            offset_order(e.fragments, e.fragments.len())))
    }
}

proof fn lemma_first_overlap(s: Seq<FragmentModel>, f: FragmentModel)
    ensures
        first_overlap(s, f) matches Some(i) ==> i < s.len() && f.overlaps(s[i as int])
            && forall|j: int| 0 <= j < i ==> !f.overlaps(#[trigger] s[j]),
        first_overlap(s, f) is None ==> forall|j: int| 0 <= j < s.len() ==> !f.overlaps(#[trigger] s[j]),
    decreases s.len(),
{
    if s.len() > 0 && !f.overlaps(s[0]) {
        lemma_first_overlap(s.drop_first(), f);
        assert forall|j: int| 0 < j < s.len() implies #[trigger] s[j] == s.drop_first()[j - 1] by {}
    }
}

proof fn lemma_first_overlap_at(s: Seq<FragmentModel>, f: FragmentModel, i: int)
    requires
        0 <= i < s.len(),
        f.overlaps(s[i]),
        forall|j: int| 0 <= j < i ==> !f.overlaps(#[trigger] s[j]),
    ensures
        first_overlap(s, f) == Some(i as nat),
{
    lemma_first_overlap(s, f);
    match first_overlap(s, f) {
        Some(k) => {
            if (k as int) < i {
                assert(!f.overlaps(s[k as int]));
            }
            if (k as int) > i {
                assert(!f.overlaps(s[i]));
            }
        },
        None => {
            assert(!f.overlaps(s[i]));
        },
    }
}

proof fn lemma_first_overlap_none(s: Seq<FragmentModel>, f: FragmentModel)
    requires
        forall|j: int| 0 <= j < s.len() ==> !f.overlaps(#[trigger] s[j]),
    ensures
        first_overlap(s, f) is None,
{
    lemma_first_overlap(s, f);
    if let Some(k) = first_overlap(s, f) {
        assert(!f.overlaps(s[k as int]));
    }
}

proof fn lemma_insert_by_offset_at(order: Seq<usize>, s: Seq<FragmentModel>, i: usize, p: int)
    requires
        0 <= p <= order.len(),
        p == 0 || s[order[p - 1] as int].offset <= s[i as int].offset,
        forall|k: int| p <= k < order.len() ==> s[order[k] as int].offset > s[i as int].offset,
    ensures
        insert_by_offset(order, s, i) == order.take(p) + seq![i] + order.skip(p),
    decreases order.len(),
{
    if order.len() == 0 {
        assert(order.take(p) + seq![i] + order.skip(p) =~= seq![i]);
    } else if s[order.last() as int].offset <= s[i as int].offset {
        assert(p == order.len());
        assert(order.take(p) + seq![i] + order.skip(p) =~= order.push(i));
    } else {
        let d = order.drop_last();
        assert(p < order.len());
        lemma_insert_by_offset_at(d, s, i, p);
        assert(d.take(p) + seq![i] + d.skip(p) + seq![order.last()] =~= order.take(p) + seq![i] + order.skip(p));
    }
}

proof fn lemma_offset_order_indices(s: Seq<FragmentModel>, n: nat)
    requires
        n <= s.len(),
        n <= usize::MAX,
    ensures
        offset_order(s, n).len() == n,
        forall|k: int| 0 <= k < n ==> (#[trigger] offset_order(s, n)[k]) < n,
        forall|x: usize| x < n ==> #[trigger] offset_order(s, n).contains(x),
    decreases n,
{
    if n > 0 {
        let m = (n - 1) as nat;
        lemma_offset_order_indices(s, m);
        lemma_insert_by_offset_members(offset_order(s, m), s, m as usize);
        let o = offset_order(s, n);
        assert forall|x: usize| x < n implies #[trigger] o.contains(x) by {
            if x < m {
                assert(offset_order(s, m).contains(x));
            }
        }
    }
}

proof fn lemma_insert_by_offset_members(order: Seq<usize>, s: Seq<FragmentModel>, i: usize)
    ensures
        insert_by_offset(order, s, i).len() == order.len() + 1,
        insert_by_offset(order, s, i).contains(i),
        forall|x: usize| order.contains(x) ==> insert_by_offset(order, s, i).contains(x),
        forall|k: int| 0 <= k < insert_by_offset(order, s, i).len() ==> (#[trigger] insert_by_offset(order, s, i)[k] == i
            || order.contains(insert_by_offset(order, s, i)[k])),
    decreases order.len(),
{
    let r = insert_by_offset(order, s, i);
    if order.len() == 0 {
        assert(r[0] == i);
    } else if s[order.last() as int].offset <= s[i as int].offset {
        assert(r[r.len() - 1] == i);
        assert forall|x: usize| order.contains(x) implies r.contains(x) by {
            let k = choose|k: int| 0 <= k < order.len() && order[k] == x;
            assert(r[k] == x);
        }
        assert forall|k: int| 0 <= k < r.len() implies (#[trigger] r[k] == i || order.contains(r[k])) by {
            if k < order.len() {
                assert(r[k] == order[k]);
            }
        }
    } else {
        let d = order.drop_last();
        lemma_insert_by_offset_members(d, s, i);
        let t = insert_by_offset(d, s, i);
        assert(r == t.push(order.last()));
        let ki = choose|k: int| 0 <= k < t.len() && t[k] == i;
        assert(r[ki] == i);
        assert forall|x: usize| order.contains(x) implies r.contains(x) by {
            let k = choose|k: int| 0 <= k < order.len() && order[k] == x;
            if k == order.len() - 1 {
                assert(r[r.len() - 1] == x);
            } else {
                assert(d[k] == x);
                assert(d.contains(x));
                let k2 = choose|k2: int| 0 <= k2 < t.len() && t[k2] == x;
                assert(r[k2] == x);
            }
        }
        assert forall|k: int| 0 <= k < r.len() implies (#[trigger] r[k] == i || order.contains(r[k])) by {
            if k == r.len() - 1 {
                assert(order[order.len() - 1] == r[k]);
            } else {
                assert(r[k] == t[k]);
                if t[k] != i {
                    assert(d.contains(t[k]));
                    let k2 = choose|k2: int| 0 <= k2 < d.len() && d[k2] == t[k];
                    assert(order[k2] == t[k]);
                }
            }
        }
    }
}

/// Whether every fragment's end position fits a `usize`.
pub open spec fn entry_model_fits(e: EntryModel) -> bool {
    forall|i: int| 0 <= i < e.fragments.len() ==> (#[trigger] e.fragments[i]).end() <= usize::MAX
}

/// The state of one datagram under reassembly.
#[derive(Debug, Clone)]
pub struct ReassemblyEntry {
    pub key: ReassemblyKey,
    pub fragments: Vec<FragmentInfo>,
    /// Known once the last fragment arrived.
    pub total_length: Option<usize>,
    /// Arrival time of the first fragment, in milliseconds.
    pub first_arrival: u64,
}

impl ReassemblyEntry {
    /// The entry's contents.
    pub open spec fn model(&self) -> EntryModel {
        EntryModel {
            key: self.key,
            fragments: fragment_models(self.fragments@),
            total_length: self.total_length,
            first_arrival: self.first_arrival,
        }
    }

    /// Whether every fragment's end position fits a `usize`.
    pub open spec fn ends_fit(&self) -> bool {
        entry_model_fits(self.model())
    }

    /// An entry with no fragments, started at `now` (milliseconds).
    pub fn new(key: ReassemblyKey, now: u64) -> (r: Self)
        ensures
            r.model() == (EntryModel { key, fragments: Seq::empty(), total_length: None, first_arrival: now }),
            r.ends_fit(),
    {
        let r = ReassemblyEntry { key, fragments: Vec::new(), total_length: None, first_arrival: now };
        assert(r.model().fragments =~= Seq::<FragmentModel>::empty());
        r
    }

    /// Adds a fragment: refused when 64 are held, when it overlaps one held,
    /// or when it is a last fragment whose end disagrees with the known total.
    pub fn add_fragment(&mut self, fragment: FragmentInfo) -> (r: Result<(), ReassemblyError>)
        requires
            old(self).ends_fit(),
            fragment.end_fits(),
        ensures
            final(self).ends_fit(),
            match entry_add(old(self).model(), fragment.model()) {
                Ok(m) => r is Ok && final(self).model() == m,
                Err(e) => r == Err::<(), ReassemblyError>(e) && final(self).model() == old(self).model(),
            },
    {
        let ghost s = fragment_models(self.fragments@);
        if self.fragments.len() >= 64 {
            return Err(ReassemblyError::TooManyFragments { count: self.fragments.len(), max: 64 });
        }
        let mut i: usize = 0;
        while i < self.fragments.len()
            invariant
                i <= self.fragments@.len(),
                s == fragment_models(self.fragments@),
                self.ends_fit(),
                fragment.end_fits(),
                forall|k: int| 0 <= k < i ==> !fragment.model().overlaps(#[trigger] s[k]),
                self.fragments@ == old(self).fragments@,
                self.fragments@.len() < 64,
                self.total_length == old(self).total_length,
                self.key == old(self).key,
                self.first_arrival == old(self).first_arrival,
            decreases self.fragments@.len() - i,
        {
            assert(s[i as int] == self.fragments@[i as int].model());
            assert(self.fragments@[i as int].end_fits());
            if fragment.overlaps_with(&self.fragments[i]) {
                proof { lemma_first_overlap_at(s, fragment.model(), i as int); }
                return Err(ReassemblyError::FragmentOverlap {
                    offset: fragment.offset,
                    existing_offset: self.fragments[i].offset,
                });
            }
            i = i + 1;
        }
        proof { lemma_first_overlap_none(s, fragment.model()); }
        if !fragment.more_fragments {
            let new_total = fragment.end_offset();
            match self.total_length {
                Some(t) => {
                    if t != new_total {
                        return Err(ReassemblyError::InconsistentTotalLength { expected: t, found: new_total });
                    }
                },
                None => {
                    self.total_length = Some(new_total);
                },
            }
        }
        let ghost f = fragment.model();
        self.fragments.push(fragment);
        assert(fragment_models(self.fragments@) =~= s.push(f));
        Ok(())
    }

    /// Whether the last fragment arrived and the fragments hold every byte
    /// below the total length.
    pub fn is_complete(&self) -> (r: bool)
        ensures
            r == entry_complete(self.model()),
    {
        let total = match self.total_length {
            Some(t) => t,
            None => {
                return false;
            },
        };
        if self.fragments.len() == 0 {
            return false;
        }
        let ghost s = fragment_models(self.fragments@);
        let mut p: usize = 0;
        while p < total
            invariant
                s == fragment_models(self.fragments@),
                self.total_length == Some(total),
                forall|b: int| 0 <= b < p ==> #[trigger] byte_held(s, b),
            decreases total - p,
        {
            let mut next: usize = p;
            let mut found = false;
            let mut i: usize = 0;
            while i < self.fragments.len()
                invariant
                    s == fragment_models(self.fragments@),
                    i <= self.fragments@.len(),
                    p < total,
                    !found ==> next == p,
                    !found ==> forall|j: int| 0 <= j < i ==> !((#[trigger] s[j]).start() <= p && p < s[j].end()),
                    found ==> next > p && forall|b: int| 0 <= b < next && b < total ==> #[trigger] byte_held(s, b)
                        || b < p,
                ensures
                    !found ==> next == p,
                    !found ==> forall|j: int| 0 <= j < s.len() ==> !((#[trigger] s[j]).start() <= p && p < s[j].end()),
                    found ==> next > p && forall|b: int| 0 <= b < next && b < total ==> #[trigger] byte_held(s, b)
                        || b < p,
                decreases self.fragments@.len() - i,
            {
                let start = (self.fragments[i].offset as usize) * 8;
                let len = self.fragments[i].data.len();
                assert(s[i as int].start() == start && s[i as int].end() == start + len);
                if start <= p && p - start < len {
                    if len > usize::MAX - start {
                        next = total;
                    } else {
                        next = start + len;
                    }
                    found = true;
                    proof {
                        assert forall|b: int| 0 <= b < next && b < total implies #[trigger] byte_held(s, b) || b < p by {
                            if b >= p {
                                assert(s[i as int].start() <= b && b < s[i as int].end());
                            }
                        }
                    }
                    break;
                }
                i = i + 1;
            }
            if !found {
                proof {
                    if byte_held(s, p as int) {
                        let j = choose|j: int| 0 <= j < s.len() && (#[trigger] s[j]).start() <= p && p < s[j].end();
                        assert(!(s[j].start() <= p && p < s[j].end()));
                    }
                }
                assert(!byte_held(s, p as int));
                return false;
            }
            proof {
                assert forall|b: int| 0 <= b < next && b < total implies #[trigger] byte_held(s, b) by {
                    if b < p {
                        assert(byte_held(s, b));
                    }
                }
            }
            if next > total {
                next = total;
            }
            p = next;
        }
        true
    }

    /// Whether more than the reassembly timeout (60 s) passed since the first fragment.
    pub fn is_expired(&self, now: u64) -> (r: bool)
        ensures
            r == (elapsed_ms(now, self.first_arrival) > 60000),
    {
        let e = if now >= self.first_arrival { now - self.first_arrival } else { 0 };
        e > 60000
    }

    /// The reassembled datagram: the fragments written in order of offset
    /// into a zeroed buffer of the total length.
    pub fn reassemble(&self) -> (r: Result<Vec<u8>, ReassemblyError>)
        requires
            self.ends_fit(),
        ensures
            match entry_reassemble(self.model()) {
                Ok(d) => r matches Ok(v) && v@ == d,
                Err(e) => r == Err::<Vec<u8>, ReassemblyError>(e),
            },
    {
        if !self.is_complete() {
            return Err(ReassemblyError::Incomplete);
        }
        let total = match self.total_length {
            Some(t) => t,
            None => 0,
        };
        let ghost s = fragment_models(self.fragments@);
        let order = self.order_by_offset();
        let n = self.fragments.len();
        proof { lemma_offset_order_indices(s, n as nat); }
        let mut buffer: Vec<u8> = Vec::new();
        push_repeat(&mut buffer, 0, total);
        let ghost zeros = buffer@;
        assert(zeros =~= Seq::new(total as nat, |_i: int| 0u8));
        let mut k: usize = 0;
        while k < order.len()
            invariant
                k <= order@.len(),
                order@ == offset_order(s, s.len()),
                order@.len() == s.len(),
                s == fragment_models(self.fragments@),
                self.ends_fit(),
                forall|j: int| 0 <= j < order@.len() ==> (#[trigger] order@[j]) < s.len(),
                forall|j: int| 0 <= j < k ==> s[order@[j] as int].end() <= total,
                buffer@.len() == total,
                buffer@ == paint_in_order(zeros, s, order@.take(k as int)),
                entry_complete(self.model()),
                self.total_length == Some(total),
            decreases order@.len() - k,
        {
            let idx = order[k];
            let f = &self.fragments[idx];
            assert(s[idx as int] == f.model());
            let start = (f.offset as usize) * 8;
            let end = f.end_offset();
            if end > total {
                proof {
                    assert(s[idx as int] == self.fragments@[idx as int].model());
                    assert(s[idx as int].end() > total);
                }
                return Err(ReassemblyError::InvalidFragmentData);
            }
            let ghost b = buffer@;
            let mut j: usize = 0;
            while j < f.data.len()
                invariant
                    j <= f.data@.len(),
                    start + f.data@.len() == end,
                    end <= total,
                    b.len() == total,
                    buffer@ == b.take(start as int) + f.data@.take(j as int) + b.skip(start + j),
                decreases f.data@.len() - j,
            {
                buffer.set(start + j, f.data[j]);
                j = j + 1;
                assert(buffer@ =~= b.take(start as int) + f.data@.take(j as int) + b.skip(start + j));
            }
            proof {
                assert(f.data@.take(j as int) =~= f.data@);
                let o = order@.take(k + 1);
                assert(o.drop_last() =~= order@.take(k as int));
                assert(o.last() == idx);
                assert(s[idx as int] == f.model());
            }
            k = k + 1;
        }
        proof {
            assert(order@.take(k as int) =~= order@);
            assert forall|i: int| 0 <= i < s.len() implies s[i].end() <= total by {
                assert(order@.contains(i as usize));
                let j = choose|j: int| 0 <= j < order@.len() && order@[j] == i as usize;
            }
        }
        Ok(buffer)
    }

    /// The fragment indices stably sorted by offset.
    fn order_by_offset(&self) -> (r: Vec<usize>)
        ensures
            r@ == offset_order(fragment_models(self.fragments@), self.fragments@.len()),
    {
        let ghost s = fragment_models(self.fragments@);
        let mut order: Vec<usize> = Vec::new();
        let mut i: usize = 0;
        while i < self.fragments.len()
            invariant
                i <= self.fragments@.len(),
                s == fragment_models(self.fragments@),
                order@ == offset_order(s, i as nat),
                forall|k: int| 0 <= k < order@.len() ==> (#[trigger] order@[k]) < i,
                order@.len() == i,
            decreases self.fragments@.len() - i,
        {
            proof { lemma_offset_order_indices(s, i as nat); }
            let off = self.fragments[i].offset;
            let mut p: usize = order.len();
            while p > 0 && self.fragments[order[p - 1]].offset > off
                invariant
                    p <= order@.len(),
                    order@.len() == i,
                    i < self.fragments@.len(),
                    s == fragment_models(self.fragments@),
                    off == s[i as int].offset,
                    forall|k: int| 0 <= k < order@.len() ==> (#[trigger] order@[k]) < i,
                    forall|k: int| p <= k < order@.len() ==> s[order@[k] as int].offset > off,
                decreases p,
            {
                p = p - 1;
            }
            proof {
                lemma_insert_by_offset_at(order@, s, i, p as int);
            }
            let ghost before = order@;
            order.insert(p, i);
            assert(order@ =~= before.take(p as int) + seq![i] + before.skip(p as int));
            i = i + 1;
            assert forall|k: int| 0 <= k < order@.len() implies (#[trigger] order@[k]) < i by {
                if k < p {
                    assert(order@[k] == before[k]);
                } else if k > p {
                    assert(order@[k] == before[k - 1]);
                }
            }
        }
        order
    }
}

// ---------- all datagrams under reassembly ----------

/// The entries' contents.
pub open spec fn entry_models(v: Seq<ReassemblyEntry>) -> Seq<EntryModel> {
    v.map_values(|e: ReassemblyEntry| e.model())
}

/// Whether more than the reassembly timeout passed for `e` at `now`.
pub open spec fn entry_expired(e: EntryModel, now: u64) -> bool {
    elapsed_ms(now, e.first_arrival) > 60000
}

/// The entries not expired at `now`, in order.
pub open spec fn unexpired(es: Seq<EntryModel>, now: u64) -> Seq<EntryModel> {
    es.filter(|e: EntryModel| !entry_expired(e, now))
}

/// Position of the first entry for `key`.
pub open spec fn entry_index(es: Seq<EntryModel>, key: ReassemblyKey) -> Option<nat>
    decreases es.len(),
{
    if es.len() == 0 {
        None
    } else if es[0].key.same(&key) {
        Some(0)
    } else {
        match entry_index(es.drop_first(), key) {
            Some(i) => Some(i + 1),
            None => None,
        }
    }
}

/// Position of the first entry with the earliest first arrival.
pub open spec fn oldest_index(es: Seq<EntryModel>) -> nat
    decreases es.len(),
{
    if es.len() <= 1 {
        0
    } else {
        let j = oldest_index(es.drop_last());
        if es.last().first_arrival < es[j as int].first_arrival { (es.len() - 1) as nat } else { j }
    }
}

/// The entries after room is made for `key`: when it has no entry and the
/// cache is full, the oldest entry goes.
pub open spec fn make_room(es: Seq<EntryModel>, key: ReassemblyKey, max: nat) -> Seq<EntryModel> {
    if entry_index(es, key) is None && es.len() >= max && es.len() > 0 {
        es.remove(oldest_index(es) as int)
    } else {
        es
    }
}

/// The entries with one for `key` (a new one, started at `now`, appended
/// when there is none), and its position.
pub open spec fn with_entry(es: Seq<EntryModel>, key: ReassemblyKey, now: u64) -> (Seq<EntryModel>, nat) {
    match entry_index(es, key) {
        Some(p) => (es, p),
        None => (es.push(EntryModel { key, fragments: Seq::empty(), total_length: None, first_arrival: now }), es.len()),
    }
}

proof fn lemma_entry_index(es: Seq<EntryModel>, key: ReassemblyKey)
    ensures
        entry_index(es, key) matches Some(i) ==> i < es.len() && es[i as int].key.same(&key)
            && forall|j: int| 0 <= j < i ==> !(#[trigger] es[j]).key.same(&key),
        entry_index(es, key) is None ==> forall|j: int| 0 <= j < es.len() ==> !(#[trigger] es[j]).key.same(&key),
    decreases es.len(),
{
    if es.len() > 0 && !es[0].key.same(&key) {
        lemma_entry_index(es.drop_first(), key);
        assert forall|j: int| 0 < j < es.len() implies #[trigger] es[j] == es.drop_first()[j - 1] by {}
    }
}

proof fn lemma_oldest_index(es: Seq<EntryModel>)
    ensures
        es.len() > 0 ==> oldest_index(es) < es.len(),
        forall|j: int| 0 <= j < es.len() ==> es[oldest_index(es) as int].first_arrival <= (#[trigger] es[j]).first_arrival,
    decreases es.len(),
{
    if es.len() > 1 {
        let d = es.drop_last();
        lemma_oldest_index(d);
        assert forall|j: int| 0 <= j < es.len() implies es[oldest_index(es) as int].first_arrival
            <= (#[trigger] es[j]).first_arrival by {
            if j < es.len() - 1 {
                assert(es[j] == d[j]);
            }
        }
    }
}

/// All datagrams under reassembly.
pub struct FragmentCache {
    entries: Vec<ReassemblyEntry>,
    max_entries: usize,
}

impl FragmentCache {
    /// The entries, in the order they were created.
    pub closed spec fn spec_entries(&self) -> Seq<EntryModel> {
        entry_models(self.entries@)
    }

    /// How many entries the cache keeps.
    pub closed spec fn spec_max_entries(&self) -> nat {
        self.max_entries as nat
    }

    /// Well-formedness: every fragment's end position fits a `usize`.
    pub open spec fn wf(&self) -> bool {
        forall|i: int| 0 <= i < self.spec_entries().len() ==> entry_model_fits(#[trigger] self.spec_entries()[i])
    }

    /// An empty cache with room for `max_entries` datagrams.
    pub fn new(max_entries: usize) -> (r: Self)
        ensures
            r.wf(),
            r.spec_entries().len() == 0,
            r.spec_max_entries() == max_entries,
    {
        let r = FragmentCache { entries: Vec::new(), max_entries };
        assert(r.spec_entries() =~= Seq::<EntryModel>::empty());
        r
    }

    /// Adds a fragment of the datagram `key` at `now` (milliseconds):
    /// expired entries go first; a new datagram in a full cache evicts the
    /// oldest; the fragment is added to its datagram's entry; a datagram
    /// that becomes complete is reassembled, removed and returned.
    pub fn add_fragment(&mut self, key: ReassemblyKey, fragment: FragmentInfo, now: u64)
        -> (r: Result<Option<Vec<u8>>, ReassemblyError>)
        requires
            old(self).wf(),
            fragment.end_fits(),
        ensures
            final(self).wf(),
            final(self).spec_max_entries() == old(self).spec_max_entries(),
            ({
                let e1 = unexpired(old(self).spec_entries(), now);
                let e2 = make_room(e1, key, old(self).spec_max_entries());
                let e3 = with_entry(e2, key, now).0;
                let p = with_entry(e2, key, now).1 as int;
                match entry_add(e3[p], fragment.model()) {
                    Err(err) => r == Err::<Option<Vec<u8>>, ReassemblyError>(err) && final(self).spec_entries() == e3,
                    Ok(added) => if !entry_complete(added) {
                        r matches Ok(None) && final(self).spec_entries() == e3.update(p, added)
                    } else {
                        match entry_reassemble(added) {
                            Ok(d) => (r matches Ok(Some(v)) && v@ == d) && final(self).spec_entries() == e3.remove(p),
                            Err(err) => r == Err::<Option<Vec<u8>>, ReassemblyError>(err)
                                && final(self).spec_entries() == e3.update(p, added),
                        }
                    },
                }
            }),
    {
        self.cleanup_expired(now);
        let ghost e1 = self.spec_entries();
        let found = self.find(&key);
        if found.is_none() && self.entries.len() >= self.max_entries && self.entries.len() > 0 {
            let o = self.find_oldest();
            let ghost before = self.entries@;
            self.entries.remove(o);
            proof {
                assert(entry_models(self.entries@) =~= entry_models(before).remove(o as int));
            }
        }
        let ghost e2 = self.spec_entries();
        proof {
            assert(e2 == make_room(e1, key, self.max_entries as nat));
            lemma_entry_index(e1, key);
            lemma_entry_index(e2, key);
            if entry_index(e1, key) is Some && entry_index(e2, key) is None {
                let i = entry_index(e1, key).unwrap();
                assert(!e2[i as int].key.same(&key));
            }
        }
        let p = match self.find(&key) {
            Some(p) => p,
            None => {
                let ghost before = self.entries@;
                self.entries.push(ReassemblyEntry::new(key, now));
                proof {
                    assert(entry_models(self.entries@) =~= entry_models(before).push(
                        EntryModel { key, fragments: Seq::empty(), total_length: None, first_arrival: now }));
                }
                self.entries.len() - 1
            },
        };
        let ghost e3 = self.spec_entries();
        assert(e3 == with_entry(e2, key, now).0 && p == with_entry(e2, key, now).1);
        let ghost before = self.entries@;
        let mut entry = self.entries.remove(p);
        assert(entry.model() == e3[p as int]);
        assert(entry.ends_fit()) by {
            assert(entry_model_fits(e3[p as int]));
        }
        let added = entry.add_fragment(fragment);
        let ghost em = entry.model();
        match added {
            Err(err) => {
                self.entries.insert(p, entry);
                proof {
                    assert(entry_models(self.entries@) =~= e3);
                }
                Err(err)
            },
            Ok(()) => {
                if entry.is_complete() {
                    match entry.reassemble() {
                        Ok(data) => {
                            proof {
                                assert(entry_models(self.entries@) =~= e3.remove(p as int));
                            }
                            Ok(Some(data))
                        },
                        Err(err) => {
                            self.entries.insert(p, entry);
                            proof {
                                assert(entry_models(self.entries@) =~= e3.update(p as int, em));
                            }
                            Err(err)
                        },
                    }
                } else {
                    self.entries.insert(p, entry);
                    proof {
                        assert(entry_models(self.entries@) =~= e3.update(p as int, em));
                    }
                    Ok(None)
                }
            },
        }
    }

    /// Position of the entry for `key`.
    fn find(&self, key: &ReassemblyKey) -> (r: Option<usize>)
        ensures
            r matches Some(i) ==> entry_index(self.spec_entries(), *key) == Some(i as nat)
                && i < self.spec_entries().len(),
            r is None ==> entry_index(self.spec_entries(), *key) is None,
    {
        let ghost es = self.spec_entries();
        proof { lemma_entry_index(es, *key); }
        let mut i: usize = 0;
        while i < self.entries.len()
            invariant
                i <= es.len(),
                es == entry_models(self.entries@),
                forall|j: int| 0 <= j < i ==> !(#[trigger] es[j]).key.same(key),
            decreases es.len() - i,
        {
            assert(es[i as int] == self.entries@[i as int].model());
            if self.entries[i].key.matches(key) {
                proof {
                    lemma_entry_index(es, *key);
                    match entry_index(es, *key) {
                        Some(k) => {
                            if (k as int) < i { assert(!es[k as int].key.same(key)); }
                            if (k as int) > i { assert(!es[i as int].key.same(key)); }
                        },
                        None => { assert(!es[i as int].key.same(key)); },
                    }
                }
                return Some(i);
            }
            i = i + 1;
        }
        proof {
            lemma_entry_index(es, *key);
            if let Some(k) = entry_index(es, *key) {
                assert(!es[k as int].key.same(key));
            }
        }
        None
    }

    /// Position of the first entry with the earliest first arrival.
    fn find_oldest(&self) -> (r: usize)
        requires
            self.spec_entries().len() > 0,
        ensures
            r == oldest_index(self.spec_entries()),
            r < self.spec_entries().len(),
    {
        let ghost es = self.spec_entries();
        let mut best: usize = 0;
        let mut i: usize = 1;
        assert(es.take(1).len() == 1);
        while i < self.entries.len()
            invariant
                1 <= i <= es.len(),
                es == entry_models(self.entries@),
                best == oldest_index(es.take(i as int)),
                best < i,
            decreases es.len() - i,
        {
            let ghost t = es.take(i + 1);
            assert(t.drop_last() =~= es.take(i as int));
            assert(t[best as int] == es[best as int]);
            assert(es[best as int] == self.entries@[best as int].model());
            assert(es[i as int] == self.entries@[i as int].model());
            if self.entries[i].first_arrival < self.entries[best].first_arrival {
                best = i;
            }
            i = i + 1;
        }
        assert(es.take(i as int) =~= es);
        best
    }

    /// Removes the entries expired at `now`.
    pub fn cleanup_expired(&mut self, now: u64)
        requires
            old(self).wf(),
        ensures
            final(self).wf(),
            final(self).spec_max_entries() == old(self).spec_max_entries(),
            final(self).spec_entries() == unexpired(old(self).spec_entries(), now),
    {
        let ghost m = self.spec_entries();
        let ghost keep = |e: EntryModel| !entry_expired(e, now);
        let mut i: usize = 0;
        let mut j: usize = 0;
        let _n = self.entries.len();
        assert(m.take(0).filter(keep) + m.skip(0) =~= m);
        while i < self.entries.len()
            invariant
                j <= m.len(),
                i == m.take(j as int).filter(keep).len(),
                entry_models(self.entries@) == m.take(j as int).filter(keep) + m.skip(j as int),
                keep == (|e: EntryModel| !entry_expired(e, now)),
                self.max_entries == old(self).max_entries,
                forall|k: int| 0 <= k < m.len() ==> entry_model_fits(#[trigger] m[k]),
                m == old(self).spec_entries(),
                m.len() <= usize::MAX,
            decreases m.len() - j,
        {
            reveal_with_fuel(Seq::<_>::filter, 1);
            let ghost before = self.entries@;
            let ghost kept = m.take(j as int).filter(keep);
            assert(m.take(j + 1).drop_last() =~= m.take(j as int));
            assert(entry_models(before)[i as int] == m[j as int]);
            assert(before[i as int].model() == m[j as int]);
            if self.entries[i].is_expired(now) {
                self.entries.remove(i);
                assert(!keep(m[j as int]));
                assert(m.take(j + 1).filter(keep) == kept);
                assert(entry_models(self.entries@) =~= entry_models(before).remove(i as int));
                assert(entry_models(self.entries@) =~= m.take(j + 1).filter(keep) + m.skip(j + 1));
            } else {
                assert(m.take(j + 1).filter(keep) =~= kept.push(m[j as int]));
                assert(entry_models(self.entries@) =~= m.take(j + 1).filter(keep) + m.skip(j + 1));
                i = i + 1;
            }
            j = j + 1;
        }
        proof {
            assert(m.skip(j as int).len() == 0);
            assert(m.take(j as int) =~= m);
            assert(entry_models(self.entries@) =~= unexpired(m, now));
            let f = unexpired(m, now);
            assert forall|k: int| 0 <= k < f.len() implies entry_model_fits(#[trigger] f[k]) by {
                assert(f.contains(f[k]));
                m.lemma_filter_contains_rev(keep, f[k]);
                let idx = choose|idx: int| 0 <= idx < m.len() && m[idx] == f[k];
                assert(entry_model_fits(m[idx]));
            }
        }
    }

    /// Removes every entry.
    pub fn clear(&mut self)
        ensures
            final(self).wf(),
            final(self).spec_entries().len() == 0,
            final(self).spec_max_entries() == old(self).spec_max_entries(),
    {
        self.entries.clear();
        assert(self.spec_entries() =~= Seq::<EntryModel>::empty());
    }

    /// Number of datagrams under reassembly.
    pub fn len(&self) -> (r: usize)
        ensures
            r == self.spec_entries().len(),
    {
        self.entries.len()
    }

    /// Whether no datagram is under reassembly.
    pub fn is_empty(&self) -> (r: bool)
        ensures
            r == (self.spec_entries().len() == 0),
    {
        self.entries.len() == 0
    }
}

impl Default for FragmentCache {
    fn default() -> (r: Self)
        ensures
            r.wf(),
            r.spec_entries().len() == 0,
            r.spec_max_entries() == 256,
    {
        FragmentCache::new(DEFAULT_MAX_REASSEMBLY_ENTRIES)
    }
}

// ---------- splitting ----------

/// The most data bytes per fragment for a path MTU: the MTU less the
/// 8-byte fragment header, rounded down to a multiple of 8.
pub open spec fn fragment_data_len(mtu: nat) -> nat {
    if mtu > 8 { ((mtu - 8) as nat / 8 * 8) as nat } else { 0 }
}

/// Whether data of length `n` is split for a path MTU.
pub open spec fn needs_split(n: nat, mtu: nat) -> bool {
    mtu > 8 && n > mtu - 8 && fragment_data_len(mtu) > 0
}

/// Splits `data` into fragments for a path MTU (the MTU less the 8-byte
/// fragment header, rounded down to a multiple of 8, per fragment). Each
/// fragment is (offset in 8-byte units, more-fragments flag, data). Data
/// that fits, or an MTU too small for 8 data bytes, gives one fragment.
pub fn create_fragments(data: &[u8], mtu: usize, _identification: u32, _next_header: u8) -> (r: Vec<(u16, bool, Vec<u8>)>)
    requires
        needs_split(data@.len(), mtu as nat) ==> data@.len() / 8 <= 65535,
    ensures
        !needs_split(data@.len(), mtu as nat) ==> r@.len() == 1 && r@[0].0 == 0 && !r@[0].1 && r@[0].2@ == data@,
        needs_split(data@.len(), mtu as nat) ==> {
            let fl = fragment_data_len(mtu as nat);
            let n = data@.len();
            &&& r@.len() > 0
            &&& (r@.len() - 1) * fl < n <= r@.len() * fl
            &&& forall|k: int| 0 <= k < r@.len() ==> {
                &&& (#[trigger] r@[k]).0 == k * fl / 8
                &&& r@[k].1 == ((k + 1) * fl < n)
                &&& r@[k].2@ == data@.subrange(k * fl, if (k + 1) * fl < n { (k + 1) * fl } else { n as int })
            }
        },
        fragments_data(fragment_views(r@)) == data@,
{
    let mut fragments: Vec<(u16, bool, Vec<u8>)> = Vec::new();
    let max_fragment_data: usize = if mtu > 8 { mtu - 8 } else { 0 };
    if max_fragment_data == 0 || data.len() <= max_fragment_data {
        fragments.push((0, false, copy_range(data, 0, data.len())));
        assert(data@.subrange(0, data@.len() as int) =~= data@);
        proof {
            let fv = fragment_views(fragments@);
            assert(fv.len() == 1);
            assert(fv.drop_last() =~= Seq::<(u16, bool, Seq<u8>)>::empty());
            assert(fv.last().2 == data@);
            assert(fragments_data(fv.drop_last()) == Seq::<u8>::empty());
            assert(Seq::<u8>::empty() + data@ =~= data@);
        }
        return fragments;
    }
    let fl = (max_fragment_data / 8) * 8;
    if fl == 0 {
        fragments.push((0, false, copy_range(data, 0, data.len())));
        assert(data@.subrange(0, data@.len() as int) =~= data@);
        proof {
            let fv = fragment_views(fragments@);
            assert(fv.len() == 1);
            assert(fv.drop_last() =~= Seq::<(u16, bool, Seq<u8>)>::empty());
            assert(fv.last().2 == data@);
            assert(fragments_data(fv.drop_last()) == Seq::<u8>::empty());
            assert(Seq::<u8>::empty() + data@ =~= data@);
        }
        return fragments;
    }
    let n = data.len();
    let mut offset: u16 = 0;
    let mut pos: usize = 0;
    let ghost mut k: nat = 0;
    while pos < n
        invariant
            fl == fragment_data_len(mtu as nat),
            fl > 0,
            n == data@.len(),
            n / 8 <= 65535,
            fragments@.len() == k,
            pos == (if k * fl < n { k * fl } else { n as int }),
            k > 0 ==> (k - 1) * fl < n,
            pos < n ==> offset == pos / 8,
            forall|i: int| 0 <= i < k ==> {
                &&& (#[trigger] fragments@[i]).0 == i * fl / 8
                &&& fragments@[i].1 == ((i + 1) * fl < n)
                &&& fragments@[i].2@ == data@.subrange(i * fl, if (i + 1) * fl < n { (i + 1) * fl } else { n as int })
            },
        decreases n - pos,
    {
        let remaining = n - pos;
        let chunk_size = if remaining > fl { fl } else { remaining };
        let more_fragments = pos + chunk_size < n;
        assert((k + 1) * fl == k * fl + fl) by (nonlinear_arith);
        fragments.push((offset, more_fragments, copy_range(data, pos, pos + chunk_size)));
        proof {
            assert(pos == k * fl);
            assert(pos / 8 == k * fl / 8);
        }
        if pos + chunk_size < n {
            assert(fl % 8 == 0) by (nonlinear_arith)
                requires fl == (fl / 8) * 8, fl > 0;
            assert((pos + chunk_size) / 8 == pos / 8 + chunk_size / 8) by (nonlinear_arith)
                requires chunk_size == fl, fl % 8 == 0, pos == k * fl, fl > 0;
            offset = offset + (chunk_size / 8) as u16;
        }
        pos = pos + chunk_size;
        proof { k = k + 1; }
    }
    proof {
        let fv = fragment_views(fragments@);
        assert forall|i: int| 0 <= i < fv.len() implies (#[trigger] fv[i]).2 == data@.subrange(
            i * fl,
            if (i + 1) * fl < n { (i + 1) * fl } else { n as int },
        ) by {
            assert(fragments@[i].2@ == data@.subrange(i * fl, if (i + 1) * fl < n { (i + 1) * fl } else { n as int }));
        }
        lemma_fragments_reassemble(data@, fl as nat, fv);
    }
    fragments
}

/// The fragments with their data as sequences.
pub open spec fn fragment_views(v: Seq<(u16, bool, Vec<u8>)>) -> Seq<(u16, bool, Seq<u8>)> {
    v.map_values(|x: (u16, bool, Vec<u8>)| (x.0, x.1, x.2@))
}

/// The data of the fragments, one after the other.
pub open spec fn fragments_data(f: Seq<(u16, bool, Seq<u8>)>) -> Seq<u8>
    decreases f.len(),
{
    if f.len() == 0 {
        Seq::empty()
    } else {
        fragments_data(f.drop_last()) + f.last().2
    }
}

/// Whether `f` splits `data` into pieces of `fl` bytes (the last one
/// shorter), as `create_fragments` describes its result.
pub open spec fn splits_into(data: Seq<u8>, fl: nat, f: Seq<(u16, bool, Seq<u8>)>) -> bool {
    &&& fl > 0
    &&& f.len() > 0
    &&& (f.len() - 1) * fl < data.len() <= f.len() * fl
    &&& forall|k: int| 0 <= k < f.len() ==> (#[trigger] f[k]).2 == data.subrange(
        k * fl,
        if (k + 1) * fl < data.len() { (k + 1) * fl } else { data.len() as int },
    )
}

proof fn lemma_fragments_prefix(data: Seq<u8>, fl: nat, f: Seq<(u16, bool, Seq<u8>)>, j: nat)
    requires
        splits_into(data, fl, f),
        j <= f.len(),
    ensures
        fragments_data(f.take(j as int)) == data.subrange(0, if j * fl < data.len() { (j * fl) as int } else { data.len() as int }),
    decreases j,
{
    let n = data.len() as int;
    if j == 0 {
        assert(f.take(0) =~= Seq::<(u16, bool, Seq<u8>)>::empty());
        assert(fragments_data(f.take(0)) == Seq::<u8>::empty());
        assert(j * fl == 0) by (nonlinear_arith)
            requires
                j == 0,
        ;
        assert(data.subrange(0, 0) =~= Seq::<u8>::empty());
    } else {
        let k = (j - 1) as nat;
        lemma_fragments_prefix(data, fl, f, k);
        let t = f.take(j as int);
        assert(t.drop_last() =~= f.take(k as int));
        assert(t.last() == f[k as int]);
        assert(fragments_data(t) == fragments_data(t.drop_last()) + t.last().2);
        assert(j * fl == k * fl + fl) by (nonlinear_arith)
            requires
                j == k + 1,
        ;
        assert(k * fl <= (f.len() - 1) * fl) by (nonlinear_arith)
            requires
                k <= f.len() - 1,
        ;
        let end: int = if j * fl < n { (j * fl) as int } else { n };
        let start: int = (k * fl) as int;
        assert(start < n);
        assert(f[k as int].2 == data.subrange(start, end));
        assert(fragments_data(f.take(k as int)) == data.subrange(0, start));
        assert(data.subrange(0, start) + data.subrange(start, end) =~= data.subrange(0, end));
    }
}

/// Fragments that split data into pieces, joined in order, give the data
/// back; this holds of what `create_fragments` returns, for the piece
/// length it uses (and, without a split, for the single fragment).
pub proof fn lemma_fragments_reassemble(data: Seq<u8>, fl: nat, f: Seq<(u16, bool, Seq<u8>)>)
    requires
        splits_into(data, fl, f),
    ensures
        fragments_data(f) == data,
{
    lemma_fragments_prefix(data, fl, f, f.len());
    assert(f.take(f.len() as int) =~= f);
    assert(data.subrange(0, data.len() as int) =~= data);
}

/// The entry after adding the fragments one after another, or the first
/// error.
pub open spec fn entry_add_all(e: EntryModel, fs: Seq<FragmentModel>) -> Result<EntryModel, ReassemblyError>
    decreases fs.len(),
{
    if fs.len() == 0 {
        Ok(e)
    } else {
        match entry_add_all(e, fs.drop_last()) {
            Ok(e1) => entry_add(e1, fs.last()),
            Err(x) => Err(x),
        }
    }
}

/// Whether `f` are the fragments that cut `data` into pieces of `fl` bytes
/// (a multiple of 8), the last one shorter: each at its offset, all but
/// the last marked as followed by more.
pub open spec fn cut_into(data: Seq<u8>, fl: nat, f: Seq<FragmentModel>) -> bool {
    let n = data.len();
    &&& fl > 0
    &&& fl % 8 == 0
    &&& 0 < f.len() <= 64
    &&& n <= usize::MAX
    &&& n == 0 ==> f.len() == 1
    &&& n > 0 ==> (f.len() - 1) * fl < n <= f.len() * fl
    &&& forall|k: int| 0 <= k < f.len() ==> {
        &&& (#[trigger] f[k]).start() == k * fl
        &&& f[k].more_fragments == ((k + 1) * fl < n)
        &&& f[k].data == data.subrange(k * fl, if (k + 1) * fl < n { (k + 1) * fl } else { n as int })
    }
}

/// The end of the first `j` pieces.
spec fn cut_end(n: nat, fl: nat, j: nat) -> int {
    if j * fl < n { (j * fl) as int } else { n as int }
}

proof fn lemma_cut_piece(data: Seq<u8>, fl: nat, f: Seq<FragmentModel>, k: int)
    requires
        cut_into(data, fl, f),
        0 <= k < f.len(),
    ensures
        f[k].start() == k * fl,
        k * fl <= data.len(),
        f[k].end() == cut_end(data.len(), fl, (k + 1) as nat),
        cut_end(data.len(), fl, k as nat) == k * fl,
        f[k].more_fragments == (k < f.len() - 1),
        (k + 1) * fl == k * fl + fl,
{
    let n = data.len() as int;
    assert((k + 1) * fl == k * fl + fl) by (nonlinear_arith);
    if n > 0 {
        assert(k * fl <= (f.len() - 1) * fl) by (nonlinear_arith)
            requires
                k <= f.len() - 1,
        ;
        if k < f.len() - 1 {
            assert((k + 1) * fl <= (f.len() - 1) * fl) by (nonlinear_arith)
                requires
                    k + 1 <= f.len() - 1,
            ;
        }
    } else {
        assert(k == 0);
        assert(k * fl == 0) by (nonlinear_arith)
            requires
                k == 0,
        ;
    }
}

proof fn lemma_cut_add_prefix(key: ReassemblyKey, first_arrival: u64, data: Seq<u8>, fl: nat, f: Seq<FragmentModel>, j: nat)
    requires
        cut_into(data, fl, f),
        j <= f.len(),
    ensures
        entry_add_all(EntryModel { key, fragments: Seq::empty(), total_length: None, first_arrival }, f.take(j as int))
            == Ok::<EntryModel, ReassemblyError>(EntryModel {
                key,
                fragments: f.take(j as int),
                total_length: if j == f.len() { Some(data.len() as usize) } else { None },
                first_arrival,
            }),
    decreases j,
{
    let e0 = EntryModel { key, fragments: Seq::empty(), total_length: None, first_arrival };
    if j == 0 {
        assert(f.take(0) =~= Seq::<FragmentModel>::empty());
    } else {
        let k = (j - 1) as int;
        lemma_cut_add_prefix(key, first_arrival, data, fl, f, (j - 1) as nat);
        let t = f.take(j as int);
        assert(t.drop_last() =~= f.take(k));
        assert(t.last() == f[k]);
        let prev = f.take(k);
        lemma_cut_piece(data, fl, f, k);
        assert forall|i: int| 0 <= i < prev.len() implies !f[k].overlaps(#[trigger] prev[i]) by {
            lemma_cut_piece(data, fl, f, i);
            assert(prev[i] == f[i]);
            assert((i + 1) * fl <= k * fl) by (nonlinear_arith)
                requires
                    i + 1 <= k,
            ;
        }
        lemma_first_overlap_none(prev, f[k]);
        assert(prev.push(f[k]) =~= t);
    }
}

proof fn lemma_cut_order(data: Seq<u8>, fl: nat, f: Seq<FragmentModel>, j: nat)
    requires
        cut_into(data, fl, f),
        j <= f.len(),
    ensures
        offset_order(f, j) == Seq::new(j, |x: int| x as usize),
    decreases j,
{
    if j == 0 {
        assert(offset_order(f, 0) =~= Seq::new(0, |x: int| x as usize));
    } else {
        let k = (j - 1) as int;
        lemma_cut_order(data, fl, f, (j - 1) as nat);
        let prev = Seq::new((j - 1) as nat, |x: int| x as usize);
        if k > 0 {
            lemma_cut_piece(data, fl, f, k);
            lemma_cut_piece(data, fl, f, k - 1);
            assert(prev.last() == (k - 1) as usize);
            assert(f[k - 1].offset <= f[k].offset);
        }
        assert(insert_by_offset(prev, f, k as usize) == prev.push(k as usize));
        assert(prev.push(k as usize) =~= Seq::new(j, |x: int| x as usize));
    }
}

proof fn lemma_cut_paint(data: Seq<u8>, fl: nat, f: Seq<FragmentModel>, j: nat)
    requires
        cut_into(data, fl, f),
        j <= f.len(),
    ensures
        ({
            let zeros = Seq::new(data.len(), |_i: int| 0u8);
            let e = cut_end(data.len(), fl, j);
            paint_in_order(zeros, f, Seq::new(j, |x: int| x as usize)) == data.subrange(0, e) + zeros.skip(e)
        }),
    decreases j,
{
    let n = data.len();
    let zeros = Seq::new(n, |_i: int| 0u8);
    if j == 0 {
        assert(Seq::new(0, |x: int| x as usize) =~= Seq::<usize>::empty());
        assert(j * fl == 0) by (nonlinear_arith)
            requires
                j == 0,
        ;
        assert(data.subrange(0, 0) + zeros.skip(0) =~= zeros);
    } else {
        let k = (j - 1) as int;
        lemma_cut_paint(data, fl, f, (j - 1) as nat);
        lemma_cut_piece(data, fl, f, k);
        let order = Seq::new(j, |x: int| x as usize);
        assert(order.drop_last() =~= Seq::new((j - 1) as nat, |x: int| x as usize));
        assert(order.last() == k as usize);
        let start = k * fl;
        let end = cut_end(n, fl, j);
        let b = data.subrange(0, start) + zeros.skip(start);
        assert(b.take(start) =~= data.subrange(0, start));
        assert(b.skip(end) =~= zeros.skip(end));
        assert(data.subrange(0, start) + data.subrange(start, end) + zeros.skip(end) =~= data.subrange(0, end)
            + zeros.skip(end));
    }
}

/// Fragments that cut data into pieces, added in order to a new
/// reassembly entry, are all accepted, and the entry then reassembles to
/// the data: what `create_fragments` splits, reassembly puts back together.
pub proof fn lemma_fragment_then_reassemble(key: ReassemblyKey, first_arrival: u64, data: Seq<u8>, fl: nat,
    f: Seq<FragmentModel>)
    requires
        cut_into(data, fl, f),
    ensures
        ({
            let e0 = EntryModel { key, fragments: Seq::empty(), total_length: None, first_arrival };
            &&& entry_add_all(e0, f) is Ok
            &&& entry_reassemble(entry_add_all(e0, f)->Ok_0) == Ok::<Seq<u8>, ReassemblyError>(data)
        }),
{
    let m = f.len();
    let n = data.len();
    lemma_cut_add_prefix(key, first_arrival, data, fl, f, m);
    assert(f.take(m as int) =~= f);
    let e = EntryModel { key, fragments: f, total_length: Some(n as usize), first_arrival };
    lemma_cut_piece(data, fl, f, m - 1);
    assert(cut_end(n, fl, m) == n);
    assert forall|i: int| 0 <= i < f.len() implies !(f[i].end() > n) by {
        lemma_cut_piece(data, fl, f, i);
    }
    assert forall|b: int| 0 <= b < n implies #[trigger] byte_held(f, b) by {
        let k = b / (fl as int);
        assert(k * fl <= b < k * fl + fl) by (nonlinear_arith)
            requires
                fl > 0,
                k == b / (fl as int),
                b >= 0,
        ;
        assert(0 <= k < f.len()) by (nonlinear_arith)
            requires
                fl > 0,
                k == b / (fl as int),
                b >= 0,
                k * fl <= b,
                b < n,
                n <= f.len() * fl,
        ;
        lemma_cut_piece(data, fl, f, k);
        assert(f[k].start() <= b && b < f[k].end());
    }
    lemma_cut_order(data, fl, f, m);
    lemma_cut_paint(data, fl, f, m);
    let zeros = Seq::new(n, |_i: int| 0u8);
    assert(data.subrange(0, n as int) + zeros.skip(n as int) =~= data);
}

} // verus!
