use vstd::prelude::*;

verus! {

/// The big-endian value of two bytes.
pub open spec fn be16(hi: u8, lo: u8) -> u16 {
    (hi as nat * 256 + lo as nat) as u16
}

/// The big-endian value of four bytes.
pub open spec fn be32(b0: u8, b1: u8, b2: u8, b3: u8) -> u32 {
    (b0 as nat * 16777216 + b1 as nat * 65536 + b2 as nat * 256 + b3 as nat) as u32
}

/// The two big-endian bytes of a `u16`.
pub open spec fn u16_bytes(v: u16) -> Seq<u8> {
    seq![(v / 256) as u8, (v % 256) as u8]
}

/// The four big-endian bytes of a `u32`.
pub open spec fn u32_bytes(v: u32) -> Seq<u8> {
    seq![(v / 16777216) as u8, ((v / 65536) % 256) as u8, ((v / 256) % 256) as u8, (v % 256) as u8]
}

/// The eight big-endian bytes of a `u64`.
pub open spec fn u64_bytes(v: u64) -> Seq<u8> {
    u32_bytes((v / 4294967296) as u32) + u32_bytes((v % 4294967296) as u32)
}

/// The big-endian value of eight bytes.
pub open spec fn be64(s: Seq<u8>) -> u64 {
    (be32(s[0], s[1], s[2], s[3]) as nat * 4294967296 + be32(s[4], s[5], s[6], s[7]) as nat) as u64
}

pub proof fn lemma_be16_roundtrip(v: u16)
    ensures
        be16(u16_bytes(v)[0], u16_bytes(v)[1]) == v,
{
}

pub proof fn lemma_u16_bytes_roundtrip(hi: u8, lo: u8)
    ensures
        u16_bytes(be16(hi, lo)) == seq![hi, lo],
{
    assert(u16_bytes(be16(hi, lo)) =~= seq![hi, lo]);
}

pub proof fn lemma_be32_roundtrip(v: u32)
    ensures
        be32(u32_bytes(v)[0], u32_bytes(v)[1], u32_bytes(v)[2], u32_bytes(v)[3]) == v,
{
}

pub proof fn lemma_u32_bytes_roundtrip(b0: u8, b1: u8, b2: u8, b3: u8)
    ensures
        u32_bytes(be32(b0, b1, b2, b3)) == seq![b0, b1, b2, b3],
{
    let v: u32 = be32(b0, b1, b2, b3);
    assert(v == b0 as int * 16777216 + b1 as int * 65536 + b2 as int * 256 + b3 as int);
    assert(v / 16777216 == b0) by (nonlinear_arith)
        requires v == b0 as int * 16777216 + b1 as int * 65536 + b2 as int * 256 + b3 as int, b0 < 256, b1 < 256, b2 < 256, b3 < 256;
    assert((v / 65536) % 256 == b1) by (nonlinear_arith)
        requires v == b0 as int * 16777216 + b1 as int * 65536 + b2 as int * 256 + b3 as int, b0 < 256, b1 < 256, b2 < 256, b3 < 256;
    assert((v / 256) % 256 == b2) by (nonlinear_arith)
        requires v == b0 as int * 16777216 + b1 as int * 65536 + b2 as int * 256 + b3 as int, b0 < 256, b1 < 256, b2 < 256, b3 < 256;
    assert(v % 256 == b3) by (nonlinear_arith)
        requires v == b0 as int * 16777216 + b1 as int * 65536 + b2 as int * 256 + b3 as int, b0 < 256, b1 < 256, b2 < 256, b3 < 256;
    assert(u32_bytes(be32(b0, b1, b2, b3)) =~= seq![b0, b1, b2, b3]);
}

pub proof fn lemma_be64_roundtrip(v: u64)
    ensures
        be64(u64_bytes(v)) == v,
{
    lemma_be32_roundtrip((v / 4294967296) as u32);
    lemma_be32_roundtrip((v % 4294967296) as u32);
}

/// `x` as an integer.
pub open spec fn int_of(x: usize) -> int {
    x as int
}

/// `n` as an integer.
pub open spec fn nat_int(n: nat) -> int {
    n as int
}

/// `n` truncated to 32 bits.
pub open spec fn trunc32(n: nat) -> u32 {
    n as u32
}

/// `n` truncated to 16 bits.
pub open spec fn trunc16(n: nat) -> u16 {
    n as u16
}

/// `x` truncated to 32 bits.
pub fn usize_to_u32(x: usize) -> (r: u32)
    ensures
        r == trunc32(x as nat),
{
    x as u32
}

/// `x` truncated to 16 bits.
pub fn usize_to_u16(x: usize) -> (r: u16)
    ensures
        r == trunc16(x as nat),
{
    x as u16
}

/// Widens a byte.
pub fn u8_to_usize(x: u8) -> (r: usize)
    ensures
        r == x,
{
    x as usize
}

/// Widens a 16-bit value.
pub fn u16_to_usize(x: u16) -> (r: usize)
    ensures
        r == x,
{
    x as usize
}

/// Reads the big-endian `u16` at `i`.
pub fn read_be16(s: &[u8], i: usize) -> (r: u16)
    requires
        i + 2 <= s@.len(),
    ensures
        r == be16(s@[i as int], s@[i + 1]),
{
    (s[i] as u16) * 256 + (s[i + 1] as u16)
}

/// Reads the big-endian `u32` at `i`.
pub fn read_be32(s: &[u8], i: usize) -> (r: u32)
    requires
        i + 4 <= s@.len(),
    ensures
        r == be32(s@[i as int], s@[i + 1], s@[i + 2], s@[i + 3]),
{
    (s[i] as u32) * 16777216 + (s[i + 1] as u32) * 65536 + (s[i + 2] as u32) * 256 + (s[i + 3] as u32)
}

/// Reads the big-endian `u64` at `i`.
pub fn read_be64(s: &[u8], i: usize) -> (r: u64)
    requires
        i + 8 <= s@.len(),
    ensures
        r == be64(s@.subrange(i as int, i + 8)),
{
    let _n = s.len();
    let hi = read_be32(s, i);
    let lo = read_be32(s, i + 4);
    (hi as u64) * 4294967296 + (lo as u64)
}

/// Appends the big-endian bytes of `x`.
pub fn push_be16(v: &mut Vec<u8>, x: u16)
    ensures
        final(v)@ == old(v)@ + u16_bytes(x),
{
    v.push((x / 256) as u8);
    v.push((x % 256) as u8);
    assert(final(v)@ =~= old(v)@ + u16_bytes(x));
}

/// Appends the big-endian bytes of `x`.
pub fn push_be32(v: &mut Vec<u8>, x: u32)
    ensures
        final(v)@ == old(v)@ + u32_bytes(x),
{
    v.push((x / 16777216) as u8);
    v.push(((x / 65536) % 256) as u8);
    v.push(((x / 256) % 256) as u8);
    v.push((x % 256) as u8);
    assert(final(v)@ =~= old(v)@ + u32_bytes(x));
}

/// Appends the big-endian bytes of `x`.
pub fn push_be64(v: &mut Vec<u8>, x: u64)
    ensures
        final(v)@ == old(v)@ + u64_bytes(x),
{
    push_be32(v, (x / 4294967296) as u32);
    push_be32(v, (x % 4294967296) as u32);
    assert(final(v)@ =~= old(v)@ + u64_bytes(x));
}

/// Appends all of `s`.
pub fn push_slice(v: &mut Vec<u8>, s: &[u8])
    ensures
        final(v)@ == old(v)@ + s@,
{
    let mut i: usize = 0;
    while i < s.len()
        invariant
            i <= s@.len(),
            v@ == old(v)@ + s@.subrange(0, i as int),
        decreases s@.len() - i,
    {
        v.push(s[i]);
        i = i + 1;
        assert(v@ =~= old(v)@ + s@.subrange(0, i as int));
    }
    assert(s@.subrange(0, s@.len() as int) =~= s@);
}

/// Appends `n` copies of `b`.
pub fn push_repeat(v: &mut Vec<u8>, b: u8, n: usize)
    ensures
        final(v)@ == old(v)@ + Seq::new(n as nat, |_i: int| b),
{
    let mut i: usize = 0;
    while i < n
        invariant
            i <= n,
            v@ == old(v)@ + Seq::new(i as nat, |_i: int| b),
        decreases n - i,
    {
        v.push(b);
        i = i + 1;
        assert(v@ =~= old(v)@ + Seq::new(i as nat, |_i: int| b));
    }
}

/// Copies `s[start..end]` into a new vector.
pub fn copy_range(s: &[u8], start: usize, end: usize) -> (r: Vec<u8>)
    requires
        start <= end <= s@.len(),
    ensures
        r@ == s@.subrange(start as int, end as int),
{
    let mut r: Vec<u8> = Vec::new();
    let mut i: usize = start;
    while i < end
        invariant
            start <= i <= end <= s@.len(),
            r@ == s@.subrange(start as int, i as int),
        decreases end - i,
    {
        r.push(s[i]);
        i = i + 1;
        assert(r@ =~= s@.subrange(start as int, i as int));
    }
    r
}

/// The sixteen bytes of `s` from `off`.
pub fn array16_at(s: &[u8], off: usize) -> (r: [u8; 16])
    requires
        off + 16 <= s@.len(),
    ensures
        r@ == s@.subrange(off as int, off + 16),
{
    let mut r: [u8; 16] = [0u8; 16];
    let mut i: usize = 0;
    while i < 16
        invariant
            i <= 16,
            off + 16 <= s.len(),
            r@.len() == 16,
            forall|j: int| 0 <= j < i ==> r@[j] == s@[off + j],
        decreases 16 - i,
    {
        r[i] = s[off + i];
        i = i + 1;
    }
    assert(r@ =~= s@.subrange(off as int, off + 16));
    r
}

/// The number of 8-byte units that hold `n` bytes after a 2-byte option
/// header, kept to its low 8 bits.
pub open spec fn option_units_byte(n: nat) -> u8 {
    (((n + 2 + 7) / 8) % 256) as u8
}

/// Computes `option_units_byte(n)`.
pub fn option_units(n: usize) -> (r: u8)
    ensures
        r == option_units_byte(n as nat),
{
    let q = n / 8;
    let extra: usize = if n % 8 <= 6 { 1 } else { 2 };
    assert((n as nat + 2 + 7) / 8 == q + extra) by (nonlinear_arith)
        requires
            q == n / 8,
            extra == (if n % 8 <= 6 { 1nat } else { 2nat }),
    {}
    ((q % 256 + extra) % 256) as u8
}

/// Whether two byte strings are equal.
pub fn bytes_eq(a: &[u8], b: &[u8]) -> (r: bool)
    ensures
        r == (a@ == b@),
{
    if a.len() != b.len() {
        return false;
    }
    let mut i: usize = 0;
    while i < a.len()
        invariant
            i <= a@.len() == b@.len(),
            forall|j: int| 0 <= j < i ==> a@[j] == b@[j],
        decreases a@.len() - i,
    {
        if a[i] != b[i] {
            return false;
        }
        i = i + 1;
    }
    assert(a@ =~= b@);
    true
}

} // verus!
