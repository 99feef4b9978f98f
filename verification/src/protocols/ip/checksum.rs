use vstd::prelude::*;
use crate::protocols::common::addr::Ipv4Addr;
use crate::common::bytes::be16;

verus! {

/// The `i`-th 16-bit big-endian word of `s`; an odd last byte is padded with zero.
pub open spec fn word_at(s: Seq<u8>, i: int) -> nat {
    if 2 * i + 1 < s.len() {
        s[2 * i] as nat * 256 + s[2 * i + 1] as nat
    } else {
        s[2 * i] as nat * 256
    }
}

/// The sum of the first `n` words of `s`.
pub open spec fn word_sum(s: Seq<u8>, n: nat) -> nat
    decreases n,
{
    if n == 0 {
        0
    } else {
        word_sum(s, (n - 1) as nat) + word_at(s, n - 1)
    }
}

/// The number of 16-bit words covering `s`.
pub open spec fn num_words(s: Seq<u8>) -> nat {
    ((s.len() + 1) / 2) as nat
}

/// The plain sum of all 16-bit words of `s`.
pub open spec fn ones_sum(s: Seq<u8>) -> nat {
    word_sum(s, num_words(s))
}

/// End-around-carry folding of a sum into 16 bits: the value in
/// `[1, 0xFFFF]` congruent to `x` modulo `0xFFFF`, or 0 for 0.
pub open spec fn fold16(x: nat) -> nat {
    if x == 0 {
        0
    } else {
        ((x - 1) % 65535 + 1) as nat
    }
}

/// The Internet checksum of `s`: the complement of its folded word sum.
pub open spec fn internet_checksum(s: Seq<u8>) -> u16 {
    (65535 - fold16(ones_sum(s))) as u16
}

/// `s` with the two bytes at `off` set to zero.
pub open spec fn zero_field(s: Seq<u8>, off: int) -> Seq<u8> {
    s.update(off, 0u8).update(off + 1, 0u8)
}

/// `s` with the two bytes at `off` set to the big-endian bytes of `v`.
pub open spec fn put16(s: Seq<u8>, off: int, v: u16) -> Seq<u8> {
    s.update(off, (v / 256) as u8).update(off + 1, (v % 256) as u8)
}

/// Whether the checksum stored at `off` in `s` is that of `s` with the field zeroed.
pub open spec fn checksum_ok(s: Seq<u8>, off: int) -> bool {
    off + 2 <= s.len() && be16(s[off], s[off + 1]) == internet_checksum(zero_field(s, off))
}

proof fn lemma_word_sum_bound(s: Seq<u8>, n: nat)
    ensures
        word_sum(s, n) <= n * 65535,
    decreases n,
{
    if n > 0 {
        lemma_word_sum_bound(s, (n - 1) as nat);
        let w = word_at(s, n - 1);
        assert(w <= 65535) by {
            if 2 * (n - 1) + 1 < s.len() {
            } else {
            }
        }
    }
}

proof fn lemma_fold_step(x: nat)
    requires
        x >= 65536,
    ensures
        ((x % 65536 + x / 65536) as nat) % 65535 == x % 65535,
        x % 65536 + x / 65536 > 0,
        x % 65536 + x / 65536 < x,
{
    let q = x / 65536;
    let r = x % 65536;
    assert(x == q * 65536 + r);
    assert(q >= 1);
    assert((r + q) % 65535 == (q * 65536 + r) % 65535) by (nonlinear_arith)
        requires q >= 1, r >= 0, r < 65536;
}

proof fn lemma_fold_final(s: nat, x: nat)
    requires
        s < 65536,
        s % 65535 == x % 65535,
        s == 0 <==> x == 0,
    ensures
        s == fold16(x),
{
    if x != 0 {
        assert(s >= 1);
        assert(((x - 1) % 65535 + 1) % 65535 == x % 65535) by (nonlinear_arith)
            requires x >= 1;
        let f = ((x - 1) % 65535 + 1) as nat;
        assert(1 <= f <= 65535);
        assert(f % 65535 == s % 65535);
        if s == 65535 {
            assert(s % 65535 == 0);
            assert(f == 65535);
        } else {
            assert(s % 65535 == s);
            if f == 65535 {
                assert(f % 65535 == 0);
            } else {
                assert(f % 65535 == f);
            }
        }
    }
}

/// Adds the IPv4 pseudo-header words (source and destination address) to `sum`.
pub fn add_ipv4_pseudo_header(sum: &mut u32, source_ip: Ipv4Addr, dest_ip: Ipv4Addr)
    requires
        *old(sum) + 4 * 65535 <= u32::MAX,
    ensures
        *final(sum) == *old(sum) + be16(source_ip.bytes@[0], source_ip.bytes@[1])
            + be16(source_ip.bytes@[2], source_ip.bytes@[3]) + be16(dest_ip.bytes@[0], dest_ip.bytes@[1])
            + be16(dest_ip.bytes@[2], dest_ip.bytes@[3]),
{
    let s = source_ip.bytes;
    let d = dest_ip.bytes;
    *sum = *sum + ((s[0] as u32) * 256 + (s[1] as u32));
    *sum = *sum + ((s[2] as u32) * 256 + (s[3] as u32));
    *sum = *sum + ((d[0] as u32) * 256 + (d[1] as u32));
    *sum = *sum + ((d[2] as u32) * 256 + (d[3] as u32));
}

/// Folds the carries of a 32-bit sum into 16 bits.
pub fn fold_carry(sum: u32) -> (r: u16)
    ensures
        r == fold16(sum as nat),
{
    let mut s: u32 = sum;
    while s >= 65536
        invariant
            s as nat % 65535 == sum as nat % 65535,
            s == 0 <==> sum == 0,
        decreases s,
    {
        proof { lemma_fold_step(s as nat); }
        s = s % 65536 + s / 65536;
    }
    proof { lemma_fold_final(s as nat, sum as nat); }
    s as u16
}

/// The Internet checksum (RFC 1071) of `data`: the complement of the
/// end-around-carry sum of its big-endian 16-bit words, an odd last byte
/// padded with zero.
pub fn calculate_checksum(data: &[u8]) -> (r: u16)
    ensures
        r == internet_checksum(data@),
{
    let s = folded_sum(data);
    65535 - s
}

/// The end-around-carry sum of the big-endian 16-bit words of `data`, an
/// odd last byte padded with zero.
pub fn folded_sum(data: &[u8]) -> (r: u16)
    ensures
        r == fold16(ones_sum(data@)),
{
    let n = data.len();
    let mut sum: u64 = 0;
    let mut i: usize = 0;
    let ghost mut k: nat = 0;
    while i + 1 < n
        invariant
            n == data@.len(),
            i == 2 * k,
            i <= n,
            sum < 0x1_0000_0000 + 65536,
            sum as nat % 65535 == word_sum(data@, k) % 65535,
            sum == 0 <==> word_sum(data@, k) == 0,
        decreases n - i,
    {
        let w = (data[i] as u64) * 256 + (data[i + 1] as u64);
        let ghost old_sum = sum;
        proof {
            assert(word_at(data@, k as int) == w);
            assert(word_sum(data@, k + 1) == word_sum(data@, k) + w);
        }
        sum = sum + w;
        proof {
            assert((old_sum + w) % 65535 == (old_sum % 65535 + w) % 65535) by (nonlinear_arith);
            assert((word_sum(data@, k) + w) % 65535 == (word_sum(data@, k) % 65535 + w) % 65535) by (nonlinear_arith);
        }
        if sum >= 0x1_0000_0000 {
            proof { lemma_fold_step(sum as nat); }
            sum = sum % 65536 + sum / 65536;
        }
        i = i + 2;
        proof { k = k + 1; }
    }
    if i < n {
        let w = (data[i] as u64) * 256;
        let ghost old_sum = sum;
        proof {
            assert(word_at(data@, k as int) == w);
            assert(word_sum(data@, k + 1) == word_sum(data@, k) + w);
            assert((old_sum + w) % 65535 == (old_sum % 65535 + w) % 65535) by (nonlinear_arith);
            assert((word_sum(data@, k) + w) % 65535 == (word_sum(data@, k) % 65535 + w) % 65535) by (nonlinear_arith);
        }
        sum = sum + w;
        proof { k = k + 1; }
    }
    proof {
        assert(k == num_words(data@));
    }
    let ghost total = ones_sum(data@);
    while sum >= 65536
        invariant
            sum as nat % 65535 == total % 65535,
            sum == 0 <==> total == 0,
        decreases sum,
    {
        proof { lemma_fold_step(sum as nat); }
        sum = sum % 65536 + sum / 65536;
    }
    proof { lemma_fold_final(sum as nat, total); }
    sum as u16
}

/// Whether the checksum stored at `checksum_offset` matches the checksum of
/// `data` computed with that field zeroed.
pub fn verify_checksum(data: &[u8], checksum_offset: usize) -> (r: bool)
    ensures
        r == checksum_ok(data@, checksum_offset as int),
{
    if checksum_offset > data.len() || data.len() - checksum_offset < 2 {
        return false;
    }
    let original = (data[checksum_offset] as u16) * 256 + (data[checksum_offset + 1] as u16);
    let mut copy = crate::common::bytes::copy_range(data, 0, data.len());
    copy.set(checksum_offset, 0);
    copy.set(checksum_offset + 1, 0);
    proof {
        assert(data@.subrange(0, data@.len() as int) =~= data@);
        assert(copy@ =~= zero_field(data@, checksum_offset as int));
    }
    let calculated = calculate_checksum(copy.as_slice());
    original == calculated
}

/// Stores `v` big-endian at `off`.
pub fn store16(data: &mut Vec<u8>, off: usize, v: u16)
    requires
        off + 2 <= old(data)@.len(),
    ensures
        final(data)@ == put16(old(data)@, off as int, v),
{
    let _n = data.len();
    data.set(off, (v / 256) as u8);
    data.set(off + 1, (v % 256) as u8);
}

/// Writing the checksum of a buffer whose checksum field is zero makes it verify.
pub proof fn lemma_put_checksum_verifies(s: Seq<u8>, off: int)
    requires
        0 <= off,
        off + 2 <= s.len(),
        s[off] == 0,
        s[off + 1] == 0,
    ensures
        checksum_ok(put16(s, off, internet_checksum(s)), off),
{
    let t = put16(s, off, internet_checksum(s));
    assert(zero_field(t, off) =~= s);
    let c = internet_checksum(s);
    assert(be16(t[off], t[off + 1]) == c);
}

} // verus!
