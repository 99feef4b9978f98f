use vstd::prelude::*;
use crate::common::bytes::{push_slice, copy_range};
use crate::protocols::ipsec::error::constant_time_compare;
use super::types::{IkeDhGroup, IkeError};
use super::sa::IkeKeyMaterial;

verus! {

/// One output byte of the mixing function: ((k * 3 + d) xor i) * 7, each
/// step in 8 bits.
pub open spec fn mix_byte(k: u8, d: u8, i: int) -> u8 {
    (k.wrapping_mul(3).wrapping_add(d) ^ (i as u8)).wrapping_mul(7)
}

/// Byte `i` of `s` taken cyclically, 0 for an empty `s`.
pub open spec fn cyclic(s: Seq<u8>, i: int) -> u8 {
    if s.len() > 0 { s[i % (s.len() as int)] } else { 0 }
}

/// The pseudo-random function of this library: 32 bytes mixing the key and
/// the data byte by byte (see `mix_byte`), each taken cyclically.
pub open spec fn prf(key: Seq<u8>, data: Seq<u8>) -> Seq<u8> {
    Seq::new(32, |i: int| mix_byte(cyclic(key, i), cyclic(data, i), i))
}

/// Block `n` of prf+: T1 = prf(K, S | 1), Tn = prf(K, Tn-1 | S | n).
pub open spec fn prf_block(key: Seq<u8>, data: Seq<u8>, n: nat) -> Seq<u8>
    decreases n,
{
    if n == 0 {
        Seq::empty()
    } else {
        prf(key, prf_block(key, data, (n - 1) as nat) + data + seq![n as u8])
    }
}

/// The first `n` blocks of prf+ one after another.
pub open spec fn prf_stream(key: Seq<u8>, data: Seq<u8>, n: nat) -> Seq<u8>
    decreases n,
{
    if n == 0 { Seq::empty() } else { prf_stream(key, data, (n - 1) as nat) + prf_block(key, data, n) }
}

/// Number of 32-byte blocks that hold `len` bytes.
pub open spec fn blocks_for(len: nat) -> nat {
    (len + 31) / 32
}

/// prf+ of `key` and `data`, `len` bytes.
pub open spec fn prf_plus_spec(key: Seq<u8>, data: Seq<u8>, len: nat) -> Seq<u8> {
    prf_stream(key, data, blocks_for(len)).take(len as int)
}

proof fn lemma_prf_stream_len(key: Seq<u8>, data: Seq<u8>, n: nat)
    ensures
        prf_stream(key, data, n).len() == 32 * n,
    decreases n,
{
    if n > 0 {
        lemma_prf_stream_len(key, data, (n - 1) as nat);
    }
}

/// The key pad of IKEv2 authentication: "Key Pad for IKEv2".
pub const KEY_PAD: [u8; 17] = [75, 101, 121, 32, 80, 97, 100, 32, 102, 111, 114, 32, 73, 75, 69, 118, 50];

/// The pseudo-random function of IKEv2 in this library.
pub struct IkePseudoRandomFunction;

impl IkePseudoRandomFunction {
    /// prf+ of `key` and `data`, `output_len` bytes (see `prf_plus_spec`).
    pub fn prf_plus(key: &[u8], data: &[u8], output_len: usize) -> (r: Vec<u8>)
        requires
            output_len <= 254 * 32,
            output_len > 0 ==> key@.len() > 0,
        ensures
            r@ == prf_plus_spec(key@, data@, output_len as nat),
            r@.len() == output_len,
    {
        let mut result: Vec<u8> = Vec::new();
        let mut previous: Vec<u8> = Vec::new();
        let mut round: u8 = 1;
        let ghost mut n: nat = 0;
        while result.len() < output_len
            invariant
                output_len <= 254 * 32,
                output_len > 0 ==> key@.len() > 0,
                round == n + 1,
                n <= blocks_for(output_len as nat),
                result@ == prf_stream(key@, data@, n),
                result@.len() == 32 * n,
                previous@ == prf_block(key@, data@, n),
            decreases blocks_for(output_len as nat) - n,
        {
            let mut input: Vec<u8> = Vec::new();
            push_slice(&mut input, previous.as_slice());
            push_slice(&mut input, data);
            input.push(round);
            let t_i = Self::simple_prf(key, input.as_slice());
            proof {
                n = n + 1;
                assert(input@ == prf_block(key@, data@, (n - 1) as nat) + data@ + seq![n as u8]);
            }
            previous = copy_range(t_i.as_slice(), 0, t_i.len());
            assert(previous@ =~= t_i@);
            push_slice(&mut result, t_i.as_slice());
            proof {
                assert((32 * (n - 1) as int) < output_len);
            }
            round = round + 1;
        }
        proof {
            lemma_prf_stream_len(key@, data@, n);
            assert(n == blocks_for(output_len as nat));
            assert(32 * n >= output_len);
        }
        result.truncate(output_len);
        result
    }

    /// The pseudo-random function `prf` of `key` and `data`.
    fn simple_prf(key: &[u8], data: &[u8]) -> (r: Vec<u8>)
        requires
            key@.len() > 0,
        ensures
            r@ == prf(key@, data@),
    {
        let mut result: Vec<u8> = Vec::new();
        let key_len = key.len();
        let data_len = data.len();
        let mut i: usize = 0;
        while i < 32
            invariant
                i <= 32,
                key_len == key@.len(),
                key_len > 0,
                data_len == data@.len(),
                result@ == prf(key@, data@).take(i as int),
            decreases 32 - i,
        {
            let key_byte = key[i % key_len];
            let data_byte: u8 = if data_len > 0 { data[i % data_len] } else { 0 };
            let round_byte = i as u8;
            let output = ((key_byte.wrapping_mul(3)).wrapping_add(data_byte) ^ round_byte).wrapping_mul(7);
            result.push(output);
            i = i + 1;
            assert(result@ =~= prf(key@, data@).take(i as int));
        }
        assert(prf(key@, data@).take(32) =~= prf(key@, data@));
        result
    }

    /// SKEYSEED = prf(Ni | Nr, g^ir).
    pub fn compute_skeyseed(ni: &[u8], nr: &[u8], dh_shared: &[u8]) -> (r: Vec<u8>)
        requires
            ni@.len() + nr@.len() > 0,
        ensures
            r@ == prf(ni@ + nr@, dh_shared@),
    {
        let mut input: Vec<u8> = Vec::new();
        push_slice(&mut input, ni);
        push_slice(&mut input, nr);
        Self::simple_prf(input.as_slice(), dh_shared)
    }

    /// KEYMAT = prf+(SKEYSEED, Ni | Nr | SPIi | SPIr), `keymat_len` bytes.
    pub fn derive_keymat(skeyseed: &[u8], ni: &[u8], nr: &[u8], spi_i: &[u8; 8], spi_r: &[u8; 8], keymat_len: usize) -> (r: Vec<u8>)
        requires
            keymat_len <= 254 * 32,
            keymat_len > 0 ==> skeyseed@.len() > 0,
        ensures
            r@ == prf_plus_spec(skeyseed@, ni@ + nr@ + spi_i@ + spi_r@, keymat_len as nat),
            r@.len() == keymat_len,
    {
        let mut data: Vec<u8> = Vec::new();
        push_slice(&mut data, ni);
        push_slice(&mut data, nr);
        push_slice(&mut data, spi_i);
        push_slice(&mut data, spi_r);
        Self::prf_plus(skeyseed, data.as_slice(), keymat_len)
    }
}

/// The shared secret this library derives: the exclusive or of the two
/// keys over the shorter one's length, padded with zeros to 32 bytes.
pub open spec fn dh_shared_spec(public_key: Seq<u8>, private_key: Seq<u8>) -> Seq<u8> {
    let m: int = if private_key.len() < public_key.len() { private_key.len() as int } else { public_key.len() as int };
    let n: int = if m < 32 { 32 } else { m };
    Seq::new(n as nat, |i: int| if i < m { public_key[i] ^ private_key[i] } else { 0u8 })
}

/// Computes the shared secret (see `dh_shared_spec`); the group is not used.
pub fn compute_dh_shared(_dh_group: IkeDhGroup, public_key: &[u8], private_key: &[u8]) -> (r: Result<Vec<u8>, IkeError>)
    ensures
        r matches Ok(v) && v@ == dh_shared_spec(public_key@, private_key@),
{
    let mut shared: Vec<u8> = Vec::new();
    let key_len = if private_key.len() < public_key.len() { private_key.len() } else { public_key.len() };
    let ghost target = dh_shared_spec(public_key@, private_key@);
    let mut i: usize = 0;
    while i < key_len
        invariant
            i <= key_len,
            key_len <= public_key@.len(),
            key_len <= private_key@.len(),
            key_len == (if private_key@.len() < public_key@.len() { private_key@.len() } else { public_key@.len() }),
            target == dh_shared_spec(public_key@, private_key@),
            shared@ == target.take(i as int),
        decreases key_len - i,
    {
        shared.push(public_key[i] ^ private_key[i]);
        i = i + 1;
        assert(shared@ =~= target.take(i as int));
    }
    while shared.len() < 32
        invariant
            key_len <= shared@.len(),
            key_len == (if private_key@.len() < public_key@.len() { private_key@.len() } else { public_key@.len() }),
            target == dh_shared_spec(public_key@, private_key@),
            shared@.len() <= target.len(),
            shared@ == target.take(shared@.len() as int),
        decreases 32 - shared@.len(),
    {
        let ghost k = shared@.len();
        shared.push(0);
        assert(shared@ =~= target.take(k as int + 1));
    }
    assert(shared@ =~= target);
    Ok(shared)
}

/// Byte `i` of the fixed private key this library uses.
pub open spec fn dh_private_byte(i: u32) -> u8 {
    (i.wrapping_mul(0x9E3779B9) >> 8u32) as u8
}

/// Returns the fixed key pair (private, public) of 32 bytes each; the
/// public byte is the private byte plus 0x13, in 8 bits. The group is not used.
pub fn generate_dh_keypair(_dh_group: IkeDhGroup) -> (r: Result<(Vec<u8>, Vec<u8>), IkeError>)
    ensures
        r matches Ok((private_key, public_key)) && private_key@ == Seq::new(32, |i: int| dh_private_byte(i as u32))
            && public_key@ == Seq::new(32, |i: int| dh_private_byte(i as u32).wrapping_add(0x13)),
{
    let mut private_key: Vec<u8> = Vec::new();
    let mut public_key: Vec<u8> = Vec::new();
    let mut i: u32 = 0;
    while i < 32
        invariant
            i <= 32,
            private_key@ == Seq::new(i as nat, |k: int| dh_private_byte(k as u32)),
            public_key@ == Seq::new(i as nat, |k: int| dh_private_byte(k as u32).wrapping_add(0x13)),
        decreases 32 - i,
    {
        let p = (i.wrapping_mul(0x9E3779B9) >> 8) as u8;
        private_key.push(p);
        public_key.push(p.wrapping_add(0x13));
        i = i + 1;
        assert(private_key@ =~= Seq::new(i as nat, |k: int| dh_private_byte(k as u32)));
        assert(public_key@ =~= Seq::new(i as nat, |k: int| dh_private_byte(k as u32).wrapping_add(0x13)));
    }
    Ok((private_key, public_key))
}

/// The generator state after `n` steps from `timestamp`: first the
/// timestamp times 0x9E3779B9, then each step times 0x9E3779B9 plus
/// 0x243F6A88, all in 64 bits.
pub open spec fn seed_after(timestamp: u64, n: nat) -> u64
    decreases n,
{
    if n == 0 {
        timestamp.wrapping_mul(0x9E3779B9)
    } else {
        seed_after(timestamp, (n - 1) as nat).wrapping_mul(0x9E3779B9).wrapping_add(0x243F6A88)
    }
}

/// The pseudo-random bytes drawn from `timestamp`: byte `i` is bits 24 to
/// 31 of the state after `i + 1` steps.
pub open spec fn random_bytes(timestamp: u64, size: nat) -> Seq<u8> {
    Seq::new(size, |i: int| (seed_after(timestamp, (i + 1) as nat) >> 24u64) as u8)
}

/// The SPI drawn from `timestamp`: its eight random bytes, the first set to
/// 1 when all are zero.
pub open spec fn spi_from(timestamp: u64) -> Seq<u8> {
    let b = random_bytes(timestamp, 8);
    if b == Seq::new(8, |_i: int| 0u8) { b.update(0, 1u8) } else { b }
}

/// Draws `size` pseudo-random bytes from `timestamp` (see `random_bytes`).
pub fn random_bytes_from(timestamp: u64, size: usize) -> (r: Vec<u8>)
    ensures
        r@ == random_bytes(timestamp, size as nat),
{
    let mut out: Vec<u8> = Vec::new();
    let mut seed = timestamp.wrapping_mul(0x9E3779B9);
    let mut i: usize = 0;
    while i < size
        invariant
            i <= size,
            seed == seed_after(timestamp, i as nat),
            out@ == random_bytes(timestamp, size as nat).take(i as int),
        decreases size - i,
    {
        seed = seed.wrapping_mul(0x9E3779B9).wrapping_add(0x243F6A88);
        out.push((seed >> 24) as u8);
        i = i + 1;
        assert(out@ =~= random_bytes(timestamp, size as nat).take(i as int));
    }
    assert(out@ =~= random_bytes(timestamp, size as nat));
    out
}

/// The SPI drawn from `timestamp` (see `spi_from`).
pub fn spi_from_timestamp(timestamp: u64) -> (r: [u8; 8])
    ensures
        r@ == spi_from(timestamp),
        r@ != Seq::new(8, |_i: int| 0u8),
{
    let b = random_bytes_from(timestamp, 8);
    let mut spi: [u8; 8] = [b[0], b[1], b[2], b[3], b[4], b[5], b[6], b[7]];
    assert(spi@ =~= b@);
    let z: [u8; 8] = [0u8; 8];
    if crate::common::bytes::bytes_eq(&spi, &z) {
        spi[0] = 1;
        assert(spi@ =~= b@.update(0, 1u8));
        assert(spi@[0] != 0u8);
    }
    assert(z@ =~= Seq::new(8, |_i: int| 0u8));
    spi
}

/// The system clock's time type, carried through opaque.
#[verifier::external_type_specification]
#[verifier::external_body]
pub struct ExSystemTime(std::time::SystemTime);

/// The error of a time before the reference point, carried through opaque.
#[verifier::external_type_specification]
#[verifier::external_body]
pub struct ExSystemTimeError(std::time::SystemTimeError);

/// The current time of the system clock.
///
/// Trusted: calls `SystemTime::now`; nothing is claimed of the value,
/// which depends on the clock.
#[verifier::external_body]
fn system_now() -> (r: std::time::SystemTime) {
    std::time::SystemTime::now()
}

/// The time from the Unix epoch to `t`.
///
/// Trusted: calls `SystemTime::duration_since` with `UNIX_EPOCH`, which
/// gives an error when `t` is earlier; nothing is claimed of the value.
#[verifier::external_body]
fn since_epoch(t: &std::time::SystemTime) -> (r: Result<std::time::Duration, std::time::SystemTimeError>) {
    t.duration_since(std::time::UNIX_EPOCH)
}

/// The whole nanoseconds of a duration.
///
/// Trusted: calls `Duration::as_nanos`; the duration is opaque here, so
/// nothing is claimed of the value.
#[verifier::external_body]
fn duration_nanos(d: &std::time::Duration) -> (r: u128) {
    d.as_nanos()
}

/// Nanoseconds since the Unix epoch by the system clock, in 64 bits (the
/// low 64 bits of the count; 0 before the epoch).
fn clock_nanos() -> (r: u64) {
    let now = system_now();
    match since_epoch(&now) {
        Ok(d) => {
            let n = duration_nanos(&d);
            (n % 0x1_0000_0000_0000_0000u128) as u64
        },
        Err(_) => 0,
    }
}

/// A pseudo-random SPI drawn from the clock, never zero.
pub fn generate_random_spi() -> (r: [u8; 8])
    ensures
        exists|t: u64| r@ == #[trigger] spi_from(t),
        r@ != Seq::new(8, |_i: int| 0u8),
{
    let t = clock_nanos();
    spi_from_timestamp(t)
}

/// `size` pseudo-random bytes drawn from the clock.
pub fn generate_random_nonce(size: usize) -> (r: Vec<u8>)
    ensures
        exists|t: u64| r@ == #[trigger] random_bytes(t, size as nat),
        r@.len() == size,
{
    let t = clock_nanos();
    random_bytes_from(t, size)
}

/// The key material laid out in `k`: SK_d (32 bytes), SK_ai, SK_ar
/// (`a` bytes), SK_ei, SK_er (`e` bytes), SK_pi, SK_pr (`a` bytes).
pub open spec fn keymat_parts(km: IkeKeyMaterial, k: Seq<u8>, e: int, a: int) -> bool {
    &&& km.sk_d@ == k.subrange(0, 32)
    &&& km.sk_ai@ == k.subrange(32, 32 + a)
    &&& km.sk_ar@ == k.subrange(32 + a, 32 + 2 * a)
    &&& km.sk_ei@ == k.subrange(32 + 2 * a, 32 + 2 * a + e)
    &&& km.sk_er@ == k.subrange(32 + 2 * a + e, 32 + 2 * a + 2 * e)
    &&& km.sk_pi@ == k.subrange(32 + 2 * a + 2 * e, 32 + 3 * a + 2 * e)
    &&& km.sk_pr@ == k.subrange(32 + 3 * a + 2 * e, 32 + 4 * a + 2 * e)
}

/// Derives the key material: SKEYSEED from the nonces and shared secret,
/// then KEYMAT of 32 + 4 `auth_key_len` + 2 `enc_key_len` bytes, cut as
/// `keymat_parts` says.
pub fn compute_key_material(ni: &[u8], nr: &[u8], dh_shared: &[u8], spi_i: &[u8; 8], spi_r: &[u8; 8],
    enc_key_len: usize, auth_key_len: usize) -> (r: Result<IkeKeyMaterial, IkeError>)
    requires
        ni@.len() + nr@.len() > 0,
        32 + 4 * auth_key_len + 2 * enc_key_len <= 254 * 32,
    ensures
        r matches Ok(km) && keymat_parts(km,
            prf_plus_spec(prf(ni@ + nr@, dh_shared@), ni@ + nr@ + spi_i@ + spi_r@,
                (32 + 4 * auth_key_len + 2 * enc_key_len) as nat),
            enc_key_len as int, auth_key_len as int),
{
    let skeyseed = IkePseudoRandomFunction::compute_skeyseed(ni, nr, dh_shared);
    let sk_d_len: usize = 32;
    let total_keymat_len = sk_d_len + auth_key_len * 2 + enc_key_len * 2 + auth_key_len * 2;
    let keymat = IkePseudoRandomFunction::derive_keymat(skeyseed.as_slice(), ni, nr, spi_i, spi_r, total_keymat_len);
    let k = keymat.as_slice();
    let mut offset: usize = 0;
    let sk_d = copy_range(k, offset, offset + sk_d_len);
    offset = offset + sk_d_len;
    let sk_ai = copy_range(k, offset, offset + auth_key_len);
    offset = offset + auth_key_len;
    let sk_ar = copy_range(k, offset, offset + auth_key_len);
    offset = offset + auth_key_len;
    let sk_ei = copy_range(k, offset, offset + enc_key_len);
    offset = offset + enc_key_len;
    let sk_er = copy_range(k, offset, offset + enc_key_len);
    offset = offset + enc_key_len;
    let sk_pi = copy_range(k, offset, offset + auth_key_len);
    offset = offset + auth_key_len;
    let sk_pr = copy_range(k, offset, offset + auth_key_len);
    Ok(IkeKeyMaterial::new(sk_d, sk_ai, sk_ar, sk_ei, sk_er, sk_pi, sk_pr))
}

/// The position mask of this library's cipher: i * 17 + 73 in 8 bits.
pub open spec fn position_mask(i: int) -> u8 {
    (i as u8).wrapping_mul(17).wrapping_add(73)
}

/// This library's cipher: each byte xor the key and IV bytes, taken
/// cyclically, and a position mask.
pub open spec fn cipher_spec(key: Seq<u8>, text: Seq<u8>, iv: Seq<u8>) -> Seq<u8> {
    Seq::new(text.len(), |i: int| text[i] ^ key[i % (key.len() as int)] ^ iv[i % (iv.len() as int)] ^ position_mask(i))
}

/// The integrity code of this library: byte `i` is `mix_byte` rotated
/// left by 3 bits.
pub open spec fn mac_spec(key: Seq<u8>, data: Seq<u8>, len: nat) -> Seq<u8> {
    Seq::new(len, |i: int| {
        let m = mix_byte(cyclic(key, i), cyclic(data, i), i);
        (m << 3u8) | (m >> 5u8)
    })
}

/// Encryption and integrity operations of IKEv2 in this library.
pub struct IkeCrypto;

impl IkeCrypto {
    /// Encrypts `plaintext` (see `cipher_spec`).
    pub fn encrypt(key: &[u8], plaintext: &[u8], iv: &[u8]) -> (r: Vec<u8>)
        requires
            plaintext@.len() > 0 ==> key@.len() > 0 && iv@.len() > 0,
        ensures
            r@ == cipher_spec(key@, plaintext@, iv@),
    {
        let mut ciphertext: Vec<u8> = Vec::new();
        let key_len = key.len();
        let iv_len = iv.len();
        let mut i: usize = 0;
        while i < plaintext.len()
            invariant
                i <= plaintext@.len(),
                plaintext@.len() > 0 ==> key_len > 0 && iv_len > 0,
                key_len == key@.len(),
                iv_len == iv@.len(),
                ciphertext@ == cipher_spec(key@, plaintext@, iv@).take(i as int),
            decreases plaintext@.len() - i,
        {
            let byte = plaintext[i];
            let key_byte = key[i % key_len];
            let iv_byte = iv[i % iv_len];
            let obfuscate = ((i as u8).wrapping_mul(17)).wrapping_add(73);
            ciphertext.push(byte ^ key_byte ^ iv_byte ^ obfuscate);
            i = i + 1;
            assert(ciphertext@ =~= cipher_spec(key@, plaintext@, iv@).take(i as int));
        }
        assert(cipher_spec(key@, plaintext@, iv@).take(i as int) =~= cipher_spec(key@, plaintext@, iv@));
        ciphertext
    }

    /// Decrypts: the same operation as `encrypt`.
    pub fn decrypt(key: &[u8], ciphertext: &[u8], iv: &[u8]) -> (r: Vec<u8>)
        requires
            ciphertext@.len() > 0 ==> key@.len() > 0 && iv@.len() > 0,
        ensures
            r@ == cipher_spec(key@, ciphertext@, iv@),
    {
        Self::encrypt(key, ciphertext, iv)
    }

    /// An IV of `length` pseudo-random bytes drawn from the clock.
    pub fn generate_iv(length: usize) -> (r: Vec<u8>)
        ensures
            exists|t: u64| r@ == #[trigger] random_bytes(t, length as nat),
            r@.len() == length,
    {
        generate_random_nonce(length)
    }

    /// Computes an integrity code of `output_len` bytes (see `mac_spec`).
    pub fn compute_mac(key: &[u8], data: &[u8], output_len: usize) -> (r: Vec<u8>)
        requires
            output_len > 0 ==> key@.len() > 0,
        ensures
            r@ == mac_spec(key@, data@, output_len as nat),
    {
        let mut mac: Vec<u8> = Vec::new();
        let key_len = key.len();
        let data_len = data.len();
        let mut i: usize = 0;
        while i < output_len
            invariant
                i <= output_len,
                output_len > 0 ==> key_len > 0,
                key_len == key@.len(),
                data_len == data@.len(),
                mac@ == mac_spec(key@, data@, output_len as nat).take(i as int),
            decreases output_len - i,
        {
            let key_byte = key[i % key_len];
            let data_byte: u8 = if data_len > 0 { data[i % data_len] } else { 0 };
            let round_byte = i as u8;
            let m = ((key_byte.wrapping_mul(3)).wrapping_add(data_byte) ^ round_byte).wrapping_mul(7);
            let output = (m << 3u8) | (m >> 5u8);
            mac.push(output);
            i = i + 1;
            assert(mac@ =~= mac_spec(key@, data@, output_len as nat).take(i as int));
        }
        assert(mac_spec(key@, data@, output_len as nat).take(i as int) =~= mac_spec(key@, data@, output_len as nat));
        mac
    }

    /// Whether `expected` is the integrity code of `data` under `key`.
    pub fn verify_mac(key: &[u8], data: &[u8], expected: &[u8]) -> (r: bool)
        requires
            expected@.len() > 0 ==> key@.len() > 0,
        ensures
            r == (mac_spec(key@, data@, expected@.len()) == expected@),
    {
        let computed = Self::compute_mac(key, data, expected.len());
        constant_time_compare(computed.as_slice(), expected)
    }

    /// AUTH = prf(prf(shared secret, "Key Pad for IKEv2"), message octets);
    /// the requested length is not used.
    pub fn compute_auth_data(shared_secret: &[u8], msg_octets: &[u8], _output_len: usize) -> (r: Vec<u8>)
        requires
            shared_secret@.len() > 0,
        ensures
            r@ == prf(prf(shared_secret@, KEY_PAD@), msg_octets@),
    {
        let pad = KEY_PAD;
        let key = IkePseudoRandomFunction::simple_prf(shared_secret, &pad);
        IkePseudoRandomFunction::simple_prf(key.as_slice(), msg_octets)
    }
}

/// Decrypting what was encrypted under the same key and IV gives it back.
pub proof fn lemma_decrypt_encrypt(key: Seq<u8>, text: Seq<u8>, iv: Seq<u8>)
    ensures
        cipher_spec(key, cipher_spec(key, text, iv), iv) == text,
{
    let c = cipher_spec(key, text, iv);
    assert forall|i: int| 0 <= i < text.len() implies #[trigger] cipher_spec(key, c, iv)[i] == text[i] by {
        let k = key[i % (key.len() as int)];
        let v = iv[i % (iv.len() as int)];
        let m = position_mask(i);
        let t = text[i];
        assert(t ^ k ^ v ^ m ^ k ^ v ^ m == t) by (bit_vector);
    }
    assert(cipher_spec(key, c, iv) =~= text);
}

} // verus!
