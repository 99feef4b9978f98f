use vstd::prelude::*;
use crate::common::addr::IpAddr;
use super::error::IpsecError;

verus! {

/// Direction of a security association.
#[derive(Debug, Clone, Copy, PartialEq, Eq, Hash, Structural)]
pub enum SaDirection {
    Inbound,
    Outbound,
}

/// IPsec mode.
#[derive(Debug, Clone, Copy, PartialEq, Eq, Hash, Structural)]
pub enum IpsecMode {
    Transport,
    Tunnel,
}

/// IPsec protocol: AH (protocol 51) or ESP (protocol 50).
#[derive(Debug, Clone, Copy, PartialEq, Eq, Hash, Structural)]
pub enum IpsecProtocol {
    Ah,
    Esp,
}

impl IpsecProtocol {
    /// The protocol number.
    pub open spec fn number(self) -> u8 {
        match self {
            IpsecProtocol::Ah => 51,
            IpsecProtocol::Esp => 50,
        }
    }

    /// The protocol with this number.
    pub fn from_u8(value: u8) -> (r: Option<Self>)
        ensures
            r == (if value == 51 {
                Some(IpsecProtocol::Ah)
            } else if value == 50 {
                Some(IpsecProtocol::Esp)
            } else {
                None::<IpsecProtocol>
            }),
    {
        match value {
            51 => Some(IpsecProtocol::Ah),
            50 => Some(IpsecProtocol::Esp),
            _ => None,
        }
    }

    /// The protocol number.
    pub fn as_u8(&self) -> (r: u8)
        ensures
            r == self.number(),
    {
        match self {
            IpsecProtocol::Ah => 51,
            IpsecProtocol::Esp => 50,
        }
    }
}

/// Life-cycle state of a security association.
#[derive(Debug, Clone, Copy, PartialEq, Eq, Structural)]
pub enum SaState {
    Larval,
    Mature,
    Dying,
    Dead,
}

/// Encryption transform of ESP.
#[derive(Debug, Clone, PartialEq, Eq, Structural)]
pub enum CipherTransform {
    AesCbc { key_size: usize },
    AesCtr { key_size: usize },
    AesGcm { key_size: usize, icv_size: usize },
    TripleDesCbc,
    Null,
}

impl CipherTransform {
    /// Key length of the transform.
    pub open spec fn spec_key_size(self) -> usize {
        match self {
            CipherTransform::AesCbc { key_size } => key_size,
            CipherTransform::AesCtr { key_size } => key_size,
            CipherTransform::AesGcm { key_size, .. } => key_size,
            CipherTransform::TripleDesCbc => 24,
            CipherTransform::Null => 0,
        }
    }

    /// Block length of the transform: 16, or 1 without encryption.
    pub open spec fn spec_block_size(self) -> usize {
        match self {
            CipherTransform::Null => 1,
            _ => 16,
        }
    }

    pub fn key_size(&self) -> (r: usize)
        ensures
            r == self.spec_key_size(),
    {
        match self {
            CipherTransform::AesCbc { key_size } => *key_size,
            CipherTransform::AesCtr { key_size } => *key_size,
            CipherTransform::AesGcm { key_size, .. } => *key_size,
            CipherTransform::TripleDesCbc => 24,
            CipherTransform::Null => 0,
        }
    }

    pub fn block_size(&self) -> (r: usize)
        ensures
            r == self.spec_block_size(),
    {
        match self {
            CipherTransform::AesCbc { .. } => 16,
            CipherTransform::TripleDesCbc => 16,
            CipherTransform::AesCtr { .. } => 16,
            CipherTransform::AesGcm { .. } => 16,
            CipherTransform::Null => 1,
        }
    }
}

/// Authentication transform of AH and ESP.
#[derive(Debug, Clone, Copy, PartialEq, Eq, Structural)]
pub enum AuthTransform {
    HmacMd5,
    HmacSha1,
    HmacSha2_256,
    HmacSha2_384,
    HmacSha2_512,
    AesXcbc,
    Null,
}

impl AuthTransform {
    /// Key length of the transform.
    pub open spec fn spec_key_size(self) -> usize {
        match self {
            AuthTransform::HmacMd5 => 16,
            AuthTransform::HmacSha1 => 20,
            AuthTransform::HmacSha2_256 => 32,
            AuthTransform::HmacSha2_384 => 48,
            AuthTransform::HmacSha2_512 => 64,
            AuthTransform::AesXcbc => 16,
            AuthTransform::Null => 0,
        }
    }

    /// ICV length of the transform.
    pub open spec fn spec_icv_size(self) -> usize {
        match self {
            AuthTransform::HmacMd5 => 12,
            AuthTransform::HmacSha1 => 12,
            AuthTransform::AesXcbc => 12,
            AuthTransform::HmacSha2_256 => 16,
            AuthTransform::HmacSha2_384 => 24,
            AuthTransform::HmacSha2_512 => 32,
            AuthTransform::Null => 0,
        }
    }

    pub fn key_size(&self) -> (r: usize)
        ensures
            r == self.spec_key_size(),
    {
        match self {
            AuthTransform::HmacMd5 => 16,
            AuthTransform::HmacSha1 => 20,
            AuthTransform::HmacSha2_256 => 32,
            AuthTransform::HmacSha2_384 => 48,
            AuthTransform::HmacSha2_512 => 64,
            AuthTransform::AesXcbc => 16,
            AuthTransform::Null => 0,
        }
    }

    pub fn icv_size(&self) -> (r: usize)
        ensures
            r == self.spec_icv_size(),
    {
        match self {
            AuthTransform::HmacMd5 => 12,
            AuthTransform::HmacSha1 => 12,
            AuthTransform::AesXcbc => 12,
            AuthTransform::HmacSha2_256 => 16,
            AuthTransform::HmacSha2_384 => 24,
            AuthTransform::HmacSha2_512 => 32,
            AuthTransform::Null => 0,
        }
    }
}

/// Bit `b` of `w`.
pub open spec fn word_bit(w: u64, b: u64) -> bool {
    (w >> b) & 1u64 == 1u64
}

/// Whether position `pos` of a bitmap shifted `d` positions holds a mark of
/// `bm`: the mark `d` positions nearer the top.
pub open spec fn shifted_mark(bm: Seq<u64>, pos: int, d: u64) -> bool {
    pos >= d && pos - d < 64 * bm.len() && word_bit(bm[(pos - d) / 64], ((pos - d) % 64) as u64)
}

proof fn lemma_bit_test(w: u64, b: u64)
    requires
        b < 64,
    ensures
        (w & (1u64 << b) != 0u64) == word_bit(w, b),
{
    assert((w & (1u64 << b) != 0u64) == ((w >> b) & 1u64 == 1u64)) by (bit_vector)
        requires b < 64;
}

proof fn lemma_bit_set(w: u64, b: u64, j: u64)
    requires
        b < 64,
        j < 64,
    ensures
        word_bit(w | (1u64 << b), j) == (j == b || word_bit(w, j)),
{
    assert((((w | (1u64 << b)) >> j) & 1u64 == 1u64) == (j == b || (w >> j) & 1u64 == 1u64)) by (bit_vector)
        requires b < 64, j < 64;
}

proof fn lemma_bit_zero(j: u64)
    ensures
        !word_bit(0u64, j),
{
    assert((0u64 >> j) & 1u64 == 0u64) by (bit_vector);
}

/// Anti-replay window: which sequence numbers at most `size` below the
/// highest one it was last checked against have been received.
#[derive(Debug, Clone)]
pub struct ReplayWindow {
    window_size: u64,
    bitmap: Vec<u64>,
    top: u64,
}

impl ReplayWindow {
    /// Number of sequence numbers the window covers.
    pub closed spec fn size(&self) -> nat {
        self.window_size as nat
    }

    /// Number of 64-bit words of the bitmap.
    pub closed spec fn words(&self) -> nat {
        self.bitmap@.len()
    }

    /// The highest sequence number the marks are relative to.
    pub closed spec fn top(&self) -> u64 {
        self.top
    }

    /// Whether the sequence number `offset` below the top is marked received.
    pub closed spec fn is_marked(&self, offset: nat) -> bool {
        offset < 64 * self.bitmap@.len() && word_bit(self.bitmap@[(offset / 64) as int], (offset % 64) as u64)
    }

    /// A window of `window_size` sequence numbers with nothing received.
    pub fn new(window_size: usize) -> (r: Self)
        requires
            window_size <= usize::MAX - 63,
        ensures
            r.size() == window_size,
            r.words() == (window_size + 63) / 64,
            r.top() == 0,
            forall|o: nat| !r.is_marked(o),
    {
        let words = (window_size + 63) / 64;
        let mut bitmap: Vec<u64> = Vec::new();
        let mut i: usize = 0;
        while i < words
            invariant
                i <= words,
                bitmap@.len() == i,
                forall|k: int| 0 <= k < i ==> bitmap@[k] == 0u64,
            decreases words - i,
        {
            bitmap.push(0);
            i = i + 1;
        }
        let r = ReplayWindow { window_size: window_size as u64, bitmap, top: 0 };
        assert forall|o: nat| !r.is_marked(o) by {
            lemma_bit_zero((o % 64) as u64);
        }
        r
    }

    /// Forgets every received sequence number.
    pub fn reset(&mut self)
        ensures
            final(self).size() == old(self).size(),
            final(self).words() == old(self).words(),
            final(self).top() == old(self).top(),
            forall|o: nat| !final(self).is_marked(o),
    {
        let mut i: usize = 0;
        while i < self.bitmap.len()
            invariant
                i <= self.bitmap@.len(),
                self.bitmap@.len() == old(self).bitmap@.len(),
                self.window_size == old(self).window_size,
                self.top == old(self).top,
                forall|k: int| 0 <= k < i ==> self.bitmap@[k] == 0u64,
            decreases self.bitmap@.len() - i,
        {
            self.bitmap.set(i, 0);
            i = i + 1;
        }
        assert forall|o: nat| !self.is_marked(o) by {
            lemma_bit_zero((o % 64) as u64);
        }
    }

    /// Moves every mark `d` positions further from the top; marks pushed
    /// past the bitmap are dropped and the first `d` positions are unmarked.
    fn shift_marks(&mut self, d: u64)
        ensures
            final(self).size() == old(self).size(),
            final(self).words() == old(self).words(),
            final(self).top() == old(self).top(),
            forall|o: nat| #[trigger] final(self).is_marked(o)
                == (o < 64 * old(self).words() && o >= d && old(self).is_marked((o - d) as nat)),
    {
        let n = self.bitmap.len();
        let ghost old_bm = self.bitmap@;
        let mut fresh: Vec<u64> = Vec::new();
        let mut w: usize = 0;
        while w < n
            invariant
                w <= n,
                n == old_bm.len(),
                self.bitmap@ == old_bm,
                self.window_size == old(self).window_size,
                self.top == old(self).top,
                old(self).bitmap@ == old_bm,
                fresh@.len() == w,
                forall|k: int, j: u64| 0 <= k < w && j < 64 ==>
                    #[trigger] word_bit(fresh@[k], j) == shifted_mark(old_bm, k * 64 + j, d),
            decreases n - w,
        {
            let mut word: u64 = 0;
            let mut b: u64 = 0;
            proof {
                assert forall|j: u64| j < 64 implies !word_bit(word, j) by { lemma_bit_zero(j); }
            }
            while b < 64
                invariant
                    b <= 64,
                    w < n,
                    n == old_bm.len(),
                    self.bitmap@ == old_bm,
                    forall|j: u64| j < 64 ==> word_bit(word, j) == (j < b && shifted_mark(old_bm, w * 64 + j, d)),
                decreases 64 - b,
            {
                let pos: u128 = (w as u128) * 64 + (b as u128);
                let mut hit = false;
                if pos >= d as u128 {
                    let src = pos - d as u128;
                    let sw = src / 64;
                    let sb = (src % 64) as u64;
                    if sw < n as u128 {
                        let bits = self.bitmap[sw as usize];
                        proof { lemma_bit_test(bits, sb); }
                        hit = bits & (1u64 << sb) != 0;
                    }
                }
                assert(hit == shifted_mark(old_bm, w * 64 + b, d));
                let ghost prev = word;
                if hit {
                    word = word | (1u64 << b);
                }
                proof {
                    assert forall|j: u64| j < 64 implies word_bit(word, j)
                        == (j < b + 1 && shifted_mark(old_bm, w * 64 + j, d)) by {
                        if hit { lemma_bit_set(prev, b, j); }
                    }
                }
                b = b + 1;
            }
            fresh.push(word);
            proof {
                assert forall|k: int, j: u64| 0 <= k < w + 1 && j < 64 implies
                    #[trigger] word_bit(fresh@[k], j) == shifted_mark(old_bm, k * 64 + j, d) by {
                    if k < w { assert(fresh@[k] == fresh@.drop_last()[k]); }
                }
            }
            w = w + 1;
        }
        self.bitmap = fresh;
        proof {
            assert forall|o: nat| #[trigger] self.is_marked(o)
                == (o < 64 * old(self).words() && o >= d && old(self).is_marked((o - d) as nat)) by {
                if o < 64 * old_bm.len() {
                    let k = (o / 64) as int;
                    let j = (o % 64) as u64;
                    assert(k * 64 + j == o);
                    assert(0 <= k < n);
                    assert(word_bit(self.bitmap@[k], j) == shifted_mark(old_bm, k * 64 + j, d));
                }
            }
        }
    }

    /// Makes the marks relative to the new top `new_top`, above `highest`:
    /// marks relative to `highest` move `new_top - highest` positions away
    /// from the top; other marks are forgotten.
    pub fn advance(&mut self, highest: u64, new_top: u64)
        requires
            highest < new_top,
        ensures
            final(self).size() == old(self).size(),
            final(self).words() == old(self).words(),
            final(self).top() == new_top,
            forall|o: nat| #[trigger] final(self).is_marked(o) == (o < 64 * old(self).words()
                && o >= new_top - highest && replay_marked(*old(self), highest, (o - (new_top - highest)) as nat)),
    {
        let d = new_top - highest;
        let ghost w0 = *self;
        if self.top == highest {
            self.shift_marks(d);
        } else {
            self.reset();
        }
        let ghost mid = *self;
        self.top = new_top;
        assert forall|o: nat| #[trigger] self.is_marked(o) == (o < 64 * w0.words()
            && o >= new_top - highest && replay_marked(w0, highest, (o - (new_top - highest)) as nat)) by {
            assert(self.is_marked(o) == mid.is_marked(o));
        }
    }

    /// Checks `seq` against the highest sequence number `highest` and marks
    /// it received (see `replay_step`). A number above `highest` passes
    /// without change. Otherwise the marks are kept only if they were
    /// relative to `highest` already; the number passes when it is inside
    /// the window and not yet marked, and is then marked.
    pub fn check_and_mark(&mut self, seq: u64, highest: u64) -> (r: bool)
        ensures
            replay_step(*old(self), seq, highest, r, *final(self)),
    {
        if seq > highest {
            return true;
        }
        if highest != self.top {
            self.top = highest;
            self.reset();
        }
        let ghost base = *self;
        assert forall|o: nat| #[trigger] base.is_marked(o) == replay_marked(*old(self), highest, o) by {}
        let offset = highest - seq;
        if offset >= self.window_size {
            return false;
        }
        if offset / 64 >= self.bitmap.len() as u64 {
            return false;
        }
        let word = (offset / 64) as usize;
        let bit = offset % 64;
        let mask = 1u64 << bit;
        proof { lemma_bit_test(self.bitmap@[word as int], bit); }
        if self.bitmap[word] & mask != 0 {
            assert(base.is_marked(offset as nat));
            return false;
        }
        assert(!base.is_marked(offset as nat));
        let w = self.bitmap[word] | mask;
        self.bitmap.set(word, w);
        proof {
            assert forall|o: nat| self.is_marked(o) == (base.is_marked(o) || o == offset) by {
                if o < 64 * self.bitmap@.len() {
                    lemma_bit_set(base.bitmap@[word as int], bit, (o % 64) as u64);
                    if o / 64 == word as nat && o % 64 == bit as nat {
                        assert(o == offset);
                    }
                    if o == offset {
                        assert(o / 64 == word as nat && o % 64 == bit as nat);
                    }
                }
            }
            assert forall|o: nat| #[trigger] self.is_marked(o)
                == (replay_marked(*old(self), highest, o) || o == highest - seq) by {
                assert(base.is_marked(o) == replay_marked(*old(self), highest, o));
            }
        }
        true
    }
}

/// Whether the sequence number `o` below `highest` counts as received in
/// `w` when checked against `highest`: marks relative to another top count
/// for nothing.
pub open spec fn replay_marked(w: ReplayWindow, highest: u64, o: nat) -> bool {
    w.top() == highest && w.is_marked(o)
}

/// Whether `check_and_mark(seq, highest)` passes on `w`.
pub open spec fn replay_accepts(w: ReplayWindow, seq: u64, highest: u64) -> bool {
    seq > highest || ({
        let o = (highest - seq) as nat;
        o < w.size() && o < 64 * w.words() && !replay_marked(w, highest, o)
    })
}

/// One call of `check_and_mark(seq, highest)` on `w0` gives `r` and leaves `w1`.
pub open spec fn replay_step(w0: ReplayWindow, seq: u64, highest: u64, r: bool, w1: ReplayWindow) -> bool {
    &&& r == replay_accepts(w0, seq, highest)
    &&& seq > highest ==> w1 == w0
    &&& seq <= highest ==> {
        &&& w1.top() == highest
        &&& w1.size() == w0.size()
        &&& w1.words() == w0.words()
        &&& forall|o: nat| #[trigger] w1.is_marked(o) == (replay_marked(w0, highest, o) || (r && o == highest - seq))
    }
}

/// Replay protection: a sequence number not above the highest one that
/// passed once is refused when checked again against the same highest.
pub proof fn lemma_replay_refused(w0: ReplayWindow, w1: ReplayWindow, w2: ReplayWindow, seq: u64, highest: u64,
    r1: bool, r2: bool)
    requires
        seq <= highest,
        replay_step(w0, seq, highest, r1, w1),
        replay_step(w1, seq, highest, r2, w2),
        r1,
    ensures
        !r2,
{
    assert(w1.is_marked((highest - seq) as nat));
}

/// A security association and its state.
#[derive(Debug, Clone)]
pub struct SecurityAssociation {
    pub direction: SaDirection,
    pub spi: u32,
    pub src_addr: IpAddr,
    pub dst_addr: IpAddr,
    pub protocol: IpsecProtocol,
    pub mode: IpsecMode,
    pub state: SaState,
    /// Next sequence number to send.
    pub tx_sequence: u64,
    /// Highest sequence number received.
    pub rx_sequence: u64,
    pub replay_window: ReplayWindow,
    pub cipher: Option<CipherTransform>,
    pub cipher_key: Option<Vec<u8>>,
    pub auth: AuthTransform,
    pub auth_key: Vec<u8>,
    /// Creation time in milliseconds.
    pub created_ms: u64,
    /// Lifetime in seconds.
    pub lifetime_secs: u64,
    pub bytes_processed: u64,
    pub packets_processed: u64,
    pub tunnel_src_addr: Option<IpAddr>,
    pub tunnel_dst_addr: Option<IpAddr>,
}

/// Milliseconds from `since` to `now`, 0 when `now` is earlier.
pub open spec fn millis_since(now: u64, since: u64) -> nat {
    if now >= since { (now - since) as nat } else { 0 }
}

impl SecurityAssociation {
    /// Whether the association has lived its lifetime at `now`.
    pub open spec fn spec_expired(&self, now_ms: u64) -> bool {
        millis_since(now_ms, self.created_ms) >= self.lifetime_secs * 1000
    }

    /// A mature association created at `now_ms`, with sequence numbers
    /// starting at 1, a 64-number replay window, no keys and no tunnel.
    pub fn new(direction: SaDirection, spi: u32, src_addr: IpAddr, dst_addr: IpAddr, protocol: IpsecProtocol,
        mode: IpsecMode, cipher: Option<CipherTransform>, auth: AuthTransform, lifetime_secs: u64, now_ms: u64) -> (r: Self)
        ensures
            r.direction == direction,
            r.spi == spi,
            r.src_addr == src_addr,
            r.dst_addr == dst_addr,
            r.protocol == protocol,
            r.mode == mode,
            r.state == SaState::Mature,
            r.tx_sequence == 1,
            r.rx_sequence == 0,
            r.replay_window.size() == 64,
            r.replay_window.words() == 1,
            r.replay_window.top() == 0,
            forall|o: nat| !r.replay_window.is_marked(o),
            r.cipher == cipher,
            r.cipher_key is None,
            r.auth == auth,
            r.auth_key@.len() == 0,
            r.created_ms == now_ms,
            r.lifetime_secs == lifetime_secs,
            r.bytes_processed == 0,
            r.packets_processed == 0,
            r.tunnel_src_addr is None,
            r.tunnel_dst_addr is None,
    {
        SecurityAssociation {
            direction,
            spi,
            src_addr,
            dst_addr,
            protocol,
            mode,
            state: SaState::Mature,
            tx_sequence: 1,
            rx_sequence: 0,
            replay_window: ReplayWindow::new(64),
            cipher,
            cipher_key: None,
            auth,
            auth_key: Vec::new(),
            created_ms: now_ms,
            lifetime_secs,
            bytes_processed: 0,
            packets_processed: 0,
            tunnel_src_addr: None,
            tunnel_dst_addr: None,
        }
    }

    /// The association with these keys.
    pub fn with_keys(self, cipher_key: Option<Vec<u8>>, auth_key: Vec<u8>) -> (r: Self)
        ensures
            r == (SecurityAssociation { cipher_key, auth_key, ..self }),
    {
        let mut s = self;
        s.cipher_key = cipher_key;
        s.auth_key = auth_key;
        s
    }

    /// The association with these tunnel end points.
    pub fn with_tunnel(self, tunnel_src: Option<IpAddr>, tunnel_dst: Option<IpAddr>) -> (r: Self)
        ensures
            r == (SecurityAssociation { tunnel_src_addr: tunnel_src, tunnel_dst_addr: tunnel_dst, ..self }),
    {
        let mut s = self;
        s.tunnel_src_addr = tunnel_src;
        s.tunnel_dst_addr = tunnel_dst;
        s
    }

    /// Whether the association has lived its lifetime at `now_ms`.
    pub fn is_expired(&self, now_ms: u64) -> (r: bool)
        ensures
            r == self.spec_expired(now_ms),
    {
        let age: u64 = if now_ms >= self.created_ms { now_ms - self.created_ms } else { 0 };
        (age as u128) >= (self.lifetime_secs as u128) * 1000
    }

    /// Whether the association has lived nine tenths of its lifetime at
    /// `now_ms` but not all of it.
    pub fn is_dying(&self, now_ms: u64) -> (r: bool)
        requires
            self.lifetime_secs <= u64::MAX / 9,
        ensures
            r == (millis_since(now_ms, self.created_ms) >= self.lifetime_secs * 900 && !self.spec_expired(now_ms)),
    {
        let age: u64 = if now_ms >= self.created_ms { now_ms - self.created_ms } else { 0 };
        (age as u128) >= (self.lifetime_secs as u128) * 900 && !self.is_expired(now_ms)
    }

    /// Checks a received sequence number. One above the highest so far
    /// becomes the highest: the window slides up to it, keeping the marks of
    /// the numbers still within it, and the number itself is marked; it
    /// passes. Any other is checked in the window against the highest and
    /// marked when it passes.
    pub fn check_replay(&mut self, seq: u64) -> (r: bool)
        ensures
            replay_call(*old(self), seq, r, *final(self)),
    {
        if seq > self.rx_sequence {
            let highest = self.rx_sequence;
            self.replay_window.advance(highest, seq);
            let _ = self.replay_window.check_and_mark(seq, seq);
            self.rx_sequence = seq;
            true
        } else {
            let highest = self.rx_sequence;
            self.replay_window.check_and_mark(seq, highest)
        }
    }

    /// Returns the next sequence number to send and advances it.
    pub fn next_sequence(&mut self) -> (r: u64)
        requires
            old(self).tx_sequence < u64::MAX,
        ensures
            r == old(self).tx_sequence,
            *final(self) == (SecurityAssociation { tx_sequence: (old(self).tx_sequence + 1) as u64, ..*old(self) }),
    {
        let seq = self.tx_sequence;
        self.tx_sequence = self.tx_sequence + 1;
        seq
    }
}

/// One call of `check_replay(seq)` on `a0` gives `r` and leaves `a1`: only
/// the highest number and the window change. A number above the highest
/// passes and becomes the highest, the marks move up by the difference and
/// the number itself is marked (when the window has room); any other is
/// checked and marked as `replay_step` says.
pub open spec fn replay_call(a0: SecurityAssociation, seq: u64, r: bool, a1: SecurityAssociation) -> bool {
    &&& a1 == (SecurityAssociation { rx_sequence: a1.rx_sequence, replay_window: a1.replay_window, ..a0 })
    &&& a1.replay_window.size() == a0.replay_window.size()
    &&& a1.replay_window.words() == a0.replay_window.words()
    &&& if seq > a0.rx_sequence {
        let d = seq - a0.rx_sequence;
        &&& r
        &&& a1.rx_sequence == seq
        &&& a1.replay_window.top() == seq
        &&& forall|o: nat| #[trigger] a1.replay_window.is_marked(o) == (
            (o == 0 && 0 < a0.replay_window.size() && 0 < a0.replay_window.words())
            || (o < 64 * a0.replay_window.words() && o >= d
                && replay_marked(a0.replay_window, a0.rx_sequence, (o - d) as nat)))
    } else {
        &&& a1.rx_sequence == a0.rx_sequence
        &&& replay_step(a0.replay_window, seq, a0.rx_sequence, r, a1.replay_window)
    }
}

/// Whether `a` refuses `seq` for good: it is not above the highest, and it
/// is either marked or outside the window.
pub open spec fn sa_refuses(a: SecurityAssociation, seq: u64) -> bool {
    seq <= a.rx_sequence && ({
        let o = (a.rx_sequence - seq) as nat;
        o >= a.replay_window.size() || o >= 64 * a.replay_window.words()
            || replay_marked(a.replay_window, a.rx_sequence, o)
    })
}

/// A number that passes is refused from then on.
pub proof fn lemma_accepted_then_refused(a0: SecurityAssociation, seq: u64, a1: SecurityAssociation)
    requires
        replay_call(a0, seq, true, a1),
    ensures
        sa_refuses(a1, seq),
{
    if seq > a0.rx_sequence {
        if 0 < a1.replay_window.size() && 0 < a1.replay_window.words() {
            assert(a1.replay_window.is_marked(0));
        }
    } else {
        assert(a1.replay_window.is_marked((a0.rx_sequence - seq) as nat));
    }
}

/// A number refused for good stays refused whatever number is checked next.
pub proof fn lemma_refusal_kept(a0: SecurityAssociation, seq: u64, t: u64, r: bool, a1: SecurityAssociation)
    requires
        sa_refuses(a0, seq),
        replay_call(a0, t, r, a1),
    ensures
        sa_refuses(a1, seq),
{
    let o = (a0.rx_sequence - seq) as nat;
    if t > a0.rx_sequence {
        let d = t - a0.rx_sequence;
        let o1 = (a1.rx_sequence - seq) as nat;
        assert(o1 == o + d);
        if o1 < a1.replay_window.size() && o1 < 64 * a1.replay_window.words() {
            assert(replay_marked(a0.replay_window, a0.rx_sequence, o));
            assert((o1 - d) as nat == o);
            assert(a1.replay_window.is_marked(o1));
        }
    } else {
        if o < a1.replay_window.size() && o < 64 * a1.replay_window.words() {
            assert(replay_marked(a0.replay_window, a0.rx_sequence, o));
            assert(a1.replay_window.is_marked(o));
        }
    }
}

/// A number refused for good is refused when checked.
pub proof fn lemma_refused_fails(a0: SecurityAssociation, seq: u64, r: bool, a1: SecurityAssociation)
    requires
        sa_refuses(a0, seq),
        replay_call(a0, seq, r, a1),
    ensures
        !r,
{
}

/// A number refused for good at `states[i]` is still refused at `states[j]`.
proof fn lemma_refusal_kept_along(states: Seq<SecurityAssociation>, seqs: Seq<u64>, results: Seq<bool>, seq: u64,
    i: int, j: int)
    requires
        states.len() == seqs.len() + 1,
        results.len() == seqs.len(),
        forall|m: int| 0 <= m < seqs.len() ==> replay_call(states[m], #[trigger] seqs[m], results[m], states[m + 1]),
        0 <= i <= j < states.len(),
        sa_refuses(states[i], seq),
    ensures
        sa_refuses(states[j], seq),
    decreases j - i,
{
    if i < j {
        assert(replay_call(states[i], seqs[i], results[i], states[i + 1]));
        lemma_refusal_kept(states[i], seq, seqs[i], results[i], states[i + 1]);
        lemma_refusal_kept_along(states, seqs, results, seq, i + 1, j);
    }
}

/// Anti-replay: over any run of `check_replay` calls on an association,
/// where `states[i + 1]` and `results[i]` come from checking `seqs[i]` on
/// `states[i]`, a sequence number that passed once never passes again.
pub proof fn lemma_accepted_at_most_once(states: Seq<SecurityAssociation>, seqs: Seq<u64>, results: Seq<bool>,
    k: int, j: int)
    requires
        states.len() == seqs.len() + 1,
        results.len() == seqs.len(),
        forall|i: int| 0 <= i < seqs.len() ==> replay_call(states[i], #[trigger] seqs[i], results[i], states[i + 1]),
        0 <= k < j < seqs.len(),
        results[k],
        seqs[j] == seqs[k],
    ensures
        !results[j],
{
    assert(replay_call(states[k], seqs[k], results[k], states[k + 1]));
    lemma_accepted_then_refused(states[k], seqs[k], states[k + 1]);
    lemma_refusal_kept_along(states, seqs, results, seqs[k], k + 1, j);
    assert(replay_call(states[j], seqs[j], results[j], states[j + 1]));
    lemma_refused_fails(states[j], seqs[k], results[j], states[j + 1]);
}

/// What a policy does with matching traffic.
#[derive(Debug, Clone, Copy, PartialEq, Eq, Structural)]
pub enum PolicyAction {
    Discard,
    Bypass,
    Apply,
}

/// Which traffic a policy covers: optional addresses and an upper-layer
/// protocol (0 for any). The port ranges are kept but not compared.
#[derive(Debug, Clone, Copy, PartialEq, Eq)]
pub struct TrafficSelector {
    pub src_addr: Option<IpAddr>,
    pub dst_addr: Option<IpAddr>,
    pub upper_layer_protocol: u8,
    pub src_port_range: (u16, u16),
    pub dst_port_range: (u16, u16),
}

impl TrafficSelector {
    /// Whether the selector covers traffic from `src` to `dst` of protocol `proto`.
    pub open spec fn selects(self, src: IpAddr, dst: IpAddr, proto: u8) -> bool {
        &&& self.upper_layer_protocol == 0 || self.upper_layer_protocol == proto
        &&& self.src_addr matches Some(a) ==> a.same_as(src)
        &&& self.dst_addr matches Some(a) ==> a.same_as(dst)
    }

    /// A selector with any ports.
    pub fn new(src_addr: Option<IpAddr>, dst_addr: Option<IpAddr>, upper_layer_protocol: u8) -> (r: Self)
        ensures
            r == (TrafficSelector { src_addr, dst_addr, upper_layer_protocol, src_port_range: (0, 0), dst_port_range: (0, 0) }),
    {
        TrafficSelector { src_addr, dst_addr, upper_layer_protocol, src_port_range: (0, 0), dst_port_range: (0, 0) }
    }

    /// The selector with these port ranges.
    pub fn with_ports(self, src_port: (u16, u16), dst_port: (u16, u16)) -> (r: Self)
        ensures
            r == (TrafficSelector { src_port_range: src_port, dst_port_range: dst_port, ..self }),
    {
        let mut s = self;
        s.src_port_range = src_port;
        s.dst_port_range = dst_port;
        s
    }

    /// Whether the selector covers this traffic (see `selects`).
    pub fn matches(&self, src: IpAddr, dst: IpAddr, proto: u8) -> (r: bool)
        ensures
            r == self.selects(src, dst, proto),
    {
        if self.upper_layer_protocol != 0 && self.upper_layer_protocol != proto {
            return false;
        }
        if let Some(a) = &self.src_addr {
            if !a.equals(&src) {
                return false;
            }
        }
        if let Some(a) = &self.dst_addr {
            if !a.equals(&dst) {
                return false;
            }
        }
        true
    }
}

/// A security policy; a smaller priority number comes first.
#[derive(Debug, Clone)]
pub struct SecurityPolicy {
    pub selector: TrafficSelector,
    pub action: PolicyAction,
    pub priority: u32,
    /// SPI of the association to apply.
    pub sa_ref: Option<u32>,
}

impl SecurityPolicy {
    pub fn new(selector: TrafficSelector, action: PolicyAction, priority: u32) -> (r: Self)
        ensures
            r == (SecurityPolicy { selector, action, priority, sa_ref: None }),
    {
        SecurityPolicy { selector, action, priority, sa_ref: None }
    }

    /// The policy referring to the association `spi`.
    pub fn with_sa(self, spi: u32) -> (r: Self)
        ensures
            r == (SecurityPolicy { sa_ref: Some(spi), ..self }),
    {
        let mut s = self;
        s.sa_ref = Some(spi);
        s
    }
}

/// An entry of the association database.
pub type SadEntry = SecurityAssociation;

/// An entry of the policy database.
pub type SpdEntry = SecurityPolicy;

/// Key of an association: SPI, destination address, protocol.
pub type SaKey = (u32, IpAddr, IpsecProtocol);

/// Whether two keys name the same association.
pub open spec fn same_sa_key(a: SaKey, b: SaKey) -> bool {
    a.0 == b.0 && a.1.same_as(b.1) && a.2 == b.2
}

/// Position of the association for `key`.
pub open spec fn sa_index(s: Seq<(SaKey, SecurityAssociation)>, key: SaKey) -> Option<nat>
    decreases s.len(),
{
    if s.len() == 0 {
        None
    } else if same_sa_key(s[0].0, key) {
        Some(0)
    } else {
        match sa_index(s.drop_first(), key) {
            Some(i) => Some(i + 1),
            None => None,
        }
    }
}

pub proof fn lemma_sa_index(s: Seq<(SaKey, SecurityAssociation)>, key: SaKey)
    ensures
        sa_index(s, key) matches Some(i) ==> i < s.len() && same_sa_key(s[i as int].0, key)
            && forall|j: int| 0 <= j < i ==> !same_sa_key((#[trigger] s[j]).0, key),
        sa_index(s, key) is None ==> forall|j: int| 0 <= j < s.len() ==> !same_sa_key((#[trigger] s[j]).0, key),
    decreases s.len(),
{
    if s.len() > 0 && !same_sa_key(s[0].0, key) {
        lemma_sa_index(s.drop_first(), key);
        assert forall|j: int| 0 < j < s.len() implies #[trigger] s[j] == s.drop_first()[j - 1] by {}
    }
}

proof fn lemma_sa_index_at(s: Seq<(SaKey, SecurityAssociation)>, key: SaKey, i: int)
    requires
        0 <= i < s.len(),
        same_sa_key(s[i].0, key),
        forall|j: int| 0 <= j < i ==> !same_sa_key((#[trigger] s[j]).0, key),
    ensures
        sa_index(s, key) == Some(i as nat),
{
    lemma_sa_index(s, key);
    match sa_index(s, key) {
        Some(k) => {
            if (k as int) < i { assert(!same_sa_key(s[k as int].0, key)); }
            if (k as int) > i { assert(!same_sa_key(s[i].0, key)); }
        },
        None => { assert(!same_sa_key(s[i].0, key)); },
    }
}

proof fn lemma_sa_absent(s: Seq<(SaKey, SecurityAssociation)>, key: SaKey)
    requires
        forall|j: int| 0 <= j < s.len() ==> !same_sa_key((#[trigger] s[j]).0, key),
    ensures
        sa_index(s, key) is None,
{
    lemma_sa_index(s, key);
    if let Some(k) = sa_index(s, key) {
        assert(!same_sa_key(s[k as int].0, key));
    }
}

/// The key under which an association is stored.
pub open spec fn key_of_sa(sa: SecurityAssociation) -> SaKey {
    (sa.spi, sa.dst_addr, sa.protocol)
}

/// The entries after adding `sa`: it replaces the one with its key, or
/// comes last.
pub open spec fn sad_after_add(s: Seq<(SaKey, SecurityAssociation)>, sa: SecurityAssociation) -> Seq<(SaKey, SecurityAssociation)> {
    match sa_index(s, key_of_sa(sa)) {
        Some(i) => s.update(i as int, (s[i as int].0, sa)),
        None => s.push((key_of_sa(sa), sa)),
    }
}

/// The association database: at most one association per key, in the
/// order they were added.
#[derive(Debug)]
pub struct SadManager {
    keys: Vec<SaKey>,
    values: Vec<SadEntry>,
}

impl SadManager {
    /// The entries with their keys.
    pub closed spec fn spec_entries(&self) -> Seq<(SaKey, SecurityAssociation)> {
        Seq::new(self.keys@.len(), |i: int| (self.keys@[i], self.values@[i]))
    }

    /// Well-formedness: one entry per key.
    pub closed spec fn wf(&self) -> bool {
        &&& self.keys@.len() == self.values@.len()
        &&& forall|i: int, j: int| 0 <= i < j < self.keys@.len()
            ==> !same_sa_key(#[trigger] self.keys@[i], #[trigger] self.keys@[j])
    }

    /// An empty database.
    pub fn new() -> (r: Self)
        ensures
            r.wf(),
            r.spec_entries().len() == 0,
    {
        let r = SadManager { keys: Vec::new(), values: Vec::new() };
        assert(r.spec_entries() =~= Seq::<(SaKey, SecurityAssociation)>::empty());
        r
    }

    /// Position of the entry for `key`.
    fn find(&self, spi: u32, dst_addr: &IpAddr, protocol: IpsecProtocol) -> (r: Option<usize>)
        requires
            self.wf(),
        ensures
            r matches Some(i) ==> sa_index(self.spec_entries(), (spi, *dst_addr, protocol)) == Some(i as nat)
                && i < self.spec_entries().len(),
            r is None ==> sa_index(self.spec_entries(), (spi, *dst_addr, protocol)) is None,
    {
        let ghost s = self.spec_entries();
        let ghost key = (spi, *dst_addr, protocol);
        let mut i: usize = 0;
        while i < self.keys.len()
            invariant
                i <= s.len(),
                self.wf(),
                s == self.spec_entries(),
                key == (spi, *dst_addr, protocol),
                forall|j: int| 0 <= j < i ==> !same_sa_key((#[trigger] s[j]).0, key),
            decreases s.len() - i,
        {
            let k = &self.keys[i];
            assert(s[i as int].0 == *k);
            if k.0 == spi && k.1.equals(dst_addr) && k.2 == protocol {
                proof { lemma_sa_index_at(s, key, i as int); }
                return Some(i);
            }
            i = i + 1;
        }
        proof { lemma_sa_absent(s, key); }
        None
    }

    /// Adds `sa` under its SPI, destination and protocol, replacing the
    /// association stored there.
    pub fn add(&mut self, sa: SadEntry) -> (r: Result<(), IpsecError>)
        requires
            old(self).wf(),
        ensures
            final(self).wf(),
            r is Ok,
            final(self).spec_entries() == sad_after_add(old(self).spec_entries(), sa),
    {
        let ghost s = self.spec_entries();
        let ghost key = key_of_sa(sa);
        proof { lemma_sa_index(s, key); }
        match self.find(sa.spi, &sa.dst_addr, sa.protocol) {
            Some(i) => {
                let mut v = sa;
                std::mem::swap(&mut v, &mut self.values[i]);
                assert(self.spec_entries() =~= sad_after_add(s, sa));
            },
            None => {
                let key_exec: SaKey = (sa.spi, sa.dst_addr, sa.protocol);
                self.keys.push(key_exec);
                self.values.push(sa);
                assert(self.spec_entries() =~= sad_after_add(s, sa));
                let ghost k = self.keys@;
                assert forall|a: int, b: int| 0 <= a < b < k.len() implies !same_sa_key(#[trigger] k[a], #[trigger] k[b]) by {
                    if b < s.len() {
                        assert(k[a] == s[a].0 && k[b] == s[b].0);
                    } else {
                        assert(k[a] == s[a].0);
                        assert(!same_sa_key(s[a].0, key));
                    }
                }
            },
        }
        Ok(())
    }

    /// The association for this SPI, destination and protocol.
    pub fn get(&self, spi: u32, dst_addr: IpAddr, protocol: IpsecProtocol) -> (r: Option<&SadEntry>)
        requires
            self.wf(),
        ensures
            match sa_index(self.spec_entries(), (spi, dst_addr, protocol)) {
                Some(i) => r == Some(&self.spec_entries()[i as int].1),
                None => r is None,
            },
    {
        match self.find(spi, &dst_addr, protocol) {
            Some(i) => Some(&self.values[i]),
            None => None,
        }
    }

    /// The association for this SPI, destination and protocol, to change in place.
    pub fn get_mut(&mut self, spi: u32, dst_addr: IpAddr, protocol: IpsecProtocol) -> (r: Option<&mut SadEntry>)
        requires
            old(self).wf(),
        ensures
            match sa_index(old(self).spec_entries(), (spi, dst_addr, protocol)) {
                Some(i) => r matches Some(e) && *e == old(self).spec_entries()[i as int].1
                    && final(self).spec_entries() =~= old(self).spec_entries().update(i as int,
                        (old(self).spec_entries()[i as int].0, *final(e)))
                    && final(self).wf(),
                None => r is None && final(self).wf() && final(self).spec_entries() == old(self).spec_entries(),
            },
    {
        match self.find(spi, &dst_addr, protocol) {
            Some(i) => Some(&mut self.values[i]),
            None => None,
        }
    }

    /// Removes the entry at `i`.
    fn remove_at(&mut self, i: usize) -> (r: SadEntry)
        requires
            old(self).wf(),
            i < old(self).spec_entries().len(),
        ensures
            final(self).wf(),
            final(self).spec_entries() == old(self).spec_entries().remove(i as int),
            r == old(self).spec_entries()[i as int].1,
    {
        let ghost s = self.spec_entries();
        self.keys.remove(i);
        let e = self.values.remove(i);
        assert(self.spec_entries() =~= s.remove(i as int));
        let ghost k = self.keys@;
        assert forall|a: int, b: int| 0 <= a < b < k.len() implies !same_sa_key(#[trigger] k[a], #[trigger] k[b]) by {
            let a2 = if a < i { a } else { a + 1 };
            let b2 = if b < i { b } else { b + 1 };
            assert(k[a] == old(self).keys@[a2] && k[b] == old(self).keys@[b2]);
        }
        e
    }

    /// Removes and returns the association for this SPI, destination and protocol.
    pub fn remove(&mut self, spi: u32, dst_addr: IpAddr, protocol: IpsecProtocol) -> (r: Option<SadEntry>)
        requires
            old(self).wf(),
        ensures
            final(self).wf(),
            match sa_index(old(self).spec_entries(), (spi, dst_addr, protocol)) {
                Some(i) => r == Some(old(self).spec_entries()[i as int].1)
                    && final(self).spec_entries() == old(self).spec_entries().remove(i as int),
                None => r is None && final(self).spec_entries() == old(self).spec_entries(),
            },
    {
        match self.find(spi, &dst_addr, protocol) {
            Some(i) => Some(self.remove_at(i)),
            None => None,
        }
    }

    /// All associations.
    pub fn all(&self) -> (r: &[SadEntry])
        requires
            self.wf(),
        ensures
            r@ == self.spec_entries().map_values(|p: (SaKey, SecurityAssociation)| p.1),
    {
        assert(self.values@ =~= self.spec_entries().map_values(|p: (SaKey, SecurityAssociation)| p.1));
        self.values.as_slice()
    }

    /// Removes the associations that have lived their lifetime at `now_ms`.
    pub fn cleanup_expired(&mut self, now_ms: u64)
        requires
            old(self).wf(),
        ensures
            final(self).wf(),
            final(self).spec_entries() == old(self).spec_entries().filter(
                |p: (SaKey, SecurityAssociation)| !p.1.spec_expired(now_ms)),
    {
        let ghost m = self.spec_entries();
        let ghost keep = |p: (SaKey, SecurityAssociation)| !p.1.spec_expired(now_ms);
        let mut i: usize = 0;
        let mut j: usize = 0;
        let _n = self.keys.len();
        assert(m.take(0).filter(keep) + m.skip(0) =~= m);
        while i < self.keys.len()
            invariant
                j <= m.len(),
                m.len() <= usize::MAX,
                i == m.take(j as int).filter(keep).len(),
                self.spec_entries() == m.take(j as int).filter(keep) + m.skip(j as int),
                self.wf(),
                keep == (|p: (SaKey, SecurityAssociation)| !p.1.spec_expired(now_ms)),
            decreases m.len() - j,
        {
            reveal_with_fuel(Seq::<_>::filter, 1);
            let ghost before = self.spec_entries();
            let ghost kept = m.take(j as int).filter(keep);
            assert(m.take(j + 1).drop_last() =~= m.take(j as int));
            assert(before[i as int] == m[j as int]);
            if self.values[i].is_expired(now_ms) {
                self.remove_at(i);
                assert(!keep(m[j as int]));
                assert(m.take(j + 1).filter(keep) == kept);
                assert(self.spec_entries() =~= m.take(j + 1).filter(keep) + m.skip(j + 1));
            } else {
                assert(m.take(j + 1).filter(keep) =~= kept.push(m[j as int]));
                assert(self.spec_entries() =~= m.take(j + 1).filter(keep) + m.skip(j + 1));
                i = i + 1;
            }
            j = j + 1;
        }
        assert(m.take(j as int) =~= m);
    }

    /// Number of associations.
    pub fn len(&self) -> (r: usize)
        requires
            self.wf(),
        ensures
            r == self.spec_entries().len(),
    {
        self.keys.len()
    }
}

impl Default for SadManager {
    fn default() -> (r: Self)
        ensures
            r.wf(),
            r.spec_entries().len() == 0,
    {
        Self::new()
    }
}

/// Adding an association and looking up its key gives it back.
pub proof fn lemma_sad_add_then_get(s: Seq<(SaKey, SecurityAssociation)>, sa: SecurityAssociation)
    ensures
        sa_index(sad_after_add(s, sa), key_of_sa(sa)) matches Some(i) && sad_after_add(s, sa)[i as int].1 == sa,
{
    let key = key_of_sa(sa);
    let t = sad_after_add(s, sa);
    lemma_sa_index(s, key);
    match sa_index(s, key) {
        Some(i) => {
            assert forall|j: int| 0 <= j < i implies !same_sa_key((#[trigger] t[j]).0, key) by {
                assert(t[j] == s[j]);
            }
            lemma_sa_index_at(t, key, i as int);
        },
        None => {
            assert forall|j: int| 0 <= j < s.len() implies !same_sa_key((#[trigger] t[j]).0, key) by {
                assert(t[j] == s[j]);
            }
            assert(same_sa_key(t[s.len() as int].0, key));
            lemma_sa_index_at(t, key, s.len() as int);
        },
    }
}

/// Adding an association leaves the lookup of every other key unchanged.
pub proof fn lemma_sad_add_keeps_others(s: Seq<(SaKey, SecurityAssociation)>, sa: SecurityAssociation, key: SaKey)
    requires
        !same_sa_key(key_of_sa(sa), key),
    ensures
        sa_index(sad_after_add(s, sa), key) == sa_index(s, key),
        sa_index(s, key) matches Some(i) ==> sad_after_add(s, sa)[i as int] == s[i as int],
{
    let t = sad_after_add(s, sa);
    lemma_sa_index(s, key);
    lemma_sa_index(s, key_of_sa(sa));
    assert(forall|a: SaKey, b: SaKey| same_sa_key(a, b) ==> same_sa_key(b, a));
    match sa_index(s, key) {
        Some(i) => {
            assert(t[i as int] == s[i as int]);
            assert forall|j: int| 0 <= j < i implies !same_sa_key((#[trigger] t[j]).0, key) by {
                if t[j] != s[j] {
                    assert(t[j].1 == sa && t[j].0 == s[j].0);
                }
            }
            lemma_sa_index_at(t, key, i as int);
        },
        None => {
            assert forall|j: int| 0 <= j < t.len() implies !same_sa_key((#[trigger] t[j]).0, key) by {
                if j < s.len() {
                    assert(t[j].0 == s[j].0);
                }
            }
            lemma_sa_absent(t, key);
        },
    }
}

/// Removing the association for a key leaves none for it in a
/// well-formed database.
pub proof fn lemma_sad_remove_then_get(s: Seq<(SaKey, SecurityAssociation)>, key: SaKey)
    requires
        forall|i: int, j: int| 0 <= i < j < s.len() ==> !same_sa_key(#[trigger] s[i].0, #[trigger] s[j].0),
    ensures
        sa_index(s, key) matches Some(i) ==> sa_index(s.remove(i as int), key) is None,
{
    lemma_sa_index(s, key);
    if let Some(i) = sa_index(s, key) {
        let t = s.remove(i as int);
        assert forall|j: int| 0 <= j < t.len() implies !same_sa_key((#[trigger] t[j]).0, key) by {
            let j2 = if j < i { j } else { j + 1 };
            assert(t[j] == s[j2]);
            if same_sa_key(s[j2].0, key) {
                assert(same_sa_key(s[i as int].0, key));
                if j2 < i {
                    assert(!same_sa_key(s[j2].0, s[i as int].0));
                } else {
                    assert(!same_sa_key(s[i as int].0, s[j2].0));
                }
            }
        }
        lemma_sa_absent(t, key);
    }
}

/// Position where a policy of priority `prio` goes: before the first of a
/// larger priority number, or last.
pub open spec fn spd_insert_pos(s: Seq<SecurityPolicy>, prio: u32) -> nat
    decreases s.len(),
{
    if s.len() == 0 {
        0
    } else if s[0].priority > prio {
        0
    } else {
        spd_insert_pos(s.drop_first(), prio) + 1
    }
}

/// A selector only covers the traffic it names: a named source address, a
/// named destination address or a nonzero protocol that differs from the
/// traffic's rules the traffic out; a selector naming nothing covers all
/// traffic, and one whose named fields all agree covers it.
pub proof fn lemma_selector_covers_named_traffic(sel: TrafficSelector, src: IpAddr, dst: IpAddr, proto: u8)
    ensures
        sel.src_addr matches Some(a) && !a.same_as(src) ==> !sel.selects(src, dst, proto),
        sel.dst_addr matches Some(a) && !a.same_as(dst) ==> !sel.selects(src, dst, proto),
        sel.upper_layer_protocol != 0 && sel.upper_layer_protocol != proto ==> !sel.selects(src, dst, proto),
        (sel.src_addr is None || sel.src_addr == Some(src)) && (sel.dst_addr is None || sel.dst_addr == Some(dst))
            && (sel.upper_layer_protocol == 0 || sel.upper_layer_protocol == proto) ==> sel.selects(src, dst, proto),
{
}

/// The policy a lookup finds covers the traffic: its selector's named
/// source, destination and protocol are those of the traffic, and no
/// earlier policy covers it.
pub proof fn lemma_spd_lookup_names_traffic(s: Seq<SecurityPolicy>, src: IpAddr, dst: IpAddr, proto: u8)
    ensures
        spd_first(s, |p: SecurityPolicy| p.selector.selects(src, dst, proto)) matches Some(i) ==> {
            let sel = s[i as int].selector;
            &&& i < s.len()
            &&& sel.src_addr matches Some(a) ==> a.same_as(src)
            &&& sel.dst_addr matches Some(a) ==> a.same_as(dst)
            &&& sel.upper_layer_protocol == 0 || sel.upper_layer_protocol == proto
        },
{
    lemma_spd_first(s, |p: SecurityPolicy| p.selector.selects(src, dst, proto));
    if let Some(i) = spd_first(s, |p: SecurityPolicy| p.selector.selects(src, dst, proto)) {
        lemma_selector_covers_named_traffic(s[i as int].selector, src, dst, proto);
    }
}

/// Position of the first policy satisfying `f`.
pub open spec fn spd_first(s: Seq<SecurityPolicy>, f: spec_fn(SecurityPolicy) -> bool) -> Option<nat>
    decreases s.len(),
{
    if s.len() == 0 {
        None
    } else if f(s[0]) {
        Some(0)
    } else {
        match spd_first(s.drop_first(), f) {
            Some(i) => Some(i + 1),
            None => None,
        }
    }
}

pub proof fn lemma_spd_first(s: Seq<SecurityPolicy>, f: spec_fn(SecurityPolicy) -> bool)
    ensures
        spd_first(s, f) matches Some(i) ==> i < s.len() && f(s[i as int])
            && forall|j: int| 0 <= j < i ==> !f(#[trigger] s[j]),
        spd_first(s, f) is None ==> forall|j: int| 0 <= j < s.len() ==> !f(#[trigger] s[j]),
    decreases s.len(),
{
    if s.len() > 0 && !f(s[0]) {
        lemma_spd_first(s.drop_first(), f);
        assert forall|j: int| 0 < j < s.len() implies #[trigger] s[j] == s.drop_first()[j - 1] by {}
    }
}

proof fn lemma_spd_first_at(s: Seq<SecurityPolicy>, f: spec_fn(SecurityPolicy) -> bool, i: int)
    requires
        0 <= i <= s.len(),
        i < s.len() ==> f(s[i]),
        forall|j: int| 0 <= j < i ==> !f(#[trigger] s[j]),
    ensures
        i < s.len() ==> spd_first(s, f) == Some(i as nat),
        i == s.len() ==> spd_first(s, f) is None,
{
    lemma_spd_first(s, f);
    match spd_first(s, f) {
        Some(k) => {
            if (k as int) < i { assert(!f(s[k as int])); }
            if (k as int) > i { assert(f(s[i])); }
        },
        None => { if i < s.len() { assert(!f(s[i])); } },
    }
}

pub proof fn lemma_spd_insert_pos(s: Seq<SecurityPolicy>, prio: u32)
    ensures
        spd_insert_pos(s, prio) <= s.len(),
        spd_insert_pos(s, prio) < s.len() ==> s[spd_insert_pos(s, prio) as int].priority > prio,
        forall|j: int| 0 <= j < spd_insert_pos(s, prio) ==> (#[trigger] s[j]).priority <= prio,
    decreases s.len(),
{
    if s.len() > 0 && s[0].priority <= prio {
        lemma_spd_insert_pos(s.drop_first(), prio);
        assert forall|j: int| 0 < j < s.len() implies #[trigger] s[j] == s.drop_first()[j - 1] by {}
    }
}

/// Whether the policies are in order of priority number.
pub open spec fn spd_sorted(s: Seq<SecurityPolicy>) -> bool {
    forall|i: int, j: int| 0 <= i < j < s.len() ==> (#[trigger] s[i]).priority <= (#[trigger] s[j]).priority
}

/// Adding a policy keeps the policies in order of priority number, and
/// after those of equal priority added before.
pub proof fn lemma_spd_add_sorted(s: Seq<SecurityPolicy>, p: SecurityPolicy)
    requires
        spd_sorted(s),
    ensures
        spd_sorted(s.insert(spd_insert_pos(s, p.priority) as int, p)),
{
    let k = spd_insert_pos(s, p.priority) as int;
    lemma_spd_insert_pos(s, p.priority);
    let t = s.insert(k, p);
    assert forall|i: int, j: int| 0 <= i < j < t.len() implies (#[trigger] t[i]).priority <= (#[trigger] t[j]).priority by {
        if j < k {
            assert(t[i] == s[i] && t[j] == s[j]);
        } else if j == k {
            assert(t[i] == s[i]);
        } else if i < k {
            assert(t[i] == s[i] && t[j] == s[j - 1]);
        } else if i == k {
            assert(t[j] == s[j - 1]);
            assert(s[k].priority > p.priority);
            assert(s[k].priority <= s[j - 1].priority || k == j - 1);
        } else {
            assert(t[i] == s[i - 1] && t[j] == s[j - 1]);
        }
    }
}

/// The policy database, in order of priority number.
#[derive(Debug)]
pub struct SpdManager {
    policies: Vec<SpdEntry>,
}

impl SpdManager {
    /// The policies in order.
    pub closed spec fn spec_policies(&self) -> Seq<SecurityPolicy> {
        self.policies@
    }

    /// An empty database.
    pub fn new() -> (r: Self)
        ensures
            r.spec_policies().len() == 0,
    {
        SpdManager { policies: Vec::new() }
    }

    /// Adds `policy` before the first policy of a larger priority number.
    pub fn add(&mut self, policy: SpdEntry)
        requires
            old(self).spec_policies().len() < usize::MAX,
        ensures
            final(self).spec_policies() == old(self).spec_policies().insert(
                spd_insert_pos(old(self).spec_policies(), policy.priority) as int, policy),
            spd_sorted(old(self).spec_policies()) ==> spd_sorted(final(self).spec_policies()),
    {
        let ghost s = self.policies@;
        let ghost prio = policy.priority;
        let mut pos: usize = 0;
        while pos < self.policies.len()
            invariant
                pos <= s.len(),
                self.policies@ == s,
                s == old(self).policies@,
                prio == policy.priority,
                forall|j: int| 0 <= j < pos ==> (#[trigger] s[j]).priority <= prio,
            ensures
                pos <= s.len(),
                self.policies@ == s,
                s == old(self).policies@,
                pos < s.len() ==> s[pos as int].priority > prio,
                forall|j: int| 0 <= j < pos ==> (#[trigger] s[j]).priority <= prio,
            decreases s.len() - pos,
        {
            if self.policies[pos].priority > policy.priority {
                break;
            }
            pos = pos + 1;
        }
        proof {
            lemma_spd_insert_pos(s, prio);
            let k = spd_insert_pos(s, prio) as int;
            if k < pos { assert(s[k].priority <= prio); }
            if (pos as int) < k { assert(s[pos as int].priority <= prio); }
            if spd_sorted(s) {
                lemma_spd_add_sorted(s, policy);
            }
        }
        self.policies.insert(pos, policy);
    }

    /// The first policy, in order, that covers this traffic.
    pub fn lookup(&self, src: IpAddr, dst: IpAddr, proto: u8) -> (r: Option<&SpdEntry>)
        ensures
            match spd_first(self.spec_policies(), |p: SecurityPolicy| p.selector.selects(src, dst, proto)) {
                Some(i) => r == Some(&self.spec_policies()[i as int]),
                None => r is None,
            },
    {
        let ghost f = |p: SecurityPolicy| p.selector.selects(src, dst, proto);
        let ghost s = self.policies@;
        let mut i: usize = 0;
        while i < self.policies.len()
            invariant
                i <= s.len(),
                self.policies@ == s,
                f == (|p: SecurityPolicy| p.selector.selects(src, dst, proto)),
                forall|j: int| 0 <= j < i ==> !f(#[trigger] s[j]),
            decreases s.len() - i,
        {
            if self.policies[i].selector.matches(src, dst, proto) {
                proof { lemma_spd_first_at(s, f, i as int); }
                return Some(&self.policies[i]);
            }
            i = i + 1;
        }
        proof { lemma_spd_first_at(s, f, i as int); }
        None
    }

    /// Removes and returns the first policy with this priority number.
    pub fn remove(&mut self, priority: u32) -> (r: Option<SpdEntry>)
        ensures
            match spd_first(old(self).spec_policies(), |p: SecurityPolicy| p.priority == priority) {
                Some(i) => r == Some(old(self).spec_policies()[i as int])
                    && final(self).spec_policies() == old(self).spec_policies().remove(i as int),
                None => r is None && final(self).spec_policies() == old(self).spec_policies(),
            },
            spd_sorted(old(self).spec_policies()) ==> spd_sorted(final(self).spec_policies()),
    {
        let ghost f = |p: SecurityPolicy| p.priority == priority;
        let ghost s = self.policies@;
        let mut i: usize = 0;
        while i < self.policies.len()
            invariant
                i <= s.len(),
                self.policies@ == s,
                f == (|p: SecurityPolicy| p.priority == priority),
                s == old(self).policies@,
                forall|j: int| 0 <= j < i ==> !f(#[trigger] s[j]),
            decreases s.len() - i,
        {
            if self.policies[i].priority == priority {
                proof { lemma_spd_first_at(s, f, i as int); }
                let p = self.policies.remove(i);
                proof {
                    let t = self.policies@;
                    assert(t =~= s.remove(i as int));
                    if spd_sorted(s) {
                        assert forall|a: int, b: int| 0 <= a < b < t.len() implies (#[trigger] t[a]).priority
                            <= (#[trigger] t[b]).priority by {
                            let a2 = if a < i { a } else { a + 1 };
                            let b2 = if b < i { b } else { b + 1 };
                            assert(t[a] == s[a2] && t[b] == s[b2]);
                        }
                    }
                }
                return Some(p);
            }
            i = i + 1;
        }
        proof { lemma_spd_first_at(s, f, i as int); }
        None
    }

    /// All policies in order.
    pub fn all(&self) -> (r: &[SpdEntry])
        ensures
            r@ == self.spec_policies(),
    {
        self.policies.as_slice()
    }

    /// Number of policies.
    pub fn len(&self) -> (r: usize)
        ensures
            r == self.spec_policies().len(),
    {
        self.policies.len()
    }
}

impl Default for SpdManager {
    fn default() -> (r: Self)
        ensures
            r.spec_policies().len() == 0,
    {
        Self::new()
    }
}

} // verus!
