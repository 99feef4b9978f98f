use vstd::prelude::*;
use crate::common::addr::IpAddr;
use crate::common::bytes::bytes_eq;
use crate::common::keyed::{ByteKey, KeyedVec, key_index, lookup, after_insert, after_remove, keys_unique, lemma_remove_contains};
use crate::protocols::common::addr::Ipv4Addr;
use super::types::{IkeDhGroup, IkeAuthMethod, IkeError};

verus! {

/// Eight zero bytes.
pub open spec fn zero_spi() -> Seq<u8> {
    Seq::new(8, |_i: int| 0u8)
}

fn is_zero_spi(s: &[u8]) -> (r: bool)
    ensures
        r == (s@ == zero_spi()),
{
    let z: [u8; 8] = [0u8; 8];
    assert(z@ =~= zero_spi());
    bytes_eq(s, &z)
}

/// Identifier of an IKE SA: both SPIs.
#[derive(Debug, Clone, Copy, PartialEq, Eq, Hash)]
pub struct IkeSaId {
    pub initiator_spi: [u8; 8],
    pub responder_spi: [u8; 8],
}

impl ByteKey for IkeSaId {
    open spec fn key_bytes(&self) -> Seq<u8> {
        self.initiator_spi@ + self.responder_spi@
    }

    fn same_key(&self, other: &Self) -> (r: bool) {
        let a = bytes_eq(&self.initiator_spi, &other.initiator_spi);
        let b = bytes_eq(&self.responder_spi, &other.responder_spi);
        proof {
            let x = self.key_bytes();
            let y = other.key_bytes();
            if x == y {
                assert(x.subrange(0, 8) =~= self.initiator_spi@);
                assert(y.subrange(0, 8) =~= other.initiator_spi@);
                assert(x.subrange(8, 16) =~= self.responder_spi@);
                assert(y.subrange(8, 16) =~= other.responder_spi@);
            }
        }
        a && b
    }
}

impl IkeSaId {
    pub fn new(initiator_spi: [u8; 8], responder_spi: [u8; 8]) -> (r: Self)
        ensures
            r == (IkeSaId { initiator_spi, responder_spi }),
    {
        IkeSaId { initiator_spi, responder_spi }
    }

    /// Whether the SPIs match, a zero SPI on either side matching any.
    pub fn matches(&self, initiator_spi: &[u8], responder_spi: &[u8]) -> (r: bool)
        ensures
            r == ((self.initiator_spi@ == initiator_spi@ || self.initiator_spi@ == zero_spi()
                || initiator_spi@ == zero_spi())
                && (self.responder_spi@ == responder_spi@ || self.responder_spi@ == zero_spi()
                || responder_spi@ == zero_spi())),
    {
        let init_match = bytes_eq(&self.initiator_spi, initiator_spi) || is_zero_spi(&self.initiator_spi)
            || is_zero_spi(initiator_spi);
        let resp_match = bytes_eq(&self.responder_spi, responder_spi) || is_zero_spi(&self.responder_spi)
            || is_zero_spi(responder_spi);
        init_match && resp_match
    }
}

/// Role in an IKE SA.
#[derive(Debug, Clone, Copy, PartialEq, Eq, Structural)]
pub enum IkeRole {
    Initiator,
    Responder,
}

/// State of an IKE SA.
#[derive(Debug, Clone, Copy, PartialEq, Eq, Structural)]
pub enum IkeSaState {
    Idle,
    InitSent,
    AuthSent,
    Established,
    Deleted,
}

impl IkeSaState {
    /// Whether traffic can be processed: only when established.
    pub fn can_process(&self) -> (r: bool)
        ensures
            r == (*self == IkeSaState::Established),
    {
        match self {
            IkeSaState::Established => true,
            _ => false,
        }
    }

    /// Whether the state is final: only when deleted.
    pub fn is_terminal(&self) -> (r: bool)
        ensures
            r == (*self == IkeSaState::Deleted),
    {
        match self {
            IkeSaState::Deleted => true,
            _ => false,
        }
    }
}

/// Keys of an IKE SA.
#[derive(Debug, Clone)]
pub struct IkeKeyMaterial {
    pub sk_d: Vec<u8>,
    pub sk_ai: Vec<u8>,
    pub sk_ar: Vec<u8>,
    pub sk_ei: Vec<u8>,
    pub sk_er: Vec<u8>,
    pub sk_pi: Vec<u8>,
    pub sk_pr: Vec<u8>,
}

impl IkeKeyMaterial {
    pub fn new(sk_d: Vec<u8>, sk_ai: Vec<u8>, sk_ar: Vec<u8>, sk_ei: Vec<u8>, sk_er: Vec<u8>, sk_pi: Vec<u8>,
        sk_pr: Vec<u8>) -> (r: Self)
        ensures
            r.sk_d@ == sk_d@,
            r.sk_ai@ == sk_ai@,
            r.sk_ar@ == sk_ar@,
            r.sk_ei@ == sk_ei@,
            r.sk_er@ == sk_er@,
            r.sk_pi@ == sk_pi@,
            r.sk_pr@ == sk_pr@,
    {
        IkeKeyMaterial { sk_d, sk_ai, sk_ar, sk_ei, sk_er, sk_pi, sk_pr }
    }

    /// The initiator's encryption key (SK_ei).
    pub fn initiator_enc_key(&self) -> (r: &[u8])
        ensures
            r@ == self.sk_ei@,
    {
        self.sk_ei.as_slice()
    }

    /// The initiator's integrity key (SK_ai).
    pub fn initiator_auth_key(&self) -> (r: &[u8])
        ensures
            r@ == self.sk_ai@,
    {
        self.sk_ai.as_slice()
    }

    /// The responder's encryption key (SK_er).
    pub fn responder_enc_key(&self) -> (r: &[u8])
        ensures
            r@ == self.sk_er@,
    {
        self.sk_er.as_slice()
    }

    /// The responder's integrity key (SK_ar).
    pub fn responder_auth_key(&self) -> (r: &[u8])
        ensures
            r@ == self.sk_ar@,
    {
        self.sk_ar.as_slice()
    }

    /// Empties every key.
    pub fn clear(&mut self)
        ensures
            final(self).sk_d@.len() == 0,
            final(self).sk_ai@.len() == 0,
            final(self).sk_ar@.len() == 0,
            final(self).sk_ei@.len() == 0,
            final(self).sk_er@.len() == 0,
            final(self).sk_pi@.len() == 0,
            final(self).sk_pr@.len() == 0,
    {
        self.sk_d.clear();
        self.sk_ai.clear();
        self.sk_ar.clear();
        self.sk_ei.clear();
        self.sk_er.clear();
        self.sk_pi.clear();
        self.sk_pr.clear();
    }
}

/// Settings of an IKE SA.
#[derive(Debug, Clone)]
pub struct IkeSaConfig {
    pub role: IkeRole,
    pub local_addr: IpAddr,
    pub remote_addr: IpAddr,
    pub dh_group: IkeDhGroup,
    pub auth_method: IkeAuthMethod,
    /// Pre-shared key.
    pub psk: Option<Vec<u8>>,
    /// Soft lifetime in seconds.
    pub lifetime_soft_secs: u64,
    /// Hard lifetime in seconds.
    pub lifetime_hard_secs: u64,
    pub nat_traversal: bool,
}

impl IkeSaConfig {
    /// Settings with lifetimes of 4 and 8 hours, no key, NAT traversal on.
    pub fn new(role: IkeRole, local_addr: IpAddr, remote_addr: IpAddr, dh_group: IkeDhGroup,
        auth_method: IkeAuthMethod) -> (r: Self)
        ensures
            r.role == role,
            r.local_addr == local_addr,
            r.remote_addr == remote_addr,
            r.dh_group == dh_group,
            r.auth_method == auth_method,
            r.psk is None,
            r.lifetime_soft_secs == 14400,
            r.lifetime_hard_secs == 28800,
            r.nat_traversal,
    {
        IkeSaConfig {
            role,
            local_addr,
            remote_addr,
            dh_group,
            auth_method,
            psk: None,
            lifetime_soft_secs: 14400,
            lifetime_hard_secs: 28800,
            nat_traversal: true,
        }
    }

    /// The settings with this pre-shared key.
    pub fn with_psk(self, psk: Vec<u8>) -> (r: Self)
        ensures
            r == (IkeSaConfig { psk: Some(psk), ..self }),
    {
        let mut s = self;
        s.psk = Some(psk);
        s
    }

    /// The settings with these lifetimes in seconds.
    pub fn with_lifetime(self, soft_secs: u64, hard_secs: u64) -> (r: Self)
        ensures
            r == (IkeSaConfig { lifetime_soft_secs: soft_secs, lifetime_hard_secs: hard_secs, ..self }),
    {
        let mut s = self;
        s.lifetime_soft_secs = soft_secs;
        s.lifetime_hard_secs = hard_secs;
        s
    }

    /// The settings with NAT traversal on or off.
    pub fn with_nat_traversal(self, enabled: bool) -> (r: Self)
        ensures
            r == (IkeSaConfig { nat_traversal: enabled, ..self }),
    {
        let mut s = self;
        s.nat_traversal = enabled;
        s
    }
}

impl Default for IkeSaConfig {
    /// Initiator settings between 0.0.0.0 and 0.0.0.0, group 14, shared key.
    fn default() -> (r: Self)
        ensures
            r.role == IkeRole::Initiator,
            r.local_addr matches IpAddr::V4(a) && a.bytes@ == seq![0u8, 0u8, 0u8, 0u8],
            r.remote_addr matches IpAddr::V4(a) && a.bytes@ == seq![0u8, 0u8, 0u8, 0u8],
            r.dh_group == IkeDhGroup::MODP2048,
            r.auth_method == IkeAuthMethod::SharedKey,
            r.psk is None,
            r.lifetime_soft_secs == 14400,
            r.lifetime_hard_secs == 28800,
            r.nat_traversal,
    {
        let z = Ipv4Addr { bytes: [0u8; 4] };
        assert(z.bytes@ =~= seq![0u8, 0u8, 0u8, 0u8]);
        IkeSaConfig {
            role: IkeRole::Initiator,
            local_addr: IpAddr::V4(z),
            remote_addr: IpAddr::V4(z),
            dh_group: IkeDhGroup::MODP2048,
            auth_method: IkeAuthMethod::SharedKey,
            psk: None,
            lifetime_soft_secs: 14400,
            lifetime_hard_secs: 28800,
            nat_traversal: true,
        }
    }
}

/// An IKE SA.
#[derive(Debug, Clone)]
pub struct IkeSaEntry {
    pub id: IkeSaId,
    pub role: IkeRole,
    pub state: IkeSaState,
    pub initiator_spi: [u8; 8],
    pub responder_spi: [u8; 8],
    /// ID of the next message.
    pub message_id: u32,
    pub local_spi: [u8; 8],
    pub remote_spi: [u8; 8],
    pub dh_group: IkeDhGroup,
    pub keymat: Option<IkeKeyMaterial>,
    pub remote_addr: IpAddr,
    pub local_addr: IpAddr,
    /// Creation time in milliseconds.
    pub created_ms: u64,
    /// Lifetime in seconds.
    pub lifetime_secs: u64,
    /// SPIs of the child SAs.
    pub child_sas: Vec<u32>,
    pub local_nonce: Vec<u8>,
    pub remote_nonce: Vec<u8>,
    pub local_public_key: Vec<u8>,
    pub dh_shared: Vec<u8>,
}

/// Milliseconds from `since` to `now`, 0 when `now` is earlier.
pub open spec fn ike_millis_since(now: u64, since: u64) -> nat {
    if now >= since { (now - since) as nat } else { 0 }
}

impl IkeSaEntry {
    /// Whether the SA has lived its lifetime at `now_ms`.
    pub open spec fn spec_expired(&self, now_ms: u64) -> bool {
        ike_millis_since(now_ms, self.created_ms) >= self.lifetime_secs * 1000
    }

    /// A new SA in state Idle, created at `now_ms`, living the hard
    /// lifetime; the initiator's local SPI is its own, the responder's is
    /// set later.
    pub fn new(config: IkeSaConfig, initiator_spi: [u8; 8], now_ms: u64) -> (r: Self)
        ensures
            r.id.initiator_spi == initiator_spi,
            r.id.responder_spi@ == zero_spi(),
            r.role == config.role,
            r.state == IkeSaState::Idle,
            r.initiator_spi == initiator_spi,
            r.responder_spi@ == zero_spi(),
            r.message_id == 0,
            config.role == IkeRole::Initiator ==> r.local_spi == initiator_spi,
            config.role == IkeRole::Responder ==> r.local_spi@ == zero_spi(),
            r.remote_spi@ == zero_spi(),
            r.dh_group == config.dh_group,
            r.keymat is None,
            r.remote_addr == config.remote_addr,
            r.local_addr == config.local_addr,
            r.created_ms == now_ms,
            r.lifetime_secs == config.lifetime_hard_secs,
            r.child_sas@.len() == 0,
            r.local_nonce@.len() == 0,
            r.remote_nonce@.len() == 0,
            r.local_public_key@.len() == 0,
            r.dh_shared@.len() == 0,
    {
        let local_spi = match config.role {
            IkeRole::Initiator => initiator_spi,
            IkeRole::Responder => [0u8; 8],
        };
        let z: [u8; 8] = [0u8; 8];
        assert(z@ =~= zero_spi());
        IkeSaEntry {
            id: IkeSaId::new(initiator_spi, [0u8; 8]),
            role: config.role,
            state: IkeSaState::Idle,
            initiator_spi,
            responder_spi: [0u8; 8],
            message_id: 0,
            local_spi,
            remote_spi: [0u8; 8],
            dh_group: config.dh_group,
            keymat: None,
            remote_addr: config.remote_addr,
            local_addr: config.local_addr,
            created_ms: now_ms,
            lifetime_secs: config.lifetime_hard_secs,
            child_sas: Vec::new(),
            local_nonce: Vec::new(),
            remote_nonce: Vec::new(),
            local_public_key: Vec::new(),
            dh_shared: Vec::new(),
        }
    }

    /// Records the responder's SPI: in the ID, as the local SPI of a
    /// responder, as the remote SPI of an initiator (a responder's remote
    /// SPI becomes the initiator's).
    pub fn set_responder_spi(&mut self, responder_spi: [u8; 8])
        ensures
            *final(self) == (IkeSaEntry {
                responder_spi,
                id: IkeSaId { responder_spi, ..old(self).id },
                local_spi: if old(self).role == IkeRole::Responder { responder_spi } else { old(self).local_spi },
                remote_spi: if old(self).role == IkeRole::Initiator { responder_spi } else { old(self).initiator_spi },
                ..*old(self)
            }),
    {
        self.responder_spi = responder_spi;
        self.id.responder_spi = responder_spi;
        if self.role == IkeRole::Responder {
            self.local_spi = responder_spi;
        }
        self.remote_spi = if self.role == IkeRole::Initiator { responder_spi } else { self.initiator_spi };
    }

    pub fn set_state(&mut self, state: IkeSaState)
        ensures
            *final(self) == (IkeSaEntry { state, ..*old(self) }),
    {
        self.state = state;
    }

    /// Returns the next message ID and advances it.
    pub fn next_message_id(&mut self) -> (r: u32)
        requires
            old(self).message_id < u32::MAX,
        ensures
            r == old(self).message_id,
            *final(self) == (IkeSaEntry { message_id: (old(self).message_id + 1) as u32, ..*old(self) }),
    {
        let id = self.message_id;
        self.message_id = self.message_id + 1;
        id
    }

    pub fn set_keymat(&mut self, keymat: IkeKeyMaterial)
        ensures
            *final(self) == (IkeSaEntry { keymat: Some(keymat), ..*old(self) }),
    {
        self.keymat = Some(keymat);
    }

    /// Whether the SA has lived its lifetime at `now_ms`.
    pub fn is_expired(&self, now_ms: u64) -> (r: bool)
        ensures
            r == self.spec_expired(now_ms),
    {
        let age: u64 = if now_ms >= self.created_ms { now_ms - self.created_ms } else { 0 };
        (age as u128) >= (self.lifetime_secs as u128) * 1000
    }

    /// Whether the SA has lived nine tenths of its lifetime at `now_ms`
    /// but not all of it.
    pub fn is_dying(&self, now_ms: u64) -> (r: bool)
        requires
            self.lifetime_secs <= u64::MAX / 9,
        ensures
            r == (ike_millis_since(now_ms, self.created_ms) >= self.lifetime_secs * 900 && !self.spec_expired(now_ms)),
    {
        let age: u64 = if now_ms >= self.created_ms { now_ms - self.created_ms } else { 0 };
        (age as u128) >= (self.lifetime_secs as u128) * 900 && !self.is_expired(now_ms)
    }

    /// The encryption key of the initiator or of the responder, when keys are set.
    pub fn get_enc_key(&self, is_initiator: bool) -> (r: Option<&[u8]>)
        ensures
            match self.keymat {
                Some(k) => r matches Some(key) && key@ == (if is_initiator { k.sk_ei@ } else { k.sk_er@ }),
                None => r is None,
            },
    {
        match &self.keymat {
            Some(k) => Some(if is_initiator { k.initiator_enc_key() } else { k.responder_enc_key() }),
            None => None,
        }
    }

    /// The integrity key of the initiator or of the responder, when keys are set.
    pub fn get_auth_key(&self, is_initiator: bool) -> (r: Option<&[u8]>)
        ensures
            match self.keymat {
                Some(k) => r matches Some(key) && key@ == (if is_initiator { k.sk_ai@ } else { k.sk_ar@ }),
                None => r is None,
            },
    {
        match &self.keymat {
            Some(k) => Some(if is_initiator { k.initiator_auth_key() } else { k.responder_auth_key() }),
            None => None,
        }
    }

    /// Records a child SA, once.
    pub fn add_child_sa(&mut self, spi: u32)
        ensures
            final(self).child_sas@ == (if old(self).child_sas@.contains(spi) { old(self).child_sas@ } else {
                old(self).child_sas@.push(spi)
            }),
            *final(self) == (IkeSaEntry { child_sas: final(self).child_sas, ..*old(self) }),
    {
        let mut i: usize = 0;
        while i < self.child_sas.len()
            invariant
                i <= self.child_sas@.len(),
                self.child_sas@ == old(self).child_sas@,
                *self == *old(self),
                forall|j: int| 0 <= j < i ==> self.child_sas@[j] != spi,
            decreases self.child_sas@.len() - i,
        {
            if self.child_sas[i] == spi {
                return;
            }
            i = i + 1;
        }
        self.child_sas.push(spi);
    }

    /// Forgets a child SA.
    pub fn remove_child_sa(&mut self, spi: u32)
        ensures
            final(self).child_sas@ == old(self).child_sas@.filter(|s: u32| s != spi),
            *final(self) == (IkeSaEntry { child_sas: final(self).child_sas, ..*old(self) }),
    {
        let ghost f = |s: u32| s != spi;
        let ghost m = self.child_sas@;
        let mut kept: Vec<u32> = Vec::new();
        let mut i: usize = 0;
        assert(m.take(0).filter(f) =~= Seq::<u32>::empty());
        while i < self.child_sas.len()
            invariant
                i <= m.len(),
                m == self.child_sas@,
                *self == *old(self),
                f == (|s: u32| s != spi),
                kept@ == m.take(i as int).filter(f),
            decreases m.len() - i,
        {
            reveal_with_fuel(Seq::<_>::filter, 1);
            assert(m.take(i + 1).drop_last() =~= m.take(i as int));
            let s = self.child_sas[i];
            if s != spi {
                kept.push(s);
            }
            i = i + 1;
        }
        assert(m.take(i as int) =~= m);
        self.child_sas = kept;
    }

    /// Drops keys, nonces, public key and shared secret.
    pub fn cleanup(&mut self)
        ensures
            final(self).keymat is None,
            final(self).local_nonce@.len() == 0,
            final(self).remote_nonce@.len() == 0,
            final(self).local_public_key@.len() == 0,
            final(self).dh_shared@.len() == 0,
            *final(self) == (IkeSaEntry {
                keymat: None,
                local_nonce: final(self).local_nonce,
                remote_nonce: final(self).remote_nonce,
                local_public_key: final(self).local_public_key,
                dh_shared: final(self).dh_shared,
                ..*old(self)
            }),
    {
        let taken = self.keymat.take();
        if let Some(mut keymat) = taken {
            keymat.clear();
        }
        self.local_nonce.clear();
        self.remote_nonce.clear();
        self.local_public_key.clear();
        self.dh_shared.clear();
    }
}

impl ByteKey for IpAddr {
    open spec fn key_bytes(&self) -> Seq<u8> {
        self.octets_of()
    }

    fn same_key(&self, other: &Self) -> (r: bool) {
        let r = self.equals(other);
        proof {
            match (*self, *other) {
                (IpAddr::V4(a), IpAddr::V6(b)) => { assert(a.bytes@.len() != b.bytes@.len()); },
                (IpAddr::V6(a), IpAddr::V4(b)) => { assert(a.bytes@.len() != b.bytes@.len()); },
                _ => {},
            }
        }
        r
    }
}

/// The IKE SAs, with the SPIs and remote addresses they are found by.
#[derive(Debug)]
pub struct IkeSaManager {
    sas: KeyedVec<IkeSaId, IkeSaEntry>,
    spi_to_id: KeyedVec<[u8; 8], IkeSaId>,
    addr_to_id: KeyedVec<IpAddr, Vec<IkeSaId>>,
}

/// The SA IDs under each remote address, as values.
pub open spec fn addr_view(s: Seq<(Seq<u8>, Vec<IkeSaId>)>) -> Seq<(Seq<u8>, Seq<IkeSaId>)> {
    s.map_values(|p: (Seq<u8>, Vec<IkeSaId>)| (p.0, p.1@))
}

/// The address index after recording `id` under `addr`.
pub open spec fn addr_after_add(s: Seq<(Seq<u8>, Seq<IkeSaId>)>, addr: Seq<u8>, id: IkeSaId) -> Seq<(Seq<u8>, Seq<IkeSaId>)> {
    match key_index(s, addr) {
        Some(i) => s.update(i as int, (addr, s[i as int].1.push(id))),
        None => s.push((addr, seq![id])),
    }
}

/// The address index after dropping `id` from under `addr`, and the
/// address when no ID is left under it.
pub open spec fn addr_after_remove(s: Seq<(Seq<u8>, Seq<IkeSaId>)>, addr: Seq<u8>, id: IkeSaId) -> Seq<(Seq<u8>, Seq<IkeSaId>)> {
    match key_index(s, addr) {
        Some(i) => {
            let kept = other_ids(s[i as int].1, id);
            if kept.len() == 0 { s.remove(i as int) } else { s.update(i as int, (addr, kept)) }
        },
        None => s,
    }
}

/// The SPI index after recording `sa`: its initiator SPI, and its
/// responder SPI when not zero, lead to its ID.
pub open spec fn spi_after_add(s: Seq<(Seq<u8>, IkeSaId)>, sa: IkeSaEntry) -> Seq<(Seq<u8>, IkeSaId)> {
    let t = after_insert(s, sa.initiator_spi@, sa.id);
    if sa.responder_spi@ != zero_spi() { after_insert(t, sa.responder_spi@, sa.id) } else { t }
}

/// The SPI index after forgetting `sa`'s SPIs.
pub open spec fn spi_after_remove(s: Seq<(Seq<u8>, IkeSaId)>, sa: IkeSaEntry) -> Seq<(Seq<u8>, IkeSaId)> {
    let t = after_remove(s, sa.initiator_spi@);
    if sa.responder_spi@ != zero_spi() { after_remove(t, sa.responder_spi@) } else { t }
}

impl IkeSaManager {
    /// The SAs by ID.
    pub closed spec fn sa_entries(&self) -> Seq<(Seq<u8>, IkeSaEntry)> {
        self.sas.entries()
    }

    /// The SPI index.
    pub closed spec fn spi_entries(&self) -> Seq<(Seq<u8>, IkeSaId)> {
        self.spi_to_id.entries()
    }

    /// The remote address index.
    pub closed spec fn addr_entries(&self) -> Seq<(Seq<u8>, Seq<IkeSaId>)> {
        addr_view(self.addr_to_id.entries())
    }

    /// Well-formedness of the three tables.
    pub closed spec fn wf(&self) -> bool {
        self.sas.wf() && self.spi_to_id.wf() && self.addr_to_id.wf()
    }

    pub fn new() -> (r: Self)
        ensures
            r.wf(),
            r.sa_entries().len() == 0,
            r.spi_entries().len() == 0,
            r.addr_entries().len() == 0,
    {
        IkeSaManager { sas: KeyedVec::new(), spi_to_id: KeyedVec::new(), addr_to_id: KeyedVec::new() }
    }

    /// Adds `sa` under its ID (replacing one there), indexes its SPIs, and
    /// records its ID under its remote address.
    pub fn add(&mut self, sa: IkeSaEntry) -> (r: Result<(), IkeError>)
        requires
            old(self).wf(),
        ensures
            final(self).wf(),
            r is Ok,
            final(self).sa_entries() == after_insert(old(self).sa_entries(), sa.id.key_bytes(), sa),
            final(self).spi_entries() == spi_after_add(old(self).spi_entries(), sa),
            final(self).addr_entries() == addr_after_add(old(self).addr_entries(), sa.remote_addr.key_bytes(), sa.id),
    {
        let id = sa.id;
        self.spi_to_id.insert(sa.initiator_spi, id);
        if !is_zero_spi(&sa.responder_spi) {
            self.spi_to_id.insert(sa.responder_spi, id);
        }
        let ghost a0 = self.addr_to_id.entries();
        let ghost ak = sa.remote_addr.key_bytes();
        proof {
            crate::common::keyed::lemma_key_index(a0, ak);
            lemma_addr_index(a0, ak);
        }
        let found = match self.addr_to_id.get_mut(&sa.remote_addr) {
            Some(ids) => {
                ids.push(id);
                true
            },
            None => false,
        };
        if !found {
            let mut ids: Vec<IkeSaId> = Vec::new();
            ids.push(id);
            self.addr_to_id.insert(sa.remote_addr, ids);
        }
        proof {
            assert(addr_view(self.addr_to_id.entries()) =~= addr_after_add(addr_view(a0), sa.remote_addr.key_bytes(), id));
        }
        self.sas.insert(id, sa);
        Ok(())
    }

    /// The SA that the SPI index gives for `spi`.
    pub fn get_by_spi(&self, spi: &[u8; 8]) -> (r: Option<&IkeSaEntry>)
        requires
            self.wf(),
        ensures
            match lookup(self.spi_entries(), spi@) {
                Some(id) => match key_index(self.sa_entries(), id.key_bytes()) {
                    Some(i) => r == Some(&self.sa_entries()[i as int].1),
                    None => r is None,
                },
                None => r is None,
            },
    {
        let id = match self.spi_to_id.get(spi) {
            Some(id) => *id,
            None => {
                return None;
            },
        };
        self.sas.get(&id)
    }

    /// The SA that the SPI index gives for `spi`, to change in place.
    pub fn get_by_spi_mut(&mut self, spi: &[u8; 8]) -> (r: Option<&mut IkeSaEntry>)
        requires
            old(self).wf(),
        ensures
            match lookup(old(self).spi_entries(), spi@) {
                Some(id) => match key_index(old(self).sa_entries(), id.key_bytes()) {
                    Some(i) => r matches Some(e) && *e == old(self).sa_entries()[i as int].1
                        && final(self).sa_entries() =~= old(self).sa_entries().update(i as int,
                            (old(self).sa_entries()[i as int].0, *final(e)))
                        && final(self).wf() && final(self).spi_entries() == old(self).spi_entries()
                        && final(self).addr_entries() == old(self).addr_entries(),
                    None => r is None && final(self).wf() && final(self).sa_entries() == old(self).sa_entries()
                        && final(self).spi_entries() == old(self).spi_entries()
                        && final(self).addr_entries() == old(self).addr_entries(),
                },
                None => r is None && final(self).wf() && final(self).sa_entries() == old(self).sa_entries()
                    && final(self).spi_entries() == old(self).spi_entries()
                    && final(self).addr_entries() == old(self).addr_entries(),
            },
    {
        let id = match self.spi_to_id.get(spi) {
            Some(id) => *id,
            None => {
                return None;
            },
        };
        self.sas.get_mut(&id)
    }

    /// The SA with this ID.
    pub fn get(&self, id: &IkeSaId) -> (r: Option<&IkeSaEntry>)
        requires
            self.wf(),
        ensures
            match key_index(self.sa_entries(), id.key_bytes()) {
                Some(i) => r == Some(&self.sa_entries()[i as int].1),
                None => r is None,
            },
    {
        self.sas.get(id)
    }

    /// The SA with this ID, to change in place.
    pub fn get_mut(&mut self, id: &IkeSaId) -> (r: Option<&mut IkeSaEntry>)
        requires
            old(self).wf(),
        ensures
            match key_index(old(self).sa_entries(), id.key_bytes()) {
                Some(i) => r matches Some(e) && *e == old(self).sa_entries()[i as int].1
                    && final(self).sa_entries() =~= old(self).sa_entries().update(i as int,
                        (old(self).sa_entries()[i as int].0, *final(e)))
                    && final(self).wf() && final(self).spi_entries() == old(self).spi_entries()
                    && final(self).addr_entries() == old(self).addr_entries(),
                None => r is None && final(self).wf() && final(self).sa_entries() == old(self).sa_entries()
                    && final(self).spi_entries() == old(self).spi_entries()
                    && final(self).addr_entries() == old(self).addr_entries(),
            },
    {
        self.sas.get_mut(id)
    }

    /// The SAs recorded under this remote address that still exist, in order.
    pub fn get_by_remote_addr(&self, addr: &IpAddr) -> (r: Vec<&IkeSaEntry>)
        requires
            self.wf(),
        ensures
            match lookup(self.addr_entries(), addr.key_bytes()) {
                Some(ids) => r@.map_values(|e: &IkeSaEntry| *e) == ids_present(self.sa_entries(), ids),
                None => r@.len() == 0,
            },
    {
        let mut r: Vec<&IkeSaEntry> = Vec::new();
        proof { lemma_addr_lookup(self.addr_to_id.entries(), addr.key_bytes()); }
        match self.addr_to_id.get(addr) {
            Some(ids) => {
                let ghost s = ids@;
                let mut i: usize = 0;
                assert(s.take(0) =~= Seq::<IkeSaId>::empty());
                while i < ids.len()
                    invariant
                        i <= s.len(),
                        s == ids@,
                        self.wf(),
                        r@.map_values(|e: &IkeSaEntry| *e) == ids_present(self.sa_entries(), s.take(i as int)),
                    decreases s.len() - i,
                {
                    assert(s.take(i + 1).drop_last() =~= s.take(i as int));
                    let ghost before = r@.map_values(|e: &IkeSaEntry| *e);
                    match self.sas.get(&ids[i]) {
                        Some(e) => {
                            r.push(e);
                            assert(r@.map_values(|e: &IkeSaEntry| *e) =~= before.push(*e));
                        },
                        None => {
                            assert(r@.map_values(|e: &IkeSaEntry| *e) =~= before);
                        },
                    }
                    i = i + 1;
                }
                assert(s.take(i as int) =~= s);
            },
            None => {},
        }
        r
    }

    /// Removes the SA with this ID, its SPIs from the SPI index and its ID
    /// from under its remote address.
    pub fn remove(&mut self, id: &IkeSaId) -> (r: Option<IkeSaEntry>)
        requires
            old(self).wf(),
        ensures
            final(self).wf(),
            r == lookup(old(self).sa_entries(), id.key_bytes()),
            final(self).sa_entries() == after_remove(old(self).sa_entries(), id.key_bytes()),
            r matches Some(sa) ==> final(self).spi_entries() == spi_after_remove(old(self).spi_entries(), sa)
                && final(self).addr_entries() == addr_after_remove(old(self).addr_entries(), sa.remote_addr.key_bytes(), *id),
            r is None ==> final(self).spi_entries() == old(self).spi_entries()
                && final(self).addr_entries() == old(self).addr_entries(),
    {
        let sa = match self.sas.remove(id) {
            Some(sa) => sa,
            None => {
                return None;
            },
        };
        self.spi_to_id.remove(&sa.initiator_spi);
        if !is_zero_spi(&sa.responder_spi) {
            self.spi_to_id.remove(&sa.responder_spi);
        }
        let ghost a0 = self.addr_to_id.entries();
        let ghost ak = sa.remote_addr.key_bytes();
        proof {
            crate::common::keyed::lemma_key_index(a0, ak);
            lemma_addr_index(a0, ak);
        }
        let mut now_empty = false;
        match self.addr_to_id.get_mut(&sa.remote_addr) {
            Some(ids) => {
                retain_other_ids(ids, id);
                now_empty = ids.len() == 0;
            },
            None => {},
        }
        let ghost a1 = self.addr_to_id.entries();
        if now_empty {
            proof {
                let i = key_index(a0, ak)->0 as int;
                assert forall|j: int| 0 <= j < i implies (#[trigger] a1[j]).0 != ak by {
                    assert(a1[j] == a0[j]);
                }
                crate::common::keyed::lemma_key_index_at(a1, ak, i);
            }
            self.addr_to_id.remove(&sa.remote_addr);
        }
        proof {
            assert(addr_view(self.addr_to_id.entries()) =~= addr_after_remove(addr_view(a0), ak, *id));
        }
        Some(sa)
    }

    /// All SAs in order.
    pub fn all(&self) -> (r: &[IkeSaEntry])
        requires
            self.wf(),
        ensures
            r@ == self.sa_entries().map_values(|p: (Seq<u8>, IkeSaEntry)| p.1),
    {
        self.sas.values()
    }

    /// The IDs of the SAs that have lived their lifetime at `now_ms`.
    fn expired_ids(&self, now_ms: u64) -> (r: Vec<IkeSaId>)
        requires
            self.wf(),
        ensures
            forall|a: int| 0 <= a < r@.len() ==> expired_key(self.sa_entries(), (#[trigger] r@[a]).key_bytes(), now_ms),
            forall|k: int| 0 <= k < self.sa_entries().len() && (#[trigger] self.sa_entries()[k]).1.spec_expired(now_ms)
                ==> key_listed(r@, self.sa_entries()[k].0),
    {
        let ghost s0 = self.sa_entries();
        let mut r: Vec<IkeSaId> = Vec::new();
        let keys = self.sas.keys();
        let values = self.sas.values();
        let mut i: usize = 0;
        while i < values.len()
            invariant
                i <= values@.len(),
                values@.len() == keys@.len(),
                values@.len() == s0.len(),
                forall|j: int| 0 <= j < values@.len() ==> (#[trigger] values@[j]) == s0[j].1,
                forall|j: int| 0 <= j < keys@.len() ==> (#[trigger] keys@[j]).key_bytes() == s0[j].0,
                forall|a: int| 0 <= a < r@.len() ==> expired_key(s0, (#[trigger] r@[a]).key_bytes(), now_ms),
                forall|k: int| 0 <= k < i && (#[trigger] s0[k]).1.spec_expired(now_ms) ==> key_listed(r@, s0[k].0),
            decreases values@.len() - i,
        {
            assert(values@[i as int] == s0[i as int].1);
            if values[i].is_expired(now_ms) {
                let ghost before = r@;
                r.push(keys[i]);
                proof {
                    assert(r@[r@.len() - 1].key_bytes() == s0[i as int].0);
                    assert forall|a: int| 0 <= a < r@.len() implies expired_key(s0, (#[trigger] r@[a]).key_bytes(), now_ms) by {
                        if a < before.len() { assert(r@[a] == before[a]); }
                    }
                    assert forall|k: int| 0 <= k <= i && (#[trigger] s0[k]).1.spec_expired(now_ms)
                        implies key_listed(r@, s0[k].0) by {
                        if k < i {
                            let a = choose|a: int| 0 <= a < before.len() && before[a].key_bytes() == s0[k].0;
                            assert(r@[a] == before[a]);
                        } else {
                            assert(r@[r@.len() - 1].key_bytes() == s0[k].0);
                        }
                    }
                }
            }
            i = i + 1;
        }
        r
    }

    /// Removes the SAs that have lived their lifetime at `now_ms`, with
    /// their SPIs and addresses: none left has, all others stay.
    pub fn cleanup_expired(&mut self, now_ms: u64)
        requires
            old(self).wf(),
        ensures
            final(self).wf(),
            forall|x: (Seq<u8>, IkeSaEntry)| final(self).sa_entries().contains(x) <==> old(self).sa_entries().contains(x)
                && !x.1.spec_expired(now_ms),
    {
        let ghost s0 = self.sa_entries();
        let expired_ids = self.expired_ids(now_ms);
        proof { self.sas.lemma_unique(); }
        let mut j: usize = 0;
        while j < expired_ids.len()
            invariant
                j <= expired_ids@.len(),
                self.wf(),
                keys_unique(s0),
                forall|x: (Seq<u8>, IkeSaEntry)| self.sa_entries().contains(x) ==> s0.contains(x),
                forall|x: (Seq<u8>, IkeSaEntry)| s0.contains(x) && !x.1.spec_expired(now_ms) ==> self.sa_entries().contains(x),
                forall|a: int| 0 <= a < j ==> lookup(self.sa_entries(), (#[trigger] expired_ids@[a]).key_bytes()) is None,
                forall|a: int| 0 <= a < expired_ids@.len() ==> expired_key(s0, (#[trigger] expired_ids@[a]).key_bytes(), now_ms),
                forall|k: int| 0 <= k < s0.len() && (#[trigger] s0[k]).1.spec_expired(now_ms) ==> key_listed(expired_ids@, s0[k].0),
            decreases expired_ids@.len() - j,
        {
            let ghost cur = self.sa_entries();
            let ghost kj = expired_ids@[j as int].key_bytes();
            proof {
                self.sas.lemma_unique();
                lemma_remove_contains(cur, kj);
                crate::common::keyed::lemma_remove_then_lookup(cur, kj);
                assert(expired_key(s0, kj, now_ms));
            }
            self.remove(&expired_ids[j]);
            proof {
                assert forall|x: (Seq<u8>, IkeSaEntry)| s0.contains(x) && !x.1.spec_expired(now_ms)
                    implies self.sa_entries().contains(x) by {
                    let m = choose|m: int| 0 <= m < s0.len() && s0[m].0 == kj && s0[m].1.spec_expired(now_ms);
                    let k = choose|k: int| 0 <= k < s0.len() && s0[k] == x;
                    if x.0 == kj {
                        if k < m { assert(s0[k].0 != s0[m].0); }
                        if m < k { assert(s0[m].0 != s0[k].0); }
                    }
                }
            }
            j = j + 1;
        }
        proof {
            let t = self.sa_entries();
            assert forall|x: (Seq<u8>, IkeSaEntry)| t.contains(x) implies !x.1.spec_expired(now_ms) by {
                assert(s0.contains(x));
                let k = choose|k: int| 0 <= k < s0.len() && s0[k] == x;
                if x.1.spec_expired(now_ms) {
                    assert(s0[k].1.spec_expired(now_ms));
                    assert(key_listed(expired_ids@, s0[k].0));
                    let a = choose|a: int| 0 <= a < expired_ids@.len() && expired_ids@[a].key_bytes() == s0[k].0;
                    assert(lookup(t, expired_ids@[a].key_bytes()) is None);
                    crate::common::keyed::lemma_key_index(t, expired_ids@[a].key_bytes());
                    let i = choose|i: int| 0 <= i < t.len() && t[i] == x;
                    assert(t[i].0 != expired_ids@[a].key_bytes());
                }
            }
        }
    }

    /// Number of SAs.
    pub fn len(&self) -> (r: usize)
        requires
            self.wf(),
        ensures
            r == self.sa_entries().len(),
    {
        self.sas.len()
    }

    /// Whether there is no SA.
    pub fn is_empty(&self) -> (r: bool)
        requires
            self.wf(),
        ensures
            r == (self.sa_entries().len() == 0),
    {
        self.sas.len() == 0
    }
}

impl Default for IkeSaManager {
    fn default() -> (r: Self)
        ensures
            r.wf(),
            r.sa_entries().len() == 0,
            r.spi_entries().len() == 0,
            r.addr_entries().len() == 0,
    {
        Self::new()
    }
}

/// Whether an entry of `s` with these key bytes has lived its lifetime at `now_ms`.
pub open spec fn expired_key(s: Seq<(Seq<u8>, IkeSaEntry)>, kb: Seq<u8>, now_ms: u64) -> bool {
    exists|k: int| 0 <= k < s.len() && s[k].0 == kb && s[k].1.spec_expired(now_ms)
}

/// Whether one of `ids` has these key bytes.
pub open spec fn key_listed(ids: Seq<IkeSaId>, kb: Seq<u8>) -> bool {
    exists|a: int| 0 <= a < ids.len() && ids[a].key_bytes() == kb
}

/// The SAs of `ids` that exist, in order.
pub open spec fn ids_present(sas: Seq<(Seq<u8>, IkeSaEntry)>, ids: Seq<IkeSaId>) -> Seq<IkeSaEntry>
    decreases ids.len(),
{
    if ids.len() == 0 {
        Seq::empty()
    } else {
        let rest = ids_present(sas, ids.drop_last());
        match lookup(sas, ids.last().key_bytes()) {
            Some(e) => rest.push(e),
            None => rest,
        }
    }
}

proof fn lemma_addr_index(s: Seq<(Seq<u8>, Vec<IkeSaId>)>, k: Seq<u8>)
    ensures
        key_index(addr_view(s), k) == key_index(s, k),
    decreases s.len(),
{
    if s.len() > 0 {
        assert(addr_view(s).drop_first() =~= addr_view(s.drop_first()));
        lemma_addr_index(s.drop_first(), k);
    }
}

proof fn lemma_addr_lookup(s: Seq<(Seq<u8>, Vec<IkeSaId>)>, k: Seq<u8>)
    ensures
        match lookup(s, k) {
            Some(v) => lookup(addr_view(s), k) == Some(v@),
            None => lookup(addr_view(s), k) is None,
        },
{
    lemma_addr_index(s, k);
    crate::common::keyed::lemma_key_index(s, k);
}

/// The IDs other than `id`.
pub open spec fn other_ids(ids: Seq<IkeSaId>, id: IkeSaId) -> Seq<IkeSaId> {
    ids.filter(|x: IkeSaId| x.key_bytes() != id.key_bytes())
}

/// Keeps the IDs other than `id`.
fn retain_other_ids(ids: &mut Vec<IkeSaId>, id: &IkeSaId)
    ensures
        final(ids)@ == other_ids(old(ids)@, *id),
{
    let ghost f = |x: IkeSaId| x.key_bytes() != id.key_bytes();
    let ghost m = ids@;
    let mut kept: Vec<IkeSaId> = Vec::new();
    let mut i: usize = 0;
    assert(m.take(0).filter(f) =~= Seq::<IkeSaId>::empty());
    while i < ids.len()
        invariant
            i <= m.len(),
            m == ids@,
            m == old(ids)@,
            f == (|x: IkeSaId| x.key_bytes() != id.key_bytes()),
            kept@ == m.take(i as int).filter(f),
        decreases m.len() - i,
    {
        reveal_with_fuel(Seq::<_>::filter, 1);
        assert(m.take(i + 1).drop_last() =~= m.take(i as int));
        let x = ids[i];
        if !x.same_key(id) {
            kept.push(x);
        }
        i = i + 1;
    }
    assert(m.take(i as int) =~= m);
    *ids = kept;
}

} // verus!
