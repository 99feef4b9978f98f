use vstd::prelude::*;
use crate::common::addr::IpAddr;
use crate::common::keyed::{ByteKey, key_index, lookup};
use super::types::{
    IkeExchangeType, IkeFlags, IkePayloadType, IkeProtocolId, IkeTransformType, IkeIdType, IkeAuthMethod, IkeError,
    IKEV2_VERSION,
};
use super::message::{IkeHeader, IkeMessage};
use super::payload::{
    IkePayload, IkeSaPayload, IkeProposal, IkeTransform, IkeKePayload, IkeIdPayload, IkeAuthPayload, IkeNoncePayload,
    ProposalModel, TransformModel, proposals_view, transforms_view, attrs_view, AttrModel, IkeTransformAttribute,
};
use super::sa::{IkeSaEntry, IkeSaConfig, IkeSaManager, IkeSaState, IkeRole, zero_spi};
use super::crypto::{
    generate_dh_keypair, generate_random_nonce, compute_dh_shared, compute_key_material, generate_random_spi,
    random_bytes, spi_from, dh_private_byte,
};

verus! {

/// The one proposal of an IKE_SA_INIT request for DH group `group`:
/// AES-CBC (14), HMAC-SHA1 as PRF (2) and integrity (2), then the group,
/// none with attributes.
pub open spec fn init_proposal(group: u16) -> ProposalModel {
    ProposalModel {
        is_last: true,
        proposal_num: 1,
        protocol_id: IkeProtocolId::Ike,
        spi_size: 0,
        num_transforms: 4,
        spi: Seq::empty(),
        transforms: seq![
            TransformModel { is_last: false, transform_type: IkeTransformType::Encryption, transform_id: 14,
                attributes: Seq::empty() },
            TransformModel { is_last: false, transform_type: IkeTransformType::Prf, transform_id: 2,
                attributes: Seq::empty() },
            TransformModel { is_last: false, transform_type: IkeTransformType::Integrity, transform_id: 2,
                attributes: Seq::empty() },
            TransformModel { is_last: true, transform_type: IkeTransformType::DhGroup, transform_id: group,
                attributes: Seq::empty() },
        ],
    }
}

/// Position of the first payload of type `t`.
pub open spec fn payload_index(ps: Seq<IkePayload>, t: IkePayloadType) -> Option<nat>
    decreases ps.len(),
{
    if ps.len() == 0 {
        None
    } else if ps[0].payload_type() == t {
        Some(0)
    } else {
        match payload_index(ps.drop_first(), t) {
            Some(i) => Some(i + 1),
            None => None,
        }
    }
}

proof fn lemma_payload_index(ps: Seq<IkePayload>, t: IkePayloadType)
    ensures
        payload_index(ps, t) matches Some(i) ==> i < ps.len() && ps[i as int].payload_type() == t
            && forall|j: int| 0 <= j < i ==> (#[trigger] ps[j]).payload_type() != t,
        payload_index(ps, t) is None ==> forall|j: int| 0 <= j < ps.len() ==> (#[trigger] ps[j]).payload_type() != t,
    decreases ps.len(),
{
    if ps.len() > 0 && ps[0].payload_type() != t {
        lemma_payload_index(ps.drop_first(), t);
        assert forall|j: int| 0 < j < ps.len() implies #[trigger] ps[j] == ps.drop_first()[j - 1] by {}
    }
}

/// Whether the message has a payload of type `t`.
pub open spec fn has_payload(m: IkeMessage, t: IkePayloadType) -> bool {
    payload_index(m.payloads@, t) is Some
}

/// The proposals of the message's first SA payload.
pub open spec fn first_sa_proposals(m: IkeMessage) -> Seq<ProposalModel> {
    match payload_index(m.payloads@, IkePayloadType::SA) {
        Some(i) => match m.payloads@[i as int] {
            IkePayload::SA(p) => proposals_view(p.proposals@),
            _ => Seq::empty(),
        },
        None => Seq::empty(),
    }
}

/// The header of the response to `h`: same SPIs, exchange and message ID,
/// version 2.0, response flag set, initiator flag kept.
pub open spec fn response_header(h: IkeHeader, next: IkePayloadType, length: u32) -> IkeHeader {
    IkeHeader {
        next_payload: next.value(),
        version: IKEV2_VERSION,
        flags: IkeFlags { initiator: h.flags.initiator, version: false, response: true },
        length,
        ..h
    }
}

/// The SPI by which a message's SA is looked up: the responder's when set,
/// otherwise the initiator's.
pub open spec fn lookup_spi(h: IkeHeader) -> Seq<u8> {
    if h.responder_spi@ == zero_spi() { h.initiator_spi@ } else { h.responder_spi@ }
}

/// Whether the SA database has an SA for this SPI.
pub open spec fn has_sa_for(m: IkeSaManager, spi: Seq<u8>) -> bool {
    lookup(m.spi_entries(), spi) matches Some(id) && key_index(m.sa_entries(), id.key_bytes()) is Some
}

/// The fixed public key this library uses.
pub open spec fn fixed_public_key() -> Seq<u8> {
    Seq::new(32, |i: int| dh_private_byte(i as u32).wrapping_add(0x13))
}

/// Whether `r` is the answer to an IKE_SA_INIT request `m`: the accepted
/// first proposal, the fixed public key of the group, a fresh nonce, a
/// fresh responder SPI.
pub open spec fn init_response(m: IkeMessage, group: super::types::IkeDhGroup, r: IkeMessage) -> bool {
    &&& r.header == IkeHeader {
        responder_spi: r.header.responder_spi,
        ..response_header(m.header, IkePayloadType::SA, 0)
    }
    &&& exists|t: u64| r.header.responder_spi@ == #[trigger] spi_from(t)
    &&& r.payloads@.len() == 3
    &&& r.payloads@[0] matches IkePayload::SA(p) && p.next_payload == IkePayloadType::KE && !p.critical
        && proposals_view(p.proposals@) == seq![first_sa_proposals(m)[0]]
    &&& r.payloads@[1] matches IkePayload::KE(k) && k.next_payload == IkePayloadType::Nonce && !k.critical
        && k.dh_group == group && k.public_key@ == fixed_public_key()
    &&& r.payloads@[2] matches IkePayload::Nonce(n) && n.next_payload == IkePayloadType::NoNext && !n.critical
        && exists|t: u64| n.nonce_data@ == #[trigger] random_bytes(t, 32)
}

/// Whether `r` is the answer to an IKE_AUTH request `m`: the identity
/// 10.0.0.1 and 32 zero bytes of authentication data by shared key.
pub open spec fn auth_response(m: IkeMessage, r: IkeMessage) -> bool {
    &&& r.header == response_header(m.header, IkePayloadType::IDr, 0)
    &&& r.payloads@.len() == 2
    &&& r.payloads@[0] matches IkePayload::IDr(p) && p.next_payload == IkePayloadType::AUTH && !p.critical
        && p.id_type == IkeIdType::IdIpv4Addr && p.protocol_id is None && p.port is None
        && p.id_data@ == seq![10u8, 0u8, 0u8, 1u8]
    &&& r.payloads@[1] matches IkePayload::AUTH(a) && a.next_payload == IkePayloadType::NoNext && !a.critical
        && a.auth_method == IkeAuthMethod::SharedKey && a.auth_data@ == Seq::new(32, |_i: int| 0u8)
}

/// Whether `r` is the empty acknowledgement of `m`.
pub open spec fn ack_response(m: IkeMessage, r: IkeMessage) -> bool {
    r.header == response_header(m.header, IkePayloadType::NoNext, 28) && r.payloads@.len() == 0
}

/// What processing `m` gives once the SA is found or created and the
/// header checked: `Ok(None)` when nothing is sent back; for a request
/// with what it needs, a response as the predicates above say.
pub open spec fn exchange_outcome(m: IkeMessage, group: super::types::IkeDhGroup, r: Result<Option<IkeMessage>, IkeError>) -> bool {
    let missing = "缺少必需的 Payload"@;
    match m.header.exchange_type {
        IkeExchangeType::IkeSaInit => if m.header.flags.response {
            if has_payload(m, IkePayloadType::KE) && has_payload(m, IkePayloadType::Nonce) {
                r == Ok::<Option<IkeMessage>, IkeError>(None)
            } else {
                r matches Err(IkeError::ParseError(e)) && e@ == missing
            }
        } else if !(has_payload(m, IkePayloadType::SA) && has_payload(m, IkePayloadType::KE)
            && has_payload(m, IkePayloadType::Nonce)) {
            r matches Err(IkeError::ParseError(e)) && e@ == missing
        } else if first_sa_proposals(m).len() == 0 {
            r matches Err(IkeError::ParseError(e)) && e@ == "没有提议"@
        } else {
            r matches Ok(Some(resp)) && init_response(m, group, resp)
        },
        IkeExchangeType::IkeAuth => if !has_payload(m, IkePayloadType::AUTH) {
            r == Err::<Option<IkeMessage>, IkeError>(IkeError::AuthenticationFailed)
        } else if m.header.flags.response {
            r == Ok::<Option<IkeMessage>, IkeError>(None)
        } else {
            r matches Ok(Some(resp)) && auth_response(m, resp)
        },
        IkeExchangeType::CreateChildSa => r matches Ok(Some(resp)) && ack_response(m, resp),
        IkeExchangeType::Informational => if has_payload(m, IkePayloadType::Delete) {
            r matches Ok(Some(resp)) && ack_response(m, resp)
        } else {
            r == Ok::<Option<IkeMessage>, IkeError>(None)
        },
    }
}

/// The IKEv2 processor: the SA database, the local address and the settings.
pub struct IkeProcessor {
    sa_manager: IkeSaManager,
    local_addr: IpAddr,
    config: IkeSaConfig,
}

/// Finds the first payload of type `t`.
fn find_payload(m: &IkeMessage, t: IkePayloadType) -> (r: Option<usize>)
    ensures
        match payload_index(m.payloads@, t) {
            Some(i) => r == Some(i as usize),
            None => r is None,
        },
        r matches Some(i) ==> i < m.payloads@.len() && m.payloads@[i as int].payload_type() == t,
{
    proof { lemma_payload_index(m.payloads@, t); }
    let mut i: usize = 0;
    while i < m.payloads.len()
        invariant
            i <= m.payloads@.len(),
            forall|j: int| 0 <= j < i ==> (#[trigger] m.payloads@[j]).payload_type() != t,
            payload_index(m.payloads@, t) matches Some(k) ==> k < m.payloads@.len() && m.payloads@[k as int].payload_type() == t
                && forall|j: int| 0 <= j < k ==> (#[trigger] m.payloads@[j]).payload_type() != t,
            payload_index(m.payloads@, t) is None ==> forall|j: int| 0 <= j < m.payloads@.len() ==> (#[trigger] m.payloads@[j]).payload_type() != t,
        decreases m.payloads@.len() - i,
    {
        if m.payloads[i].get_type() == t {
            proof {
                if let Some(k) = payload_index(m.payloads@, t) {
                    if (k as int) < (i as int) { assert(m.payloads@[k as int].payload_type() != t); }
                    if (k as int) > (i as int) { assert(m.payloads@[i as int].payload_type() != t); }
                }
            }
            return Some(i);
        }
        i = i + 1;
    }
    None
}

impl IkeProcessor {
    /// The SA database.
    pub closed spec fn spec_manager(&self) -> IkeSaManager {
        self.sa_manager
    }

    /// The local address.
    pub closed spec fn spec_local_addr(&self) -> IpAddr {
        self.local_addr
    }

    /// The settings.
    pub closed spec fn spec_config(&self) -> IkeSaConfig {
        self.config
    }

    pub fn new(sa_manager: IkeSaManager, local_addr: IpAddr, config: IkeSaConfig) -> (r: Self)
        ensures
            r.spec_manager() == sa_manager,
            r.spec_local_addr() == local_addr,
            r.spec_config() == config,
    {
        IkeProcessor { sa_manager, local_addr, config }
    }

    /// The SA database.
    pub fn sa_manager(&self) -> (r: &IkeSaManager)
        ensures
            *r == self.spec_manager(),
    {
        &self.sa_manager
    }

    /// A copy of the settings between the local address and `remote_addr`.
    fn config_for(&self, remote_addr: IpAddr) -> (r: IkeSaConfig)
        ensures
            r.role == self.config.role,
            r.local_addr == self.local_addr,
            r.remote_addr == remote_addr,
            r.dh_group == self.config.dh_group,
            r.auth_method == self.config.auth_method,
            r.lifetime_soft_secs == self.config.lifetime_soft_secs,
            r.lifetime_hard_secs == self.config.lifetime_hard_secs,
            r.nat_traversal == self.config.nat_traversal,
    {
        IkeSaConfig {
            role: self.config.role,
            local_addr: self.local_addr,
            remote_addr,
            dh_group: self.config.dh_group,
            auth_method: self.config.auth_method,
            psk: None,
            lifetime_soft_secs: self.config.lifetime_soft_secs,
            lifetime_hard_secs: self.config.lifetime_hard_secs,
            nat_traversal: self.config.nat_traversal,
        }
    }

    /// Processes a received message: its SA is looked up by SPI (a request
    /// may start a new one, a response may not), the header is checked,
    /// then the exchange decides the answer (see `exchange_outcome`).
    pub fn process_message(&self, message: &IkeMessage, remote_addr: IpAddr, now_ms: u64) -> (r: Result<Option<IkeMessage>, IkeError>)
        requires
            self.spec_manager().wf(),
        ensures
            !has_sa_for(self.spec_manager(), lookup_spi(message.header)) && message.header.flags.response
                ==> r == Err::<Option<IkeMessage>, IkeError>(IkeError::SaNotFound),
            has_sa_for(self.spec_manager(), lookup_spi(message.header)) || !message.header.flags.response ==> {
                if message.header.version != IKEV2_VERSION {
                    r matches Err(IkeError::ParseError(e)) && e@ == "不支持的 IKE 版本"@
                } else if message.header.initiator_spi@ == zero_spi() {
                    r == Err::<Option<IkeMessage>, IkeError>(IkeError::InvalidSpi)
                } else if message.header.length > 65535 {
                    r == Err::<Option<IkeMessage>, IkeError>(IkeError::InvalidLength)
                } else {
                    exchange_outcome(*message, self.spec_config().dh_group, r)
                }
            },
    {
        let (_sa_entry, _is_new) = match self.lookup_or_create_sa(message, remote_addr, now_ms) {
            Ok(x) => x,
            Err(e) => {
                return Err(e);
            },
        };
        if message.header.version != IKEV2_VERSION {
            return Err(IkeError::ParseError("不支持的 IKE 版本".to_owned()));
        }
        let z: [u8; 8] = [0u8; 8];
        assert(z@ =~= zero_spi());
        if crate::common::bytes::bytes_eq(&message.header.initiator_spi, &z) {
            return Err(IkeError::InvalidSpi);
        }
        if message.header.length as usize > 65535 {
            return Err(IkeError::InvalidLength);
        }
        match message.exchange_type() {
            IkeExchangeType::IkeSaInit => self.handle_init_exchange(message),
            IkeExchangeType::IkeAuth => Self::handle_auth_exchange(message),
            IkeExchangeType::CreateChildSa => Ok(Some(Self::acknowledge(message))),
            IkeExchangeType::Informational => Self::handle_informational(message),
        }
    }

    /// Finds the message's SA by SPI, or makes a new one for a request
    /// (a responder one gets a fresh SPI and state InitSent).
    fn lookup_or_create_sa(&self, message: &IkeMessage, remote_addr: IpAddr, now_ms: u64) -> (r: Result<(IkeSaEntry, bool), IkeError>)
        requires
            self.sa_manager.wf(),
        ensures
            r is Err <==> !has_sa_for(self.spec_manager(), lookup_spi(message.header)) && message.header.flags.response,
            r matches Err(e) ==> e == IkeError::SaNotFound,
    {
        let z: [u8; 8] = [0u8; 8];
        assert(z@ =~= zero_spi());
        let spi = if crate::common::bytes::bytes_eq(&message.header.responder_spi, &z) {
            message.header.initiator_spi
        } else {
            message.header.responder_spi
        };
        match self.sa_manager.get_by_spi(&spi) {
            Some(existing) => {
                return Ok((existing.clone(), false));
            },
            None => {},
        }
        if message.is_response() {
            return Err(IkeError::SaNotFound);
        }
        let config = self.config_for(remote_addr);
        let mut sa_entry = IkeSaEntry::new(config, message.header.initiator_spi, now_ms);
        if !message.header.flags.initiator {
            sa_entry.set_responder_spi(generate_random_spi());
            sa_entry.set_state(IkeSaState::InitSent);
        }
        Ok((sa_entry, true))
    }

    /// IKE_SA_INIT: a response is checked, a request answered.
    fn handle_init_exchange(&self, message: &IkeMessage) -> (r: Result<Option<IkeMessage>, IkeError>)
        requires
            message.header.exchange_type == IkeExchangeType::IkeSaInit,
        ensures
            exchange_outcome(*message, self.spec_config().dh_group, r),
    {
        if message.is_response() {
            let ke = find_payload(message, IkePayloadType::KE);
            let nonce = find_payload(message, IkePayloadType::Nonce);
            if ke.is_none() || nonce.is_none() {
                return Err(IkeError::ParseError("缺少必需的 Payload".to_owned()));
            }
            Ok(None)
        } else {
            self.handle_init_request(message)
        }
    }

    /// Answers an IKE_SA_INIT request: accepts the first proposal, draws a
    /// responder SPI and nonce, derives keys, and sends SA, KE and Nonce.
    fn handle_init_request(&self, message: &IkeMessage) -> (r: Result<Option<IkeMessage>, IkeError>)
        requires
            message.header.exchange_type == IkeExchangeType::IkeSaInit,
            !message.header.flags.response,
        ensures
            exchange_outcome(*message, self.spec_config().dh_group, r),
    {
        let sa_i = find_payload(message, IkePayloadType::SA);
        let ke_i = find_payload(message, IkePayloadType::KE);
        let nonce_i = find_payload(message, IkePayloadType::Nonce);
        proof {
            lemma_payload_index(message.payloads@, IkePayloadType::SA);
            lemma_payload_index(message.payloads@, IkePayloadType::KE);
            lemma_payload_index(message.payloads@, IkePayloadType::Nonce);
        }
        let (sa_payload, ke_payload, nonce_payload) = match (sa_i, ke_i, nonce_i) {
            (Some(a), Some(b), Some(c)) => {
                assert(message.payloads@[a as int].payload_type() == IkePayloadType::SA);
                assert(message.payloads@[b as int].payload_type() == IkePayloadType::KE);
                assert(message.payloads@[c as int].payload_type() == IkePayloadType::Nonce);
                match (&message.payloads[a], &message.payloads[b], &message.payloads[c]) {
                    (IkePayload::SA(x), IkePayload::KE(y), IkePayload::Nonce(z)) => (x, y, z),
                    _ => {
                        return Err(IkeError::ParseError("缺少必需的 Payload".to_owned()));
                    },
                }
            },
            _ => {
                return Err(IkeError::ParseError("缺少必需的 Payload".to_owned()));
            },
        };
        if sa_payload.proposals.len() == 0 {
            return Err(IkeError::ParseError("没有提议".to_owned()));
        }
        let selected_proposal = &sa_payload.proposals[0];
        let responder_spi = generate_random_spi();
        let (dh_private, dh_public) = match generate_dh_keypair(self.config.dh_group) {
            Ok(k) => k,
            Err(e) => {
                return Err(e);
            },
        };
        let nr = generate_random_nonce(32);
        let dh_shared = match compute_dh_shared(self.config.dh_group, ke_payload.public_key.as_slice(), dh_private.as_slice()) {
            Ok(s) => s,
            Err(e) => {
                return Err(e);
            },
        };
        let _keymat = match compute_key_material(
            nonce_payload.nonce_data.as_slice(),
            nr.as_slice(),
            dh_shared.as_slice(),
            &message.header.initiator_spi,
            &responder_spi,
            32,
            32,
        ) {
            Ok(k) => k,
            Err(e) => {
                return Err(e);
            },
        };
        let mut proposals: Vec<IkeProposal> = Vec::new();
        proposals.push(selected_proposal.duplicate());
        let mut response_payloads: Vec<IkePayload> = Vec::new();
        response_payloads.push(IkePayload::SA(IkeSaPayload { next_payload: IkePayloadType::KE, critical: false, proposals }));
        response_payloads.push(IkePayload::KE(IkeKePayload {
            next_payload: IkePayloadType::Nonce,
            critical: false,
            dh_group: self.config.dh_group,
            public_key: dh_public,
        }));
        response_payloads.push(IkePayload::Nonce(IkeNoncePayload {
            next_payload: IkePayloadType::NoNext,
            critical: false,
            nonce_data: nr,
        }));
        let mut header = message.header.response(IkePayloadType::SA, 0);
        header.responder_spi = responder_spi;
        let response = IkeMessage::new(header, response_payloads);
        proof {
            assert(proposals_view(response.payloads@[0]->SA_0.proposals@) =~= seq![first_sa_proposals(*message)[0]]);
            assert(fixed_public_key() =~= response.payloads@[1]->KE_0.public_key@);
        }
        Ok(Some(response))
    }

    /// IKE_AUTH: the authentication payload must be there; a request is
    /// answered with the identity and authentication data.
    fn handle_auth_exchange(message: &IkeMessage) -> (r: Result<Option<IkeMessage>, IkeError>)
        requires
            message.header.exchange_type == IkeExchangeType::IkeAuth,
        ensures
            exchange_outcome(*message, super::types::IkeDhGroup::MODP2048, r),
    {
        if find_payload(message, IkePayloadType::AUTH).is_none() {
            return Err(IkeError::AuthenticationFailed);
        }
        if message.is_response() {
            return Ok(None);
        }
        let mut id_data: Vec<u8> = Vec::new();
        id_data.push(10);
        id_data.push(0);
        id_data.push(0);
        id_data.push(1);
        let id_payload = IkeIdPayload::new(IkePayloadType::AUTH, IkeIdType::IdIpv4Addr, id_data);
        let mut auth_data: Vec<u8> = Vec::new();
        crate::common::bytes::push_repeat(&mut auth_data, 0, 32);
        let auth_payload = IkeAuthPayload::new(IkePayloadType::NoNext, IkeAuthMethod::SharedKey, auth_data);
        let header = message.header.response(IkePayloadType::IDr, 0);
        let mut payloads: Vec<IkePayload> = Vec::new();
        payloads.push(IkePayload::IDr(id_payload));
        payloads.push(IkePayload::AUTH(auth_payload));
        let response = IkeMessage::new(header, payloads);
        assert(response.payloads@[0]->IDr_0.id_data@ =~= seq![10u8, 0u8, 0u8, 1u8]);
        Ok(Some(response))
    }

    /// The empty acknowledgement of a message.
    fn acknowledge(message: &IkeMessage) -> (r: IkeMessage)
        ensures
            ack_response(*message, r),
    {
        let header = message.header.response(IkePayloadType::NoNext, 28);
        IkeMessage::new(header, Vec::new())
    }

    /// INFORMATIONAL: a deletion is acknowledged; nothing else is answered.
    fn handle_informational(message: &IkeMessage) -> (r: Result<Option<IkeMessage>, IkeError>)
        requires
            message.header.exchange_type == IkeExchangeType::Informational,
        ensures
            exchange_outcome(*message, super::types::IkeDhGroup::MODP2048, r),
    {
        if find_payload(message, IkePayloadType::Delete).is_some() {
            return Ok(Some(Self::acknowledge(message)));
        }
        Ok(None)
    }

    /// Starts an IKE SA with `remote_addr`: a new SA with a fresh SPI is
    /// added to the database, and the IKE_SA_INIT request is returned with
    /// one proposal (AES-CBC, HMAC-SHA1 PRF and integrity, the group), the
    /// fixed public key and a fresh nonce.
    pub fn initiate_sa(&mut self, remote_addr: IpAddr, now_ms: u64) -> (r: Result<IkeMessage, IkeError>)
        requires
            old(self).spec_manager().wf(),
        ensures
            final(self).spec_manager().wf(),
            final(self).spec_config() == old(self).spec_config(),
            final(self).spec_local_addr() == old(self).spec_local_addr(),
            r matches Ok(m) && {
                &&& exists|t: u64| m.header.initiator_spi@ == #[trigger] spi_from(t)
                &&& m.header.responder_spi@ == zero_spi()
                &&& m.header.next_payload == IkePayloadType::SA.value()
                &&& m.header.exchange_type == IkeExchangeType::IkeSaInit
                &&& m.header.flags == (IkeFlags { initiator: true, version: false, response: false })
                &&& m.header.message_id == 0
                &&& m.payloads@.len() == 3
                &&& m.payloads@[0] matches IkePayload::SA(p) && p.next_payload == IkePayloadType::KE && !p.critical
                    && proposals_view(p.proposals@) == seq![init_proposal(old(self).spec_config().dh_group.value())]
                &&& m.payloads@[1] matches IkePayload::KE(k) && k.public_key@ == fixed_public_key()
                    && k.dh_group == old(self).spec_config().dh_group && k.next_payload == IkePayloadType::Nonce
                    && !k.critical
                &&& m.payloads@[2] matches IkePayload::Nonce(n) && exists|t: u64| n.nonce_data@ == #[trigger] random_bytes(t, 32)
                    && n.next_payload == IkePayloadType::NoNext && !n.critical
                &&& lookup(final(self).spec_manager().sa_entries(), m.header.initiator_spi@ + zero_spi()) matches Some(e)
                    && e.initiator_spi == m.header.initiator_spi && e.remote_addr == remote_addr
                    && e.local_addr == old(self).spec_local_addr() && e.state == IkeSaState::Idle
                    && e.created_ms == now_ms
            },
    {
        let initiator_spi = generate_random_spi();
        let config = self.config_for(remote_addr);
        let sa_entry = IkeSaEntry::new(config, initiator_spi, now_ms);
        let (_dh_private, dh_public) = match generate_dh_keypair(self.config.dh_group) {
            Ok(k) => k,
            Err(e) => {
                return Err(e);
            },
        };
        let ni = generate_random_nonce(32);
        let mut transforms: Vec<IkeTransform> = Vec::new();
        transforms.push(IkeTransform { is_last: false, transform_type: IkeTransformType::Encryption, transform_id: 14, attributes: Vec::new() });
        transforms.push(IkeTransform { is_last: false, transform_type: IkeTransformType::Prf, transform_id: 2, attributes: Vec::new() });
        transforms.push(IkeTransform { is_last: false, transform_type: IkeTransformType::Integrity, transform_id: 2, attributes: Vec::new() });
        transforms.push(IkeTransform {
            is_last: true,
            transform_type: IkeTransformType::DhGroup,
            transform_id: self.config.dh_group.as_u16(),
            attributes: Vec::new(),
        });
        let proposal = IkeProposal {
            is_last: true,
            proposal_num: 1,
            protocol_id: IkeProtocolId::Ike,
            spi_size: 0,
            num_transforms: 4,
            spi: Vec::new(),
            transforms,
        };
        let mut proposals: Vec<IkeProposal> = Vec::new();
        proposals.push(proposal);
        let sa_payload = IkeSaPayload { next_payload: IkePayloadType::KE, critical: false, proposals };
        let ke_payload = IkeKePayload {
            next_payload: IkePayloadType::Nonce,
            critical: false,
            dh_group: self.config.dh_group,
            public_key: dh_public,
        };
        let nonce_payload = IkeNoncePayload { next_payload: IkePayloadType::NoNext, critical: false, nonce_data: ni };
        let mut header = IkeHeader::init_request(initiator_spi);
        header.next_payload = IkePayloadType::SA.as_u8();
        let mut payloads: Vec<IkePayload> = Vec::new();
        payloads.push(IkePayload::SA(sa_payload));
        payloads.push(IkePayload::KE(ke_payload));
        payloads.push(IkePayload::Nonce(nonce_payload));
        let message = IkeMessage::new(header, payloads);
        let ghost id = sa_entry.id;
        let ghost entry = sa_entry;
        let _ = self.sa_manager.add(sa_entry);
        proof {
            crate::common::keyed::lemma_insert_then_lookup(old(self).sa_manager.sa_entries(), id.key_bytes(), entry);
            assert(id.key_bytes() =~= message.header.initiator_spi@ + zero_spi());
            assert(fixed_public_key() =~= message.payloads@[1]->KE_0.public_key@);
            let p = message.payloads@[0]->SA_0;
            assert(attrs_view(Seq::<IkeTransformAttribute>::empty()) =~= Seq::<AttrModel>::empty());
            assert(transforms_view(p.proposals@[0].transforms@) =~= init_proposal(self.config.dh_group.value()).transforms);
            assert(proposals_view(p.proposals@) =~= seq![init_proposal(self.config.dh_group.value())]);
        }
        Ok(message)
    }
}

} // verus!
