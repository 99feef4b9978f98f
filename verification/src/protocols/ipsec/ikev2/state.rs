use vstd::prelude::*;
use std::collections::VecDeque;
use crate::common::text::{join_text, append_text};
use super::types::IkeError;
use super::sa::{IkeRole, IkeSaState};

verus! {

/// States of the initiator.
#[derive(Debug, Clone, PartialEq, Eq, Structural)]
pub enum IkeInitiatorState {
    Idle,
    InitSent,
    AuthSent,
    Established,
    Rekeying,
    Deleting,
}

/// States of the responder.
#[derive(Debug, Clone, PartialEq, Eq, Structural)]
pub enum IkeResponderState {
    Idle,
    InitReceived,
    InitResponded,
    AuthReceived,
    Established,
    Rekeying,
    Deleting,
}

/// Events of the IKE state machines.
#[derive(Debug, Clone, PartialEq, Eq, Structural)]
pub enum IkeEvent {
    SendInitRequest,
    ReceiveInitResponse,
    ReceiveInitRequest,
    ReceiveAuthRequest,
    ReceiveAuthResponse,
    SendAuthRequest,
    StartRekey,
    ReceiveRekeyRequest,
    RekeyComplete,
    DeleteSa,
    ReceiveDeleteRequest,
    DeleteComplete,
    Timeout,
}

impl IkeEvent {
    /// The event's name.
    pub open spec fn name(&self) -> Seq<char> {
        match self {
            IkeEvent::SendInitRequest => "SendInitRequest"@,
            IkeEvent::ReceiveInitResponse => "ReceiveInitResponse"@,
            IkeEvent::ReceiveInitRequest => "ReceiveInitRequest"@,
            IkeEvent::ReceiveAuthRequest => "ReceiveAuthRequest"@,
            IkeEvent::ReceiveAuthResponse => "ReceiveAuthResponse"@,
            IkeEvent::SendAuthRequest => "SendAuthRequest"@,
            IkeEvent::StartRekey => "StartRekey"@,
            IkeEvent::ReceiveRekeyRequest => "ReceiveRekeyRequest"@,
            IkeEvent::RekeyComplete => "RekeyComplete"@,
            IkeEvent::DeleteSa => "DeleteSa"@,
            IkeEvent::ReceiveDeleteRequest => "ReceiveDeleteRequest"@,
            IkeEvent::DeleteComplete => "DeleteComplete"@,
            IkeEvent::Timeout => "Timeout"@,
        }
    }

    /// The event's name.
    pub fn name_str(&self) -> (r: &'static str)
        ensures
            r@ == self.name(),
    {
        match self {
            IkeEvent::SendInitRequest => "SendInitRequest",
            IkeEvent::ReceiveInitResponse => "ReceiveInitResponse",
            IkeEvent::ReceiveInitRequest => "ReceiveInitRequest",
            IkeEvent::ReceiveAuthRequest => "ReceiveAuthRequest",
            IkeEvent::ReceiveAuthResponse => "ReceiveAuthResponse",
            IkeEvent::SendAuthRequest => "SendAuthRequest",
            IkeEvent::StartRekey => "StartRekey",
            IkeEvent::ReceiveRekeyRequest => "ReceiveRekeyRequest",
            IkeEvent::RekeyComplete => "RekeyComplete",
            IkeEvent::DeleteSa => "DeleteSa",
            IkeEvent::ReceiveDeleteRequest => "ReceiveDeleteRequest",
            IkeEvent::DeleteComplete => "DeleteComplete",
            IkeEvent::Timeout => "Timeout",
        }
    }
}

/// The message of a refused transition.
pub open spec fn transition_error(state: Seq<char>, event: Seq<char>) -> Seq<char> {
    "无效的状态转换: "@ + state + " + "@ + event
}

fn transition_error_text(state: &str, event: &str) -> (r: String)
    ensures
        r@ == transition_error(state@, event@),
{
    let a = join_text("无效的状态转换: ", state);
    let b = append_text(a, " + ");
    append_text(b, event)
}

impl IkeInitiatorState {
    /// The state's name.
    pub open spec fn name(&self) -> Seq<char> {
        match self {
            IkeInitiatorState::Idle => "Idle"@,
            IkeInitiatorState::InitSent => "InitSent"@,
            IkeInitiatorState::AuthSent => "AuthSent"@,
            IkeInitiatorState::Established => "Established"@,
            IkeInitiatorState::Rekeying => "Rekeying"@,
            IkeInitiatorState::Deleting => "Deleting"@,
        }
    }

    fn name_str(&self) -> (r: &'static str)
        ensures
            r@ == self.name(),
    {
        match self {
            IkeInitiatorState::Idle => "Idle",
            IkeInitiatorState::InitSent => "InitSent",
            IkeInitiatorState::AuthSent => "AuthSent",
            IkeInitiatorState::Established => "Established",
            IkeInitiatorState::Rekeying => "Rekeying",
            IkeInitiatorState::Deleting => "Deleting",
        }
    }

    /// The state after `event`, if the event is allowed.
    pub open spec fn next(self, event: IkeEvent) -> Option<Self> {
        match (self, event) {
            (IkeInitiatorState::Idle, IkeEvent::SendInitRequest) => Some(IkeInitiatorState::InitSent),
            (IkeInitiatorState::InitSent, IkeEvent::ReceiveInitResponse) => Some(IkeInitiatorState::AuthSent),
            (IkeInitiatorState::AuthSent, IkeEvent::ReceiveAuthResponse) => Some(IkeInitiatorState::Established),
            (IkeInitiatorState::Established, IkeEvent::StartRekey) => Some(IkeInitiatorState::Rekeying),
            (IkeInitiatorState::Rekeying, IkeEvent::RekeyComplete) => Some(IkeInitiatorState::Established),
            (IkeInitiatorState::Established, IkeEvent::DeleteSa) => Some(IkeInitiatorState::Deleting),
            (IkeInitiatorState::Deleting, IkeEvent::DeleteComplete) => Some(IkeInitiatorState::Idle),
            _ => None,
        }
    }

    /// Takes `event`: an allowed event moves to the next state; any other
    /// leaves the state Idle and is refused.
    pub fn transition(&mut self, event: &IkeEvent) -> (r: Result<(), IkeError>)
        ensures
            match old(self).next(*event) {
                Some(n) => r is Ok && *final(self) == n,
                None => *final(self) == IkeInitiatorState::Idle && (r matches Err(IkeError::SaStateError(m))
                    && m@ == transition_error(old(self).name(), event.name())),
            },
    {
        let mut current = IkeInitiatorState::Idle;
        std::mem::swap(self, &mut current);
        let new_state = match (&current, event) {
            (IkeInitiatorState::Idle, IkeEvent::SendInitRequest) => IkeInitiatorState::InitSent,
            (IkeInitiatorState::InitSent, IkeEvent::ReceiveInitResponse) => IkeInitiatorState::AuthSent,
            (IkeInitiatorState::AuthSent, IkeEvent::ReceiveAuthResponse) => IkeInitiatorState::Established,
            (IkeInitiatorState::Established, IkeEvent::StartRekey) => IkeInitiatorState::Rekeying,
            (IkeInitiatorState::Rekeying, IkeEvent::RekeyComplete) => IkeInitiatorState::Established,
            (IkeInitiatorState::Established, IkeEvent::DeleteSa) => IkeInitiatorState::Deleting,
            (IkeInitiatorState::Deleting, IkeEvent::DeleteComplete) => IkeInitiatorState::Idle,
            _ => {
                return Err(IkeError::SaStateError(transition_error_text(current.name_str(), event.name_str())));
            },
        };
        *self = new_state;
        Ok(())
    }

    /// Whether data can be sent: only when established.
    pub fn can_send(&self) -> (r: bool)
        ensures
            r == (*self == IkeInitiatorState::Established),
    {
        match self {
            IkeInitiatorState::Established => true,
            _ => false,
        }
    }
}

impl IkeResponderState {
    /// The state's name.
    pub open spec fn name(&self) -> Seq<char> {
        match self {
            IkeResponderState::Idle => "Idle"@,
            IkeResponderState::InitReceived => "InitReceived"@,
            IkeResponderState::InitResponded => "InitResponded"@,
            IkeResponderState::AuthReceived => "AuthReceived"@,
            IkeResponderState::Established => "Established"@,
            IkeResponderState::Rekeying => "Rekeying"@,
            IkeResponderState::Deleting => "Deleting"@,
        }
    }

    fn name_str(&self) -> (r: &'static str)
        ensures
            r@ == self.name(),
    {
        match self {
            IkeResponderState::Idle => "Idle",
            IkeResponderState::InitReceived => "InitReceived",
            IkeResponderState::InitResponded => "InitResponded",
            IkeResponderState::AuthReceived => "AuthReceived",
            IkeResponderState::Established => "Established",
            IkeResponderState::Rekeying => "Rekeying",
            IkeResponderState::Deleting => "Deleting",
        }
    }

    /// The state after `event`, if the event is allowed.
    pub open spec fn next(self, event: IkeEvent) -> Option<Self> {
        match (self, event) {
            (IkeResponderState::Idle, IkeEvent::ReceiveInitRequest) => Some(IkeResponderState::InitResponded),
            (IkeResponderState::InitResponded, IkeEvent::ReceiveAuthRequest) => Some(IkeResponderState::Established),
            (IkeResponderState::Established, IkeEvent::ReceiveRekeyRequest) => Some(IkeResponderState::Rekeying),
            (IkeResponderState::Rekeying, IkeEvent::RekeyComplete) => Some(IkeResponderState::Established),
            (IkeResponderState::Established, IkeEvent::ReceiveDeleteRequest) => Some(IkeResponderState::Deleting),
            (IkeResponderState::Deleting, IkeEvent::DeleteComplete) => Some(IkeResponderState::Idle),
            _ => None,
        }
    }

    /// Takes `event`: an allowed event moves to the next state; any other
    /// leaves the state Idle and is refused.
    pub fn transition(&mut self, event: &IkeEvent) -> (r: Result<(), IkeError>)
        ensures
            match old(self).next(*event) {
                Some(n) => r is Ok && *final(self) == n,
                None => *final(self) == IkeResponderState::Idle && (r matches Err(IkeError::SaStateError(m))
                    && m@ == transition_error(old(self).name(), event.name())),
            },
    {
        let mut current = IkeResponderState::Idle;
        std::mem::swap(self, &mut current);
        let new_state = match (&current, event) {
            (IkeResponderState::Idle, IkeEvent::ReceiveInitRequest) => IkeResponderState::InitResponded,
            (IkeResponderState::InitResponded, IkeEvent::ReceiveAuthRequest) => IkeResponderState::Established,
            (IkeResponderState::Established, IkeEvent::ReceiveRekeyRequest) => IkeResponderState::Rekeying,
            (IkeResponderState::Rekeying, IkeEvent::RekeyComplete) => IkeResponderState::Established,
            (IkeResponderState::Established, IkeEvent::ReceiveDeleteRequest) => IkeResponderState::Deleting,
            (IkeResponderState::Deleting, IkeEvent::DeleteComplete) => IkeResponderState::Idle,
            _ => {
                return Err(IkeError::SaStateError(transition_error_text(current.name_str(), event.name_str())));
            },
        };
        *self = new_state;
        Ok(())
    }

    /// Whether data can be processed: only when established.
    pub fn can_process(&self) -> (r: bool)
        ensures
            r == (*self == IkeResponderState::Established),
    {
        match self {
            IkeResponderState::Established => true,
            _ => false,
        }
    }
}

/// The SA state shown for the state of a role.
pub open spec fn shown_state(role: IkeRole, i: IkeInitiatorState, r: IkeResponderState) -> IkeSaState {
    match role {
        IkeRole::Initiator => match i {
            IkeInitiatorState::Idle => IkeSaState::Idle,
            IkeInitiatorState::InitSent => IkeSaState::InitSent,
            IkeInitiatorState::AuthSent => IkeSaState::AuthSent,
            IkeInitiatorState::Established => IkeSaState::Established,
            IkeInitiatorState::Rekeying => IkeSaState::Established,
            IkeInitiatorState::Deleting => IkeSaState::Deleted,
        },
        IkeRole::Responder => match r {
            IkeResponderState::Idle => IkeSaState::Idle,
            IkeResponderState::InitReceived => IkeSaState::InitSent,
            IkeResponderState::InitResponded => IkeSaState::InitSent,
            IkeResponderState::AuthReceived => IkeSaState::AuthSent,
            IkeResponderState::Established => IkeSaState::Established,
            IkeResponderState::Rekeying => IkeSaState::Established,
            IkeResponderState::Deleting => IkeSaState::Deleted,
        },
    }
}

/// The IKE state machine of one role, with its retransmission count.
#[derive(Debug, Clone)]
pub struct IkeStateMachine {
    role: IkeRole,
    initiator_state: IkeInitiatorState,
    responder_state: IkeResponderState,
    event_queue: VecDeque<IkeEvent>,
    retransmit_count: u32,
    max_retransmit: u32,
}

impl IkeStateMachine {
    pub closed spec fn spec_role(&self) -> IkeRole {
        self.role
    }

    pub closed spec fn spec_initiator(&self) -> IkeInitiatorState {
        self.initiator_state
    }

    pub closed spec fn spec_responder(&self) -> IkeResponderState {
        self.responder_state
    }

    pub closed spec fn spec_retransmit(&self) -> u32 {
        self.retransmit_count
    }

    pub closed spec fn spec_max_retransmit(&self) -> u32 {
        self.max_retransmit
    }

    /// Well-formedness: no event is pending between calls.
    pub closed spec fn wf(&self) -> bool {
        self.event_queue@.len() == 0
    }

    /// A machine in state Idle with at most 3 retransmissions.
    pub fn new(role: IkeRole) -> (r: Self)
        ensures
            r.wf(),
            r.spec_role() == role,
            r.spec_initiator() == IkeInitiatorState::Idle,
            r.spec_responder() == IkeResponderState::Idle,
            r.spec_retransmit() == 0,
            r.spec_max_retransmit() == 3,
    {
        IkeStateMachine {
            role,
            initiator_state: IkeInitiatorState::Idle,
            responder_state: IkeResponderState::Idle,
            event_queue: VecDeque::new(),
            retransmit_count: 0,
            max_retransmit: 3,
        }
    }

    /// The SA state of the role's state (see `shown_state`).
    pub fn state(&self) -> (r: IkeSaState)
        ensures
            r == shown_state(self.spec_role(), self.spec_initiator(), self.spec_responder()),
    {
        match self.role {
            IkeRole::Initiator => match self.initiator_state {
                IkeInitiatorState::Idle => IkeSaState::Idle,
                IkeInitiatorState::InitSent => IkeSaState::InitSent,
                IkeInitiatorState::AuthSent => IkeSaState::AuthSent,
                IkeInitiatorState::Established => IkeSaState::Established,
                IkeInitiatorState::Rekeying => IkeSaState::Established,
                IkeInitiatorState::Deleting => IkeSaState::Deleted,
            },
            IkeRole::Responder => match self.responder_state {
                IkeResponderState::Idle => IkeSaState::Idle,
                IkeResponderState::InitReceived => IkeSaState::InitSent,
                IkeResponderState::InitResponded => IkeSaState::InitSent,
                IkeResponderState::AuthReceived => IkeSaState::AuthSent,
                IkeResponderState::Established => IkeSaState::Established,
                IkeResponderState::Rekeying => IkeSaState::Established,
                IkeResponderState::Deleting => IkeSaState::Deleted,
            },
        }
    }

    /// Applies `event` to the state of the machine's role; an applied event
    /// resets the retransmission count, a refused one leaves the state Idle.
    pub fn handle_event(&mut self, event: IkeEvent) -> (r: Result<(), IkeError>)
        requires
            old(self).wf(),
        ensures
            final(self).wf(),
            final(self).spec_role() == old(self).spec_role(),
            final(self).spec_max_retransmit() == old(self).spec_max_retransmit(),
            old(self).spec_role() == IkeRole::Initiator ==> final(self).spec_responder() == old(self).spec_responder()
                && match old(self).spec_initiator().next(event) {
                    Some(n) => r is Ok && final(self).spec_initiator() == n && final(self).spec_retransmit() == 0,
                    None => final(self).spec_initiator() == IkeInitiatorState::Idle
                        && final(self).spec_retransmit() == old(self).spec_retransmit()
                        && (r matches Err(IkeError::SaStateError(m))
                        && m@ == transition_error(old(self).spec_initiator().name(), event.name())),
                },
            old(self).spec_role() == IkeRole::Responder ==> final(self).spec_initiator() == old(self).spec_initiator()
                && match old(self).spec_responder().next(event) {
                    Some(n) => r is Ok && final(self).spec_responder() == n && final(self).spec_retransmit() == 0,
                    None => final(self).spec_responder() == IkeResponderState::Idle
                        && final(self).spec_retransmit() == old(self).spec_retransmit()
                        && (r matches Err(IkeError::SaStateError(m))
                        && m@ == transition_error(old(self).spec_responder().name(), event.name())),
                },
    {
        let ghost ev = event;
        self.event_queue.push_back(event);
        loop
            invariant
                ev == event,
                self.event_queue@.len() <= 1,
                self.role == old(self).role,
                self.max_retransmit == old(self).max_retransmit,
                self.event_queue@.len() == 1 ==> self.event_queue@[0] == ev && self.initiator_state == old(self).initiator_state
                    && self.responder_state == old(self).responder_state
                    && self.retransmit_count == old(self).retransmit_count,
                self.event_queue@.len() == 0 ==> self.retransmit_count == 0 && (old(self).role == IkeRole::Initiator
                    ==> old(self).initiator_state.next(ev) == Some(self.initiator_state)
                        && self.responder_state == old(self).responder_state)
                    && (old(self).role == IkeRole::Responder
                    ==> old(self).responder_state.next(ev) == Some(self.responder_state)
                        && self.initiator_state == old(self).initiator_state),
            ensures
                self.event_queue@.len() == 0,
                self.role == old(self).role,
                self.max_retransmit == old(self).max_retransmit,
                self.retransmit_count == 0,
                old(self).role == IkeRole::Initiator ==> old(self).initiator_state.next(ev) == Some(self.initiator_state)
                    && self.responder_state == old(self).responder_state,
                old(self).role == IkeRole::Responder ==> old(self).responder_state.next(ev) == Some(self.responder_state)
                    && self.initiator_state == old(self).initiator_state,
            decreases self.event_queue@.len(),
        {
            let next = self.event_queue.pop_front();
            match next {
                Some(e) => {
                    match self.role {
                        IkeRole::Initiator => {
                            match self.initiator_state.transition(&e) {
                                Ok(()) => {},
                                Err(err) => {
                                    return Err(err);
                                },
                            }
                        },
                        IkeRole::Responder => {
                            match self.responder_state.transition(&e) {
                                Ok(()) => {},
                                Err(err) => {
                                    return Err(err);
                                },
                            }
                        },
                    }
                    self.retransmit_count = 0;
                },
                None => {
                    break;
                },
            }
        }
        Ok(())
    }

    pub fn initiator_state(&self) -> (r: &IkeInitiatorState)
        ensures
            *r == self.spec_initiator(),
    {
        &self.initiator_state
    }

    pub fn responder_state(&self) -> (r: &IkeResponderState)
        ensures
            *r == self.spec_responder(),
    {
        &self.responder_state
    }

    /// Counts one more retransmission.
    pub fn increment_retransmit(&mut self)
        requires
            old(self).spec_retransmit() < u32::MAX,
        ensures
            final(self).spec_retransmit() == old(self).spec_retransmit() + 1,
            final(self).spec_role() == old(self).spec_role(),
            final(self).spec_initiator() == old(self).spec_initiator(),
            final(self).spec_responder() == old(self).spec_responder(),
            final(self).spec_max_retransmit() == old(self).spec_max_retransmit(),
            final(self).wf() == old(self).wf(),
    {
        self.retransmit_count = self.retransmit_count + 1;
    }

    pub fn retransmit_count(&self) -> (r: u32)
        ensures
            r == self.spec_retransmit(),
    {
        self.retransmit_count
    }

    /// Whether the retransmissions reached the maximum.
    pub fn is_retransmit_exceeded(&self) -> (r: bool)
        ensures
            r == (self.spec_retransmit() >= self.spec_max_retransmit()),
    {
        self.retransmit_count >= self.max_retransmit
    }

    pub fn set_max_retransmit(&mut self, max: u32)
        ensures
            final(self).spec_max_retransmit() == max,
            final(self).spec_retransmit() == old(self).spec_retransmit(),
            final(self).spec_role() == old(self).spec_role(),
            final(self).spec_initiator() == old(self).spec_initiator(),
            final(self).spec_responder() == old(self).spec_responder(),
            final(self).wf() == old(self).wf(),
    {
        self.max_retransmit = max;
    }
}

impl Default for IkeStateMachine {
    fn default() -> (r: Self)
        ensures
            r.wf(),
            r.spec_role() == IkeRole::Initiator,
            r.spec_initiator() == IkeInitiatorState::Idle,
            r.spec_responder() == IkeResponderState::Idle,
            r.spec_retransmit() == 0,
            r.spec_max_retransmit() == 3,
    {
        Self::new(IkeRole::Initiator)
    }
}

/// The initiator starts rekeying or deletion only from Established.
pub proof fn lemma_initiator_rekey_only_when_established(s: IkeInitiatorState)
    ensures
        s.next(IkeEvent::StartRekey) is Some <==> s == IkeInitiatorState::Established,
        s.next(IkeEvent::DeleteSa) is Some <==> s == IkeInitiatorState::Established,
{
}

} // verus!
