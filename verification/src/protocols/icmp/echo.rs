use vstd::prelude::*;
use crate::common::error::CoreError;
use crate::protocols::common::addr::Ipv4Addr;
use crate::protocols::ip::fragment::elapsed_ms;
use super::packet::IcmpEcho;
use super::global::{PendingEcho, EchoManager, echo_index, kept_after, after_add, after_remove, rtt_of};
use super::types::{ICMP_TYPE_ECHO_REQUEST, ICMP_TYPE_ECHO_REPLY};

verus! {

/// The outcome of handling an echo message.
#[derive(Debug, Clone, PartialEq)]
pub enum EchoProcessResult {
    NoReply,
    Reply(IcmpEcho),
    Matched { identifier: u16, sequence: u16, rtt_ms: u64 },
}

/// Answers an echo request addressed to `our_ip`; nothing for other messages
/// or when our address is unspecified.
pub fn handle_echo_request(echo: &IcmpEcho, our_ip: Ipv4Addr) -> (r: Result<EchoProcessResult, CoreError>)
    ensures
        echo.type_ != ICMP_TYPE_ECHO_REQUEST || our_ip.bytes@ == seq![0u8, 0, 0, 0]
            ==> r == Ok::<EchoProcessResult, CoreError>(EchoProcessResult::NoReply),
        echo.type_ == ICMP_TYPE_ECHO_REQUEST && our_ip.bytes@ != seq![0u8, 0, 0, 0]
            ==> (r matches Ok(EchoProcessResult::Reply(reply)) && reply.type_ == ICMP_TYPE_ECHO_REPLY
                && reply.code == 0 && reply.checksum == 0 && reply.identifier == echo.identifier
                && reply.sequence == echo.sequence && reply.data@ == echo.data@),
{
    if !echo.is_request() {
        return Ok(EchoProcessResult::NoReply);
    }
    if our_ip.is_zero() {
        return Ok(EchoProcessResult::NoReply);
    }
    Ok(EchoProcessResult::Reply(echo.make_reply()))
}

/// Matches an echo reply against the pending requests, removing the match.
pub fn handle_echo_reply(echo: &IcmpEcho, source_addr: Ipv4Addr, echo_manager: &mut EchoManager, now: u64)
    -> (r: Result<EchoProcessResult, CoreError>)
    ensures
        echo.type_ != ICMP_TYPE_ECHO_REPLY ==> r == Ok::<EchoProcessResult, CoreError>(EchoProcessResult::NoReply)
            && final(echo_manager).spec_pending() == old(echo_manager).spec_pending(),
        echo.type_ == ICMP_TYPE_ECHO_REPLY ==> final(echo_manager).spec_pending() == after_remove(
            old(echo_manager).spec_pending(), echo.identifier, echo.sequence),
        echo.type_ == ICMP_TYPE_ECHO_REPLY && echo_index(old(echo_manager).spec_pending(), echo.identifier, echo.sequence) is Some
            ==> r == Ok::<EchoProcessResult, CoreError>(EchoProcessResult::Matched {
                identifier: echo.identifier,
                sequence: echo.sequence,
                rtt_ms: rtt_of(old(echo_manager).spec_pending(), echo.identifier, echo.sequence, now),
            }),
        echo.type_ == ICMP_TYPE_ECHO_REPLY && echo_index(old(echo_manager).spec_pending(), echo.identifier, echo.sequence) is None
            ==> r == Ok::<EchoProcessResult, CoreError>(EchoProcessResult::NoReply),
        final(echo_manager).spec_timeout() == old(echo_manager).spec_timeout(),
        final(echo_manager).spec_max() == old(echo_manager).spec_max(),
{
    if !echo.is_reply() {
        return Ok(EchoProcessResult::NoReply);
    }
    match echo_manager.remove_pending(echo.identifier, echo.sequence) {
        Some(pending) => Ok(EchoProcessResult::Matched {
            identifier: echo.identifier,
            sequence: echo.sequence,
            rtt_ms: pending.rtt(now),
        }),
        None => Ok(EchoProcessResult::NoReply),
    }
}

/// Registers an outgoing echo request.
pub fn register_echo_request(identifier: u16, sequence: u16, destination: Ipv4Addr, echo_manager: &mut EchoManager, now: u64)
    -> (r: Result<(), CoreError>)
    ensures
        final(echo_manager).spec_timeout() == old(echo_manager).spec_timeout(),
        final(echo_manager).spec_max() == old(echo_manager).spec_max(),
        ({
            let kept = kept_after(old(echo_manager).spec_pending(), now, old(echo_manager).spec_timeout());
            let p = PendingEcho { identifier, sequence, sent_at: now, destination };
            &&& kept.len() >= old(echo_manager).spec_max() ==> (r matches Err(CoreError::ParseError(_)))
                && final(echo_manager).spec_pending() == kept
            &&& kept.len() < old(echo_manager).spec_max() ==> r is Ok && final(echo_manager).spec_pending() == after_add(kept, p)
        }),
{
    let pending = PendingEcho::new(identifier, sequence, destination, now);
    match echo_manager.add_pending(pending, now) {
        Ok(()) => Ok(()),
        Err(_) => Err(CoreError::parse_error("注册Echo请求失败: Echo管理器已满")),
    }
}

/// Drops expired echo requests.
pub fn cleanup_echo_timeouts(echo_manager: &mut EchoManager, now: u64)
    ensures
        final(echo_manager).spec_pending() == kept_after(old(echo_manager).spec_pending(), now, old(echo_manager).spec_timeout()),
        final(echo_manager).spec_timeout() == old(echo_manager).spec_timeout(),
        final(echo_manager).spec_max() == old(echo_manager).spec_max(),
{
    echo_manager.cleanup_timeouts(now);
}

} // verus!
