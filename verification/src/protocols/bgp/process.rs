use vstd::prelude::*;
use super::error::BgpError;
use super::message::{BgpKeepalive, BgpMessage};
use super::packet::{encapsulate_bgp_message, parse_bgp_message};

verus! {

/// What to do after a BGP message.
#[derive(Debug, Clone, PartialEq)]
pub enum BgpProcessResult {
    NoReply,
    /// Send these bytes back.
    Reply(Vec<u8>),
    ConnectionEstablished,
    ConnectionClosed,
}

/// The answer to a message: an OPEN is answered with the bytes of a
/// KEEPALIVE, a NOTIFICATION closes the connection, anything else needs no
/// reply.
pub fn respond_to_message(message: &BgpMessage) -> (r: BgpProcessResult)
    ensures
        message is Open ==> (r matches BgpProcessResult::Reply(v) && v@ == Seq::<u8>::empty()),
        message is Notification ==> r == BgpProcessResult::ConnectionClosed,
        (message is Update || message is Keepalive || message is RouteRefresh) ==> r == BgpProcessResult::NoReply,
{
    match message {
        BgpMessage::Open(_) => {
            let keepalive = BgpMessage::Keepalive(BgpKeepalive);
            let response = encapsulate_bgp_message(&keepalive);
            BgpProcessResult::Reply(response)
        },
        BgpMessage::Update(_) => BgpProcessResult::NoReply,
        BgpMessage::Notification(_) => BgpProcessResult::ConnectionClosed,
        BgpMessage::Keepalive(_) => BgpProcessResult::NoReply,
        _ => BgpProcessResult::NoReply,
    }
}

/// Handles a received BGP message: reads it and answers it. Since messages
/// are not parsed, every input is refused as message type 0.
pub fn process_bgp_packet(data: &[u8]) -> (r: Result<BgpProcessResult, BgpError>)
    ensures
        r matches Err(BgpError::InvalidMessageType(t)) && t == 0,
{
    let message = match parse_bgp_message(data) {
        Ok(m) => m,
        Err(e) => { return Err(e); },
    };
    Ok(respond_to_message(&message))
}

} // verus!
