use vstd::prelude::*;
use super::error::BgpError;
use super::message::BgpMessage;

verus! {

/// Reads a BGP message. Message parsing is not provided: every input is
/// refused as message type 0.
pub fn parse_bgp_message(_data: &[u8]) -> (r: Result<BgpMessage, BgpError>)
    ensures
        r matches Err(BgpError::InvalidMessageType(t)) && t == 0,
{
    Err(BgpError::InvalidMessageType(0))
}

/// Writes a BGP message. Message encoding is not provided: the result is
/// always empty.
pub fn encapsulate_bgp_message(_msg: &BgpMessage) -> (r: Vec<u8>)
    ensures
        r@ == Seq::<u8>::empty(),
{
    Vec::new()
}

} // verus!
