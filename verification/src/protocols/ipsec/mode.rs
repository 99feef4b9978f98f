use vstd::prelude::*;
use crate::protocols::ip::Ipv4Header;
use crate::common::bytes::{push_slice, copy_range};
use super::error::IpsecError;
use super::sa::SecurityAssociation;
use super::esp::{EspPacket, EspHeader, esp_padding_len};
use super::ah::{AhHeader, AhPacket, ah_payload_len, ah_icv};

verus! {

/// Transport-mode decapsulation: the first byte of the data names the
/// upper-layer protocol; the data is handed on whole.
pub fn decapsulate_transport(ipsec_data: &[u8], _ip_hdr: &Ipv4Header) -> (r: Result<(u8, Vec<u8>), IpsecError>)
    ensures
        ipsec_data@.len() == 0 ==> r == Err::<(u8, Vec<u8>), IpsecError>(IpsecError::InvalidLength),
        ipsec_data@.len() > 0 ==> (r matches Ok((nh, data)) && nh == ipsec_data@[0] && data@ == ipsec_data@),
{
    if ipsec_data.len() == 0 {
        return Err(IpsecError::InvalidLength);
    }
    let next_header = ipsec_data[0];
    let payload = copy_range(ipsec_data, 0, ipsec_data.len());
    assert(payload@ =~= ipsec_data@);
    Ok((next_header, payload))
}

/// Tunnel-mode decapsulation: the data is the inner IPv4 packet, whose
/// version field must be 4.
pub fn decapsulate_tunnel(ipsec_data: &[u8]) -> (r: Result<Vec<u8>, IpsecError>)
    ensures
        ipsec_data@.len() == 0 ==> r == Err::<Vec<u8>, IpsecError>(IpsecError::InvalidLength),
        ipsec_data@.len() > 0 && ipsec_data@[0] / 16 != 4 ==> (r matches Err(IpsecError::ParseError(m))
            && m@ == "不是有效的 IPv4 包"@),
        ipsec_data@.len() > 0 && ipsec_data@[0] / 16 == 4 ==> (r matches Ok(data) && data@ == ipsec_data@),
{
    if ipsec_data.len() == 0 {
        return Err(IpsecError::InvalidLength);
    }
    let first_byte = ipsec_data[0];
    if first_byte / 16 != 4 {
        return Err(IpsecError::ParseError("不是有效的 IPv4 包".to_owned()));
    }
    let data = copy_range(ipsec_data, 0, ipsec_data.len());
    assert(data@ =~= ipsec_data@);
    Ok(data)
}

/// Transport-mode encapsulation: the protocol number, then the data.
pub fn encapsulate_transport(payload: &[u8], next_header: u8) -> (r: Vec<u8>)
    ensures
        r@ == seq![next_header] + payload@,
{
    let mut result: Vec<u8> = Vec::new();
    result.push(next_header);
    push_slice(&mut result, payload);
    result
}

/// Tunnel-mode encapsulation: the inner packet as it is.
pub fn encapsulate_tunnel(inner_packet: &[u8]) -> (r: Vec<u8>)
    ensures
        r@ == inner_packet@,
{
    let r = copy_range(inner_packet, 0, inner_packet.len());
    assert(r@ =~= inner_packet@);
    r
}

/// An ESP message for `payload` under `sa`: the association's next
/// sequence number (its low 32 bits), padding for the cipher's block size
/// (1 without cipher); the payload is carried as it is.
pub fn create_esp_packet(sa: &mut SecurityAssociation, payload: Vec<u8>, next_header: u8) -> (r: Result<EspPacket, IpsecError>)
    requires
        old(sa).tx_sequence < u64::MAX,
        payload@.len() <= usize::MAX - 2,
    ensures
        *final(sa) == (SecurityAssociation { tx_sequence: (old(sa).tx_sequence + 1) as u64, ..*old(sa) }),
        r matches Ok(p) && {
            let bs: nat = match old(sa).cipher {
                Some(c) => c.spec_block_size() as nat,
                None => 1,
            };
            let pad = esp_padding_len(payload@.len(), bs);
            &&& p.header == (EspHeader { spi: old(sa).spi, sequence_number: old(sa).tx_sequence as u32 })
            &&& p.encrypted_data@ == payload@
            &&& p.trailer.pad_length == (pad % 256) as u8
            &&& p.trailer.next_header == next_header
            &&& p.trailer.padding@ == Seq::new(pad, |_i: int| 0u8)
            &&& p.icv is None
        },
{
    let block_size = match &sa.cipher {
        Some(c) => c.block_size(),
        None => 1,
    };
    let seq = sa.next_sequence() as u32;
    Ok(EspPacket::create_simple(sa.spi, seq, payload, next_header, block_size))
}

/// An AH message for `payload` under `sa`: the association's next sequence
/// number (its low 32 bits), a length field for the transform's ICV size,
/// and the ICV computed from the payload and the association's key.
pub fn create_ah_packet(sa: &mut SecurityAssociation, payload: Vec<u8>, next_header: u8) -> (r: Result<AhPacket, IpsecError>)
    requires
        old(sa).tx_sequence < u64::MAX,
    ensures
        *final(sa) == (SecurityAssociation { tx_sequence: (old(sa).tx_sequence + 1) as u64, ..*old(sa) }),
        r matches Ok(p) && {
            &&& p.header == (AhHeader {
                next_header,
                payload_len: ah_payload_len(old(sa).auth.spec_icv_size() as nat),
                spi: old(sa).spi,
                sequence_number: old(sa).tx_sequence as u32,
            })
            &&& p.icv@ == ah_icv(payload@, old(sa).auth_key@)
            &&& p.payload@ == payload@
        },
{
    let icv_len = sa.auth.icv_size();
    let seq = sa.next_sequence() as u32;
    let header = AhHeader::new(next_header, sa.spi, seq, icv_len);
    let icv = AhPacket::compute_icv(payload.as_slice(), sa.auth_key.as_slice(), icv_len);
    Ok(AhPacket { header, icv, payload })
}

} // verus!
