use vstd::prelude::*;
use crate::common::error::{CoreError, core_error_debug};
use super::ikev2::types::{IkeError, ike_error_debug};
use crate::common::text::join_text;

verus! {

/// Errors of IPsec processing.
#[derive(Debug, Clone, PartialEq)]
pub enum IpsecError {
    ParseError(String),
    InvalidSa,
    SaNotFound,
    InvalidSpi,
    /// The integrity check value does not match.
    IcvMismatch,
    ReplayDetected,
    CryptoError(String),
    AuthError(String),
    PolicyMismatch,
    InvalidLength,
    UnsupportedCipher,
    UnsupportedAuth,
    Other(String),
}

impl IpsecError {
    /// The error's text.
    pub open spec fn text(&self) -> Seq<char> {
        match self {
            IpsecError::ParseError(m) => "解析错误: "@ + m@,
            IpsecError::InvalidSa => "无效的 SA"@,
            IpsecError::SaNotFound => "SA 不存在"@,
            IpsecError::InvalidSpi => "无效的 SPI"@,
            IpsecError::IcvMismatch => "ICV 验证失败"@,
            IpsecError::ReplayDetected => "检测到重放攻击"@,
            IpsecError::CryptoError(m) => "加密错误: "@ + m@,
            IpsecError::AuthError(m) => "认证错误: "@ + m@,
            IpsecError::PolicyMismatch => "策略不匹配"@,
            IpsecError::InvalidLength => "无效的报文长度"@,
            IpsecError::UnsupportedCipher => "不支持的加密算法"@,
            IpsecError::UnsupportedAuth => "不支持的认证算法"@,
            IpsecError::Other(m) => "其他错误: "@ + m@,
        }
    }

    /// The error's text.
    pub fn to_string(&self) -> (r: String)
        ensures
            r@ == self.text(),
    {
        match self {
            IpsecError::ParseError(m) => join_text("解析错误: ", m.as_str()),
            IpsecError::InvalidSa => "无效的 SA".to_owned(),
            IpsecError::SaNotFound => "SA 不存在".to_owned(),
            IpsecError::InvalidSpi => "无效的 SPI".to_owned(),
            IpsecError::IcvMismatch => "ICV 验证失败".to_owned(),
            IpsecError::ReplayDetected => "检测到重放攻击".to_owned(),
            IpsecError::CryptoError(m) => join_text("加密错误: ", m.as_str()),
            IpsecError::AuthError(m) => join_text("认证错误: ", m.as_str()),
            IpsecError::PolicyMismatch => "策略不匹配".to_owned(),
            IpsecError::InvalidLength => "无效的报文长度".to_owned(),
            IpsecError::UnsupportedCipher => "不支持的加密算法".to_owned(),
            IpsecError::UnsupportedAuth => "不支持的认证算法".to_owned(),
            IpsecError::Other(m) => join_text("其他错误: ", m.as_str()),
        }
    }

    /// The IPsec error for a shared error: parse and packet errors keep
    /// their message as a parse error; others become `Other` with the shared
    /// error's debug text.
    pub fn from_core(err: CoreError) -> (r: Self)
        ensures
            err matches CoreError::ParseError(m) ==> (r matches IpsecError::ParseError(n) && n@ == m@),
            err matches CoreError::InvalidPacket(m) ==> (r matches IpsecError::ParseError(n) && n@ == m@),
            (err is UnsupportedProtocol || err is IpConflict) ==> (r matches IpsecError::Other(n)
                && n@ == core_error_debug(err)),
    {
        match err {
            CoreError::ParseError(m) => IpsecError::ParseError(m),
            CoreError::InvalidPacket(m) => IpsecError::ParseError(m),
            _ => IpsecError::Other(err.debug_string()),
        }
    }

    /// The IPsec error for an IKE error: parse, length and crypto errors
    /// carry over, a failed authentication becomes an authentication error,
    /// and the others become `Other` with "IKEv2: " and the IKE error's
    /// debug text.
    pub fn from_ike(err: IkeError) -> (r: Self)
        ensures
            err matches IkeError::ParseError(m) ==> (r matches IpsecError::ParseError(n) && n@ == m@),
            err is InvalidLength ==> r is InvalidLength,
            err is AuthenticationFailed ==> (r matches IpsecError::AuthError(n) && n@ == "认证失败"@),
            err matches IkeError::CryptoError(m) ==> (r matches IpsecError::CryptoError(n) && n@ == m@),
            !(err is ParseError || err is InvalidLength || err is AuthenticationFailed || err is CryptoError)
                ==> (r matches IpsecError::Other(n) && n@ == "IKEv2: "@ + ike_error_debug(err)),
    {
        match err {
            IkeError::ParseError(m) => IpsecError::ParseError(m),
            IkeError::InvalidLength => IpsecError::InvalidLength,
            IkeError::AuthenticationFailed => IpsecError::AuthError("认证失败".to_owned()),
            IkeError::CryptoError(m) => IpsecError::CryptoError(m),
            _ => {
                let d = err.debug_string();
                IpsecError::Other(join_text("IKEv2: ", d.as_str()))
            },
        }
    }
}

/// Whether `a` and `b` are equal, examining every byte whatever the
/// differences, so that the time taken does not depend on where they differ.
pub fn constant_time_compare(a: &[u8], b: &[u8]) -> (r: bool)
    ensures
        r == (a@ == b@),
{
    if a.len() != b.len() {
        return false;
    }
    let mut result: u8 = 0;
    let mut i: usize = 0;
    while i < a.len()
        invariant
            i <= a@.len() == b@.len(),
            (result == 0) == (forall|j: int| 0 <= j < i ==> a@[j] == b@[j]),
        decreases a@.len() - i,
    {
        let x = a[i];
        let y = b[i];
        assert((result | (x ^ y)) == 0 <==> (result == 0 && x == y)) by (bit_vector);
        result = result | (x ^ y);
        i = i + 1;
    }
    assert(result == 0 ==> a@ =~= b@);
    result == 0
}

} // verus!
