pub mod ah;
pub mod error;
pub mod esp;
pub mod sa;
pub mod mode;
pub mod ikev2;

pub use error::{IpsecError, constant_time_compare};
pub use ah::{AhHeader, AhPacket, AH_HEADER_MIN_LEN};
pub use esp::{EspHeader, EspTrailer, EspPacket, ESP_HEADER_MIN_LEN};
pub use sa::{
    SecurityAssociation, SaDirection, IpsecMode, IpsecProtocol, SecurityPolicy, PolicyAction, TrafficSelector,
    CipherTransform, AuthTransform, SadEntry, SpdEntry, SadManager, SpdManager, ReplayWindow, SaState,
};

use vstd::prelude::*;

verus! {

/// Protocol number of AH.
pub const IP_PROTO_AH: u8 = 51;
/// Protocol number of ESP.
pub const IP_PROTO_ESP: u8 = 50;
/// Default size of the anti-replay window.
pub const DEFAULT_REPLAY_WINDOW_SIZE: usize = 64;
/// Default ICV length (HMAC-SHA1-96).
pub const DEFAULT_ICV_SIZE: usize = 12;
/// ESP padding alignment in bytes.
pub const ESP_PAD_ALIGN: usize = 4;

} // verus!
