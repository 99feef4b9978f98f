pub mod types;
pub mod payload;
pub mod message;
pub mod sa;
pub mod state;
pub mod crypto;
pub mod processor;

pub use types::{
    IkeExchangeType, IkeFlags, IkePayloadType, IkeProtocolId, IkeTransformType, IkeIdType, IkeAuthMethod,
    IkeDhGroup, IkeError, IkeResult, IKEV2_PORT, IKEV2_NAT_PORT, IKEV2_VERSION, IKE_HEADER_LEN, SPI_LEN,
};
pub use message::{IkeHeader, IkeMessage};
pub use payload::{
    IkePayload, IkePayloadHeader, IkeSaPayload, IkeProposal, IkeTransform, IkeTransformAttribute, IkeKePayload,
    IkeIdPayload, IkeCertPayload, IkeCertReqPayload, IkeAuthPayload, IkeNoncePayload, IkeNotifyPayload,
    IkeDeletePayload, IkeVendorPayload, IkeTsPayload, TrafficSelector, TsType,
};
pub use sa::{IkeSaEntry, IkeSaId, IkeSaState, IkeRole, IkeKeyMaterial, IkeSaConfig, IkeSaManager};
pub use state::{IkeStateMachine, IkeInitiatorState, IkeResponderState, IkeEvent};
pub use crypto::{IkeCrypto, IkePseudoRandomFunction, generate_random_spi, generate_random_nonce, compute_dh_shared, compute_key_material};
pub use processor::IkeProcessor;
