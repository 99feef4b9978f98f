//! A simulated network protocol stack: packet parsing and serialization,
//! checksums, fragmentation and reassembly, neighbour caches and IPsec/IKEv2
//! bookkeeping, with every function verified against its contract.

pub mod common;
pub mod protocols;
