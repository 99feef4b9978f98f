pub mod addr;
pub mod packet;

pub use addr::{MacAddr, Ipv4Addr};
pub use packet::Packet;
