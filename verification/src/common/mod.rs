pub mod bytes;
pub mod error;
pub mod addr;
pub mod text;
pub mod keyed;
