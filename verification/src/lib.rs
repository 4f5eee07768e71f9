//! Batched payouts to Filecoin addresses: the address codec, the batcher,
//! the transaction dispatcher's decisions and the multisig proposal encoder.

pub mod address;
pub mod base32_text;
pub mod batch;
pub mod commands;
pub mod digest;
pub mod dispatch;
pub mod hexfmt;
pub mod leb128;
pub mod multisig;
pub mod proposal;
pub mod random_address;
pub mod resolve;
pub mod text;
pub mod u256;
