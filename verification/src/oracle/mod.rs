//! The compliance oracle's side: its key, the datasets it signs, and the
//! registry of flagged wallets that transfers are screened against.

pub mod contract;
pub mod msg;
pub mod registry;
