//! Compliance-gated fund movement: an oracle-fed registry of flagged wallets
//! and a ledger of transfer requests that settle on the oracle's verdict.

pub mod assoc;
pub mod crypto;
pub mod error;
pub mod oracle;
pub mod order;
pub mod response;
pub mod state;
pub mod text;
pub mod transfer;
