//! The transfer side: requests wait in a ledger until the oracle's verdict
//! settles them.

pub mod contract;
pub mod history;
