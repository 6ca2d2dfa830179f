//! A time-decaying token-accrual ledger.
//!
//! Accounts collect a claimable balance through top-ups. Once the holding
//! window has passed without a claim the balance decays, and what decayed is
//! gathered in a contract-wide aggregate. Claims and burns are settled in two
//! phases around a transfer that the caller performs and that may fail.

pub mod common;
pub mod account_record;
pub mod id_map;
pub mod state;
pub mod migration;
pub mod record;
pub mod claim;
pub mod burn;
pub mod clean;
pub mod conservation;
pub mod invariants;
pub mod test_data;
