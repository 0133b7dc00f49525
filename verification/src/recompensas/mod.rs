//! Rewards: the accounts that distributions are credited to, and the
//! ledger of distributions.

pub mod distribuidor;
pub mod ledger;
