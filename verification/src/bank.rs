//! The bank's domain: instruments, the account service, and the ledger.

pub mod accounts;
mod ids;
pub mod ledger;
pub mod payment_instruments;
pub mod payments;
pub mod refunds;
