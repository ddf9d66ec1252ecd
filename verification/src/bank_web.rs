//! The requests that the bank answers, and what it answers them with.

use crate::bank::accounts::AccountService;
use crate::bank::ledger::Ledger;
use vstd::prelude::*;
use vstd::string::*;

pub mod payments;
pub mod racing;
pub mod refunds;
pub mod status;

verus! {

/// The body of an answer that turns a request down.
#[derive(Debug, Clone, PartialEq, Eq)]
pub struct ErrorResponseBody {
    pub error: String,
}

impl ErrorResponseBody {
    /// The body that gives this reason.
    pub fn new(s: &'static str) -> (r: Self)
        ensures
            r.error@ == s@,
    {
        Self { error: String::from_str(s) }
    }
}

/// The bank: its ledger, and the account service that it settles with.
pub struct BankWeb<T> {
    pub ledger: Ledger,
    pub account_service: T,
}

impl<T: AccountService> BankWeb<T> {
    /// A bank that keeps this ledger and settles with this account service.
    pub fn new(ledger: Ledger, account_service: T) -> (r: Self)
        ensures
            r.ledger == ledger,
            r.account_service == account_service,
    {
        Self { ledger, account_service }
    }
}

} // verus!
