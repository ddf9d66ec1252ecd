//! The account service: the remote service that holds customers' money.

use crate::bank::ids::fresh_id;
use crate::text::same_text;
use vstd::prelude::*;
use vstd::string::*;

verus! {

/// Represents a hold on a bank customer's funds within their account.
///
/// This struct should be considered opaque. It cannot be copied: whoever
/// has it hands it back once, for the withdrawal or for the release.
///
/// For the sake of simplicity, the amount that is held and the reference
/// to the account aren't tracked anywhere, but you can assume the hold
/// reference contains this information.
#[derive(Debug)]
pub struct HoldRef {
    id: u128,
}

/// Client to interact with a remote service that manages customer accounts.
///
/// A failure is reported by its class: `invalid_account_number`,
/// `invalid_amount`, `insufficient_funds` or `service_unavailable`.
/// Anything else counts as unknown.
pub trait AccountService: Sized {
    /// Whether this service may answer a request for a hold of `amount` on
    /// the account `account_number` with `answer`. A service that says
    /// nothing of itself may answer with anything.
    open spec fn may_place_hold(
        &self,
        account_number: Seq<char>,
        amount: i32,
        answer: Result<HoldRef, Seq<char>>,
    ) -> bool {
        true
    }

    /// Whether this service may answer the release of `hold_ref` with
    /// `answer`. A service that says nothing of itself may answer with
    /// anything.
    open spec fn may_release_hold(&self, hold_ref: HoldRef, answer: Result<(), Seq<char>>) -> bool {
        true
    }

    /// Whether this service may answer the withdrawal of `hold_ref` with
    /// `answer`. A service that says nothing of itself may answer with
    /// anything.
    open spec fn may_withdraw_funds(&self, hold_ref: HoldRef, answer: Result<(), Seq<char>>) -> bool {
        true
    }

    /// Places a hold on the account.
    ///
    /// Reduces the `account_number` account's actual balance by `amount`.
    ///
    /// Placing a hold does NOT remove or transfer money from the account, it
    /// merely prevents the money from being otherwise spent until either
    ///
    /// * the money is removed from the account and sent to the proper
    ///   recipient via `withdraw_funds` (in case the payment is concluded);
    /// * the hold is released via `release_hold` and the account holder may
    ///   once again spend the money as they wish (in case the payment is
    ///   canceled)
    ///
    /// In other words, for every call to `place_hold`, there MUST be a
    /// matching call to either `release_hold` or `withdraw_funds`.
    fn place_hold(&self, account_number: &str, amount: i32) -> (r: Result<HoldRef, String>)
        ensures
            self.may_place_hold(account_number@, amount, hold_answer(r)),
    ;

    /// Releases a hold on the account.
    ///
    /// Increases the account's actual balance by the amount previously held.
    ///
    /// Typically, this is used when the payment for which the hold was
    /// created doesn't go through fully (it was canceled, the system failed,
    /// etc.). Unless holds are released, a failed payment would mean that the
    /// customer wouldn't get the goods (because the merchant wasn't paid),
    /// but wouldn't have access to their money either because a hold is
    /// still present on the funds.
    fn release_hold(&self, hold_ref: HoldRef) -> (r: Result<(), String>)
        ensures
            self.may_release_hold(hold_ref, done_answer(r)),
    ;

    /// Withdraws the held money from the account.
    ///
    /// Decreases the current balance of the account linked to the hold
    /// reference by the amount previously held. The hold on the customer's
    /// funds is implicitly released atomically.
    ///
    /// This is the mechanism by which money is transferred out from the
    /// customer's account and into the merchant's account during the
    /// settlement process.
    fn withdraw_funds(&self, hold_ref: HoldRef) -> (r: Result<(), String>)
        ensures
            self.may_withdraw_funds(hold_ref, done_answer(r)),
    ;
}

/// What the service said to a request for a hold, as mathematics.
pub open spec fn hold_answer(r: Result<HoldRef, String>) -> Result<HoldRef, Seq<char>> {
    match r {
        Ok(hold) => Ok(hold),
        Err(e) => Err(e@),
    }
}

/// What the service said to a release or a withdrawal, as mathematics.
pub open spec fn done_answer(r: Result<(), String>) -> Result<(), Seq<char>> {
    match r {
        Ok(_) => Ok(()),
        Err(e) => Err(e@),
    }
}

/// The failure with which the dummy service answers a request for a hold,
/// if it answers with one: the canned response where one is set, and
/// otherwise what the account number and the amount call for.
pub open spec fn dummy_refusal(
    response: Option<Seq<char>>,
    account_number: Seq<char>,
    amount: i32,
) -> Option<Seq<char>> {
    if response is Some {
        response
    } else if account_number == DummyService::INVALID_ACCOUNT_NUMBER@ {
        Some("invalid_account_number"@)
    } else if amount < DummyService::MIN_VALID_AMOUNT {
        Some("invalid_amount"@)
    } else if amount > DummyService::MAX_VALID_AMOUNT {
        Some("insufficient_funds"@)
    } else {
        None
    }
}

/// A naive implementation of the account service.
///
/// This implementation is intended for testing and development only.
///
/// For the sake of simplicity, there's no tracking of account balances,
/// held amounts, etc.: we use "magic" values to trigger unhappy paths
/// instead.
#[derive(Clone)]
pub struct DummyService {
    /// A failure with which every request for a hold is answered.
    pub response: Option<String>,
}

impl DummyService {
    /// The account number that the service does not know.
    pub const INVALID_ACCOUNT_NUMBER: &'static str = "00";

    /// The least amount that the service holds.
    pub const MIN_VALID_AMOUNT: i32 = 0;

    /// The greatest amount that the service holds.
    pub const MAX_VALID_AMOUNT: i32 = 100_000_000;

    /// The canned response as mathematics.
    pub open spec fn canned(&self) -> Option<Seq<char>> {
        match self.response {
            Some(s) => Some(s@),
            None => None,
        }
    }
}

impl Default for DummyService {
    fn default() -> (r: Self)
        ensures
            r.response is None,
    {
        DummyService { response: None }
    }
}

impl AccountService for DummyService {
    /// The dummy grants a hold exactly when it has no refusal to answer
    /// with, and refuses with that refusal and no other.
    open spec fn may_place_hold(
        &self,
        account_number: Seq<char>,
        amount: i32,
        answer: Result<HoldRef, Seq<char>>,
    ) -> bool {
        match answer {
            Ok(_) => dummy_refusal(self.canned(), account_number, amount) is None,
            Err(e) => dummy_refusal(self.canned(), account_number, amount) == Some(e),
        }
    }

    /// The dummy lets every release go through.
    open spec fn may_release_hold(&self, hold_ref: HoldRef, answer: Result<(), Seq<char>>) -> bool {
        answer == Ok::<(), Seq<char>>(())
    }

    /// The dummy lets every withdrawal go through.
    open spec fn may_withdraw_funds(&self, hold_ref: HoldRef, answer: Result<(), Seq<char>>) -> bool {
        answer == Ok::<(), Seq<char>>(())
    }

    /// Places a hold on the account.
    ///
    /// - If a canned response is set, returns it.
    /// - If the `account_number` is `DummyService::INVALID_ACCOUNT_NUMBER`,
    ///   returns `invalid_account_number`.
    /// - If the `amount` is negative, returns `invalid_amount`.
    /// - If the `amount` is greater than `DummyService::MAX_VALID_AMOUNT`,
    ///   returns `insufficient_funds`.
    ///
    /// Returns a `HoldRef` otherwise.
    fn place_hold(&self, account_number: &str, amount: i32) -> (r: Result<HoldRef, String>)
        ensures
            match r {
                Ok(_) => dummy_refusal(self.canned(), account_number@, amount) is None,
                Err(e) => dummy_refusal(self.canned(), account_number@, amount) == Some(e@),
            },
    {
        if let Some(response) = &self.response {
            return Err(response.clone());
        }
        if same_text(account_number, Self::INVALID_ACCOUNT_NUMBER) {
            Err(String::from_str("invalid_account_number"))
        } else if amount < Self::MIN_VALID_AMOUNT {
            Err(String::from_str("invalid_amount"))
        } else if amount > Self::MAX_VALID_AMOUNT {
            Err(String::from_str("insufficient_funds"))
        } else {
            Ok(HoldRef { id: fresh_id() })
        }
    }

    /// Releases a hold on the account.
    ///
    /// The dummy keeps no balances and no holds: it takes the hold back and
    /// reports that the release went through, whatever the hold.
    fn release_hold(&self, hold_ref: HoldRef) -> (r: Result<(), String>)
        ensures
            r == Ok::<(), String>(()),
    {
        let _ = hold_ref;
        Ok(())
    }

    /// Withdraws the held money from the account.
    ///
    /// The dummy keeps no balances and no holds: it takes the hold back and
    /// reports that the withdrawal went through, whatever the hold.
    fn withdraw_funds(&self, hold_ref: HoldRef) -> (r: Result<(), String>)
        ensures
            r == Ok::<(), String>(()),
    {
        let _ = hold_ref;
        Ok(())
    }
}

} // verus!
