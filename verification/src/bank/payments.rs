//! Payments and their lifecycle.

use crate::bank::ids::fresh_id;
use crate::bank::ledger::{
    lemma_with_payment_wf, lemma_with_status_wf, Ledger, LedgerView, StoreError,
};
use vstd::prelude::*;

verus! {

/// Where a payment stands in its settlement.
#[derive(Debug, Clone, Copy, PartialEq, Eq, Structural)]
pub enum Status {
    /// The payment is being processed, and its state is unknown.
    Processing,
    /// The payment was approved by the bank.
    Approved,
    /// The payment was declined by the bank (e.g. insufficient funds).
    Declined,
    /// The payment was unable to complete (e.g. banking system crashed).
    Failed,
}

impl Status {
    /// A status after which nothing more is written.
    pub open spec fn is_terminal(self) -> bool {
        self is Declined || self is Failed
    }

    /// Whether a payment in this status may go on to `next`: a payment
    /// being processed is approved, declined or failed, an approved one may
    /// still be declined or failed, and there it ends.
    pub open spec fn can_move_to(self, next: Status) -> bool {
        match self {
            Status::Processing => next != Status::Processing,
            Status::Approved => next.is_terminal(),
            Status::Declined => false,
            Status::Failed => false,
        }
    }

    /// Decides whether a payment in this status may go on to `next`.
    pub fn may_move_to(self, next: Status) -> (r: bool)
        ensures
            r == self.can_move_to(next),
    {
        match self {
            Status::Processing => !matches!(next, Status::Processing),
            Status::Approved => matches!(next, Status::Declined | Status::Failed),
            Status::Declined => false,
            Status::Failed => false,
        }
    }
}

/// A payment on record.
///
/// Once a payment has been persisted with an "approved" state, the merchant
/// is guaranteed to receive money from the bank: they can therefore release
/// the purchased goods to the customer.
#[derive(Debug, PartialEq, Eq)]
pub struct Payment {
    pub id: u128,
    pub amount: i32,
    pub card_number: String,
    pub status: Status,
}

/// A payment as mathematics.
pub struct PaymentView {
    pub id: u128,
    pub amount: i32,
    pub card_number: Seq<char>,
    pub status: Status,
}

impl View for Payment {
    type V = PaymentView;

    open spec fn view(&self) -> PaymentView {
        PaymentView {
            id: self.id,
            amount: self.amount,
            card_number: self.card_number@,
            status: self.status,
        }
    }
}

impl Clone for Payment {
    fn clone(&self) -> (r: Self)
        ensures
            r@ == self@,
    {
        Payment {
            id: self.id,
            amount: self.amount,
            card_number: self.card_number.clone(),
            status: self.status,
        }
    }
}

impl Ledger {
    /// Whether a payment made with this card number is on record.
    pub fn card_in_use(&self, card_number: &String) -> (r: bool)
        ensures
            r == self@.card_used(card_number@),
    {
        let mut i: usize = 0;
        while i < self.payments.len()
            invariant
                i <= self.payments.len(),
                forall|j: int|
                    0 <= j < i ==> (#[trigger] self@.payments[j]).card_number != card_number@,
            decreases self.payments.len() - i,
        {
            if self.payments[i].card_number == *card_number {
                assert(self@.payments[i as int].card_number == card_number@);
                return true;
            }
            i += 1;
        }
        false
    }
}

/// Puts a payment on record under `id`, unless the ledger refuses it: the
/// amount must be positive, the card number must not have been used, and
/// the id must be free.
pub fn insert_with_id(
    ledger: &mut Ledger,
    id: u128,
    amount: i32,
    card_number: String,
    status: Status,
) -> (r: Result<u128, StoreError>)
    ensures
        r == old(ledger)@.insert_outcome(id, amount, card_number@),
        r is Ok ==> final(ledger)@ == old(ledger)@.with_payment(
            PaymentView { id, amount, card_number: card_number@, status },
        ),
        r is Err ==> final(ledger)@ == old(ledger)@,
{
    proof {
        use_type_invariant(&*ledger);
    }
    if amount <= 0 {
        return Err(StoreError::NonPositiveAmount);
    }
    if ledger.card_in_use(&card_number) {
        return Err(StoreError::CardNumberTaken);
    }
    if ledger.payment_position(id).is_some() {
        return Err(StoreError::IdTaken);
    }
    let ghost before = ledger@;
    let ghost row = PaymentView { id, amount, card_number: card_number@, status };
    let mut taken = Ledger::new();
    std::mem::swap(ledger, &mut taken);
    let Ledger { payments, refunds } = taken;
    let mut payments = payments;
    payments.push(Payment { id, amount, card_number, status });
    proof {
        lemma_with_payment_wf(before, row);
        assert(payments@.map_values(|p: Payment| p@) =~= before.payments.push(row));
    }
    *ledger = Ledger { payments, refunds };
    Ok(id)
}

/// Puts a payment on record under an id drawn at random.
///
/// The payment is refused when the amount is not positive or the card
/// number has been used before, and otherwise only if the id drawn is
/// taken, and so never while no payment is on record.
pub fn insert(ledger: &mut Ledger, amount: i32, card_number: String, status: Status) -> (r: Result<
    u128,
    StoreError,
>)
    ensures
        exists|id: u128| #[trigger] old(ledger)@.insert_outcome(id, amount, card_number@) == r,
        match r {
            Ok(id) => old(ledger)@.insert_outcome(id, amount, card_number@) == Ok::<
                u128,
                StoreError,
            >(id) && final(ledger)@ == old(ledger)@.with_payment(
                PaymentView { id, amount, card_number: card_number@, status },
            ),
            Err(e) => final(ledger)@ == old(ledger)@ && e == (if amount <= 0 {
                StoreError::NonPositiveAmount
            } else if old(ledger)@.card_used(card_number@) {
                StoreError::CardNumberTaken
            } else {
                StoreError::IdTaken
            }),
        },
{
    let id = fresh_id();
    insert_with_id(ledger, id, amount, card_number, status)
}

/// Rewrites the status of the payment with this id, unless the ledger
/// refuses it: the payment must be on record, and its status may only move
/// forward, as `Status::can_move_to` allows.
pub fn update(ledger: &mut Ledger, id: u128, status: Status) -> (r: Result<u128, StoreError>)
    ensures
        r == old(ledger)@.update_outcome(id, status),
        r is Ok ==> final(ledger)@ == old(ledger)@.with_status(id, status),
        r is Err ==> final(ledger)@ == old(ledger)@,
{
    proof {
        use_type_invariant(&*ledger);
    }
    let i = match ledger.payment_position(id) {
        Some(i) => i,
        None => {
            return Err(StoreError::RowNotFound);
        },
    };
    if !ledger.payments[i].status.may_move_to(status) {
        return Err(StoreError::StatusMovesBack);
    }
    let ghost before = ledger@;
    let mut taken = Ledger::new();
    std::mem::swap(ledger, &mut taken);
    let Ledger { payments, refunds } = taken;
    let mut payments = payments;
    let row = Payment {
        id,
        amount: payments[i].amount,
        card_number: payments[i].card_number.clone(),
        status,
    };
    payments.set(i, row);
    proof {
        lemma_with_status_wf(before, id, status);
        assert(payments@.map_values(|p: Payment| p@) =~= before.with_status(id, status).payments)
            by {
            assert forall|j: int| 0 <= j < before.payments.len() && j != i implies (
            #[trigger] before.payments[j]).id != id by {
                assert(before.payments[i as int].id == id);
            }
        }
    }
    *ledger = Ledger { payments, refunds };
    Ok(id)
}

/// Reads the payment with this id.
pub fn get(ledger: &Ledger, id: u128) -> (r: Result<Payment, StoreError>)
    ensures
        match r {
            Ok(payment) => ledger@.find_payment(id) == Some(payment@),
            Err(e) => e == StoreError::RowNotFound && ledger@.find_payment(id) is None,
        },
{
    match ledger.payment_position(id) {
        Some(i) => Ok(ledger.payments[i].clone()),
        None => Err(StoreError::RowNotFound),
    }
}

/// Of two payments made with one card number that is not on record, exactly
/// one is taken: the one that comes first. Which of the two comes first is
/// open, so neither both are taken nor both refused.
pub proof fn lemma_one_of_two_payments(l: LedgerView, first: PaymentView, second: PaymentView)
    requires
        l.wf(),
        first.card_number == second.card_number,
        !l.card_used(first.card_number),
        first.amount > 0,
        second.amount > 0,
        !l.has_payment(first.id),
    ensures
        l.insert_outcome(first.id, first.amount, first.card_number) == Ok::<u128, StoreError>(
            first.id,
        ),
        l.with_payment(first).wf(),
        l.with_payment(first).insert_outcome(second.id, second.amount, second.card_number)
            == Err::<u128, StoreError>(StoreError::CardNumberTaken),
{
    lemma_with_payment_wf(l, first);
}

/// A payment that has just been written reads back as it was written, and
/// a status that has just been rewritten reads back as it was given.
pub proof fn lemma_payment_round_trip(l: LedgerView, payment: PaymentView, status: Status)
    requires
        l.wf(),
        l.insert_outcome(payment.id, payment.amount, payment.card_number) is Ok,
    ensures
        l.with_payment(payment).find_payment(payment.id) == Some(payment),
        l.with_payment(payment).with_status(payment.id, status).find_payment(payment.id) == Some(
            PaymentView { status, ..payment },
        ),
{
    lemma_with_payment_wf(l, payment);
    lemma_with_status_wf(l.with_payment(payment), payment.id, status);
}

} // verus!
