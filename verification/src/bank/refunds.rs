//! Refunds against payments.

use crate::bank::ids::fresh_id;
use crate::bank::ledger::{
    lemma_refunded_bounds, lemma_refunded_prefix, lemma_with_refund_wf, refunded_total, Ledger,
    LedgerView, StoreError,
};
use crate::bank::payments::Status;
use vstd::prelude::*;

verus! {

/// A refund on record.
///
/// A refund is always tied to a specific payment record, but it is possible
/// to make partial refunds (i.e. refund less than the total payment amount).
/// In the same vein, it is possible to apply several refunds against the same
/// payment record, but the sum of all refunded amounts for a given payment
/// can never surpass the amount of the payment.
///
/// If a refund is on record, it is considered effective: the bank's client
/// will have the money credited to their account.
#[derive(Debug, Clone, Copy, PartialEq, Eq, Structural)]
pub struct Refund {
    pub id: u128,
    pub payment_id: u128,
    pub amount: i32,
}

/// What has been refunded against the payment with this id.
pub fn refunded(ledger: &Ledger, payment_id: u128) -> (r: i64)
    ensures
        r == ledger@.refunded(payment_id),
{
    proof {
        use_type_invariant(ledger);
        lemma_refunded_bounds(ledger@, payment_id);
    }
    let mut total: i64 = 0;
    let mut k: usize = 0;
    while k < ledger.refunds.len()
        invariant
            k <= ledger.refunds.len(),
            ledger@.wf(),
            ledger@.refunded(payment_id) <= i32::MAX,
            total == refunded_total(ledger.refunds@.take(k as int), payment_id),
        decreases ledger.refunds.len() - k,
    {
        proof {
            lemma_refunded_prefix(ledger.refunds@, k + 1, payment_id);
            assert(ledger.refunds@.take(k + 1).drop_last() =~= ledger.refunds@.take(k as int));
        }
        if ledger.refunds[k].payment_id == payment_id {
            total = total + ledger.refunds[k].amount as i64;
        }
        k += 1;
    }
    assert(ledger.refunds@.take(k as int) =~= ledger.refunds@);
    total
}

/// Puts a refund on record under `id`, unless the ledger refuses it: the
/// amount must be positive, the payment on record and approved, the refunds
/// of the payment, this one included, must not come to more than the
/// payment, and the id must be free. The check and the write are one step.
pub fn insert_with_id(ledger: &mut Ledger, id: u128, payment_id: u128, amount: i32) -> (r: Result<
    u128,
    StoreError,
>)
    ensures
        r == old(ledger)@.refund_outcome(id, payment_id, amount),
        r is Ok ==> final(ledger)@ == old(ledger)@.with_refund(Refund { id, payment_id, amount }),
        r is Err ==> final(ledger)@ == old(ledger)@,
{
    proof {
        use_type_invariant(&*ledger);
    }
    if amount <= 0 {
        return Err(StoreError::NonPositiveAmount);
    }
    let i = match ledger.payment_position(payment_id) {
        Some(i) => i,
        None => {
            return Err(StoreError::RowNotFound);
        },
    };
    if !matches!(ledger.payments[i].status, Status::Approved) {
        return Err(StoreError::PaymentNotApproved);
    }
    let total = refunded(ledger, payment_id);
    if total + amount as i64 > ledger.payments[i].amount as i64 {
        return Err(StoreError::RefundExceedsPayment);
    }
    if ledger.refund_position(id).is_some() {
        return Err(StoreError::IdTaken);
    }
    let ghost before = ledger@;
    let refund = Refund { id, payment_id, amount };
    let mut taken = Ledger::new();
    std::mem::swap(ledger, &mut taken);
    let Ledger { payments, refunds } = taken;
    let mut refunds = refunds;
    refunds.push(refund);
    proof {
        lemma_with_refund_wf(before, refund);
    }
    *ledger = Ledger { payments, refunds };
    Ok(id)
}

/// Puts a refund on record under an id drawn at random, unless the ledger
/// refuses it.
///
/// A refund that fits is refused only if the id drawn is taken, and so
/// never while no refund is on record.
pub fn insert(ledger: &mut Ledger, payment_id: u128, amount: i32) -> (r: Result<u128, StoreError>)
    ensures
        exists|id: u128| #[trigger] old(ledger)@.refund_outcome(id, payment_id, amount) == r,
        match r {
            Ok(id) => old(ledger)@.refund_outcome(id, payment_id, amount) == Ok::<u128, StoreError>(
                id,
            ) && final(ledger)@ == old(ledger)@.with_refund(Refund { id, payment_id, amount }),
            Err(e) => final(ledger)@ == old(ledger)@ && e == (if amount <= 0 {
                StoreError::NonPositiveAmount
            } else if !old(ledger)@.has_payment(payment_id) {
                StoreError::RowNotFound
            } else if old(ledger)@.find_payment(payment_id)->0.status != Status::Approved {
                StoreError::PaymentNotApproved
            } else if !old(ledger)@.accepts_refund(payment_id, amount) {
                StoreError::RefundExceedsPayment
            } else {
                StoreError::IdTaken
            }),
        },
{
    let id = fresh_id();
    insert_with_id(ledger, id, payment_id, amount)
}

/// Puts a refund on record under `id` if it fits, as one step: the amount
/// must be positive, the payment on record and approved, and the refunds of
/// the payment, this one included, must not come to more than the payment.
///
/// `Ok(None)` says that the refund does not fit, and nothing is written.
pub fn checked_insert_with_id(ledger: &mut Ledger, id: u128, payment_id: u128, refund_amount: i32) -> (r:
    Result<Option<u128>, StoreError>)
    ensures
        r == old(ledger)@.checked_insert_outcome(id, payment_id, refund_amount),
        final(ledger)@ == old(ledger)@.checked_insert(id, payment_id, refund_amount),
{
    match insert_with_id(ledger, id, payment_id, refund_amount) {
        Ok(id) => Ok(Some(id)),
        Err(StoreError::IdTaken) => Err(StoreError::IdTaken),
        Err(_) => Ok(None),
    }
}

/// Puts a refund on record under an id drawn at random, if it fits.
///
/// A refund that fits is refused only if the id drawn is taken, and so
/// never while no refund is on record.
pub fn checked_insert(ledger: &mut Ledger, payment_id: u128, refund_amount: i32) -> (r: Result<
    Option<u128>,
    StoreError,
>)
    ensures
        exists|id: u128| #[trigger]
            old(ledger)@.checked_insert_outcome(id, payment_id, refund_amount) == r,
        match r {
            Ok(Some(id)) => old(ledger)@.accepts_refund(payment_id, refund_amount) && !old(
                ledger,
            )@.has_refund(id) && final(ledger)@ == old(ledger)@.with_refund(
                Refund { id, payment_id, amount: refund_amount },
            ),
            Ok(None) => !old(ledger)@.accepts_refund(payment_id, refund_amount) && final(ledger)@
                == old(ledger)@,
            Err(e) => old(ledger)@.accepts_refund(payment_id, refund_amount) && e
                == StoreError::IdTaken && final(ledger)@ == old(ledger)@,
        },
{
    let id = fresh_id();
    checked_insert_with_id(ledger, id, payment_id, refund_amount)
}

/// Reads the refund with this id.
pub fn get(ledger: &Ledger, id: u128) -> (r: Result<Refund, StoreError>)
    ensures
        r == (match ledger@.find_refund(id) {
            Some(refund) => Ok::<Refund, StoreError>(refund),
            None => Err::<Refund, StoreError>(StoreError::RowNotFound),
        }),
{
    match ledger.refund_position(id) {
        Some(k) => Ok(ledger.refunds[k]),
        None => Err(StoreError::RowNotFound),
    }
}

/// The ledger after each of `requests` has been put to it in turn, the
/// first of them first.
pub open spec fn after_requests(l: LedgerView, requests: Seq<Refund>) -> LedgerView
    decreases requests.len(),
{
    if requests.len() == 0 {
        l
    } else {
        let r = requests.last();
        after_requests(l, requests.drop_last()).checked_insert(r.id, r.payment_id, r.amount)
    }
}

/// One request for a refund, put to a ledger, is taken if and only if it
/// fits, provided its id is free. If it is taken, what has been refunded
/// against its payment grows by its amount, and stays within the payment.
/// If it is not, the ledger stays as it was. No payment is touched.
pub proof fn lemma_refund_request(l: LedgerView, r: Refund)
    requires
        l.wf(),
    ensures
        ({
            let taken = l.checked_insert_outcome(r.id, r.payment_id, r.amount) == Ok::<
                Option<u128>,
                StoreError,
            >(Some(r.id));
            let after = l.checked_insert(r.id, r.payment_id, r.amount);
            &&& after.wf()
            &&& after.payments == l.payments
            &&& !l.has_refund(r.id) ==> (taken <==> l.accepts_refund(r.payment_id, r.amount))
            &&& taken ==> after.refunded(r.payment_id) == l.refunded(r.payment_id) + r.amount
                && after.refunded(r.payment_id) <= l.find_payment(r.payment_id)->0.amount
            &&& !taken ==> after == l
            &&& forall|other: u128|
                other != r.payment_id ==> after.refunded(other) == l.refunded(other)
        }),
{
    if l.checked_insert_outcome(r.id, r.payment_id, r.amount) == Ok::<Option<u128>, StoreError>(
        Some(r.id),
    ) {
        lemma_with_refund_wf(l, r);
    }
}

/// Refunds are safe in whatever order the requests come.
///
/// Put any requests for refunds to a ledger, one after the other in any
/// order: the ledger keeps its rules, no payment is touched, every refund
/// on record stays on record as it is, and what has been refunded against a
/// payment never shrinks and never comes to more than the payment.
pub proof fn lemma_refund_safety(l: LedgerView, requests: Seq<Refund>)
    requires
        l.wf(),
    ensures
        after_requests(l, requests).wf(),
        after_requests(l, requests).payments == l.payments,
        l.refunds.is_prefix_of(after_requests(l, requests).refunds),
        forall|payment_id: u128|
            l.refunded(payment_id) <= #[trigger] after_requests(l, requests).refunded(payment_id),
        forall|payment_id: u128| #[trigger]
            l.has_payment(payment_id) ==> after_requests(l, requests).refunded(payment_id)
                <= l.find_payment(payment_id)->0.amount,
    decreases requests.len(),
{
    if requests.len() > 0 {
        let before = after_requests(l, requests.drop_last());
        lemma_refund_safety(l, requests.drop_last());
        lemma_refund_request(before, requests.last());
    }
}

/// Each of a run of requests is judged by what was taken before it.
///
/// Whatever came before, the request in place `k` is taken if and only if
/// it fits the ledger as the requests before it have left it, provided its
/// id is free there: none that fits is turned down, and none that does not
/// fit is taken.
pub proof fn lemma_refund_taken_iff_fits(l: LedgerView, requests: Seq<Refund>, k: int)
    requires
        l.wf(),
        0 <= k < requests.len(),
    ensures
        ({
            let before = after_requests(l, requests.take(k));
            let after = after_requests(l, requests.take(k + 1));
            let r = requests[k];
            &&& before.wf()
            &&& !before.has_refund(r.id) ==> (after.has_refund(r.id) <==> before.accepts_refund(
                r.payment_id,
                r.amount,
            ))
            &&& after.refunded(r.payment_id) == before.refunded(r.payment_id) + (if after
                == before {
                0
            } else {
                r.amount as int
            })
        }),
{
    let before = after_requests(l, requests.take(k));
    let r = requests[k];
    assert(requests.take(k + 1).drop_last() =~= requests.take(k));
    lemma_refund_safety(l, requests.take(k));
    lemma_refund_request(before, r);
}

/// Of two requests against one payment that would each fit alone but not
/// together, exactly one is taken: the one that comes first. Which of the
/// two comes first is open, so neither both are taken nor both turned down.
pub proof fn lemma_one_of_two_refunds(l: LedgerView, first: Refund, second: Refund)
    requires
        l.wf(),
        first.payment_id == second.payment_id,
        l.accepts_refund(first.payment_id, first.amount),
        l.accepts_refund(second.payment_id, second.amount),
        l.refunded(first.payment_id) + first.amount + second.amount > l.find_payment(
            first.payment_id,
        )->0.amount,
        !l.has_refund(first.id),
    ensures
        l.checked_insert_outcome(first.id, first.payment_id, first.amount) == Ok::<
            Option<u128>,
            StoreError,
        >(Some(first.id)),
        l.checked_insert(first.id, first.payment_id, first.amount).checked_insert_outcome(
            second.id,
            second.payment_id,
            second.amount,
        ) == Ok::<Option<u128>, StoreError>(None),
{
    lemma_refund_request(l, first);
}

} // verus!
