//! Refunding a payment: the check against the payment and the write, step
//! by step.

use super::{BankWeb, ErrorResponseBody};
use super::status::{CREATED, NOT_FOUND, OK, UNPROCESSABLE_ENTITY};
use crate::bank::accounts::AccountService;
use crate::bank::ledger::{lemma_with_refund_wf, LedgerView, StoreError};
use crate::bank::payments::Status;
use crate::bank::refunds::{checked_insert, Refund};
use vstd::prelude::*;

verus! {

/// The refund that a request asks for: an amount in minor units.
#[derive(Debug, Clone, Copy)]
pub struct RequestData {
    pub amount: i32,
}

/// The body of a request for a refund.
#[derive(Debug, Clone, Copy)]
pub struct RequestBody {
    pub refund: RequestData,
}

/// The refund that an answer gives, with its id and the id of its payment.
#[derive(Debug, Clone, Copy)]
pub struct ResponseData {
    pub id: u128,
    pub amount: i32,
    pub payment_id: u128,
}

/// The body of an answer that gives a refund.
#[derive(Debug, Clone, Copy)]
pub struct ResponseBody {
    pub data: ResponseData,
}

impl ResponseBody {
    /// The body that gives this refund.
    pub fn new(id: u128, amount: i32, payment_id: u128) -> (r: Self)
        ensures
            r == (ResponseBody { data: ResponseData { id, amount, payment_id } }),
    {
        Self { data: ResponseData { id, amount, payment_id } }
    }
}

/// An answer to a request: a status code with the refund, or a status code
/// with the reason for which the request was turned down.
pub type Reply = Result<(u16, ResponseBody), (u16, ErrorResponseBody)>;

/// An answer as mathematics.
pub enum ReplyView {
    Refund { code: u16, id: u128, amount: i32, payment_id: u128 },
    Rejected { code: u16, error: Seq<char> },
}

/// What an answer says.
pub open spec fn reply_view(reply: Reply) -> ReplyView {
    match reply {
        Ok((code, body)) => ReplyView::Refund {
            code,
            id: body.data.id,
            amount: body.data.amount,
            payment_id: body.data.payment_id,
        },
        Err((code, body)) => ReplyView::Rejected { code, error: body.error@ },
    }
}

/// How far a request for a refund has come, and what it waits for.
#[derive(Debug, Clone, Copy)]
pub enum Saga {
    /// The payment is being read.
    Checking { payment_id: u128, amount: i32 },
    /// The payment is approved, and the refund is being written if it fits.
    Inserting { payment_id: u128, amount: i32 },
    /// The request has been answered.
    Done,
}

/// What came of the step last asked for.
#[derive(Debug, Clone, Copy)]
pub enum Event {
    /// The status of the payment, if the payment is on record.
    PaymentRead(Option<Status>),
    /// The ledger took the refund under this id, found that it does not
    /// fit, or failed.
    Inserted(Result<Option<u128>, StoreError>),
}

/// The step to take next. The read and the write of one request are to be
/// taken as one: nothing else may be written to the ledger in between.
#[derive(Debug)]
pub enum Action {
    /// Read the payment.
    ReadPayment { payment_id: u128 },
    /// Put the refund on record if it fits.
    CheckedInsert { payment_id: u128, amount: i32 },
    /// Answer the request. Nothing follows.
    Reply(Reply),
}

/// A step as mathematics.
pub enum ActionView {
    ReadPayment { payment_id: u128 },
    CheckedInsert { payment_id: u128, amount: i32 },
    Reply(ReplyView),
}

impl View for Action {
    type V = ActionView;

    open spec fn view(&self) -> ActionView {
        match *self {
            Action::ReadPayment { payment_id } => ActionView::ReadPayment { payment_id },
            Action::CheckedInsert { payment_id, amount } => ActionView::CheckedInsert {
                payment_id,
                amount,
            },
            Action::Reply(reply) => ActionView::Reply(reply_view(reply)),
        }
    }
}

/// The answer to a request that is turned down.
pub open spec fn rejection(code: u16, error: Seq<char>) -> ActionView {
    ActionView::Reply(ReplyView::Rejected { code, error })
}

/// How a request for a refund begins: with a look at the payment.
pub open spec fn spec_begin(payment_id: u128, amount: i32) -> (Saga, ActionView) {
    (Saga::Checking { payment_id, amount }, ActionView::ReadPayment { payment_id })
}

/// How a request for a refund goes on when `event` comes in: the state it
/// moves to and the step it asks for, or `None` if the request was not
/// waiting for this event.
///
/// A payment that is not on record, or that is anything but approved, is not
/// refunded. A refund that does not fit is turned down as excessive. A
/// refund that was written is answered with its id.
pub open spec fn spec_resume(state: Saga, event: Event) -> Option<(Saga, ActionView)> {
    match (state, event) {
        (Saga::Checking { .. }, Event::PaymentRead(None)) => Some(
            (Saga::Done, rejection(NOT_FOUND, "payment doesn't exist"@)),
        ),
        (Saga::Checking { payment_id, amount }, Event::PaymentRead(Some(status))) => Some(
            if status == Status::Approved {
                (
                    Saga::Inserting { payment_id, amount },
                    ActionView::CheckedInsert { payment_id, amount },
                )
            } else {
                (Saga::Done, rejection(NOT_FOUND, "has a status other than approved"@))
            },
        ),
        (Saga::Inserting { .. }, Event::Inserted(Err(_))) => Some(
            (Saga::Done, rejection(NOT_FOUND, "can't add refund since the db problem"@)),
        ),
        (Saga::Inserting { .. }, Event::Inserted(Ok(None))) => Some(
            (Saga::Done, rejection(UNPROCESSABLE_ENTITY, "excessive refund amount requested"@)),
        ),
        (Saga::Inserting { payment_id, amount }, Event::Inserted(Ok(Some(id)))) => Some(
            (
                Saga::Done,
                ActionView::Reply(ReplyView::Refund { code: CREATED, id, amount, payment_id }),
            ),
        ),
        _ => None,
    }
}

/// Turns a request down.
fn reject(code: u16, error: &'static str) -> (r: (Saga, Action))
    ensures
        r.0 == Saga::Done,
        r.1@ == rejection(code, error@),
{
    (Saga::Done, Action::Reply(Err((code, ErrorResponseBody::new(error)))))
}

/// Begins a request for a refund of `body.refund.amount` against the
/// payment with this id.
pub fn begin(payment_id: u128, body: RequestBody) -> (r: (Saga, Action))
    ensures
        (r.0, r.1@) == spec_begin(payment_id, body.refund.amount),
{
    (
        Saga::Checking { payment_id, amount: body.refund.amount },
        Action::ReadPayment { payment_id },
    )
}

/// Goes on with a request for a refund when `event` comes in. `None` says
/// that the request was not waiting for this event.
pub fn resume(state: Saga, event: Event) -> (r: Option<(Saga, Action)>)
    ensures
        match r {
            Some((next, action)) => spec_resume(state, event) == Some((next, action@)),
            None => spec_resume(state, event) is None,
        },
{
    match (state, event) {
        (Saga::Checking { .. }, Event::PaymentRead(None)) => Some(
            reject(NOT_FOUND, "payment doesn't exist"),
        ),
        (Saga::Checking { payment_id, amount }, Event::PaymentRead(Some(status))) => {
            match status {
                Status::Approved => Some(
                    (
                        Saga::Inserting { payment_id, amount },
                        Action::CheckedInsert { payment_id, amount },
                    ),
                ),
                _ => Some(reject(NOT_FOUND, "has a status other than approved")),
            }
        },
        (Saga::Inserting { .. }, Event::Inserted(Err(_))) => Some(
            reject(NOT_FOUND, "can't add refund since the db problem"),
        ),
        (Saga::Inserting { .. }, Event::Inserted(Ok(None))) => Some(
            reject(UNPROCESSABLE_ENTITY, "excessive refund amount requested"),
        ),
        (Saga::Inserting { payment_id, amount }, Event::Inserted(Ok(Some(id)))) => Some(
            (Saga::Done, Action::Reply(Ok((CREATED, ResponseBody::new(id, amount, payment_id))))),
        ),
        _ => None,
    }
}

/// How many steps a request has before it at most.
spec fn steps_left(state: Saga) -> nat {
    match state {
        Saga::Checking { .. } => 2,
        Saga::Inserting { .. } => 1,
        Saga::Done => 0,
    }
}

/// What holds of a request for a refund once it is answered.
///
/// - Against a payment that is not on record, or that is not approved, the
///   request is turned down as not found, each for its own reason.
/// - Against an approved payment, a refund that does not fit is turned down
///   as excessive.
/// - A refund that fits is put on record and answered with its id. The one
///   exception is a request for which the ledger drew an id that was taken,
///   which cannot be while no refund is on record.
///
/// Only a refund that was answered with its id is written to the ledger.
pub open spec fn answered(
    before: LedgerView,
    payment_id: u128,
    amount: i32,
    reply: ReplyView,
    after: LedgerView,
) -> bool {
    match before.find_payment(payment_id) {
        None => reply == (ReplyView::Rejected { code: NOT_FOUND, error: "payment doesn't exist"@ })
            && after == before,
        Some(payment) => if payment.status != Status::Approved {
            reply == (ReplyView::Rejected {
                code: NOT_FOUND,
                error: "has a status other than approved"@,
            }) && after == before
        } else if !before.accepts_refund(payment_id, amount) {
            reply == (ReplyView::Rejected {
                code: UNPROCESSABLE_ENTITY,
                error: "excessive refund amount requested"@,
            }) && after == before
        } else {
            match reply {
                ReplyView::Refund { code, id, amount: refunded, payment_id: against } => {
                    &&& code == CREATED
                    &&& refunded == amount
                    &&& against == payment_id
                    &&& !before.has_refund(id)
                    &&& after == before.with_refund(Refund { id, payment_id, amount })
                },
                ReplyView::Rejected { code, error } => {
                    &&& code == NOT_FOUND
                    &&& error == "can't add refund since the db problem"@
                    &&& after == before
                    &&& exists|id: u128| #[trigger] before.has_refund(id)
                },
            }
        },
    }
}

/// What holds while a request for a refund is being answered: the state of
/// the request, the step asked for, and the ledger agree.
spec fn tracks(
    before: LedgerView,
    payment_id: u128,
    amount: i32,
    now: LedgerView,
    state: Saga,
    action: ActionView,
) -> bool {
    match state {
        Saga::Checking { .. } => (state, action) == spec_begin(payment_id, amount) && now == before,
        Saga::Inserting { .. } => {
            &&& state == (Saga::Inserting { payment_id, amount })
            &&& action == (ActionView::CheckedInsert { payment_id, amount })
            &&& before.find_payment(payment_id) matches Some(payment)
            &&& payment.status == Status::Approved
            &&& now == before
        },
        Saga::Done => {
            &&& action matches ActionView::Reply(reply)
            &&& answered(before, payment_id, amount, reply, now)
        },
    }
}

/// Answers a request for a refund against the payment with this id.
///
/// The steps are those of [`begin`] and [`resume`], taken as one: nothing
/// else is written to the ledger between the look at the payment and the
/// write of the refund. The request ends as [`answered`] says.
pub fn post<T: AccountService>(bank_web: &mut BankWeb<T>, payment_id: u128, body: RequestBody) -> (r:
    Reply)
    ensures
        answered(
            old(bank_web).ledger@,
            payment_id,
            body.refund.amount,
            reply_view(r),
            final(bank_web).ledger@,
        ),
        final(bank_web).account_service == old(bank_web).account_service,
{
    let ghost before = bank_web.ledger@;
    let (first, step) = begin(payment_id, body);
    let mut state = first;
    let mut action = step;
    loop
        invariant
            before == old(bank_web).ledger@,
            tracks(before, payment_id, body.refund.amount, bank_web.ledger@, state, action@),
            bank_web.account_service == old(bank_web).account_service,
        decreases steps_left(state),
    {
        let event = match action {
            Action::Reply(reply) => {
                return reply;
            },
            Action::ReadPayment { payment_id } => Event::PaymentRead(
                match crate::bank::payments::get(&bank_web.ledger, payment_id) {
                    Ok(payment) => Some(payment.status),
                    Err(_) => None,
                },
            ),
            Action::CheckedInsert { payment_id, amount } => Event::Inserted(
                checked_insert(&mut bank_web.ledger, payment_id, amount),
            ),
        };
        match resume(state, event) {
            Some((next, step)) => {
                state = next;
                action = step;
            },
            None => {
                return vstd::pervasive::unreached();
            },
        }
    }
}

/// Reads a refund on record, and answers with it under the id of the
/// payment that the request names.
pub fn get<T: AccountService>(bank_web: &BankWeb<T>, payment_id: u128, refund_id: u128) -> (r: Reply)
    requires
        bank_web.ledger@.has_refund(refund_id),
    ensures
        reply_view(r) == (ReplyView::Refund {
            code: OK,
            id: refund_id,
            amount: bank_web.ledger@.find_refund(refund_id)->0.amount,
            payment_id,
        }),
{
    match crate::bank::refunds::get(&bank_web.ledger, refund_id) {
        Ok(refund) => Ok((OK, ResponseBody::new(refund.id, refund.amount, payment_id))),
        Err(_) => vstd::pervasive::unreached(),
    }
}

/// A request for a refund, however it is answered, leaves the ledger within
/// its rules and the payments as they were. It is answered with a refund
/// only if the payment is approved and the refund fits, and then the
/// refunds of the payment have grown by just that refund, and the refund
/// reads back as it was answered. Otherwise nothing is written.
pub proof fn lemma_refund_answered(
    before: LedgerView,
    payment_id: u128,
    amount: i32,
    reply: ReplyView,
    after: LedgerView,
)
    requires
        before.wf(),
        answered(before, payment_id, amount, reply, after),
    ensures
        after.wf(),
        after.payments == before.payments,
        reply matches ReplyView::Refund { id, .. } ==> {
            &&& before.find_payment(payment_id) matches Some(payment)
            &&& payment.status == Status::Approved
            &&& before.accepts_refund(payment_id, amount)
            &&& after.refunded(payment_id) == before.refunded(payment_id) + amount
            &&& after.refunded(payment_id) <= payment.amount
            &&& after.find_refund(id) == Some(Refund { id, payment_id, amount })
        },
        reply is Rejected ==> after == before,
{
    if let ReplyView::Refund { id, .. } = reply {
        lemma_with_refund_wf(before, Refund { id, payment_id, amount });
    }
}

} // verus!
