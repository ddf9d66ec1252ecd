//! Making a payment: the settlement of a card payment with the account
//! service, step by step.

use super::{BankWeb, ErrorResponseBody};
use super::status::{BAD_REQUEST, CREATED, FORBIDDEN, INTERNAL_SERVER_ERROR, NO_CONTENT, OK, PAYMENT_REQUIRED, UNPROCESSABLE_ENTITY};
use crate::bank::accounts::{
    done_answer, dummy_refusal, hold_answer, AccountService, DummyService, HoldRef,
};
use crate::bank::ledger::{
    lemma_status_of_new_payment, lemma_with_payment_wf, LedgerView, StoreError,
};
use crate::bank::payment_instruments::{account_prefix, parse_card, Card};
use crate::bank::payments::{insert, update, PaymentView, Status};
use crate::errors::{error_code, http_status_for, status_for_code, PaymentError};
use vstd::prelude::*;

verus! {

/// The payment that a request asks for: an amount in minor units, and the
/// number of the card that pays.
#[derive(Debug, Clone, PartialEq, Eq)]
pub struct RequestData {
    pub amount: i32,
    pub card_number: String,
}

/// The body of a request for a payment.
#[derive(Debug, Clone, PartialEq, Eq)]
pub struct RequestBody {
    pub payment: RequestData,
}

/// The payment that an answer gives, with its id and its status.
#[derive(Debug, Clone, PartialEq, Eq)]
pub struct ResponseData {
    pub id: u128,
    pub amount: i32,
    pub card_number: String,
    pub status: Status,
}

/// The body of an answer that gives a payment.
#[derive(Debug, Clone, PartialEq, Eq)]
pub struct ResponseBody {
    pub data: ResponseData,
}

impl ResponseBody {
    /// The body that gives this payment.
    pub fn new(id: u128, amount: i32, card_number: String, status: Status) -> (r: Self)
        ensures
            r.data.id == id,
            r.data.amount == amount,
            r.data.card_number@ == card_number@,
            r.data.status == status,
    {
        ResponseBody { data: ResponseData { id, amount, card_number, status } }
    }
}

/// An answer to a request: a status code with the payment, or a status code
/// with the reason for which the request was turned down.
pub type Reply = Result<(u16, ResponseBody), (u16, ErrorResponseBody)>;

/// An answer as mathematics.
pub enum ReplyView {
    Payment { code: u16, id: u128, amount: i32, card_number: Seq<char>, status: Status },
    Rejected { code: u16, error: Seq<char> },
}

/// What an answer says.
pub open spec fn reply_view(reply: Reply) -> ReplyView {
    match reply {
        Ok((code, body)) => ReplyView::Payment {
            code,
            id: body.data.id,
            amount: body.data.amount,
            card_number: body.data.card_number@,
            status: body.data.status,
        },
        Err((code, body)) => ReplyView::Rejected { code, error: body.error@ },
    }
}

/// How far the settlement of one payment has come, and what it waits for.
#[derive(Debug)]
pub enum Saga {
    /// The payment is being put on record.
    Reserving { amount: i32, card: Card },
    /// The payment is on record, and a hold on the funds has been asked for.
    Holding { payment_id: u128, amount: i32, card: Card },
    /// The funds are held, and the approval is being put on record.
    Approving { payment_id: u128, amount: i32, card: Card, hold: HoldRef },
    /// The approval is on record, and the funds are being withdrawn.
    Withdrawing { payment_id: u128, amount: i32, card: Card },
    /// The account service has failed the payment, and that is being put on
    /// record.
    Recording { payment_id: u128, amount: i32, card: Card, code: u16, status: Status },
    /// The request has been answered.
    Done,
}

/// What came of the step last asked for.
#[derive(Debug)]
pub enum Event {
    /// The ledger took the payment under this id, or refused it.
    Inserted(Result<u128, StoreError>),
    /// The account service holds the funds, or failed to.
    HoldPlaced(Result<HoldRef, String>),
    /// The status is on record.
    StatusWritten,
    /// The account service has withdrawn the funds, or failed to.
    Withdrawn(Result<(), String>),
}

/// The step to take next.
#[derive(Debug)]
pub enum Action {
    /// Put the payment on record.
    InsertPayment { amount: i32, card_number: String, status: Status },
    /// Ask the account service to hold the funds.
    PlaceHold { account_number: String, amount: i32 },
    /// Rewrite the status of the payment.
    UpdateStatus { payment_id: u128, status: Status },
    /// Ask the account service to withdraw the funds held.
    WithdrawFunds { hold: HoldRef },
    /// Answer the request. Nothing follows.
    Reply(Reply),
}

/// A settlement as mathematics.
pub enum SagaView {
    Reserving { amount: i32, card: Seq<char> },
    Holding { payment_id: u128, amount: i32, card: Seq<char> },
    Approving { payment_id: u128, amount: i32, card: Seq<char>, hold: HoldRef },
    Withdrawing { payment_id: u128, amount: i32, card: Seq<char> },
    Recording { payment_id: u128, amount: i32, card: Seq<char>, code: u16, status: Status },
    Done,
}

/// An event as mathematics.
pub enum EventView {
    Inserted(Result<u128, StoreError>),
    HoldPlaced(Result<HoldRef, Seq<char>>),
    StatusWritten,
    Withdrawn(Result<(), Seq<char>>),
}

/// A step as mathematics.
pub enum ActionView {
    InsertPayment { amount: i32, card_number: Seq<char>, status: Status },
    PlaceHold { account_number: Seq<char>, amount: i32 },
    UpdateStatus { payment_id: u128, status: Status },
    WithdrawFunds { hold: HoldRef },
    Reply(ReplyView),
}

impl View for Saga {
    type V = SagaView;

    open spec fn view(&self) -> SagaView {
        match *self {
            Saga::Reserving { amount, card } => SagaView::Reserving { amount, card: card@ },
            Saga::Holding { payment_id, amount, card } => SagaView::Holding {
                payment_id,
                amount,
                card: card@,
            },
            Saga::Approving { payment_id, amount, card, hold } => SagaView::Approving {
                payment_id,
                amount,
                card: card@,
                hold,
            },
            Saga::Withdrawing { payment_id, amount, card } => SagaView::Withdrawing {
                payment_id,
                amount,
                card: card@,
            },
            Saga::Recording { payment_id, amount, card, code, status } => SagaView::Recording {
                payment_id,
                amount,
                card: card@,
                code,
                status,
            },
            Saga::Done => SagaView::Done,
        }
    }
}

impl View for Event {
    type V = EventView;

    open spec fn view(&self) -> EventView {
        match *self {
            Event::Inserted(r) => EventView::Inserted(r),
            Event::HoldPlaced(r) => EventView::HoldPlaced(hold_answer(r)),
            Event::StatusWritten => EventView::StatusWritten,
            Event::Withdrawn(r) => EventView::Withdrawn(done_answer(r)),
        }
    }
}

impl View for Action {
    type V = ActionView;

    open spec fn view(&self) -> ActionView {
        match *self {
            Action::InsertPayment { amount, card_number, status } => ActionView::InsertPayment {
                amount,
                card_number: card_number@,
                status,
            },
            Action::PlaceHold { account_number, amount } => ActionView::PlaceHold {
                account_number: account_number@,
                amount,
            },
            Action::UpdateStatus { payment_id, status } => ActionView::UpdateStatus {
                payment_id,
                status,
            },
            Action::WithdrawFunds { hold } => ActionView::WithdrawFunds { hold },
            Action::Reply(reply) => ActionView::Reply(reply_view(reply)),
        }
    }
}

/// The answer to a request that is turned down.
pub open spec fn rejection(code: u16, error: Seq<char>) -> ActionView {
    ActionView::Reply(ReplyView::Rejected { code, error })
}

/// The code under which a failure of the account service, reported as
/// `message`, is answered.
pub open spec fn failure_code(message: Seq<char>) -> u16 {
    http_status_for(error_code(message) as u16)
}

/// The status in which a failure of the account service, reported as
/// `message`, leaves the payment.
pub open spec fn failure_status(message: Seq<char>) -> Status {
    status_for_code(error_code(message))
}

/// How the settlement of a request begins.
///
/// Nothing has been done yet when this is decided: a request for nothing,
/// for a negative amount, or with something other than a card number is
/// turned down on the spot, each for its own reason. Any other is first put
/// on record as being processed.
pub open spec fn spec_begin(amount: i32, card_number: Seq<char>) -> (SagaView, ActionView) {
    if amount == 0 {
        (SagaView::Done, rejection(NO_CONTENT, "Amount shouldn't be 0"@))
    } else if amount < 0 {
        (SagaView::Done, rejection(BAD_REQUEST, "Amount shouldn't be negative"@))
    } else {
        match parse_card(card_number) {
            Err(_) => (SagaView::Done, rejection(UNPROCESSABLE_ENTITY, "Bad Card Number format"@)),
            Ok(card) => (
                SagaView::Reserving { amount, card },
                ActionView::InsertPayment { amount, card_number: card, status: Status::Processing },
            ),
        }
    }
}

/// How a settlement goes on when `event` comes in: the state it moves to
/// and the step it asks for, or `None` if the settlement was not waiting
/// for this event.
///
/// - A payment that the ledger refused is turned down as a reuse of the
///   card number, and no hold is asked for. One that the ledger took has
///   its funds held, on the account that the card number begins with.
/// - Once the funds are held, the approval is put on record, and only then
///   are the funds withdrawn.
/// - A hold or a withdrawal that fails is classified. The payment is put on
///   record as declined or failed, and then the request is answered with the
///   class of the failure. Nothing is tried again, and after a withdrawal
///   that failed the hold is not released: whether the withdrawal took
///   place is not known, and a hold is never resolved twice.
pub open spec fn spec_resume(state: SagaView, event: EventView) -> Option<(SagaView, ActionView)> {
    match (state, event) {
        (SagaView::Reserving { amount, card }, EventView::Inserted(Ok(payment_id))) => Some(
            (
                SagaView::Holding { payment_id, amount, card },
                ActionView::PlaceHold { account_number: account_prefix(card), amount },
            ),
        ),
        (SagaView::Reserving { .. }, EventView::Inserted(Err(_))) => Some(
            (SagaView::Done, rejection(UNPROCESSABLE_ENTITY, "card_number already used"@)),
        ),
        (SagaView::Holding { payment_id, amount, card }, EventView::HoldPlaced(Ok(hold))) => Some(
            (
                SagaView::Approving { payment_id, amount, card, hold },
                ActionView::UpdateStatus { payment_id, status: Status::Approved },
            ),
        ),
        (SagaView::Holding { payment_id, amount, card }, EventView::HoldPlaced(Err(message)))
            => Some(
            (
                SagaView::Recording {
                    payment_id,
                    amount,
                    card,
                    code: failure_code(message),
                    status: failure_status(message),
                },
                ActionView::UpdateStatus { payment_id, status: failure_status(message) },
            ),
        ),
        (SagaView::Approving { payment_id, amount, card, hold }, EventView::StatusWritten) => Some(
            (SagaView::Withdrawing { payment_id, amount, card }, ActionView::WithdrawFunds { hold }),
        ),
        (SagaView::Withdrawing { payment_id, amount, card }, EventView::Withdrawn(Ok(_))) => Some(
            (
                SagaView::Done,
                ActionView::Reply(
                    ReplyView::Payment {
                        code: CREATED,
                        id: payment_id,
                        amount,
                        card_number: card,
                        status: Status::Approved,
                    },
                ),
            ),
        ),
        (SagaView::Withdrawing { payment_id, amount, card }, EventView::Withdrawn(Err(message)))
            => Some(
            (
                SagaView::Recording {
                    payment_id,
                    amount,
                    card,
                    code: failure_code(message),
                    status: failure_status(message),
                },
                ActionView::UpdateStatus { payment_id, status: failure_status(message) },
            ),
        ),
        (
            SagaView::Recording { payment_id, amount, card, code, status },
            EventView::StatusWritten,
        ) => Some(
            (
                SagaView::Done,
                ActionView::Reply(
                    ReplyView::Payment { code, id: payment_id, amount, card_number: card, status },
                ),
            ),
        ),
        _ => None,
    }
}

/// The answers that a failure of the account service is given: a payment
/// that the bank refused is declined, and one that could not be settled
/// for another reason is failed.
pub open spec fn is_failure(code: u16, status: Status) -> bool {
    ||| status == Status::Declined && (code == BAD_REQUEST || code == PAYMENT_REQUIRED || code
        == FORBIDDEN)
    ||| status == Status::Failed && code == INTERNAL_SERVER_ERROR
}

/// However the account service words a failure, it is answered as one of
/// the failures of `is_failure`.
pub proof fn lemma_failure_classes(message: Seq<char>)
    ensures
        is_failure(failure_code(message), failure_status(message)),
        failure_code(message) == error_code(message),
{
}

/// How many steps a settlement has before it at most.
spec fn steps_left(state: SagaView) -> nat {
    match state {
        SagaView::Reserving { .. } => 5,
        SagaView::Holding { .. } => 4,
        SagaView::Approving { .. } => 3,
        SagaView::Withdrawing { .. } => 2,
        SagaView::Recording { .. } => 1,
        SagaView::Done => 0,
    }
}

/// What holds of a request once it is answered.
///
/// - A request that is turned down on the spot is answered as
///   [`spec_begin`] says, and leaves the ledger as it was.
/// - A request made with a card number on record is turned down as a reuse
///   of the card number, and leaves the ledger as it was.
/// - Any other request is answered with the payment, which is then on
///   record exactly as the answer gives it: approved under the code
///   `CREATED`, or declined or failed under the code of the failure. The
///   one exception is a request for which the ledger drew an id that was
///   taken: it is turned down like a reuse of the card number.
///
/// So a request is turned down as a reuse only where the ledger would refuse
/// the payment under some id, and never while nothing is on record.
pub open spec fn answered(
    before: LedgerView,
    amount: i32,
    card_number: Seq<char>,
    reply: ReplyView,
    after: LedgerView,
) -> bool {
    if spec_begin(amount, card_number).0 is Done {
        ActionView::Reply(reply) == spec_begin(amount, card_number).1 && after == before
    } else {
        match reply {
            ReplyView::Rejected { code, error } => {
                &&& code == UNPROCESSABLE_ENTITY
                &&& error == "card_number already used"@
                &&& after == before
                &&& exists|id: u128| #[trigger] before.insert_outcome(id, amount, card_number) is Err
            },
            ReplyView::Payment { code, id, amount: paid, card_number: card, status } => {
                &&& paid == amount
                &&& card == card_number
                &&& before.insert_outcome(id, amount, card_number) is Ok
                &&& after == before.with_payment(PaymentView { id, amount, card_number, status })
                &&& ((code == CREATED && status == Status::Approved) || is_failure(code, status))
            },
        }
    }
}

/// What holds while a request is being settled: the state of the
/// settlement, the step asked for, and the ledger agree.
spec fn tracks(
    before: LedgerView,
    amount: i32,
    card_number: Seq<char>,
    now: LedgerView,
    state: SagaView,
    action: ActionView,
) -> bool {
    let row = |id: u128, status: Status| PaymentView { id, amount, card_number, status };
    match state {
        SagaView::Reserving { amount: a, card } => {
            &&& spec_begin(amount, card_number) == (state, action)
            &&& now == before
        },
        SagaView::Holding { payment_id, amount: a, card } => {
            &&& !(spec_begin(amount, card_number).0 is Done)
            &&& a == amount
            &&& card == card_number
            &&& before.insert_outcome(payment_id, amount, card_number) is Ok
            &&& now == before.with_payment(row(payment_id, Status::Processing))
            &&& action is PlaceHold
        },
        SagaView::Approving { payment_id, amount: a, card, hold } => {
            &&& !(spec_begin(amount, card_number).0 is Done)
            &&& a == amount
            &&& card == card_number
            &&& before.insert_outcome(payment_id, amount, card_number) is Ok
            &&& now == before.with_payment(row(payment_id, Status::Processing))
            &&& action == (ActionView::UpdateStatus { payment_id, status: Status::Approved })
        },
        SagaView::Withdrawing { payment_id, amount: a, card } => {
            &&& !(spec_begin(amount, card_number).0 is Done)
            &&& a == amount
            &&& card == card_number
            &&& before.insert_outcome(payment_id, amount, card_number) is Ok
            &&& now == before.with_payment(row(payment_id, Status::Approved))
            &&& action is WithdrawFunds
        },
        SagaView::Recording { payment_id, amount: a, card, code, status } => {
            &&& !(spec_begin(amount, card_number).0 is Done)
            &&& a == amount
            &&& card == card_number
            &&& before.insert_outcome(payment_id, amount, card_number) is Ok
            &&& (now == before.with_payment(row(payment_id, Status::Processing)) || now
                == before.with_payment(row(payment_id, Status::Approved)))
            &&& is_failure(code, status)
            &&& action == (ActionView::UpdateStatus { payment_id, status })
        },
        SagaView::Done => {
            &&& action matches ActionView::Reply(reply)
            &&& answered(before, amount, card_number, reply, now)
        },
    }
}

/// Turns a request down.
fn reject(code: u16, error: &'static str) -> (r: (Saga, Action))
    ensures
        r.0@ == SagaView::Done,
        r.1@ == rejection(code, error@),
{
    (Saga::Done, Action::Reply(Err((code, ErrorResponseBody::new(error)))))
}

/// Records the failure that the account service reported, before the
/// request is answered with it.
fn fail(payment_id: u128, amount: i32, card: Card, message: &str) -> (r: (Saga, Action))
    ensures
        r.0@ == (SagaView::Recording {
            payment_id,
            amount,
            card: card@,
            code: failure_code(message@),
            status: failure_status(message@),
        }),
        r.1@ == (ActionView::UpdateStatus { payment_id, status: failure_status(message@) }),
{
    let error = PaymentError::from(message);
    let status = error.get_payment_status();
    let code = error.get_http_status_code();
    (
        Saga::Recording { payment_id, amount, card, code, status },
        Action::UpdateStatus { payment_id, status },
    )
}

/// Begins the settlement of a request: checks the request, and asks for the
/// payment to be put on record if it passes.
pub fn begin(body: RequestBody) -> (r: (Saga, Action))
    ensures
        (r.0@, r.1@) == spec_begin(body.payment.amount, body.payment.card_number@),
{
    let amount = body.payment.amount;
    if amount == 0 {
        return reject(NO_CONTENT, "Amount shouldn't be 0");
    }
    if amount < 0 {
        return reject(BAD_REQUEST, "Amount shouldn't be negative");
    }
    match Card::try_from(body.payment.card_number) {
        Err(_) => reject(UNPROCESSABLE_ENTITY, "Bad Card Number format"),
        Ok(card) => {
            let card_number = card.card_number().to_owned();
            (
                Saga::Reserving { amount, card },
                Action::InsertPayment { amount, card_number, status: Status::Processing },
            )
        },
    }
}

/// Goes on with a settlement when `event` comes in. `None` says that the
/// settlement was not waiting for this event.
pub fn resume(state: Saga, event: Event) -> (r: Option<(Saga, Action)>)
    ensures
        match r {
            Some((next, action)) => spec_resume(state@, event@) == Some((next@, action@)),
            None => spec_resume(state@, event@) is None,
        },
{
    match (state, event) {
        (Saga::Reserving { amount, card }, Event::Inserted(Ok(payment_id))) => {
            let account_number = card.account_number().to_owned();
            Some(
                (
                    Saga::Holding { payment_id, amount, card },
                    Action::PlaceHold { account_number, amount },
                ),
            )
        },
        (Saga::Reserving { .. }, Event::Inserted(Err(_))) => Some(
            reject(UNPROCESSABLE_ENTITY, "card_number already used"),
        ),
        (Saga::Holding { payment_id, amount, card }, Event::HoldPlaced(Ok(hold))) => Some(
            (
                Saga::Approving { payment_id, amount, card, hold },
                Action::UpdateStatus { payment_id, status: Status::Approved },
            ),
        ),
        (Saga::Holding { payment_id, amount, card }, Event::HoldPlaced(Err(message))) => Some(
            fail(payment_id, amount, card, message.as_str()),
        ),
        (Saga::Approving { payment_id, amount, card, hold }, Event::StatusWritten) => Some(
            (Saga::Withdrawing { payment_id, amount, card }, Action::WithdrawFunds { hold }),
        ),
        (Saga::Withdrawing { payment_id, amount, card }, Event::Withdrawn(Ok(_))) => {
            let card_number: String = String::from(card);
            Some(
                (
                    Saga::Done,
                    Action::Reply(
                        Ok((CREATED, ResponseBody::new(payment_id, amount, card_number, Status::Approved))),
                    ),
                ),
            )
        },
        (Saga::Withdrawing { payment_id, amount, card }, Event::Withdrawn(Err(message))) => Some(
            fail(payment_id, amount, card, message.as_str()),
        ),
        (Saga::Recording { payment_id, amount, card, code, status }, Event::StatusWritten) => {
            let card_number: String = String::from(card);
            Some(
                (
                    Saga::Done,
                    Action::Reply(Ok((code, ResponseBody::new(payment_id, amount, card_number, status)))),
                ),
            )
        },
        _ => None,
    }
}

/// Settles a request for a payment with the account service, and answers
/// it.
///
/// The steps are those of [`begin`] and [`resume`], each taken as soon as it
/// is asked for, and the answer is the one that they end with: what the
/// steps hear of a hold and of a withdrawal is what the account service
/// said to the request that the step made. Whatever the account service
/// says, the request ends as [`answered`] says, and every payment put on
/// record ends approved, declined or failed.
pub fn post<T: AccountService>(bank_web: &mut BankWeb<T>, body: RequestBody) -> (r: Reply)
    ensures
        answered(
            old(bank_web).ledger@,
            body.payment.amount,
            body.payment.card_number@,
            reply_view(r),
            final(bank_web).ledger@,
        ),
        exists|events: Seq<EventView>|
            {
                &&& #[trigger] settles(
                    body.payment.amount,
                    body.payment.card_number@,
                    events,
                    reply_view(r),
                )
                &&& served(
                    old(bank_web).account_service,
                    body.payment.amount,
                    body.payment.card_number@,
                    events,
                )
            },
        final(bank_web).account_service == old(bank_web).account_service,
{
    let ghost before = bank_web.ledger@;
    let ghost amount = body.payment.amount;
    let ghost card_number = body.payment.card_number@;
    proof {
        use_type_invariant(&bank_web.ledger);
    }
    let (first, step) = begin(body);
    let mut state = first;
    let mut action = step;
    let ghost heard: Seq<EventView> = Seq::empty();
    loop
        invariant
            before == old(bank_web).ledger@,
            before.wf(),
            amount == body.payment.amount,
            card_number == body.payment.card_number@,
            tracks(before, amount, card_number, bank_web.ledger@, state@, action@),
            state_after(spec_begin(amount, card_number).0, heard) == Some(state@),
            steps(amount, card_number, heard).len() == heard.len() + 1,
            steps(amount, card_number, heard).last() == action@,
            served(bank_web.account_service, amount, card_number, heard),
            bank_web.account_service == old(bank_web).account_service,
        decreases steps_left(state@),
    {
        let ghost asked = action@;
        let event = match action {
            Action::Reply(reply) => {
                assert(settles(amount, card_number, heard, reply_view(reply)));
                return reply;
            },
            Action::InsertPayment { amount, card_number, status } => Event::Inserted(
                insert(&mut bank_web.ledger, amount, card_number, status),
            ),
            Action::PlaceHold { account_number, amount } => Event::HoldPlaced(
                bank_web.account_service.place_hold(account_number.as_str(), amount),
            ),
            Action::UpdateStatus { payment_id, status } => {
                proof {
                    // the payment is on record, being processed or approved
                    lemma_with_payment_wf(
                        before,
                        PaymentView { id: payment_id, amount, card_number, status: Status::Processing },
                    );
                    lemma_with_payment_wf(
                        before,
                        PaymentView { id: payment_id, amount, card_number, status: Status::Approved },
                    );
                    lemma_status_of_new_payment(
                        before,
                        PaymentView { id: payment_id, amount, card_number, status: Status::Processing },
                        status,
                    );
                    lemma_status_of_new_payment(
                        before,
                        PaymentView { id: payment_id, amount, card_number, status: Status::Approved },
                        status,
                    );
                }
                match update(&mut bank_web.ledger, payment_id, status) {
                    Ok(_) => Event::StatusWritten,
                    Err(_) => vstd::pervasive::unreached(),
                }
            },
            Action::WithdrawFunds { hold } => Event::Withdrawn(
                bank_web.account_service.withdraw_funds(hold),
            ),
        };
        proof {
            match event@ {
                EventView::HoldPlaced(Err(message)) => lemma_failure_classes(message),
                EventView::Withdrawn(Err(message)) => lemma_failure_classes(message),
                _ => {},
            }
        }
        let ghost came = event@;
        match resume(state, event) {
            Some((next, step)) => {
                proof {
                    lemma_one_more_step(spec_begin(amount, card_number).0, heard, came);
                    let longer = heard.push(came);
                    assert(steps(amount, card_number, longer) =~= steps(
                        amount,
                        card_number,
                        heard,
                    ).push(step@));
                    // what came is what the service said to the step asked for
                    assert(answers(bank_web.account_service, asked, came));
                    assert forall|k: int| 0 <= k < longer.len() implies answers(
                        bank_web.account_service,
                        steps(amount, card_number, longer)[k],
                        #[trigger] longer[k],
                    ) by {
                        if k < heard.len() {
                            assert(longer[k] == heard[k]);
                        }
                    }
                    heard = longer;
                }
                state = next;
                action = step;
            },
            None => {
                return vstd::pervasive::unreached();
            },
        }
    }
}

/// Reads a payment on record, and answers with it.
pub fn get<T: AccountService>(bank_web: &BankWeb<T>, payment_id: u128) -> (r: Reply)
    requires
        bank_web.ledger@.has_payment(payment_id),
    ensures
        reply_view(r) == (ReplyView::Payment {
            code: OK,
            id: payment_id,
            amount: bank_web.ledger@.find_payment(payment_id)->0.amount,
            card_number: bank_web.ledger@.find_payment(payment_id)->0.card_number,
            status: bank_web.ledger@.find_payment(payment_id)->0.status,
        }),
{
    match crate::bank::payments::get(&bank_web.ledger, payment_id) {
        Ok(payment) => Ok(
            (OK, ResponseBody::new(payment.id, payment.amount, payment.card_number, payment.status)),
        ),
        Err(_) => vstd::pervasive::unreached(),
    }
}

/// The steps that a settlement in `state` asks for as `events` come in: one
/// for each event, up to the first event that it was not waiting for.
pub open spec fn run(state: SagaView, events: Seq<EventView>) -> Seq<ActionView>
    decreases events.len(),
{
    if events.len() == 0 {
        Seq::empty()
    } else {
        match spec_resume(state, events.first()) {
            None => Seq::empty(),
            Some((next, action)) => seq![action] + run(next, events.drop_first()),
        }
    }
}

/// All the steps that a request asks for as `events` come in, the first of
/// them being the one that it begins with.
pub open spec fn steps(amount: i32, card_number: Seq<char>, events: Seq<EventView>) -> Seq<
    ActionView,
> {
    seq![spec_begin(amount, card_number).1] + run(spec_begin(amount, card_number).0, events)
}

/// The state that a settlement in `state` has come to after `events`, if it
/// was waiting for each of them in its turn.
pub open spec fn state_after(state: SagaView, events: Seq<EventView>) -> Option<SagaView>
    decreases events.len(),
{
    if events.len() == 0 {
        Some(state)
    } else {
        match spec_resume(state, events.first()) {
            None => None,
            Some((next, _)) => state_after(next, events.drop_first()),
        }
    }
}

/// Whether a request, run through `events`, has heard every one of them and
/// ended with `reply`.
pub open spec fn settles(
    amount: i32,
    card_number: Seq<char>,
    events: Seq<EventView>,
    reply: ReplyView,
) -> bool {
    &&& state_after(spec_begin(amount, card_number).0, events) == Some(SagaView::Done)
    &&& steps(amount, card_number, events).last() == ActionView::Reply(reply)
}

/// Whether `event` may be what came of `action`, as far as `service` answers
/// for it: what is heard of a hold or of a withdrawal is what the service
/// may say to the very request that the step made.
pub open spec fn answers<T: AccountService>(service: T, action: ActionView, event: EventView) -> bool {
    match action {
        ActionView::PlaceHold { account_number, amount } => {
            &&& event matches EventView::HoldPlaced(answer)
            &&& service.may_place_hold(account_number, amount, answer)
        },
        ActionView::WithdrawFunds { hold } => {
            &&& event matches EventView::Withdrawn(answer)
            &&& service.may_withdraw_funds(hold, answer)
        },
        _ => true,
    }
}

/// Whether each of `events` may be what came of the step that the request
/// had asked for when it came in, as far as `service` answers for it.
pub open spec fn served<T: AccountService>(
    service: T,
    amount: i32,
    card_number: Seq<char>,
    events: Seq<EventView>,
) -> bool {
    forall|k: int|
        0 <= k < events.len() ==> answers(
            service,
            steps(amount, card_number, events)[k],
            #[trigger] events[k],
        )
}

/// One more event that a settlement was waiting for brings one more step.
pub proof fn lemma_one_more_step(state: SagaView, events: Seq<EventView>, event: EventView)
    requires
        state_after(state, events) is Some,
        spec_resume(state_after(state, events)->0, event) is Some,
    ensures
        run(state, events).len() == events.len(),
        ({
            &&& spec_resume(state_after(state, events)->0, event) matches Some((next, action))
            &&& state_after(state, events.push(event)) == Some(next)
            &&& run(state, events.push(event)) == run(state, events).push(action)
        }),
    decreases events.len(),
{
    let longer = events.push(event);
    if events.len() == 0 {
        if let Some((next, action)) = spec_resume(state, event) {
            assert(longer.drop_first() =~= Seq::<EventView>::empty());
            assert(run(state, longer) =~= seq![action] + run(next, Seq::<EventView>::empty()));
            assert(state_after(state, longer) == state_after(next, longer.drop_first()));
        }
    } else if let Some((second, _)) = spec_resume(state, events.first()) {
        let rest = events.drop_first();
        lemma_one_more_step(second, rest, event);
        assert(longer.drop_first() =~= rest.push(event));
    }
}

/// How many times `actions` ask for a hold.
pub open spec fn holds_asked(actions: Seq<ActionView>) -> nat
    decreases actions.len(),
{
    if actions.len() == 0 {
        0
    } else {
        holds_asked(actions.drop_first()) + if actions.first() is PlaceHold {
            1nat
        } else {
            0nat
        }
    }
}

/// How many times `actions` ask for a withdrawal.
pub open spec fn withdrawals_asked(actions: Seq<ActionView>) -> nat
    decreases actions.len(),
{
    if actions.len() == 0 {
        0
    } else {
        withdrawals_asked(actions.drop_first()) + if actions.first() is WithdrawFunds {
            1nat
        } else {
            0nat
        }
    }
}

/// The statuses that `actions` ask to have written, in their order.
pub open spec fn statuses_asked(actions: Seq<ActionView>) -> Seq<Status>
    decreases actions.len(),
{
    if actions.len() == 0 {
        Seq::empty()
    } else {
        (match actions.first() {
            ActionView::InsertPayment { status, .. } => seq![status],
            ActionView::UpdateStatus { status, .. } => seq![status],
            _ => Seq::empty(),
        }) + statuses_asked(actions.drop_first())
    }
}

/// Whether each of `statuses` may follow the one before it, the first of
/// them following `from`.
pub open spec fn follows(from: Status, statuses: Seq<Status>) -> bool
    decreases statuses.len(),
{
    statuses.len() == 0 || (from.can_move_to(statuses.first()) && follows(
        statuses.first(),
        statuses.drop_first(),
    ))
}

/// How many more statuses may follow `from`.
pub open spec fn moves_left(from: Status) -> nat {
    match from {
        Status::Processing => 2,
        Status::Approved => 1,
        Status::Declined => 0,
        Status::Failed => 0,
    }
}

/// Statuses that follow one another are few: after a payment being
/// processed come two at most.
pub proof fn lemma_follows_is_short(from: Status, statuses: Seq<Status>)
    requires
        follows(from, statuses),
    ensures
        statuses.len() <= moves_left(from),
    decreases statuses.len(),
{
    if statuses.len() > 0 {
        lemma_follows_is_short(statuses.first(), statuses.drop_first());
    }
}

/// The status that a settlement in `state` asked last to have written.
pub open spec fn status_asked(state: SagaView) -> Status {
    match state {
        SagaView::Reserving { .. } => Status::Processing,
        SagaView::Holding { .. } => Status::Processing,
        SagaView::Approving { .. } => Status::Approved,
        SagaView::Withdrawing { .. } => Status::Approved,
        SagaView::Recording { status, .. } => status,
        SagaView::Done => Status::Failed,
    }
}

/// From any state on, a settlement asks for a hold only when its payment
/// has just been put on record, for a withdrawal only once the funds are
/// held and the approval is on record, and for a status to be written only
/// if the status may follow the one it asked for before.
pub proof fn lemma_run(state: SagaView, events: Seq<EventView>)
    ensures
        holds_asked(run(state, events)) <= (if state is Reserving {
            1nat
        } else {
            0nat
        }),
        holds_asked(run(state, events)) == 1 ==> events.len() > 0 && events.first() matches EventView::Inserted(
            Ok(_),
        ),
        withdrawals_asked(run(state, events)) <= (if state is Reserving || state is Holding
            || state is Approving {
            1nat
        } else {
            0nat
        }),
        state is Reserving && withdrawals_asked(run(state, events)) == 1 ==> holds_asked(
            run(state, events),
        ) == 1,
        state is Recording || state is Done || follows(
            status_asked(state),
            statuses_asked(run(state, events)),
        ),
        (state is Recording || state is Done) ==> statuses_asked(run(state, events)).len() == 0,
    decreases events.len(),
{
    if events.len() > 0 {
        match spec_resume(state, events.first()) {
            None => {},
            Some((next, action)) => {
                let rest = run(next, events.drop_first());
                let all = run(state, events);
                lemma_run(next, events.drop_first());
                assert(all.drop_first() =~= rest);
                match events.first() {
                    EventView::HoldPlaced(Err(message)) => lemma_failure_classes(message),
                    EventView::Withdrawn(Err(message)) => lemma_failure_classes(message),
                    _ => {},
                }
                if let ActionView::UpdateStatus { status, .. } = action {
                    assert(statuses_asked(all).drop_first() =~= statuses_asked(rest));
                    assert(follows(status, statuses_asked(rest)));
                }
            },
        }
    }
}

/// A settlement never holds funds twice, never withdraws without a hold,
/// and writes statuses only forward.
///
/// Whatever the ledger and the account service answer, the steps of one
/// request ask for at most one hold, and for that only if the ledger took
/// the payment; for at most one withdrawal, and for that only after the
/// hold; and the statuses they ask to have written begin with the payment
/// being processed and go on as `Status::can_move_to` allows, so that a
/// payment is written once and rewritten twice at most. A request that is
/// turned down on the spot asks for no step but its answer.
pub proof fn lemma_settlement_steps(amount: i32, card_number: Seq<char>, events: Seq<EventView>)
    ensures
        holds_asked(steps(amount, card_number, events)) <= 1,
        holds_asked(steps(amount, card_number, events)) == 1 ==> events.len() > 0
            && events.first() matches EventView::Inserted(Ok(_)),
        withdrawals_asked(steps(amount, card_number, events)) <= holds_asked(
            steps(amount, card_number, events),
        ),
        statuses_asked(steps(amount, card_number, events)).len() == 0 || follows(
            Status::Processing,
            statuses_asked(steps(amount, card_number, events)).drop_first(),
        ) && statuses_asked(steps(amount, card_number, events)).first() == Status::Processing,
        statuses_asked(steps(amount, card_number, events)).len() <= 3,
        spec_begin(amount, card_number).0 is Done ==> steps(amount, card_number, events)
            =~= seq![spec_begin(amount, card_number).1],
{
    let (state, action) = spec_begin(amount, card_number);
    let rest = run(state, events);
    let all = steps(amount, card_number, events);
    lemma_run(state, events);
    assert(all.drop_first() =~= rest);
    if !(state is Done) {
        assert(statuses_asked(all).drop_first() =~= statuses_asked(rest));
        lemma_follows_is_short(Status::Processing, statuses_asked(rest));
    }
}

/// A hold that was granted is withdrawn, once and as it was given.
///
/// Take a request that was not turned down on the spot, whose payment the
/// ledger took and whose hold the account service granted, and let it run
/// until it has answered: its fourth step asked for the withdrawal of that
/// very hold, and no other step asked for a withdrawal. No step ever asks for a release: whether a withdrawal that
/// failed took place is not known, and a hold is never resolved twice.
pub proof fn lemma_hold_is_withdrawn(
    amount: i32,
    card_number: Seq<char>,
    events: Seq<EventView>,
    hold: HoldRef,
)
    requires
        spec_begin(amount, card_number).0 is Reserving,
        events.len() >= 2,
        events[0] matches EventView::Inserted(Ok(_)),
        events[1] == EventView::HoldPlaced(Ok::<HoldRef, Seq<char>>(hold)),
        steps(amount, card_number, events).last() is Reply,
    ensures
        steps(amount, card_number, events).len() >= 5,
        steps(amount, card_number, events)[3] == (ActionView::WithdrawFunds { hold }),
        withdrawals_asked(steps(amount, card_number, events)) == 1,
{
    let (begun, first) = spec_begin(amount, card_number);
    let all = steps(amount, card_number, events);
    // the payment is taken
    let (holding, second) = spec_resume(begun, events[0])->0;
    let after_one = events.drop_first();
    // the hold is granted
    let (approving, third) = spec_resume(holding, events[1])->0;
    let after_two = after_one.drop_first();
    assert(run(holding, after_one) =~= seq![third] + run(approving, after_two));
    // the settlement has answered, so the approval was written
    if after_two.len() > 0 && spec_resume(approving, after_two.first()) is Some {
        let (withdrawing, fourth) = spec_resume(approving, after_two.first())->0;
        let after_three = after_two.drop_first();
        lemma_run(withdrawing, after_three);
        let tail = run(withdrawing, after_three);
        assert(all =~= seq![first, second, third, fourth] + tail);
        lemma_withdrawals_add_up(seq![first, second, third, fourth], tail);
        assert(withdrawals_asked(seq![first, second, third, fourth]) == 1) by {
            reveal_with_fuel(withdrawals_asked, 5);
        }
    }
}

/// The withdrawals asked for by steps put end to end are those of the one
/// and those of the other.
pub proof fn lemma_withdrawals_add_up(a: Seq<ActionView>, b: Seq<ActionView>)
    ensures
        withdrawals_asked(a + b) == withdrawals_asked(a) + withdrawals_asked(b),
    decreases a.len(),
{
    if a.len() > 0 {
        lemma_withdrawals_add_up(a.drop_first(), b);
        assert((a + b).drop_first() =~= a.drop_first() + b);
    }
}

/// With the dummy for a service, the answer to a request is settled by the
/// request alone, but for the id that the ledger draws.
///
/// Take a request that was not turned down on the spot, served by the
/// dummy. If the ledger refused the payment, the request is turned down as
/// a reuse of the card number. If not, it is answered with the payment:
/// approved and under the code `CREATED` where the dummy has no refusal for
/// the account and the amount, and else in the status and under the code of
/// that refusal.
pub proof fn lemma_settled_by_dummy(
    service: DummyService,
    amount: i32,
    card_number: Seq<char>,
    events: Seq<EventView>,
    reply: ReplyView,
)
    requires
        spec_begin(amount, card_number).0 is Reserving,
        settles(amount, card_number, events, reply),
        served(service, amount, card_number, events),
    ensures
        events.len() > 0,
        events[0] is Inserted,
        match reply {
            ReplyView::Rejected { .. } => events[0] matches EventView::Inserted(Err(_)),
            ReplyView::Payment { code, status, .. } => {
                &&& events[0] matches EventView::Inserted(Ok(_))
                &&& match dummy_refusal(service.canned(), account_prefix(card_number), amount) {
                    None => code == CREATED && status == Status::Approved,
                    Some(refusal) => code == failure_code(refusal) && status == failure_status(
                        refusal,
                    ),
                }
            },
        },
{
    let (begun, first) = spec_begin(amount, card_number);
    let all = steps(amount, card_number, events);
    assert(all.drop_first() =~= run(begun, events));
    // the ledger answers
    let (one, second) = spec_resume(begun, events[0])->0;
    let after_one = events.drop_first();
    assert(run(begun, events) =~= seq![second] + run(one, after_one));
    assert(state_after(one, after_one) == Some(SagaView::Done));
    assert(all[1] == second);
    if one is Done {
        lemma_done(after_one);
        assert(all =~= seq![first, second]);
    } else {
        // the dummy answers the request for a hold
        assert(after_one.len() > 0);
        assert(after_one[0] == events[1]);
        assert(answers(service, all[1], events[1]));
        let (two, third) = spec_resume(one, events[1])->0;
        let after_two = after_one.drop_first();
        assert(run(one, after_one) =~= seq![third] + run(two, after_two));
        assert(state_after(two, after_two) == Some(SagaView::Done));
        // the status is written
        assert(after_two.len() > 0);
        assert(after_two[0] == events[2]);
        let (three, fourth) = spec_resume(two, events[2])->0;
        let after_three = after_two.drop_first();
        assert(run(two, after_two) =~= seq![fourth] + run(three, after_three));
        assert(state_after(three, after_three) == Some(SagaView::Done));
        assert(all[3] == fourth);
        if three is Done {
            lemma_done(after_three);
            assert(all =~= seq![first, second, third, fourth]);
        } else {
            // the dummy answers the withdrawal
            assert(after_three.len() > 0);
            assert(after_three[0] == events[3]);
            assert(answers(service, all[3], events[3]));
            let (four, fifth) = spec_resume(three, events[3])->0;
            let after_four = after_three.drop_first();
            assert(run(three, after_three) =~= seq![fifth] + run(four, after_four));
            assert(state_after(four, after_four) == Some(SagaView::Done));
            lemma_done(after_four);
            assert(all =~= seq![first, second, third, fourth, fifth]);
        }
    }
}

/// A settlement that has answered hears nothing more.
pub proof fn lemma_done(events: Seq<EventView>)
    requires
        state_after(SagaView::Done, events) is Some,
    ensures
        events.len() == 0,
        run(SagaView::Done, events) =~= Seq::<ActionView>::empty(),
{
}

/// A payment that has just been made reads back as it was answered: the
/// payment with the id of the answer is on record with the amount, the
/// card number and the status that the answer gave.
pub proof fn lemma_payment_reads_back(
    before: LedgerView,
    amount: i32,
    card_number: Seq<char>,
    reply: ReplyView,
    after: LedgerView,
)
    requires
        before.wf(),
        answered(before, amount, card_number, reply, after),
        reply is Payment,
    ensures
        after.wf(),
        after.find_payment(reply->id) == Some(
            PaymentView { id: reply->id, amount, card_number, status: reply->status },
        ),
        reply->amount == amount,
        reply->card_number == card_number,
{
    lemma_with_payment_wf(
        before,
        PaymentView { id: reply->id, amount, card_number, status: reply->status },
    );
}

} // verus!
