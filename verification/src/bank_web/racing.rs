//! Requests for payments that are served side by side, their steps taken
//! in any order.

use crate::bank::accounts::HoldRef;
use crate::bank::ledger::{lemma_with_payment_wf, lemma_with_status_wf, LedgerView};
use crate::bank::payments::{PaymentView, Status};
use crate::bank_web::payments::{spec_begin, spec_resume, ActionView, EventView, SagaView};
use vstd::prelude::*;

verus! {

/// What the world answers when a step is taken: the id that the ledger
/// draws for a new payment, and what the account service says to a hold and
/// to a withdrawal.
pub struct Answers {
    pub id: u128,
    pub hold: Result<HoldRef, Seq<char>>,
    pub withdrawal: Result<(), Seq<char>>,
}

/// One ledger and the settlements that work on it, each with the step that
/// it has asked for and that has not been taken yet.
pub struct Race {
    pub ledger: LedgerView,
    pub settlements: Seq<(SagaView, ActionView)>,
    /// How many times the account service has been asked for a hold.
    pub holds_placed: nat,
}

impl Race {
    /// Requests for `amounts`, all made with one card number, none of them
    /// served yet.
    pub open spec fn start(ledger: LedgerView, amounts: Seq<i32>, card_number: Seq<char>) -> Race {
        Race {
            ledger,
            settlements: Seq::new(amounts.len(), |i: int| spec_begin(amounts[i], card_number)),
            holds_placed: 0,
        }
    }

    /// The race after settlement `i` has heard `event` of the step it asked
    /// for, the step having left `ledger` and `holds_placed` behind.
    pub open spec fn heard(self, i: int, ledger: LedgerView, holds_placed: nat, event: EventView) -> Race {
        match spec_resume(self.settlements[i].0, event) {
            Some(next) => Race {
                ledger,
                settlements: self.settlements.update(i, next),
                holds_placed,
            },
            None => self,
        }
    }

    /// The race after the step that settlement `i` has asked for is taken,
    /// as one: a write to the ledger takes effect at once and whole, and
    /// the settlement hears of it. A settlement that has answered takes no
    /// step, and one whose status the ledger will not write stays where it
    /// is.
    pub open spec fn step(self, i: int, answers: Answers) -> Race {
        if 0 <= i < self.settlements.len() {
            match self.settlements[i].1 {
                ActionView::Reply(_) => self,
                ActionView::InsertPayment { amount, card_number, status } => {
                    let outcome = self.ledger.insert_outcome(answers.id, amount, card_number);
                    let ledger = if outcome is Ok {
                        self.ledger.with_payment(
                            PaymentView { id: answers.id, amount, card_number, status },
                        )
                    } else {
                        self.ledger
                    };
                    self.heard(i, ledger, self.holds_placed, EventView::Inserted(outcome))
                },
                ActionView::PlaceHold { .. } => self.heard(
                    i,
                    self.ledger,
                    self.holds_placed + 1,
                    EventView::HoldPlaced(answers.hold),
                ),
                ActionView::UpdateStatus { payment_id, status } => if self.ledger.update_outcome(
                    payment_id,
                    status,
                ) is Ok {
                    self.heard(
                        i,
                        self.ledger.with_status(payment_id, status),
                        self.holds_placed,
                        EventView::StatusWritten,
                    )
                } else {
                    self
                },
                ActionView::WithdrawFunds { .. } => self.heard(
                    i,
                    self.ledger,
                    self.holds_placed,
                    EventView::Withdrawn(answers.withdrawal),
                ),
            }
        } else {
            self
        }
    }

    /// The race after the steps of `schedule` are taken in turn: each names
    /// the settlement that moves, and what the world answers it.
    pub open spec fn after(self, schedule: Seq<(int, Answers)>) -> Race
        decreases schedule.len(),
    {
        if schedule.len() == 0 {
            self
        } else {
            self.after(schedule.drop_last()).step(schedule.last().0, schedule.last().1)
        }
    }

    /// What a race for `card_number` keeps at every step: a settlement asks
    /// for a hold only while the card number is on record and no hold has
    /// been asked for, and no two settlements do.
    pub open spec fn fair(self, card_number: Seq<char>) -> bool {
        &&& self.ledger.wf()
        &&& self.holds_placed <= 1
        &&& self.holds_placed == 1 ==> self.ledger.card_used(card_number)
        &&& forall|i: int|
            0 <= i < self.settlements.len() ==> match (#[trigger] self.settlements[i]).0 {
                SagaView::Reserving { amount, card } => self.settlements[i].1 == (
                ActionView::InsertPayment {
                    amount,
                    card_number,
                    status: Status::Processing,
                }),
                SagaView::Holding { .. } => self.settlements[i].1 is PlaceHold
                    && self.holds_placed == 0 && self.ledger.card_used(card_number),
                SagaView::Approving { .. } => self.settlements[i].1 is UpdateStatus,
                SagaView::Withdrawing { .. } => self.settlements[i].1 is WithdrawFunds,
                SagaView::Recording { .. } => self.settlements[i].1 is UpdateStatus,
                SagaView::Done => self.settlements[i].1 is Reply,
            }
        &&& forall|i: int, j: int|
            0 <= i < j < self.settlements.len() ==> !((#[trigger] self.settlements[i]).0 is Holding
                && (#[trigger] self.settlements[j]).0 is Holding)
    }
}

/// A step leaves a fair race fair.
pub proof fn lemma_step_fair(race: Race, card_number: Seq<char>, i: int, answers: Answers)
    requires
        race.fair(card_number),
    ensures
        race.step(i, answers).fair(card_number),
{
    let next = race.step(i, answers);
    if 0 <= i < race.settlements.len() && next != race {
        match race.settlements[i].1 {
            ActionView::InsertPayment { amount, card_number: card, status } => {
                let outcome = race.ledger.insert_outcome(answers.id, amount, card);
                if outcome is Ok {
                    let row = PaymentView { id: answers.id, amount, card_number, status };
                    lemma_with_payment_wf(race.ledger, row);
                }
            },
            ActionView::UpdateStatus { payment_id, status } => {
                lemma_with_status_wf(race.ledger, payment_id, status);
            },
            _ => {},
        }
    }
}

/// A card number is used once, however the requests race.
///
/// Take any number of requests made with one card number that is not on
/// record, and take their steps in any order, whatever the ledger draws and
/// the account service answers: at no time is more than one payment with
/// that card number on record, and the account service is asked for a hold
/// at most once over all of them.
pub proof fn lemma_single_use_card(
    ledger: LedgerView,
    amounts: Seq<i32>,
    card_number: Seq<char>,
    schedule: Seq<(int, Answers)>,
)
    requires
        ledger.wf(),
        !ledger.card_used(card_number),
    ensures
        ({
            let race = Race::start(ledger, amounts, card_number).after(schedule);
            &&& race.fair(card_number)
            &&& race.holds_placed <= 1
            &&& forall|i: int, j: int|
                0 <= i < j < race.ledger.payments.len() ==> !((
                #[trigger] race.ledger.payments[i]).card_number == card_number && (
                #[trigger] race.ledger.payments[j]).card_number == card_number)
        }),
    decreases schedule.len(),
{
    let start = Race::start(ledger, amounts, card_number);
    if schedule.len() > 0 {
        lemma_single_use_card(ledger, amounts, card_number, schedule.drop_last());
        lemma_step_fair(
            start.after(schedule.drop_last()),
            card_number,
            schedule.last().0,
            schedule.last().1,
        );
    }
}

} // verus!
