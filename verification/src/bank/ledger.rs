//! The ledger: every payment and every refund on record, and the rules that
//! the records keep whatever is written to them.

use crate::bank::payments::{Payment, PaymentView, Status};
use crate::bank::refunds::Refund;
use vstd::prelude::*;

verus! {

/// Why the ledger refused a write or a read.
#[derive(Debug, Clone, Copy, PartialEq, Eq, Structural)]
pub enum StoreError {
    /// A payment must be for more than nothing.
    NonPositiveAmount,
    /// A payment with this card number is on record already.
    CardNumberTaken,
    /// A row with the id drawn for the new row is on record already.
    IdTaken,
    /// The payment that the refund is against is not approved.
    PaymentNotApproved,
    /// The refund would bring the refunds of its payment above the payment.
    RefundExceedsPayment,
    /// No row has the id asked for.
    RowNotFound,
    /// The payment may not go from the status it has to the one given.
    StatusMovesBack,
}

/// What has been refunded against `payment_id` in `refunds`.
pub open spec fn refunded_total(refunds: Seq<Refund>, payment_id: u128) -> int
    decreases refunds.len(),
{
    if refunds.len() == 0 {
        0
    } else {
        refunded_total(refunds.drop_last(), payment_id) + if refunds.last().payment_id
            == payment_id {
            refunds.last().amount as int
        } else {
            0
        }
    }
}

/// The ledger as mathematics: its rows, oldest first.
pub struct LedgerView {
    pub payments: Seq<PaymentView>,
    pub refunds: Seq<Refund>,
}

impl LedgerView {
    /// The ledger with nothing on record.
    pub open spec fn empty() -> LedgerView {
        LedgerView { payments: Seq::empty(), refunds: Seq::empty() }
    }

    /// Whether a payment with this id is on record.
    pub open spec fn has_payment(self, id: u128) -> bool {
        exists|i: int| 0 <= i < self.payments.len() && (#[trigger] self.payments[i]).id == id
    }

    /// The payment with this id, if one is on record.
    pub open spec fn find_payment(self, id: u128) -> Option<PaymentView> {
        if self.has_payment(id) {
            Some(
                self.payments[choose|i: int|
                    0 <= i < self.payments.len() && (#[trigger] self.payments[i]).id == id],
            )
        } else {
            None
        }
    }

    /// Whether a payment made with this card number is on record.
    pub open spec fn card_used(self, card_number: Seq<char>) -> bool {
        exists|i: int|
            0 <= i < self.payments.len() && (#[trigger] self.payments[i]).card_number
                == card_number
    }

    /// Whether a refund with this id is on record.
    pub open spec fn has_refund(self, id: u128) -> bool {
        exists|k: int| 0 <= k < self.refunds.len() && (#[trigger] self.refunds[k]).id == id
    }

    /// The refund with this id, if one is on record.
    pub open spec fn find_refund(self, id: u128) -> Option<Refund> {
        if self.has_refund(id) {
            Some(
                self.refunds[choose|k: int|
                    0 <= k < self.refunds.len() && (#[trigger] self.refunds[k]).id == id],
            )
        } else {
            None
        }
    }

    /// What has been refunded against the payment with this id.
    pub open spec fn refunded(self, payment_id: u128) -> int {
        refunded_total(self.refunds, payment_id)
    }

    /// The rules that the records keep: no id and no card number occurs
    /// twice, every amount is positive, every refund belongs to a payment
    /// on record, and the refunds of a payment never add up to more than
    /// the payment.
    pub open spec fn wf(self) -> bool {
        &&& forall|i: int, j: int|
            0 <= i < j < self.payments.len() ==> (#[trigger] self.payments[i]).id
                != (#[trigger] self.payments[j]).id
        &&& forall|i: int, j: int|
            0 <= i < j < self.payments.len() ==> (#[trigger] self.payments[i]).card_number
                != (#[trigger] self.payments[j]).card_number
        &&& forall|i: int|
            0 <= i < self.payments.len() ==> (#[trigger] self.payments[i]).amount > 0
        &&& forall|k: int|
            0 <= k < self.refunds.len() ==> (#[trigger] self.refunds[k]).amount > 0
                && self.has_payment(self.refunds[k].payment_id)
        &&& forall|k: int, l: int|
            0 <= k < l < self.refunds.len() ==> (#[trigger] self.refunds[k]).id
                != (#[trigger] self.refunds[l]).id
        &&& forall|i: int|
            0 <= i < self.payments.len() ==> self.refunded((#[trigger] self.payments[i]).id)
                <= self.payments[i].amount
    }

    /// What comes of writing a payment under `id`: the amount must be
    /// positive, the card number unused, and the id free.
    pub open spec fn insert_outcome(self, id: u128, amount: i32, card_number: Seq<char>) -> Result<
        u128,
        StoreError,
    > {
        if amount <= 0 {
            Err(StoreError::NonPositiveAmount)
        } else if self.card_used(card_number) {
            Err(StoreError::CardNumberTaken)
        } else if self.has_payment(id) {
            Err(StoreError::IdTaken)
        } else {
            Ok(id)
        }
    }

    /// What comes of rewriting the status of the payment with this id: the
    /// payment must be on record, and the status must be one that the
    /// payment may go on to.
    pub open spec fn update_outcome(self, id: u128, status: Status) -> Result<u128, StoreError> {
        match self.find_payment(id) {
            None => Err(StoreError::RowNotFound),
            Some(payment) => if payment.status.can_move_to(status) {
                Ok(id)
            } else {
                Err(StoreError::StatusMovesBack)
            },
        }
    }

    /// Whether a refund of `amount` against the payment with this id fits:
    /// the amount is positive, the payment is on record and approved, and
    /// with what has been refunded already the refund does not come to more
    /// than the payment.
    pub open spec fn accepts_refund(self, payment_id: u128, amount: i32) -> bool {
        &&& amount > 0
        &&& self.has_payment(payment_id)
        &&& self.find_payment(payment_id)->0.status == Status::Approved
        &&& self.refunded(payment_id) + amount <= self.find_payment(payment_id)->0.amount
    }

    /// What comes of writing a refund under `id`: the amount must be
    /// positive, the payment on record and approved, the refunds of the
    /// payment must not come to more than the payment, and the id must be
    /// free.
    pub open spec fn refund_outcome(self, id: u128, payment_id: u128, amount: i32) -> Result<
        u128,
        StoreError,
    > {
        if amount <= 0 {
            Err(StoreError::NonPositiveAmount)
        } else if !self.has_payment(payment_id) {
            Err(StoreError::RowNotFound)
        } else if self.find_payment(payment_id)->0.status != Status::Approved {
            Err(StoreError::PaymentNotApproved)
        } else if self.refunded(payment_id) + amount > self.find_payment(payment_id)->0.amount {
            Err(StoreError::RefundExceedsPayment)
        } else if self.has_refund(id) {
            Err(StoreError::IdTaken)
        } else {
            Ok(id)
        }
    }

    /// What comes of writing a refund under `id`, if it fits: `None` where
    /// it does not fit, and a refusal where it fits but the id is taken.
    pub open spec fn checked_insert_outcome(self, id: u128, payment_id: u128, amount: i32) -> Result<
        Option<u128>,
        StoreError,
    > {
        if !self.accepts_refund(payment_id, amount) {
            Ok(None)
        } else if self.has_refund(id) {
            Err(StoreError::IdTaken)
        } else {
            Ok(Some(id))
        }
    }

    /// The ledger after a refund has been put to it under `id`: with the
    /// refund on record if it was taken, and as it was if not.
    pub open spec fn checked_insert(self, id: u128, payment_id: u128, amount: i32) -> LedgerView {
        if self.checked_insert_outcome(id, payment_id, amount) == Ok::<Option<u128>, StoreError>(
            Some(id),
        ) {
            self.with_refund(Refund { id, payment_id, amount })
        } else {
            self
        }
    }

    /// The ledger with one more payment on record.
    pub open spec fn with_payment(self, payment: PaymentView) -> LedgerView {
        LedgerView { payments: self.payments.push(payment), refunds: self.refunds }
    }

    /// The ledger with the status of every payment of this id rewritten.
    pub open spec fn with_status(self, id: u128, status: Status) -> LedgerView {
        LedgerView {
            payments: self.payments.map_values(
                |p: PaymentView|
                    if p.id == id {
                        PaymentView { status, ..p }
                    } else {
                        p
                    },
            ),
            refunds: self.refunds,
        }
    }

    /// The ledger with one more refund on record.
    pub open spec fn with_refund(self, refund: Refund) -> LedgerView {
        LedgerView { payments: self.payments, refunds: self.refunds.push(refund) }
    }
}

/// Something that the ledger is asked to write.
pub enum Write {
    /// A new payment.
    Payment(PaymentView),
    /// A new status for the payment with this id.
    Status { id: u128, status: Status },
    /// A new refund.
    Refund(Refund),
}

impl LedgerView {
    /// The ledger after it has been asked for a write: with the write on
    /// record if the ledger takes it, and as it was if the ledger
    /// refuses.
    pub open spec fn write(self, write: Write) -> LedgerView {
        match write {
            Write::Payment(p) => if self.insert_outcome(p.id, p.amount, p.card_number) is Ok {
                self.with_payment(p)
            } else {
                self
            },
            Write::Status { id, status } => if self.update_outcome(id, status) is Ok {
                self.with_status(id, status)
            } else {
                self
            },
            Write::Refund(r) => if self.refund_outcome(r.id, r.payment_id, r.amount) is Ok {
                self.with_refund(r)
            } else {
                self
            },
        }
    }

    /// The ledger after it has been asked for each of `writes` in turn.
    pub open spec fn write_all(self, writes: Seq<Write>) -> LedgerView
        decreases writes.len(),
    {
        if writes.len() == 0 {
            self
        } else {
            self.write_all(writes.drop_last()).write(writes.last())
        }
    }

    /// Whether `later` may be what has become of this ledger: every row is
    /// still there, in its place and as it was, but for the status of a
    /// payment, which may have moved forward.
    pub open spec fn leads_to(self, later: LedgerView) -> bool {
        &&& self.payments.len() <= later.payments.len()
        &&& forall|i: int|
            0 <= i < self.payments.len() ==> {
                let was = #[trigger] self.payments[i];
                let is = later.payments[i];
                &&& is.id == was.id
                &&& is.amount == was.amount
                &&& is.card_number == was.card_number
                &&& (is.status == was.status || was.status.can_move_to(is.status))
            }
        &&& self.refunds.is_prefix_of(later.refunds)
    }
}

/// The payments and refunds on record.
///
/// Whatever is written to it, a ledger keeps the rules of
/// [`LedgerView::wf`].
pub struct Ledger {
    pub(crate) payments: Vec<Payment>,
    pub(crate) refunds: Vec<Refund>,
}

impl Ledger {
    /// The ledger as mathematics.
    pub open(crate) spec fn view(&self) -> LedgerView {
        LedgerView {
            payments: self.payments@.map_values(|p: Payment| p@),
            refunds: self.refunds@,
        }
    }

    #[verifier::type_invariant]
    pub open spec fn well_formed(self) -> bool {
        self@.wf()
    }

    /// A ledger with nothing on record.
    pub fn new() -> (r: Ledger)
        ensures
            r@ == LedgerView::empty(),
    {
        let r = Ledger { payments: Vec::new(), refunds: Vec::new() };
        assert(r@.payments =~= Seq::empty());
        r
    }

    /// Where the payment with this id stands among the payments.
    pub(crate) fn payment_position(&self, id: u128) -> (r: Option<usize>)
        ensures
            match r {
                Some(i) => i < self.payments.len() && self.payments@[i as int].id == id
                    && self@.find_payment(id) == Some(self.payments@[i as int]@),
                None => !self@.has_payment(id) && self@.find_payment(id) is None,
            },
    {
        proof {
            use_type_invariant(self);
        }
        let mut i: usize = 0;
        while i < self.payments.len()
            invariant
                i <= self.payments.len(),
                self@.wf(),
                forall|j: int| 0 <= j < i ==> (#[trigger] self@.payments[j]).id != id,
            decreases self.payments.len() - i,
        {
            if self.payments[i].id == id {
                assert(self@.payments[i as int].id == id);
                return Some(i);
            }
            i += 1;
        }
        None
    }

    /// Where the refund with this id stands among the refunds.
    pub(crate) fn refund_position(&self, id: u128) -> (r: Option<usize>)
        ensures
            match r {
                Some(k) => k < self.refunds.len() && self.refunds@[k as int].id == id
                    && self@.find_refund(id) == Some(self.refunds@[k as int]),
                None => !self@.has_refund(id) && self@.find_refund(id) is None,
            },
    {
        proof {
            use_type_invariant(self);
        }
        let mut k: usize = 0;
        while k < self.refunds.len()
            invariant
                k <= self.refunds.len(),
                self@.wf(),
                forall|j: int| 0 <= j < k ==> (#[trigger] self@.refunds[j]).id != id,
            decreases self.refunds.len() - k,
        {
            if self.refunds[k].id == id {
                assert(self@.refunds[k as int].id == id);
                return Some(k);
            }
            k += 1;
        }
        None
    }
}

/// Nothing has been refunded against a payment that no refund names.
pub proof fn lemma_nothing_refunded(refunds: Seq<Refund>, payment_id: u128)
    requires
        forall|k: int| 0 <= k < refunds.len() ==> (#[trigger] refunds[k]).payment_id != payment_id,
    ensures
        refunded_total(refunds, payment_id) == 0,
    decreases refunds.len(),
{
    if refunds.len() > 0 {
        let rest = refunds.drop_last();
        lemma_nothing_refunded(rest, payment_id);
    }
}

/// Refunds on record are positive, so the first few of them come to no
/// more than all of them.
pub proof fn lemma_refunded_prefix(refunds: Seq<Refund>, k: int, payment_id: u128)
    requires
        0 <= k <= refunds.len(),
        forall|j: int| 0 <= j < refunds.len() ==> (#[trigger] refunds[j]).amount > 0,
    ensures
        0 <= refunded_total(refunds.take(k), payment_id) <= refunded_total(refunds, payment_id),
    decreases refunds.len(),
{
    if k == refunds.len() {
        assert(refunds.take(k) =~= refunds);
        if refunds.len() > 0 {
            let rest = refunds.drop_last();
            lemma_refunded_prefix(rest, rest.len() as int, payment_id);
        }
    } else {
        let rest = refunds.drop_last();
        lemma_refunded_prefix(rest, k, payment_id);
        assert(rest.take(k) =~= refunds.take(k));
    }
}

/// What has been refunded against a payment is never negative and never
/// more than the payment; against an id that names no payment it is
/// nothing.
pub proof fn lemma_refunded_bounds(l: LedgerView, payment_id: u128)
    requires
        l.wf(),
    ensures
        0 <= l.refunded(payment_id),
        l.has_payment(payment_id) ==> l.refunded(payment_id) <= l.find_payment(
            payment_id,
        )->0.amount,
        !l.has_payment(payment_id) ==> l.refunded(payment_id) == 0,
{
    lemma_refunded_prefix(l.refunds, 0, payment_id);
    if !l.has_payment(payment_id) {
        lemma_nothing_refunded(l.refunds, payment_id);
    }
}

/// A refund that fits leaves the ledger's rules intact, and counts against
/// its payment and no other.
pub proof fn lemma_with_refund_wf(l: LedgerView, r: Refund)
    requires
        l.wf(),
        l.checked_insert_outcome(r.id, r.payment_id, r.amount) == Ok::<Option<u128>, StoreError>(
            Some(r.id),
        ),
    ensures
        l.with_refund(r).wf(),
        l.with_refund(r).find_refund(r.id) == Some(r),
        l.with_refund(r).refunded(r.payment_id) == l.refunded(r.payment_id) + r.amount,
        forall|other: u128|
            other != r.payment_id ==> l.with_refund(r).refunded(other) == l.refunded(other),
{
    let n = l.with_refund(r);
    assert(n.refunds.drop_last() =~= l.refunds);
    // the new refund is the last, and the only one with its id
    let last = n.refunds.len() - 1;
    assert(n.refunds[last] == r);
    assert(n.has_refund(r.id));
}

/// A payment that the ledger accepts leaves the ledger's rules intact.
pub proof fn lemma_with_payment_wf(l: LedgerView, p: PaymentView)
    requires
        l.wf(),
        l.insert_outcome(p.id, p.amount, p.card_number) is Ok,
    ensures
        l.with_payment(p).wf(),
        l.with_payment(p).find_payment(p.id) == Some(p),
{
    let n = l.with_payment(p);
    assert forall|k: int| 0 <= k < n.refunds.len() implies (#[trigger] n.refunds[k]).amount > 0
        && n.has_payment(n.refunds[k].payment_id) by {
        let pid = l.refunds[k].payment_id;
        let i = choose|i: int| 0 <= i < l.payments.len() && (#[trigger] l.payments[i]).id == pid;
        assert(n.payments[i].id == pid);
    }
    lemma_nothing_refunded(l.refunds, p.id);
    // the new payment is the last, and the only one with its id
    let last = n.payments.len() - 1;
    assert(n.payments[last] == p);
    assert(n.has_payment(p.id));
}

/// Rewriting a status leaves the ledger's rules intact, and shows in the
/// payment and nowhere else.
pub proof fn lemma_with_status_wf(l: LedgerView, id: u128, status: Status)
    requires
        l.wf(),
    ensures
        l.with_status(id, status).wf(),
        l.with_status(id, status).payments.len() == l.payments.len(),
        forall|other: u128|
            l.with_status(id, status).has_payment(other) == l.has_payment(other),
        forall|card: Seq<char>| l.with_status(id, status).card_used(card) == l.card_used(card),
        l.has_payment(id) ==> l.with_status(id, status).find_payment(id) == Some(
            PaymentView { status, ..l.find_payment(id)->0 },
        ),
        forall|other: u128|
            other != id ==> l.with_status(id, status).find_payment(other) == l.find_payment(
                other,
            ),
{
    let n = l.with_status(id, status);
    assert forall|other: u128| n.has_payment(other) == l.has_payment(other) by {
        if l.has_payment(other) {
            let i = choose|i: int|
                0 <= i < l.payments.len() && (#[trigger] l.payments[i]).id == other;
            assert(n.payments[i].id == other);
        }
    }
    assert forall|card: Seq<char>| n.card_used(card) == l.card_used(card) by {
        if l.card_used(card) {
            let i = choose|i: int|
                0 <= i < l.payments.len() && (#[trigger] l.payments[i]).card_number == card;
            assert(n.payments[i].card_number == card);
        }
    }
}

/// Rewriting the status of the payment written last comes to the same as
/// having written it with that status.
pub proof fn lemma_status_of_new_payment(l: LedgerView, p: PaymentView, status: Status)
    requires
        !l.has_payment(p.id),
    ensures
        l.with_payment(p).with_status(p.id, status) == l.with_payment(
            PaymentView { status, ..p },
        ),
{
    let a = l.with_payment(p).with_status(p.id, status);
    let b = l.with_payment(PaymentView { status, ..p });
    assert(a.payments =~= b.payments);
}

/// Whatever is written, and in whatever order, the ledger keeps its rules
/// and its rows.
///
/// Ask a ledger for any writes, one after the other: it still keeps its
/// rules, so that no card number is on record twice and no payment is
/// refunded beyond its amount. Every payment is still on record with its
/// id, its amount and its card number, its status the same or moved
/// forward, never back. Every refund is still on record as it was written.
pub proof fn lemma_ledger_history(l: LedgerView, writes: Seq<Write>)
    requires
        l.wf(),
    ensures
        l.write_all(writes).wf(),
        l.leads_to(l.write_all(writes)),
    decreases writes.len(),
{
    if writes.len() > 0 {
        let before = l.write_all(writes.drop_last());
        let after = l.write_all(writes);
        lemma_ledger_history(l, writes.drop_last());
        match writes.last() {
            Write::Payment(p) => {
                if before.insert_outcome(p.id, p.amount, p.card_number) is Ok {
                    lemma_with_payment_wf(before, p);
                }
            },
            Write::Status { id, status } => {
                lemma_with_status_wf(before, id, status);
                if before.update_outcome(id, status) is Ok {
                    assert forall|i: int| 0 <= i < before.payments.len() implies {
                        let was = #[trigger] before.payments[i];
                        let is = after.payments[i];
                        is.status == was.status || was.status.can_move_to(is.status)
                    } by {
                        if before.payments[i].id == id {
                            let found = choose|j: int|
                                0 <= j < before.payments.len() && (#[trigger] before.payments[j]).id
                                    == id;
                            assert(found == i);
                        }
                    }
                }
            },
            Write::Refund(r) => {
                if before.refund_outcome(r.id, r.payment_id, r.amount) is Ok {
                    lemma_with_refund_wf(before, r);
                }
            },
        }
        // a status that moved forward twice has moved forward
        assert(before.leads_to(after));
        assert forall|i: int| 0 <= i < l.payments.len() implies {
            let was = #[trigger] l.payments[i];
            let is = after.payments[i];
            is.status == was.status || was.status.can_move_to(is.status)
        } by {
            assert(before.payments[i].id == l.payments[i].id);
        }
    }
}

} // verus!
