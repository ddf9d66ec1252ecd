use bank_payments::bank::ledger::{Ledger, StoreError};
use bank_payments::bank::payments::{self, Payment, Status};
use bank_payments::bank::refunds::{self, Refund};

const PAYMENT_AMOUNT: i32 = 123;
const PAYMENT_STATUS: Status = Status::Approved;
const REFUND_AMOUNT: i32 = 42;

fn new_test_payment(ledger: &mut Ledger, card_number: &str) -> Result<Payment, StoreError> {
    let id = payments::insert(ledger, PAYMENT_AMOUNT, card_number.to_string(), PAYMENT_STATUS)?;
    payments::get(ledger, id)
}

#[test]
fn test_payment() {
    let mut ledger = Ledger::new();
    let payment = new_test_payment(&mut ledger, "123456789012345").expect("failed to create payment");
    assert_eq!(payment.amount, PAYMENT_AMOUNT);
    assert_eq!(payment.status, PAYMENT_STATUS);
}

#[test]
fn test_refund() {
    let mut ledger = Ledger::new();
    let payment = new_test_payment(&mut ledger, "123456789012345").expect("failed to create payment");
    let id = refunds::insert(&mut ledger, payment.id, REFUND_AMOUNT).expect("failed to create refund");
    let refund = refunds::get(&ledger, id).expect("failed to create refund");
    assert_eq!(refund.amount, REFUND_AMOUNT);
    assert_eq!(refund.payment_id, payment.id);
    assert_eq!(refund.id, id);
}

#[test]
fn payment_reads_back_as_written() {
    let mut ledger = Ledger::new();
    let r = payments::insert_with_id(&mut ledger, 7, 1205, "123456789012345".to_string(), Status::Processing);
    assert_eq!(r, Ok(7));
    let payment = payments::get(&ledger, 7).expect("the payment");
    assert_eq!(
        payment,
        Payment { id: 7, amount: 1205, card_number: "123456789012345".to_string(), status: Status::Processing }
    );
    assert_eq!(payment.clone(), payment);
}

#[test]
fn ids_drawn_for_payments_differ() {
    let mut ledger = Ledger::new();
    let a = payments::insert(&mut ledger, 1, "111111111111111".to_string(), Status::Processing).expect("a");
    let b = payments::insert(&mut ledger, 1, "222222222222222".to_string(), Status::Processing).expect("b");
    assert_ne!(a, b);
    assert_eq!(payments::get(&ledger, a).expect("a").card_number, "111111111111111");
    assert_eq!(payments::get(&ledger, b).expect("b").card_number, "222222222222222");
}

#[test]
fn card_number_is_taken_once() {
    let mut ledger = Ledger::new();
    assert!(!ledger.card_in_use(&"123456789012345".to_string()));
    assert_eq!(payments::insert_with_id(&mut ledger, 1, 10, "123456789012345".to_string(), Status::Processing), Ok(1));
    assert!(ledger.card_in_use(&"123456789012345".to_string()));
    assert_eq!(
        payments::insert_with_id(&mut ledger, 2, 20, "123456789012345".to_string(), Status::Processing),
        Err(StoreError::CardNumberTaken)
    );
    assert_eq!(
        payments::insert(&mut ledger, 20, "123456789012345".to_string(), Status::Approved),
        Err(StoreError::CardNumberTaken)
    );
    // nothing was written by the refused requests
    assert_eq!(payments::get(&ledger, 2).err(), Some(StoreError::RowNotFound));
    assert_eq!(payments::get(&ledger, 1).expect("the first").amount, 10);
    // a card number stays taken whatever becomes of the payment
    assert_eq!(payments::update(&mut ledger, 1, Status::Failed), Ok(1));
    assert_eq!(
        payments::insert_with_id(&mut ledger, 3, 10, "123456789012345".to_string(), Status::Processing),
        Err(StoreError::CardNumberTaken)
    );
}

#[test]
fn payment_for_nothing_is_refused() {
    let mut ledger = Ledger::new();
    assert_eq!(
        payments::insert_with_id(&mut ledger, 1, 0, "123456789012345".to_string(), Status::Processing),
        Err(StoreError::NonPositiveAmount)
    );
    assert_eq!(
        payments::insert(&mut ledger, -1, "123456789012345".to_string(), Status::Processing),
        Err(StoreError::NonPositiveAmount)
    );
    assert!(!ledger.card_in_use(&"123456789012345".to_string()));
    assert_eq!(payments::insert_with_id(&mut ledger, 1, 1, "123456789012345".to_string(), Status::Processing), Ok(1));
    assert_eq!(
        payments::insert_with_id(&mut ledger, 2, i32::MAX, "543210987654321".to_string(), Status::Processing),
        Ok(2)
    );
}

#[test]
fn payment_id_is_taken_once() {
    let mut ledger = Ledger::new();
    assert_eq!(payments::insert_with_id(&mut ledger, 1, 10, "111111111111111".to_string(), Status::Processing), Ok(1));
    assert_eq!(
        payments::insert_with_id(&mut ledger, 1, 10, "222222222222222".to_string(), Status::Processing),
        Err(StoreError::IdTaken)
    );
    assert!(!ledger.card_in_use(&"222222222222222".to_string()));
    // the amount counts first, then the card number, then the id
    assert_eq!(
        payments::insert_with_id(&mut ledger, 1, 0, "111111111111111".to_string(), Status::Processing),
        Err(StoreError::NonPositiveAmount)
    );
    assert_eq!(
        payments::insert_with_id(&mut ledger, 1, 10, "111111111111111".to_string(), Status::Processing),
        Err(StoreError::CardNumberTaken)
    );
}

#[test]
fn status_is_rewritten_in_place() {
    let mut ledger = Ledger::new();
    assert_eq!(payments::insert_with_id(&mut ledger, 1, 10, "111111111111111".to_string(), Status::Processing), Ok(1));
    assert_eq!(payments::insert_with_id(&mut ledger, 2, 20, "222222222222222".to_string(), Status::Processing), Ok(2));
    assert_eq!(payments::update(&mut ledger, 1, Status::Approved), Ok(1));
    let first = payments::get(&ledger, 1).expect("the first");
    assert_eq!(first.status, Status::Approved);
    assert_eq!(first.amount, 10);
    assert_eq!(first.card_number, "111111111111111");
    assert_eq!(payments::get(&ledger, 2).expect("the second").status, Status::Processing);
    assert_eq!(payments::update(&mut ledger, 3, Status::Approved), Err(StoreError::RowNotFound));
}

#[test]
fn status_moves_forward_only() {
    let all = [Status::Processing, Status::Approved, Status::Declined, Status::Failed];
    for (n, from) in all.into_iter().enumerate() {
        for (m, to) in all.into_iter().enumerate() {
            let forward = matches!(
                (from, to),
                (Status::Processing, Status::Approved)
                    | (Status::Processing, Status::Declined)
                    | (Status::Processing, Status::Failed)
                    | (Status::Approved, Status::Declined)
                    | (Status::Approved, Status::Failed)
            );
            assert_eq!(from.may_move_to(to), forward, "{from:?} to {to:?}");
            let mut ledger = Ledger::new();
            let id = (4 * n + m) as u128;
            assert_eq!(payments::insert_with_id(&mut ledger, id, 10, "111111111111111".to_string(), from), Ok(id));
            let r = payments::update(&mut ledger, id, to);
            assert_eq!(r, if forward { Ok(id) } else { Err(StoreError::StatusMovesBack) });
            let on_record = payments::get(&ledger, id).expect("the payment").status;
            assert_eq!(on_record, if forward { to } else { from });
        }
    }
}

#[test]
fn payment_is_rewritten_twice_at_most() {
    let mut ledger = Ledger::new();
    assert_eq!(payments::insert_with_id(&mut ledger, 1, 10, "111111111111111".to_string(), Status::Processing), Ok(1));
    assert_eq!(payments::update(&mut ledger, 1, Status::Approved), Ok(1));
    assert_eq!(payments::update(&mut ledger, 1, Status::Approved), Err(StoreError::StatusMovesBack));
    assert_eq!(payments::update(&mut ledger, 1, Status::Declined), Ok(1));
    for status in [Status::Processing, Status::Approved, Status::Declined, Status::Failed] {
        assert_eq!(payments::update(&mut ledger, 1, status), Err(StoreError::StatusMovesBack));
    }
    assert_eq!(payments::get(&ledger, 1).expect("the payment").status, Status::Declined);
}

#[test]
fn payment_that_is_not_on_record_is_not_found() {
    let ledger = Ledger::new();
    assert_eq!(payments::get(&ledger, 1).err(), Some(StoreError::RowNotFound));
    assert_eq!(refunds::get(&ledger, 1), Err(StoreError::RowNotFound));
}

#[test]
fn refunds_add_up_to_the_payment_and_no_further() {
    let mut ledger = Ledger::new();
    assert_eq!(payments::insert_with_id(&mut ledger, 7, 100, "111111111111111".to_string(), Status::Approved), Ok(7));
    assert_eq!(refunds::refunded(&ledger, 7), 0);
    assert_eq!(refunds::checked_insert_with_id(&mut ledger, 1, 7, 60), Ok(Some(1)));
    assert_eq!(refunds::refunded(&ledger, 7), 60);
    // 60 + 41 = 101 > 100
    assert_eq!(refunds::checked_insert_with_id(&mut ledger, 2, 7, 41), Ok(None));
    assert_eq!(refunds::refunded(&ledger, 7), 60);
    assert_eq!(refunds::get(&ledger, 2), Err(StoreError::RowNotFound));
    // 60 + 40 = 100
    assert_eq!(refunds::checked_insert_with_id(&mut ledger, 2, 7, 40), Ok(Some(2)));
    assert_eq!(refunds::refunded(&ledger, 7), 100);
    assert_eq!(refunds::checked_insert_with_id(&mut ledger, 3, 7, 1), Ok(None));
    assert_eq!(refunds::get(&ledger, 1), Ok(Refund { id: 1, payment_id: 7, amount: 60 }));
    assert_eq!(refunds::get(&ledger, 2), Ok(Refund { id: 2, payment_id: 7, amount: 40 }));
}

#[test]
fn refund_of_the_whole_payment_fits_once() {
    let mut ledger = Ledger::new();
    assert_eq!(payments::insert_with_id(&mut ledger, 7, 1205, "111111111111111".to_string(), Status::Approved), Ok(7));
    assert_eq!(refunds::checked_insert_with_id(&mut ledger, 1, 7, 1206), Ok(None));
    assert_eq!(refunds::checked_insert_with_id(&mut ledger, 1, 7, 1205), Ok(Some(1)));
    assert_eq!(refunds::checked_insert_with_id(&mut ledger, 2, 7, 1205), Ok(None));
    assert_eq!(refunds::refunded(&ledger, 7), 1205);
}

#[test]
fn refund_of_nothing_does_not_fit() {
    let mut ledger = Ledger::new();
    assert_eq!(payments::insert_with_id(&mut ledger, 7, 100, "111111111111111".to_string(), Status::Approved), Ok(7));
    assert_eq!(refunds::checked_insert_with_id(&mut ledger, 1, 7, 0), Ok(None));
    assert_eq!(refunds::checked_insert_with_id(&mut ledger, 1, 7, -5), Ok(None));
    assert_eq!(refunds::checked_insert(&mut ledger, 7, i32::MIN), Ok(None));
    assert_eq!(refunds::refunded(&ledger, 7), 0);
}

#[test]
fn refund_against_no_payment_does_not_fit() {
    let mut ledger = Ledger::new();
    assert_eq!(refunds::checked_insert_with_id(&mut ledger, 1, 7, 1), Ok(None));
    assert_eq!(refunds::checked_insert(&mut ledger, 7, 1), Ok(None));
    assert_eq!(refunds::refunded(&ledger, 7), 0);
}

#[test]
fn refund_id_is_taken_once() {
    let mut ledger = Ledger::new();
    assert_eq!(payments::insert_with_id(&mut ledger, 7, 100, "111111111111111".to_string(), Status::Approved), Ok(7));
    assert_eq!(refunds::checked_insert_with_id(&mut ledger, 1, 7, 10), Ok(Some(1)));
    assert_eq!(refunds::checked_insert_with_id(&mut ledger, 1, 7, 10), Err(StoreError::IdTaken));
    assert_eq!(refunds::refunded(&ledger, 7), 10);
    // a refund that does not fit is turned down before its id is looked at
    assert_eq!(refunds::checked_insert_with_id(&mut ledger, 1, 7, 91), Ok(None));
}

#[test]
fn refunds_count_against_their_own_payment() {
    let mut ledger = Ledger::new();
    assert_eq!(payments::insert_with_id(&mut ledger, 7, 100, "111111111111111".to_string(), Status::Approved), Ok(7));
    assert_eq!(payments::insert_with_id(&mut ledger, 8, 50, "222222222222222".to_string(), Status::Approved), Ok(8));
    assert_eq!(refunds::checked_insert_with_id(&mut ledger, 1, 7, 100), Ok(Some(1)));
    assert_eq!(refunds::checked_insert_with_id(&mut ledger, 2, 8, 30), Ok(Some(2)));
    assert_eq!(refunds::checked_insert_with_id(&mut ledger, 3, 8, 21), Ok(None));
    assert_eq!(refunds::checked_insert_with_id(&mut ledger, 3, 8, 20), Ok(Some(3)));
    assert_eq!(refunds::refunded(&ledger, 7), 100);
    assert_eq!(refunds::refunded(&ledger, 8), 50);
    assert_eq!(refunds::refunded(&ledger, 9), 0);
}

#[test]
fn refunds_in_any_order_stay_within_the_payment() {
    let amounts = [400, 400, 400, 5, 1, 400];
    // every order of the first four requests
    let orders: [[usize; 4]; 6] =
        [[0, 1, 2, 3], [3, 0, 1, 2], [0, 3, 1, 2], [1, 2, 3, 0], [2, 3, 0, 1], [3, 2, 1, 0]];
    for order in orders {
        let mut ledger = Ledger::new();
        assert_eq!(
            payments::insert_with_id(&mut ledger, 7, 1205, "111111111111111".to_string(), Status::Approved),
            Ok(7)
        );
        let mut refunded: i64 = 0;
        for (turn, k) in order.iter().enumerate() {
            let amount = amounts[*k];
            let fits = refunded + amount as i64 <= 1205;
            let r = refunds::checked_insert_with_id(&mut ledger, turn as u128, 7, amount);
            assert_eq!(r, Ok(if fits { Some(turn as u128) } else { None }));
            if fits {
                refunded += amount as i64;
            }
            assert_eq!(refunds::refunded(&ledger, 7), refunded);
            assert!(refunded <= 1205);
        }
        assert_eq!(refunded, 1205);
    }
}

#[test]
fn payment_of_the_greatest_amount_is_refunded_in_full() {
    let mut ledger = Ledger::new();
    assert_eq!(
        payments::insert_with_id(&mut ledger, 7, i32::MAX, "111111111111111".to_string(), Status::Approved),
        Ok(7)
    );
    assert_eq!(refunds::checked_insert_with_id(&mut ledger, 1, 7, i32::MAX - 1), Ok(Some(1)));
    assert_eq!(refunds::checked_insert_with_id(&mut ledger, 2, 7, i32::MAX), Ok(None));
    assert_eq!(refunds::checked_insert_with_id(&mut ledger, 2, 7, 2), Ok(None));
    assert_eq!(refunds::checked_insert_with_id(&mut ledger, 2, 7, 1), Ok(Some(2)));
    assert_eq!(refunds::refunded(&ledger, 7), i32::MAX as i64);
}

#[test]
fn refund_is_refused_for_each_reason_in_its_turn() {
    let mut ledger = Ledger::new();
    assert_eq!(payments::insert_with_id(&mut ledger, 7, 100, "111111111111111".to_string(), Status::Approved), Ok(7));
    assert_eq!(refunds::insert_with_id(&mut ledger, 1, 7, 60), Ok(1));
    assert_eq!(payments::insert_with_id(&mut ledger, 9, 100, "999999999999999".to_string(), Status::Declined), Ok(9));
    // the amount counts first, then the payment, then its status, then the
    // sum, then the id
    assert_eq!(refunds::insert_with_id(&mut ledger, 1, 8, 0), Err(StoreError::NonPositiveAmount));
    assert_eq!(refunds::insert_with_id(&mut ledger, 1, 8, 41), Err(StoreError::RowNotFound));
    assert_eq!(refunds::insert_with_id(&mut ledger, 1, 9, 101), Err(StoreError::PaymentNotApproved));
    assert_eq!(refunds::insert(&mut ledger, 9, 1), Err(StoreError::PaymentNotApproved));
    assert_eq!(refunds::insert_with_id(&mut ledger, 1, 7, 41), Err(StoreError::RefundExceedsPayment));
    assert_eq!(refunds::insert_with_id(&mut ledger, 1, 7, 40), Err(StoreError::IdTaken));
    assert_eq!(refunds::refunded(&ledger, 7), 60);
    assert_eq!(refunds::insert(&mut ledger, 7, -1), Err(StoreError::NonPositiveAmount));
    assert_eq!(refunds::insert(&mut ledger, 8, 1), Err(StoreError::RowNotFound));
    assert_eq!(refunds::insert(&mut ledger, 7, 41), Err(StoreError::RefundExceedsPayment));
    let id = refunds::insert(&mut ledger, 7, 40).expect("a refund");
    assert_ne!(id, 1);
    assert_eq!(refunds::get(&ledger, id), Ok(Refund { id, payment_id: 7, amount: 40 }));
    assert_eq!(refunds::refunded(&ledger, 7), 100);
}

#[test]
fn refund_against_a_payment_that_is_not_approved_does_not_fit() {
    for (n, status) in [Status::Processing, Status::Declined, Status::Failed].into_iter().enumerate() {
        let mut ledger = Ledger::new();
        let id = n as u128;
        assert_eq!(payments::insert_with_id(&mut ledger, id, 100, "111111111111111".to_string(), status), Ok(id));
        for amount in [1, 100] {
            assert_eq!(refunds::checked_insert_with_id(&mut ledger, 50, id, amount), Ok(None));
            assert_eq!(refunds::checked_insert(&mut ledger, id, amount), Ok(None));
            assert_eq!(refunds::insert_with_id(&mut ledger, 50, id, amount), Err(StoreError::PaymentNotApproved));
            assert_eq!(refunds::insert(&mut ledger, id, amount), Err(StoreError::PaymentNotApproved));
        }
        assert_eq!(refunds::refunded(&ledger, id), 0);
        assert_eq!(refunds::get(&ledger, 50), Err(StoreError::RowNotFound));
    }
}

#[test]
fn refund_fits_once_the_payment_is_approved_and_no_longer_once_it_is_declined() {
    let mut ledger = Ledger::new();
    assert_eq!(payments::insert_with_id(&mut ledger, 7, 100, "111111111111111".to_string(), Status::Processing), Ok(7));
    assert_eq!(refunds::checked_insert_with_id(&mut ledger, 1, 7, 10), Ok(None));
    assert_eq!(payments::update(&mut ledger, 7, Status::Approved), Ok(7));
    assert_eq!(refunds::checked_insert_with_id(&mut ledger, 1, 7, 10), Ok(Some(1)));
    assert_eq!(payments::update(&mut ledger, 7, Status::Declined), Ok(7));
    assert_eq!(refunds::checked_insert_with_id(&mut ledger, 2, 7, 10), Ok(None));
    // what was refunded stays on record
    assert_eq!(refunds::refunded(&ledger, 7), 10);
    assert_eq!(refunds::get(&ledger, 1), Ok(Refund { id: 1, payment_id: 7, amount: 10 }));
}

#[test]
fn first_write_to_an_empty_ledger_is_taken() {
    for _ in 0..20 {
        let mut ledger = Ledger::new();
        let id = payments::insert(&mut ledger, 5, "111111111111111".to_string(), Status::Approved).expect("a payment");
        let refund = refunds::checked_insert(&mut ledger, id, 5).expect("no refusal").expect("a refund");
        assert_eq!(refunds::get(&ledger, refund), Ok(Refund { id: refund, payment_id: id, amount: 5 }));
    }
}
