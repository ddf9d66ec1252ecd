use bank_payments::bank::accounts::DummyService;
use bank_payments::bank::ledger::{Ledger, StoreError};
use bank_payments::bank::payments::{self as bank_payments_rows, Status};
use bank_payments::bank::refunds as bank_refunds;
use bank_payments::bank_web::payments as web_payments;
use bank_payments::bank_web::refunds::{
    begin, get, post, resume, Action, Event, RequestBody, RequestData, ResponseBody, Saga,
};
use bank_payments::bank_web::{BankWeb, ErrorResponseBody};

fn new_bank() -> BankWeb<DummyService> {
    BankWeb::new(Ledger::new(), DummyService::default())
}

fn code_of<T>(response: &Result<(u16, T), (u16, ErrorResponseBody)>) -> u16 {
    match response {
        Ok((code, _)) => *code,
        Err((code, _)) => *code,
    }
}

fn setup(card_number: &str) -> (BankWeb<DummyService>, web_payments::ResponseBody) {
    let mut bank_web = new_bank();

    let request_body = web_payments::RequestBody {
        payment: web_payments::RequestData { amount: 1205, card_number: card_number.to_string() },
    };

    let response = web_payments::post(&mut bank_web, request_body);
    assert_eq!(code_of(&response), 201);

    let response_body = response.expect("a payment").1;
    assert_eq!(response_body.data.status, Status::Approved);

    (bank_web, response_body)
}

fn request_refund(bank_web: &mut BankWeb<DummyService>, payment_id: u128) -> u16 {
    let request_body = RequestBody { refund: RequestData { amount: 1205 } };
    code_of(&post(bank_web, payment_id, request_body))
}

#[test]
fn should_handle_concurrent_refunds() {
    let (mut bank_web, payment) = setup("300000000000001");
    let payment_id = payment.data.id;

    let status_a = request_refund(&mut bank_web, payment_id);
    let status_b = request_refund(&mut bank_web, payment_id);

    assert_eq!(status_a.min(status_b), 201, "one refund should succeed");
    assert_eq!(status_a.max(status_b), 422, "one refund should fail");
    assert_eq!(bank_refunds::refunded(&bank_web.ledger, payment_id), 1205);
}

#[test]
fn should_refund_valid_amount() {
    let (mut bank_web, payment_response_body) = setup("300000000000002");
    let payment_id = payment_response_body.data.id;

    let request_body = RequestBody { refund: RequestData { amount: 42 } };

    let response = post(&mut bank_web, payment_id, request_body);
    assert_eq!(code_of(&response), 201);

    let response_body = response.expect("a refund").1;
    assert_eq!(response_body.data.amount, request_body.refund.amount);
    assert_eq!(response_body.data.payment_id, payment_id);
    let refund_id = response_body.data.id;

    let response = get(&bank_web, payment_id, refund_id);
    assert_eq!(code_of(&response), 200);

    let response_body = response.expect("a refund").1;
    assert_eq!(response_body.data.amount, request_body.refund.amount);
    assert_eq!(response_body.data.id, refund_id);
    assert_eq!(response_body.data.payment_id, payment_id);
}

#[test]
fn should_reject_refund_of_invalid_amount() {
    let (mut bank_web, payment_response_body) = setup("300000000000003");
    let payment_id = payment_response_body.data.id;

    let request_body = RequestBody { refund: RequestData { amount: payment_response_body.data.amount + 1 } };

    let response = post(&mut bank_web, payment_id, request_body);
    assert_eq!(code_of(&response), 422);

    let response_body = response.expect_err("a rejection").1;
    assert_eq!(response_body.error, "excessive refund amount requested");
    assert_eq!(bank_refunds::refunded(&bank_web.ledger, payment_id), 0);
}

#[test]
fn should_reject_refund_of_nothing() {
    let (mut bank_web, payment) = setup("300000000000004");
    for amount in [0, -1, i32::MIN] {
        let response = post(&mut bank_web, payment.data.id, RequestBody { refund: RequestData { amount } });
        let (code, body) = response.expect_err("a rejection");
        assert_eq!(code, 422);
        assert_eq!(body.error, "excessive refund amount requested");
    }
    assert_eq!(bank_refunds::refunded(&bank_web.ledger, payment.data.id), 0);
}

#[test]
fn should_not_refund_a_payment_that_does_not_exist() {
    let mut bank_web = new_bank();
    let response = post(&mut bank_web, 5, RequestBody { refund: RequestData { amount: 1 } });
    let (code, body) = response.expect_err("a rejection");
    assert_eq!(code, 404);
    assert_eq!(body.error, "payment doesn't exist");
}

#[test]
fn should_not_refund_a_payment_that_is_not_approved() {
    for (number, status) in [Status::Processing, Status::Declined, Status::Failed].into_iter().enumerate() {
        let mut bank_web = new_bank();
        let id = number as u128;
        assert_eq!(
            bank_payments_rows::insert_with_id(&mut bank_web.ledger, id, 100, "300000000000005".to_string(), status),
            Ok(id)
        );
        let response = post(&mut bank_web, id, RequestBody { refund: RequestData { amount: 1 } });
        let (code, body) = response.expect_err("a rejection");
        assert_eq!(code, 404);
        assert_eq!(body.error, "has a status other than approved");
        assert_eq!(bank_refunds::refunded(&bank_web.ledger, id), 0);
    }
}

#[test]
fn should_not_refund_a_declined_payment() {
    let mut bank_web = new_bank();
    bank_web.account_service.response = Some("insufficient_funds".to_string());
    let request_body = web_payments::RequestBody {
        payment: web_payments::RequestData { amount: 1205, card_number: "300000000000006".to_string() },
    };
    let (code, payment) = web_payments::post(&mut bank_web, request_body).expect("a payment");
    assert_eq!(code, 402);
    assert_eq!(request_refund(&mut bank_web, payment.data.id), 404);
}

#[test]
fn should_refund_in_parts_up_to_the_payment() {
    let (mut bank_web, payment) = setup("300000000000007");
    let payment_id = payment.data.id;
    let mut codes = Vec::new();
    for amount in [1000, 200, 6, 5, 1] {
        codes.push(code_of(&post(&mut bank_web, payment_id, RequestBody { refund: RequestData { amount } })));
    }
    // 1000 + 200 = 1200; 6 would make 1206; 5 makes 1205; 1 would make 1206
    assert_eq!(codes, vec![201, 201, 422, 201, 422]);
    assert_eq!(bank_refunds::refunded(&bank_web.ledger, payment_id), 1205);
}

#[test]
fn refund_reads_back_under_the_payment_that_the_request_names() {
    let (mut bank_web, payment) = setup("300000000000008");
    let (_, made) =
        post(&mut bank_web, payment.data.id, RequestBody { refund: RequestData { amount: 7 } }).expect("a refund");
    let (code, read) = get(&bank_web, 99, made.data.id).expect("a refund");
    assert_eq!(code, 200);
    assert_eq!(read.data.id, made.data.id);
    assert_eq!(read.data.amount, 7);
    assert_eq!(read.data.payment_id, 99);
}

#[test]
fn refund_response_body_holds_what_it_is_made_of() {
    let body = ResponseBody::new(1, 2, 3);
    assert_eq!(body.data.id, 1);
    assert_eq!(body.data.amount, 2);
    assert_eq!(body.data.payment_id, 3);
}

#[test]
fn refund_goes_step_by_step() {
    let (state, action) = begin(8, RequestBody { refund: RequestData { amount: 42 } });
    assert!(matches!(state, Saga::Checking { payment_id: 8, amount: 42 }));
    assert!(matches!(action, Action::ReadPayment { payment_id: 8 }));
    let (state, action) = resume(state, Event::PaymentRead(Some(Status::Approved))).expect("a step");
    assert!(matches!(state, Saga::Inserting { payment_id: 8, amount: 42 }));
    assert!(matches!(action, Action::CheckedInsert { payment_id: 8, amount: 42 }));
    let (state, action) = resume(state, Event::Inserted(Ok(Some(5)))).expect("a step");
    assert!(matches!(state, Saga::Done));
    match action {
        Action::Reply(Ok((code, body))) => {
            assert_eq!(code, 201);
            assert_eq!(body.data.id, 5);
            assert_eq!(body.data.amount, 42);
            assert_eq!(body.data.payment_id, 8);
        }
        other => panic!("{other:?}"),
    }
    assert!(resume(state, Event::PaymentRead(None)).is_none());
}

#[test]
fn refund_is_turned_down_for_each_reason_in_its_own_words() {
    let body = RequestBody { refund: RequestData { amount: 42 } };
    let turned_down = |events: &[Event]| -> (u16, String) {
        let (mut state, mut action) = begin(8, body);
        for event in events {
            let (next, step) = resume(state, *event).expect("a step");
            state = next;
            action = step;
        }
        match action {
            Action::Reply(Err((code, body))) => (code, body.error),
            other => panic!("{other:?}"),
        }
    };
    assert_eq!(turned_down(&[Event::PaymentRead(None)]), (404, "payment doesn't exist".to_string()));
    for status in [Status::Processing, Status::Declined, Status::Failed] {
        assert_eq!(
            turned_down(&[Event::PaymentRead(Some(status))]),
            (404, "has a status other than approved".to_string())
        );
    }
    assert_eq!(
        turned_down(&[Event::PaymentRead(Some(Status::Approved)), Event::Inserted(Ok(None))]),
        (422, "excessive refund amount requested".to_string())
    );
    for failure in [StoreError::IdTaken, StoreError::RowNotFound] {
        assert_eq!(
            turned_down(&[Event::PaymentRead(Some(Status::Approved)), Event::Inserted(Err(failure))]),
            (404, "can't add refund since the db problem".to_string())
        );
    }
}

#[test]
fn refund_takes_only_the_event_it_waits_for() {
    let body = RequestBody { refund: RequestData { amount: 42 } };
    let (state, _) = begin(8, body);
    assert!(resume(state, Event::Inserted(Ok(Some(1)))).is_none());
    let (state, _) = resume(state, Event::PaymentRead(Some(Status::Approved))).expect("a step");
    assert!(resume(state, Event::PaymentRead(Some(Status::Approved))).is_none());
}
