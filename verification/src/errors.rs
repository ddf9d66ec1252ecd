//! How a failure of the account service is classified.

use crate::bank::payments::Status;
use crate::text::same_text;
use axum::http::StatusCode;
use vstd::prelude::*;
use vstd::string::*;

verus! {

/// The code under which a failure reported as `message` is classified:
/// forbidden, bad request or payment required for the three refusals of the
/// bank, and internal error for `service_unavailable` and for anything
/// that is not known.
pub open spec fn error_code(message: Seq<char>) -> i32 {
    if message == "invalid_account_number"@ {
        403
    } else if message == "invalid_amount"@ {
        400
    } else if message == "insufficient_funds"@ {
        402
    } else {
        500
    }
}

/// The wording that goes with a failure reported as `message`.
pub open spec fn error_message(message: Seq<char>) -> Seq<char> {
    if message == "invalid_account_number"@ {
        "Forbidden"@
    } else if message == "invalid_amount"@ {
        "Bad Request"@
    } else if message == "insufficient_funds"@ {
        "Payment Required"@
    } else {
        "Internal Error"@
    }
}

/// The status that a payment takes when it ends under `code`: the bank's
/// refusals decline it, anything else fails it.
pub open spec fn status_for_code(code: i32) -> Status {
    if code == 400 || code == 402 || code == 403 {
        Status::Declined
    } else {
        Status::Failed
    }
}

/// The status code sent for `code`: itself where it is one, not found
/// where it is none.
pub open spec fn http_status_for(code: u16) -> u16 {
    if 100 <= code < 1000 {
        code
    } else {
        404
    }
}

/// A classified failure of the account service.
#[derive(Debug)]
pub struct PaymentError {
    pub code: i32,
    pub message: String,
}

impl Default for PaymentError {
    fn default() -> (r: Self)
        ensures
            r.code == 403,
            r.message@ == "Forbidden"@,
    {
        PaymentError { code: 403, message: String::from_str("Forbidden") }
    }
}

impl PaymentError {
    /// Classifies what the account service reported.
    pub fn from(messages: &str) -> (r: PaymentError)
        ensures
            r.code == error_code(messages@),
            r.message@ == error_message(messages@),
    {
        let (code, message): (i32, &str) = if same_text(messages, "invalid_account_number") {
            (403, "Forbidden")
        } else if same_text(messages, "invalid_amount") {
            (400, "Bad Request")
        } else if same_text(messages, "insufficient_funds") {
            (402, "Payment Required")
        } else {
            (500, "Internal Error")
        };
        PaymentError { code, message: String::from_str(message) }
    }

    /// The status in which the payment is left.
    pub fn get_payment_status(&self) -> (r: Status)
        ensures
            r == status_for_code(self.code),
    {
        if self.code == 400 || self.code == 402 || self.code == 403 {
            Status::Declined
        } else {
            Status::Failed
        }
    }

    /// The status code under which the failure is reported. Only the low
    /// sixteen bits of `code` count.
    pub fn get_http_status_code(&self) -> (r: u16)
        ensures
            r == http_status_for(self.code as u16),
    {
        match valid_status_code(#[verifier::truncate] (self.code as u16)) {
            Some(code) => code,
            None => 404,
        }
    }
}

/// `http::StatusCode::from_u16`, and `as_u16` on what it accepts: a number
/// is a status code exactly when it lies between 100 and 999, and the
/// status code made of it gives the same number back.
#[verifier::external_body]
fn valid_status_code(code: u16) -> (r: Option<u16>)
    ensures
        r == (if 100 <= code < 1000 {
            Some(code)
        } else {
            None::<u16>
        }),
{
    match StatusCode::from_u16(code) {
        Ok(status) => Some(status.as_u16()),
        Err(_) => None,
    }
}

} // verus!
