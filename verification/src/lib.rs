//! Card payments settled against an account service, and refunds that never
//! come to more than the payment.
//!
//! A payment is settled in steps: the request is checked, the payment is
//! put on record, the funds are held, the approval is put on record, and
//! the funds are withdrawn. A card number is good for one payment, and a
//! failure of the account service at any step is put on record before the
//! request is answered. A refund is written only against an approved
//! payment, and only if the refunds of that payment, the new one included,
//! stay within its amount.
//!
//! - [`bank::payment_instruments`]: card numbers.
//! - [`bank::accounts`]: the account service, and a dummy to stand in for
//!   it.
//! - [`bank::ledger`], [`bank::payments`], [`bank::refunds`]: the payments
//!   and refunds on record, with the rules that the records keep whatever
//!   is written to them.
//! - [`errors`]: how a failure of the account service is classified.
//! - [`bank_web::payments`], [`bank_web::refunds`]: the requests, each as
//!   steps to be taken one by one by whoever talks to the ledger and to the
//!   account service, and as a function that takes them all.
//! - [`bank_web::racing`]: requests for payments served side by side.

pub mod bank;
pub mod bank_web;
pub mod errors;
pub mod text;
