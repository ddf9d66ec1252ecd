//! The status codes that requests are answered with.

use vstd::prelude::*;

verus! {

/// What was asked for is there.
pub const OK: u16 = 200;

/// What was asked for has been put on record.
pub const CREATED: u16 = 201;

/// There is nothing to pay.
pub const NO_CONTENT: u16 = 204;

/// The request asks for what cannot be.
pub const BAD_REQUEST: u16 = 400;

/// The account has not the funds.
pub const PAYMENT_REQUIRED: u16 = 402;

/// The account is not known.
pub const FORBIDDEN: u16 = 403;

/// What the request names is not there, or not in a state to be used.
pub const NOT_FOUND: u16 = 404;

/// The request is well put, and what it asks for is refused.
pub const UNPROCESSABLE_ENTITY: u16 = 422;

/// The payment could not be settled, for no fault of the request.
pub const INTERNAL_SERVER_ERROR: u16 = 500;

} // verus!
