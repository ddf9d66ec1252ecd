//! Ids for new rows and new holds.

use uuid::Uuid;
use vstd::prelude::*;

verus! {

/// `uuid::Uuid::new_v4`, and `as_u128` on what it gives: a random id, of
/// which nothing is known beforehand.
#[verifier::external_body]
pub(crate) fn fresh_id() -> u128 {
    Uuid::new_v4().as_u128()
}

} // verus!
