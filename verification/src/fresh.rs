//! Fresh identifiers and wall-clock timestamps, drawn from outside the
//! verified world. Nothing is promised of either value: every caller must
//! work for any identifier and any timestamp.

use vstd::prelude::*;

verus! {

/// Relies on `uuid::Uuid::new_v4` and `Uuid::as_u128`: a freshly drawn
/// random version-4 UUID as a 128-bit integer. The value is random, so
/// nothing is promised of it.
#[verifier::external_body]
pub(crate) fn fresh_id() -> (r: u128) {
    uuid::Uuid::new_v4().as_u128()
}

/// Relies on `chrono::Utc::now` and `DateTime::timestamp`: the current Unix
/// timestamp in whole seconds. The value depends on the clock, so nothing
/// is promised of it.
#[verifier::external_body]
pub(crate) fn now_timestamp() -> (r: i64) {
    chrono::Utc::now().timestamp()
}

} // verus!
