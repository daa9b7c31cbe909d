//! Fresh identifiers and timestamps for newly created artifacts.
//!
//! Both values are drawn from the environment (randomness, the clock), so
//! nothing can be promised about them; every function that stores them keeps
//! its contract independent of which value came back.

use vstd::prelude::*;

verus! {

/// Relies on uuid::Uuid::new_v4 and uuid::Uuid::as_u128: a fresh random
/// version-4 identifier, returned as its 128-bit value.  The result is
/// random, so nothing is stated about it.
#[verifier::external_body]
pub fn new_id() -> u128 {
    uuid::Uuid::new_v4().as_u128()
}

/// Relies on chrono::Utc::now and chrono::DateTime::timestamp_millis: the
/// current time as milliseconds since the Unix epoch.  The result depends on
/// the clock, so nothing is stated about it.
#[verifier::external_body]
pub fn now_millis() -> i64 {
    chrono::Utc::now().timestamp_millis()
}

} // verus!
