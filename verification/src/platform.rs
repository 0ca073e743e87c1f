//! What the platform supplies: fresh report ids and the current time.
//!
//! Both values depend on the machine, so nothing is assumed of them; the
//! store's operations state what holds for every value they may take.
use vstd::prelude::*;

verus! {

/// Relies on uuid::Uuid::new_v4 for a fresh random version-4 UUID,
/// returned as its 128-bit value. A collision, however unlikely, is
/// handled by the caller, so nothing is assumed of the result.
#[verifier::external_body]
pub(crate) fn fresh_report_id() -> u128 {
    uuid::Uuid::new_v4().as_u128()
}

/// Relies on chrono::Utc::now for the current wall-clock time, returned
/// as milliseconds since the Unix epoch. Nothing is assumed of the value.
#[verifier::external_body]
pub(crate) fn now_millis() -> i64 {
    chrono::Utc::now().timestamp_millis()
}

} // verus!
