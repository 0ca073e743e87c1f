//! A compliance-report service: reports are submitted once per repository
//! URL, listed and fetched by id, reviewed with a status transition, and
//! analyzed by extracting issue lists and summary statistics from an
//! optional structured document attached to each report.
use vstd::prelude::*;

pub mod analytics;
pub mod doc;
pub mod error;
pub mod issues;
pub mod platform;
pub mod report;
pub mod store;

verus! {

/// Liveness probe body: always the literal `OK`.
pub fn health_check() -> (r: &'static str)
    ensures
        r@ == "OK"@,
{
    "OK"
}

} // verus!
