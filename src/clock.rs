//! The wall clock, read in whole seconds since the Unix epoch.

use vstd::prelude::*;

verus! {

/// Relies on chrono's `From<SystemTime> for DateTime<Utc>` and
/// `DateTime::timestamp`: seconds since the Unix epoch, negative for a
/// clock set before it. Nothing is promised of the value.
#[verifier::external_body]
pub(crate) fn now_seconds() -> (r: i64) {
    chrono::DateTime::<chrono::Utc>::from(std::time::SystemTime::now()).timestamp()
}

} // verus!
