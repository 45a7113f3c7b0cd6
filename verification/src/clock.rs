//! The one place the library reads the wall clock.

use vstd::prelude::*;

verus! {

/// Relies on `time::OffsetDateTime::now_utc` and `unix_timestamp`: the
/// current UTC time as whole seconds since the Unix epoch. The result
/// depends on the wall clock, so nothing is promised of it; callers pass
/// it on to functions whose contracts hold for every value of it.
#[verifier::external_body]
pub(crate) fn now_unix() -> i64 {
    time::OffsetDateTime::now_utc().unix_timestamp()
}

} // verus!
