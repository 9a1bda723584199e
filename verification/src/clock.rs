//! The one place where the crate reads the wall clock.

use vstd::prelude::*;

verus! {

/// Relies on time::OffsetDateTime::now_utc and unix_timestamp: the current
/// wall-clock time as seconds since the Unix epoch. Nothing is promised of
/// the value; callers are verified for every reading.
#[verifier::external_body]
pub fn now_unix() -> i64 {
    time::OffsetDateTime::now_utc().unix_timestamp()
}

} // verus!
