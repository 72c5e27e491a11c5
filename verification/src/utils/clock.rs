//! The wall clock.

use vstd::prelude::*;

verus! {

/// `chrono::Utc::now` and `DateTime::timestamp`: the seconds since the Unix
/// epoch at the moment of the call. Nothing is promised of the value.
#[verifier::external_body]
pub(crate) fn unix_now() -> i64 {
    chrono::Utc::now().timestamp()
}

} // verus!
