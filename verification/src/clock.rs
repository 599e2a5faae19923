//! The external time source: one synchronous query for the current time.

use vstd::prelude::*;

verus! {

/// Relies on jiff::Timestamp::now and jiff::Timestamp::as_millisecond: the
/// current time of the system clock, in milliseconds since the Unix epoch.
/// Nothing is assumed of the value; every caller states what holds whatever
/// the clock returns.  jiff panics only if the system clock reports a time
/// outside its representable range.
#[verifier::external_body]
pub(crate) fn now_millis() -> i64 {
    jiff::Timestamp::now().as_millisecond()
}

} // verus!
