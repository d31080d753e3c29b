use vstd::prelude::*;

verus! {

/// The current time in whole seconds since the Unix epoch, from
/// `datetime::Instant::now().seconds()`. Nothing is promised of the value: it is
/// read from the system clock.
#[verifier::external_body]
pub(crate) fn now_seconds() -> (r: i64) {
    datetime::Instant::now().seconds()
}

} // verus!
