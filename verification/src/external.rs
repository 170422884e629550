//! The two calls the store makes into the outside world: the clock that
//! stamps rows and the generator behind preparation estimates. Both are
//! trusted: Verus believes their contracts and does not read their bodies.

use vstd::prelude::*;

use rand::Rng;

verus! {

/// Relies on chrono's `Local::now` and `DateTime::to_rfc3339`: the current
/// local time as an RFC 3339 string. The clock decides the value, so nothing
/// is assumed of it.
#[verifier::external_body]
pub(crate) fn now_rfc3339() -> String {
    chrono::Local::now().to_rfc3339()
}

/// Relies on rand's `thread_rng` and `Rng::gen_range`, which draws from the
/// given range and panics only when it is empty: the estimate is always
/// between 5 and 15 minutes.
#[verifier::external_body]
pub(crate) fn random_estimate() -> (r: i32)
    ensures
        5 <= r <= 15,
{
    rand::thread_rng().gen_range(5..=15)
}

} // verus!
