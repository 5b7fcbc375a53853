//! Wall-clock access for timestamping.

use vstd::prelude::*;

verus! {

/// Relies on chrono's `Utc::now`: the current Unix timestamp in seconds.
/// Nothing is assumed of the value: it depends on the wall clock.
#[verifier::external_body]
pub(crate) fn now_ts() -> i64 {
    chrono::Utc::now().timestamp()
}

} // verus!
