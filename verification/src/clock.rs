//! Wall-clock access used to stamp messages and stored rows.

use vstd::prelude::*;

verus! {

/// Relies on `chrono::Utc::now`: the current wall-clock time, returned as
/// milliseconds since the Unix epoch.  The value depends on the machine's
/// clock, so nothing is assumed of it; every caller's contract holds for any
/// stamp.
#[verifier::external_body]
pub(crate) fn now_millis() -> i64 {
    chrono::Utc::now().timestamp_millis()
}

} // verus!
