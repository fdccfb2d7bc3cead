//! The one place the library asks the environment for anything: the current
//! time, used to stamp sessions and scan log entries.

use vstd::prelude::*;

verus! {

/// Relies on chrono::Utc::now: the current instant, reported as whole seconds
/// since the Unix epoch. Nothing is assumed of the value; callers state what
/// holds whatever instant comes back. Note that chrono aborts when the system
/// clock reads before 1970 — an environment fault no precondition of this
/// library can exclude.
#[verifier::external_body]
pub(crate) fn now_timestamp() -> (t: i64) {
    chrono::Utc::now().timestamp()
}

} // verus!
