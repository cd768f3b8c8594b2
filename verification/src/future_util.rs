//! Running a task more than once.

use vstd::prelude::*;

verus! {

/// Retries nothing. A task that has run cannot be run a second time, so a
/// caller that wants a task tried again builds the task anew for each try.
pub fn retry_with_times() {
}

} // verus!
