//! State that the worker keeps for inspection.

use vstd::prelude::*;

verus! {

/// Empties the log that recording operators append to.
pub fn reset_log(log: &mut Vec<String>)
    ensures
        final(log)@.len() == 0,
{
    log.clear();
}

} // verus!
