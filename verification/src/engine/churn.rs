//! Churn curves: their expected length.

use vstd::prelude::*;

verus! {

/// Months covered by a churn curve.
pub const CHURN_MONTHS: usize = 42;

/// Checks that both churn curves of an update cover exactly `CHURN_MONTHS`
/// months; the error message says so otherwise.
pub fn check_curve_lengths(action_len: usize, no_action_len: usize) -> (r: Result<(), String>)
    ensures
        r is Ok <==> (action_len == CHURN_MONTHS && no_action_len == CHURN_MONTHS),
        r matches Err(m) ==> m@ == "Churn curves must have exactly 42 values"@,
{
    if action_len != CHURN_MONTHS || no_action_len != CHURN_MONTHS {
        return Err(String::from_str("Churn curves must have exactly 42 values"));
    }
    Ok(())
}

} // verus!
