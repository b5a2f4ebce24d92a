//! Runs of consecutive failures.

use vstd::prelude::*;

verus! {

/// How many of the last results failed in a row (`true` is a success).
pub open spec fn failing_streak(results: Seq<bool>) -> nat
    decreases results.len(),
{
    if results.len() == 0 || results.last() {
        0
    } else {
        failing_streak(results.drop_last()) + 1
    }
}

/// A streak has reached `k` exactly when there were at least `k` results and
/// the last `k` of them all failed.
pub proof fn law_streak_is_trailing_failures(results: Seq<bool>, k: nat)
    ensures
        failing_streak(results) >= k <==> results.len() >= k && (forall|i: int|
            results.len() - k <= i < results.len() ==> !results[i]),
    decreases results.len(),
{
    if k > 0 && results.len() > 0 && !results.last() {
        let init = results.drop_last();
        law_streak_is_trailing_failures(init, (k - 1) as nat);
        if failing_streak(results) >= k {
            assert forall|i: int| results.len() - k <= i < results.len() implies !results[i] by {
                if i < init.len() {
                    assert(init[i] == results[i]);
                }
            }
        }
        if results.len() >= k && (forall|i: int|
            results.len() - k <= i < results.len() ==> !results[i]) {
            assert forall|i: int| init.len() - (k - 1) <= i < init.len() implies !init[i] by {
                assert(init[i] == results[i]);
            }
        }
    } else if k > 0 && results.len() > 0 {
        assert(results[results.len() - 1]);
    }
}

} // verus!
