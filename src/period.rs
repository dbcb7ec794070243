use vstd::arithmetic::div_mod::lemma_mod_decreases;
use vstd::prelude::*;

verus! {

/// Start tick of the period that contains `now`, for periods of width
/// `periodicity` anchored at `initial`.
pub open spec fn period_start_of(now: int, initial: int, periodicity: int) -> int {
    now - (now - initial) % periodicity
}

/// Computes the start tick of the period that contains `now`.
pub fn period_start(now: u32, initial: u32, periodicity: u32) -> (r: u32)
    requires
        initial <= now,
        periodicity > 0,
    ensures
        r == period_start_of(now as int, initial as int, periodicity as int),
        initial <= r <= now,
{
    proof {
        lemma_mod_decreases((now - initial) as nat, periodicity as nat);
    }
    now - (now - initial) % periodicity
}

} // verus!
