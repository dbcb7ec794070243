use vstd::prelude::*;

use crate::accrual::{
    amount_owed, amount_overflows, counts_at, lemma_amount_owed_covers_unclaimed,
    lemma_retained_prefix_sum, lemma_retained_step, lemma_weight_sum_push, multiplier_factor,
    payment_per_period, periods_due, retained_weights, weight_counts, weight_sum,
};
use crate::errors::Error;
use crate::payroll::OpenPayroll;
use crate::types::{AccountId, Balance, Beneficiary, BlockNumber, MultiplierId};

verus! {

broadcast use vstd::std_specs::btree::group_btree_axioms, vstd::laws_cmp::group_laws_cmp;

impl OpenPayroll {
    /// Whether multiplier `id` still counts at `tick`.
    pub(crate) fn multiplier_counts_at(&self, id: MultiplierId, tick: BlockNumber) -> (r: bool)
        ensures
            r == counts_at(self@.multipliers, id, tick as int),
    {
        match self.base_multipliers.get(&id) {
            None => false,
            Some(m) => match m.valid_until_block {
                None => true,
                Some(v) => tick < v,
            },
        }
    }

    /// Whether a weight for multiplier `id` counts at `tick`.
    pub(crate) fn multiplier_weight_counts(&self, id: MultiplierId, tick: BlockNumber, count_deactivated_as_active: bool) -> (r: bool)
        ensures
            r == weight_counts(self@.multipliers, id, tick as int, count_deactivated_as_active),
    {
        if count_deactivated_as_active {
            self.base_multipliers.contains_key(&id)
        } else {
            self.multiplier_counts_at(id, tick)
        }
    }

    /// Sum of the weights of `b` that count at `tick`, or `None` when it exceeds
    /// `u128::MAX`.
    fn sum_counting_weights(&self, b: &Beneficiary, tick: BlockNumber, count_deactivated_as_active: bool) -> (r: Option<u128>)
        ensures
            ({
                let kept = retained_weights(b.multipliers@, self@.multipliers, tick as int, count_deactivated_as_active);
                match r {
                    Some(v) => v == weight_sum(kept),
                    None => weight_sum(kept) > u128::MAX,
                }
            }),
    {
        let ghost m = count_deactivated_as_active;
        let ghost ms = self@.multipliers;
        let ghost ws = b.multipliers@;
        let mut total: u128 = 0;
        let n = b.multipliers.len();
        for i in 0..n
            invariant
                n == b.multipliers.len(),
                ws == b.multipliers@,
                ms == self@.multipliers,
                m == count_deactivated_as_active,
                total == weight_sum(retained_weights(ws.take(i as int), ms, tick as int, m)),
        {
            let (id, w) = b.multipliers[i];
            proof {
                lemma_retained_step(ws, ms, tick as int, m, i as int);
                lemma_weight_sum_push(retained_weights(ws.take(i as int), ms, tick as int, m), ws[i as int]);
            }
            if self.multiplier_weight_counts(id, tick, count_deactivated_as_active) {
                match total.checked_add(w) {
                    Some(t) => total = t,
                    None => {
                        proof {
                            lemma_retained_prefix_sum(ws, ms, tick as int, m, i + 1);
                        }
                        return None;
                    },
                }
            }
        }
        proof {
            assert(ws.take(n as int) =~= ws);
        }
        Some(total)
    }

    /// Payment of one period for `b`, with its factor taken as of `tick`; `None` when
    /// the factor times the base payment exceeds `u128::MAX`.
    pub(crate) fn amount_to_claim_for_one_period(
        &self,
        b: &Beneficiary,
        count_deactivated_as_active: bool,
        tick: BlockNumber,
    ) -> (r: Option<Balance>)
        requires
            self.wf(),
        ensures
            ({
                let f = multiplier_factor(b.multipliers@, self@.multipliers, tick as int, count_deactivated_as_active);
                match r {
                    Some(v) => f * self@.base_payment <= u128::MAX && v == payment_per_period(f, self@.base_payment as int),
                    None => f * self@.base_payment > u128::MAX,
                }
            }),
    {
        let ghost f = multiplier_factor(b.multipliers@, self@.multipliers, tick as int, count_deactivated_as_active);
        let factor: Option<u128> = if b.multipliers.len() == 0 {
            Some(1)
        } else {
            self.sum_counting_weights(b, tick, count_deactivated_as_active)
        };
        match factor {
            None => {
                assert(f * self@.base_payment >= f) by (nonlinear_arith)
                    requires
                        f >= 0,
                        self@.base_payment >= 1,
                ;
                None
            },
            Some(x) => match x.checked_mul(self.base_payment) {
                None => None,
                Some(p) => Some(p / 100),
            },
        }
    }

    /// What `b` is owed at `tick`, or `Overflow`.
    pub(crate) fn amount_to_claim_in_block(
        &self,
        b: &Beneficiary,
        count_deactivated_as_active: bool,
        tick: BlockNumber,
    ) -> (r: Result<Balance, Error>)
        requires
            self.wf(),
        ensures
            amount_owed(b@, self@.multipliers, self@.base_payment as int, self@.periodicity as int, tick as int, count_deactivated_as_active) >= b.unclaimed_payments,
            ({
                let owed = amount_owed(b@, self@.multipliers, self@.base_payment as int, self@.periodicity as int, tick as int, count_deactivated_as_active);
                let over = amount_overflows(b@, self@.multipliers, self@.base_payment as int, self@.periodicity as int, tick as int, count_deactivated_as_active);
                &&& !over ==> r == Ok::<Balance, Error>(owed as Balance)
                &&& over ==> r == Err::<Balance, Error>(Error::Overflow)
            }),
    {
        proof {
            lemma_amount_owed_covers_unclaimed(b@, self@.multipliers, self@.base_payment as int, self@.periodicity as int, tick as int, count_deactivated_as_active);
        }
        let periods: u128 = if tick < b.last_updated_period_block {
            0
        } else {
            ((tick - b.last_updated_period_block) / self.periodicity) as u128
        };
        assert(periods == periods_due(tick as int, b.last_updated_period_block as int, self@.periodicity as int));
        if periods == 0 {
            return Ok(b.unclaimed_payments);
        }
        match self.amount_to_claim_for_one_period(b, count_deactivated_as_active, tick) {
            None => Err(Error::Overflow),
            Some(per_period) => {
                proof {
                    assert(per_period * periods >= 0) by (nonlinear_arith)
                        requires per_period >= 0, periods >= 0;
                }
                match per_period.checked_mul(periods) {
                    None => Err(Error::Overflow),
                    Some(accrued) => match accrued.checked_add(b.unclaimed_payments) {
                        None => Err(Error::Overflow),
                        Some(total) => Ok(total),
                    },
                }
            },
        }
    }

    /// What `account` is owed at `now`, as an estimate that counts all its assigned
    /// weights, deactivated ones included (a claim counts only those that still
    /// count); `AccountNotFound` when it is no beneficiary, `Overflow` when the
    /// amount does not fit.
    pub fn get_amount_to_claim(&self, account_id: AccountId, now: BlockNumber) -> (r: Result<Balance, Error>)
        requires
            self.wf(),
        ensures
            r == self@.amount_to_claim_outcome(account_id, now as int),
    {
        match self.beneficiaries.get(&account_id) {
            None => Err(Error::AccountNotFound),
            Some(b) => self.amount_to_claim_in_block(b, true, now),
        }
    }
}

} // verus!
