use vstd::prelude::*;

use crate::accrual::{lemma_retained_distinct, lemma_retained_step, retained_weights};
use crate::errors::Error;
use crate::payroll::{lemma_map_values_insert, OpenPayroll};
use crate::types::{AccountId, Balance, Beneficiary, BlockNumber, Claimed, ClaimsInPeriod, MultiplierId, Multiplier};

verus! {

broadcast use vstd::std_specs::btree::group_btree_axioms, vstd::laws_cmp::group_laws_cmp;

impl OpenPayroll {
    /// Counts a beneficiary's first claim in the period that starts at `period`.
    fn update_claims_in_period(&mut self, period: BlockNumber)
        requires
            old(self).wf(),
            old(self)@.accounts.len() > 0,
        ensures
            final(self).wf(),
            final(self)@ == (crate::payroll::PayrollModel { claims: old(self)@.claims_after_first_claim(period), ..old(self)@ }),
    {
        if period == self.claims_in_period.period {
            if (self.claims_in_period.total_claims as usize) < self.beneficiaries_accounts.len() {
                self.claims_in_period.total_claims = self.claims_in_period.total_claims + 1;
            }
        } else {
            self.claims_in_period = ClaimsInPeriod { period, total_claims: 1 };
        }
    }

    /// Fails with `NotAllClaimedInPeriod` unless every beneficiary has claimed in
    /// the period that contains `now`.
    pub fn ensure_all_claimed_in_period(&self, now: BlockNumber) -> (r: Result<(), Error>)
        requires
            self.wf(),
            self@.initial_block <= now,
        ensures
            r == if self@.all_claimed_in_period(now as int) {
                Ok(())
            } else {
                Err(Error::NotAllClaimedInPeriod)
            },
    {
        let claiming_period_block = self.get_current_period_initial_block(now);
        let n = self.beneficiaries_accounts.len() as u32;
        if (claiming_period_block == self.claims_in_period.period && self.claims_in_period.total_claims == n)
            || claiming_period_block == 0 {
            return Ok(());
        }
        Err(Error::NotAllClaimedInPeriod)
    }

    /// The weights of `b` whose multiplier still counts at `tick`, in order.
    fn retain_counting_weights(&self, b: &Beneficiary, tick: BlockNumber) -> (r: Vec<(MultiplierId, Multiplier)>)
        ensures
            r@ == retained_weights(b.multipliers@, self@.multipliers, tick as int, false),
    {
        let ghost ws = b.multipliers@;
        let mut kept: Vec<(MultiplierId, Multiplier)> = Vec::new();
        let n = b.multipliers.len();
        for i in 0..n
            invariant
                n == b.multipliers.len(),
                ws == b.multipliers@,
                kept@ == retained_weights(ws.take(i as int), self@.multipliers, tick as int, false),
        {
            proof {
                lemma_retained_step(ws, self@.multipliers, tick as int, false, i as int);
            }
            let entry = b.multipliers[i];
            if self.multiplier_counts_at(entry.0, tick) {
                kept.push(entry);
            }
        }
        proof {
            assert(ws.take(n as int) =~= ws);
        }
        kept
    }

    /// `account` claims `amount` at `now`, while the treasury holds
    /// `treasury_balance`. Its weights whose multiplier no longer counts are
    /// dropped; what it is owed is computed from the rest; it keeps what it does
    /// not claim and is settled up to the current period, in which its first claim
    /// is counted. Returns the event to report; the caller moves `amount` to the
    /// account, and must undo the call when that transfer fails. On an error
    /// nothing changes.
    pub fn claim_payment(
        &mut self,
        account_id: AccountId,
        amount: Balance,
        now: BlockNumber,
        treasury_balance: Balance,
    ) -> (r: Result<Claimed, Error>)
        requires
            old(self).wf(),
            old(self)@.initial_block <= now,
        ensures
            final(self).wf(),
            r == old(self)@.claim_outcome(account_id, amount, now as int, treasury_balance),
            r is Ok ==> final(self)@ == old(self)@.after_claim(account_id, amount, now as int),
            r is Err ==> final(self)@ == old(self)@,
    {
        self.ensure_is_not_paused()?;
        let (kept, unclaimed, last) = match self.beneficiaries.get(&account_id) {
            None => return Err(Error::AccountNotFound),
            Some(b) => (self.retain_counting_weights(b, now), b.unclaimed_payments, b.last_updated_period_block),
        };
        let ghost old_b = self@.beneficiaries[account_id];
        let purged = Beneficiary {
            account_id,
            multipliers: kept,
            unclaimed_payments: unclaimed,
            last_updated_period_block: last,
        };
        assert(purged@ == self@.purged(account_id, now as int));
        let total_payment = self.amount_to_claim_in_block(&purged, false, now)?;
        assert(total_payment == self@.claim_total(account_id, now as int));
        assert(last == old_b.last_updated);
        if amount > total_payment {
            return Err(Error::ClaimedAmountIsBiggerThanAvailable);
        }
        if amount > treasury_balance {
            return Err(Error::NotEnoughBalanceInTreasury);
        }
        let claiming_period_block = self.get_current_period_initial_block(now);
        if last != claiming_period_block {
            proof {
                assert(self@.accounts.contains(account_id));
            }
            self.update_claims_in_period(claiming_period_block);
        }
        let ghost mid = self@;
        let updated = Beneficiary {
            account_id,
            multipliers: purged.multipliers,
            unclaimed_payments: total_payment - amount,
            last_updated_period_block: claiming_period_block,
        };
        proof {
            lemma_retained_distinct(old_b.multipliers, mid.multipliers, now as int, false);
            lemma_map_values_insert(self.beneficiaries@, account_id, updated, |b: Beneficiary| b@);
        }
        self.beneficiaries.insert(account_id, updated);
        proof {
            assert(self@.accounts == mid.accounts);
            assert(self@ == old(self)@.after_claim(account_id, amount, now as int));
        }
        Ok(Claimed { account_id, amount, total_payment, claiming_period_block })
    }
}

} // verus!
