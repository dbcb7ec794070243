use vstd::prelude::*;

use crate::accrual::{lemma_amount_owed_covers_unclaimed, multiplier_factor, lemma_multiplier_factor_nonneg, payment_per_period};
use crate::errors::Error;
use crate::payroll::{OpenPayroll, PayrollModel};
use crate::types::{AccountId, Balance, BlockNumber};

verus! {

broadcast use vstd::std_specs::btree::group_btree_axioms, vstd::laws_cmp::group_laws_cmp;

impl PayrollModel {
    /// Sum of what the given beneficiaries are owed at `tick`, counting all their
    /// assigned weights.
    pub open spec fn total_owed(self, accounts: Seq<AccountId>, tick: int) -> int
        decreases accounts.len(),
    {
        if accounts.len() == 0 {
            0
        } else {
            self.total_owed(accounts.drop_last(), tick) + self.owed(accounts.last(), tick, true)
        }
    }

    /// Whether the amount of some given beneficiary at `tick` overflows.
    pub open spec fn some_owed_overflows(self, accounts: Seq<AccountId>, tick: int) -> bool {
        exists|i: int| 0 <= i < accounts.len() && #[trigger] self.owed_overflows(accounts[i], tick, true)
    }

    /// Factor of beneficiary `a` with all its weights of registered multipliers;
    /// the tick plays no part when deactivated multipliers count as active.
    pub open spec fn factor_of(self, a: AccountId) -> int {
        multiplier_factor(self.beneficiaries[a].multipliers, self.multipliers, 0, true)
    }

    /// Sum of one period's payment of the given beneficiaries, with all their
    /// assigned weights.
    pub open spec fn total_per_period(self, accounts: Seq<AccountId>) -> int
        decreases accounts.len(),
    {
        if accounts.len() == 0 {
            0
        } else {
            self.total_per_period(accounts.drop_last()) + payment_per_period(
                self.factor_of(accounts.last()),
                self.base_payment as int,
            )
        }
    }

    /// Whether the factor times the base payment of some given beneficiary
    /// overflows.
    pub open spec fn some_factor_overflows(self, accounts: Seq<AccountId>) -> bool {
        exists|i: int| 0 <= i < accounts.len() && #[trigger] self.factor_of(accounts[i]) * self.base_payment > u128::MAX
    }
}

/// Totals over a list prefix do not exceed the total over the list.
proof fn lemma_total_owed_prefix(s: PayrollModel, accounts: Seq<AccountId>, tick: int, i: int)
    requires
        s.inv(),
        0 <= i <= accounts.len(),
    ensures
        0 <= s.total_owed(accounts.take(i), tick) <= s.total_owed(accounts, tick),
    decreases accounts.len(),
{
    if i == accounts.len() {
        assert(accounts.take(i) =~= accounts);
        lemma_total_owed_nonneg(s, accounts, tick);
    } else {
        lemma_total_owed_prefix(s, accounts.drop_last(), tick, i);
        assert(accounts.drop_last().take(i) =~= accounts.take(i));
        lemma_amount_owed_covers_unclaimed(s.beneficiaries[accounts.last()], s.multipliers, s.base_payment as int, s.periodicity as int, tick, true);
    }
}

/// Totals owed are not negative.
proof fn lemma_total_owed_nonneg(s: PayrollModel, accounts: Seq<AccountId>, tick: int)
    requires
        s.inv(),
    ensures
        s.total_owed(accounts, tick) >= 0,
    decreases accounts.len(),
{
    if accounts.len() > 0 {
        lemma_total_owed_nonneg(s, accounts.drop_last(), tick);
        lemma_amount_owed_covers_unclaimed(s.beneficiaries[accounts.last()], s.multipliers, s.base_payment as int, s.periodicity as int, tick, true);
    }
}

/// Payments per period are not negative.
proof fn lemma_payment_nonneg(s: PayrollModel, a: AccountId)
    requires
        s.inv(),
    ensures
        payment_per_period(s.factor_of(a), s.base_payment as int) >= 0,
{
    let f = s.factor_of(a);
    lemma_multiplier_factor_nonneg(s.beneficiaries[a].multipliers, s.multipliers, 0, true);
    assert(f * s.base_payment >= 0) by (nonlinear_arith)
        requires
            f >= 0,
            s.base_payment >= 0,
    ;
}

/// Totals per period over a list prefix do not exceed the total over the list.
proof fn lemma_total_per_period_prefix(s: PayrollModel, accounts: Seq<AccountId>, i: int)
    requires
        s.inv(),
        0 <= i <= accounts.len(),
    ensures
        0 <= s.total_per_period(accounts.take(i)) <= s.total_per_period(accounts),
    decreases accounts.len(),
{
    if i == accounts.len() {
        assert(accounts.take(i) =~= accounts);
        lemma_total_per_period_nonneg(s, accounts);
    } else {
        lemma_total_per_period_prefix(s, accounts.drop_last(), i);
        assert(accounts.drop_last().take(i) =~= accounts.take(i));
        lemma_payment_nonneg(s, accounts.last());
    }
}

/// Totals per period are not negative.
proof fn lemma_total_per_period_nonneg(s: PayrollModel, accounts: Seq<AccountId>)
    requires
        s.inv(),
    ensures
        s.total_per_period(accounts) >= 0,
    decreases accounts.len(),
{
    if accounts.len() > 0 {
        lemma_total_per_period_nonneg(s, accounts.drop_last());
        lemma_payment_nonneg(s, accounts.last());
    }
}

impl OpenPayroll {
    /// Sum of what all beneficiaries are owed at `tick`, or `Overflow`.
    fn total_owed_at(&self, tick: BlockNumber) -> (r: Result<Balance, Error>)
        requires
            self.wf(),
        ensures
            ({
                let s = self@;
                let over = s.some_owed_overflows(s.accounts, tick as int) || s.total_owed(s.accounts, tick as int) > u128::MAX;
                &&& !over ==> r == Ok::<Balance, Error>(s.total_owed(s.accounts, tick as int) as Balance)
                &&& over ==> r == Err::<Balance, Error>(Error::Overflow)
            }),
    {
        let ghost s = self@;
        let ghost accounts = self@.accounts;
        let mut debts: Balance = 0;
        let n = self.beneficiaries_accounts.len();
        for i in 0..n
            invariant
                n == self.beneficiaries_accounts.len(),
                self.wf(),
                s == self@,
                accounts == s.accounts,
                debts == s.total_owed(accounts.take(i as int), tick as int),
                !s.some_owed_overflows(accounts.take(i as int), tick as int),
        {
            let a = self.beneficiaries_accounts[i];
            proof {
                assert(accounts.take(i + 1).drop_last() =~= accounts.take(i as int));
                assert(accounts.take(i + 1).last() == a);
                assert(s.accounts.contains(a));
                assert(s.beneficiaries.contains_key(a));
            }
            let amount = match self.beneficiaries.get(&a) {
                Some(b) => {
                    assert(s.beneficiaries[a] == b@);
                    match self.amount_to_claim_in_block(b, true, tick) {
                        Ok(v) => v,
                        Err(e) => {
                            assert(s.owed_overflows(accounts[i as int], tick as int, true));
                            return Err(e);
                        },
                    }
                },
                None => 0,
            };
            match debts.checked_add(amount) {
                Some(d) => debts = d,
                None => {
                    proof {
                        lemma_total_owed_prefix(s, accounts, tick as int, i + 1);
                    }
                    return Err(Error::Overflow);
                },
            }
            proof {
                let t1 = accounts.take(i + 1);
                let t0 = accounts.take(i as int);
                assert forall|j: int| 0 <= j < t1.len() implies !#[trigger] s.owed_overflows(t1[j], tick as int, true) by {
                    if j < i {
                        assert(t1[j] == t0[j]);
                    }
                }
            }
        }
        proof {
            assert(accounts.take(n as int) =~= accounts);
        }
        Ok(debts)
    }

    /// Sum of what all beneficiaries are owed at `now`, or `Overflow`.
    pub fn get_total_debts(&self, now: BlockNumber) -> (r: Result<Balance, Error>)
        requires
            self.wf(),
        ensures
            ({
                let s = self@;
                let over = s.some_owed_overflows(s.accounts, now as int) || s.total_owed(s.accounts, now as int) > u128::MAX;
                &&& !over ==> r == Ok::<Balance, Error>(s.total_owed(s.accounts, now as int) as Balance)
                &&& over ==> r == Err::<Balance, Error>(Error::Overflow)
            }),
    {
        self.total_owed_at(now)
    }

    /// Sum of what all beneficiaries will be owed at the start of the next
    /// period, unclaimed balances included; `Overflow` when that tick or the sum
    /// does not fit.
    pub fn get_total_debt_with_unclaimed_for_next_period(&self, now: BlockNumber) -> (r: Result<Balance, Error>)
        requires
            self.wf(),
            self@.initial_block <= now,
        ensures
            ({
                let s = self@;
                let t = s.next_period_start(now as int);
                let over = t > u32::MAX || s.some_owed_overflows(s.accounts, t) || s.total_owed(s.accounts, t) > u128::MAX;
                &&& !over ==> r == Ok::<Balance, Error>(s.total_owed(s.accounts, t) as Balance)
                &&& over ==> r == Err::<Balance, Error>(Error::Overflow)
            }),
    {
        let block_next_period = self.get_next_block_period(now)?;
        assert(block_next_period as int == self@.next_period_start(now as int));
        self.total_owed_at(block_next_period)
    }

    /// Sum of one period's payment of all beneficiaries, with all their assigned
    /// weights; `Overflow` when an amount or the sum does not fit.
    pub fn get_total_debt_for_next_period(&self) -> (r: Result<Balance, Error>)
        requires
            self.wf(),
        ensures
            ({
                let s = self@;
                let over = s.some_factor_overflows(s.accounts) || s.total_per_period(s.accounts) > u128::MAX;
                &&& !over ==> r == Ok::<Balance, Error>(s.total_per_period(s.accounts) as Balance)
                &&& over ==> r == Err::<Balance, Error>(Error::Overflow)
            }),
    {
        let ghost s = self@;
        let ghost accounts = self@.accounts;
        let mut total: Balance = 0;
        let n = self.beneficiaries_accounts.len();
        for i in 0..n
            invariant
                n == self.beneficiaries_accounts.len(),
                self.wf(),
                s == self@,
                accounts == s.accounts,
                total == s.total_per_period(accounts.take(i as int)),
                !s.some_factor_overflows(accounts.take(i as int)),
        {
            let a = self.beneficiaries_accounts[i];
            proof {
                assert(accounts.take(i + 1).drop_last() =~= accounts.take(i as int));
                assert(accounts.take(i + 1).last() == a);
                assert(s.accounts.contains(a));
                assert(s.beneficiaries.contains_key(a));
            }
            let amount = match self.beneficiaries.get(&a) {
                Some(b) => {
                    assert(s.beneficiaries[a] == b@);
                    // the tick only matters when deactivated weights are left out
                    match self.amount_to_claim_for_one_period(b, true, 0) {
                        Some(v) => v,
                        None => {
                            assert(s.factor_of(accounts[i as int]) * s.base_payment > u128::MAX);
                            assert(s.some_factor_overflows(s.accounts));
                            return Err(Error::Overflow);
                        },
                    }
                },
                None => 0,
            };
            match total.checked_add(amount) {
                Some(t) => total = t,
                None => {
                    proof {
                        lemma_total_per_period_prefix(s, accounts, i + 1);
                        assert(s.total_per_period(accounts.take(i + 1)) == total + amount);
                        assert(s.total_per_period(s.accounts) > u128::MAX);
                    }
                    return Err(Error::Overflow);
                },
            }
            proof {
                let t1 = accounts.take(i + 1);
                let t0 = accounts.take(i as int);
                assert forall|j: int| 0 <= j < t1.len() implies !(#[trigger] s.factor_of(t1[j]) * s.base_payment > u128::MAX) by {
                    if j < i {
                        assert(t1[j] == t0[j]);
                    }
                }
            }
        }
        proof {
            assert(accounts.take(n as int) =~= accounts);
        }
        Ok(total)
    }

    /// What is left of `contract_balance` once all debts at `now` are paid;
    /// `NotEnoughBalanceInTreasury` when the debts exceed it, `Overflow` when they
    /// do not fit.
    pub fn get_balance_with_debts(&self, contract_balance: Balance, now: BlockNumber) -> (r: Result<Balance, Error>)
        requires
            self.wf(),
        ensures
            ({
                let s = self@;
                let over = s.some_owed_overflows(s.accounts, now as int) || s.total_owed(s.accounts, now as int) > u128::MAX;
                let debts = s.total_owed(s.accounts, now as int);
                &&& over ==> r == Err::<Balance, Error>(Error::Overflow)
                &&& !over && debts > contract_balance ==> r == Err::<Balance, Error>(Error::NotEnoughBalanceInTreasury)
                &&& !over && debts <= contract_balance ==> r == Ok::<Balance, Error>((contract_balance - debts) as Balance)
            }),
    {
        let debts = self.get_total_debts(now)?;
        proof {
            lemma_total_owed_nonneg(self@, self@.accounts, now as int);
        }
        if debts > contract_balance {
            return Err(Error::NotEnoughBalanceInTreasury);
        }
        Ok(contract_balance - debts)
    }
}

} // verus!
