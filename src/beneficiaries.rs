use vstd::prelude::*;

use crate::accrual::{check_no_duplicate_multipliers, copy_weights};
use crate::errors::Error;
use crate::payroll::{lemma_map_values_insert, lemma_map_values_remove, OpenPayroll};
use crate::types::{
    AccountId, Beneficiary, BeneficiaryAdded, BeneficiaryRemoved, BeneficiaryUpdated, BlockNumber,
    Multiplier, MultiplierId, MAX_BENEFICIARIES,
};

verus! {

broadcast use vstd::std_specs::btree::group_btree_axioms, vstd::laws_cmp::group_laws_cmp;

impl OpenPayroll {
    /// Fails unless every multiplier of `multipliers` is registered and active;
    /// the first entry that is not decides the error.
    pub fn check_multipliers_are_valid(&self, multipliers: &Vec<(MultiplierId, Multiplier)>) -> (r: Result<(), Error>)
        ensures
            r == self@.weights_check(multipliers@),
    {
        let ghost ws = multipliers@;
        let n = multipliers.len();
        for i in 0..n
            invariant
                n == multipliers.len(),
                ws == multipliers@,
                self@.weights_check(ws.take(i as int)) is Ok,
        {
            proof {
                assert(ws.take(i + 1).drop_last() =~= ws.take(i as int));
            }
            let id = multipliers[i].0;
            match self.base_multipliers.get(&id) {
                None => {
                    proof {
                        self.lemma_weights_check_prefix(ws, i + 1);
                    }
                    return Err(Error::MultiplierNotFound);
                },
                Some(m) => {
                    if m.valid_until_block.is_some() {
                        proof {
                            self.lemma_weights_check_prefix(ws, i + 1);
                        }
                        return Err(Error::MultiplierAlreadyDeactivated);
                    }
                },
            }
        }
        proof {
            assert(ws.take(n as int) =~= ws);
        }
        Ok(())
    }

    /// A failing prefix decides the check of the whole list.
    proof fn lemma_weights_check_prefix(&self, ws: Seq<(MultiplierId, Multiplier)>, i: int)
        requires
            0 <= i <= ws.len(),
            self@.weights_check(ws.take(i)) is Err,
        ensures
            self@.weights_check(ws) == self@.weights_check(ws.take(i)),
        decreases ws.len(),
    {
        if i < ws.len() {
            let d = ws.drop_last();
            assert(d.take(i) =~= ws.take(i));
            self.lemma_weights_check_prefix(d, i);
        } else {
            assert(ws.take(i) =~= ws);
        }
    }

    /// Position of `account_id` in the account list, if it is there.
    fn find_account(&self, account_id: AccountId) -> (r: Option<usize>)
        ensures
            match r {
                Some(i) => i < self@.accounts.len() && self@.accounts[i as int] == account_id,
                None => !self@.accounts.contains(account_id),
            },
    {
        let n = self.beneficiaries_accounts.len();
        for i in 0..n
            invariant
                n == self.beneficiaries_accounts.len(),
                forall|j: int| 0 <= j < i ==> self@.accounts[j] != account_id,
        {
            let a = self.beneficiaries_accounts[i];
            if a.0 == account_id.0 && a.1 == account_id.1 {
                return Some(i);
            }
        }
        None
    }

    /// The checks that precede adding `account_id` with `multipliers`, in order:
    /// the caller is the owner, the account is new, there is room, the multipliers
    /// are registered and active, and no id appears twice.
    fn check_beneficiary_to_add(&self, caller: AccountId, account_id: AccountId, multipliers: &Vec<(MultiplierId, Multiplier)>) -> (r: Result<(), Error>)
        requires
            self.wf(),
        ensures
            r == self@.add_beneficiary_check(caller, account_id, multipliers@),
    {
        self.ensure_owner(caller)?;
        if self.beneficiaries.contains_key(&account_id) {
            return Err(Error::AccountAlreadyExists);
        }
        if self.beneficiaries_accounts.len() + 1 > MAX_BENEFICIARIES {
            return Err(Error::MaxBeneficiariesExceeded);
        }
        self.check_multipliers_are_valid(multipliers)?;
        check_no_duplicate_multipliers(multipliers)?;
        Ok(())
    }

    /// The owner adds `account_id` at `now` with the weights `multipliers`: it
    /// joins the end of the list with nothing unclaimed, settled up to the current
    /// period. Only registered, active multipliers may be assigned, each once.
    pub fn add_beneficiary(
        &mut self,
        caller: AccountId,
        account_id: AccountId,
        multipliers: Vec<(MultiplierId, Multiplier)>,
        now: BlockNumber,
    ) -> (r: Result<BeneficiaryAdded, Error>)
        requires
            old(self).wf(),
            old(self)@.initial_block <= now,
        ensures
            final(self).wf(),
            r is Ok <==> old(self)@.add_beneficiary_check(caller, account_id, multipliers@) is Ok,
            r matches Err(e) ==> old(self)@.add_beneficiary_check(caller, account_id, multipliers@) == Err::<(), Error>(e)
                && final(self)@ == old(self)@,
            r matches Ok(ev) ==> ev.account_id == account_id && ev.multipliers_vec@ == multipliers@
                && final(self)@ == old(self)@.after_add(account_id, multipliers@, now as int),
    {
        self.check_beneficiary_to_add(caller, account_id, &multipliers)?;
        let multipliers_vec = copy_weights(&multipliers);
        let last_updated_period_block = self.get_current_period_initial_block(now);
        let b = Beneficiary { account_id, multipliers, unclaimed_payments: 0, last_updated_period_block };
        proof {
            lemma_map_values_insert(self.beneficiaries@, account_id, b, |b: Beneficiary| b@);
        }
        let ghost before = self@;
        self.beneficiaries.insert(account_id, b);
        self.beneficiaries_accounts.push(account_id);
        proof {
            assert(self@ == before.after_add(account_id, multipliers_vec@, now as int));
            assert forall|a: AccountId| #[trigger] self@.beneficiaries.contains_key(a) <==> self@.accounts.contains(a) by {
                if a == account_id {
                    assert(self@.accounts[self@.accounts.len() - 1] == a);
                } else if before.accounts.contains(a) {
                    let j = choose|j: int| 0 <= j < before.accounts.len() && before.accounts[j] == a;
                    assert(self@.accounts[j] == a);
                } else if self@.accounts.contains(a) {
                    let j = choose|j: int| 0 <= j < self@.accounts.len() && self@.accounts[j] == a;
                    assert(before.accounts[j] == a);
                }
            }
        }
        Ok(BeneficiaryAdded { account_id, multipliers_vec })
    }

    /// The owner gives `account_id` the weights `multipliers` at `now`. What it was
    /// owed under all its former weights, deactivated ones included, becomes its
    /// unclaimed balance, and it is settled up to the current period.
    pub fn update_beneficiary(
        &mut self,
        caller: AccountId,
        account_id: AccountId,
        multipliers: Vec<(MultiplierId, Multiplier)>,
        now: BlockNumber,
    ) -> (r: Result<BeneficiaryUpdated, Error>)
        requires
            old(self).wf(),
            old(self)@.initial_block <= now,
        ensures
            final(self).wf(),
            r is Ok <==> old(self)@.update_beneficiary_check(caller, account_id, multipliers@, now as int) is Ok,
            r matches Err(e) ==> old(self)@.update_beneficiary_check(caller, account_id, multipliers@, now as int) == Err::<(), Error>(e)
                && final(self)@ == old(self)@,
            r matches Ok(ev) ==> ev.account_id == account_id && ev.multipliers_vec@ == multipliers@
                && final(self)@ == old(self)@.after_update(account_id, multipliers@, now as int),
    {
        self.ensure_owner(caller)?;
        let unclaimed_payments = match self.beneficiaries.get(&account_id) {
            None => return Err(Error::AccountNotFound),
            Some(b) => {
                self.check_multipliers_are_valid(&multipliers)?;
                check_no_duplicate_multipliers(&multipliers)?;
                self.amount_to_claim_in_block(b, true, now)?
            },
        };
        let multipliers_vec = copy_weights(&multipliers);
        let last_updated_period_block = self.get_current_period_initial_block(now);
        let b = Beneficiary { account_id, multipliers, unclaimed_payments, last_updated_period_block };
        proof {
            lemma_map_values_insert(self.beneficiaries@, account_id, b, |b: Beneficiary| b@);
        }
        let ghost before = self@;
        self.beneficiaries.insert(account_id, b);
        proof {
            assert(self@ == before.after_update(account_id, multipliers_vec@, now as int));
        }
        Ok(BeneficiaryUpdated { account_id, multipliers_vec })
    }

    /// The owner removes `account_id` from the map and from the list. The claim
    /// count drops by one when the beneficiary was settled in the tracked period,
    /// and never exceeds the beneficiaries that remain.
    pub fn remove_beneficiary(&mut self, caller: AccountId, account_id: AccountId) -> (r: Result<BeneficiaryRemoved, Error>)
        requires
            old(self).wf(),
        ensures
            final(self).wf(),
            caller != old(self)@.owner ==> r == Err::<BeneficiaryRemoved, Error>(Error::NotOwner) && final(self)@ == old(self)@,
            caller == old(self)@.owner && !old(self)@.beneficiaries.contains_key(account_id) ==> r == Err::<BeneficiaryRemoved, Error>(
                Error::AccountNotFound,
            ) && final(self)@ == old(self)@,
            caller == old(self)@.owner && old(self)@.beneficiaries.contains_key(account_id) ==> r == Ok::<BeneficiaryRemoved, Error>(
                BeneficiaryRemoved { account_id },
            ) && final(self)@ == old(self)@.after_remove(account_id),
    {
        self.ensure_owner(caller)?;
        if !self.beneficiaries.contains_key(&account_id) {
            return Err(Error::AccountNotFound);
        }
        let idx = match self.find_account(account_id) {
            Some(i) => i,
            None => return Err(Error::AccountNotFound),
        };
        let settled_in_tracked_period = match self.beneficiaries.get(&account_id) {
            Some(b) => b.last_updated_period_block == self.claims_in_period.period,
            None => false,
        };
        let ghost before = self@;
        proof {
            lemma_map_values_remove(self.beneficiaries@, account_id, |b: Beneficiary| b@);
            let k = before.account_index(account_id);
            assert(before.accounts[k] == account_id);
            assert(k == idx);
        }
        self.beneficiaries.remove(&account_id);
        self.beneficiaries_accounts.remove(idx);
        let mut total = self.claims_in_period.total_claims;
        if settled_in_tracked_period && total > 0 {
            total = total - 1;
        }
        if total as usize > self.beneficiaries_accounts.len() {
            total = self.beneficiaries_accounts.len() as u32;
        }
        self.claims_in_period.total_claims = total;
        proof {
            assert(self@ == before.after_remove(account_id));
            assert forall|a: AccountId| #[trigger] self@.beneficiaries.contains_key(a) <==> self@.accounts.contains(a) by {
                if self@.accounts.contains(a) {
                    let j = choose|j: int| 0 <= j < self@.accounts.len() && self@.accounts[j] == a;
                    if j < idx {
                        assert(before.accounts[j] == a);
                    } else {
                        assert(before.accounts[j + 1] == a);
                    }
                }
                if before.accounts.contains(a) && a != account_id {
                    let j = choose|j: int| 0 <= j < before.accounts.len() && before.accounts[j] == a;
                    if j < idx {
                        assert(self@.accounts[j] == a);
                    } else {
                        assert(self@.accounts[j - 1] == a);
                    }
                }
            }
            assert forall|x: int, y: int| 0 <= x < self@.accounts.len() && 0 <= y < self@.accounts.len() && x != y
                implies self@.accounts[x] != self@.accounts[y] by {
                let bx = if x < idx { x } else { x + 1 };
                let by = if y < idx { y } else { y + 1 };
                assert(self@.accounts[x] == before.accounts[bx]);
                assert(self@.accounts[y] == before.accounts[by]);
            }
        }
        Ok(BeneficiaryRemoved { account_id })
    }

    /// The beneficiary record of `account_id`, or `AccountNotFound`.
    pub fn get_beneficiary(&self, account_id: AccountId) -> (r: Result<Beneficiary, Error>)
        requires
            self.wf(),
        ensures
            !self@.beneficiaries.contains_key(account_id) ==> r == Err::<Beneficiary, Error>(Error::AccountNotFound),
            self@.beneficiaries.contains_key(account_id) ==> (r matches Ok(b) && b@ == self@.beneficiaries[account_id]),
    {
        match self.beneficiaries.get(&account_id) {
            None => Err(Error::AccountNotFound),
            Some(b) => Ok(Beneficiary {
                account_id: b.account_id,
                multipliers: copy_weights(&b.multipliers),
                unclaimed_payments: b.unclaimed_payments,
                last_updated_period_block: b.last_updated_period_block,
            }),
        }
    }

    /// The accounts of all beneficiaries, in order.
    pub fn get_list_beneficiaries(&self) -> (r: Vec<AccountId>)
        ensures
            r@ == self@.accounts,
    {
        let mut r: Vec<AccountId> = Vec::new();
        let n = self.beneficiaries_accounts.len();
        for i in 0..n
            invariant
                n == self.beneficiaries_accounts.len(),
                r@ == self@.accounts.take(i as int),
        {
            r.push(self.beneficiaries_accounts[i]);
            proof {
                assert(r@ =~= self@.accounts.take(i + 1));
            }
        }
        proof {
            assert(self@.accounts.take(n as int) =~= self@.accounts);
        }
        r
    }

    /// Fails with `PaymentsNotUpToDate` unless every beneficiary has been settled
    /// in the period that contains `now`.
    pub fn ensure_all_payments_uptodate(&self, now: BlockNumber) -> (r: Result<(), Error>)
        requires
            self.wf(),
            self@.initial_block <= now,
        ensures
            r is Ok <==> forall|i: int| 0 <= i < self@.accounts.len()
                ==> self@.period_start_at(now as int) <= #[trigger] self@.beneficiaries[self@.accounts[i]].last_updated,
            r is Err ==> r == Err::<(), Error>(Error::PaymentsNotUpToDate),
    {
        let claimed_period_block = self.get_current_period_initial_block(now);
        let n = self.beneficiaries_accounts.len();
        for i in 0..n
            invariant
                n == self.beneficiaries_accounts.len(),
                self.wf(),
                claimed_period_block == self@.period_start_at(now as int),
                forall|j: int| 0 <= j < i ==> claimed_period_block <= #[trigger] self@.beneficiaries[self@.accounts[j]].last_updated,
        {
            let a = self.beneficiaries_accounts[i];
            proof {
                assert(self@.accounts.contains(a));
                assert(self@.beneficiaries.contains_key(a));
            }
            match self.beneficiaries.get(&a) {
                Some(b) => {
                    assert(self@.beneficiaries[self@.accounts[i as int]] == b@);
                    if claimed_period_block > b.last_updated_period_block {
                        assert(!(self@.period_start_at(now as int) <= self@.beneficiaries[self@.accounts[i as int]].last_updated));
                        return Err(Error::PaymentsNotUpToDate);
                    }
                },
                None => {},
            }
        }
        Ok(())
    }

    /// The accounts, in order, that have not been settled in the period that
    /// contains `now`.
    pub fn get_unclaimed_beneficiaries(&self, now: BlockNumber) -> (r: Vec<AccountId>)
        requires
            self.wf(),
            self@.initial_block <= now,
        ensures
            r@ == self@.pending_accounts(self@.accounts, now as int),
    {
        let claiming_period_block = self.get_current_period_initial_block(now);
        let ghost accounts = self@.accounts;
        let mut r: Vec<AccountId> = Vec::new();
        let n = self.beneficiaries_accounts.len();
        for i in 0..n
            invariant
                n == self.beneficiaries_accounts.len(),
                accounts == self@.accounts,
                self.wf(),
                claiming_period_block == self@.period_start_at(now as int),
                r@ == self@.pending_accounts(accounts.take(i as int), now as int),
        {
            let a = self.beneficiaries_accounts[i];
            proof {
                assert(accounts.take(i + 1).drop_last() =~= accounts.take(i as int));
                assert(self@.accounts.contains(a));
                assert(self@.beneficiaries.contains_key(a));
            }
            match self.beneficiaries.get(&a) {
                Some(b) => {
                    assert(accounts.take(i + 1).last() == a);
                    assert(self@.beneficiaries[a] == b@);
                    if b.last_updated_period_block < claiming_period_block {
                        r.push(a);
                    }
                },
                None => {},
            }
        }
        proof {
            assert(accounts.take(n as int) =~= accounts);
        }
        r
    }

    /// How many beneficiaries have not been settled in the period that contains
    /// `now`.
    pub fn get_count_of_unclaim_beneficiaries(&self, now: BlockNumber) -> (r: u8)
        requires
            self.wf(),
            self@.initial_block <= now,
        ensures
            r == self@.pending_accounts(self@.accounts, now as int).len(),
    {
        let claiming_period_block = self.get_current_period_initial_block(now);
        let ghost accounts = self@.accounts;
        let mut total: u8 = 0;
        let n = self.beneficiaries_accounts.len();
        for i in 0..n
            invariant
                n == self.beneficiaries_accounts.len(),
                n <= MAX_BENEFICIARIES,
                accounts == self@.accounts,
                self.wf(),
                claiming_period_block == self@.period_start_at(now as int),
                total == self@.pending_accounts(accounts.take(i as int), now as int).len(),
                total <= i,
        {
            let a = self.beneficiaries_accounts[i];
            proof {
                assert(accounts.take(i + 1).drop_last() =~= accounts.take(i as int));
                assert(self@.accounts.contains(a));
                assert(self@.beneficiaries.contains_key(a));
            }
            match self.beneficiaries.get(&a) {
                Some(b) => {
                    assert(accounts.take(i + 1).last() == a);
                    assert(self@.beneficiaries[a] == b@);
                    if b.last_updated_period_block < claiming_period_block {
                        total = total + 1;
                    }
                },
                None => {},
            }
        }
        proof {
            assert(accounts.take(n as int) =~= accounts);
        }
        total
    }
}

} // verus!
