use vstd::prelude::*;

use crate::errors::Error;
use crate::payroll::{lemma_map_values_insert, lemma_map_values_remove, OpenPayroll, PayrollModel};
use crate::types::{
    AccountId, Balance, BaseMultiplier, BaseMultiplierAdded, BlockNumber, MultiplierDeactivated,
    MultiplierDeleted, MultiplierId, MultiplierModel, PeriodicityUpdated, MAX_MULTIPLIERS,
};

verus! {

broadcast use vstd::std_specs::btree::group_btree_axioms, vstd::laws_cmp::group_laws_cmp;

impl PayrollModel {
    /// Position of multiplier `id` in the id list.
    pub open spec fn multiplier_index(self, id: MultiplierId) -> int {
        choose|i: int| 0 <= i < self.multiplier_ids.len() && self.multiplier_ids[i] == id
    }
}

impl OpenPayroll {
    /// The owner registers an active multiplier named `name` under the next id.
    pub fn add_base_multiplier(&mut self, caller: AccountId, name: String) -> (r: Result<BaseMultiplierAdded, Error>)
        requires
            old(self).wf(),
        ensures
            final(self).wf(),
            ({
                let s = old(self)@;
                let id = s.next_multiplier_id;
                &&& caller != s.owner ==> r == Err::<BaseMultiplierAdded, Error>(Error::NotOwner)
                &&& caller == s.owner && s.multiplier_ids.len() + 1 > MAX_MULTIPLIERS ==> r == Err::<BaseMultiplierAdded, Error>(Error::MaxMultipliersExceeded)
                &&& caller == s.owner && s.multiplier_ids.len() + 1 <= MAX_MULTIPLIERS && id == u32::MAX ==> r == Err::<BaseMultiplierAdded, Error>(Error::Overflow)
                &&& r is Err ==> final(self)@ == s
                &&& caller == s.owner && s.multiplier_ids.len() + 1 <= MAX_MULTIPLIERS && id < u32::MAX ==> {
                    &&& r matches Ok(ev) && ev.multiplier_id == id && ev.name == name
                    &&& final(self)@ == (PayrollModel {
                        next_multiplier_id: (id + 1) as MultiplierId,
                        multiplier_ids: s.multiplier_ids.push(id),
                        multipliers: s.multipliers.insert(id, MultiplierModel { name: name@, valid_until: None }),
                        ..s
                    })
                }
            }),
    {
        self.ensure_owner(caller)?;
        if self.multipliers_list.len() + 1 > MAX_MULTIPLIERS {
            return Err(Error::MaxMultipliersExceeded);
        }
        let id = self.next_multiplier_id;
        let next = match id.checked_add(1) {
            Some(v) => v,
            None => return Err(Error::Overflow),
        };
        let base_multiplier = BaseMultiplier::new(name.clone());
        let ghost before = self@;
        proof {
            lemma_map_values_insert(self.base_multipliers@, id, base_multiplier, |m: BaseMultiplier| m@);
            if before.multiplier_ids.contains(id) {
                assert(before.multipliers.contains_key(id));
            }
        }
        self.base_multipliers.insert(id, base_multiplier);
        self.multipliers_list.push(id);
        self.next_multiplier_id = next;
        proof {
            assert forall|x: MultiplierId| #[trigger] self@.multipliers.contains_key(x) <==> self@.multiplier_ids.contains(x) by {
                if x == id {
                    assert(self@.multiplier_ids[self@.multiplier_ids.len() - 1] == x);
                } else if before.multiplier_ids.contains(x) {
                    let j = choose|j: int| 0 <= j < before.multiplier_ids.len() && before.multiplier_ids[j] == x;
                    assert(self@.multiplier_ids[j] == x);
                } else if self@.multiplier_ids.contains(x) {
                    let j = choose|j: int| 0 <= j < self@.multiplier_ids.len() && self@.multiplier_ids[j] == x;
                    assert(before.multiplier_ids[j] == x);
                }
            }
        }
        Ok(BaseMultiplierAdded { multiplier_id: id, name })
    }

    /// Deactivates multiplier `multiplier_id` at `now`: it keeps counting for the
    /// rest of the current period and stops at the start of the next one.
    pub fn deactivate_multiplier(&mut self, multiplier_id: MultiplierId, now: BlockNumber) -> (r: Result<MultiplierDeactivated, Error>)
        requires
            old(self).wf(),
            old(self)@.initial_block <= now,
        ensures
            final(self).wf(),
            ({
                let s = old(self)@;
                &&& !s.multipliers.contains_key(multiplier_id) ==> r == Err::<MultiplierDeactivated, Error>(Error::MultiplierNotFound)
                &&& s.multipliers.contains_key(multiplier_id) && s.multipliers[multiplier_id].valid_until is Some
                    ==> r == Err::<MultiplierDeactivated, Error>(Error::MultiplierAlreadyDeactivated)
                &&& s.multipliers.contains_key(multiplier_id) && s.multipliers[multiplier_id].valid_until is None
                    && s.next_period_start(now as int) > u32::MAX ==> r == Err::<MultiplierDeactivated, Error>(Error::Overflow)
                &&& r is Err ==> final(self)@ == s
                &&& s.multipliers.contains_key(multiplier_id) && s.multipliers[multiplier_id].valid_until is None
                    && s.next_period_start(now as int) <= u32::MAX ==> {
                    &&& r == Ok::<MultiplierDeactivated, Error>(MultiplierDeactivated {
                        multiplier_id,
                        valid_until_block: s.next_period_start(now as int) as BlockNumber,
                    })
                    &&& final(self)@ == (PayrollModel {
                        multipliers: s.multipliers.insert(
                            multiplier_id,
                            MultiplierModel {
                                valid_until: Some(s.next_period_start(now as int) as BlockNumber),
                                ..s.multipliers[multiplier_id]
                            },
                        ),
                        ..s
                    })
                }
            }),
    {
        let name = match self.base_multipliers.get(&multiplier_id) {
            None => return Err(Error::MultiplierNotFound),
            Some(m) => {
                if m.valid_until_block.is_some() {
                    return Err(Error::MultiplierAlreadyDeactivated);
                }
                m.name.clone()
            },
        };
        let valid_until_block = self.get_next_block_period(now)?;
        let m = BaseMultiplier { name, valid_until_block: Some(valid_until_block) };
        let ghost before = self@;
        proof {
            lemma_map_values_insert(self.base_multipliers@, multiplier_id, m, |m: BaseMultiplier| m@);
        }
        self.base_multipliers.insert(multiplier_id, m);
        proof {
            assert(self@.multipliers =~= before.multipliers.insert(
                multiplier_id,
                MultiplierModel { valid_until: Some(valid_until_block), ..before.multipliers[multiplier_id] },
            ));
        }
        Ok(MultiplierDeactivated { multiplier_id, valid_until_block })
    }

    /// Position of multiplier `id` in the id list, if it is there.
    fn find_multiplier(&self, id: MultiplierId) -> (r: Option<usize>)
        ensures
            match r {
                Some(i) => i < self@.multiplier_ids.len() && self@.multiplier_ids[i as int] == id,
                None => !self@.multiplier_ids.contains(id),
            },
    {
        let n = self.multipliers_list.len();
        for i in 0..n
            invariant
                n == self.multipliers_list.len(),
                forall|j: int| 0 <= j < i ==> self@.multiplier_ids[j] != id,
        {
            if self.multipliers_list[i] == id {
                return Some(i);
            }
        }
        None
    }

    /// Removes multiplier `multiplier_id` at `now`, once it is deactivated, its
    /// `valid_until` tick has passed, and every beneficiary has claimed in the
    /// current period. Beneficiaries may keep weights for it: a multiplier that is
    /// not registered never counts.
    pub fn delete_unused_multiplier(&mut self, multiplier_id: MultiplierId, now: BlockNumber) -> (r: Result<MultiplierDeleted, Error>)
        requires
            old(self).wf(),
            old(self)@.initial_block <= now,
        ensures
            final(self).wf(),
            ({
                let s = old(self)@;
                let m = s.multipliers[multiplier_id];
                let v = m.valid_until->Some_0;
                &&& !s.multipliers.contains_key(multiplier_id) ==> r == Err::<MultiplierDeleted, Error>(Error::MultiplierNotFound)
                &&& s.multipliers.contains_key(multiplier_id) && m.valid_until is None
                    ==> r == Err::<MultiplierDeleted, Error>(Error::MultiplierNotDeactivated)
                &&& s.multipliers.contains_key(multiplier_id) && m.valid_until is Some && now <= v
                    ==> r == Err::<MultiplierDeleted, Error>(Error::MultiplierNotExpired)
                &&& s.multipliers.contains_key(multiplier_id) && m.valid_until is Some && now > v
                    && !s.all_claimed_in_period(now as int) ==> r == Err::<MultiplierDeleted, Error>(Error::NotAllClaimedInPeriod)
                &&& r is Err ==> final(self)@ == s
                &&& s.multipliers.contains_key(multiplier_id) && m.valid_until is Some && now > v
                    && s.all_claimed_in_period(now as int) ==> {
                    &&& r == Ok::<MultiplierDeleted, Error>(MultiplierDeleted { multiplier_id, valid_until_block: v })
                    &&& final(self)@ == (PayrollModel {
                        multiplier_ids: s.multiplier_ids.remove(s.multiplier_index(multiplier_id)),
                        multipliers: s.multipliers.remove(multiplier_id),
                        ..s
                    })
                }
            }),
    {
        let valid_until_block = match self.base_multipliers.get(&multiplier_id) {
            None => return Err(Error::MultiplierNotFound),
            Some(m) => match m.valid_until_block {
                None => return Err(Error::MultiplierNotDeactivated),
                Some(v) => v,
            },
        };
        if now <= valid_until_block {
            return Err(Error::MultiplierNotExpired);
        }
        self.ensure_all_claimed_in_period(now)?;
        let idx = match self.find_multiplier(multiplier_id) {
            Some(i) => i,
            None => return Err(Error::MultiplierNotFound),
        };
        let ghost before = self@;
        proof {
            lemma_map_values_remove(self.base_multipliers@, multiplier_id, |m: BaseMultiplier| m@);
            let k = before.multiplier_index(multiplier_id);
            assert(before.multiplier_ids[k] == multiplier_id);
            assert(k == idx);
        }
        self.base_multipliers.remove(&multiplier_id);
        self.multipliers_list.remove(idx);
        proof {
            assert forall|x: MultiplierId| #[trigger] self@.multipliers.contains_key(x) <==> self@.multiplier_ids.contains(x) by {
                if self@.multiplier_ids.contains(x) {
                    let j = choose|j: int| 0 <= j < self@.multiplier_ids.len() && self@.multiplier_ids[j] == x;
                    if j < idx {
                        assert(before.multiplier_ids[j] == x);
                    } else {
                        assert(before.multiplier_ids[j + 1] == x);
                    }
                }
                if before.multiplier_ids.contains(x) && x != multiplier_id {
                    let j = choose|j: int| 0 <= j < before.multiplier_ids.len() && before.multiplier_ids[j] == x;
                    if j < idx {
                        assert(self@.multiplier_ids[j] == x);
                    } else {
                        assert(self@.multiplier_ids[j - 1] == x);
                    }
                }
            }
            assert forall|x: int, y: int| 0 <= x < self@.multiplier_ids.len() && 0 <= y < self@.multiplier_ids.len() && x != y
                implies self@.multiplier_ids[x] != self@.multiplier_ids[y] by {
                let bx = if x < idx { x } else { x + 1 };
                let by = if y < idx { y } else { y + 1 };
                assert(self@.multiplier_ids[x] == before.multiplier_ids[bx]);
                assert(self@.multiplier_ids[y] == before.multiplier_ids[by]);
            }
        }
        Ok(MultiplierDeleted { multiplier_id, valid_until_block })
    }

    /// The owner sets the base payment at `now`, once every beneficiary has claimed
    /// in the current period.
    pub fn update_base_payment(&mut self, caller: AccountId, base_payment: Balance, now: BlockNumber) -> (r: Result<(), Error>)
        requires
            old(self).wf(),
            old(self)@.initial_block <= now,
        ensures
            final(self).wf(),
            ({
                let s = old(self)@;
                &&& caller != s.owner ==> r == Err::<(), Error>(Error::NotOwner)
                &&& caller == s.owner && base_payment == 0 ==> r == Err::<(), Error>(Error::InvalidParams)
                &&& caller == s.owner && base_payment > 0 && !s.all_claimed_in_period(now as int)
                    ==> r == Err::<(), Error>(Error::NotAllClaimedInPeriod)
                &&& r is Err ==> final(self)@ == s
                &&& caller == s.owner && base_payment > 0 && s.all_claimed_in_period(now as int)
                    ==> r == Ok::<(), Error>(()) && final(self)@ == (PayrollModel { base_payment, ..s })
            }),
    {
        self.ensure_owner(caller)?;
        if base_payment == 0 {
            return Err(Error::InvalidParams);
        }
        self.ensure_all_claimed_in_period(now)?;
        self.base_payment = base_payment;
        Ok(())
    }

    /// The owner sets the period width at `now`, once every beneficiary has
    /// claimed in the current period.
    pub fn update_periodicity(&mut self, caller: AccountId, periodicity: u32, now: BlockNumber) -> (r: Result<PeriodicityUpdated, Error>)
        requires
            old(self).wf(),
            old(self)@.initial_block <= now,
        ensures
            final(self).wf(),
            ({
                let s = old(self)@;
                &&& caller != s.owner ==> r == Err::<PeriodicityUpdated, Error>(Error::NotOwner)
                &&& caller == s.owner && periodicity == 0 ==> r == Err::<PeriodicityUpdated, Error>(Error::InvalidParams)
                &&& caller == s.owner && periodicity > 0 && !s.all_claimed_in_period(now as int)
                    ==> r == Err::<PeriodicityUpdated, Error>(Error::NotAllClaimedInPeriod)
                &&& r is Err ==> final(self)@ == s
                &&& caller == s.owner && periodicity > 0 && s.all_claimed_in_period(now as int)
                    ==> r == Ok::<PeriodicityUpdated, Error>(PeriodicityUpdated { periodicity })
                        && final(self)@ == (PayrollModel { periodicity, ..s })
            }),
    {
        self.ensure_owner(caller)?;
        if periodicity == 0 {
            return Err(Error::InvalidParams);
        }
        self.ensure_all_claimed_in_period(now)?;
        self.periodicity = periodicity;
        Ok(PeriodicityUpdated { periodicity })
    }

    /// The ids of all registered multipliers, in order of registration.
    pub fn get_multipliers_list(&self) -> (r: Vec<MultiplierId>)
        ensures
            r@ == self@.multiplier_ids,
    {
        let mut r: Vec<MultiplierId> = Vec::new();
        let n = self.multipliers_list.len();
        for i in 0..n
            invariant
                n == self.multipliers_list.len(),
                r@ == self@.multiplier_ids.take(i as int),
        {
            r.push(self.multipliers_list[i]);
            proof {
                assert(r@ =~= self@.multiplier_ids.take(i + 1));
            }
        }
        proof {
            assert(self@.multiplier_ids.take(n as int) =~= self@.multiplier_ids);
        }
        r
    }

    /// The multiplier registered under `multiplier_id`, if any.
    pub fn get_base_multiplier(&self, multiplier_id: MultiplierId) -> (r: Option<BaseMultiplier>)
        ensures
            !self@.multipliers.contains_key(multiplier_id) ==> r is None,
            self@.multipliers.contains_key(multiplier_id) ==> (r matches Some(m) && m@ == self@.multipliers[multiplier_id]),
    {
        match self.base_multipliers.get(&multiplier_id) {
            None => None,
            Some(m) => Some(BaseMultiplier { name: m.name.clone(), valid_until_block: m.valid_until_block }),
        }
    }
}

} // verus!
