use std::collections::BTreeMap;
use vstd::prelude::*;

use crate::accrual::{check_no_duplicate_beneficiaries, check_no_duplicate_multipliers, copy_weights, ids_distinct};
use crate::errors::Error;
use crate::payroll::{OpenPayroll, PayrollModel};
use crate::types::{
    AccountId, BaseMultiplier, Beneficiary, MultiplierId, PayrollParts, MAX_BENEFICIARIES, MAX_MULTIPLIERS,
};

verus! {

broadcast use vstd::std_specs::btree::group_btree_axioms, vstd::laws_cmp::group_laws_cmp;

/// The accounts of beneficiary records, in order.
pub open spec fn record_accounts(bs: Seq<Beneficiary>) -> Seq<AccountId> {
    Seq::new(bs.len(), |i: int| bs[i].account_id)
}

/// The ids of registry entries, in order.
pub open spec fn entry_ids(ms: Seq<(MultiplierId, BaseMultiplier)>) -> Seq<MultiplierId> {
    Seq::new(ms.len(), |i: int| ms[i].0)
}

/// Whether stored parts describe a payroll that satisfies the invariant.
pub open spec fn parts_valid(parts: PayrollParts) -> bool {
    &&& parts.periodicity > 0
    &&& parts.base_payment > 0
    &&& record_accounts(parts.beneficiaries@).no_duplicates()
    &&& parts.beneficiaries@.len() <= MAX_BENEFICIARIES
    &&& forall|i: int| 0 <= i < parts.beneficiaries@.len() ==> ids_distinct(#[trigger] parts.beneficiaries@[i].multipliers@)
    &&& entry_ids(parts.multipliers@).no_duplicates()
    &&& parts.multipliers@.len() <= MAX_MULTIPLIERS
    &&& forall|i: int| 0 <= i < parts.multipliers@.len() ==> #[trigger] parts.multipliers@[i].0 < parts.next_multiplier_id
    &&& parts.claims_in_period.total_claims <= parts.beneficiaries@.len()
}

/// Whether `parts` hold exactly what payroll `s` holds, in list order.
pub open spec fn describes(parts: PayrollParts, s: PayrollModel) -> bool {
    &&& parts.owner == s.owner
    &&& parts.proposed_owner == s.proposed_owner
    &&& parts.paused_block_at == s.paused_block_at
    &&& parts.periodicity == s.periodicity
    &&& parts.base_payment == s.base_payment
    &&& parts.initial_block == s.initial_block
    &&& parts.next_multiplier_id == s.next_multiplier_id
    &&& parts.claims_in_period == s.claims
    &&& record_accounts(parts.beneficiaries@) == s.accounts
    &&& forall|i: int| 0 <= i < parts.beneficiaries@.len() ==> #[trigger] s.beneficiaries[parts.beneficiaries@[i].account_id] == parts.beneficiaries@[i]@
    &&& entry_ids(parts.multipliers@) == s.multiplier_ids
    &&& forall|i: int| 0 <= i < parts.multipliers@.len() ==> #[trigger] s.multipliers[parts.multipliers@[i].0] == parts.multipliers@[i].1@
}

/// The parts of a payroll are valid, and they determine the payroll: two
/// payrolls that both satisfy the invariant and are described by the same parts
/// are equal. So rebuilding a payroll from its stored parts gives it back.
pub proof fn lemma_parts_determine_payroll(parts: PayrollParts, s: PayrollModel, t: PayrollModel)
    requires
        s.inv(),
        t.inv(),
        describes(parts, s),
        describes(parts, t),
    ensures
        parts_valid(parts),
        s == t,
{
    let bs = parts.beneficiaries@;
    let ms = parts.multipliers@;
    assert forall|i: int| 0 <= i < bs.len() implies ids_distinct(#[trigger] bs[i].multipliers@) by {
        assert(s.accounts[i] == bs[i].account_id);
        assert(s.accounts.contains(bs[i].account_id));
        assert(s.beneficiaries.contains_key(bs[i].account_id));
    }
    assert forall|i: int| 0 <= i < ms.len() implies #[trigger] ms[i].0 < parts.next_multiplier_id by {
        assert(s.multiplier_ids[i] == ms[i].0);
        assert(s.multiplier_ids.contains(ms[i].0));
        assert(s.multipliers.contains_key(ms[i].0));
    }
    assert(s.beneficiaries =~= t.beneficiaries) by {
        assert forall|a: AccountId| #[trigger] s.beneficiaries.contains_key(a) <==> t.beneficiaries.contains_key(a) by {
            assert(s.accounts.contains(a) <==> t.accounts.contains(a));
        }
        assert forall|a: AccountId| #[trigger] s.beneficiaries.contains_key(a) implies s.beneficiaries[a] == t.beneficiaries[a] by {
            let k = choose|k: int| 0 <= k < s.accounts.len() && s.accounts[k] == a;
            assert(bs[k].account_id == a);
        }
    }
    assert(s.multipliers =~= t.multipliers) by {
        assert forall|id: MultiplierId| #[trigger] s.multipliers.contains_key(id) <==> t.multipliers.contains_key(id) by {
            assert(s.multiplier_ids.contains(id) <==> t.multiplier_ids.contains(id));
        }
        assert forall|id: MultiplierId| #[trigger] s.multipliers.contains_key(id) implies s.multipliers[id] == t.multipliers[id] by {
            let k = choose|k: int| 0 <= k < s.multiplier_ids.len() && s.multiplier_ids[k] == id;
            assert(ms[k].0 == id);
        }
    }
}

/// Returns whether no id appears twice in `ids`.
fn ids_unique(ids: &Vec<MultiplierId>) -> (r: bool)
    ensures
        r == ids@.no_duplicates(),
{
    let n = ids.len();
    for i in 0..n
        invariant
            n == ids.len(),
            forall|a: int, b: int| 0 <= a < b < ids.len() && a < i ==> #[trigger] ids@[a] != #[trigger] ids@[b],
    {
        for j in i + 1..n
            invariant
                n == ids.len(),
                i < n,
                forall|a: int, b: int| 0 <= a < b < ids.len() && a < i ==> #[trigger] ids@[a] != #[trigger] ids@[b],
                forall|b: int| i < b < j ==> ids@[i as int] != #[trigger] ids@[b],
        {
            if ids[i] == ids[j] {
                return false;
            }
        }
    }
    proof {
        assert forall|a: int, b: int| 0 <= a < ids.len() && 0 <= b < ids.len() && a != b implies ids@[a] != ids@[b] by {
            if a > b {
                assert(ids@[b] != ids@[a]);
            }
        }
    }
    true
}

impl OpenPayroll {
    /// Everything the payroll holds, as plain values in list order.
    pub fn to_parts(&self) -> (r: PayrollParts)
        requires
            self.wf(),
        ensures
            describes(r, self@),
    {
        let mut beneficiaries: Vec<Beneficiary> = Vec::new();
        let n = self.beneficiaries_accounts.len();
        for i in 0..n
            invariant
                n == self.beneficiaries_accounts.len(),
                self.wf(),
                beneficiaries@.len() == i,
                record_accounts(beneficiaries@) == self@.accounts.take(i as int),
                forall|k: int| 0 <= k < i ==> #[trigger] beneficiaries@[k]@ == self@.beneficiaries[self@.accounts[k]],
        {
            let a = self.beneficiaries_accounts[i];
            proof {
                assert(self@.accounts.contains(a));
                assert(self@.beneficiaries.contains_key(a));
            }
            match self.beneficiaries.get(&a) {
                Some(b) => {
                    beneficiaries.push(Beneficiary {
                        account_id: b.account_id,
                        multipliers: copy_weights(&b.multipliers),
                        unclaimed_payments: b.unclaimed_payments,
                        last_updated_period_block: b.last_updated_period_block,
                    });
                },
                None => {
                    assert(false);
                },
            }
            proof {
                assert(record_accounts(beneficiaries@) =~= self@.accounts.take(i + 1));
            }
        }
        proof {
            assert(self@.accounts.take(n as int) =~= self@.accounts);
        }
        let mut multipliers: Vec<(MultiplierId, BaseMultiplier)> = Vec::new();
        let nm = self.multipliers_list.len();
        for i in 0..nm
            invariant
                nm == self.multipliers_list.len(),
                self.wf(),
                multipliers@.len() == i,
                entry_ids(multipliers@) == self@.multiplier_ids.take(i as int),
                forall|k: int| 0 <= k < i ==> #[trigger] multipliers@[k].1@ == self@.multipliers[self@.multiplier_ids[k]],
        {
            let id = self.multipliers_list[i];
            proof {
                assert(self@.multiplier_ids.contains(id));
                assert(self@.multipliers.contains_key(id));
            }
            match self.base_multipliers.get(&id) {
                Some(m) => {
                    multipliers.push((id, BaseMultiplier { name: m.name.clone(), valid_until_block: m.valid_until_block }));
                },
                None => {
                    assert(false);
                },
            }
            proof {
                assert(entry_ids(multipliers@) =~= self@.multiplier_ids.take(i + 1));
            }
        }
        proof {
            assert(self@.multiplier_ids.take(nm as int) =~= self@.multiplier_ids);
        }
        PayrollParts {
            owner: self.owner,
            proposed_owner: self.proposed_owner,
            paused_block_at: self.paused_block_at,
            periodicity: self.periodicity,
            base_payment: self.base_payment,
            initial_block: self.initial_block,
            next_multiplier_id: self.next_multiplier_id,
            multipliers,
            beneficiaries,
            claims_in_period: self.claims_in_period,
        }
    }

    /// Rebuilds a payroll from stored parts; `InvalidParams` when they break the
    /// payroll's invariant.
    pub fn from_parts(parts: PayrollParts) -> (r: Result<Self, Error>)
        ensures
            r is Ok <==> parts_valid(parts),
            r is Err ==> r == Err::<Self, Error>(Error::InvalidParams),
            r matches Ok(p) ==> p.wf() && describes(parts, p@),
    {
        let ghost bs = parts.beneficiaries@;
        let ghost ms = parts.multipliers@;
        if parts.periodicity == 0 || parts.base_payment == 0 {
            return Err(Error::InvalidParams);
        }
        let nb = parts.beneficiaries.len();
        if nb > MAX_BENEFICIARIES {
            return Err(Error::InvalidParams);
        }
        let mut accounts: Vec<AccountId> = Vec::new();
        for i in 0..nb
            invariant
                nb == parts.beneficiaries.len(),
                bs == parts.beneficiaries@,
                accounts@ == record_accounts(bs).take(i as int),
                forall|k: int| 0 <= k < i ==> ids_distinct(#[trigger] bs[k].multipliers@),
        {
            if check_no_duplicate_multipliers(&parts.beneficiaries[i].multipliers).is_err() {
                return Err(Error::InvalidParams);
            }
            accounts.push(parts.beneficiaries[i].account_id);
            proof {
                assert(accounts@ =~= record_accounts(bs).take(i + 1));
            }
        }
        proof {
            assert(record_accounts(bs).take(nb as int) =~= record_accounts(bs));
        }
        if check_no_duplicate_beneficiaries(&accounts).is_err() {
            return Err(Error::InvalidParams);
        }
        let nm = parts.multipliers.len();
        if nm > MAX_MULTIPLIERS {
            return Err(Error::InvalidParams);
        }
        let mut ids: Vec<MultiplierId> = Vec::new();
        for i in 0..nm
            invariant
                nm == parts.multipliers.len(),
                ms == parts.multipliers@,
                ids@ == entry_ids(ms).take(i as int),
                forall|k: int| 0 <= k < i ==> #[trigger] ms[k].0 < parts.next_multiplier_id,
        {
            if parts.multipliers[i].0 >= parts.next_multiplier_id {
                return Err(Error::InvalidParams);
            }
            ids.push(parts.multipliers[i].0);
            proof {
                assert(ids@ =~= entry_ids(ms).take(i + 1));
            }
        }
        proof {
            assert(entry_ids(ms).take(nm as int) =~= entry_ids(ms));
        }
        if !ids_unique(&ids) {
            return Err(Error::InvalidParams);
        }
        if parts.claims_in_period.total_claims as usize > nb {
            return Err(Error::InvalidParams);
        }

        let mut base_multipliers: BTreeMap<MultiplierId, BaseMultiplier> = BTreeMap::new();
        for i in 0..nm
            invariant
                nm == parts.multipliers.len(),
                ms == parts.multipliers@,
                ids@ == entry_ids(ms),
                ids@.no_duplicates(),
                forall|id: MultiplierId| #[trigger] base_multipliers@.contains_key(id) <==> ids@.take(i as int).contains(id),
                forall|k: int| 0 <= k < i ==> #[trigger] base_multipliers@[ms[k].0]@ == ms[k].1@,
        {
            let (id, m) = (parts.multipliers[i].0, &parts.multipliers[i].1);
            base_multipliers.insert(id, BaseMultiplier { name: m.name.clone(), valid_until_block: m.valid_until_block });
            proof {
                let t0 = ids@.take(i as int);
                let t1 = ids@.take(i + 1);
                assert(ids@[i as int] == id);
                assert forall|x: MultiplierId| #[trigger] base_multipliers@.contains_key(x) <==> t1.contains(x) by {
                    if x == id {
                        assert(t1[i as int] == x);
                    } else if t0.contains(x) {
                        let j = choose|j: int| 0 <= j < t0.len() && t0[j] == x;
                        assert(t1[j] == x);
                    } else if t1.contains(x) {
                        let j = choose|j: int| 0 <= j < t1.len() && t1[j] == x;
                        assert(t0[j] == x);
                    }
                }
                assert forall|k: int| 0 <= k < i + 1 implies #[trigger] base_multipliers@[ms[k].0]@ == ms[k].1@ by {
                    if k < i {
                        assert(ids@[k] == ms[k].0);
                        assert(ids@[k] != ids@[i as int]);
                    }
                }
            }
        }

        let mut beneficiaries: BTreeMap<AccountId, Beneficiary> = BTreeMap::new();
        for i in 0..nb
            invariant
                nb == parts.beneficiaries.len(),
                bs == parts.beneficiaries@,
                accounts@ == record_accounts(bs),
                accounts@.no_duplicates(),
                forall|a: AccountId| #[trigger] beneficiaries@.contains_key(a) <==> accounts@.take(i as int).contains(a),
                forall|k: int| 0 <= k < i ==> #[trigger] beneficiaries@[bs[k].account_id]@ == bs[k]@,
        {
            let b = &parts.beneficiaries[i];
            let a = b.account_id;
            beneficiaries.insert(a, Beneficiary {
                account_id: a,
                multipliers: copy_weights(&b.multipliers),
                unclaimed_payments: b.unclaimed_payments,
                last_updated_period_block: b.last_updated_period_block,
            });
            proof {
                let t0 = accounts@.take(i as int);
                let t1 = accounts@.take(i + 1);
                assert(accounts@[i as int] == a);
                assert forall|x: AccountId| #[trigger] beneficiaries@.contains_key(x) <==> t1.contains(x) by {
                    if x == a {
                        assert(t1[i as int] == x);
                    } else if t0.contains(x) {
                        let j = choose|j: int| 0 <= j < t0.len() && t0[j] == x;
                        assert(t1[j] == x);
                    } else if t1.contains(x) {
                        let j = choose|j: int| 0 <= j < t1.len() && t1[j] == x;
                        assert(t0[j] == x);
                    }
                }
                assert forall|k: int| 0 <= k < i + 1 implies #[trigger] beneficiaries@[bs[k].account_id]@ == bs[k]@ by {
                    if k < i {
                        assert(accounts@[k] == bs[k].account_id);
                        assert(accounts@[k] != accounts@[i as int]);
                    }
                }
            }
        }
        proof {
            assert(accounts@.take(nb as int) =~= accounts@);
            assert(ids@.take(nm as int) =~= ids@);
        }
        let p = OpenPayroll {
            proposed_owner: parts.proposed_owner,
            owner: parts.owner,
            beneficiaries,
            beneficiaries_accounts: accounts,
            periodicity: parts.periodicity,
            base_payment: parts.base_payment,
            initial_block: parts.initial_block,
            paused_block_at: parts.paused_block_at,
            next_multiplier_id: parts.next_multiplier_id,
            base_multipliers,
            multipliers_list: ids,
            claims_in_period: parts.claims_in_period,
        };
        proof {
            assert forall|i: int| 0 <= i < bs.len() implies #[trigger] p@.beneficiaries[bs[i].account_id] == bs[i]@ by {
                assert(accounts@[i] == bs[i].account_id);
                assert(p.beneficiaries@.contains_key(bs[i].account_id));
            }
            assert forall|a: AccountId| #[trigger] p@.beneficiaries.contains_key(a) implies {
                &&& p@.beneficiaries[a].account_id == a
                &&& ids_distinct(p@.beneficiaries[a].multipliers)
            } by {
                let k = choose|k: int| 0 <= k < accounts@.len() && accounts@[k] == a;
                assert(bs[k].account_id == a);
                assert(ids_distinct(bs[k].multipliers@));
            }
            assert forall|i: int| 0 <= i < ms.len() implies #[trigger] p@.multipliers[ms[i].0] == ms[i].1@ by {
                assert(ids@[i] == ms[i].0);
                assert(p.base_multipliers@.contains_key(ms[i].0));
            }
            assert forall|id: MultiplierId| #[trigger] p@.multipliers.contains_key(id) implies id < p@.next_multiplier_id by {
                let k = choose|k: int| 0 <= k < ids@.len() && ids@[k] == id;
                assert(ms[k].0 == id);
            }
            assert(p@.inv());
        }
        Ok(p)
    }
}

} // verus!
