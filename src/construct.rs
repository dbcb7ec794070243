use std::collections::BTreeMap;
use vstd::prelude::*;

use crate::accrual::{check_no_duplicate_beneficiaries, check_no_duplicate_multipliers, copy_weights, ids_distinct};
use crate::errors::Error;
use crate::payroll::OpenPayroll;
use crate::types::{
    AccountId, Balance, BaseMultiplier, Beneficiary, BeneficiaryModel, BlockNumber, ClaimsInPeriod,
    InitialBeneficiary, Multiplier, MultiplierId, MultiplierModel, MAX_BENEFICIARIES, MAX_MULTIPLIERS,
};

verus! {

broadcast use vstd::std_specs::btree::group_btree_axioms, vstd::laws_cmp::group_laws_cmp;

/// The accounts of the initial beneficiaries, in order.
pub open spec fn accounts_of(bs: Seq<InitialBeneficiary>) -> Seq<AccountId> {
    Seq::new(bs.len(), |i: int| bs[i].account_id)
}

/// Every weight of the list is for one of the multipliers with ids below `n`.
pub open spec fn ids_below(ws: Seq<(MultiplierId, Multiplier)>, n: int) -> bool {
    forall|i: int| 0 <= i < ws.len() ==> #[trigger] ws[i].0 < n
}

/// Checks that each initial beneficiary carries `n` weights, for multipliers among
/// the `n` registered, with distinct ids; the first one that does not decides the
/// error.
pub open spec fn initial_weights_check(bs: Seq<InitialBeneficiary>, n: int) -> Result<(), Error>
    decreases bs.len(),
{
    if bs.len() == 0 {
        Ok(())
    } else if initial_weights_check(bs.drop_last(), n) is Err {
        initial_weights_check(bs.drop_last(), n)
    } else if bs.last().multipliers@.len() != n {
        Err(Error::InvalidMultipliersLength)
    } else if !ids_below(bs.last().multipliers@, n) {
        Err(Error::MultiplierNotFound)
    } else if !ids_distinct(bs.last().multipliers@) {
        Err(Error::DuplicatedMultipliers)
    } else {
        Ok(())
    }
}

/// What constructing a payroll fails with, if anything: a zero base payment or
/// periodicity, a repeated account, too many beneficiaries, too many
/// multipliers, then a malformed weight list, in that order.
pub open spec fn construction_check(
    periodicity: u32,
    base_payment: Balance,
    n_multipliers: int,
    bs: Seq<InitialBeneficiary>,
) -> Result<(), Error> {
    if base_payment == 0 || periodicity == 0 {
        Err(Error::InvalidParams)
    } else if !accounts_of(bs).no_duplicates() {
        Err(Error::DuplicatedBeneficiaries)
    } else if bs.len() > MAX_BENEFICIARIES {
        Err(Error::MaxBeneficiariesExceeded)
    } else if n_multipliers > MAX_MULTIPLIERS {
        Err(Error::MaxMultipliersExceeded)
    } else {
        initial_weights_check(bs, n_multipliers)
    }
}

/// A failing prefix decides the check of all initial beneficiaries.
proof fn lemma_initial_weights_check_prefix(bs: Seq<InitialBeneficiary>, n: int, i: int)
    requires
        0 <= i <= bs.len(),
        initial_weights_check(bs.take(i), n) is Err,
    ensures
        initial_weights_check(bs, n) == initial_weights_check(bs.take(i), n),
    decreases bs.len(),
{
    if i < bs.len() {
        assert(bs.drop_last().take(i) =~= bs.take(i));
        lemma_initial_weights_check_prefix(bs.drop_last(), n, i);
    } else {
        assert(bs.take(i) =~= bs);
    }
}

/// Returns whether every weight of `ws` is for a multiplier id below `n`.
fn weights_below(ws: &Vec<(MultiplierId, Multiplier)>, n: usize) -> (r: bool)
    ensures
        r == ids_below(ws@, n as int),
{
    let len = ws.len();
    for i in 0..len
        invariant
            len == ws.len(),
            forall|k: int| 0 <= k < i ==> #[trigger] ws@[k].0 < n,
    {
        if ws[i].0 as usize >= n {
            return false;
        }
    }
    true
}

impl OpenPayroll {
    /// Creates a payroll at tick `now`, owned by `caller`, paying `base_payment`
    /// every `periodicity` ticks. The multipliers named in
    /// `initial_base_multipliers` get the ids 0, 1, ... in order; each initial
    /// beneficiary joins with its weights, nothing unclaimed, and settled up to
    /// `now`.
    pub fn new(
        caller: AccountId,
        now: BlockNumber,
        periodicity: u32,
        base_payment: Balance,
        initial_base_multipliers: Vec<String>,
        initial_beneficiaries: Vec<InitialBeneficiary>,
    ) -> (r: Result<Self, Error>)
        ensures
            r is Ok <==> construction_check(periodicity, base_payment, initial_base_multipliers.len() as int, initial_beneficiaries@) is Ok,
            r matches Err(e) ==> construction_check(periodicity, base_payment, initial_base_multipliers.len() as int, initial_beneficiaries@) == Err::<(), Error>(e),
            r matches Ok(p) ==> {
                let bs = initial_beneficiaries@;
                let names = initial_base_multipliers@;
                &&& p.wf()
                &&& p@.owner == caller
                &&& p@.proposed_owner is None
                &&& p@.paused_block_at is None
                &&& p@.periodicity == periodicity
                &&& p@.base_payment == base_payment
                &&& p@.initial_block == now
                &&& p@.next_multiplier_id == names.len()
                &&& p@.claims == (ClaimsInPeriod { period: 0, total_claims: 0 })
                &&& p@.accounts == accounts_of(bs)
                &&& forall|i: int| 0 <= i < bs.len() ==> #[trigger] p@.beneficiaries[bs[i].account_id] == (BeneficiaryModel {
                    account_id: bs[i].account_id,
                    multipliers: bs[i].multipliers@,
                    unclaimed: 0,
                    last_updated: now,
                })
                &&& p@.multiplier_ids == Seq::new(names.len(), |i: int| i as MultiplierId)
                &&& forall|i: int| 0 <= i < names.len() ==> #[trigger] p@.multipliers[i as MultiplierId] == (MultiplierModel {
                    name: names[i]@,
                    valid_until: None,
                })
            },
    {
        if base_payment == 0 || periodicity == 0 {
            return Err(Error::InvalidParams);
        }
        let ghost bs = initial_beneficiaries@;
        let nb = initial_beneficiaries.len();
        let mut accounts: Vec<AccountId> = Vec::new();
        for i in 0..nb
            invariant
                nb == initial_beneficiaries.len(),
                bs == initial_beneficiaries@,
                accounts@ == accounts_of(bs).take(i as int),
        {
            accounts.push(initial_beneficiaries[i].account_id);
            proof {
                assert(accounts@ =~= accounts_of(bs).take(i + 1));
            }
        }
        proof {
            assert(accounts_of(bs).take(nb as int) =~= accounts_of(bs));
        }
        check_no_duplicate_beneficiaries(&accounts)?;
        if nb > MAX_BENEFICIARIES {
            return Err(Error::MaxBeneficiariesExceeded);
        }
        let nm = initial_base_multipliers.len();
        if nm > MAX_MULTIPLIERS {
            return Err(Error::MaxMultipliersExceeded);
        }

        let mut base_multipliers: BTreeMap<MultiplierId, BaseMultiplier> = BTreeMap::new();
        let mut multipliers_list: Vec<MultiplierId> = Vec::new();
        let mut next_multiplier_id: MultiplierId = 0;
        for i in 0..nm
            invariant
                nm == initial_base_multipliers.len(),
                nm <= MAX_MULTIPLIERS,
                next_multiplier_id == i,
                multipliers_list@ == Seq::new(i as nat, |k: int| k as MultiplierId),
                forall|id: MultiplierId| #[trigger] base_multipliers@.contains_key(id) <==> id < i,
                forall|k: int| 0 <= k < i ==> #[trigger] base_multipliers@[k as MultiplierId]@ == (MultiplierModel {
                    name: initial_base_multipliers@[k]@,
                    valid_until: None,
                }),
        {
            base_multipliers.insert(next_multiplier_id, BaseMultiplier::new(initial_base_multipliers[i].clone()));
            multipliers_list.push(next_multiplier_id);
            next_multiplier_id = next_multiplier_id + 1;
            proof {
                assert(multipliers_list@ =~= Seq::new((i + 1) as nat, |k: int| k as MultiplierId));
            }
        }

        let mut beneficiaries: BTreeMap<AccountId, Beneficiary> = BTreeMap::new();
        for i in 0..nb
            invariant
                nb == initial_beneficiaries.len(),
                nm == initial_base_multipliers.len(),
                bs == initial_beneficiaries@,
                accounts@ == accounts_of(bs),
                accounts@.no_duplicates(),
                nb <= MAX_BENEFICIARIES,
                nm <= MAX_MULTIPLIERS,
                base_payment > 0,
                periodicity > 0,
                initial_weights_check(bs.take(i as int), nm as int) is Ok,
                forall|a: AccountId| #[trigger] beneficiaries@.contains_key(a) <==> accounts@.take(i as int).contains(a),
                forall|k: int| 0 <= k < i ==> #[trigger] beneficiaries@[bs[k].account_id]@ == (BeneficiaryModel {
                    account_id: bs[k].account_id,
                    multipliers: bs[k].multipliers@,
                    unclaimed: 0,
                    last_updated: now,
                }),
        {
            let ib = &initial_beneficiaries[i];
            proof {
                assert(bs.take(i + 1).drop_last() =~= bs.take(i as int));
                assert(bs.take(i + 1).last() == bs[i as int]);
            }
            if ib.multipliers.len() != nm {
                proof {
                    lemma_initial_weights_check_prefix(bs, nm as int, i + 1);
                }
                return Err(Error::InvalidMultipliersLength);
            }
            if !weights_below(&ib.multipliers, nm) {
                proof {
                    lemma_initial_weights_check_prefix(bs, nm as int, i + 1);
                }
                return Err(Error::MultiplierNotFound);
            }
            match check_no_duplicate_multipliers(&ib.multipliers) {
                Err(e) => {
                    proof {
                        lemma_initial_weights_check_prefix(bs, nm as int, i + 1);
                    }
                    return Err(e);
                },
                Ok(()) => {},
            }
            let b = Beneficiary {
                account_id: ib.account_id,
                multipliers: copy_weights(&ib.multipliers),
                unclaimed_payments: 0,
                last_updated_period_block: now,
            };
            let ghost before = beneficiaries@;
            beneficiaries.insert(ib.account_id, b);
            proof {
                assert(accounts@[i as int] == ib.account_id);
                let t0 = accounts@.take(i as int);
                let t1 = accounts@.take(i + 1);
                assert forall|a: AccountId| #[trigger] beneficiaries@.contains_key(a) <==> t1.contains(a) by {
                    if a == ib.account_id {
                        assert(t1[i as int] == a);
                    } else if t0.contains(a) {
                        let j = choose|j: int| 0 <= j < t0.len() && t0[j] == a;
                        assert(t1[j] == a);
                    } else if t1.contains(a) {
                        let j = choose|j: int| 0 <= j < t1.len() && t1[j] == a;
                        assert(t0[j] == a);
                    }
                }
                assert forall|k: int| 0 <= k < i + 1 implies #[trigger] beneficiaries@[bs[k].account_id]@ == (BeneficiaryModel {
                    account_id: bs[k].account_id,
                    multipliers: bs[k].multipliers@,
                    unclaimed: 0,
                    last_updated: now,
                }) by {
                    if k < i {
                        assert(accounts@[k] == bs[k].account_id);
                        assert(accounts@[k] != accounts@[i as int]);
                    }
                }
            }
        }
        proof {
            assert(bs.take(nb as int) =~= bs);
            assert(accounts@.take(nb as int) =~= accounts@);
        }
        let p = OpenPayroll {
            proposed_owner: None,
            owner: caller,
            beneficiaries,
            beneficiaries_accounts: accounts,
            periodicity,
            base_payment,
            initial_block: now,
            paused_block_at: None,
            next_multiplier_id,
            base_multipliers,
            multipliers_list,
            claims_in_period: ClaimsInPeriod { period: 0, total_claims: 0 },
        };
        proof {
            assert(p@.accounts == accounts_of(bs));
            assert(p@.multiplier_ids == Seq::new(nm as nat, |i: int| i as MultiplierId));
            assert forall|i: int| 0 <= i < bs.len() implies #[trigger] p@.beneficiaries[bs[i].account_id] == (BeneficiaryModel {
                account_id: bs[i].account_id,
                multipliers: bs[i].multipliers@,
                unclaimed: 0,
                last_updated: now,
            }) by {
                assert(accounts@[i] == bs[i].account_id);
                assert(beneficiaries@.contains_key(bs[i].account_id));
            }
            assert forall|a: AccountId| #[trigger] p@.beneficiaries.contains_key(a) implies {
                &&& p@.beneficiaries[a].account_id == a
                &&& ids_distinct(p@.beneficiaries[a].multipliers)
            } by {
                let k = choose|k: int| 0 <= k < accounts@.len() && accounts@[k] == a;
                assert(bs[k].account_id == a);
                lemma_initial_weights_ok(bs, nm as int, k);
            }
            assert forall|id: MultiplierId| #[trigger] p@.multipliers.contains_key(id) <==> p@.multiplier_ids.contains(id) by {
                if id < nm {
                    assert(p@.multiplier_ids[id as int] == id);
                }
            }
            assert forall|i: int| 0 <= i < nm implies #[trigger] p@.multipliers[i as MultiplierId] == (MultiplierModel {
                name: initial_base_multipliers@[i]@,
                valid_until: None,
            }) by {
                assert(base_multipliers@.contains_key(i as MultiplierId));
            }
            assert(p@.inv());
            assert(p.wf());
        }
        Ok(p)
    }
}

/// When every initial beneficiary passes the check, each one's ids are distinct.
proof fn lemma_initial_weights_ok(bs: Seq<InitialBeneficiary>, n: int, k: int)
    requires
        0 <= k < bs.len(),
        initial_weights_check(bs, n) is Ok,
    ensures
        ids_distinct(bs[k].multipliers@),
    decreases bs.len(),
{
    if k < bs.len() - 1 {
        lemma_initial_weights_ok(bs.drop_last(), n, k);
    }
}

} // verus!
