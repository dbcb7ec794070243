use std::collections::BTreeMap;
use vstd::prelude::*;

use crate::accrual::{amount_owed, amount_overflows, ids_distinct, retained_weights};
use crate::errors::Error;
use crate::period::{period_start, period_start_of};
use crate::types::{
    AccountId, Balance, BaseMultiplier, Beneficiary, BeneficiaryModel, BlockNumber, Claimed, ClaimsInPeriod,
    Multiplier, MultiplierId, MultiplierModel, OwnershipAccepted, OwnershipProposed, Paused, Resumed,
    MAX_BENEFICIARIES, MAX_MULTIPLIERS,
};

verus! {

broadcast use vstd::std_specs::btree::group_btree_axioms, vstd::laws_cmp::group_laws_cmp;

/// The payroll: its owner and pause state, its multiplier registry, its
/// beneficiaries and the count of claims in the current period.
///
/// Beneficiaries are held twice: by account in a map, for lookups, and in a list
/// that fixes the order in which they are visited. The map's keys are exactly the
/// list's entries, and the list holds no account twice. Multipliers are held the
/// same way, by id and in a list of ids.
pub struct OpenPayroll {
    pub(crate) proposed_owner: Option<AccountId>,
    pub(crate) owner: AccountId,
    pub(crate) beneficiaries: BTreeMap<AccountId, Beneficiary>,
    pub(crate) beneficiaries_accounts: Vec<AccountId>,
    pub(crate) periodicity: u32,
    pub(crate) base_payment: Balance,
    pub(crate) initial_block: BlockNumber,
    pub(crate) paused_block_at: Option<BlockNumber>,
    pub(crate) next_multiplier_id: MultiplierId,
    pub(crate) base_multipliers: BTreeMap<MultiplierId, BaseMultiplier>,
    pub(crate) multipliers_list: Vec<MultiplierId>,
    pub(crate) claims_in_period: ClaimsInPeriod,
}

/// What the payroll holds, as mathematical values.
pub struct PayrollModel {
    pub owner: AccountId,
    pub proposed_owner: Option<AccountId>,
    pub paused_block_at: Option<BlockNumber>,
    pub periodicity: u32,
    pub base_payment: Balance,
    pub initial_block: BlockNumber,
    pub next_multiplier_id: MultiplierId,
    pub accounts: Seq<AccountId>,
    pub beneficiaries: Map<AccountId, BeneficiaryModel>,
    pub multiplier_ids: Seq<MultiplierId>,
    pub multipliers: Map<MultiplierId, MultiplierModel>,
    pub claims: ClaimsInPeriod,
}

impl View for OpenPayroll {
    type V = PayrollModel;

    open(crate) spec fn view(&self) -> PayrollModel {
        PayrollModel {
            owner: self.owner,
            proposed_owner: self.proposed_owner,
            paused_block_at: self.paused_block_at,
            periodicity: self.periodicity,
            base_payment: self.base_payment,
            initial_block: self.initial_block,
            next_multiplier_id: self.next_multiplier_id,
            accounts: self.beneficiaries_accounts@,
            beneficiaries: self.beneficiaries@.map_values(|b: Beneficiary| b@),
            multiplier_ids: self.multipliers_list@,
            multipliers: self.base_multipliers@.map_values(|m: BaseMultiplier| m@),
            claims: self.claims_in_period,
        }
    }
}

impl PayrollModel {
    /// The invariant of the payroll: positive periodicity and base payment; the
    /// account list and the beneficiary map hold the same accounts, each once, at
    /// most `MAX_BENEFICIARIES` of them, each record under its own account and with
    /// distinct multiplier ids; the id list and the registry hold the same ids, each
    /// once, at most `MAX_MULTIPLIERS` of them, all below the next id to assign;
    /// the claim count never exceeds the number of beneficiaries.
    pub open spec fn inv(self) -> bool {
        &&& self.periodicity > 0
        &&& self.base_payment > 0
        &&& self.accounts.no_duplicates()
        &&& self.accounts.len() <= MAX_BENEFICIARIES
        &&& forall|a: AccountId| #[trigger] self.beneficiaries.contains_key(a) <==> self.accounts.contains(a)
        &&& forall|a: AccountId| #[trigger] self.beneficiaries.contains_key(a) ==> {
            &&& self.beneficiaries[a].account_id == a
            &&& ids_distinct(self.beneficiaries[a].multipliers)
        }
        &&& self.multiplier_ids.no_duplicates()
        &&& self.multiplier_ids.len() <= MAX_MULTIPLIERS
        &&& forall|id: MultiplierId| #[trigger] self.multipliers.contains_key(id) <==> self.multiplier_ids.contains(id)
        &&& forall|id: MultiplierId| #[trigger] self.multipliers.contains_key(id) ==> id < self.next_multiplier_id
        &&& self.claims.total_claims <= self.accounts.len()
    }

    /// Start tick of the period that contains `now`.
    pub open spec fn period_start_at(self, now: int) -> int {
        period_start_of(now, self.initial_block as int, self.periodicity as int)
    }

    /// Start tick of the period after the one that contains `now`; a multiplier
    /// deactivated at `now` stops counting from this tick on.
    pub open spec fn next_period_start(self, now: int) -> int {
        self.period_start_at(now) + self.periodicity
    }

    /// Whether every beneficiary has claimed in the period that contains `now`; the
    /// period that starts at tick 0 needs no claims.
    pub open spec fn all_claimed_in_period(self, now: int) -> bool {
        ||| self.period_start_at(now) == 0
        ||| (self.claims.period == self.period_start_at(now) && self.claims.total_claims == self.accounts.len())
    }

    /// What beneficiary `a` is owed at `tick`.
    pub open spec fn owed(self, a: AccountId, tick: int, count_deactivated_as_active: bool) -> int {
        amount_owed(
            self.beneficiaries[a],
            self.multipliers,
            self.base_payment as int,
            self.periodicity as int,
            tick,
            count_deactivated_as_active,
        )
    }

    /// Whether computing what `a` is owed at `tick` overflows.
    pub open spec fn owed_overflows(self, a: AccountId, tick: int, count_deactivated_as_active: bool) -> bool {
        amount_overflows(
            self.beneficiaries[a],
            self.multipliers,
            self.base_payment as int,
            self.periodicity as int,
            tick,
            count_deactivated_as_active,
        )
    }

    /// What `get_amount_to_claim` returns for `a` at `now`.
    pub open spec fn amount_to_claim_outcome(self, a: AccountId, now: int) -> Result<Balance, Error> {
        if !self.beneficiaries.contains_key(a) {
            Err(Error::AccountNotFound)
        } else if self.owed_overflows(a, now, true) {
            Err(Error::Overflow)
        } else {
            Ok(self.owed(a, now, true) as Balance)
        }
    }

    /// The claim count after a beneficiary's first claim in the period that starts
    /// at `period`: counted on when that period is the one tracked, though never
    /// beyond the number of beneficiaries, else restarted.
    pub open spec fn claims_after_first_claim(self, period: BlockNumber) -> ClaimsInPeriod {
        if self.claims.period == period {
            ClaimsInPeriod {
                period,
                total_claims: if self.claims.total_claims < self.accounts.len() {
                    (self.claims.total_claims + 1) as u32
                } else {
                    self.claims.total_claims
                },
            }
        } else {
            ClaimsInPeriod { period, total_claims: 1 }
        }
    }

    /// Beneficiary `a` as a claim at `now` sees it: only the weights whose
    /// multiplier still counts at `now` are kept.
    pub open spec fn purged(self, a: AccountId, now: int) -> BeneficiaryModel {
        BeneficiaryModel {
            multipliers: retained_weights(self.beneficiaries[a].multipliers, self.multipliers, now, false),
            ..self.beneficiaries[a]
        }
    }

    /// What a claim by `a` at `now` finds owed: the accrual is computed from the
    /// weights whose multiplier still counts at `now`.
    pub open spec fn claim_total(self, a: AccountId, now: int) -> int {
        amount_owed(self.purged(a, now), self.multipliers, self.base_payment as int, self.periodicity as int, now, false)
    }

    /// Whether a claim by `a` at `now` is the first one of `a` in the current period.
    pub open spec fn first_claim_in_period(self, a: AccountId, now: int) -> bool {
        self.beneficiaries[a].last_updated != self.period_start_at(now)
    }

    /// What `claim_payment` returns for a claim of `amount` by `a` at `now`, when
    /// the treasury holds `treasury`.
    pub open spec fn claim_outcome(self, a: AccountId, amount: Balance, now: int, treasury: Balance) -> Result<Claimed, Error> {
        if self.paused_block_at is Some {
            Err(Error::ContractIsPaused)
        } else if !self.beneficiaries.contains_key(a) {
            Err(Error::AccountNotFound)
        } else if amount_overflows(self.purged(a, now), self.multipliers, self.base_payment as int, self.periodicity as int, now, false) {
            Err(Error::Overflow)
        } else if amount > self.claim_total(a, now) {
            Err(Error::ClaimedAmountIsBiggerThanAvailable)
        } else if amount > treasury {
            Err(Error::NotEnoughBalanceInTreasury)
        } else {
            Ok(Claimed {
                account_id: a,
                amount,
                total_payment: self.claim_total(a, now) as Balance,
                claiming_period_block: self.period_start_at(now) as BlockNumber,
            })
        }
    }

    /// The payroll after a successful claim of `amount` by `a` at `now`: the
    /// beneficiary keeps its counting weights, keeps what it did not claim, and is
    /// settled up to the current period, which counts its claim if it is its first.
    pub open spec fn after_claim(self, a: AccountId, amount: Balance, now: int) -> PayrollModel {
        PayrollModel {
            beneficiaries: self.beneficiaries.insert(
                a,
                BeneficiaryModel {
                    unclaimed: (self.claim_total(a, now) - amount) as Balance,
                    last_updated: self.period_start_at(now) as BlockNumber,
                    ..self.purged(a, now)
                },
            ),
            claims: if self.first_claim_in_period(a, now) {
                self.claims_after_first_claim(self.period_start_at(now) as BlockNumber)
            } else {
                self.claims
            },
            ..self
        }
    }

    /// Checks a weight list against the registry; the first entry whose multiplier
    /// is unknown or deactivated decides the error.
    pub open spec fn weights_check(self, ws: Seq<(MultiplierId, Multiplier)>) -> Result<(), Error>
        decreases ws.len(),
    {
        if ws.len() == 0 {
            Ok(())
        } else if self.weights_check(ws.drop_last()) is Err {
            self.weights_check(ws.drop_last())
        } else if !self.multipliers.contains_key(ws.last().0) {
            Err(Error::MultiplierNotFound)
        } else if self.multipliers[ws.last().0].valid_until is Some {
            Err(Error::MultiplierAlreadyDeactivated)
        } else {
            Ok(())
        }
    }

    /// What adding `a` with weights `ws` by `caller` fails with, if anything.
    pub open spec fn add_beneficiary_check(self, caller: AccountId, a: AccountId, ws: Seq<(MultiplierId, Multiplier)>) -> Result<(), Error> {
        if caller != self.owner {
            Err(Error::NotOwner)
        } else if self.beneficiaries.contains_key(a) {
            Err(Error::AccountAlreadyExists)
        } else if self.accounts.len() + 1 > MAX_BENEFICIARIES {
            Err(Error::MaxBeneficiariesExceeded)
        } else if self.weights_check(ws) is Err {
            self.weights_check(ws)
        } else if !ids_distinct(ws) {
            Err(Error::DuplicatedMultipliers)
        } else {
            Ok(())
        }
    }

    /// The payroll after `a` was added at `now` with weights `ws`: last in the
    /// list, with nothing unclaimed, settled up to the current period.
    pub open spec fn after_add(self, a: AccountId, ws: Seq<(MultiplierId, Multiplier)>, now: int) -> PayrollModel {
        PayrollModel {
            accounts: self.accounts.push(a),
            beneficiaries: self.beneficiaries.insert(
                a,
                BeneficiaryModel { account_id: a, multipliers: ws, unclaimed: 0, last_updated: self.period_start_at(now) as BlockNumber },
            ),
            ..self
        }
    }

    /// What updating `a` to weights `ws` by `caller` at `now` fails with, if anything.
    pub open spec fn update_beneficiary_check(self, caller: AccountId, a: AccountId, ws: Seq<(MultiplierId, Multiplier)>, now: int) -> Result<(), Error> {
        if caller != self.owner {
            Err(Error::NotOwner)
        } else if !self.beneficiaries.contains_key(a) {
            Err(Error::AccountNotFound)
        } else if self.weights_check(ws) is Err {
            self.weights_check(ws)
        } else if !ids_distinct(ws) {
            Err(Error::DuplicatedMultipliers)
        } else if self.owed_overflows(a, now, true) {
            Err(Error::Overflow)
        } else {
            Ok(())
        }
    }

    /// The payroll after `a` was given weights `ws` at `now`: what it was owed under
    /// all its former weights, deactivated ones included, becomes its unclaimed
    /// balance, and it is settled up to the current period.
    pub open spec fn after_update(self, a: AccountId, ws: Seq<(MultiplierId, Multiplier)>, now: int) -> PayrollModel {
        PayrollModel {
            beneficiaries: self.beneficiaries.insert(
                a,
                BeneficiaryModel {
                    account_id: a,
                    multipliers: ws,
                    unclaimed: self.owed(a, now, true) as Balance,
                    last_updated: self.period_start_at(now) as BlockNumber,
                },
            ),
            ..self
        }
    }

    /// Position of account `a` in the list.
    pub open spec fn account_index(self, a: AccountId) -> int {
        choose|i: int| 0 <= i < self.accounts.len() && self.accounts[i] == a
    }

    /// The claim count after `a` was removed: one less when `a` was settled in the
    /// tracked period, and never more than the beneficiaries that remain.
    pub open spec fn claims_after_removal(self, a: AccountId) -> ClaimsInPeriod {
        let c = if self.beneficiaries[a].last_updated == self.claims.period && self.claims.total_claims > 0 {
            self.claims.total_claims - 1
        } else {
            self.claims.total_claims as int
        };
        ClaimsInPeriod {
            period: self.claims.period,
            total_claims: if c <= self.accounts.len() - 1 {
                c as u32
            } else {
                (self.accounts.len() - 1) as u32
            },
        }
    }

    /// The payroll after `a` was removed.
    pub open spec fn after_remove(self, a: AccountId) -> PayrollModel {
        PayrollModel {
            accounts: self.accounts.remove(self.account_index(a)),
            beneficiaries: self.beneficiaries.remove(a),
            claims: self.claims_after_removal(a),
            ..self
        }
    }

    /// The accounts, in order, that have not been settled in the period that
    /// contains `now`.
    pub open spec fn pending_accounts(self, accounts: Seq<AccountId>, now: int) -> Seq<AccountId>
        decreases accounts.len(),
    {
        if accounts.len() == 0 {
            Seq::empty()
        } else {
            let r = self.pending_accounts(accounts.drop_last(), now);
            if self.beneficiaries[accounts.last()].last_updated < self.period_start_at(now) {
                r.push(accounts.last())
            } else {
                r
            }
        }
    }
}

/// Values of a map after an insertion.
pub(crate) proof fn lemma_map_values_insert<K, V, W>(m: Map<K, V>, k: K, v: V, f: spec_fn(V) -> W)
    ensures
        m.insert(k, v).map_values(f) == m.map_values(f).insert(k, f(v)),
{
    assert(m.insert(k, v).map_values(f) =~= m.map_values(f).insert(k, f(v)));
}

/// Values of a map after a removal.
pub(crate) proof fn lemma_map_values_remove<K, V, W>(m: Map<K, V>, k: K, f: spec_fn(V) -> W)
    ensures
        m.remove(k).map_values(f) == m.map_values(f).remove(k),
{
    assert(m.remove(k).map_values(f) =~= m.map_values(f).remove(k));
}

impl OpenPayroll {
    /// The payroll's invariant holds.
    pub open(crate) spec fn wf(&self) -> bool {
        self@.inv()
    }

    /// Whether claims are paused.
    pub fn is_paused(&self) -> (r: bool)
        ensures
            r == self@.paused_block_at is Some,
    {
        self.paused_block_at.is_some()
    }

    /// Fails with `ContractIsPaused` while claims are paused.
    pub fn ensure_is_not_paused(&self) -> (r: Result<(), Error>)
        ensures
            r == if self@.paused_block_at is Some {
                Err(Error::ContractIsPaused)
            } else {
                Ok(())
            },
    {
        if self.is_paused() {
            return Err(Error::ContractIsPaused);
        }
        Ok(())
    }

    /// Fails with `NotOwner` unless `caller` is the owner.
    pub fn ensure_owner(&self, caller: AccountId) -> (r: Result<(), Error>)
        ensures
            r == if caller == self@.owner {
                Ok(())
            } else {
                Err(Error::NotOwner)
            },
    {
        if self.owner.0 != caller.0 || self.owner.1 != caller.1 {
            return Err(Error::NotOwner);
        }
        Ok(())
    }

    /// The owner proposes `new_owner`, who becomes owner once it accepts.
    pub fn propose_transfer_ownership(&mut self, caller: AccountId, new_owner: AccountId) -> (r: Result<OwnershipProposed, Error>)
        requires
            old(self).wf(),
        ensures
            final(self).wf(),
            caller == old(self)@.owner ==> {
                &&& r == Ok::<OwnershipProposed, Error>(OwnershipProposed { current_owner: caller, proposed_owner: new_owner })
                &&& final(self)@ == (PayrollModel { proposed_owner: Some(new_owner), ..old(self)@ })
            },
            caller != old(self)@.owner ==> r == Err::<OwnershipProposed, Error>(Error::NotOwner) && final(self)@ == old(self)@,
    {
        self.ensure_owner(caller)?;
        self.proposed_owner = Some(new_owner);
        Ok(OwnershipProposed { current_owner: self.owner, proposed_owner: new_owner })
    }

    /// The proposed owner accepts the ownership.
    pub fn accept_ownership(&mut self, caller: AccountId) -> (r: Result<OwnershipAccepted, Error>)
        requires
            old(self).wf(),
        ensures
            final(self).wf(),
            old(self)@.proposed_owner == Some(caller) ==> {
                &&& r == Ok::<OwnershipAccepted, Error>(OwnershipAccepted { previous_owner: old(self)@.owner, new_owner: caller })
                &&& final(self)@ == (PayrollModel { owner: caller, proposed_owner: None, ..old(self)@ })
            },
            old(self)@.proposed_owner != Some(caller) ==> r == Err::<OwnershipAccepted, Error>(Error::NotOwner) && final(self)@ == old(self)@,
    {
        let old_owner = self.owner;
        match self.proposed_owner {
            Some(p) => {
                if p.0 == caller.0 && p.1 == caller.1 {
                    self.owner = p;
                    self.proposed_owner = None;
                    return Ok(OwnershipAccepted { previous_owner: old_owner, new_owner: caller });
                }
            },
            None => {},
        }
        Err(Error::NotOwner)
    }

    /// The owner pauses claims at `now`; pausing paused claims changes nothing.
    pub fn pause(&mut self, caller: AccountId, now: BlockNumber) -> (r: Result<Option<Paused>, Error>)
        requires
            old(self).wf(),
        ensures
            final(self).wf(),
            caller != old(self)@.owner ==> r == Err::<Option<Paused>, Error>(Error::NotOwner) && final(self)@ == old(self)@,
            caller == old(self)@.owner && old(self)@.paused_block_at is Some ==> r == Ok::<Option<Paused>, Error>(None) && final(self)@ == old(self)@,
            caller == old(self)@.owner && old(self)@.paused_block_at is None ==> {
                &&& r == Ok::<Option<Paused>, Error>(Some(Paused {}))
                &&& final(self)@ == (PayrollModel { paused_block_at: Some(now), ..old(self)@ })
            },
    {
        self.ensure_owner(caller)?;
        if self.is_paused() {
            return Ok(None);
        }
        self.paused_block_at = Some(now);
        Ok(Some(Paused {}))
    }

    /// The owner resumes claims; resuming running claims changes nothing.
    pub fn resume(&mut self, caller: AccountId) -> (r: Result<Option<Resumed>, Error>)
        requires
            old(self).wf(),
        ensures
            final(self).wf(),
            caller != old(self)@.owner ==> r == Err::<Option<Resumed>, Error>(Error::NotOwner) && final(self)@ == old(self)@,
            caller == old(self)@.owner && old(self)@.paused_block_at is None ==> r == Ok::<Option<Resumed>, Error>(None) && final(self)@ == old(self)@,
            caller == old(self)@.owner && old(self)@.paused_block_at is Some ==> {
                &&& r == Ok::<Option<Resumed>, Error>(Some(Resumed {}))
                &&& final(self)@ == (PayrollModel { paused_block_at: None, ..old(self)@ })
            },
    {
        self.ensure_owner(caller)?;
        if !self.is_paused() {
            return Ok(None);
        }
        self.paused_block_at = None;
        Ok(Some(Resumed {}))
    }

    /// Start tick of the period that contains `now`.
    pub fn get_current_period_initial_block(&self, now: BlockNumber) -> (r: BlockNumber)
        requires
            self.wf(),
            self@.initial_block <= now,
        ensures
            r == self@.period_start_at(now as int),
            self@.initial_block <= r <= now,
    {
        period_start(now, self.initial_block, self.periodicity)
    }

    /// Start tick of the period after the one that contains `now`; `Overflow` when
    /// it does not fit a block number.
    pub fn get_next_block_period(&self, now: BlockNumber) -> (r: Result<BlockNumber, Error>)
        requires
            self.wf(),
            self@.initial_block <= now,
        ensures
            self@.next_period_start(now as int) <= u32::MAX ==> r == Ok::<BlockNumber, Error>(
                self@.next_period_start(now as int) as BlockNumber,
            ),
            self@.next_period_start(now as int) > u32::MAX ==> r == Err::<BlockNumber, Error>(Error::Overflow),
    {
        match self.get_current_period_initial_block(now).checked_add(self.periodicity) {
            Some(b) => Ok(b),
            None => Err(Error::Overflow),
        }
    }

    /// The base payment.
    pub fn get_base_payment(&self) -> (r: Balance)
        ensures
            r == self@.base_payment,
    {
        self.base_payment
    }

    /// The period width in ticks.
    pub fn get_periodicity(&self) -> (r: BlockNumber)
        ensures
            r == self@.periodicity,
    {
        self.periodicity
    }

    /// The tick at which the payroll was created, which anchors the periods.
    pub fn get_initial_block(&self) -> (r: BlockNumber)
        ensures
            r == self@.initial_block,
    {
        self.initial_block
    }

    /// The owner.
    pub fn get_owner(&self) -> (r: AccountId)
        ensures
            r == self@.owner,
    {
        self.owner
    }

    /// The proposed owner, if any.
    pub fn get_proposed_owner(&self) -> (r: Option<AccountId>)
        ensures
            r == self@.proposed_owner,
    {
        self.proposed_owner
    }

    /// The count of claims in the period it tracks.
    pub fn get_claims_in_period(&self) -> (r: ClaimsInPeriod)
        ensures
            r == self@.claims,
    {
        self.claims_in_period
    }
}

} // verus!
