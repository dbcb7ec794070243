use vstd::prelude::*;

verus! {

/// Amount of funds.
pub type Balance = u128;

/// Ledger progress counter.
pub type BlockNumber = u32;

/// Identifier of a registered multiplier.
pub type MultiplierId = u32;

/// Per-beneficiary weight of a multiplier, in percent of the base payment.
pub type Multiplier = u128;

/// An account, as the high and the low 128-bit halves of its 256-bit identifier.
pub type AccountId = (u128, u128);

/// Most beneficiaries that may exist at the same time.
pub const MAX_BENEFICIARIES: usize = 100;

/// Most multipliers that may exist at the same time.
pub const MAX_MULTIPLIERS: usize = 10;

/// A named multiplier; `valid_until_block` is set once it is deactivated.
#[derive(Clone, Debug, PartialEq, Eq)]
pub struct BaseMultiplier {
    pub name: String,
    pub valid_until_block: Option<BlockNumber>,
}

/// What the payroll knows of a multiplier.
pub struct MultiplierModel {
    pub name: Seq<char>,
    pub valid_until: Option<BlockNumber>,
}

impl View for BaseMultiplier {
    type V = MultiplierModel;

    open spec fn view(&self) -> MultiplierModel {
        MultiplierModel { name: self.name@, valid_until: self.valid_until_block }
    }
}

impl BaseMultiplier {
    /// An active multiplier with the given name.
    pub fn new(name: String) -> (r: Self)
        ensures
            r.name == name,
            r.valid_until_block is None,
    {
        BaseMultiplier { name, valid_until_block: None }
    }
}

/// A beneficiary: its weights, keyed by multiplier id and listed once per id, its
/// settled but unclaimed balance, and the period start up to which it was settled.
#[derive(Debug, PartialEq, Eq)]
pub struct Beneficiary {
    pub account_id: AccountId,
    pub multipliers: Vec<(MultiplierId, Multiplier)>,
    pub unclaimed_payments: Balance,
    pub last_updated_period_block: BlockNumber,
}

/// What the payroll knows of a beneficiary.
pub struct BeneficiaryModel {
    pub account_id: AccountId,
    pub multipliers: Seq<(MultiplierId, Multiplier)>,
    pub unclaimed: Balance,
    pub last_updated: BlockNumber,
}

impl View for Beneficiary {
    type V = BeneficiaryModel;

    open spec fn view(&self) -> BeneficiaryModel {
        BeneficiaryModel {
            account_id: self.account_id,
            multipliers: self.multipliers@,
            unclaimed: self.unclaimed_payments,
            last_updated: self.last_updated_period_block,
        }
    }
}

/// A beneficiary given at construction, with one weight per multiplier.
#[derive(Debug, PartialEq, Eq)]
pub struct InitialBeneficiary {
    pub account_id: AccountId,
    pub multipliers: Vec<(MultiplierId, Multiplier)>,
}

/// How many distinct beneficiaries claimed in the period that starts at `period`.
#[derive(Clone, Copy, Debug, PartialEq, Eq, Structural)]
pub struct ClaimsInPeriod {
    pub period: BlockNumber,
    pub total_claims: u32,
}

/// Everything a payroll holds, as plain values: the registry and the
/// beneficiaries in their list order. Hosts that keep the payroll between calls
/// store this.
#[derive(Debug, PartialEq, Eq)]
pub struct PayrollParts {
    pub owner: AccountId,
    pub proposed_owner: Option<AccountId>,
    pub paused_block_at: Option<BlockNumber>,
    pub periodicity: u32,
    pub base_payment: Balance,
    pub initial_block: BlockNumber,
    pub next_multiplier_id: MultiplierId,
    pub multipliers: Vec<(MultiplierId, BaseMultiplier)>,
    pub beneficiaries: Vec<Beneficiary>,
    pub claims_in_period: ClaimsInPeriod,
}

/// A beneficiary claimed: `amount` leaves the treasury, out of `total_payment` owed.
#[derive(Clone, Copy, Debug, PartialEq, Eq)]
pub struct Claimed {
    pub account_id: AccountId,
    pub amount: Balance,
    pub total_payment: Balance,
    pub claiming_period_block: BlockNumber,
}

/// A multiplier was deactivated; it counts until `valid_until_block`.
#[derive(Clone, Copy, Debug, PartialEq, Eq, Structural)]
pub struct MultiplierDeactivated {
    pub multiplier_id: MultiplierId,
    pub valid_until_block: BlockNumber,
}

/// A deactivated multiplier was removed from the registry.
#[derive(Clone, Copy, Debug, PartialEq, Eq, Structural)]
pub struct MultiplierDeleted {
    pub multiplier_id: MultiplierId,
    pub valid_until_block: BlockNumber,
}

/// The owner proposed a new owner.
#[derive(Clone, Copy, Debug, PartialEq, Eq)]
pub struct OwnershipProposed {
    pub current_owner: AccountId,
    pub proposed_owner: AccountId,
}

/// The proposed owner accepted the ownership.
#[derive(Clone, Copy, Debug, PartialEq, Eq)]
pub struct OwnershipAccepted {
    pub previous_owner: AccountId,
    pub new_owner: AccountId,
}

/// A beneficiary was added with the given weights.
#[derive(Debug, PartialEq, Eq)]
pub struct BeneficiaryAdded {
    pub account_id: AccountId,
    pub multipliers_vec: Vec<(MultiplierId, Multiplier)>,
}

/// A beneficiary's weights were replaced.
#[derive(Debug, PartialEq, Eq)]
pub struct BeneficiaryUpdated {
    pub account_id: AccountId,
    pub multipliers_vec: Vec<(MultiplierId, Multiplier)>,
}

/// A beneficiary was removed.
#[derive(Clone, Copy, Debug, PartialEq, Eq)]
pub struct BeneficiaryRemoved {
    pub account_id: AccountId,
}

/// A multiplier was registered.
#[derive(Clone, Debug, PartialEq, Eq)]
pub struct BaseMultiplierAdded {
    pub multiplier_id: MultiplierId,
    pub name: String,
}

/// The periodicity changed.
#[derive(Clone, Copy, Debug, PartialEq, Eq, Structural)]
pub struct PeriodicityUpdated {
    pub periodicity: u32,
}

/// Claims were paused.
#[derive(Clone, Copy, Debug, PartialEq, Eq, Structural)]
pub struct Paused {}

/// Claims were resumed.
#[derive(Clone, Copy, Debug, PartialEq, Eq, Structural)]
pub struct Resumed {}

} // verus!
