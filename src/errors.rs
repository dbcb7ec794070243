use vstd::prelude::*;

verus! {

/// Why an operation on the payroll was refused.
#[derive(Clone, Copy, Debug, PartialEq, Eq, Structural)]
pub enum Error {
    /// The caller is not the owner.
    NotOwner,
    /// Claims are paused.
    ContractIsPaused,
    /// A parameter is zero where it must be positive.
    InvalidParams,
    /// The account is not a beneficiary.
    AccountNotFound,
    /// The account is already a beneficiary.
    AccountAlreadyExists,
    /// The treasury does not hold the requested amount.
    NotEnoughBalanceInTreasury,
    /// The host could not transfer the funds.
    TransferFailed,
    /// The beneficiary has nothing left to claim.
    NoUnclaimedPayments,
    /// Some beneficiary has not settled up to the current period.
    PaymentsNotUpToDate,
    /// Not every beneficiary has claimed in the current period.
    NotAllClaimedInPeriod,
    /// The requested amount exceeds what is owed.
    ClaimedAmountIsBiggerThanAvailable,
    /// An initial beneficiary does not carry one weight per multiplier.
    InvalidMultipliersLength,
    /// The multiplier id is not registered.
    MultiplierNotFound,
    /// The multiplier has already been deactivated.
    MultiplierAlreadyDeactivated,
    /// The multiplier has not been deactivated.
    MultiplierNotDeactivated,
    /// A multiplier id appears twice in a weight list.
    DuplicatedMultipliers,
    /// An account appears twice among the initial beneficiaries.
    DuplicatedBeneficiaries,
    /// The multiplier is still within its validity window.
    MultiplierNotExpired,
    /// Adding a beneficiary would exceed the maximum.
    MaxBeneficiariesExceeded,
    /// Adding a multiplier would exceed the maximum.
    MaxMultipliersExceeded,
    /// An amount or a counter does not fit its integer type.
    Overflow,
}

} // verus!
