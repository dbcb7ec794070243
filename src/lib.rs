//! Periodic payroll accrual and claims.
//!
//! A payroll pays each beneficiary, once per period, a base payment weighted by
//! the multipliers assigned to it; beneficiaries claim what accrued at any time.
//! Administrative changes that alter what is paid wait until every beneficiary
//! has claimed in the current period. The host supplies the current tick, the
//! caller and the treasury balance, and performs the transfers.
pub mod accrual;
pub mod beneficiaries;
pub mod claims;
pub mod construct;
pub mod debts;
pub mod errors;
pub mod laws;
pub mod ledger;
pub mod payroll;
pub mod period;
pub mod persist;
pub mod registry;
pub mod types;

pub use errors::Error;
