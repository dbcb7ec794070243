use open_payroll::payroll::OpenPayroll;
use open_payroll::types::{AccountId, InitialBeneficiary};
use open_payroll::Error;

const TREASURY: u128 = 1_000_000;

fn acct(n: u128) -> AccountId {
    (0, n)
}

fn owner() -> AccountId {
    acct(1)
}

fn payroll_with(beneficiaries: Vec<(AccountId, Vec<(u32, u128)>)>) -> OpenPayroll {
    let mut p = OpenPayroll::new(owner(), 0, 2, 1000, vec!["Seniority".to_string(), "Performance".to_string()], vec![])
        .unwrap();
    for (account_id, multipliers) in beneficiaries {
        p.add_beneficiary(owner(), account_id, multipliers, 0).unwrap();
    }
    p
}

#[test]
fn per_period_amount_uses_weighted_percentage() {
    let p = payroll_with(vec![(acct(2), vec![(0, 100), (1, 3)])]);
    assert_eq!(p.get_amount_to_claim(acct(2), 3), Ok(1030));
    assert_eq!(p.get_amount_to_claim(acct(2), 1), Ok(0));
    assert_eq!(p.get_amount_to_claim(acct(2), 4), Ok(2060));
}

#[test]
fn percentage_rounds_down() {
    let mut p = OpenPayroll::new(owner(), 0, 1, 7, vec!["a".to_string()], vec![]).unwrap();
    p.add_beneficiary(owner(), acct(2), vec![(0, 33)], 0).unwrap();
    // 33 * 7 / 100 = 2.31, paid as 2 each period
    assert_eq!(p.get_amount_to_claim(acct(2), 3), Ok(6));
}

#[test]
fn beneficiary_without_weights_gets_base_payment_share() {
    let mut p = payroll_with(vec![]);
    p.add_beneficiary(owner(), acct(2), vec![], 0).unwrap();
    // a factor of one percent of the base payment
    assert_eq!(p.get_amount_to_claim(acct(2), 2), Ok(10));
}

#[test]
fn claim_above_owed_is_refused_and_changes_nothing() {
    let mut p = payroll_with(vec![(acct(2), vec![(0, 100), (1, 3)])]);
    let before = p.get_beneficiary(acct(2)).unwrap();
    assert_eq!(p.claim_payment(acct(2), 1031, 3, TREASURY), Err(Error::ClaimedAmountIsBiggerThanAvailable));
    assert_eq!(p.get_beneficiary(acct(2)).unwrap(), before);
    assert_eq!(p.get_amount_to_claim(acct(2), 3), Ok(1030));
}

#[test]
fn claim_leaves_owed_minus_amount() {
    let mut p = payroll_with(vec![(acct(2), vec![(0, 100), (1, 3)])]);
    let ev = p.claim_payment(acct(2), 30, 3, TREASURY).unwrap();
    assert_eq!(ev.total_payment, 1030);
    assert_eq!(ev.amount, 30);
    assert_eq!(ev.claiming_period_block, 2);
    let b = p.get_beneficiary(acct(2)).unwrap();
    assert_eq!(b.unclaimed_payments, 1000);
    assert_eq!(b.last_updated_period_block, 2);
}

#[test]
fn update_folds_accrual_into_unclaimed() {
    let mut p = payroll_with(vec![(acct(2), vec![(0, 100), (1, 3)])]);
    p.update_beneficiary(owner(), acct(2), vec![(0, 50)], 5).unwrap();
    let b = p.get_beneficiary(acct(2)).unwrap();
    assert_eq!(b.unclaimed_payments, 2060);
    assert_eq!(b.last_updated_period_block, 4);
    // one more period at the new weight
    assert_eq!(p.get_amount_to_claim(acct(2), 6), Ok(2560));
}

#[test]
fn amount_to_claim_is_repeatable() {
    let p = payroll_with(vec![(acct(2), vec![(0, 100), (1, 3)])]);
    let first = p.get_amount_to_claim(acct(2), 7);
    let second = p.get_amount_to_claim(acct(2), 7);
    assert_eq!(first, second);
    assert_eq!(first, Ok(3090));
}

#[test]
fn gate_open_after_construction_at_tick_zero() {
    let p = payroll_with(vec![(acct(2), vec![(0, 100), (1, 3)])]);
    assert_eq!(p.ensure_all_claimed_in_period(0), Ok(()));
    assert_eq!(p.ensure_all_claimed_in_period(1), Ok(()));
    assert_eq!(p.ensure_all_claimed_in_period(2), Err(Error::NotAllClaimedInPeriod));
}

#[test]
fn gate_closes_when_beneficiary_added() {
    let mut p = payroll_with(vec![(acct(2), vec![(0, 100)])]);
    p.claim_payment(acct(2), 0, 2, TREASURY).unwrap();
    assert_eq!(p.ensure_all_claimed_in_period(2), Ok(()));
    p.add_beneficiary(owner(), acct(3), vec![], 2).unwrap();
    assert_eq!(p.ensure_all_claimed_in_period(2), Err(Error::NotAllClaimedInPeriod));
}

#[test]
fn deactivated_multiplier_counts_until_next_period() {
    let mut early = payroll_with(vec![(acct(2), vec![(0, 100), (1, 3)])]);
    let ev = early.deactivate_multiplier(1, 5).unwrap();
    assert_eq!(ev.valid_until_block, 6);
    // at tick 5 both weights still count: two periods of 1030
    assert_eq!(early.claim_payment(acct(2), 0, 5, TREASURY).unwrap().total_payment, 2060);
    assert_eq!(early.get_beneficiary(acct(2)).unwrap().multipliers, vec![(0, 100), (1, 3)]);

    let mut late = payroll_with(vec![(acct(2), vec![(0, 100), (1, 3)])]);
    late.deactivate_multiplier(1, 5).unwrap();
    // the estimate keeps every assigned weight: three periods of 1030
    assert_eq!(late.get_amount_to_claim(acct(2), 6), Ok(3090));
    // at tick 6 a claim drops the deactivated weight: three periods of 1000
    assert_eq!(late.claim_payment(acct(2), 0, 6, TREASURY).unwrap().total_payment, 3000);
    assert_eq!(late.get_beneficiary(acct(2)).unwrap().multipliers, vec![(0, 100)]);
}

#[test]
fn base_payment_update_waits_for_all_claims() {
    let mut p = payroll_with(vec![(acct(2), vec![(0, 100)]), (acct(3), vec![(1, 3)])]);
    assert_eq!(p.update_base_payment(owner(), 2000, 3), Err(Error::NotAllClaimedInPeriod));
    p.claim_payment(acct(2), 0, 3, TREASURY).unwrap();
    assert_eq!(p.update_base_payment(owner(), 2000, 3), Err(Error::NotAllClaimedInPeriod));
    p.claim_payment(acct(3), 0, 3, TREASURY).unwrap();
    assert_eq!(p.update_base_payment(owner(), 2000, 3), Ok(()));
    assert_eq!(p.get_base_payment(), 2000);
}

#[test]
fn repeated_claims_count_once_per_period() {
    let mut p = payroll_with(vec![(acct(2), vec![(0, 100)]), (acct(3), vec![(1, 3)])]);
    p.claim_payment(acct(2), 0, 3, TREASURY).unwrap();
    p.claim_payment(acct(2), 0, 3, TREASURY).unwrap();
    assert_eq!(p.get_claims_in_period().total_claims, 1);
    assert_eq!(p.get_claims_in_period().period, 2);
    assert_eq!(p.ensure_all_claimed_in_period(3), Err(Error::NotAllClaimedInPeriod));
}

#[test]
fn add_then_remove_restores_beneficiaries() {
    let mut p = payroll_with(vec![(acct(2), vec![(0, 100)])]);
    let accounts_before = p.get_list_beneficiaries();
    let multipliers_before = p.get_multipliers_list();
    p.add_beneficiary(owner(), acct(3), vec![(1, 5)], 1).unwrap();
    assert_eq!(p.get_list_beneficiaries().len(), 2);
    p.remove_beneficiary(owner(), acct(3)).unwrap();
    assert_eq!(p.get_list_beneficiaries(), accounts_before);
    assert_eq!(p.get_multipliers_list(), multipliers_before);
    assert_eq!(p.get_beneficiary(acct(3)), Err(Error::AccountNotFound));
}

#[test]
fn remove_keeps_order_of_others() {
    let mut p = payroll_with(vec![(acct(2), vec![]), (acct(3), vec![]), (acct(4), vec![])]);
    p.remove_beneficiary(owner(), acct(3)).unwrap();
    assert_eq!(p.get_list_beneficiaries(), vec![acct(2), acct(4)]);
}

#[test]
fn construction_rejects_zero_parameters() {
    assert!(matches!(OpenPayroll::new(owner(), 0, 0, 1000, vec![], vec![]), Err(Error::InvalidParams)));
    assert!(matches!(OpenPayroll::new(owner(), 0, 2, 0, vec![], vec![]), Err(Error::InvalidParams)));
}

#[test]
fn construction_rejects_repeated_weight_ids() {
    let b = InitialBeneficiary { account_id: acct(2), multipliers: vec![(0, 1), (0, 2)] };
    assert!(matches!(
        OpenPayroll::new(owner(), 0, 2, 1000, vec!["a".to_string(), "b".to_string()], vec![b]),
        Err(Error::DuplicatedMultipliers)
    ));
}

#[test]
fn claim_refused_while_paused() {
    let mut p = payroll_with(vec![(acct(2), vec![(0, 100)])]);
    assert_eq!(p.pause(owner(), 1), Ok(Some(open_payroll::types::Paused {})));
    assert_eq!(p.pause(owner(), 1), Ok(None));
    assert_eq!(p.claim_payment(acct(2), 0, 3, TREASURY), Err(Error::ContractIsPaused));
    assert_eq!(p.resume(owner()), Ok(Some(open_payroll::types::Resumed {})));
    assert!(p.claim_payment(acct(2), 0, 3, TREASURY).is_ok());
}

#[test]
fn claim_by_unknown_account_is_refused() {
    let mut p = payroll_with(vec![]);
    assert_eq!(p.claim_payment(acct(9), 0, 3, TREASURY), Err(Error::AccountNotFound));
    assert_eq!(p.get_amount_to_claim(acct(9), 3), Err(Error::AccountNotFound));
}

#[test]
fn claim_above_treasury_is_refused() {
    let mut p = payroll_with(vec![(acct(2), vec![(0, 100)])]);
    assert_eq!(p.claim_payment(acct(2), 1000, 3, 999), Err(Error::NotEnoughBalanceInTreasury));
}

#[test]
fn assigning_unknown_or_deactivated_multiplier_is_refused() {
    let mut p = payroll_with(vec![]);
    assert_eq!(p.add_beneficiary(owner(), acct(2), vec![(7, 10)], 0), Err(Error::MultiplierNotFound));
    p.deactivate_multiplier(1, 0).unwrap();
    assert_eq!(p.add_beneficiary(owner(), acct(2), vec![(1, 10)], 0), Err(Error::MultiplierAlreadyDeactivated));
    assert_eq!(p.add_beneficiary(owner(), acct(2), vec![(0, 1), (0, 2)], 0), Err(Error::DuplicatedMultipliers));
    p.add_beneficiary(owner(), acct(2), vec![(0, 1)], 0).unwrap();
    assert_eq!(p.add_beneficiary(owner(), acct(2), vec![], 0), Err(Error::AccountAlreadyExists));
}

#[test]
fn deactivating_twice_is_refused() {
    let mut p = payroll_with(vec![]);
    p.deactivate_multiplier(0, 0).unwrap();
    assert_eq!(p.deactivate_multiplier(0, 1), Err(Error::MultiplierAlreadyDeactivated));
    assert_eq!(p.deactivate_multiplier(5, 1), Err(Error::MultiplierNotFound));
}

#[test]
fn deleting_a_multiplier_follows_its_lifecycle() {
    let mut p = payroll_with(vec![(acct(2), vec![(0, 100), (1, 3)])]);
    assert_eq!(p.delete_unused_multiplier(1, 0), Err(Error::MultiplierNotDeactivated));
    assert_eq!(p.delete_unused_multiplier(4, 0), Err(Error::MultiplierNotFound));
    assert_eq!(p.deactivate_multiplier(1, 0).unwrap().valid_until_block, 2);
    assert_eq!(p.delete_unused_multiplier(1, 2), Err(Error::MultiplierNotExpired));
    assert_eq!(p.delete_unused_multiplier(1, 3), Err(Error::NotAllClaimedInPeriod));
    p.claim_payment(acct(2), 0, 3, TREASURY).unwrap();
    let ev = p.delete_unused_multiplier(1, 3).unwrap();
    assert_eq!(ev.valid_until_block, 2);
    assert_eq!(p.get_multipliers_list(), vec![0]);
    assert_eq!(p.get_base_multiplier(1), None);
}

#[test]
fn multiplier_ids_are_not_reused() {
    let mut p = payroll_with(vec![(acct(2), vec![])]);
    p.deactivate_multiplier(1, 0).unwrap();
    p.claim_payment(acct(2), 0, 3, TREASURY).unwrap();
    p.delete_unused_multiplier(1, 3).unwrap();
    let ev = p.add_base_multiplier(owner(), "Bonus".to_string()).unwrap();
    assert_eq!(ev.multiplier_id, 2);
    assert_eq!(ev.name, "Bonus".to_string());
    assert_eq!(p.get_multipliers_list(), vec![0, 2]);
}

#[test]
fn payments_up_to_date_check() {
    let mut p = payroll_with(vec![(acct(2), vec![(0, 100)])]);
    assert_eq!(p.ensure_all_payments_uptodate(1), Ok(()));
    assert_eq!(p.ensure_all_payments_uptodate(2), Err(Error::PaymentsNotUpToDate));
    p.claim_payment(acct(2), 0, 2, TREASURY).unwrap();
    assert_eq!(p.ensure_all_payments_uptodate(3), Ok(()));
}

#[test]
fn amounts_that_do_not_fit_report_overflow() {
    let b = InitialBeneficiary { account_id: acct(2), multipliers: vec![(0, 200)] };
    let p = OpenPayroll::new(owner(), 0, 1, u128::MAX / 100, vec!["a".to_string()], vec![b]).unwrap();
    assert_eq!(p.get_amount_to_claim(acct(2), 0), Ok(0));
    assert_eq!(p.get_amount_to_claim(acct(2), 1), Err(Error::Overflow));
    assert_eq!(p.get_total_debts(1), Err(Error::Overflow));
}

#[test]
fn balance_with_debts_refuses_shortfall() {
    let p = payroll_with(vec![(acct(2), vec![(0, 100), (1, 3)])]);
    assert_eq!(p.get_balance_with_debts(1000, 3), Err(Error::NotEnoughBalanceInTreasury));
    assert_eq!(p.get_balance_with_debts(1030, 3), Ok(0));
}

#[test]
fn next_period_overflow_is_reported() {
    let p = OpenPayroll::new(owner(), u32::MAX - 1, 4, 1000, vec![], vec![]).unwrap();
    assert_eq!(p.get_next_block_period(u32::MAX), Err(Error::Overflow));
}

#[test]
fn ownership_is_not_taken_by_others() {
    let mut p = payroll_with(vec![]);
    p.propose_transfer_ownership(owner(), acct(5)).unwrap();
    assert_eq!(p.accept_ownership(acct(6)), Err(Error::NotOwner));
    assert_eq!(p.propose_transfer_ownership(acct(6), acct(6)), Err(Error::NotOwner));
    let ev = p.accept_ownership(acct(5)).unwrap();
    assert_eq!(ev.previous_owner, owner());
    assert_eq!(ev.new_owner, acct(5));
}

#[test]
fn parts_round_trip_keeps_the_payroll() {
    let mut p = payroll_with(vec![(acct(2), vec![(0, 100), (1, 3)]), (acct(3), vec![(1, 7)])]);
    p.deactivate_multiplier(1, 1).unwrap();
    p.claim_payment(acct(2), 10, 3, TREASURY).unwrap();
    let parts = p.to_parts();
    assert_eq!(parts.beneficiaries.len(), 2);
    assert_eq!(parts.beneficiaries[0].account_id, acct(2));
    assert_eq!(parts.multipliers[1].1.valid_until_block, Some(2));
    let q = OpenPayroll::from_parts(parts).unwrap();
    assert_eq!(q.to_parts(), p.to_parts());
    assert_eq!(q.get_amount_to_claim(acct(2), 5), p.get_amount_to_claim(acct(2), 5));
}

#[test]
fn parts_breaking_the_invariant_are_refused() {
    let p = payroll_with(vec![(acct(2), vec![(0, 100)])]);
    let mut parts = p.to_parts();
    let dup = parts.beneficiaries[0].account_id;
    parts.beneficiaries.push(open_payroll::types::Beneficiary {
        account_id: dup,
        multipliers: vec![],
        unclaimed_payments: 0,
        last_updated_period_block: 0,
    });
    assert!(matches!(OpenPayroll::from_parts(parts), Err(Error::InvalidParams)));

    let mut parts = p.to_parts();
    parts.next_multiplier_id = 1;
    assert!(matches!(OpenPayroll::from_parts(parts), Err(Error::InvalidParams)));

    let mut parts = p.to_parts();
    parts.periodicity = 0;
    assert!(matches!(OpenPayroll::from_parts(parts), Err(Error::InvalidParams)));
}

#[test]
fn estimates_count_deactivated_weights_and_claims_do_not() {
    let mut p = payroll_with(vec![(acct(2), vec![(0, 100), (1, 3)])]);
    p.deactivate_multiplier(1, 0).unwrap();
    // the weight of multiplier 1 stops counting at tick 2
    assert_eq!(p.get_amount_to_claim(acct(2), 4), Ok(2060));
    assert_eq!(p.get_total_debts(4), Ok(2060));
    assert_eq!(p.get_total_debt_for_next_period(), Ok(1030));
    assert_eq!(p.claim_payment(acct(2), 2061, 4, TREASURY), Err(Error::ClaimedAmountIsBiggerThanAvailable));
    let ev = p.claim_payment(acct(2), 2000, 4, TREASURY).unwrap();
    assert_eq!(ev.total_payment, 2000);
    assert_eq!(p.get_beneficiary(acct(2)).unwrap().unclaimed_payments, 0);
}

#[test]
fn update_settles_with_all_former_weights() {
    let mut p = payroll_with(vec![(acct(2), vec![(0, 100), (1, 3)])]);
    p.deactivate_multiplier(1, 0).unwrap();
    p.update_beneficiary(owner(), acct(2), vec![(0, 50)], 4).unwrap();
    assert_eq!(p.get_beneficiary(acct(2)).unwrap().unclaimed_payments, 2060);
}

#[test]
fn construction_rejects_unregistered_multiplier_ids() {
    let b = InitialBeneficiary { account_id: acct(2), multipliers: vec![(5, 1), (6, 1)] };
    assert!(matches!(
        OpenPayroll::new(owner(), 0, 2, 1000, vec!["Seniority".to_string(), "Performance".to_string()], vec![b]),
        Err(Error::MultiplierNotFound)
    ));
}

#[test]
fn removing_a_claimed_beneficiary_lowers_the_count() {
    let mut p = payroll_with(vec![(acct(2), vec![(0, 100)]), (acct(3), vec![(1, 3)])]);
    p.claim_payment(acct(2), 0, 3, TREASURY).unwrap();
    assert_eq!(p.get_claims_in_period().total_claims, 1);
    p.remove_beneficiary(owner(), acct(2)).unwrap();
    assert_eq!(p.get_claims_in_period().total_claims, 0);
    assert_eq!(p.update_base_payment(owner(), 2000, 3), Err(Error::NotAllClaimedInPeriod));
    p.claim_payment(acct(3), 0, 3, TREASURY).unwrap();
    assert_eq!(p.update_base_payment(owner(), 2000, 3), Ok(()));
}

#[test]
fn removing_an_unsettled_beneficiary_keeps_the_count() {
    let mut p = payroll_with(vec![(acct(2), vec![(0, 100)]), (acct(3), vec![(1, 3)])]);
    p.claim_payment(acct(2), 0, 3, TREASURY).unwrap();
    p.remove_beneficiary(owner(), acct(3)).unwrap();
    assert_eq!(p.get_claims_in_period().total_claims, 1);
    assert_eq!(p.ensure_all_claimed_in_period(3), Ok(()));
}

#[test]
fn weights_of_unregistered_multipliers_never_count() {
    let p = payroll_with(vec![(acct(2), vec![(0, 100)])]);
    let mut parts = p.to_parts();
    parts.beneficiaries[0].multipliers.push((7, 50));
    let q = OpenPayroll::from_parts(parts).unwrap();
    assert_eq!(q.get_amount_to_claim(acct(2), 2), Ok(1000));
    assert_eq!(q.get_total_debt_for_next_period(), Ok(1000));
}

#[test]
fn gate_stays_closed_in_later_periods_until_the_newcomer_claims() {
    let mut p = payroll_with(vec![(acct(2), vec![(0, 100)])]);
    p.add_beneficiary(owner(), acct(3), vec![], 1).unwrap();
    p.claim_payment(acct(2), 0, 5, TREASURY).unwrap();
    assert_eq!(p.ensure_all_claimed_in_period(5), Err(Error::NotAllClaimedInPeriod));
    assert_eq!(p.update_periodicity(owner(), 4, 5), Err(Error::NotAllClaimedInPeriod));
    p.claim_payment(acct(3), 0, 5, TREASURY).unwrap();
    assert_eq!(p.ensure_all_claimed_in_period(5), Ok(()));
}
