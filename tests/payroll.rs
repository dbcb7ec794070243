use open_payroll::payroll::OpenPayroll;
use open_payroll::types::{AccountId, BaseMultiplier, Beneficiary, ClaimsInPeriod, InitialBeneficiary};
use open_payroll::Error;

const TREASURY: u128 = 100_000_000;

fn account(byte: u8) -> AccountId {
    let half = u128::from_be_bytes([byte; 16]);
    (half, half)
}

fn alice() -> AccountId {
    account(1)
}

fn bob() -> AccountId {
    account(2)
}

fn charlie() -> AccountId {
    account(3)
}

fn names() -> Vec<String> {
    vec!["Seniority".to_string(), "Performance".to_string()]
}

fn create_contract() -> OpenPayroll {
    let beneficiary_bob = InitialBeneficiary { account_id: bob(), multipliers: vec![(0, 100), (1, 3)] };
    let beneficiary_charlie = InitialBeneficiary { account_id: charlie(), multipliers: vec![(0, 100), (1, 3)] };
    OpenPayroll::new(alice(), 0, 2, 1000, names(), vec![beneficiary_bob, beneficiary_charlie]).expect("Cannot create contract")
}

fn create_contract_with_no_beneficiaries() -> OpenPayroll {
    OpenPayroll::new(alice(), 0, 2, 1000, names(), vec![]).expect("Cannot create contract")
}

fn create_contract_with_no_beneficiaries_periodicity(periodicity: u32) -> OpenPayroll {
    OpenPayroll::new(alice(), 0, periodicity, 1000, names(), vec![]).expect("Cannot create contract")
}

#[test]
fn default_works() {
    let contract = create_contract();
    assert_eq!(contract.get_base_payment(), 1000);
}

#[test]
fn create_contract_ok() {
    let beneficiary_bob = InitialBeneficiary { account_id: bob(), multipliers: vec![(0, 100), (1, 3)] };
    let beneficiary_charlie = InitialBeneficiary { account_id: charlie(), multipliers: vec![(0, 100), (1, 10)] };
    let res = OpenPayroll::new(alice(), 0, 2, 1000, names(), vec![beneficiary_bob, beneficiary_charlie]);
    assert!(matches!(res, Ok(_)));
    let contract = res.unwrap();

    assert_eq!(
        contract.get_base_multiplier(0).unwrap(),
        BaseMultiplier { name: "Seniority".to_string(), valid_until_block: None }
    );
    assert_eq!(
        contract.get_base_multiplier(1).unwrap(),
        BaseMultiplier { name: "Performance".to_string(), valid_until_block: None }
    );

    assert_eq!(
        contract.get_beneficiary(bob()).unwrap(),
        Beneficiary {
            account_id: bob(),
            multipliers: vec![(0, 100), (1, 3)],
            unclaimed_payments: 0,
            last_updated_period_block: 0,
        }
    );
    assert_eq!(
        contract.get_beneficiary(charlie()).unwrap(),
        Beneficiary {
            account_id: charlie(),
            multipliers: vec![(0, 100), (1, 10)],
            unclaimed_payments: 0,
            last_updated_period_block: 0,
        }
    );

    let list = contract.get_list_beneficiaries();
    assert_eq!(list[0], bob());
    assert_eq!(list[1], charlie());

    assert_eq!(contract.get_claims_in_period(), ClaimsInPeriod { period: 0, total_claims: 0 });
}

#[test]
fn create_contract_with_invalid_amount_of_multipliers() {
    let bob_ok = InitialBeneficiary { account_id: bob(), multipliers: vec![(0, 100), (1, 3)] };
    let charlie_short = InitialBeneficiary { account_id: charlie(), multipliers: vec![(0, 100)] };
    let res = OpenPayroll::new(alice(), 0, 2, 1000, names(), vec![bob_ok, charlie_short]);
    assert!(matches!(res, Err(Error::InvalidMultipliersLength)));

    let bob_short = InitialBeneficiary { account_id: bob(), multipliers: vec![(0, 100)] };
    let charlie_short = InitialBeneficiary { account_id: charlie(), multipliers: vec![(0, 100)] };
    let res = OpenPayroll::new(alice(), 0, 2, 1000, names(), vec![bob_short, charlie_short]);
    assert!(matches!(res, Err(Error::InvalidMultipliersLength)));

    let bob_empty = InitialBeneficiary { account_id: bob(), multipliers: vec![] };
    let charlie_empty = InitialBeneficiary { account_id: charlie(), multipliers: vec![] };
    let res = OpenPayroll::new(alice(), 0, 2, 1000, names(), vec![bob_empty, charlie_empty]);
    assert!(matches!(res, Err(Error::InvalidMultipliersLength)));

    let bob_three = InitialBeneficiary { account_id: bob(), multipliers: vec![(0, 10), (1, 3), (2, 3)] };
    let charlie_two = InitialBeneficiary { account_id: charlie(), multipliers: vec![(0, 10), (1, 3)] };
    let three_names = vec!["Seniority".to_string(), "Performance".to_string(), "Years_at_company".to_string()];
    let res = OpenPayroll::new(alice(), 0, 2, 1000, three_names, vec![bob_three, charlie_two]);
    assert!(matches!(res, Err(Error::InvalidMultipliersLength)));
}

#[test]
fn create_contract_with_duplicated_beneficiaries() {
    let beneficiary_1 = InitialBeneficiary { account_id: bob(), multipliers: vec![(0, 100), (1, 3)] };
    let beneficiary_2 = InitialBeneficiary { account_id: bob(), multipliers: vec![(0, 100), (1, 3)] };
    let res = OpenPayroll::new(alice(), 0, 2, 1000, names(), vec![beneficiary_1, beneficiary_2]);
    assert!(matches!(res, Err(Error::DuplicatedBeneficiaries)));
}

#[test]
fn add_beneficiary() {
    let mut contract = create_contract_with_no_beneficiaries();
    contract.add_beneficiary(alice(), bob(), vec![(0, 200), (1, 100)], 0).unwrap();
    assert_eq!(contract.get_beneficiary(bob()).unwrap().multipliers, vec![(0, 200), (1, 100)]);
    contract.update_beneficiary(alice(), bob(), vec![(0, 200), (1, 50)], 0).unwrap();
    assert_eq!(contract.get_beneficiary(bob()).unwrap().multipliers, vec![(0, 200), (1, 50)]);
    assert_eq!(contract.get_list_beneficiaries()[0], bob());
}

#[test]
fn add_beneficiary_without_access() {
    let mut contract = create_contract_with_no_beneficiaries();
    assert!(matches!(contract.add_beneficiary(bob(), bob(), vec![(0, 100), (1, 100)], 0), Err(Error::NotOwner)));
    assert_eq!(contract.get_list_beneficiaries().len(), 0);
}

#[test]
fn add_beneficiary_with_no_multipliers() {
    let mut contract = create_contract_with_no_beneficiaries();
    assert!(matches!(contract.add_beneficiary(alice(), bob(), vec![], 0), Ok(_)));
}

#[test]
fn remove_beneficiary() {
    let mut contract = create_contract_with_no_beneficiaries();
    contract.add_beneficiary(alice(), bob(), vec![(0, 100), (1, 20)], 0).unwrap();
    assert_eq!(contract.get_list_beneficiaries().len(), 1);
    assert_eq!(contract.get_list_beneficiaries()[0], bob());
    assert_eq!(contract.get_beneficiary(bob()).unwrap().multipliers, vec![(0, 100), (1, 20)]);
    contract.remove_beneficiary(alice(), bob()).unwrap();
    assert!(matches!(contract.get_beneficiary(bob()), Err(Error::AccountNotFound)));
    assert_eq!(contract.get_list_beneficiaries().len(), 0);
}

#[test]
fn remove_beneficiary_without_access() {
    let mut contract = create_contract_with_no_beneficiaries();
    contract.add_beneficiary(alice(), bob(), vec![(0, 100), (1, 20)], 0).unwrap();
    assert!(matches!(contract.remove_beneficiary(bob(), bob()), Err(Error::NotOwner)));
    assert_eq!(contract.get_list_beneficiaries().len(), 1);
    assert_eq!(contract.get_list_beneficiaries()[0], bob());
}

#[test]
fn remove_beneficiary_not_found() {
    let mut contract = create_contract_with_no_beneficiaries();
    assert!(matches!(contract.remove_beneficiary(alice(), bob()), Err(Error::AccountNotFound)));
}

#[test]
fn update_base_payment_in_initial_block() {
    let mut contract = create_contract();
    contract.update_base_payment(alice(), 200_000_000, 0).unwrap();
    assert_eq!(contract.get_base_payment(), 200_000_000);
}

#[test]
fn update_base_payment() {
    let mut contract = create_contract();
    contract.update_base_payment(alice(), 200_000_000, 1).unwrap();
    assert_eq!(contract.get_base_payment(), 200_000_000);
}

#[test]
fn update_base_payment_error() {
    let mut contract = create_contract();
    assert!(matches!(contract.update_base_payment(alice(), 200_000_000, 3), Err(Error::NotAllClaimedInPeriod)));
}

#[test]
fn update_base_payment_without_access() {
    let mut contract = create_contract();
    assert!(matches!(contract.update_base_payment(bob(), 200_000_000, 0), Err(Error::NotOwner)));
}

#[test]
fn update_base_payment_invalid_base_payment() {
    let mut contract = create_contract();
    assert!(matches!(contract.update_base_payment(alice(), 0, 0), Err(Error::InvalidParams)));
}

#[test]
fn update_periodicity() {
    let mut contract = create_contract();
    contract.update_periodicity(alice(), 100, 0).unwrap();
    assert_eq!(contract.get_periodicity(), 100);
}

#[test]
fn update_periodicity_without_access() {
    let mut contract = create_contract();
    assert!(matches!(contract.update_periodicity(bob(), 100, 0), Err(Error::NotOwner)));
}

#[test]
fn update_periodicity_invalid_periodicity() {
    let mut contract = create_contract();
    assert!(matches!(contract.update_periodicity(alice(), 0, 0), Err(Error::InvalidParams)));
}

#[test]
fn pause_and_resume() {
    let starting_block = 0;
    let mut contract = create_contract();
    contract.pause(alice(), 0).unwrap();
    assert!(contract.is_paused());
    contract.resume(alice()).unwrap();
    assert!(!contract.is_paused());
    assert_eq!(contract.get_initial_block(), starting_block);
}

#[test]
fn pause_and_resume_without_access() {
    let mut contract = create_contract();
    assert!(matches!(contract.pause(bob(), 0), Err(Error::NotOwner)));
    assert!(matches!(contract.resume(bob()), Err(Error::NotOwner)));
}

#[test]
fn claim_payment() {
    let mut contract = create_contract();
    contract.update_beneficiary(alice(), bob(), vec![(0, 100), (1, 20)], 0).unwrap();
    let amount_to_claim = contract.get_amount_to_claim(bob(), 3).unwrap();
    let claimed = contract.claim_payment(bob(), amount_to_claim, 3, TREASURY).unwrap();
    assert!(claimed.amount > 0);
    assert_eq!(claimed.amount, amount_to_claim);
    assert_eq!(claimed.amount, 1200);
}

#[test]
fn claim_parcial_payment() {
    let total_not_claimed = 10;
    let mut contract = create_contract();
    contract.update_beneficiary(alice(), bob(), vec![(0, 100), (1, 20)], 0).unwrap();
    let amount_to_claim = contract.get_amount_to_claim(bob(), 3).unwrap();
    let claimed = contract.claim_payment(bob(), amount_to_claim - total_not_claimed, 3, TREASURY).unwrap();
    assert!(TREASURY - claimed.amount == TREASURY - amount_to_claim + total_not_claimed);
    assert!(claimed.amount == amount_to_claim - total_not_claimed);
    assert!(contract.get_beneficiary(bob()).unwrap().unclaimed_payments == total_not_claimed);
}

#[test]
fn claim_more_payment() {
    let mut contract = create_contract();
    contract.update_beneficiary(alice(), bob(), vec![(0, 100), (1, 20)], 0).unwrap();
    let amount_to_claim = contract.get_amount_to_claim(bob(), 3).unwrap();
    let before = contract.get_beneficiary(bob()).unwrap();
    let res = contract.claim_payment(bob(), amount_to_claim + 1, 3, TREASURY);
    assert!(matches!(res, Err(Error::ClaimedAmountIsBiggerThanAvailable)));
    assert!(contract.get_beneficiary(bob()).unwrap() == before);
    assert!(contract.get_claims_in_period() == ClaimsInPeriod { period: 0, total_claims: 0 });
}

#[test]
fn update_periodicity_without_all_payments_updated() {
    let mut contract = create_contract();
    contract.update_beneficiary(alice(), bob(), vec![(0, 100), (1, 20)], 0).unwrap();
    let res = contract.update_periodicity(alice(), 10, 3);
    assert!(matches!(res, Err(Error::NotAllClaimedInPeriod)));
}

#[test]
fn update_periodicity_with_all_payments_updated() {
    let mut contract = create_contract_with_no_beneficiaries();
    contract.add_beneficiary(alice(), bob(), vec![(0, 100), (1, 20)], 0).unwrap();
    contract.claim_payment(bob(), 0, 3, TREASURY).unwrap();
    let res = contract.update_periodicity(alice(), 10, 3);
    assert!(matches!(res, Ok(_)));
}

#[test]
fn update_periodicity_with_all_payments_claimed() {
    let mut contract = create_contract_with_no_beneficiaries();
    contract.add_beneficiary(alice(), bob(), vec![(0, 100), (1, 20)], 0).unwrap();
    let amount_to_claim = contract.get_amount_to_claim(bob(), 3).unwrap();
    contract.claim_payment(bob(), amount_to_claim, 3, TREASURY).unwrap();
    let res = contract.update_periodicity(alice(), 10, 3);
    assert!(res.is_ok());
}

#[test]
fn update_base_payment_without_all_payments_updated() {
    let mut contract = create_contract_with_no_beneficiaries();
    contract.add_beneficiary(alice(), bob(), vec![(0, 100), (1, 20)], 0).unwrap();
    let res = contract.update_base_payment(alice(), 900, 3);
    assert!(matches!(res, Err(Error::NotAllClaimedInPeriod)));
}

#[test]
fn update_base_payment_with_all_payments_claimed() {
    let mut contract = create_contract_with_no_beneficiaries();
    contract.add_beneficiary(alice(), bob(), vec![(0, 100), (1, 20)], 0).unwrap();
    let amount_to_claim = contract.get_amount_to_claim(bob(), 3).unwrap();
    contract.claim_payment(bob(), amount_to_claim, 3, TREASURY).unwrap();
    let res = contract.update_base_payment(alice(), 900, 3);
    assert_eq!(res, Ok(()));
}

#[test]
fn create_contract_with_beneficiaries_ok() {
    let contract = create_contract();
    assert_eq!(contract.get_list_beneficiaries().len(), 2);
    assert!(contract.get_beneficiary(bob()).is_ok());
    assert!(contract.get_beneficiary(charlie()).is_ok());
}

#[test]
fn update_benefiaries_created_in_create_contract() {
    let mut contract = create_contract();
    contract.update_beneficiary(alice(), bob(), vec![(0, 100), (1, 20)], 0).unwrap();
    assert_eq!(contract.get_beneficiary(bob()).unwrap().multipliers, vec![(0, 100), (1, 20)]);
    assert_eq!(contract.get_beneficiary(charlie()).unwrap().multipliers, vec![(0, 100), (1, 3)]);
}

#[test]
fn check_deactivate_multiplier() {
    let mut contract = create_contract();
    let res = contract.deactivate_multiplier(1, 6);
    assert!(res.is_ok());
    assert_eq!(res.unwrap().valid_until_block, 8);
    assert_eq!(contract.get_base_multiplier(1).unwrap().valid_until_block.unwrap(), 8);
    assert_eq!(contract.get_base_multiplier(0).unwrap().valid_until_block, None);
}

#[test]
fn check_current_start_period_block() {
    let contract = create_contract_with_no_beneficiaries_periodicity(3);
    assert_eq!(contract.get_current_period_initial_block(6), 6);
    assert_eq!(contract.get_current_period_initial_block(7), 6);
    assert_eq!(contract.get_current_period_initial_block(8), 6);
    assert_eq!(contract.get_current_period_initial_block(9), 9);
}

#[test]
fn check_next_block_period() {
    let contract = create_contract_with_no_beneficiaries_periodicity(3);
    assert_eq!(contract.get_next_block_period(0), Ok(3));
    assert_eq!(contract.get_next_block_period(4), Ok(6));
}

#[test]
fn check_list_beneficiaries() {
    let contract = create_contract();
    assert_eq!(contract.get_list_beneficiaries(), vec![bob(), charlie()]);
    let contract = create_contract_with_no_beneficiaries_periodicity(3);
    assert_eq!(contract.get_list_beneficiaries(), Vec::<AccountId>::new());
}

#[test]
fn check_contract_balance() {
    let total_balance = 100_000_001u128;
    let mut contract = create_contract();
    let amount_to_claim = contract.get_amount_to_claim(bob(), 3).unwrap();
    let claimed = contract.claim_payment(bob(), amount_to_claim, 3, total_balance).unwrap();
    assert_eq!(total_balance - claimed.amount, 99998971u128);
}

#[test]
fn check_unclaimed_beneficiaries() {
    let total_balance = 100_000_001u128;
    let mut contract = create_contract();

    assert_eq!(contract.get_unclaimed_beneficiaries(0), Vec::<AccountId>::new());
    assert_eq!(contract.get_count_of_unclaim_beneficiaries(0), 0);

    assert_eq!(contract.get_unclaimed_beneficiaries(1), Vec::<AccountId>::new());
    assert_eq!(contract.get_count_of_unclaim_beneficiaries(1), 0);

    assert_eq!(contract.get_unclaimed_beneficiaries(2), vec![bob(), charlie()]);
    assert_eq!(contract.get_count_of_unclaim_beneficiaries(2), 2);

    let amount_to_claim = contract.get_amount_to_claim(bob(), 2).unwrap();
    contract.claim_payment(bob(), amount_to_claim, 2, total_balance).unwrap();
    assert_eq!(contract.get_unclaimed_beneficiaries(2), vec![charlie()]);
    assert_eq!(contract.get_count_of_unclaim_beneficiaries(2), 1);
}

#[test]
fn check_total_balance_and_debts_on_init() {
    let total_balance = 100_000_001u128;
    let contract = create_contract();
    assert_eq!(contract.get_total_debts(0), Ok(0));
    assert_eq!(contract.get_balance_with_debts(total_balance, 0), Ok(total_balance));
}

#[test]
fn check_total_debts_with_individual_debts() {
    let total_balance = 100_000_001u128;
    let contract = create_contract();
    let bob_amount_claim = contract.get_amount_to_claim(bob(), 2).unwrap();
    let charlie_amount_claim = contract.get_amount_to_claim(charlie(), 2).unwrap();
    let total_debts = contract.get_total_debts(2).unwrap();
    assert_eq!(total_debts, 2060);
    assert_eq!(total_debts, bob_amount_claim + charlie_amount_claim);
    assert_eq!(
        contract.get_balance_with_debts(total_balance, 2),
        Ok(total_balance - (bob_amount_claim + charlie_amount_claim))
    );
}

#[test]
fn check_is_total_debts_is_zero_after_all_claims() {
    let total_balance = 100_000_001u128;
    let mut contract = create_contract();
    let bob_amount_claim = contract.get_amount_to_claim(bob(), 2).unwrap();
    let charlie_amount_claim = contract.get_amount_to_claim(charlie(), 2).unwrap();
    contract.claim_payment(bob(), bob_amount_claim, 2, total_balance).unwrap();
    contract.claim_payment(charlie(), charlie_amount_claim, 2, total_balance - bob_amount_claim).unwrap();
    assert_eq!(contract.get_total_debts(2), Ok(0));
}

#[test]
fn check_total_debt_with_unclaimed_for_next_period_on_init() {
    let contract = create_contract();
    assert_eq!(contract.get_total_debt_with_unclaimed_for_next_period(0), Ok(2060));
}

#[test]
fn check_total_debt_with_unclaimed_for_next_period_advancing_a_period() {
    let contract = create_contract();
    assert_eq!(contract.get_total_debt_with_unclaimed_for_next_period(2), Ok(4120));
    assert_eq!(contract.get_total_debt_for_next_period(), Ok(2060));
}

#[test]
fn check_max_beneficiaries() {
    let mut contract = create_contract_with_no_beneficiaries();
    let max_beneficiaries = 100u8;
    for n in 0..max_beneficiaries {
        contract.add_beneficiary(alice(), account(n), vec![], 0).unwrap();
    }
    assert_eq!(contract.get_list_beneficiaries().len() as u8, max_beneficiaries);
    let res = contract.add_beneficiary(alice(), account(255), vec![], 0);
    assert!(matches!(res, Err(Error::MaxBeneficiariesExceeded)));
}

#[test]
fn failing_not_transfered_ownership() {
    let mut contract = create_contract();
    assert!(matches!(contract.accept_ownership(alice()), Err(Error::NotOwner)));
}

#[test]
fn check_transfer_ownership() {
    let mut contract = create_contract();
    assert_eq!(contract.get_proposed_owner(), None);
    assert_eq!(contract.get_owner(), alice());
    assert!(contract.propose_transfer_ownership(alice(), bob()).is_ok());
    assert_eq!(contract.get_proposed_owner(), Some(bob()));
    assert!(contract.accept_ownership(bob()).is_ok());
    assert_eq!(contract.get_owner(), bob());
    assert_eq!(contract.get_proposed_owner(), None);
}

#[test]
fn check_max_beneficiaries_from_creation() {
    let mut beneficiaries = Vec::new();
    for n in 0..101u8 {
        beneficiaries.push(InitialBeneficiary { account_id: account(n), multipliers: vec![] });
    }
    let res = OpenPayroll::new(alice(), 0, 2, 1000, names(), beneficiaries);
    assert!(matches!(res, Err(Error::MaxBeneficiariesExceeded)));
}

#[test]
fn check_max_multipliers_from_creation() {
    let mut multipliers = Vec::new();
    for num in 0..11u8 {
        multipliers.push(num.to_string());
    }
    let beneficiary = InitialBeneficiary { account_id: account(1), multipliers: vec![] };
    let res = OpenPayroll::new(alice(), 0, 2, 1000, multipliers, vec![beneficiary]);
    assert!(matches!(res, Err(Error::MaxMultipliersExceeded)));
}

#[test]
fn check_max_multipliers() {
    let mut contract = create_contract_with_no_beneficiaries();
    for n in 2..10u8 {
        contract.add_base_multiplier(alice(), n.to_string()).unwrap();
    }
    assert_eq!(contract.get_multipliers_list().len(), 10);
    let res = contract.add_base_multiplier(alice(), "max+1".to_string());
    assert!(matches!(res, Err(Error::MaxMultipliersExceeded)));
}
