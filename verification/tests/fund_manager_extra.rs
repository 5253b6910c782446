use euclid::coin::{Coin, Uint128};
use euclid::error::ContractError;
use euclid::utils::fund_manager::FundManager;

#[test]
fn get_of_unknown_denom_is_zero() {
    let fund_manager = FundManager::new(&[Coin::new(100, "atom")]);
    assert_eq!(fund_manager.get("osmo"), Uint128::zero());
    assert!(fund_manager.get("osmo").is_zero());
}

#[test]
fn new_sums_each_denom_separately() {
    let fund_manager = FundManager::new(&[
        Coin::new(100, "atom"),
        Coin::new(7, "osmo"),
        Coin::new(200, "atom"),
        Coin::new(3, "osmo"),
    ]);
    assert_eq!(fund_manager.get("atom"), Uint128::new(300));
    assert_eq!(fund_manager.get("osmo"), Uint128::new(10));
}

#[test]
fn new_accepts_the_largest_total() {
    let fund_manager = FundManager::new(&[Coin::new(u128::MAX - 5, "atom"), Coin::new(5, "atom")]);
    assert_eq!(fund_manager.get("atom").u128(), u128::MAX);
}

#[test]
fn use_fund_zero_amount_is_refused_and_changes_nothing() {
    let mut fund_manager = FundManager::new(&[Coin::new(100, "atom")]);
    assert_eq!(
        fund_manager.use_fund(Uint128::zero(), "atom"),
        Err(ContractError::new("Amount cannot be zero"))
    );
    assert_eq!(fund_manager.get("atom"), Uint128::new(100));
}

#[test]
fn use_fund_of_unknown_denom_is_insufficient() {
    let mut fund_manager = FundManager::new(&[Coin::new(100, "atom")]);
    assert_eq!(
        fund_manager.use_fund(Uint128::new(1), "osmo"),
        Err(ContractError::InsufficientFunds {})
    );
    assert_eq!(fund_manager.get("osmo"), Uint128::zero());
    assert_eq!(fund_manager.validate_funds_are_empty(), Err(ContractError::new("Funds should be empty")));
}

#[test]
fn refused_use_fund_leaves_balance() {
    let mut fund_manager = FundManager::new(&[Coin::new(100, "atom")]);
    assert!(fund_manager.use_fund(Uint128::new(101), "atom").is_err());
    assert_eq!(fund_manager.get("atom"), Uint128::new(100));
}

#[test]
fn use_fund_touches_only_its_denom() {
    let mut fund_manager = FundManager::new(&[Coin::new(100, "atom"), Coin::new(40, "osmo")]);
    assert_eq!(fund_manager.use_fund(Uint128::new(30), "osmo"), Ok(()));
    assert_eq!(fund_manager.get("osmo"), Uint128::new(10));
    assert_eq!(fund_manager.get("atom"), Uint128::new(100));
}

#[test]
fn add_then_use_restores_balances() {
    let mut fund_manager = FundManager::new(&[Coin::new(100, "atom")]);
    let coin = Coin::new(25, "osmo");
    fund_manager.add(&coin);
    assert_eq!(fund_manager.get("osmo"), Uint128::new(25));
    assert_eq!(fund_manager.use_fund(coin.amount, "osmo"), Ok(()));
    assert_eq!(fund_manager.get("osmo"), Uint128::zero());
    assert_eq!(fund_manager.get("atom"), Uint128::new(100));
}

#[test]
fn use_then_add_restores_funds() {
    let mut fund_manager = FundManager::new(&[Coin::new(100, "atom")]);
    assert_eq!(fund_manager.use_fund(Uint128::new(60), "atom"), Ok(()));
    fund_manager.add(&Coin::new(60, "atom"));
    assert_eq!(fund_manager.get("atom"), Uint128::new(100));
    assert_eq!(fund_manager.validate_non_zero_funds(), Ok(()));
}

#[test]
fn add_of_existing_denom_accumulates() {
    let mut fund_manager = FundManager::new(&[Coin::new(1, "atom")]);
    fund_manager.add(&Coin::new(2, "atom"));
    fund_manager.add(&Coin::new(3, "atom"));
    assert_eq!(fund_manager.get("atom"), Uint128::new(6));
}

#[test]
fn both_validations_pass_only_without_funds() {
    let empty = FundManager::new(&[]);
    assert_eq!(empty.validate_non_zero_funds(), Ok(()));
    assert_eq!(empty.validate_funds_are_empty(), Ok(()));

    let held = FundManager::new(&[Coin::new(5, "atom")]);
    assert_eq!(held.validate_non_zero_funds(), Ok(()));
    assert!(held.validate_funds_are_empty().is_err());

    let zero = FundManager::new(&[Coin::new(0, "atom")]);
    assert!(zero.validate_non_zero_funds().is_err());
    assert_eq!(zero.validate_funds_are_empty(), Ok(()));
}

#[test]
fn using_whole_balance_empties_only_when_others_are_zero() {
    let mut fund_manager = FundManager::new(&[Coin::new(100, "atom"), Coin::new(1, "osmo")]);
    assert_eq!(fund_manager.use_fund(Uint128::new(100), "atom"), Ok(()));
    assert!(fund_manager.validate_funds_are_empty().is_err());
    assert_eq!(fund_manager.use_fund(Uint128::new(1), "osmo"), Ok(()));
    assert_eq!(fund_manager.validate_funds_are_empty(), Ok(()));
    assert_eq!(
        fund_manager.validate_non_zero_funds(),
        Err(ContractError::new("Funds cannot be zero"))
    );
}

#[test]
fn coin_and_amount_constructors() {
    let coin = Coin::new(42, "uatom");
    assert_eq!(coin.denom, "uatom".to_string());
    assert_eq!(coin.amount.u128(), 42);
    assert!(!Uint128::new(1).is_zero());
    assert!(Uint128::zero().is_zero());
}

#[test]
fn contract_error_new_is_generic() {
    assert_eq!(
        ContractError::new("oops"),
        ContractError::Generic { err: "oops".to_string() }
    );
}

#[test]
fn new_then_add_equals_new_of_longer_list() {
    let mut stepwise = FundManager::new(&[Coin::new(4, "atom"), Coin::new(9, "osmo")]);
    stepwise.add(&Coin::new(6, "atom"));
    let at_once = FundManager::new(&[Coin::new(4, "atom"), Coin::new(9, "osmo"), Coin::new(6, "atom")]);
    assert_eq!(stepwise.get("atom"), at_once.get("atom"));
    assert_eq!(stepwise.get("osmo"), at_once.get("osmo"));
    assert_eq!(stepwise.get("atom"), Uint128::new(10));
}

#[test]
fn validations_of_new_follow_the_coins() {
    let non_zero = FundManager::new(&[Coin::new(3, "atom"), Coin::new(5, "osmo")]);
    assert_eq!(non_zero.validate_non_zero_funds(), Ok(()));
    let mixed = FundManager::new(&[Coin::new(0, "atom"), Coin::new(5, "atom")]);
    assert_eq!(mixed.validate_non_zero_funds(), Ok(()));
    assert!(mixed.validate_funds_are_empty().is_err());
    let zeros = FundManager::new(&[Coin::new(0, "atom"), Coin::new(0, "osmo")]);
    assert_eq!(zeros.validate_funds_are_empty(), Ok(()));
    assert!(zeros.validate_non_zero_funds().is_err());
}
