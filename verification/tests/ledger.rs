use token_platform::erc_20::{Erc20, Erc20Error, Erc20Params};

fn test_params() -> Erc20Params {
    Erc20Params {
        name: "Test Token".to_string(),
        symbol: "TST".to_string(),
        decimals: 18,
        initial_supply: 1_000_000,
    }
}

#[test]
fn test_initialization() {
    let mut erc20 = Erc20::new(test_params());
    let owner: u64 = 1;
    erc20.init(owner).unwrap();

    assert_eq!(erc20.name(), "Test Token");
    assert_eq!(erc20.symbol(), "TST");
    assert_eq!(erc20.total_supply(), 1_000_000);
    assert_eq!(erc20.balance_of(owner), 1_000_000);
}

#[test]
fn test_transfer_success() {
    let mut erc20 = Erc20::new(test_params());
    let owner: u64 = 1;
    let recipient: u64 = 2;
    erc20.init(owner).unwrap();

    assert!(erc20.transfer(owner, recipient, 100).unwrap());
    assert_eq!(erc20.balance_of(owner), 999_900);
    assert_eq!(erc20.balance_of(recipient), 100);
}

#[test]
fn init_is_one_shot() {
    let mut erc20 = Erc20::new(test_params());
    erc20.init(1).unwrap();
    let second = erc20.init(2);
    assert_eq!(second, Err(Erc20Error::Unauthorized()));
    assert_eq!(erc20.total_supply(), 1_000_000);
    assert_eq!(erc20.balance_of(1), 1_000_000);
    assert_eq!(erc20.balance_of(2), 0);
}

#[test]
fn mint_requires_exact_minter() {
    let mut erc20 = Erc20::new(test_params());
    erc20.init(1).unwrap();
    let outsider = erc20.mint(2, 3, 50);
    assert_eq!(outsider, Err(Erc20Error::Unauthorized()));
    assert_eq!(erc20.total_supply(), 1_000_000);
    assert_eq!(erc20.balance_of(3), 0);

    erc20.mint(1, 3, 50).unwrap();
    assert_eq!(erc20.total_supply(), 1_000_050);
    assert_eq!(erc20.balance_of(3), 50);
}

#[test]
fn mint_to_zero_rejected() {
    let mut erc20 = Erc20::new(test_params());
    erc20.init(1).unwrap();
    assert_eq!(erc20.mint(1, 0, 50), Err(Erc20Error::MintToZeroAddress()));
    assert_eq!(erc20.total_supply(), 1_000_000);
}

#[test]
fn mint_overflow_fails() {
    let mut erc20 = Erc20::new(Erc20Params {
        name: "Test Token".to_string(),
        symbol: "TST".to_string(),
        decimals: 18,
        initial_supply: u128::MAX,
    });
    erc20.init(1).unwrap();
    assert_eq!(erc20.mint(1, 2, 1), Err(Erc20Error::Overflow()));
    assert_eq!(erc20.total_supply(), u128::MAX);
    assert_eq!(erc20.balance_of(2), 0);
}

#[test]
fn set_minter_gated_by_owner() {
    let mut erc20 = Erc20::new(test_params());
    erc20.init(1).unwrap();
    assert_eq!(erc20.set_minter(2, 2), Err(Erc20Error::Unauthorized()));

    erc20.set_minter(1, 5).unwrap();
    // The old minter (the owner) has lost the role; the new one holds it.
    assert_eq!(erc20.mint(1, 3, 10), Err(Erc20Error::Unauthorized()));
    erc20.mint(5, 3, 10).unwrap();
    assert_eq!(erc20.balance_of(3), 10);
}

#[test]
fn burn_checks_balance_and_zero_address() {
    let mut erc20 = Erc20::new(test_params());
    erc20.init(1).unwrap();
    assert_eq!(erc20.burn(0, 1), Err(Erc20Error::BurnFromZeroAddress()));
    assert_eq!(erc20.burn(2, 1), Err(Erc20Error::InsufficientBalance(2, 0, 1)));

    // Any caller may burn from an account with enough balance.
    erc20.burn(1, 400_000).unwrap();
    assert_eq!(erc20.total_supply(), 600_000);
    assert_eq!(erc20.balance_of(1), 600_000);
}

#[test]
fn transfer_insufficient_balance_changes_nothing() {
    let mut erc20 = Erc20::new(test_params());
    erc20.init(1).unwrap();
    let r = erc20.transfer(2, 3, 7);
    assert_eq!(r, Err(Erc20Error::InsufficientBalance(2, 0, 7)));
    assert_eq!(erc20.balance_of(1), 1_000_000);
    assert_eq!(erc20.balance_of(2), 0);
    assert_eq!(erc20.balance_of(3), 0);
    assert_eq!(erc20.total_supply(), 1_000_000);
}

#[test]
fn transfer_to_zero_rejected() {
    let mut erc20 = Erc20::new(test_params());
    erc20.init(1).unwrap();
    assert_eq!(erc20.transfer(1, 0, 5), Err(Erc20Error::TransferFailed()));
    assert_eq!(erc20.balance_of(1), 1_000_000);
}

#[test]
fn approve_overwrites_and_rejects_zero_spender() {
    let mut erc20 = Erc20::new(test_params());
    erc20.init(1).unwrap();
    assert_eq!(erc20.approve(1, 0, 5), Err(Erc20Error::ApprovalFailed()));

    assert!(erc20.approve(1, 2, 500).unwrap());
    assert_eq!(erc20.allowance(1, 2), 500);
    // Approval overwrites; it never adds.
    assert!(erc20.approve(1, 2, 30).unwrap());
    assert_eq!(erc20.allowance(1, 2), 30);
}

#[test]
fn transfer_from_spends_allowance_exactly() {
    let mut erc20 = Erc20::new(test_params());
    erc20.init(1).unwrap();
    erc20.approve(1, 2, 500).unwrap();
    erc20.approve(1, 4, 111).unwrap();

    assert!(erc20.transfer_from(2, 1, 3, 200).unwrap());
    assert_eq!(erc20.allowance(1, 2), 300);
    // No other allowance entry changes.
    assert_eq!(erc20.allowance(1, 4), 111);
    assert_eq!(erc20.balance_of(1), 999_800);
    assert_eq!(erc20.balance_of(3), 200);
    assert_eq!(erc20.total_supply(), 1_000_000);
}

#[test]
fn transfer_from_insufficient_allowance() {
    let mut erc20 = Erc20::new(test_params());
    erc20.init(1).unwrap();
    erc20.approve(1, 2, 10).unwrap();
    let r = erc20.transfer_from(2, 1, 3, 11);
    assert_eq!(r, Err(Erc20Error::InsufficientAllowance(1, 2, 10, 11)));
    assert_eq!(erc20.allowance(1, 2), 10);
    assert_eq!(erc20.balance_of(1), 1_000_000);
}

#[test]
fn transfer_from_rolls_back_allowance_on_balance_failure() {
    let mut erc20 = Erc20::new(test_params());
    erc20.init(1).unwrap();
    // Account 5 holds nothing but grants a large allowance.
    erc20.approve(5, 2, 1_000).unwrap();
    let r = erc20.transfer_from(2, 5, 3, 600);
    assert_eq!(r, Err(Erc20Error::InsufficientBalance(5, 0, 600)));
    // The whole operation rolled back, the allowance with it.
    assert_eq!(erc20.allowance(5, 2), 1_000);
    assert_eq!(erc20.balance_of(3), 0);
}

#[test]
fn transfer_from_to_zero_rejected() {
    let mut erc20 = Erc20::new(test_params());
    erc20.init(1).unwrap();
    erc20.approve(1, 2, 10).unwrap();
    assert_eq!(erc20.transfer_from(2, 1, 0, 5), Err(Erc20Error::TransferFailed()));
    assert_eq!(erc20.allowance(1, 2), 10);
}

#[test]
fn conservation_across_operation_sequence() {
    let mut erc20 = Erc20::new(test_params());
    erc20.init(1).unwrap();
    erc20.mint(1, 2, 500).unwrap();
    erc20.transfer(1, 3, 250_000).unwrap();
    erc20.approve(3, 2, 100_000).unwrap();
    erc20.transfer_from(2, 3, 4, 60_000).unwrap();
    erc20.burn(4, 20_000).unwrap();

    // Every account that ever took part, summed, equals the supply.
    let sum = erc20.balance_of(1)
        + erc20.balance_of(2)
        + erc20.balance_of(3)
        + erc20.balance_of(4);
    assert_eq!(sum, erc20.total_supply());
    assert_eq!(erc20.total_supply(), 1_000_000 + 500 - 20_000);
}

#[test]
fn metadata_reads() {
    let erc20 = Erc20::new(test_params());
    assert_eq!(erc20.decimals(), 18);
    assert_eq!(erc20.total_supply(), 0);
    assert_eq!(erc20.balance_of(9), 0);
    assert_eq!(erc20.allowance(9, 8), 0);
}

#[test]
fn self_transfer_keeps_balance() {
    let mut erc20 = Erc20::new(test_params());
    erc20.init(1).unwrap();
    assert!(erc20.transfer(1, 1, 400).unwrap());
    assert_eq!(erc20.balance_of(1), 1_000_000);
    assert_eq!(erc20.total_supply(), 1_000_000);
}
