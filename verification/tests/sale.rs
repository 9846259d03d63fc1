use token_platform::abi::build_true_slot;
use token_platform::erc_20::{Erc20, Erc20Params};
use token_platform::host::LedgerHost;
use token_platform::token_sale::{
    check_inventory, check_payment, check_transfer, decode_balance_response, decode_success,
    refund_amount, TokenSale, TokenSaleError,
};

const LEDGER_ADDRESS: u64 = 77;
const SALE_ADDRESS: u64 = 88;

fn params(initial_supply: u128) -> Erc20Params {
    Erc20Params {
        name: "Test Token".to_string(),
        symbol: "TST".to_string(),
        decimals: 18,
        initial_supply,
    }
}

/// A ledger whose owner pre-funded the sale controller with `inventory`
/// tokens, bound to a host holding `native` of native currency.
fn funded_host(inventory: u128, native: u128) -> LedgerHost {
    let mut ledger = Erc20::new(params(1_000_000));
    let ledger_owner: u64 = 9;
    ledger.init(ledger_owner).unwrap();
    if inventory > 0 {
        ledger.transfer(ledger_owner, SALE_ADDRESS, inventory).unwrap();
    }
    LedgerHost::new(ledger, LEDGER_ADDRESS, SALE_ADDRESS, native)
}

#[test]
fn test_buy_tokens() {
    let mut token_sale = TokenSale::new();
    let owner: u64 = 1;
    token_sale.init(owner, LEDGER_ADDRESS, 10).unwrap();

    let buyer: u64 = 2;
    let mut host = funded_host(1_000, 100);

    token_sale.buy_tokens(&mut host, buyer, 100, SALE_ADDRESS, 10).unwrap();
    assert_eq!(token_sale.tokens_sold(), 10);
}

#[test]
fn test_end_sale_unauthorized() {
    let mut token_sale = TokenSale::new();
    let owner: u64 = 1;
    token_sale.init(owner, LEDGER_ADDRESS, 10).unwrap();

    let non_owner: u64 = 2;
    let mut host = funded_host(0, 0);

    let result = token_sale.end_sale(&mut host, non_owner, SALE_ADDRESS);
    assert!(result.is_err());
}

#[test]
fn sale_init_is_one_shot() {
    let mut sale = TokenSale::new();
    sale.init(1, LEDGER_ADDRESS, 10).unwrap();
    assert_eq!(sale.init(2, 5, 20), Err(TokenSaleError::Unauthorized()));
    assert_eq!(sale.owner(), 1);
    assert_eq!(sale.token_price(), 10);
    assert_eq!(sale.token_address(), LEDGER_ADDRESS);
}

#[test]
fn sale_init_rejects_zero_price() {
    let mut sale = TokenSale::new();
    assert_eq!(sale.init(1, LEDGER_ADDRESS, 0), Err(TokenSaleError::InsufficientFunds(0, 0)));
    assert_eq!(sale.owner(), 0);
}

#[test]
fn buy_underpayment_fails_exactly() {
    let mut sale = TokenSale::new();
    sale.init(1, LEDGER_ADDRESS, 10).unwrap();
    let mut host = funded_host(1_000, 99);

    // One unit short of the price of ten tokens.
    let r = sale.buy_tokens(&mut host, 2, 99, SALE_ADDRESS, 10);
    assert_eq!(r, Err(TokenSaleError::InsufficientFunds(99, 100)));
    assert_eq!(sale.tokens_sold(), 0);
    assert_eq!(host.ledger().balance_of(2), 0);
    assert!(host.payments().is_empty());
}

#[test]
fn buy_overpayment_refunds_exactly_the_excess() {
    let mut sale = TokenSale::new();
    sale.init(1, LEDGER_ADDRESS, 10).unwrap();
    let mut host = funded_host(1_000, 105);

    sale.buy_tokens(&mut host, 2, 105, SALE_ADDRESS, 10).unwrap();
    assert_eq!(sale.tokens_sold(), 10);
    assert_eq!(host.payments().len(), 1);
    assert_eq!(host.payments()[0], (2, 5));
    assert_eq!(host.native(), 100);
}

#[test]
fn buy_happy_path_moves_tokens_and_no_refund() {
    let mut sale = TokenSale::new();
    sale.init(1, LEDGER_ADDRESS, 10).unwrap();
    let mut host = funded_host(1_000, 1_000);
    let buyer: u64 = 2;

    let controller_before = host.ledger().balance_of(SALE_ADDRESS);
    sale.buy_tokens(&mut host, buyer, 1_000, SALE_ADDRESS, 100).unwrap();

    assert_eq!(sale.tokens_sold(), 100);
    assert_eq!(host.ledger().balance_of(buyer), 100);
    assert_eq!(host.ledger().balance_of(SALE_ADDRESS), controller_before - 100);
    // Exact payment: no refund was issued.
    assert!(host.payments().is_empty());
    assert_eq!(host.native(), 1_000);
}

#[test]
fn buy_with_insufficient_inventory_fails_cleanly() {
    let mut sale = TokenSale::new();
    sale.init(1, LEDGER_ADDRESS, 10).unwrap();
    let mut host = funded_host(5, 100);

    let r = sale.buy_tokens(&mut host, 2, 100, SALE_ADDRESS, 10);
    assert_eq!(r, Err(TokenSaleError::TokenTransferFailed()));
    assert_eq!(sale.tokens_sold(), 0);
    assert_eq!(host.ledger().balance_of(2), 0);
    assert_eq!(host.ledger().balance_of(SALE_ADDRESS), 5);
    assert!(host.payments().is_empty());
    assert_eq!(host.native(), 100);
}

#[test]
fn buy_refund_failure_undoes_the_sale_accounting() {
    let mut sale = TokenSale::new();
    sale.init(1, LEDGER_ADDRESS, 10).unwrap();
    // The host holds less native currency than the due refund of 5.
    let mut host = funded_host(1_000, 3);

    let r = sale.buy_tokens(&mut host, 2, 105, SALE_ADDRESS, 10);
    assert_eq!(r, Err(TokenSaleError::TransferFailed()));
    assert_eq!(sale.tokens_sold(), 0);
    assert!(host.payments().is_empty());
    assert_eq!(host.native(), 3);
}

#[test]
fn buy_cost_overflow_fails() {
    let mut sale = TokenSale::new();
    sale.init(1, LEDGER_ADDRESS, u128::MAX).unwrap();
    let mut host = funded_host(1_000, 100);

    let r = sale.buy_tokens(&mut host, 2, 100, SALE_ADDRESS, 2);
    assert_eq!(r, Err(TokenSaleError::Overflow()));
    assert_eq!(sale.tokens_sold(), 0);
}

#[test]
fn end_sale_unauthorized_moves_nothing() {
    let mut sale = TokenSale::new();
    sale.init(1, LEDGER_ADDRESS, 10).unwrap();
    let mut host = funded_host(500, 40);

    let r = sale.end_sale(&mut host, 2, SALE_ADDRESS);
    assert_eq!(r, Err(TokenSaleError::Unauthorized()));
    assert_eq!(host.ledger().balance_of(SALE_ADDRESS), 500);
    assert_eq!(host.native(), 40);
    assert!(host.payments().is_empty());
}

#[test]
fn end_sale_sweeps_tokens_and_native_to_owner() {
    let mut sale = TokenSale::new();
    let owner: u64 = 1;
    sale.init(owner, LEDGER_ADDRESS, 10).unwrap();
    let mut host = funded_host(500, 40);

    sale.end_sale(&mut host, owner, SALE_ADDRESS).unwrap();
    assert_eq!(host.ledger().balance_of(SALE_ADDRESS), 0);
    assert_eq!(host.ledger().balance_of(owner), 500);
    assert_eq!(host.native(), 0);
    assert_eq!(host.payments().len(), 1);
    assert_eq!(host.payments()[0], (owner, 40));

    // A second call is a no-op, not an error: the guards are balance-based.
    sale.end_sale(&mut host, owner, SALE_ADDRESS).unwrap();
    assert_eq!(host.payments().len(), 1);
}

#[test]
fn short_payment_beats_running_total_overflow() {
    // After one sale the running total is nonzero; a short payment for the
    // largest possible order is still an underpayment, never an overflow.
    let mut sale = TokenSale::new();
    sale.init(1, LEDGER_ADDRESS, 1).unwrap();
    let mut host = funded_host(10, 10);
    sale.buy_tokens(&mut host, 2, 1, SALE_ADDRESS, 1).unwrap();
    assert_eq!(sale.tokens_sold(), 1);

    let r = sale.buy_tokens(&mut host, 2, 0, SALE_ADDRESS, u128::MAX);
    assert_eq!(r, Err(TokenSaleError::InsufficientFunds(0, u128::MAX)));
    assert_eq!(sale.tokens_sold(), 1);
}

#[test]
fn response_decisions() {
    assert!(decode_success(&Some(build_true_slot())));
    assert!(!decode_success(&Some(vec![0u8; 32])));
    assert!(!decode_success(&Some(vec![1u8; 31])));
    assert!(!decode_success(&None));

    assert_eq!(decode_balance_response(&None), 0);
    let mut word = vec![0u8; 32];
    word[31] = 9;
    assert_eq!(decode_balance_response(&Some(word)), 9);

    assert_eq!(check_inventory(5, 10), Err(TokenSaleError::TokenTransferFailed()));
    assert_eq!(check_inventory(10, 10), Ok(()));
    assert_eq!(check_transfer(false), Err(TokenSaleError::TokenTransferFailed()));
    assert_eq!(check_transfer(true), Ok(()));
    assert_eq!(check_payment(false), Err(TokenSaleError::TransferFailed()));
    assert_eq!(check_payment(true), Ok(()));
    assert_eq!(refund_amount(105, 100), 5);
}

#[test]
fn buy_against_wrong_token_address_fails() {
    let mut sale = TokenSale::new();
    // The configured token address does not answer: the balance query reads
    // as zero inventory.
    sale.init(1, LEDGER_ADDRESS + 1, 10).unwrap();
    let mut host = funded_host(1_000, 100);

    let r = sale.buy_tokens(&mut host, 2, 100, SALE_ADDRESS, 10);
    assert_eq!(r, Err(TokenSaleError::TokenTransferFailed()));
    assert_eq!(sale.tokens_sold(), 0);
}
