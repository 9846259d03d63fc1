//! A minimal token-issuance platform: a fungible-token ledger that enforces
//! conservation-of-value accounting, and a sale controller that sells units of
//! that ledger's token for native-currency payment through a byte-level
//! remote-call interface.

pub mod abi;
pub mod allowances;
pub mod balances;
pub mod erc_20;
pub mod host;
pub mod token_sale;
