use vstd::prelude::*;

use crate::abi::{build_balance_query, build_transfer_call, ethereum_decode_u256};

verus! {

/// The execution host as the sale controller sees it: remote calls to other
/// components, addressed by an opaque identifier and carried as raw bytes,
/// and outbound native-currency payments. Every result is the host's to
/// decide; the controller trusts nothing but the bytes handed back.
pub trait SaleHost {
    /// The host's own well-formedness, kept across every operation. Nothing
    /// about any result is promised through it.
    spec fn ok(&self) -> bool;

    /// Invokes the component at `target` with a raw request. `None` reports
    /// that the call failed or that the callee rejected it.
    fn call(&mut self, target: u64, input: &Vec<u8>) -> (r: Option<Vec<u8>>)
        requires
            old(self).ok(),
        ensures
            final(self).ok(),
    ;

    /// Sends `amount` of native currency to `to`, all-or-nothing; `true`
    /// reports success.
    fn pay(&mut self, to: u64, amount: u128) -> (r: bool)
        requires
            old(self).ok(),
        ensures
            final(self).ok(),
    ;

    /// The native-currency balance the hosted component currently holds.
    fn native_balance(&self) -> u128
        requires
            self.ok(),
    ;
}

/// Every way a sale operation can fail. Each failure aborts the whole
/// operation and leaves the controller's own state unchanged.
#[derive(Debug, PartialEq, Eq)]
pub enum TokenSaleError {
    /// The attached payment does not cover the cost: (sent, required).
    InsufficientFunds(u128, u128),
    /// The remote token transfer errored, was rejected, or answered with
    /// anything but the expected success word — or the controller's reported
    /// inventory cannot cover the purchase.
    TokenTransferFailed(),
    Unauthorized(),
    /// An outbound native-currency payment failed.
    TransferFailed(),
    /// The cost or the running total would pass the largest representable
    /// value.
    Overflow(),
}

/// The cost of `n` tokens at `price` each, as an unbounded integer.
pub open spec fn total_cost(price: u128, n: u128) -> int {
    price * n
}

/// Reads a balance-query outcome: the integer the 32-byte response word
/// denotes, and zero for an errored call — the lenient policy of treating a
/// failed query as a zero balance, which can only understate inventory.
pub fn decode_balance_response(response: &Option<Vec<u8>>) -> (b: u128)
    ensures
        response matches Some(out) ==> b == crate::abi::u256_of_slot(out@),
        response is None ==> b == 0,
{
    match response {
        Some(output) => ethereum_decode_u256(output),
        None => 0,
    }
}

/// Tests a transfer outcome for the definitive success encoding: exactly a
/// 32-byte response whose last byte is 1. An errored call or any other
/// payload is failure — the callee is never assumed to have behaved.
pub fn decode_success(response: &Option<Vec<u8>>) -> (ok: bool)
    ensures
        ok <==> (response matches Some(out) && out@.len() == 32 && out@[31] == 1),
{
    match response {
        Some(output) => output.len() == 32 && output[31] == 1,
        None => false,
    }
}

/// The inventory decision: a purchase of `n` tokens proceeds only when the
/// reported balance covers it; a shortfall is the remote-failure error.
pub fn check_inventory(reported: u128, n: u128) -> (r: Result<(), TokenSaleError>)
    ensures
        reported >= n ==> r == Ok::<(), TokenSaleError>(()),
        reported < n ==> r == Err::<(), TokenSaleError>(TokenSaleError::TokenTransferFailed()),
{
    if reported < n {
        Err(TokenSaleError::TokenTransferFailed())
    } else {
        Ok(())
    }
}

/// The transfer decision: only the definitive success signal lets the sale
/// proceed; anything else is the remote-failure error.
pub fn check_transfer(success: bool) -> (r: Result<(), TokenSaleError>)
    ensures
        success ==> r == Ok::<(), TokenSaleError>(()),
        !success ==> r == Err::<(), TokenSaleError>(TokenSaleError::TokenTransferFailed()),
{
    if success {
        Ok(())
    } else {
        Err(TokenSaleError::TokenTransferFailed())
    }
}

/// The payment decision: a failed outbound native-currency payment fails the
/// whole operation.
pub fn check_payment(paid: bool) -> (r: Result<(), TokenSaleError>)
    ensures
        paid ==> r == Ok::<(), TokenSaleError>(()),
        !paid ==> r == Err::<(), TokenSaleError>(TokenSaleError::TransferFailed()),
{
    if paid {
        Ok(())
    } else {
        Err(TokenSaleError::TransferFailed())
    }
}

/// The refund owed on an overpayment: exactly the excess over the cost.
pub fn refund_amount(sent: u128, cost: u128) -> (r: u128)
    requires
        cost <= sent,
    ensures
        r == sent - cost,
{
    sent - cost
}

/// The sale controller: sells pre-funded tokens of one external ledger —
/// held only as an address and reached only through the host's byte-level
/// call interface — for native-currency payment. The zero identifier in the
/// owner role marks the controller uninitialized; it is never a caller.
pub struct TokenSale {
    token_address: u64,
    token_price: u128,
    tokens_sold: u128,
    owner: u64,
}

impl TokenSale {
    pub closed spec fn spec_token_address(self) -> u64 {
        self.token_address
    }

    pub closed spec fn spec_token_price(self) -> u128 {
        self.token_price
    }

    pub closed spec fn spec_tokens_sold(self) -> u128 {
        self.tokens_sold
    }

    pub closed spec fn spec_owner(self) -> u64 {
        self.owner
    }

    /// A fresh, uninitialized controller.
    pub fn new() -> (r: TokenSale)
        ensures
            r.spec_token_address() == 0,
            r.spec_token_price() == 0,
            r.spec_tokens_sold() == 0,
            r.spec_owner() == 0,
    {
        TokenSale { token_address: 0, token_price: 0, tokens_sold: 0, owner: 0 }
    }

    /// The address of the ledger whose tokens are sold.
    pub fn token_address(&self) -> (r: u64)
        ensures
            r == self.spec_token_address(),
    {
        self.token_address
    }

    /// The price of one token, in the native currency's smallest unit.
    pub fn token_price(&self) -> (r: u128)
        ensures
            r == self.spec_token_price(),
    {
        self.token_price
    }

    /// How many tokens have been sold so far.
    pub fn tokens_sold(&self) -> (r: u128)
        ensures
            r == self.spec_tokens_sold(),
    {
        self.tokens_sold
    }

    /// The owner of the sale, or the zero identifier before `init`.
    pub fn owner(&self) -> (r: u64)
        ensures
            r == self.spec_owner(),
    {
        self.owner
    }

    /// One-shot initialization: fixes the sold ledger's address and the unit
    /// price, and makes the caller the owner. Fails with `Unauthorized` once
    /// the owner role is set, and with `InsufficientFunds(0, 0)` for a zero
    /// price; failures change nothing.
    pub fn init(&mut self, caller: u64, token_address: u64, token_price: u128) -> (r: Result<
        (),
        TokenSaleError,
    >)
        requires
            caller != 0,
        ensures
            old(self).spec_owner() != 0 ==> r == Err::<(), TokenSaleError>(
                TokenSaleError::Unauthorized(),
            ) && *final(self) == *old(self),
            old(self).spec_owner() == 0 && token_price == 0 ==> r == Err::<(), TokenSaleError>(
                TokenSaleError::InsufficientFunds(0, 0),
            ) && *final(self) == *old(self),
            old(self).spec_owner() == 0 && token_price != 0 ==> {
                &&& r == Ok::<(), TokenSaleError>(())
                &&& final(self).spec_token_address() == token_address
                &&& final(self).spec_token_price() == token_price
                &&& final(self).spec_tokens_sold() == 0
                &&& final(self).spec_owner() == caller
            },
    {
        if self.owner != 0 {
            return Err(TokenSaleError::Unauthorized());
        }
        if token_price == 0 {
            return Err(TokenSaleError::InsufficientFunds(0, 0));
        }
        self.token_address = token_address;
        self.token_price = token_price;
        self.tokens_sold = 0;
        self.owner = caller;
        Ok(())
    }

    /// Queries the ledger at `token_address` for `owner`'s balance through
    /// the host. An errored call or a malformed response counts as a zero
    /// balance — a conservative reading that can only understate inventory.
    fn call_balance_of<H: SaleHost>(&self, host: &mut H, token_address: u64, owner: u64) -> (r: u128)
        requires
            old(host).ok(),
        ensures
            final(host).ok(),
    {
        let input = build_balance_query(owner);
        let response = host.call(token_address, &input);
        decode_balance_response(&response)
    }

    /// Asks the ledger at `token_address` to transfer `value` tokens of the
    /// controller's to `to`. Success is exactly a 32-byte response whose last
    /// byte is 1 — never an assumption about the callee.
    fn call_transfer<H: SaleHost>(&self, host: &mut H, token_address: u64, to: u64, value: u128)
        -> (r: bool)
        requires
            old(host).ok(),
        ensures
            final(host).ok(),
    {
        let input = build_transfer_call(to, value);
        let response = host.call(token_address, &input);
        decode_success(&response)
    }

    /// Sells `number_of_tokens` to `caller`, who attached `sent` of native
    /// currency: validates the payment and the running total, checks the
    /// controller's own inventory on the remote ledger, orders the remote
    /// transfer, updates the running total, and refunds exactly the excess
    /// payment last. Every failure leaves the controller's own state
    /// unchanged, and a validation failure issues no outbound call at all;
    /// the responses that decide the remaining outcomes are judged by
    /// `decode_balance_response`, `check_inventory`, `decode_success`,
    /// `check_transfer` and `check_payment`, whose contracts fix the
    /// decision for every value of them.
    pub fn buy_tokens<H: SaleHost>(
        &mut self,
        host: &mut H,
        caller: u64,
        sent: u128,
        self_address: u64,
        number_of_tokens: u128,
    ) -> (r: Result<(), TokenSaleError>)
        requires
            old(host).ok(),
        ensures
            final(host).ok(),
            final(self).spec_token_address() == old(self).spec_token_address(),
            final(self).spec_token_price() == old(self).spec_token_price(),
            final(self).spec_owner() == old(self).spec_owner(),
            r is Err ==> *final(self) == *old(self),
            total_cost(old(self).spec_token_price(), number_of_tokens) > u128::MAX ==> r == Err::<
                (),
                TokenSaleError,
            >(TokenSaleError::Overflow()),
            total_cost(old(self).spec_token_price(), number_of_tokens) <= u128::MAX && sent
                < total_cost(old(self).spec_token_price(), number_of_tokens) ==> r == Err::<
                (),
                TokenSaleError,
            >(
                TokenSaleError::InsufficientFunds(
                    sent,
                    total_cost(old(self).spec_token_price(), number_of_tokens) as u128,
                ),
            ),
            total_cost(old(self).spec_token_price(), number_of_tokens) <= u128::MAX && sent
                >= total_cost(old(self).spec_token_price(), number_of_tokens) && old(
                self,
            ).spec_tokens_sold() + number_of_tokens > u128::MAX ==> r == Err::<(), TokenSaleError>(
                TokenSaleError::Overflow(),
            ),
            r is Ok ==> {
                &&& total_cost(old(self).spec_token_price(), number_of_tokens) <= u128::MAX
                &&& old(self).spec_tokens_sold() + number_of_tokens <= u128::MAX
                &&& sent >= total_cost(old(self).spec_token_price(), number_of_tokens)
                &&& final(self).spec_tokens_sold() == old(self).spec_tokens_sold()
                    + number_of_tokens
            },
            r != Err::<(), TokenSaleError>(TokenSaleError::Unauthorized()),
            r == Err::<(), TokenSaleError>(TokenSaleError::TokenTransferFailed()) ==> total_cost(
                old(self).spec_token_price(),
                number_of_tokens,
            ) <= u128::MAX && old(self).spec_tokens_sold() + number_of_tokens <= u128::MAX && sent
                >= total_cost(old(self).spec_token_price(), number_of_tokens),
            r == Err::<(), TokenSaleError>(TokenSaleError::TransferFailed()) ==> sent > total_cost(
                old(self).spec_token_price(),
                number_of_tokens,
            ),
            r matches Err(TokenSaleError::InsufficientFunds(s, c)) ==> s == sent && c == total_cost(
                old(self).spec_token_price(),
                number_of_tokens,
            ) && sent < c,
            r == Err::<(), TokenSaleError>(TokenSaleError::Overflow()) ==> total_cost(
                old(self).spec_token_price(),
                number_of_tokens,
            ) > u128::MAX || old(self).spec_tokens_sold() + number_of_tokens > u128::MAX,
            // A validation failure is decided before any outbound call.
            r == Err::<(), TokenSaleError>(TokenSaleError::Overflow()) ==> *final(host) == *old(
                host,
            ),
            r matches Err(TokenSaleError::InsufficientFunds(_, _)) ==> *final(host) == *old(host),
    {
        let price = self.token_price;
        let total: u128;
        match price.checked_mul(number_of_tokens) {
            Some(c) => {
                total = c;
            },
            None => {
                return Err(TokenSaleError::Overflow());
            },
        }
        if sent < total {
            return Err(TokenSaleError::InsufficientFunds(sent, total));
        }
        match self.tokens_sold.checked_add(number_of_tokens) {
            Some(_) => {},
            None => {
                return Err(TokenSaleError::Overflow());
            },
        }
        let token_address = self.token_address;
        let contract_token_balance = self.call_balance_of(host, token_address, self_address);
        match check_inventory(contract_token_balance, number_of_tokens) {
            Err(e) => {
                return Err(e);
            },
            Ok(()) => {},
        }
        let transfer_success = self.call_transfer(host, token_address, caller, number_of_tokens);
        match check_transfer(transfer_success) {
            Err(e) => {
                return Err(e);
            },
            Ok(()) => {},
        }
        let old_sold = self.tokens_sold;
        self.tokens_sold = old_sold + number_of_tokens;
        if sent > total {
            let excess = refund_amount(sent, total);
            let paid = host.pay(caller, excess);
            match check_payment(paid) {
                Err(e) => {
                    // The refund failed: undo the controller's own accounting
                    // so the whole operation is all-or-nothing.
                    self.tokens_sold = old_sold;
                    return Err(e);
                },
                Ok(()) => {},
            }
        }
        Ok(())
    }

    /// Ends the sale: the owner sweeps the controller's entire reported
    /// token balance on the remote ledger to the owner, then pays the
    /// controller's entire native-currency balance to the owner. Any other
    /// caller fails with `Unauthorized` before any outbound call. The
    /// controller's own state never changes; run on empty balances the sweep
    /// is a no-op, so a second call is accepted. The sweep's outcome is
    /// judged by `decode_success`, `check_transfer` and `check_payment`,
    /// whose contracts fix the decision for every response.
    pub fn end_sale<H: SaleHost>(&mut self, host: &mut H, caller: u64, self_address: u64) -> (r:
        Result<(), TokenSaleError>)
        requires
            old(host).ok(),
        ensures
            final(host).ok(),
            *final(self) == *old(self),
            caller != old(self).spec_owner() ==> r == Err::<(), TokenSaleError>(
                TokenSaleError::Unauthorized(),
            ) && *final(host) == *old(host),
            r is Ok ==> caller == old(self).spec_owner(),
            r == Err::<(), TokenSaleError>(TokenSaleError::TokenTransferFailed()) ==> caller == old(
                self,
            ).spec_owner(),
            r == Err::<(), TokenSaleError>(TokenSaleError::TransferFailed()) ==> caller == old(
                self,
            ).spec_owner(),
            !(r matches Err(TokenSaleError::InsufficientFunds(_, _))),
            r != Err::<(), TokenSaleError>(TokenSaleError::Overflow()),
    {
        if caller != self.owner {
            return Err(TokenSaleError::Unauthorized());
        }
        let token_address = self.token_address;
        let contract_token_balance = self.call_balance_of(host, token_address, self_address);
        if contract_token_balance > 0 {
            let transfer_success = self.call_transfer(
                host,
                token_address,
                self.owner,
                contract_token_balance,
            );
            match check_transfer(transfer_success) {
                Err(e) => {
                    return Err(e);
                },
                Ok(()) => {},
            }
        }
        let eth_balance = host.native_balance();
        if eth_balance > 0 {
            let paid = host.pay(self.owner, eth_balance);
            match check_payment(paid) {
                Err(e) => {
                    return Err(e);
                },
                Ok(()) => {},
            }
        }
        Ok(())
    }
}

} // verus!
