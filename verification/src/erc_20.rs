use vstd::prelude::*;

use crate::allowances::AllowanceTable;
use crate::balances::BalanceTable;

verus! {

/// Per-token configuration fixed at construction: metadata and the initial
/// supply that `init` credits to the owner.
pub struct Erc20Params {
    pub name: String,
    pub symbol: String,
    pub decimals: u8,
    pub initial_supply: u128,
}

/// Interface of a fungible-token ledger, for callers that hold one only
/// behind an abstraction. Callers pass their own identity as `caller`; a
/// `false` or zero result reports failure or absence.
pub trait IERC20 {
    /// Transfers `value` tokens from the caller to `to`.
    fn transfer(&mut self, caller: u64, to: u64, value: u128) -> bool;

    /// Returns the token balance of `owner`.
    fn balance_of(&self, owner: u64) -> u128;

    /// Approves `spender` to spend `value` of the caller's tokens.
    fn approve(&mut self, caller: u64, spender: u64, value: u128) -> bool;

    /// Returns what remains of the approval `owner` gave `spender`.
    fn allowance(&self, owner: u64, spender: u64) -> u128;

    /// Transfers `value` tokens from `from` to `to` on the caller's
    /// authority as spender.
    fn transfer_from(&mut self, caller: u64, from: u64, to: u64, value: u128) -> bool;
}

/// Every way a ledger operation can fail. Each failure aborts the whole
/// operation and leaves the ledger unchanged.
#[derive(Debug, PartialEq, Eq)]
pub enum Erc20Error {
    /// The debited account holds less than the operation moves:
    /// (account, held, wanted).
    InsufficientBalance(u64, u128, u128),
    /// The spender's remaining approval is less than the operation moves:
    /// (owner, spender, held, wanted).
    InsufficientAllowance(u64, u64, u128, u128),
    Unauthorized(),
    MintToZeroAddress(),
    BurnFromZeroAddress(),
    TransferFailed(),
    ApprovalFailed(),
    /// The operation would push a balance or the supply past the largest
    /// representable value.
    Overflow(),
}

/// A fungible-token ledger: balances, allowances, supply and the privileged
/// owner and minter roles. The zero identifier is the sentinel for "no
/// account": it marks the ledger uninitialized while the owner role holds it,
/// and it is never a caller.
pub struct Erc20 {
    balances: BalanceTable,
    allowances: AllowanceTable,
    total_supply: u128,
    owner: u64,
    minter: u64,
    params: Erc20Params,
}

impl Erc20 {
    /// The balance of account `a`.
    pub closed spec fn bal(self, a: u64) -> u128 {
        self.balances.spec_get(a)
    }

    /// What remains of the approval `owner` gave `spender`.
    pub closed spec fn allowance_of(self, owner: u64, spender: u64) -> u128 {
        self.allowances.spec_get(owner, spender)
    }

    /// The sum of all account balances.
    pub closed spec fn sum_of_balances(self) -> int {
        self.balances.total()
    }

    pub closed spec fn spec_total_supply(self) -> u128 {
        self.total_supply
    }

    pub closed spec fn spec_owner(self) -> u64 {
        self.owner
    }

    pub closed spec fn spec_minter(self) -> u64 {
        self.minter
    }

    pub closed spec fn spec_params(self) -> Erc20Params {
        self.params
    }

    /// The two tables keep each key at most once.
    pub closed spec fn tables_wf(self) -> bool {
        self.balances.wf() && self.allowances.wf()
    }

    /// The ledger's invariant. Its heart is conservation of value: the sum of
    /// all balances equals the total supply at every observation point. While
    /// uninitialized (owner unset), nothing has been issued.
    pub open spec fn wf(self) -> bool {
        &&& self.tables_wf()
        &&& self.sum_of_balances() == self.spec_total_supply() as int
        &&& (self.spec_owner() == 0 ==> self.spec_total_supply() == 0 && self.spec_minter() == 0)
    }

    /// No single balance exceeds the total supply.
    pub proof fn lemma_balance_le_supply(self, a: u64)
        requires
            self.wf(),
        ensures
            self.bal(a) <= self.spec_total_supply(),
    {
        self.balances.lemma_get_le_total(a);
    }

    /// Two ledgers agree on everything an observer can read.
    pub open spec fn same_state(self, other: Erc20) -> bool {
        &&& self.spec_total_supply() == other.spec_total_supply()
        &&& self.spec_owner() == other.spec_owner()
        &&& self.spec_minter() == other.spec_minter()
        &&& self.spec_params() == other.spec_params()
        &&& (forall|a: u64| self.bal(a) == other.bal(a))
        &&& (forall|o: u64, p: u64| self.allowance_of(o, p) == other.allowance_of(o, p))
    }

    /// Roles, parameters and all allowances read the same in both ledgers.
    pub open spec fn same_but_supply_and_balances(self, other: Erc20) -> bool {
        &&& self.spec_owner() == other.spec_owner()
        &&& self.spec_minter() == other.spec_minter()
        &&& self.spec_params() == other.spec_params()
        &&& (forall|o: u64, p: u64| self.allowance_of(o, p) == other.allowance_of(o, p))
    }

    /// A fresh, uninitialized ledger: no owner, no minter, nothing issued.
    pub fn new(params: Erc20Params) -> (r: Erc20)
        ensures
            r.wf(),
            r.spec_owner() == 0,
            r.spec_minter() == 0,
            r.spec_total_supply() == 0,
            r.spec_params() == params,
            forall|a: u64| r.bal(a) == 0,
            forall|o: u64, p: u64| r.allowance_of(o, p) == 0,
    {
        Erc20 {
            balances: BalanceTable::new(),
            allowances: AllowanceTable::new(),
            total_supply: 0,
            owner: 0,
            minter: 0,
            params,
        }
    }

    /// One-shot initialization: sets the given identifier as owner and
    /// minter, issues the configured initial supply and credits all of it to
    /// the owner. Fails with `Unauthorized` once the owner role is set, and
    /// changes nothing then.
    pub fn init(&mut self, owner: u64) -> (r: Result<(), Erc20Error>)
        requires
            old(self).wf(),
            owner != 0,
        ensures
            final(self).wf(),
            old(self).spec_owner() != 0 ==> r == Err::<(), Erc20Error>(Erc20Error::Unauthorized())
                && *final(self) == *old(self),
            old(self).spec_owner() == 0 ==> {
                &&& r == Ok::<(), Erc20Error>(())
                &&& final(self).spec_owner() == owner
                &&& final(self).spec_minter() == owner
                &&& final(self).spec_total_supply() == old(self).spec_params().initial_supply
                &&& final(self).bal(owner) == old(self).spec_params().initial_supply
                &&& (forall|a: u64| a != owner ==> final(self).bal(a) == 0)
                &&& (forall|o: u64, p: u64|
                    final(self).allowance_of(o, p) == old(self).allowance_of(o, p))
                &&& final(self).spec_params() == old(self).spec_params()
            },
    {
        if self.owner != 0 {
            return Err(Erc20Error::Unauthorized());
        }
        proof {
            // While uninitialized nothing is issued, so every balance is zero.
            assert forall|a: u64| #[trigger] old(self).balances.spec_get(a) == 0 by {
                old(self).balances.lemma_get_le_total(a);
            }
        }
        self.owner = owner;
        self.minter = owner;
        self.total_supply = self.params.initial_supply;
        let supply = self.params.initial_supply;
        self.balances.set(owner, supply);
        Ok(())
    }

    /// Only the owner may appoint the minter; any other caller fails with
    /// `Unauthorized` and changes nothing. The zero identifier is permitted
    /// as the new minter, which disables minting.
    pub fn set_minter(&mut self, caller: u64, new_minter: u64) -> (r: Result<(), Erc20Error>)
        requires
            old(self).wf(),
            caller != 0,
        ensures
            final(self).wf(),
            caller != old(self).spec_owner() ==> r == Err::<(), Erc20Error>(
                Erc20Error::Unauthorized(),
            ) && *final(self) == *old(self),
            caller == old(self).spec_owner() ==> {
                &&& r == Ok::<(), Erc20Error>(())
                &&& final(self).spec_minter() == new_minter
                &&& final(self).spec_owner() == old(self).spec_owner()
                &&& final(self).spec_total_supply() == old(self).spec_total_supply()
                &&& final(self).spec_params() == old(self).spec_params()
                &&& (forall|a: u64| final(self).bal(a) == old(self).bal(a))
                &&& (forall|o: u64, p: u64|
                    final(self).allowance_of(o, p) == old(self).allowance_of(o, p))
            },
    {
        if caller != self.owner {
            return Err(Erc20Error::Unauthorized());
        }
        self.minter = new_minter;
        Ok(())
    }

    /// Issues `value` new tokens to `to`. Only the exact current minter may
    /// mint; minting to the zero identifier is rejected; pushing the supply
    /// past the largest representable value fails rather than wraps. Every
    /// failure leaves the ledger unchanged.
    pub fn mint(&mut self, caller: u64, to: u64, value: u128) -> (r: Result<(), Erc20Error>)
        requires
            old(self).wf(),
            caller != 0,
        ensures
            final(self).wf(),
            caller != old(self).spec_minter() ==> r == Err::<(), Erc20Error>(
                Erc20Error::Unauthorized(),
            ) && *final(self) == *old(self),
            caller == old(self).spec_minter() && to == 0 ==> r == Err::<(), Erc20Error>(
                Erc20Error::MintToZeroAddress(),
            ) && *final(self) == *old(self),
            caller == old(self).spec_minter() && to != 0 && old(self).spec_total_supply() + value
                > u128::MAX ==> r == Err::<(), Erc20Error>(Erc20Error::Overflow()) && *final(self)
                == *old(self),
            caller == old(self).spec_minter() && to != 0 && old(self).spec_total_supply() + value
                <= u128::MAX ==> {
                &&& r == Ok::<(), Erc20Error>(())
                &&& final(self).spec_total_supply() == old(self).spec_total_supply() + value
                &&& final(self).bal(to) == old(self).bal(to) + value
                &&& (forall|a: u64| a != to ==> final(self).bal(a) == old(self).bal(a))
                &&& final(self).same_but_supply_and_balances(*old(self))
            },
    {
        if caller != self.minter {
            return Err(Erc20Error::Unauthorized());
        }
        if to == 0 {
            return Err(Erc20Error::MintToZeroAddress());
        }
        match self.total_supply.checked_add(value) {
            None => Err(Erc20Error::Overflow()),
            Some(new_supply) => {
                proof {
                    // The credited balance stays within the new supply.
                    self.balances.lemma_get_le_total(to);
                }
                let balance = self.balances.get(to);
                self.balances.set(to, balance + value);
                self.total_supply = new_supply;
                Ok(())
            },
        }
    }

    /// Destroys `value` tokens held by `from`. Note that no caller
    /// authorization is checked: any caller may burn from any account with a
    /// sufficient balance. An insufficient balance fails with
    /// `InsufficientBalance` and changes nothing.
    pub fn burn(&mut self, from: u64, value: u128) -> (r: Result<(), Erc20Error>)
        requires
            old(self).wf(),
        ensures
            final(self).wf(),
            from == 0 ==> r == Err::<(), Erc20Error>(Erc20Error::BurnFromZeroAddress()) && *final(self) == *old(self),
            from != 0 && old(self).bal(from) < value ==> r == Err::<(), Erc20Error>(
                Erc20Error::InsufficientBalance(from, old(self).bal(from), value),
            ) && *final(self) == *old(self),
            from != 0 && old(self).bal(from) >= value ==> {
                &&& r == Ok::<(), Erc20Error>(())
                &&& final(self).spec_total_supply() == old(self).spec_total_supply() - value
                &&& final(self).bal(from) == old(self).bal(from) - value
                &&& (forall|a: u64| a != from ==> final(self).bal(a) == old(self).bal(a))
                &&& final(self).same_but_supply_and_balances(*old(self))
            },
    {
        if from == 0 {
            return Err(Erc20Error::BurnFromZeroAddress());
        }
        let old_balance = self.balances.get(from);
        if old_balance < value {
            return Err(Erc20Error::InsufficientBalance(from, old_balance, value));
        }
        proof {
            // The burnt amount is covered by the supply.
            self.balances.lemma_get_le_total(from);
        }
        self.balances.set(from, old_balance - value);
        self.total_supply = self.total_supply - value;
        Ok(())
    }

    /// The internal transfer primitive: debits `from` and credits `to`,
    /// conserving the sum of balances. It checks the debited balance and
    /// nothing else — callers guard the zero identifier and any allowance.
    pub fn _transfer(&mut self, from: u64, to: u64, value: u128) -> (r: Result<(), Erc20Error>)
        requires
            old(self).wf(),
        ensures
            final(self).wf(),
            old(self).bal(from) < value ==> r == Err::<(), Erc20Error>(
                Erc20Error::InsufficientBalance(from, old(self).bal(from), value),
            ) && *final(self) == *old(self),
            old(self).bal(from) >= value && from != to ==> {
                &&& r == Ok::<(), Erc20Error>(())
                &&& final(self).bal(from) == old(self).bal(from) - value
                &&& final(self).bal(to) == old(self).bal(to) + value
                &&& (forall|a: u64| a != from && a != to ==> final(self).bal(a) == old(self).bal(a))
            },
            old(self).bal(from) >= value && from == to ==> {
                &&& r == Ok::<(), Erc20Error>(())
                &&& (forall|a: u64| final(self).bal(a) == old(self).bal(a))
            },
            r is Ok ==> final(self).spec_total_supply() == old(self).spec_total_supply() && final(self).same_but_supply_and_balances(*old(self)),
    {
        let old_sender_balance = self.balances.get(from);
        if old_sender_balance < value {
            return Err(Erc20Error::InsufficientBalance(from, old_sender_balance, value));
        }
        self.balances.set(from, old_sender_balance - value);
        proof {
            // After the debit the credited balance fits under the supply.
            self.balances.lemma_get_le_total(to);
        }
        let to_balance = self.balances.get(to);
        self.balances.set(to, to_balance + value);
        Ok(())
    }

    /// Transfers `value` tokens from the caller to `to`. The zero identifier
    /// is rejected as destination with `TransferFailed`; an insufficient
    /// balance fails with `InsufficientBalance`. Failures change nothing.
    pub fn transfer(&mut self, caller: u64, to: u64, value: u128) -> (r: Result<
        bool,
        Erc20Error,
    >)
        requires
            old(self).wf(),
        ensures
            final(self).wf(),
            to == 0 ==> r == Err::<bool, Erc20Error>(Erc20Error::TransferFailed()) && *final(self)
                == *old(self),
            to != 0 && old(self).bal(caller) < value ==> r == Err::<bool, Erc20Error>(
                Erc20Error::InsufficientBalance(caller, old(self).bal(caller), value),
            ) && *final(self) == *old(self),
            to != 0 && old(self).bal(caller) >= value ==> {
                &&& r == Ok::<bool, Erc20Error>(true)
                &&& (caller != to ==> final(self).bal(caller) == old(self).bal(caller) - value
                    && final(self).bal(to) == old(self).bal(to) + value)
                &&& (caller == to ==> final(self).bal(caller) == old(self).bal(caller))
                &&& (forall|a: u64|
                    a != caller && a != to ==> final(self).bal(a) == old(self).bal(a))
                &&& final(self).spec_total_supply() == old(self).spec_total_supply()
                &&& final(self).same_but_supply_and_balances(*old(self))
            },
    {
        if to == 0 {
            return Err(Erc20Error::TransferFailed());
        }
        match self._transfer(caller, to, value) {
            Ok(()) => Ok(true),
            Err(e) => Err(e),
        }
    }

    /// Transfers `value` tokens from `from` to `to` on the caller's authority
    /// as spender. The (from, caller) allowance must cover the value and is
    /// decremented by exactly it; no other allowance changes. Every failure
    /// leaves balances and allowances unchanged.
    pub fn transfer_from(&mut self, caller: u64, from: u64, to: u64, value: u128) -> (r: Result<
        bool,
        Erc20Error,
    >)
        requires
            old(self).wf(),
        ensures
            final(self).wf(),
            to == 0 ==> r == Err::<bool, Erc20Error>(Erc20Error::TransferFailed()) && *final(self)
                == *old(self),
            to != 0 && old(self).allowance_of(from, caller) < value ==> r == Err::<
                bool,
                Erc20Error,
            >(
                Erc20Error::InsufficientAllowance(
                    from,
                    caller,
                    old(self).allowance_of(from, caller),
                    value,
                ),
            ) && *final(self) == *old(self),
            to != 0 && old(self).allowance_of(from, caller) >= value && old(self).bal(from) < value
                ==> r == Err::<bool, Erc20Error>(
                Erc20Error::InsufficientBalance(from, old(self).bal(from), value),
            ) && final(self).same_state(*old(self)),
            to != 0 && old(self).allowance_of(from, caller) >= value && old(self).bal(from) >= value
                ==> {
                &&& r == Ok::<bool, Erc20Error>(true)
                &&& final(self).allowance_of(from, caller) == old(self).allowance_of(from, caller)
                    - value
                &&& (forall|o: u64, p: u64|
                    !(o == from && p == caller) ==> final(self).allowance_of(o, p) == old(self).allowance_of(o, p))
                &&& (from != to ==> final(self).bal(from) == old(self).bal(from) - value && final(self).bal(to) == old(self).bal(to) + value)
                &&& (from == to ==> final(self).bal(from) == old(self).bal(from))
                &&& (forall|a: u64| a != from && a != to ==> final(self).bal(a) == old(self).bal(a))
                &&& final(self).spec_total_supply() == old(self).spec_total_supply()
                &&& final(self).spec_owner() == old(self).spec_owner()
                &&& final(self).spec_minter() == old(self).spec_minter()
                &&& final(self).spec_params() == old(self).spec_params()
            },
    {
        if to == 0 {
            return Err(Erc20Error::TransferFailed());
        }
        let old_allowance = self.allowances.get(from, caller);
        if old_allowance < value {
            return Err(
                Erc20Error::InsufficientAllowance(from, caller, old_allowance, value),
            );
        }
        self.allowances.set(from, caller, old_allowance - value);
        match self._transfer(from, to, value) {
            Ok(()) => Ok(true),
            Err(e) => {
                // The transfer primitive rejected the move: roll the
                // allowance back so the whole operation is all-or-nothing.
                self.allowances.set(from, caller, old_allowance);
                Err(e)
            },
        }
    }

    /// Overwrites — never adds to — the (caller, spender) allowance with
    /// `value`. The zero identifier is rejected as spender with
    /// `ApprovalFailed`, and nothing changes then.
    pub fn approve(&mut self, caller: u64, spender: u64, value: u128) -> (r: Result<
        bool,
        Erc20Error,
    >)
        requires
            old(self).wf(),
        ensures
            final(self).wf(),
            spender == 0 ==> r == Err::<bool, Erc20Error>(Erc20Error::ApprovalFailed()) && *final(self) == *old(self),
            spender != 0 ==> {
                &&& r == Ok::<bool, Erc20Error>(true)
                &&& final(self).allowance_of(caller, spender) == value
                &&& (forall|o: u64, p: u64|
                    !(o == caller && p == spender) ==> final(self).allowance_of(o, p) == old(self).allowance_of(o, p))
                &&& (forall|a: u64| final(self).bal(a) == old(self).bal(a))
                &&& final(self).spec_total_supply() == old(self).spec_total_supply()
                &&& final(self).spec_owner() == old(self).spec_owner()
                &&& final(self).spec_minter() == old(self).spec_minter()
                &&& final(self).spec_params() == old(self).spec_params()
            },
    {
        if spender == 0 {
            return Err(Erc20Error::ApprovalFailed());
        }
        self.allowances.set(caller, spender, value);
        Ok(true)
    }

    /// The token's name.
    pub fn name(&self) -> (r: String)
        ensures
            r == self.spec_params().name,
    {
        self.params.name.clone()
    }

    /// The token's symbol.
    pub fn symbol(&self) -> (r: String)
        ensures
            r == self.spec_params().symbol,
    {
        self.params.symbol.clone()
    }

    /// The token's decimal count.
    pub fn decimals(&self) -> (r: u8)
        ensures
            r == self.spec_params().decimals,
    {
        self.params.decimals
    }

    /// The total supply: with the ledger invariant, exactly the sum of all
    /// balances.
    pub fn total_supply(&self) -> (r: u128)
        ensures
            r == self.spec_total_supply(),
    {
        self.total_supply
    }

    /// The balance of `owner`. Never fails, never mutates.
    pub fn balance_of(&self, owner: u64) -> (r: u128)
        requires
            self.wf(),
        ensures
            r == self.bal(owner),
    {
        self.balances.get(owner)
    }

    /// What remains of the approval `owner` gave `spender`. Never fails,
    /// never mutates.
    pub fn allowance(&self, owner: u64, spender: u64) -> (r: u128)
        requires
            self.wf(),
        ensures
            r == self.allowance_of(owner, spender),
    {
        self.allowances.get(owner, spender)
    }
}

} // verus!
