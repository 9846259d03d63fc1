use vstd::prelude::*;

use crate::abi::{
    all_zero, balance_of_selector, build_true_slot, ethereum_encode_u256,
    is_address_slot, is_u256_slot, lemma_be_value_bound, lemma_pow256_vals, read_be, slot_address,
    transfer_selector, true_slot, u256_of_slot, u256_slot,
};
use crate::erc_20::Erc20;
use crate::token_sale::SaleHost;

verus! {

/// A parsed ledger request: a balance query, or an order to transfer tokens
/// of the calling account.
pub enum LedgerRequest {
    Balance(u64),
    Transfer(u64, u128),
}

/// What a byte string means as a ledger request, if anything: the 4-byte
/// selector picks the operation, and each argument sits in a well-formed
/// 32-byte slot. Anything else is no request.
pub open spec fn parse_request(s: Seq<u8>) -> Option<LedgerRequest> {
    if s.len() == 36 && s.subrange(0, 4) == balance_of_selector() && is_address_slot(
        s.subrange(4, 36),
    ) {
        Some(LedgerRequest::Balance(slot_address(s.subrange(4, 36))))
    } else if s.len() == 68 && s.subrange(0, 4) == transfer_selector() && is_address_slot(
        s.subrange(4, 36),
    ) && is_u256_slot(s.subrange(36, 68)) {
        Some(
            LedgerRequest::Transfer(
                slot_address(s.subrange(4, 36)),
                u256_of_slot(s.subrange(36, 68)),
            ),
        )
    } else {
        None
    }
}

/// The wire format is coherent: a balance query built for `owner` parses
/// back as exactly that query.
pub proof fn lemma_parse_balance_query(owner: u64)
    ensures
        parse_request(crate::abi::balance_query_bytes(owner)) == Some(
            LedgerRequest::Balance(owner),
        ),
{
    let s = crate::abi::balance_query_bytes(owner);
    crate::abi::lemma_be_bytes_len(owner as int, 8);
    assert(s.len() == 36);
    assert(s.subrange(0, 4) =~= balance_of_selector());
    assert(s.subrange(4, 36) =~= crate::abi::address_slot(owner));
    assert(is_address_slot(s.subrange(4, 36)));
    assert(s.subrange(4, 36).subrange(24, 32) =~= crate::abi::be_bytes_of(owner as int, 8));
    lemma_pow256_vals();
    crate::abi::lemma_be_round_trip(owner as int, 8);
    assert(slot_address(s.subrange(4, 36)) == owner);
}

/// The wire format is coherent: a transfer request built for `to` and
/// `value` parses back as exactly that order.
pub proof fn lemma_parse_transfer_call(to: u64, value: u128)
    ensures
        parse_request(crate::abi::transfer_call_bytes(to, value)) == Some(
            LedgerRequest::Transfer(to, value),
        ),
{
    let s = crate::abi::transfer_call_bytes(to, value);
    crate::abi::lemma_be_bytes_len(to as int, 8);
    crate::abi::lemma_be_bytes_len(value as int, 16);
    assert(s.len() == 68);
    assert(s.subrange(0, 4) =~= transfer_selector());
    assert(s.subrange(4, 36) =~= crate::abi::address_slot(to));
    assert(s.subrange(36, 68) =~= crate::abi::u256_slot(value));
    assert(is_address_slot(s.subrange(4, 36)));
    assert(is_u256_slot(s.subrange(36, 68)));
    assert(s.subrange(4, 36).subrange(24, 32) =~= crate::abi::be_bytes_of(to as int, 8));
    assert(s.subrange(36, 68).subrange(16, 32) =~= crate::abi::be_bytes_of(value as int, 16));
    lemma_pow256_vals();
    crate::abi::lemma_be_round_trip(to as int, 8);
    crate::abi::lemma_be_round_trip(value as int, 16);
    assert(slot_address(s.subrange(4, 36)) == to);
    assert(u256_of_slot(s.subrange(36, 68)) == value);
}

/// Serves one remote request against the ledger, on the authority of
/// `caller`: a balance query answers with the balance's 32-byte word and
/// changes nothing; a transfer order runs the ledger's ordinary transfer
/// transition — exactly as if called directly — and answers with the success
/// word, or reports failure with `None` and changes nothing. A request that
/// parses as nothing is answered with `None`.
pub fn ledger_dispatch(ledger: &mut Erc20, caller: u64, input: &Vec<u8>) -> (r: Option<Vec<u8>>)
    requires
        old(ledger).wf(),
    ensures
        final(ledger).wf(),
        parse_request(input@) is None ==> r is None && *final(ledger) == *old(ledger),
        parse_request(input@) matches Some(LedgerRequest::Balance(a)) ==> (r matches Some(out)
            && out@ == u256_slot(old(ledger).bal(a))) && *final(ledger) == *old(ledger),
        parse_request(input@) matches Some(LedgerRequest::Transfer(to, v)) ==> {
            &&& (to != 0 && old(ledger).bal(caller) >= v ==> {
                &&& (r matches Some(out) && out@ == true_slot())
                &&& (caller != to ==> final(ledger).bal(caller) == old(ledger).bal(caller) - v
                    && final(ledger).bal(to) == old(ledger).bal(to) + v)
                &&& (caller == to ==> final(ledger).bal(caller) == old(ledger).bal(caller))
                &&& (forall|a: u64|
                    a != caller && a != to ==> final(ledger).bal(a) == old(ledger).bal(a))
                &&& final(ledger).spec_total_supply() == old(ledger).spec_total_supply()
                &&& final(ledger).same_but_supply_and_balances(*old(ledger))
            })
            &&& (to == 0 || old(ledger).bal(caller) < v ==> r is None && *final(ledger) == *old(
                ledger,
            ))
        },
{
    let n = input.len();
    if n == 36 {
        if input[0] == 0x70 && input[1] == 0xa0 && input[2] == 0x82 && input[3] == 0x31 {
            proof {
                assert(input@.subrange(0, 4) =~= balance_of_selector());
            }
            if all_zero(input, 4, 28) {
                proof {
                    assert(is_address_slot(input@.subrange(4, 36)));
                    assert(input@.subrange(4, 36).subrange(24, 32) =~= input@.subrange(28, 36));
                    lemma_be_value_bound(input@.subrange(28, 36));
                    lemma_pow256_vals();
                }
                let owner = read_be(input, 28, 8) as u64;
                let balance = ledger.balance_of(owner);
                return Some(ethereum_encode_u256(balance));
            } else {
                proof {
                    assert(!is_address_slot(input@.subrange(4, 36))) by {
                        let i = choose|i: int| 4 <= i < 28 && input@[i] != 0;
                        assert(input@.subrange(4, 36)[i - 4] != 0);
                    }
                }
                return None;
            }
        } else {
            proof {
                assert(input@.subrange(0, 4) != balance_of_selector());
            }
            return None;
        }
    }
    if n == 68 {
        if input[0] == 0xa9 && input[1] == 0x05 && input[2] == 0x9c && input[3] == 0xbb {
            proof {
                assert(input@.subrange(0, 4) =~= transfer_selector());
            }
            let args_ok = all_zero(input, 4, 28);
            let value_ok = all_zero(input, 36, 52);
            if args_ok && value_ok {
                proof {
                    assert(is_address_slot(input@.subrange(4, 36)));
                    assert(is_u256_slot(input@.subrange(36, 68)));
                    assert(input@.subrange(4, 36).subrange(24, 32) =~= input@.subrange(28, 36));
                    assert(input@.subrange(36, 68).subrange(16, 32) =~= input@.subrange(52, 68));
                    lemma_be_value_bound(input@.subrange(28, 36));
                    lemma_be_value_bound(input@.subrange(52, 68));
                    lemma_pow256_vals();
                }
                let to = read_be(input, 28, 8) as u64;
                let value = read_be(input, 52, 16);
                match ledger.transfer(caller, to, value) {
                    Ok(_) => {
                        return Some(build_true_slot());
                    },
                    Err(_) => {
                        return None;
                    },
                }
            } else {
                proof {
                    if !args_ok {
                        assert(!is_address_slot(input@.subrange(4, 36))) by {
                            let i = choose|i: int| 4 <= i < 28 && input@[i] != 0;
                            assert(input@.subrange(4, 36)[i - 4] != 0);
                        }
                    } else {
                        assert(!is_u256_slot(input@.subrange(36, 68))) by {
                            let i = choose|i: int| 36 <= i < 52 && input@[i] != 0;
                            assert(input@.subrange(36, 68)[i - 36] != 0);
                        }
                    }
                }
                return None;
            }
        } else {
            proof {
                assert(input@.subrange(0, 4) != transfer_selector());
            }
            return None;
        }
    }
    None
}

/// A host that binds the sale controller to a ledger living in the same
/// process: requests addressed to the ledger's identifier are served against
/// it on the controller's authority, and native-currency payments are drawn
/// from a held balance and recorded. It answers exactly as a remote ledger
/// would; the controller still trusts nothing but the returned bytes.
///
/// One caveat: this host does not model call-level atomicity. On a real
/// execution host a late failure rolls the whole operation back, remote
/// effects included; here an already-served request stands even when a later
/// step of the caller's operation fails.
pub struct LedgerHost {
    ledger: Erc20,
    ledger_address: u64,
    sale_address: u64,
    native: u128,
    payments: Vec<(u64, u128)>,
}

impl LedgerHost {
    pub closed spec fn spec_ledger(self) -> Erc20 {
        self.ledger
    }

    pub closed spec fn spec_ledger_address(self) -> u64 {
        self.ledger_address
    }

    pub closed spec fn spec_sale_address(self) -> u64 {
        self.sale_address
    }

    pub closed spec fn spec_native(self) -> u128 {
        self.native
    }

    pub closed spec fn spec_payments(self) -> Seq<(u64, u128)> {
        self.payments@
    }

    /// Binds `ledger`, reachable at `ledger_address`, to a controller whose
    /// own identity is `sale_address` and that holds `native` of native
    /// currency.
    pub fn new(ledger: Erc20, ledger_address: u64, sale_address: u64, native: u128) -> (r:
        LedgerHost)
        requires
            ledger.wf(),
        ensures
            r.spec_ledger() == ledger,
            r.spec_ledger_address() == ledger_address,
            r.spec_sale_address() == sale_address,
            r.spec_native() == native,
            r.spec_payments() == Seq::<(u64, u128)>::empty(),
            r.ok(),
    {
        LedgerHost { ledger, ledger_address, sale_address, native, payments: Vec::new() }
    }

    /// A view of the hosted ledger, for reading balances back out. While
    /// the host is well-formed, so is the ledger it hands back.
    pub fn ledger(&self) -> (r: &Erc20)
        ensures
            *r == self.spec_ledger(),
            self.ok() ==> r.wf(),
    {
        &self.ledger
    }

    /// The native currency still held.
    pub fn native(&self) -> (r: u128)
        ensures
            r == self.spec_native(),
    {
        self.native
    }

    /// Every payment made so far, in order: (recipient, amount).
    pub fn payments(&self) -> (r: &Vec<(u64, u128)>)
        ensures
            r@ == self.spec_payments(),
    {
        &self.payments
    }
}

impl SaleHost for LedgerHost {
    /// The hosted ledger keeps the ledger invariant.
    closed spec fn ok(&self) -> bool {
        self.ledger.wf()
    }

    fn call(&mut self, target: u64, input: &Vec<u8>) -> Option<Vec<u8>> {
        if target != self.ledger_address {
            return None;
        }
        let caller = self.sale_address;
        ledger_dispatch(&mut self.ledger, caller, input)
    }

    fn pay(&mut self, to: u64, amount: u128) -> bool {
        if amount <= self.native {
            self.native = self.native - amount;
            self.payments.push((to, amount));
            true
        } else {
            false
        }
    }

    fn native_balance(&self) -> u128 {
        self.native
    }
}

} // verus!
