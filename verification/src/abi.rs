use vstd::arithmetic::power::pow;
use vstd::prelude::*;

verus! {

/// The remote-call wire convention: a request is a 4-byte operation selector
/// followed by 32-byte argument slots — addresses right-aligned in a
/// zero-padded slot, integers as big-endian words. A boolean response is a
/// 32-byte word whose last byte is 1 for true; an integer response is a
/// 32-byte big-endian word.

/// The big-endian bytes of `v` in `n` byte positions, most significant first.
pub open spec fn be_bytes_of(v: int, n: nat) -> Seq<u8>
    decreases n,
{
    if n == 0 {
        Seq::empty()
    } else {
        be_bytes_of(v / 256, (n - 1) as nat).push((v % 256) as u8)
    }
}

/// The value that a big-endian byte string denotes.
pub open spec fn be_value(s: Seq<u8>) -> int
    decreases s.len(),
{
    if s.len() == 0 {
        0
    } else {
        be_value(s.drop_last()) * 256 + s.last()
    }
}

/// `n` zero bytes.
pub open spec fn zeros(n: nat) -> Seq<u8> {
    Seq::new(n, |i: int| 0u8)
}

/// A 32-byte integer slot: 16 zero bytes, then the value big-endian.
pub open spec fn u256_slot(v: u128) -> Seq<u8> {
    zeros(16) + be_bytes_of(v as int, 16)
}

/// A 32-byte address slot: 24 zero bytes, then the identifier big-endian.
pub open spec fn address_slot(a: u64) -> Seq<u8> {
    zeros(24) + be_bytes_of(a as int, 8)
}

/// The 32-byte response word for a successful boolean operation.
pub open spec fn true_slot() -> Seq<u8> {
    zeros(31).push(1u8)
}

/// The selector of the balance-query operation.
pub open spec fn balance_of_selector() -> Seq<u8> {
    seq![0x70u8, 0xa0u8, 0x82u8, 0x31u8]
}

/// The selector of the transfer operation.
pub open spec fn transfer_selector() -> Seq<u8> {
    seq![0xa9u8, 0x05u8, 0x9cu8, 0xbbu8]
}

/// A balance-query request: selector, then the queried account's slot.
pub open spec fn balance_query_bytes(owner: u64) -> Seq<u8> {
    balance_of_selector() + address_slot(owner)
}

/// A transfer request: selector, destination slot, value slot.
pub open spec fn transfer_call_bytes(to: u64, value: u128) -> Seq<u8> {
    transfer_selector() + address_slot(to) + u256_slot(value)
}

/// Whether `s` is a well-formed address slot: 32 bytes, the leading 24 zero.
pub open spec fn is_address_slot(s: Seq<u8>) -> bool {
    s.len() == 32 && (forall|i: int| 0 <= i < 24 ==> s[i] == 0)
}

/// The identifier a well-formed address slot carries.
pub open spec fn slot_address(s: Seq<u8>) -> u64 {
    be_value(s.subrange(24, 32)) as u64
}

/// Whether `s` is a well-formed integer slot: 32 bytes, the leading 16 zero.
pub open spec fn is_u256_slot(s: Seq<u8>) -> bool {
    s.len() == 32 && (forall|i: int| 0 <= i < 16 ==> s[i] == 0)
}

/// The integer a 32-byte response denotes: the big-endian value of its last
/// 16 bytes. A malformed response — wrong length, or a value past the largest
/// representable one — denotes zero.
pub open spec fn u256_of_slot(s: Seq<u8>) -> u128 {
    if s.len() == 32 && (forall|i: int| 0 <= i < 16 ==> s[i] == 0) {
        be_value(s.subrange(16, 32)) as u128
    } else {
        0
    }
}

pub proof fn lemma_be_bytes_len(v: int, n: nat)
    ensures
        be_bytes_of(v, n).len() == n,
    decreases n,
{
    if n > 0 {
        lemma_be_bytes_len(v / 256, (n - 1) as nat);
    }
}

pub proof fn lemma_be_value_bound(s: Seq<u8>)
    ensures
        0 <= be_value(s) < pow(256, s.len()),
    decreases s.len(),
{
    reveal(pow);
    if s.len() > 0 {
        lemma_be_value_bound(s.drop_last());
    }
}

/// The closed forms of the powers the 8- and 16-byte words need.
pub proof fn lemma_pow256_vals()
    ensures
        pow(256, 8) == 0x1_0000_0000_0000_0000,
        pow(256, 15) == 0x1_0000_0000_0000_0000_0000_0000_0000_00,
        pow(256, 16) == 0x1_0000_0000_0000_0000_0000_0000_0000_0000,
{
    reveal(pow);
    assert(pow(256, 0) == 1);
    assert(pow(256, 1) == 256);
    assert(pow(256, 2) == 0x1_0000);
    assert(pow(256, 3) == 0x100_0000);
    assert(pow(256, 4) == 0x1_0000_0000);
    assert(pow(256, 5) == 0x100_0000_0000);
    assert(pow(256, 6) == 0x1_0000_0000_0000);
    assert(pow(256, 7) == 0x100_0000_0000_0000);
    assert(pow(256, 8) == 0x1_0000_0000_0000_0000);
    assert(pow(256, 9) == 0x100_0000_0000_0000_0000);
    assert(pow(256, 10) == 0x1_0000_0000_0000_0000_0000);
    assert(pow(256, 11) == 0x100_0000_0000_0000_0000_0000);
    assert(pow(256, 12) == 0x1_0000_0000_0000_0000_0000_0000);
    assert(pow(256, 13) == 0x100_0000_0000_0000_0000_0000_0000);
    assert(pow(256, 14) == 0x1_0000_0000_0000_0000_0000_0000_0000);
    assert(pow(256, 15) == 0x1_0000_0000_0000_0000_0000_0000_0000_00);
    assert(pow(256, 16) == 0x1_0000_0000_0000_0000_0000_0000_0000_0000);
}

/// Encoding then decoding a big-endian word gives the value back.
pub proof fn lemma_be_round_trip(v: int, n: nat)
    requires
        0 <= v < pow(256, n),
    ensures
        be_value(be_bytes_of(v, n)) == v,
    decreases n,
{
    reveal(pow);
    if n == 0 {
    } else {
        let rest = v / 256;
        assert(pow(256, n) == 256 * pow(256, (n - 1) as nat));
        assert(0 <= rest < pow(256, (n - 1) as nat)) by (nonlinear_arith)
            requires
                0 <= v < pow(256, n),
                rest == v / 256,
                pow(256, n) == 256 * pow(256, (n - 1) as nat),
        {}
        lemma_be_round_trip(rest, (n - 1) as nat);
        let s = be_bytes_of(v, n);
        assert(s.drop_last() =~= be_bytes_of(rest, (n - 1) as nat));
        assert(be_value(s) == be_value(s.drop_last()) * 256 + s.last());
        assert(v == 256 * rest + v % 256) by (nonlinear_arith)
            requires
                v >= 0,
                rest == v / 256,
        {}
    }
}

/// Appends the `n`-byte big-endian form of `val` to `out`.
fn push_be_bytes(out: &mut Vec<u8>, val: u128, n: usize)
    ensures
        final(out)@ == old(out)@ + be_bytes_of(val as int, n as nat),
{
    let ghost full = be_bytes_of(val as int, n as nat);
    proof {
        lemma_be_bytes_len(val as int, n as nat);
    }
    let mut tail: Vec<u8> = Vec::new();
    let mut rest: u128 = val;
    let mut j: usize = 0;
    while j < n
        invariant
            0 <= j <= n,
            tail@.len() == j,
            full == be_bytes_of(val as int, n as nat),
            full.len() == n,
            full.take(n - j) == be_bytes_of(rest as int, (n - j) as nat),
            forall|k: int| 0 <= k < j ==> tail@[k] == full[n - 1 - k],
        decreases n - j,
    {
        let b: u8 = (rest % 256) as u8;
        proof {
            let m = (n - j) as nat;
            let cur = be_bytes_of(rest as int, m);
            lemma_be_bytes_len(rest as int, m);
            lemma_be_bytes_len(rest as int / 256, (m - 1) as nat);
            assert(cur.last() == b);
            assert(full[n - 1 - j] == b);
            assert(full.take(n - j - 1) =~= full.take(n - j).drop_last());
            assert(cur.drop_last() =~= be_bytes_of(rest as int / 256, (m - 1) as nat));
        }
        tail.push(b);
        rest = rest / 256;
        j += 1;
    }
    let mut k: usize = 0;
    while k < n
        invariant
            0 <= k <= n,
            tail@.len() == n,
            full.len() == n,
            out@.len() == old(out)@.len() + k,
            forall|i: int| 0 <= i < old(out)@.len() ==> out@[i] == old(out)@[i],
            forall|i: int| 0 <= i < k ==> out@[old(out)@.len() + i] == full[i],
            forall|i: int| 0 <= i < n ==> tail@[i] == full[n - 1 - i],
        decreases n - k,
    {
        let b = tail[n - 1 - k];
        out.push(b);
        k += 1;
    }
    proof {
        assert(out@ =~= old(out)@ + full);
    }
}

/// Appends `n` zero bytes to `out`.
fn push_zeros(out: &mut Vec<u8>, n: usize)
    ensures
        final(out)@ == old(out)@ + zeros(n as nat),
{
    let mut k: usize = 0;
    while k < n
        invariant
            0 <= k <= n,
            out@.len() == old(out)@.len() + k,
            forall|i: int| 0 <= i < old(out)@.len() ==> out@[i] == old(out)@[i],
            forall|i: int| old(out)@.len() <= i < out@.len() ==> out@[i] == 0,
        decreases n - k,
    {
        out.push(0);
        k += 1;
    }
    proof {
        assert(out@ =~= old(out)@ + zeros(n as nat));
    }
}

/// Encodes an account identifier as a 32-byte address slot.
pub fn ethereum_encode_address(addr: u64) -> (r: Vec<u8>)
    ensures
        r@ == address_slot(addr),
{
    let mut out: Vec<u8> = Vec::new();
    push_zeros(&mut out, 24);
    push_be_bytes(&mut out, addr as u128, 8);
    proof {
        assert(out@ =~= address_slot(addr));
    }
    out
}

/// Encodes an integer as a 32-byte big-endian slot.
pub fn ethereum_encode_u256(val: u128) -> (r: Vec<u8>)
    ensures
        r@ == u256_slot(val),
{
    let mut out: Vec<u8> = Vec::new();
    push_zeros(&mut out, 16);
    push_be_bytes(&mut out, val, 16);
    proof {
        assert(out@ =~= u256_slot(val));
    }
    out
}

/// Builds a balance-query request for `owner`'s balance.
pub fn build_balance_query(owner: u64) -> (r: Vec<u8>)
    ensures
        r@ == balance_query_bytes(owner),
{
    let mut input: Vec<u8> = Vec::new();
    input.push(0x70);
    input.push(0xa0);
    input.push(0x82);
    input.push(0x31);
    let mut slot = ethereum_encode_address(owner);
    input.append(&mut slot);
    proof {
        assert(input@ =~= balance_query_bytes(owner));
    }
    input
}

/// Builds a transfer request moving `value` tokens to `to`.
pub fn build_transfer_call(to: u64, value: u128) -> (r: Vec<u8>)
    ensures
        r@ == transfer_call_bytes(to, value),
{
    let mut input: Vec<u8> = Vec::new();
    input.push(0xa9);
    input.push(0x05);
    input.push(0x9c);
    input.push(0xbb);
    let mut addr = ethereum_encode_address(to);
    input.append(&mut addr);
    let mut amount = ethereum_encode_u256(value);
    input.append(&mut amount);
    proof {
        assert(input@ =~= transfer_call_bytes(to, value));
    }
    input
}

/// Builds the response word for a successful boolean operation.
pub fn build_true_slot() -> (r: Vec<u8>)
    ensures
        r@ == true_slot(),
{
    let mut out: Vec<u8> = Vec::new();
    push_zeros(&mut out, 31);
    out.push(1);
    proof {
        assert(out@ =~= true_slot());
    }
    out
}

/// Reads `n` big-endian bytes starting at `start` as an integer.
pub fn read_be(data: &Vec<u8>, start: usize, n: usize) -> (r: u128)
    requires
        n <= 16,
        start + n <= data@.len(),
    ensures
        r as int == be_value(data@.subrange(start as int, start as int + n as int)),
{
    proof {
        reveal(pow);
        lemma_pow256_vals();
        assert(pow(256, 0) == 1);
    }
    let data_len = data.len();
    let mut val: u128 = 0;
    let mut k: usize = 0;
    while k < n
        invariant
            0 <= k <= n,
            n <= 16,
            data_len == data@.len(),
            start + n <= data@.len(),
            val as int == be_value(data@.subrange(start as int, start as int + k as int)),
            (val as int) < pow(256, k as nat),
            pow(256, 16) == 0x1_0000_0000_0000_0000_0000_0000_0000_0000,
        decreases n - k,
    {
        proof {
            reveal(pow);
            let s = data@.subrange(start as int, start as int + k as int + 1);
            assert(s.drop_last() =~= data@.subrange(start as int, start as int + k as int));
            assert(be_value(s) == be_value(s.drop_last()) * 256 + s.last());
            assert(pow(256, (k + 1) as nat) == 256 * pow(256, k as nat));
            vstd::arithmetic::power::lemma_pow_increases(256, (k + 1) as nat, 16);
            assert((val as int) * 256 + data@[start as int + k as int] < pow(
                256,
                (k + 1) as nat,
            ));
        }
        val = val * 256 + (data[start + k] as u128);
        k += 1;
    }
    val
}

/// Tests whether the bytes of `data` in `[start, end)` are all zero.
pub fn all_zero(data: &Vec<u8>, start: usize, end: usize) -> (r: bool)
    requires
        start <= end,
        end <= data@.len(),
    ensures
        r == (forall|i: int| start <= i < end ==> data@[i] == 0),
{
    let mut k: usize = start;
    while k < end
        invariant
            start <= k <= end,
            end <= data@.len(),
            forall|i: int| start <= i < k ==> data@[i] == 0,
        decreases end - k,
    {
        if data[k] != 0 {
            return false;
        }
        k += 1;
    }
    true
}

/// Decodes a 32-byte big-endian response word. A malformed response — wrong
/// length, or a value past the largest representable one — decodes to zero.
pub fn ethereum_decode_u256(data: &Vec<u8>) -> (r: u128)
    ensures
        r == u256_of_slot(data@),
{
    if data.len() != 32 {
        return 0;
    }
    if !all_zero(data, 0, 16) {
        return 0;
    }
    proof {
        lemma_be_value_bound(data@.subrange(16, 32));
        lemma_pow256_vals();
    }
    read_be(data, 16, 16)
}

} // verus!
