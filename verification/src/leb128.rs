//! Unsigned LEB128: little-endian groups of seven bits, the top bit of each
//! byte set on all but the last.

use vstd::prelude::*;

verus! {

/// The canonical LEB128 encoding of `n`.
pub open spec fn leb128(n: nat) -> Seq<u8>
    decreases n,
{
    if n < 128 {
        seq![n as u8]
    } else {
        seq![(n % 128 + 128) as u8] + leb128(n / 128)
    }
}

/// The number that the low seven bits of each byte spell, least significant
/// group first. The continuation bits are not looked at.
pub open spec fn septets_value(bytes: Seq<u8>) -> nat
    decreases bytes.len(),
{
    if bytes.len() == 0 {
        0
    } else {
        (bytes[0] % 128) as nat + 128 * septets_value(bytes.drop_first())
    }
}

/// `128` to the power `k`.
pub open spec fn pow128(k: nat) -> nat
    decreases k,
{
    if k == 0 {
        1
    } else {
        128 * pow128((k - 1) as nat)
    }
}

/// An encoding is never empty.
pub proof fn lemma_leb128_nonempty(n: nat)
    ensures
        leb128(n).len() >= 1,
    decreases n,
{
    if n >= 128 {
        lemma_leb128_nonempty(n / 128);
    }
}

/// Reading the septets of an encoding gives the number back.
pub proof fn lemma_septets_of_leb128(n: nat)
    ensures
        septets_value(leb128(n)) == n,
    decreases n,
{
    if n < 128 {
        assert(leb128(n).drop_first() =~= Seq::<u8>::empty());
        assert(septets_value(leb128(n).drop_first()) == 0);
    } else {
        lemma_septets_of_leb128(n / 128);
        assert(leb128(n).drop_first() =~= leb128(n / 128));
    }
}

/// Two numbers with the same encoding are the same number.
pub proof fn lemma_leb128_injective(a: nat, b: nat)
    requires
        leb128(a) == leb128(b),
    ensures
        a == b,
{
    lemma_septets_of_leb128(a);
    lemma_septets_of_leb128(b);
}

/// A number below `128^k`, `k >= 1`, is encoded in at most `k` bytes.
pub proof fn lemma_leb128_len(n: nat, k: nat)
    requires
        k >= 1,
        n < pow128(k),
    ensures
        leb128(n).len() <= k,
    decreases k,
{
    if n >= 128 {
        assert(k >= 2) by {
            reveal_with_fuel(pow128, 2);
        }
        lemma_leb128_len(n / 128, (k - 1) as nat);
    }
}

/// Every 64-bit number is encoded in at most ten bytes.
pub proof fn lemma_leb128_u64_len(n: u64)
    ensures
        1 <= leb128(n as nat).len() <= 10,
{
    lemma_leb128_nonempty(n as nat);
    lemma_pow128_ten();
    lemma_leb128_len(n as nat, 10);
}

/// Encodes `n` in LEB128.
pub fn encode(n: u64) -> (out: Vec<u8>)
    ensures
        out@ == leb128(n as nat),
{
    let mut out: Vec<u8> = Vec::new();
    let mut rest: u64 = n;
    while rest >= 128
        invariant
            out@ + leb128(rest as nat) == leb128(n as nat),
        decreases rest,
    {
        let low: u64 = rest % 128 + 128;
        let ghost before = out@;
        out.push(low as u8);
        proof {
            assert(leb128(rest as nat) == seq![(rest % 128 + 128) as u8] + leb128(
                (rest / 128) as nat,
            ));
            assert(out@ + leb128((rest / 128) as nat) =~= before + leb128(rest as nat));
        }
        rest = rest / 128;
    }
    let ghost before = out@;
    out.push(rest as u8);
    proof {
        assert(out@ =~= before + leb128(rest as nat));
    }
    out
}

/// Decodes a canonical LEB128 encoding of a 64-bit number: `Some(n)` exactly
/// when `bytes` is the encoding of `n`, and `None` when no 64-bit number is
/// encoded so (an empty input, a padded or over-long one, a stray
/// continuation bit).
pub fn decode(bytes: &[u8]) -> (res: Option<u64>)
    ensures
        match res {
            Some(n) => bytes@ == leb128(n as nat),
            None => forall|n: u64| bytes@ != leb128(n as nat),
        },
{
    let len: usize = bytes.len();
    if len == 0 || len > 10 {
        proof {
            assert forall|n: u64| bytes@ != leb128(n as nat) by {
                lemma_leb128_u64_len(n);
            }
        }
        return None;
    }
    let mut acc: u128 = 0;
    let mut i: usize = len;
    while i > 0
        invariant
            i <= len,
            len == bytes@.len(),
            len <= 10,
            acc == septets_value(bytes@.skip(i as int)),
            acc < pow128((len - i) as nat),
        decreases i,
    {
        i = i - 1;
        let septet: u8 = bytes[i] % 128;
        proof {
            assert(bytes@.skip(i as int).drop_first() =~= bytes@.skip(i + 1));
            assert(bytes@.skip(i as int)[0] == bytes@[i as int]);
            lemma_pow128_ten();
            lemma_pow128_monotonic((len - i - 1) as nat, 9);
            assert(pow128(9) * 128 == pow128(10)) by {
                reveal_with_fuel(pow128, 2);
            }
        }
        acc = septet as u128 + 128 * acc;
    }
    proof {
        assert(bytes@.skip(0) =~= bytes@);
    }
    if acc > u64::MAX as u128 {
        proof {
            assert forall|n: u64| bytes@ != leb128(n as nat) by {
                lemma_septets_of_leb128(n as nat);
            }
        }
        return None;
    }
    let candidate: u64 = acc as u64;
    let again: Vec<u8> = encode(candidate);
    if same_bytes(again.as_slice(), bytes) {
        Some(candidate)
    } else {
        proof {
            assert forall|n: u64| bytes@ != leb128(n as nat) by {
                lemma_septets_of_leb128(n as nat);
            }
        }
        None
    }
}

/// `128^10` is `2^70`.
pub proof fn lemma_pow128_ten()
    ensures
        pow128(10) == 0x40_0000_0000_0000_0000,
{
    reveal_with_fuel(pow128, 11);
}

/// Powers of 128 grow with the exponent.
pub proof fn lemma_pow128_monotonic(a: nat, b: nat)
    requires
        a <= b,
    ensures
        pow128(a) <= pow128(b),
        pow128(a) >= 1,
    decreases b,
{
    if a < b {
        lemma_pow128_monotonic(a, (b - 1) as nat);
    } else if a > 0 {
        lemma_pow128_monotonic((a - 1) as nat, (b - 1) as nat);
    }
}

/// Whether two byte strings are equal.
pub fn same_bytes(a: &[u8], b: &[u8]) -> (res: bool)
    ensures
        res == (a@ == b@),
{
    if a.len() != b.len() {
        return false;
    }
    let mut i: usize = 0;
    while i < a.len()
        invariant
            i <= a@.len(),
            a@.len() == b@.len(),
            forall|k: int| 0 <= k < i ==> a@[k] == b@[k],
        decreases a@.len() - i,
    {
        if a[i] != b[i] {
            return false;
        }
        i = i + 1;
    }
    proof {
        assert(a@ =~= b@);
    }
    true
}

} // verus!
