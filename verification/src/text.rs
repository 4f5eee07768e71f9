//! Text as a sequence of characters, and decimal numerals.

use vstd::prelude::*;
use vstd::std_specs::iter::IteratorSpec;

verus! {

/// The characters of `text`, in order.
pub fn chars_of(text: &str) -> (out: Vec<char>)
    ensures
        out@ == text@,
{
    broadcast use vstd::string::group_string_axioms;

    let mut out: Vec<char> = Vec::new();
    let mut it = text.chars();
    loop
        invariant
            out@ + it.remaining() == text@,
            it.obeys_prophetic_iter_laws(),
            it.decrease() is Some,
        ensures
            out@ == text@,
        decreases it.decrease()->0,
    {
        let ghost before = it.remaining();
        let ghost collected = out@;
        match it.next() {
            Some(c) => {
                out.push(c);
                proof {
                    assert(out@ + it.remaining() =~= collected + before);
                }
            },
            None => {
                proof {
                    assert(collected + before =~= collected);
                }
                break ;
            },
        }
    }
    out
}

/// The longest numeral that is read: every numeral of this length fits in
/// 64 bits.
pub const MAX_NUMERAL_LEN: usize = 19;

/// Whether `c` is one of the ten ASCII digits.
pub open spec fn is_digit(c: char) -> bool {
    '0' <= c && c <= '9'
}

/// The value of the digit `c`.
pub open spec fn digit_value(c: char) -> nat {
    (c as int - '0' as int) as nat
}

/// A decimal numeral: at least one character, each an ASCII digit. No sign
/// and no blank is part of a numeral; leading zeros are.
pub open spec fn is_numeral(s: Seq<char>) -> bool {
    &&& s.len() >= 1
    &&& forall|i: int| 0 <= i < s.len() ==> is_digit(#[trigger] s[i])
}

/// The number that the digits of `s` spell in base ten.
pub open spec fn numeral_value(s: Seq<char>) -> nat
    decreases s.len(),
{
    if s.len() == 0 {
        0
    } else {
        10 * numeral_value(s.drop_last()) + digit_value(s.last())
    }
}

/// `10` to the power `k`.
pub open spec fn pow10(k: nat) -> nat
    decreases k,
{
    if k == 0 {
        1
    } else {
        10 * pow10((k - 1) as nat)
    }
}

/// A numeral of `k` digits is below `10^k`.
pub proof fn lemma_numeral_bound(s: Seq<char>)
    requires
        forall|i: int| 0 <= i < s.len() ==> is_digit(#[trigger] s[i]),
    ensures
        numeral_value(s) < pow10(s.len()),
    decreases s.len(),
{
    if s.len() > 0 {
        let init = s.drop_last();
        assert forall|i: int| 0 <= i < init.len() implies is_digit(#[trigger] init[i]) by {
            assert(init[i] == s[i]);
        }
        lemma_numeral_bound(init);
    }
}

/// Powers of ten grow with the exponent.
pub proof fn lemma_pow10_monotonic(a: nat, b: nat)
    requires
        a <= b,
    ensures
        pow10(a) <= pow10(b),
    decreases b,
{
    if a < b {
        lemma_pow10_monotonic(a, (b - 1) as nat);
    }
}

/// A numeral of at most nineteen digits is below `10^19`, and so fits in
/// 64 bits.
pub proof fn lemma_numeral_fits(s: Seq<char>)
    requires
        is_numeral(s),
        s.len() <= MAX_NUMERAL_LEN,
    ensures
        numeral_value(s) < 10_000_000_000_000_000_000,
        numeral_value(s) <= u64::MAX,
{
    lemma_numeral_bound(s);
    lemma_pow10_monotonic(s.len(), 19);
    assert(pow10(19) == 10_000_000_000_000_000_000) by {
        reveal_with_fuel(pow10, 20);
    }
}

/// The value of the digit `c`, `None` where `c` is no ASCII digit.
pub fn digit_of(c: char) -> (res: Option<u8>)
    ensures
        res is Some <==> is_digit(c),
        res is Some ==> res.unwrap() as nat == digit_value(c),
{
    if '0' <= c && c <= '9' {
        let code: u32 = c as u32;
        Some((code - 48) as u8)
    } else {
        None
    }
}

/// Reads a decimal numeral of at most `MAX_NUMERAL_LEN` digits: `Some` of its
/// value exactly when `s` is such a numeral.
pub fn parse_numeral(s: &[char]) -> (res: Option<u64>)
    ensures
        res is Some <==> is_numeral(s@) && s@.len() <= MAX_NUMERAL_LEN,
        res is Some ==> res.unwrap() as nat == numeral_value(s@),
{
    let len: usize = s.len();
    if len == 0 || len > MAX_NUMERAL_LEN {
        return None;
    }
    let mut acc: u64 = 0;
    let mut i: usize = 0;
    while i < len
        invariant
            i <= len,
            len == s@.len(),
            len <= MAX_NUMERAL_LEN,
            is_numeral(s@.take(i as int)) || i == 0,
            acc as nat == numeral_value(s@.take(i as int)),
        decreases len - i,
    {
        let ghost prefix = s@.take(i as int);
        let ghost next_prefix = s@.take(i + 1);
        match digit_of(s[i]) {
            None => {
                return None;
            },
            Some(d) => {
                proof {
                    assert(next_prefix.drop_last() =~= prefix);
                    assert(next_prefix.last() == s@[i as int]);
                    assert forall|k: int| 0 <= k < next_prefix.len() implies is_digit(
                        #[trigger] next_prefix[k],
                    ) by {
                        if k < i {
                            assert(prefix[k] == next_prefix[k]);
                        }
                    }
                    assert(is_numeral(next_prefix));
                    lemma_numeral_fits(next_prefix);
                }
                acc = acc * 10 + d as u64;
            },
        }
        i = i + 1;
    }
    proof {
        assert(s@.take(len as int) =~= s@);
    }
    Some(acc)
}

} // verus!
