//! Unsigned 256-bit integers: token amounts, gas quantities and hashes.

use vstd::arithmetic::div_mod::{
    lemma_fundamental_div_mod,
    lemma_fundamental_div_mod_converse,
    lemma_mod_bound,
};
use vstd::prelude::*;

verus! {

/// `2^64`, the base in which the four words of a `U256` are digits.
pub open spec fn word() -> nat {
    0x1_0000_0000_0000_0000
}

/// `2^128`.
pub open spec fn word2() -> nat {
    0x1_0000_0000_0000_0000_0000_0000_0000_0000nat
}

/// `2^192`.
pub open spec fn word3() -> nat {
    0x1_0000_0000_0000_0000_0000_0000_0000_0000_0000_0000_0000_0000nat
}

/// `2^256`, which no `U256` reaches.
pub open spec fn limit() -> nat {
    0x1_0000_0000_0000_0000_0000_0000_0000_0000_0000_0000_0000_0000_0000_0000_0000_0000nat
}

/// The number of atto in one whole coin.
pub const ATTO_PER_COIN: u128 = 1_000_000_000_000_000_000;

/// An unsigned integer of 256 bits, held as four words of 64 bits.
#[derive(Clone, Copy, Debug, PartialEq, Eq, Structural)]
pub struct U256 {
    /// Bits 192 to 255.
    pub w3: u64,
    /// Bits 128 to 191.
    pub w2: u64,
    /// Bits 64 to 127.
    pub w1: u64,
    /// Bits 0 to 63.
    pub w0: u64,
}

impl U256 {
    /// The number that the four words spell.
    pub open spec fn value(self) -> nat {
        self.w0 as nat + self.w1 as nat * word() + self.w2 as nat * word2() + self.w3 as nat * word3()
    }

    /// Every value is below `2^256`.
    pub proof fn lemma_value_bound(self)
        ensures
            self.value() < limit(),
    {
    }

    /// Two numbers of the same value are the same number.
    pub proof fn lemma_value_injective(self, other: U256)
        requires
            self.value() == other.value(),
        ensures
            self == other,
    {
        let a1 = self.w1 as int + self.w2 as int * word() + self.w3 as int * word2();
        let b1 = other.w1 as int + other.w2 as int * word() + other.w3 as int * word2();
        assert(self.value() == a1 * word() + self.w0);
        assert(other.value() == b1 * word() + other.w0);
        lemma_fundamental_div_mod_converse(self.value() as int, word() as int, a1, self.w0 as int);
        lemma_fundamental_div_mod_converse(
            other.value() as int,
            word() as int,
            b1,
            other.w0 as int,
        );
        let a2 = self.w2 as int + self.w3 as int * word();
        let b2 = other.w2 as int + other.w3 as int * word();
        assert(a1 == a2 * word() + self.w1);
        assert(b1 == b2 * word() + other.w1);
        lemma_fundamental_div_mod_converse(a1, word() as int, a2, self.w1 as int);
        lemma_fundamental_div_mod_converse(b1, word() as int, b2, other.w1 as int);
        lemma_fundamental_div_mod_converse(a2, word() as int, self.w3 as int, self.w2 as int);
        lemma_fundamental_div_mod_converse(b2, word() as int, other.w3 as int, other.w2 as int);
    }

    /// Zero.
    pub fn zero() -> (res: U256)
        ensures
            res.value() == 0,
    {
        U256 { w3: 0, w2: 0, w1: 0, w0: 0 }
    }

    /// The number `n`.
    pub fn from_u64(n: u64) -> (res: U256)
        ensures
            res.value() == n,
    {
        U256 { w3: 0, w2: 0, w1: 0, w0: n }
    }

    /// The number `n`.
    pub fn from_u128(n: u128) -> (res: U256)
        ensures
            res.value() == n,
    {
        let low: u128 = n % 0x1_0000_0000_0000_0000;
        let high: u128 = n / 0x1_0000_0000_0000_0000;
        U256 { w3: 0, w2: 0, w1: high as u64, w0: low as u64 }
    }

    /// The number `n`, `None` where `n` is negative: a sign is never dropped.
    pub fn from_i128(n: i128) -> (res: Option<U256>)
        ensures
            match res {
                Some(number) => n >= 0 && number.value() == n,
                None => n < 0,
            },
    {
        if n < 0 {
            None
        } else {
            Some(U256::from_u128(n as u128))
        }
    }

    /// The amount of `coins` whole coins in atto: `coins` times `10^18`.
    pub fn from_coins(coins: u64) -> (res: U256)
        ensures
            res.value() == coins as nat * ATTO_PER_COIN as nat,
    {
        assert(coins as nat * ATTO_PER_COIN as nat <= u128::MAX) by (nonlinear_arith)
            requires
                coins <= u64::MAX,
                ATTO_PER_COIN == 1_000_000_000_000_000_000,
        ;
        U256::from_u128(coins as u128 * ATTO_PER_COIN)
    }

    /// The number as a `u128`, where it fits in one.
    pub fn low_u128(&self) -> (res: Option<u128>)
        ensures
            match res {
                Some(n) => n == self.value(),
                None => self.value() > u128::MAX,
            },
    {
        if self.w3 != 0 || self.w2 != 0 {
            None
        } else {
            Some(self.w1 as u128 * 0x1_0000_0000_0000_0000 + self.w0 as u128)
        }
    }

    /// Whether the number is zero.
    pub fn is_zero(&self) -> (res: bool)
        ensures
            res == (self.value() == 0),
    {
        self.w3 == 0 && self.w2 == 0 && self.w1 == 0 && self.w0 == 0
    }

    /// The sum of two numbers, `None` where it does not fit in 256 bits.
    pub fn checked_add(self, other: U256) -> (res: Option<U256>)
        ensures
            match res {
                Some(sum) => sum.value() == self.value() + other.value(),
                None => self.value() + other.value() >= limit(),
            },
    {
        let (w0, c0) = add_step(self.w0, other.w0, 0);
        let (w1, c1) = add_step(self.w1, other.w1, c0);
        let (w2, c2) = add_step(self.w2, other.w2, c1);
        let (w3, c3) = add_step(self.w3, other.w3, c2);
        if c3 != 0 {
            None
        } else {
            Some(U256 { w3, w2, w1, w0 })
        }
    }

    /// The product with a 64-bit number, `None` where it does not fit in 256
    /// bits.
    pub fn checked_mul_u64(self, factor: u64) -> (res: Option<U256>)
        ensures
            match res {
                Some(product) => product.value() == self.value() * factor,
                None => self.value() * factor >= limit(),
            },
    {
        let (w0, c0) = mul_step(self.w0, factor, 0);
        let (w1, c1) = mul_step(self.w1, factor, c0);
        let (w2, c2) = mul_step(self.w2, factor, c1);
        let (w3, c3) = mul_step(self.w3, factor, c2);
        proof {
            let f = factor as int;
            let (a0, a1, a2, a3) = (self.w0 as int, self.w1 as int, self.w2 as int, self.w3 as int);
            assert((a0 + a1 * word() + a2 * word2() + a3 * word3()) * f == a0 * f + (a1 * f) * word() + (a2
                * f) * word2() + (a3 * f) * word3()) by (nonlinear_arith);
        }
        if c3 != 0 {
            None
        } else {
            Some(U256 { w3, w2, w1, w0 })
        }
    }

    /// The quotient by a 64-bit number, rounded down.
    pub fn div_u64(self, divisor: u64) -> (res: U256)
        requires
            divisor > 0,
        ensures
            res.value() == self.value() / divisor as nat,
    {
        let (q3, r3) = div_step(0, self.w3, divisor);
        let (q2, r2) = div_step(r3, self.w2, divisor);
        let (q1, r1) = div_step(r2, self.w1, divisor);
        let (q0, r0) = div_step(r1, self.w0, divisor);
        let res = U256 { w3: q3, w2: q2, w1: q1, w0: q0 };
        proof {
            let d = divisor as int;
            let (b0, b1, b2, b3) = (q0 as int, q1 as int, q2 as int, q3 as int);
            assert((b0 + b1 * word() + b2 * word2() + b3 * word3()) * d == d * b0 + (d * b1) * word() + (d
                * b2) * word2() + (d * b3) * word3()) by (nonlinear_arith);
            lemma_fundamental_div_mod_converse(
                self.value() as int,
                d,
                res.value() as int,
                r0 as int,
            );
        }
        res
    }

    /// Whether the number is below another.
    pub fn lt(&self, other: &U256) -> (res: bool)
        ensures
            res == (self.value() < other.value()),
    {
        if self.w3 != other.w3 {
            self.w3 < other.w3
        } else if self.w2 != other.w2 {
            self.w2 < other.w2
        } else if self.w1 != other.w1 {
            self.w1 < other.w1
        } else {
            self.w0 < other.w0
        }
    }
}

/// One word of a sum: the low 64 bits of `a + b + carry`, and what is
/// carried on.
fn add_step(a: u64, b: u64, carry: u64) -> (res: (u64, u64))
    requires
        carry <= 1,
    ensures
        a + b + carry == res.0 + res.1 * word(),
        res.1 <= 1,
{
    let sum: u128 = a as u128 + b as u128 + carry as u128;
    ((sum % 0x1_0000_0000_0000_0000) as u64, (sum / 0x1_0000_0000_0000_0000) as u64)
}

/// One word of a product: the low 64 bits of `a * factor + carry`, and what
/// is carried on.
fn mul_step(a: u64, factor: u64, carry: u64) -> (res: (u64, u64))
    ensures
        a * factor + carry == res.0 + res.1 * word(),
{
    assert(a as int * factor as int <= 0xffff_ffff_ffff_ffff * 0xffff_ffff_ffff_ffff)
        by (nonlinear_arith)
        requires
            0 <= a <= 0xffff_ffff_ffff_ffff,
            0 <= factor <= 0xffff_ffff_ffff_ffff,
    ;
    let product: u128 = a as u128 * factor as u128 + carry as u128;
    ((product % 0x1_0000_0000_0000_0000) as u64, (product / 0x1_0000_0000_0000_0000) as u64)
}

/// One word of a quotient: `rem * 2^64 + a` divided by `divisor`, with its
/// remainder.
fn div_step(rem: u64, a: u64, divisor: u64) -> (res: (u64, u64))
    requires
        divisor > 0,
        rem < divisor,
    ensures
        rem * word() + a == divisor * res.0 + res.1,
        res.1 < divisor,
{
    let current: u128 = rem as u128 * 0x1_0000_0000_0000_0000 + a as u128;
    let quotient: u128 = current / divisor as u128;
    let remainder: u128 = current % divisor as u128;
    proof {
        lemma_fundamental_div_mod(current as int, divisor as int);
        lemma_mod_bound(current as int, divisor as int);
        assert(quotient < 0x1_0000_0000_0000_0000) by (nonlinear_arith)
            requires
                current == divisor * quotient + remainder,
                current < divisor * 0x1_0000_0000_0000_0000,
                divisor > 0,
                remainder >= 0,
        ;
    }
    (quotient as u64, remainder as u64)
}

} // verus!
