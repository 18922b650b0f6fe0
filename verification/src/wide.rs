//! Overflow-safe wide-integer arithmetic for the pool valuation.
//!
//! A 256-bit unsigned value is carried as a pair `(hi, lo)` of `u128` halves
//! whose mathematical value is [`wide`]. The pool valuator multiplies two
//! full-width `u128` values, adds two such products, and divides by the share
//! count, all without loss; only the final quotient is narrowed.

use vstd::prelude::*;

verus! {

use vstd::arithmetic::div_mod::{
    lemma_basic_div, lemma_div_basics, lemma_div_denominator, lemma_fundamental_div_mod,
    lemma_fundamental_div_mod_converse_div,
};
use vstd::arithmetic::mul::lemma_mul_upper_bound;
use vstd::arithmetic::power2::{
    lemma_pow2_adds, lemma_pow2_pos, lemma_pow2_strictly_increases, lemma_pow2_unfold, pow2,
};
use vstd::bits::lemma_u128_shr_is_div;

/// The mathematical value of a 256-bit pair: `hi * 2^128 + lo`.
pub open spec fn wide(hi: u128, lo: u128) -> int {
    hi * two_to_128() + lo
}

/// `2^128` as a spec-level integer.
pub open spec fn two_to_128() -> int {
    0x100000000000000000000000000000000int
}

proof fn lemma_pow2_128()
    ensures
        pow2(128) == 0x100000000000000000000000000000000int,
        pow2(127) == 0x80000000000000000000000000000000,
        pow2(64) == 0x10000000000000000,
        pow2(0) == 1,
{
    vstd::arithmetic::power2::lemma2_to64();
    vstd::arithmetic::power2::lemma2_to64_rest();
    lemma_pow2_adds(64, 64);
    lemma_pow2_adds(64, 63);
}

/// Full 128-by-128-bit multiplication: the product of two `u128` values as a
/// 256-bit pair, computed through 64-bit limbs so that no step overflows.
pub fn mul_wide(a: u128, b: u128) -> (r: (u128, u128))
    ensures
        wide(r.0, r.1) == a * b,
{
    let a0: u128 = a % 0x10000000000000000;
    let a1: u128 = a / 0x10000000000000000;
    let b0: u128 = b % 0x10000000000000000;
    let b1: u128 = b / 0x10000000000000000;
    proof {
        lemma_mul_upper_bound(a0 as int, 0xffffffffffffffff, b0 as int, 0xffffffffffffffff);
        lemma_mul_upper_bound(a0 as int, 0xffffffffffffffff, b1 as int, 0xffffffffffffffff);
        lemma_mul_upper_bound(a1 as int, 0xffffffffffffffff, b0 as int, 0xffffffffffffffff);
        lemma_mul_upper_bound(a1 as int, 0xffffffffffffffff, b1 as int, 0xffffffffffffffff);
    }
    let t0: u128 = a0 * b0;
    let lo0: u128 = t0 % 0x10000000000000000;
    let c0: u128 = t0 / 0x10000000000000000;
    let t1: u128 = a0 * b1 + c0;
    let m1: u128 = t1 % 0x10000000000000000;
    let c1: u128 = t1 / 0x10000000000000000;
    let t2: u128 = a1 * b0 + m1;
    let r1: u128 = t2 % 0x10000000000000000;
    let c2: u128 = t2 / 0x10000000000000000;
    let hi: u128 = a1 * b1 + c1 + c2;
    let lo: u128 = r1 * 0x10000000000000000 + lo0;
    proof {
        let p64: int = 0x10000000000000000;
        lemma_fundamental_div_mod(a as int, p64);
        lemma_fundamental_div_mod(b as int, p64);
        lemma_fundamental_div_mod(t0 as int, p64);
        lemma_fundamental_div_mod(t1 as int, p64);
        lemma_fundamental_div_mod(t2 as int, p64);
        assert(hi * 0x100000000000000000000000000000000int + lo == a * b) by (nonlinear_arith)
            requires
                a == a1 * 0x10000000000000000int + a0,
                b == b1 * 0x10000000000000000int + b0,
                t0 == a0 * b0,
                t0 == 0x10000000000000000int * c0 + lo0,
                t1 == a0 * b1 + c0,
                t1 == 0x10000000000000000int * c1 + m1,
                t2 == a1 * b0 + m1,
                t2 == 0x10000000000000000int * c2 + r1,
                hi == a1 * b1 + c1 + c2,
                lo == r1 * 0x10000000000000000int + lo0,
        ;
    }
    (hi, lo)
}

/// Addition of two 256-bit pairs whose sum still fits in 256 bits.
pub fn add_wide(x: (u128, u128), y: (u128, u128)) -> (r: (u128, u128))
    requires
        x.0 + y.0 + 1 <= u128::MAX,
    ensures
        wide(r.0, r.1) == wide(x.0, x.1) + wide(y.0, y.1),
{
    if x.1 <= u128::MAX - y.1 {
        (x.0 + y.0, x.1 + y.1)
    } else {
        (x.0 + y.0 + 1, x.1 - (u128::MAX - y.1) - 1)
    }
}

/// Division of a 256-bit pair by a non-zero `u128`, by shift-and-subtract
/// long division over the 128 low bits. The requirement `hi < d` bounds the
/// quotient below `2^128`, so it fits the return type.
pub fn div_wide(hi: u128, lo: u128, d: u128) -> (q: u128)
    requires
        1 <= d,
        hi < d,
    ensures
        q == wide(hi, lo) / (d as int),
{
    let mut q: u128 = 0;
    let mut rem: u128 = hi;
    let mut i: usize = 0;
    proof {
        lemma_pow2_128();
        lemma_basic_div(lo as int, pow2(128) as int);
    }
    while i < 128
        invariant
            i <= 128,
            1 <= d,
            rem < d,
            q < pow2(i as nat),
            hi * pow2(i as nat) + (lo as int) / (pow2((128 - i) as nat) as int) == q * d + rem,
        decreases 128 - i,
    {
        let ghost q_old: u128 = q;
        let ghost rem_old: u128 = rem;
        let ghost pre_old: int = (lo as int) / (pow2((128 - i) as nat) as int);
        let sh: u128 = (127 - i) as u128;
        let b: u128 = (lo >> sh) % 2;
        proof {
            lemma_pow2_128();
            if (i as nat) < 127 {
                lemma_pow2_strictly_increases(i as nat, 127);
            }
            lemma_u128_shr_is_div(lo, sh);
            lemma_prefix_step(lo, (127 - i) as nat);
            assert(b == ((lo as int) / (pow2((127 - i) as nat) as int)) % 2);
            assert((lo as int) / (pow2((127 - i) as nat) as int) == 2 * pre_old + b);
        }
        let qb: u128;
        if rem >= 0x80000000000000000000000000000000 {
            // the shifted remainder carries into bit 128, so it certainly
            // exceeds the divisor: subtract and set the quotient bit, with
            // the carry folded into the 128-bit subtraction
            rem = (rem - 0x80000000000000000000000000000000) * 2 + b + (u128::MAX - d) + 1;
            qb = 1;
        } else {
            let rt: u128 = rem * 2 + b;
            if rt >= d {
                rem = rt - d;
                qb = 1;
            } else {
                rem = rt;
                qb = 0;
            }
        }
        q = q * 2 + qb;
        i = i + 1;
        proof {
            lemma_pow2_unfold(i as nat);
            assert(rem == 2 * rem_old + b - qb * d);
            assert(hi * pow2(i as nat) + (2 * pre_old + b) == q * d + rem) by (nonlinear_arith)
                requires
                    pow2(i as nat) == 2 * pow2((i - 1) as nat),
                    hi * pow2((i - 1) as nat) + pre_old == q_old * d + rem_old,
                    q == 2 * q_old + qb,
                    rem == 2 * rem_old + b - qb * d,
            ;
        }
    }
    proof {
        lemma_pow2_128();
        lemma_div_basics(lo as int);
        assert(wide(hi, lo) == q * d + rem);
        lemma_fundamental_div_mod_converse_div(wide(hi, lo), d as int, q as int, rem as int);
    }
    q
}

/// One step of binary long division: peeling the next bit off the dividend
/// doubles the processed prefix and adds that bit.
proof fn lemma_prefix_step(x: u128, k: nat)
    requires
        k < 128,
    ensures
        (x as int) / (pow2(k) as int) == 2 * ((x as int) / (pow2(k + 1) as int)) + ((x as int) / (
        pow2(k) as int)) % 2,
{
    lemma_pow2_pos(k);
    lemma_pow2_adds(k, 1);
    vstd::arithmetic::power2::lemma2_to64();
    lemma_div_denominator(x as int, pow2(k) as int, 2);
    let a: int = (x as int) / (pow2(k) as int);
    lemma_fundamental_div_mod(a, 2);
}

/// The high half of a product is small when one factor is: if
/// `hi * 2^128 + lo == a * b` with `b` below `2^127`, then `hi` is too.
pub proof fn lemma_wide_hi_bound(hi: u128, lo: u128, a: u128, b: u128)
    requires
        wide(hi, lo) == a * b,
        b < 0x80000000000000000000000000000000,
    ensures
        hi < 0x80000000000000000000000000000000,
{
    lemma_mul_upper_bound(
        a as int,
        0xffffffffffffffffffffffffffffffff,
        b as int,
        0x7fffffffffffffffffffffffffffffff,
    );
    assert(hi * two_to_128() <= a * b);
    if hi >= 0x80000000000000000000000000000000 {
        assert(hi * two_to_128() >= 0x80000000000000000000000000000000int * two_to_128())
            by (nonlinear_arith)
            requires
                hi >= 0x80000000000000000000000000000000u128,
        ;
    }
}

} // verus!
