//! Truncating division and narrowing of wide accumulator values.
//!
//! The moving-average filter divides a wide signed accumulator by the
//! window length with Rust's truncating `/` and then narrows the quotient
//! to `i32` with a plain `as` cast. Spec-mode `/` and `%` are Euclidean,
//! so both steps are defined here explicitly and the executable versions
//! are proved against them.

use vstd::arithmetic::div_mod::lemma_div_nonincreasing;
use vstd::arithmetic::div_mod::lemma_div_pos_is_pos;
use vstd::arithmetic::div_mod::lemma_fundamental_div_mod;
use vstd::arithmetic::div_mod::lemma_fundamental_div_mod_converse;
use vstd::arithmetic::mul::lemma_mul_inequality;
use vstd::prelude::*;

verus! {

/// Quotient of `a` by `b` rounded toward zero, as Rust's `/` computes it.
pub open spec fn trunc_div(a: int, b: int) -> int {
    if a >= 0 {
        a / b
    } else {
        -((-a) / b)
    }
}

/// The `i32` whose bit pattern the low 32 bits of `a` form: the value a
/// narrowing `as i32` cast produces.
pub open spec fn wrap_i32(a: int) -> i32 {
    let m = a % 0x1_0000_0000;
    if m >= 0x8000_0000 {
        (m - 0x1_0000_0000) as i32
    } else {
        m as i32
    }
}

/// Narrowing leaves values that already fit in `i32` unchanged.
pub proof fn lemma_wrap_i32_identity(a: int)
    requires
        -0x8000_0000 <= a < 0x8000_0000,
    ensures
        wrap_i32(a) == a,
{
    if a >= 0 {
        lemma_fundamental_div_mod_converse(a, 0x1_0000_0000, 0, a);
    } else {
        lemma_fundamental_div_mod_converse(a, 0x1_0000_0000, -1, a + 0x1_0000_0000);
    }
}

/// A product of a repetition count below 2^64 and a sample value fits
/// comfortably inside `i128`: its magnitude stays below 2^95.
pub proof fn lemma_count_times_sample_bound(c: int, v: int)
    requires
        0 <= c <= 0x1_0000_0000_0000_0000,
        -0x8000_0000 <= v <= 0x8000_0000,
    ensures
        -0x8000_0000_0000_0000_0000_0000 <= c * v <= 0x8000_0000_0000_0000_0000_0000,
{
    lemma_mul_inequality(v, 0x8000_0000, c);
    lemma_mul_inequality(-0x8000_0000, v, c);
    lemma_mul_inequality(c, 0x1_0000_0000_0000_0000, 0x8000_0000);
}

/// Truncating division, computed through unsigned division on the
/// magnitude so that the rounding direction is explicit.
pub(crate) fn div_trunc(a: i128, b: usize) -> (r: i128)
    requires
        b >= 1,
        a != i128::MIN,
    ensures
        r == trunc_div(a as int, b as int),
        a >= 0 ==> 0 <= r <= a,
        a < 0 ==> a <= r <= 0,
{
    if a >= 0 {
        proof {
            lemma_div_nonincreasing(a as int, b as int);
            lemma_div_pos_is_pos(a as int, b as int);
        }
        ((a as u128) / (b as u128)) as i128
    } else {
        let m = (-a) as u128;
        let q = m / (b as u128);
        proof {
            lemma_div_nonincreasing(m as int, b as int);
            lemma_div_pos_is_pos(m as int, b as int);
        }
        -(q as i128)
    }
}

/// The narrowing `as i32` cast, computed through Euclidean remainders on
/// the magnitude.
pub(crate) fn wrap_to_i32(a: i128) -> (r: i32)
    requires
        a != i128::MIN,
    ensures
        r == wrap_i32(a as int),
{
    let m: u128 = if a >= 0 {
        (a as u128) % 0x1_0000_0000u128
    } else {
        let na = (-a) as u128;
        let q = na % 0x1_0000_0000u128;
        proof {
            lemma_fundamental_div_mod(na as int, 0x1_0000_0000);
            if q == 0 {
                lemma_fundamental_div_mod_converse(
                    a as int,
                    0x1_0000_0000,
                    -((na as int) / 0x1_0000_0000),
                    0,
                );
            } else {
                lemma_fundamental_div_mod_converse(
                    a as int,
                    0x1_0000_0000,
                    -((na as int) / 0x1_0000_0000) - 1,
                    0x1_0000_0000 - (q as int),
                );
            }
        }
        if q == 0 {
            0
        } else {
            0x1_0000_0000u128 - q
        }
    };
    if m >= 0x8000_0000 {
        ((m as i128) - 0x1_0000_0000i128) as i32
    } else {
        m as i32
    }
}

} // verus!
