//! Numbers that operations return, and integer arithmetic that wraps around at 64 bits.
use vstd::arithmetic::div_mod::{lemma_mod_multiples_vanish, lemma_mul_mod_noop};
use vstd::arithmetic::power::{
    lemma_pow0, lemma_pow1, lemma_pow_adds, lemma_pow_distributes, lemma_pow_mod_noop, pow,
};
use vstd::prelude::*;

verus! {

/// The result of arithmetic: an integer, or the bit pattern of a double.
#[derive(Clone, Copy, Debug, PartialEq, Eq, Structural)]
pub enum Number {
    Int(i64),
    Double(u64),
}

/// The arithmetic that numbers of a document can be put through.
#[derive(Clone, Copy, Debug, PartialEq, Eq, Structural)]
pub enum NumOp {
    Incr,
    Mult,
    Pow,
}

/// What is left of `i` in 64 bits.
pub open spec fn low_bits(i: int) -> int {
    i % 0x1_0000_0000_0000_0000
}

/// The `i64` that agrees with `i` in its low 64 bits.
pub open spec fn wrapped(i: int) -> int {
    if low_bits(i) < 0x8000_0000_0000_0000 {
        low_bits(i)
    } else {
        low_bits(i) - 0x1_0000_0000_0000_0000
    }
}

/// The exponent that an `i64` stands for: its low 32 bits.
pub open spec fn exponent_of(i: int) -> nat {
    (i % 0x1_0000_0000) as nat
}

/// The result of integer arithmetic: the sum, the product or the power, wrapped around.
pub open spec fn integer_result(op: NumOp, a: int, b: int) -> int {
    match op {
        NumOp::Incr => wrapped(a + b),
        NumOp::Mult => wrapped(a * b),
        NumOp::Pow => wrapped(pow(a, exponent_of(b))),
    }
}

/// Wrapping keeps the low bits.
pub(crate) proof fn lemma_wrapped_low_bits(i: int)
    ensures
        low_bits(wrapped(i)) == low_bits(i),
        i64::MIN <= wrapped(i) <= i64::MAX,
        i64::MIN <= i <= i64::MAX ==> wrapped(i) == i,
{
    let m: int = 0x1_0000_0000_0000_0000;
    assert(low_bits(i) < m && low_bits(i) >= 0);
    if low_bits(i) >= 0x8000_0000_0000_0000 {
        lemma_mod_multiples_vanish(-1, low_bits(i), m);
    }
    if -0x8000_0000_0000_0000 <= i < 0 {
        lemma_mod_multiples_vanish(1, i, m);
    }
}

/// The low bits of a product depend on the low bits of its factors only.
proof fn lemma_low_bits_product(a: int, b: int, c: int, d: int)
    requires
        low_bits(a) == low_bits(c),
        low_bits(b) == low_bits(d),
    ensures
        low_bits(a * b) == low_bits(c * d),
{
    lemma_mul_mod_noop(a, b, 0x1_0000_0000_0000_0000);
    lemma_mul_mod_noop(c, d, 0x1_0000_0000_0000_0000);
}

/// The low bits of a power depend on the low bits of its base only.
proof fn lemma_low_bits_power(a: int, b: int, e: nat)
    requires
        low_bits(a) == low_bits(b),
    ensures
        low_bits(pow(a, e)) == low_bits(pow(b, e)),
{
    lemma_pow_mod_noop(a, e, 0x1_0000_0000_0000_0000);
    lemma_pow_mod_noop(b, e, 0x1_0000_0000_0000_0000);
}

/// The sum of two integers, wrapped around.
pub fn wrapping_sum(a: i64, b: i64) -> (r: i64)
    ensures
        r == wrapped(a + b),
{
    proof {
        lemma_mod_multiples_vanish(1, a + b, 0x1_0000_0000_0000_0000);
        lemma_mod_multiples_vanish(-1, a + b, 0x1_0000_0000_0000_0000);
    }
    a.wrapping_add(b)
}

/// The product of two integers, wrapped around.
pub fn wrapping_product(a: i64, b: i64) -> (r: i64)
    ensures
        r == wrapped(a * b),
{
    a.wrapping_mul(b)
}

/// The low 32 bits of an integer, as an exponent.
pub fn exponent(i: i64) -> (r: u32)
    ensures
        r == exponent_of(i as int),
{
    let shifted: i128 = i as i128 + 0x8000_0000_0000_0000;
    proof {
        lemma_mod_multiples_vanish(0x8000_0000, i as int, 0x1_0000_0000);
    }
    (shifted % 0x1_0000_0000) as u32
}

/// A power of an integer, wrapped around.
pub fn wrapping_power(base: i64, exp: u32) -> (r: i64)
    ensures
        r == wrapped(pow(base as int, exp as nat)),
{
    let mut result: i64 = 1;
    let mut square: i64 = base;
    let mut rest: u32 = exp;
    let ghost goal = pow(base as int, exp as nat);
    proof {
        assert(1 * goal == goal);
    }
    while rest > 0
        invariant
            low_bits(result * pow(square as int, rest as nat)) == low_bits(goal),
        decreases rest,
    {
        let half: u32 = rest / 2;
        let odd: bool = rest % 2 == 1;
        let ghost s = square as int;
        let ghost before = result as int;
        let ghost power = pow(s, rest as nat);
        let ghost even_part = pow(s * s, half as nat);
        proof {
            // power == s^(rest % 2) * (s * s)^half
            let h = half as nat;
            lemma_pow_adds(s, h, h);
            lemma_pow_adds(s, (rest % 2) as nat, h + h);
            lemma_pow0(s);
            lemma_pow1(s);
            lemma_pow_distributes(s, s, h);
            assert(rest as nat == (rest % 2) as nat + (h + h));
            assert(power == pow(s, (rest % 2) as nat) * even_part);
        }
        if odd {
            result = wrapping_product(result, square);
        }
        square = wrapping_product(square, square);
        rest = half;
        assert(low_bits(result * pow(square as int, rest as nat)) == low_bits(before * power)) by {
            lemma_wrapped_low_bits(s * s);
            lemma_low_bits_power(square as int, s * s, half as nat);
            let squares = pow(square as int, half as nat);
            if odd {
                lemma_wrapped_low_bits(before * s);
                lemma_low_bits_product(result as int, squares, before * s, even_part);
                assert((before * s) * even_part == before * (s * even_part)) by (nonlinear_arith);
            } else {
                lemma_low_bits_product(result as int, squares, before, even_part);
            }
        }
    }
    proof {
        lemma_pow0(square as int);
        assert(result * 1 == result);
        lemma_wrapped_low_bits(goal);
        lemma_wrapped_low_bits(result as int);
    }
    result
}

/// Calculates with two integers.
pub fn calculate_integers(op: NumOp, a: i64, b: i64) -> (r: i64)
    ensures
        r == integer_result(op, a as int, b as int),
{
    match op {
        NumOp::Incr => wrapping_sum(a, b),
        NumOp::Mult => wrapping_product(a, b),
        NumOp::Pow => wrapping_power(a, exponent(b)),
    }
}

}
