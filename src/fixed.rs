//! Exact fixed-point percentages with round-half-up.
use vstd::arithmetic::div_mod::{
    lemma_div_by_multiple, lemma_div_is_ordered, lemma_fundamental_div_mod, lemma_mod_bound,
    lemma_mod_multiples_basic,
};
use vstd::prelude::*;

verus! {

/// `10` raised to `d`.
pub open spec fn pow10(d: nat) -> nat
    decreases d,
{
    if d == 0 {
        1
    } else {
        10 * pow10((d - 1) as nat)
    }
}

/// `numerator / denominator * 100`, scaled by `scale` and rounded half up to an integer.
pub open spec fn scaled_percent(numerator: int, denominator: int, scale: int) -> int {
    ((scale * numerator * 1000) / denominator + 5) / 10
}

/// The whole and fractional parts of the percentage rounded to `digits` decimal places.
pub open spec fn fraction_of(numerator: int, denominator: int, digits: nat) -> (int, int) {
    let scale = pow10(digits) as int;
    let x = scaled_percent(numerator, denominator, scale);
    (x / scale, x % scale)
}

/// The whole part of a rounded percentage fits in 64 bits.
pub open spec fn fraction_fits(numerator: int, denominator: int, digits: nat) -> bool {
    fraction_of(numerator, denominator, digits).0 <= u64::MAX
}

pub proof fn lemma_pow10_bounds(d: nat)
    requires
        d <= 9,
    ensures
        1 <= pow10(d) <= 1_000_000_000,
    decreases d,
{
    reveal_with_fuel(pow10, 10);
}

/// Splits `scale * numerator * 1000 / divisor`, rounded half up, into whole and fractional part.
fn pf_div(n: u64, p_mod: u64, div: u64) -> (r: (u64, u64))
    requires
        div > 0,
        1 <= p_mod <= 1_000_000_000,
        scaled_percent(n as int, div as int, p_mod as int) / (p_mod as int) <= u64::MAX,
    ensures
        r.0 == scaled_percent(n as int, div as int, p_mod as int) / (p_mod as int),
        r.1 == scaled_percent(n as int, div as int, p_mod as int) % (p_mod as int),
{
    let n2 = n as u128;
    let p2 = p_mod as u128;
    let d2 = div as u128;
    assert(p2 * n2 <= 1_000_000_000 * 0xffff_ffff_ffff_ffffu128) by (nonlinear_arith)
        requires
            p2 <= 1_000_000_000,
            n2 <= 0xffff_ffff_ffff_ffffu128,
    ;
    let prod = p2 * n2 * 1000;
    proof {
        lemma_div_is_ordered(0, prod as int, d2 as int);
        assert(prod as int <= prod as int * d2 as int) by (nonlinear_arith)
            requires
                d2 >= 1,
                prod >= 0,
        ;
        lemma_div_is_ordered(prod as int, prod as int * d2 as int, d2 as int);
        lemma_div_by_multiple(prod as int, d2 as int);
    }
    let x = (prod / d2 + 5) / 10;
    proof {
        lemma_mod_bound(x as int, p2 as int);
    }
    ((x / p2) as u64, (x % p2) as u64)
}

/// The percentage `numerator / denominator * 100` rounded half up to a whole number.
pub fn format_integer_fraction(numerator: u64, denominator: u64) -> (r: u64)
    requires
        denominator > 0,
        numerator <= denominator || fraction_fits(numerator as int, denominator as int, 0),
    ensures
        r == fraction_of(numerator as int, denominator as int, 0).0,
{
    proof {
        if numerator <= denominator {
            lemma_share_fits(numerator, denominator, 0);
        }
    }
    let n2 = numerator as u128;
    let d2 = denominator as u128;
    let prod = n2 * 1000;
    proof {
        lemma_div_is_ordered(0, prod as int, d2 as int);
        assert(prod as int <= prod as int * d2 as int) by (nonlinear_arith)
            requires
                d2 >= 1,
                prod >= 0,
        ;
        lemma_div_is_ordered(prod as int, prod as int * d2 as int, d2 as int);
        lemma_div_by_multiple(prod as int, d2 as int);
        assert(1 * numerator as int * 1000 == prod);
        assert(pow10(0) == 1);
        let x = scaled_percent(numerator as int, denominator as int, 1);
        lemma_div_by_multiple(x, 1);
        assert(x * 1 == x);
    }
    ((prod / d2 + 5) / 10) as u64
}

/// The percentage `numerator / denominator * 100` rounded half up to `digits` decimal places,
/// as its whole part and its fractional part (the fraction's digits read as an integer).
pub fn format_fraction(numerator: u64, denominator: u64, digits: u32) -> (r: (u64, u64))
    requires
        denominator > 0,
        digits <= 9,
        numerator <= denominator || fraction_fits(numerator as int, denominator as int, digits as nat),
    ensures
        r.0 == fraction_of(numerator as int, denominator as int, digits as nat).0,
        r.1 == fraction_of(numerator as int, denominator as int, digits as nat).1,
        r.1 < pow10(digits as nat),
{
    proof {
        lemma_pow10_bounds(digits as nat);
        if numerator <= denominator {
            lemma_share_fits(numerator, denominator, digits as nat);
        }
    }
    if digits == 0 {
        let whole = format_integer_fraction(numerator, denominator);
        proof {
            lemma_mod_multiples_basic(scaled_percent(numerator as int, denominator as int, 1), 1);
        }
        (whole, 0)
    } else {
        let mut scale: u64 = 1;
        let mut i: u32 = 0;
        while i < digits
            invariant
                i <= digits <= 9,
                scale == pow10(i as nat),
            decreases digits - i,
        {
            proof {
                lemma_pow10_bounds(i as nat);
            }
            scale = scale * 10;
            i = i + 1;
        }
        let r = pf_div(numerator, scale, denominator);
        proof {
            lemma_mod_bound(scaled_percent(numerator as int, denominator as int, scale as int), scale as int);
        }
        r
    }
}

/// A count equal to the total is rendered as exactly one hundred percent, at any precision.
pub proof fn lemma_whole_is_hundred(n: u64, digits: nat)
    requires
        n > 0,
        digits <= 9,
    ensures
        fraction_of(n as int, n as int, digits) == (100int, 0int),
{
    let s = pow10(digits) as int;
    lemma_pow10_bounds(digits);
    assert(s * (n as int) * 1000 == (s * 1000) * (n as int)) by (nonlinear_arith);
    lemma_div_by_multiple(s * 1000, n as int);
    assert((s * 1000 + 5) / 10 == s * 100) by (nonlinear_arith)
        requires
            s >= 1,
    ;
    lemma_div_by_multiple(100, s);
    lemma_mod_multiples_basic(100, s);
    assert(100 * s == s * 100) by (nonlinear_arith);
}

/// A share of the total is at most one hundred percent.
pub proof fn lemma_share_fits(n: u64, t: u64, digits: nat)
    requires
        n <= t,
        0 < t,
        digits <= 9,
    ensures
        fraction_fits(n as int, t as int, digits),
        fraction_of(n as int, t as int, digits).0 <= 100,
{
    lemma_fraction_monotonic(n, t, t, digits);
    lemma_whole_is_hundred(t, digits);
}

/// For a fixed denominator and precision, a larger numerator never yields a smaller percentage:
/// the pair (whole, fraction) does not decrease in lexicographic order.
pub proof fn lemma_fraction_monotonic(n1: u64, n2: u64, d: u64, digits: nat)
    requires
        n1 <= n2,
        d > 0,
        digits <= 9,
    ensures
        ({
            let (w1, f1) = fraction_of(n1 as int, d as int, digits);
            let (w2, f2) = fraction_of(n2 as int, d as int, digits);
            w1 < w2 || (w1 == w2 && f1 <= f2)
        }),
{
    let s = pow10(digits) as int;
    lemma_pow10_bounds(digits);
    assert(s * (n1 as int) * 1000 <= s * (n2 as int) * 1000) by (nonlinear_arith)
        requires
            s >= 1,
            n1 <= n2,
    ;
    lemma_div_is_ordered(s * (n1 as int) * 1000, s * (n2 as int) * 1000, d as int);
    let x1 = scaled_percent(n1 as int, d as int, s);
    let x2 = scaled_percent(n2 as int, d as int, s);
    lemma_div_is_ordered(
        (s * (n1 as int) * 1000) / (d as int) + 5,
        (s * (n2 as int) * 1000) / (d as int) + 5,
        10,
    );
    lemma_div_is_ordered(x1, x2, s);
    lemma_fundamental_div_mod(x1, s);
    lemma_fundamental_div_mod(x2, s);
}

} // verus!
