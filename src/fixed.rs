//! Fixed-point decimal numbers: an `i64` counts millionths of a unit.
//!
//! This module holds the decimal arithmetic that tick labelling rests on:
//! the position of the most significant digit, rounding at a decimal place
//! and the digits after the decimal point.

use vstd::arithmetic::div_mod::*;
use vstd::prelude::*;

verus! {

/// One unit, in millionths.
pub const SCALE: i64 = 1_000_000;

/// The largest magnitude of a data value or a tick, in millionths
/// (one thousand million units).
pub const MAX_VALUE: i64 = 1_000_000_000_000_000;

/// Returned by [`sigdigit`] for zero, which has no significant digit.
pub const NO_DIGIT: i32 = i32::MIN;

/// `10` to the power `n`.
pub open spec fn pow10(n: nat) -> nat
    decreases n,
{
    if n == 0 {
        1
    } else {
        10 * pow10((n - 1) as nat)
    }
}

pub open spec fn abs(v: int) -> nat {
    if v < 0 {
        (-v) as nat
    } else {
        v as nat
    }
}

/// A value that a data series or a tick may take.
pub open spec fn in_range(v: int) -> bool {
    -MAX_VALUE <= v <= MAX_VALUE
}

/// Number of decimal digits of `n` (zero has one).
pub open spec fn digit_count(n: nat) -> nat
    decreases n,
{
    if n < 10 {
        1
    } else {
        1 + digit_count(n / 10)
    }
}

/// The power of ten of the most significant digit of `|v|` millionths
/// (432 units give 2, 0.04 units give -2); zero gives [`NO_DIGIT`].
pub open spec fn sigdigit_spec(v: int) -> int {
    if v == 0 {
        NO_DIGIT as int
    } else {
        digit_count(abs(v)) - 7
    }
}

/// `a / u` rounded to the nearest integer, halves away from zero.
pub open spec fn round_div(a: int, u: int) -> int {
    if a >= 0 {
        (a + u / 2) / u
    } else {
        -((-a + u / 2) / u)
    }
}

/// `v` millionths rounded to `place` decimal places, halves away from zero.
pub open spec fn round_to_spec(v: int, place: int) -> int {
    if place >= 6 {
        v
    } else {
        round_div(v, pow10((6 - place) as nat) as int) * pow10((6 - place) as nat)
    }
}

/// Digit `i` after the decimal point of `v` millionths (digit 0 is the
/// tenths), taken from the fractional part `v - floor(v)`.
pub open spec fn digit_at(v: int, i: int) -> int {
    if 0 <= i < 6 {
        ((v % 1_000_000) / (pow10((5 - i) as nat) as int)) % 10
    } else {
        0
    }
}

/// The number of decimal places of `v` millionths that show a digit other
/// than zero, looking at the first `n` places only.
pub open spec fn places(v: int, n: nat) -> nat
    decreases n,
{
    if n == 0 {
        0
    } else if digit_at(v, n - 1) != 0 {
        n
    } else {
        places(v, (n - 1) as nat)
    }
}

/// `v` millionths divided by `10^m`, rounded to three decimal places.
pub open spec fn scale_exp(v: int, m: int) -> int {
    if m + 3 > 0 {
        round_div(v, pow10((m + 3) as nat) as int) * 1000
    } else {
        v * pow10((-(m + 3)) as nat) * 1000
    }
}

pub proof fn lemma_pow10_pos(n: nat)
    ensures
        pow10(n) >= 1,
    decreases n,
{
    if n > 0 {
        lemma_pow10_pos((n - 1) as nat);
    }
}

pub proof fn lemma_pow10_mono(a: nat, b: nat)
    requires
        a <= b,
    ensures
        pow10(a) <= pow10(b),
    decreases b,
{
    if a < b {
        lemma_pow10_mono(a, (b - 1) as nat);
        lemma_pow10_pos((b - 1) as nat);
    }
}

proof fn lemma_digit_count_bound(n: nat)
    ensures
        pow10((digit_count(n) - 1) as nat) <= n || n == 0,
        n < pow10(digit_count(n)),
        digit_count(n) >= 1,
    decreases n,
{
    if n >= 10 {
        lemma_digit_count_bound(n / 10);
        let k = digit_count(n / 10);
        assert(pow10(k + 1) == 10 * pow10(k));
        assert(pow10(k) == 10 * pow10((k - 1) as nat) || k == 1);
        assert(digit_count(n) == k + 1);
        let p = pow10(k);
        assert(n < 10 * p) by (nonlinear_arith)
            requires n / 10 < p;
        if k > 1 {
            let q = pow10((k - 1) as nat);
            assert(10 * q <= n) by (nonlinear_arith)
                requires q <= n / 10;
        } else {
            assert(pow10(1) == 10) by { reveal_with_fuel(pow10, 2); }
        }
    }
}

pub proof fn lemma_digit_count_le(n: nat, k: nat)
    requires
        n < pow10(k),
        k >= 1,
    ensures
        digit_count(n) <= k,
    decreases k,
{
    if n >= 10 {
        assert(pow10(k) == 10 * pow10((k - 1) as nat));
        if k == 1 {
            assert(false);
        } else {
            lemma_digit_count_le(n / 10, (k - 1) as nat);
        }
    }
}

pub proof fn lemma_digit_count_pos(n: nat)
    ensures
        digit_count(n) >= 1,
    decreases n,
{
    if n >= 10 {
        lemma_digit_count_pos(n / 10);
    }
}

pub proof fn lemma_pow10_even(n: nat)
    requires
        n >= 1,
    ensures
        pow10(n) % 2 == 0,
{
    assert(pow10(n) == 10 * pow10((n - 1) as nat));
}

pub proof fn lemma_pow10_values()
    ensures
        pow10(6) == 1_000_000,
        pow10(18) == 1_000_000_000_000_000_000,
        pow10(19) == 10_000_000_000_000_000_000,
        pow10(20) == 100_000_000_000_000_000_000,
        pow10(38) == 100_000_000_000_000_000_000_000_000_000_000_000_000,
{
    reveal_with_fuel(pow10, 39);
}

/// `10` to the power `n`, exactly.
pub fn pow10_exec(n: u32) -> (r: u128)
    requires
        n <= 38,
    ensures
        r == pow10(n as nat),
{
    let mut r: u128 = 1;
    let mut i: u32 = 0;
    while i < n
        invariant
            i <= n <= 38,
            r == pow10(i as nat),
        decreases n - i,
    {
        proof {
            lemma_pow10_mono((i + 1) as nat, 38);
            lemma_pow10_values();
        }
        r = r * 10;
        i = i + 1;
    }
    r
}

proof fn lemma_round_bound(a: int, u: int)
    requires
        a >= 0,
        u >= 1,
    ensures
        ((a + u / 2) / u) * u <= a + u / 2,
        ((a + u / 2) / u) >= 0,
        u / 2 > a ==> (a + u / 2) / u == 0,
{
    lemma_fundamental_div_mod(a + u / 2, u);
    lemma_div_pos_is_pos(a + u / 2, u);
    if u / 2 > a {
        lemma_basic_div(a + u / 2, u);
    }
}

/// `v` millionths rounded to `place` decimal places, halves away from zero.
pub fn round_to(v: i64, place: i64) -> (r: i64)
    requires
        abs(v as int) <= 4 * MAX_VALUE,
    ensures
        r == round_to_spec(v as int, place as int),
        abs(r as int) <= 2 * abs(v as int),
{
    if place >= 6 {
        return v;
    }
    let a: i128 = if v < 0 { -(v as i128) } else { v as i128 };
    if place <= -14 {
        proof {
            let k = (6 - place) as nat;
            lemma_pow10_mono(20, k);
            lemma_pow10_values();
            let u = pow10(k) as int;
            assert(u / 2 > a) by (nonlinear_arith)
                requires u >= 100_000_000_000_000_000_000, a <= 4 * MAX_VALUE;
            lemma_round_bound(a as int, u);
            assert(round_div(v as int, u) == 0);
            assert(round_div(v as int, u) * u == 0) by (nonlinear_arith)
                requires round_div(v as int, u) == 0;
        }
        return 0;
    }
    let k: u32 = (6 - place) as u32;
    proof {
        lemma_pow10_mono(k as nat, 20);
        lemma_pow10_values();
    }
    let u: i128 = pow10_exec(k) as i128;
    proof {
        lemma_pow10_pos(k as nat);
        lemma_round_bound(a as int, u as int);
    }
    let q: i128 = (a + u / 2) / u;
    proof {
        if u / 2 <= a {
            assert(q * u <= 2 * a);
        } else {
            assert(q == 0);
            assert(q * u == 0) by (nonlinear_arith)
                requires q == 0;
        }
        assert(q * u <= 8 * MAX_VALUE);
        assert(k as nat == (6 - place) as nat);
        assert((-q) * u == -(q * u)) by (nonlinear_arith);
        if v < 0 {
            assert(round_div(v as int, u as int) == -q);
        } else {
            assert(round_div(v as int, u as int) == q);
        }
    }
    let r: i128 = q * u;
    if v < 0 {
        (-r) as i64
    } else {
        r as i64
    }
}

/// The fractional part of `v` millionths, in millionths.
fn fraction(v: i128) -> (r: u32)
    requires
        v > i128::MIN,
    ensures
        r == v % 1_000_000,
        r < 1_000_000,
{
    if v >= 0 {
        (v % 1_000_000) as u32
    } else {
        let n: i128 = -v;
        let rem: i128 = n % 1_000_000;
        proof {
            let q = n / 1_000_000;
            lemma_fundamental_div_mod(n as int, 1_000_000);
            lemma_mod_pos_bound(n as int, 1_000_000);
            if rem == 0 {
                lemma_fundamental_div_mod_converse(v as int, 1_000_000, -q, 0);
            } else {
                lemma_fundamental_div_mod_converse(
                    v as int,
                    1_000_000,
                    -q - 1,
                    1_000_000 - rem,
                );
            }
        }
        if rem == 0 {
            0
        } else {
            (1_000_000 - rem) as u32
        }
    }
}

/// The power of ten of the most significant digit of `|v|` millionths.
pub fn sigdigit(v: i64) -> (r: i32)
    ensures
        r == sigdigit_spec(v as int),
{
    if v == 0 {
        return NO_DIGIT;
    }
    let mut n: u64 = if v < 0 { (-(v as i128)) as u64 } else { v as u64 };
    proof {
        lemma_pow10_values();
        lemma_digit_count_le(abs(v as int), 20);
    }
    let mut count: i32 = 1;
    while n >= 10
        invariant
            1 <= count,
            count + digit_count(n as nat) - 1 == digit_count(abs(v as int)),
            digit_count(abs(v as int)) <= 20,
        decreases n,
    {
        proof {
            lemma_digit_count_bound(n as nat);
        }
        n = n / 10;
        count = count + 1;
    }
    count - 7
}

/// `a / u` rounded to the nearest integer, halves away from zero.
pub fn round_div_exec(a: i128, u: i128) -> (r: i128)
    requires
        u >= 1,
        u <= 1_000_000_000_000_000_000_000_000,
        abs(a as int) <= 1_000_000_000_000_000_000_000_000_000_000,
    ensures
        r == round_div(a as int, u as int),
        abs(r as int) <= abs(a as int) + 1,
{
    let n: i128 = if a < 0 { -a } else { a };
    proof {
        let ni = n as int;
        let ui = u as int;
        lemma_round_bound(ni, ui);
        let q = (ni + ui / 2) / ui;
        if ui == 1 {
            assert(q == ni) by (nonlinear_arith)
                requires ui == 1, q == (ni + ui / 2) / ui;
        } else {
            assert(q <= ni + 1) by (nonlinear_arith)
                requires ui >= 2, q * ui <= ni + ui / 2, ni >= 0, q >= 0;
        }
    }
    let q: i128 = (n + u / 2) / u;
    if a < 0 {
        -q
    } else {
        q
    }
}

/// The first `ndigits` digits after the decimal point of `v` millionths,
/// taken from the fractional part `v - floor(v)`.
pub fn decimals(v: i128, ndigits: u8) -> (r: Vec<u8>)
    requires
        v > i128::MIN,
    ensures
        r@.len() == ndigits,
        forall|i: int| 0 <= i < ndigits ==> r@[i] as int == digit_at(v as int, i),
{
    let frac: u32 = fraction(v);
    let mut r: Vec<u8> = Vec::new();
    let mut i: u8 = 0;
    while i < ndigits
        invariant
            i <= ndigits,
            frac == v % 1_000_000,
            frac < 1_000_000,
            r@.len() == i,
            forall|j: int| 0 <= j < i ==> r@[j] as int == digit_at(v as int, j),
        decreases ndigits - i,
    {
        if i < 6 {
            let p: u32 = pow10_exec((5 - i) as u32) as u32;
            proof {
                lemma_pow10_pos((5 - i) as nat);
                lemma_pow10_mono((5 - i) as nat, 6);
                lemma_pow10_values();
            }
            let d: u32 = (frac / p) % 10;
            r.push(d as u8);
        } else {
            r.push(0);
        }
        i = i + 1;
    }
    r
}

/// The number of decimal places of `v` millionths that show a digit other
/// than zero, among the first `n`.
pub fn decimal_places(v: i128, n: u8) -> (r: usize)
    requires
        v > i128::MIN,
    ensures
        r == places(v as int, n as nat),
        r <= n,
{
    let digits: Vec<u8> = decimals(v, n);
    let mut i: usize = n as usize;
    while i > 0
        invariant
            i <= n,
            digits@.len() == n,
            forall|j: int| 0 <= j < n ==> digits@[j] as int == digit_at(v as int, j),
            places(v as int, n as nat) == places(v as int, i as nat),
        decreases i,
    {
        if digits[i - 1] != 0 {
            return i;
        }
        i = i - 1;
    }
    0
}

/// `v` millionths divided by `10^m` and rounded to three decimal places.
pub fn shift_by_exponent(v: i128, m: i32) -> (r: i128)
    requires
        -6 <= m <= 12,
        abs(v as int) <= 100_000_000_000_000_000,
    ensures
        r == scale_exp(v as int, m as int),
        abs(r as int) <= 1_000_000_000_000_000_000_000_000_000,
{
    proof {
        lemma_pow10_values();
    }
    if m + 3 > 0 {
        let u: u128 = pow10_exec((m + 3) as u32);
        proof {
            lemma_pow10_mono((m + 3) as nat, 18);
            lemma_pow10_pos((m + 3) as nat);
        }
        let q: i128 = round_div_exec(v, u as i128);
        proof {
            assert(abs((q * 1000) as int) == abs(q as int) * 1000);
        }
        q * 1000
    } else {
        let u: u128 = pow10_exec((-(m + 3)) as u32);
        proof {
            lemma_pow10_mono((-(m + 3)) as nat, 6);
            let vi = v as int;
            let ui = u as int;
            assert(abs(vi * ui * 1000) <= 100_000_000_000_000_000 * 1_000_000 * 1000)
                by (nonlinear_arith)
                requires abs(vi) <= 100_000_000_000_000_000, 0 <= ui <= 1_000_000;
            assert(abs(vi * ui) <= 100_000_000_000_000_000 * 1_000_000)
                by (nonlinear_arith)
                requires abs(vi) <= 100_000_000_000_000_000, 0 <= ui <= 1_000_000;
        }
        v * (u as i128) * 1000
    }
}

} // verus!
