//! Decimal and superscript renderings of numbers.

use crate::fixed::{abs, places, pow10, round_div, round_div_exec, pow10_exec, decimal_places};
use crate::fixed::{lemma_pow10_mono, lemma_pow10_pos, lemma_pow10_values};
use vstd::prelude::*;
use vstd::string::*;

verus! {

pub open spec fn digit_char(d: int) -> char {
    if d == 0 {
        '0'
    } else if d == 1 {
        '1'
    } else if d == 2 {
        '2'
    } else if d == 3 {
        '3'
    } else if d == 4 {
        '4'
    } else if d == 5 {
        '5'
    } else if d == 6 {
        '6'
    } else if d == 7 {
        '7'
    } else if d == 8 {
        '8'
    } else {
        '9'
    }
}

pub open spec fn superscript_char(d: int) -> char {
    if d == 0 {
        '⁰'
    } else if d == 1 {
        '¹'
    } else if d == 2 {
        '²'
    } else if d == 3 {
        '³'
    } else if d == 4 {
        '⁴'
    } else if d == 5 {
        '⁵'
    } else if d == 6 {
        '⁶'
    } else if d == 7 {
        '⁷'
    } else if d == 8 {
        '⁸'
    } else {
        '⁹'
    }
}

/// The decimal digits of `n`, most significant first, without leading zeros.
pub open spec fn digits(n: nat) -> Seq<char>
    decreases n,
{
    if n < 10 {
        seq![digit_char(n as int)]
    } else {
        digits(n / 10) + seq![digit_char((n % 10) as int)]
    }
}

/// The last `w` decimal digits of `n`, with leading zeros.
pub open spec fn padded(n: nat, w: nat) -> Seq<char>
    decreases w,
{
    if w == 0 {
        seq![]
    } else {
        padded(n / 10, (w - 1) as nat) + seq![digit_char((n % 10) as int)]
    }
}

/// The superscript digits of `n`.
pub open spec fn superscript_digits(n: nat) -> Seq<char>
    decreases n,
{
    if n < 10 {
        seq![superscript_char(n as int)]
    } else {
        superscript_digits(n / 10) + seq![superscript_char((n % 10) as int)]
    }
}

/// `v` millionths written with `p` decimal places, rounded halves away
/// from zero: `-12.50` for `v = -12_500_000` and `p = 2`.
pub open spec fn fixed_text(v: int, p: nat) -> Seq<char> {
    let n = round_div(v, pow10((6 - p) as nat) as int);
    let sign = if n < 0 { seq!['-'] } else { Seq::<char>::empty() };
    let int_part = digits(abs(n) / pow10(p));
    let frac_part = if p > 0 {
        seq!['.'] + padded(abs(n) % pow10(p), p)
    } else {
        Seq::<char>::empty()
    };
    sign + int_part + frac_part
}

/// `v` millionths written with as many decimal places as it needs: `2`,
/// `1.5`, `-0.125`.
pub open spec fn plain_text(v: int) -> Seq<char> {
    fixed_text(v, places(v, 6))
}

fn digit_str(d: u128) -> (r: &'static str)
    requires
        d < 10,
    ensures
        r@ == seq![digit_char(d as int)],
{
    proof {
        reveal_strlit("0");
        reveal_strlit("1");
        reveal_strlit("2");
        reveal_strlit("3");
        reveal_strlit("4");
        reveal_strlit("5");
        reveal_strlit("6");
        reveal_strlit("7");
        reveal_strlit("8");
        reveal_strlit("9");
    }
    if d == 0 {
        "0"
    } else if d == 1 {
        "1"
    } else if d == 2 {
        "2"
    } else if d == 3 {
        "3"
    } else if d == 4 {
        "4"
    } else if d == 5 {
        "5"
    } else if d == 6 {
        "6"
    } else if d == 7 {
        "7"
    } else if d == 8 {
        "8"
    } else {
        "9"
    }
}

fn superscript_str(d: u16) -> (r: &'static str)
    requires
        d < 10,
    ensures
        r@ == seq![superscript_char(d as int)],
{
    proof {
        reveal_strlit("⁰");
        reveal_strlit("¹");
        reveal_strlit("²");
        reveal_strlit("³");
        reveal_strlit("⁴");
        reveal_strlit("⁵");
        reveal_strlit("⁶");
        reveal_strlit("⁷");
        reveal_strlit("⁸");
        reveal_strlit("⁹");
    }
    if d == 0 {
        "⁰"
    } else if d == 1 {
        "¹"
    } else if d == 2 {
        "²"
    } else if d == 3 {
        "³"
    } else if d == 4 {
        "⁴"
    } else if d == 5 {
        "⁵"
    } else if d == 6 {
        "⁶"
    } else if d == 7 {
        "⁷"
    } else if d == 8 {
        "⁸"
    } else {
        "⁹"
    }
}

fn push_digits(s: &mut String, n: u128)
    ensures
        final(s)@ == old(s)@ + digits(n as nat),
    decreases n,
{
    if n >= 10 {
        push_digits(s, n / 10);
    }
    s.append(digit_str(n % 10));
    proof {
        if n >= 10 {
            assert(final(s)@ == old(s)@ + digits(n as nat / 10) + seq![digit_char((n % 10) as int)]);
        }
    }
}

fn push_padded(s: &mut String, n: u128, w: u32)
    ensures
        final(s)@ == old(s)@ + padded(n as nat, w as nat),
    decreases w,
{
    if w > 0 {
        push_padded(s, n / 10, w - 1);
        s.append(digit_str(n % 10));
    }
}

/// The superscript digits of `n`: `¹²` for 12.
pub fn superscript(n: u16) -> (r: String)
    ensures
        r@ == superscript_digits(n as nat),
    decreases n,
{
    if n >= 10 {
        let mut r = superscript(n / 10);
        r.append(superscript_str(n % 10));
        r
    } else {
        String::from_str(superscript_str(n))
    }
}

/// `v` millionths written with `p` decimal places.
pub fn format_fixed(v: i128, p: usize) -> (r: String)
    requires
        p <= 6,
        abs(v as int) <= 1_000_000_000_000_000_000_000_000_000,
    ensures
        r@ == fixed_text(v as int, p as nat),
{
    proof {
        lemma_pow10_values();
        lemma_pow10_mono((6 - p) as nat, 6);
        lemma_pow10_pos((6 - p) as nat);
        lemma_pow10_mono(p as nat, 6);
        lemma_pow10_pos(p as nat);
    }
    let u: u128 = pow10_exec((6 - p) as u32);
    let n: i128 = round_div_exec(v, u as i128);
    let mut s = String::new();
    if n < 0 {
        s.append("-");
        proof {
            reveal_strlit("-");
        }
    }
    let a: u128 = if n < 0 { (-n) as u128 } else { n as u128 };
    let q: u128 = pow10_exec(p as u32);
    push_digits(&mut s, a / q);
    if p > 0 {
        s.append(".");
        proof {
            reveal_strlit(".");
        }
        push_padded(&mut s, a % q, p as u32);
    }
    proof {
        let sign = if n < 0 { seq!['-'] } else { Seq::<char>::empty() };
        assert(s@ =~= fixed_text(v as int, p as nat));
    }
    s
}

/// `v` millionths written with as many decimal places as it needs.
pub fn format_plain(v: i64) -> (r: String)
    ensures
        r@ == plain_text(v as int),
{
    let p: usize = decimal_places(v as i128, 6);
    format_fixed(v as i128, p)
}

} // verus!
