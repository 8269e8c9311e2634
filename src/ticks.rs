//! Tick placement and tick labelling: where ticks go on an axis, the
//! exponent, offset and precision that keep their labels short, and the
//! labels themselves.

use crate::error::PltError;
use crate::fixed::{
    abs, decimal_places, digit_at, in_range, lemma_digit_count_le, lemma_digit_count_pos,
    lemma_pow10_even, lemma_pow10_mono, lemma_pow10_values, round_div,
    places, pow10, round_to, round_to_spec, scale_exp, shift_by_exponent, sigdigit, sigdigit_spec,
    MAX_VALUE, NO_DIGIT,
};
use crate::text::{fixed_text, format_fixed};
use vstd::arithmetic::div_mod::*;
use vstd::prelude::*;
use vstd::relations::*;
use vstd::seq_lib::lemma_sorted_unique;

verus! {

/// Every value lies in the range that data and ticks may take.
pub open spec fn all_in_range(s: Seq<i64>) -> bool {
    forall|i: int| 0 <= i < s.len() ==> in_range(#[trigger] s[i] as int)
}

/// The largest difference `s[i] - s[i - 1]` over `0 < i < n`.
pub open spec fn max_dif_upto(s: Seq<i64>, n: int) -> int
    decreases n,
{
    if n <= 2 {
        s[1] - s[0]
    } else {
        let d = s[n - 1] - s[n - 2];
        let m = max_dif_upto(s, n - 1);
        if d > m {
            d
        } else {
            m
        }
    }
}

/// The largest difference between consecutive ticks, in the order given;
/// zero for fewer than two ticks.
pub open spec fn max_dif(s: Seq<i64>) -> int {
    if s.len() < 2 {
        0
    } else {
        max_dif_upto(s, s.len() as int)
    }
}

/// The power of ten of the most significant digit of the last tick.
pub open spec fn last_magnitude(s: Seq<i64>) -> int {
    sigdigit_spec(s.last() as int)
}

/// The power of ten of the most significant digit of the largest
/// difference, or that of the last tick where no difference is nonzero.
pub open spec fn dif_magnitude(s: Seq<i64>) -> int {
    if max_dif(s) != 0 {
        sigdigit_spec(max_dif(s))
    } else {
        last_magnitude(s)
    }
}

/// The first tick, where the spacing of the ticks is more than three
/// orders of magnitude finer than the last tick; else zero.
pub open spec fn offset_of(s: Seq<i64>) -> int {
    if dif_magnitude(s) < last_magnitude(s) - 3 {
        s[0] as int
    } else {
        0
    }
}

/// The magnitude of the last tick less the offset, rounded at the
/// resolution of the spacing.
pub open spec fn label_magnitude(s: Seq<i64>) -> int {
    sigdigit_spec(round_to_spec(s.last() - offset_of(s), 3 - dif_magnitude(s)))
}

/// A magnitude outside `-2..=3` becomes the exponent; zero has none.
pub open spec fn exponent_of_magnitude(m: int) -> int {
    if m == NO_DIGIT as int || (-2 <= m && m <= 3) {
        0
    } else {
        m
    }
}

pub open spec fn exponent_of(s: Seq<i64>) -> int {
    exponent_of_magnitude(label_magnitude(s))
}

/// The most decimal places a label may show.
pub open spec fn max_precision_of(s: Seq<i64>) -> int {
    if exponent_of(s) != 0 || label_magnitude(s) < 0 {
        3
    } else {
        3 - label_magnitude(s)
    }
}

/// A tick as its label shows it, before the offset: divided by `10^m` and
/// rounded to three places where `m` is not zero.
pub open spec fn shifted(t: int, m: int) -> int {
    if m != 0 {
        scale_exp(t, m)
    } else {
        t
    }
}

/// The most decimal places, at most `n`, that any of the first `k` ticks
/// needs.
pub open spec fn precision_upto(s: Seq<i64>, m: int, n: nat, k: int) -> nat
    decreases k,
{
    if k <= 0 {
        0
    } else {
        let p = places(shifted(s[k - 1] as int, m), n);
        let q = precision_upto(s, m, n, k - 1);
        if p > q {
            p
        } else {
            q
        }
    }
}

pub open spec fn precision_of(s: Seq<i64>) -> nat {
    precision_upto(s, exponent_of(s), max_precision_of(s) as nat, s.len() as int)
}

/// Offset, exponent and precision of the labels of `s`; all zero for no
/// ticks.
pub open spec fn modifiers_of(s: Seq<i64>) -> (i64, i32, usize) {
    if s.len() == 0 {
        (0, 0, 0)
    } else {
        (offset_of(s) as i64, exponent_of(s) as i32, precision_of(s) as usize)
    }
}

proof fn lemma_sigdigit_bounds(v: int)
    requires
        v != 0,
        abs(v) <= 4 * MAX_VALUE,
    ensures
        -6 <= sigdigit_spec(v) <= 9,
{
    lemma_pow10_values();
    assert(pow10(16) == 10_000_000_000_000_000) by {
        reveal_with_fuel(pow10, 17);
    }
    lemma_digit_count_le(abs(v), 16);
    lemma_digit_count_pos(abs(v));
}

/// Offset, exponent and precision that keep the labels of `ticks` short.
pub fn tick_modifiers(ticks: &Vec<i64>) -> (r: Result<(i64, i32, usize), PltError>)
    ensures
        r is Err <==> !all_in_range(ticks@),
        r is Err ==> r->Err_0 is BadTickPlacement,
        r is Ok ==> r->Ok_0 == modifiers_of(ticks@),
        r is Ok ==> modifiers_wf(r->Ok_0),
{
    let n = ticks.len();
    let mut i: usize = 0;
    while i < n
        invariant
            n == ticks@.len(),
            i <= n,
            forall|j: int| 0 <= j < i ==> in_range(#[trigger] ticks@[j] as int),
        decreases n - i,
    {
        if ticks[i] < -MAX_VALUE || ticks[i] > MAX_VALUE {
            return Err(PltError::BadTickPlacement(String::from_str("tick is out of range")));
        }
        i = i + 1;
    }
    if n == 0 {
        return Ok((0, 0, 0));
    }
    let last: i64 = ticks[n - 1];
    let last_mag: i32 = sigdigit(last);

    // largest difference between consecutive ticks
    let mut max_d: i64 = 0;
    if n >= 2 {
        max_d = ticks[1] - ticks[0];
        let mut k: usize = 2;
        while k < n
            invariant
                n == ticks@.len(),
                2 <= k <= n,
                all_in_range(ticks@),
                max_d == max_dif_upto(ticks@, k as int),
                abs(max_d as int) <= 2 * MAX_VALUE,
            decreases n - k,
        {
            let d = ticks[k] - ticks[k - 1];
            if d > max_d {
                max_d = d;
            }
            k = k + 1;
        }
    }
    let dif_mag: i32 = if max_d != 0 { sigdigit(max_d) } else { last_mag };
    let offset: i64 = if (dif_mag as i64) < (last_mag as i64) - 3 { ticks[0] } else { 0 };
    let rounded: i64 = round_to(last - offset, 3 - dif_mag as i64);
    let mag: i32 = sigdigit(rounded);
    proof {
        if rounded != 0 {
            lemma_sigdigit_bounds(rounded as int);
        }
    }
    let exponent: i32 = if mag == NO_DIGIT || (-2 <= mag && mag <= 3) { 0 } else { mag };
    let max_precision: u8 = if exponent != 0 || mag < 0 { 3 } else { (3 - mag) as u8 };

    // the fewest places that show every digit, up to the most allowed
    let mut precision: usize = 0;
    let mut k: usize = 0;
    while k < n
        invariant
            n == ticks@.len(),
            k <= n,
            all_in_range(ticks@),
            exponent == exponent_of(ticks@),
            max_precision == max_precision_of(ticks@),
            -6 <= exponent <= 9,
            precision == precision_upto(ticks@, exponent as int, max_precision as nat, k as int),
            precision <= max_precision <= 3,
        decreases n - k,
    {
        let t: i128 = ticks[k] as i128;
        let s: i128 = if exponent != 0 { shift_by_exponent(t, exponent) } else { t };
        let p: usize = decimal_places(s, max_precision);
        if p > precision {
            precision = p;
        }
        k = k + 1;
    }
    Ok((offset, exponent, precision))
}

/// How tick mark locations are determined, if at all.
#[derive(Clone, Debug)]
pub enum TickSpacing {
    /// Tick marks are present and located by the library.
    On,
    /// Tick marks are present only if a plot uses this axis.
    Auto,
    /// No tick marks on this axis.
    Off,
    /// A set number of tick marks, evenly spaced.
    Count(u16),
    /// Tick marks placed by hand, in millionths.
    Manual(Vec<i64>),
}

/// How and whether tick labels are set.
#[derive(Clone, Debug)]
pub enum TickLabels {
    /// Labels are present and written by the library.
    On,
    /// Labels are present only if a plot uses this axis.
    Auto,
    /// No labels on this axis.
    Off,
    /// Labels set by hand.
    Manual(Vec<String>),
}

/// `n` values evenly spaced from `a` to `b`, each rounded down to a
/// millionth.
pub open spec fn even_ticks(a: int, b: int, n: nat) -> Seq<int> {
    Seq::new(n, |i: int| a + (b - a) * i / (n - 1))
}

/// The number of ticks that a spacing other than `Manual` asks for; `on`
/// is the number that `On` asks for.
pub open spec fn tick_count(spacing: TickSpacing, is_primary: bool, on: nat) -> nat {
    match spacing {
        TickSpacing::On => on,
        TickSpacing::Auto => if is_primary { on } else { 0 },
        TickSpacing::Off => 0,
        TickSpacing::Count(n) => n as nat,
        TickSpacing::Manual(_) => 0,
    }
}

/// The tick locations that `spacing` gives over `span`.
pub open spec fn ticks_of(spacing: TickSpacing, span: (i64, i64), is_primary: bool, on: nat) -> Seq<int> {
    match spacing {
        TickSpacing::Manual(v) => v@.map_values(|t: i64| t as int),
        _ => even_ticks(span.0 as int, span.1 as int, tick_count(spacing, is_primary, on)),
    }
}

/// The tick locations that `spacing` gives over `span`, as stored.
pub open spec fn ticks_seq(spacing: TickSpacing, span: (i64, i64), is_primary: bool, on: nat) -> Seq<i64> {
    match spacing {
        TickSpacing::Manual(v) => v@,
        _ => ticks_of(spacing, span, is_primary, on).map_values(|t: int| t as i64),
    }
}

/// `a + floor((b - a) * i / (n - 1))` for `i < n`.
fn even_tick(a: i64, b: i64, i: usize, n: usize) -> (r: i64)
    requires
        in_range(a as int),
        in_range(b as int),
        i < n,
        n >= 2,
    ensures
        r == a + (b - a) * i / (n - 1),
        a <= b ==> a <= r <= b,
        b <= a ==> b <= r <= a,
{
    let d: i128 = b as i128 - a as i128;
    proof {
        let ii = i as int;
        assert(-2 * MAX_VALUE * 18446744073709551615 <= d * ii <= 2 * MAX_VALUE * 18446744073709551615)
            by (nonlinear_arith)
            requires -2 * MAX_VALUE <= d <= 2 * MAX_VALUE, 0 <= ii <= 18446744073709551615;
    }
    let num: i128 = d * (i as i128);
    let den: i128 = (n - 1) as i128;
    let q: i128 = if num >= 0 {
        num / den
    } else {
        let m: i128 = -num;
        let qq: i128 = m / den;
        let rr: i128 = m % den;
        proof {
            lemma_fundamental_div_mod(m as int, den as int);
            lemma_mod_pos_bound(m as int, den as int);
            assert(num == (-qq) * den - rr) by (nonlinear_arith)
                requires m == den * qq + rr, num == -m;
            assert((-qq) * den - den == (-qq - 1) * den) by (nonlinear_arith);
            if rr == 0 {
                lemma_fundamental_div_mod_converse(num as int, den as int, -qq, 0);
            } else {
                lemma_fundamental_div_mod_converse(num as int, den as int, -qq - 1, den - rr);
            }
        }
        if rr == 0 {
            -qq
        } else {
            -qq - 1
        }
    };
    proof {
        let d = (b - a) as int;
        let ii = i as int;
        let dn = den as int;
        if d >= 0 {
            assert(d * ii <= d * dn) by (nonlinear_arith)
                requires d >= 0, 0 <= ii <= dn;
            assert(d * ii >= 0) by (nonlinear_arith)
                requires d >= 0, ii >= 0;
            lemma_div_is_ordered(d * ii, d * dn, dn);
            lemma_div_by_multiple(d, dn);
            lemma_div_pos_is_pos(d * ii, dn);
        } else {
            assert(d * ii >= d * dn) by (nonlinear_arith)
                requires d < 0, 0 <= ii <= dn;
            assert(d * ii <= 0) by (nonlinear_arith)
                requires d < 0, ii >= 0;
            lemma_div_is_ordered(d * dn, d * ii, dn);
            lemma_div_multiples_vanish(d, dn);
            assert(dn * d == d * dn) by (nonlinear_arith);
            lemma_div_is_ordered(d * ii, 0, dn);
        }
    }
    (a as i128 + q) as i64
}

/// `n` ticks evenly spaced over `span`, its ends included.
pub fn even_ticks_exec(span: (i64, i64), n: usize) -> (r: Vec<i64>)
    requires
        in_range(span.0 as int),
        in_range(span.1 as int),
        n != 1,
    ensures
        r@.map_values(|t: i64| t as int) == even_ticks(span.0 as int, span.1 as int, n as nat),
        all_in_range(r@),
{
    let mut r: Vec<i64> = Vec::new();
    let mut i: usize = 0;
    while i < n
        invariant
            in_range(span.0 as int),
            in_range(span.1 as int),
            n != 1,
            i <= n,
            r@.len() == i,
            forall|j: int| 0 <= j < i ==> #[trigger] r@[j] as int == span.0 + (span.1 - span.0) * j / (n - 1),
            all_in_range(r@),
        decreases n - i,
    {
        let t = even_tick(span.0, span.1, i, n);
        r.push(t);
        i = i + 1;
    }
    assert(r@.map_values(|t: i64| t as int) =~= even_ticks(span.0 as int, span.1 as int, n as nat));
    r
}

/// Tick locations for `spacing` over `span`. `on` is the number of ticks
/// that `On` gives (and `Auto` on a primary axis). A single evenly spaced
/// tick has no spacing: it is refused.
pub fn generate_ticks(spacing: &TickSpacing, span: (i64, i64), is_primary: bool, on: usize) -> (r:
    Result<Vec<i64>, PltError>)
    requires
        in_range(span.0 as int),
        in_range(span.1 as int),
    ensures
        r is Err <==> !(spacing is Manual) && tick_count(*spacing, is_primary, on as nat) == 1,
        r is Err ==> r->Err_0 is BadTickPlacement,
        r is Ok ==> r->Ok_0@.map_values(|t: i64| t as int) == ticks_of(*spacing, span, is_primary, on as nat),
        r is Ok ==> r->Ok_0@ == ticks_seq(*spacing, span, is_primary, on as nat),
{
    let n: usize = match spacing {
        TickSpacing::Manual(v) => {
            let r = v.clone();
            assert(r@ == v@);
            return Ok(r);
        },
        TickSpacing::On => on,
        TickSpacing::Auto => if is_primary { on } else { 0 },
        TickSpacing::Off => 0,
        TickSpacing::Count(c) => *c as usize,
    };
    if n == 1 {
        return Err(PltError::BadTickPlacement(String::from_str("a single tick has no spacing")));
    }
    let r = even_ticks_exec(span, n);
    proof {
        let g = r@.map_values(|t: i64| t as int);
        assert(g.map_values(|t: int| t as i64) =~= r@);
    }
    Ok(r)
}

/// The minor ticks that are not also major ticks, in their order.
pub open spec fn minor_kept(minor: Seq<i64>, major: Seq<i64>) -> Seq<i64> {
    minor.filter(|t: i64| !major.contains(t))
}

/// The minor ticks that are not also major ticks, in their order.
pub fn remove_overlap(minor: &Vec<i64>, major: &Vec<i64>) -> (r: Vec<i64>)
    ensures
        r@ == minor_kept(minor@, major@),
{
    let mut r: Vec<i64> = Vec::new();
    let mut i: usize = 0;
    while i < minor.len()
        invariant
            i <= minor@.len(),
            r@ == minor@.subrange(0, i as int).filter(|t: i64| !major@.contains(t)),
        decreases minor@.len() - i,
    {
        let t = minor[i];
        let mut found = false;
        let mut j: usize = 0;
        while j < major.len()
            invariant
                j <= major@.len(),
                found <==> exists|k: int| 0 <= k < j && major@[k] == t,
            decreases major@.len() - j,
        {
            if major[j] == t {
                found = true;
            }
            j = j + 1;
        }
        proof {
            let pred = |x: i64| !major@.contains(x);
            assert(minor@.subrange(0, i + 1) == minor@.subrange(0, i as int).push(t));
            minor@.subrange(0, i as int).lemma_filter_push(t, pred);
        }
        if !found {
            r.push(t);
        }
        i = i + 1;
    }
    assert(minor@.subrange(0, minor@.len() as int) == minor@);
    r
}

pub open spec fn tick_leq(a: i64, b: i64) -> bool {
    a <= b
}

/// `s` in ascending order.
pub open spec fn sorted_ticks(s: Seq<i64>) -> Seq<i64> {
    s.sort_by(|a: i64, b: i64| tick_leq(a, b))
}

proof fn lemma_tick_leq_total()
    ensures
        total_ordering(|a: i64, b: i64| tick_leq(a, b)),
{
    let leq = |a: i64, b: i64| tick_leq(a, b);
    assert(reflexive(leq));
    assert(antisymmetric(leq));
    assert(transitive(leq));
    assert(strongly_connected(leq));
}

/// The ticks in ascending order.
pub fn sort_ticks(v: &Vec<i64>) -> (r: Vec<i64>)
    ensures
        r@ == sorted_ticks(v@),
{
    let mut r: Vec<i64> = Vec::new();
    let mut i: usize = 0;
    assert(r@ == v@.subrange(0, 0));
    while i < v.len()
        invariant
            i <= v@.len(),
            forall|a: int, b: int| 0 <= a < b < r@.len() ==> r@[a] <= r@[b],
            r@.to_multiset() == v@.subrange(0, i as int).to_multiset(),
        decreases v@.len() - i,
    {
        let x = v[i];
        let mut p: usize = 0;
        while p < r.len() && r[p] <= x
            invariant
                p <= r@.len(),
                forall|k: int| 0 <= k < p ==> r@[k] <= x,
            decreases r@.len() - p,
        {
            p = p + 1;
        }
        proof {
            assert(p < r@.len() ==> r@[p as int] > x);
            assert(v@.subrange(0, i + 1) == v@.subrange(0, i as int).push(x));
        }
        let ghost old_r = r@;
        r.insert(p, x);
        proof {
            assert(r@ == old_r.insert(p as int, x));
            vstd::seq_lib::to_multiset_insert(old_r, p as int, x);
            vstd::seq_lib::to_multiset_build(v@.subrange(0, i as int), x);
            assert forall|a: int, b: int| 0 <= a < b < r@.len() implies r@[a] <= r@[b] by {
                if b > p && b - 1 > p {
                    assert(old_r[p as int] <= old_r[b - 1]);
                }
            }
        }
        i = i + 1;
    }
    proof {
        let leq = |a: i64, b: i64| tick_leq(a, b);
        assert(v@.subrange(0, v@.len() as int) == v@);
        assert(sorted_by(r@, leq));
        lemma_tick_leq_total();
        v@.lemma_sort_by_ensures(leq);
        lemma_sorted_unique(r@, sorted_ticks(v@), leq);
    }
    r
}

/// The label of tick `t` (millionths) under `modifiers`: the offset taken
/// off, rounded to `4 - exponent` places, divided by `10^exponent` and
/// written with `precision` places.
pub open spec fn label_text(t: int, modifiers: (i64, i32, usize)) -> Seq<char> {
    let (offset, exponent, precision) = modifiers;
    fixed_text(
        shifted(round_to_spec(t - offset, 4 - exponent), exponent as int),
        precision as nat,
    )
}

/// Modifiers that [`tick_modifiers`] can return.
pub open spec fn modifiers_wf(modifiers: (i64, i32, usize)) -> bool {
    in_range(modifiers.0 as int) && -6 <= modifiers.1 <= 9 && modifiers.2 <= 6
}

/// Labels for `ticks` in ascending order, written under `modifiers`.
pub fn ticks_to_labels(ticks: &Vec<i64>, modifiers: (i64, i32, usize)) -> (r: Result<
    Vec<String>,
    PltError,
>)
    requires
        modifiers_wf(modifiers),
    ensures
        r is Err <==> !all_in_range(ticks@),
        r is Err ==> r->Err_0 is BadTickPlacement,
        r is Ok ==> r->Ok_0@.len() == ticks@.len() && forall|i: int|
            0 <= i < ticks@.len() ==> #[trigger] r->Ok_0@[i]@ == label_text(
                sorted_ticks(ticks@)[i] as int,
                modifiers,
            ),
{
    let n = ticks.len();
    let mut i: usize = 0;
    while i < n
        invariant
            n == ticks@.len(),
            i <= n,
            forall|j: int| 0 <= j < i ==> in_range(#[trigger] ticks@[j] as int),
        decreases n - i,
    {
        if ticks[i] < -MAX_VALUE || ticks[i] > MAX_VALUE {
            return Err(PltError::BadTickPlacement(String::from_str("tick is out of range")));
        }
        i = i + 1;
    }
    let (offset, exponent, precision) = modifiers;
    let sorted = sort_ticks(ticks);
    proof {
        broadcast use vstd::seq_lib::group_to_multiset_ensures;

        lemma_tick_leq_total();
        ticks@.lemma_sort_by_ensures(|a: i64, b: i64| tick_leq(a, b));
        assert(sorted@.to_multiset().len() == ticks@.to_multiset().len());
        assert forall|j: int| 0 <= j < sorted@.len() implies in_range(#[trigger] sorted@[j] as int) by {
            assert(sorted@.to_multiset().count(sorted@[j]) > 0);
            assert(ticks@.contains(sorted@[j]));
        }
    }
    let mut labels: Vec<String> = Vec::new();
    let mut k: usize = 0;
    while k < sorted.len()
        invariant
            sorted@ == sorted_ticks(ticks@),
            sorted@.len() == n,
            modifiers_wf(modifiers),
            modifiers == (offset, exponent, precision),
            forall|j: int| 0 <= j < sorted@.len() ==> in_range(#[trigger] sorted@[j] as int),
            k <= n,
            labels@.len() == k,
            forall|j: int| 0 <= j < k ==> #[trigger] labels@[j]@ == label_text(sorted@[j] as int, modifiers),
        decreases n - k,
    {
        let t = sorted[k];
        let v: i64 = round_to(t - offset, 4 - exponent as i64);
        let s: i128 = if exponent != 0 { shift_by_exponent(v as i128, exponent) } else { v as i128 };
        let label = format_fixed(s, precision);
        labels.push(label);
        k = k + 1;
    }
    Ok(labels)
}

proof fn lemma_places_zero_tail(v: int, n: nat, p: nat, j: int)
    requires
        places(v, n) <= p,
        p <= j < n,
    ensures
        digit_at(v, j) == 0,
    decreases n,
{
    if digit_at(v, n - 1) == 0 && j < n - 1 {
        lemma_places_zero_tail(v, (n - 1) as nat, p, j);
    }
}

proof fn lemma_precision_upto_bound(s: Seq<i64>, m: int, n: nat, k: int, i: int)
    requires
        0 <= i < k,
    ensures
        places(shifted(s[i] as int, m), n) <= precision_upto(s, m, n, k),
    decreases k,
{
    if i < k - 1 {
        lemma_precision_upto_bound(s, m, n, k - 1, i);
    }
}

proof fn lemma_round_error(v: int, u: int)
    requires
        u >= 2,
        u % 2 == 0,
    ensures
        2 * abs(round_div(v, u) * u - v) <= u,
{
    let a = abs(v) as int;
    let q = (a + u / 2) / u;
    lemma_fundamental_div_mod(a + u / 2, u);
    lemma_mod_pos_bound(a + u / 2, u);
    assert(q * u <= a + u / 2 < q * u + u) by (nonlinear_arith)
        requires a + u / 2 == u * q + (a + u / 2) % u, 0 <= (a + u / 2) % u < u;
    if v < 0 {
        assert(round_div(v, u) * u - v == -(q * u - a)) by (nonlinear_arith)
            requires round_div(v, u) == -q, v == -a;
    }
}

/// Labels lose nothing that the precision can show: for ticks in range,
/// ascending and without repetitions, every digit of each tick (divided by
/// `10^exponent` where there is an exponent) from the chosen precision up
/// to the most places allowed is zero, and rounding to the chosen
/// precision moves a tick by at most half a unit of its last place.
pub proof fn lemma_precision_keeps_digits(ticks: Seq<i64>)
    requires
        ticks.len() > 0,
        all_in_range(ticks),
        forall|i: int, j: int| 0 <= i < j < ticks.len() ==> ticks[i] < ticks[j],
    ensures
        forall|i: int, j: int|
            0 <= i < ticks.len() && modifiers_of(ticks).2 <= j < max_precision_of(ticks) ==> #[trigger] digit_at(
                shifted(ticks[i] as int, exponent_of(ticks)),
                j,
            ) == 0,
        forall|i: int|
            0 <= i < ticks.len() ==> 2 * abs(
                round_div(
                    #[trigger] shifted(ticks[i] as int, exponent_of(ticks)),
                    pow10((6 - modifiers_of(ticks).2) as nat) as int,
                ) * pow10((6 - modifiers_of(ticks).2) as nat) - shifted(
                    ticks[i] as int,
                    exponent_of(ticks),
                ),
            ) <= pow10((6 - modifiers_of(ticks).2) as nat),
{
    let m = exponent_of(ticks);
    let n = max_precision_of(ticks);
    let p = precision_of(ticks);
    assert(0 <= n <= 3) by {
        let mag = label_magnitude(ticks);
    }
    assert(p <= n) by {
        lemma_precision_upto_le(ticks, m, n as nat, ticks.len() as int);
    }
    assert(modifiers_of(ticks).2 == p);
    assert forall|i: int, j: int|
        0 <= i < ticks.len() && modifiers_of(ticks).2 <= j < max_precision_of(ticks) implies #[trigger] digit_at(
            shifted(ticks[i] as int, exponent_of(ticks)),
            j,
        ) == 0 by {
        lemma_precision_upto_bound(ticks, m, n as nat, ticks.len() as int, i);
        lemma_places_zero_tail(shifted(ticks[i] as int, m), n as nat, p, j);
    }
    let u = pow10((6 - p) as nat) as int;
    assert(u >= 1000 && u % 2 == 0) by {
        lemma_pow10_values();
        lemma_pow10_mono(3, (6 - p) as nat);
        lemma_pow10_even((6 - p) as nat);
        assert(pow10(3) == 1000) by {
            reveal_with_fuel(pow10, 4);
        }
    }
    assert forall|i: int| 0 <= i < ticks.len() implies 2 * abs(
        round_div(
            #[trigger] shifted(ticks[i] as int, exponent_of(ticks)),
            pow10((6 - modifiers_of(ticks).2) as nat) as int,
        ) * pow10((6 - modifiers_of(ticks).2) as nat) - shifted(ticks[i] as int, exponent_of(ticks)),
    ) <= pow10((6 - modifiers_of(ticks).2) as nat) by {
        lemma_round_error(shifted(ticks[i] as int, m), u);
    }
}

proof fn lemma_precision_upto_le(s: Seq<i64>, m: int, n: nat, k: int)
    ensures
        precision_upto(s, m, n, k) <= n,
    decreases k,
{
    if k > 0 {
        lemma_precision_upto_le(s, m, n, k - 1);
        lemma_places_le(shifted(s[k - 1] as int, m), n);
    }
}

proof fn lemma_places_le(v: int, n: nat)
    ensures
        places(v, n) <= n,
    decreases n,
{
    if n > 0 {
        lemma_places_le(v, (n - 1) as nat);
    }
}

/// A fixed number `n >= 2` of ticks over `(a, b)` with `a <= b`: exactly
/// `n` values, the first `a`, the last `b`, never decreasing.
pub proof fn lemma_count_ticks_span(a: i64, b: i64, n: u16, is_primary: bool, on: nat)
    requires
        n >= 2,
        a <= b,
    ensures
        ticks_of(TickSpacing::Count(n), (a, b), is_primary, on).len() == n,
        ticks_of(TickSpacing::Count(n), (a, b), is_primary, on)[0] == a,
        ticks_of(TickSpacing::Count(n), (a, b), is_primary, on)[n - 1] == b,
        forall|i: int, j: int|
            0 <= i <= j < n ==> #[trigger] ticks_of(TickSpacing::Count(n), (a, b), is_primary, on)[i]
                <= #[trigger] ticks_of(TickSpacing::Count(n), (a, b), is_primary, on)[j],
{
    let s = ticks_of(TickSpacing::Count(n), (a, b), is_primary, on);
    let d = (b - a) as int;
    let dn = (n - 1) as int;
    assert(s[0] == a + d * 0 / dn);
    assert(d * 0 == 0);
    assert(s[n - 1] == a + d * dn / dn);
    lemma_div_by_multiple(d, dn);
    assert forall|i: int, j: int| 0 <= i <= j < n implies #[trigger] s[i] <= #[trigger] s[j] by {
        assert(d * i <= d * j) by (nonlinear_arith)
            requires d >= 0, i <= j;
        lemma_div_is_ordered(d * i, d * j, dn);
    }
}

/// No minor tick left after [`remove_overlap`] equals a major tick.
pub proof fn lemma_minor_not_major(minor: Seq<i64>, major: Seq<i64>)
    ensures
        forall|i: int|
            0 <= i < minor_kept(minor, major).len() ==> !major.contains(
                #[trigger] minor_kept(minor, major)[i],
            ),
{
    let pred = |t: i64| !major.contains(t);
    assert forall|i: int| 0 <= i < minor.filter(pred).len() implies !major.contains(
        minor.filter(pred)[i],
    ) by {
        minor.lemma_filter_pred(pred, i);
    }
}

} // verus!
