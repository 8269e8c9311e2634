//! The map from data coordinates to device coordinates.

use crate::draw::{Area, Point};
use crate::fixed::{round_div, round_div_exec};
use vstd::prelude::*;

verus! {

/// The farthest a fraction reaches: a thousand times the plot area's
/// extent on either side, in millionths.
pub const FRACTION_LIMIT: i64 = 1_000_000_000;

/// Where `v` lies between `lo` and `hi`, in millionths (one million at
/// `hi`), rounded down and kept within a thousand extents of the limits;
/// zero where the limits coincide.
pub open spec fn fraction(v: int, lo: int, hi: int) -> int {
    let f = if hi == lo {
        0
    } else if hi > lo {
        ((v - lo) * 1_000_000) / (hi - lo)
    } else {
        ((lo - v) * 1_000_000) / (lo - hi)
    };
    if f > FRACTION_LIMIT {
        FRACTION_LIMIT as int
    } else if f < -FRACTION_LIMIT {
        -FRACTION_LIMIT
    } else {
        f
    }
}

/// `p` millionths of a dot rounded to a whole dot.
pub open spec fn whole_dot(p: int) -> int {
    round_div(p, 1_000_000) * 1_000_000
}

/// The device point of data point `(x, y)` plotted against limits `xlim`
/// and `ylim` in `area`, rounded to whole dots where `pixel_perfect`.
pub open spec fn data_point(area: Area, xlim: (i64, i64), ylim: (i64, i64), x: i64, y: i64, pixel_perfect: bool) -> Point {
    let p = area.fractional_point(
        Point {
            x: fraction(x as int, xlim.0 as int, xlim.1 as int) as i64,
            y: fraction(y as int, ylim.0 as int, ylim.1 as int) as i64,
        },
    );
    if pixel_perfect {
        Point { x: whole_dot(p.x as int) as i64, y: whole_dot(p.y as int) as i64 }
    } else {
        p
    }
}

fn floor_div_pos(a: i128, b: i128) -> (r: i128)
    requires
        b > 0,
        -100_000_000_000_000_000_000_000_000 <= a <= 100_000_000_000_000_000_000_000_000,
    ensures
        r == a / b,
{
    if a >= 0 {
        a / b
    } else {
        let m: i128 = -a;
        let q: i128 = m / b;
        let rr: i128 = m % b;
        proof {
            vstd::arithmetic::div_mod::lemma_fundamental_div_mod(m as int, b as int);
            vstd::arithmetic::div_mod::lemma_mod_pos_bound(m as int, b as int);
            assert(a == (-q) * b - rr) by (nonlinear_arith)
                requires m == b * q + rr, a == -m;
            assert((-q) * b - b == (-q - 1) * b) by (nonlinear_arith);
            if rr == 0 {
                vstd::arithmetic::div_mod::lemma_fundamental_div_mod_converse(a as int, b as int, -q, 0);
            } else {
                vstd::arithmetic::div_mod::lemma_fundamental_div_mod_converse(a as int, b as int, -q - 1, b - rr);
            }
        }
        if rr == 0 {
            -q
        } else {
            -q - 1
        }
    }
}

/// Where `v` lies between `lo` and `hi`, in millionths.
pub fn fraction_of(v: i64, lo: i64, hi: i64) -> (r: i64)
    ensures
        r == fraction(v as int, lo as int, hi as int),
        -FRACTION_LIMIT <= r <= FRACTION_LIMIT,
{
    let f: i128 = if hi == lo {
        0
    } else if hi > lo {
        floor_div_pos((v as i128 - lo as i128) * 1_000_000, hi as i128 - lo as i128)
    } else {
        floor_div_pos((lo as i128 - v as i128) * 1_000_000, lo as i128 - hi as i128)
    };
    if f > FRACTION_LIMIT as i128 {
        FRACTION_LIMIT
    } else if f < -FRACTION_LIMIT as i128 {
        -FRACTION_LIMIT
    } else {
        f as i64
    }
}

fn to_whole_dot(p: i64) -> (r: i64)
    requires
        -9_000_000_000_000_000_000 <= p <= 9_000_000_000_000_000_000,
    ensures
        r == whole_dot(p as int),
{
    let q = round_div_exec(p as i128, 1_000_000);
    proof {
        assert(-9_000_000_000_001 <= q <= 9_000_000_000_001) by {
            let a = if p < 0 { -(p as int) } else { p as int };
            assert((a + 500_000) / 1_000_000 <= 9_000_000_000_001);
        }
    }
    (q * 1_000_000) as i64
}

/// The device point of a data point.
pub fn to_point(area: &Area, xlim: (i64, i64), ylim: (i64, i64), x: i64, y: i64, pixel_perfect: bool) -> (r: Point)
    requires
        area.wf(),
    ensures
        r == data_point(*area, xlim, ylim, x, y, pixel_perfect),
{
    let fx = fraction_of(x, xlim.0, xlim.1);
    let fy = fraction_of(y, ylim.0, ylim.1);
    let p = area.fractional_to_point(Point { x: fx, y: fy });
    proof {
        assert(-4_294_967_295 * 1_000_000_000 <= fx * (area.xmax - area.xmin) <= 4_294_967_295 * 1_000_000_000)
            by (nonlinear_arith)
            requires -1_000_000_000 <= fx <= 1_000_000_000, 0 <= area.xmax - area.xmin <= 4_294_967_295;
        assert(-4_294_967_295 * 1_000_000_000 <= fy * (area.ymax - area.ymin) <= 4_294_967_295 * 1_000_000_000)
            by (nonlinear_arith)
            requires -1_000_000_000 <= fy <= 1_000_000_000, 0 <= area.ymax - area.ymin <= 4_294_967_295;
    }
    if pixel_perfect {
        Point { x: to_whole_dot(p.x), y: to_whole_dot(p.y) }
    } else {
        p
    }
}

} // verus!
