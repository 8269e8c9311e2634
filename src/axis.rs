//! Resolution of the four axes of a subplot for one drawing pass: span and
//! limits, tick locations, tick labels, modifiers and grid.

use crate::error::PltError;
use crate::fixed::SCALE;
use crate::subplot::{copy_strings, AxisType, Grid, Subplot};
use crate::ticks::{
    all_in_range, generate_ticks, label_text, minor_kept, modifiers_of, remove_overlap,
    sort_ticks, sorted_ticks, tick_count, tick_leq, tick_modifiers, ticks_seq, ticks_to_labels,
    TickLabels, TickSpacing, ticks_of,
};
use vstd::prelude::*;
use vstd::relations::*;
use vstd::seq_lib::lemma_sorted_unique;

verus! {

/// The span and the limits used for the axis in slot `t`: its own, else
/// those of the axis on the other side, else one unit each way.
pub open spec fn resolved(s: Subplot, t: AxisType) -> ((i64, i64), (i64, i64)) {
    let a = s.axis(t);
    let o = s.axis(t.opposite());
    if a.span is Some && a.limits is Some {
        (a.span->Some_0, a.limits->Some_0)
    } else if o.span is Some && o.limits is Some {
        (o.span->Some_0, o.limits->Some_0)
    } else {
        ((-1_000_000i64, 1_000_000i64), (-1_000_000i64, 1_000_000i64))
    }
}

/// Some series or fill is plotted against the axis in slot `t`.
pub open spec fn is_primary(s: Subplot, t: AxisType) -> bool {
    (exists|i: int|
        0 <= i < s.plot_infos@.len() && ((#[trigger] s.plot_infos@[i]).xaxis == t || s.plot_infos@[i].yaxis == t))
    || (exists|i: int|
        0 <= i < s.fill_infos@.len() && ((#[trigger] s.fill_infos@[i]).xaxis == t || s.fill_infos@[i].yaxis == t))
}

/// The library writes the labels.
pub open spec fn labels_on(policy: TickLabels, primary: bool) -> bool {
    match policy {
        TickLabels::On => true,
        TickLabels::Auto => primary,
        _ => false,
    }
}

/// The number of minor ticks that `On` gives for `n` major ticks.
pub open spec fn minor_on(n: nat) -> nat {
    if n <= usize::MAX / 5 {
        n * 5
    } else {
        usize::MAX as nat
    }
}

pub open spec fn major_locs(s: Subplot, t: AxisType) -> Seq<i64> {
    sorted_ticks(ticks_seq(s.axis(t).major_tick_marks, resolved(s, t).0, is_primary(s, t), 5))
}

pub open spec fn minor_locs(s: Subplot, t: AxisType) -> Seq<i64> {
    sorted_ticks(
        minor_kept(
            ticks_seq(
                s.axis(t).minor_tick_marks,
                resolved(s, t).0,
                is_primary(s, t),
                minor_on(major_locs(s, t).len()),
            ),
            major_locs(s, t),
        ),
    )
}

/// Hand-set labels whose number is not that of the ticks.
pub open spec fn label_count_wrong(policy: TickLabels, n: nat) -> bool {
    match policy {
        TickLabels::Manual(v) => v@.len() != n,
        _ => false,
    }
}

/// Resolving the axis in slot `t` fails: a single evenly spaced tick, a
/// tick out of range where labels are written, or a wrong number of
/// labels set by hand.
pub open spec fn resolve_fails(s: Subplot, t: AxisType) -> bool {
    let a = s.axis(t);
    let p = is_primary(s, t);
    let maj = major_locs(s, t);
    let min = minor_locs(s, t);
    ||| !(a.major_tick_marks is Manual) && tick_count(a.major_tick_marks, p, 5) == 1
    ||| !(a.minor_tick_marks is Manual) && tick_count(a.minor_tick_marks, p, minor_on(maj.len())) == 1
    ||| (labels_on(a.major_tick_labels, p) || labels_on(a.minor_tick_labels, p)) && !all_in_range(maj)
    ||| labels_on(a.minor_tick_labels, p) && !all_in_range(min)
    ||| label_count_wrong(a.major_tick_labels, maj.len())
    ||| label_count_wrong(a.minor_tick_labels, min.len())
}

/// An axis resolved for one drawing pass.
#[derive(Debug)]
pub struct AxisFinalized {
    pub label: String,
    pub major_tick_locs: Vec<i64>,
    pub major_tick_labels: Vec<String>,
    pub minor_tick_locs: Vec<i64>,
    pub minor_tick_labels: Vec<String>,
    /// The exponent shown beside the labels.
    pub label_multiplier: i32,
    /// The offset shown beside the labels, in millionths.
    pub label_offset: i64,
    pub major_grid: bool,
    pub minor_grid: bool,
    pub limits: (i64, i64),
    pub visible: bool,
}

/// The labels of `ticks` written by the library under `modifiers`.
pub open spec fn written_labels(labels: Seq<String>, ticks: Seq<i64>, modifiers: (i64, i32, usize)) -> bool {
    labels.len() == ticks.len() && forall|i: int|
        0 <= i < ticks.len() ==> #[trigger] labels[i]@ == label_text(ticks[i] as int, modifiers)
}

/// The labels that `policy` gives for `ticks`.
pub open spec fn labels_as_set(
    labels: Seq<String>,
    policy: TickLabels,
    primary: bool,
    ticks: Seq<i64>,
    modifiers: (i64, i32, usize),
) -> bool {
    if labels_on(policy, primary) {
        written_labels(labels, ticks, modifiers)
    } else {
        match policy {
            TickLabels::Manual(v) => labels == v@,
            _ => labels.len() == 0,
        }
    }
}

impl AxisFinalized {
    /// This is the axis in slot `t` of `s`, resolved.
    pub open spec fn resolves(&self, s: Subplot, t: AxisType) -> bool {
        let a = s.axis(t);
        let p = is_primary(s, t);
        let maj = major_locs(s, t);
        let m = modifiers_of(maj);
        &&& self.label@ == a.label@
        &&& self.major_tick_locs@ == maj
        &&& self.minor_tick_locs@ == minor_locs(s, t)
        &&& labels_as_set(self.major_tick_labels@, a.major_tick_labels, p, maj, m)
        &&& labels_as_set(self.minor_tick_labels@, a.minor_tick_labels, p, minor_locs(s, t), m)
        &&& self.label_multiplier == (if labels_on(a.major_tick_labels, p) { m.1 } else { 0 })
        &&& self.label_offset == (if labels_on(a.major_tick_labels, p) { m.0 } else { 0 })
        &&& self.major_grid == (a.grid != Grid::Off)
        &&& self.minor_grid == (a.grid == Grid::Full)
        &&& self.limits == resolved(s, t).1
        &&& self.visible == a.visible
    }
}

/// The span and the limits of the axis in slot `t`.
pub fn resolve_range(s: &Subplot, t: AxisType) -> (r: ((i64, i64), (i64, i64)))
    ensures
        r == resolved(*s, t),
{
    let a = match t {
        AxisType::X => &s.xaxis,
        AxisType::Y => &s.yaxis,
        AxisType::SecondaryX => &s.secondary_xaxis,
        AxisType::SecondaryY => &s.secondary_yaxis,
    };
    if let (Some(span), Some(limits)) = (a.span, a.limits) {
        return (span, limits);
    }
    let o = match t {
        AxisType::X => &s.secondary_xaxis,
        AxisType::SecondaryX => &s.xaxis,
        AxisType::Y => &s.secondary_yaxis,
        AxisType::SecondaryY => &s.yaxis,
    };
    if let (Some(span), Some(limits)) = (o.span, o.limits) {
        (span, limits)
    } else {
        ((-SCALE, SCALE), (-SCALE, SCALE))
    }
}

/// Whether some series or fill is plotted against the axis in slot `t`.
pub fn primary(s: &Subplot, t: AxisType) -> (r: bool)
    ensures
        r == is_primary(*s, t),
{
    let mut i: usize = 0;
    while i < s.plot_infos.len()
        invariant
            i <= s.plot_infos@.len(),
            forall|j: int| 0 <= j < i ==> !((#[trigger] s.plot_infos@[j]).xaxis == t || s.plot_infos@[j].yaxis == t),
        decreases s.plot_infos@.len() - i,
    {
        if s.plot_infos[i].xaxis == t || s.plot_infos[i].yaxis == t {
            return true;
        }
        i = i + 1;
    }
    let mut k: usize = 0;
    while k < s.fill_infos.len()
        invariant
            k <= s.fill_infos@.len(),
            forall|j: int| 0 <= j < k ==> !((#[trigger] s.fill_infos@[j]).xaxis == t || s.fill_infos@[j].yaxis == t),
        decreases s.fill_infos@.len() - k,
    {
        if s.fill_infos[k].xaxis == t || s.fill_infos[k].yaxis == t {
            return true;
        }
        k = k + 1;
    }
    false
}

proof fn lemma_sorted_idem(s: Seq<i64>)
    ensures
        sorted_ticks(sorted_ticks(s)) == sorted_ticks(s),
{
    let leq = |a: i64, b: i64| tick_leq(a, b);
    assert(total_ordering(leq)) by {
        assert(reflexive(leq));
        assert(antisymmetric(leq));
        assert(transitive(leq));
        assert(strongly_connected(leq));
    }
    s.lemma_sort_by_ensures(leq);
    sorted_ticks(s).lemma_sort_by_ensures(leq);
    lemma_sorted_unique(sorted_ticks(sorted_ticks(s)), sorted_ticks(s), leq);
}

fn labels_enabled(policy: &TickLabels, primary: bool) -> (r: bool)
    ensures
        r == labels_on(*policy, primary),
{
    match policy {
        TickLabels::On => true,
        TickLabels::Auto => primary,
        _ => false,
    }
}

/// Labels set by hand, or none.
fn hand_labels(policy: &TickLabels) -> (r: Vec<String>)
    ensures
        match *policy {
            TickLabels::Manual(v) => r@ == v@,
            _ => r@.len() == 0,
        },
{
    match policy {
        TickLabels::Manual(v) => copy_strings(v),
        _ => Vec::new(),
    }
}

/// Resolves the axis in slot `t` of `s` for drawing: ticks in ascending
/// order, minor ticks that are not major ticks, labels and modifiers.
/// Ticks set by hand are sorted first, so that the modifiers are worked
/// out on the order in which the labels are written and each label stays
/// with its tick.
pub fn finalize_axis(s: &Subplot, t: AxisType) -> (r: Result<AxisFinalized, PltError>)
    requires
        s.wf(),
    ensures
        r is Err <==> resolve_fails(*s, t),
        r is Err ==> r->Err_0 is BadTickPlacement || r->Err_0 is BadTickLabels,
        r is Ok ==> r->Ok_0.resolves(*s, t),
{
    let a = match t {
        AxisType::X => &s.xaxis,
        AxisType::Y => &s.yaxis,
        AxisType::SecondaryX => &s.secondary_xaxis,
        AxisType::SecondaryY => &s.secondary_yaxis,
    };
    assert(*a == s.axis(t));
    let (span, limits) = resolve_range(s, t);
    proof {
        assert(s.axis(t).wf());
        assert(s.axis(t.opposite()).wf());
    }
    let p = primary(s, t);
    let major_raw = match generate_ticks(&a.major_tick_marks, span, p, 5) {
        Ok(v) => v,
        Err(e) => {
            return Err(e);
        },
    };
    let major = sort_ticks(&major_raw);
    let n_on: usize = if major.len() <= usize::MAX / 5 { major.len() * 5 } else { usize::MAX };
    let minor_raw = match generate_ticks(&a.minor_tick_marks, span, p, n_on) {
        Ok(v) => v,
        Err(e) => {
            return Err(e);
        },
    };
    let minor_kept_v = remove_overlap(&minor_raw, &major);
    let minor = sort_ticks(&minor_kept_v);
    let major_on = labels_enabled(&a.major_tick_labels, p);
    let minor_on = labels_enabled(&a.minor_tick_labels, p);
    let mods: (i64, i32, usize) = if major_on || minor_on {
        match tick_modifiers(&major) {
            Ok(m) => m,
            Err(e) => {
                return Err(e);
            },
        }
    } else {
        (0, 0, 0)
    };
    proof {
        lemma_sorted_idem(major_raw@);
        lemma_sorted_idem(minor_kept_v@);
    }
    let major_labels = if major_on {
        match ticks_to_labels(&major, mods) {
            Ok(l) => l,
            Err(e) => {
                return Err(e);
            },
        }
    } else {
        hand_labels(&a.major_tick_labels)
    };
    let minor_labels = if minor_on {
        match ticks_to_labels(&minor, mods) {
            Ok(l) => l,
            Err(e) => {
                return Err(e);
            },
        }
    } else {
        hand_labels(&a.minor_tick_labels)
    };
    let major_hand = match &a.major_tick_labels {
        TickLabels::Manual(_) => true,
        _ => false,
    };
    let minor_hand = match &a.minor_tick_labels {
        TickLabels::Manual(_) => true,
        _ => false,
    };
    if major_hand && major_labels.len() != major.len() {
        return Err(
            PltError::BadTickLabels(
                String::from_str("the number of tick labels differs from that of the ticks"),
            ),
        );
    }
    if minor_hand && minor_labels.len() != minor.len() {
        return Err(
            PltError::BadTickLabels(
                String::from_str("the number of tick labels differs from that of the ticks"),
            ),
        );
    }
    let (multiplier, offset) = if major_on { (mods.1, mods.0) } else { (0, 0) };
    let (major_grid, minor_grid) = match a.grid {
        Grid::Off => (false, false),
        Grid::Major => (true, false),
        Grid::Full => (true, true),
    };
    Ok(AxisFinalized {
        label: a.label.clone(),
        major_tick_locs: major,
        major_tick_labels: major_labels,
        minor_tick_locs: minor,
        minor_tick_labels: minor_labels,
        label_multiplier: multiplier,
        label_offset: offset,
        major_grid,
        minor_grid,
        limits,
        visible: a.visible,
    })
}

/// No minor tick of a resolved axis equals one of its major ticks.
pub proof fn lemma_resolved_minor_not_major(s: Subplot, t: AxisType)
    ensures
        forall|i: int|
            0 <= i < minor_locs(s, t).len() ==> !major_locs(s, t).contains(#[trigger] minor_locs(s, t)[i]),
{
    broadcast use vstd::seq_lib::group_to_multiset_ensures;

    let leq = |a: i64, b: i64| tick_leq(a, b);
    assert(total_ordering(leq)) by {
        assert(reflexive(leq));
        assert(antisymmetric(leq));
        assert(transitive(leq));
        assert(strongly_connected(leq));
    }
    let maj = major_locs(s, t);
    let kept = minor_kept(
        ticks_seq(s.axis(t).minor_tick_marks, resolved(s, t).0, is_primary(s, t), minor_on(maj.len())),
        maj,
    );
    kept.lemma_sort_by_ensures(leq);
    crate::ticks::lemma_minor_not_major(
        ticks_seq(s.axis(t).minor_tick_marks, resolved(s, t).0, is_primary(s, t), minor_on(maj.len())),
        maj,
    );
    assert forall|i: int| 0 <= i < minor_locs(s, t).len() implies !maj.contains(
        #[trigger] minor_locs(s, t)[i],
    ) by {
        let x = minor_locs(s, t)[i];
        assert(minor_locs(s, t).to_multiset().count(x) > 0);
        assert(kept.to_multiset().count(x) > 0);
        assert(kept.contains(x));
        let k = choose|k: int| 0 <= k < kept.len() && kept[k] == x;
    }
}

/// An axis with a fixed number `n >= 2` of major ticks over a span
/// `(a, b)` with `a <= b` is resolved with exactly `n` major ticks, the
/// first `a`, the last `b`, never decreasing.
pub proof fn lemma_resolved_count_ticks(s: Subplot, t: AxisType, n: u16)
    requires
        s.axis(t).major_tick_marks == TickSpacing::Count(n),
        n >= 2,
        resolved(s, t).0.0 <= resolved(s, t).0.1,
    ensures
        major_locs(s, t).len() == n,
        major_locs(s, t)[0] == resolved(s, t).0.0,
        major_locs(s, t)[n - 1] == resolved(s, t).0.1,
        forall|i: int, j: int| 0 <= i <= j < n ==> major_locs(s, t)[i] <= major_locs(s, t)[j],
{
    let (a, b) = resolved(s, t).0;
    let p = is_primary(s, t);
    let g = ticks_of(TickSpacing::Count(n), (a, b), p, 5);
    crate::ticks::lemma_count_ticks_span(a, b, n, p, 5);
    let v = ticks_seq(TickSpacing::Count(n), (a, b), p, 5);
    assert(v.len() == n);
    assert forall|i: int| 0 <= i < n implies v[i] as int == #[trigger] g[i] by {
        assert(a <= g[i] <= b) by {
            assert(g[0] <= g[i] && g[i] <= g[n - 1]);
        }
    }
    let leq = |x: i64, y: i64| tick_leq(x, y);
    assert(total_ordering(leq)) by {
        assert(reflexive(leq));
        assert(antisymmetric(leq));
        assert(transitive(leq));
        assert(strongly_connected(leq));
    }
    assert(sorted_by(v, leq)) by {
        assert forall|i: int, j: int| 0 <= i < j < v.len() implies #[trigger] leq(v[i], v[j]) by {
            assert(g[i] <= g[j]);
        }
    }
    v.lemma_sort_by_ensures(leq);
    lemma_sorted_unique(v, sorted_ticks(v), leq);
    assert(major_locs(s, t) == v);
}

} // verus!
