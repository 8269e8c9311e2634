//! Subplots: the plotted series and fills, the four axes and their
//! configuration, and how plotting widens an axis's span.

use crate::draw::{Color, FontName};
use crate::error::PltError;
use crate::fixed::{in_range, MAX_VALUE, SCALE};
use crate::ticks::{all_in_range, TickLabels, TickSpacing};
use vstd::prelude::*;

verus! {

/// One of the four axis slots of a subplot.
#[derive(Copy, Clone, Debug, PartialEq, Eq, Structural)]
pub enum AxisType {
    X,
    Y,
    SecondaryX,
    SecondaryY,
}

impl AxisType {
    /// The four slots, in the order in which they are resolved.
    pub fn iter() -> (r: Vec<AxisType>)
        ensures
            r@ == seq![AxisType::X, AxisType::Y, AxisType::SecondaryX, AxisType::SecondaryY],
    {
        vec![AxisType::X, AxisType::Y, AxisType::SecondaryX, AxisType::SecondaryY]
    }

    /// The slot of the same role on the other side.
    pub open spec fn opposite(self) -> AxisType {
        match self {
            AxisType::X => AxisType::SecondaryX,
            AxisType::SecondaryX => AxisType::X,
            AxisType::Y => AxisType::SecondaryY,
            AxisType::SecondaryY => AxisType::Y,
        }
    }
}

/// Identifies one or more axes.
#[derive(Copy, Clone, Debug, PartialEq, Eq, Structural)]
pub enum Axes {
    X,
    Y,
    SecondaryX,
    SecondaryY,
    BothX,
    BothY,
    BothPrimary,
    BothSecondary,
    All,
}

/// The slots that `axes` names.
pub open spec fn slots_of(axes: Axes) -> Seq<AxisType> {
    match axes {
        Axes::X => seq![AxisType::X],
        Axes::Y => seq![AxisType::Y],
        Axes::SecondaryX => seq![AxisType::SecondaryX],
        Axes::SecondaryY => seq![AxisType::SecondaryY],
        Axes::BothX => seq![AxisType::X, AxisType::SecondaryX],
        Axes::BothY => seq![AxisType::Y, AxisType::SecondaryY],
        Axes::BothPrimary => seq![AxisType::X, AxisType::Y],
        Axes::BothSecondary => seq![AxisType::SecondaryX, AxisType::SecondaryY],
        Axes::All => seq![AxisType::X, AxisType::Y, AxisType::SecondaryX, AxisType::SecondaryY],
    }
}

impl Axes {
    /// The slots that these axes name.
    pub fn slots(self) -> (r: Vec<AxisType>)
        ensures
            r@ == slots_of(self),
    {
        match self {
            Axes::X => vec![AxisType::X],
            Axes::Y => vec![AxisType::Y],
            Axes::SecondaryX => vec![AxisType::SecondaryX],
            Axes::SecondaryY => vec![AxisType::SecondaryY],
            Axes::BothX => vec![AxisType::X, AxisType::SecondaryX],
            Axes::BothY => vec![AxisType::Y, AxisType::SecondaryY],
            Axes::BothPrimary => vec![AxisType::X, AxisType::Y],
            Axes::BothSecondary => vec![AxisType::SecondaryX, AxisType::SecondaryY],
            Axes::All => vec![AxisType::X, AxisType::Y, AxisType::SecondaryX, AxisType::SecondaryY],
        }
    }
}

/// Which side of the axis lines tick marks point to.
#[derive(Copy, Clone, Debug, PartialEq, Eq, Structural)]
pub enum TickDirection {
    Inner,
    Outer,
    Both,
}

/// Which tick marks of an axis have grid lines.
#[derive(Copy, Clone, Debug, PartialEq, Eq, Structural)]
pub enum Grid {
    /// Grid lines at the major tick marks.
    Major,
    /// Grid lines at the major and minor tick marks.
    Full,
    /// No grid lines.
    Off,
}

/// How the plotted range of an axis is set.
#[derive(Copy, Clone, Debug, PartialEq, Eq, Structural)]
pub enum Limits {
    /// From the plotted data.
    Auto,
    /// By hand, in millionths.
    Manual { min: i64, max: i64 },
}

/// Plotting line styles.
#[derive(Copy, Clone, Debug, PartialEq, Eq, Structural)]
pub enum LineStyle {
    Solid,
    Dashed,
    ShortDashed,
}

/// Marker shapes.
#[derive(Copy, Clone, Debug, PartialEq, Eq, Structural)]
pub enum MarkerStyle {
    Circle,
    Square,
}

/// Format of a line drawn between data points.
#[derive(Copy, Clone, Debug, PartialEq, Eq, Structural)]
pub struct Line {
    pub style: LineStyle,
    pub width: u32,
    /// Replaces the colour taken from the colour cycle.
    pub color_override: Option<Color>,
}

impl Default for Line {
    /// Solid, three dots wide, coloured from the cycle.
    fn default() -> (r: Self)
        ensures
            r == (Line { style: LineStyle::Solid, width: 3, color_override: None }),
    {
        Line { style: LineStyle::Solid, width: 3, color_override: None }
    }
}

/// Format of a marker drawn at data points.
#[derive(Copy, Clone, Debug, PartialEq, Eq, Structural)]
pub struct Marker {
    pub style: MarkerStyle,
    pub size: u32,
    /// Replaces the fill colour taken from the colour cycle.
    pub color_override: Option<Color>,
    /// Whether an outline is drawn.
    pub outline: bool,
    pub outline_format: Line,
}

impl Default for Marker {
    /// A circle of size three, without outline; an outline would be solid
    /// and two dots wide.
    fn default() -> (r: Self)
        ensures
            r == (Marker {
                style: MarkerStyle::Circle,
                size: 3,
                color_override: None,
                outline: false,
                outline_format: Line { style: LineStyle::Solid, width: 2, color_override: None },
            }),
    {
        Marker {
            style: MarkerStyle::Circle,
            size: 3,
            color_override: None,
            outline: false,
            outline_format: Line { style: LineStyle::Solid, width: 2, color_override: None },
        }
    }
}

/// The formatting of a subplot.
#[derive(Clone, Debug)]
pub struct SubplotFormat {
    /// Colour of markers and lines when the colour cycle is empty.
    pub default_marker_color: Color,
    /// Colour of fills when the colour cycle is empty.
    pub default_fill_color: Color,
    /// Background colour of the plotting area.
    pub plot_color: Color,
    /// Width of the lines that are not data.
    pub line_width: u32,
    /// Colour of the lines that are not data.
    pub line_color: Color,
    pub grid_color: Color,
    pub font_name: FontName,
    /// Font size, in millionths of a point.
    pub font_size: i64,
    pub text_color: Color,
    /// Length of major tick marks, from the axis out.
    pub tick_length: u32,
    pub tick_direction: TickDirection,
    /// Replaces the minor tick length, otherwise half the major one.
    pub override_minor_tick_length: Option<u32>,
    /// Colours cycled through by series and fills without their own.
    pub color_cycle: Vec<Color>,
}

pub open spec fn standard_cycle() -> Seq<Color> {
    seq![
        Color { r: 271, g: 522, b: 533, a: 1000 },
        Color { r: 839, g: 365, b: 55, a: 1000 },
        Color { r: 596, g: 592, b: 102, a: 1000 },
        Color { r: 694, g: 384, b: 525, a: 1000 },
        Color { r: 800, g: 141, b: 114, a: 1000 },
    ]
}

fn standard_cycle_exec() -> (r: Vec<Color>)
    ensures
        r@ == standard_cycle(),
{
    vec![
        Color { r: 271, g: 522, b: 533, a: 1000 },
        Color { r: 839, g: 365, b: 55, a: 1000 },
        Color { r: 596, g: 592, b: 102, a: 1000 },
        Color { r: 694, g: 384, b: 525, a: 1000 },
        Color { r: 800, g: 141, b: 114, a: 1000 },
    ]
}

impl SubplotFormat {
    /// A dark theme.
    pub fn dark() -> (r: Self)
        ensures
            r.plot_color == (Color { r: 157, g: 157, b: 157, a: 1000 }),
            r.line_color == (Color { r: 659, g: 600, b: 518, a: 1000 }),
            r.default_marker_color == r.line_color,
            r.text_color == r.line_color,
            r.grid_color == (Color { r: 250, g: 250, b: 250, a: 1000 }),
            r.default_fill_color == (Color { r: 1000, g: 0, b: 0, a: 500 }),
            r.line_width == 2,
            r.font_name == FontName::Arial,
            r.font_size == 20 * SCALE,
            r.tick_length == 8,
            r.tick_direction == TickDirection::Inner,
            r.override_minor_tick_length.is_none(),
            r.color_cycle@ == standard_cycle(),
    {
        let line_color = Color { r: 659, g: 600, b: 518, a: 1000 };
        SubplotFormat {
            default_marker_color: line_color,
            default_fill_color: Color { r: 1000, g: 0, b: 0, a: 500 },
            plot_color: Color { r: 157, g: 157, b: 157, a: 1000 },
            grid_color: Color { r: 250, g: 250, b: 250, a: 1000 },
            line_width: 2,
            line_color,
            font_name: FontName::Arial,
            font_size: 20 * SCALE,
            text_color: line_color,
            tick_length: 8,
            tick_direction: TickDirection::Inner,
            override_minor_tick_length: None,
            color_cycle: standard_cycle_exec(),
        }
    }
}

impl Default for SubplotFormat {
    /// Black on a transparent plotting area.
    fn default() -> (r: Self)
        ensures
            r.default_marker_color == (Color { r: 0, g: 0, b: 0, a: 1000 }),
            r.default_fill_color == (Color { r: 1000, g: 0, b: 0, a: 500 }),
            r.plot_color == (Color { r: 0, g: 0, b: 0, a: 0 }),
            r.line_width == 2,
            r.line_color == (Color { r: 0, g: 0, b: 0, a: 1000 }),
            r.grid_color == (Color { r: 750, g: 750, b: 750, a: 1000 }),
            r.font_name == FontName::Arial,
            r.font_size == 20 * SCALE,
            r.text_color == (Color { r: 0, g: 0, b: 0, a: 1000 }),
            r.tick_length == 8,
            r.tick_direction == TickDirection::Inner,
            r.override_minor_tick_length.is_none(),
            r.color_cycle@ == standard_cycle(),
    {
        SubplotFormat {
            default_marker_color: Color { r: 0, g: 0, b: 0, a: 1000 },
            default_fill_color: Color { r: 1000, g: 0, b: 0, a: 500 },
            plot_color: Color { r: 0, g: 0, b: 0, a: 0 },
            line_width: 2,
            line_color: Color { r: 0, g: 0, b: 0, a: 1000 },
            grid_color: Color { r: 750, g: 750, b: 750, a: 1000 },
            font_name: FontName::Arial,
            font_size: 20 * SCALE,
            text_color: Color { r: 0, g: 0, b: 0, a: 1000 },
            tick_length: 8,
            tick_direction: TickDirection::Inner,
            override_minor_tick_length: None,
            color_cycle: standard_cycle_exec(),
        }
    }
}

/// The smallest of the first `n` values of `s`.
pub open spec fn min_upto(s: Seq<i64>, n: int) -> i64
    decreases n,
{
    if n <= 1 {
        s[0]
    } else {
        let m = min_upto(s, n - 1);
        if s[n - 1] < m {
            s[n - 1]
        } else {
            m
        }
    }
}

/// The largest of the first `n` values of `s`.
pub open spec fn max_upto(s: Seq<i64>, n: int) -> i64
    decreases n,
{
    if n <= 1 {
        s[0]
    } else {
        let m = max_upto(s, n - 1);
        if s[n - 1] > m {
            s[n - 1]
        } else {
            m
        }
    }
}

/// The smallest and the largest value of `s`; none for no values.
pub open spec fn bounds_of(s: Seq<i64>) -> Option<(i64, i64)> {
    if s.len() == 0 {
        None
    } else {
        Some((min_upto(s, s.len() as int), max_upto(s, s.len() as int)))
    }
}

/// `inner` lies within `outer`: it is empty, or both are ranges and
/// `outer` reaches as far on each side.
pub open spec fn covers(outer: Option<(i64, i64)>, inner: Option<(i64, i64)>) -> bool {
    match inner {
        None => true,
        Some((lo, hi)) => match outer {
            None => false,
            Some((olo, ohi)) => olo <= lo && hi <= ohi,
        },
    }
}

/// The smallest range that holds `span` and `b`.
pub open spec fn widen(span: Option<(i64, i64)>, b: Option<(i64, i64)>) -> Option<(i64, i64)> {
    match b {
        None => span,
        Some((lo, hi)) => match span {
            None => Some((lo, hi)),
            Some((a, c)) => Some((if lo < a { lo } else { a }, if hi > c { hi } else { c })),
        },
    }
}

/// The limits for a span: five percent of its extent added on each side,
/// or one unit where it has no extent.
pub open spec fn padded(span: (i64, i64)) -> (i64, i64) {
    let extent = span.1 - span.0;
    if extent > 0 {
        ((span.0 - extent / 20) as i64, (span.1 + extent / 20) as i64)
    } else {
        ((span.0 - SCALE) as i64, (span.1 + SCALE) as i64)
    }
}

proof fn lemma_min_max_bounds(s: Seq<i64>, n: int)
    requires
        1 <= n <= s.len(),
    ensures
        forall|i: int| 0 <= i < n ==> min_upto(s, n) <= #[trigger] s[i] <= max_upto(s, n),
        exists|i: int| 0 <= i < n && s[i] == min_upto(s, n),
        exists|i: int| 0 <= i < n && s[i] == max_upto(s, n),
    decreases n,
{
    if n > 1 {
        lemma_min_max_bounds(s, n - 1);
        if s[n - 1] >= min_upto(s, n - 1) {
            let i = choose|i: int| 0 <= i < n - 1 && s[i] == min_upto(s, n - 1);
            assert(0 <= i < n && s[i] == min_upto(s, n));
        } else {
            assert(s[n - 1] == min_upto(s, n));
        }
        if s[n - 1] <= max_upto(s, n - 1) {
            let i = choose|i: int| 0 <= i < n - 1 && s[i] == max_upto(s, n - 1);
            assert(0 <= i < n && s[i] == max_upto(s, n));
        } else {
            assert(s[n - 1] == max_upto(s, n));
        }
    } else {
        assert(s[0] == min_upto(s, n));
        assert(s[0] == max_upto(s, n));
    }
}

/// Every value lies within the bounds, which are values of the sequence.
pub proof fn lemma_bounds_of(s: Seq<i64>)
    requires
        s.len() > 0,
    ensures
        forall|i: int|
            0 <= i < s.len() ==> bounds_of(s)->Some_0.0 <= #[trigger] s[i] <= bounds_of(s)->Some_0.1,
        s.contains(bounds_of(s)->Some_0.0),
        s.contains(bounds_of(s)->Some_0.1),
{
    lemma_min_max_bounds(s, s.len() as int);
}

/// The smallest and the largest value.
pub fn bounds(v: &Vec<i64>) -> (r: Option<(i64, i64)>)
    ensures
        r == bounds_of(v@),
{
    if v.len() == 0 {
        return None;
    }
    let mut lo = v[0];
    let mut hi = v[0];
    let mut i: usize = 1;
    while i < v.len()
        invariant
            1 <= i <= v@.len(),
            lo == min_upto(v@, i as int),
            hi == max_upto(v@, i as int),
        decreases v@.len() - i,
    {
        if v[i] < lo {
            lo = v[i];
        }
        if v[i] > hi {
            hi = v[i];
        }
        i = i + 1;
    }
    Some((lo, hi))
}

fn all_valid(v: &Vec<i64>) -> (r: bool)
    ensures
        r == all_in_range(v@),
{
    let mut i: usize = 0;
    while i < v.len()
        invariant
            i <= v@.len(),
            forall|j: int| 0 <= j < i ==> in_range(#[trigger] v@[j] as int),
        decreases v@.len() - i,
    {
        if v[i] < -MAX_VALUE || v[i] > MAX_VALUE {
            return false;
        }
        i = i + 1;
    }
    true
}

/// X, Y data, one point for each pair of values.
#[derive(Clone, Debug)]
pub struct PlotData {
    pub xs: Vec<i64>,
    pub ys: Vec<i64>,
}

impl PlotData {
    pub fn new(xs: Vec<i64>, ys: Vec<i64>) -> (r: Self)
        ensures
            r == (PlotData { xs, ys }),
    {
        PlotData { xs, ys }
    }

    pub open spec fn points(&self) -> Seq<(i64, i64)> {
        let n = if self.xs@.len() < self.ys@.len() { self.xs@.len() } else { self.ys@.len() };
        Seq::new(n, |i: int| (self.xs@[i], self.ys@[i]))
    }

    /// The data as x, y pairs.
    pub fn data(&self) -> (r: Vec<(i64, i64)>)
        ensures
            r@ == self.points(),
    {
        let n = if self.xs.len() < self.ys.len() { self.xs.len() } else { self.ys.len() };
        let mut r: Vec<(i64, i64)> = Vec::new();
        let mut i: usize = 0;
        while i < n
            invariant
                n == (if self.xs@.len() < self.ys@.len() { self.xs@.len() } else { self.ys@.len() }),
                i <= n,
                r@.len() == i,
                forall|j: int| 0 <= j < i ==> #[trigger] r@[j] == (self.xs@[j], self.ys@[j]),
            decreases n - i,
        {
            r.push((self.xs[i], self.ys[i]));
            i = i + 1;
        }
        assert(r@ =~= self.points());
        r
    }
}

/// Step data: `edges` bound the steps, one more edge than values.
#[derive(Clone, Debug)]
pub struct StepData {
    pub edges: Vec<i64>,
    pub ys: Vec<i64>,
}

impl StepData {
    /// There should be one more edge than values.
    pub fn new(edges: Vec<i64>, ys: Vec<i64>) -> (r: Self)
        ensures
            r == (StepData { edges, ys }),
    {
        StepData { edges, ys }
    }

    /// Each value held from its left edge to its right edge: points
    /// `(e0, y0), (e1, y0), (e1, y1), (e2, y1), ...`.
    pub open spec fn points(&self) -> Seq<(i64, i64)> {
        let n = step_count(self.edges@.len() as int, self.ys@.len() as int);
        Seq::new(n as nat, |k: int| (self.edges@[(k + 1) / 2], self.ys@[k / 2]))
    }

    /// The data as x, y pairs.
    pub fn data(&self) -> (r: Vec<(i64, i64)>)
        ensures
            r@ == self.points(),
    {
        let ne = self.edges.len() as u128;
        let ny = self.ys.len() as u128;
        let n: u128 = if ne < ny + 1 {
            if ne == 0 { 0 } else { 2 * ne - 1 }
        } else {
            2 * ny
        };
        let mut r: Vec<(i64, i64)> = Vec::new();
        let mut k: u128 = 0;
        while k < n
            invariant
                ne == self.edges@.len(),
                ny == self.ys@.len(),
                ne <= usize::MAX,
                ny <= usize::MAX,
                n == step_count(ne as int, ny as int),
                k <= n,
                r@.len() == k,
                forall|j: int| 0 <= j < k ==> #[trigger] r@[j] == (self.edges@[(j + 1) / 2], self.ys@[j / 2]),
            decreases n - k,
        {
            proof {
                assert((k + 1) / 2 < ne);
                assert(k / 2 < ny);
            }
            let kp: u128 = k + 1;
            assert(kp / 2 < ne);
            let ie: usize = (kp / 2) as usize;
            let iy: usize = (k / 2) as usize;
            assert(ie as int == (k as int + 1) / 2);
            assert(iy as int == k as int / 2);
            let e = self.edges[ie];
            let y = self.ys[iy];
            r.push((e, y));
            k = k + 1;
        }
        assert(r@ =~= self.points());
        r
    }
}

/// The number of points of step data with `ne` edges and `ny` values.
pub open spec fn step_count(ne: int, ny: int) -> int {
    if ne < ny + 1 {
        if ne == 0 {
            0
        } else {
            2 * ne - 1
        }
    } else {
        2 * ny
    }
}

/// The data of a plotted series.
#[derive(Clone, Debug)]
pub enum SeriesData {
    Plot(PlotData),
    Step(StepData),
}

impl SeriesData {
    pub open spec fn points(&self) -> Seq<(i64, i64)> {
        match self {
            SeriesData::Plot(d) => d.points(),
            SeriesData::Step(d) => d.points(),
        }
    }

    /// The x values that bound the data.
    pub open spec fn x_bounds(&self) -> Option<(i64, i64)> {
        match self {
            SeriesData::Plot(d) => bounds_of(d.xs@),
            SeriesData::Step(d) => bounds_of(d.edges@),
        }
    }

    /// The y values that bound the data.
    pub open spec fn y_bounds(&self) -> Option<(i64, i64)> {
        match self {
            SeriesData::Plot(d) => bounds_of(d.ys@),
            SeriesData::Step(d) => bounds_of(d.ys@),
        }
    }

    pub open spec fn in_range(&self) -> bool {
        match self {
            SeriesData::Plot(d) => all_in_range(d.xs@) && all_in_range(d.ys@),
            SeriesData::Step(d) => all_in_range(d.edges@) && all_in_range(d.ys@),
        }
    }

    /// The data as x, y pairs.
    pub fn data(&self) -> (r: Vec<(i64, i64)>)
        ensures
            r@ == self.points(),
    {
        match self {
            SeriesData::Plot(d) => d.data(),
            SeriesData::Step(d) => d.data(),
        }
    }

    pub fn xbounds(&self) -> (r: Option<(i64, i64)>)
        ensures
            r == self.x_bounds(),
    {
        match self {
            SeriesData::Plot(d) => bounds(&d.xs),
            SeriesData::Step(d) => bounds(&d.edges),
        }
    }

    pub fn ybounds(&self) -> (r: Option<(i64, i64)>)
        ensures
            r == self.y_bounds(),
    {
        match self {
            SeriesData::Plot(d) => bounds(&d.ys),
            SeriesData::Step(d) => bounds(&d.ys),
        }
    }
}

/// The data of a region between two curves over the same x values.
#[derive(Clone, Debug)]
pub struct FillBetweenData {
    pub xs: Vec<i64>,
    pub y1s: Vec<i64>,
    pub y2s: Vec<i64>,
}

/// The smaller of two optional bounds' minima and the larger of their
/// maxima.
pub open spec fn join(a: Option<(i64, i64)>, b: Option<(i64, i64)>) -> Option<(i64, i64)> {
    widen(a, b)
}

impl FillBetweenData {
    pub fn new(xs: Vec<i64>, y1s: Vec<i64>, y2s: Vec<i64>) -> (r: Self)
        ensures
            r == (FillBetweenData { xs, y1s, y2s }),
    {
        FillBetweenData { xs, y1s, y2s }
    }

    pub open spec fn curve1_points(&self) -> Seq<(i64, i64)> {
        PlotData { xs: self.xs, ys: self.y1s }.points()
    }

    pub open spec fn curve2_points(&self) -> Seq<(i64, i64)> {
        PlotData { xs: self.xs, ys: self.y2s }.points()
    }

    /// The closed outline of the region: along the first curve, then back
    /// along the second.
    pub open spec fn outline(&self) -> Seq<(i64, i64)> {
        self.curve1_points() + self.curve2_points().reverse()
    }

    pub open spec fn x_bounds(&self) -> Option<(i64, i64)> {
        bounds_of(self.xs@)
    }

    pub open spec fn y_bounds(&self) -> Option<(i64, i64)> {
        join(bounds_of(self.y1s@), bounds_of(self.y2s@))
    }

    pub fn curve1(&self) -> (r: Vec<(i64, i64)>)
        ensures
            r@ == self.curve1_points(),
    {
        zip_points(&self.xs, &self.y1s)
    }

    pub fn curve2(&self) -> (r: Vec<(i64, i64)>)
        ensures
            r@ == self.curve2_points(),
    {
        zip_points(&self.xs, &self.y2s)
    }

    pub fn xbounds(&self) -> (r: Option<(i64, i64)>)
        ensures
            r == self.x_bounds(),
    {
        bounds(&self.xs)
    }

    pub fn ybounds(&self) -> (r: Option<(i64, i64)>)
        ensures
            r == self.y_bounds(),
    {
        let a = bounds(&self.y1s);
        let b = bounds(&self.y2s);
        match b {
            None => a,
            Some((lo, hi)) => match a {
                None => Some((lo, hi)),
                Some((c, d)) => Some((if lo < c { lo } else { c }, if hi > d { hi } else { d })),
            },
        }
    }

    /// The closed outline of the region.
    pub fn outline_points(&self) -> (r: Vec<(i64, i64)>)
        ensures
            r@ == self.outline(),
    {
        let mut r = self.curve1();
        let c2 = self.curve2();
        let ghost start = r@;
        let mut i: usize = c2.len();
        while i > 0
            invariant
                i <= c2@.len(),
                c2@ == self.curve2_points(),
                start == self.curve1_points(),
                r@ == start + c2@.subrange(i as int, c2@.len() as int).reverse(),
            decreases i,
        {
            i = i - 1;
            r.push(c2[i]);
            assert(c2@.subrange(i as int, c2@.len() as int).reverse() =~= c2@.subrange(
                i + 1,
                c2@.len() as int,
            ).reverse().push(c2@[i as int]));
        }
        assert(c2@.subrange(0, c2@.len() as int) == c2@);
        r
    }
}

fn zip_points(xs: &Vec<i64>, ys: &Vec<i64>) -> (r: Vec<(i64, i64)>)
    ensures
        r@ == (PlotData { xs: *xs, ys: *ys }).points(),
{
    let n = if xs.len() < ys.len() { xs.len() } else { ys.len() };
    let mut r: Vec<(i64, i64)> = Vec::new();
    let mut i: usize = 0;
    while i < n
        invariant
            n == (if xs@.len() < ys@.len() { xs@.len() } else { ys@.len() }),
            i <= n,
            r@.len() == i,
            forall|j: int| 0 <= j < i ==> #[trigger] r@[j] == (xs@[j], ys@[j]),
        decreases n - i,
    {
        r.push((xs[i], ys[i]));
        i = i + 1;
    }
    assert(r@ =~= (PlotData { xs: *xs, ys: *ys }).points());
    r
}

pub(crate) fn copy_strings(v: &Vec<String>) -> (r: Vec<String>)
    ensures
        r@ == v@,
{
    let mut r: Vec<String> = Vec::new();
    let mut i: usize = 0;
    while i < v.len()
        invariant
            i <= v@.len(),
            r@ == v@.subrange(0, i as int),
        decreases v@.len() - i,
    {
        r.push(v[i].clone());
        assert(v@.subrange(0, i + 1) =~= v@.subrange(0, i as int).push(v@[i as int]));
        i = i + 1;
    }
    assert(v@.subrange(0, v@.len() as int) =~= v@);
    r
}

/// The same spacing: the same variant, and the same values by hand.
pub open spec fn spacing_eq(a: TickSpacing, b: TickSpacing) -> bool {
    match (a, b) {
        (TickSpacing::Manual(x), TickSpacing::Manual(y)) => x@ == y@,
        _ => a == b,
    }
}

/// The same labelling: the same variant, and the same labels by hand.
pub open spec fn labels_eq(a: TickLabels, b: TickLabels) -> bool {
    match (a, b) {
        (TickLabels::Manual(x), TickLabels::Manual(y)) => x@ == y@,
        _ => a == b,
    }
}

/// The same axis, field by field, comparing contents of lists and text.
pub open spec fn axis_eq(a: AxisDescriptor, b: AxisDescriptor) -> bool {
    &&& a.label@ == b.label@
    &&& spacing_eq(a.major_tick_marks, b.major_tick_marks)
    &&& labels_eq(a.major_tick_labels, b.major_tick_labels)
    &&& spacing_eq(a.minor_tick_marks, b.minor_tick_marks)
    &&& labels_eq(a.minor_tick_labels, b.minor_tick_labels)
    &&& a.grid == b.grid
    &&& a.limit_policy == b.limit_policy
    &&& a.limits == b.limits
    &&& a.span == b.span
    &&& a.visible == b.visible
}

impl TickSpacing {
    /// A copy with the same contents.
    pub fn copy(&self) -> (r: TickSpacing)
        ensures
            spacing_eq(r, *self),
    {
        match self {
            TickSpacing::On => TickSpacing::On,
            TickSpacing::Auto => TickSpacing::Auto,
            TickSpacing::Off => TickSpacing::Off,
            TickSpacing::Count(n) => TickSpacing::Count(*n),
            TickSpacing::Manual(v) => {
                let c = v.clone();
                assert(c@ == v@);
                TickSpacing::Manual(c)
            },
        }
    }
}

impl TickLabels {
    /// A copy with the same contents.
    pub fn copy(&self) -> (r: TickLabels)
        ensures
            labels_eq(r, *self),
    {
        match self {
            TickLabels::On => TickLabels::On,
            TickLabels::Auto => TickLabels::Auto,
            TickLabels::Off => TickLabels::Off,
            TickLabels::Manual(v) => {
                let c = copy_strings(v);
                TickLabels::Manual(c)
            },
        }
    }
}

/// The configuration and state of one axis.
#[derive(Clone, Debug)]
pub struct AxisDescriptor {
    /// The label shown by the axis.
    pub label: String,
    pub major_tick_marks: TickSpacing,
    pub major_tick_labels: TickLabels,
    pub minor_tick_marks: TickSpacing,
    pub minor_tick_labels: TickLabels,
    pub grid: Grid,
    pub limit_policy: Limits,
    /// The range mapped to the plotting area, once there is one.
    pub limits: Option<(i64, i64)>,
    /// The tightest range of the data plotted on this axis, once there is some.
    pub span: Option<(i64, i64)>,
    /// Whether the axis line is drawn.
    pub visible: bool,
}

/// A range whose ends lie in the data range.
pub open spec fn range_wf(r: Option<(i64, i64)>) -> bool {
    match r {
        None => true,
        Some((lo, hi)) => in_range(lo as int) && in_range(hi as int),
    }
}

/// Limits whose ends lie within twice the data range.
pub open spec fn limits_wf(r: Option<(i64, i64)>) -> bool {
    match r {
        None => true,
        Some((lo, hi)) => -2 * MAX_VALUE <= lo <= 2 * MAX_VALUE && -2 * MAX_VALUE <= hi <= 2
            * MAX_VALUE,
    }
}

/// Bounds of valid data: both ends in range, in order.
pub open spec fn bounds_wf(b: Option<(i64, i64)>) -> bool {
    match b {
        None => true,
        Some((lo, hi)) => in_range(lo as int) && in_range(hi as int) && lo <= hi,
    }
}

impl AxisDescriptor {
    pub open spec fn wf(&self) -> bool {
        range_wf(self.span) && limits_wf(self.limits)
    }

    /// The axis after data with `bounds` is plotted on it: under automatic
    /// limits the span widens to hold the data and the limits follow it.
    pub open spec fn after_data(self, bounds: Option<(i64, i64)>) -> AxisDescriptor {
        if self.limit_policy == Limits::Auto && bounds is Some {
            AxisDescriptor {
                span: widen(self.span, bounds),
                limits: Some(padded(widen(self.span, bounds)->Some_0)),
                ..self
            }
        } else {
            self
        }
    }

    /// The axis with `setting` applied.
    pub open spec fn with_setting(self, setting: AxisSetting) -> AxisDescriptor {
        match setting {
            AxisSetting::Label(l) => AxisDescriptor { label: l, ..self },
            AxisSetting::Limits(lim) => match lim {
                Limits::Manual { min, max } => AxisDescriptor {
                    limits: Some((min, max)),
                    span: Some((min, max)),
                    limit_policy: lim,
                    ..self
                },
                Limits::Auto => AxisDescriptor { limit_policy: lim, ..self },
            },
            AxisSetting::Grid(g) => AxisDescriptor { grid: g, ..self },
            AxisSetting::MajorTickMarks(t) => AxisDescriptor { major_tick_marks: t, ..self },
            AxisSetting::MajorTickLabels(t) => AxisDescriptor { major_tick_labels: t, ..self },
            AxisSetting::MinorTickMarks(t) => AxisDescriptor { minor_tick_marks: t, ..self },
            AxisSetting::MinorTickLabels(t) => AxisDescriptor { minor_tick_labels: t, ..self },
            AxisSetting::Visible(v) => AxisDescriptor { visible: v, ..self },
        }
    }

    /// A new axis with `label`, automatic ticks, major labels where used,
    /// no minor labels, no grid and automatic limits.
    pub open spec fn initial(label: String) -> AxisDescriptor {
        AxisDescriptor {
            label,
            major_tick_marks: TickSpacing::On,
            major_tick_labels: TickLabels::Auto,
            minor_tick_marks: TickSpacing::On,
            minor_tick_labels: TickLabels::Off,
            grid: Grid::Off,
            limit_policy: Limits::Auto,
            limits: None,
            span: None,
            visible: true,
        }
    }
}

proof fn lemma_widen_wf(span: Option<(i64, i64)>, b: Option<(i64, i64)>)
    requires
        range_wf(span),
        bounds_wf(b),
    ensures
        range_wf(widen(span, b)),
        b is Some ==> widen(span, b) is Some,
{
}

proof fn lemma_padded_wf(span: (i64, i64))
    requires
        in_range(span.0 as int),
        in_range(span.1 as int),
    ensures
        limits_wf(Some(padded(span))),
{
}

/// Plots the data of `bounds` on `axis`.
fn update_axis(axis: &mut AxisDescriptor, b: Option<(i64, i64)>)
    requires
        old(axis).wf(),
        bounds_wf(b),
    ensures
        *final(axis) == old(axis).after_data(b),
        final(axis).wf(),
{
    proof {
        lemma_widen_wf(axis.span, b);
    }
    match axis.limit_policy {
        Limits::Auto => {
            if let Some((lo, hi)) = b {
                let span: (i64, i64) = match axis.span {
                    None => (lo, hi),
                    Some((a, c)) => (if lo < a { lo } else { a }, if hi > c { hi } else { c }),
                };
                let extent: i64 = span.1 - span.0;
                let limits = if extent > 0 {
                    (span.0 - extent / 20, span.1 + extent / 20)
                } else {
                    (span.0 - SCALE, span.1 + SCALE)
                };
                proof {
                    lemma_padded_wf(span);
                }
                axis.span = Some(span);
                axis.limits = Some(limits);
            }
        },
        Limits::Manual { .. } => {},
    }
}

/// The same setting, comparing contents of lists and text.
pub open spec fn setting_eq(a: AxisSetting, b: AxisSetting) -> bool {
    match (a, b) {
        (AxisSetting::Label(x), AxisSetting::Label(y)) => x@ == y@,
        (AxisSetting::MajorTickMarks(x), AxisSetting::MajorTickMarks(y)) => spacing_eq(x, y),
        (AxisSetting::MinorTickMarks(x), AxisSetting::MinorTickMarks(y)) => spacing_eq(x, y),
        (AxisSetting::MajorTickLabels(x), AxisSetting::MajorTickLabels(y)) => labels_eq(x, y),
        (AxisSetting::MinorTickLabels(x), AxisSetting::MinorTickLabels(y)) => labels_eq(x, y),
        _ => a == b,
    }
}

/// A change to the configuration of an axis.
#[derive(Clone, Debug)]
pub enum AxisSetting {
    Label(String),
    Limits(Limits),
    Grid(Grid),
    MajorTickMarks(TickSpacing),
    MajorTickLabels(TickLabels),
    MinorTickMarks(TickSpacing),
    MinorTickLabels(TickLabels),
    Visible(bool),
}

impl AxisSetting {
    /// The setting keeps an axis well formed: manual limits are in range.
    pub open spec fn wf(&self) -> bool {
        match self {
            AxisSetting::Limits(Limits::Manual { min, max }) => in_range(*min as int) && in_range(
                *max as int,
            ),
            _ => true,
        }
    }

    /// A copy with the same contents.
    pub fn copy(&self) -> (r: AxisSetting)
        ensures
            setting_eq(r, *self),
            r.wf() == self.wf(),
    {
        match self {
            AxisSetting::Label(l) => AxisSetting::Label(l.clone()),
            AxisSetting::Limits(l) => AxisSetting::Limits(*l),
            AxisSetting::Grid(g) => AxisSetting::Grid(*g),
            AxisSetting::MajorTickMarks(t) => AxisSetting::MajorTickMarks(t.copy()),
            AxisSetting::MajorTickLabels(t) => AxisSetting::MajorTickLabels(t.copy()),
            AxisSetting::MinorTickMarks(t) => AxisSetting::MinorTickMarks(t.copy()),
            AxisSetting::MinorTickLabels(t) => AxisSetting::MinorTickLabels(t.copy()),
            AxisSetting::Visible(v) => AxisSetting::Visible(*v),
        }
    }
}

fn apply_setting(axis: &mut AxisDescriptor, setting: AxisSetting)
    ensures
        *final(axis) == old(axis).with_setting(setting),
{
    match setting {
        AxisSetting::Label(l) => axis.label = l,
        AxisSetting::Limits(lim) => {
            if let Limits::Manual { min, max } = lim {
                axis.limits = Some((min, max));
                axis.span = Some((min, max));
            }
            axis.limit_policy = lim;
        },
        AxisSetting::Grid(g) => axis.grid = g,
        AxisSetting::MajorTickMarks(t) => axis.major_tick_marks = t,
        AxisSetting::MajorTickLabels(t) => axis.major_tick_labels = t,
        AxisSetting::MinorTickMarks(t) => axis.minor_tick_marks = t,
        AxisSetting::MinorTickLabels(t) => axis.minor_tick_labels = t,
        AxisSetting::Visible(v) => axis.visible = v,
    }
}

fn initial_axis() -> (r: AxisDescriptor)
    ensures
        r.label@.len() == 0,
        r == AxisDescriptor::initial(r.label),
        r.wf(),
{
    AxisDescriptor {
        label: String::new(),
        major_tick_marks: TickSpacing::On,
        major_tick_labels: TickLabels::Auto,
        minor_tick_marks: TickSpacing::On,
        minor_tick_labels: TickLabels::Off,
        grid: Grid::Off,
        limit_policy: Limits::Auto,
        limits: None,
        span: None,
        visible: true,
    }
}

/// The kinds of plotted data, in the order of plotting.
#[derive(Copy, Clone, Debug, PartialEq, Eq, Structural)]
pub enum PlotType {
    Series,
    Fill,
}

/// How many entries of `order` are `kind`.
pub open spec fn count_kind(order: Seq<PlotType>, kind: PlotType) -> nat
    decreases order.len(),
{
    if order.len() == 0 {
        0
    } else {
        count_kind(order.drop_last(), kind) + if order.last() == kind {
            1nat
        } else {
            0nat
        }
    }
}

pub proof fn lemma_count_push(order: Seq<PlotType>, x: PlotType, kind: PlotType)
    ensures
        count_kind(order.push(x), kind) == count_kind(order, kind) + if x == kind {
            1nat
        } else {
            0nat
        },
{
    assert(order.push(x).drop_last() =~= order);
}

/// A plotted series and how it is drawn.
#[derive(Clone, Debug)]
pub struct PlotInfo {
    pub label: String,
    pub data: SeriesData,
    pub line: Option<Line>,
    pub marker: Option<Marker>,
    pub xaxis: AxisType,
    pub yaxis: AxisType,
    /// Points are rounded to whole dots.
    pub pixel_perfect: bool,
}

/// A filled region and how it is drawn.
#[derive(Clone, Debug)]
pub struct FillInfo {
    pub label: String,
    pub data: FillBetweenData,
    pub color_override: Option<Color>,
    pub xaxis: AxisType,
    pub yaxis: AxisType,
}

/// Describes data and how it is plotted.
#[derive(Clone, Debug)]
pub struct PlotDescriptor {
    pub label: String,
    /// Whether lines join the points.
    pub line: bool,
    /// Whether markers are drawn at the points.
    pub marker: bool,
    pub line_format: Line,
    pub marker_format: Marker,
    pub xaxis: AxisType,
    pub yaxis: AxisType,
    pub pixel_perfect: bool,
}

impl Default for PlotDescriptor {
    /// Solid lines, no markers, on the primary axes.
    fn default() -> (r: Self)
        ensures
            r.label@.len() == 0,
            r.line,
            !r.marker,
            r.line_format == (Line { style: LineStyle::Solid, width: 3, color_override: None }),
            r.marker_format == (Marker {
                style: MarkerStyle::Circle,
                size: 3,
                color_override: None,
                outline: false,
                outline_format: Line { style: LineStyle::Solid, width: 2, color_override: None },
            }),
            r.xaxis == AxisType::X,
            r.yaxis == AxisType::Y,
            !r.pixel_perfect,
    {
        PlotDescriptor {
            label: String::new(),
            line: true,
            marker: false,
            line_format: Line::default(),
            marker_format: Marker::default(),
            xaxis: AxisType::X,
            yaxis: AxisType::Y,
            pixel_perfect: false,
        }
    }
}

/// Describes how a region is filled.
#[derive(Clone, Debug)]
pub struct FillDescriptor {
    pub label: String,
    pub color_override: Option<Color>,
    pub xaxis: AxisType,
    pub yaxis: AxisType,
}

impl Default for FillDescriptor {
    /// Coloured from the cycle, on the primary axes.
    fn default() -> (r: Self)
        ensures
            r.label@.len() == 0,
            r.color_override.is_none(),
            r.xaxis == AxisType::X,
            r.yaxis == AxisType::Y,
    {
        FillDescriptor {
            label: String::new(),
            color_override: None,
            xaxis: AxisType::X,
            yaxis: AxisType::Y,
        }
    }
}

/// A whole subplot: its format, its plotted data in order, its title and
/// its four axes.
#[derive(Clone, Debug)]
pub struct Subplot {
    pub format: SubplotFormat,
    pub plot_order: Vec<PlotType>,
    pub plot_infos: Vec<PlotInfo>,
    pub fill_infos: Vec<FillInfo>,
    pub title: String,
    pub xaxis: AxisDescriptor,
    pub yaxis: AxisDescriptor,
    pub secondary_xaxis: AxisDescriptor,
    pub secondary_yaxis: AxisDescriptor,
}

/// `axis` after data with x bounds `xb` on slot `xt` and y bounds `yb` on
/// slot `yt` is plotted; `axis` is the slot `t`.
pub open spec fn axis_after_plot(
    axis: AxisDescriptor,
    t: AxisType,
    xt: AxisType,
    xb: Option<(i64, i64)>,
    yt: AxisType,
    yb: Option<(i64, i64)>,
) -> AxisDescriptor {
    let a1 = if t == xt {
        axis.after_data(xb)
    } else {
        axis
    };
    if t == yt {
        a1.after_data(yb)
    } else {
        a1
    }
}

pub open spec fn fill_in_range(d: FillBetweenData) -> bool {
    all_in_range(d.xs@) && all_in_range(d.y1s@) && all_in_range(d.y2s@)
}

impl Subplot {
    /// The axis in slot `t`.
    pub open spec fn axis(&self, t: AxisType) -> AxisDescriptor {
        match t {
            AxisType::X => self.xaxis,
            AxisType::Y => self.yaxis,
            AxisType::SecondaryX => self.secondary_xaxis,
            AxisType::SecondaryY => self.secondary_yaxis,
        }
    }

    /// Axes in range, data in range, and one entry of the plotting order
    /// for each series and each fill.
    pub open spec fn wf(&self) -> bool {
        &&& self.xaxis.wf()
        &&& self.yaxis.wf()
        &&& self.secondary_xaxis.wf()
        &&& self.secondary_yaxis.wf()
        &&& forall|i: int| 0 <= i < self.plot_infos@.len() ==> (#[trigger] self.plot_infos@[i]).data.in_range()
        &&& forall|i: int| 0 <= i < self.fill_infos@.len() ==> fill_in_range(#[trigger] self.fill_infos@[i].data)
        &&& count_kind(self.plot_order@, PlotType::Series) == self.plot_infos@.len()
        &&& count_kind(self.plot_order@, PlotType::Fill) == self.fill_infos@.len()
    }

    /// Plots data of bounds `b` on the axis in slot `t`.
    fn update_slot(&mut self, t: AxisType, b: Option<(i64, i64)>)
        requires
            old(self).wf(),
            bounds_wf(b),
        ensures
            final(self).wf(),
            forall|u: AxisType| #[trigger] final(self).axis(u) == if u == t {
                old(self).axis(u).after_data(b)
            } else {
                old(self).axis(u)
            },
            final(self).format == old(self).format,
            final(self).plot_order == old(self).plot_order,
            final(self).plot_infos == old(self).plot_infos,
            final(self).fill_infos == old(self).fill_infos,
            final(self).title == old(self).title,
    {
        match t {
            AxisType::X => update_axis(&mut self.xaxis, b),
            AxisType::Y => update_axis(&mut self.yaxis, b),
            AxisType::SecondaryX => update_axis(&mut self.secondary_xaxis, b),
            AxisType::SecondaryY => update_axis(&mut self.secondary_yaxis, b),
        }
    }

    /// Adds a series: its axes widen to hold it, and it is drawn after all
    /// that is already plotted.
    pub fn plot_desc(&mut self, desc: PlotDescriptor, data: SeriesData)
        requires
            old(self).wf(),
            data.in_range(),
        ensures
            final(self).wf(),
            forall|u: AxisType| #[trigger] final(self).axis(u) == axis_after_plot(
                old(self).axis(u),
                u,
                desc.xaxis,
                data.x_bounds(),
                desc.yaxis,
                data.y_bounds(),
            ),
            final(self).plot_infos@ == old(self).plot_infos@.push(
                PlotInfo {
                    label: desc.label,
                    data,
                    line: if desc.line { Some(desc.line_format) } else { None },
                    marker: if desc.marker { Some(desc.marker_format) } else { None },
                    xaxis: desc.xaxis,
                    yaxis: desc.yaxis,
                    pixel_perfect: desc.pixel_perfect,
                },
            ),
            final(self).plot_order@ == old(self).plot_order@.push(PlotType::Series),
            final(self).fill_infos == old(self).fill_infos,
            final(self).format == old(self).format,
            final(self).title == old(self).title,
    {
        let line = if desc.line { Some(desc.line_format) } else { None };
        let marker = if desc.marker { Some(desc.marker_format) } else { None };
        let xb = data.xbounds();
        let yb = data.ybounds();
        proof {
            data_bounds_wf(data);
        }
        let ghost s0 = *self;
        self.update_slot(desc.xaxis, xb);
        let ghost s1 = *self;
        self.update_slot(desc.yaxis, yb);
        let ghost s2 = *self;
        proof {
            assert forall|u: AxisType| #[trigger] s2.axis(u) == axis_after_plot(
                s0.axis(u),
                u,
                desc.xaxis,
                xb,
                desc.yaxis,
                yb,
            ) by {
                assert(s1.axis(u) == if u == desc.xaxis { s0.axis(u).after_data(xb) } else { s0.axis(u) });
            }
        }
        let ghost infos = self.plot_infos@;
        self.plot_infos.push(
            PlotInfo {
                label: desc.label,
                data,
                line,
                marker,
                xaxis: desc.xaxis,
                yaxis: desc.yaxis,
                pixel_perfect: desc.pixel_perfect,
            },
        );
        let ghost order = self.plot_order@;
        self.plot_order.push(PlotType::Series);
        proof {
            assert(forall|u: AxisType| #[trigger] self.axis(u) == s2.axis(u));
            lemma_count_push(order, PlotType::Series, PlotType::Series);
            lemma_count_push(order, PlotType::Series, PlotType::Fill);
            assert forall|i: int| 0 <= i < self.plot_infos@.len() implies (
            #[trigger] self.plot_infos@[i]).data.in_range() by {
                if i < infos.len() {
                    assert(self.plot_infos@[i] == infos[i]);
                }
            }
        }
    }

    /// Adds a filled region: its axes widen to hold it, and it is drawn
    /// after all that is already plotted.
    pub fn fill_between_desc(&mut self, desc: FillDescriptor, data: FillBetweenData)
        requires
            old(self).wf(),
            fill_in_range(data),
        ensures
            final(self).wf(),
            forall|u: AxisType| #[trigger] final(self).axis(u) == axis_after_plot(
                old(self).axis(u),
                u,
                desc.xaxis,
                data.x_bounds(),
                desc.yaxis,
                data.y_bounds(),
            ),
            final(self).fill_infos@ == old(self).fill_infos@.push(
                FillInfo {
                    label: desc.label,
                    data,
                    color_override: desc.color_override,
                    xaxis: desc.xaxis,
                    yaxis: desc.yaxis,
                },
            ),
            final(self).plot_order@ == old(self).plot_order@.push(PlotType::Fill),
            final(self).plot_infos == old(self).plot_infos,
            final(self).format == old(self).format,
            final(self).title == old(self).title,
    {
        let xb = data.xbounds();
        let yb = data.ybounds();
        proof {
            fill_bounds_wf(data);
        }
        let ghost s0 = *self;
        self.update_slot(desc.xaxis, xb);
        let ghost s1 = *self;
        self.update_slot(desc.yaxis, yb);
        let ghost s2 = *self;
        proof {
            assert forall|u: AxisType| #[trigger] s2.axis(u) == axis_after_plot(
                s0.axis(u),
                u,
                desc.xaxis,
                xb,
                desc.yaxis,
                yb,
            ) by {
                assert(s1.axis(u) == if u == desc.xaxis { s0.axis(u).after_data(xb) } else { s0.axis(u) });
            }
        }
        let ghost infos = self.fill_infos@;
        self.fill_infos.push(
            FillInfo {
                label: desc.label,
                data,
                color_override: desc.color_override,
                xaxis: desc.xaxis,
                yaxis: desc.yaxis,
            },
        );
        let ghost order = self.plot_order@;
        self.plot_order.push(PlotType::Fill);
        proof {
            assert(forall|u: AxisType| #[trigger] self.axis(u) == s2.axis(u));
            lemma_count_push(order, PlotType::Fill, PlotType::Series);
            lemma_count_push(order, PlotType::Fill, PlotType::Fill);
            assert forall|i: int| 0 <= i < self.fill_infos@.len() implies fill_in_range(
                #[trigger] self.fill_infos@[i].data,
            ) by {
                if i < infos.len() {
                    assert(self.fill_infos@[i] == infos[i]);
                }
            }
        }
    }
}

proof fn seq_bounds_wf(s: Seq<i64>)
    requires
        all_in_range(s),
    ensures
        bounds_wf(bounds_of(s)),
{
    if s.len() > 0 {
        lemma_bounds_of(s);
        let b = bounds_of(s)->Some_0;
        let i = choose|i: int| 0 <= i < s.len() && s[i] == b.0;
        let j = choose|j: int| 0 <= j < s.len() && s[j] == b.1;
        assert(in_range(s[i] as int));
        assert(in_range(s[j] as int));
    }
}

proof fn data_bounds_wf(d: SeriesData)
    requires
        d.in_range(),
    ensures
        bounds_wf(d.x_bounds()),
        bounds_wf(d.y_bounds()),
{
    match d {
        SeriesData::Plot(p) => {
            seq_bounds_wf(p.xs@);
            seq_bounds_wf(p.ys@);
        },
        SeriesData::Step(p) => {
            seq_bounds_wf(p.edges@);
            seq_bounds_wf(p.ys@);
        },
    }
}

proof fn fill_bounds_wf(d: FillBetweenData)
    requires
        fill_in_range(d),
    ensures
        bounds_wf(d.x_bounds()),
        bounds_wf(d.y_bounds()),
{
    seq_bounds_wf(d.xs@);
    seq_bounds_wf(d.y1s@);
    seq_bounds_wf(d.y2s@);
}

/// The configuration of a subplot before it is built.
#[derive(Clone, Debug)]
pub struct SubplotDescriptor {
    pub format: SubplotFormat,
    /// The title shown above the subplot.
    pub title: String,
    pub xaxis: AxisDescriptor,
    pub yaxis: AxisDescriptor,
    pub secondary_xaxis: AxisDescriptor,
    pub secondary_yaxis: AxisDescriptor,
}

impl SubplotDescriptor {
    pub open spec fn axis(&self, t: AxisType) -> AxisDescriptor {
        match t {
            AxisType::X => self.xaxis,
            AxisType::Y => self.yaxis,
            AxisType::SecondaryX => self.secondary_xaxis,
            AxisType::SecondaryY => self.secondary_yaxis,
        }
    }

    pub open spec fn wf(&self) -> bool {
        forall|t: AxisType| (#[trigger] self.axis(t)).wf()
    }

    fn set_slot(&mut self, t: AxisType, setting: AxisSetting)
        ensures
            forall|u: AxisType| #[trigger] final(self).axis(u) == if u == t {
                old(self).axis(u).with_setting(setting)
            } else {
                old(self).axis(u)
            },
            final(self).format == old(self).format,
            final(self).title == old(self).title,
    {
        match t {
            AxisType::X => apply_setting(&mut self.xaxis, setting),
            AxisType::Y => apply_setting(&mut self.yaxis, setting),
            AxisType::SecondaryX => apply_setting(&mut self.secondary_xaxis, setting),
            AxisType::SecondaryY => apply_setting(&mut self.secondary_yaxis, setting),
        }
    }
}

impl Default for SubplotDescriptor {
    /// The default format, no title, and four new axes without labels.
    fn default() -> (r: Self)
        ensures
            r.title@.len() == 0,
            r.format.color_cycle@ == standard_cycle(),
            forall|t: AxisType|
                (#[trigger] r.axis(t)).label@.len() == 0 && r.axis(t) == AxisDescriptor::initial(
                    r.axis(t).label,
                ),
            r.wf(),
    {
        SubplotDescriptor {
            format: SubplotFormat::default(),
            title: String::new(),
            xaxis: initial_axis(),
            yaxis: initial_axis(),
            secondary_xaxis: initial_axis(),
            secondary_yaxis: initial_axis(),
        }
    }
}

/// Builds the configuration of a subplot.
pub struct SubplotBuilder {
    pub desc: SubplotDescriptor,
}

impl SubplotBuilder {
    /// Applies `setting` to every axis that `axes` names.
    pub fn apply(self, axes: Axes, setting: AxisSetting) -> (r: Self)
        requires
            self.desc.wf(),
            setting.wf(),
        ensures
            r.desc.wf(),
            forall|t: AxisType|
                #![trigger r.desc.axis(t)]
                slots_of(axes).contains(t) ==> axis_eq(
                    r.desc.axis(t),
                    self.desc.axis(t).with_setting(setting),
                ),
            forall|t: AxisType|
                #![trigger r.desc.axis(t)]
                !slots_of(axes).contains(t) ==> r.desc.axis(t) == self.desc.axis(t),
            r.desc.format == self.desc.format,
            r.desc.title == self.desc.title,
    {
        let slots = axes.slots();
        let mut desc = self.desc;
        let ghost orig = desc;
        let mut i: usize = 0;
        while i < slots.len()
            invariant
                slots@ == slots_of(axes),
                setting.wf(),
                orig.wf(),
                i <= slots@.len(),
                desc.format == orig.format,
                desc.title == orig.title,
                forall|t: AxisType|
                    #![trigger desc.axis(t)]
                    slots@.subrange(0, i as int).contains(t) ==> axis_eq(
                        desc.axis(t),
                        orig.axis(t).with_setting(setting),
                    ),
                forall|t: AxisType|
                    #![trigger desc.axis(t)]
                    !slots@.subrange(0, i as int).contains(t) ==> desc.axis(t) == orig.axis(t),
                desc.wf(),
            decreases slots@.len() - i,
        {
            let t = slots[i];
            let c = setting.copy();
            let ghost before = desc;
            desc.set_slot(t, c);
            proof {
                assert(!slots@.subrange(0, i as int).contains(t)) by {
                    if slots@.subrange(0, i as int).contains(t) {
                        let k = choose|k: int| 0 <= k < i && #[trigger] slots@.subrange(0, i as int)[k] == t;
                        assert(slots@[k] == slots@[i as int]);
                    }
                }
                assert forall|u: AxisType| #![trigger desc.axis(u)]
                    slots@.subrange(0, i + 1).contains(u) implies axis_eq(
                        desc.axis(u),
                        orig.axis(u).with_setting(setting),
                    ) by {
                    if u != t {
                        let k = choose|k: int| 0 <= k < i + 1 && #[trigger] slots@.subrange(0, i + 1)[k] == u;
                        assert(slots@.subrange(0, i as int)[k] == u);
                    }
                }
                assert forall|u: AxisType| #![trigger desc.axis(u)]
                    !slots@.subrange(0, i + 1).contains(u) implies desc.axis(u) == orig.axis(u) by {
                    if slots@.subrange(0, i as int).contains(u) {
                        let k = choose|k: int| 0 <= k < i && #[trigger] slots@.subrange(0, i as int)[k] == u;
                        assert(slots@.subrange(0, i + 1)[k] == u);
                    }
                    assert(slots@.subrange(0, i + 1)[i as int] == t);
                }
                assert forall|u: AxisType| (#[trigger] desc.axis(u)).wf() by {
                    if u == t {
                        assert(before.axis(u).wf());
                    } else {
                        assert(before.axis(u).wf());
                    }
                }
            }
            i = i + 1;
        }
        proof {
            assert(slots@.subrange(0, slots@.len() as int) == slots@);
        }
        SubplotBuilder { desc }
    }

    /// Builds the subplot.
    pub fn build(self) -> (r: Subplot)
        requires
            self.desc.wf(),
        ensures
            r.wf(),
            forall|t: AxisType| #[trigger] r.axis(t) == self.desc.axis(t),
            r.format == self.desc.format,
            r.title == self.desc.title,
            r.plot_order@.len() == 0,
            r.plot_infos@.len() == 0,
            r.fill_infos@.len() == 0,
    {
        Subplot::new(self.desc)
    }

    /// Sets the title.
    pub fn title(self, title: &str) -> (r: Self)
        ensures
            r.desc.title@ == title@,
            r.desc == (SubplotDescriptor { title: r.desc.title, ..self.desc }),
    {
        let mut r = self;
        r.desc.title = String::from_str(title);
        r
    }

    /// Sets the format.
    pub fn format(self, format: SubplotFormat) -> (r: Self)
        ensures
            r.desc == (SubplotDescriptor { format, ..self.desc }),
    {
        let mut r = self;
        r.desc.format = format;
        r
    }

    /// Sets the label of the axes.
    pub fn label(self, axes: Axes, label: &str) -> (r: Self)
        requires
            self.desc.wf(),
        ensures
            r.desc.wf(),
            forall|t: AxisType| #![trigger r.desc.axis(t)] slots_of(axes).contains(t) ==> r.desc.axis(t).label@ == label@ && axis_eq(
                r.desc.axis(t),
                AxisDescriptor { label: r.desc.axis(t).label, ..self.desc.axis(t) },
            ),
            forall|t: AxisType| #![trigger r.desc.axis(t)] !slots_of(axes).contains(t) ==> r.desc.axis(t) == self.desc.axis(t),
            r.desc.format == self.desc.format,
            r.desc.title == self.desc.title,
    {
        self.apply(axes, AxisSetting::Label(String::from_str(label)))
    }

    /// Sets the x-axis label.
    pub fn xlabel(self, label: &str) -> (r: Self)
        requires
            self.desc.wf(),
        ensures
            r.desc.wf(),
            r.desc.xaxis.label@ == label@,
            r.desc.format == self.desc.format,
            r.desc.title == self.desc.title,
    {
        let r = self.label(Axes::X, label);
        assert(slots_of(Axes::X).contains(AxisType::X)) by {
            assert(slots_of(Axes::X)[0] == AxisType::X);
        }
        assert(r.desc.axis(AxisType::X) == r.desc.xaxis);
        r
    }

    /// Sets the y-axis label.
    pub fn ylabel(self, label: &str) -> (r: Self)
        requires
            self.desc.wf(),
        ensures
            r.desc.wf(),
            r.desc.yaxis.label@ == label@,
            r.desc.format == self.desc.format,
            r.desc.title == self.desc.title,
    {
        let r = self.label(Axes::Y, label);
        assert(slots_of(Axes::Y).contains(AxisType::Y)) by {
            assert(slots_of(Axes::Y)[0] == AxisType::Y);
        }
        assert(r.desc.axis(AxisType::Y) == r.desc.yaxis);
        r
    }

    /// Sets how the limits of the axes are found; limits set by hand
    /// become both the limits and the span.
    pub fn limits(self, axes: Axes, limits: Limits) -> (r: Self)
        requires
            self.desc.wf(),
            AxisSetting::Limits(limits).wf(),
        ensures
            r.desc.wf(),
            forall|t: AxisType| #![trigger r.desc.axis(t)] slots_of(axes).contains(t) ==> axis_eq(
                r.desc.axis(t),
                self.desc.axis(t).with_setting(AxisSetting::Limits(limits)),
            ),
            forall|t: AxisType| #![trigger r.desc.axis(t)] !slots_of(axes).contains(t) ==> r.desc.axis(t) == self.desc.axis(t),
            r.desc.format == self.desc.format,
            r.desc.title == self.desc.title,
    {
        self.apply(axes, AxisSetting::Limits(limits))
    }

    /// Sets the x-axis limits.
    pub fn xlimits(self, limits: Limits) -> (r: Self)
        requires
            self.desc.wf(),
            AxisSetting::Limits(limits).wf(),
        ensures
            r.desc.wf(),
            axis_eq(r.desc.xaxis, self.desc.xaxis.with_setting(AxisSetting::Limits(limits))),
            r.desc.format == self.desc.format,
            r.desc.title == self.desc.title,
    {
        let r = self.limits(Axes::X, limits);
        assert(slots_of(Axes::X)[0] == AxisType::X);
        assert(r.desc.axis(AxisType::X) == r.desc.xaxis);
        r
    }

    /// Sets the y-axis limits.
    pub fn ylimits(self, limits: Limits) -> (r: Self)
        requires
            self.desc.wf(),
            AxisSetting::Limits(limits).wf(),
        ensures
            r.desc.wf(),
            axis_eq(r.desc.yaxis, self.desc.yaxis.with_setting(AxisSetting::Limits(limits))),
            r.desc.format == self.desc.format,
            r.desc.title == self.desc.title,
    {
        let r = self.limits(Axes::Y, limits);
        assert(slots_of(Axes::Y)[0] == AxisType::Y);
        assert(r.desc.axis(AxisType::Y) == r.desc.yaxis);
        r
    }

    /// Sets the grid of the axes.
    pub fn grid(self, axes: Axes, grid: Grid) -> (r: Self)
        requires
            self.desc.wf(),
        ensures
            r.desc.wf(),
            forall|t: AxisType| #![trigger r.desc.axis(t)] slots_of(axes).contains(t) ==> axis_eq(
                r.desc.axis(t),
                AxisDescriptor { grid, ..self.desc.axis(t) },
            ),
            forall|t: AxisType| #![trigger r.desc.axis(t)] !slots_of(axes).contains(t) ==> r.desc.axis(t) == self.desc.axis(t),
            r.desc.format == self.desc.format,
            r.desc.title == self.desc.title,
    {
        self.apply(axes, AxisSetting::Grid(grid))
    }

    /// Major grid lines on the primary axes.
    pub fn standard_grid(self) -> (r: Self)
        requires
            self.desc.wf(),
        ensures
            r.desc.wf(),
            r.desc.xaxis.grid == Grid::Major,
            r.desc.yaxis.grid == Grid::Major,
            r.desc.format == self.desc.format,
            r.desc.title == self.desc.title,
    {
        let r = self.grid(Axes::BothPrimary, Grid::Major);
        assert(slots_of(Axes::BothPrimary)[0] == AxisType::X);
        assert(slots_of(Axes::BothPrimary)[1] == AxisType::Y);
        assert(r.desc.axis(AxisType::X) == r.desc.xaxis);
        assert(r.desc.axis(AxisType::Y) == r.desc.yaxis);
        r
    }

    /// Sets where the major tick marks of the axes go.
    pub fn major_tick_marks(self, axes: Axes, spacing: TickSpacing) -> (r: Self)
        requires
            self.desc.wf(),
        ensures
            r.desc.wf(),
            forall|t: AxisType| #![trigger r.desc.axis(t)] slots_of(axes).contains(t) ==> axis_eq(
                r.desc.axis(t),
                AxisDescriptor { major_tick_marks: spacing, ..self.desc.axis(t) },
            ),
            forall|t: AxisType| #![trigger r.desc.axis(t)] !slots_of(axes).contains(t) ==> r.desc.axis(t) == self.desc.axis(t),
            r.desc.format == self.desc.format,
            r.desc.title == self.desc.title,
    {
        self.apply(axes, AxisSetting::MajorTickMarks(spacing))
    }

    /// Sets the major tick labels of the axes.
    pub fn major_tick_labels(self, axes: Axes, labels: TickLabels) -> (r: Self)
        requires
            self.desc.wf(),
        ensures
            r.desc.wf(),
            forall|t: AxisType| #![trigger r.desc.axis(t)] slots_of(axes).contains(t) ==> axis_eq(
                r.desc.axis(t),
                AxisDescriptor { major_tick_labels: labels, ..self.desc.axis(t) },
            ),
            forall|t: AxisType| #![trigger r.desc.axis(t)] !slots_of(axes).contains(t) ==> r.desc.axis(t) == self.desc.axis(t),
            r.desc.format == self.desc.format,
            r.desc.title == self.desc.title,
    {
        self.apply(axes, AxisSetting::MajorTickLabels(labels))
    }

    /// Sets where the minor tick marks of the axes go.
    pub fn minor_tick_marks(self, axes: Axes, spacing: TickSpacing) -> (r: Self)
        requires
            self.desc.wf(),
        ensures
            r.desc.wf(),
            forall|t: AxisType| #![trigger r.desc.axis(t)] slots_of(axes).contains(t) ==> axis_eq(
                r.desc.axis(t),
                AxisDescriptor { minor_tick_marks: spacing, ..self.desc.axis(t) },
            ),
            forall|t: AxisType| #![trigger r.desc.axis(t)] !slots_of(axes).contains(t) ==> r.desc.axis(t) == self.desc.axis(t),
            r.desc.format == self.desc.format,
            r.desc.title == self.desc.title,
    {
        self.apply(axes, AxisSetting::MinorTickMarks(spacing))
    }

    /// Sets the minor tick labels of the axes.
    pub fn minor_tick_labels(self, axes: Axes, labels: TickLabels) -> (r: Self)
        requires
            self.desc.wf(),
        ensures
            r.desc.wf(),
            forall|t: AxisType| #![trigger r.desc.axis(t)] slots_of(axes).contains(t) ==> axis_eq(
                r.desc.axis(t),
                AxisDescriptor { minor_tick_labels: labels, ..self.desc.axis(t) },
            ),
            forall|t: AxisType| #![trigger r.desc.axis(t)] !slots_of(axes).contains(t) ==> r.desc.axis(t) == self.desc.axis(t),
            r.desc.format == self.desc.format,
            r.desc.title == self.desc.title,
    {
        self.apply(axes, AxisSetting::MinorTickLabels(labels))
    }

    /// Sets whether the axis lines are drawn.
    pub fn visible(self, axes: Axes, visible: bool) -> (r: Self)
        requires
            self.desc.wf(),
        ensures
            r.desc.wf(),
            forall|t: AxisType| #![trigger r.desc.axis(t)] slots_of(axes).contains(t) ==> axis_eq(
                r.desc.axis(t),
                AxisDescriptor { visible, ..self.desc.axis(t) },
            ),
            forall|t: AxisType| #![trigger r.desc.axis(t)] !slots_of(axes).contains(t) ==> r.desc.axis(t) == self.desc.axis(t),
            r.desc.format == self.desc.format,
            r.desc.title == self.desc.title,
    {
        self.apply(axes, AxisSetting::Visible(visible))
    }
}

impl Subplot {
    /// A builder with the default configuration.
    pub fn builder() -> (r: SubplotBuilder)
        ensures
            r.desc.wf(),
            r.desc.title@.len() == 0,
            forall|t: AxisType|
                (#[trigger] r.desc.axis(t)).label@.len() == 0 && r.desc.axis(t)
                    == AxisDescriptor::initial(r.desc.axis(t).label),
    {
        SubplotBuilder { desc: SubplotDescriptor::default() }
    }

    /// A subplot of the configuration `desc`, with nothing plotted.
    pub fn new(desc: SubplotDescriptor) -> (r: Subplot)
        requires
            desc.wf(),
        ensures
            r.wf(),
            forall|t: AxisType| #[trigger] r.axis(t) == desc.axis(t),
            r.format == desc.format,
            r.title == desc.title,
            r.plot_order@.len() == 0,
            r.plot_infos@.len() == 0,
            r.fill_infos@.len() == 0,
    {
        let r = Subplot {
            format: desc.format,
            plot_order: Vec::new(),
            plot_infos: Vec::new(),
            fill_infos: Vec::new(),
            title: desc.title,
            xaxis: desc.xaxis,
            yaxis: desc.yaxis,
            secondary_xaxis: desc.secondary_xaxis,
            secondary_yaxis: desc.secondary_yaxis,
        };
        proof {
            assert(desc.axis(AxisType::X).wf());
            assert(desc.axis(AxisType::Y).wf());
            assert(desc.axis(AxisType::SecondaryX).wf());
            assert(desc.axis(AxisType::SecondaryY).wf());
        }
        r
    }

    /// A plotter for this subplot, with the default plot format.
    pub fn plotter(&mut self) -> (r: Plotter<'_>)
        ensures
            *r.subplot == *old(self),
            *final(self) == *final(r.subplot),
            r.desc.line,
            !r.desc.marker,
            r.desc.xaxis == AxisType::X,
            r.desc.yaxis == AxisType::Y,
            !r.desc.pixel_perfect,
            r.desc.line_format == (Line { style: LineStyle::Solid, width: 3, color_override: None }),
    {
        Plotter { subplot: self, desc: PlotDescriptor::default() }
    }

    /// A filler for this subplot, with the default fill format.
    pub fn filler(&mut self) -> (r: Filler<'_>)
        ensures
            *r.subplot == *old(self),
            *final(self) == *final(r.subplot),
            r.desc.color_override.is_none(),
            r.desc.xaxis == AxisType::X,
            r.desc.yaxis == AxisType::Y,
    {
        Filler { subplot: self, desc: FillDescriptor::default() }
    }

    /// Plots `xs` against `ys` on the primary axes with the default format.
    pub fn plot(&mut self, xs: Vec<i64>, ys: Vec<i64>) -> (r: Result<(), PltError>)
        requires
            old(self).wf(),
        ensures
            r is Err <==> (xs@.len() != ys@.len() || !all_in_range(xs@) || !all_in_range(ys@)),
            r is Err ==> r->Err_0 is InvalidData && *final(self) == *old(self),
            r is Ok ==> final(self).wf(),
            r is Ok ==> forall|u: AxisType| #[trigger] final(self).axis(u) == axis_after_plot(
                old(self).axis(u),
                u,
                AxisType::X,
                bounds_of(xs@),
                AxisType::Y,
                bounds_of(ys@),
            ),
            r is Ok ==> final(self).plot_infos@.len() == old(self).plot_infos@.len() + 1
                && final(self).plot_infos@.last().data == SeriesData::Plot(PlotData { xs, ys }),
            r is Ok ==> final(self).plot_order@ == old(self).plot_order@.push(PlotType::Series),
    {
        let plotter = self.plotter();
        plotter.plot(xs, ys)
    }

    /// Plots step data on the primary axes with the default format.
    pub fn step(&mut self, steps: Vec<i64>, ys: Vec<i64>) -> (r: Result<(), PltError>)
        requires
            old(self).wf(),
        ensures
            r is Err <==> (steps@.len() != ys@.len() + 1 || !all_in_range(steps@) || !all_in_range(
                ys@,
            )),
            r is Err ==> r->Err_0 is InvalidData && *final(self) == *old(self),
            r is Ok ==> final(self).wf(),
            r is Ok ==> forall|u: AxisType| #[trigger] final(self).axis(u) == axis_after_plot(
                old(self).axis(u),
                u,
                AxisType::X,
                bounds_of(steps@),
                AxisType::Y,
                bounds_of(ys@),
            ),
            r is Ok ==> final(self).plot_infos@.len() == old(self).plot_infos@.len() + 1
                && final(self).plot_infos@.last().data == SeriesData::Step(
                StepData { edges: steps, ys },
            ) && final(self).plot_infos@.last().pixel_perfect,
            r is Ok ==> final(self).plot_order@ == old(self).plot_order@.push(PlotType::Series),
    {
        let plotter = self.plotter();
        plotter.step(steps, ys)
    }

    /// Fills the region between two curves on the primary axes with the
    /// default format.
    pub fn fill_between(&mut self, xs: Vec<i64>, y1s: Vec<i64>, y2s: Vec<i64>) -> (r: Result<
        (),
        PltError,
    >)
        requires
            old(self).wf(),
        ensures
            r is Err <==> (xs@.len() != y1s@.len() || xs@.len() != y2s@.len() || !all_in_range(xs@)
                || !all_in_range(y1s@) || !all_in_range(y2s@)),
            r is Err ==> r->Err_0 is InvalidData && *final(self) == *old(self),
            r is Ok ==> final(self).wf(),
            r is Ok ==> forall|u: AxisType| #[trigger] final(self).axis(u) == axis_after_plot(
                old(self).axis(u),
                u,
                AxisType::X,
                bounds_of(xs@),
                AxisType::Y,
                join(bounds_of(y1s@), bounds_of(y2s@)),
            ),
            r is Ok ==> final(self).fill_infos@.len() == old(self).fill_infos@.len() + 1
                && final(self).fill_infos@.last().data == (FillBetweenData { xs, y1s, y2s }),
            r is Ok ==> final(self).plot_order@ == old(self).plot_order@.push(PlotType::Fill),
    {
        let filler = self.filler();
        filler.fill_between(xs, y1s, y2s)
    }

    /// The format of this subplot.
    pub fn format(&self) -> (r: &SubplotFormat)
        ensures
            *r == self.format,
    {
        &self.format
    }
}

/// Plots data on a subplot, configured step by step.
pub struct Plotter<'b> {
    pub subplot: &'b mut Subplot,
    pub desc: PlotDescriptor,
}

/// Fills a region of a subplot, configured step by step.
pub struct Filler<'b> {
    pub subplot: &'b mut Subplot,
    pub desc: FillDescriptor,
}

impl<'b> Plotter<'b> {
    /// Plots `xs` against `ys` (millionths). Refused, leaving the subplot
    /// as it was, where the lengths differ or a value is out of range.
    pub fn plot(self, xs: Vec<i64>, ys: Vec<i64>) -> (r: Result<(), PltError>)
        requires
            self.subplot.wf(),
        ensures
            r is Err <==> (xs@.len() != ys@.len() || !all_in_range(xs@) || !all_in_range(ys@)),
            r is Err ==> r->Err_0 is InvalidData && *final(self.subplot) == *old(self.subplot),
            r is Ok ==> final(self.subplot).wf(),
            r is Ok ==> forall|u: AxisType| #[trigger] final(self.subplot).axis(u) == axis_after_plot(
                old(self.subplot).axis(u),
                u,
                self.desc.xaxis,
                bounds_of(xs@),
                self.desc.yaxis,
                bounds_of(ys@),
            ),
            r is Ok ==> final(self.subplot).plot_infos@ == old(self.subplot).plot_infos@.push(
                PlotInfo {
                    label: self.desc.label,
                    data: SeriesData::Plot(PlotData { xs, ys }),
                    line: if self.desc.line { Some(self.desc.line_format) } else { None },
                    marker: if self.desc.marker { Some(self.desc.marker_format) } else { None },
                    xaxis: self.desc.xaxis,
                    yaxis: self.desc.yaxis,
                    pixel_perfect: self.desc.pixel_perfect,
                },
            ),
            r is Ok ==> final(self.subplot).fill_infos == old(self.subplot).fill_infos
                && final(self.subplot).format == old(self.subplot).format
                && final(self.subplot).title == old(self.subplot).title,
            r is Ok ==> final(self.subplot).plot_order@ == old(self.subplot).plot_order@.push(
                PlotType::Series,
            ),
    {
        if xs.len() != ys.len() {
            return Err(
                PltError::InvalidData(
                    String::from_str("x-data and y-data should have the same length"),
                ),
            );
        }
        if !all_valid(&xs) {
            return Err(PltError::InvalidData(String::from_str("x-data has a value out of range")));
        }
        if !all_valid(&ys) {
            return Err(PltError::InvalidData(String::from_str("y-data has a value out of range")));
        }
        let data = SeriesData::Plot(PlotData::new(xs, ys));
        self.subplot.plot_desc(self.desc, data);
        Ok(())
    }

    /// Plots step data: value `ys[i]` from `steps[i]` to `steps[i + 1]`.
    /// Points are rounded to whole dots. Refused, leaving the subplot as it
    /// was, unless there is one more step than values and every value is in
    /// range.
    pub fn step(self, steps: Vec<i64>, ys: Vec<i64>) -> (r: Result<(), PltError>)
        requires
            self.subplot.wf(),
        ensures
            r is Err <==> (steps@.len() != ys@.len() + 1 || !all_in_range(steps@) || !all_in_range(
                ys@,
            )),
            r is Err ==> r->Err_0 is InvalidData && *final(self.subplot) == *old(self.subplot),
            r is Ok ==> final(self.subplot).wf(),
            r is Ok ==> forall|u: AxisType| #[trigger] final(self.subplot).axis(u) == axis_after_plot(
                old(self.subplot).axis(u),
                u,
                self.desc.xaxis,
                bounds_of(steps@),
                self.desc.yaxis,
                bounds_of(ys@),
            ),
            r is Ok ==> final(self.subplot).plot_infos@ == old(self.subplot).plot_infos@.push(
                PlotInfo {
                    label: self.desc.label,
                    data: SeriesData::Step(StepData { edges: steps, ys }),
                    line: if self.desc.line { Some(self.desc.line_format) } else { None },
                    marker: if self.desc.marker { Some(self.desc.marker_format) } else { None },
                    xaxis: self.desc.xaxis,
                    yaxis: self.desc.yaxis,
                    pixel_perfect: true,
                },
            ),
            r is Ok ==> final(self.subplot).fill_infos == old(self.subplot).fill_infos
                && final(self.subplot).format == old(self.subplot).format
                && final(self.subplot).title == old(self.subplot).title,
            r is Ok ==> final(self.subplot).plot_order@ == old(self.subplot).plot_order@.push(
                PlotType::Series,
            ),
    {
        if steps.len() == 0 || steps.len() - 1 != ys.len() {
            return Err(
                PltError::InvalidData(
                    String::from_str("there should be one more step than y-value"),
                ),
            );
        }
        if !all_valid(&steps) {
            return Err(
                PltError::InvalidData(String::from_str("step-data has a value out of range")),
            );
        }
        if !all_valid(&ys) {
            return Err(PltError::InvalidData(String::from_str("y-data has a value out of range")));
        }
        let mut desc = self.desc;
        desc.pixel_perfect = true;
        let data = SeriesData::Step(StepData::new(steps, ys));
        self.subplot.plot_desc(desc, data);
        Ok(())
    }

    /// Uses the secondary x-axis for the x-data.
    pub fn use_secondary_xaxis(self) -> (r: Self)
        ensures
            r.desc == (PlotDescriptor { xaxis: AxisType::SecondaryX, ..self.desc }),
            *r.subplot == *old(self.subplot),
            *final(self.subplot) == *final(r.subplot),
    {
        let mut r = self;
        r.desc.xaxis = AxisType::SecondaryX;
        r
    }

    /// Uses the secondary y-axis for the y-data.
    pub fn use_secondary_yaxis(self) -> (r: Self)
        ensures
            r.desc == (PlotDescriptor { yaxis: AxisType::SecondaryY, ..self.desc }),
            *r.subplot == *old(self.subplot),
            *final(self.subplot) == *final(r.subplot),
    {
        let mut r = self;
        r.desc.yaxis = AxisType::SecondaryY;
        r
    }

    /// Labels the data for a legend.
    pub fn label(self, label: &str) -> (r: Self)
        ensures
            r.desc.label@ == label@,
            r.desc == (PlotDescriptor { label: r.desc.label, ..self.desc }),
            *r.subplot == *old(self.subplot),
            *final(self.subplot) == *final(r.subplot),
    {
        let mut r = self;
        r.desc.label = String::from_str(label);
        r
    }

    /// Whether lines join the points, and their style.
    pub fn line(self, line_style: Option<LineStyle>) -> (r: Self)
        ensures
            r.desc == (match line_style {
                Some(style) => PlotDescriptor {
                    line: true,
                    line_format: Line { style, ..self.desc.line_format },
                    ..self.desc
                },
                None => PlotDescriptor { line: false, ..self.desc },
            }),
            *r.subplot == *old(self.subplot),
            *final(self.subplot) == *final(r.subplot),
    {
        let mut r = self;
        if let Some(style) = line_style {
            r.desc.line = true;
            r.desc.line_format.style = style;
        } else {
            r.desc.line = false;
        }
        r
    }

    /// Sets the width of the lines.
    pub fn line_width(self, width: u32) -> (r: Self)
        ensures
            r.desc == (PlotDescriptor { line_format: Line { width, ..self.desc.line_format }, ..self.desc }),
            *r.subplot == *old(self.subplot),
            *final(self.subplot) == *final(r.subplot),
    {
        let mut r = self;
        r.desc.line_format.width = width;
        r
    }

    /// Replaces the line colour from the cycle.
    pub fn line_color(self, color: Color) -> (r: Self)
        ensures
            r.desc == (PlotDescriptor {
                line_format: Line { color_override: Some(color), ..self.desc.line_format },
                ..self.desc
            }),
            *r.subplot == *old(self.subplot),
            *final(self.subplot) == *final(r.subplot),
    {
        let mut r = self;
        r.desc.line_format.color_override = Some(color);
        r
    }

    /// Whether markers are drawn at the points, and their style.
    pub fn marker(self, marker_style: Option<MarkerStyle>) -> (r: Self)
        ensures
            r.desc == (match marker_style {
                Some(style) => PlotDescriptor {
                    marker: true,
                    marker_format: Marker { style, ..self.desc.marker_format },
                    ..self.desc
                },
                None => PlotDescriptor { marker: false, ..self.desc },
            }),
            *r.subplot == *old(self.subplot),
            *final(self.subplot) == *final(r.subplot),
    {
        let mut r = self;
        if let Some(style) = marker_style {
            r.desc.marker = true;
            r.desc.marker_format.style = style;
        } else {
            r.desc.marker = false;
        }
        r
    }

    /// Sets the marker size.
    pub fn marker_size(self, size: u32) -> (r: Self)
        ensures
            r.desc == (PlotDescriptor { marker_format: Marker { size, ..self.desc.marker_format }, ..self.desc }),
            *r.subplot == *old(self.subplot),
            *final(self.subplot) == *final(r.subplot),
    {
        let mut r = self;
        r.desc.marker_format.size = size;
        r
    }

    /// Replaces the marker colour from the cycle.
    pub fn marker_color(self, color: Color) -> (r: Self)
        ensures
            r.desc == (PlotDescriptor {
                marker_format: Marker { color_override: Some(color), ..self.desc.marker_format },
                ..self.desc
            }),
            *r.subplot == *old(self.subplot),
            *final(self.subplot) == *final(r.subplot),
    {
        let mut r = self;
        r.desc.marker_format.color_override = Some(color);
        r
    }

    /// Whether marker outlines are drawn.
    pub fn marker_outline(self, on: bool) -> (r: Self)
        ensures
            r.desc == (PlotDescriptor { marker_format: Marker { outline: on, ..self.desc.marker_format }, ..self.desc }),
            *r.subplot == *old(self.subplot),
            *final(self.subplot) == *final(r.subplot),
    {
        let mut r = self;
        r.desc.marker_format.outline = on;
        r
    }

    /// Replaces the outline colour of markers.
    pub fn marker_outline_color(self, color: Color) -> (r: Self)
        ensures
            r.desc == (PlotDescriptor {
                marker_format: Marker {
                    outline_format: Line {
                        color_override: Some(color),
                        ..self.desc.marker_format.outline_format
                    },
                    ..self.desc.marker_format
                },
                ..self.desc
            }),
            *r.subplot == *old(self.subplot),
            *final(self.subplot) == *final(r.subplot),
    {
        let mut r = self;
        r.desc.marker_format.outline_format.color_override = Some(color);
        r
    }

    /// Sets the width of marker outlines.
    pub fn marker_outline_width(self, width: u32) -> (r: Self)
        ensures
            r.desc == (PlotDescriptor {
                marker_format: Marker {
                    outline_format: Line { width, ..self.desc.marker_format.outline_format },
                    ..self.desc.marker_format
                },
                ..self.desc
            }),
            *r.subplot == *old(self.subplot),
            *final(self.subplot) == *final(r.subplot),
    {
        let mut r = self;
        r.desc.marker_format.outline_format.width = width;
        r
    }

    /// Sets the line style of marker outlines.
    pub fn marker_outline_style(self, line_style: LineStyle) -> (r: Self)
        ensures
            r.desc == (PlotDescriptor {
                marker_format: Marker {
                    outline_format: Line { style: line_style, ..self.desc.marker_format.outline_format },
                    ..self.desc.marker_format
                },
                ..self.desc
            }),
            *r.subplot == *old(self.subplot),
            *final(self.subplot) == *final(r.subplot),
    {
        let mut r = self;
        r.desc.marker_format.outline_format.style = line_style;
        r
    }
}

impl<'b> Filler<'b> {
    /// Fills the region between `(xs, y1s)` and `(xs, y2s)`. Refused,
    /// leaving the subplot as it was, where the lengths differ or a value
    /// is out of range.
    pub fn fill_between(self, xs: Vec<i64>, y1s: Vec<i64>, y2s: Vec<i64>) -> (r: Result<(), PltError>)
        requires
            self.subplot.wf(),
        ensures
            r is Err <==> (xs@.len() != y1s@.len() || xs@.len() != y2s@.len() || !all_in_range(xs@)
                || !all_in_range(y1s@) || !all_in_range(y2s@)),
            r is Err ==> r->Err_0 is InvalidData && *final(self.subplot) == *old(self.subplot),
            r is Ok ==> final(self.subplot).wf(),
            r is Ok ==> forall|u: AxisType| #[trigger] final(self.subplot).axis(u) == axis_after_plot(
                old(self.subplot).axis(u),
                u,
                self.desc.xaxis,
                bounds_of(xs@),
                self.desc.yaxis,
                join(bounds_of(y1s@), bounds_of(y2s@)),
            ),
            r is Ok ==> final(self.subplot).fill_infos@ == old(self.subplot).fill_infos@.push(
                FillInfo {
                    label: self.desc.label,
                    data: FillBetweenData { xs, y1s, y2s },
                    color_override: self.desc.color_override,
                    xaxis: self.desc.xaxis,
                    yaxis: self.desc.yaxis,
                },
            ),
            r is Ok ==> final(self.subplot).plot_infos == old(self.subplot).plot_infos
                && final(self.subplot).format == old(self.subplot).format
                && final(self.subplot).title == old(self.subplot).title,
            r is Ok ==> final(self.subplot).plot_order@ == old(self.subplot).plot_order@.push(
                PlotType::Fill,
            ),
    {
        if xs.len() != y1s.len() || xs.len() != y2s.len() {
            return Err(
                PltError::InvalidData(
                    String::from_str("x-data and both y-data should have the same length"),
                ),
            );
        }
        if !all_valid(&xs) || !all_valid(&y1s) || !all_valid(&y2s) {
            return Err(PltError::InvalidData(String::from_str("data has a value out of range")));
        }
        let data = FillBetweenData::new(xs, y1s, y2s);
        self.subplot.fill_between_desc(self.desc, data);
        Ok(())
    }

    /// Uses the secondary y-axis for the y-data.
    pub fn use_secondary_yaxis(self) -> (r: Self)
        ensures
            r.desc == (FillDescriptor { yaxis: AxisType::SecondaryY, ..self.desc }),
            *r.subplot == *old(self.subplot),
            *final(self.subplot) == *final(r.subplot),
    {
        let mut r = self;
        r.desc.yaxis = AxisType::SecondaryY;
        r
    }

    /// Labels the region for a legend.
    pub fn label(self, label: &str) -> (r: Self)
        ensures
            r.desc.label@ == label@,
            r.desc == (FillDescriptor { label: r.desc.label, ..self.desc }),
            *r.subplot == *old(self.subplot),
            *final(self.subplot) == *final(r.subplot),
    {
        let mut r = self;
        r.desc.label = String::from_str(label);
        r
    }

    /// Replaces the fill colour from the cycle.
    pub fn color(self, color: Color) -> (r: Self)
        ensures
            r.desc == (FillDescriptor { color_override: Some(color), ..self.desc }),
            *r.subplot == *old(self.subplot),
            *final(self.subplot) == *final(r.subplot),
    {
        let mut r = self;
        r.desc.color_override = Some(color);
        r
    }
}

/// Plotting more data never shrinks a span: on an axis with automatic
/// limits, after data with bounds `a` and then data with bounds `b` are
/// plotted, the span holds the span before, `a` and `b`.
pub proof fn lemma_span_holds_all_plotted(axis: AxisDescriptor, a: Option<(i64, i64)>, b: Option<(i64, i64)>)
    requires
        axis.limit_policy == Limits::Auto,
        bounds_wf(a),
        bounds_wf(b),
        bounds_wf(axis.span),
    ensures
        covers(axis.after_data(a).after_data(b).span, axis.span),
        covers(axis.after_data(a).after_data(b).span, a),
        covers(axis.after_data(a).after_data(b).span, b),
{
}

fn range_ok(r: Option<(i64, i64)>) -> (b: bool)
    ensures
        b == range_wf(r),
{
    match r {
        None => true,
        Some((lo, hi)) => -MAX_VALUE <= lo && lo <= MAX_VALUE && -MAX_VALUE <= hi && hi <= MAX_VALUE,
    }
}

fn limits_ok(r: Option<(i64, i64)>) -> (b: bool)
    ensures
        b == limits_wf(r),
{
    match r {
        None => true,
        Some((lo, hi)) => -2 * MAX_VALUE <= lo && lo <= 2 * MAX_VALUE && -2 * MAX_VALUE <= hi && hi <= 2
            * MAX_VALUE,
    }
}

impl AxisDescriptor {
    /// Whether the axis is well formed.
    pub fn is_wf(&self) -> (r: bool)
        ensures
            r == self.wf(),
    {
        range_ok(self.span) && limits_ok(self.limits)
    }
}

impl Subplot {
    /// Whether the subplot is well formed: axes and data in range, and
    /// one entry of the plotting order for each series and each fill.
    pub fn is_wf(&self) -> (r: bool)
        ensures
            r == self.wf(),
    {
        if !(self.xaxis.is_wf() && self.yaxis.is_wf() && self.secondary_xaxis.is_wf()
            && self.secondary_yaxis.is_wf()) {
            return false;
        }
        let mut i: usize = 0;
        while i < self.plot_infos.len()
            invariant
                i <= self.plot_infos@.len(),
                forall|j: int| 0 <= j < i ==> (#[trigger] self.plot_infos@[j]).data.in_range(),
            decreases self.plot_infos@.len() - i,
        {
            let ok = match &self.plot_infos[i].data {
                SeriesData::Plot(d) => all_valid(&d.xs) && all_valid(&d.ys),
                SeriesData::Step(d) => all_valid(&d.edges) && all_valid(&d.ys),
            };
            if !ok {
                return false;
            }
            i = i + 1;
        }
        let mut k: usize = 0;
        while k < self.fill_infos.len()
            invariant
                k <= self.fill_infos@.len(),
                forall|j: int| 0 <= j < k ==> fill_in_range(#[trigger] self.fill_infos@[j].data),
            decreases self.fill_infos@.len() - k,
        {
            let d = &self.fill_infos[k].data;
            if !(all_valid(&d.xs) && all_valid(&d.y1s) && all_valid(&d.y2s)) {
                return false;
            }
            k = k + 1;
        }
        let mut series: usize = 0;
        let mut fills: usize = 0;
        let mut m: usize = 0;
        while m < self.plot_order.len()
            invariant
                m <= self.plot_order@.len(),
                series == count_kind(self.plot_order@.subrange(0, m as int), PlotType::Series),
                fills == count_kind(self.plot_order@.subrange(0, m as int), PlotType::Fill),
                series + fills == m,
            decreases self.plot_order@.len() - m,
        {
            proof {
                assert(self.plot_order@.subrange(0, m + 1) == self.plot_order@.subrange(0, m as int).push(
                    self.plot_order@[m as int],
                ));
                lemma_count_push(self.plot_order@.subrange(0, m as int), self.plot_order@[m as int], PlotType::Series);
                lemma_count_push(self.plot_order@.subrange(0, m as int), self.plot_order@[m as int], PlotType::Fill);
            }
            match self.plot_order[m] {
                PlotType::Series => series = series + 1,
                PlotType::Fill => fills = fills + 1,
            }
            m = m + 1;
        }
        proof {
            assert(self.plot_order@.subrange(0, self.plot_order@.len() as int) == self.plot_order@);
        }
        series == self.plot_infos.len() && fills == self.fill_infos.len()
    }
}

} // verus!
