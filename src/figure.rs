//! Drawing a subplot: the nested layout of its margins, and the commands
//! for the background, grid, data, axes, ticks, labels and title, in the
//! order in which a canvas draws them.

use crate::axis::{finalize_axis, resolve_fails, AxisFinalized};
use crate::draw::{
    Alignment, Area, Color, CurveDescriptor, DrawCommand, FillDescriptor, Font, FontSlant,
    FontWeight, Line as DrawLine, LineDescriptor, Point, Shape, ShapeDescriptor, Size,
    TextDescriptor,
};
use crate::error::PltError;
use crate::layout::{all_wf, FractionalArea};
use crate::space::{
    allocate, buffers_of, regions, regions_of, AxisNeeds, Buffers, Metrics, PerAxis, Regions,
};
use crate::subplot::{
    count_kind, AxisType, FillInfo, Line, LineStyle, MarkerStyle, PlotInfo, PlotType, Subplot,
    TickDirection,
};
use crate::text::{format_plain, superscript};
use crate::transform::{data_point, to_point};
use vstd::prelude::*;
use vstd::string::*;

verus! {

/// The colour for the `k`-th draw from a cycle: the cycle round and round,
/// or `default` where the cycle is empty.
pub open spec fn cycle_color(cycle: Seq<Color>, default: Color, k: int) -> Color {
    if cycle.len() == 0 {
        default
    } else {
        cycle[k % (cycle.len() as int)]
    }
}

pub fn next_color(cycle: &Vec<Color>, default: Color, k: usize) -> (r: Color)
    ensures
        r == cycle_color(cycle@, default, k as int),
{
    if cycle.len() == 0 {
        default
    } else {
        cycle[k % cycle.len()]
    }
}

/// The colours that fills cycle through: those of `cycle` at half
/// opacity.
pub fn fill_cycle(cycle: &Vec<Color>) -> (r: Vec<Color>)
    ensures
        r@.len() == cycle@.len(),
        forall|i: int| 0 <= i < cycle@.len() ==> #[trigger] r@[i] == (Color { a: 500, ..cycle@[i] }),
{
    let mut r: Vec<Color> = Vec::new();
    let mut i: usize = 0;
    while i < cycle.len()
        invariant
            i <= cycle@.len(),
            r@.len() == i,
            forall|j: int| 0 <= j < i ==> #[trigger] r@[j] == (Color { a: 500, ..cycle@[j] }),
        decreases cycle@.len() - i,
    {
        let c = cycle[i];
        r.push(Color { a: 500, ..c });
        i = i + 1;
    }
    r
}

/// A width or length multiplied by the rounded scaling, at most `u32::MAX`.
pub open spec fn scaled(v: int, s: int) -> int {
    if v * s > u32::MAX {
        u32::MAX as int
    } else {
        v * s
    }
}

pub fn scale_width(v: u32, s: u32) -> (r: u32)
    ensures
        r == scaled(v as int, s as int),
{
    proof {
        assert((v as u64) * (s as u64) <= 4_294_967_295u64 * 4_294_967_295u64) by (nonlinear_arith)
            requires v <= 4_294_967_295u64, s <= 4_294_967_295u64;
    }
    let p = v as u64 * s as u64;
    if p > u32::MAX as u64 {
        u32::MAX
    } else {
        p as u32
    }
}

/// Dash lengths of a line style, in millionths of a dot, for a scaling of
/// `scaling` millionths.
pub fn dashes(style: LineStyle, scaling: i64) -> (r: Vec<i64>)
    requires
        0 <= scaling <= 1_000_000_000,
    ensures
        style == LineStyle::Solid ==> r@.len() == 0,
        style == LineStyle::Dashed ==> r@.len() == 4 && forall|i: int| 0 <= i < 4 ==> r@[i] == 10 * scaling,
        style == LineStyle::ShortDashed ==> r@.len() == 4 && forall|i: int| 0 <= i < 4 ==> r@[i] == 4 * scaling,
{
    match style {
        LineStyle::Solid => Vec::new(),
        LineStyle::Dashed => vec![10 * scaling, 10 * scaling, 10 * scaling, 10 * scaling],
        LineStyle::ShortDashed => vec![4 * scaling, 4 * scaling, 4 * scaling, 4 * scaling],
    }
}

/// The device points of a series' data.
pub fn series_points(info: &PlotInfo, xlim: (i64, i64), ylim: (i64, i64), plot: &Area) -> (r: Vec<Point>)
    requires
        plot.wf(),
    ensures
        r@.len() == info.data.points().len(),
        forall|i: int| 0 <= i < r@.len() ==> #[trigger] r@[i] == data_point(
            *plot,
            xlim,
            ylim,
            info.data.points()[i].0,
            info.data.points()[i].1,
            info.pixel_perfect,
        ),
{
    let data = info.data.data();
    let mut r: Vec<Point> = Vec::new();
    let mut i: usize = 0;
    while i < data.len()
        invariant
            plot.wf(),
            data@ == info.data.points(),
            i <= data@.len(),
            r@.len() == i,
            forall|j: int| 0 <= j < i ==> #[trigger] r@[j] == data_point(
                *plot,
                xlim,
                ylim,
                data@[j].0,
                data@[j].1,
                info.pixel_perfect,
            ),
        decreases data@.len() - i,
    {
        let (x, y) = data[i];
        r.push(to_point(plot, xlim, ylim, x, y, info.pixel_perfect));
        i = i + 1;
    }
    r
}

/// The device points of the closed outline of a fill: along the first
/// curve, then back along the second.
pub fn fill_points(info: &FillInfo, xlim: (i64, i64), ylim: (i64, i64), plot: &Area) -> (r: Vec<Point>)
    requires
        plot.wf(),
    ensures
        r@.len() == info.data.outline().len(),
        forall|i: int| 0 <= i < r@.len() ==> #[trigger] r@[i] == data_point(
            *plot,
            xlim,
            ylim,
            info.data.outline()[i].0,
            info.data.outline()[i].1,
            false,
        ),
{
    let data = info.data.outline_points();
    let mut r: Vec<Point> = Vec::new();
    let mut i: usize = 0;
    while i < data.len()
        invariant
            plot.wf(),
            data@ == info.data.outline(),
            i <= data@.len(),
            r@.len() == i,
            forall|j: int| 0 <= j < i ==> #[trigger] r@[j] == data_point(
                *plot,
                xlim,
                ylim,
                data@[j].0,
                data@[j].1,
                false,
            ),
        decreases data@.len() - i,
    {
        let (x, y) = data[i];
        r.push(to_point(plot, xlim, ylim, x, y, false));
        i = i + 1;
    }
    r
}

/// The kind of a drawing command.
#[derive(Copy, Clone, Debug, PartialEq, Eq, Structural)]
pub enum Primitive {
    Shape,
    Line,
    Curve,
    Fill,
    Text,
}

pub open spec fn primitive(c: DrawCommand) -> Primitive {
    match c {
        DrawCommand::Shape(_) => Primitive::Shape,
        DrawCommand::Line(_) => Primitive::Line,
        DrawCommand::Curve(_) => Primitive::Curve,
        DrawCommand::Fill(_) => Primitive::Fill,
        DrawCommand::Text(_) => Primitive::Text,
    }
}

/// The kinds of the commands `cmds` appended after the first `from`.
pub open spec fn kinds_after(cmds: Seq<DrawCommand>, from: int) -> Seq<Primitive> {
    cmds.subrange(from, cmds.len() as int).map_values(|c: DrawCommand| primitive(c))
}

/// What a series draws: a curve where it has a line, then a marker shape
/// at each point where it has markers.
pub open spec fn series_kinds(info: PlotInfo) -> Seq<Primitive> {
    (if info.line is Some {
        seq![Primitive::Curve]
    } else {
        Seq::<Primitive>::empty()
    }) + (if info.marker is Some {
        Seq::new(info.data.points().len(), |i: int| Primitive::Shape)
    } else {
        Seq::<Primitive>::empty()
    })
}

/// What the `k`-th plotted item of `s` draws: a series, or a fill.
pub open spec fn item_kinds(s: Subplot, k: int) -> Seq<Primitive> {
    match s.plot_order@[k] {
        PlotType::Series => series_kinds(
            s.plot_infos@[count_kind(s.plot_order@.subrange(0, k), PlotType::Series) as int],
        ),
        PlotType::Fill => seq![Primitive::Fill],
    }
}

/// What the first `k` plotted items of `s` draw, in the order plotted.
pub open spec fn data_kinds(s: Subplot, k: int) -> Seq<Primitive>
    decreases k,
{
    if k <= 0 {
        Seq::empty()
    } else {
        data_kinds(s, k - 1) + item_kinds(s, k - 1)
    }
}

/// The device points of a series' data plotted against `xlim` and `ylim`
/// in `plot`.
pub open spec fn mapped_series(info: PlotInfo, xlim: (i64, i64), ylim: (i64, i64), plot: Area) -> Seq<Point> {
    Seq::new(
        info.data.points().len(),
        |i: int|
            data_point(plot, xlim, ylim, info.data.points()[i].0, info.data.points()[i].1, info.pixel_perfect),
    )
}

/// The device points of a fill's outline plotted against `xlim` and
/// `ylim` in `plot`.
pub open spec fn mapped_fill(info: FillInfo, xlim: (i64, i64), ylim: (i64, i64), plot: Area) -> Seq<Point> {
    Seq::new(
        info.data.outline().len(),
        |i: int| data_point(plot, xlim, ylim, info.data.outline()[i].0, info.data.outline()[i].1, false),
    )
}

/// One where a series has a line, else zero.
pub open spec fn line_count(info: PlotInfo) -> int {
    if info.line is Some {
        1
    } else {
        0
    }
}

/// `seg` draws a series: a curve through its points where it has a line,
/// then a marker at each point where it has markers, all clipped to the
/// plot area.
pub open spec fn series_drawn(seg: Seq<DrawCommand>, info: PlotInfo, xlim: (i64, i64), ylim: (i64, i64), plot: Area) -> bool {
    let pts = mapped_series(info, xlim, ylim, plot);
    let nl = line_count(info);
    &&& seg.len() == nl + (if info.marker is Some { pts.len() as int } else { 0 })
    &&& info.line is Some ==> (seg[0] matches DrawCommand::Curve(d) && d.points@ == pts && d.clip_area == Some(plot))
    &&& info.marker is Some ==> forall|i: int|
        0 <= i < pts.len() ==> (#[trigger] seg[nl + i] matches DrawCommand::Shape(d) && d.point == pts[i]
            && d.clip_area == Some(plot))
}

/// `seg` fills the outline of a fill, clipped to the plot area.
pub open spec fn fill_drawn(seg: Seq<DrawCommand>, info: FillInfo, xlim: (i64, i64), ylim: (i64, i64), plot: Area) -> bool {
    seg.len() == 1 && (seg[0] matches DrawCommand::Fill(d) && d.points@ == mapped_fill(info, xlim, ylim, plot)
        && d.clip_area == Some(plot))
}

/// The settings of a drawing pass that do not change from one primitive
/// to the next.
#[derive(Copy, Clone, Debug, PartialEq, Eq, Structural)]
pub struct Style {
    /// Scaling of sizes, in millionths.
    pub scaling: i64,
    /// The scaling rounded to a whole number.
    pub whole_scaling: u32,
    pub line_width: u32,
    pub line_color: Color,
    pub grid_color: Color,
    pub font: Font,
    pub text_color: Color,
    pub inner_major: u32,
    pub outer_major: u32,
    pub inner_minor: u32,
    pub outer_minor: u32,
}

/// The commands that draw one series: its line, then a marker at each
/// point. `k` counts the colours taken from the cycle so far.
pub fn series_commands(
    info: &PlotInfo,
    xlim: (i64, i64),
    ylim: (i64, i64),
    plot: &Area,
    style: &Style,
    cycle: &Vec<Color>,
    default: Color,
    k: &mut usize,
    out: &mut Vec<DrawCommand>,
)
    requires
        plot.wf(),
        0 <= style.scaling <= 1_000_000_000,
        *old(k) < usize::MAX - 2,
    ensures
        *final(k) == *old(k) + (if info.line is Some && info.line->Some_0.color_override is None { 1int } else { 0 })
            + (if info.marker is Some && info.marker->Some_0.color_override is None { 1int } else { 0 }),
        final(out)@.len() == old(out)@.len() + (if info.line is Some { 1int } else { 0 }) + (if info.marker is Some {
            info.data.points().len() as int
        } else {
            0
        }),
        forall|i: int| 0 <= i < old(out)@.len() ==> final(out)@[i] == old(out)@[i],
        kinds_after(final(out)@, old(out)@.len() as int) == series_kinds(*info),
        series_drawn(final(out)@.subrange(old(out)@.len() as int, final(out)@.len() as int), *info, xlim, ylim, *plot),
{
    let ghost orig = out@;
    let points = series_points(info, xlim, ylim, plot);
    proof {
        assert(points@ =~= mapped_series(*info, xlim, ylim, *plot));
    }
    let ghost n_line: int = line_count(*info);
    if let Some(line) = info.line {
        let color = match line.color_override {
            Some(c) => c,
            None => {
                let c = next_color(cycle, default, *k);
                *k = *k + 1;
                c
            },
        };
        let curve_points = series_points(info, xlim, ylim, plot);
        proof {
            assert(curve_points@ =~= mapped_series(*info, xlim, ylim, *plot));
        }
        out.push(
            DrawCommand::Curve(
                CurveDescriptor {
                    points: curve_points,
                    line_width: scale_width(line.width, style.whole_scaling),
                    line_color: color,
                    dashes: dashes(line.style, style.scaling),
                    clip_area: Some(*plot),
                },
            ),
        );
    }
    let ghost mid = out@;
    proof {
        assert(mid.len() == orig.len() + n_line);
        assert(info.line is Some ==> primitive(mid[orig.len() as int]) == Primitive::Curve);
        assert(info.line is Some ==> (mid[orig.len() as int] matches DrawCommand::Curve(d) && d.points@ == mapped_series(
            *info,
            xlim,
            ylim,
            *plot,
        ) && d.clip_area == Some(*plot)));
    }
    if let Some(marker) = info.marker {
        let mut shape = match marker.style {
            MarkerStyle::Circle => Shape::Circle { r: marker.size },
            MarkerStyle::Square => Shape::Square { l: marker.size },
        };
        shape = match shape {
            Shape::Circle { r } => Shape::Circle { r: scale_width(r, style.whole_scaling) },
            Shape::Square { l } => Shape::Square { l: scale_width(l, style.whole_scaling) },
            Shape::Rectangle { h, w } => Shape::Rectangle { h, w },
        };
        let fill_color = match marker.color_override {
            Some(c) => c,
            None => {
                let c = next_color(cycle, default, *k);
                *k = *k + 1;
                c
            },
        };
        let outline = if marker.outline {
            marker.outline_format
        } else {
            Line { style: LineStyle::Solid, width: 3, color_override: Some(Color::transparent()) }
        };
        let outline_color = match outline.color_override {
            Some(c) => c,
            None => fill_color,
        };
        let ghost start = out@;
        assert(start == mid);
        let mut i: usize = 0;
        while i < points.len()
            invariant
                i <= points@.len(),
                out@.len() == start.len() + i,
                forall|j: int| 0 <= j < start.len() ==> out@[j] == start[j],
                forall|j: int| 0 <= j < orig.len() ==> start[j] == orig[j],
                start.len() >= orig.len(),
                forall|j: int| start.len() <= j < out@.len() ==> primitive(#[trigger] out@[j]) == Primitive::Shape,
                forall|j: int|
                    0 <= j < i ==> (#[trigger] out@[start.len() + j] matches DrawCommand::Shape(d) && d.point == points@[j]
                        && d.clip_area == Some(*plot)),
                0 <= style.scaling <= 1_000_000_000,
            decreases points@.len() - i,
        {
            out.push(
                DrawCommand::Shape(
                    ShapeDescriptor {
                        point: points[i],
                        shape,
                        fill_color,
                        line_color: outline_color,
                        line_width: scale_width(outline.width, style.whole_scaling),
                        line_dashes: dashes(outline.style, style.scaling),
                        clip_area: Some(*plot),
                    },
                ),
            );
            i = i + 1;
        }
    }
    proof {
        let k = kinds_after(out@, orig.len() as int);
        let want = series_kinds(*info);
        assert(forall|j: int| 0 <= j < mid.len() ==> out@[j] == mid[j]);
        assert(k.len() == want.len());
        assert forall|j: int| 0 <= j < k.len() implies k[j] == want[j] by {
            if j < n_line {
                assert(out@[orig.len() + j] == mid[orig.len() + j]);
            } else {
                assert(primitive(out@[orig.len() + j]) == Primitive::Shape);
            }
        }
        assert(k =~= want);
        let seg = out@.subrange(orig.len() as int, out@.len() as int);
        if info.line is Some {
            assert(seg[0] == mid[orig.len() as int]);
        }
        if info.marker is Some {
            assert forall|i: int| 0 <= i < points@.len() implies (#[trigger] seg[n_line + i] matches DrawCommand::Shape(d)
                && d.point == points@[i] && d.clip_area == Some(*plot)) by {
                assert(seg[n_line + i] == out@[mid.len() + i]);
            }
        }
        assert(series_drawn(seg, *info, xlim, ylim, *plot));
    }
}

/// The whole-dot coordinate, across the axis in slot `t`, of tick `tick`
/// on that axis: a height for a y-axis, a width for an x-axis.
pub open spec fn tick_coordinate(t: AxisType, limits: (i64, i64), plot: Area, tick: i64) -> int {
    let p = data_point(plot, limits, limits, tick, tick, true);
    match t {
        AxisType::Y | AxisType::SecondaryY => p.y as int,
        _ => p.x as int,
    }
}

pub fn tick_coordinate_exec(t: AxisType, limits: (i64, i64), plot: &Area, tick: i64) -> (r: i64)
    requires
        plot.wf(),
    ensures
        r == tick_coordinate(t, limits, *plot, tick),
{
    let p = to_point(plot, limits, limits, tick, tick, true);
    match t {
        AxisType::Y | AxisType::SecondaryY => p.y,
        _ => p.x,
    }
}

/// A line across the plot area at tick `c` of the axis in slot `t`.
pub open spec fn grid_line(t: AxisType, plot: Area, c: int) -> DrawLine {
    match t {
        AxisType::Y | AxisType::SecondaryY => DrawLine {
            p1: Point { x: (plot.xmin * 1_000_000) as i64, y: c as i64 },
            p2: Point { x: (plot.xmax * 1_000_000) as i64, y: c as i64 },
        },
        _ => DrawLine {
            p1: Point { x: c as i64, y: (plot.ymin * 1_000_000) as i64 },
            p2: Point { x: c as i64, y: (plot.ymax * 1_000_000) as i64 },
        },
    }
}

fn grid_line_exec(t: AxisType, plot: &Area, c: i64) -> (r: DrawLine)
    ensures
        r == grid_line(t, *plot, c as int),
{
    match t {
        AxisType::Y | AxisType::SecondaryY => DrawLine {
            p1: Point { x: plot.xmin as i64 * 1_000_000, y: c },
            p2: Point { x: plot.xmax as i64 * 1_000_000, y: c },
        },
        _ => DrawLine {
            p1: Point { x: c, y: plot.ymin as i64 * 1_000_000 },
            p2: Point { x: c, y: plot.ymax as i64 * 1_000_000 },
        },
    }
}

/// `seg` draws grid lines at `ticks` of the axis in slot `t` where `on`,
/// and nothing otherwise.
pub open spec fn grid_drawn(seg: Seq<DrawCommand>, t: AxisType, ticks: Seq<i64>, on: bool, limits: (i64, i64), plot: Area) -> bool {
    &&& seg.len() == (if on { ticks.len() as int } else { 0 })
    &&& forall|i: int|
        0 <= i < seg.len() ==> (#[trigger] seg[i] matches DrawCommand::Line(d) && d.line == grid_line(
            t,
            plot,
            tick_coordinate(t, limits, plot, ticks[i]),
        ))
}

/// Grid lines at `ticks` of the axis in slot `t`, where `on`.
pub fn grid_commands(
    t: AxisType,
    ticks: &Vec<i64>,
    on: bool,
    limits: (i64, i64),
    plot: &Area,
    style: &Style,
    out: &mut Vec<DrawCommand>,
)
    requires
        plot.wf(),
    ensures
        final(out)@.len() == old(out)@.len() + if on { ticks@.len() as int } else { 0 },
        forall|i: int| 0 <= i < old(out)@.len() ==> final(out)@[i] == old(out)@[i],
        forall|i: int| old(out)@.len() <= i < final(out)@.len() ==> primitive(#[trigger] final(out)@[i]) == Primitive::Line,
        on ==> forall|i: int|
            0 <= i < ticks@.len() ==> match #[trigger] final(out)@[old(out)@.len() + i] {
                DrawCommand::Line(d) => d.line == grid_line(t, *plot, tick_coordinate(t, limits, *plot, ticks@[i]))
                    && d.line_color == style.grid_color && d.line_width == style.line_width,
                _ => false,
            },
        grid_drawn(final(out)@.subrange(old(out)@.len() as int, final(out)@.len() as int), t, ticks@, on, limits, *plot),
{
    if !on {
        return;
    }
    let ghost start = out@;
    let mut i: usize = 0;
    while i < ticks.len()
        invariant
            plot.wf(),
            i <= ticks@.len(),
            out@.len() == start.len() + i,
            forall|j: int| 0 <= j < start.len() ==> out@[j] == start[j],
            forall|j: int| start.len() <= j < out@.len() ==> primitive(#[trigger] out@[j]) == Primitive::Line,
            forall|j: int|
                0 <= j < i ==> match #[trigger] out@[start.len() + j] {
                    DrawCommand::Line(d) => d.line == grid_line(t, *plot, tick_coordinate(t, limits, *plot, ticks@[j]))
                        && d.line_color == style.grid_color && d.line_width == style.line_width,
                    _ => false,
                },
        decreases ticks@.len() - i,
    {
        let c = tick_coordinate_exec(t, limits, plot, ticks[i]);
        let line = grid_line_exec(t, plot, c);
        out.push(
            DrawCommand::Line(
                LineDescriptor {
                    line,
                    line_width: style.line_width,
                    line_color: style.grid_color,
                    dashes: Vec::new(),
                    clip_area: None,
                },
            ),
        );
        i = i + 1;
    }
    proof {
        let seg = out@.subrange(start.len() as int, out@.len() as int);
        assert forall|k: int| 0 <= k < seg.len() implies (#[trigger] seg[k] matches DrawCommand::Line(d) && d.line
            == grid_line(t, *plot, tick_coordinate(t, limits, *plot, ticks@[k]))) by {
            assert(seg[k] == out@[start.len() + k]);
        }
    }
}

/// The text beside the labels that shows their exponent and offset:
/// `x10³ + 2.5`, `x10³`, `+ 2.5`, or nothing.
pub open spec fn modifier_text(exponent: int, offset: int) -> Seq<char> {
    let power = if exponent < 0 {
        seq!['x', '1', '0', '⁻'] + crate::text::superscript_digits((-exponent) as nat)
    } else {
        seq!['x', '1', '0'] + crate::text::superscript_digits(exponent as nat)
    };
    if exponent != 0 && offset != 0 {
        power + seq![' ', '+', ' '] + crate::text::plain_text(offset)
    } else if exponent != 0 {
        power
    } else if offset != 0 {
        seq!['+', ' '] + crate::text::plain_text(offset)
    } else {
        Seq::<char>::empty()
    }
}

pub fn modifier_string(exponent: i32, offset: i64) -> (r: String)
    requires
        -65535 <= exponent <= 65535,
    ensures
        r@ == modifier_text(exponent as int, offset as int),
{
    let mut power = String::from_str("x10");
    proof {
        reveal_strlit("x10");
        reveal_strlit("⁻");
        reveal_strlit(" + ");
        reveal_strlit("+ ");
    }
    if exponent < 0 {
        power.append("⁻");
        let digits = superscript((-exponent) as u16);
        power.append(digits.as_str());
    } else {
        let digits = superscript(exponent as u16);
        power.append(digits.as_str());
    }
    if exponent != 0 && offset != 0 {
        power.append(" + ");
        let o = format_plain(offset);
        power.append(o.as_str());
        power
    } else if exponent != 0 {
        power
    } else if offset != 0 {
        let mut r = String::from_str("+ ");
        let o = format_plain(offset);
        r.append(o.as_str());
        r
    } else {
        String::new()
    }
}

/// What the resolved axis `f` puts beside the plot area.
pub open spec fn needs_of(f: AxisFinalized) -> AxisNeeds {
    AxisNeeds {
        major_ticks: f.major_tick_locs@.len() > 0,
        minor_ticks: f.minor_tick_locs@.len() > 0,
        tick_labels: f.major_tick_labels@.len() > 0 || f.minor_tick_labels@.len() > 0,
        modifier: f.label_multiplier != 0 || f.label_offset != 0,
        label: f.label@.len() > 0,
    }
}

fn needs(f: &AxisFinalized) -> (r: AxisNeeds)
    ensures
        r == needs_of(*f),
{
    AxisNeeds {
        major_ticks: f.major_tick_locs.len() > 0,
        minor_ticks: f.minor_tick_locs.len() > 0,
        tick_labels: f.major_tick_labels.len() > 0 || f.minor_tick_labels.len() > 0,
        modifier: f.label_multiplier != 0 || f.label_offset != 0,
        label: !f.label.as_str().is_empty(),
    }
}

/// The style of a drawing pass over `s` at a scaling of `scaling`
/// millionths: widths and tick lengths times the rounded scaling, the
/// font size times the scaling.
pub open spec fn style_of(s: Subplot, scaling: i64) -> Style {
    let whole = (scaling + 500_000) / 1_000_000;
    let major = scaled(s.format.tick_length as int, whole);
    let minor = match s.format.override_minor_tick_length {
        Some(l) => scaled(l as int, whole),
        None => major / 2,
    };
    let inner = s.format.tick_direction != TickDirection::Outer;
    let outer = s.format.tick_direction != TickDirection::Inner;
    Style {
        scaling,
        whole_scaling: whole as u32,
        line_width: scaled(s.format.line_width as int, whole) as u32,
        line_color: s.format.line_color,
        grid_color: s.format.grid_color,
        font: Font {
            name: s.format.font_name,
            size: font_size(s.format.font_size as int, scaling as int) as i64,
            slant: FontSlant::Normal,
            weight: FontWeight::Normal,
        },
        text_color: s.format.text_color,
        inner_major: (if inner { major } else { 0 }) as u32,
        outer_major: (if outer { major } else { 0 }) as u32,
        inner_minor: (if inner { minor } else { 0 }) as u32,
        outer_minor: (if outer { minor } else { 0 }) as u32,
    }
}

/// A font size of `size` millionths of a point at a scaling of `scaling`
/// millionths; negative sizes count as zero, and the result stops at the
/// largest `i64`.
pub open spec fn font_size(size: int, scaling: int) -> int {
    let s = if size < 0 { 0 } else { size };
    let f = s * scaling / 1_000_000;
    if f > i64::MAX { i64::MAX as int } else { f }
}

/// A scaling that a figure may have: up to a thousand.
pub open spec fn scaling_ok(scaling: i64) -> bool {
    0 <= scaling <= 1_000_000_000
}

pub fn style(s: &Subplot, scaling: i64) -> (r: Style)
    requires
        scaling_ok(scaling),
    ensures
        r == style_of(*s, scaling),
{
    let whole = ((scaling + 500_000) / 1_000_000) as u32;
    let major = scale_width(s.format.tick_length, whole);
    let minor = match s.format.override_minor_tick_length {
        Some(l) => scale_width(l, whole),
        None => major / 2,
    };
    let inner = s.format.tick_direction != TickDirection::Outer;
    let outer = s.format.tick_direction != TickDirection::Inner;
    let fs: i128 = if s.format.font_size < 0 { 0 } else { s.format.font_size as i128 };
    proof {
        assert(fs * scaling <= 9_223_372_036_854_775_807 * 1_000_000_000) by (nonlinear_arith)
            requires 0 <= fs <= 9_223_372_036_854_775_807, 0 <= scaling <= 1_000_000_000;
        assert(fs * scaling >= 0) by (nonlinear_arith)
            requires 0 <= fs, 0 <= scaling;
    }
    let f: i128 = fs * scaling as i128 / 1_000_000;
    let size: i64 = if f > i64::MAX as i128 { i64::MAX } else { f as i64 };
    Style {
        scaling,
        whole_scaling: whole,
        line_width: scale_width(s.format.line_width, whole),
        line_color: s.format.line_color,
        grid_color: s.format.grid_color,
        font: Font {
            name: s.format.font_name,
            size,
            slant: FontSlant::Normal,
            weight: FontWeight::Normal,
        },
        text_color: s.format.text_color,
        inner_major: if inner { major } else { 0 },
        outer_major: if outer { major } else { 0 },
        inner_minor: if inner { minor } else { 0 },
        outer_minor: if outer { minor } else { 0 },
    }
}

/// The layout of a subplot: its resolved axes, in slot order `X`, `Y`,
/// `SecondaryX`, `SecondaryY`, the margins of each side and the nested
/// areas down to the plot area.
pub struct SubplotLayout {
    pub axes: Vec<AxisFinalized>,
    pub buffers: Buffers,
    pub regions: Regions,
}

pub open spec fn slot(i: int) -> AxisType {
    if i == 0 {
        AxisType::X
    } else if i == 1 {
        AxisType::Y
    } else if i == 2 {
        AxisType::SecondaryX
    } else {
        AxisType::SecondaryY
    }
}

/// Resolving some axis of `s` fails.
pub open spec fn layout_fails(s: Subplot) -> bool {
    resolve_fails(s, AxisType::X) || resolve_fails(s, AxisType::Y) || resolve_fails(
        s,
        AxisType::SecondaryX,
    ) || resolve_fails(s, AxisType::SecondaryY)
}

/// The metrics of a pass with letter size `letter` and style `st`.
pub open spec fn metrics_of(letter: Size, st: Style) -> Metrics {
    Metrics {
        letter_width: letter.width,
        letter_height: letter.height,
        outer_major: st.outer_major,
        outer_minor: st.outer_minor,
    }
}

/// `l` lays out `s` in `area`: its axes are the four slots of `s`
/// resolved, its margins are those that they and the title need, and its
/// areas are carved from `area` by those margins.
pub open spec fn layout_ok(l: SubplotLayout, s: Subplot, area: Area, st: Style, letter: Size) -> bool {
    &&& l.axes@.len() == 4
    &&& forall|i: int| 0 <= i < 4 ==> (#[trigger] l.axes@[i]).resolves(s, slot(i))
    &&& l.buffers == buffers_of(
        PerAxis {
            x: needs_of(l.axes@[0]),
            y: needs_of(l.axes@[1]),
            secondary_x: needs_of(l.axes@[2]),
            secondary_y: needs_of(l.axes@[3]),
        },
        s.title@.len() > 0,
        metrics_of(letter, st),
    )
    &&& l.regions == regions_of(area, l.buffers)
    &&& l.regions.plot.wf() && l.regions.tick_label.wf() && l.regions.modifier.wf() && l.regions.label.wf()
}

/// Lays out subplot `s` in `area`: resolves its four axes, allocates the
/// margins that they and the title need, and carves the areas.
pub fn subplot_layout(s: &Subplot, area: &Area, st: &Style, letter: Size) -> (r: Result<SubplotLayout, PltError>)
    requires
        s.wf(),
        area.wf(),
    ensures
        r is Err <==> layout_fails(*s),
        r is Err ==> r->Err_0 is BadTickPlacement || r->Err_0 is BadTickLabels,
        r is Ok ==> layout_ok(r->Ok_0, *s, *area, *st, letter),
{
    let fx = match finalize_axis(s, AxisType::X) {
        Ok(f) => f,
        Err(e) => {
            return Err(e);
        },
    };
    let fy = match finalize_axis(s, AxisType::Y) {
        Ok(f) => f,
        Err(e) => {
            return Err(e);
        },
    };
    let fsx = match finalize_axis(s, AxisType::SecondaryX) {
        Ok(f) => f,
        Err(e) => {
            return Err(e);
        },
    };
    let fsy = match finalize_axis(s, AxisType::SecondaryY) {
        Ok(f) => f,
        Err(e) => {
            return Err(e);
        },
    };
    let n = PerAxis { x: needs(&fx), y: needs(&fy), secondary_x: needs(&fsx), secondary_y: needs(&fsy) };
    let m = Metrics {
        letter_width: letter.width,
        letter_height: letter.height,
        outer_major: st.outer_major,
        outer_minor: st.outer_minor,
    };
    let buffers = allocate(&n, !s.title.as_str().is_empty(), &m);
    let regions = regions(area, &buffers);
    let axes = vec![fx, fy, fsx, fsy];
    Ok(SubplotLayout { axes, buffers, regions })
}

fn text_command(text: String, position: Point, alignment: Alignment, rotation: u8, style: &Style) -> (r: DrawCommand)
    ensures
        r == DrawCommand::Text(
            TextDescriptor {
                text,
                font: style.font,
                position,
                color: style.text_color,
                rotation,
                alignment,
                clip_area: None,
            },
        ),
{
    DrawCommand::Text(
        TextDescriptor {
            text,
            font: style.font,
            position,
            color: style.text_color,
            rotation,
            alignment,
            clip_area: None,
        },
    )
}

fn line_command(p1: Point, p2: Point, width: u32, color: Color) -> (r: DrawCommand)
    ensures
        r matches DrawCommand::Line(d) && d.line == (DrawLine { p1, p2 }) && d.line_width == width
            && d.line_color == color,
{
    DrawCommand::Line(
        LineDescriptor {
            line: DrawLine { p1, p2 },
            line_width: width,
            line_color: color,
            dashes: Vec::new(),
            clip_area: None,
        },
    )
}

/// A coordinate in whole dots, in millionths.
fn dots(v: u32) -> (r: i64)
    ensures
        r == v * 1_000_000,
{
    v as i64 * 1_000_000
}

/// The tick mark at coordinate `c` of the axis in slot `t`: `outer` dots
/// out of the plot area and `inner` dots into it.
pub open spec fn tick_line(t: AxisType, plot: Area, c: int, outer: int, inner: int) -> DrawLine {
    match t {
        AxisType::Y => DrawLine {
            p1: Point { x: (plot.xmin * 1_000_000 - outer * 1_000_000) as i64, y: c as i64 },
            p2: Point { x: (plot.xmin * 1_000_000 + inner * 1_000_000) as i64, y: c as i64 },
        },
        AxisType::X => DrawLine {
            p1: Point { x: c as i64, y: (plot.ymin * 1_000_000 - outer * 1_000_000) as i64 },
            p2: Point { x: c as i64, y: (plot.ymin * 1_000_000 + inner * 1_000_000) as i64 },
        },
        AxisType::SecondaryY => DrawLine {
            p1: Point { x: (plot.xmax * 1_000_000 - inner * 1_000_000) as i64, y: c as i64 },
            p2: Point { x: (plot.xmax * 1_000_000 + outer * 1_000_000) as i64, y: c as i64 },
        },
        AxisType::SecondaryX => DrawLine {
            p1: Point { x: c as i64, y: (plot.ymax * 1_000_000 - inner * 1_000_000) as i64 },
            p2: Point { x: c as i64, y: (plot.ymax * 1_000_000 + outer * 1_000_000) as i64 },
        },
    }
}

/// `seg` draws a tick mark at each of `ticks`, each followed by its label
/// where there is one label for each tick.
pub open spec fn ticks_drawn(
    seg: Seq<DrawCommand>,
    t: AxisType,
    ticks: Seq<i64>,
    labels: Seq<String>,
    outer: int,
    inner: int,
    limits: (i64, i64),
    plot: Area,
) -> bool {
    &&& seg.len() == 2 * ticks.len()
    &&& forall|i: int|
        0 <= i < ticks.len() ==> (#[trigger] seg[2 * i] matches DrawCommand::Line(d) && d.line == tick_line(
            t,
            plot,
            tick_coordinate(t, limits, plot, ticks[i]),
            outer,
            inner,
        ))
    &&& labels.len() == ticks.len() ==> forall|i: int|
        0 <= i < ticks.len() ==> (#[trigger] seg[2 * i + 1] matches DrawCommand::Text(d) && d.text@ == labels[i]@)
}

/// Tick marks of the axis in slot `t` with their labels (empty text where
/// the axis has none).
fn tick_commands(
    t: AxisType,
    ticks: &Vec<i64>,
    labels: &Vec<String>,
    outer: u32,
    inner: u32,
    limits: (i64, i64),
    r: &Regions,
    style: &Style,
    out: &mut Vec<DrawCommand>,
)
    requires
        r.plot.wf(),
    ensures
        final(out)@.len() == old(out)@.len() + 2 * ticks@.len(),
        forall|i: int| 0 <= i < old(out)@.len() ==> final(out)@[i] == old(out)@[i],
        forall|i: int|
            0 <= i < ticks@.len() ==> (#[trigger] final(out)@[old(out)@.len() + 2 * i] matches DrawCommand::Line(d)
                && d.line_width == style.line_width),
        labels@.len() == ticks@.len() ==> forall|i: int|
            0 <= i < ticks@.len() ==> (#[trigger] final(out)@[old(out)@.len() + 2 * i + 1] matches DrawCommand::Text(d)
                && d.text@ == labels@[i]@),
        ticks_drawn(
            final(out)@.subrange(old(out)@.len() as int, final(out)@.len() as int),
            t,
            ticks@,
            labels@,
            outer as int,
            inner as int,
            limits,
            r.plot,
        ),
{
    let plot = r.plot;
    let ghost start = out@;
    let mut i: usize = 0;
    while i < ticks.len()
        invariant
            plot == r.plot,
            plot.wf(),
            i <= ticks@.len(),
            out@.len() == start.len() + 2 * i,
            forall|j: int| 0 <= j < start.len() ==> out@[j] == start[j],
            forall|j: int|
                0 <= j < i ==> (#[trigger] out@[start.len() + 2 * j] matches DrawCommand::Line(d)
                    && d.line_width == style.line_width && d.line == tick_line(
                    t,
                    plot,
                    tick_coordinate(t, limits, plot, ticks@[j]),
                    outer as int,
                    inner as int,
                )),
            labels@.len() == ticks@.len() ==> forall|j: int|
                0 <= j < i ==> (#[trigger] out@[start.len() + 2 * j + 1] matches DrawCommand::Text(d)
                    && d.text@ == labels@[j]@),
        decreases ticks@.len() - i,
    {
        let c = tick_coordinate_exec(t, limits, &plot, ticks[i]);
        let text = if labels.len() == ticks.len() { labels[i].clone() } else { String::new() };
        let (p1, p2, pos, align) = match t {
            AxisType::Y => (
                Point { x: dots(plot.xmin) - dots(outer), y: c },
                Point { x: dots(plot.xmin) + dots(inner), y: c },
                Point { x: dots(r.tick_label.xmin), y: c },
                Alignment::Right,
            ),
            AxisType::X => (
                Point { x: c, y: dots(plot.ymin) - dots(outer) },
                Point { x: c, y: dots(plot.ymin) + dots(inner) },
                Point { x: c, y: dots(r.tick_label.ymin) },
                Alignment::Top,
            ),
            AxisType::SecondaryY => (
                Point { x: dots(plot.xmax) - dots(inner), y: c },
                Point { x: dots(plot.xmax) + dots(outer), y: c },
                Point { x: dots(r.tick_label.xmax), y: c },
                Alignment::Left,
            ),
            AxisType::SecondaryX => (
                Point { x: c, y: dots(plot.ymax) - dots(inner) },
                Point { x: c, y: dots(plot.ymax) + dots(outer) },
                Point { x: c, y: dots(r.tick_label.ymax) },
                Alignment::Bottom,
            ),
        };
        out.push(line_command(p1, p2, style.line_width, style.line_color));
        out.push(text_command(text, pos, align, 0, style));
        i = i + 1;
    }
    proof {
        let seg = out@.subrange(start.len() as int, out@.len() as int);
        assert forall|k: int| 0 <= k < ticks@.len() implies (#[trigger] seg[2 * k] matches DrawCommand::Line(d) && d.line
            == tick_line(t, plot, tick_coordinate(t, limits, plot, ticks@[k]), outer as int, inner as int)) by {
            assert(seg[2 * k] == out@[start.len() + 2 * k]);
        }
        if labels@.len() == ticks@.len() {
            assert forall|k: int| 0 <= k < ticks@.len() implies (#[trigger] seg[2 * k + 1] matches DrawCommand::Text(d)
                && d.text@ == labels@[k]@) by {
                assert(seg[2 * k + 1] == out@[start.len() + 2 * k + 1]);
            }
        }
    }
}

/// The number of commands that draw resolved axis `f`.
pub open spec fn axis_len(f: AxisFinalized) -> int {
    3 + 2 * (f.major_tick_locs@.len() as int) + 2 * (f.minor_tick_locs@.len() as int)
}

/// `seg` draws resolved axis `f` in slot `t`: its line, its modifier, its
/// label, then its major and its minor ticks with their labels.
pub open spec fn axis_drawn(seg: Seq<DrawCommand>, t: AxisType, f: AxisFinalized, r: Regions, style: Style) -> bool {
    let nmaj = f.major_tick_locs@.len() as int;
    &&& seg.len() == axis_len(f)
    &&& seg[0] matches DrawCommand::Line(d) && d.line_color == (if f.visible {
        style.line_color
    } else {
        Color { r: 0, g: 0, b: 0, a: 0 }
    })
    &&& -65535 <= f.label_multiplier <= 65535 ==> (seg[1] matches DrawCommand::Text(d) && d.text@ == modifier_text(
        f.label_multiplier as int,
        f.label_offset as int,
    ))
    &&& seg[2] matches DrawCommand::Text(d) && d.text@ == f.label@
    &&& ticks_drawn(
        seg.subrange(3, 3 + 2 * nmaj),
        t,
        f.major_tick_locs@,
        f.major_tick_labels@,
        style.outer_major as int,
        style.inner_major as int,
        f.limits,
        r.plot,
    )
    &&& ticks_drawn(
        seg.subrange(3 + 2 * nmaj, seg.len() as int),
        t,
        f.minor_tick_locs@,
        f.minor_tick_labels@,
        style.outer_minor as int,
        style.inner_minor as int,
        f.limits,
        r.plot,
    )
}

/// The axis line of slot `t`, its modifier, its label, and its ticks with
/// their labels.
pub fn axis_commands(
    t: AxisType,
    f: &AxisFinalized,
    r: &Regions,
    style: &Style,
    letter_width: u32,
    out: &mut Vec<DrawCommand>,
)
    requires
        r.plot.wf(),
    ensures
        final(out)@.len() == old(out)@.len() + 3 + 2 * f.major_tick_locs@.len() + 2 * f.minor_tick_locs@.len(),
        forall|i: int| 0 <= i < old(out)@.len() ==> final(out)@[i] == old(out)@[i],
        final(out)@[old(out)@.len() as int] matches DrawCommand::Line(d) && d.line_color == (if f.visible {
            style.line_color
        } else {
            Color { r: 0, g: 0, b: 0, a: 0 }
        }),
        -65535 <= f.label_multiplier <= 65535 ==> (final(out)@[old(out)@.len() as int + 1] matches DrawCommand::Text(d)
            && d.text@ == modifier_text(f.label_multiplier as int, f.label_offset as int)),
        final(out)@[old(out)@.len() as int + 2] matches DrawCommand::Text(d) && d.text@ == f.label@ && d.rotation == (
        match t {
            AxisType::Y => 3u8,
            AxisType::SecondaryY => 1u8,
            _ => 0u8,
        }),
        axis_drawn(final(out)@.subrange(old(out)@.len() as int, final(out)@.len() as int), t, *f, *r, *style),
{
    let plot = r.plot;
    let half = style.line_width as i64 * 500_000;
    let (p1, p2) = match t {
        AxisType::Y => (
            Point { x: dots(plot.xmin), y: dots(plot.ymin) + half },
            Point { x: dots(plot.xmin), y: dots(plot.ymax) + half },
        ),
        AxisType::SecondaryY => (
            Point { x: dots(plot.xmax), y: dots(plot.ymin) + half },
            Point { x: dots(plot.xmax), y: dots(plot.ymax) - half },
        ),
        AxisType::X => (
            Point { x: dots(plot.xmin) - half, y: dots(plot.ymin) },
            Point { x: dots(plot.xmax) + half, y: dots(plot.ymin) },
        ),
        AxisType::SecondaryX => (
            Point { x: dots(plot.xmin) + half, y: dots(plot.ymax) },
            Point { x: dots(plot.xmax) + half, y: dots(plot.ymax) },
        ),
    };
    let color = if f.visible { style.line_color } else { Color::transparent() };
    let ghost start = out@;
    out.push(line_command(p1, p2, style.line_width, color));

    // the exponent and offset beside the labels
    let e = if -65535 <= f.label_multiplier && f.label_multiplier <= 65535 { f.label_multiplier } else { 0 };
    let text = modifier_string(e, f.label_offset);
    let w = letter_width as i64 * 1_000_000;
    let (pos, align) = match t {
        AxisType::Y => (Point { x: dots(plot.xmin) - w / 2, y: dots(r.modifier.ymax) }, Alignment::BottomLeft),
        AxisType::SecondaryY => (Point { x: dots(plot.xmax) - w / 2, y: dots(r.modifier.ymax) }, Alignment::BottomLeft),
        AxisType::SecondaryX => (Point { x: dots(r.tick_label.xmax) + w, y: dots(r.tick_label.ymax) }, Alignment::BottomLeft),
        AxisType::X => (Point { x: dots(plot.xmax), y: dots(r.modifier.ymin) }, Alignment::TopRight),
    };
    out.push(text_command(text, pos, align, 0, style));

    // the axis label
    let mid_x = (dots(plot.xmin) + dots(plot.xmax)) / 2;
    let mid_y = (dots(plot.ymin) + dots(plot.ymax)) / 2;
    let (pos, align, rotation) = match t {
        AxisType::Y => (Point { x: dots(r.label.xmin), y: mid_y }, Alignment::Right, 3u8),
        AxisType::X => (Point { x: mid_x, y: dots(r.label.ymin) }, Alignment::Top, 0u8),
        AxisType::SecondaryY => (Point { x: dots(r.label.xmax), y: mid_y }, Alignment::Left, 1u8),
        AxisType::SecondaryX => (Point { x: mid_x, y: dots(r.label.ymax) }, Alignment::Bottom, 0u8),
    };
    out.push(text_command(f.label.clone(), pos, align, rotation, style));
    let ghost head = out@;
    tick_commands(t, &f.major_tick_locs, &f.major_tick_labels, style.outer_major, style.inner_major, f.limits, r, style, out);
    let ghost mid = out@;
    tick_commands(t, &f.minor_tick_locs, &f.minor_tick_labels, style.outer_minor, style.inner_minor, f.limits, r, style, out);
    proof {
        let seg = out@.subrange(start.len() as int, out@.len() as int);
        let nmaj = f.major_tick_locs@.len() as int;
        assert(seg.subrange(3, 3 + 2 * nmaj) =~= mid.subrange(head.len() as int, mid.len() as int));
        assert(seg.subrange(3 + 2 * nmaj, seg.len() as int) =~= out@.subrange(mid.len() as int, out@.len() as int));
        assert(seg[0] == head[start.len() as int]);
        assert(seg[1] == head[start.len() as int + 1]);
        assert(seg[2] == head[start.len() as int + 2]);
        assert(out@[start.len() as int] == head[start.len() as int]);
        assert(out@[start.len() as int + 1] == head[start.len() as int + 1]);
        assert(out@[start.len() as int + 2] == head[start.len() as int + 2]);
    }
}

/// The background of the plot area: a rectangle of the plot colour.
pub open spec fn is_background(c: DrawCommand, plot: Area, color: Color) -> bool {
    match c {
        DrawCommand::Shape(d) => d.point == (Point {
            x: (plot.xmin * 1_000_000 + (plot.xmax - plot.xmin) * 500_000) as i64,
            y: (plot.ymin * 1_000_000 + (plot.ymax - plot.ymin) * 500_000) as i64,
        }) && d.shape == (Shape::Rectangle { h: (plot.ymax - plot.ymin) as u32, w: (plot.xmax - plot.xmin) as u32 })
            && d.fill_color == color,
        _ => false,
    }
}

fn slot_of_index(i: usize) -> (t: AxisType)
    requires
        i < 4,
    ensures
        t == slot(i as int),
{
    if i == 0 {
        AxisType::X
    } else if i == 1 {
        AxisType::Y
    } else if i == 2 {
        AxisType::SecondaryX
    } else {
        AxisType::SecondaryY
    }
}

/// The number of grid lines of resolved axis `f`.
pub open spec fn grid_len(f: AxisFinalized) -> int {
    (if f.major_grid { f.major_tick_locs@.len() as int } else { 0 }) + (if f.minor_grid {
        f.minor_tick_locs@.len() as int
    } else {
        0
    })
}

/// The number of grid lines of the first `i` axes.
pub open spec fn grid_prefix(axes: Seq<AxisFinalized>, i: int) -> int
    decreases i,
{
    if i <= 0 {
        0
    } else {
        grid_prefix(axes, i - 1) + grid_len(axes[i - 1])
    }
}

/// The number of commands that draw the first `i` axes.
pub open spec fn axis_prefix(axes: Seq<AxisFinalized>, i: int) -> int
    decreases i,
{
    if i <= 0 {
        0
    } else {
        axis_prefix(axes, i - 1) + axis_len(axes[i - 1])
    }
}

/// `seg` draws the grid lines of the `i`-th axis: major, then minor.
pub open spec fn axis_grid_drawn(seg: Seq<DrawCommand>, i: int, f: AxisFinalized, plot: Area) -> bool {
    let nmaj = if f.major_grid { f.major_tick_locs@.len() as int } else { 0 };
    &&& seg.len() == grid_len(f)
    &&& grid_drawn(seg.subrange(0, nmaj), slot(i), f.major_tick_locs@, f.major_grid, f.limits, plot)
    &&& grid_drawn(seg.subrange(nmaj, seg.len() as int), slot(i), f.minor_tick_locs@, f.minor_grid, f.limits, plot)
}

/// Grid lines of the four axes, major before minor.
fn all_grid_commands(axes: &Vec<AxisFinalized>, plot: &Area, st: &Style, out: &mut Vec<DrawCommand>)
    requires
        plot.wf(),
        axes@.len() == 4,
    ensures
        final(out)@.len() >= old(out)@.len(),
        forall|j: int| 0 <= j < old(out)@.len() ==> final(out)@[j] == old(out)@[j],
        forall|j: int| old(out)@.len() <= j < final(out)@.len() ==> primitive(#[trigger] final(out)@[j]) == Primitive::Line,
        final(out)@.len() == old(out)@.len() + grid_prefix(axes@, 4),
        forall|i: int|
            0 <= i < 4 ==> axis_grid_drawn(
                #[trigger] final(out)@.subrange(
                    old(out)@.len() + grid_prefix(axes@, i),
                    old(out)@.len() + grid_prefix(axes@, i + 1),
                ),
                i,
                axes@[i],
                *plot,
            ),
{
    let ghost start = out@;
    let mut i: usize = 0;
    while i < 4
        invariant
            plot.wf(),
            axes@.len() == 4,
            i <= 4,
            out@.len() == start.len() + grid_prefix(axes@, i as int),
            forall|j: int| 0 <= j < start.len() ==> out@[j] == start[j],
            forall|j: int| start.len() <= j < out@.len() ==> primitive(#[trigger] out@[j]) == Primitive::Line,
            forall|k: int|
                0 <= k < i ==> axis_grid_drawn(
                    #[trigger] out@.subrange(start.len() + grid_prefix(axes@, k), start.len() + grid_prefix(axes@, k + 1)),
                    k,
                    axes@[k],
                    *plot,
                ),
            forall|k: int| 0 <= k <= i ==> #[trigger] grid_prefix(axes@, k) <= grid_prefix(axes@, i as int),
            forall|k: int| 0 <= k <= i ==> 0 <= #[trigger] grid_prefix(axes@, k),
        decreases 4 - i,
    {
        let t = slot_of_index(i);
        let f = &axes[i];
        let ghost before = out@;
        grid_commands(t, &f.major_tick_locs, f.major_grid, f.limits, plot, st, out);
        let ghost mid = out@;
        grid_commands(t, &f.minor_tick_locs, f.minor_grid, f.limits, plot, st, out);
        proof {
            assert(forall|j: int| 0 <= j < before.len() ==> mid[j] == before[j]);
            assert(forall|j: int| 0 <= j < mid.len() ==> out@[j] == mid[j]);
            assert(forall|j: int| 0 <= j < before.len() ==> out@[j] == before[j]);
            let a = start.len() + grid_prefix(axes@, i as int);
            assert(grid_prefix(axes@, i + 1) == grid_prefix(axes@, i as int) + grid_len(axes@[i as int]));
            let seg = out@.subrange(a, out@.len() as int);
            let nmaj = if f.major_grid { f.major_tick_locs@.len() as int } else { 0 };
            assert(seg.subrange(0, nmaj) =~= mid.subrange(before.len() as int, mid.len() as int));
            assert(seg.subrange(nmaj, seg.len() as int) =~= out@.subrange(mid.len() as int, out@.len() as int));
            assert(axis_grid_drawn(seg, i as int, axes@[i as int], *plot));
            assert forall|k: int|
                0 <= k < i + 1 implies axis_grid_drawn(
                    #[trigger] out@.subrange(start.len() + grid_prefix(axes@, k), start.len() + grid_prefix(axes@, k + 1)),
                    k,
                    axes@[k],
                    *plot,
                ) by {
                if k < i {
                    assert(grid_prefix(axes@, k + 1) <= grid_prefix(axes@, i as int));
                    assert(0 <= grid_prefix(axes@, k));
                    assert(out@.subrange(start.len() + grid_prefix(axes@, k), start.len() + grid_prefix(axes@, k + 1))
                        =~= before.subrange(start.len() + grid_prefix(axes@, k), start.len() + grid_prefix(axes@, k + 1)));
                }
            }
            assert forall|k: int| 0 <= k <= i + 1 implies #[trigger] grid_prefix(axes@, k) <= grid_prefix(axes@, i + 1) by {
                if k <= i {
                    assert(grid_prefix(axes@, k) <= grid_prefix(axes@, i as int));
                }
            }
            assert forall|k: int| 0 <= k <= i + 1 implies 0 <= #[trigger] grid_prefix(axes@, k) by {
                if k <= i {
                    assert(0 <= grid_prefix(axes@, k));
                }
            }
        }
        i = i + 1;
    }
}

/// The position of slot `t` in the order `X`, `Y`, `SecondaryX`,
/// `SecondaryY`.
pub open spec fn slot_index(t: AxisType) -> int {
    match t {
        AxisType::X => 0,
        AxisType::Y => 1,
        AxisType::SecondaryX => 2,
        AxisType::SecondaryY => 3,
    }
}

/// `seg` draws the `k`-th plotted item of `s`, against the limits of the
/// resolved `axes`.
pub open spec fn item_drawn(seg: Seq<DrawCommand>, s: Subplot, axes: Seq<AxisFinalized>, plot: Area, k: int) -> bool {
    match s.plot_order@[k] {
        PlotType::Series => {
            let info = s.plot_infos@[count_kind(s.plot_order@.subrange(0, k), PlotType::Series) as int];
            series_drawn(seg, info, axes[slot_index(info.xaxis)].limits, axes[slot_index(info.yaxis)].limits, plot)
        },
        PlotType::Fill => {
            let info = s.fill_infos@[count_kind(s.plot_order@.subrange(0, k), PlotType::Fill) as int];
            fill_drawn(seg, info, axes[slot_index(info.xaxis)].limits, axes[slot_index(info.yaxis)].limits, plot)
        },
    }
}

/// `cmds` from `from` to `to` draw the plotted items of `s` in the order
/// plotted, the `k`-th from `offs[k]` to `offs[k + 1]`.
pub open spec fn data_drawn_at(
    cmds: Seq<DrawCommand>,
    from: int,
    to: int,
    s: Subplot,
    axes: Seq<AxisFinalized>,
    plot: Area,
    offs: Seq<int>,
) -> bool {
    let n = s.plot_order@.len() as int;
    &&& offs.len() == n + 1
    &&& offs[0] == from
    &&& offs[n] == to
    &&& forall|k: int| 0 <= k <= n ==> from <= #[trigger] offs[k] <= to
    &&& forall|k: int| 0 <= k < n ==> #[trigger] offs[k] <= offs[k + 1]
    &&& forall|k: int| 0 <= k < n ==> item_drawn(
        #[trigger] cmds.subrange(offs[k], offs[k + 1]),
        s,
        axes,
        plot,
        k,
    )
}

/// `cmds` from `from` to `to` draw the plotted items of `s` in the order
/// plotted.
pub open spec fn data_drawn(cmds: Seq<DrawCommand>, from: int, to: int, s: Subplot, axes: Seq<AxisFinalized>, plot: Area) -> bool {
    exists|offs: Seq<int>| #[trigger] data_drawn_at(cmds, from, to, s, axes, plot, offs)
}

proof fn lemma_count_prefix(order: Seq<PlotType>, k: int, kind: PlotType)
    requires
        0 <= k <= order.len(),
    ensures
        count_kind(order.subrange(0, k), kind) <= count_kind(order, kind),
    decreases order.len() - k,
{
    if k < order.len() {
        lemma_count_prefix(order, k + 1, kind);
        assert(order.subrange(0, k + 1) == order.subrange(0, k).push(order[k]));
        crate::subplot::lemma_count_push(order.subrange(0, k), order[k], kind);
    } else {
        assert(order.subrange(0, k) == order);
    }
}

/// The series and fills of `s` in the order plotted. Series and fills
/// take their colours from the cycle apart; fills at half opacity.
pub fn data_commands(s: &Subplot, axes: &Vec<AxisFinalized>, plot: &Area, st: &Style, out: &mut Vec<DrawCommand>)
    requires
        s.wf(),
        plot.wf(),
        axes@.len() == 4,
        0 <= st.scaling <= 1_000_000_000,
    ensures
        final(out)@.len() >= old(out)@.len(),
        forall|j: int| 0 <= j < old(out)@.len() ==> final(out)@[j] == old(out)@[j],
        kinds_after(final(out)@, old(out)@.len() as int) == data_kinds(*s, s.plot_order@.len() as int),
        data_drawn(final(out)@, old(out)@.len() as int, final(out)@.len() as int, *s, axes@, *plot),
{
    let ghost start = out@;
    let ghost mut offs: Seq<int> = seq![start.len() as int];
    let line_cycle = &s.format.color_cycle;
    let fills = fill_cycle(&s.format.color_cycle);
    let mut series_k: usize = 0;
    let mut fill_k: usize = 0;
    let mut ip: usize = 0;
    let mut ifl: usize = 0;
    let mut k: usize = 0;
    let n_series = s.plot_infos.len();
    let n_fills = s.fill_infos.len();
    proof {
        assert(kinds_after(out@, start.len() as int) =~= data_kinds(*s, 0));
        assert(s.plot_order@.subrange(0, 0) =~= Seq::<PlotType>::empty());
    }
    while k < s.plot_order.len()
        invariant
            s.wf(),
            plot.wf(),
            axes@.len() == 4,
            out@.len() >= start.len(),
            forall|j: int| 0 <= j < start.len() ==> out@[j] == start[j],
            k <= s.plot_order@.len(),
            ip == count_kind(s.plot_order@.subrange(0, k as int), PlotType::Series),
            ifl == count_kind(s.plot_order@.subrange(0, k as int), PlotType::Fill),
            n_series == s.plot_infos@.len(),
            n_fills == s.fill_infos@.len(),
            kinds_after(out@, start.len() as int) == data_kinds(*s, k as int),
            offs.len() == k + 1,
            offs[0] == start.len(),
            offs[k as int] == out@.len(),
            forall|j: int| 0 <= j <= k ==> start.len() <= #[trigger] offs[j] <= out@.len(),
            forall|j: int| 0 <= j < k ==> #[trigger] offs[j] <= offs[j + 1],
            forall|j: int| 0 <= j < k ==> item_drawn(
                #[trigger] out@.subrange(offs[j], offs[j + 1]),
                *s,
                axes@,
                *plot,
                j,
            ),
            0 <= st.scaling <= 1_000_000_000,
        decreases s.plot_order@.len() - k,
    {
        let ghost before = out@;
        proof {
            assert(s.plot_order@.subrange(0, k + 1) == s.plot_order@.subrange(0, k as int).push(s.plot_order@[k as int]));
            crate::subplot::lemma_count_push(s.plot_order@.subrange(0, k as int), s.plot_order@[k as int], PlotType::Series);
            crate::subplot::lemma_count_push(s.plot_order@.subrange(0, k as int), s.plot_order@[k as int], PlotType::Fill);
            lemma_count_prefix(s.plot_order@, k + 1, PlotType::Series);
            lemma_count_prefix(s.plot_order@, k + 1, PlotType::Fill);
        }
        match s.plot_order[k] {
            PlotType::Series => {
                let info = &s.plot_infos[ip];
                let xl = axes[axis_index(info.xaxis)].limits;
                let yl = axes[axis_index(info.yaxis)].limits;
                if line_cycle.len() > 0 {
                    series_k = series_k % line_cycle.len();
                }
                if series_k >= usize::MAX - 2 {
                    series_k = 0;
                }
                series_commands(info, xl, yl, plot, st, line_cycle, s.format.default_marker_color, &mut series_k, out);
                proof {
                    assert(xl == axes@[slot_index(info.xaxis)].limits);
                    assert(yl == axes@[slot_index(info.yaxis)].limits);
                    assert(item_drawn(out@.subrange(before.len() as int, out@.len() as int), *s, axes@, *plot, k as int));
                }
                ip = ip + 1;
            },
            PlotType::Fill => {
                let info = &s.fill_infos[ifl];
                let xl = axes[axis_index(info.xaxis)].limits;
                let yl = axes[axis_index(info.yaxis)].limits;
                let color = match info.color_override {
                    Some(c) => c,
                    None => {
                        let c = next_color(&fills, s.format.default_fill_color, fill_k);
                        fill_k = if fill_k < usize::MAX { fill_k + 1 } else { 0 };
                        c
                    },
                };
                let points = fill_points(info, xl, yl, plot);
                proof {
                    assert(points@ =~= mapped_fill(*info, xl, yl, *plot));
                }
                out.push(
                    DrawCommand::Fill(FillDescriptor { points, fill_color: color, clip_area: Some(*plot) }),
                );
                proof {
                    assert(xl == axes@[slot_index(info.xaxis)].limits);
                    assert(yl == axes@[slot_index(info.yaxis)].limits);
                    let seg = out@.subrange(before.len() as int, out@.len() as int);
                    assert(seg[0] == out@[before.len() as int]);
                    assert(item_drawn(seg, *s, axes@, *plot, k as int));
                }
            },
        }
        proof {
            let new_part = kinds_after(out@, before.len() as int);
            assert(new_part =~= item_kinds(*s, k as int));
            assert(kinds_after(out@, start.len() as int) =~= kinds_after(before, start.len() as int) + new_part);
            let old_offs = offs;
            assert forall|j: int| 0 <= j < k implies item_drawn(
                #[trigger] out@.subrange(offs[j], offs[j + 1]),
                *s,
                axes@,
                *plot,
                j,
            ) by {
                assert(out@.subrange(offs[j], offs[j + 1]) =~= before.subrange(offs[j], offs[j + 1]));
            }
            assert(item_drawn(out@.subrange(before.len() as int, out@.len() as int), *s, axes@, *plot, k as int));
            assert(before.len() <= out@.len());
            offs = offs.push(out@.len() as int);
            assert forall|j: int| 0 <= j < k + 1 implies #[trigger] offs[j] <= offs[j + 1] by {
                if j < k {
                    assert(old_offs[j] <= old_offs[j + 1]);
                }
            }
            assert forall|j: int| 0 <= j < k + 1 implies item_drawn(
                #[trigger] out@.subrange(offs[j], offs[j + 1]),
                *s,
                axes@,
                *plot,
                j,
            ) by {
                if j < k {
                    assert(offs[j] == old_offs[j] && offs[j + 1] == old_offs[j + 1]);
                    assert(item_drawn(before.subrange(old_offs[j], old_offs[j + 1]), *s, axes@, *plot, j));
                    assert(old_offs[j + 1] <= before.len());
                    assert(out@.subrange(old_offs[j], old_offs[j + 1]) =~= before.subrange(old_offs[j], old_offs[j + 1]));
                } else {
                    assert(j == k);
                    assert(offs[j] == before.len());
                    assert(offs[j + 1] == out@.len());
                    assert(before.len() <= out@.len());
                }
            }
        }
        if s.plot_order[k] == PlotType::Fill {
            ifl = ifl + 1;
        }
        k = k + 1;
    }
    assert(data_drawn_at(out@, start.len() as int, out@.len() as int, *s, axes@, *plot, offs));
}

/// The four axes with their ticks and labels.
fn all_axis_commands(axes: &Vec<AxisFinalized>, r: &Regions, st: &Style, letter_width: u32, out: &mut Vec<DrawCommand>)
    requires
        r.plot.wf(),
        axes@.len() == 4,
    ensures
        final(out)@.len() >= old(out)@.len() + 12,
        forall|j: int| 0 <= j < old(out)@.len() ==> final(out)@[j] == old(out)@[j],
        final(out)@.len() == old(out)@.len() + axis_prefix(axes@, 4),
        forall|i: int|
            0 <= i < 4 ==> axis_drawn(
                #[trigger] final(out)@.subrange(
                    old(out)@.len() + axis_prefix(axes@, i),
                    old(out)@.len() + axis_prefix(axes@, i + 1),
                ),
                slot(i),
                axes@[i],
                *r,
                *st,
            ),
{
    let ghost start = out@;
    let mut i: usize = 0;
    while i < 4
        invariant
            r.plot.wf(),
            axes@.len() == 4,
            i <= 4,
            out@.len() >= start.len() + 3 * i,
            out@.len() == start.len() + axis_prefix(axes@, i as int),
            forall|j: int| 0 <= j < start.len() ==> out@[j] == start[j],
            forall|k: int|
                0 <= k < i ==> axis_drawn(
                    #[trigger] out@.subrange(start.len() + axis_prefix(axes@, k), start.len() + axis_prefix(axes@, k + 1)),
                    slot(k),
                    axes@[k],
                    *r,
                    *st,
                ),
            forall|k: int| 0 <= k <= i ==> #[trigger] axis_prefix(axes@, k) <= axis_prefix(axes@, i as int),
            forall|k: int| 0 <= k <= i ==> 0 <= #[trigger] axis_prefix(axes@, k),
        decreases 4 - i,
    {
        let t = slot_of_index(i);
        let ghost before = out@;
        axis_commands(t, &axes[i], r, st, letter_width, out);
        proof {
            assert(forall|j: int| 0 <= j < before.len() ==> out@[j] == before[j]);
            assert(axis_prefix(axes@, i + 1) == axis_prefix(axes@, i as int) + axis_len(axes@[i as int]));
            assert forall|k: int|
                0 <= k < i + 1 implies axis_drawn(
                    #[trigger] out@.subrange(start.len() + axis_prefix(axes@, k), start.len() + axis_prefix(axes@, k + 1)),
                    slot(k),
                    axes@[k],
                    *r,
                    *st,
                ) by {
                if k < i {
                    assert(axis_prefix(axes@, k + 1) <= axis_prefix(axes@, i as int));
                    assert(0 <= axis_prefix(axes@, k));
                    assert(out@.subrange(start.len() + axis_prefix(axes@, k), start.len() + axis_prefix(axes@, k + 1))
                        =~= before.subrange(start.len() + axis_prefix(axes@, k), start.len() + axis_prefix(axes@, k + 1)));
                }
            }
            assert forall|k: int| 0 <= k <= i + 1 implies #[trigger] axis_prefix(axes@, k) <= axis_prefix(axes@, i + 1) by {
                if k <= i {
                    assert(axis_prefix(axes@, k) <= axis_prefix(axes@, i as int));
                }
            }
            assert forall|k: int| 0 <= k <= i + 1 implies 0 <= #[trigger] axis_prefix(axes@, k) by {
                if k <= i {
                    assert(0 <= axis_prefix(axes@, k));
                }
            }
        }
        i = i + 1;
    }
}

/// A subplot drawn: its layout and the commands that draw it.
pub struct SubplotDrawing {
    pub layout: SubplotLayout,
    pub commands: Vec<DrawCommand>,
}

/// `d` draws `s` in `area` at `scaling`, the letter `0` measuring
/// `letter`: the background of the plot area first, then the grid lines
/// of each axis, the plotted items in the order plotted, each axis with
/// its ticks and labels, and the title last.
pub open spec fn drawing_ok(d: SubplotDrawing, s: Subplot, area: Area, scaling: i64, letter: Size) -> bool {
    let st = style_of(s, scaling);
    let l = d.layout;
    let cmds = d.commands@;
    let axes = l.axes@;
    let plot = l.regions.plot;
    let a = 1 + grid_prefix(axes, 4);
    let b = cmds.len() - 1 - axis_prefix(axes, 4);
    &&& layout_ok(l, s, area, st, letter)
    &&& 1 <= a <= b < cmds.len()
    &&& is_background(cmds[0], plot, s.format.plot_color)
    &&& forall|i: int|
        0 <= i < 4 ==> axis_grid_drawn(
            #[trigger] cmds.subrange(1 + grid_prefix(axes, i), 1 + grid_prefix(axes, i + 1)),
            i,
            axes[i],
            plot,
        )
    &&& data_drawn(cmds, a, b, s, axes, plot)
    &&& cmds.subrange(a, b).map_values(|c: DrawCommand| primitive(c)) == data_kinds(s, s.plot_order@.len() as int)
    &&& forall|i: int|
        0 <= i < 4 ==> axis_drawn(
            #[trigger] cmds.subrange(b + axis_prefix(axes, i), b + axis_prefix(axes, i + 1)),
            slot(i),
            axes[i],
            l.regions,
            st,
        )
    &&& cmds.last() matches DrawCommand::Text(t) && t.text@ == s.title@
}

/// The commands that draw subplot `s` in `area` at a scaling of `scaling`
/// millionths, where the letter `0` of its font measures `letter`.
#[verifier::rlimit(80)]
pub fn draw_subplot(s: &Subplot, area: &Area, scaling: i64, letter: Size) -> (r: Result<SubplotDrawing, PltError>)
    requires
        s.wf(),
        area.wf(),
        scaling_ok(scaling),
    ensures
        r is Err <==> layout_fails(*s),
        r is Err ==> r->Err_0 is BadTickPlacement || r->Err_0 is BadTickLabels,
        r is Ok ==> drawing_ok(r->Ok_0, *s, *area, scaling, letter),
{
    let st = style(s, scaling);
    let layout = match subplot_layout(s, area, &st, letter) {
        Ok(l) => l,
        Err(e) => {
            return Err(e);
        },
    };
    let plot = layout.regions.plot;
    let mut out: Vec<DrawCommand> = Vec::new();
    let w = plot.xsize();
    let h = plot.ysize();
    out.push(
        DrawCommand::Shape(
            ShapeDescriptor {
                point: Point {
                    x: dots(plot.xmin) + w as i64 * 500_000,
                    y: dots(plot.ymin) + h as i64 * 500_000,
                },
                shape: Shape::Rectangle { h, w },
                fill_color: s.format.plot_color,
                line_width: 2,
                line_color: Color::transparent(),
                line_dashes: Vec::new(),
                clip_area: None,
            },
        ),
    );
    proof {
        assert(is_background(out@[0], layout.regions.plot, s.format.plot_color));
    }
    let ghost first = out@[0];
    all_grid_commands(&layout.axes, &plot, &st, &mut out);
    let ghost a = out@.len() as int;
    let ghost grids = out@;
    data_commands(s, &layout.axes, &plot, &st, &mut out);
    let ghost b = out@.len() as int;
    let ghost with_data = out@;
    all_axis_commands(&layout.axes, &layout.regions, &st, letter.width, &mut out);
    let ghost with_axes = out@;
    let mid_x = (dots(plot.xmin) + dots(plot.xmax)) / 2;
    out.push(
        text_command(
            s.title.clone(),
            Point { x: mid_x, y: dots(layout.regions.title_y) },
            Alignment::Bottom,
            0,
            &st,
        ),
    );
    proof {
        let axes = layout.axes@;
        assert(out@[0] == first);
        assert(forall|j: int| 0 <= j < with_axes.len() ==> out@[j] == with_axes[j]);
        assert(forall|j: int| 0 <= j < b ==> with_axes[j] == with_data[j]);
        assert(forall|j: int| 0 <= j < a ==> with_data[j] == grids[j]);
        assert(forall|j: int| 0 <= j < b ==> out@[j] == with_data[j]);
        assert(forall|j: int| 0 <= j < a ==> out@[j] == grids[j]);
        assert(a == 1 + grid_prefix(axes, 4));
        assert(b == out@.len() - 1 - axis_prefix(axes, 4));
        // grid lines
        assert forall|i: int|
            0 <= i < 4 implies axis_grid_drawn(
                #[trigger] out@.subrange(1 + grid_prefix(axes, i), 1 + grid_prefix(axes, i + 1)),
                i,
                axes[i],
                plot,
            ) by {
            lemma_grid_prefix_mono(axes, i + 1, 4);
            lemma_grid_prefix_mono(axes, 0, i);
            assert(out@.subrange(1 + grid_prefix(axes, i), 1 + grid_prefix(axes, i + 1)) =~= grids.subrange(
                1 + grid_prefix(axes, i),
                1 + grid_prefix(axes, i + 1),
            ));
        }
        // data
        let offs = choose|offs: Seq<int>| data_drawn_at(with_data, a, b, *s, axes, plot, offs);
        assert forall|k: int| 0 <= k < s.plot_order@.len() implies item_drawn(
            #[trigger] out@.subrange(offs[k], offs[k + 1]),
            *s,
            axes,
            plot,
            k,
        ) by {
            assert(a <= offs[k] <= b);
            assert(a <= offs[k + 1] <= b);
            assert(out@.subrange(offs[k], offs[k + 1]) =~= with_data.subrange(offs[k], offs[k + 1]));
        }
        assert(data_drawn_at(out@, a, b, *s, axes, plot, offs));
        assert(out@.subrange(a, b) =~= with_data.subrange(a, b));
        assert(kinds_after(with_data, a) == with_data.subrange(a, b).map_values(|c: DrawCommand| primitive(c)));
        // axes
        assert forall|i: int|
            0 <= i < 4 implies axis_drawn(
                #[trigger] out@.subrange(b + axis_prefix(axes, i), b + axis_prefix(axes, i + 1)),
                slot(i),
                axes[i],
                layout.regions,
                st,
            ) by {
            lemma_axis_prefix_mono(axes, i + 1, 4);
            lemma_axis_prefix_mono(axes, 0, i);
            assert(out@.subrange(b + axis_prefix(axes, i), b + axis_prefix(axes, i + 1)) =~= with_axes.subrange(
                b + axis_prefix(axes, i),
                b + axis_prefix(axes, i + 1),
            ));
        }
    }
    Ok(SubplotDrawing { layout, commands: out })
}

proof fn lemma_grid_prefix_mono(axes: Seq<AxisFinalized>, i: int, j: int)
    requires
        0 <= i <= j,
    ensures
        0 <= grid_prefix(axes, i) <= grid_prefix(axes, j),
    decreases j,
{
    if i < j {
        lemma_grid_prefix_mono(axes, i, j - 1);
    } else if i > 0 {
        lemma_grid_prefix_mono(axes, i - 1, i - 1);
    }
}

proof fn lemma_axis_prefix_mono(axes: Seq<AxisFinalized>, i: int, j: int)
    requires
        0 <= i <= j,
    ensures
        0 <= axis_prefix(axes, i) <= axis_prefix(axes, j),
    decreases j,
{
    if i < j {
        lemma_axis_prefix_mono(axes, i, j - 1);
    } else if i > 0 {
        lemma_axis_prefix_mono(axes, i - 1, i - 1);
    }
}

/// The position of slot `t` in the order `X`, `Y`, `SecondaryX`, `SecondaryY`.
pub fn axis_index(t: AxisType) -> (r: usize)
    ensures
        r < 4,
        slot(r as int) == t,
        r == slot_index(t),
{
    match t {
        AxisType::X => 0,
        AxisType::Y => 1,
        AxisType::SecondaryX => 2,
        AxisType::SecondaryY => 3,
    }
}

/// The size of a figure, each side in millionths of an inch.
#[derive(Copy, Clone, Debug, PartialEq, Eq, Structural)]
pub struct FigSize {
    pub width: i64,
    pub height: i64,
}

/// The configuration of a figure.
#[derive(Copy, Clone, Debug, PartialEq, Eq, Structural)]
pub struct FigureFormat {
    pub size: FigSize,
    /// Dots (pixels) per inch.
    pub dpi: u16,
    pub face_color: Color,
}

impl Default for FigureFormat {
    /// 6.75 by 5 inches at 100 dots per inch, on white.
    fn default() -> (r: Self)
        ensures
            r == (FigureFormat {
                size: FigSize { width: 6_750_000, height: 5_000_000 },
                dpi: 100,
                face_color: Color { r: 1000, g: 1000, b: 1000, a: 1000 },
            }),
    {
        FigureFormat {
            size: FigSize { width: 6_750_000, height: 5_000_000 },
            dpi: 100,
            face_color: Color::white(),
        }
    }
}

/// Figure sides that fit: up to ten thousand inches.
pub open spec fn fig_size_ok(s: FigSize) -> bool {
    0 <= s.width <= 10_000_000_000 && 0 <= s.height <= 10_000_000_000
}

/// A fractional area that a figure of `size` refuses: not valid, or less
/// than a dot wide or high once rounded to dots.
pub open spec fn area_refused(fa: FractionalArea, size: Size) -> bool {
    !fa.is_valid() || !fa.area_in(size).wf()
}

/// A whole figure: subplots with their dot areas, drawn at one size.
pub struct Figure {
    pub subplots: Vec<Subplot>,
    pub subplot_areas: Vec<Area>,
    pub size: Size,
    /// Scaling of widths and fonts, in millionths: the resolution over a
    /// hundred dots per inch.
    pub scaling: i64,
    pub dpi: u16,
    pub face_color: Color,
}

impl Figure {
    pub open spec fn wf(&self) -> bool {
        &&& self.subplots@.len() == self.subplot_areas@.len()
        &&& forall|i: int| 0 <= i < self.subplots@.len() ==> (#[trigger] self.subplots@[i]).wf()
        &&& forall|i: int| 0 <= i < self.subplot_areas@.len() ==> (#[trigger] self.subplot_areas@[i]).wf()
        &&& scaling_ok(self.scaling)
    }

    /// An empty figure of `format`: its size in dots is its size in inches
    /// times its resolution, rounded down.
    pub fn new(format: &FigureFormat) -> (r: Figure)
        requires
            fig_size_ok(format.size),
        ensures
            r.wf(),
            r.subplots@.len() == 0,
            r.size.width == format.size.width * format.dpi / 1_000_000,
            r.size.height == format.size.height * format.dpi / 1_000_000,
            r.scaling == format.dpi * 10_000,
            r.dpi == format.dpi,
            r.face_color == format.face_color,
    {
        let dpi = format.dpi as i64;
        proof {
            assert(format.size.width * dpi <= 10_000_000_000 * 65535) by (nonlinear_arith)
                requires 0 <= format.size.width <= 10_000_000_000, 0 <= dpi <= 65535;
            assert(format.size.height * dpi <= 10_000_000_000 * 65535) by (nonlinear_arith)
                requires 0 <= format.size.height <= 10_000_000_000, 0 <= dpi <= 65535;
            assert(format.size.width * dpi >= 0) by (nonlinear_arith)
                requires 0 <= format.size.width, 0 <= dpi;
            assert(format.size.height * dpi >= 0) by (nonlinear_arith)
                requires 0 <= format.size.height, 0 <= dpi;
        }
        Figure {
            subplots: Vec::new(),
            subplot_areas: Vec::new(),
            size: Size {
                width: (format.size.width * dpi / 1_000_000) as u32,
                height: (format.size.height * dpi / 1_000_000) as u32,
            },
            scaling: dpi * 10_000,
            dpi: format.dpi,
            face_color: format.face_color,
        }
    }

    /// Adds the subplots of `layout`. Refused, leaving the figure as it
    /// was, where some fractional area is not valid.
    pub fn set_layout<L: crate::layout::Layout>(&mut self, layout: L) -> (r: Result<(), PltError>)
        requires
            old(self).wf(),
            layout.layout_wf(),
        ensures
            final(self).wf(),
            r is Err <==> exists|i: int| 0 <= i < layout.placed().len() && area_refused(
                #[trigger] layout.placed()[i].1,
                old(self).size,
            ),
            r is Err ==> exists|k: int|
                0 <= k < layout.placed().len() && area_refused(layout.placed()[k].1, old(self).size) && (forall|j: int|
                    0 <= j < k ==> !area_refused(#[trigger] layout.placed()[j].1, old(self).size))
                    && r->Err_0 == PltError::InvalidSubplotArea(layout.placed()[k].1),
            r is Err ==> final(self).subplots@ == old(self).subplots@
                && final(self).subplot_areas@ == old(self).subplot_areas@,
            r is Ok ==> final(self).subplots@ == old(self).subplots@ + layout.placed().map_values(
                |p: (Subplot, FractionalArea)| p.0,
            ),
            r is Ok ==> final(self).subplot_areas@ == old(self).subplot_areas@ + layout.placed().map_values(
                |p: (Subplot, FractionalArea)| p.1.area_in(old(self).size),
            ),
            final(self).size == old(self).size,
            final(self).scaling == old(self).scaling,
    {
        let placed = layout.subplots();
        let ghost before = *self;
        let mut i: usize = 0;
        while i < placed.len()
            invariant
                *self == before,
                before.wf(),
                before.subplots@ == old(self).subplots@,
                before.subplot_areas@ == old(self).subplot_areas@,
                placed@ == layout.placed(),
                i <= placed@.len(),
                forall|j: int| 0 <= j < i ==> !area_refused(#[trigger] placed@[j].1, before.size),
            decreases placed@.len() - i,
        {
            let fa = placed[i].1;
            if !fa.valid() {
                return Err(PltError::InvalidSubplotArea(fa));
            }
            let a = fa.to_area(self.size);
            if a.xmin > a.xmax || a.ymin > a.ymax {
                return Err(PltError::InvalidSubplotArea(fa));
            }
            i = i + 1;
        }
        let ghost start_s = self.subplots@;
        let ghost start_a = self.subplot_areas@;
        let ghost all = placed@;
        let mut placed = placed;
        let mut taken: usize = 0;
        let total = placed.len();
        let ghost sz = self.size;
        while placed.len() > 0
            invariant
                self.size == sz,
                sz == old(self).size,
                self.scaling == old(self).scaling,
                total == all.len(),
                taken + placed@.len() == all.len(),
                forall|k: int| 0 <= k < placed@.len() ==> #[trigger] placed@[k] == all[taken + k],
                forall|j: int| 0 <= j < all.len() ==> !area_refused(#[trigger] all[j].1, sz),
                all_wf(all),
                self.subplots@ == start_s + all.subrange(0, taken as int).map_values(|p: (Subplot, FractionalArea)| p.0),
                self.subplot_areas@ == start_a + all.subrange(0, taken as int).map_values(
                    |p: (Subplot, FractionalArea)| p.1.area_in(self.size),
                ),
                self.subplots@.len() == self.subplot_areas@.len(),
                forall|j: int| 0 <= j < self.subplots@.len() ==> (#[trigger] self.subplots@[j]).wf(),
                forall|j: int| 0 <= j < self.subplot_areas@.len() ==> (#[trigger] self.subplot_areas@[j]).wf(),
                scaling_ok(self.scaling),
            decreases placed@.len(),
        {
            let (sp, fa) = placed.remove(0);
            assert(all[taken as int] == (sp, fa));
            let area = fa.to_area(self.size);
            self.subplots.push(sp);
            self.subplot_areas.push(area);
            proof {
                assert(all.subrange(0, taken + 1) == all.subrange(0, taken as int).push((sp, fa)));
                assert(all.subrange(0, taken + 1).map_values(|p: (Subplot, FractionalArea)| p.0)
                    =~= all.subrange(0, taken as int).map_values(|p: (Subplot, FractionalArea)| p.0).push(sp));
                assert(all.subrange(0, taken + 1).map_values(|p: (Subplot, FractionalArea)| p.1.area_in(self.size))
                    =~= all.subrange(0, taken as int).map_values(|p: (Subplot, FractionalArea)| p.1.area_in(self.size)).push(area));
            }
            taken = taken + 1;
        }
        proof {
            assert(all.subrange(0, all.len() as int) == all);
        }
        Ok(())
    }

    /// Whether the figure is well formed: one dot area for each subplot,
    /// subplots and areas well formed, and a scaling of at most a thousand.
    pub fn is_wf(&self) -> (r: bool)
        ensures
            r == self.wf(),
    {
        if self.subplots.len() != self.subplot_areas.len() || self.scaling < 0 || self.scaling > 1_000_000_000 {
            return false;
        }
        let mut i: usize = 0;
        while i < self.subplots.len()
            invariant
                i <= self.subplots@.len(),
                self.subplots@.len() == self.subplot_areas@.len(),
                forall|j: int| 0 <= j < i ==> (#[trigger] self.subplots@[j]).wf(),
                forall|j: int| 0 <= j < i ==> (#[trigger] self.subplot_areas@[j]).wf(),
            decreases self.subplots@.len() - i,
        {
            let a = &self.subplot_areas[i];
            if !self.subplots[i].is_wf() || a.xmin > a.xmax || a.ymin > a.ymax {
                return false;
            }
            i = i + 1;
        }
        true
    }

    /// The subplots.
    pub fn subplots(&self) -> (r: &Vec<Subplot>)
        ensures
            *r == self.subplots,
    {
        &self.subplots
    }

    /// The number of subplots.
    pub fn len(&self) -> (r: usize)
        ensures
            r == self.subplots@.len(),
    {
        self.subplots.len()
    }

    /// The font in which the text of subplot `index` is drawn, in which a
    /// canvas measures the letter `0` for [`Figure::draw_subplot_at`].
    pub fn text_font(&self, index: usize) -> (r: Font)
        requires
            self.wf(),
            index < self.subplots@.len(),
        ensures
            r == style_of(self.subplots@[index as int], self.scaling).font,
    {
        style(&self.subplots[index], self.scaling).font
    }

    /// The commands that draw subplot `index`, where the letter `0` of its
    /// font measures `letter`.
    pub fn draw_subplot_at(&self, index: usize, letter: Size) -> (r: Result<SubplotDrawing, PltError>)
        requires
            self.wf(),
            index < self.subplots@.len(),
        ensures
            r is Err <==> layout_fails(self.subplots@[index as int]),
            r is Ok ==> drawing_ok(
                r->Ok_0,
                self.subplots@[index as int],
                self.subplot_areas@[index as int],
                self.scaling,
                letter,
            ),
    {
        draw_subplot(&self.subplots[index], &self.subplot_areas[index], self.scaling, letter)
    }
}

impl Default for Figure {
    /// An empty figure of the default format: 675 by 500 dots.
    fn default() -> (r: Self)
        ensures
            r.wf(),
            r.subplots@.len() == 0,
            r.size == (Size { width: 675, height: 500 }),
            r.scaling == 1_000_000,
            r.dpi == 100,
    {
        Figure::new(&FigureFormat::default())
    }
}

} // verus!
