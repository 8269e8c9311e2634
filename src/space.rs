//! The space allocator: the margins that each side of a subplot needs for
//! axis labels, modifiers, tick labels and tick marks, and the nested
//! areas that they leave, down to the plot area.

use crate::draw::Area;
use crate::subplot::AxisType;
use vstd::prelude::*;

verus! {

/// One value for each axis slot.
#[derive(Copy, Clone, Debug, PartialEq, Eq, Structural)]
pub struct PerAxis<T> {
    pub x: T,
    pub y: T,
    pub secondary_x: T,
    pub secondary_y: T,
}

impl<T: Copy> PerAxis<T> {
    pub open spec fn at(&self, t: AxisType) -> T {
        match t {
            AxisType::X => self.x,
            AxisType::Y => self.y,
            AxisType::SecondaryX => self.secondary_x,
            AxisType::SecondaryY => self.secondary_y,
        }
    }

    pub fn get(&self, t: AxisType) -> (r: T)
        ensures
            r == self.at(t),
    {
        match t {
            AxisType::X => self.x,
            AxisType::Y => self.y,
            AxisType::SecondaryX => self.secondary_x,
            AxisType::SecondaryY => self.secondary_y,
        }
    }
}

/// What an axis puts beside the plot area.
#[derive(Copy, Clone, Debug, PartialEq, Eq, Structural)]
pub struct AxisNeeds {
    pub major_ticks: bool,
    pub minor_ticks: bool,
    pub tick_labels: bool,
    /// An exponent or an offset is shown beside the labels.
    pub modifier: bool,
    pub label: bool,
}

/// Sizes in dots that the layout depends on.
#[derive(Copy, Clone, Debug, PartialEq, Eq, Structural)]
pub struct Metrics {
    /// Width of the letter `0` in the subplot's font.
    pub letter_width: u32,
    /// Height of the letter `0` in the subplot's font.
    pub letter_height: u32,
    /// Outer length of major tick marks.
    pub outer_major: u32,
    /// Outer length of minor tick marks.
    pub outer_minor: u32,
}

/// The margins of each side, outermost first.
#[derive(Copy, Clone, Debug, PartialEq, Eq, Structural)]
pub struct Buffers {
    pub subplot: PerAxis<u64>,
    pub label: PerAxis<u64>,
    pub modifier: PerAxis<u64>,
    pub tick_label: PerAxis<u64>,
    pub tick: PerAxis<u64>,
    /// Height reserved for the title.
    pub title: u64,
}

impl Buffers {
    /// Every margin below a million million dots.
    pub open spec fn bounded(&self) -> bool {
        let k = 1_000_000_000_000u64;
        &&& self.subplot.x < k && self.subplot.y < k && self.subplot.secondary_x < k && self.subplot.secondary_y < k
        &&& self.label.x < k && self.label.y < k && self.label.secondary_x < k && self.label.secondary_y < k
        &&& self.modifier.x < k && self.modifier.y < k && self.modifier.secondary_x < k && self.modifier.secondary_y < k
        &&& self.tick_label.x < k && self.tick_label.y < k && self.tick_label.secondary_x < k && self.tick_label.secondary_y < k
        &&& self.tick.x < k && self.tick.y < k && self.tick.secondary_x < k && self.tick.secondary_y < k
        &&& self.title < k
    }
}

/// The gap between neighbouring texts: six tenths of a letter's height.
pub open spec fn gap(m: Metrics) -> int {
    m.letter_height * 6 / 10
}

/// Space for tick labels on side `t`: five letters wide beside a y-axis,
/// one letter high beside an x-axis.
pub open spec fn tick_label_size(t: AxisType, m: Metrics) -> int {
    match t {
        AxisType::Y | AxisType::SecondaryY => 5 * m.letter_width,
        _ => m.letter_height as int,
    }
}

/// The modifier of the axis in slot `t` is drawn on side `t`: that of the
/// y-axis goes above, on the secondary x side.
pub open spec fn modifier_here(t: AxisType, n: PerAxis<AxisNeeds>) -> bool {
    (t == AxisType::X && n.x.modifier) || (t == AxisType::SecondaryX && n.y.modifier)
}

pub open spec fn tick_buffer(t: AxisType, n: PerAxis<AxisNeeds>, m: Metrics) -> int {
    let a = n.at(t);
    (if a.major_ticks {
        m.outer_major as int
    } else if a.minor_ticks {
        m.outer_minor as int
    } else {
        0
    }) + (if a.tick_labels {
        gap(m)
    } else {
        0
    })
}

pub open spec fn modifier_buffer(t: AxisType, n: PerAxis<AxisNeeds>, m: Metrics) -> int {
    (if n.at(t).tick_labels {
        tick_label_size(t, m)
    } else {
        0
    }) + (if modifier_here(t, n) {
        m.letter_height * 2 / 3
    } else {
        0
    })
}

pub open spec fn tick_label_buffer(t: AxisType, n: PerAxis<AxisNeeds>, m: Metrics) -> int {
    (if n.at(t).label {
        gap(m)
    } else {
        0
    }) + (if modifier_here(t, n) {
        gap(m)
    } else {
        0
    })
}

pub open spec fn axis_label_buffer(t: AxisType, n: PerAxis<AxisNeeds>, m: Metrics) -> int {
    if n.at(t).label {
        m.letter_height as int
    } else {
        0
    }
}

/// The margin that side `t` needs for its axis.
pub open spec fn axis_margin(t: AxisType, n: PerAxis<AxisNeeds>, m: Metrics) -> int {
    tick_buffer(t, n, m) + modifier_buffer(t, n, m) + tick_label_buffer(t, n, m) + axis_label_buffer(t, n, m)
}

/// The outermost margin: one letter width where the axis needs less than
/// two, else a gap.
pub open spec fn subplot_buffer(t: AxisType, n: PerAxis<AxisNeeds>, m: Metrics) -> int {
    if axis_margin(t, n, m) < 2 * m.letter_width {
        m.letter_width as int
    } else {
        gap(m)
    }
}

/// The margins of every side.
pub open spec fn buffers_of(n: PerAxis<AxisNeeds>, title: bool, m: Metrics) -> Buffers {
    Buffers {
        subplot: PerAxis {
            x: subplot_buffer(AxisType::X, n, m) as u64,
            y: subplot_buffer(AxisType::Y, n, m) as u64,
            secondary_x: subplot_buffer(AxisType::SecondaryX, n, m) as u64,
            secondary_y: subplot_buffer(AxisType::SecondaryY, n, m) as u64,
        },
        label: PerAxis {
            x: axis_label_buffer(AxisType::X, n, m) as u64,
            y: axis_label_buffer(AxisType::Y, n, m) as u64,
            secondary_x: (axis_label_buffer(AxisType::SecondaryX, n, m) + if title {
                gap(m)
            } else {
                0
            }) as u64,
            secondary_y: axis_label_buffer(AxisType::SecondaryY, n, m) as u64,
        },
        modifier: PerAxis {
            x: modifier_buffer(AxisType::X, n, m) as u64,
            y: modifier_buffer(AxisType::Y, n, m) as u64,
            secondary_x: modifier_buffer(AxisType::SecondaryX, n, m) as u64,
            secondary_y: modifier_buffer(AxisType::SecondaryY, n, m) as u64,
        },
        tick_label: PerAxis {
            x: tick_label_buffer(AxisType::X, n, m) as u64,
            y: tick_label_buffer(AxisType::Y, n, m) as u64,
            secondary_x: tick_label_buffer(AxisType::SecondaryX, n, m) as u64,
            secondary_y: tick_label_buffer(AxisType::SecondaryY, n, m) as u64,
        },
        tick: PerAxis {
            x: tick_buffer(AxisType::X, n, m) as u64,
            y: tick_buffer(AxisType::Y, n, m) as u64,
            secondary_x: tick_buffer(AxisType::SecondaryX, n, m) as u64,
            secondary_y: tick_buffer(AxisType::SecondaryY, n, m) as u64,
        },
        title: if title {
            m.letter_height as u64
        } else {
            0
        },
    }
}

fn side_buffers(t: AxisType, n: &PerAxis<AxisNeeds>, m: &Metrics) -> (r: (u64, u64, u64, u64, u64))
    ensures
        r.0 == subplot_buffer(t, *n, *m),
        r.1 == axis_label_buffer(t, *n, *m),
        r.2 == modifier_buffer(t, *n, *m),
        r.3 == tick_label_buffer(t, *n, *m),
        r.4 == tick_buffer(t, *n, *m),
        r.0 < 100_000_000_000 && r.1 < 100_000_000_000 && r.2 < 100_000_000_000,
        r.3 < 100_000_000_000 && r.4 < 100_000_000_000,
{
    let a = n.get(t);
    let w = m.letter_width as u64;
    let h = m.letter_height as u64;
    let gap = h * 6 / 10;
    let here = (t == AxisType::X && n.x.modifier) || (t == AxisType::SecondaryX && n.y.modifier);
    let size = match t {
        AxisType::Y | AxisType::SecondaryY => 5 * w,
        _ => h,
    };
    let tick = (if a.major_ticks {
        m.outer_major as u64
    } else if a.minor_ticks {
        m.outer_minor as u64
    } else {
        0
    }) + (if a.tick_labels { gap } else { 0 });
    let modifier = (if a.tick_labels { size } else { 0 }) + (if here { h * 2 / 3 } else { 0 });
    let tick_label = (if a.label { gap } else { 0 }) + (if here { gap } else { 0 });
    let label = if a.label { h } else { 0 };
    let sum = tick + modifier + tick_label + label;
    let subplot = if sum < 2 * w { w } else { gap };
    (subplot, label, modifier, tick_label, tick)
}

/// The margins of every side of a subplot whose axes need `n`, with a
/// title or not.
pub fn allocate(n: &PerAxis<AxisNeeds>, title: bool, m: &Metrics) -> (r: Buffers)
    ensures
        r == buffers_of(*n, title, *m),
        r.bounded(),
{
    let bx = side_buffers(AxisType::X, n, m);
    let by = side_buffers(AxisType::Y, n, m);
    let bsx = side_buffers(AxisType::SecondaryX, n, m);
    let bsy = side_buffers(AxisType::SecondaryY, n, m);
    let gap = m.letter_height as u64 * 6 / 10;
    Buffers {
        subplot: PerAxis { x: bx.0, y: by.0, secondary_x: bsx.0, secondary_y: bsy.0 },
        label: PerAxis {
            x: bx.1,
            y: by.1,
            secondary_x: bsx.1 + if title { gap } else { 0 },
            secondary_y: bsy.1,
        },
        modifier: PerAxis { x: bx.2, y: by.2, secondary_x: bsx.2, secondary_y: bsy.2 },
        tick_label: PerAxis { x: bx.3, y: by.3, secondary_x: bsx.3, secondary_y: bsy.3 },
        tick: PerAxis { x: bx.4, y: by.4, secondary_x: bsx.4, secondary_y: bsy.4 },
        title: if title { m.letter_height as u64 } else { 0 },
    }
}

/// Every side keeps a margin of at least one letter width, whatever its
/// axis shows: with no ticks and no labels anywhere the outermost margin
/// alone is one letter wide.
pub proof fn lemma_margin_floor(n: PerAxis<AxisNeeds>, title: bool, m: Metrics, t: AxisType)
    ensures
        buffers_of(n, title, m).subplot.at(t) + buffers_of(n, title, m).label.at(t)
            + buffers_of(n, title, m).modifier.at(t) + buffers_of(n, title, m).tick_label.at(t)
            + buffers_of(n, title, m).tick.at(t) >= m.letter_width,
{
}

/// `outer` with margins cut from each side; a margin larger than what is
/// left leaves an empty strip at the far edge.
pub open spec fn carve(outer: Area, left: int, right: int, bottom: int, top: int) -> Area {
    let xmin = if outer.xmin + left < outer.xmax { outer.xmin + left } else { outer.xmax as int };
    let xmax = if outer.xmax - right > xmin { outer.xmax - right } else { xmin };
    let ymin = if outer.ymin + bottom < outer.ymax { outer.ymin + bottom } else { outer.ymax as int };
    let ymax = if outer.ymax - top > ymin { outer.ymax - top } else { ymin };
    Area { xmin: xmin as u32, xmax: xmax as u32, ymin: ymin as u32, ymax: ymax as u32 }
}

/// Cuts margins from each side of `outer`.
pub fn carve_area(outer: &Area, left: u64, right: u64, bottom: u64, top: u64) -> (r: Area)
    requires
        outer.wf(),
    ensures
        r == carve(*outer, left as int, right as int, bottom as int, top as int),
        r.wf(),
        outer.xmin <= r.xmin && r.xmax <= outer.xmax,
        outer.ymin <= r.ymin && r.ymax <= outer.ymax,
{
    let xmin: u64 = if (outer.xmin as u64) < outer.xmax as u64 && left < outer.xmax as u64 - outer.xmin as u64 {
        outer.xmin as u64 + left
    } else {
        outer.xmax as u64
    };
    let xmax: u64 = if right < outer.xmax as u64 && outer.xmax as u64 - right > xmin {
        outer.xmax as u64 - right
    } else {
        xmin
    };
    let ymin: u64 = if (outer.ymin as u64) < outer.ymax as u64 && bottom < outer.ymax as u64 - outer.ymin as u64 {
        outer.ymin as u64 + bottom
    } else {
        outer.ymax as u64
    };
    let ymax: u64 = if top < outer.ymax as u64 && outer.ymax as u64 - top > ymin {
        outer.ymax as u64 - top
    } else {
        ymin
    };
    Area { xmin: xmin as u32, xmax: xmax as u32, ymin: ymin as u32, ymax: ymax as u32 }
}

/// The nested areas of a subplot, outermost first.
#[derive(Copy, Clone, Debug, PartialEq, Eq, Structural)]
pub struct Regions {
    /// Where the bottom of the title goes.
    pub title_y: u32,
    pub label: Area,
    pub modifier: Area,
    pub tick_label: Area,
    pub plot: Area,
}

pub open spec fn regions_of(area: Area, b: Buffers) -> Regions {
    let top = b.subplot.secondary_x + b.title;
    let title_y = if area.ymax - top > area.ymin { area.ymax - top } else { area.ymin as int };
    let label = carve(
        area,
        b.subplot.y + b.label.y,
        b.subplot.secondary_y + b.label.secondary_y,
        b.subplot.x + b.label.x,
        top + b.label.secondary_x,
    );
    let modifier = carve(label, b.modifier.y as int, b.modifier.secondary_y as int, b.modifier.x as int, b.modifier.secondary_x as int);
    let tick_label = carve(modifier, b.tick_label.y as int, b.tick_label.secondary_y as int, b.tick_label.x as int, b.tick_label.secondary_x as int);
    let plot = carve(tick_label, b.tick.y as int, b.tick.secondary_y as int, b.tick.x as int, b.tick.secondary_x as int);
    Regions { title_y: title_y as u32, label, modifier, tick_label, plot }
}

/// The margins carved from `area`, layer after layer.
pub fn regions(area: &Area, b: &Buffers) -> (r: Regions)
    requires
        area.wf(),
        b.bounded(),
    ensures
        r == regions_of(*area, *b),
        r.plot.wf(),
        r.tick_label.wf(),
        r.modifier.wf(),
        r.label.wf(),
{
    let top = b.subplot.secondary_x + b.title;
    let title_y: u32 = if top < area.ymax as u64 && area.ymax as u64 - top > area.ymin as u64 {
        (area.ymax as u64 - top) as u32
    } else {
        area.ymin
    };
    let label = carve_area(
        area,
        b.subplot.y + b.label.y,
        b.subplot.secondary_y + b.label.secondary_y,
        b.subplot.x + b.label.x,
        top + b.label.secondary_x,
    );
    let modifier = carve_area(&label, b.modifier.y, b.modifier.secondary_y, b.modifier.x, b.modifier.secondary_x);
    let tick_label = carve_area(&modifier, b.tick_label.y, b.tick_label.secondary_y, b.tick_label.x, b.tick_label.secondary_x);
    let plot = carve_area(&tick_label, b.tick.y, b.tick.secondary_y, b.tick.x, b.tick.secondary_x);
    Regions { title_y, label, modifier, tick_label, plot }
}

} // verus!
