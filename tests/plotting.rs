use plt::axis::finalize_axis;
use plt::draw::{Area, Color, DrawCommand, Shape, Size};
use plt::error::PltError;
use plt::figure::{draw_subplot, modifier_string, Figure, FigureFormat};
use plt::fixed::SCALE;
use plt::grid::GridCell;
use plt::layout::{FractionalArea, GridLayout, Layout, SingleLayout};
use plt::space::{allocate, AxisNeeds, Metrics, PerAxis};
use plt::subplot::{
    AxisType, Axes, FillBetweenData, Limits, StepData, Subplot, SubplotFormat,
};
use plt::ticks::{TickLabels, TickSpacing};
use plt::transform::{fraction_of, to_point};

fn units(v: &[f64]) -> Vec<i64> {
    v.iter().map(|x| (x * 1_000_000.0).round() as i64).collect()
}

fn cubic_subplot() -> Subplot {
    let mut sp = Subplot::builder()
        .xlimits(Limits::Manual { min: 0, max: 2 * SCALE })
        .ylimits(Limits::Manual { min: 0, max: 10 * SCALE })
        .major_tick_marks(Axes::BothPrimary, TickSpacing::On)
        .build();
    sp.plot(units(&[0.0, 1.0, 2.0]), units(&[0.0, 1.0, 8.0])).unwrap();
    sp
}

#[test]
fn cubic_scenario_ticks_and_transform() {
    let sp = cubic_subplot();
    let x = finalize_axis(&sp, AxisType::X).unwrap();
    let y = finalize_axis(&sp, AxisType::Y).unwrap();
    assert_eq!(x.major_tick_locs, units(&[0.0, 0.5, 1.0, 1.5, 2.0]));
    assert_eq!(y.major_tick_locs, units(&[0.0, 2.5, 5.0, 7.5, 10.0]));
    assert_eq!(x.limits, (0, 2 * SCALE));
    assert_eq!(y.limits, (0, 10 * SCALE));
    assert_eq!(fraction_of(2 * SCALE, 0, 2 * SCALE), 1_000_000);
    assert_eq!(fraction_of(8 * SCALE, 0, 10 * SCALE), 800_000);
    let area = Area { xmin: 100, xmax: 300, ymin: 50, ymax: 150 };
    let p = to_point(&area, x.limits, y.limits, 2 * SCALE, 8 * SCALE, false);
    assert_eq!((p.x, p.y), (300_000_000, 130_000_000));
    let labels: Vec<&str> = y.major_tick_labels.iter().map(|s| s.as_str()).collect();
    assert_eq!(labels, vec!["0.0", "2.5", "5.0", "7.5", "10.0"]);
    // minor ticks never repeat a major tick
    assert!(x.minor_tick_locs.iter().all(|t| !x.major_tick_locs.contains(t)));
    assert_eq!(x.minor_tick_locs.len(), 25 - 5);
}

#[test]
fn span_grows_with_every_plot() {
    let mut sp = Subplot::builder().build();
    sp.plot(units(&[0.0, 1.0]), units(&[2.0, 3.0])).unwrap();
    assert_eq!(sp.xaxis.span, Some((0, SCALE)));
    assert_eq!(sp.xaxis.limits, Some((-50_000, 1_050_000)));
    sp.plot(units(&[-1.0, 0.5]), units(&[0.0, 2.5])).unwrap();
    assert_eq!(sp.xaxis.span, Some((-SCALE, SCALE)));
    assert_eq!(sp.yaxis.span, Some((0, 3 * SCALE)));
    assert_eq!(sp.xaxis.limits, Some((-1_100_000, 1_100_000)));
    sp.plot(units(&[0.2]), units(&[1.0])).unwrap();
    assert_eq!(sp.xaxis.span, Some((-SCALE, SCALE)));
}

#[test]
fn flat_data_gets_unit_padding() {
    let mut sp = Subplot::builder().build();
    sp.plot(units(&[2.0, 2.0]), units(&[1.0, 1.0])).unwrap();
    assert_eq!(sp.xaxis.limits, Some((SCALE, 3 * SCALE)));
}

#[test]
fn manual_limits_stay() {
    let sp = cubic_subplot();
    assert_eq!(sp.xaxis.span, Some((0, 2 * SCALE)));
    assert_eq!(sp.yaxis.limits, Some((0, 10 * SCALE)));
}

#[test]
fn invalid_data_is_refused() {
    let mut sp = Subplot::builder().build();
    assert!(matches!(sp.plot(vec![0, 1], vec![0]), Err(PltError::InvalidData(_))));
    assert!(matches!(sp.plot(vec![0, i64::MAX], vec![0, 1]), Err(PltError::InvalidData(_))));
    assert!(matches!(sp.step(vec![0, 1], vec![0, 1]), Err(PltError::InvalidData(_))));
    assert!(matches!(sp.fill_between(vec![0, 1], vec![0], vec![0, 1]), Err(PltError::InvalidData(_))));
    assert!(sp.plot_infos.is_empty());
    assert!(sp.xaxis.span.is_none());
}

#[test]
fn step_data_expands_to_pairs() {
    let d = StepData::new(units(&[0.0, 10.0, 20.0]), units(&[5.0, 3.0]));
    assert_eq!(
        d.data(),
        vec![
            (0, 5 * SCALE),
            (10 * SCALE, 5 * SCALE),
            (10 * SCALE, 3 * SCALE),
            (20 * SCALE, 3 * SCALE)
        ]
    );
    let mut sp = Subplot::builder().build();
    sp.step(units(&[0.0, 10.0, 20.0]), units(&[5.0, 3.0])).unwrap();
    assert!(sp.plot_infos[0].pixel_perfect);
    assert_eq!(sp.plot_infos[0].data.data().len(), 4);
    assert_eq!(sp.xaxis.span, Some((0, 20 * SCALE)));
}

#[test]
fn fill_between_makes_closed_loop() {
    let d = FillBetweenData::new(units(&[0.0, 1.0, 2.0]), units(&[1.0, 1.0, 1.0]), units(&[0.0, 0.0, 0.0]));
    let loop_points = d.outline_points();
    assert_eq!(
        loop_points,
        vec![
            (0, SCALE),
            (SCALE, SCALE),
            (2 * SCALE, SCALE),
            (2 * SCALE, 0),
            (SCALE, 0),
            (0, 0)
        ]
    );
    let mut sp = Subplot::builder().build();
    sp.fill_between(units(&[0.0, 1.0, 2.0]), units(&[1.0, 1.0, 1.0]), units(&[0.0, 0.0, 0.0])).unwrap();
    let cmds = draw_subplot(&sp, &Area { xmin: 0, xmax: 675, ymin: 0, ymax: 500 }, SCALE, Size { width: 11, height: 14 }).unwrap().commands;
    let fills: Vec<&DrawCommand> = cmds.iter().filter(|c| matches!(c, DrawCommand::Fill(_))).collect();
    assert_eq!(fills.len(), 1);
    if let DrawCommand::Fill(f) = fills[0] {
        assert_eq!(f.points.len(), 6);
        assert_eq!(f.fill_color, Color { r: 271, g: 522, b: 533, a: 500 });
    }
}

#[test]
fn bare_subplot_keeps_a_letter_of_margin() {
    let none = AxisNeeds { major_ticks: false, minor_ticks: false, tick_labels: false, modifier: false, label: false };
    let n = PerAxis { x: none, y: none, secondary_x: none, secondary_y: none };
    let m = Metrics { letter_width: 11, letter_height: 14, outer_major: 0, outer_minor: 0 };
    let b = allocate(&n, false, &m);
    for t in [AxisType::X, AxisType::Y, AxisType::SecondaryX, AxisType::SecondaryY] {
        let total = b.subplot.get(t) + b.label.get(t) + b.modifier.get(t) + b.tick_label.get(t) + b.tick.get(t);
        assert_eq!(total, 11);
    }
    let sp = Subplot::builder()
        .major_tick_labels(Axes::All, TickLabels::Off)
        .minor_tick_labels(Axes::All, TickLabels::Off)
        .build();
    let cmds = draw_subplot(&sp, &Area { xmin: 0, xmax: 600, ymin: 0, ymax: 400 }, SCALE, Size { width: 11, height: 14 }).unwrap().commands;
    match &cmds[0] {
        DrawCommand::Shape(s) => {
            assert_eq!(s.shape, Shape::Rectangle { h: 400 - 22, w: 600 - 22 });
        },
        _ => panic!("the background comes first"),
    }
}

#[test]
fn labels_take_space() {
    let full = AxisNeeds { major_ticks: true, minor_ticks: true, tick_labels: true, modifier: true, label: true };
    let none = AxisNeeds { major_ticks: false, minor_ticks: false, tick_labels: false, modifier: false, label: false };
    let n = PerAxis { x: full, y: full, secondary_x: none, secondary_y: none };
    let m = Metrics { letter_width: 10, letter_height: 20, outer_major: 8, outer_minor: 4 };
    let b = allocate(&n, true, &m);
    assert_eq!(b.tick.x, 8 + 12);
    assert_eq!(b.modifier.x, 20 + 13);
    assert_eq!(b.tick_label.x, 12 + 12);
    assert_eq!(b.label.x, 20);
    assert_eq!(b.subplot.x, 12);
    assert_eq!(b.modifier.y, 50);
    assert_eq!(b.modifier.secondary_x, 13);
    assert_eq!(b.label.secondary_x, 12);
    assert_eq!(b.title, 20);
}

#[test]
fn manual_label_count_must_match() {
    let mut sp = Subplot::builder()
        .major_tick_labels(Axes::X, TickLabels::Manual(vec!["a".to_string(), "b".to_string()]))
        .build();
    sp.plot(units(&[0.0, 1.0]), units(&[0.0, 1.0])).unwrap();
    assert!(matches!(finalize_axis(&sp, AxisType::X), Err(PltError::BadTickLabels(_))));
    let area = Area { xmin: 0, xmax: 600, ymin: 0, ymax: 400 };
    assert!(matches!(draw_subplot(&sp, &area, SCALE, Size { width: 11, height: 14 }), Err(PltError::BadTickLabels(_))));
}

#[test]
fn manual_tick_out_of_range_is_refused() {
    let sp = Subplot::builder()
        .major_tick_marks(Axes::X, TickSpacing::Manual(vec![0, i64::MAX]))
        .major_tick_labels(Axes::X, TickLabels::On)
        .build();
    assert!(matches!(finalize_axis(&sp, AxisType::X), Err(PltError::BadTickPlacement(_))));
}

#[test]
fn secondary_axis_borrows_from_primary() {
    let mut sp = Subplot::builder().build();
    sp.plot(units(&[0.0, 1.0]), units(&[0.0, 1.0])).unwrap();
    let sx = finalize_axis(&sp, AxisType::SecondaryX).unwrap();
    assert_eq!(sx.limits, (-50_000, 1_050_000));
    // unused axis: ticks but no labels
    assert_eq!(sx.major_tick_locs.len(), 5);
    assert!(sx.major_tick_labels.is_empty());
    let empty = Subplot::builder().build();
    let x = finalize_axis(&empty, AxisType::X).unwrap();
    assert_eq!(x.limits, (-SCALE, SCALE));
}

#[test]
fn modifier_texts() {
    assert_eq!(modifier_string(3, 0), "x10³");
    assert_eq!(modifier_string(-4, 0), "x10⁻⁴");
    assert_eq!(modifier_string(3, 2_500_000), "x10³ + 2.5");
    assert_eq!(modifier_string(0, 1_000_100_000), "+ 1000.1");
    assert_eq!(modifier_string(0, 0), "");
}

#[test]
fn draw_order_keeps_plotting_order() {
    let mut sp = Subplot::builder().title("cubes").build();
    sp.fill_between(units(&[0.0, 1.0]), units(&[1.0, 1.0]), units(&[0.0, 0.0])).unwrap();
    sp.plot(units(&[0.0, 1.0]), units(&[0.0, 1.0])).unwrap();
    let cmds = draw_subplot(&sp, &Area { xmin: 0, xmax: 675, ymin: 0, ymax: 500 }, SCALE, Size { width: 11, height: 14 }).unwrap().commands;
    let fill_at = cmds.iter().position(|c| matches!(c, DrawCommand::Fill(_))).unwrap();
    let curve_at = cmds.iter().position(|c| matches!(c, DrawCommand::Curve(_))).unwrap();
    assert!(fill_at < curve_at);
    match cmds.last().unwrap() {
        DrawCommand::Text(t) => assert_eq!(t.text, "cubes"),
        _ => panic!("the title comes last"),
    }
    if let DrawCommand::Curve(c) = &cmds[curve_at] {
        assert_eq!(c.line_color, Color { r: 271, g: 522, b: 533, a: 1000 });
        assert_eq!(c.points.len(), 2);
    }
}

#[test]
fn fractional_areas() {
    let good = FractionalArea { xmin: 0, xmax: 500_000, ymin: 250_000, ymax: 1_000_000 };
    assert!(good.valid());
    let a = good.to_area(Size { width: 675, height: 500 });
    assert_eq!(a, Area { xmin: 0, xmax: 337, ymin: 125, ymax: 500 });
    assert!(!FractionalArea { xmin: 0, xmax: 0, ymin: 0, ymax: 1 }.valid());
    assert!(!FractionalArea { xmin: 0, xmax: 1_000_001, ymin: 0, ymax: 1 }.valid());
}

#[test]
fn figure_from_single_layout() {
    let format = FigureFormat::default();
    let mut fig = Figure::new(&format);
    assert_eq!(fig.size, Size { width: 675, height: 500 });
    fig.set_layout(SingleLayout::new(cubic_subplot())).unwrap();
    assert_eq!(fig.len(), 1);
    assert_eq!(fig.subplot_areas[0], Area { xmin: 0, xmax: 675, ymin: 0, ymax: 500 });
    assert_eq!(fig.text_font(0).size, 20 * SCALE);
    assert!(fig.draw_subplot_at(0, Size { width: 11, height: 14 }).is_ok());
}

#[test]
fn grid_layout_places_cells() {
    let mut g = GridLayout::new(2, 2);
    assert!(matches!(g.insert((2, 0), Subplot::builder().build()), Err(PltError::InvalidRow { row: 2, nrows: 2 })));
    assert!(matches!(g.insert((0, 5), Subplot::builder().build()), Err(PltError::InvalidColumn { col: 5, ncols: 2 })));
    g.insert((1, 0), Subplot::builder().title("low").build()).unwrap();
    g.insert((0, 1), Subplot::builder().title("high").build()).unwrap();
    let placed = g.subplots();
    assert_eq!(placed.len(), 2);
    assert_eq!(placed[0].0.title, "high");
    assert_eq!(placed[0].1, FractionalArea { xmin: 500_000, xmax: 1_000_000, ymin: 500_000, ymax: 1_000_000 });
    assert_eq!(placed[1].0.title, "low");
    assert_eq!(placed[1].1, FractionalArea { xmin: 0, xmax: 500_000, ymin: 0, ymax: 500_000 });
}

#[test]
fn grid_layout_from_rows() {
    let rows = vec![
        vec![Some(Subplot::builder().title("a").build()), None],
        vec![None, Some(Subplot::builder().title("b").build())],
    ];
    let g = GridLayout::from_array(rows);
    let placed = g.subplots();
    assert_eq!(placed.len(), 2);
    assert_eq!(placed[0].0.title, "a");
    assert_eq!(placed[1].0.title, "b");
    assert_eq!(placed[1].1, FractionalArea { xmin: 500_000, xmax: 1_000_000, ymin: 0, ymax: 500_000 });
    let _unused: Option<GridCell> = None;
}

#[test]
fn dark_format_colors() {
    let f = SubplotFormat::dark();
    assert_eq!(f.plot_color, Color { r: 157, g: 157, b: 157, a: 1000 });
    assert_eq!(f.color_cycle.len(), 5);
}

#[test]
fn empty_manual_labels_are_refused() {
    let mut sp = Subplot::builder()
        .major_tick_labels(Axes::X, TickLabels::Manual(vec![]))
        .build();
    sp.plot(units(&[0.0, 1.0]), units(&[0.0, 1.0])).unwrap();
    assert!(matches!(finalize_axis(&sp, AxisType::X), Err(PltError::BadTickLabels(_))));
}

#[test]
fn narrow_area_rounds_down() {
    let a = FractionalArea { xmin: 1, xmax: 2, ymin: 0, ymax: 1_000_000 }.to_area(Size { width: 100, height: 100 });
    assert_eq!(a, Area { xmin: 1, xmax: 0, ymin: 0, ymax: 100 });
}

#[test]
fn area_below_a_dot_is_refused() {
    let format = FigureFormat { size: plt::figure::FigSize { width: 10_000, height: 10_000 }, ..FigureFormat::default() };
    let mut fig = Figure::new(&format);
    assert_eq!(fig.size, Size { width: 1, height: 1 });
    let mut g = GridLayout::new(1, 3);
    for col in 0..3 {
        g.insert((0, col), Subplot::builder().build()).unwrap();
    }
    match fig.set_layout(g) {
        Err(PltError::InvalidSubplotArea(a)) => {
            assert_eq!(a, FractionalArea { xmin: 333_333, xmax: 666_666, ymin: 0, ymax: 1_000_000 })
        },
        _ => panic!("the middle cell is less than a dot wide"),
    }
    assert_eq!(fig.len(), 0);
}

#[test]
fn drawn_ticks_sit_at_their_values() {
    let sp = cubic_subplot();
    let area = Area { xmin: 0, xmax: 675, ymin: 0, ymax: 500 };
    let d = draw_subplot(&sp, &area, SCALE, Size { width: 11, height: 14 }).unwrap();
    let plot = d.layout.regions.plot;
    let x = &d.layout.axes[0];
    assert_eq!(x.major_tick_locs, units(&[0.0, 0.5, 1.0, 1.5, 2.0]));
    let xs: Vec<i64> = d
        .commands
        .iter()
        .filter_map(|c| match c {
            DrawCommand::Line(l) if l.line.p1.x == l.line.p2.x && l.line.p1.y < plot.ymin as i64 * 1_000_000 + 1 && l.line.p2.y > plot.ymin as i64 * 1_000_000 - 1 && l.line.p1.y != l.line.p2.y && l.line_width == 2 => Some(l.line.p1.x),
            _ => None,
        })
        .collect();
    let w = (plot.xmax - plot.xmin) as f64;
    for v in [0.0, 0.5, 1.0, 1.5, 2.0] {
        let want = ((plot.xmin as f64 + v / 2.0 * w).round() * 1e6) as i64;
        assert!(xs.contains(&want), "no tick at {}", want);
    }
}
