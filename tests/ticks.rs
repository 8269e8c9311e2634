use plt::error::PltError;
use plt::fixed::{round_to, sigdigit, NO_DIGIT, SCALE};
use plt::text::{format_fixed, format_plain, superscript};
use plt::ticks::{
    even_ticks_exec, generate_ticks, remove_overlap, sort_ticks, tick_modifiers, ticks_to_labels,
    TickSpacing,
};

fn units(v: &[f64]) -> Vec<i64> {
    v.iter().map(|x| (x * 1_000_000.0).round() as i64).collect()
}

fn texts(v: &[String]) -> Vec<&str> {
    v.iter().map(|s| s.as_str()).collect()
}

#[test]
fn sigdigit_of_examples() {
    assert_eq!(sigdigit(432 * SCALE), 2);
    assert_eq!(sigdigit(40_000), -2);
    assert_eq!(sigdigit(-432 * SCALE), 2);
    assert_eq!(sigdigit(SCALE), 0);
    assert_eq!(sigdigit(1), -6);
    assert_eq!(sigdigit(0), NO_DIGIT);
}

#[test]
fn round_to_places() {
    assert_eq!(round_to(1_234_567, 2), 1_230_000);
    assert_eq!(round_to(1_235_000, 2), 1_240_000);
    assert_eq!(round_to(-1_235_000, 2), -1_240_000);
    assert_eq!(round_to(1_234_567, 8), 1_234_567);
    assert_eq!(round_to(123_456_000_000, -2), 123_500_000_000);
    assert_eq!(round_to(5, -20), 0);
}

#[test]
fn formatting_numbers() {
    assert_eq!(format_fixed(-12_500_000, 2), "-12.50");
    assert_eq!(format_fixed(2_000_000, 0), "2");
    assert_eq!(format_fixed(1_250_000, 1), "1.3");
    assert_eq!(format_fixed(0, 3), "0.000");
    assert_eq!(format_plain(1_500_000), "1.5");
    assert_eq!(format_plain(2_000_000), "2");
    assert_eq!(format_plain(-125_000), "-0.125");
}

#[test]
fn superscript_digits() {
    assert_eq!(superscript(0), "⁰");
    assert_eq!(superscript(5), "⁵");
    assert_eq!(superscript(12), "¹²");
    assert_eq!(superscript(307), "³⁰⁷");
}

#[test]
fn modifiers_of_ordinary_ticks() {
    let ticks = units(&[0.0, 0.5, 1.0, 1.5, 2.0]);
    assert_eq!(tick_modifiers(&ticks).unwrap(), (0, 0, 1));
    let labels = ticks_to_labels(&ticks, (0, 0, 1)).unwrap();
    assert_eq!(texts(&labels), vec!["0.0", "0.5", "1.0", "1.5", "2.0"]);
}

#[test]
fn modifiers_of_empty_ticks() {
    assert_eq!(tick_modifiers(&vec![]).unwrap(), (0, 0, 0));
    assert!(ticks_to_labels(&vec![], (0, 0, 0)).unwrap().is_empty());
}

#[test]
fn modifiers_with_exponent() {
    let ticks = units(&[0.0, 25000.0, 50000.0, 75000.0, 100000.0]);
    let m = tick_modifiers(&ticks).unwrap();
    assert_eq!(m, (0, 5, 2));
    let labels = ticks_to_labels(&ticks, m).unwrap();
    assert_eq!(texts(&labels), vec!["0.00", "0.25", "0.50", "0.75", "1.00"]);
}

#[test]
fn modifiers_with_small_exponent() {
    let ticks = units(&[0.0, 0.0005, 0.001]);
    let m = tick_modifiers(&ticks).unwrap();
    assert_eq!(m, (0, -3, 1));
    let labels = ticks_to_labels(&ticks, m).unwrap();
    assert_eq!(texts(&labels), vec!["0.0", "0.5", "1.0"]);
}

#[test]
fn modifiers_with_offset() {
    let ticks = units(&[1000.1, 1000.2, 1000.3]);
    let m = tick_modifiers(&ticks).unwrap();
    assert_eq!(m, (1_000_100_000, 0, 1));
    let labels = ticks_to_labels(&ticks, m).unwrap();
    assert_eq!(texts(&labels), vec!["0.0", "0.1", "0.2"]);
}

#[test]
fn precision_shows_every_digit() {
    // no tick loses a digit, and each label reads back within a unit of its last place
    let ticks = units(&[-1.25, 0.0, 1.25, 2.5]);
    let (offset, exponent, precision) = tick_modifiers(&ticks).unwrap();
    assert_eq!((offset, exponent, precision), (0, 0, 2));
    let labels = ticks_to_labels(&ticks, (offset, exponent, precision)).unwrap();
    assert_eq!(texts(&labels), vec!["-1.25", "0.00", "1.25", "2.50"]);
    for (label, tick) in labels.iter().zip(ticks.iter()) {
        let back: f64 = label.parse().unwrap();
        assert!((back - *tick as f64 / 1e6).abs() < 10f64.powi(-(precision as i32)));
    }
}

#[test]
fn single_tick_has_modifiers() {
    assert_eq!(tick_modifiers(&units(&[5.0])).unwrap(), (0, 0, 0));
}

#[test]
fn tick_out_of_range_is_refused() {
    let ticks = vec![0, i64::MAX];
    assert!(matches!(tick_modifiers(&ticks), Err(PltError::BadTickPlacement(_))));
    assert!(matches!(ticks_to_labels(&ticks, (0, 0, 0)), Err(PltError::BadTickPlacement(_))));
}

#[test]
fn labels_come_sorted() {
    let ticks = units(&[2.0, 0.0, 1.0]);
    let labels = ticks_to_labels(&ticks, (0, 0, 0)).unwrap();
    assert_eq!(texts(&labels), vec!["0", "1", "2"]);
    assert_eq!(sort_ticks(&ticks), units(&[0.0, 1.0, 2.0]));
}

#[test]
fn count_ticks_include_both_ends() {
    let t = generate_ticks(&TickSpacing::Count(5), (0, 2 * SCALE), true, 5).unwrap();
    assert_eq!(t, units(&[0.0, 0.5, 1.0, 1.5, 2.0]));
    let t = generate_ticks(&TickSpacing::Count(4), (-SCALE, 2), false, 5).unwrap();
    assert_eq!(t.len(), 4);
    assert_eq!(t[0], -SCALE);
    assert_eq!(t[3], 2);
    assert!(t.windows(2).all(|w| w[0] <= w[1]));
}

#[test]
fn on_and_auto_ticks() {
    assert_eq!(generate_ticks(&TickSpacing::On, (0, 4), false, 5).unwrap(), vec![0, 1, 2, 3, 4]);
    assert_eq!(generate_ticks(&TickSpacing::Auto, (0, 4), true, 5).unwrap().len(), 5);
    assert!(generate_ticks(&TickSpacing::Auto, (0, 4), false, 5).unwrap().is_empty());
    assert!(generate_ticks(&TickSpacing::Off, (0, 4), true, 5).unwrap().is_empty());
    assert_eq!(generate_ticks(&TickSpacing::Manual(vec![3, 1]), (0, 4), true, 5).unwrap(), vec![3, 1]);
}

#[test]
fn single_count_tick_is_refused() {
    assert!(matches!(
        generate_ticks(&TickSpacing::Count(1), (0, 4), true, 5),
        Err(PltError::BadTickPlacement(_))
    ));
    assert!(generate_ticks(&TickSpacing::Count(0), (0, 4), true, 5).unwrap().is_empty());
}

#[test]
fn even_ticks_round_down() {
    assert_eq!(even_ticks_exec((0, 10), 4), vec![0, 3, 6, 10]);
    assert_eq!(even_ticks_exec((10, 0), 4), vec![10, 6, 3, 0]);
}

#[test]
fn minor_ticks_skip_major_ones() {
    let major = units(&[0.0, 1.0, 2.0]);
    let minor = units(&[0.0, 0.5, 1.0, 1.5, 2.0]);
    let kept = remove_overlap(&minor, &major);
    assert_eq!(kept, units(&[0.5, 1.5]));
    assert!(kept.iter().all(|t| !major.contains(t)));
}
