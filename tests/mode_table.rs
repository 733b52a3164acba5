use bevy_color_blindness::{ChannelWeights, ColorBlindnessMode, ColorBlindnessPercentages, MIX_SCALE};

fn all_modes() -> Vec<ColorBlindnessMode> {
    vec![
    ColorBlindnessMode::Normal,
    ColorBlindnessMode::Protanopia,
    ColorBlindnessMode::Protanomaly,
    ColorBlindnessMode::Deuteranopia,
    ColorBlindnessMode::Deuteranomaly,
    ColorBlindnessMode::Tritanopia,
    ColorBlindnessMode::Tritanomaly,
    ColorBlindnessMode::Achromatopsia,
    ColorBlindnessMode::Achromatomaly,
    ]
}

fn w(red: u32, green: u32, blue: u32) -> ChannelWeights {
    ChannelWeights { red, green, blue }
}

fn total(row: ChannelWeights) -> u32 {
    row.red + row.green + row.blue
}

#[test]
fn normal_is_identity() {
    let p = ColorBlindnessMode::Normal.percentages();
    assert_eq!(p.red, w(MIX_SCALE, 0, 0));
    assert_eq!(p.green, w(0, MIX_SCALE, 0));
    assert_eq!(p.blue, w(0, 0, MIX_SCALE));
}

#[test]
fn default_mode_is_normal() {
    assert_eq!(ColorBlindnessMode::default(), ColorBlindnessMode::Normal);
}

#[test]
fn protanopia_matrix() {
    let p = ColorBlindnessMode::Protanopia.percentages();
    assert_eq!(
        p,
        ColorBlindnessPercentages {
            red: w(56667, 43333, 0),
            green: w(55833, 44167, 0),
            blue: w(0, 24167, 75833),
        }
    );
}

#[test]
fn achromatopsia_rows_are_luma_weights() {
    let p = ColorBlindnessMode::Achromatopsia.percentages();
    for row in [p.red, p.green, p.blue] {
        assert_eq!(row, w(29900, 58700, 11400));
        assert_eq!(total(row), MIX_SCALE);
    }
}

#[test]
fn tritanomaly_and_achromatomaly_values() {
    let t = ColorBlindnessMode::Tritanomaly.percentages();
    assert_eq!(t.red, w(96667, 3333, 0));
    let tp = ColorBlindnessMode::Tritanopia.percentages();
    assert_eq!(tp.red, w(95000, 5000, 0));
    let a = ColorBlindnessMode::Achromatomaly.percentages();
    assert_eq!(a.red, w(61800, 32000, 6200));
    assert_eq!(a.green, w(16300, 77500, 6200));
    assert_eq!(a.blue, w(16300, 32000, 51600));
    for row in [a.red, a.green, a.blue] {
        assert!(total(row) + 200 >= MIX_SCALE && total(row) <= MIX_SCALE);
    }
}

#[test]
fn weights_lie_within_one() {
    for m in all_modes() {
        let p = m.percentages();
        for row in [p.red, p.green, p.blue] {
            assert!(row.red <= MIX_SCALE && row.green <= MIX_SCALE && row.blue <= MIX_SCALE);
        }
    }
}

#[test]
fn row_totals_within_one() {
    for m in all_modes() {
        let p = m.percentages();
        for row in [p.red, p.green, p.blue] {
            assert!(total(row) <= MIX_SCALE, "{:?}", m);
        }
    }
}

#[test]
fn cycle_visits_modes_in_order_and_wraps() {
    let mut m = ColorBlindnessMode::Normal;
    for expected in all_modes().iter().skip(1) {
        m.cycle();
        assert_eq!(m, *expected);
    }
    m.cycle();
    assert_eq!(m, ColorBlindnessMode::Normal);
}

#[test]
fn cycle_has_period_nine() {
    for start in all_modes() {
        let mut m = start;
        for k in 1..9 {
            m.cycle();
            assert_ne!(m, start, "returned after {} steps", k);
        }
        m.cycle();
        assert_eq!(m, start);
    }
}
