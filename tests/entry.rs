use metricizer::display::{BusOp, Lcd, LCD_ADDRESS};
use metricizer::metricizer::{inch_line, millimetre_line, MainApp};

fn fresh() -> (MainApp, Vec<BusOp>) {
    let mut out = Vec::new();
    let mut app = MainApp::new(Lcd::new(), &mut out);
    app.clear(&mut out);
    (app, out)
}

fn press(app: &mut MainApp, keys: &str) -> Vec<BusOp> {
    let mut out = Vec::new();
    for k in keys.chars() {
        out.clear();
        app.key(k, &mut out);
    }
    out
}

/// The characters written to the display, in order.
fn printed(ops: &[BusOp]) -> String {
    ops.iter()
        .filter_map(|op| match op {
            BusOp::Write { address, first: 0x40, second } if *address == LCD_ADDRESS => {
                Some(*second as char)
            }
            _ => None,
        })
        .collect()
}

#[test]
fn clear_then_update_shows_placeholder() {
    let (mut app, _) = fresh();
    let mut out = Vec::new();
    app.update(&mut out);
    assert_eq!(app.entered(), "");
    let zero_line = format!("0{}", " ".repeat(15));
    assert_eq!(inch_line(app.entered()).as_str(), zero_line);
    assert_eq!(millimetre_line(app.entered()).as_str(), zero_line);
    assert_eq!(printed(&out), format!("{}{}", zero_line, zero_line));
}

#[test]
fn lone_zero_gives_way_to_digit() {
    let (mut app, _) = fresh();
    press(&mut app, "05");
    assert_eq!(app.entered(), "5");
}

#[test]
fn second_zero_is_suppressed() {
    let (mut app, _) = fresh();
    press(&mut app, "00");
    assert_eq!(app.entered(), "0");
    press(&mut app, "0");
    assert_eq!(app.entered(), "0");
}

#[test]
fn zero_then_point_keeps_zero() {
    let (mut app, _) = fresh();
    press(&mut app, "0#5");
    assert_eq!(app.entered(), "0.5");
}

#[test]
fn point_twice_gives_one_point() {
    let (mut app, _) = fresh();
    press(&mut app, "##");
    assert_eq!(app.entered(), ".");
    press(&mut app, "3#");
    assert_eq!(app.entered(), ".3");
    assert_eq!(app.entered().matches('.').count(), 1);
}

#[test]
fn ten_converts_both_ways() {
    assert_eq!(inch_line("10").as_str(), "10\"     254.0000");
    assert_eq!(millimetre_line("10").as_str(), "10mm     0.3937\"");
    let (mut app, _) = fresh();
    let out = press(&mut app, "10");
    assert_eq!(printed(&out), "10\"     254.000010mm     0.3937\"");
}

#[test]
fn fractional_value_converts() {
    assert_eq!(inch_line("2.5").as_str(), "2.5\"    63.5000m");
    assert_eq!(millimetre_line("2.5").as_str(), "2.5mm    0.0984\"");
    assert_eq!(millimetre_line("1").as_str(), "1mm      0.0394\"");
}

#[test]
fn zero_values_show_placeholder() {
    let zero_line = format!("0{}", " ".repeat(15));
    for entered in ["0", "0.", ".", "0.00", "0.000000", ".000000000000000"] {
        assert_eq!(inch_line(entered).as_str(), zero_line, "{}", entered);
        assert_eq!(millimetre_line(entered).as_str(), zero_line, "{}", entered);
    }
}

#[test]
fn zero_entry_keeps_cursor_after_it() {
    let (mut app, _) = fresh();
    let out = press(&mut app, "0#00");
    assert_eq!(app.entered(), "0.00");
    let zero_line = format!("0{}", " ".repeat(15));
    assert_eq!(printed(&out), format!("{}{}", zero_line, zero_line));
    let n = out.len();
    assert_eq!(out[n - 2], BusOp::Write { address: LCD_ADDRESS, first: 0x80, second: 0x84 });
}

#[test]
fn lines_are_always_sixteen_wide() {
    let digits = "1234567890123456";
    for n in 0..=16 {
        let entered = &digits[..n];
        assert_eq!(inch_line(entered).as_str().chars().count(), 16);
        assert_eq!(millimetre_line(entered).as_str().chars().count(), 16);
    }
    assert_eq!(inch_line(digits).as_str(), digits);
}

#[test]
fn entry_stops_at_sixteen_characters() {
    let (mut app, _) = fresh();
    press(&mut app, "12345678901234567");
    assert_eq!(app.entered(), "1234567890123456");
    press(&mut app, "#");
    assert_eq!(app.entered(), "1234567890123456");
    press(&mut app, "*1#2");
    assert_eq!(app.entered(), "1.2");
}

#[test]
fn cursor_follows_entry() {
    let (mut app, _) = fresh();
    let out = press(&mut app, "42");
    assert_eq!(out[0], BusOp::Write { address: LCD_ADDRESS, first: 0x80, second: 0x0A });
    let n = out.len();
    assert_eq!(out[n - 2], BusOp::Write { address: LCD_ADDRESS, first: 0x80, second: 0x82 });
    let out = press(&mut app, "*");
    assert_eq!(out[0], BusOp::Write { address: LCD_ADDRESS, first: 0x80, second: 0x08 });
    let n = out.len();
    assert_eq!(out[n - 2], BusOp::Write { address: LCD_ADDRESS, first: 0x80, second: 0x80 });
}

#[test]
fn new_sets_backlight_and_cursor() {
    let mut out = Vec::new();
    let app = MainApp::new(Lcd::new(), &mut out);
    assert_eq!(app.entered(), "");
    assert_eq!(out.len(), 5);
    assert_eq!(out[3], BusOp::Write { address: LCD_ADDRESS, first: 0x80, second: 0x0A });
}

#[test]
fn clear_round_trip_matches_fresh_clear() {
    let (mut app, first) = fresh();
    let mut out = Vec::new();
    app.clear(&mut out);
    let first_clear = out.clone();
    press(&mut app, "3#14159");
    assert_eq!(app.entered(), "3.14159");
    let mut again = Vec::new();
    app.clear(&mut again);
    assert_eq!(app.entered(), "");
    assert_eq!(again, first_clear);
    assert!(first.ends_with(&again));
}

#[test]
fn other_characters_leave_entry_alone() {
    let (mut app, _) = fresh();
    press(&mut app, "7 a");
    assert_eq!(app.entered(), "7");
}
