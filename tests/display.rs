use metricizer::display::{BusOp, ControlOptions, DisplayControl, Lcd, LCD_ADDRESS, RGB_ADDRESS};

fn cmd(value: u8) -> Vec<BusOp> {
    vec![
        BusOp::Write { address: LCD_ADDRESS, first: 0x80, second: value },
        BusOp::DelayMs { ms: 5 },
    ]
}

fn reg(register: u8, value: u8) -> BusOp {
    BusOp::Write { address: RGB_ADDRESS, first: register, second: value }
}

#[test]
fn addresses_are_seven_bit_forms() {
    assert_eq!(LCD_ADDRESS, 0x3E);
    assert_eq!(RGB_ADDRESS, 0x60);
}

#[test]
fn cursor_position_row_one() {
    let lcd = Lcd::new();
    let mut out = Vec::new();
    lcd.cursor_position(5, 1, &mut out);
    assert_eq!(out, cmd(0xC5));
}

#[test]
fn cursor_position_row_zero() {
    let lcd = Lcd::new();
    let mut out = Vec::new();
    lcd.cursor_position(5, 0, &mut out);
    assert_eq!(out, cmd(0x85));
}

#[test]
fn send_char_uses_data_prefix() {
    let lcd = Lcd::new();
    let mut out = Vec::new();
    lcd.send_char('A', &mut out);
    assert_eq!(
        out,
        vec![BusOp::Write { address: LCD_ADDRESS, first: 0x40, second: 0x41 }, BusOp::DelayMs { ms: 5 }]
    );
}

#[test]
fn print_sends_each_character() {
    let lcd = Lcd::new();
    let mut out = Vec::new();
    lcd.print("ok", &mut out);
    assert_eq!(
        out,
        vec![
            BusOp::Write { address: LCD_ADDRESS, first: 0x40, second: b'o' },
            BusOp::DelayMs { ms: 5 },
            BusOp::Write { address: LCD_ADDRESS, first: 0x40, second: b'k' },
            BusOp::DelayMs { ms: 5 },
        ]
    );
}

#[test]
fn clear_waits_after_the_command() {
    let lcd = Lcd::new();
    let mut out = Vec::new();
    lcd.clear(&mut out);
    let mut expected = cmd(0x01);
    expected.push(BusOp::DelayMs { ms: 2 });
    assert_eq!(out, expected);
}

#[test]
fn set_rgb_writes_three_registers() {
    let lcd = Lcd::new();
    let mut out = Vec::new();
    lcd.set_rgb(10, 20, 30, &mut out);
    assert_eq!(out, vec![reg(0x04, 10), reg(0x03, 20), reg(0x02, 30)]);
}

#[test]
fn init_sequence() {
    let mut lcd = Lcd::new();
    let mut out = Vec::new();
    lcd.init(&mut out);
    let mut expected = vec![BusOp::DelayMs { ms: 80 }];
    expected.extend(cmd(0x28));
    expected.push(BusOp::DelayMs { ms: 5 });
    expected.extend(cmd(0x28));
    expected.push(BusOp::DelayMs { ms: 5 });
    expected.extend(cmd(0x28));
    expected.extend(cmd(0x0C));
    expected.extend(cmd(0x01));
    expected.push(BusOp::DelayMs { ms: 2 });
    expected.extend(cmd(0x06));
    expected.push(reg(0x00, 0));
    expected.push(reg(0x08, 0xFF));
    expected.push(reg(0x01, 0x20));
    expected.push(reg(0x04, 255));
    expected.push(reg(0x03, 255));
    expected.push(reg(0x02, 255));
    assert_eq!(out, expected);
}

#[test]
fn control_flags_are_resent_in_full() {
    let mut lcd = Lcd::new();
    let mut out = Vec::new();
    lcd.init(&mut out);
    out.clear();
    lcd.cursor_on(&mut out);
    assert_eq!(out, cmd(0x0E));
    out.clear();
    lcd.blink_on(&mut out);
    assert_eq!(out, cmd(0x0F));
    out.clear();
    lcd.cursor_off(&mut out);
    assert_eq!(out, cmd(0x0D));
}

#[test]
fn display_control_set_and_clear() {
    let mut c = DisplayControl::new();
    assert_eq!(c.value(), 0);
    c.set(ControlOptions::DisplayOn).set(ControlOptions::CursorOn);
    assert_eq!(c.value(), 0x06);
    c.clear(ControlOptions::CursorOn);
    assert_eq!(c.value(), 0x04);
    c.set(ControlOptions::Off);
    assert_eq!(c.value(), 0x04);
    c.set(ControlOptions::BlinkOn);
    assert_eq!(c.value(), 0x05);
    assert_eq!(ControlOptions::CursorOn.bits(), 0x02);
}
