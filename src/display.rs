//! Command encoding for a two-line character LCD (an HD44780-class
//! controller behind I2C) with an RGB backlight controller on the same bus.
//!
//! The driver does not own the bus. Each operation appends to an outbox the
//! bus operations that carry it out: two-byte writes to one of the two bus
//! addresses, and the waits that the controller needs between them. Whoever
//! owns the bus performs them in order and stops at the first write that
//! fails, returning that failure; nothing is retried.

use vstd::prelude::*;

verus! {

/// Bus address of the character controller (0x7c in 8-bit form).
pub const LCD_ADDRESS: u8 = 0x7c >> 1;

/// Bus address of the backlight controller (0xc0 in 8-bit form).
pub const RGB_ADDRESS: u8 = 0xc0 >> 1;

/// First byte of a transfer that carries a command.
pub const COMMAND_PREFIX: u8 = 0x80;

/// First byte of a transfer that carries a character to print.
pub const DATA_PREFIX: u8 = 0x40;

/// Wait after power-up before the first command.
pub const POWER_ON_DELAY_MS: u32 = 80;

/// Wait after each transfer to the character controller.
pub const COMMAND_DELAY_MS: u32 = 5;

/// Number of columns of the display.
pub const LCD_COLUMNS: usize = 16;

/// Extra wait after clearing the display, a slow command.
pub const CLEAR_DELAY_MS: u32 = 2;

// Commands
pub const LCD_CLEARDISPLAY: u8 = 0x01;
pub const LCD_ENTRYMODESET: u8 = 0x04;
pub const LCD_DISPLAYCONTROL: u8 = 0x08;
pub const LCD_FUNCTIONSET: u8 = 0x20;

// Flags for the function set
pub const LCD_4BITMODE: u8 = 0x00;
pub const LCD_2LINE: u8 = 0x08;
pub const LCD_5X8_DOTS: u8 = 0x00;

// Flags for the entry mode
pub const LCD_ENTRYLEFT: u8 = 0x02;
pub const LCD_ENTRYSHIFTDECREMENT: u8 = 0x00;

// DDRAM base address of each row
pub const ROW0_ADDRESS: u8 = 0x80;
pub const ROW1_ADDRESS: u8 = 0xC0;

// Backlight registers
pub const REG_RED: u8 = 0x04;
pub const REG_GREEN: u8 = 0x03;
pub const REG_BLUE: u8 = 0x02;
pub const REG_MODE1: u8 = 0x00;
pub const REG_MODE2: u8 = 0x01;
pub const REG_OUTPUT: u8 = 0x08;

/// One step on the bus.
#[derive(Clone, Copy, Debug, PartialEq, Eq)]
pub enum BusOp {
    /// Write the two bytes `[first, second]` to the device at `address`.
    Write { address: u8, first: u8, second: u8 },
    /// Wait `ms` milliseconds.
    DelayMs { ms: u32 },
}

/// The on/off flags of the display control command.
#[derive(Clone, Copy, Debug, PartialEq, Eq)]
pub enum ControlOptions {
    DisplayOn,
    Off,
    CursorOn,
    BlinkOn,
}

impl ControlOptions {
    pub open spec fn spec_bits(self) -> u8 {
        match self {
            ControlOptions::DisplayOn => 0x04,
            ControlOptions::Off => 0x00,
            ControlOptions::CursorOn => 0x02,
            ControlOptions::BlinkOn => 0x01,
        }
    }

    /// The bit of this option in the control byte.
    #[verifier::when_used_as_spec(spec_bits)]
    pub fn bits(self) -> (r: u8)
        ensures
            r == self.spec_bits(),
    {
        match self {
            ControlOptions::DisplayOn => 0x04,
            ControlOptions::Off => 0x00,
            ControlOptions::CursorOn => 0x02,
            ControlOptions::BlinkOn => 0x01,
        }
    }
}

/// The display control flags, kept so that each change can resend them all
/// (the controller has no command that changes one flag alone).
pub struct DisplayControl {
    control: u8,
}

impl DisplayControl {
    pub closed spec fn flags(&self) -> u8 {
        self.control
    }

    pub fn new() -> (r: DisplayControl)
        ensures
            r.flags() == 0,
    {
        DisplayControl { control: 0 }
    }

    pub fn set(&mut self, value: ControlOptions) -> (r: &mut Self)
        ensures
            r.flags() == old(self).flags() | value.spec_bits(),
            *final(self) == *final(r),
    {
        self.control = self.control | value.bits();
        self
    }

    pub fn clear(&mut self, value: ControlOptions) -> (r: &mut Self)
        ensures
            r.flags() == old(self).flags() & !value.spec_bits(),
            *final(self) == *final(r),
    {
        self.control = self.control & !value.bits();
        self
    }

    pub fn value(&self) -> (r: u8)
        ensures
            r == self.flags(),
    {
        self.control
    }
}

pub open spec fn send_two_ops(first: u8, second: u8) -> Seq<BusOp> {
    seq![
        BusOp::Write { address: LCD_ADDRESS, first, second },
        BusOp::DelayMs { ms: COMMAND_DELAY_MS },
    ]
}

pub open spec fn command_ops(value: u8) -> Seq<BusOp> {
    send_two_ops(COMMAND_PREFIX, value)
}

/// A character goes to the controller as its low byte.
pub open spec fn char_ops(c: char) -> Seq<BusOp> {
    send_two_ops(DATA_PREFIX, (c as u32) as u8)
}

pub open spec fn print_ops(s: Seq<char>) -> Seq<BusOp>
    decreases s.len(),
{
    if s.len() == 0 {
        Seq::empty()
    } else {
        print_ops(s.drop_last()) + char_ops(s.last())
    }
}

pub open spec fn register_ops(register: u8, value: u8) -> Seq<BusOp> {
    seq![BusOp::Write { address: RGB_ADDRESS, first: register, second: value }]
}

pub open spec fn rgb_ops(r: u8, g: u8, b: u8) -> Seq<BusOp> {
    register_ops(REG_RED, r) + register_ops(REG_GREEN, g) + register_ops(REG_BLUE, b)
}

pub open spec fn clear_ops() -> Seq<BusOp> {
    command_ops(LCD_CLEARDISPLAY) + seq![BusOp::DelayMs { ms: CLEAR_DELAY_MS }]
}

/// The DDRAM address of column `x` in row `y`.
pub open spec fn cursor_address(x: u8, y: u8) -> u8 {
    if y == 0 {
        x | ROW0_ADDRESS
    } else {
        x | ROW1_ADDRESS
    }
}

pub open spec fn cursor_ops(x: u8, y: u8) -> Seq<BusOp> {
    command_ops(cursor_address(x, y))
}

pub open spec fn display_control_ops(flags: u8) -> Seq<BusOp> {
    command_ops(LCD_DISPLAYCONTROL | flags)
}

/// The power-up sequence: the function set goes out three times, as the
/// controller's datasheet asks, to bring it out of whatever mode it woke up
/// in; then the display is switched on, cleared, given its entry mode, and
/// the backlight is enabled and set to white.
pub open spec fn init_ops(function: u8, mode: u8, flags: u8) -> Seq<BusOp> {
    seq![BusOp::DelayMs { ms: POWER_ON_DELAY_MS }] + command_ops(LCD_FUNCTIONSET | function)
        + seq![BusOp::DelayMs { ms: COMMAND_DELAY_MS }] + command_ops(LCD_FUNCTIONSET | function)
        + seq![BusOp::DelayMs { ms: COMMAND_DELAY_MS }] + command_ops(LCD_FUNCTIONSET | function)
        + display_control_ops(flags) + clear_ops() + command_ops(LCD_ENTRYMODESET | mode)
        + register_ops(REG_MODE1, 0) + register_ops(REG_OUTPUT, 0xFF) + register_ops(REG_MODE2, 0x20)
        + rgb_ops(255, 255, 255)
}

/// The state of the character controller and how to talk to it.
pub struct Lcd {
    show_function: u8,
    show_mode: u8,
    control: DisplayControl,
}

impl Lcd {
    /// The function set flags (interface width, lines, font).
    pub closed spec fn function_flags(&self) -> u8 {
        self.show_function
    }

    /// The entry mode flags.
    pub closed spec fn mode_flags(&self) -> u8 {
        self.show_mode
    }

    /// The display control flags as last sent.
    pub closed spec fn control_flags(&self) -> u8 {
        self.control.flags()
    }

    /// A driver for a controller that was just powered up: two lines, 5x8
    /// font, left-to-right entry, everything off.
    pub fn new() -> (r: Lcd)
        ensures
            r.function_flags() == LCD_4BITMODE | LCD_2LINE | LCD_5X8_DOTS,
            r.mode_flags() == LCD_ENTRYLEFT | LCD_ENTRYSHIFTDECREMENT,
            r.control_flags() == 0,
    {
        Lcd {
            show_function: LCD_4BITMODE | LCD_2LINE | LCD_5X8_DOTS,
            show_mode: LCD_ENTRYLEFT | LCD_ENTRYSHIFTDECREMENT,
            control: DisplayControl::new(),
        }
    }

    /// Initializes the display for the first time after power-up: display
    /// on with no cursor and no blinking, cleared, backlight white.
    pub fn init(&mut self, out: &mut Vec<BusOp>)
        ensures
            final(self).function_flags() == old(self).function_flags(),
            final(self).mode_flags() == old(self).mode_flags(),
            final(self).control_flags() == old(self).control_flags()
                | ControlOptions::DisplayOn.spec_bits(),
            final(out)@ == old(out)@ + init_ops(
                old(self).function_flags(),
                old(self).mode_flags(),
                final(self).control_flags(),
            ),
    {
        // Wait at least 40 ms after power-up before sending commands.
        out.push(BusOp::DelayMs { ms: POWER_ON_DELAY_MS });

        // The function set goes out three times, as the datasheet asks.
        self.command(LCD_FUNCTIONSET | self.show_function, out);
        out.push(BusOp::DelayMs { ms: COMMAND_DELAY_MS });
        self.command(LCD_FUNCTIONSET | self.show_function, out);
        out.push(BusOp::DelayMs { ms: COMMAND_DELAY_MS });
        self.command(LCD_FUNCTIONSET | self.show_function, out);

        // Turn on the display with no cursor or blinking.
        self.control.set(ControlOptions::DisplayOn);
        self.update_display(out);

        self.clear(out);

        self.command(LCD_ENTRYMODESET | self.show_mode, out);

        // Enable the backlight, with the LEDs driven by both the PWM and
        // the group PWM registers.
        self.set_reg(REG_MODE1, 0, out);
        self.set_reg(REG_OUTPUT, 0xFF, out);
        self.set_reg(REG_MODE2, 0x20, out);

        self.set_rgb(255, 255, 255, out);
        assert(out@ =~= old(out)@ + init_ops(
            old(self).function_flags(),
            old(self).mode_flags(),
            self.control_flags(),
        ));
    }

    /// Clears the display; clearing is slow, so an extra wait follows.
    pub fn clear(&self, out: &mut Vec<BusOp>)
        ensures
            final(out)@ == old(out)@ + clear_ops(),
    {
        self.command(LCD_CLEARDISPLAY, out);
        out.push(BusOp::DelayMs { ms: CLEAR_DELAY_MS });
        assert(out@ =~= old(out)@ + clear_ops());
    }

    /// Moves the cursor to column `x` of row `y` (row 0 when `y` is 0,
    /// row 1 otherwise).
    pub fn cursor_position(&self, x: u8, y: u8, out: &mut Vec<BusOp>)
        ensures
            final(out)@ == old(out)@ + cursor_ops(x, y),
    {
        let col = if y == 0 {
            x | ROW0_ADDRESS
        } else {
            x | ROW1_ADDRESS
        };
        self.command(col, out);
    }

    /// Shows the cursor, a non-blinking underscore.
    pub fn cursor_on(&mut self, out: &mut Vec<BusOp>)
        ensures
            final(self).function_flags() == old(self).function_flags(),
            final(self).mode_flags() == old(self).mode_flags(),
            final(self).control_flags() == old(self).control_flags()
                | ControlOptions::CursorOn.spec_bits(),
            final(out)@ == old(out)@ + display_control_ops(final(self).control_flags()),
    {
        self.control.set(ControlOptions::CursorOn);
        self.update_display(out);
    }

    /// Hides the cursor.
    pub fn cursor_off(&mut self, out: &mut Vec<BusOp>)
        ensures
            final(self).function_flags() == old(self).function_flags(),
            final(self).mode_flags() == old(self).mode_flags(),
            final(self).control_flags() == old(self).control_flags()
                & !ControlOptions::CursorOn.spec_bits(),
            final(out)@ == old(out)@ + display_control_ops(final(self).control_flags()),
    {
        self.control.clear(ControlOptions::CursorOn);
        self.update_display(out);
    }

    /// Makes the cursor position blink.
    pub fn blink_on(&mut self, out: &mut Vec<BusOp>)
        ensures
            final(self).function_flags() == old(self).function_flags(),
            final(self).mode_flags() == old(self).mode_flags(),
            final(self).control_flags() == old(self).control_flags()
                | ControlOptions::BlinkOn.spec_bits(),
            final(out)@ == old(out)@ + display_control_ops(final(self).control_flags()),
    {
        self.control.set(ControlOptions::BlinkOn);
        self.update_display(out);
    }

    /// Prints one character at the cursor.
    pub fn send_char(&self, c: char, out: &mut Vec<BusOp>)
        ensures
            final(out)@ == old(out)@ + char_ops(c),
    {
        self.send_two(DATA_PREFIX, (c as u32) as u8, out);
    }

    /// Prints `text` from the cursor on, one character at a time; it must
    /// fit on one row of the display.
    pub fn print(&self, text: &str, out: &mut Vec<BusOp>)
        requires
            text@.len() <= LCD_COLUMNS,
        ensures
            final(out)@ == old(out)@ + print_ops(text@),
    {
        let n = text.unicode_len();
        let mut i: usize = 0;
        proof {
            assert(text@.take(0) =~= Seq::<char>::empty());
            assert(out@ =~= old(out)@ + print_ops(text@.take(0)));
        }
        while i < n
            invariant
                n == text@.len(),
                i <= n,
                out@ == old(out)@ + print_ops(text@.take(i as int)),
            decreases n - i,
        {
            let c = text.get_char(i);
            self.send_char(c, out);
            proof {
                assert(text@.take(i + 1).drop_last() =~= text@.take(i as int));
                assert(out@ =~= old(out)@ + print_ops(text@.take(i + 1)));
            }
            i = i + 1;
        }
        proof {
            assert(text@.take(n as int) =~= text@);
        }
    }

    /// Sets the backlight colour, one 8-bit PWM value per channel.
    pub fn set_rgb(&self, r: u8, g: u8, b: u8, out: &mut Vec<BusOp>)
        ensures
            final(out)@ == old(out)@ + rgb_ops(r, g, b),
    {
        self.set_reg(REG_RED, r, out);
        self.set_reg(REG_GREEN, g, out);
        self.set_reg(REG_BLUE, b, out);
        assert(out@ =~= old(out)@ + rgb_ops(r, g, b));
    }

    /// Sends a command to the character controller.
    fn command(&self, value: u8, out: &mut Vec<BusOp>)
        ensures
            final(out)@ == old(out)@ + command_ops(value),
    {
        self.send_two(COMMAND_PREFIX, value, out);
    }

    fn send_two(&self, first: u8, second: u8, out: &mut Vec<BusOp>)
        ensures
            final(out)@ == old(out)@ + send_two_ops(first, second),
    {
        out.push(BusOp::Write { address: LCD_ADDRESS, first, second });
        out.push(BusOp::DelayMs { ms: COMMAND_DELAY_MS });
        assert(out@ =~= old(out)@ + send_two_ops(first, second));
    }

    /// Writes one register of the backlight controller.
    fn set_reg(&self, register: u8, value: u8, out: &mut Vec<BusOp>)
        ensures
            final(out)@ == old(out)@ + register_ops(register, value),
    {
        out.push(BusOp::Write { address: RGB_ADDRESS, first: register, second: value });
        assert(out@ =~= old(out)@ + register_ops(register, value));
    }

    /// Sends the whole set of display control flags.
    fn update_display(&self, out: &mut Vec<BusOp>)
        ensures
            final(out)@ == old(out)@ + display_control_ops(self.control_flags()),
    {
        let value = self.control.value();
        self.command(LCD_DISPLAYCONTROL | value, out);
    }
}

} // verus!
