//! The digit-entry controller: turns key presses into an entered decimal
//! value and shows it on the two display lines, in inches converted to
//! millimetres on the first line and in millimetres converted to inches on
//! the second.

use vstd::prelude::*;

use crate::convert::{
    fixed_point, format_fixed4, inches_e4, inches_to_millimetres, is_digit, mantissa,
    millimetres_e4, millimetres_to_inches, parse_decimal, scale, lemma_fixed_point_ascii,
    MAX_DIGITS,
};
use crate::display::{
    cursor_ops, display_control_ops, print_ops, rgb_ops, BusOp, ControlOptions, Lcd,
};
use crate::text::{
    append_clipped, byte_len, clip, fit, is_ascii_text, lemma_ascii_concat, lemma_ascii_utf8_len,
    pad_bytes, pad_right, spaces, text_as_str, text_chars, text_clear, text_new, text_push,
    utf8_len, Text16, CAPACITY,
};

verus! {

/// Key that empties the entered value.
pub const CLEAR_KEY: char = '*';

/// Key that places the decimal point.
pub const POINT_KEY: char = '#';

/// Column at which the converted value starts on each line.
pub const VALUE_COLUMN: usize = 8;

/// A value that the entry rules can produce: at most 16 characters, each a
/// digit or a decimal point, at most one decimal point, and no leading zero
/// in front of another digit.
pub open spec fn entry_ok(s: Seq<char>) -> bool {
    &&& s.len() <= CAPACITY
    &&& forall|i: int| 0 <= i < s.len() ==> is_digit(#[trigger] s[i]) || s[i] == '.'
    &&& forall|i: int, j: int| #![trigger s[i], s[j]] 0 <= i < j < s.len() && s[i] == '.' ==> s[j] != '.'
    &&& !(s.len() >= 2 && s[0] == '0' && is_digit(s[1]))
}

/// The entered value after key `k`.
pub open spec fn next_entry(s: Seq<char>, k: char) -> Seq<char> {
    if k == CLEAR_KEY {
        Seq::empty()
    } else if k == POINT_KEY {
        if s.contains('.') || s.len() >= CAPACITY {
            s
        } else {
            s.push('.')
        }
    } else if is_digit(k) {
        if s == seq!['0'] {
            if k == '0' {
                s
            } else {
                seq![k]
            }
        } else if s.len() >= CAPACITY {
            s
        } else {
            s.push(k)
        }
    } else {
        s
    }
}

/// The display control flags after a redraw of `s`: the cursor is shown
/// exactly when something has been entered.
pub open spec fn cursor_flags(flags: u8, s: Seq<char>) -> u8 {
    if s.len() > 0 {
        flags | ControlOptions::CursorOn.spec_bits()
    } else {
        flags & !ControlOptions::CursorOn.spec_bits()
    }
}

/// One key press: the entered value and the display control flags after it.
pub open spec fn key_step(state: (Seq<char>, u8), k: char) -> (Seq<char>, u8) {
    let s = next_entry(state.0, k);
    (s, cursor_flags(state.1, s))
}

/// The state after each of `keys` in turn.
pub open spec fn key_steps(state: (Seq<char>, u8), keys: Seq<char>) -> (Seq<char>, u8)
    decreases keys.len(),
{
    if keys.len() == 0 {
        state
    } else {
        key_step(key_steps(state, keys.drop_last()), keys.last())
    }
}

/// What the left half of a line shows: the entered value and its unit when
/// it reads as a number above zero; otherwise (nothing entered, zero, or
/// no digit at all) the placeholder "0".
pub open spec fn entry_label(s: Seq<char>, unit: Seq<char>) -> Seq<char> {
    if is_positive(s) {
        s + unit
    } else {
        seq!['0']
    }
}

/// The entered value, read as a decimal number, is above zero.
pub open spec fn is_positive(s: Seq<char>) -> bool {
    mantissa(s) > 0
}

/// Lays out a line: the label padded to the value column, the converted
/// value after it, all cut or padded to the width of the display.
pub open spec fn layout(label: Seq<char>, tail: Seq<char>) -> Seq<char> {
    fit(pad_right(label, VALUE_COLUMN as nat) + tail, CAPACITY as nat)
}

/// The first line: the value in inches and, when it is above zero, the
/// same length in millimetres.
pub open spec fn inch_line_text(s: Seq<char>) -> Seq<char> {
    layout(
        entry_label(s, seq!['"']),
        if is_positive(s) {
            fixed_point(millimetres_e4(mantissa(s), scale(s))) + seq!['m', 'm']
        } else {
            Seq::empty()
        },
    )
}

/// The second line: the value in millimetres and, when it is above zero,
/// the same length in inches.
pub open spec fn millimetre_line_text(s: Seq<char>) -> Seq<char> {
    layout(
        entry_label(s, seq!['m', 'm']),
        if is_positive(s) {
            fixed_point(inches_e4(mantissa(s), scale(s))) + seq!['"']
        } else {
            Seq::empty()
        },
    )
}

/// The bus operations of a redraw of `s` once the control flags are
/// `flags`: the cursor shown or hidden, both lines drawn in full, and the
/// cursor put back after the entered value (drawing moves the controller's
/// own cursor, so it is always set again).
pub open spec fn redraw_ops(s: Seq<char>, flags: u8) -> Seq<BusOp> {
    display_control_ops(flags) + cursor_ops(0, 0) + print_ops(inch_line_text(s)) + cursor_ops(0, 1)
        + print_ops(millimetre_line_text(s)) + cursor_ops(s.len() as u8, 0)
}

proof fn lemma_entry_ascii(s: Seq<char>)
    requires
        forall|i: int| 0 <= i < s.len() ==> is_digit(#[trigger] s[i]) || s[i] == '.',
    ensures
        is_ascii_text(s),
{
    assert forall|i: int| 0 <= i < s.len() implies (#[trigger] s[i] as u32) < 0x80 by {
        assert(is_digit(s[i]) || s[i] == '.');
    }
}

proof fn lemma_next_entry_ok(s: Seq<char>, k: char)
    requires
        entry_ok(s),
    ensures
        entry_ok(next_entry(s, k)),
{
    let t = next_entry(s, k);
    if k != CLEAR_KEY && t.len() == s.len() + 1 {
        assert(t =~= s.push(t.last()));
        assert forall|i: int| 0 <= i < t.len() implies is_digit(#[trigger] t[i]) || t[i] == '.' by {
            if i < s.len() {
                assert(t[i] == s[i]);
            }
        }
        assert forall|i: int, j: int| #![trigger t[i], t[j]] 0 <= i < j < t.len() && t[i] == '.' implies t[j] != '.' by {
            if j < s.len() {
                assert(t[i] == s[i] && t[j] == s[j]);
            } else if k == POINT_KEY {
                assert(t[i] == s[i]);
                assert(s.contains('.'));
            }
        }
        if s.len() >= 1 {
            assert(t[0] == s[0]);
            if s.len() >= 2 {
                assert(t[1] == s[1]);
            } else {
                assert(s =~= seq![s[0]]);
                if s[0] == '0' && is_digit(k) {
                    assert(s =~= seq!['0']);
                }
            }
        }
    }
}

/// Adds spaces to the end of the line until it takes `len` bytes, which
/// overwrites whatever the line showed there before.
fn pad(line: &mut Text16, len: usize)
    requires
        len <= CAPACITY,
    ensures
        text_chars(*final(line)) == pad_bytes(text_chars(*old(line)), len as nat),
        utf8_len(text_chars(*old(line))) <= CAPACITY,
        utf8_len(text_chars(*final(line))) == if utf8_len(text_chars(*old(line))) >= len {
            utf8_len(text_chars(*old(line)))
        } else {
            len as nat
        },
        is_ascii_text(text_chars(*old(line))) ==> is_ascii_text(text_chars(*final(line))),
{
    let ghost start = text_chars(*line);
    let mut count = byte_len(text_as_str(line));
    if count < len {
        let ghost first = count;
        while count < len
            invariant
                first == utf8_len(start),
                first <= count <= len,
                len <= CAPACITY,
                text_chars(*line) == start + spaces((count - first) as nat),
                utf8_len(text_chars(*line)) == count,
            decreases len - count,
        {
            let ghost before = text_chars(*line);
            let _ = text_push(line, ' ');
            proof {
                assert(before.push(' ').drop_last() =~= before);
                assert(before.push(' ') =~= start + spaces((count + 1 - first) as nat));
            }
            count = count + 1;
        }
        proof {
            if is_ascii_text(start) {
                assert(is_ascii_text(spaces((len - first) as nat)));
                lemma_ascii_concat(start, spaces((len - first) as nat));
            }
        }
    }
}

/// Adds spaces to the end of the line until it fills the width of the
/// display (16 bytes, one per column for the ASCII text drawn here).
fn pad_line(line: &mut Text16)
    ensures
        text_chars(*final(line)) == pad_bytes(text_chars(*old(line)), CAPACITY as nat),
        utf8_len(text_chars(*final(line))) == CAPACITY,
        is_ascii_text(text_chars(*old(line))) ==> is_ascii_text(text_chars(*final(line))),
{
    pad(line, CAPACITY);
}

/// The label of a line: the entered value and `unit` when the value is
/// above zero (`positive`), the placeholder "0" otherwise.
fn entry_label_chars(entered: &str, unit: Vec<char>, positive: bool) -> (r: Vec<char>)
    requires
        positive == is_positive(entered@),
    ensures
        r@ == entry_label(entered@, unit@),
{
    let n = entered.unicode_len();
    let mut r: Vec<char> = Vec::new();
    if !positive {
        r.push('0');
        assert(r@ =~= seq!['0']);
    } else {
        let mut i: usize = 0;
        while i < n
            invariant
                n == entered@.len(),
                i <= n,
                r@ =~= entered@.take(i as int),
            decreases n - i,
        {
            r.push(entered.get_char(i));
            i = i + 1;
        }
        let mut j: usize = 0;
        while j < unit.len()
            invariant
                n == entered@.len(),
                j <= unit@.len(),
                r@ =~= entered@ + unit@.take(j as int),
            decreases unit@.len() - j,
        {
            r.push(unit[j]);
            j = j + 1;
        }
        assert(unit@.take(unit@.len() as int) =~= unit@);
    }
    r
}

proof fn lemma_layout_steps(label: Seq<char>, tail: Seq<char>)
    ensures
        clip(pad_right(clip(label, CAPACITY as nat), VALUE_COLUMN as nat) + tail, CAPACITY as nat)
            == clip(pad_right(label, VALUE_COLUMN as nat) + tail, CAPACITY as nat),
{
    if label.len() > CAPACITY {
        let cut = label.take(CAPACITY as int);
        assert(pad_right(cut, VALUE_COLUMN as nat) == cut);
        assert((cut + tail).take(CAPACITY as int) =~= cut);
        assert((label + tail).take(CAPACITY as int) =~= cut);
    }
}

/// Lays out one display line from its label and the text that follows it.
fn compose_line(label: &Vec<char>, tail: &Vec<char>) -> (r: Text16)
    requires
        is_ascii_text(label@),
        is_ascii_text(tail@),
    ensures
        text_chars(r) == layout(label@, tail@),
        text_chars(r).len() == CAPACITY,
{
    let mut line = text_new();
    proof {
        assert(Seq::<char>::empty() + label@ =~= label@);
    }
    append_clipped(&mut line, label);
    proof {
        lemma_ascii_utf8_len(text_chars(line));
    }
    pad(&mut line, VALUE_COLUMN);
    proof {
        lemma_ascii_utf8_len(text_chars(line));
    }
    append_clipped(&mut line, tail);
    proof {
        lemma_ascii_utf8_len(text_chars(line));
    }
    pad_line(&mut line);
    proof {
        lemma_ascii_utf8_len(text_chars(line));
        lemma_layout_steps(label@, tail@);
    }
    line
}

/// The first display line for the entered value `entered`.
pub fn inch_line(entered: &str) -> (r: Text16)
    requires
        entered@.len() <= CAPACITY,
        is_ascii_text(entered@),
    ensures
        text_chars(r) == inch_line_text(entered@),
{
    let value = parse_decimal(entered);
    let mut tail: Vec<char> = Vec::new();
    if value.digits > 0 {
        proof {
            crate::convert::lemma_pow10_monotonic(entered@.len(), MAX_DIGITS as nat);
        }
        tail = format_fixed4(inches_to_millimetres(value));
        proof {
            lemma_fixed_point_ascii(millimetres_e4(mantissa(entered@), scale(entered@)));
        }
        tail.push('m');
        tail.push('m');
        proof {
            lemma_ascii_concat(fixed_point(millimetres_e4(mantissa(entered@), scale(entered@))), seq!['m', 'm']);
            assert(tail@ =~= fixed_point(millimetres_e4(mantissa(entered@), scale(entered@))) + seq!['m', 'm']);
        }
    }
    let label = entry_label_chars(entered, vec!['"'], value.digits > 0);
    proof {
        assert(is_ascii_text(seq!['"']));
        assert(is_ascii_text(seq!['0']));
        lemma_ascii_concat(entered@, seq!['"']);
    }
    compose_line(&label, &tail)
}

/// The second display line for the entered value `entered`.
pub fn millimetre_line(entered: &str) -> (r: Text16)
    requires
        entered@.len() <= CAPACITY,
        is_ascii_text(entered@),
    ensures
        text_chars(r) == millimetre_line_text(entered@),
{
    let value = parse_decimal(entered);
    let mut tail: Vec<char> = Vec::new();
    if value.digits > 0 {
        proof {
            crate::convert::lemma_pow10_monotonic(entered@.len(), MAX_DIGITS as nat);
        }
        tail = format_fixed4(millimetres_to_inches(value));
        proof {
            lemma_fixed_point_ascii(inches_e4(mantissa(entered@), scale(entered@)));
        }
        tail.push('"');
        proof {
            lemma_ascii_concat(fixed_point(inches_e4(mantissa(entered@), scale(entered@))), seq!['"']);
            assert(tail@ =~= fixed_point(inches_e4(mantissa(entered@), scale(entered@))) + seq!['"']);
        }
    }
    let label = entry_label_chars(entered, vec!['m', 'm'], value.digits > 0);
    proof {
        assert(is_ascii_text(seq!['m', 'm']));
        assert(is_ascii_text(seq!['0']));
        lemma_ascii_concat(entered@, seq!['m', 'm']);
    }
    compose_line(&label, &tail)
}

/// `t` holds exactly one decimal point.
pub open spec fn has_one_point(t: Seq<char>) -> bool {
    exists|i: int|
        0 <= i < t.len() && t[i] == '.' && forall|j: int| 0 <= j < t.len() && #[trigger] t[j] == '.' ==> j == i
}

/// Key presses change the display control flags in the cursor bit alone.
proof fn lemma_steps_keep_flags(state: (Seq<char>, u8), keys: Seq<char>)
    ensures
        key_steps(state, keys).1 & !ControlOptions::CursorOn.spec_bits() == state.1
            & !ControlOptions::CursorOn.spec_bits(),
    decreases keys.len(),
{
    if keys.len() > 0 {
        lemma_steps_keep_flags(state, keys.drop_last());
        let f = key_steps(state, keys.drop_last()).1;
        assert((f | 2u8) & !2u8 == f & !2u8) by (bit_vector);
        assert((f & !2u8) & !2u8 == f & !2u8) by (bit_vector);
    }
}

/// Clearing, then any keys, then clearing again leaves the converter in
/// exactly the state that the first clear left it in; as the redraw depends
/// on that state alone, the second clear also draws exactly what the first
/// one drew.
pub proof fn lemma_clear_round_trip(state: (Seq<char>, u8), keys: Seq<char>)
    ensures
        key_steps(key_step(state, CLEAR_KEY), keys.push(CLEAR_KEY)) == key_step(state, CLEAR_KEY),
        ({
            let again = key_steps(key_step(state, CLEAR_KEY), keys.push(CLEAR_KEY));
            let once = key_step(state, CLEAR_KEY);
            redraw_ops(again.0, again.1) == redraw_ops(once.0, once.1)
        }),
{
    let cleared = key_step(state, CLEAR_KEY);
    assert(keys.push(CLEAR_KEY).drop_last() =~= keys);
    lemma_steps_keep_flags(cleared, keys);
    let f = state.1;
    assert((f & !2u8) & !2u8 == f & !2u8) by (bit_vector);
}

/// Pressing `#` twice in a row leaves exactly one decimal point in the
/// entered value, provided there is room for one or one is there already.
pub proof fn lemma_point_once(s: Seq<char>)
    requires
        entry_ok(s),
        s.len() < CAPACITY || s.contains('.'),
    ensures
        has_one_point(next_entry(next_entry(s, POINT_KEY), POINT_KEY)),
{
    let t = next_entry(s, POINT_KEY);
    lemma_next_entry_ok(s, POINT_KEY);
    if !s.contains('.') {
        assert(t[s.len() as int] == '.');
    }
    assert(t.contains('.'));
    let i = choose|i: int| 0 <= i < t.len() && t[i] == '.';
    assert forall|j: int| 0 <= j < t.len() && #[trigger] t[j] == '.' implies j == i by {
        if j < i {
            assert(t[j] == '.' && t[i] == '.');
        } else if i < j {
            assert(t[i] == '.' && t[j] == '.');
        }
    }
}

/// When the entered value is not a number above zero (nothing entered,
/// zero, or no digit at all), each line shows the placeholder "0" followed
/// by spaces, with no converted value.
pub proof fn lemma_placeholder_when_not_positive(s: Seq<char>)
    requires
        !is_positive(s),
    ensures
        inch_line_text(s) == seq!['0'] + spaces(15),
        millimetre_line_text(s) == seq!['0'] + spaces(15),
{
    let shown = pad_right(seq!['0'], VALUE_COLUMN as nat) + Seq::<char>::empty();
    assert(shown =~= seq!['0'] + spaces(7));
    assert(fit(shown, CAPACITY as nat) =~= seq!['0'] + spaces(15));
}

/// After a clear nothing is entered, and each line shows a lone "0"
/// followed by spaces.
pub proof fn lemma_cleared_display(state: (Seq<char>, u8))
    ensures
        key_step(state, CLEAR_KEY).0 == Seq::<char>::empty(),
        inch_line_text(key_step(state, CLEAR_KEY).0) == seq!['0'] + spaces(15),
        millimetre_line_text(key_step(state, CLEAR_KEY).0) == seq!['0'] + spaces(15),
{
    assert(mantissa(Seq::<char>::empty()) == 0);
    lemma_placeholder_when_not_positive(Seq::<char>::empty());
}

/// Every line drawn is exactly as wide as the display, whatever the
/// entered value.
pub proof fn lemma_lines_fill_display(s: Seq<char>)
    ensures
        inch_line_text(s).len() == CAPACITY,
        millimetre_line_text(s).len() == CAPACITY,
{
}

/// Applies key `key` to the entered value and its decimal point flag.
fn apply_key(entered: &mut Text16, dot: &mut bool, key: char)
    requires
        entry_ok(text_chars(*old(entered))),
        *old(dot) == text_chars(*old(entered)).contains('.'),
    ensures
        text_chars(*final(entered)) == next_entry(text_chars(*old(entered)), key),
        entry_ok(text_chars(*final(entered))),
        *final(dot) == text_chars(*final(entered)).contains('.'),
{
    let ghost s = text_chars(*entered);
    proof {
        lemma_next_entry_ok(s, key);
        lemma_entry_ascii(s);
        lemma_ascii_utf8_len(s);
    }
    if key == CLEAR_KEY {
        text_clear(entered);
        *dot = false;
    } else if key == POINT_KEY {
        if !*dot {
            if text_push(entered, '.').is_ok() {
                *dot = true;
                proof {
                    crate::text::lemma_contains_push(s, '.', '.');
                }
            }
        }
    } else if '0' <= key && key <= '9' {
        // Only one leading zero can be entered, and a lone zero gives way
        // to the first other digit typed after it.
        let lone_zero = {
            let text = text_as_str(entered);
            text.unicode_len() == 1 && text.get_char(0) == '0'
        };
        proof {
            if lone_zero {
                assert(s =~= seq!['0']);
            } else {
                assert(s != seq!['0']) by {
                    if s == seq!['0'] {
                        assert(s.len() == 1 && s[0] == '0');
                    }
                }
            }
        }
        if key != '0' && lone_zero {
            text_clear(entered);
            *dot = false;
        }
        if key != '0' || !lone_zero {
            let ghost before = text_chars(*entered);
            if text_push(entered, key).is_ok() {
                proof {
                    crate::text::lemma_contains_push(before, key, '.');
                }
            }
            proof {
                if lone_zero {
                    assert(before.push(key) =~= seq![key]);
                }
            }
        }
    }
}

/// The converter: the entered value, its decimal point flag, and the
/// display it is drawn on.
pub struct MainApp {
    lcd: Lcd,
    entered: Text16,
    dot: bool,
}

impl MainApp {
    /// The entered value is one that the entry rules produce, and the
    /// decimal point flag says whether it holds a decimal point.
    pub closed spec fn wf(&self) -> bool {
        &&& entry_ok(text_chars(self.entered))
        &&& self.dot == text_chars(self.entered).contains('.')
    }

    /// The entered value.
    pub closed spec fn entry(&self) -> Seq<char> {
        text_chars(self.entered)
    }

    /// The display driver.
    pub closed spec fn display(&self) -> Lcd {
        self.lcd
    }

    /// The entered value and the display control flags.
    pub open spec fn state(&self) -> (Seq<char>, u8) {
        (self.entry(), self.display().control_flags())
    }

    /// A converter with nothing entered, on a display that was set up:
    /// the backlight is set to white and the cursor is shown.
    pub fn new(lcd: Lcd, out: &mut Vec<BusOp>) -> (r: MainApp)
        ensures
            r.wf(),
            r.entry() == Seq::<char>::empty(),
            r.display().control_flags() == lcd.control_flags()
                | ControlOptions::CursorOn.spec_bits(),
            r.display().function_flags() == lcd.function_flags(),
            r.display().mode_flags() == lcd.mode_flags(),
            final(out)@ == old(out)@ + rgb_ops(255, 255, 255) + display_control_ops(
                r.display().control_flags(),
            ),
    {
        let mut app = MainApp { lcd, entered: text_new(), dot: false };
        app.init(out);
        app
    }

    fn init(&mut self, out: &mut Vec<BusOp>)
        requires
            old(self).wf(),
        ensures
            final(self).wf(),
            final(self).entry() == old(self).entry(),
            final(self).display().control_flags() == old(self).display().control_flags()
                | ControlOptions::CursorOn.spec_bits(),
            final(self).display().function_flags() == old(self).display().function_flags(),
            final(self).display().mode_flags() == old(self).display().mode_flags(),
            final(out)@ == old(out)@ + rgb_ops(255, 255, 255) + display_control_ops(
                final(self).display().control_flags(),
            ),
    {
        self.lcd.set_rgb(255, 255, 255, out);
        self.lcd.cursor_on(out);
    }

    /// Empties the entered value and redraws; the same as key `*`.
    pub fn clear(&mut self, out: &mut Vec<BusOp>)
        requires
            old(self).wf(),
        ensures
            final(self).wf(),
            final(self).state() == key_step(old(self).state(), CLEAR_KEY),
            final(self).entry() == Seq::<char>::empty(),
            final(self).display().function_flags() == old(self).display().function_flags(),
            final(self).display().mode_flags() == old(self).display().mode_flags(),
            final(out)@ == old(out)@ + redraw_ops(
                final(self).entry(),
                final(self).display().control_flags(),
            ),
    {
        self.key(CLEAR_KEY, out)
    }

    /// Handles one key press (`0` to `9`, `*` or `#`; any other character
    /// leaves the value as it is) and redraws.
    pub fn key(&mut self, key: char, out: &mut Vec<BusOp>)
        requires
            old(self).wf(),
        ensures
            final(self).wf(),
            final(self).state() == key_step(old(self).state(), key),
            final(self).display().function_flags() == old(self).display().function_flags(),
            final(self).display().mode_flags() == old(self).display().mode_flags(),
            final(out)@ == old(out)@ + redraw_ops(
                final(self).entry(),
                final(self).display().control_flags(),
            ),
    {
        apply_key(&mut self.entered, &mut self.dot, key);
        self.update(out)
    }

    /// Redraws both lines for the entered value, shows the cursor after it
    /// (or hides it when nothing is entered).
    pub fn update(&mut self, out: &mut Vec<BusOp>)
        requires
            old(self).wf(),
        ensures
            final(self).wf(),
            final(self).entry() == old(self).entry(),
            final(self).display().control_flags() == cursor_flags(
                old(self).display().control_flags(),
                old(self).entry(),
            ),
            final(self).display().function_flags() == old(self).display().function_flags(),
            final(self).display().mode_flags() == old(self).display().mode_flags(),
            final(out)@ == old(out)@ + redraw_ops(
                final(self).entry(),
                final(self).display().control_flags(),
            ),
    {
        proof {
            lemma_entry_ascii(text_chars(self.entered));
        }
        let entered = text_as_str(&self.entered);
        let len = entered.unicode_len();
        let cursor: u8 = if len > 0 {
            self.lcd.cursor_on(out);
            len as u8
        } else {
            self.lcd.cursor_off(out);
            0
        };
        let line1 = inch_line(entered);
        let line2 = millimetre_line(entered);

        // Draw the inches to millimetres line
        self.lcd.cursor_position(0, 0, out);
        self.lcd.print(text_as_str(&line1), out);

        // Draw the millimetres to inches line
        self.lcd.cursor_position(0, 1, out);
        self.lcd.print(text_as_str(&line2), out);

        self.lcd.cursor_position(cursor, 0, out);
        proof {
            assert(out@ =~= old(out)@ + redraw_ops(
                text_chars(self.entered),
                self.lcd.control_flags(),
            ));
        }
    }

    /// The entered value.
    pub fn entered(&self) -> (r: &str)
        ensures
            r@ == self.entry(),
    {
        text_as_str(&self.entered)
    }
}

} // verus!
