//! Scanning and decoding of a 4 x 3 matrix keypad.
//!
//! The caller drives one column line low at a time, waits for the lines to
//! settle, samples the four row lines and drives the column high again. The
//! sampled levels (`true` for a row that read low) are handed to
//! [`MyKeypad::read_char`], which turns them into the label of the key.

use vstd::prelude::*;

verus! {

/// Marker returned by [`MyKeypad::convert`] for the `*` key.
pub const STAR: i16 = -1;

/// Marker returned by [`MyKeypad::convert`] for the `#` key.
pub const HASH: i16 = -2;

/// Marker returned by [`MyKeypad::convert`] for a raw value that is not
/// exactly one key.
pub const INVALID: i16 = -10;

/// What [`MyKeypad::read_char`] returns when no single key is down.
pub const NO_KEY: char = ' ';

/// The label printed on the key at `row` and `col` (telephone layout).
pub open spec fn key_at(row: int, col: int) -> char {
    if col == 0 {
        if row == 0 { '1' } else if row == 1 { '4' } else if row == 2 { '7' } else { '*' }
    } else if col == 1 {
        if row == 0 { '2' } else if row == 1 { '5' } else if row == 2 { '8' } else { '0' }
    } else {
        if row == 0 { '3' } else if row == 1 { '6' } else if row == 2 { '9' } else { '#' }
    }
}

/// The bit that the key at `row` and `col` sets in a raw scan value.
pub open spec fn key_bit(row: int, col: int) -> u16 {
    (1u16 << ((4 * col + row) as u16)) as u16
}

/// The code of a raw scan value: 0 to 9 for a digit key, [`STAR`],
/// [`HASH`], or [`INVALID`] when the value is not exactly one key.
pub open spec fn key_code(raw: u16) -> i16 {
    if raw == 1 {
        1
    } else if raw == 2 {
        4
    } else if raw == 4 {
        7
    } else if raw == 8 {
        STAR
    } else if raw == 16 {
        2
    } else if raw == 32 {
        5
    } else if raw == 64 {
        8
    } else if raw == 128 {
        0
    } else if raw == 256 {
        3
    } else if raw == 512 {
        6
    } else if raw == 1024 {
        9
    } else if raw == 2048 {
        HASH
    } else {
        INVALID
    }
}

/// The character that a key code stands for; [`NO_KEY`] for [`INVALID`].
pub open spec fn code_char(code: i16) -> char {
    if code == STAR {
        '*'
    } else if code == HASH {
        '#'
    } else if 0 <= code <= 9 {
        (('0' as u32) + code as u32) as char
    } else {
        NO_KEY
    }
}

/// The key label of a raw scan value, or [`NO_KEY`].
pub open spec fn key_char(raw: u16) -> char {
    code_char(key_code(raw))
}

/// The four bits of one column: bit `i` is set when row `i` read low.
pub open spec fn column_bits(low: [bool; 4]) -> u16 {
    ((if low[0] { 1u16 } else { 0u16 }) | (if low[1] { 2u16 } else { 0u16 }) | (if low[2] {
        4u16
    } else {
        0u16
    }) | (if low[3] { 8u16 } else { 0u16 })) as u16
}

/// The raw value of a whole scan: the bits of column `c` sit at `4 * c`.
pub open spec fn scan_bits(low: [[bool; 4]; 3]) -> u16 {
    (column_bits(low[0]) | (column_bits(low[1]) << 4u16) | (column_bits(low[2]) << 8u16)) as u16
}

/// A raw value with exactly one of the twelve key bits set decodes to the
/// label of that key; every other raw value (none set, or two or more)
/// decodes to [`NO_KEY`].
pub proof fn lemma_decode_table(raw: u16)
    ensures
        forall|row: int, col: int|
            0 <= row < 4 && 0 <= col < 3 && raw == #[trigger] key_bit(row, col) ==> key_char(raw)
                == key_at(row, col),
        (forall|row: int, col: int| 0 <= row < 4 && 0 <= col < 3 ==> raw != #[trigger] key_bit(row, col))
            ==> key_char(raw) == NO_KEY,
{
    lemma_key_bits();
    if !(raw == 1 || raw == 2 || raw == 4 || raw == 8 || raw == 16 || raw == 32 || raw == 64 || raw
        == 128 || raw == 256 || raw == 512 || raw == 1024 || raw == 2048) {
        assert(key_code(raw) == INVALID);
    } else {
        assert(raw == 1 ==> raw == key_bit(0, 0));
        assert(raw == 2 ==> raw == key_bit(1, 0));
        assert(raw == 4 ==> raw == key_bit(2, 0));
        assert(raw == 8 ==> raw == key_bit(3, 0));
        assert(raw == 16 ==> raw == key_bit(0, 1));
        assert(raw == 32 ==> raw == key_bit(1, 1));
        assert(raw == 64 ==> raw == key_bit(2, 1));
        assert(raw == 128 ==> raw == key_bit(3, 1));
        assert(raw == 256 ==> raw == key_bit(0, 2));
        assert(raw == 512 ==> raw == key_bit(1, 2));
        assert(raw == 1024 ==> raw == key_bit(2, 2));
        assert(raw == 2048 ==> raw == key_bit(3, 2));
    }
}

/// The bits of a column in which no row, or exactly one row, read low.
proof fn lemma_column(low: [bool; 4])
    ensures
        !low[0] && !low[1] && !low[2] && !low[3] ==> column_bits(low) == 0,
        low[0] && !low[1] && !low[2] && !low[3] ==> column_bits(low) == 1,
        !low[0] && low[1] && !low[2] && !low[3] ==> column_bits(low) == 2,
        !low[0] && !low[1] && low[2] && !low[3] ==> column_bits(low) == 4,
        !low[0] && !low[1] && !low[2] && low[3] ==> column_bits(low) == 8,
{
    let b0: u16 = if low[0] { 1 } else { 0 };
    let b1: u16 = if low[1] { 2 } else { 0 };
    let b2: u16 = if low[2] { 4 } else { 0 };
    let b3: u16 = if low[3] { 8 } else { 0 };
    assert(column_bits(low) == b0 | b1 | b2 | b3);
    assert((b0 == 0 || b0 == 1) && (b1 == 0 || b1 == 2) && (b2 == 0 || b2 == 4) && (b3 == 0 || b3
        == 8) ==> (b1 == 0 && b2 == 0 && b3 == 0 ==> (b0 | b1 | b2 | b3) == b0) && (b0 == 0 && b2
        == 0 && b3 == 0 ==> (b0 | b1 | b2 | b3) == b1) && (b0 == 0 && b1 == 0 && b3 == 0 ==> (b0
        | b1 | b2 | b3) == b2) && (b0 == 0 && b1 == 0 && b2 == 0 ==> (b0 | b1 | b2 | b3) == b3))
        by (bit_vector);
}

/// The twelve key bits, one by one.
proof fn lemma_key_bits()
    ensures
        forall|row: int, col: int|
            0 <= row < 4 && 0 <= col < 3 ==> #[trigger] key_bit(row, col) == (if col == 0 {
                if row == 0 { 1u16 } else if row == 1 { 2u16 } else if row == 2 { 4u16 } else { 8u16 }
            } else if col == 1 {
                if row == 0 { 16u16 } else if row == 1 { 32u16 } else if row == 2 { 64u16 } else { 128u16 }
            } else {
                if row == 0 { 256u16 } else if row == 1 { 512u16 } else if row == 2 { 1024u16 } else { 2048u16 }
            }),
{
    assert((1u16 << 0u16) == 1 && (1u16 << 1u16) == 2 && (1u16 << 2u16) == 4 && (1u16 << 3u16)
        == 8 && (1u16 << 4u16) == 16 && (1u16 << 5u16) == 32 && (1u16 << 6u16) == 64 && (1u16
        << 7u16) == 128 && (1u16 << 8u16) == 256 && (1u16 << 9u16) == 512 && (1u16 << 10u16)
        == 1024 && (1u16 << 11u16) == 2048) by (bit_vector);
}

/// When exactly one key is down, a scan yields the bit of that key and
/// [`MyKeypad::read_char`] yields its label.
pub proof fn lemma_one_key_down(low: [[bool; 4]; 3], row: int, col: int)
    requires
        0 <= row < 4,
        0 <= col < 3,
        low[col][row],
        forall|r: int, c: int| 0 <= r < 4 && 0 <= c < 3 && (r != row || c != col) ==> !low[c][r],
    ensures
        scan_bits(low) == key_bit(row, col),
        key_char(scan_bits(low)) == key_at(row, col),
{
    lemma_key_bits();
    let b0 = column_bits(low[0]);
    let b1 = column_bits(low[1]);
    let b2 = column_bits(low[2]);
    assert forall|c: int| 0 <= c < 3 && c != col implies column_bits(#[trigger] low[c]) == 0 by {
        assert(!low[c][0] && !low[c][1] && !low[c][2] && !low[c][3]);
        lemma_column(low[c]);
    }
    assert forall|r: int| 0 <= r < 4 && r != row implies !#[trigger] low[col][r] by {}
    lemma_column(low[col]);
    let one: u16 = if row == 0 { 1u16 } else if row == 1 { 2u16 } else if row == 2 { 4u16 } else { 8u16 };
    assert(column_bits(low[col]) == one);
    if col == 0 {
        assert(b1 == 0 && b2 == 0);
        assert(b0 == 1 || b0 == 2 || b0 == 4 || b0 == 8);
        assert(b1 == 0 && b2 == 0 ==> (b0 | (b1 << 4u16) | (b2 << 8u16)) == b0) by (bit_vector);
    } else if col == 1 {
        assert(b0 == 0 && b2 == 0);
        assert(b0 == 0 && b2 == 0 ==> (b0 | (b1 << 4u16) | (b2 << 8u16)) == (b1 << 4u16)) by (bit_vector);
        assert(b1 == 1 ==> (b1 << 4u16) == 16) by (bit_vector);
        assert(b1 == 2 ==> (b1 << 4u16) == 32) by (bit_vector);
        assert(b1 == 4 ==> (b1 << 4u16) == 64) by (bit_vector);
        assert(b1 == 8 ==> (b1 << 4u16) == 128) by (bit_vector);
    } else {
        assert(b0 == 0 && b1 == 0);
        assert(b0 == 0 && b1 == 0 ==> (b0 | (b1 << 4u16) | (b2 << 8u16)) == (b2 << 8u16)) by (bit_vector);
        assert(b2 == 1 ==> (b2 << 8u16) == 256) by (bit_vector);
        assert(b2 == 2 ==> (b2 << 8u16) == 512) by (bit_vector);
        assert(b2 == 4 ==> (b2 << 8u16) == 1024) by (bit_vector);
        assert(b2 == 8 ==> (b2 << 8u16) == 2048) by (bit_vector);
    }
    lemma_decode_table(scan_bits(low));
}

/// Decoder for the keypad. The lines themselves belong to the caller, which
/// hands over the levels it sampled.
pub struct MyKeypad {}

impl MyKeypad {
    pub fn new() -> (r: MyKeypad) {
        MyKeypad {  }
    }

    /// Decodes one scan: `low[c][r]` is `true` when row `r` read low while
    /// column `c` was driven low. Returns the label of the key that is down,
    /// or [`NO_KEY`] when none is, or when more than one is.
    pub fn read_char(&self, low: [[bool; 4]; 3]) -> (r: char)
        ensures
            r == key_char(scan_bits(low)),
    {
        let raw = self.read(low);
        if raw != 0 {
            self.get_char(raw)
        } else {
            proof {
                assert(key_code(0u16) == INVALID);
            }
            NO_KEY
        }
    }

    /// The raw value of a scan: one bit for each key that is down.
    pub fn read(&self, low: [[bool; 4]; 3]) -> (r: u16)
        ensures
            r == scan_bits(low),
    {
        let mut res: u16 = 0;
        res = res | (self.read_column(low[0]) << 0u16);
        res = res | (self.read_column(low[1]) << 4u16);
        res = res | (self.read_column(low[2]) << 8u16);
        proof {
            let c0 = column_bits(low[0]);
            let c1 = column_bits(low[1]);
            let c2 = column_bits(low[2]);
            assert((((0u16 | (c0 << 0u16)) | (c1 << 4u16)) | (c2 << 8u16)) == (c0 | (c1 << 4u16)
                | (c2 << 8u16))) by (bit_vector);
        }
        res
    }

    /// The four bits of one column; bit `i` is set when row `i` read low.
    pub fn read_column(&self, low: [bool; 4]) -> (r: u16)
        ensures
            r == column_bits(low),
            r < 16,
    {
        let b0: u16 = if low[0] { 1 } else { 0 };
        let b1: u16 = if low[1] { 2 } else { 0 };
        let b2: u16 = if low[2] { 4 } else { 0 };
        let b3: u16 = if low[3] { 8 } else { 0 };
        let res: u16 = b0 | b1 | b2 | b3;
        proof {
            assert((b0 == 0 || b0 == 1) && (b1 == 0 || b1 == 2) && (b2 == 0 || b2 == 4) && (b3 == 0
                || b3 == 8) ==> (b0 | b1 | b2 | b3) < 16) by (bit_vector);
        }
        res
    }

    /// The label of the key that a raw value stands for, or [`NO_KEY`].
    pub fn get_char(&self, raw_value: u16) -> (r: char)
        ensures
            r == key_char(raw_value),
    {
        let value = self.convert(raw_value);
        if value == STAR {
            '*'
        } else if value == HASH {
            '#'
        } else if 0 <= value && value <= 9 {
            (('0' as u8) + (value as u8)) as char
        } else {
            NO_KEY
        }
    }

    /// Converts a raw value into a key code: 0 to 9 for a digit, [`STAR`]
    /// for `*`, [`HASH`] for `#`, [`INVALID`] for anything but one key.
    pub fn convert(&self, value: u16) -> (r: i16)
        ensures
            r == key_code(value),
    {
        match value {
            1 => 1,
            2 => 4,
            4 => 7,
            8 => STAR,
            16 => 2,
            32 => 5,
            64 => 8,
            128 => 0,
            256 => 3,
            512 => 6,
            1024 => 9,
            2048 => HASH,
            _ => INVALID,
        }
    }
}

} // verus!
