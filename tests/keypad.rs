use metricizer::keypad::{MyKeypad, HASH, INVALID, NO_KEY, STAR};

fn one_key(row: usize, col: usize) -> [[bool; 4]; 3] {
    let mut low = [[false; 4]; 3];
    low[col][row] = true;
    low
}

#[test]
fn convert_maps_each_single_bit() {
    let k = MyKeypad::new();
    let expected: [(u16, i16); 12] = [
        (1, 1),
        (2, 4),
        (4, 7),
        (8, STAR),
        (16, 2),
        (32, 5),
        (64, 8),
        (128, 0),
        (256, 3),
        (512, 6),
        (1024, 9),
        (2048, HASH),
    ];
    for (raw, code) in expected {
        assert_eq!(k.convert(raw), code);
    }
}

#[test]
fn convert_rejects_zero_and_several_bits() {
    let k = MyKeypad::new();
    assert_eq!(k.convert(0), INVALID);
    assert_eq!(k.convert(3), INVALID);
    assert_eq!(k.convert(0x0810), INVALID);
    assert_eq!(k.convert(4096), INVALID);
    assert_eq!(k.convert(0xFFFF), INVALID);
}

#[test]
fn get_char_gives_labels() {
    let k = MyKeypad::new();
    assert_eq!(k.get_char(1), '1');
    assert_eq!(k.get_char(8), '*');
    assert_eq!(k.get_char(128), '0');
    assert_eq!(k.get_char(2048), '#');
    assert_eq!(k.get_char(1024), '9');
    assert_eq!(k.get_char(6), NO_KEY);
}

#[test]
fn read_char_single_key_in_every_cell() {
    let k = MyKeypad::new();
    let layout = [['1', '2', '3'], ['4', '5', '6'], ['7', '8', '9'], ['*', '0', '#']];
    for row in 0..4 {
        for col in 0..3 {
            assert_eq!(k.read_char(one_key(row, col)), layout[row][col]);
        }
    }
}

#[test]
fn read_char_no_key_down() {
    let k = MyKeypad::new();
    assert_eq!(k.read_char([[false; 4]; 3]), ' ');
}

#[test]
fn read_char_two_keys_down_is_no_key() {
    let k = MyKeypad::new();
    let mut low = one_key(0, 0);
    low[2][3] = true;
    assert_eq!(k.read_char(low), ' ');
    let mut same_column = one_key(1, 1);
    same_column[1][2] = true;
    assert_eq!(k.read_char(same_column), ' ');
}

#[test]
fn read_places_columns_four_bits_apart() {
    let k = MyKeypad::new();
    assert_eq!(k.read_column([true, false, true, false]), 0b0101);
    assert_eq!(k.read_column([false, false, false, true]), 0b1000);
    assert_eq!(k.read(one_key(2, 1)), 64);
    assert_eq!(k.read(one_key(3, 2)), 2048);
    let all = [[true; 4]; 3];
    assert_eq!(k.read(all), 0x0FFF);
}
