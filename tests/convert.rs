use metricizer::convert::{
    format_fixed4, inches_to_millimetres, millimetres_to_inches, parse_decimal, Decimal,
};

#[test]
fn parse_reads_digits_and_places() {
    assert_eq!(parse_decimal("12.50"), Decimal { digits: 1250, scale: 2 });
    assert_eq!(parse_decimal("10"), Decimal { digits: 10, scale: 0 });
    assert_eq!(parse_decimal("."), Decimal { digits: 0, scale: 0 });
    assert_eq!(parse_decimal(""), Decimal { digits: 0, scale: 0 });
    assert_eq!(parse_decimal("5."), Decimal { digits: 5, scale: 0 });
    assert_eq!(
        parse_decimal("9999999999999999"),
        Decimal { digits: 9999999999999999, scale: 0 }
    );
}

#[test]
fn ten_inches_in_millimetres() {
    assert_eq!(inches_to_millimetres(Decimal { digits: 10, scale: 0 }), 2540000);
    assert_eq!(format_fixed4(2540000).iter().collect::<String>(), "254.0000");
}

#[test]
fn ten_millimetres_in_inches() {
    assert_eq!(millimetres_to_inches(Decimal { digits: 10, scale: 0 }), 3937);
    assert_eq!(format_fixed4(3937).iter().collect::<String>(), " 0.3937");
}

#[test]
fn halves_round_up() {
    assert_eq!(millimetres_to_inches(Decimal { digits: 127, scale: 5 }), 1);
    assert_eq!(inches_to_millimetres(Decimal { digits: 1, scale: 8 }), 0);
    assert_eq!(inches_to_millimetres(Decimal { digits: 5, scale: 5 }), 13);
}

#[test]
fn largest_entry_does_not_overflow() {
    let big = Decimal { digits: 9999999999999999, scale: 0 };
    assert_eq!(inches_to_millimetres(big), 9999999999999999u128 * 254000);
    assert_eq!(
        format_fixed4(inches_to_millimetres(big)).iter().collect::<String>(),
        "253999999999999974.6000"
    );
}

#[test]
fn small_numbers_are_padded() {
    assert_eq!(format_fixed4(0).iter().collect::<String>(), " 0.0000");
    assert_eq!(format_fixed4(5).iter().collect::<String>(), " 0.0005");
    assert_eq!(format_fixed4(123456).iter().collect::<String>(), "12.3456");
}
