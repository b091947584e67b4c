use rustengan::decimal::usize_to_decimal;

#[test]
fn small_numbers_render_as_one_digit() {
    assert_eq!(usize_to_decimal(0), "0");
    assert_eq!(usize_to_decimal(7), "7");
    assert_eq!(usize_to_decimal(9), "9");
}

#[test]
fn larger_numbers_render_most_significant_digit_first() {
    assert_eq!(usize_to_decimal(10), "10");
    assert_eq!(usize_to_decimal(42), "42");
    assert_eq!(usize_to_decimal(90210), "90210");
    assert_eq!(usize_to_decimal(1000000), "1000000");
}

#[test]
fn rendering_matches_the_standard_formatter() {
    for n in [0usize, 1, 99, 100, 12345, usize::MAX] {
        assert_eq!(usize_to_decimal(n), format!("{}", n));
    }
}
