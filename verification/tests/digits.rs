use export_findmy::digits::{decimal_string, parse_decimal, parse_line, upper_hex_string};

#[test]
fn decimal_has_no_leading_zeros() {
    assert_eq!(decimal_string(0), "0");
    assert_eq!(decimal_string(7), "7");
    assert_eq!(decimal_string(10), "10");
    assert_eq!(decimal_string(2147483646), "2147483646");
    assert_eq!(decimal_string(u64::MAX), "18446744073709551615");
}

#[test]
fn hexadecimal_is_padded_and_in_upper_case() {
    assert_eq!(upper_hex_string(0xbeef, 8), "0000BEEF");
    assert_eq!(upper_hex_string(0x12345, 2), "45");
    assert_eq!(upper_hex_string(u128::MAX, 32), format!("{:032X}", u128::MAX));
    assert_eq!(upper_hex_string(0x0123456789abcdef, 32), format!("{:032X}", 0x0123456789abcdefu128));
    assert_eq!(upper_hex_string(5, 0), "");
}

#[test]
fn a_written_number_is_read_back() {
    for n in [0usize, 1, 9, 10, 99, 12345, usize::MAX - 1, usize::MAX] {
        assert_eq!(parse_decimal(&decimal_string(n as u64)), Some(n));
    }
}

#[test]
fn different_numbers_are_written_differently() {
    for m in 0..40u64 {
        for n in 0..40u64 {
            assert_eq!(decimal_string(m) == decimal_string(n), m == n);
        }
    }
}

#[test]
fn reading_agrees_with_std() {
    let texts = [
        "", "+", "-", "-0", "+0", "0", "007", "+12", "++1", "1+", " 1", "1 ", "1_0", "0x1", "٣",
        "18446744073709551615", "18446744073709551616", "18446744073709551620",
        "184467440737095516150", "99999999999999999999999999x",
    ];
    for s in texts {
        assert_eq!(parse_decimal(s), s.parse::<usize>().ok(), "{:?}", s);
    }
}

#[test]
fn a_line_is_trimmed_before_it_is_read() {
    assert_eq!(parse_line(" 42\r\n"), Some(42));
    assert_eq!(parse_line("\n"), None);
    assert_eq!(parse_line("4 2\n"), None);
}
