use status_query::number::{div_truncating, format_decimal, parse_bounded, parse_i32, parse_i64};

#[test]
fn formatting_agrees_with_std() {
    let values: [i64; 12] = [0, 1, 9, 10, 11, 99, 100, 7812, -1, -10, i64::MAX, i64::MIN];
    for value in values {
        assert_eq!(format_decimal(value), format!("{}", value));
    }
}

#[test]
fn formatting_examples() {
    assert_eq!(format_decimal(7812), "7812");
    assert_eq!(format_decimal(-33), "-33");
    assert_eq!(format_decimal(1000000), "1000000");
}

#[test]
fn parsing_agrees_with_std() {
    let texts = ["0", "7", "-7", "+7", "007", "-0", "+0", "", "-", "+", "--1", "+-1", "1-", "1 ", " 1", "1.0", "1e3", "0x1", "12a", "a12", "\u{661}", "2147483647", "2147483648", "-2147483648", "-2147483649", "9223372036854775807", "9223372036854775808", "-9223372036854775808", "-9223372036854775809", "340282366920938463463374607431768211456", "000000000000000000000000000000000000000000042", "99999999999999999999999999999999999999999999999"];
    for text in texts {
        let as_i64: Option<i64> = text.parse().ok();
        let as_i32: Option<i32> = text.parse().ok();
        assert_eq!(parse_i64(text), as_i64, "{:?}", text);
        assert_eq!(parse_i32(text), as_i32, "{:?}", text);
    }
}

#[test]
fn parsing_within_bounds() {
    assert_eq!(parse_bounded("100", 0, 100), Some(100));
    assert_eq!(parse_bounded("101", 0, 100), None);
    assert_eq!(parse_bounded("-1", 0, 100), None);
    assert_eq!(parse_bounded("-0", 0, 100), Some(0));
    assert_eq!(parse_bounded("5", 10, 0), None);
}

#[test]
fn division_rounds_towards_zero() {
    assert_eq!(div_truncating(7, 2), 3);
    assert_eq!(div_truncating(-7, 2), -3);
    assert_eq!(div_truncating(7, -2), -3);
    assert_eq!(div_truncating(-7, -2), 3);
    assert_eq!(div_truncating(0, -2), 0);
    assert_eq!(div_truncating(8000000, 1024), 7812);
    assert_eq!(div_truncating(i128::MAX, i128::MIN), 0);
    assert_eq!(div_truncating(i128::MIN + 1, -1), i128::MAX);
    assert_eq!(div_truncating(i128::MIN + 1, i128::MIN), 0);
}

#[test]
fn division_agrees_with_std() {
    let values: [i128; 9] = [-1025, -1024, -1023, -1, 0, 1, 1023, 1024, 1025];
    let divisors: [i128; 6] = [-1024, -3, -1, 1, 3, 1024];
    for a in values {
        for b in divisors {
            assert_eq!(div_truncating(a, b), a / b, "{} {}", a, b);
        }
    }
}
