use bevy_hanabi::format::format_decimal;
use bevy_hanabi::Fixed;

#[test]
fn zero_and_one_keep_the_separator() {
    assert_eq!(Fixed::zero().to_float_string(), "0.");
    assert_eq!(Fixed::one().to_float_string(), "1.");
    assert_eq!(Fixed::from_int(0).to_float_string(), "0.");
    assert_eq!(Fixed::from_int(1).to_float_string(), "1.");
}

#[test]
fn whole_numbers_end_with_the_separator() {
    assert_eq!(Fixed::from_int(10).to_float_string(), "10.");
    assert_eq!(Fixed::from_int(32768).to_float_string(), "32768.");
    assert_eq!(Fixed::from_int(-3).to_float_string(), "-3.");
    assert_eq!(Fixed::from_int(i32::MAX).to_float_string(), "2147483647.");
    assert_eq!(Fixed::from_int(i32::MIN).to_float_string(), "-2147483648.");
}

#[test]
fn trailing_zeros_are_dropped() {
    assert_eq!(Fixed::from_micros(1_500_000).to_float_string(), "1.5");
    assert_eq!(Fixed::from_micros(250_000).to_float_string(), "0.25");
    assert_eq!(Fixed::from_micros(-250_000).to_float_string(), "-0.25");
    assert_eq!(Fixed::from_micros(123_456_000).to_float_string(), "123.456");
    assert_eq!(Fixed::from_micros(100_000).to_float_string(), "0.1");
    assert_eq!(Fixed::from_micros(2_000_010).to_float_string(), "2.00001");
}

#[test]
fn inner_zeros_are_kept() {
    assert_eq!(Fixed::from_micros(1).to_float_string(), "0.000001");
    assert_eq!(Fixed::from_micros(-1).to_float_string(), "-0.000001");
    assert_eq!(Fixed::from_micros(1_000_001).to_float_string(), "1.000001");
    assert_eq!(Fixed::from_micros(10_050_000).to_float_string(), "10.05");
}

#[test]
fn extreme_values_are_written_in_full() {
    assert_eq!(Fixed::from_micros(i64::MAX).to_float_string(), "9223372036854.775807");
    assert_eq!(Fixed::from_micros(i64::MIN).to_float_string(), "-9223372036854.775808");
}

#[test]
fn fifteen_digits_for_double_precision() {
    assert_eq!(format_decimal(0, 15), "0.");
    assert_eq!(format_decimal(1_000_000_000_000_000, 15), "1.");
    assert_eq!(format_decimal(1_234_567_890_123_456, 15), "1.234567890123456");
    assert_eq!(format_decimal(-500_000_000_000_000, 15), "-0.5");
    assert_eq!(format_decimal(1, 15), "0.000000000000001");
}

#[test]
fn numbers_beyond_64_bits() {
    assert_eq!(
        format_decimal(i128::MAX, 0),
        "170141183460469231731687303715884105727."
    );
    assert_eq!(
        format_decimal(i128::MIN, 0),
        "-170141183460469231731687303715884105728."
    );
    assert_eq!(
        format_decimal(i128::MAX, 15),
        "170141183460469231731687.303715884105727"
    );
    assert_eq!(
        format_decimal(i128::MIN, 38),
        "-1.70141183460469231731687303715884105728"
    );
    assert_eq!(
        format_decimal(i128::MAX, 39),
        "0.170141183460469231731687303715884105727"
    );
    assert_eq!(
        format_decimal(i128::MIN, 41),
        "-0.00170141183460469231731687303715884105728"
    );
    assert_eq!(
        format_decimal(100_000_000_000_000_000_000_000_000_000_000_000_000, 38),
        "1."
    );
    assert_eq!(format_decimal(12_345_000_000_000_000_000_000, 15), "12345000.");
}

#[test]
fn any_number_of_digits() {
    assert_eq!(format_decimal(5, 0), "5.");
    assert_eq!(format_decimal(-17, 0), "-17.");
    assert_eq!(format_decimal(5, 1), "0.5");
    assert_eq!(format_decimal(50, 1), "5.");
    assert_eq!(format_decimal(5, 20), "0.00000000000000000005");
    assert_eq!(format_decimal(i64::MAX as i128, 19), "0.9223372036854775807");
    assert_eq!(format_decimal(i64::MAX as i128, 18), "9.223372036854775807");
    assert_eq!(format_decimal(i64::MIN as i128, 25), "-0.0000009223372036854775808");
    assert_eq!(format_decimal(0, 255), "0.");
}

#[test]
fn every_literal_has_one_separator_and_no_trailing_zero() {
    let mut units: i64 = -2_500_000;
    while units <= 2_500_000 {
        let text = Fixed::from_micros(units).to_float_string();
        assert_eq!(text.matches('.').count(), 1, "{}", text);
        assert!(!text.ends_with('0'), "{}", text);
        assert!(text.chars().all(|c| c == '-' || c == '.' || c.is_ascii_digit()), "{}", text);
        let parsed: f64 = format!("{}0", text).parse().unwrap();
        assert!((parsed - units as f64 / 1e6).abs() < 1e-9, "{}", text);
        units += 12_347;
    }
}

fn read_back(text: &str, digits: u32) -> i128 {
    let (negative, body) = match text.strip_prefix('-') {
        Some(rest) => (true, rest),
        None => (false, text),
    };
    let (whole, fraction) = body.split_once('.').unwrap();
    let mut units: i128 = whole.parse().unwrap();
    for i in 0..digits as usize {
        let digit = fraction.as_bytes().get(i).map_or(0, |b| (b - b'0') as i128);
        units = units * 10 + digit;
    }
    assert!(fraction.len() <= digits as usize);
    if negative {
        -units
    } else {
        units
    }
}

#[test]
fn a_literal_reads_back_as_its_number() {
    let numbers: [i128; 10] = [
        0,
        1,
        -1,
        10,
        999_999,
        1_000_000,
        -1_000_001,
        123_456_789,
        i64::MAX as i128,
        i64::MIN as i128,
    ];
    for units in numbers {
        for digits in [0u8, 1, 6, 15, 18, 19, 30] {
            let text = format_decimal(units, digits);
            assert_eq!(read_back(&text, digits as u32), units, "{}", text);
        }
    }
}
