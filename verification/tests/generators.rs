//! Primitive generators: bounds, normalization and display text.

use mockagen::{
    day_number_from_ymd, format_day_number, DateRangeGen, IntegerRangeGen, LiteralGen, OutValue,
    RealRangeGen, StringRangeGen,
};

#[test]
fn test_integer_range_normalizes_bounds() {
    let reversed = IntegerRangeGen::new(5, 1);
    let forward = IntegerRangeGen::new(1, 5);
    assert_eq!(reversed.bounds(), (1, 5));
    assert_eq!(forward.bounds(), (1, 5));
}

#[test]
fn test_integer_range_samples_within_bounds() {
    let gen = IntegerRangeGen::new(5, 1);
    for _ in 0..1000 {
        match gen.generate_value() {
            OutValue::I64(v) => assert!((1..=5).contains(&v)),
            _ => panic!("expected an integer"),
        }
    }
}

#[test]
fn test_real_range_samples_within_bounds() {
    // Fixed-point millionths: the range 0.5 to 1.25.
    let gen = RealRangeGen::new(1_250_000, 500_000);
    for _ in 0..1000 {
        match gen.generate_value() {
            OutValue::Real(v) => assert!((500_000..=1_250_000).contains(&v)),
            _ => panic!("expected a real"),
        }
    }
}

#[test]
fn test_string_range_lengths_and_characters() {
    let gen = StringRangeGen::new(8, 3);
    assert_eq!(gen.bounds(), (3, 8));
    for _ in 0..200 {
        match gen.generate_value() {
            OutValue::String(s) => {
                assert!((3..=8).contains(&s.len()));
                assert!(s.chars().all(|c| c.is_ascii_alphanumeric()));
            }
            _ => panic!("expected a string"),
        }
    }
}

#[test]
fn test_string_range_negative_length_clamped() {
    let gen = StringRangeGen::new(-5, 2);
    assert_eq!(gen.bounds(), (0, 2));
}

#[test]
fn test_literal_clones_fixed_string() {
    let gen = LiteralGen::new("fixed".to_string());
    for _ in 0..3 {
        match gen.generate_value() {
            OutValue::String(s) => assert_eq!(s, "fixed"),
            _ => panic!("expected a string"),
        }
    }
}

#[test]
fn test_date_range_stays_inside_calendar_bounds() {
    let from = day_number_from_ymd(2020, 1, 1).unwrap();
    let to = day_number_from_ymd(2020, 1, 3).unwrap();
    let gen = DateRangeGen::new(to, from);
    let expected: Vec<String> = (1..=3)
        .map(|d| {
            chrono::NaiveDate::from_ymd_opt(2020, 1, d)
                .unwrap()
                .format("%Y-%m-%d")
                .to_string()
        })
        .collect();
    for _ in 0..200 {
        match gen.generate_value() {
            OutValue::Date(day) => {
                assert!((from..=to).contains(&day));
                let text = format_day_number(day);
                assert!(expected.contains(&text));
            }
            _ => panic!("expected a date"),
        }
    }
}

#[test]
fn test_day_numbers_match_calendar() {
    // Day 1 of the proleptic Gregorian calendar is January 1 of year 1.
    assert_eq!(day_number_from_ymd(1, 1, 1), Some(1));
    assert_eq!(day_number_from_ymd(2023, 2, 29), None);
    let day = day_number_from_ymd(1999, 12, 31).unwrap();
    assert_eq!(format_day_number(day), "1999-12-31");
}

#[test]
fn test_day_number_outside_calendar_displays_empty() {
    // chrono cannot represent this day number; the display is empty
    // rather than a panic.
    assert_eq!(format_day_number(100_000_000), "");
    assert_eq!(format_day_number(i64::MIN), "");
}

#[test]
fn test_display_text_of_integers() {
    assert_eq!(OutValue::I64(0).to_display_string(), "0");
    assert_eq!(OutValue::I64(-42).to_display_string(), "-42");
    assert_eq!(OutValue::I64(i64::MAX).to_display_string(), i64::MAX.to_string());
    assert_eq!(OutValue::I64(i64::MIN).to_display_string(), i64::MIN.to_string());
}

#[test]
fn test_display_text_of_reals() {
    assert_eq!(OutValue::Real(1_500_000).to_display_string(), "1.5");
    assert_eq!(OutValue::Real(-2_000_000).to_display_string(), "-2");
    assert_eq!(OutValue::Real(123).to_display_string(), "0.000123");
    assert_eq!(OutValue::Real(0).to_display_string(), "0");
    assert_eq!(OutValue::Real(-1_250_000).to_display_string(), "-1.25");
}

#[test]
fn test_display_text_of_strings_and_dates() {
    assert_eq!(OutValue::String("plain".into()).to_display_string(), "plain");
    let day = day_number_from_ymd(2020, 7, 9).unwrap();
    assert_eq!(OutValue::Date(day).to_display_string(), "2020-07-09");
}

#[test]
fn test_duplicate_copies_value() {
    let v = OutValue::String("copy me".into());
    let w = v.duplicate();
    assert_eq!(v.to_display_string(), w.to_display_string());
}
