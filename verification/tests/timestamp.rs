use serial_logger::clock::ClockReading;
use serial_logger::timestamp::format_timestamp;
use serial_logger::timestamp::generate_timestamp;

fn reading(
    year: i32,
    month: u32,
    day: u32,
    hour: u32,
    minute: u32,
    second: u32,
    millisecond: u32,
) -> ClockReading {
    ClockReading { year, month, day, hour, minute, second, millisecond }
}

fn body(stamp: &str) -> &str {
    let prefix = "\x1b[0m[\x1b[32m";
    let suffix = "\x1b[0m] ";
    assert!(stamp.starts_with(prefix));
    assert!(stamp.ends_with(suffix));
    &stamp[prefix.len()..stamp.len() - suffix.len()]
}

fn has_fixed_shape(body: &str) -> bool {
    let bytes = body.as_bytes();
    if bytes.len() != 23 {
        return false;
    }
    for (i, b) in bytes.iter().enumerate() {
        let ok = match i {
            4 | 7 => *b == b'-',
            10 => *b == b' ',
            13 | 16 => *b == b':',
            19 => *b == b'.',
            _ => b.is_ascii_digit(),
        };
        if !ok {
            return false;
        }
    }
    true
}

#[test]
fn timestamp_has_the_exact_bytes() {
    let stamp = format_timestamp(&reading(2024, 1, 2, 3, 4, 5, 6));
    assert_eq!(stamp, "\x1b[0m[\x1b[32m2024-01-02 03:04:05.006\x1b[0m] ");
    assert_eq!(stamp.len(), 39);
}

#[test]
fn single_digit_fields_are_zero_padded() {
    let stamp = format_timestamp(&reading(7, 1, 1, 1, 1, 1, 1));
    assert_eq!(body(&stamp), "0007-01-01 01:01:01.001");
    assert!(has_fixed_shape(body(&stamp)));
}

#[test]
fn midnight_is_all_zeros() {
    let stamp = format_timestamp(&reading(2023, 12, 31, 0, 0, 0, 0));
    assert_eq!(body(&stamp), "2023-12-31 00:00:00.000");
    assert!(has_fixed_shape(body(&stamp)));
}

#[test]
fn last_millisecond_of_the_day_keeps_the_shape() {
    let stamp = format_timestamp(&reading(1999, 12, 31, 23, 59, 59, 999));
    assert_eq!(body(&stamp), "1999-12-31 23:59:59.999");
    assert!(has_fixed_shape(body(&stamp)));
}

#[test]
fn widest_fields_that_fit_keep_the_shape() {
    let stamp = format_timestamp(&reading(9999, 99, 99, 99, 99, 99, 999));
    assert_eq!(body(&stamp), "9999-99-99 99:99:99.999");
    assert!(has_fixed_shape(body(&stamp)));
    let stamp = format_timestamp(&reading(0, 0, 0, 0, 0, 0, 0));
    assert_eq!(body(&stamp), "0000-00-00 00:00:00.000");
    assert!(has_fixed_shape(body(&stamp)));
}

#[test]
fn seconds_around_midnight_keep_the_shape() {
    let before = format_timestamp(&reading(2016, 12, 31, 23, 59, 59, 999));
    assert_eq!(body(&before), "2016-12-31 23:59:59.999");
    assert!(has_fixed_shape(body(&before)));
    assert_eq!(before.len(), 39);
    let after = format_timestamp(&reading(2017, 1, 1, 0, 0, 0, 0));
    assert_eq!(body(&after), "2017-01-01 00:00:00.000");
    assert!(has_fixed_shape(body(&after)));
    assert_eq!(after.len(), 39);
}

#[test]
fn every_instant_of_a_four_digit_year_has_thirty_nine_characters() {
    for year in [0, 1, 999, 1000, 1970, 2024, 9999] {
        for (month, day) in [(1, 1), (2, 29), (9, 9), (12, 31)] {
            for (hour, minute, second) in [(0, 0, 0), (9, 5, 7), (12, 30, 45), (23, 59, 59)] {
                for millisecond in [0, 1, 9, 10, 99, 100, 500, 999] {
                    let stamp = format_timestamp(&reading(
                        year,
                        month,
                        day,
                        hour,
                        minute,
                        second,
                        millisecond,
                    ));
                    assert_eq!(stamp.len(), 39);
                    assert!(has_fixed_shape(body(&stamp)));
                }
            }
        }
    }
}

#[test]
fn years_outside_four_digits_break_the_shape() {
    let stamp = format_timestamp(&reading(10000, 1, 1, 0, 0, 0, 0));
    assert_eq!(body(&stamp), "10000-01-01 00:00:00.000");
    assert!(!has_fixed_shape(body(&stamp)));
    let stamp = format_timestamp(&reading(-5, 1, 1, 0, 0, 0, 0));
    assert_eq!(body(&stamp), "-005-01-01 00:00:00.000");
    assert!(!has_fixed_shape(body(&stamp)));
}

#[test]
fn timestamp_agrees_with_the_standard_formatter() {
    let samples = [
        reading(2024, 2, 29, 12, 30, 45, 123),
        reading(1970, 1, 1, 0, 0, 0, 0),
        reading(2038, 1, 19, 3, 14, 7, 999),
        reading(-44, 3, 15, 9, 5, 0, 50),
        reading(262142, 12, 31, 23, 59, 59, 999),
        reading(i32::MIN, 12, 1, 0, 7, 59, 0),
    ];
    for r in samples {
        let expected = format!(
            "\x1b[0m[\x1b[32m{:04}-{:02}-{:02} {:02}:{:02}:{:02}.{:03}\x1b[0m] ",
            r.year, r.month, r.day, r.hour, r.minute, r.second, r.millisecond
        );
        assert_eq!(format_timestamp(&r), expected);
    }
}

#[test]
fn timestamp_is_ascii() {
    let stamp = format_timestamp(&reading(2024, 6, 15, 8, 9, 10, 11));
    assert!(stamp.is_ascii());
    assert_eq!(stamp.as_bytes()[0], 0x1b);
}

/// Checks of a timestamp what holds of every reading of the clock: month,
/// day and time stand in their ranges and widths at its end. If the year
/// before them has four digits, the whole has the fixed shape.
fn check_generated(stamp: &str) {
    let body = body(stamp);
    assert!(body.is_ascii());
    assert!(body.len() >= 23);
    let (year, rest) = body.split_at(body.len() - 19);
    assert_eq!(rest.len(), 19);
    let rest = rest.as_bytes();
    assert_eq!(rest[0], b'-');
    assert_eq!(rest[3], b'-');
    assert_eq!(rest[6], b' ');
    assert_eq!(rest[9], b':');
    assert_eq!(rest[12], b':');
    assert_eq!(rest[15], b'.');
    let field = |from: usize, to: usize| -> u32 {
        std::str::from_utf8(&rest[from..to]).unwrap().parse().unwrap()
    };
    assert!((1..=12).contains(&field(1, 3)));
    assert!((1..=31).contains(&field(4, 6)));
    assert!(field(7, 9) <= 23);
    assert!(field(10, 12) <= 59);
    assert!(field(13, 15) <= 59);
    assert!(field(16, 19) <= 999);
    if year.len() == 4 && year.bytes().all(|b| b.is_ascii_digit()) {
        assert!(has_fixed_shape(body));
        assert_eq!(stamp.len(), 39);
    }
}

#[test]
fn generated_timestamp_is_a_wall_clock_reading() {
    check_generated(&generate_timestamp());
}

#[test]
fn every_generated_timestamp_is_a_wall_clock_reading() {
    for _ in 0..100 {
        check_generated(&generate_timestamp());
    }
}

#[test]
fn clock_readings_compare_by_their_fields() {
    let a = reading(2024, 1, 2, 3, 4, 5, 6);
    let b = a;
    assert_eq!(a, b);
    assert_ne!(a, reading(2024, 1, 2, 3, 4, 5, 7));
}
