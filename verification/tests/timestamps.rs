use stock_management::timestamp::{
    format_timestamp, leap_year, month_length, now, parse_timestamp, DateTime,
    NAIVE_DATE_TIME_PATTERN,
};

fn at(year: i32, month: u32, day: u32, hour: u32, minute: u32, second: u32) -> DateTime {
    DateTime::new(year, month, day, hour, minute, second).expect("a date of the calendar")
}

#[test]
fn pattern_is_the_fixed_one() {
    assert_eq!(NAIVE_DATE_TIME_PATTERN, "%Y-%m-%d %H:%M:%S");
}

#[test]
fn parses_a_canonical_text() {
    assert_eq!(
        parse_timestamp("2015-09-05 23:56:04"),
        Some(DateTime { year: 2015, month: 9, day: 5, hour: 23, minute: 56, second: 4 })
    );
    assert_eq!(parse_timestamp("0000-01-01 00:00:00"), Some(at(0, 1, 1, 0, 0, 0)));
    assert_eq!(parse_timestamp("9999-12-31 23:59:59"), Some(at(9999, 12, 31, 23, 59, 59)));
}

#[test]
fn formats_with_leading_zeros() {
    assert_eq!(format_timestamp(&at(2015, 9, 5, 23, 56, 4)), "2015-09-05 23:56:04");
    assert_eq!(format_timestamp(&at(5, 1, 2, 3, 4, 5)), "0005-01-02 03:04:05");
    assert_eq!(format_timestamp(&at(0, 12, 31, 0, 0, 0)), "0000-12-31 00:00:00");
}

#[test]
fn formats_years_outside_four_digits_with_a_sign() {
    assert_eq!(format_timestamp(&at(10000, 1, 1, 0, 0, 0)), "+10000-01-01 00:00:00");
    assert_eq!(format_timestamp(&at(262142, 12, 31, 23, 59, 59)), "+262142-12-31 23:59:59");
    assert_eq!(format_timestamp(&at(-1, 1, 1, 0, 0, 0)), "-0001-01-01 00:00:00");
    assert_eq!(format_timestamp(&at(-999, 6, 7, 8, 9, 10)), "-0999-06-07 08:09:10");
    assert_eq!(format_timestamp(&at(-1000, 6, 7, 8, 9, 10)), "-1000-06-07 08:09:10");
    assert_eq!(format_timestamp(&at(-262143, 1, 1, 0, 0, 0)), "-262143-01-01 00:00:00");
}

#[test]
fn format_then_parse_gives_the_value_back() {
    let samples = [
        at(1970, 1, 1, 0, 0, 0),
        at(2000, 2, 29, 12, 30, 45),
        at(2024, 12, 31, 23, 59, 59),
        at(1, 1, 1, 1, 1, 1),
        at(0, 2, 29, 0, 0, 0),
        at(9999, 12, 31, 23, 59, 59),
        at(1999, 10, 10, 10, 10, 10),
    ];
    for t in samples {
        let text = format_timestamp(&t);
        assert_eq!(text.chars().count(), 19);
        assert_eq!(parse_timestamp(&text), Some(t));
    }
}

#[test]
fn format_then_parse_over_every_day_of_two_years() {
    for year in [2023, 2024] {
        for month in 1..=12u32 {
            for day in 1..=month_length(year, month) {
                let t = at(year, month, day, (day % 24) as u32, (month * 4) as u32, day + 20);
                assert_eq!(parse_timestamp(&format_timestamp(&t)), Some(t));
            }
        }
    }
}

#[test]
fn format_then_parse_with_signed_years() {
    for t in [at(10000, 1, 1, 0, 0, 0), at(-1, 3, 4, 5, 6, 7), at(-262143, 1, 1, 0, 0, 0)] {
        assert_eq!(parse_timestamp(&format_timestamp(&t)), Some(t));
    }
}

#[test]
fn a_leap_second_is_second_sixty() {
    let t = parse_timestamp("2015-06-30 23:59:60").expect("a leap second parses");
    assert_eq!(t, DateTime { year: 2015, month: 6, day: 30, hour: 23, minute: 59, second: 60 });
    assert!(t.check());
    assert_eq!(format_timestamp(&t), "2015-06-30 23:59:60");
}

#[test]
fn rejects_texts_that_do_not_match() {
    for text in [
        "",
        "abc",
        "2015-09-05",
        "23:56:04",
        "2015-09-05T23:56:04",
        "2015/09/05 23:56:04",
        "2015-09-05 23:56",
        "2015-09-05 23:56:04 ",
        "2015-09-05 23:56:04.5",
        "2015-13-05 23:56:04",
        "2015-00-05 23:56:04",
        "2015-02-30 23:56:04",
        "2015-02-29 23:56:04",
        "2015-09-31 23:56:04",
        "2015-09-00 23:56:04",
        "2015-09-05 24:00:00",
        "2015-09-05 23:60:00",
        "2015-09-05 23:59:61",
        "10000-09-05 23:56:04",
        "2015-09-05 23:56:04Z",
    ] {
        assert_eq!(parse_timestamp(text), None, "{:?}", text);
    }
}

#[test]
fn accepts_the_looser_spellings_of_the_pattern_parser() {
    assert_eq!(parse_timestamp("2015-9-5 3:4:5"), Some(at(2015, 9, 5, 3, 4, 5)));
    assert_eq!(parse_timestamp("+2015-09-05 23:56:04"), Some(at(2015, 9, 5, 23, 56, 4)));
    assert_eq!(parse_timestamp("2015-09-05   23:56:04"), Some(at(2015, 9, 5, 23, 56, 4)));
}

#[test]
fn parsed_values_are_valid() {
    for text in ["2015-09-05 23:56:04", "2015-9-5 3:4:5", "2000-02-29 00:00:00"] {
        assert!(parse_timestamp(text).expect("parses").check());
    }
}

#[test]
fn new_accepts_exactly_the_calendar() {
    assert!(DateTime::new(2024, 2, 29, 0, 0, 0).is_some());
    assert!(DateTime::new(2023, 2, 29, 0, 0, 0).is_none());
    assert!(DateTime::new(1900, 2, 29, 0, 0, 0).is_none());
    assert!(DateTime::new(2000, 2, 29, 0, 0, 0).is_some());
    assert!(DateTime::new(2024, 4, 31, 0, 0, 0).is_none());
    assert!(DateTime::new(2024, 4, 30, 0, 0, 0).is_some());
    assert!(DateTime::new(2024, 0, 1, 0, 0, 0).is_none());
    assert!(DateTime::new(2024, 13, 1, 0, 0, 0).is_none());
    assert!(DateTime::new(2024, 1, 0, 0, 0, 0).is_none());
    assert!(DateTime::new(2024, 1, 32, 0, 0, 0).is_none());
    assert!(DateTime::new(2024, 1, 1, 24, 0, 0).is_none());
    assert!(DateTime::new(2024, 1, 1, 23, 60, 0).is_none());
    assert!(DateTime::new(2024, 1, 1, 23, 59, 61).is_none());
    assert!(DateTime::new(2024, 1, 1, 23, 59, 60).is_some());
    assert!(DateTime::new(262142, 12, 31, 0, 0, 0).is_some());
    assert!(DateTime::new(262143, 1, 1, 0, 0, 0).is_none());
    assert!(DateTime::new(-262143, 1, 1, 0, 0, 0).is_some());
    assert!(DateTime::new(-262144, 12, 31, 0, 0, 0).is_none());
    assert_eq!(
        DateTime::new(2024, 5, 6, 7, 8, 9),
        Some(DateTime { year: 2024, month: 5, day: 6, hour: 7, minute: 8, second: 9 })
    );
}

#[test]
fn check_agrees_with_chrono() {
    for year in [-4, 0, 1900, 2000, 2023, 2024] {
        for month in 0..=13u32 {
            for day in [0u32, 1, 28, 29, 30, 31, 32] {
                let t = DateTime { year, month, day, hour: 1, minute: 2, second: 3 };
                let known = chrono::NaiveDate::from_ymd_opt(year, month, day).is_some();
                assert_eq!(t.check(), known, "{:?}", t);
            }
        }
    }
}

#[test]
fn leap_years_follow_the_gregorian_rule() {
    assert!(leap_year(2024));
    assert!(!leap_year(2023));
    assert!(!leap_year(1900));
    assert!(leap_year(2000));
    assert!(leap_year(0));
    assert!(leap_year(-4));
    assert!(!leap_year(-100));
    assert!(leap_year(-400));
    assert_eq!(month_length(2024, 2), 29);
    assert_eq!(month_length(2023, 2), 28);
    assert_eq!(month_length(2023, 4), 30);
    assert_eq!(month_length(2023, 12), 31);
}

#[test]
fn is_before_orders_by_every_field() {
    let base = at(2020, 6, 15, 12, 30, 30);
    assert!(!base.is_before(&base));
    for later in [
        at(2021, 1, 1, 0, 0, 0),
        at(2020, 7, 1, 0, 0, 0),
        at(2020, 6, 16, 0, 0, 0),
        at(2020, 6, 15, 13, 0, 0),
        at(2020, 6, 15, 12, 31, 0),
        at(2020, 6, 15, 12, 30, 31),
    ] {
        assert!(base.is_before(&later));
        assert!(!later.is_before(&base));
        assert!(base < later);
    }
}

#[test]
fn the_clock_gives_a_valid_time() {
    let t = now();
    assert!(t.check());
    assert!(t.year >= 2024);
    assert!(t.second <= 59);
    assert_eq!(parse_timestamp(&format_timestamp(&t)), Some(t));
}

#[test]
fn fields_carry_a_leap_second_as_chrono_does() {
    let t = at(2016, 12, 31, 23, 59, 60);
    let fields = t.to_fields();
    assert_eq!(fields.second, 59);
    assert_eq!(fields.nanosecond, 1_000_000_000);
    assert_eq!(fields.to_civil(), t);
    let plain = at(2016, 12, 31, 23, 59, 59).to_fields();
    assert_eq!((plain.second, plain.nanosecond), (59, 0));
}
