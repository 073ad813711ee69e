//! Civil date and time to the second, and the fixed text form
//! `YYYY-MM-DD HH:MM:SS` in which the store keeps it.

use crate::text::{decimal, decimal_value, digit_char, digit_value, is_digit, lemma_decimal_digits};
use chrono::{Datelike, Timelike};
use vstd::prelude::*;

verus! {

/// The pattern of every stored timestamp, in the notation of `chrono`.
pub const NAIVE_DATE_TIME_PATTERN: &'static str = "%Y-%m-%d %H:%M:%S";

/// The earliest year that a timestamp can name.
pub const MIN_YEAR: i32 = -262143;

/// The latest year that a timestamp can name.
pub const MAX_YEAR: i32 = 262142;

/// A date of the proleptic Gregorian calendar with a time of day, to the
/// second. Second 60 is a leap second.
#[derive(Debug, Clone, Copy, PartialEq, Eq, Structural, PartialOrd, Ord, Hash)]
pub struct DateTime {
    pub year: i32,
    pub month: u32,
    pub day: u32,
    pub hour: u32,
    pub minute: u32,
    pub second: u32,
}

/// The fields of a date and time as the accessors of `chrono::NaiveDateTime`
/// report them: a leap second shows as second 59 with a nanosecond count of
/// 1,000,000,000 or more.
#[derive(Debug, Clone, Copy, PartialEq, Eq, Structural)]
pub struct NaiveFields {
    pub year: i32,
    pub month: u32,
    pub day: u32,
    pub hour: u32,
    pub minute: u32,
    pub second: u32,
    pub nanosecond: u32,
}

/// Whether `year` has a 29th of February.
pub open spec fn is_leap_year(year: int) -> bool {
    year % 4 == 0 && (year % 100 != 0 || year % 400 == 0)
}

/// The number of days of a month; 31 for a month number outside 1..=12.
pub open spec fn days_in_month(year: int, month: int) -> int {
    if month == 2 {
        if is_leap_year(year) {
            29
        } else {
            28
        }
    } else if month == 4 || month == 6 || month == 9 || month == 11 {
        30
    } else {
        31
    }
}

/// Whether year, month and day name a day of the calendar.
pub open spec fn is_calendar_day(year: int, month: int, day: int) -> bool {
    &&& MIN_YEAR <= year <= MAX_YEAR
    &&& 1 <= month <= 12
    &&& 1 <= day <= days_in_month(year, month)
}

/// A number below 100 written with two digits.
pub open spec fn two_digits(v: int) -> Seq<char> {
    seq![digit_char(v / 10), digit_char(v % 10)]
}

/// A number below 10000 written with four digits.
pub open spec fn four_digits(v: int) -> Seq<char> {
    two_digits(v / 100) + two_digits(v % 100)
}

/// The year as the pattern writes it: four digits for the years 0 to 9999,
/// otherwise a sign and at least four digits.
pub open spec fn year_text(year: int) -> Seq<char> {
    if 0 <= year <= 9999 {
        four_digits(year)
    } else if year > 0 {
        seq!['+'] + decimal(year as nat)
    } else if year > -1000 {
        seq!['-'] + four_digits(-year)
    } else {
        seq!['-'] + decimal((-year) as nat)
    }
}

impl DateTime {
    /// Whether the fields name a second of a day of the calendar.
    pub open spec fn is_valid(&self) -> bool {
        &&& is_calendar_day(self.year as int, self.month as int, self.day as int)
        &&& self.hour <= 23
        &&& self.minute <= 59
        &&& self.second <= 60
    }

    /// Whether `self` is strictly earlier than `other`.
    pub open spec fn precedes(&self, other: &DateTime) -> bool {
        self.year < other.year || (self.year == other.year && (self.month < other.month || (
        self.month == other.month && (self.day < other.day || (self.day == other.day && (self.hour
            < other.hour || (self.hour == other.hour && (self.minute < other.minute || (
        self.minute == other.minute && self.second < other.second)))))))))
    }

    /// Whether `self` is `other` or earlier.
    pub open spec fn not_after(&self, other: &DateTime) -> bool {
        *self == *other || self.precedes(other)
    }

    /// The text of `self` in the fixed pattern.
    pub open spec fn text(&self) -> Seq<char> {
        year_text(self.year as int) + seq!['-'] + two_digits(self.month as int) + seq!['-']
            + two_digits(self.day as int) + seq![' '] + two_digits(self.hour as int) + seq![':']
            + two_digits(self.minute as int) + seq![':'] + two_digits(self.second as int)
    }

    /// The same instant as `chrono` holds it.
    pub open spec fn fields(&self) -> NaiveFields {
        NaiveFields {
            year: self.year,
            month: self.month,
            day: self.day,
            hour: self.hour,
            minute: self.minute,
            second: if self.second == 60 {
                59
            } else {
                self.second
            },
            nanosecond: if self.second == 60 {
                1_000_000_000
            } else {
                0
            },
        }
    }
}

impl NaiveFields {
    /// What holds of the fields of every `chrono::NaiveDateTime`.
    pub open spec fn is_valid(&self) -> bool {
        &&& is_calendar_day(self.year as int, self.month as int, self.day as int)
        &&& self.hour <= 23
        &&& self.minute <= 59
        &&& self.second <= 59
        &&& self.nanosecond < 2_000_000_000
        &&& self.nanosecond >= 1_000_000_000 ==> self.second == 59
    }

    /// The instant to the second: what is left below a second is dropped,
    /// and a leap second becomes second 60.
    pub open spec fn civil(&self) -> DateTime {
        DateTime {
            year: self.year,
            month: self.month,
            day: self.day,
            hour: self.hour,
            minute: self.minute,
            second: (self.second + self.nanosecond / 1_000_000_000) as u32,
        }
    }
}

/// The number that the two characters of `s` from position `at` write.
pub open spec fn two_digit_value(s: Seq<char>, at: int) -> int {
    10 * digit_value(s[at]) + digit_value(s[at + 1])
}

/// The year that the year part of a text writes: the value of its digits,
/// negative after a minus sign.
pub open spec fn year_of_text(part: Seq<char>) -> int {
    if part.len() > 0 && part[0] == '-' {
        -(decimal_value(part.subrange(1, part.len() as int)) as int)
    } else if part.len() > 0 && part[0] == '+' {
        decimal_value(part.subrange(1, part.len() as int)) as int
    } else {
        decimal_value(part) as int
    }
}

/// The fields that a text writes when it is read from its end: two
/// characters each for second, minute, hour, day and month, one separator
/// before each, and before those the year.
pub open spec fn decode(s: Seq<char>) -> DateTime {
    let n = s.len() as int;
    DateTime {
        year: year_of_text(s.subrange(0, n - 15)) as i32,
        month: two_digit_value(s, n - 14) as u32,
        day: two_digit_value(s, n - 11) as u32,
        hour: two_digit_value(s, n - 8) as u32,
        minute: two_digit_value(s, n - 5) as u32,
        second: two_digit_value(s, n - 2) as u32,
    }
}

/// Whether `s` is a text that the pattern itself writes: the text of the
/// valid date and time whose fields it holds.
pub open spec fn is_canonical(s: Seq<char>) -> bool {
    s.len() >= 19 && decode(s).is_valid() && decode(s).text() == s
}

/// What `chrono::NaiveDateTime::parse_from_str` makes of a text under the
/// fixed pattern: the fields of the parsed value, or `None` where it
/// reports an error.
pub uninterp spec fn pattern_parse(text: Seq<char>) -> Option<NaiveFields>;

/// The date and time that a stored text stands for. A canonical text stands
/// for the fields it writes; any other text stands for what the pattern
/// parser makes of it, which accepts a few looser spellings (a sign before
/// a four-digit year, a one-digit month) and rejects the rest.
pub open spec fn timestamp_of_text(text: Seq<char>) -> Option<DateTime> {
    if is_canonical(text) {
        Some(decode(text))
    } else {
        match pattern_parse(text) {
            Some(fields) => Some(fields.civil()),
            None => None,
        }
    }
}

/// Calls `chrono::NaiveDateTime::parse_from_str` with the fixed pattern and
/// reads the fields of the result. The contract is taken on trust: the
/// result is a function of the text alone; the fields of a parsed value
/// are those of a valid `NaiveDateTime`; and a text that the pattern itself
/// writes for a valid date and time parses to exactly that date and time,
/// second 60 as a leap second.
#[verifier::external_body]
fn naive_parse(text: &str) -> (r: Option<NaiveFields>)
    ensures
        r == pattern_parse(text@),
        r is Some ==> r.unwrap().is_valid(),
        is_canonical(text@) ==> r == Some(decode(text@).fields()),
{
    match chrono::NaiveDateTime::parse_from_str(text, NAIVE_DATE_TIME_PATTERN) {
        Ok(t) => Some(
            NaiveFields {
                year: t.year(),
                month: t.month(),
                day: t.day(),
                hour: t.hour(),
                minute: t.minute(),
                second: t.second(),
                nanosecond: t.nanosecond(),
            },
        ),
        Err(_) => None,
    }
}

/// Builds the `chrono::NaiveDateTime` of the fields and formats it with the
/// fixed pattern. The contract is taken on trust: the pattern writes the
/// year with four digits (with a sign and at least four digits outside
/// 0..=9999), every other field with two digits, and a leap second as 60;
/// what is below a second is not written.
#[verifier::external_body]
fn naive_format(fields: &NaiveFields) -> (text: String)
    requires
        fields.is_valid(),
    ensures
        text@ == fields.civil().text(),
{
    chrono::NaiveDate::from_ymd_opt(fields.year, fields.month, fields.day)
        .unwrap()
        .and_hms_nano_opt(fields.hour, fields.minute, fields.second, fields.nanosecond)
        .unwrap()
        .format(NAIVE_DATE_TIME_PATTERN)
        .to_string()
}

/// Reads the clock with `chrono::Utc::now` and returns the fields of its
/// naive UTC value. Nothing is claimed of the reading but that its fields
/// are those of a valid `NaiveDateTime`. `chrono` panics where the system
/// clock stands before 1970.
#[verifier::external_body]
fn utc_now() -> (fields: NaiveFields)
    ensures
        fields.is_valid(),
{
    let t = chrono::Utc::now().naive_utc();
    NaiveFields {
        year: t.year(),
        month: t.month(),
        day: t.day(),
        hour: t.hour(),
        minute: t.minute(),
        second: t.second(),
        nanosecond: t.nanosecond(),
    }
}

/// Whether `year` has a 29th of February.
pub fn leap_year(year: i32) -> (r: bool)
    ensures
        r == is_leap_year(year as int),
{
    let shifted: i64 = year as i64 + 2_147_484_000;
    shifted % 4 == 0 && (shifted % 100 != 0 || shifted % 400 == 0)
}

/// The number of days of a month; 31 for a month number outside 1..=12.
pub fn month_length(year: i32, month: u32) -> (days: u32)
    ensures
        days == days_in_month(year as int, month as int),
{
    if month == 2 {
        if leap_year(year) {
            29
        } else {
            28
        }
    } else if month == 4 || month == 6 || month == 9 || month == 11 {
        30
    } else {
        31
    }
}

impl NaiveFields {
    /// The instant to the second.
    pub fn to_civil(&self) -> (t: DateTime)
        requires
            self.is_valid(),
        ensures
            t == self.civil(),
            t.is_valid(),
    {
        DateTime {
            year: self.year,
            month: self.month,
            day: self.day,
            hour: self.hour,
            minute: self.minute,
            second: self.second + self.nanosecond / 1_000_000_000,
        }
    }
}

impl DateTime {
    /// The date and time with these fields, if they name one.
    pub fn new(year: i32, month: u32, day: u32, hour: u32, minute: u32, second: u32) -> (r: Option<
        DateTime,
    >)
        ensures
            r == (if (DateTime { year, month, day, hour, minute, second }).is_valid() {
                Some(DateTime { year, month, day, hour, minute, second })
            } else {
                None
            }),
    {
        let t = DateTime { year, month, day, hour, minute, second };
        if t.check() {
            Some(t)
        } else {
            None
        }
    }

    /// Whether the fields name a second of a day of the calendar.
    pub fn check(&self) -> (r: bool)
        ensures
            r == self.is_valid(),
    {
        if self.year < MIN_YEAR || self.year > MAX_YEAR {
            return false;
        }
        if self.month < 1 || self.month > 12 {
            return false;
        }
        self.day >= 1 && self.day <= month_length(self.year, self.month) && self.hour <= 23
            && self.minute <= 59 && self.second <= 60
    }

    /// Whether `self` is strictly earlier than `other`.
    pub fn is_before(&self, other: &DateTime) -> (r: bool)
        ensures
            r == self.precedes(other),
    {
        if self.year != other.year {
            self.year < other.year
        } else if self.month != other.month {
            self.month < other.month
        } else if self.day != other.day {
            self.day < other.day
        } else if self.hour != other.hour {
            self.hour < other.hour
        } else if self.minute != other.minute {
            self.minute < other.minute
        } else {
            self.second < other.second
        }
    }

    /// The same instant as `chrono` holds it.
    pub fn to_fields(&self) -> (f: NaiveFields)
        requires
            self.is_valid(),
        ensures
            f == self.fields(),
            f.is_valid(),
            f.civil() == *self,
    {
        NaiveFields {
            year: self.year,
            month: self.month,
            day: self.day,
            hour: self.hour,
            minute: self.minute,
            second: if self.second == 60 {
                59
            } else {
                self.second
            },
            nanosecond: if self.second == 60 {
                1_000_000_000
            } else {
                0
            },
        }
    }
}

/// The text of `t` in the fixed pattern.
pub fn format_timestamp(t: &DateTime) -> (text: String)
    requires
        t.is_valid(),
    ensures
        text@ == t.text(),
{
    let fields = t.to_fields();
    naive_format(&fields)
}

/// The date and time that `text` stands for, or `None` where it does not
/// match the fixed pattern.
pub fn parse_timestamp(text: &str) -> (r: Option<DateTime>)
    ensures
        r == timestamp_of_text(text@),
        r is Some ==> r.unwrap().is_valid(),
{
    match naive_parse(text) {
        Some(fields) => Some(fields.to_civil()),
        None => None,
    }
}

/// The current time of the clock in UTC, to the second.
pub fn now() -> (t: DateTime)
    ensures
        t.is_valid(),
{
    utc_now().to_civil()
}

/// A digit character stands for the digit it was made from.
pub proof fn lemma_digit_char(d: int)
    requires
        0 <= d <= 9,
    ensures
        is_digit(digit_char(d)),
        digit_value(digit_char(d)) == d,
{
}

/// Two digits write the number they were made from.
pub proof fn lemma_two_digits(v: int)
    requires
        0 <= v <= 99,
    ensures
        two_digits(v).len() == 2,
        is_digit(two_digits(v)[0]),
        is_digit(two_digits(v)[1]),
        10 * digit_value(two_digits(v)[0]) + digit_value(two_digits(v)[1]) == v,
{
    let tens = v / 10;
    let ones = v % 10;
    assert(0 <= tens <= 9 && 0 <= ones <= 9 && 10 * tens + ones == v);
    lemma_digit_char(tens);
    lemma_digit_char(ones);
}

/// Four digits write the number they were made from.
pub proof fn lemma_four_digits(v: int)
    requires
        0 <= v <= 9999,
    ensures
        four_digits(v).len() == 4,
        is_digit(four_digits(v)[0]),
        is_digit(four_digits(v)[1]),
        is_digit(four_digits(v)[2]),
        is_digit(four_digits(v)[3]),
        1000 * digit_value(four_digits(v)[0]) + 100 * digit_value(four_digits(v)[1]) + 10
            * digit_value(four_digits(v)[2]) + digit_value(four_digits(v)[3]) == v,
{
    let high = v / 100;
    let low = v % 100;
    assert(0 <= high <= 99 && 0 <= low <= 99 && 100 * high + low == v);
    lemma_two_digits(high);
    lemma_two_digits(low);
    let s = four_digits(v);
    assert(s[0] == two_digits(high)[0] && s[1] == two_digits(high)[1]);
    assert(s[2] == two_digits(low)[0] && s[3] == two_digits(low)[1]);
}

/// The value of four digits is the number they were made from.
pub proof fn lemma_four_digits_value(v: int)
    requires
        0 <= v <= 9999,
    ensures
        decimal_value(four_digits(v)) == v,
{
    lemma_four_digits(v);
    let s = four_digits(v);
    let three = s.drop_last();
    let two = three.drop_last();
    let one = two.drop_last();
    assert(one.drop_last().len() == 0);
    assert(decimal_value(one) == digit_value(s[0])) by {
        assert(decimal_value(one.drop_last()) == 0);
        assert(one.last() == s[0]);
    }
    assert(decimal_value(two) == 10 * decimal_value(one) + digit_value(s[1])) by {
        assert(two.last() == s[1]);
    }
    assert(decimal_value(three) == 10 * decimal_value(two) + digit_value(s[2])) by {
        assert(three.last() == s[2]);
    }
    assert(decimal_value(s) == 10 * decimal_value(three) + digit_value(s[3]));
}

/// The year part of a text writes the year it was made from.
pub proof fn lemma_year_text(year: int)
    requires
        MIN_YEAR <= year <= MAX_YEAR,
    ensures
        year_text(year).len() >= 4,
        year_of_text(year_text(year)) == year,
{
    let part = year_text(year);
    if 0 <= year <= 9999 {
        lemma_four_digits(year);
        lemma_four_digits_value(year);
        assert(is_digit(part[0]));
    } else if year > 0 {
        lemma_decimal_digits(year as nat);
        lemma_decimal_length(year as nat);
        assert(part.subrange(1, part.len() as int) == decimal(year as nat));
    } else if year > -1000 {
        lemma_four_digits(-year);
        lemma_four_digits_value(-year);
        assert(part.subrange(1, part.len() as int) == four_digits(-year));
    } else {
        lemma_decimal_digits((-year) as nat);
        lemma_decimal_length((-year) as nat);
        assert(part.subrange(1, part.len() as int) == decimal((-year) as nat));
    }
}

/// A numeral of a number from 1000 on has at least four digits.
pub proof fn lemma_decimal_length(n: nat)
    ensures
        n >= 10 ==> decimal(n).len() >= 2,
        n >= 100 ==> decimal(n).len() >= 3,
        n >= 1000 ==> decimal(n).len() >= 4,
{
    if n >= 10 {
        let a = n / 10;
        assert(decimal(n).len() == decimal(a).len() + 1);
        lemma_decimal_digits(a);
        if a >= 10 {
            let b = a / 10;
            assert(decimal(a).len() == decimal(b).len() + 1);
            lemma_decimal_digits(b);
            if b >= 10 {
                let c = b / 10;
                assert(decimal(b).len() == decimal(c).len() + 1);
                lemma_decimal_digits(c);
            }
        }
    }
}

/// The text of a valid date and time writes exactly its fields, so it is
/// canonical.
pub proof fn lemma_text_is_canonical(t: DateTime)
    requires
        t.is_valid(),
    ensures
        is_canonical(t.text()),
        decode(t.text()) == t,
{
    let s = t.text();
    let n = s.len() as int;
    let year = year_text(t.year as int);
    let month = two_digits(t.month as int);
    let day = two_digits(t.day as int);
    let hour = two_digits(t.hour as int);
    let minute = two_digits(t.minute as int);
    let second = two_digits(t.second as int);
    lemma_year_text(t.year as int);
    lemma_two_digits(t.month as int);
    lemma_two_digits(t.day as int);
    lemma_two_digits(t.hour as int);
    lemma_two_digits(t.minute as int);
    lemma_two_digits(t.second as int);
    assert(s == year + seq!['-'] + month + seq!['-'] + day + seq![' '] + hour + seq![':'] + minute
        + seq![':'] + second);
    assert(n == year.len() + 15);
    assert(s.subrange(0, n - 15) == year);
    assert(s[n - 14] == month[0] && s[n - 13] == month[1]);
    assert(s[n - 11] == day[0] && s[n - 10] == day[1]);
    assert(s[n - 8] == hour[0] && s[n - 7] == hour[1]);
    assert(s[n - 5] == minute[0] && s[n - 4] == minute[1]);
    assert(s[n - 2] == second[0] && s[n - 1] == second[1]);
    assert(decode(s) == t);
}

/// Formatting a date and time with the fixed pattern and parsing the text
/// back yields the same date and time, for every valid one.
pub proof fn law_format_then_parse(t: DateTime)
    requires
        t.is_valid(),
    ensures
        timestamp_of_text(t.text()) == Some(t),
{
    lemma_text_is_canonical(t);
}

/// "Earlier than" is a strict total order of the dates and times: nothing
/// is earlier than itself, of two different ones exactly one is earlier,
/// and earlier than earlier is earlier.
pub proof fn law_precedes_orders(a: DateTime, b: DateTime, c: DateTime)
    ensures
        !a.precedes(&a),
        a != b ==> (a.precedes(&b) <==> !b.precedes(&a)),
        a.precedes(&b) && b.precedes(&c) ==> a.precedes(&c),
{
}

} // verus!
