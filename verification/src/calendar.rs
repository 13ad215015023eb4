//! UTC calendar dates: reading `YYYY-MM-DD` and writing
//! `YYYY-MM-DDTHH:MM:SSZ`, both against nanoseconds since 1970-01-01.
use crate::text;
use vstd::prelude::*;

verus! {

broadcast use vstd::string::group_string_axioms;

pub const NS_PER_SEC: i64 = 1_000_000_000;

pub const SEC_PER_DAY: i64 = 86_400;

pub const NS_PER_DAY: i64 = 86_400_000_000_000;

// ---------------------------------------------------------------------------
// The calendar

pub open spec fn is_leap(y: int) -> bool {
    y % 4 == 0 && (y % 100 != 0 || y % 400 == 0)
}

/// The number of leap years from year 1 through year `y`.
pub open spec fn leaps_through(y: int) -> int {
    y / 4 - y / 100 + y / 400
}

pub open spec fn days_in_month(y: int, m: int) -> int {
    if m == 2 {
        if is_leap(y) {
            29
        } else {
            28
        }
    } else if m == 4 || m == 6 || m == 9 || m == 11 {
        30
    } else {
        31
    }
}

/// The number of days of year `y` before the first of month `m`.
pub open spec fn days_before_month(y: int, m: int) -> int
    decreases m,
{
    if m <= 1 {
        0
    } else {
        days_before_month(y, m - 1) + days_in_month(y, m - 1)
    }
}

pub open spec fn valid_date(y: int, m: int, d: int) -> bool {
    1 <= m <= 12 && 1 <= d <= days_in_month(y, m)
}

/// Days from 1970-01-01 to the `d`-th day of month `m` of year `y`.
pub open spec fn day_number(y: int, m: int, d: int) -> int {
    365 * (y - 1970) + leaps_through(y - 1) - leaps_through(1969) + days_before_month(y, m) + d - 1
}

pub open spec fn is_date_of(days: int, y: int, m: int, d: int) -> bool {
    valid_date(y, m, d) && day_number(y, m, d) == days
}

/// The date that lies `days` days after 1970-01-01.
pub open spec fn civil(days: int) -> (int, int, int) {
    choose|y: int, m: int, d: int| is_date_of(days, y, m, d)
}

proof fn month_table(y: int)
    ensures
        days_before_month(y, 1) == 0,
        days_before_month(y, 2) == 31,
        ({
            let leap = if is_leap(y) {
                1int
            } else {
                0int
            };
            &&& days_before_month(y, 3) == 59 + leap
            &&& days_before_month(y, 4) == 90 + leap
            &&& days_before_month(y, 5) == 120 + leap
            &&& days_before_month(y, 6) == 151 + leap
            &&& days_before_month(y, 7) == 181 + leap
            &&& days_before_month(y, 8) == 212 + leap
            &&& days_before_month(y, 9) == 243 + leap
            &&& days_before_month(y, 10) == 273 + leap
            &&& days_before_month(y, 11) == 304 + leap
            &&& days_before_month(y, 12) == 334 + leap
            &&& days_before_month(y, 13) == 365 + leap
        }),
{
    reveal_with_fuel(days_before_month, 14);
}

proof fn leap_step(y: int)
    ensures
        leaps_through(y) == leaps_through(y - 1) + if is_leap(y) {
            1int
        } else {
            0int
        },
{
}

/// The day after a date.
pub open spec fn next_date(y: int, m: int, d: int) -> (int, int, int) {
    if d < days_in_month(y, m) {
        (y, m, d + 1)
    } else if m < 12 {
        (y, m + 1, 1)
    } else {
        (y + 1, 1, 1)
    }
}

/// Day numbers count days: the day after a date has the next number, and
/// 1970-01-01 has number zero.
pub proof fn day_numbers_count_days(y: int, m: int, d: int)
    requires
        valid_date(y, m, d),
    ensures
        ({
            let n = next_date(y, m, d);
            valid_date(n.0, n.1, n.2) && day_number(n.0, n.1, n.2) == day_number(y, m, d) + 1
        }),
        day_number(1970, 1, 1) == 0,
{
    month_table(y);
    month_table(y + 1);
    month_table(1970);
    leap_step(y);
}

spec fn march_start(yoe: int) -> int {
    365 * yoe + yoe / 4 - yoe / 100
}

proof fn year_of_era(doe: int, yoe: int)
    requires
        0 <= doe <= 146_096,
        yoe == (doe - doe / 1460 + doe / 36524 - doe / 146_096) / 365,
    ensures
        0 <= yoe <= 399,
        march_start(yoe) <= doe <= march_start(yoe) + 364 + if is_leap(yoe + 1) {
            1int
        } else {
            0int
        },
{
}

/// Days from 1970-01-01 to the `doy`-th day (from zero) of the year that starts
/// with March of year `y`.
spec fn march_day(y: int, doy: int) -> int {
    365 * y + leaps_through(y) + doy - 719_468
}

/// The month and day that stand `doy` days after the first of March.
proof fn month_of_march_day(y: int, doy: int)
    requires
        0 <= doy <= 364 + if is_leap(y + 1) {
            1int
        } else {
            0int
        },
    ensures
        ({
            let mp = (5 * doy + 2) / 153;
            let d = doy - (153 * mp + 2) / 5 + 1;
            let m = if mp < 10 {
                mp + 3
            } else {
                mp - 9
            };
            let yy = if m <= 2 {
                y + 1
            } else {
                y
            };
            &&& 0 <= mp <= 11
            &&& is_date_of(march_day(y, doy), yy, m, d)
        }),
{
    month_table(y);
    month_table(y + 1);
    leap_step(y);
}

proof fn march_day_of_date(y: int, m: int, d: int)
    requires
        1 <= m <= 12,
    ensures
        ({
            let yp = if m <= 2 {
                y - 1
            } else {
                y
            };
            let mp = if m > 2 {
                m - 3
            } else {
                m + 9
            };
            day_number(y, m, d) == march_day(yp, (153 * mp + 2) / 5 + d - 1)
        }),
{
    month_table(y);
    leap_step(y);
}

proof fn era_split(era: int, yoe: int)
    requires
        0 <= yoe <= 399,
    ensures
        march_day(era * 400 + yoe, 0) == era * 146_097 + march_start(yoe) - 719_468,
        is_leap(era * 400 + yoe + 1) == is_leap(yoe + 1),
{
    let y = era * 400 + yoe;
    assert(y / 4 == era * 100 + yoe / 4);
    assert(y / 100 == era * 4 + yoe / 100);
    assert(y / 400 == era);
    assert((y + 1) % 4 == (yoe + 1) % 4);
    assert((y + 1) % 100 == (yoe + 1) % 100);
    assert((y + 1) % 400 == (yoe + 1) % 400);
}

proof fn later_dates_have_larger_numbers(y: int, m: int, d: int, y2: int, m2: int, d2: int)
    requires
        valid_date(y, m, d),
        valid_date(y2, m2, d2),
        y < y2 || (y == y2 && m < m2) || (y == y2 && m == m2 && d < d2),
    ensures
        day_number(y, m, d) < day_number(y2, m2, d2),
{
    month_table(y);
    month_table(y2);
    leap_step(y);
    if y < y2 {
        assert(leaps_through(y) <= leaps_through(y2 - 1)) by {
            leaps_grow(y, y2 - 1);
        }
    }
}

proof fn leaps_grow(a: int, b: int)
    requires
        a <= b,
    ensures
        leaps_through(a) <= leaps_through(b),
    decreases b - a,
{
    if a < b {
        leap_step(b);
        leaps_grow(a, b - 1);
    }
}

/// Every date is the one date with its number.
pub proof fn civil_inverts_day_number(y: int, m: int, d: int)
    requires
        valid_date(y, m, d),
    ensures
        civil(day_number(y, m, d)) == (y, m, d),
{
    let days = day_number(y, m, d);
    assert(is_date_of(days, y, m, d));
    let (y2, m2, d2) = civil(days);
    assert(is_date_of(days, y2, m2, d2));
    if y < y2 || (y == y2 && m < m2) || (y == y2 && m == m2 && d < d2) {
        later_dates_have_larger_numbers(y, m, d, y2, m2, d2);
    } else if y != y2 || m != m2 || d != d2 {
        later_dates_have_larger_numbers(y2, m2, d2, y, m, d);
    }
}

// ---------------------------------------------------------------------------
// Reading dates

/// Whether a text is written as `YYYY-MM-DD`: four digits, two and two, with
/// dashes between them.
pub open spec fn is_date_shaped(s: Seq<char>) -> bool {
    &&& s.len() == 10
    &&& s[4] == '-' && s[7] == '-'
    &&& text::all_digits(s.subrange(0, 4))
    &&& text::all_digits(s.subrange(5, 7))
    &&& text::all_digits(s.subrange(8, 10))
}

/// The year, month and day that a `YYYY-MM-DD` text names, where the calendar
/// has that day and it lies in the years from 1970 on.
pub open spec fn date_fields(s: Seq<char>) -> Option<(int, int, int)> {
    let y = text::digits_value(s.subrange(0, 4));
    let m = text::digits_value(s.subrange(5, 7));
    let d = text::digits_value(s.subrange(8, 10));
    if is_date_shaped(s) && 1970 <= y && valid_date(y, m, d) {
        Some((y, m, d))
    } else {
        None
    }
}

/// Days from 1970-01-01 to the date that a text names.
pub open spec fn date_days(s: Seq<char>) -> Option<int> {
    match date_fields(s) {
        Some((y, m, d)) => Some(day_number(y, m, d)),
        None => None,
    }
}

/// Nanoseconds from 1970-01-01 to the start of the date that a text names,
/// where it names one and an `i64` counts that many. The last such date is
/// 2262-04-11.
pub open spec fn date_ns(s: Seq<char>) -> Option<int> {
    match date_days(s) {
        Some(days) => if days * NS_PER_DAY <= i64::MAX {
            Some(days * NS_PER_DAY)
        } else {
            None
        },
        None => None,
    }
}

proof fn dates_are_ascii(s: Seq<char>)
    requires
        is_date_shaped(s),
    ensures
        vstd::utf8::is_ascii_chars(s),
{
    assert forall|i: int| 0 <= i < s.len() implies '\0' <= #[trigger] s[i]
        <= '\u{7f}' by {
        if i < 4 {
            assert(text::is_digit(s.subrange(0, 4)[i]));
        } else if 5 <= i < 7 {
            assert(text::is_digit(s.subrange(5, 7)[i - 5]));
        } else if 8 <= i {
            assert(text::is_digit(s.subrange(8, 10)[i - 8]));
        }
    }
}

/// The number of days of a month.
fn month_days(y: i64, m: i64) -> (r: i64)
    requires
        0 <= y,
    ensures
        r == days_in_month(y as int, m as int),
{
    if m == 2 {
        if y % 4 == 0 && (y % 100 != 0 || y % 400 == 0) {
            29
        } else {
            28
        }
    } else if m == 4 || m == 6 || m == 9 || m == 11 {
        30
    } else {
        31
    }
}

/// Four digits stand for a number below ten thousand.
proof fn four_digits_stay_below(s: Seq<char>)
    requires
        s.len() == 4,
    ensures
        text::all_digits(s) ==> text::digits_value(s) <= 9999,
{
    if text::all_digits(s) {
        assert(text::is_digit(s[0]) && text::is_digit(s[1]));
        assert(text::is_digit(s[2]) && text::is_digit(s[3]));
        text::four_digits_read_back(s[0], s[1], s[2], s[3]);
        assert(s == seq![s[0], s[1], s[2], s[3]]);
        assert(text::without_plus(s) == s);
    }
}

/// Reads a number from its digits; `None` where it is larger than `max` or
/// where anything else stands among them.
fn parse_digits(s: &str, max: u64) -> (r: Option<i64>)
    requires
        s@.len() > 0,
        max <= 9999,
    ensures
        r is Some <==> text::all_digits(s@) && text::digits_value(s@) <= max,
        r matches Some(v) ==> v == text::digits_value(s@),
{
    if s.get_char(0) == '+' {
        assert(!text::is_digit(s@[0]));
        return None;
    }
    match text::parse_unsigned(s, max) {
        Some(v) => Some(v as i64),
        None => None,
    }
}

/// Days from 1970-01-01 to the date that `s` names, where it is the
/// `YYYY-MM-DD` text of a day of the years 1970 to 9999.
pub fn parse_date_to_days(s: &str) -> (r: Option<i64>)
    ensures
        r is Some <==> date_days(s@) is Some,
        r matches Some(days) ==> days == date_days(s@)->0 && 0 <= days <= 3_000_000,
{
    if !s.is_ascii() {
        proof {
            if is_date_shaped(s@) {
                dates_are_ascii(s@);
            }
        }
        return None;
    }
    if s.unicode_len() != 10 || s.get_char(4) != '-' || s.get_char(7) != '-' {
        return None;
    }
    let y: i64 = match parse_digits(s.substring_ascii(0, 4), 9999) {
        Some(y) => y,
        None => {
            proof {
                four_digits_stay_below(s@.subrange(0, 4));
            }
            return None;
        },
    };
    let m: i64 = match parse_digits(s.substring_ascii(5, 7), 12) {
        Some(m) => m,
        None => {
            return None;
        },
    };
    let d: i64 = match parse_digits(s.substring_ascii(8, 10), 31) {
        Some(d) => d,
        None => {
            return None;
        },
    };
    if m < 1 || d < 1 || y < 1970 || d > month_days(y, m) {
        return None;
    }
    let yp: u64 = if m <= 2 {
        (y - 1) as u64
    } else {
        y as u64
    };
    let era: u64 = yp / 400;
    let yoe: u64 = yp - era * 400;
    let mp: u64 = if m > 2 {
        (m - 3) as u64
    } else {
        (m + 9) as u64
    };
    let doy: u64 = (153 * mp + 2) / 5 + d as u64 - 1;
    let doe: u64 = yoe * 365 + yoe / 4 - yoe / 100 + doy;
    let days: i64 = (era * 146_097 + doe) as i64 - 719_468;
    proof {
        march_day_of_date(y as int, m as int, d as int);
        era_split(era as int, yoe as int);
        month_table(y as int);
    }
    Some(days)
}

/// Nanoseconds from 1970-01-01 to the start of the date that `s` names; `None`
/// where it names none, or one after 2262-04-11.
pub fn parse_date_to_ns(s: &str) -> (r: Option<i64>)
    ensures
        r is Some <==> date_ns(s@) is Some,
        r matches Some(ns) ==> ns == date_ns(s@)->0,
{
    match parse_date_to_days(s) {
        Some(days) => if days <= i64::MAX / NS_PER_DAY {
            Some(days * NS_PER_DAY)
        } else {
            None
        },
        None => None,
    }
}

// ---------------------------------------------------------------------------
// Writing instants

/// A date as `YYYY-MM-DD`.
pub open spec fn date_text(y: int, m: int, d: int) -> Seq<char> {
    text::padded(y as nat, 4) + "-"@ + text::padded(m as nat, 2) + "-"@ + text::padded(d as nat, 2)
}

/// An instant as `YYYY-MM-DDTHH:MM:SSZ`.
pub open spec fn stamp(ns: int) -> Seq<char> {
    let secs = ns / 1_000_000_000;
    let (y, m, d) = civil(secs / 86_400);
    let sod = secs % 86_400;
    date_text(y, m, d) + "T"@ + text::padded((sod / 3600) as nat, 2) + ":"@ + text::padded(
        (sod % 3600 / 60) as nat,
        2,
    ) + ":"@ + text::padded((sod % 60) as nat, 2) + "Z"@
}

/// Every day has a date.
pub proof fn every_day_has_a_date(days: int)
    ensures
        is_date_of(days, civil(days).0, civil(days).1, civil(days).2),
{
    let z = days + 719_468;
    let era = z / 146_097;
    let doe = z - era * 146_097;
    let yoe = (doe - doe / 1460 + doe / 36524 - doe / 146_096) / 365;
    year_of_era(doe, yoe);
    era_split(era, yoe);
    month_of_march_day(era * 400 + yoe, doe - march_start(yoe));
}

/// The date that lies `days` days after 1970-01-01.
fn civil_from_days(days: i64) -> (r: (u64, u64, u64))
    requires
        -700_000 <= days <= 700_000,
    ensures
        is_date_of(days as int, r.0 as int, r.1 as int, r.2 as int),
        (r.0 as int, r.1 as int, r.2 as int) == civil(days as int),
        r.0 <= 4_000,
{
    let z: u64 = (days + 719_468) as u64;
    let era: u64 = z / 146_097;
    let doe: u64 = z - era * 146_097;
    let yoe: u64 = (doe - doe / 1460 + doe / 36524 - doe / 146_096) / 365;
    proof {
        year_of_era(doe as int, yoe as int);
        era_split(era as int, yoe as int);
    }
    let y: u64 = yoe + era * 400;
    let doy: u64 = doe - (365 * yoe + yoe / 4 - yoe / 100);
    let mp: u64 = (5 * doy + 2) / 153;
    proof {
        month_of_march_day(y as int, doy as int);
    }
    let d: u64 = doy - (153 * mp + 2) / 5 + 1;
    let m: u64 = if mp < 10 {
        mp + 3
    } else {
        mp - 9
    };
    let yy: u64 = if m <= 2 {
        y + 1
    } else {
        y
    };
    proof {
        civil_inverts_day_number(yy as int, m as int, d as int);
    }
    (yy, m, d)
}

/// Writes an instant, given in nanoseconds since 1970-01-01, as
/// `YYYY-MM-DDTHH:MM:SSZ`.
pub fn format_ns(ns: i64) -> (r: String)
    ensures
        r@ == stamp(ns as int),
{
    let secs: i64 = ns.checked_div_euclid(NS_PER_SEC).unwrap();
    let days: i64 = secs.checked_div_euclid(SEC_PER_DAY).unwrap();
    let sod: u64 = (secs - days * SEC_PER_DAY) as u64;
    let (y, m, d) = civil_from_days(days);
    let mut out = String::new();
    text::push_four_digits(&mut out, y);
    out.append("-");
    text::push_two_digits(&mut out, m);
    out.append("-");
    text::push_two_digits(&mut out, d);
    out.append("T");
    text::push_two_digits(&mut out, sod / 3600);
    out.append(":");
    text::push_two_digits(&mut out, sod % 3600 / 60);
    out.append(":");
    text::push_two_digits(&mut out, sod % 60);
    out.append("Z");
    assert(out@ == stamp(ns as int));
    out
}

// ---------------------------------------------------------------------------
// Reading back

proof fn year_of_day(days: int)
    requires
        0 <= days <= 106_751,
    ensures
        1970 <= civil(days).0 <= 2262,
{
    every_day_has_a_date(days);
    let (y, m, d) = civil(days);
    month_table(1969);
    month_table(1970);
    month_table(2263);
    if y < 1970 {
        later_dates_have_larger_numbers(y, m, d, 1970, 1, 1);
    } else if y > 2262 {
        if m == 1 && d == 1 && y == 2263 {
        } else {
            later_dates_have_larger_numbers(2263, 1, 1, y, m, d);
        }
    }
}

proof fn date_text_reads_back(y: int, m: int, d: int)
    requires
        1970 <= y <= 9999,
        valid_date(y, m, d),
    ensures
        date_text(y, m, d).len() == 10,
        date_fields(date_text(y, m, d)) == Some((y, m, d)),
{
    reveal_strlit("-");
    let s = date_text(y, m, d);
    let py = text::padded(y as nat, 4);
    let pm = text::padded(m as nat, 2);
    let pd = text::padded(d as nat, 2);
    text::four_digit_number_reads_back(y as nat);
    text::two_digit_number_reads_back(m as nat);
    text::two_digit_number_reads_back(d as nat);
    assert(s.subrange(0, 4) == py);
    assert(s.subrange(5, 7) == pm);
    assert(s.subrange(8, 10) == pd);
}

/// The date in a written instant reads back as the day that holds the instant.
pub proof fn written_date_reads_back(ns: int)
    requires
        0 <= ns <= i64::MAX,
    ensures
        date_days(stamp(ns).take(10)) == Some(ns / NS_PER_DAY as int),
        date_ns(stamp(ns).take(10)) == Some(ns / NS_PER_DAY as int * NS_PER_DAY),
{
    let days = ns / 1_000_000_000 / 86_400;
    assert(days == ns / NS_PER_DAY as int);
    every_day_has_a_date(days);
    year_of_day(days);
    let (y, m, d) = civil(days);
    date_text_reads_back(y, m, d);
    assert(stamp(ns).take(10) == date_text(y, m, d));
}

/// A date, read and written again, is the same date at midnight.
pub proof fn read_date_writes_back(s: Seq<char>)
    requires
        date_ns(s) is Some,
    ensures
        stamp(date_ns(s)->0) == s + "T00:00:00Z"@,
{
    let (y, m, d) = date_fields(s)->0;
    let days = day_number(y, m, d);
    let ns = days * NS_PER_DAY;
    assert(ns / 1_000_000_000 == days * 86_400);
    assert(days * 86_400 / 86_400 == days);
    civil_inverts_day_number(y, m, d);
    reveal_strlit("T00:00:00Z");
    reveal_strlit("-");
    reveal_strlit(":");
    reveal_strlit("T");
    reveal_strlit("Z");
    text::two_digits(0);
    let a = s.subrange(0, 4);
    let b = s.subrange(5, 7);
    let c = s.subrange(8, 10);
    assert(text::without_plus(a) == a);
    assert(text::without_plus(b) == b);
    assert(text::without_plus(c) == c);
    assert(text::is_digit(a[0]) && text::is_digit(a[1]) && text::is_digit(a[2]) && text::is_digit(a[3]));
    assert(text::is_digit(b[0]) && text::is_digit(b[1]));
    assert(text::is_digit(c[0]) && text::is_digit(c[1]));
    text::four_digits_read_back(a[0], a[1], a[2], a[3]);
    text::two_digits_read_back(b[0], b[1]);
    text::two_digits_read_back(c[0], c[1]);
    assert(a == seq![a[0], a[1], a[2], a[3]]);
    assert(b == seq![b[0], b[1]]);
    assert(c == seq![c[0], c[1]]);
    assert(s == a + "-"@ + b + "-"@ + c);
    assert(stamp(ns) == s + "T00:00:00Z"@);
}

/// The months have the lengths that they have, and February is longer in every
/// fourth year but three of four centuries.
pub proof fn months_have_their_lengths(y: int)
    ensures
        days_in_month(y, 1) == 31 && days_in_month(y, 3) == 31 && days_in_month(y, 5) == 31
            && days_in_month(y, 7) == 31 && days_in_month(y, 8) == 31 && days_in_month(y, 10) == 31
            && days_in_month(y, 12) == 31,
        days_in_month(y, 4) == 30 && days_in_month(y, 6) == 30 && days_in_month(y, 9) == 30
            && days_in_month(y, 11) == 30,
        days_in_month(y, 2) == 29 || days_in_month(y, 2) == 28,
        y % 4 != 0 ==> days_in_month(y, 2) == 28,
        y % 4 == 0 && y % 100 != 0 ==> days_in_month(y, 2) == 29,
        y % 100 == 0 && y % 400 != 0 ==> days_in_month(y, 2) == 28,
        y % 400 == 0 ==> days_in_month(y, 2) == 29,
{
}

proof fn year_of_any_day(days: int)
    requires
        -106_752 <= days <= 106_751,
    ensures
        1600 <= civil(days).0 <= 2263,
{
    every_day_has_a_date(days);
    let (y, m, d) = civil(days);
    month_table(1600);
    month_table(2264);
    if y < 1600 {
        later_dates_have_larger_numbers(y, m, d, 1600, 1, 1);
        assert(day_number(1600, 1, 1) < -106_752);
    } else if y > 2263 {
        assert(day_number(2264, 1, 1) > 106_751);
        if m == 1 && d == 1 && y == 2264 {
        } else {
            later_dates_have_larger_numbers(2264, 1, 1, y, m, d);
        }
    }
}

/// A written instant has twenty characters: the date of the day that holds it,
/// and the hour, the minute and the second of that day.
#[verifier::spinoff_prover]
#[verifier::rlimit(40)]
pub proof fn instants_are_written_to_the_second(ns: int)
    requires
        i64::MIN <= ns <= i64::MAX,
    ensures
        ({
            let t = stamp(ns);
            let h = text::digits_value(t.subrange(11, 13));
            let m = text::digits_value(t.subrange(14, 16));
            let s = text::digits_value(t.subrange(17, 19));
            let y = text::digits_value(t.subrange(0, 4));
            let mo = text::digits_value(t.subrange(5, 7));
            let d = text::digits_value(t.subrange(8, 10));
            &&& t.len() == 20
            &&& t[4] == '-' && t[7] == '-' && t[10] == 'T' && t[13] == ':' && t[16] == ':' && t[19]
                == 'Z'
            &&& text::all_digits(t.subrange(0, 4)) && text::all_digits(t.subrange(5, 7))
                && text::all_digits(t.subrange(8, 10)) && text::all_digits(t.subrange(11, 13))
                && text::all_digits(t.subrange(14, 16)) && text::all_digits(t.subrange(17, 19))
            &&& 0 <= h <= 23 && 0 <= m <= 59 && 0 <= s <= 59
            &&& valid_date(y, mo, d)
            &&& 86_400 * day_number(y, mo, d) + 3600 * h + 60 * m + s == ns / 1_000_000_000
        }),
{
    let secs = ns / 1_000_000_000;
    let days = secs / 86_400;
    let sod = secs % 86_400;
    every_day_has_a_date(days);
    year_of_any_day(days);
    let (y, mo, d) = civil(days);
    let (h, m, s) = (sod / 3600, sod % 3600 / 60, sod % 60);
    text::four_digit_number_reads_back(y as nat);
    text::two_digit_number_reads_back(mo as nat);
    text::two_digit_number_reads_back(d as nat);
    text::two_digit_number_reads_back(h as nat);
    text::two_digit_number_reads_back(m as nat);
    text::two_digit_number_reads_back(s as nat);
    reveal_strlit("-");
    reveal_strlit("T");
    reveal_strlit(":");
    reveal_strlit("Z");
    let t = stamp(ns);
    assert(t.subrange(0, 4) =~= text::padded(y as nat, 4));
    assert(t.subrange(5, 7) =~= text::padded(mo as nat, 2));
    assert(t.subrange(8, 10) =~= text::padded(d as nat, 2));
    assert(t.subrange(11, 13) =~= text::padded(h as nat, 2));
    assert(t.subrange(14, 16) =~= text::padded(m as nat, 2));
    assert(t.subrange(17, 19) =~= text::padded(s as nat, 2));
    assert(3600 * h + 60 * m + s == sod);
    assert(86_400 * days + sod == secs);
}

/// A date is read exactly where it is written as four digits, two and two, with
/// dashes between them, and is a day from 1970 on; it stands for the nanosecond
/// with which that day begins.
pub proof fn dates_are_read_as_written(s: Seq<char>)
    ensures
        ({
            let y = text::digits_value(s.subrange(0, 4));
            let m = text::digits_value(s.subrange(5, 7));
            let d = text::digits_value(s.subrange(8, 10));
            let dated = s.len() == 10 && s[4] == '-' && s[7] == '-' && text::all_digits(
                s.subrange(0, 4),
            ) && text::all_digits(s.subrange(5, 7)) && text::all_digits(s.subrange(8, 10)) && y
                >= 1970 && valid_date(y, m, d);
            let ns = day_number(y, m, d) * 86_400 * 1_000_000_000;
            &&& date_ns(s) is Some <==> dated && ns <= i64::MAX
            &&& date_ns(s) is Some ==> date_ns(s)->0 == ns
        }),
{
}

} // verus!
