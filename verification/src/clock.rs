//! Civil dates and times: from seconds on the Unix time line to the calendar
//! of a zone at a fixed offset from UTC, and the label that shows them.

use crate::text::{decimal, digit_char, is_digit, push_decimal};
use vstd::prelude::*;
use vstd::string::StringExecFns;

verus! {

/// A leap year of the proleptic Gregorian calendar.
pub open spec fn is_leap_year(y: int) -> bool {
    y % 4 == 0 && (y % 100 != 0 || y % 400 == 0)
}

/// The number of days of year `y`.
pub open spec fn days_in_year(y: int) -> int {
    if is_leap_year(y) {
        366
    } else {
        365
    }
}

/// The number of days of month `m` in year `y`.
pub open spec fn days_in_month(y: int, m: int) -> int {
    if m == 2 {
        if is_leap_year(y) {
            29
        } else {
            28
        }
    } else if m == 4 || m == 6 || m == 9 || m == 11 {
        30
    } else {
        31
    }
}

/// How many years before `y` are leap years, counted from a fixed far origin:
/// only differences of this count are used.
#[verifier::opaque]
pub open spec fn leap_years_before(y: int) -> int {
    (y - 1) / 4 - (y - 1) / 100 + (y - 1) / 400
}

/// Days from 1970-01-01 to the first of January of year `y`.
pub open spec fn days_before_year(y: int) -> int {
    365 * (y - 1970) + leap_years_before(y) - leap_years_before(1970)
}

/// Days from the first of January to the first of month `m`, in year `y`.
pub open spec fn days_before_month(y: int, m: int) -> int
    decreases m,
{
    if m <= 1 {
        0
    } else {
        days_before_month(y, m - 1) + days_in_month(y, m - 1)
    }
}

/// A date and a time of day on the calendar.
#[derive(Clone, Copy, Debug, PartialEq, Eq)]
pub struct CivilTime {
    pub year: i64,
    pub month: u8,
    pub day: u8,
    pub hour: u8,
    pub minute: u8,
    pub second: u8,
}

impl CivilTime {
    /// The fields name a day that exists and a time of day.
    pub open spec fn is_civil(self) -> bool {
        &&& 1 <= self.month <= 12
        &&& 1 <= self.day <= days_in_month(self.year as int, self.month as int)
        &&& self.hour < 24
        &&& self.minute < 60
        &&& self.second < 60
    }

    /// Days from 1970-01-01 to this date.
    pub open spec fn day_number(self) -> int {
        days_before_year(self.year as int) + days_before_month(
            self.year as int,
            self.month as int,
        ) + self.day - 1
    }

    /// Seconds from 1970-01-01 00:00:00 to this date and time.
    pub open spec fn seconds(self) -> int {
        self.day_number() * 86_400 + self.hour * 3_600 + self.minute * 60 + self.second
    }
}

proof fn lemma_quotient_step_4(x: int)
    ensures
        x / 4 == (x - 1) / 4 + if x % 4 == 0 { 1int } else { 0int },
{
}

proof fn lemma_quotient_step_100(x: int)
    ensures
        x / 100 == (x - 1) / 100 + if x % 100 == 0 { 1int } else { 0int },
{
}

proof fn lemma_quotient_step_400(x: int)
    ensures
        x / 400 == (x - 1) / 400 + if x % 400 == 0 { 1int } else { 0int },
{
}

proof fn lemma_divisors(x: int)
    ensures
        x % 400 == 0 ==> x % 100 == 0,
        x % 100 == 0 ==> x % 4 == 0,
{
}

/// One year on, the first of January is `days_in_year` days later.
pub proof fn lemma_next_year(y: int)
    ensures
        days_before_year(y + 1) == days_before_year(y) + days_in_year(y),
{
    reveal(leap_years_before);
    lemma_quotient_step_4(y);
    lemma_quotient_step_100(y);
    lemma_quotient_step_400(y);
    lemma_divisors(y);
}

proof fn lemma_quotient_shift(x: int, e: int)
    ensures
        (x + 400 * e) / 4 == x / 4 + 100 * e,
        (x + 400 * e) / 100 == x / 100 + 4 * e,
        (x + 400 * e) / 400 == x / 400 + e,
        (x + 400 * e) % 4 == x % 4,
        (x + 400 * e) % 100 == x % 100,
        (x + 400 * e) % 400 == x % 400,
{
}

/// Leap years come round every four hundred years.
pub proof fn lemma_leap_period(y: int, e: int)
    ensures
        is_leap_year(y + 400 * e) == is_leap_year(y),
{
    lemma_quotient_shift(y, e);
}

/// Four hundred years hold 146 097 days.
pub proof fn lemma_era(e: int)
    ensures
        days_before_year(2000 + 400 * e) == 10_957 + 146_097 * e,
{
    reveal(leap_years_before);
    lemma_quotient_shift(1999, e);
}

/// The first of January comes later in a later year, by at least 365 days a year.
pub proof fn lemma_years_ordered(a: int, b: int)
    requires
        a <= b,
    ensures
        days_before_year(b) >= days_before_year(a) + 365 * (b - a),
    decreases b - a,
{
    if a < b {
        lemma_years_ordered(a, b - 1);
        lemma_next_year(b - 1);
    }
}

/// Within a year, the months follow each other and fill the year.
pub proof fn lemma_months(y: int, m: int)
    requires
        1 <= m <= 12,
    ensures
        days_before_month(y, m) + days_in_month(y, m) == days_before_month(y, m + 1),
        days_before_month(y, 13) == days_in_year(y),
        0 <= days_before_month(y, m),
        days_before_month(y, m + 1) <= days_in_year(y),
{
    reveal_with_fuel(days_before_month, 14);
}

/// Earlier months begin earlier.
pub proof fn lemma_months_ordered(y: int, a: int, b: int)
    requires
        1 <= a <= b <= 13,
    ensures
        days_before_month(y, a) + 28 * (b - a) <= days_before_month(y, b),
    decreases b - a,
{
    if a < b {
        lemma_months_ordered(y, a, b - 1);
    }
}

/// Two civil times with the same count of seconds are the same.
pub proof fn lemma_civil_time_unique(a: CivilTime, b: CivilTime)
    requires
        a.is_civil(),
        b.is_civil(),
        a.seconds() == b.seconds(),
    ensures
        a == b,
{
    let sa = a.hour * 3_600 + a.minute * 60 + a.second;
    let sb = b.hour * 3_600 + b.minute * 60 + b.second;
    assert(0 <= sa < 86_400 && 0 <= sb < 86_400);
    assert(a.day_number() == b.day_number());
    assert(sa == sb);
    lemma_months(a.year as int, a.month as int);
    lemma_months(b.year as int, b.month as int);
    if a.year < b.year {
        lemma_next_year(a.year as int);
        lemma_years_ordered(a.year + 1, b.year as int);
    } else if b.year < a.year {
        lemma_next_year(b.year as int);
        lemma_years_ordered(b.year + 1, a.year as int);
    }
    assert(a.year == b.year);
    if a.month < b.month {
        lemma_months_ordered(a.year as int, a.month + 1, b.month as int);
    } else if b.month < a.month {
        lemma_months_ordered(a.year as int, b.month + 1, a.month as int);
    }
    assert(a.month == b.month);
}

/// Whole days and the second of the day in a count of seconds; the second of
/// the day is never negative.
fn split_seconds(n: i128) -> (qr: (i128, i128))
    requires
        -0x1_0000_0000_0000_0000 <= n <= 0x1_0000_0000_0000_0000,
    ensures
        qr.0 * 86_400 + qr.1 == n,
        0 <= qr.1 < 86_400,
{
    if n >= 0 {
        (n / 86_400, n % 86_400)
    } else {
        let m: i128 = -n;
        let q: i128 = m / 86_400;
        let r: i128 = m % 86_400;
        if r == 0 {
            (-q, 0)
        } else {
            (-q - 1, 86_400 - r)
        }
    }
}

/// Whole eras of four hundred years and the day of the era in a count of
/// days; the day of the era is never negative.
fn split_days(n: i128) -> (qr: (i128, i128))
    requires
        -0x1_0000_0000_0000_0000 <= n <= 0x1_0000_0000_0000_0000,
    ensures
        qr.0 * 146_097 + qr.1 == n,
        0 <= qr.1 < 146_097,
{
    if n >= 0 {
        (n / 146_097, n % 146_097)
    } else {
        let m: i128 = -n;
        let q: i128 = m / 146_097;
        let r: i128 = m % 146_097;
        if r == 0 {
            (-q, 0)
        } else {
            (-q - 1, 146_097 - r)
        }
    }
}

/// Whether year `y` is a leap year.
fn leap_year(y: i64) -> (leap: bool)
    requires
        y >= 0,
    ensures
        leap == is_leap_year(y as int),
{
    y % 4 == 0 && (y % 100 != 0 || y % 400 == 0)
}

/// The number of days of month `m`, in a leap year or in another.
fn month_length(leap: bool, m: u8) -> (n: u8)
    ensures
        forall|y: int| is_leap_year(y) == leap ==> n == #[trigger] days_in_month(y, m as int),
        28 <= n <= 31,
{
    if m == 2 {
        if leap {
            29
        } else {
            28
        }
    } else if m == 4 || m == 6 || m == 9 || m == 11 {
        30
    } else {
        31
    }
}

/// The civil time, in the zone `offset_seconds` east of UTC, of the instant
/// `seconds` after 1970-01-01 00:00:00 UTC.
pub fn civil_from_unix(seconds: i64, offset_seconds: i32) -> (t: CivilTime)
    ensures
        t.is_civil(),
        t.seconds() == seconds + offset_seconds,
{
    let local: i128 = seconds as i128 + offset_seconds as i128;
    let (days, second_of_day) = split_seconds(local);
    let (era, day_of_era) = split_days(days - 10_957);
    // The era begins with a year that 400 divides; its remainder picks the leap years.
    let first: i128 = 2000 + 400 * era;
    proof {
        lemma_era(era as int);
        lemma_era(era + 1);
    }
    let mut year_of_era: i64 = 0;
    let mut rest: i64 = day_of_era as i64;
    loop
        invariant
            0 <= year_of_era <= 400,
            0 <= rest < 146_097,
            first == 2000 + 400 * era,
            days_before_year(first + year_of_era) + rest == days,
            rest + days_before_year(first + year_of_era) <= days_before_year(first + 400) - 1,
        ensures
            year_of_era < 400,
            rest < days_in_year(first + year_of_era),
            is_leap_year(first + year_of_era) == is_leap_year(year_of_era as int),
        decreases 400 - year_of_era,
    {
        let leap: bool = leap_year(year_of_era);
        let length: i64 = if leap {
            366
        } else {
            365
        };
        proof {
            // The year is `year_of_era` plus a multiple of 400.
            lemma_leap_period(year_of_era as int, era + 5);
            assert(is_leap_year(first + year_of_era) == leap);
            lemma_next_year(first + year_of_era);
            if year_of_era < 400 {
                lemma_years_ordered(first + year_of_era + 1, first + 400);
            }
        }
        if rest < length {
            break;
        }
        rest = rest - length;
        year_of_era = year_of_era + 1;
    }
    let year: i128 = first + year_of_era as i128;
    let leap: bool = leap_year(year_of_era);
    let mut month: u8 = 1;
    proof {
        reveal_with_fuel(days_before_month, 2);
        lemma_months(year as int, 12);
    }
    loop
        invariant
            1 <= month <= 12,
            0 <= rest < 366,
            is_leap_year(year as int) == leap,
            days_before_year(year as int) + days_before_month(year as int, month as int) + rest
                == days,
            days_before_month(year as int, month as int) + rest < days_in_year(year as int),
        ensures
            rest < days_in_month(year as int, month as int),
        decreases 12 - month,
    {
        let length: u8 = month_length(leap, month);
        proof {
            lemma_months(year as int, month as int);
            lemma_months(year as int, 12);
            if month < 12 {
                lemma_months_ordered(year as int, month + 1, 13);
            }
        }
        if rest < length as i64 {
            break;
        }
        rest = rest - length as i64;
        month = month + 1;
    }
    let hour: i128 = second_of_day / 3_600;
    let minute: i128 = (second_of_day % 3_600) / 60;
    let second: i128 = second_of_day % 60;
    CivilTime {
        year: year as i64,
        month,
        day: (rest + 1) as u8,
        hour: hour as u8,
        minute: minute as u8,
        second: second as u8,
    }
}

/// A number below one hundred written with two digits.
pub open spec fn two_digits(n: int) -> Seq<char> {
    seq![digit_char((n / 10) as nat), digit_char((n % 10) as nat)]
}

/// A number written with four digits at least, zeros in front where it is short.
pub open spec fn four_digits(n: nat) -> Seq<char> {
    if n < 10 {
        seq!['0', '0', '0'] + decimal(n)
    } else if n < 100 {
        seq!['0', '0'] + decimal(n)
    } else if n < 1000 {
        seq!['0'] + decimal(n)
    } else {
        decimal(n)
    }
}

/// A year: four digits at least, and a minus sign before a year before year 0.
pub open spec fn year_text(y: int) -> Seq<char> {
    if y < 0 {
        seq!['-'] + four_digits((-y) as nat)
    } else {
        four_digits(y as nat)
    }
}

/// The label `YYYY/MM/DD HH:MM:SS` of a civil time.
pub open spec fn label_text(t: CivilTime) -> Seq<char> {
    year_text(t.year as int) + seq!['/'] + two_digits(t.month as int) + seq!['/'] + two_digits(
        t.day as int,
    ) + seq![' '] + two_digits(t.hour as int) + seq![':'] + two_digits(t.minute as int) + seq![':']
        + two_digits(t.second as int)
}

/// The civil time that lies `local_seconds` after 1970-01-01 00:00:00 on the
/// zone's own clock. There is exactly one: see `lemma_civil_time_unique`.
pub open spec fn civil_of(local_seconds: int) -> CivilTime {
    choose|t: CivilTime| t.is_civil() && t.seconds() == local_seconds
}

/// The label of the instant that lies `local_seconds` after the epoch on the zone's clock.
pub open spec fn label_of(local_seconds: int) -> Seq<char> {
    label_text(civil_of(local_seconds))
}

fn push_two_digits(out: &mut String, n: u8)
    requires
        n < 100,
    ensures
        final(out)@ == old(out)@ + two_digits(n as int),
{
    let tens: u64 = (n / 10) as u64;
    let units: u64 = (n % 10) as u64;
    push_decimal(out, tens);
    push_decimal(out, units);
    proof {
        reveal_with_fuel(decimal, 1);
        assert(decimal(tens as nat) == seq![digit_char(tens as nat)]);
        assert(decimal(units as nat) == seq![digit_char(units as nat)]);
        assert(old(out)@ + decimal(tens as nat) + decimal(units as nat) == old(out)@ + two_digits(
            n as int,
        ));
    }
}

fn push_year(out: &mut String, year: i64)
    ensures
        final(out)@ == old(out)@ + year_text(year as int),
{
    let wide: i128 = year as i128;
    let size: u64 = if wide < 0 {
        out.push('-');
        (-wide) as u64
    } else {
        wide as u64
    };
    let ghost signed = out@;
    if size < 10 {
        out.append("000");
    } else if size < 100 {
        out.append("00");
    } else if size < 1000 {
        out.append("0");
    }
    let ghost padded = out@;
    push_decimal(out, size);
    proof {
        reveal_strlit("000");
        reveal_strlit("00");
        reveal_strlit("0");
        assert("000"@ == seq!['0', '0', '0']);
        assert("00"@ == seq!['0', '0']);
        assert("0"@ == seq!['0']);
        assert(padded + decimal(size as nat) == signed + four_digits(size as nat));
        if wide < 0 {
            assert(signed == old(out)@.push('-'));
            assert(old(out)@.push('-') + four_digits(size as nat) == old(out)@ + (seq!['-']
                + four_digits(size as nat)));
        }
    }
}

/// Writes a civil time as `YYYY/MM/DD HH:MM:SS`.
pub fn format_label(t: &CivilTime) -> (label: String)
    requires
        t.is_civil(),
    ensures
        label@ == label_text(*t),
{
    let mut label = String::new();
    push_year(&mut label, t.year);
    label.push('/');
    push_two_digits(&mut label, t.month);
    label.push('/');
    push_two_digits(&mut label, t.day);
    label.push(' ');
    push_two_digits(&mut label, t.hour);
    label.push(':');
    push_two_digits(&mut label, t.minute);
    label.push(':');
    push_two_digits(&mut label, t.second);
    proof {
        let a = year_text(t.year as int);
        let b = a + seq!['/'];
        assert(Seq::<char>::empty() + a == a);
        assert(a.push('/') == b);
        let c = b + two_digits(t.month as int);
        assert(c.push('/') == c + seq!['/']);
        let d = c + seq!['/'] + two_digits(t.day as int);
        assert(d.push(' ') == d + seq![' ']);
        let e = d + seq![' '] + two_digits(t.hour as int);
        assert(e.push(':') == e + seq![':']);
        let f = e + seq![':'] + two_digits(t.minute as int);
        assert(f.push(':') == f + seq![':']);
    }
    label
}

/// The label of the instant `seconds` after the epoch, read on the clock of
/// the zone `offset_seconds` east of UTC.
pub fn timestamp_label(seconds: i64, offset_seconds: i32) -> (label: String)
    ensures
        label@ == label_of(seconds + offset_seconds),
{
    let t = civil_from_unix(seconds, offset_seconds);
    proof {
        lemma_civil_time_unique(t, civil_of(seconds + offset_seconds));
    }
    format_label(&t)
}

/// In the years 0 to 9999 a label has the form `YYYY/MM/DD HH:MM:SS`:
/// nineteen characters, all of them digits but the two slashes, the space and
/// the two colons.
pub proof fn lemma_label_shape(t: CivilTime)
    requires
        t.is_civil(),
        0 <= t.year <= 9999,
    ensures
        label_text(t).len() == 19,
        label_text(t)[4] == '/',
        label_text(t)[7] == '/',
        label_text(t)[10] == ' ',
        label_text(t)[13] == ':',
        label_text(t)[16] == ':',
        forall|i: int|
            0 <= i < 19 && i != 4 && i != 7 && i != 10 && i != 13 && i != 16 ==> is_digit(
                #[trigger] label_text(t)[i],
            ),
{
    reveal_with_fuel(decimal, 4);
    let year = four_digits(t.year as nat);
    assert(year.len() == 4);
    assert(is_digit(year[0]) && is_digit(year[1]) && is_digit(year[2]) && is_digit(year[3]));
    let label = label_text(t);
    assert(label.len() == 19);
    assert(label[0] == year[0] && label[1] == year[1] && label[2] == year[2] && label[3]
        == year[3]);
    assert(label[5] == two_digits(t.month as int)[0] && label[6] == two_digits(t.month as int)[1]);
    assert(label[8] == two_digits(t.day as int)[0] && label[9] == two_digits(t.day as int)[1]);
    assert(label[11] == two_digits(t.hour as int)[0] && label[12] == two_digits(t.hour as int)[1]);
    assert(label[14] == two_digits(t.minute as int)[0] && label[15] == two_digits(
        t.minute as int,
    )[1]);
    assert(label[17] == two_digits(t.second as int)[0] && label[18] == two_digits(
        t.second as int,
    )[1]);
}

} // verus!
