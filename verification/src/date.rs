//! A validated Gregorian calendar date with deterministic day arithmetic.
//!
//! Every live `Date` holds a valid (year, month, day) triple inside the
//! supported year range; invalid components are rejected at construction and
//! never stored.

use vstd::prelude::*;
use chrono::Datelike;
use vstd::string::StringExecFns;
use crate::text::{
    all_digits, are_sep_positions, digit_str, digits_val, find_separators, four_digits,
    lemma_four_digits_val, lemma_split_at_positions, lemma_two_digits_val, parse_digit_run,
    split_on, two_digits,
};

verus! {

/// The error returned when a year lies outside the supported range.
#[derive(Debug, Clone, Copy, PartialEq, Eq, Structural)]
pub struct DateInvalidYear;

/// The error returned when a month lies outside 1..=12.
#[derive(Debug, Clone, Copy, PartialEq, Eq, Structural)]
pub struct DateInvalidMonth;

/// The error returned when a day does not exist in its month.
#[derive(Debug, Clone, Copy, PartialEq, Eq, Structural)]
pub struct DateInvalidDay;

/// The error returned when a date string cannot be parsed.
#[derive(Debug, Clone, Copy, PartialEq, Eq, Structural)]
pub struct DateParseError;

/// The error returned by `Date::new`, naming the component that was rejected.
#[derive(Debug, Clone, Copy, PartialEq, Eq, Structural)]
pub enum DateError {
    InvalidYear,
    InvalidMonth,
    InvalidDay,
}

/// The mathematical model of a `Date`: its three components as plain integers.
pub ghost struct DateModel {
    pub year: int,
    pub month: int,
    pub day: int,
}

/// The first supported year.
pub const YEAR_MIN: i32 = 1970;
/// The last supported year.
pub const YEAR_MAX: i32 = 2100;

/// The Gregorian leap-year rule: divisible by 400, or divisible by 4 but not by 100.
pub open spec fn spec_is_leap_year(y: int) -> bool {
    y % 400 == 0 || (y % 100 != 0 && y % 4 == 0)
}

/// Days in a month of the Gregorian calendar.
pub open spec fn spec_days_in_month(m: int, leap: bool) -> int {
    if m == 1 { 31 }
    else if m == 2 { if leap { 29 } else { 28 } }
    else if m == 3 { 31 }
    else if m == 4 { 30 }
    else if m == 5 { 31 }
    else if m == 6 { 30 }
    else if m == 7 { 31 }
    else if m == 8 { 31 }
    else if m == 9 { 30 }
    else if m == 10 { 31 }
    else if m == 11 { 30 }
    else { 31 }
}

/// A valid date: year in range, month in 1..=12, day within the month.
pub open spec fn spec_valid_date(y: int, m: int, d: int) -> bool {
    &&& YEAR_MIN <= y <= YEAR_MAX
    &&& 1 <= m <= 12
    &&& 1 <= d <= spec_days_in_month(m, spec_is_leap_year(y))
}

/// Days in a year of the Gregorian calendar.
pub open spec fn spec_days_in_year(y: int) -> int {
    if spec_is_leap_year(y) { 366 } else { 365 }
}

/// Days in all years from the first supported year up to, but not including, `y`.
pub open spec fn spec_days_before_year(y: int) -> int
    decreases y - YEAR_MIN when y >= YEAR_MIN
{
    if y <= YEAR_MIN { 0 } else { spec_days_before_year(y - 1) + spec_days_in_year(y - 1) }
}

/// Days in all months of a year before month `m`.
pub open spec fn spec_days_before_month(m: int, leap: bool) -> int
    decreases m when m >= 1
{
    if m <= 1 { 0 } else { spec_days_before_month(m - 1, leap) + spec_days_in_month(m - 1, leap) }
}

/// The index of a date on the line of days, with the first supported New Year at 0.
pub open spec fn spec_day_index(d: DateModel) -> int {
    spec_days_before_year(d.year) + spec_days_before_month(d.month, spec_is_leap_year(d.year)) + d.day - 1
}

/// The signed number of whole days from `b` to `a`.
pub open spec fn spec_date_diff(a: DateModel, b: DateModel) -> int {
    spec_day_index(a) - spec_day_index(b)
}

/// An immutable, always-valid calendar date.
#[derive(Debug, Copy, Clone, PartialEq, Eq, Structural)]
pub struct Date {
    year: i32,
    month: u32,
    day: u32,
}

impl View for Date {
    type V = DateModel;

    closed spec fn view(&self) -> DateModel {
        DateModel { year: self.year as int, month: self.month as int, day: self.day as int }
    }
}

impl Date {
    /// Well-formedness: the stored components form a valid date.
    pub open spec fn wf(self) -> bool {
        spec_valid_date(self@.year, self@.month, self@.day)
    }

    /// Builds a date from its components, rejecting any invalid one.
    /// Succeeds exactly on valid dates; the error names the first bad component,
    /// checked in the order year, month, day.
    pub fn new(year: i32, month: u32, day: u32) -> (r: Result<Self, DateError>)
        ensures
            match r {
                Ok(d) => {
                    &&& spec_valid_date(year as int, month as int, day as int)
                    &&& d.wf()
                    &&& d@ == (DateModel { year: year as int, month: month as int, day: day as int })
                },
                Err(e) => {
                    &&& !spec_valid_date(year as int, month as int, day as int)
                    &&& (e == DateError::InvalidYear <==> !(YEAR_MIN <= year <= YEAR_MAX))
                    &&& (e == DateError::InvalidMonth <==> (YEAR_MIN <= year <= YEAR_MAX
                            && !(1 <= month <= 12)))
                    &&& (e == DateError::InvalidDay <==> (YEAR_MIN <= year <= YEAR_MAX
                            && 1 <= month <= 12
                            && !(1 <= day
                                <= spec_days_in_month(month as int, spec_is_leap_year(year as int)))))
                },
            },
    {
        if !Self::validate_year(year) {
            return Err(DateError::InvalidYear);
        }
        if !Self::validate_month(month) {
            return Err(DateError::InvalidMonth);
        }
        if !Self::validate_day(day, month, Self::is_leap_year(year)) {
            return Err(DateError::InvalidDay);
        }
        Ok(Self { year, month, day })
    }

    /// Replaces the year, re-validating the whole date first: the new year
    /// must lie in the supported range and must keep the stored day valid
    /// (February 29 does not survive a move to a common year). On failure the
    /// date is unchanged.
    pub fn set_year(&mut self, year: i32) -> (r: Result<(), DateInvalidYear>)
        requires
            old(self).wf(),
        ensures
            final(self).wf(),
            match r {
                Ok(()) => {
                    &&& spec_valid_date(year as int, old(self)@.month, old(self)@.day)
                    &&& final(self)@ == (DateModel {
                        year: year as int,
                        month: old(self)@.month,
                        day: old(self)@.day,
                    })
                },
                Err(_) => {
                    &&& !spec_valid_date(year as int, old(self)@.month, old(self)@.day)
                    &&& *final(self) == *old(self)
                },
            },
    {
        if Self::validate_year(year)
            && Self::validate_day(self.day, self.month, Self::is_leap_year(year)) {
            self.year = year;
            Ok(())
        } else {
            Err(DateInvalidYear)
        }
    }

    /// Replaces the month, re-validating the whole date first: the new month
    /// must lie in 1..=12 and must have room for the stored day. On failure
    /// the date is unchanged.
    pub fn set_month(&mut self, month: u32) -> (r: Result<(), DateInvalidMonth>)
        requires
            old(self).wf(),
        ensures
            final(self).wf(),
            match r {
                Ok(()) => {
                    &&& spec_valid_date(old(self)@.year, month as int, old(self)@.day)
                    &&& final(self)@ == (DateModel {
                        year: old(self)@.year,
                        month: month as int,
                        day: old(self)@.day,
                    })
                },
                Err(_) => {
                    &&& !spec_valid_date(old(self)@.year, month as int, old(self)@.day)
                    &&& *final(self) == *old(self)
                },
            },
    {
        if Self::validate_day(self.day, month, Self::is_leap_year(self.year)) {
            self.month = month;
            Ok(())
        } else {
            Err(DateInvalidMonth)
        }
    }

    /// Replaces the day, re-validating the full replacement value against
    /// the date's own stored month and leap status: the new day must have
    /// room in the month the date already holds. The `month` and `leap`
    /// arguments are kept for callers that pass the date's context along,
    /// but the stored values decide. On failure the date is unchanged.
    #[allow(unused_variables)]
    pub fn set_day(&mut self, day: u32, month: u32, leap: bool) -> (r: Result<(), DateInvalidDay>)
        requires
            old(self).wf(),
        ensures
            final(self).wf(),
            match r {
                Ok(()) => {
                    &&& 1 <= day as int <= spec_days_in_month(
                        old(self)@.month,
                        spec_is_leap_year(old(self)@.year),
                    )
                    &&& final(self)@ == (DateModel {
                        year: old(self)@.year,
                        month: old(self)@.month,
                        day: day as int,
                    })
                },
                Err(_) => {
                    &&& !(1 <= day as int <= spec_days_in_month(
                        old(self)@.month,
                        spec_is_leap_year(old(self)@.year),
                    ))
                    &&& *final(self) == *old(self)
                },
            },
    {
        if Self::validate_day(day, self.month, Self::is_leap_year(self.year)) {
            self.day = day;
            Ok(())
        } else {
            Err(DateInvalidDay)
        }
    }

    /// The date for a calendar reading whose month and day are already
    /// known to fit together: an in-range reading is kept exactly; a year
    /// below the supported range becomes the first supported date, one above
    /// it the last.
    pub fn from_clamped_ymd(y: i32, m: u32, d: u32) -> (r: Date)
        requires
            1 <= m <= 12,
            1 <= d <= spec_days_in_month(m as int, spec_is_leap_year(y as int)),
        ensures
            r.wf(),
            YEAR_MIN <= y <= YEAR_MAX
                ==> r@ == (DateModel { year: y as int, month: m as int, day: d as int }),
            y < YEAR_MIN ==> r@ == (DateModel { year: YEAR_MIN as int, month: 1, day: 1 }),
            y > YEAR_MAX ==> r@ == (DateModel { year: YEAR_MAX as int, month: 12, day: 31 }),
    {
        if y < YEAR_MIN {
            Date { year: YEAR_MIN, month: 1, day: 1 }
        } else if y > YEAR_MAX {
            Date { year: YEAR_MAX, month: 12, day: 31 }
        } else {
            Date { year: y, month: m, day: d }
        }
    }

    /// The current UTC calendar date; the time of day is discarded and no
    /// time-zone conversion is applied. The reading is taken from the clock,
    /// so only its validity can be promised here; `from_clamped_ymd` pins
    /// exactly how each reading, in range or not, becomes the result.
    pub fn today() -> (r: Date)
        ensures
            r.wf(),
    {
        let (y, m, d) = current_utc_ymd();
        Self::from_clamped_ymd(y, m, d)
    }

    /// Whether `date` is on or after the reference date: the day distance
    /// from the reference to it is non-negative.
    pub fn is_on_or_after(date: &Date, reference: &Date) -> (r: bool)
        requires
            date.wf(),
            reference.wf(),
        ensures
            r == (spec_date_diff(date@, reference@) >= 0),
    {
        Self::difference(date, reference) >= 0
    }

    /// True when the date is on or after the current UTC date: exactly
    /// `is_on_or_after` against `today()`, whose reading depends on the
    /// clock.
    pub fn is_today_or_later(date: &Date) -> (r: bool)
        requires
            date.wf(),
    {
        let today = Self::today();
        Self::is_on_or_after(date, &today)
    }

    /// The year component.
    pub fn year(&self) -> (r: i32)
        ensures r as int == self@.year,
    {
        self.year
    }

    /// The month component.
    pub fn month(&self) -> (r: u32)
        ensures r as int == self@.month,
    {
        self.month
    }

    /// The day component.
    pub fn day(&self) -> (r: u32)
        ensures r as int == self@.day,
    {
        self.day
    }

    fn validate_year(year: i32) -> (r: bool)
        ensures r == (YEAR_MIN <= year <= YEAR_MAX),
    {
        YEAR_MIN <= year && year <= YEAR_MAX
    }

    fn validate_month(month: u32) -> (r: bool)
        ensures r == (1 <= month <= 12),
    {
        1 <= month && month <= 12
    }

    fn validate_day(day: u32, month: u32, leap: bool) -> (r: bool)
        ensures r == (1 <= month <= 12 && 1 <= day <= spec_days_in_month(month as int, leap)),
    {
        if !(1 <= month && month <= 12) {
            return false;
        }
        let limit = Self::days_in_month(month, leap);
        1 <= day && day <= limit
    }

    fn days_in_month(month: u32, leap: bool) -> (r: u32)
        requires 1 <= month <= 12,
        ensures r as int == spec_days_in_month(month as int, leap),
    {
        if month == 1 { 31 }
        else if month == 2 { if leap { 29 } else { 28 } }
        else if month == 3 { 31 }
        else if month == 4 { 30 }
        else if month == 5 { 31 }
        else if month == 6 { 30 }
        else if month == 7 { 31 }
        else if month == 8 { 31 }
        else if month == 9 { 30 }
        else if month == 10 { 31 }
        else if month == 11 { 30 }
        else { 31 }
    }

    fn is_leap_year(year: i32) -> (r: bool)
        requires year >= 0,
        ensures r == spec_is_leap_year(year as int),
    {
        if year % 400 == 0 { true }
        else if year % 100 == 0 { false }
        else if year % 4 == 0 { true }
        else { false }
    }

    /// The index of this date on the line of days (0 for the first supported day).
    fn day_index(&self) -> (r: u32)
        requires self.wf(),
        ensures
            r as int == spec_day_index(self@),
            r <= 48000,
    {
        let mut acc: u32 = 0;
        let mut y: i32 = YEAR_MIN;
        while y < self.year
            invariant
                YEAR_MIN <= y <= self.year <= YEAR_MAX,
                acc as int == spec_days_before_year(y as int),
                acc <= 366 * (y - YEAR_MIN),
            decreases self.year - y,
        {
            let days: u32 = if Self::is_leap_year(y) { 366 } else { 365 };
            acc = acc + days;
            y = y + 1;
        }
        let leap = Self::is_leap_year(self.year);
        let mut m: u32 = 1;
        let mut macc: u32 = 0;
        while m < self.month
            invariant
                1 <= m <= self.month <= 12,
                YEAR_MIN <= self.year <= YEAR_MAX,
                leap == spec_is_leap_year(self.year as int),
                macc as int == spec_days_before_month(m as int, leap),
                macc <= 31 * (m - 1),
            decreases self.month - m,
        {
            macc = macc + Self::days_in_month(m, leap);
            m = m + 1;
        }
        acc + macc + self.day - 1
    }

    /// The signed count of whole days from `date2` to `date1`: zero when they
    /// are equal, negative when `date1` precedes `date2`.
    pub fn difference(date1: &Date, date2: &Date) -> (r: i64)
        requires
            date1.wf(),
            date2.wf(),
        ensures
            r as int == spec_date_diff(date1@, date2@),
            -48000 <= r <= 48000,
    {
        let i1 = date1.day_index();
        let i2 = date2.day_index();
        i1 as i64 - i2 as i64
    }
}

/// Relies on `chrono::Utc::now` and `chrono::Datelike`: the current UTC date
/// read from a `chrono` date value is a real calendar date, so its month lies
/// in 1..=12 and its day exists in that month of that year. `Utc::now`
/// itself panics on a host clock reading before the Unix epoch; no
/// `requires` can speak of the clock, so that case rests on the host.
#[verifier::external_body]
fn current_utc_ymd() -> (r: (i32, u32, u32))
    ensures
        1 <= r.1 <= 12,
        1 <= r.2 <= spec_days_in_month(r.1 as int, spec_is_leap_year(r.0 as int)),
{
    let now = chrono::Utc::now();
    (now.year(), now.month(), now.day())
}

/// A non-empty run of decimal digits.
pub open spec fn digit_run(p: Seq<char>) -> bool {
    p.len() > 0 && all_digits(p)
}

/// What parsing a date text yields: the text must be three digit runs joined
/// by `/` in the order month, day, year, and the three values must form a
/// valid date.
pub open spec fn spec_parse_date(s: Seq<char>) -> Option<DateModel> {
    let parts = split_on(s, '/');
    if parts.len() == 3 && digit_run(parts[0]) && digit_run(parts[1]) && digit_run(parts[2]) {
        let m = digits_val(parts[0]);
        let d = digits_val(parts[1]);
        let y = digits_val(parts[2]);
        if spec_valid_date(y, m, d) {
            Some(DateModel { year: y, month: m, day: d })
        } else {
            None
        }
    } else {
        None
    }
}

/// A date rendered as `MM/DD/YYYY`, zero-padded.
pub open spec fn spec_format_date(m: DateModel) -> Seq<char> {
    two_digits(m.month) + seq!['/'] + two_digits(m.day) + seq!['/'] + four_digits(m.year)
}

impl Date {
    /// Parses a date from the form `M/D/YYYY` (no leading zeros required).
    /// Succeeds exactly when the text is three digit runs joined by `/` whose
    /// values form a valid date.
    pub fn parse(s: &str) -> (r: Result<Self, DateParseError>)
        ensures
            match r {
                Ok(d) => d.wf() && spec_parse_date(s@) == Some(d@),
                Err(_) => spec_parse_date(s@) is None,
            },
    {
        let ps = find_separators(s, '/');
        let ghost qs = ps@.map_values(|p: usize| p as int);
        proof {
            lemma_split_at_positions(s@, '/', qs);
        }
        if ps.len() != 2 {
            return Err(DateParseError);
        }
        let p0 = ps[0];
        let p1 = ps[1];
        let n = s.unicode_len();
        proof {
            assert(qs[0] == p0 as int && qs[1] == p1 as int);
            assert(qs[0] < qs[1]);
            assert(split_on(s@, '/')[0] =~= s@.subrange(0, p0 as int));
            assert(split_on(s@, '/')[1] =~= s@.subrange(p0 + 1, p1 as int));
            assert(split_on(s@, '/')[2] =~= s@.subrange(p1 + 1, n as int));
        }
        let mv = match parse_digit_run(s, 0, p0) {
            Some(v) => v,
            None => { return Err(DateParseError); },
        };
        let dv = match parse_digit_run(s, p0 + 1, p1) {
            Some(v) => v,
            None => { return Err(DateParseError); },
        };
        let yv = match parse_digit_run(s, p1 + 1, n) {
            Some(v) => v,
            None => { return Err(DateParseError); },
        };
        if mv > 12 || dv > 31 || yv > 2100 {
            return Err(DateParseError);
        }
        match Self::new(yv as i32, mv as u32, dv as u32) {
            Ok(d) => Ok(d),
            Err(_) => Err(DateParseError),
        }
    }

    /// Renders this date as `MM/DD/YYYY`, zero-padded.
    pub fn format(&self) -> (r: String)
        requires
            self.wf(),
        ensures
            r@ == spec_format_date(self@),
    {
        let mut out = String::new();
        out.append(digit_str(self.month / 10));
        out.append(digit_str(self.month % 10));
        out.append("/");
        out.append(digit_str(self.day / 10));
        out.append(digit_str(self.day % 10));
        out.append("/");
        let y = self.year as u32;
        out.append(digit_str(y / 1000));
        out.append(digit_str((y / 100) % 10));
        out.append(digit_str((y / 10) % 10));
        out.append(digit_str(y % 10));
        proof {
            reveal_strlit("/");
            assert(out@ =~= spec_format_date(self@));
        }
        out
    }
}

impl core::str::FromStr for Date {
    type Err = DateParseError;

    fn from_str(s: &str) -> Result<Self, DateParseError> {
        Date::parse(s)
    }
}

/// Formatting a valid date and parsing the result yields the date back.
pub proof fn lemma_format_parse_roundtrip(m: DateModel)
    requires
        spec_valid_date(m.year, m.month, m.day),
    ensures
        spec_parse_date(spec_format_date(m)) == Some(m),
{
    let s = spec_format_date(m);
    let ps = seq![2int, 5int];
    lemma_two_digits_val(m.month);
    lemma_two_digits_val(m.day);
    lemma_four_digits_val(m.year);
    assert(s.len() == 10);
    assert(s[2] == '/' && s[5] == '/');
    assert forall|i: int| 0 <= i < s.len() && s[i] == '/'
        implies exists|k: int| 0 <= k < ps.len() && #[trigger] ps[k] == i by {
        if i == 2 {
            assert(ps[0] == i);
        } else if i == 5 {
            assert(ps[1] == i);
        } else {
            if i < 2 {
                assert(s[i] == two_digits(m.month)[i]);
            } else if i < 5 {
                assert(s[i] == two_digits(m.day)[i - 3]);
            } else {
                assert(s[i] == four_digits(m.year)[i - 6]);
            }
            assert(false);
        }
    }
    assert(are_sep_positions(s, '/', ps));
    lemma_split_at_positions(s, '/', ps);
    let parts = split_on(s, '/');
    assert(parts[0] =~= s.subrange(0, 2));
    assert(parts[1] =~= s.subrange(3, 5));
    assert(parts[2] =~= s.subrange(6, 10));
    assert(s.subrange(0, 2) =~= two_digits(m.month));
    assert(s.subrange(3, 5) =~= two_digits(m.day));
    assert(s.subrange(6, 10) =~= four_digits(m.year));
}

/// The days before a month never count negative.
proof fn lemma_days_before_month_nonneg(m: int, leap: bool)
    requires
        1 <= m <= 13,
    ensures
        0 <= spec_days_before_month(m, leap),
    decreases m,
{
    if m > 1 {
        lemma_days_before_month_nonneg(m - 1, leap);
    }
}

/// Months sit before the year's end: the days before a month, the month
/// itself included, never pass the year's length.
proof fn lemma_days_before_month_bounded(m: int, leap: bool)
    requires
        1 <= m <= 12,
    ensures
        0 <= spec_days_before_month(m, leap),
        spec_days_before_month(m, leap) + spec_days_in_month(m, leap)
            <= (if leap { 366int } else { 365int }),
    decreases 12 - m,
{
    lemma_days_before_month_nonneg(m, leap);
    if m == 12 {
        reveal_with_fuel(spec_days_before_month, 13);
    } else {
        lemma_days_before_month_bounded(m + 1, leap);
    }
}

/// Later months begin later: a whole month fits between the starts of two
/// distinct months.
proof fn lemma_days_before_month_monotone(m1: int, m2: int, leap: bool)
    requires
        1 <= m1 < m2 <= 12,
    ensures
        spec_days_before_month(m1, leap) + spec_days_in_month(m1, leap)
            <= spec_days_before_month(m2, leap),
    decreases m2 - m1,
{
    if m2 > m1 + 1 {
        lemma_days_before_month_monotone(m1, m2 - 1, leap);
    }
}

/// Later years begin later: a whole year fits between the starts of two
/// distinct years.
proof fn lemma_days_before_year_monotone(y1: int, y2: int)
    requires
        YEAR_MIN <= y1 < y2,
    ensures
        spec_days_before_year(y1) + spec_days_in_year(y1) <= spec_days_before_year(y2),
    decreases y2 - y1,
{
    if y2 > y1 + 1 {
        lemma_days_before_year_monotone(y1, y2 - 1);
    }
}

/// A valid date's day index falls inside its own year's stretch of days.
proof fn lemma_day_index_within_year(d: DateModel)
    requires
        spec_valid_date(d.year, d.month, d.day),
    ensures
        spec_days_before_year(d.year) <= spec_day_index(d),
        spec_day_index(d) < spec_days_before_year(d.year) + spec_days_in_year(d.year),
{
    lemma_days_before_month_bounded(d.month, spec_is_leap_year(d.year));
}

/// Distinct valid dates lie at distinct day indices: the day distance
/// separates any two distinct dates, so a condition on it, such as the
/// reminder's days-until-due equality, singles out at most one calendar
/// date.
pub proof fn lemma_day_index_injective(a: DateModel, b: DateModel)
    requires
        spec_valid_date(a.year, a.month, a.day),
        spec_valid_date(b.year, b.month, b.day),
        a != b,
    ensures
        spec_day_index(a) != spec_day_index(b),
{
    lemma_day_index_injective_ordered(a, b);
    lemma_day_index_injective_ordered(b, a);
}

/// One direction of the injectivity argument: a date earlier in the
/// year-month-day order has the smaller day index.
proof fn lemma_day_index_injective_ordered(a: DateModel, b: DateModel)
    requires
        spec_valid_date(a.year, a.month, a.day),
        spec_valid_date(b.year, b.month, b.day),
    ensures
        (a.year < b.year
            || (a.year == b.year && a.month < b.month)
            || (a.year == b.year && a.month == b.month && a.day < b.day))
            ==> spec_day_index(a) < spec_day_index(b),
{
    if a.year < b.year {
        lemma_day_index_within_year(a);
        lemma_day_index_within_year(b);
        lemma_days_before_year_monotone(a.year, b.year);
    } else if a.year == b.year && a.month < b.month {
        let leap = spec_is_leap_year(a.year);
        lemma_days_before_month_monotone(a.month, b.month, leap);
    }
}

/// The day distance is antisymmetric: swapping the two dates negates it.
pub proof fn lemma_difference_antisymmetric(a: DateModel, b: DateModel)
    ensures
        spec_date_diff(a, b) == -spec_date_diff(b, a),
{
}

/// The day distance of a date from itself is zero.
pub proof fn lemma_difference_self(a: DateModel)
    ensures
        spec_date_diff(a, a) == 0,
{
}

} // verus!
