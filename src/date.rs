//! Publish dates: a calendar date and a time of day, ordered chronologically.
use vstd::prelude::*;

use std::fmt::Write;

use chrono::{Datelike, Timelike};

use crate::text::string_of;

verus! {

/// The earliest and latest years that a publish date can carry.
pub const MIN_YEAR: i32 = -262143;
pub const MAX_YEAR: i32 = 262142;

/// A date and time of day, with no time zone.
#[derive(Debug, Clone, Copy, PartialEq, Eq, Structural)]
pub struct DateTime {
    pub year: i32,
    pub month: u32,
    pub day: u32,
    pub hour: u32,
    pub minute: u32,
    pub second: u32,
}

/// What chrono's `NaiveDateTime::parse_from_str` reads from a text in the
/// `%Y-%m-%d %H:%M:%S` format: year, month, day, hour, minute, second.
pub uninterp spec fn parsed_datetime(s: Seq<char>) -> Option<(int, int, int, int, int, int)>;

impl DateTime {
    /// Every field lies within its calendar range.
    pub open spec fn wf(self) -> bool {
        &&& MIN_YEAR <= self.year <= MAX_YEAR
        &&& 1 <= self.month <= 12
        &&& 1 <= self.day <= 31
        &&& self.hour < 24
        &&& self.minute < 60
        &&& self.second < 60
    }

    pub open spec fn fields(self) -> (int, int, int, int, int, int) {
        (self.year as int, self.month as int, self.day as int, self.hour as int, self.minute as int, self.second as int)
    }

    /// Chronological order: `self` comes strictly before `other`.
    pub open spec fn before(self, other: DateTime) -> bool {
        if self.year != other.year {
            self.year < other.year
        } else if self.month != other.month {
            self.month < other.month
        } else if self.day != other.day {
            self.day < other.day
        } else if self.hour != other.hour {
            self.hour < other.hour
        } else if self.minute != other.minute {
            self.minute < other.minute
        } else {
            self.second < other.second
        }
    }

    pub open spec fn epoch_value() -> DateTime {
        DateTime { year: 1970, month: 1, day: 1, hour: 0, minute: 0, second: 0 }
    }

    /// The Unix epoch, the date of a post whose front matter gives none.
    pub fn epoch() -> (r: DateTime)
        ensures
            r.wf(),
            r == DateTime::epoch_value(),
    {
        DateTime { year: 1970, month: 1, day: 1, hour: 0, minute: 0, second: 0 }
    }

    /// Whether `self` comes strictly before `other`.
    pub fn is_before(&self, other: &DateTime) -> (r: bool)
        ensures
            r == self.before(*other),
    {
        if self.year != other.year {
            self.year < other.year
        } else if self.month != other.month {
            self.month < other.month
        } else if self.day != other.day {
            self.day < other.day
        } else if self.hour != other.hour {
            self.hour < other.hour
        } else if self.minute != other.minute {
            self.minute < other.minute
        } else {
            self.second < other.second
        }
    }

    /// The date as `YYYY-MM-DD HH:MM:SS`, each field zero-padded.
    pub fn to_text(&self) -> (r: String)
        requires
            self.wf(),
        ensures
            r@ == datetime_text(*self),
    {
        let mut v: Vec<char> = Vec::new();
        push_year(&mut v, self.year);
        v.push('-');
        push_padded(&mut v, self.month as u64, 2);
        v.push('-');
        push_padded(&mut v, self.day as u64, 2);
        v.push(' ');
        push_padded(&mut v, self.hour as u64, 2);
        v.push(':');
        push_padded(&mut v, self.minute as u64, 2);
        v.push(':');
        push_padded(&mut v, self.second as u64, 2);
        string_of(&v)
    }
}

/// The date text in the `YYYY-MM-DD HH:MM:SS` format.
pub open spec fn datetime_text(d: DateTime) -> Seq<char> {
    year_text(d.year as int) + seq!['-'] + padded(d.month as nat, 2) + seq!['-'] + padded(d.day as nat, 2)
        + seq![' '] + padded(d.hour as nat, 2) + seq![':'] + padded(d.minute as nat, 2) + seq![':']
        + padded(d.second as nat, 2)
}

/// A year with at least four digits, signed when it lies outside 0 to 9999.
pub open spec fn year_text(y: int) -> Seq<char> {
    if y < 0 {
        seq!['-'] + padded((-y) as nat, 4)
    } else if y > 9999 {
        seq!['+'] + padded(y as nat, 4)
    } else {
        padded(y as nat, 4)
    }
}

/// The character of a decimal digit.
pub open spec fn digit_char(d: nat) -> char {
    if d == 0 { '0' } else if d == 1 { '1' } else if d == 2 { '2' } else if d == 3 { '3' }
    else if d == 4 { '4' } else if d == 5 { '5' } else if d == 6 { '6' } else if d == 7 { '7' }
    else if d == 8 { '8' } else { '9' }
}

/// The decimal digits of `n`, with no leading zeros.
pub open spec fn decimal(n: nat) -> Seq<char>
    decreases n,
{
    if n < 10 {
        seq![digit_char(n)]
    } else {
        decimal(n / 10).push(digit_char(n % 10))
    }
}

/// The decimal digits of `n`, with leading zeros up to `width` digits.
pub open spec fn padded(n: nat, width: nat) -> Seq<char> {
    let d = decimal(n);
    if d.len() < width {
        Seq::new((width - d.len()) as nat, |i: int| '0') + d
    } else {
        d
    }
}

/// The decimal text of a signed integer.
pub open spec fn int_text(i: int) -> Seq<char> {
    if i < 0 {
        seq!['-'] + decimal((-i) as nat)
    } else {
        decimal(i as nat)
    }
}

fn digit_of(d: u64) -> (c: char)
    requires
        d < 10,
    ensures
        c == digit_char(d as nat),
{
    if d == 0 { '0' } else if d == 1 { '1' } else if d == 2 { '2' } else if d == 3 { '3' }
    else if d == 4 { '4' } else if d == 5 { '5' } else if d == 6 { '6' } else if d == 7 { '7' }
    else if d == 8 { '8' } else { '9' }
}

/// Appends the decimal digits of `n`.
pub fn push_decimal(out: &mut Vec<char>, n: u64)
    ensures
        final(out)@ == old(out)@ + decimal(n as nat),
    decreases n,
{
    if n < 10 {
        out.push(digit_of(n));
        assert(decimal(n as nat) == seq![digit_char(n as nat)]);
    } else {
        push_decimal(out, n / 10);
        out.push(digit_of(n % 10));
    }
}

/// Appends the decimal digits of `n`, zero-padded to `width` digits.
pub fn push_padded(out: &mut Vec<char>, n: u64, width: usize)
    ensures
        final(out)@ == old(out)@ + padded(n as nat, width as nat),
{
    let mut digits: Vec<char> = Vec::new();
    push_decimal(&mut digits, n);
    assert(digits@ == decimal(n as nat));
    let ghost start = out@;
    if digits.len() < width {
        let mut k: usize = 0;
        while k < width - digits.len()
            invariant
                digits@ == decimal(n as nat),
                digits.len() < width,
                k <= width - digits.len(),
                out@ == start + Seq::new(k as nat, |i: int| '0'),
            decreases width - digits.len() - k,
        {
            out.push('0');
            k = k + 1;
            assert(out@ =~= start + Seq::new(k as nat, |i: int| '0'));
        }
    }
    let ghost mid = out@;
    let mut j: usize = 0;
    while j < digits.len()
        invariant
            out@ == mid + digits@.take(j as int),
            j <= digits.len(),
        decreases digits.len() - j,
    {
        out.push(digits[j]);
        j = j + 1;
        assert(out@ =~= mid + digits@.take(j as int));
    }
    assert(digits@.take(j as int) =~= digits@);
    assert(out@ =~= start + padded(n as nat, width as nat));
}

fn push_year(out: &mut Vec<char>, y: i32)
    requires
        MIN_YEAR <= y <= MAX_YEAR,
    ensures
        final(out)@ == old(out)@ + year_text(y as int),
{
    if y < 0 {
        out.push('-');
        push_padded(out, (-y) as u64, 4);
        assert(final(out)@ =~= old(out)@ + year_text(y as int));
    } else if y > 9999 {
        out.push('+');
        push_padded(out, y as u64, 4);
        assert(final(out)@ =~= old(out)@ + year_text(y as int));
    } else {
        push_padded(out, y as u64, 4);
    }
}

/// Appends the decimal text of a signed integer.
pub fn push_int(out: &mut Vec<char>, i: i64)
    requires
        i > i64::MIN,
    ensures
        final(out)@ == old(out)@ + int_text(i as int),
{
    if i < 0 {
        out.push('-');
        push_decimal(out, (-i) as u64);
        assert(final(out)@ =~= old(out)@ + int_text(i as int));
    } else {
        push_decimal(out, i as u64);
    }
}

/// Relies on chrono's `NaiveDateTime::parse_from_str` with the format
/// `%Y-%m-%d %H:%M:%S`: what it reads is a valid date and time.
#[verifier::external_body]
pub(crate) fn parse_datetime(s: &str) -> (r: Option<DateTime>)
    ensures
        match r {
            Some(d) => parsed_datetime(s@) == Some(d.fields()) && d.wf(),
            None => parsed_datetime(s@) is None,
        },
{
    chrono::NaiveDateTime::parse_from_str(s, "%Y-%m-%d %H:%M:%S").ok().map(|d| DateTime {
        year: d.year(),
        month: d.month(),
        day: d.day(),
        hour: d.hour(),
        minute: d.minute(),
        second: d.second(),
    })
}

/// What chrono's strftime-style formatting makes of a date's fields with a
/// format, or `None` where it refuses the format or the fields.
pub uninterp spec fn strftime_text(fields: (int, int, int, int, int, int), fmt: Seq<char>) -> Option<Seq<char>>;

/// Relies on chrono's `NaiveDate::from_ymd_opt`, `and_hms_opt` and
/// `NaiveDateTime::format`: the text depends on the fields and the format alone.
#[verifier::external_body]
fn strftime(d: &DateTime, fmt: &str) -> (r: Option<String>)
    ensures
        match r {
            Some(t) => strftime_text(d.fields(), fmt@) == Some(t@),
            None => strftime_text(d.fields(), fmt@) is None,
        },
{
    let dt = chrono::NaiveDate::from_ymd_opt(d.year, d.month, d.day)?.and_hms_opt(d.hour, d.minute, d.second)?;
    let mut out = String::new();
    write!(out, "{}", dt.format(fmt)).ok()?;
    Some(out)
}

/// The format used when a template gives none.
pub open spec fn default_date_format() -> Seq<char> {
    "%B %d, %Y"@
}

/// Formats a `YYYY-MM-DD HH:MM:SS` date text for display with a strftime-style
/// format (by default `%B %d, %Y`). No value gives `N/A`; a value that is not
/// such a date, or a format that chrono refuses, gives `None`.
pub fn format_date(value: Option<&str>, format: Option<&str>) -> (r: Option<String>)
    ensures
        match value {
            None => r is Some && r->Some_0@ == "N/A"@,
            Some(v) => match parsed_datetime(v@) {
                None => r is None,
                Some(f) => {
                    let fmt = match format {
                        Some(x) => x@,
                        None => default_date_format(),
                    };
                    match strftime_text(f, fmt) {
                        Some(t) => r is Some && r->Some_0@ == t,
                        None => r is None,
                    }
                },
            },
        },
{
    let v = match value {
        None => {
            return Some("N/A".to_string());
        },
        Some(v) => v,
    };
    let d = match parse_datetime(v) {
        Some(d) => d,
        None => {
            return None;
        },
    };
    let fmt = match format {
        Some(x) => x,
        None => "%B %d, %Y",
    };
    strftime(&d, fmt)
}

} // verus!
