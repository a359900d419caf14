//! Publish timestamps. An RFC 2822 timestamp from the feed is parsed (by
//! chrono, behind a trusted wrapper) into a plain [`Date`] value; every
//! format the library emits is then rendered from that value by verified
//! code.

use vstd::prelude::*;

use crate::strutil::{
    push_dec, push_four_digits, push_two_digits, spec_dec, spec_four_digits, spec_two_digits,
};

use chrono::{Datelike, Timelike};

verus! {

/// A parsed publish timestamp, as plain values: calendar date, wall-clock
/// time and UTC offset.
#[derive(Clone, Copy, PartialEq, Eq, Structural, Debug)]
pub struct Date {
    /// Calendar year.
    pub year: i32,
    /// Month, `1` to `12`.
    pub month: u8,
    /// Day of month, `1` to `31`.
    pub day: u8,
    /// Day of week, `0` (Monday) to `6` (Sunday).
    pub weekday: u8,
    /// Hour, `0` to `23`.
    pub hour: u8,
    /// Minute, `0` to `59`.
    pub minute: u8,
    /// Second, `0` to `59`.
    pub second: u8,
    /// Local time minus UTC, in seconds, strictly within one day.
    pub offset_seconds: i32,
}

impl Date {
    /// Field ranges every parsed timestamp satisfies.
    pub open spec fn wf(self) -> bool {
        &&& 1 <= self.month <= 12
        &&& 1 <= self.day <= 31
        &&& self.weekday < 7
        &&& self.hour < 24
        &&& self.minute < 60
        &&& self.second < 60
        &&& -86400 < self.offset_seconds < 86400
    }
}

/// The entry's publish timestamp could not be parsed.
#[derive(Clone, Copy, PartialEq, Eq, Structural, Debug)]
pub struct DateParseError;

/// The `Date` that an RFC 2822 timestamp denotes, or `None` where the text
/// is not a valid RFC 2822 timestamp.
pub uninterp spec fn rfc2822_date(s: Seq<char>) -> Option<Date>;

/// Relies on chrono's `DateTime::parse_from_rfc2822` and the `Datelike`,
/// `Timelike` and offset accessors of the parsed value: the result is a
/// function of the text alone, and the field ranges are those chrono
/// documents (month 1–12, day 1–31, hour 0–23, minute and second 0–59,
/// weekday number 0–6, fixed offset strictly within one day of UTC).
#[verifier::external_body]
pub fn parse_rfc2822(s: &str) -> (r: Result<Date, DateParseError>)
    ensures
        r matches Ok(d) ==> rfc2822_date(s@) == Some(d) && d.wf(),
        r is Err ==> rfc2822_date(s@) is None,
{
    match chrono::DateTime::parse_from_rfc2822(s) {
        Ok(dt) => Ok(Date {
            year: dt.year(),
            month: dt.month() as u8,
            day: dt.day() as u8,
            weekday: dt.weekday().num_days_from_monday() as u8,
            hour: dt.hour() as u8,
            minute: dt.minute() as u8,
            second: dt.second() as u8,
            offset_seconds: dt.offset().local_minus_utc(),
        }),
        Err(_) => Err(DateParseError),
    }
}

// ---------------------------------------------------------------------------
// Rendering
// ---------------------------------------------------------------------------

/// The magnitude of a year: zero-padded to four digits, plain decimal
/// beyond them.
pub open spec fn spec_year_mag(n: nat) -> Seq<char> {
    if n < 10000 {
        spec_four_digits(n)
    } else {
        spec_dec(n)
    }
}

/// A signed year.
pub open spec fn spec_year(y: int) -> Seq<char> {
    if y < 0 {
        "-"@ + spec_year_mag((-y) as nat)
    } else {
        spec_year_mag(y as nat)
    }
}

/// Append the rendered year.
pub fn push_year(out: &mut String, y: i32)
    ensures
        final(out)@ == old(out)@ + spec_year(y as int),
{
    let mag: u32 = if y < 0 {
        out.append("-");
        (-(y as i64)) as u32
    } else {
        y as u32
    };
    if mag < 10000 {
        push_four_digits(out, mag);
    } else {
        push_dec(out, mag);
    }
    proof {
        assert(final(out)@ =~= old(out)@ + spec_year(y as int));
    }
}

/// The three-letter English name of weekday `w` (`0` is Monday).
pub open spec fn weekday_name(w: nat) -> Seq<char> {
    if w == 0 {
        "Mon"@
    } else if w == 1 {
        "Tue"@
    } else if w == 2 {
        "Wed"@
    } else if w == 3 {
        "Thu"@
    } else if w == 4 {
        "Fri"@
    } else if w == 5 {
        "Sat"@
    } else {
        "Sun"@
    }
}

/// The three-letter English name of month `m` (`1` is January).
pub open spec fn month_name(m: nat) -> Seq<char> {
    if m <= 1 {
        "Jan"@
    } else if m == 2 {
        "Feb"@
    } else if m == 3 {
        "Mar"@
    } else if m == 4 {
        "Apr"@
    } else if m == 5 {
        "May"@
    } else if m == 6 {
        "Jun"@
    } else if m == 7 {
        "Jul"@
    } else if m == 8 {
        "Aug"@
    } else if m == 9 {
        "Sep"@
    } else if m == 10 {
        "Oct"@
    } else if m == 11 {
        "Nov"@
    } else {
        "Dec"@
    }
}

fn weekday_name_str(w: u8) -> (r: &'static str)
    ensures
        r@ == weekday_name(w as nat),
{
    if w == 0 {
        "Mon"
    } else if w == 1 {
        "Tue"
    } else if w == 2 {
        "Wed"
    } else if w == 3 {
        "Thu"
    } else if w == 4 {
        "Fri"
    } else if w == 5 {
        "Sat"
    } else {
        "Sun"
    }
}

fn month_name_str(m: u8) -> (r: &'static str)
    ensures
        r@ == month_name(m as nat),
{
    if m <= 1 {
        "Jan"
    } else if m == 2 {
        "Feb"
    } else if m == 3 {
        "Mar"
    } else if m == 4 {
        "Apr"
    } else if m == 5 {
        "May"
    } else if m == 6 {
        "Jun"
    } else if m == 7 {
        "Jul"
    } else if m == 8 {
        "Aug"
    } else if m == 9 {
        "Sep"
    } else if m == 10 {
        "Oct"
    } else if m == 11 {
        "Nov"
    } else {
        "Dec"
    }
}

/// The human-readable title form of a date: short weekday, zero-padded
/// day, short month, year, 24-hour time to the minute.
pub open spec fn spec_title_date(d: Date) -> Seq<char> {
    weekday_name(d.weekday as nat) + " "@ + spec_two_digits(d.day as nat) + " "@ + month_name(
        d.month as nat,
    ) + " "@ + spec_year(d.year as int) + " "@ + spec_two_digits(d.hour as nat) + ":"@
        + spec_two_digits(d.minute as nat)
}

/// The sign and `hh:mm` rendering of a UTC offset given in seconds.
pub open spec fn spec_offset(offset_seconds: int) -> Seq<char> {
    let mag = if offset_seconds < 0 {
        (-offset_seconds) as nat
    } else {
        offset_seconds as nat
    };
    let sign = if offset_seconds < 0 {
        "-"@
    } else {
        "+"@
    };
    sign + spec_two_digits(mag / 3600) + ":"@ + spec_two_digits((mag % 3600) / 60)
}

/// The extended ISO 8601 form of a date, to the second, with UTC offset.
pub open spec fn spec_formal_date(d: Date) -> Seq<char> {
    spec_year(d.year as int) + "-"@ + spec_two_digits(d.month as nat) + "-"@ + spec_two_digits(
        d.day as nat,
    ) + "T"@ + spec_two_digits(d.hour as nat) + ":"@ + spec_two_digits(d.minute as nat) + ":"@
        + spec_two_digits(d.second as nat) + spec_offset(d.offset_seconds as int)
}

/// The `YYYY-MM-DD` form of a date, as used in file names.
pub open spec fn spec_filename_date(d: Date) -> Seq<char> {
    spec_year(d.year as int) + "-"@ + spec_two_digits(d.month as nat) + "-"@ + spec_two_digits(
        d.day as nat,
    )
}

/// Render the title form of `d`.
pub fn format_title_date(d: &Date) -> (r: String)
    requires
        d.wf(),
    ensures
        r@ == spec_title_date(*d),
{
    let mut out = String::new();
    out.append(weekday_name_str(d.weekday));
    out.append(" ");
    push_two_digits(&mut out, d.day as u32);
    out.append(" ");
    out.append(month_name_str(d.month));
    out.append(" ");
    push_year(&mut out, d.year);
    out.append(" ");
    push_two_digits(&mut out, d.hour as u32);
    out.append(":");
    push_two_digits(&mut out, d.minute as u32);
    proof {
        assert(out@ =~= spec_title_date(*d));
    }
    out
}

/// Render the extended ISO 8601 form of `d`.
pub fn format_formal_date(d: &Date) -> (r: String)
    requires
        d.wf(),
    ensures
        r@ == spec_formal_date(*d),
{
    let mut out = String::new();
    push_year(&mut out, d.year);
    out.append("-");
    push_two_digits(&mut out, d.month as u32);
    out.append("-");
    push_two_digits(&mut out, d.day as u32);
    out.append("T");
    push_two_digits(&mut out, d.hour as u32);
    out.append(":");
    push_two_digits(&mut out, d.minute as u32);
    out.append(":");
    push_two_digits(&mut out, d.second as u32);
    let mag: u32 = if d.offset_seconds < 0 {
        out.append("-");
        (-(d.offset_seconds as i64)) as u32
    } else {
        out.append("+");
        d.offset_seconds as u32
    };
    push_two_digits(&mut out, mag / 3600);
    out.append(":");
    push_two_digits(&mut out, (mag % 3600) / 60);
    proof {
        assert(out@ =~= spec_formal_date(*d));
    }
    out
}

/// Render the `YYYY-MM-DD` form of `d`.
pub fn format_filename_date(d: &Date) -> (r: String)
    requires
        d.wf(),
    ensures
        r@ == spec_filename_date(*d),
{
    let mut out = String::new();
    push_year(&mut out, d.year);
    out.append("-");
    push_two_digits(&mut out, d.month as u32);
    out.append("-");
    push_two_digits(&mut out, d.day as u32);
    proof {
        assert(out@ =~= spec_filename_date(*d));
    }
    out
}

} // verus!
