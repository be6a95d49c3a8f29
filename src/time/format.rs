//! The named output formats and rendering a time in them.
use vstd::prelude::*;

use crate::text::{
    decimal, four_digits, push_decimal, push_four_digits, push_signed_decimal, push_str,
    push_two_digits, signed_decimal, string_of, two_digits,
};
use crate::time::{
    abs, effective_offset, offset_text, raw_text, raw_writable, sign_of, Sign, Time, MAX_OFFSET,
    MAX_TIMESTAMP, MIN_TIMESTAMP,
};

verus! {

/// `time` description of the short date, e.g. `2018-12-24`.
pub const SHORT_DESCRIPTION: &'static str = "[year]-[month]-[day]";

/// `time` description of ISO 8601 as git writes it, e.g. `2022-08-17 22:04:58 +0200`.
pub const ISO8601_DESCRIPTION: &'static str = "[year]-[month]-[day] [hour]:[minute]:[second] [offset_hour sign:mandatory][offset_minute]";

/// `time` description of strict ISO 8601, e.g. `2022-08-17T21:43:13+08:00`.
pub const ISO8601_STRICT_DESCRIPTION: &'static str = "[year]-[month]-[day]T[hour]:[minute]:[second][offset_hour sign:mandatory]:[offset_minute]";

/// `time` description of the alternate default, e.g. `Thu Sep 04 2022 10:45:06 -0400`.
pub const GITOXIDE_DESCRIPTION: &'static str = "[weekday repr:short] [month repr:short] [day] [year] [hour]:[minute]:[second] [offset_hour sign:mandatory][offset_minute]";

/// `time` description of git's default, e.g. `Thu Sep 4 10:45:06 2022 -0400`.
pub const DEFAULT_DESCRIPTION: &'static str = "[weekday repr:short] [month repr:short] [day padding:none] [hour]:[minute]:[second] [year] [offset_hour sign:mandatory][offset_minute]";

/// A calendar format with a fixed layout.
#[derive(PartialEq, Eq, Structural, Clone, Copy, Debug)]
pub enum CustomFormat {
    /// `2018-12-24`
    Short,
    /// `Thu, 18 Aug 2022 12:45:06 +0800`
    Rfc2822,
    /// `Thu, 8 Aug 2022 12:45:06 +0800`, as `git log --pretty=%aD` writes it.
    GitRfc2822,
    /// `2022-08-17 22:04:58 +0200`
    Iso8601,
    /// `2022-08-17T21:43:13+08:00`
    Iso8601Strict,
    /// `Thu Sep 04 2022 10:45:06 -0400`: git's default with year and time swapped.
    Gitoxide,
    /// `Thu Sep 4 10:45:06 2022 -0400`, as `git log --pretty=%ad` writes it.
    GitDefault,
}

/// How a time is written.
#[derive(PartialEq, Eq, Structural, Clone, Copy, Debug)]
pub enum Format {
    /// A calendar format.
    Custom(CustomFormat),
    /// Seconds since the epoch alone, e.g. `123456789`.
    Unix,
    /// `<seconds> <sign><HHMM>`, e.g. `1660874655 +0800`.
    Raw,
}

impl From<CustomFormat> for Format {
    fn from(f: CustomFormat) -> (r: Format)
        ensures
            r == Format::Custom(f),
    {
        Format::Custom(f)
    }
}

impl vstd::std_specs::convert::FromSpecImpl<CustomFormat> for Format {
    open spec fn obeys_from_spec() -> bool {
        true
    }

    open spec fn from_spec(f: CustomFormat) -> Format {
        Format::Custom(f)
    }
}

/// E.g. `2018-12-24`
pub const SHORT: CustomFormat = CustomFormat::Short;

/// E.g. `Thu, 18 Aug 2022 12:45:06 +0800`
pub const RFC2822: CustomFormat = CustomFormat::Rfc2822;

/// E.g. `Thu, 8 Aug 2022 12:45:06 +0800`
pub const GIT_RFC2822: CustomFormat = CustomFormat::GitRfc2822;

/// E.g. `2022-08-17 22:04:58 +0200`
pub const ISO8601: CustomFormat = CustomFormat::Iso8601;

/// E.g. `2022-08-17T21:43:13+08:00`
pub const ISO8601_STRICT: CustomFormat = CustomFormat::Iso8601Strict;

/// E.g. `123456789`
pub const UNIX: Format = Format::Unix;

/// E.g. `1660874655 +0800`
pub const RAW: Format = Format::Raw;

/// E.g. `Thu Sep 04 2022 10:45:06 -0400`
pub const GITOXIDE: CustomFormat = CustomFormat::Gitoxide;

/// E.g. `Thu Sep 4 10:45:06 2022 -0400`
pub const DEFAULT: CustomFormat = CustomFormat::GitDefault;

/// The fields of a local date and time in the proleptic Gregorian calendar.
#[derive(PartialEq, Eq, Structural, Clone, Copy, Debug)]
pub struct Civil {
    pub year: i32,
    /// 1 to 12.
    pub month: u8,
    /// 1 to the length of the month.
    pub day: u8,
    pub hour: u8,
    pub minute: u8,
    pub second: u8,
    /// 0 for Monday to 6 for Sunday.
    pub weekday: u8,
}

/// Days from 1970-01-01 to the given date, counting years from March so
/// that the leap day comes last.
pub open spec fn days_from_civil(year: int, month: int, day: int) -> int {
    let y = if month <= 2 { year - 1 } else { year };
    let m = if month > 2 { month - 3 } else { month + 9 };
    365 * y + y / 4 - y / 100 + y / 400 + (153 * m + 2) / 5 + day - 1 - 719468
}

pub open spec fn is_leap_year(year: int) -> bool {
    year % 4 == 0 && (year % 100 != 0 || year % 400 == 0)
}

pub open spec fn days_in_month(year: int, month: int) -> int {
    if month == 2 {
        if is_leap_year(year) { 29 } else { 28 }
    } else if month == 4 || month == 6 || month == 9 || month == 11 {
        30
    } else {
        31
    }
}

/// Whether `c` is the calendar reading of `local`, seconds since
/// 1970-01-01 00:00:00 on the local clock.
pub open spec fn civil_matches(c: Civil, local: int) -> bool {
    &&& -9999 <= c.year <= 9999
    &&& 1 <= c.month <= 12
    &&& 1 <= c.day <= days_in_month(c.year as int, c.month as int)
    &&& c.hour < 24 && c.minute < 60 && c.second < 60
    &&& days_from_civil(c.year as int, c.month as int, c.day as int) * 86400 + c.hour * 3600
        + c.minute * 60 + c.second == local
    &&& c.weekday == (days_from_civil(c.year as int, c.month as int, c.day as int) + 3) % 7
}

/// Whether a calendar reading exists of `seconds` in the zone `offset`.
pub open spec fn has_calendar(seconds: int, offset: int) -> bool {
    &&& MIN_TIMESTAMP <= seconds <= MAX_TIMESTAMP
    &&& abs(offset) <= MAX_OFFSET
    &&& MIN_TIMESTAMP <= seconds + offset <= MAX_TIMESTAMP
}

/// Relies on `time`'s `OffsetDateTime::from_unix_timestamp`,
/// `UtcOffset::from_whole_seconds` and `OffsetDateTime::checked_to_offset`
/// for the local calendar fields of `seconds` in the zone `offset`; each
/// fails outside the range of years -9999 to 9999 and of offsets to 25:59:59.
#[verifier::external_body]
fn to_time(seconds: i64, offset: i32) -> (r: Option<Civil>)
    ensures
        r is Some <==> has_calendar(seconds as int, offset as int),
        r matches Some(c) ==> civil_matches(c, seconds + offset),
{
    let utc = ::time::OffsetDateTime::from_unix_timestamp(seconds).ok()?;
    let zone = ::time::UtcOffset::from_whole_seconds(offset).ok()?;
    let t = utc.checked_to_offset(zone)?;
    Some(Civil {
        year: t.year(),
        month: t.month() as u8,
        day: t.day(),
        hour: t.hour(),
        minute: t.minute(),
        second: t.second(),
        weekday: t.weekday().number_days_from_monday(),
    })
}

pub open spec fn weekday_name(w: int) -> Seq<char> {
    if w == 0 { "Mon"@ }
    else if w == 1 { "Tue"@ }
    else if w == 2 { "Wed"@ }
    else if w == 3 { "Thu"@ }
    else if w == 4 { "Fri"@ }
    else if w == 5 { "Sat"@ }
    else { "Sun"@ }
}

pub open spec fn month_name(m: int) -> Seq<char> {
    if m == 1 { "Jan"@ }
    else if m == 2 { "Feb"@ }
    else if m == 3 { "Mar"@ }
    else if m == 4 { "Apr"@ }
    else if m == 5 { "May"@ }
    else if m == 6 { "Jun"@ }
    else if m == 7 { "Jul"@ }
    else if m == 8 { "Aug"@ }
    else if m == 9 { "Sep"@ }
    else if m == 10 { "Oct"@ }
    else if m == 11 { "Nov"@ }
    else { "Dec"@ }
}

fn weekday_str(w: u8) -> (r: &'static str)
    ensures
        r@ == weekday_name(w as int),
{
    if w == 0 { "Mon" }
    else if w == 1 { "Tue" }
    else if w == 2 { "Wed" }
    else if w == 3 { "Thu" }
    else if w == 4 { "Fri" }
    else if w == 5 { "Sat" }
    else { "Sun" }
}

fn month_str(m: u8) -> (r: &'static str)
    ensures
        r@ == month_name(m as int),
{
    if m == 1 { "Jan" }
    else if m == 2 { "Feb" }
    else if m == 3 { "Mar" }
    else if m == 4 { "Apr" }
    else if m == 5 { "May" }
    else if m == 6 { "Jun" }
    else if m == 7 { "Jul" }
    else if m == 8 { "Aug" }
    else if m == 9 { "Sep" }
    else if m == 10 { "Oct" }
    else if m == 11 { "Nov" }
    else { "Dec" }
}

/// The year in four digits at least, with `-` before a negative one.
pub open spec fn year_text(y: int) -> Seq<char> {
    if y < 0 { seq!['-'] + four_digits(-y) } else { four_digits(y) }
}

/// `YYYY-MM-DD`
pub open spec fn date_text(c: Civil) -> Seq<char> {
    year_text(c.year as int) + "-"@ + two_digits(c.month as int) + "-"@ + two_digits(c.day as int)
}

/// `HH:MM:SS`
pub open spec fn clock_text(c: Civil) -> Seq<char> {
    two_digits(c.hour as int) + ":"@ + two_digits(c.minute as int) + ":"@ + two_digits(c.second as int)
}

/// `±HHMM`, signed as the offset is.
pub open spec fn zone_text(offset: int) -> Seq<char> {
    offset_text(sign_of(offset), offset)
}

/// `±HH:MM`, signed as the offset is.
pub open spec fn zone_text_colon(offset: int) -> Seq<char> {
    let z = zone_text(offset);
    z.subrange(0, 3) + ":"@ + z.subrange(3, 5)
}

/// The text of the calendar reading `c` at `offset` in the format `f`.
pub open spec fn rendered(f: CustomFormat, c: Civil, offset: int) -> Seq<char> {
    let wd = weekday_name(c.weekday as int);
    let mon = month_name(c.month as int);
    let year = year_text(c.year as int);
    match f {
        CustomFormat::Short => date_text(c),
        CustomFormat::Rfc2822 => wd + ", "@ + two_digits(c.day as int) + " "@ + mon + " "@ + year
            + " "@ + clock_text(c) + " "@ + zone_text(offset),
        CustomFormat::GitRfc2822 => wd + ", "@ + decimal(c.day as nat) + " "@ + mon + " "@ + year
            + " "@ + clock_text(c) + " "@ + zone_text(offset),
        CustomFormat::Iso8601 => date_text(c) + " "@ + clock_text(c) + " "@ + zone_text(offset),
        CustomFormat::Iso8601Strict => date_text(c) + "T"@ + clock_text(c) + zone_text_colon(offset),
        CustomFormat::Gitoxide => wd + " "@ + mon + " "@ + two_digits(c.day as int) + " "@ + year
            + " "@ + clock_text(c) + " "@ + zone_text(offset),
        CustomFormat::GitDefault => wd + " "@ + mon + " "@ + decimal(c.day as nat) + " "@
            + clock_text(c) + " "@ + year + " "@ + zone_text(offset),
    }
}

/// Whether `t` can be written in `f`: a calendar format needs a calendar
/// reading in the zone of the effective offset, the raw form an offset under
/// 25 hours.
pub open spec fn formattable(t: Time, f: Format) -> bool {
    match f {
        Format::Custom(_) => has_calendar(t.seconds as int, effective_offset(t)),
        Format::Unix => true,
        Format::Raw => raw_writable(t),
    }
}

/// Whether `text` is `t` written in `f`. A calendar format writes the local
/// reading in the zone of the effective offset, and that offset; the raw form
/// writes the stored sign once before the magnitude.
pub open spec fn formatted(t: Time, f: Format, text: Seq<char>) -> bool {
    match f {
        Format::Custom(p) => exists|c: Civil|
            civil_matches(c, t.seconds + effective_offset(t)) && text == rendered(
                p,
                c,
                effective_offset(t),
            ),
        Format::Unix => text == signed_decimal(t.seconds as int),
        Format::Raw => text == raw_text(t),
    }
}

fn push_year(out: &mut Vec<char>, y: i32)
    requires
        -9999 <= y <= 9999,
    ensures
        final(out)@ == old(out)@ + year_text(y as int),
{
    if y < 0 {
        out.push('-');
        push_four_digits(out, (0 - y) as u64);
        assert(final(out)@ =~= old(out)@ + year_text(y as int));
    } else {
        push_four_digits(out, y as u64);
    }
}

fn push_date(out: &mut Vec<char>, c: &Civil)
    requires
        -9999 <= c.year <= 9999,
        c.month < 100,
        c.day < 100,
    ensures
        final(out)@ == old(out)@ + date_text(*c),
{
    push_year(out, c.year);
    push_str(out, "-");
    push_two_digits(out, c.month as u64);
    push_str(out, "-");
    push_two_digits(out, c.day as u64);
    assert(final(out)@ =~= old(out)@ + date_text(*c));
}

fn push_clock(out: &mut Vec<char>, c: &Civil)
    requires
        c.hour < 100,
        c.minute < 100,
        c.second < 100,
    ensures
        final(out)@ == old(out)@ + clock_text(*c),
{
    push_two_digits(out, c.hour as u64);
    push_str(out, ":");
    push_two_digits(out, c.minute as u64);
    push_str(out, ":");
    push_two_digits(out, c.second as u64);
    assert(final(out)@ =~= old(out)@ + clock_text(*c));
}

/// Writes the calendar reading `c` at `offset` in the format `f`.
pub fn render(f: CustomFormat, c: &Civil, offset: i32) -> (r: String)
    requires
        -9999 <= c.year <= 9999,
        1 <= c.month <= 12,
        1 <= c.day <= 31,
        c.hour < 24 && c.minute < 60 && c.second < 60,
        abs(offset as int) <= MAX_OFFSET,
    ensures
        r@ == rendered(f, *c, offset as int),
{
    let zone = Time::new(0, offset);
    let mut out: Vec<char> = Vec::new();
    match f {
        CustomFormat::Short => {
            push_date(&mut out, c);
        },
        CustomFormat::Iso8601 => {
            push_date(&mut out, c);
            push_str(&mut out, " ");
            push_clock(&mut out, c);
            push_str(&mut out, " ");
            zone.push_offset(&mut out, zone.sign);
        },
        CustomFormat::Iso8601Strict => {
            push_date(&mut out, c);
            push_str(&mut out, "T");
            push_clock(&mut out, c);
            let ghost before = out@;
            let mut z: Vec<char> = Vec::new();
            zone.push_offset(&mut z, zone.sign);
            out.push(z[0]);
            out.push(z[1]);
            out.push(z[2]);
            push_str(&mut out, ":");
            out.push(z[3]);
            out.push(z[4]);
            proof {
                let zt = zone_text(offset as int);
                assert(z@ =~= zt);
                assert(out@ =~= before + zone_text_colon(offset as int));
            }
        },
        CustomFormat::Rfc2822 | CustomFormat::GitRfc2822 => {
            push_str(&mut out, weekday_str(c.weekday));
            push_str(&mut out, ", ");
            if f == CustomFormat::Rfc2822 {
                push_two_digits(&mut out, c.day as u64);
            } else {
                push_decimal(&mut out, c.day as u64);
            }
            push_str(&mut out, " ");
            push_str(&mut out, month_str(c.month));
            push_str(&mut out, " ");
            push_year(&mut out, c.year);
            push_str(&mut out, " ");
            push_clock(&mut out, c);
            push_str(&mut out, " ");
            zone.push_offset(&mut out, zone.sign);
        },
        CustomFormat::Gitoxide => {
            push_str(&mut out, weekday_str(c.weekday));
            push_str(&mut out, " ");
            push_str(&mut out, month_str(c.month));
            push_str(&mut out, " ");
            push_two_digits(&mut out, c.day as u64);
            push_str(&mut out, " ");
            push_year(&mut out, c.year);
            push_str(&mut out, " ");
            push_clock(&mut out, c);
            push_str(&mut out, " ");
            zone.push_offset(&mut out, zone.sign);
        },
        CustomFormat::GitDefault => {
            push_str(&mut out, weekday_str(c.weekday));
            push_str(&mut out, " ");
            push_str(&mut out, month_str(c.month));
            push_str(&mut out, " ");
            push_decimal(&mut out, c.day as u64);
            push_str(&mut out, " ");
            push_clock(&mut out, c);
            push_str(&mut out, " ");
            push_year(&mut out, c.year);
            push_str(&mut out, " ");
            zone.push_offset(&mut out, zone.sign);
        },
    }
    assert(out@ =~= rendered(f, *c, offset as int));
    string_of(&out)
}

impl Time {
    /// This time written in `format`.
    pub fn format(&self, format: Format) -> (r: String)
        requires
            formattable(*self, format),
        ensures
            formatted(*self, format, r@),
    {
        self.format_inner(format)
    }

    fn format_inner(&self, format: Format) -> (r: String)
        requires
            formattable(*self, format),
        ensures
            formatted(*self, format, r@),
    {
        match format {
            Format::Custom(f) => {
                let magnitude: i64 = if self.offset < 0 {
                    0 - (self.offset as i64)
                } else {
                    self.offset as i64
                };
                let offset: i64 = match self.sign {
                    Sign::Minus => 0 - magnitude,
                    Sign::Plus => magnitude,
                };
                assert(offset == effective_offset(*self));
                match to_time(self.seconds, offset as i32) {
                    Some(c) => render(f, &c, offset as i32),
                    None => {
                        assert(false);
                        String::new()
                    },
                }
            },
            Format::Unix => {
                let mut out: Vec<char> = Vec::new();
                push_signed_decimal(&mut out, self.seconds);
                assert(out@ =~= signed_decimal(self.seconds as int));
                string_of(&out)
            },
            Format::Raw => self.to_bstring(),
        }
    }
}

} // verus!
