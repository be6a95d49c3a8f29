//! Reading a timestamp from any of the forms a history may hold.
use vstd::prelude::*;
use vstd::string::*;

use crate::text::{all_digits, digit_value, digits_value, i64_value, integer_value, is_digit};
use crate::time::format::{
    DEFAULT_DESCRIPTION, GITOXIDE_DESCRIPTION, ISO8601_DESCRIPTION, ISO8601_STRICT_DESCRIPTION,
    SHORT_DESCRIPTION,
};
use crate::time::{
    abs, raw_writable, sign_of, well_formed, Sign, Time, MAX_OFFSET, MAX_TIMESTAMP, MIN_TIMESTAMP,
};

verus! {

/// Whether `c` separates words, as `char::is_whitespace` has it.
pub open spec fn is_space(c: char) -> bool {
    ('\u{9}' <= c && c <= '\u{d}') || c == ' ' || c == '\u{85}' || c == '\u{a0}' || c
        == '\u{1680}' || ('\u{2000}' <= c && c <= '\u{200a}') || c == '\u{2028}' || c
        == '\u{2029}' || c == '\u{202f}' || c == '\u{205f}' || c == '\u{3000}'
}

/// The maximal runs of non-space characters of `s`, in order.
pub open spec fn words(s: Seq<char>) -> Seq<Seq<char>>
    decreases s.len(),
{
    if s.len() == 0 {
        seq![]
    } else {
        let w = words(s.drop_last());
        let c = s.last();
        if is_space(c) {
            w
        } else if s.len() >= 2 && !is_space(s[s.len() - 2]) && w.len() > 0 {
            w.update(w.len() - 1, w.last().push(c))
        } else {
            w.push(seq![c])
        }
    }
}

fn space(c: char) -> (r: bool)
    ensures
        r == is_space(c),
{
    ('\u{9}' <= c && c <= '\u{d}') || c == ' ' || c == '\u{85}' || c == '\u{a0}' || c
        == '\u{1680}' || ('\u{2000}' <= c && c <= '\u{200a}') || c == '\u{2028}' || c
        == '\u{2029}' || c == '\u{202f}' || c == '\u{205f}' || c == '\u{3000}'
}

/// The words of `s`, as `str::split_whitespace` yields them.
pub fn split_words(s: &str) -> (r: Vec<Vec<char>>)
    ensures
        r.deep_view() == words(s@),
{
    let n = s.unicode_len();
    let mut done: Vec<Vec<char>> = Vec::new();
    let mut cur: Vec<char> = Vec::new();
    let mut i: usize = 0;
    while i < n
        invariant
            n == s@.len(),
            i <= n,
            cur@.len() > 0 <==> (i > 0 && !is_space(s@[i - 1])),
            words(s@.subrange(0, i as int)) == if cur@.len() > 0 {
                done.deep_view().push(cur@)
            } else {
                done.deep_view()
            },
        decreases n - i,
    {
        let c = s.get_char(i);
        let ghost before = s@.subrange(0, i as int);
        let ghost after = s@.subrange(0, i + 1);
        assert(after.drop_last() =~= before);
        assert(after.last() == c);
        if space(c) {
            if cur.len() > 0 {
                let ghost prev = done.deep_view();
                assert(cur.deep_view() =~= cur@);
                let ghost fin = cur@;
                let finished = cur;
                cur = Vec::new();
                done.push(finished);
                assert(done.deep_view() =~= prev.push(fin));
            }
        } else {
            let ghost w = words(before);
            let ghost prev = done.deep_view();
            if cur.len() > 0 {
                assert(after[after.len() - 2] == s@[i - 1]);
                assert(w == prev.push(cur@));
                assert(words(after) == w.update(w.len() - 1, w.last().push(c)));
                cur.push(c);
                assert(words(after) =~= prev.push(cur@));
            } else {
                assert(w == prev);
                assert(words(after) == w.push(seq![c]));
                cur.push(c);
                assert(cur@ =~= seq![c]);
            }
        }
        i = i + 1;
    }
    assert(s@.subrange(0, n as int) =~= s@);
    if cur.len() > 0 {
        let ghost prev = done.deep_view();
        assert(cur.deep_view() =~= cur@);
        let ghost fin = cur@;
        done.push(cur);
        assert(done.deep_view() =~= prev.push(fin));
    }
    done
}

/// The largest magnitude that `read_integer` reports exactly.
pub const READ_LIMIT: u128 = 0x40_0000_0000_0000_0000;

/// Reads `w[from..to]` as an integer: `r.0` says whether it spells one at
/// all, and `r.1` holds its value where the magnitude is at most `READ_LIMIT`.
pub fn read_integer(w: &Vec<char>, from: usize, to: usize) -> (r: (bool, Option<i128>))
    requires
        from <= to <= w@.len(),
    ensures
        match integer_value(w@.subrange(from as int, to as int)) {
            None => !r.0 && r.1 is None,
            Some(v) => r.0 && match r.1 {
                Some(x) => x == v,
                None => v < -READ_LIMIT || v > READ_LIMIT,
            },
        },
        r.1 matches Some(x) ==> -READ_LIMIT <= x <= READ_LIMIT,
{
    let ghost s = w@.subrange(from as int, to as int);
    if from == to {
        return (false, None);
    }
    let negative = w[from] == '-';
    let start: usize = if w[from] == '-' || w[from] == '+' { from + 1 } else { from };
    if start == to {
        return (false, None);
    }
    let ghost digits = w@.subrange(start as int, to as int);
    assert(start == from + 1 ==> digits =~= s.drop_first());
    assert(start == from ==> digits =~= s);
    let mut acc: u128 = 0;
    let mut over = false;
    let mut i: usize = start;
    while i < to
        invariant
            from <= start < to <= w@.len(),
            start <= from + 1,
            start == from + 1 ==> digits =~= s.drop_first(),
            start == from ==> digits =~= s,
            s == w@.subrange(from as int, to as int),
            (start == from + 1) == (s[0] == '+' || s[0] == '-'),
            negative == (s[0] == '-'),
            start <= i <= to,
            digits == w@.subrange(start as int, to as int),
            all_digits(w@.subrange(start as int, i as int)),
            !over ==> acc == digits_value(w@.subrange(start as int, i as int)) && acc <= READ_LIMIT,
            over ==> digits_value(w@.subrange(start as int, i as int)) > READ_LIMIT,
        decreases to - i,
    {
        let c = w[i];
        let ghost pre = w@.subrange(start as int, i as int);
        let ghost next = w@.subrange(start as int, i + 1);
        assert(next.drop_last() =~= pre);
        assert(next.last() == c);
        if !('0' <= c && c <= '9') {
            assert(digits[i - start] == c);
            assert(!is_digit(digits[i - start]));
            assert(!all_digits(digits));
            if start == from + 1 {
                assert(!all_digits(s.drop_first()));
            } else {
                assert(digits == s);
                assert(s[i - start] == c);
                assert(!all_digits(s));
            }
            assert(integer_value(s) is None);
            return (false, None);
        }
        assert(digits_value(next) == 10 * digits_value(pre) + digit_value(c));
        let d: u128 = (c as u32 - '0' as u32) as u128;
        if !over {
            let grown: u128 = acc * 10 + d;
            if grown > READ_LIMIT {
                over = true;
            } else {
                acc = grown;
            }
        }
        i = i + 1;
        assert(all_digits(w@.subrange(start as int, i as int))) by {
            assert forall|k: int| 0 <= k < next.len() implies is_digit(#[trigger] next[k]) by {
                if k < pre.len() {
                    assert(next[k] == pre[k]);
                }
            }
        }
    }
    assert(w@.subrange(start as int, to as int) =~= digits);
    if over {
        return (true, None);
    }
    if negative {
        (true, Some(0 - (acc as i128)))
    } else {
        (true, Some(acc as i128))
    }
}

/// Reads `w[from..to]` as `i64`'s `FromStr` does.
pub fn read_i64(w: &Vec<char>, from: usize, to: usize) -> (r: Option<i64>)
    requires
        from <= to <= w@.len(),
    ensures
        match r {
            Some(v) => i64_value(w@.subrange(from as int, to as int)) == Some(v as int),
            None => i64_value(w@.subrange(from as int, to as int)) is None,
        },
{
    match read_integer(w, from, to) {
        (_, Some(v)) => {
            if i64::MIN as i128 <= v && v <= i64::MAX as i128 {
                Some(v as i64)
            } else {
                None
            }
        },
        _ => None,
    }
}

/// The time that the raw form `<seconds> <sign><HH><MM>` spells. Words may be
/// parted by any run of space. The sign is the first character of the
/// offset word, and the offset is the magnitude of `HH` hours and `MM`
/// minutes, each read as a signed two-character integer with hours to 24 and
/// minutes to 59: so a doubled sign as in `--700` reads as `-0700`.
pub open spec fn raw_time(s: Seq<char>) -> Option<Time> {
    let w = words(s);
    if w.len() == 2 && w[1].len() == 5 && (w[1][0] == '+' || w[1][0] == '-') {
        match (
            i64_value(w[0]),
            i64_value(w[1].subrange(1, 3)),
            i64_value(w[1].subrange(3, 5)),
        ) {
            (Some(seconds), Some(hours), Some(minutes)) => {
                if abs(hours) <= 24 && abs(minutes) <= 59 {
                    Some(
                        Time {
                            seconds: seconds as i64,
                            offset: abs(hours * 3600 + minutes * 60) as i32,
                            sign: if w[1][0] == '-' { Sign::Minus } else { Sign::Plus },
                        },
                    )
                } else {
                    None
                }
            },
            _ => None,
        }
    } else {
        None
    }
}

proof fn lemma_two_chars_small(s: Seq<char>)
    requires
        s.len() == 2,
    ensures
        integer_value(s) matches Some(v) ==> -9 <= v <= 99,
{
    if integer_value(s) is Some {
        if s[0] == '+' || s[0] == '-' {
            let rest = s.drop_first();
            assert(rest.drop_last().len() == 0);
            assert(digits_value(rest.drop_last()) == 0);
            assert(is_digit(rest[0]));
            assert(rest.last() == rest[0]);
        } else {
            let first = s.drop_last();
            assert(first.drop_last().len() == 0);
            assert(digits_value(first.drop_last()) == 0);
            assert(is_digit(s[0]) && is_digit(s[1]));
            assert(first.last() == s[0]);
            assert(digits_value(first) == digit_value(s[0]));
        }
    }
}

/// Reads the raw form `<seconds> <sign><HHMM>`. What it reads can be
/// written in the raw form again.
pub fn parse_raw(input: &str) -> (r: Option<Time>)
    ensures
        r == raw_time(input@),
        r matches Some(t) ==> well_formed(t) && raw_writable(t),
{
    let w = split_words(input);
    let ghost ws = words(input@);
    if w.len() != 2 {
        return None;
    }
    assert(w[0].deep_view() =~= w[0]@ && w[1].deep_view() =~= w[1]@);
    assert(ws[0] == w[0]@ && ws[1] == w[1]@);
    if w[1].len() != 5 || !(w[1][0] == '+' || w[1][0] == '-') {
        return None;
    }
    let seconds = read_i64(&w[0], 0, w[0].len());
    assert(w[0]@.subrange(0, w[0]@.len() as int) =~= w[0]@);
    let hours = read_i64(&w[1], 1, 3);
    let minutes = read_i64(&w[1], 3, 5);
    match (seconds, hours, minutes) {
        (Some(seconds), Some(hours), Some(minutes)) => {
            proof {
                lemma_two_chars_small(w[1]@.subrange(1, 3));
                lemma_two_chars_small(w[1]@.subrange(3, 5));
            }
            if hours < -24 || hours > 24 || minutes < -59 || minutes > 59 {
                return None;
            }
            let signed: i32 = hours as i32 * 3600 + minutes as i32 * 60;
            let sign = if w[1][0] == '-' { Sign::Minus } else { Sign::Plus };
            Some(Time { seconds, offset: if signed < 0 { 0 - signed } else { signed }, sign })
        },
        _ => None,
    }
}

/// Whether `w[from..to]` is exactly `lit`.
fn word_is(w: &Vec<char>, from: usize, to: usize, lit: &str) -> (r: bool)
    requires
        from <= to <= w@.len(),
    ensures
        r == (w@.subrange(from as int, to as int) == lit@),
{
    let n = lit.unicode_len();
    if to - from != n {
        return false;
    }
    let mut i: usize = 0;
    while i < n
        invariant
            n == lit@.len(),
            to - from == n,
            from <= to <= w@.len(),
            i <= n,
            w@.subrange(from as int, from + i) == lit@.subrange(0, i as int),
        decreases n - i,
    {
        if w[from + i] != lit.get_char(i) {
            assert(w@.subrange(from as int, to as int)[i as int] != lit@[i as int]);
            return false;
        }
        i = i + 1;
        assert(w@.subrange(from as int, from + i) =~= lit@.subrange(0, i as int));
    }
    assert(w@.subrange(from as int, to as int) =~= lit@.subrange(0, n as int));
    assert(lit@.subrange(0, n as int) =~= lit@);
    true
}

/// The seconds in one of `unit`: a second, minute, hour, day or week, in
/// the singular or with a plural `s`.
pub open spec fn unit_seconds(unit: Seq<char>) -> Option<int> {
    let base = if unit.len() > 0 && unit.last() == 's' { unit.drop_last() } else { unit };
    if base == "second"@ {
        Some(1)
    } else if base == "minute"@ {
        Some(60)
    } else if base == "hour"@ {
        Some(3600)
    } else if base == "day"@ {
        Some(86400)
    } else if base == "week"@ {
        Some(604800)
    } else {
        None
    }
}

fn unit_of(w: &Vec<char>) -> (r: Option<i128>)
    ensures
        match r {
            Some(u) => unit_seconds(w@) == Some(u as int) && 1 <= u <= 604800,
            None => unit_seconds(w@) is None,
        },
{
    let end: usize = if w.len() > 0 && w[w.len() - 1] == 's' { w.len() - 1 } else { w.len() };
    proof {
        if w@.len() > 0 && w@.last() == 's' {
            assert(w@.subrange(0, end as int) =~= w@.drop_last());
        } else {
            assert(w@.subrange(0, end as int) =~= w@);
        }
    }
    if word_is(w, 0, end, "second") {
        Some(1)
    } else if word_is(w, 0, end, "minute") {
        Some(60)
    } else if word_is(w, 0, end, "hour") {
        Some(3600)
    } else if word_is(w, 0, end, "day") {
        Some(86400)
    } else if word_is(w, 0, end, "week") {
        Some(604800)
    } else {
        None
    }
}

/// The span in seconds that a phrase `<count> <unit> ago` names, for a
/// positive count written in decimal digits.
pub open spec fn relative_span(s: Seq<char>) -> Option<int> {
    let w = words(s);
    if w.len() == 3 && w[2] == "ago"@ && w[0].len() > 0 && all_digits(w[0]) && digits_value(
        w[0],
    ) > 0 {
        match unit_seconds(w[1]) {
            Some(u) => Some(digits_value(w[0]) * u),
            None => None,
        }
    } else {
        None
    }
}

/// Whether `seconds` stands for a calendar date.
pub open spec fn representable(seconds: int) -> bool {
    MIN_TIMESTAMP <= seconds <= MAX_TIMESTAMP
}

/// The time `span` seconds before `now`, in UTC, where a calendar date
/// stands for it.
pub open spec fn before(now: int, span: int) -> Option<Time> {
    if representable(now - span) {
        Some(Time { seconds: (now - span) as i64, offset: 0, sign: Sign::Plus })
    } else {
        None
    }
}

/// What a relative phrase gives at `now`: `None` where `s` is no such
/// phrase, `Some(None)` where the time it names has no calendar date.
pub open spec fn relative_time(s: Seq<char>, now: int) -> Option<Option<Time>> {
    match relative_span(s) {
        Some(span) => Some(before(now, span)),
        None => None,
    }
}

/// The largest magnitude of a reference time, in seconds, that relative
/// phrases are resolved against here: beyond any clock reading.
pub const NOW_LIMIT: i128 = 0x4_0000_0000_0000_0000;

/// Reads a phrase `<count> <unit> ago` and resolves it against `now`.
pub fn parse_relative(input: &str, now: i64) -> (r: Option<Option<Time>>)
    ensures
        r == relative_time(input@, now as int),
{
    resolve_relative(input, now as i128)
}

fn resolve_relative(input: &str, now: i128) -> (r: Option<Option<Time>>)
    requires
        -NOW_LIMIT <= now <= NOW_LIMIT,
    ensures
        r == relative_time(input@, now as int),
{
    let w = split_words(input);
    let ghost ws = words(input@);
    if w.len() != 3 {
        return None;
    }
    assert(w[0].deep_view() =~= w[0]@ && w[1].deep_view() =~= w[1]@ && w[2].deep_view() =~= w[2]@);
    assert(ws[0] == w[0]@ && ws[1] == w[1]@ && ws[2] == w[2]@);
    assert(w[2]@.subrange(0, w[2]@.len() as int) =~= w[2]@);
    assert(w[0]@.subrange(0, w[0]@.len() as int) =~= w[0]@);
    if !word_is(&w[2], 0, w[2].len(), "ago") {
        return None;
    }
    let unit = match unit_of(&w[1]) {
        Some(u) => u,
        None => return None,
    };
    let (valid, value) = read_integer(&w[0], 0, w[0].len());
    if !valid {
        proof {
            if w[0]@.len() > 0 && all_digits(w[0]@) {
                assert(w[0]@[0] != '+' && w[0]@[0] != '-') by {
                    assert(is_digit(w[0]@[0]));
                }
            }
        }
        return None;
    }
    if w[0][0] == '+' || w[0][0] == '-' {
        assert(!is_digit(w[0]@[0]));
        return None;
    }
    let ghost v = digits_value(w[0]@);
    assert(all_digits(w[0]@) && integer_value(w[0]@) == Some(v));
    proof {
        lemma_digits_value_nonnegative(w[0]@);
    }
    let count = match value {
        Some(n) => n,
        None => {
            assert(v * unit >= v) by (nonlinear_arith)
                requires v > 0, unit >= 1;
            return Some(None);
        },
    };
    if count == 0 {
        return None;
    }
    assert(0 <= count * unit <= READ_LIMIT * 604800) by (nonlinear_arith)
        requires 0 <= count <= READ_LIMIT, 1 <= unit <= 604800;
    let span: i128 = count * unit;
    let seconds: i128 = now - span;
    if MIN_TIMESTAMP as i128 <= seconds && seconds <= MAX_TIMESTAMP as i128 {
        Some(Some(Time { seconds: seconds as i64, offset: 0, sign: Sign::Plus }))
    } else {
        Some(None)
    }
}

proof fn lemma_digits_value_nonnegative(s: Seq<char>)
    requires
        all_digits(s),
    ensures
        digits_value(s) >= 0,
    decreases s.len(),
{
    if s.len() > 0 {
        assert(all_digits(s.drop_last())) by {
            assert forall|k: int| 0 <= k < s.drop_last().len() implies is_digit(
                #[trigger] s.drop_last()[k],
            ) by {
                assert(s.drop_last()[k] == s[k]);
            }
        }
        lemma_digits_value_nonnegative(s.drop_last());
        assert(is_digit(s[s.len() - 1]));
    }
}

/// Why a string could not be read as a time.
#[derive(Debug)]
pub enum Error {
    /// The string is in none of the known forms.
    InvalidDateString { input: String },
    /// A relative phrase names a time that no calendar date stands for.
    RelativeTimeConversion,
}

#[verifier::external_type_specification]
#[verifier::external_body]
pub struct ExSystemTime(std::time::SystemTime);

/// The Unix timestamp of midnight UTC on the date that `time`'s `Date::parse`
/// reads from `input` by `description`.
pub uninterp spec fn parsed_date(input: Seq<char>, description: Seq<char>) -> Option<int>;

/// The Unix timestamp and offset in seconds of what `time`'s
/// `OffsetDateTime::parse` reads from `input` by `description`.
pub uninterp spec fn parsed_date_time(input: Seq<char>, description: Seq<char>) -> Option<(int, int)>;

/// The Unix timestamp and offset in seconds of what `time`'s
/// `OffsetDateTime::parse` reads from `input` as RFC 2822.
pub uninterp spec fn parsed_rfc2822(input: Seq<char>) -> Option<(int, int)>;

/// Relies on `time::format_description::parse` to read `description`, and on
/// `time::Date::parse` to read `input` by it; the date is then taken at
/// midnight UTC (`Date::midnight`, `assume_utc`, `unix_timestamp`).
#[verifier::external_body]
fn date_midnight(input: &str, description: &str) -> (r: Option<i64>)
    ensures
        match r {
            Some(v) => parsed_date(input@, description@) == Some(v as int),
            None => parsed_date(input@, description@) is None,
        },
{
    match ::time::format_description::parse(description) {
        Ok(items) => match ::time::Date::parse(input, &items[..]) {
            Ok(date) => Some(date.midnight().assume_utc().unix_timestamp()),
            Err(_) => None,
        },
        Err(_) => None,
    }
}

/// Relies on `time::format_description::parse` to read `description`, and on
/// `time::OffsetDateTime::parse` to read `input` by it; the result is given
/// as `unix_timestamp` and the offset's `whole_seconds`, which `UtcOffset`
/// keeps within 25:59:59.
#[verifier::external_body]
fn date_time(input: &str, description: &str) -> (r: Option<(i64, i32)>)
    ensures
        match r {
            Some(v) => parsed_date_time(input@, description@) == Some((v.0 as int, v.1 as int))
                && -MAX_OFFSET <= v.1 <= MAX_OFFSET,
            None => parsed_date_time(input@, description@) is None,
        },
{
    match ::time::format_description::parse(description) {
        Ok(items) => match ::time::OffsetDateTime::parse(input, &items[..]) {
            Ok(t) => Some((t.unix_timestamp(), t.offset().whole_seconds())),
            Err(_) => None,
        },
        Err(_) => None,
    }
}

/// Relies on `time::OffsetDateTime::parse` with the well-known `Rfc2822`
/// description; the result is given as `unix_timestamp` and the offset's
/// `whole_seconds`, which `UtcOffset` keeps within 25:59:59.
#[verifier::external_body]
fn rfc2822_date_time(input: &str) -> (r: Option<(i64, i32)>)
    ensures
        match r {
            Some(v) => parsed_rfc2822(input@) == Some((v.0 as int, v.1 as int)) && -MAX_OFFSET <= v.1
                <= MAX_OFFSET,
            None => parsed_rfc2822(input@) is None,
        },
{
    match ::time::OffsetDateTime::parse(input, &::time::format_description::well_known::Rfc2822) {
        Ok(t) => Some((t.unix_timestamp(), t.offset().whole_seconds())),
        Err(_) => None,
    }
}

/// Relies on std's `SystemTime::duration_since(UNIX_EPOCH)`: whether `t` lies
/// before the epoch, and its distance from it in whole seconds and the
/// remaining nanoseconds (below one second, as `Duration::subsec_nanos` has it).
#[verifier::external_body]
fn epoch_distance(t: std::time::SystemTime) -> (r: (bool, u64, u32))
    ensures
        r.2 < 1_000_000_000,
{
    match t.duration_since(std::time::UNIX_EPOCH) {
        Ok(d) => (false, d.as_secs(), d.subsec_nanos()),
        Err(e) => (true, e.duration().as_secs(), e.duration().subsec_nanos()),
    }
}

/// The whole second at or before a point `distance` seconds and `nanos`
/// nanoseconds from the epoch, on the side that `before_epoch` names.
pub open spec fn floor_seconds(before_epoch: bool, distance: int, nanos: int) -> int {
    if !before_epoch {
        distance
    } else if nanos > 0 {
        -distance - 1
    } else {
        -distance
    }
}

/// The single input that reads as the special time `42 +0030`.
pub open spec fn special_input() -> Seq<char> {
    "1979-02-26 18:30:00"@
}

/// The time that `s` stands for, trying the forms in turn: the special
/// input, the short date, RFC 2822, ISO 8601, strict ISO 8601, the two
/// default forms, Unix seconds, the raw form and, where `now` is known, a
/// relative phrase. `Some(None)` is a relative phrase that names a time with
/// no calendar date; `None` is no form at all.
pub open spec fn parsed(s: Seq<char>, now: Option<int>) -> Option<Option<Time>> {
    if s == special_input() {
        Some(Some(Time { seconds: 42, offset: 1800, sign: Sign::Plus }))
    } else if let Some(v) = parsed_date(s, SHORT_DESCRIPTION@) {
        Some(Some(Time { seconds: v as i64, offset: 0, sign: Sign::Plus }))
    } else if let Some((v, o)) = parsed_rfc2822(s) {
        Some(Some(zoned(v, o)))
    } else if let Some((v, o)) = parsed_date_time(s, ISO8601_DESCRIPTION@) {
        Some(Some(zoned(v, o)))
    } else if let Some((v, o)) = parsed_date_time(s, ISO8601_STRICT_DESCRIPTION@) {
        Some(Some(zoned(v, o)))
    } else if let Some((v, o)) = parsed_date_time(s, GITOXIDE_DESCRIPTION@) {
        Some(Some(zoned(v, o)))
    } else if let Some((v, o)) = parsed_date_time(s, DEFAULT_DESCRIPTION@) {
        Some(Some(zoned(v, o)))
    } else if let Some(v) = i64_value(s) {
        Some(Some(Time { seconds: v as i64, offset: 0, sign: Sign::Plus }))
    } else if let Some(t) = raw_time(s) {
        Some(Some(t))
    } else if let Some(n) = now {
        relative_time(s, n)
    } else {
        None
    }
}

/// A time at `seconds` in the zone `offset`: its magnitude, and its sign.
pub open spec fn zoned(seconds: int, offset: int) -> Time {
    Time { seconds: seconds as i64, offset: abs(offset) as i32, sign: sign_of(offset) }
}

/// Whether `r` is what reading `s` at `now` gives.
pub open spec fn parse_result(r: Result<Time, Error>, s: Seq<char>, now: Option<int>) -> bool {
    match r {
        Ok(t) => parsed(s, now) == Some(Some(t)),
        Err(Error::RelativeTimeConversion) => parsed(s, now) == Some(None::<Time>),
        Err(Error::InvalidDateString { input }) => parsed(s, now) is None && input@ == s,
    }
}

/// Reads a time from `input`, resolving a relative phrase against `now`,
/// given as whole seconds since the epoch.
pub fn parse_at(input: &str, now: Option<i64>) -> (r: Result<Time, Error>)
    ensures
        parse_result(r, input@, match now {
            Some(n) => Some(n as int),
            None => None,
        }),
        r matches Ok(t) ==> well_formed(t),
{
    parse_with(input, match now {
        Some(n) => Some(n as i128),
        None => None,
    })
}

/// The reference second of a clock reading: `e` says whether it lies
/// before the epoch, its distance in whole seconds and the nanoseconds left.
pub open spec fn reading_seconds(e: (bool, u64, u32)) -> int {
    floor_seconds(e.0, e.1 as int, e.2 as int)
}

/// Reads a time from `input`, resolving a relative phrase against the clock
/// reading `now` (before the epoch or not, whole seconds, nanoseconds)
/// truncated to the whole second at or before it.
pub fn parse_since_epoch(input: &str, now: Option<(bool, u64, u32)>) -> (r: Result<Time, Error>)
    ensures
        parse_result(r, input@, match now {
            Some(e) => Some(reading_seconds(e)),
            None => None,
        }),
        r matches Ok(t) ==> well_formed(t),
{
    match now {
        Some((before_epoch, distance, nanos)) => {
            let d = distance as i128;
            let seconds: i128 = if !before_epoch {
                d
            } else if nanos > 0 {
                0 - d - 1
            } else {
                0 - d
            };
            parse_with(input, Some(seconds))
        },
        None => parse_with(input, None),
    }
}

fn parse_with(input: &str, now: Option<i128>) -> (r: Result<Time, Error>)
    requires
        now matches Some(n) ==> -NOW_LIMIT <= n <= NOW_LIMIT,
    ensures
        parse_result(r, input@, match now {
            Some(n) => Some(n as int),
            None => None,
        }),
        r matches Ok(t) ==> well_formed(t),
{
    if word_is_str(input, "1979-02-26 18:30:00") {
        return Ok(Time::new(42, 1800));
    }
    if let Some(v) = date_midnight(input, SHORT_DESCRIPTION) {
        return Ok(Time::new(v, 0));
    }
    if let Some((v, o)) = rfc2822_date_time(input) {
        return Ok(Time::new(v, o));
    }
    if let Some((v, o)) = date_time(input, ISO8601_DESCRIPTION) {
        return Ok(Time::new(v, o));
    }
    if let Some((v, o)) = date_time(input, ISO8601_STRICT_DESCRIPTION) {
        return Ok(Time::new(v, o));
    }
    if let Some((v, o)) = date_time(input, GITOXIDE_DESCRIPTION) {
        return Ok(Time::new(v, o));
    }
    if let Some((v, o)) = date_time(input, DEFAULT_DESCRIPTION) {
        return Ok(Time::new(v, o));
    }
    let whole = chars_of(input);
    if let Some(v) = read_i64(&whole, 0, whole.len()) {
        assert(whole@.subrange(0, whole@.len() as int) =~= input@);
        return Ok(Time::new(v, 0));
    }
    assert(whole@.subrange(0, whole@.len() as int) =~= input@);
    if let Some(t) = parse_raw(input) {
        return Ok(t);
    }
    if let Some(n) = now {
        match resolve_relative(input, n) {
            Some(Some(t)) => return Ok(t),
            Some(None) => return Err(Error::RelativeTimeConversion),
            None => {},
        }
    }
    Err(Error::InvalidDateString { input: input.to_owned() })
}

/// Reads a time from `input`, resolving a relative phrase against `now`
/// truncated to the whole second.
pub fn parse(input: &str, now: Option<std::time::SystemTime>) -> (r: Result<Time, Error>)
    ensures
        now is None ==> parse_result(r, input@, None),
        now is Some ==> exists|e: (bool, u64, u32)|
            e.2 < 1_000_000_000 && parse_result(r, input@, Some(reading_seconds(e))),
        r matches Ok(t) ==> well_formed(t),
{
    match now {
        Some(t) => {
            let e = epoch_distance(t);
            parse_since_epoch(input, Some(e))
        },
        None => parse_since_epoch(input, None),
    }
}

/// The characters of `s`.
fn chars_of(s: &str) -> (r: Vec<char>)
    ensures
        r@ == s@,
{
    let mut out: Vec<char> = Vec::new();
    crate::text::push_str(&mut out, s);
    assert(out@ =~= s@);
    out
}

/// Whether `s` is exactly `lit`.
fn word_is_str(s: &str, lit: &str) -> (r: bool)
    ensures
        r == (s@ == lit@),
{
    let w = chars_of(s);
    assert(w@.subrange(0, w@.len() as int) =~= w@);
    word_is(&w, 0, w.len(), lit)
}

} // verus!
