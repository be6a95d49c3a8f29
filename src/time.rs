//! The timestamp value and its raw serialization.
use vstd::prelude::*;

use crate::text::{push_signed_decimal, push_two_digits, signed_decimal, string_of, two_digits};

pub mod format;

verus! {

/// The sign of a zone offset, kept apart from its magnitude.
#[derive(PartialEq, Eq, Structural, Clone, Copy, Debug)]
pub enum Sign {
    Plus,
    Minus,
}

/// A point in time with the zone it was recorded in.
#[derive(PartialEq, Eq, Structural, Clone, Copy, Debug)]
pub struct Time {
    /// Seconds since the Unix epoch; negative before it.
    pub seconds: i64,
    /// The magnitude of the zone's offset from UTC in seconds.
    pub offset: i32,
    /// The sign of the zone's offset, kept apart from its magnitude.
    pub sign: Sign,
}

/// The first second that calendar dates can stand for: -9999-01-01 00:00:00 UTC.
pub const MIN_TIMESTAMP: i64 = -377705116800;

/// The last second that calendar dates can stand for: 9999-12-31 23:59:59 UTC.
pub const MAX_TIMESTAMP: i64 = 253402300799;

/// The largest magnitude of a zone offset in seconds: 25:59:59.
pub const MAX_OFFSET: i32 = 93599;

/// The sign that an offset implies: `Minus` for a negative one.
pub open spec fn sign_of(offset: int) -> Sign {
    if offset < 0 { Sign::Minus } else { Sign::Plus }
}

/// The character that writes `sign`.
pub open spec fn sign_char(sign: Sign) -> char {
    match sign {
        Sign::Plus => '+',
        Sign::Minus => '-',
    }
}

/// The magnitude of `n`.
pub open spec fn abs(n: int) -> int {
    if n < 0 { -n } else { n }
}

/// `±HHMM`: `sign`, then the whole hours and the remaining whole minutes of
/// the magnitude of `offset`.
pub open spec fn offset_text(sign: Sign, offset: int) -> Seq<char> {
    seq![sign_char(sign)] + two_digits(abs(offset) / 3600) + two_digits((abs(offset) % 3600) / 60)
}

/// The zone's true offset in seconds: the magnitude of `offset`, negated
/// where `sign` is `Minus`.
pub open spec fn effective_offset(t: Time) -> int {
    if t.sign == Sign::Minus { -abs(t.offset as int) } else { abs(t.offset as int) }
}

/// Whether `t` holds its offset as a magnitude, as every reading gives it.
pub open spec fn well_formed(t: Time) -> bool {
    t.offset >= 0
}

/// The raw form `<seconds> <sign><HHMM>`, signed by the stored sign.
pub open spec fn raw_text(t: Time) -> Seq<char> {
    signed_decimal(t.seconds as int) + seq![' '] + offset_text(t.sign, t.offset as int)
}

/// Whether the raw form can write the offset: under 25 hours.
pub open spec fn raw_writable(t: Time) -> bool {
    abs(t.offset as int) < 25 * 3600
}

impl Time {
    /// A time at `seconds` in the zone `offset`: the offset's magnitude, with
    /// its sign kept apart.
    pub fn new(seconds: i64, offset: i32) -> (r: Time)
        requires
            offset > i32::MIN,
        ensures
            r == (Time { seconds, offset: abs(offset as int) as i32, sign: sign_of(offset as int) }),
            well_formed(r),
            effective_offset(r) == offset,
    {
        if offset < 0 {
            Time { seconds, offset: 0 - offset, sign: Sign::Minus }
        } else {
            Time { seconds, offset, sign: Sign::Plus }
        }
    }

    /// The raw serialization `<seconds> <sign><HHMM>`. The sign written is the
    /// stored sign, once, whatever sign the offset value carries.
    pub fn to_bstring(&self) -> (r: String)
        requires
            raw_writable(*self),
        ensures
            r@ == raw_text(*self),
    {
        let mut out: Vec<char> = Vec::new();
        push_signed_decimal(&mut out, self.seconds);
        out.push(' ');
        self.push_offset(&mut out, self.sign);
        assert(out@ =~= raw_text(*self));
        string_of(&out)
    }

    /// Appends `±HHMM` for the offset, with `sign` in front.
    pub(crate) fn push_offset(&self, out: &mut Vec<char>, sign: Sign)
        requires
            abs(self.offset as int) < 100 * 3600,
        ensures
            final(out)@ == old(out)@ + offset_text(sign, self.offset as int),
    {
        out.push(match sign {
            Sign::Plus => '+',
            Sign::Minus => '-',
        });
        let magnitude: u64 = if self.offset < 0 {
            (0 - (self.offset as i64)) as u64
        } else {
            self.offset as u64
        };
        push_two_digits(out, magnitude / 3600);
        push_two_digits(out, (magnitude % 3600) / 60);
        assert(final(out)@ =~= old(out)@ + offset_text(sign, self.offset as int));
    }
}

} // verus!
