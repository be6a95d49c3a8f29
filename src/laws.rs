//! What holds across reading and writing.
use vstd::prelude::*;

use crate::parse::{is_space, raw_time, relative_span, unit_seconds, words};
use crate::text::{
    all_digits, decimal, digit, digit_value, digits_value, i64_value, integer_value, is_digit,
    signed_decimal, two_digits,
};
use crate::time::{abs, raw_text, raw_writable, well_formed, Sign, Time};

verus! {

/// Whether no character of `s` is a space.
pub open spec fn no_space(s: Seq<char>) -> bool {
    forall|i: int| 0 <= i < s.len() ==> !is_space(#[trigger] s[i])
}

proof fn lemma_words_single(a: Seq<char>)
    requires
        a.len() > 0,
        no_space(a),
    ensures
        words(a) == seq![a],
    decreases a.len(),
{
    if a.len() == 1 {
        assert(a.drop_last().len() == 0);
        assert(words(a.drop_last()) == Seq::<Seq<char>>::empty());
        assert(seq![a.last()] =~= a);
        assert(words(a) =~= seq![a]);
    } else {
        let p = a.drop_last();
        assert(no_space(p)) by {
            assert forall|i: int| 0 <= i < p.len() implies !is_space(#[trigger] p[i]) by {
                assert(p[i] == a[i]);
            }
        }
        lemma_words_single(p);
        assert(!is_space(a[a.len() - 2]));
        assert(!is_space(a.last()));
        assert(p.push(a.last()) =~= a);
        assert(words(a) =~= seq![a]);
    }
}

proof fn lemma_words_after_space(p: Seq<char>, b: Seq<char>)
    requires
        p.len() > 0,
        is_space(p.last()),
        b.len() > 0,
        no_space(b),
    ensures
        words(p + b) == words(p).push(b),
    decreases b.len(),
{
    let s = p + b;
    assert(s.drop_last() =~= p + b.drop_last());
    assert(s.last() == b.last());
    assert(!is_space(b.last()));
    if b.len() == 1 {
        assert(p + b.drop_last() =~= p);
        assert(s[s.len() - 2] == p.last());
        assert(seq![b.last()] =~= b);
    } else {
        let q = b.drop_last();
        assert(no_space(q)) by {
            assert forall|i: int| 0 <= i < q.len() implies !is_space(#[trigger] q[i]) by {
                assert(q[i] == b[i]);
            }
        }
        lemma_words_after_space(p, q);
        assert(s[s.len() - 2] == b[b.len() - 2]);
        assert(!is_space(b[b.len() - 2]));
        assert(q.push(b.last()) =~= b);
        assert(words(s) =~= words(p).push(b));
    }
}

/// The words of `a b`, two runs of non-space characters parted by one space.
proof fn lemma_two_words(a: Seq<char>, b: Seq<char>)
    requires
        a.len() > 0,
        no_space(a),
        b.len() > 0,
        no_space(b),
    ensures
        words(a + seq![' '] + b) == seq![a, b],
{
    let p = a + seq![' '];
    lemma_words_single(a);
    assert(p.drop_last() =~= a);
    assert(words(p) == words(a));
    lemma_words_after_space(p, b);
    assert(seq![a].push(b) =~= seq![a, b]);
}

/// The words of `a b c`, three runs of non-space characters parted by
/// single spaces.
proof fn lemma_three_words(a: Seq<char>, b: Seq<char>, c: Seq<char>)
    requires
        a.len() > 0,
        no_space(a),
        b.len() > 0,
        no_space(b),
        c.len() > 0,
        no_space(c),
    ensures
        words(a + seq![' '] + b + seq![' '] + c) == seq![a, b, c],
{
    let p = a + seq![' '] + b;
    lemma_two_words(a, b);
    let q = p + seq![' '];
    assert(q.drop_last() =~= p);
    lemma_words_after_space(q, c);
    assert(seq![a, b].push(c) =~= seq![a, b, c]);
}

proof fn lemma_decimal_digits(n: nat)
    ensures
        decimal(n).len() > 0,
        all_digits(decimal(n)),
        digits_value(decimal(n)) == n,
    decreases n,
{
    let d = decimal(n);
    if n < 10 {
        assert(d.drop_last().len() == 0);
        assert(digits_value(d.drop_last()) == 0);
        assert(d.last() == digit(n as int));
        assert(is_digit(d[0]));
        assert(digit_value(digit(n as int)) == n);
    } else {
        lemma_decimal_digits(n / 10);
        let r = (n % 10) as int;
        assert(d.drop_last() =~= decimal(n / 10));
        assert(d.last() == digit(r));
        assert(digit_value(digit(r)) == r);
        assert(digits_value(d) == 10 * (n / 10) + r);
        assert(all_digits(d)) by {
            assert forall|i: int| 0 <= i < d.len() implies is_digit(#[trigger] d[i]) by {
                if i < d.len() - 1 {
                    assert(d[i] == decimal(n / 10)[i]);
                }
            }
        }
    }
}

proof fn lemma_digits_no_space(s: Seq<char>)
    requires
        all_digits(s),
    ensures
        no_space(s),
{
    assert forall|i: int| 0 <= i < s.len() implies !is_space(#[trigger] s[i]) by {
        assert(is_digit(s[i]));
    }
}

/// The decimal text of `n` reads back as `n`.
proof fn lemma_signed_decimal_reads_back(n: int)
    ensures
        integer_value(signed_decimal(n)) == Some(n),
        signed_decimal(n).len() > 0,
        no_space(signed_decimal(n)),
{
    let s = signed_decimal(n);
    if n < 0 {
        lemma_decimal_digits((-n) as nat);
        assert(s.drop_first() =~= decimal((-n) as nat));
        lemma_digits_no_space(decimal((-n) as nat));
        assert forall|i: int| 0 <= i < s.len() implies !is_space(#[trigger] s[i]) by {
            if i > 0 {
                assert(s[i] == decimal((-n) as nat)[i - 1]);
            }
        }
    } else {
        lemma_decimal_digits(n as nat);
        lemma_digits_no_space(s);
        assert(is_digit(s[0]));
    }
}

proof fn lemma_two_digits_read_back(n: int)
    requires
        0 <= n < 100,
    ensures
        integer_value(two_digits(n)) == Some(n),
        all_digits(two_digits(n)),
{
    let s = two_digits(n);
    assert(digit_value(digit(n / 10)) == n / 10);
    assert(digit_value(digit(n % 10)) == n % 10);
    assert(s.drop_last() =~= seq![digit(n / 10)]);
    assert(s.drop_last().drop_last().len() == 0);
    assert(digits_value(s.drop_last().drop_last()) == 0);
    assert(s.drop_last().last() == digit(n / 10));
    assert(digits_value(s.drop_last()) == n / 10);
    assert(s.last() == digit(n % 10));
    assert(digits_value(s) == 10 * (n / 10) + n % 10);
    assert(is_digit(s[0]) && is_digit(s[1]));
}

/// Writing a time in the raw form and reading that text back gives the same
/// time, for every time that holds its offset as a magnitude of whole
/// minutes under 25 hours, with either sign.
pub proof fn raw_form_reads_back(t: Time)
    requires
        well_formed(t),
        raw_writable(t),
        t.offset % 60 == 0,
    ensures
        raw_time(raw_text(t)) == Some(t),
{
    let a = signed_decimal(t.seconds as int);
    let m = t.offset as int;
    let hours = m / 3600;
    let minutes = (m % 3600) / 60;
    let sign_c = if t.sign == Sign::Minus { '-' } else { '+' };
    let b = seq![sign_c] + two_digits(hours) + two_digits(minutes);
    assert(abs(m) == m);
    assert(raw_text(t) =~= a + seq![' '] + b);
    lemma_signed_decimal_reads_back(t.seconds as int);
    assert(0 <= hours <= 24 && 0 <= minutes <= 59);
    lemma_two_digits_read_back(hours);
    lemma_two_digits_read_back(minutes);
    assert(b.subrange(1, 3) =~= two_digits(hours));
    assert(b.subrange(3, 5) =~= two_digits(minutes));
    assert(no_space(b)) by {
        assert forall|i: int| 0 <= i < b.len() implies !is_space(#[trigger] b[i]) by {
            if i == 1 || i == 2 {
                assert(is_digit(two_digits(hours)[i - 1]));
            } else if i >= 3 {
                assert(is_digit(two_digits(minutes)[i - 3]));
            }
        }
    }
    lemma_two_words(a, b);
    assert(hours * 3600 + minutes * 60 == m) by (nonlinear_arith)
        requires
            hours == m / 3600,
            minutes == (m % 3600) / 60,
            m % 60 == 0,
            m >= 0,
    {
        assert(m == 3600 * (m / 3600) + m % 3600);
        assert(m % 3600 == 60 * ((m % 3600) / 60) + (m % 3600) % 60);
        assert((m % 3600) % 60 == 0);
    }
    assert(i64_value(b.subrange(1, 3)) == Some(hours));
}

/// The raw text `<seconds> <sign><HH><MM>` of a single sign, with hours to
/// 24 and minutes to 59, reads as a time whose raw form is that text again.
pub proof fn raw_text_round_trip(seconds: i64, negative: bool, hours: int, minutes: int)
    requires
        0 <= hours <= 24,
        0 <= minutes <= 59,
    ensures
        ({
            let text = signed_decimal(seconds as int) + seq![' ', if negative { '-' } else { '+' }]
                + two_digits(hours) + two_digits(minutes);
            raw_time(text) matches Some(t) && raw_text(t) == text
        }),
{
    let magnitude = hours * 3600 + minutes * 60;
    let sign = if negative { Sign::Minus } else { Sign::Plus };
    let t = Time { seconds, offset: magnitude as i32, sign };
    assert(magnitude / 3600 == hours && (magnitude % 3600) / 60 == minutes) by (nonlinear_arith)
        requires
            magnitude == hours * 3600 + minutes * 60,
            0 <= hours,
            0 <= minutes <= 59,
    {
        assert(0 <= minutes * 60 < 3600);
    }
    assert(magnitude % 60 == 0) by (nonlinear_arith)
        requires magnitude == hours * 3600 + minutes * 60;
    raw_form_reads_back(t);
    let text = signed_decimal(seconds as int) + seq![' ', if negative { '-' } else { '+' }]
        + two_digits(hours) + two_digits(minutes);
    assert(raw_text(t) =~= text);
}

/// Space before, after or between the words of a string does not change
/// the time its raw form reads as: strings with the same words read alike.
pub proof fn raw_form_ignores_spacing(a: Seq<char>, b: Seq<char>)
    requires
        words(a) == words(b),
    ensures
        raw_time(a) == raw_time(b),
{
}

/// Padding a string with a space on either side keeps its words.
pub proof fn padding_keeps_words(s: Seq<char>)
    ensures
        words(s + seq![' ']) == words(s),
{
    assert((s + seq![' ']).drop_last() =~= s);
}

/// The phrase `<n> <unit> ago` names a span of `n` units, for every positive
/// count written in decimal and every unit word.
pub proof fn relative_phrase_span(n: nat, unit: Seq<char>)
    requires
        n > 0,
        unit_seconds(unit) is Some,
        unit.len() > 0,
        no_space(unit),
    ensures
        relative_span(decimal(n) + seq![' '] + unit + seq![' '] + "ago"@) == Some(
            n * unit_seconds(unit)->0,
        ),
{
    reveal_strlit("ago");
    lemma_decimal_digits(n);
    lemma_digits_no_space(decimal(n));
    assert(no_space("ago"@));
    lemma_three_words(decimal(n), unit, "ago"@);
    assert(is_digit(decimal(n)[0]));
}

/// Seconds written in the Unix form read back as the same seconds.
pub proof fn unix_form_reads_back(seconds: i64)
    ensures
        i64_value(signed_decimal(seconds as int)) == Some(seconds as int),
{
    lemma_signed_decimal_reads_back(seconds as int);
}

} // verus!
