use gix_date::parse::{parse_at, parse_raw, parse_relative, parse_since_epoch, split_words, Error};
use gix_date::time::format::{
    render, Civil, CustomFormat, Format, DEFAULT, GITOXIDE, GIT_RFC2822, ISO8601,
    ISO8601_STRICT, RAW, RFC2822, SHORT, UNIX,
};
use gix_date::time::Sign;
use gix_date::Time;

fn sample() -> Time {
    Time {
        seconds: 1660797906,
        offset: 28800,
        sign: Sign::Plus,
    }
}

#[test]
fn formats_each_preset() {
    let t = sample();
    assert_eq!(t.format(Format::Custom(SHORT)), "2022-08-18");
    assert_eq!(t.format(Format::Custom(RFC2822)), "Thu, 18 Aug 2022 12:45:06 +0800");
    assert_eq!(t.format(Format::Custom(GIT_RFC2822)), "Thu, 18 Aug 2022 12:45:06 +0800");
    assert_eq!(t.format(Format::Custom(ISO8601)), "2022-08-18 12:45:06 +0800");
    assert_eq!(t.format(Format::Custom(ISO8601_STRICT)), "2022-08-18T12:45:06+08:00");
    assert_eq!(t.format(Format::Custom(GITOXIDE)), "Thu Aug 18 2022 12:45:06 +0800");
    assert_eq!(t.format(Format::Custom(DEFAULT)), "Thu Aug 18 12:45:06 2022 +0800");
    assert_eq!(t.format(UNIX), "1660797906");
    assert_eq!(t.format(RAW), "1660797906 +0800");
}

#[test]
fn formats_unpadded_day_and_negative_zone() {
    let t = Time {
        seconds: 1659329106,
        offset: 16200,
        sign: Sign::Minus,
    };
    assert_eq!(t.format(Format::Custom(GIT_RFC2822)), "Mon, 1 Aug 2022 00:15:06 -0430");
    assert_eq!(t.format(Format::Custom(DEFAULT)), "Mon Aug 1 00:15:06 2022 -0430");
    assert_eq!(t.format(Format::Custom(ISO8601_STRICT)), "2022-08-01T00:15:06-04:30");
    assert_eq!(t.format(RAW), "1659329106 -0430");
}

#[test]
fn formats_before_the_epoch() {
    let t = Time::new(-1, 0);
    assert_eq!(t.format(Format::Custom(ISO8601)), "1969-12-31 23:59:59 +0000");
    assert_eq!(t.format(UNIX), "-1");
    assert_eq!(t.format(RAW), "-1 +0000");
}

#[test]
fn formats_negative_years() {
    let t = Time::new(-377705116800, 0);
    assert_eq!(t.format(Format::Custom(SHORT)), "-9999-01-01");
}

#[test]
fn renders_given_fields() {
    let c = Civil {
        year: 5,
        month: 3,
        day: 7,
        hour: 1,
        minute: 2,
        second: 3,
        weekday: 6,
    };
    assert_eq!(render(CustomFormat::Gitoxide, &c, 3600), "Sun Mar 07 0005 01:02:03 +0100");
    assert_eq!(render(CustomFormat::Iso8601Strict, &c, -60), "0005-03-07T01:02:03-00:01");
}

#[test]
fn raw_round_trips() {
    for text in ["1660874655 +0800", "-5 -0000", "0 +2459", "1112911993 -0100"] {
        let t = parse_raw(text).unwrap();
        assert_eq!(t.to_bstring(), text);
        assert_eq!(t.format(RAW), text);
    }
}

#[test]
fn format_then_parse_is_identity() {
    let t = sample();
    for f in [ISO8601, ISO8601_STRICT, RFC2822, GITOXIDE, DEFAULT] {
        assert_eq!(gix_date::parse(&t.format(Format::Custom(f)), None).unwrap(), t);
    }
    assert_eq!(gix_date::parse(&t.format(RAW), None).unwrap(), t);
    assert_eq!(gix_date::parse(&t.format(UNIX), None).unwrap().seconds, t.seconds);
}

#[test]
fn whitespace_does_not_matter_for_raw() {
    let canonical = parse_raw("1660874655 -0800").unwrap();
    assert_eq!(parse_raw("\t1660874655 \t -0800\n").unwrap(), canonical);
    assert_eq!(split_words("  a  bc\td "), vec![vec!['a'], vec!['b', 'c'], vec!['d']]);
    assert!(split_words(" \t ").is_empty());
}

#[test]
fn relative_at_a_fixed_instant() {
    let now = 1_700_000_000;
    let two_weeks = parse_at("2 weeks ago", Some(now)).unwrap();
    assert_eq!(
        two_weeks,
        Time {
            seconds: now - 14 * 86400,
            offset: 0,
            sign: Sign::Plus,
        }
    );
    assert_eq!(parse_at("20160 minutes ago", Some(now)).unwrap(), two_weeks);
    assert_eq!(parse_at("1209600 seconds ago", Some(now)).unwrap(), two_weeks);
    assert_eq!(parse_at("336 hours ago", Some(now)).unwrap(), two_weeks);
    assert_eq!(parse_at("14 day ago", Some(now)).unwrap(), two_weeks);
    assert_eq!(parse_relative("3 hour ago", now), Some(Some(Time::new(now - 10800, 0))));
}

#[test]
fn relative_needs_a_reference() {
    assert!(matches!(
        parse_at("2 weeks ago", None),
        Err(Error::InvalidDateString { input }) if input == "2 weeks ago"
    ));
}

#[test]
fn relative_rejects_unknown_phrases() {
    for input in [
        "2 fortnights ago",
        "2 weeks",
        "weeks ago",
        "-2 weeks ago",
        "+2 weeks ago",
        "0 weeks ago",
        "2 weekss ago",
        "2 weeks ago now",
    ] {
        assert_eq!(parse_relative(input, 0), None);
    }
}

#[test]
fn relative_overflow_is_reported() {
    assert!(matches!(
        parse_at("99999999999999999999999 weeks ago", Some(0)),
        Err(Error::RelativeTimeConversion)
    ));
    assert!(matches!(
        parse_at("999999999999999 weeks ago", Some(0)),
        Err(Error::RelativeTimeConversion)
    ));
    assert_eq!(parse_relative("377705116800 seconds ago", 0), Some(Some(Time::new(-377705116800, 0))));
    assert_eq!(parse_relative("377705116801 seconds ago", 0), Some(None));
}

#[test]
fn unix_seconds_parse() {
    assert_eq!(parse_at("123456789", None).unwrap(), Time::new(123456789, 0));
    assert_eq!(parse_at("-42", None).unwrap(), Time::new(-42, 0));
    assert!(parse_at("9223372036854775808", None).is_err());
}

#[test]
fn iso_formats_parse() {
    assert_eq!(
        parse_at("2022-08-17 22:04:58 +0200", None).unwrap(),
        Time {
            seconds: 1660766698,
            offset: 7200,
            sign: Sign::Plus,
        }
    );
    assert_eq!(
        parse_at("2022-08-17T21:43:13-08:00", None).unwrap(),
        Time {
            seconds: 1660801393,
            offset: 28800,
            sign: Sign::Minus,
        }
    );
    assert_eq!(
        parse_at("Sun Sep 04 2022 10:45:06 -0400", None).unwrap(),
        Time::new(1662302706, -14400)
    );
}

#[test]
fn new_takes_the_offsets_sign() {
    assert_eq!(Time::new(1, -1).sign, Sign::Minus);
    assert_eq!(Time::new(1, 0).sign, Sign::Plus);
    assert_eq!(Time::new(1, 1).sign, Sign::Plus);
}

#[test]
fn presets_convert_into_formats() {
    let t = sample();
    assert_eq!(t.format(ISO8601.into()), t.format(Format::Custom(ISO8601)));
    assert_eq!(Format::from(SHORT), Format::Custom(CustomFormat::Short));
}

#[test]
fn doubled_sign_keeps_its_zone_in_every_format() {
    let t = parse_raw("1288373970 --700").unwrap();
    assert_eq!(
        t,
        Time {
            seconds: 1288373970,
            offset: 25200,
            sign: Sign::Minus,
        }
    );
    assert_eq!(t.format(Format::Custom(ISO8601)), "2010-10-29 10:39:30 -0700");
    assert_eq!(t.format(Format::Custom(ISO8601_STRICT)), "2010-10-29T10:39:30-07:00");
    assert_eq!(t.format(RAW), "1288373970 -0700");
    assert_eq!(gix_date::parse(&t.format(Format::Custom(ISO8601)), None).unwrap(), t);
}

#[test]
fn raw_rejects_hours_and_minutes_out_of_range() {
    assert!(parse_raw("0 +2500").is_none());
    assert!(parse_raw("0 +9959").is_none());
    assert!(parse_raw("0 +0060").is_none());
    assert_eq!(parse_raw("0 +2459").unwrap().offset, 24 * 3600 + 59 * 60);
}

#[test]
fn raw_reads_back_for_either_sign() {
    for t in [Time { seconds: 0, offset: 3600, sign: Sign::Minus }, Time::new(7, 0), Time::new(7, -60)] {
        assert_eq!(parse_raw(&t.format(RAW)).unwrap(), t);
    }
}

#[test]
fn clock_readings_are_truncated() {
    assert_eq!(parse_since_epoch("1 second ago", Some((true, 1, 500_000_000))).unwrap().seconds, -3);
    assert_eq!(parse_since_epoch("1 second ago", Some((true, 1, 0))).unwrap().seconds, -2);
    assert_eq!(parse_since_epoch("1 second ago", Some((false, 10, 999_999_999))).unwrap().seconds, 9);
    assert!(matches!(
        parse_since_epoch("1 second ago", None),
        Err(Error::InvalidDateString { .. })
    ));
}
