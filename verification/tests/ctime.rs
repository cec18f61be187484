use chrono::{DateTime, TimeDelta, Utc};
use klog::ctime::{CTime, ParseError, Unit};
use klog::utc_time::{UtcTime, MAX_DELTA_SECS, MAX_SECS, MIN_SECS};

fn instant_of(t: DateTime<Utc>) -> UtcTime {
    UtcTime { secs: t.timestamp(), nanos: t.timestamp_subsec_nanos() }
}

fn at(secs: i64, nanos: u32) -> UtcTime {
    UtcTime { secs, nanos }
}

#[test]
fn test_valid_before() {
    let ctime = CTime::from_str("a12h");
    assert!(ctime.is_ok());
    assert!(instant_of(Utc::now()).cmp(ctime.unwrap().as_ref()).is_gt())
}

#[test]
fn test_valid_after() {
    let ctime = CTime::from_str("a+12h");
    assert!(ctime.is_ok());
    assert!(instant_of(Utc::now()).cmp(ctime.unwrap().as_ref()).is_lt())
}

#[test]
fn test_invalid_char_at_beginning() {
    let ctime = CTime::from_str("a-13h");
    assert!(ctime.is_err());
}

#[test]
fn test_invalid_measurement() {
    let ctime = CTime::from_str("a12x");
    assert!(ctime.is_err());
}

#[test]
fn test_invalid_numeric() {
    let ctime = CTime::from_str("a1h2h");
    assert!(ctime.is_err());
}

#[test]
fn calendar_bounds_are_those_of_chrono() {
    assert_eq!(DateTime::<Utc>::MIN_UTC.timestamp(), MIN_SECS);
    assert_eq!(DateTime::<Utc>::MAX_UTC.timestamp(), MAX_SECS);
    assert_eq!(TimeDelta::MAX.num_seconds(), MAX_DELTA_SECS);
    assert!(TimeDelta::try_seconds(MAX_DELTA_SECS).is_some());
    assert!(TimeDelta::try_seconds(MAX_DELTA_SECS + 1).is_none());
}

#[test]
fn before_without_sign_lies_in_the_past() {
    let now = at(1_700_000_000, 123_456_789);
    assert_eq!(CTime::parse_at("b5s", now), Ok(CTime::Before(at(1_699_999_995, 123_456_789))));
    assert_eq!(CTime::parse_at("b2m", now), Ok(CTime::Before(at(1_699_999_880, 123_456_789))));
    assert_eq!(CTime::parse_at("b12h", now), Ok(CTime::Before(at(1_699_956_800, 123_456_789))));
    assert_eq!(CTime::parse_at("b3d", now), Ok(CTime::Before(at(1_699_740_800, 123_456_789))));
}

#[test]
fn after_with_plus_lies_in_the_future() {
    let now = at(1_700_000_000, 0);
    assert_eq!(CTime::parse_at("a+5s", now), Ok(CTime::After(at(1_700_000_005, 0))));
    assert_eq!(CTime::parse_at("a+2m", now), Ok(CTime::After(at(1_700_000_120, 0))));
    assert_eq!(CTime::parse_at("a+12h", now), Ok(CTime::After(at(1_700_043_200, 0))));
    assert_eq!(CTime::parse_at("a+3d", now), Ok(CTime::After(at(1_700_259_200, 0))));
}

#[test]
fn sign_and_direction_are_independent() {
    let now = at(1_000, 7);
    assert_eq!(CTime::parse_at("a10s", now), Ok(CTime::After(at(990, 7))));
    assert_eq!(CTime::parse_at("b+10s", now), Ok(CTime::Before(at(1_010, 7))));
    assert_eq!(CTime::parse_at("b0s", now), Ok(CTime::Before(now)));
    assert_eq!(CTime::parse_at("a007m", now), Ok(CTime::After(at(580, 7))));
}

#[test]
fn anchor_crosses_the_epoch() {
    let now = at(30, 999_999_999);
    assert_eq!(CTime::parse_at("b1m", now), Ok(CTime::Before(at(-30, 999_999_999))));
}

#[test]
fn malformed_expressions_are_refused() {
    let now = at(1_700_000_000, 0);
    for text in ["12x", "1h2h", "-13h", "a-13h", "a12x", "a1h2h", "", "a", "ah", "a+h", "a+", "12h",
        "a12", "a12h ", " a12h", "a12h\n", "A12h", "a12H", "a1.5h", "a++1h", "a+-1h", "c12h",
        "a12w", "a１２h", "ab12h", "a12hh"]
    {
        assert_eq!(CTime::parse_at(text, now), Err(ParseError::Format), "{text:?}");
        assert_eq!(CTime::from_str(text), Err(ParseError::Format), "{text:?}");
    }
}

#[test]
fn comma_is_no_direction_and_no_unit() {
    let now = at(1_700_000_000, 0);
    for text in ["a12,", ",12,", ",12h", ",+12h", "b+7,", ",9223372036854775808,"] {
        assert_eq!(CTime::parse_at(text, now), Err(ParseError::Format), "{text:?}");
        assert_eq!(CTime::from_str(text), Err(ParseError::Format), "{text:?}");
    }
}

#[test]
fn amounts_out_of_range_are_refused() {
    let now = at(1_700_000_000, 0);
    // more than an i64 holds
    assert_eq!(CTime::parse_at("a9223372036854775808s", now), Err(ParseError::OutOfRange));
    assert_eq!(CTime::parse_at("b99999999999999999999999h", now), Err(ParseError::OutOfRange));
    // more than a span holds
    assert_eq!(CTime::parse_at("a9223372036854775807s", now), Err(ParseError::OutOfRange));
    assert_eq!(CTime::parse_at("a9223372036854776s", now), Err(ParseError::OutOfRange));
    assert_eq!(CTime::parse_at("a153722867280913m", now), Err(ParseError::OutOfRange));
    assert_eq!(CTime::parse_at("a2562047788016h", now), Err(ParseError::OutOfRange));
    assert_eq!(CTime::parse_at("a106751991168d", now), Err(ParseError::OutOfRange));
    // a span that fits, to an instant that the calendar lacks
    assert_eq!(CTime::parse_at("a9223372036854775s", now), Err(ParseError::OutOfRange));
    assert_eq!(CTime::parse_at("a+9223372036854775s", now), Err(ParseError::OutOfRange));
    assert_eq!(CTime::parse_at("a153722867280912m", now), Err(ParseError::OutOfRange));
    assert_eq!(CTime::parse_at("a2562047788015h", now), Err(ParseError::OutOfRange));
    assert_eq!(CTime::parse_at("a+106751991167d", now), Err(ParseError::OutOfRange));
}

#[test]
fn anchors_reach_the_ends_of_the_calendar() {
    let now = at(0, 5);
    let back = format!("b{}s", -MIN_SECS);
    assert_eq!(CTime::parse_at(&back, now), Ok(CTime::Before(at(MIN_SECS, 5))));
    let too_far_back = format!("b{}s", -MIN_SECS + 1);
    assert_eq!(CTime::parse_at(&too_far_back, now), Err(ParseError::OutOfRange));
    let forward = format!("a+{}s", MAX_SECS);
    assert_eq!(CTime::parse_at(&forward, now), Ok(CTime::After(at(MAX_SECS, 5))));
    let too_far_forward = format!("a+{}s", MAX_SECS + 1);
    assert_eq!(CTime::parse_at(&too_far_forward, now), Err(ParseError::OutOfRange));
}

#[test]
fn anchor_is_what_chrono_computes() {
    let start = DateTime::from_timestamp(1_700_000_000, 250).unwrap();
    let now = instant_of(start);
    let earlier = start.checked_sub_signed(TimeDelta::hours(36)).unwrap();
    assert_eq!(CTime::parse_at("b36h", now), Ok(CTime::Before(instant_of(earlier))));
    let later = start.checked_add_signed(TimeDelta::days(400)).unwrap();
    assert_eq!(CTime::parse_at("a+400d", now), Ok(CTime::After(instant_of(later))));
}

#[test]
fn from_str_reads_the_clock() {
    let before = instant_of(Utc::now());
    let parsed = CTime::from_str("b0s").unwrap();
    let after = instant_of(Utc::now());
    assert!(matches!(parsed, CTime::Before(_)));
    assert!(before <= *parsed.as_ref() && *parsed.as_ref() <= after);
    assert!(parsed.as_ref().is_representable());
}

#[test]
fn unreadable_clock_refuses_every_expression() {
    assert_eq!(CTime::parse_by("b1h", None), Err(ParseError::OutOfRange));
    assert_eq!(CTime::parse_by("a+0s", None), Err(ParseError::OutOfRange));
    assert_eq!(CTime::parse_by("a99999999999999999999d", None), Err(ParseError::OutOfRange));
    for text in ["12x", "1h2h", "-13h", "a-13h", "", ",12h", "a12,"] {
        assert_eq!(CTime::parse_by(text, None), Err(ParseError::Format), "{text:?}");
    }
    let now = at(1_700_000_000, 9);
    assert_eq!(CTime::parse_by("b1h", Some(now)), Ok(CTime::Before(at(1_699_996_400, 9))));
    assert_eq!(CTime::parse_by("b1h", Some(now)), CTime::parse_at("b1h", now));
    assert_eq!(CTime::parse_by("1h", Some(now)), Err(ParseError::Format));
}

#[test]
fn is_valid_compares_with_the_anchor() {
    let anchor = at(100, 500);
    let before = CTime::Before(anchor);
    let after = CTime::After(anchor);
    assert!(before.is_valid(&at(99, 999_999_999)));
    assert!(before.is_valid(&at(100, 499)));
    assert!(before.is_valid(&anchor));
    assert!(!before.is_valid(&at(100, 501)));
    assert!(!before.is_valid(&at(101, 0)));
    assert!(after.is_valid(&at(101, 0)));
    assert!(after.is_valid(&at(100, 501)));
    assert!(after.is_valid(&anchor));
    assert!(!after.is_valid(&at(100, 499)));
    assert!(!after.is_valid(&at(99, 999_999_999)));
    assert_eq!(*before.as_ref(), anchor);
    assert_eq!(*after.as_ref(), anchor);
}

#[test]
fn instants_are_ordered_as_chrono_orders_them() {
    let stamps = [(-5i64, 0u32), (-5, 999_999_999), (0, 0), (0, 1), (59, 1_500_000_000), (60, 0)];
    for a in stamps {
        for b in stamps {
            let x = DateTime::from_timestamp(a.0, a.1).unwrap();
            let y = DateTime::from_timestamp(b.0, b.1).unwrap();
            assert_eq!(instant_of(x).is_at_or_before(&instant_of(y)), x <= y);
            assert_eq!(instant_of(x).cmp(&instant_of(y)), x.cmp(&y));
        }
    }
}

#[test]
fn units_and_their_spans() {
    assert_eq!(Unit::from_letter('s'), Some(Unit::Seconds));
    assert_eq!(Unit::from_letter('m'), Some(Unit::Minutes));
    assert_eq!(Unit::from_letter('h'), Some(Unit::Hours));
    assert_eq!(Unit::from_letter('d'), Some(Unit::Days));
    assert_eq!(Unit::from_letter(','), None);
    assert_eq!(Unit::from_letter('S'), None);
    assert_eq!(Unit::Seconds.span(7), Some(7));
    assert_eq!(Unit::Minutes.span(7), Some(420));
    assert_eq!(Unit::Hours.span(7), Some(25_200));
    assert_eq!(Unit::Days.span(7), Some(604_800));
    assert_eq!(Unit::Days.span(-7), Some(-604_800));
    assert_eq!(Unit::Seconds.span(MAX_DELTA_SECS), Some(MAX_DELTA_SECS));
    assert_eq!(Unit::Seconds.span(-MAX_DELTA_SECS), Some(-MAX_DELTA_SECS));
    assert_eq!(Unit::Seconds.span(MAX_DELTA_SECS + 1), None);
    assert_eq!(Unit::Seconds.span(-MAX_DELTA_SECS - 1), None);
    assert_eq!(Unit::Minutes.span(153_722_867_280_912), Some(9_223_372_036_854_720));
    assert_eq!(Unit::Minutes.span(153_722_867_280_913), None);
    assert_eq!(Unit::Hours.span(2_562_047_788_015), Some(9_223_372_036_854_000));
    assert_eq!(Unit::Hours.span(2_562_047_788_016), None);
    assert_eq!(Unit::Days.span(106_751_991_167), Some(9_223_372_036_828_800));
    assert_eq!(Unit::Days.span(106_751_991_168), None);
    assert_eq!(Unit::Days.span(i64::MAX), None);
    assert_eq!(Unit::Days.span(i64::MIN), None);
}
