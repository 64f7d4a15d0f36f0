use rust_iss::instant::{Instant, MAX_SECS, MIN_SECS};

fn at(secs: i64, nanos: u32) -> Instant {
    Instant { secs, nanos }
}

#[test]
fn new_accepts_the_whole_range() {
    assert_eq!(Instant::new(0, 0), Some(at(0, 0)));
    assert_eq!(Instant::new(MIN_SECS, 0), Some(at(MIN_SECS, 0)));
    assert_eq!(Instant::new(MAX_SECS, 999_999_999), Some(at(MAX_SECS, 999_999_999)));
    assert_eq!(Instant::new(MIN_SECS - 1, 0), None);
    assert_eq!(Instant::new(MAX_SECS + 1, 0), None);
    assert_eq!(Instant::new(i64::MIN, 0), None);
    assert_eq!(Instant::new(i64::MAX, 0), None);
}

#[test]
fn new_takes_a_leap_second_after_a_59th_second_only() {
    assert_eq!(Instant::new(59, 1_000_000_000), Some(at(59, 1_000_000_000)));
    assert_eq!(Instant::new(59, 1_999_999_999), Some(at(59, 1_999_999_999)));
    assert_eq!(Instant::new(58, 1_000_000_000), None);
    assert_eq!(Instant::new(60, 1_000_000_000), None);
    assert_eq!(Instant::new(59, 2_000_000_000), None);
    assert_eq!(Instant::new(0, u32::MAX), None);
    assert_eq!(Instant::new(-1, 1_500_000_000), Some(at(-1, 1_500_000_000)));
    assert_eq!(Instant::new(-2, 1_500_000_000), None);
    assert_eq!(Instant::new(MAX_SECS, 1_500_000_000), Some(at(MAX_SECS, 1_500_000_000)));
}

#[test]
fn new_agrees_with_chrono_on_what_is_representable() {
    let seconds = [
        MIN_SECS - 1,
        MIN_SECS,
        MIN_SECS + 59,
        -61,
        -60,
        -1,
        0,
        59,
        60,
        119,
        1_483_228_799,
        MAX_SECS - 60,
        MAX_SECS,
        MAX_SECS + 1,
    ];
    let nanos = [0u32, 1, 999_999_999, 1_000_000_000, 1_999_999_999, 2_000_000_000];
    for s in seconds {
        for n in nanos {
            let ours = Instant::new(s, n).is_some();
            let theirs = chrono::DateTime::from_timestamp(s, n).is_some();
            assert_eq!(ours, theirs, "secs {} nanos {}", s, n);
        }
    }
}

#[test]
fn parse_rfc3339_reads_utc() {
    assert_eq!(Instant::parse_rfc3339("2024-03-01T10:00:00Z"), Some(at(1_709_287_200, 0)));
}

#[test]
fn parse_rfc3339_applies_the_offset() {
    assert_eq!(Instant::parse_rfc3339("2024-03-01T12:00:00+02:00"), Some(at(1_709_287_200, 0)));
    assert_eq!(Instant::parse_rfc3339("2024-03-01T05:30:00-04:30"), Some(at(1_709_287_200, 0)));
}

#[test]
fn parse_rfc3339_keeps_the_fraction() {
    assert_eq!(
        Instant::parse_rfc3339("2024-03-01T10:00:00.123456789Z"),
        Some(at(1_709_287_200, 123_456_789))
    );
}

#[test]
fn parse_rfc3339_takes_a_space_for_the_separator() {
    assert_eq!(Instant::parse_rfc3339("2024-03-01 10:00:00Z"), Some(at(1_709_287_200, 0)));
}

#[test]
fn parse_rfc3339_reads_a_leap_second() {
    assert_eq!(
        Instant::parse_rfc3339("2016-12-31T23:59:60Z"),
        Some(at(1_483_228_799, 1_000_000_000))
    );
}

#[test]
fn parse_rfc3339_rejects_other_text() {
    assert_eq!(Instant::parse_rfc3339(""), None);
    assert_eq!(Instant::parse_rfc3339("yesterday"), None);
    assert_eq!(Instant::parse_rfc3339("2024-03-01 10:00:00"), None);
    assert_eq!(Instant::parse_rfc3339("2024-13-01T10:00:00Z"), None);
    assert_eq!(Instant::parse_rfc3339("1709287200"), None);
}

#[test]
fn parse_naive_reads_the_fixed_form_as_utc() {
    assert_eq!(Instant::parse_naive("2024-03-01 10:00:00"), Some(at(1_709_287_200, 0)));
    assert_eq!(Instant::parse_naive("1970-01-01 00:00:00"), Some(at(0, 0)));
    assert_eq!(Instant::parse_naive("1969-12-31 23:59:59"), Some(at(-1, 0)));
}

#[test]
fn parse_naive_rejects_other_text() {
    assert_eq!(Instant::parse_naive(""), None);
    assert_eq!(Instant::parse_naive("2024-03-01T10:00:00Z"), None);
    assert_eq!(Instant::parse_naive("2024-03-01"), None);
    assert_eq!(Instant::parse_naive("2024-02-30 10:00:00"), None);
    assert_eq!(Instant::parse_naive("2024-03-01 25:00:00"), None);
}

#[test]
fn from_epoch_counts_seconds() {
    assert_eq!(Instant::from_epoch(1_700_000_000), Some(at(1_700_000_000, 0)));
    assert_eq!(Instant::from_epoch(0), Some(at(0, 0)));
    assert_eq!(Instant::from_epoch(-1), Some(at(-1, 0)));
}

#[test]
fn from_epoch_ends_where_the_calendar_ends() {
    assert_eq!(Instant::from_epoch(MAX_SECS), Some(at(MAX_SECS, 0)));
    assert_eq!(Instant::from_epoch(MAX_SECS + 1), None);
    assert_eq!(Instant::from_epoch(MIN_SECS), Some(at(MIN_SECS, 0)));
    assert_eq!(Instant::from_epoch(MIN_SECS - 1), None);
    assert_eq!(Instant::from_epoch(i64::MAX), None);
    assert_eq!(Instant::from_epoch(i64::MIN), None);
}

#[test]
fn to_rfc3339_writes_whole_seconds_without_a_fraction() {
    assert_eq!(at(1_709_287_200, 0).to_rfc3339(), "2024-03-01T10:00:00Z");
    assert_eq!(at(0, 0).to_rfc3339(), "1970-01-01T00:00:00Z");
}

#[test]
fn to_rfc3339_writes_the_fraction_in_groups_of_three() {
    assert_eq!(at(1_709_287_200, 120_000_000).to_rfc3339(), "2024-03-01T10:00:00.120Z");
    assert_eq!(at(1_709_287_200, 123_456_000).to_rfc3339(), "2024-03-01T10:00:00.123456Z");
    assert_eq!(at(1_709_287_200, 1).to_rfc3339(), "2024-03-01T10:00:00.000000001Z");
}

#[test]
fn to_rfc3339_writes_the_ends_of_the_range() {
    assert_eq!(at(MAX_SECS, 0).to_rfc3339(), "+262142-12-31T23:59:59Z");
    assert_eq!(at(MIN_SECS, 0).to_rfc3339(), "-262143-01-01T00:00:00Z");
}

#[test]
fn to_rfc3339_writes_a_leap_second() {
    assert_eq!(at(1_483_228_799, 1_000_000_000).to_rfc3339(), "2016-12-31T23:59:60Z");
}

#[test]
fn to_rfc3339_is_read_back_by_parse_rfc3339() {
    for t in [at(0, 0), at(1_709_287_200, 5), at(-86_401, 999_000_000), at(MAX_SECS, 0)] {
        assert_eq!(Instant::parse_rfc3339(&t.to_rfc3339()), Some(t));
    }
}

#[test]
fn date_text_writes_the_utc_day() {
    assert_eq!(at(1_709_287_200, 0).date_text(0), "2024-03-01");
    assert_eq!(at(0, 0).date_text(0), "1970-01-01");
    assert_eq!(at(-1, 0).date_text(0), "1969-12-31");
    assert_eq!(at(86_399, 999_999_999).date_text(0), "1970-01-01");
    assert_eq!(at(86_400, 0).date_text(0), "1970-01-02");
}

#[test]
fn date_text_goes_back_whole_days() {
    assert_eq!(at(1_709_287_200, 0).date_text(1), "2024-02-29");
    assert_eq!(at(1_709_287_200, 0).date_text(2), "2024-02-28");
    assert_eq!(at(1_709_287_200, 0).date_text(5), "2024-02-25");
    assert_eq!(at(0, 0).date_text(1), "1969-12-31");
}

#[test]
fn date_text_reaches_the_first_day() {
    let t = at(MIN_SECS + 2 * 86_400 + 5, 0);
    assert!(t.can_reach_back(2));
    assert!(!t.can_reach_back(3));
    assert_eq!(t.date_text(2), "-262143-01-01");
}

#[test]
fn can_reach_back_refuses_what_the_calendar_lacks() {
    assert!(at(0, 0).can_reach_back(0));
    assert!(at(0, 0).can_reach_back(5));
    assert!(!at(0, 0).can_reach_back(u64::MAX));
    assert!(!at(MIN_SECS, 0).can_reach_back(1));
    assert!(at(MIN_SECS, 0).can_reach_back(0));
}

#[test]
fn millis_since_of_two_minutes() {
    assert_eq!(at(1_709_287_320, 0).millis_since(&at(1_709_287_200, 0)), 120_000);
}

#[test]
fn millis_since_is_negative_backwards() {
    assert_eq!(at(1_709_287_200, 0).millis_since(&at(1_709_287_320, 0)), -120_000);
}

#[test]
fn millis_since_of_an_instant_to_itself_is_zero() {
    assert_eq!(at(5, 7).millis_since(&at(5, 7)), 0);
}

#[test]
fn millis_since_rounds_toward_zero() {
    assert_eq!(at(0, 999_999).millis_since(&at(0, 0)), 0);
    assert_eq!(at(0, 1_000_000).millis_since(&at(0, 0)), 1);
    assert_eq!(at(0, 0).millis_since(&at(0, 999_999)), 0);
    assert_eq!(at(0, 0).millis_since(&at(0, 1_000_001)), -1);
    assert_eq!(at(1, 0).millis_since(&at(0, 999_500_000)), 0);
    assert_eq!(at(1, 500_000_000).millis_since(&at(0, 750_000_000)), 750);
    assert_eq!(at(0, 750_000_000).millis_since(&at(1, 500_000_000)), -750);
}

#[test]
fn millis_since_spans_the_whole_range() {
    let span = at(MAX_SECS, 999_999_999).millis_since(&at(MIN_SECS, 0));
    assert_eq!(span, (MAX_SECS - MIN_SECS) * 1000 + 999);
    assert_eq!(at(MIN_SECS, 0).millis_since(&at(MAX_SECS, 999_999_999)), -span);
}

#[test]
fn millis_since_agrees_with_chrono() {
    let points = [
        at(0, 0),
        at(0, 1),
        at(0, 999_999_999),
        at(1, 500_000),
        at(-1, 250_000_000),
        at(-1, 1_500_000_000),
        at(59, 1_000_000_000),
        at(59, 1_500_000_000),
        at(60, 0),
        at(179, 500_000_000),
        at(179, 1_999_999_999),
        at(86_399, 1_200_000_000),
        at(86_400, 0),
        at(86_459, 1_000_000_000),
        at(172_799, 1_000_000_001),
        at(-86_341, 1_250_000_000),
        at(1_483_228_799, 1_000_000_000),
        at(1_483_228_800, 0),
        at(1_709_287_200, 123_456_789),
        at(MIN_SECS, 0),
        at(MIN_SECS + 59, 1_999_999_999),
        at(MAX_SECS, 999_999_999),
        at(MAX_SECS, 1_999_999_999),
    ];
    for a in points {
        for b in points {
            let x = chrono::DateTime::from_timestamp(a.secs, a.nanos).unwrap();
            let y = chrono::DateTime::from_timestamp(b.secs, b.nanos).unwrap();
            assert_eq!(a.millis_since(&b), (x - y).num_milliseconds());
        }
    }
}

#[test]
fn le_orders_by_seconds_then_nanoseconds() {
    assert!(at(1, 0).le(&at(1, 0)));
    assert!(at(1, 0).le(&at(1, 1)));
    assert!(!at(1, 1).le(&at(1, 0)));
    assert!(at(0, 999_999_999).le(&at(1, 0)));
    assert!(!at(1, 0).le(&at(0, 999_999_999)));
    assert!(at(-5, 0).le(&at(0, 0)));
}

#[test]
fn now_is_representable_and_recent() {
    let t = Instant::now();
    assert_eq!(Instant::new(t.secs, t.nanos), Some(t));
    assert!(t.nanos < 1_000_000_000);
    assert!(t.secs > 1_700_000_000);
}

#[test]
fn parse_rfc3339_gives_nothing_past_the_range() {
    assert_eq!(Instant::parse_rfc3339("+262142-12-31T23:59:59-01:00"), None);
    assert_eq!(Instant::parse_rfc3339("-262143-01-01T00:00:00+01:00"), None);
    assert_eq!(
        Instant::parse_rfc3339("+262142-12-31T23:59:59Z"),
        Some(at(MAX_SECS, 0))
    );
    assert_eq!(
        Instant::parse_rfc3339("-262143-01-01T00:00:00Z"),
        Some(at(MIN_SECS, 0))
    );
}

#[test]
fn millis_since_counts_a_leap_second() {
    let older = at(59, 1_500_000_000);
    let newer = at(179, 500_000_000);
    assert_eq!(newer.millis_since(&older), 120_000);
    assert_eq!(older.millis_since(&newer), -120_000);
    assert_eq!(at(60, 0).millis_since(&at(59, 1_000_000_000)), 1_000);
    assert_eq!(at(60, 0).millis_since(&at(59, 1_999_000_000)), 1);
    assert_eq!(at(59, 1_000_000_000).millis_since(&at(59, 0)), 1_000);
}

#[test]
fn millis_since_counts_no_leap_second_at_the_same_second_of_the_day() {
    assert_eq!(at(86_459, 0).millis_since(&at(59, 1_500_000_000)), 86_398_500);
    assert_eq!(at(59, 1_500_000_000).millis_since(&at(86_459, 0)), -86_398_500);
}

#[test]
fn from_epoch_agrees_with_chrono() {
    for secs in [
        i64::MIN,
        MIN_SECS - 1,
        MIN_SECS,
        MIN_SECS + 1,
        -1,
        0,
        1,
        59,
        1_700_000_000,
        MAX_SECS - 1,
        MAX_SECS,
        MAX_SECS + 1,
        i64::MAX,
    ] {
        let theirs = chrono::TimeZone::timestamp_opt(&chrono::Utc, secs, 0)
            .single()
            .map(|t| at(t.timestamp(), t.timestamp_subsec_nanos()));
        assert_eq!(Instant::from_epoch(secs), theirs, "epoch second {}", secs);
    }
}
