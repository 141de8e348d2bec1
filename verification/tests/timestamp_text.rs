use timeclock::timestamp::{current_time, Timestamp};

#[test]
fn accepts_plain_utc_timestamp() {
    let t = Timestamp::parse("2026-01-02T03:04:05+00:00");
    assert!(t.is_some());
    assert_eq!(t.unwrap().as_string().as_str(), "2026-01-02T03:04:05+00:00");
}

#[test]
fn accepts_z_offset_and_fraction() {
    assert!(Timestamp::parse("2026-01-02T03:04:05Z").is_some());
    assert!(Timestamp::parse("2026-01-02T03:04:05.123Z").is_some());
    assert!(Timestamp::parse("2026-01-02T03:04:05.123456789+00:00").is_some());
}

#[test]
fn accepts_numeric_offsets() {
    assert!(Timestamp::parse("2026-01-02T03:04:05+05:30").is_some());
    assert!(Timestamp::parse("2026-01-02T03:04:05-23:59").is_some());
}

#[test]
fn rejects_bad_offsets() {
    assert!(Timestamp::parse("2026-01-02T03:04:05").is_none());
    assert!(Timestamp::parse("2026-01-02T03:04:05+24:00").is_none());
    assert!(Timestamp::parse("2026-01-02T03:04:05+05:60").is_none());
    assert!(Timestamp::parse("2026-01-02T03:04:05.Z").is_none());
    assert!(Timestamp::parse("2026-01-02T03:04:05+0000").is_none());
}

#[test]
fn rejects_calendar_nonsense() {
    assert!(Timestamp::parse("2026-13-02T03:04:05Z").is_none());
    assert!(Timestamp::parse("2026-00-02T03:04:05Z").is_none());
    assert!(Timestamp::parse("2026-04-31T03:04:05Z").is_none());
    assert!(Timestamp::parse("2026-01-00T03:04:05Z").is_none());
    assert!(Timestamp::parse("2026-01-02T24:04:05Z").is_none());
    assert!(Timestamp::parse("2026-01-02T03:60:05Z").is_none());
    assert!(Timestamp::parse("2026-01-02T03:04:61Z").is_none());
}

#[test]
fn leap_second_notation_is_accepted() {
    assert!(Timestamp::parse("2026-06-30T23:59:60Z").is_some());
}

#[test]
fn leap_years_decide_february() {
    assert!(Timestamp::parse("2024-02-29T00:00:00Z").is_some());
    assert!(Timestamp::parse("2023-02-29T00:00:00Z").is_none());
    assert!(Timestamp::parse("2000-02-29T00:00:00Z").is_some());
    assert!(Timestamp::parse("1900-02-29T00:00:00Z").is_none());
}

#[test]
fn accepted_text_parses_with_chrono() {
    for s in [
        "2026-01-02T03:04:05+00:00",
        "2026-01-02T03:04:05.123456789+00:00",
        "2024-02-29T23:59:59Z",
        "2026-01-02T03:04:05+05:30",
    ] {
        assert!(Timestamp::parse(s).is_some());
        assert!(chrono::DateTime::parse_from_rfc3339(s).is_ok());
    }
}

#[test]
fn chrono_now_text_is_accepted() {
    let s = chrono::Utc::now().to_rfc3339();
    assert!(Timestamp::parse(&s).is_some());
}

#[test]
fn current_time_yields_a_valid_timestamp() {
    let t = current_time();
    assert!(t.is_some());
    let t = t.unwrap();
    assert!(chrono::DateTime::parse_from_rfc3339(t.as_string().as_str()).is_ok());
}
