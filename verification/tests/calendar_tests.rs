use backloggd_feed::calendar::{
    day_of_epoch_seconds, format_epoch_day, is_fresh, parse_iso_date, parse_iso_timestamp,
    refresh_due,
};

#[test]
fn epoch_reference_points() {
    assert_eq!(parse_iso_timestamp("1970-01-01T00:00:00Z"), Some(0));
    assert_eq!(parse_iso_timestamp("2024-01-01T12:00:00Z"), Some(1704110400));
    assert_eq!(parse_iso_timestamp("2000-02-29T23:59:59Z"), Some(951868799));
    assert_eq!(parse_iso_timestamp("1969-12-31T23:59:59Z"), Some(-1));
}

#[test]
fn leap_years_are_respected() {
    assert!(parse_iso_timestamp("2024-02-29T00:00:00Z").is_some());
    assert_eq!(parse_iso_timestamp("2023-02-29T00:00:00Z"), None);
    assert!(parse_iso_timestamp("2000-02-29T00:00:00Z").is_some());
    assert_eq!(parse_iso_timestamp("1900-02-29T00:00:00Z"), None);
}

#[test]
fn malformed_timestamps_are_rejected() {
    assert_eq!(parse_iso_timestamp(""), None);
    assert_eq!(parse_iso_timestamp("2024-01-01 12:00:00"), None);
    assert_eq!(parse_iso_timestamp("2024-01-01T12:00:00"), None);
    assert_eq!(parse_iso_timestamp("2024-13-01T00:00:00Z"), None);
    assert_eq!(parse_iso_timestamp("2024-00-01T00:00:00Z"), None);
    assert_eq!(parse_iso_timestamp("2024-01-32T00:00:00Z"), None);
    assert_eq!(parse_iso_timestamp("2024-01-00T00:00:00Z"), None);
    assert_eq!(parse_iso_timestamp("2024-01-01T24:00:00Z"), None);
    assert_eq!(parse_iso_timestamp("2024-01-01T00:60:00Z"), None);
    assert_eq!(parse_iso_timestamp("2024-01-01T00:00:60Z"), None);
    assert_eq!(parse_iso_timestamp("2024-01-01T00:00:00+00:00"), None);
}

#[test]
fn date_parsing_gives_epoch_days() {
    assert_eq!(parse_iso_date("1970-01-01"), Some(0));
    assert_eq!(parse_iso_date("1970-01-02"), Some(1));
    assert_eq!(parse_iso_date("2024-01-01"), Some(19723));
    assert_eq!(parse_iso_date("1969-12-31"), Some(-1));
    assert_eq!(parse_iso_date("2024-1-1"), None);
    assert_eq!(parse_iso_date("not a date"), None);
}

#[test]
fn freshness_window() {
    // Five minutes old against a thirty-minute window.
    assert!(is_fresh(1704110400, 1704110700, 1800));
    // Exactly at the window: stale.
    assert!(!is_fresh(1704110400, 1704112200, 1800));
    // Older than the window.
    assert!(!is_fresh(1704110400, 1704113000, 1800));
    // A timestamp from the future is fresh.
    assert!(is_fresh(1704110700, 1704110400, 1800));
}

#[test]
fn widening_the_window_only_adds_entries() {
    // A scenario of the monotonicity law: stale at 300 seconds,
    // fresh at 1800.
    assert!(!is_fresh(1704110400, 1704110700, 300));
    assert!(is_fresh(1704110400, 1704110700, 1800));
}

#[test]
fn refresh_cadence() {
    let gen = parse_iso_date("2024-01-01").unwrap();
    let before = parse_iso_date("2024-01-30").unwrap();
    let due = parse_iso_date("2024-01-31").unwrap();
    assert!(!refresh_due(gen, before)); // 29 days: not yet
    assert!(refresh_due(gen, due)); // 30 days: due
    // A generation date in the future is never due.
    let future = parse_iso_date("2024-06-01").unwrap();
    assert!(!refresh_due(future, due));
}

#[test]
fn formatting_days_round_trips() {
    assert_eq!(format_epoch_day(0).unwrap(), "1970-01-01");
    assert_eq!(format_epoch_day(19723).unwrap(), "2024-01-01");
    assert_eq!(format_epoch_day(-1).unwrap(), "1969-12-31");
    assert_eq!(format_epoch_day(19782).unwrap(), "2024-02-29");
    for day in [-719528i64, -1, 0, 59, 19723, 19782, 2932896] {
        let s = format_epoch_day(day).unwrap();
        assert_eq!(parse_iso_date(&s), Some(day));
    }
    assert!(format_epoch_day(2932897).is_none());
    assert!(format_epoch_day(-719529).is_none());
}

#[test]
fn epoch_seconds_to_days() {
    assert_eq!(day_of_epoch_seconds(0), 0);
    assert_eq!(day_of_epoch_seconds(86399), 0);
    assert_eq!(day_of_epoch_seconds(86400), 1);
    assert_eq!(day_of_epoch_seconds(1704110400), 19723);
}
