use resident_alarms::{
    elapsed_secs, normalize_rfc3339, report_window, DateTimeStr, ResidentError, Window,
};

#[test]
fn date_alone_is_midnight_utc() {
    assert_eq!(DateTimeStr::Str("1970-01-02").to_millis(), Ok(86_400_000));
}

#[test]
fn date_time_without_zone_is_utc() {
    assert_eq!(DateTimeStr::Str("1970-01-01T00:00:01").to_millis(), Ok(1_000));
    assert_eq!(
        DateTimeStr::String("2020-01-01T10:00:00".to_string()).to_millis(),
        DateTimeStr::Str("2020-01-01T10:00:00Z").to_millis()
    );
}

#[test]
fn date_time_with_offset_is_kept() {
    assert_eq!(DateTimeStr::Str("1970-01-01T01:00:00+01:00").to_millis(), Ok(0));
    assert_eq!(DateTimeStr::Str("1970-01-01T00:00:00.250Z").to_millis(), Ok(250));
    assert_eq!(DateTimeStr::Str("1970-01-01T00:00:02z").to_millis(), Ok(2_000));
}

#[test]
fn read_instant_is_passed_through() {
    assert_eq!(DateTimeStr::DateTime(-5).to_millis(), Ok(-5));
}

#[test]
fn malformed_date_is_refused() {
    assert_eq!(DateTimeStr::Str("yesterday").to_millis(), Err(ResidentError::MalformedInput));
    assert_eq!(DateTimeStr::Str("2020-13-45").to_millis(), Err(ResidentError::MalformedInput));
}

#[test]
fn normalization_completes_the_text() {
    assert_eq!(normalize_rfc3339("2020-01-01"), "2020-01-01T00:00:00Z");
    assert_eq!(normalize_rfc3339("2020-01-01T10:00:00"), "2020-01-01T10:00:00Z");
    assert_eq!(normalize_rfc3339("2020-01-01T10:00:00Z"), "2020-01-01T10:00:00Z");
    assert_eq!(normalize_rfc3339("2020-01-01T10:00:00z"), "2020-01-01T10:00:00z");
    assert_eq!(normalize_rfc3339("2020-01-01T10:00:00-05:00"), "2020-01-01T10:00:00-05:00");
}

#[test]
fn report_window_spans_whole_days() {
    assert_eq!(report_window("1970-01-01", "1970-01-01"), Ok(Window { from: 0, to: 86_399_999 }));
    assert_eq!(
        report_window("1970-01-02", "1970-01-03"),
        Ok(Window { from: 86_400_000, to: 3 * 86_400_000 - 1 })
    );
    assert_eq!(report_window("bad", "1970-01-01"), Err(ResidentError::MalformedInput));
}

#[test]
fn elapsed_whole_seconds_clamped_at_zero() {
    assert_eq!(elapsed_secs(5_500, 1_000), 4);
    assert_eq!(elapsed_secs(1_000, 1_000), 0);
    assert_eq!(elapsed_secs(0, 1_000), 0);
    assert_eq!(elapsed_secs(i64::MAX, i64::MIN), (u64::MAX / 1000));
}
