use ferro_core::logging::format_utc_datetime;

#[test]
fn formats_a_known_unix_timestamp_as_utc() {
    // 2024-01-02 03:04:05 UTC
    assert_eq!(format_utc_datetime(1704164645), "2024-01-02 03:04:05");
}

#[test]
fn clamps_negative_timestamps_to_the_epoch() {
    assert_eq!(format_utc_datetime(-100), "1970-01-01 00:00:00");
}
