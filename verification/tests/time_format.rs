use clawscope::digits::u64_to_decimal;
use clawscope::time::format_relative_time;
use clawscope::time::is_active;

#[test]
fn active_within_five_minutes() {
    assert!(is_active(0, 0));
    assert!(is_active(0, 299999));
    assert!(is_active(700_000, 999_999));
}

#[test]
fn inactive_at_exactly_five_minutes() {
    assert!(!is_active(0, 300000));
    assert!(!is_active(0, 300001));
    assert!(!is_active(100, 500_000));
}

#[test]
fn future_timestamp_is_active() {
    assert!(is_active(1000, 0));
    assert!(is_active(i64::MAX, i64::MIN));
}

#[test]
fn relative_time_just_now() {
    assert_eq!(format_relative_time(0, 0), "just now");
    assert_eq!(format_relative_time(0, 5000), "just now");
    assert_eq!(format_relative_time(0, 5999), "just now");
}

#[test]
fn relative_time_future_is_just_now() {
    assert_eq!(format_relative_time(1000, 0), "just now");
    assert_eq!(format_relative_time(i64::MAX, 0), "just now");
}

#[test]
fn relative_time_seconds() {
    assert_eq!(format_relative_time(0, 6000), "6 seconds ago");
    assert_eq!(format_relative_time(0, 59999), "59 seconds ago");
    assert_eq!(format_relative_time(1_000_000, 1_030_000), "30 seconds ago");
}

#[test]
fn relative_time_minutes() {
    assert_eq!(format_relative_time(0, 60000), "1 minute ago");
    assert_eq!(format_relative_time(0, 119999), "1 minute ago");
    assert_eq!(format_relative_time(0, 125000), "2 minutes ago");
    assert_eq!(format_relative_time(0, 3599999), "59 minutes ago");
}

#[test]
fn relative_time_hours() {
    assert_eq!(format_relative_time(0, 3600000), "1 hour ago");
    assert_eq!(format_relative_time(0, 7200000), "2 hours ago");
    assert_eq!(format_relative_time(0, 86399999), "23 hours ago");
}

#[test]
fn relative_time_days() {
    assert_eq!(format_relative_time(0, 86400000), "1 day ago");
    assert_eq!(format_relative_time(0, 90000000), "1 day ago");
    assert_eq!(format_relative_time(0, 172800000), "2 days ago");
    assert_eq!(format_relative_time(0, 864000000), "10 days ago");
}

#[test]
fn relative_time_widest_span() {
    // The whole i64 range still formats: elapsed close to 2^64 ms.
    let s = format_relative_time(i64::MIN, i64::MAX);
    assert!(s.ends_with(" days ago"));
    assert_eq!(s, "213503982334 days ago");
}

#[test]
fn decimal_rendering() {
    assert_eq!(u64_to_decimal(0), "0");
    assert_eq!(u64_to_decimal(7), "7");
    assert_eq!(u64_to_decimal(10), "10");
    assert_eq!(u64_to_decimal(305), "305");
    assert_eq!(u64_to_decimal(1234567890), "1234567890");
    assert_eq!(u64_to_decimal(u64::MAX), "18446744073709551615");
}
