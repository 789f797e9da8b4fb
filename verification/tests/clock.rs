use flow_monitor::clock::{current_timestamp, format_seconds};
use flow_monitor::text::decimal_text;

#[test]
fn the_clock_reads_a_time_after_2020() {
    let first = current_timestamp().expect("the clock stands before the epoch");
    assert!(first > 1_577_836_800);
    let second = current_timestamp().unwrap();
    assert!(second >= first);
    assert!(second - first < 60);
}

#[test]
fn seconds_are_formatted_as_a_clock_reading() {
    assert_eq!(format_seconds(0), "00:00:00");
    assert_eq!(format_seconds(9), "00:00:09");
    assert_eq!(format_seconds(59), "00:00:59");
    assert_eq!(format_seconds(60), "00:01:00");
    assert_eq!(format_seconds(3599), "00:59:59");
    assert_eq!(format_seconds(3600), "01:00:00");
    assert_eq!(format_seconds(3661), "01:01:01");
    assert_eq!(format_seconds(86399), "23:59:59");
    assert_eq!(format_seconds(360000), "100:00:00");
}

#[test]
fn hours_are_not_wrapped_at_a_day() {
    assert_eq!(format_seconds(90061), "25:01:01");
    assert_eq!(format_seconds(u64::MAX), "5124095576030431:00:15");
}

#[test]
fn clock_readings_agree_with_plain_formatting() {
    for total in [0u64, 1, 59, 61, 3600, 12345, 99999, 360000, 1_700_000_000] {
        let expected =
            format!("{:02}:{:02}:{:02}", total / 3600, (total % 3600) / 60, total % 60);
        assert_eq!(format_seconds(total), expected);
    }
}

#[test]
fn numbers_are_written_in_decimal() {
    assert_eq!(decimal_text(0), "0");
    assert_eq!(decimal_text(7), "7");
    assert_eq!(decimal_text(10), "10");
    assert_eq!(decimal_text(1905), "1905");
    assert_eq!(decimal_text(u64::MAX as u128), "18446744073709551615");
    assert_eq!(decimal_text(u128::MAX), u128::MAX.to_string());
}
