use hakinet::utils::{
    chunks, format_bytes, format_duration, format_timestamp, is_valid_ip, is_valid_port, random_delay,
    RateLimiter, TimeSpan,
};

#[test]
fn test_format_duration() {
    assert_eq!(format_duration(TimeSpan::from_millis(500)), "500ms");
    assert_eq!(format_duration(TimeSpan::from_secs(1)), "1.000s");
    assert_eq!(format_duration(TimeSpan::from_secs(65)), "1m 5s");
    assert_eq!(format_duration(TimeSpan::from_secs(3665)), "1h 1m 5s");
}

#[test]
fn test_format_bytes() {
    assert_eq!(format_bytes(500), "500 B");
    assert_eq!(format_bytes(1024), "1.0 KB");
    assert_eq!(format_bytes(1536), "1.5 KB");
    assert_eq!(format_bytes(1048576), "1.0 MB");
}

#[test]
fn test_is_valid_ip() {
    assert!(is_valid_ip("192.168.1.1"));
    assert!(is_valid_ip("::1"));
    assert!(!is_valid_ip("invalid.ip"));
    assert!(!is_valid_ip("256.256.256.256"));
}

#[test]
fn ipv6_literal_forms() {
    for good in ["::", "1::", "::ffff:10.0.0.1", "fe80::1:2", "1:2:3:4:5:6:7:8", "1:2:3:4:5:6:1.2.3.4", "1:2:3:4:5:6:7::", "ABCD::ef"] {
        assert!(is_valid_ip(good), "{}", good);
    }
    for bad in [":::", "1::2::3", "12345::", "1:2:3:4:5:6:7:8:9", "1:1.2.3.4", "1:2:3:4:5:6::1.2.3.4", "::1:2:3:4:5:6:7:8", "", "1.2.3", "01.2.3.4", "::01.2.3.4"] {
        assert!(!is_valid_ip(bad), "{}", bad);
    }
}

#[test]
fn test_is_valid_port() {
    assert!(is_valid_port(80));
    assert!(is_valid_port(65535));
    assert!(!is_valid_port(0));
}

#[test]
fn format_bytes_rounding_and_units() {
    assert_eq!(format_bytes(0), "0 B");
    assert_eq!(format_bytes(1023), "1023 B");
    assert_eq!(format_bytes(1280), "1.2 KB");
    assert_eq!(format_bytes(1048575), "1024.0 KB");
    assert_eq!(format_bytes(1099511627776 * 2048), "2048.0 TB");
}

#[test]
fn format_duration_pads_millis() {
    assert_eq!(format_duration(TimeSpan::from_millis(1007)), "1.007s");
    assert_eq!(format_duration(TimeSpan::from_millis(0)), "0ms");
}

#[test]
fn chunks_cut_in_order() {
    assert_eq!(chunks(vec![1, 2, 3, 4, 5], 2), vec![vec![1, 2], vec![3, 4], vec![5]]);
    assert_eq!(chunks(vec![1, 2, 3, 4], 2), vec![vec![1, 2], vec![3, 4]]);
    assert!(chunks(Vec::<u8>::new(), 3).is_empty());
}

#[test]
fn rate_limiter_pauses_for_the_rest_of_the_delay() {
    let mut limiter = RateLimiter::new(TimeSpan::from_millis(100));
    assert_eq!(limiter.pause_needed(1000), 0);
    limiter.record_call(1000);
    assert_eq!(limiter.pause_needed(1030), 70);
    assert_eq!(limiter.pause_needed(1200), 0);
}

#[test]
fn timestamp_text_and_random_delay() {
    assert_eq!(format_timestamp(0), "1970-01-01 00:00:00");
    assert_eq!(format_timestamp(1431648000), "2015-05-15 00:00:00");
    let d = random_delay(TimeSpan::from_millis(10), TimeSpan::from_millis(20));
    assert!(d.millis >= 10 && d.millis <= 20);
}

#[test]
fn elapsed_micros_from_the_clock() {
    let start = hakinet::utils::current_timestamp_micros();
    assert!(start > 0);
    assert!(hakinet::utils::micros_since(start) < 60_000_000);
    assert_eq!(hakinet::utils::micros_since(u64::MAX), 0);
    assert_eq!(hakinet::utils::elapsed(10, 25), 15);
    assert_eq!(hakinet::utils::elapsed(25, 10), 0);
    assert!(hakinet::utils::current_timestamp() > 1_600_000_000);
}
