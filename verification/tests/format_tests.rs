use mod_installer::format::{format_bytes, format_duration, format_speed, u64_to_string};

#[test]
fn decimal_rendering() {
    assert_eq!(u64_to_string(0), "0");
    assert_eq!(u64_to_string(7), "7");
    assert_eq!(u64_to_string(10), "10");
    assert_eq!(u64_to_string(1234567890), "1234567890");
    assert_eq!(u64_to_string(u64::MAX), "18446744073709551615");
}

#[test]
fn bytes_below_one_kilobyte_are_plain() {
    assert_eq!(format_bytes(0), "0 B");
    assert_eq!(format_bytes(512), "512 B");
    assert_eq!(format_bytes(1023), "1023 B");
}

#[test]
fn bytes_at_unit_boundaries() {
    assert_eq!(format_bytes(1024), "1.00 KB");
    assert_eq!(format_bytes(1048576), "1.00 MB");
    assert_eq!(format_bytes(1073741824), "1.00 GB");
}

#[test]
fn bytes_with_fractional_digits() {
    assert_eq!(format_bytes(1536), "1.50 KB");
    assert_eq!(format_bytes(10485760), "10.00 MB");
    // 1034 bytes is 1.0097... KB: the hundredths round up.
    assert_eq!(format_bytes(1024 + 10), "1.01 KB");
    // 1535 bytes is 1.4990... KB: rounded to nearest, not truncated.
    assert_eq!(format_bytes(1535), "1.50 KB");
    assert_eq!(format_bytes(2621440), "2.50 MB");
}

#[test]
fn bytes_round_ties_to_even() {
    // 1152 bytes = 1.125 KB and 1408 bytes = 1.375 KB: exact halves round
    // to the even hundredth, as {:.2} does for exactly representable values.
    assert_eq!(format_bytes(1152), "1.12 KB");
    assert_eq!(format_bytes(1408), "1.38 KB");
}

#[test]
fn bytes_magnitude_never_decreases_at_boundaries() {
    // 1023 B (1023.00 bytes) then 1.00 KB (1024.00 bytes): no decrease.
    assert_eq!(format_bytes(1023), "1023 B");
    assert_eq!(format_bytes(1024), "1.00 KB");
    // The top of the KB band rounds up to exactly the first MB display.
    assert_eq!(format_bytes(1048575), "1024.00 KB");
    assert_eq!(format_bytes(1048576), "1.00 MB");
}

#[test]
fn speed_formatting() {
    // The bytes-per-second branch always carries the two decimals; the
    // zeroed speed of every cancellation sample reads "0.00 B/s".
    assert_eq!(format_speed(0), "0.00 B/s");
    assert_eq!(format_speed(1000), "1000.00 B/s");
    assert_eq!(format_speed(2048), "2.00 KB/s");
    assert_eq!(format_speed(2097152), "2.00 MB/s");
    assert_eq!(format_speed(1073741824), "1.00 GB/s");
}

#[test]
fn duration_formatting() {
    assert_eq!(format_duration(0), "0s");
    assert_eq!(format_duration(59), "59s");
    assert_eq!(format_duration(60), "1m 0s");
    assert_eq!(format_duration(125), "2m 5s");
    assert_eq!(format_duration(3600), "1h 0m 0s");
    assert_eq!(format_duration(3725), "1h 2m 5s");
    assert_eq!(format_duration(90061), "25h 1m 1s");
}
