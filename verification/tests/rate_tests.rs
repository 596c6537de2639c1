use sysmon::rate::{rate, disk_rate, MIN_ELAPSED_MS, SECTOR_SIZE};

#[test]
fn rate_basic_bytes_per_second() {
    // 2000 bytes over 2 seconds is 1000 bytes per second.
    assert_eq!(rate(3000, 1000, 2000), 1000);
}

#[test]
fn rate_counter_reset_reports_zero() {
    assert_eq!(rate(5, 10, 1000), 0);
    assert_eq!(disk_rate(5, 10, 1000), 0);
}

#[test]
fn rate_elapsed_floor_clamps() {
    // Any elapsed time at or below the one-millisecond floor behaves as the
    // floor itself.
    assert_eq!(rate(1000, 0, 0), rate(1000, 0, MIN_ELAPSED_MS));
    assert_eq!(rate(1000, 0, 0), 1_000_000);
    assert_eq!(disk_rate(1000, 0, 0), disk_rate(1000, 0, MIN_ELAPSED_MS));
}

#[test]
fn rate_saturates_at_max() {
    assert_eq!(rate(u64::MAX, 0, 1), u64::MAX);
}

#[test]
fn disk_rate_uses_sector_size() {
    // 2000 sectors of 512 bytes over one second.
    assert_eq!(SECTOR_SIZE, 512);
    assert_eq!(disk_rate(2000, 0, 1000), 1_024_000);
}

#[test]
fn rate_zero_delta_is_zero() {
    assert_eq!(rate(42, 42, 1000), 0);
}
