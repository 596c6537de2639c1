use sysmon::disk::{DiskData, DiskInfo, DiskKind};
use sysmon::network::{NetworkData, IfaceInfo};

fn root_disk(total: u64, available: u64) -> DiskInfo {
    DiskInfo {
        name: String::from("sda1"),
        mount_point: String::from("/"),
        total_space: total,
        available_space: available,
        kind: DiskKind::Ssd,
    }
}

fn stats_line(device: &str, read_sectors: u64, write_sectors: u64) -> String {
    format!(
        "   8       0 {} 9000 40 {} 300 7000 20 {} 100 0 500 400",
        device, read_sectors, write_sectors
    )
}

#[test]
fn disk_two_cycles_reports_read_rate() {
    // Cycle 1: no prior baseline, so both rates are zero.
    let mut d = DiskData::new();
    let mounts = "/dev/sda1 / ext4 rw 0 0";
    let snapshot = vec![root_disk(1000, 400)];
    d.update(&snapshot, mounts, &stats_line("sda1", 10_000, 20_000), 0);
    assert_eq!(d.disks().len(), 1);
    let e = &d.disks()[0];
    assert_eq!(e.0.as_str(), "/");
    assert_eq!(e.1, 600); // used = total - available
    assert_eq!(e.2, 1000);
    assert_eq!(e.3, 0);
    assert_eq!(e.4, 0);

    // Cycle 2, one second later: the read counter advanced by 2000 sectors
    // of 512 bytes, an effective 1,024,000 bytes per second.
    d.update(&snapshot, mounts, &stats_line("sda1", 12_000, 20_000), 1000);
    let e = &d.disks()[0];
    assert_eq!(e.3, 1_024_000);
    assert_eq!(e.4, 0);
}

#[test]
fn disk_mount_map_sticky_when_device_unmounted() {
    // Cycle 1 sees the device mounted at /data.
    let mut d = DiskData::new();
    let info = DiskInfo {
        name: String::from("sdb1"),
        mount_point: String::from("/fallback"),
        total_space: 100,
        available_space: 50,
        kind: DiskKind::Hdd,
    };
    let snapshot = vec![info];
    d.update(&snapshot, "/dev/sdb1 /data ext4 rw 0 0", &stats_line("sdb1", 1000, 0), 0);
    assert_eq!(d.disks()[0].0.as_str(), "/data");

    // Cycle 2: the device is gone from the mount table, yet the entry is
    // still reported under /data, and the rate continues from the baseline
    // keyed by the device name.
    d.update(&snapshot, "proc /proc proc rw 0 0", &stats_line("sdb1", 3000, 0), 1000);
    let e = &d.disks()[0];
    assert_eq!(e.0.as_str(), "/data");
    assert_eq!(e.3, 2000 * 512);
}

#[test]
fn disk_virtual_kinds_excluded() {
    let mut d = DiskData::new();
    let mut info = root_disk(10, 5);
    info.kind = DiskKind::Other;
    d.update(&vec![info], "", "", 0);
    assert_eq!(d.disks().len(), 0);
}

#[test]
fn disk_used_space_saturates() {
    let mut d = DiskData::new();
    d.update(&vec![root_disk(100, 200)], "", "", 0);
    assert_eq!(d.disks()[0].1, 0);
}

#[test]
fn network_two_cycles_reports_rates() {
    let mut n = NetworkData::new();
    let snap1 = vec![IfaceInfo { name: String::from("eth0"), received: 1000, transmitted: 500 }];
    n.update(&snap1, 0);
    let e = &n.interfaces()[0];
    assert_eq!(e.0.as_str(), "eth0");
    assert_eq!(e.1, 1000);
    assert_eq!(e.2, 500);
    // First sighting: no baseline, zero rates.
    assert_eq!(e.3, 0);
    assert_eq!(e.4, 0);

    let snap2 = vec![IfaceInfo { name: String::from("eth0"), received: 3000, transmitted: 1500 }];
    n.update(&snap2, 2000);
    let e = &n.interfaces()[0];
    assert_eq!(e.3, 1000); // 2000 bytes over 2 s
    assert_eq!(e.4, 500);
}

#[test]
fn network_interface_absent_then_back_keeps_baseline() {
    let mut n = NetworkData::new();
    let eth = |rx: u64| vec![IfaceInfo { name: String::from("eth0"), received: rx, transmitted: 0 }];
    n.update(&eth(1000), 0);
    // The interface disappears for a cycle; its entry is simply omitted.
    n.update(&Vec::new(), 1000);
    assert_eq!(n.interfaces().len(), 0);
    // It reappears: the old baseline still applies.
    n.update(&eth(2000), 1000);
    assert_eq!(n.interfaces()[0].3, 1000);
}

#[test]
fn disk_missing_stats_reports_zero_rates_and_keeps_baselines() {
    let mut d = DiskData::new();
    let snapshot = vec![root_disk(1000, 400)];
    d.update(&snapshot, "/dev/sda1 / ext4 rw 0 0", &stats_line("sda1", 10_000, 0), 0);
    // A cycle whose statistics text is empty publishes zero rates...
    d.update(&snapshot, "/dev/sda1 / ext4 rw 0 0", "", 1000);
    assert_eq!(d.disks()[0].3, 0);
    // ...but the baseline from the first cycle still applies afterwards.
    d.update(&snapshot, "/dev/sda1 / ext4 rw 0 0", &stats_line("sda1", 11_000, 0), 1000);
    assert_eq!(d.disks()[0].3, 1000 * 512);
}
