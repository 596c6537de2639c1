use sysmon::textparse::{split_fields, split_lines, parse_u64_or_zero};
use sysmon::mount::{parse_mount_line, parse_device_mount_mapping};
use sysmon::disk::{parse_stats_line, parse_disk_stats};
use sysmon::kvmap::KvMap;

#[test]
fn split_fields_collapses_whitespace() {
    let f = split_fields("  a \t b\tc ");
    assert_eq!(f.len(), 3);
    assert_eq!(f[0].as_str(), "a");
    assert_eq!(f[1].as_str(), "b");
    assert_eq!(f[2].as_str(), "c");
}

#[test]
fn split_lines_skips_empty_lines() {
    let l = split_lines("one\ntwo\n\nthree\n");
    assert_eq!(l.len(), 3);
    assert_eq!(l[0].as_str(), "one");
    assert_eq!(l[2].as_str(), "three");
}

#[test]
fn parse_u64_reads_decimal_counters() {
    assert_eq!(parse_u64_or_zero("123"), 123);
    assert_eq!(parse_u64_or_zero("0"), 0);
    assert_eq!(parse_u64_or_zero("18446744073709551615"), u64::MAX);
}

#[test]
fn parse_u64_malformed_reads_zero() {
    assert_eq!(parse_u64_or_zero(""), 0);
    assert_eq!(parse_u64_or_zero("abc"), 0);
    assert_eq!(parse_u64_or_zero("12x"), 0);
    // One past the largest 64-bit value.
    assert_eq!(parse_u64_or_zero("18446744073709551616"), 0);
    assert_eq!(parse_u64_or_zero("99999999999999999999999"), 0);
}

#[test]
fn mount_line_physical_device() {
    let r = parse_mount_line("/dev/sda1 /data ext4 rw,relatime 0 0").unwrap();
    assert_eq!(r.0.as_str(), "sda1");
    assert_eq!(r.1.as_str(), "/data");
}

#[test]
fn mount_line_virtual_filesystem_skipped() {
    assert!(parse_mount_line("proc /proc proc rw 0 0").is_none());
    assert!(parse_mount_line("tmpfs /tmp tmpfs rw 0 0").is_none());
}

#[test]
fn mount_line_malformed_skipped() {
    assert!(parse_mount_line("").is_none());
    assert!(parse_mount_line("/dev/sda1").is_none());
}

#[test]
fn mount_mapping_later_line_wins() {
    let text = "/dev/sda1 /old ext4 rw 0 0\nnot a mount line\n/dev/sda1 /new ext4 rw 0 0\n/dev/sdb1 /data ext4 rw 0 0";
    let m = parse_device_mount_mapping(text);
    assert_eq!(m.get("sda1").unwrap().as_str(), "/new");
    assert_eq!(m.get("sdb1").unwrap().as_str(), "/data");
    assert!(m.get("sdc1").is_none());
}

#[test]
fn stats_line_reads_fixed_columns() {
    let r = parse_stats_line("   8       0 sda 9000 40 5000 300 7000 20 3000 100 0 500 400").unwrap();
    assert_eq!(r.0.as_str(), "sda");
    assert_eq!(r.1, 5000);
    assert_eq!(r.2, 3000);
}

#[test]
fn stats_line_short_skipped() {
    assert!(parse_stats_line("8 0 sda 9000 40 5000").is_none());
}

#[test]
fn disk_stats_text_parses_per_device() {
    let text = "   8       0 sda 9000 40 5000 300 7000 20 3000 100 0 500 400\nbad line\n   8       1 sdb 1 2 111 4 5 6 222 8 9 10 11";
    let s = parse_disk_stats(text);
    assert_eq!(*s.reads.get("sda").unwrap(), 5000);
    assert_eq!(*s.writes.get("sda").unwrap(), 3000);
    assert_eq!(*s.reads.get("sdb").unwrap(), 111);
    assert_eq!(*s.writes.get("sdb").unwrap(), 222);
}

#[test]
fn kvmap_insert_overwrites_and_if_absent_keeps() {
    let mut m: KvMap<u64> = KvMap::new();
    m.insert(String::from("k"), 1);
    m.insert(String::from("k"), 2);
    assert_eq!(*m.get("k").unwrap(), 2);
    m.insert_if_absent(String::from("k"), 3);
    assert_eq!(*m.get("k").unwrap(), 2);
    m.insert_if_absent(String::from("fresh"), 9);
    assert_eq!(*m.get("fresh").unwrap(), 9);
    assert!(!m.contains_key("missing"));
}

#[test]
fn empty_texts_parse_to_empty_maps() {
    let m = parse_device_mount_mapping("");
    assert!(m.get("sda1").is_none());
    let s = parse_disk_stats("");
    assert!(s.reads.get("sda").is_none());
    assert!(s.writes.get("sda").is_none());
}
