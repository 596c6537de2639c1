use sysmon::logs::{LogsData, LogFetch, CategoryFetch, MAX_LOG_LINES, MAX_LINE_LENGTH};
use sysmon::nav::LogCategory;
use sysmon::i18n::{Language, t};

fn lines(v: &[&str]) -> Vec<String> {
    v.iter().map(|s| String::from(*s)).collect()
}

fn fetch(system: &[&str], kernel: &[&str], error: &[&str], docker: &[&str], boot: &[&str]) -> LogFetch {
    LogFetch::Categories(CategoryFetch {
        system: Some(lines(system)),
        kernel: Some(lines(kernel)),
        error: Some(lines(error)),
        docker: Some(lines(docker)),
        boot: Some(lines(boot)),
    })
}

#[test]
fn update_applies_when_interval_elapsed() {
    let mut d = LogsData::new(0);
    let applied = d.update(Language::English, 2000, fetch(&["s1"], &["k1"], &[], &[], &[]));
    assert!(applied);
    let sys = d.get_logs_by_category(&LogCategory::System);
    assert_eq!(sys.len(), 1);
    assert_eq!(sys[0].as_str(), "s1");
}

#[test]
fn update_rate_limited_within_two_seconds() {
    let mut d = LogsData::new(0);
    assert!(d.update(Language::English, 2000, fetch(&["first"], &[], &[], &[], &[])));
    let before = d.get_logs_by_category(&LogCategory::All);
    // A second call 1.5 s later is a no-op: the fetched lines are ignored
    // and the cached content is unchanged.
    let applied = d.update(Language::English, 3500, fetch(&["second"], &[], &[], &[], &[]));
    assert!(!applied);
    let after = d.get_logs_by_category(&LogCategory::All);
    assert_eq!(before, after);
    assert_eq!(d.get_logs_by_category(&LogCategory::System)[0].as_str(), "first");
    // Once the interval has passed, the next call applies.
    assert!(d.update(Language::English, 4000, fetch(&["third"], &[], &[], &[], &[])));
    assert_eq!(d.get_logs_by_category(&LogCategory::System)[0].as_str(), "third");
}

#[test]
fn all_is_fixed_order_concatenation() {
    let mut d = LogsData::new(0);
    d.update(Language::English, 2000, fetch(&["s1", "s2"], &["k1"], &["e1"], &["d1"], &["b1"]));
    let all = d.get_logs_by_category(&LogCategory::All);
    let expected = ["s1", "s2", "k1", "e1", "d1", "b1"];
    assert_eq!(all.len(), expected.len());
    for (got, want) in all.iter().zip(expected.iter()) {
        assert_eq!(got.as_str(), *want);
    }
}

#[test]
fn failed_category_reads_empty_without_blocking_others() {
    let mut d = LogsData::new(0);
    d.update(Language::English, 2000, LogFetch::Categories(CategoryFetch {
        system: Some(lines(&["s1"])),
        kernel: None,
        error: Some(lines(&["e1"])),
        docker: None,
        boot: None,
    }));
    assert_eq!(d.get_logs_by_category(&LogCategory::System).len(), 1);
    assert_eq!(d.get_logs_by_category(&LogCategory::Kernel).len(), 0);
    assert_eq!(d.get_logs_by_category(&LogCategory::Error).len(), 1);
}

#[test]
fn category_cache_capped_at_maximum() {
    let mut d = LogsData::new(0);
    let many: Vec<String> = (0..600).map(|i| format!("line {}", i)).collect();
    d.update(Language::English, 2000, LogFetch::Categories(CategoryFetch {
        system: Some(many),
        kernel: None,
        error: None,
        docker: None,
        boot: None,
    }));
    assert_eq!(d.get_logs_by_category(&LogCategory::System).len(), MAX_LOG_LINES);
}

#[test]
fn truncation_cuts_long_line_and_marks_it() {
    let long: String = std::iter::repeat('x').take(5000).collect();
    let cut = LogsData::truncate_line(&long);
    let chars: Vec<char> = cut.chars().collect();
    let marker: Vec<char> = "...[截断]".chars().collect();
    assert_eq!(chars.len(), MAX_LINE_LENGTH + marker.len());
    assert!(chars[..MAX_LINE_LENGTH].iter().all(|c| *c == 'x'));
    assert_eq!(&chars[MAX_LINE_LENGTH..], &marker[..]);
}

#[test]
fn truncation_leaves_short_line_alone() {
    assert_eq!(LogsData::truncate_line("short").as_str(), "short");
}

#[test]
fn fallback_sorts_deduplicates_and_serves_all() {
    let mut d = LogsData::new(0);
    d.update(Language::English, 2000,
        LogFetch::Fallback(lines(&["bravo", "alpha", "bravo", "charlie", "alpha"])));
    let all = d.get_logs_by_category(&LogCategory::All);
    let expected = ["alpha", "bravo", "charlie"];
    assert_eq!(all.len(), expected.len());
    for (got, want) in all.iter().zip(expected.iter()) {
        assert_eq!(got.as_str(), *want);
    }
    // The per-category caches are untouched by the fallback path.
    assert_eq!(d.get_logs_by_category(&LogCategory::System).len(), 0);
}

#[test]
fn fallback_failure_caches_placeholder() {
    let mut d = LogsData::new(0);
    d.update(Language::English, 2000, LogFetch::FallbackFailed);
    let all = d.get_logs_by_category(&LogCategory::All);
    assert_eq!(all.len(), 1);
    assert_eq!(all[0].as_str(), t(Language::English, "log_read_failed"));
}

#[test]
fn unsupported_platform_explains_and_categories_read_empty() {
    let mut d = LogsData::new(0);
    d.update(Language::Chinese, 2000, LogFetch::Unsupported);
    let all = d.get_logs_by_category(&LogCategory::All);
    assert_eq!(all.len(), 1);
    assert_eq!(all[0].as_str(), t(Language::Chinese, "linux_only_logs"));
    assert_eq!(d.get_logs_by_category(&LogCategory::System).len(), 0);
    assert_eq!(d.get_logs_by_category(&LogCategory::Kernel).len(), 0);
}

#[test]
fn primary_refresh_clears_fallback() {
    let mut d = LogsData::new(0);
    d.update(Language::English, 2000, LogFetch::Fallback(lines(&["old fallback"])));
    d.update(Language::English, 4000, fetch(&["sys"], &[], &[], &[], &[]));
    let all = d.get_logs_by_category(&LogCategory::All);
    assert_eq!(all.len(), 1);
    assert_eq!(all[0].as_str(), "sys");
}

#[test]
fn needs_refresh_follows_interval() {
    let d = LogsData::new(1000);
    assert!(!d.needs_refresh(1000));
    assert!(!d.needs_refresh(2999));
    assert!(d.needs_refresh(3000));
    // A clock that moved backwards never forces a refresh.
    assert!(!d.needs_refresh(500));
}

#[test]
fn cleanup_changes_nothing() {
    let mut d = LogsData::new(0);
    d.update(Language::English, 2000, fetch(&["s"], &[], &[], &[], &[]));
    let before = d.get_logs_by_category(&LogCategory::All);
    d.cleanup();
    assert_eq!(before, d.get_logs_by_category(&LogCategory::All));
}
