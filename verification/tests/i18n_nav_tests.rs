use sysmon::i18n::{I18n, Language, t, get_category_name};
use sysmon::nav::{ActiveTab, LogCategory};

#[test]
fn english_table_lookups() {
    assert_eq!(t(Language::English, "cpu"), "CPU");
    assert_eq!(t(Language::English, "memory"), "Memory");
    assert_eq!(t(Language::English, "docker_not_available"), "Docker not available");
    assert_eq!(t(Language::English, "log_category_kernel"), "Kernel Logs");
}

#[test]
fn chinese_table_lookups() {
    assert_eq!(t(Language::Chinese, "memory"), "内存");
    assert_eq!(t(Language::Chinese, "disk"), "磁盘");
    assert_eq!(t(Language::Chinese, "unknown"), "未知");
}

#[test]
fn unknown_key_reads_as_itself() {
    assert_eq!(t(Language::English, "no_such_key"), "no_such_key");
    assert_eq!(t(Language::Chinese, "no_such_key"), "no_such_key");
}

#[test]
fn i18n_instance_dispatches_by_language() {
    let en = I18n::new(Language::English);
    let zh = I18n::new(Language::Chinese);
    assert_eq!(en.get("network"), "Network");
    assert_eq!(zh.get("network"), "网络");
    assert_eq!(en.get_english("logs"), "Logs");
    assert_eq!(zh.get_chinese("logs"), "日志");
}

#[test]
fn category_names_localized() {
    assert_eq!(get_category_name(Language::English, &LogCategory::Boot), "Boot Logs");
    assert_eq!(get_category_name(Language::Chinese, &LogCategory::All), "全部日志");
}

#[test]
fn log_category_cycles_forward_and_back() {
    let order = [
        LogCategory::System,
        LogCategory::Kernel,
        LogCategory::Error,
        LogCategory::Docker,
        LogCategory::Boot,
        LogCategory::All,
    ];
    for (i, c) in order.iter().enumerate() {
        assert_eq!(c.next(), order[(i + 1) % order.len()]);
        assert_eq!(c.next().previous(), *c);
    }
    assert_eq!(LogCategory::System.previous(), LogCategory::All);
}

#[test]
fn active_tab_cycles_forward_and_back() {
    let order = [
        ActiveTab::Cpu,
        ActiveTab::Memory,
        ActiveTab::Disk,
        ActiveTab::Network,
        ActiveTab::Docker,
        ActiveTab::Logs,
    ];
    for (i, tab) in order.iter().enumerate() {
        assert_eq!(tab.next(), order[(i + 1) % order.len()]);
        assert_eq!(tab.previous().next(), *tab);
    }
    assert_eq!(ActiveTab::Cpu.previous(), ActiveTab::Logs);
}
