//! Localized string lookup: a closed two-language table keyed by short
//! message identifiers.  A key outside the table reads as itself.

use vstd::prelude::*;
use crate::strutil::str_eq;
use crate::nav::LogCategory;

verus! {

/// The display languages the table knows.
#[derive(Debug, Clone, Copy, PartialEq, Eq, Structural)]
pub enum Language {
    English,
    Chinese,
}

/// The English translation table: a key outside the table reads as itself.
pub open spec fn english_of(key: Seq<char>) -> Seq<char> {
    if key == "system_monitor"@ { "System Monitor"@ } else
    if key == "cpu"@ { "CPU"@ } else
    if key == "memory"@ { "Memory"@ } else
    if key == "disk"@ { "Disk"@ } else
    if key == "network"@ { "Network"@ } else
    if key == "docker"@ { "Docker"@ } else
    if key == "logs"@ { "Logs"@ } else
    if key == "global_cpu_usage"@ { "Global CPU Usage"@ } else
    if key == "cpu_cores"@ { "CPU Cores"@ } else
    if key == "core"@ { "Core"@ } else
    if key == "usage"@ { "Usage"@ } else
    if key == "memory_title"@ { "Memory"@ } else
    if key == "swap_title"@ { "Swap"@ } else
    if key == "disk_usage"@ { "Disk Usage"@ } else
    if key == "filesystem"@ { "Filesystem"@ } else
    if key == "mount_point"@ { "Mount Point"@ } else
    if key == "total"@ { "Total"@ } else
    if key == "used"@ { "Used"@ } else
    if key == "free"@ { "Free"@ } else
    if key == "percent"@ { "Percent"@ } else
    if key == "read_speed"@ { "Read Speed"@ } else
    if key == "write_speed"@ { "Write Speed"@ } else
    if key == "network_interfaces"@ { "Network Interfaces"@ } else
    if key == "interface"@ { "Interface"@ } else
    if key == "received"@ { "Received"@ } else
    if key == "sent"@ { "Sent"@ } else
    if key == "receive_speed"@ { "Receive Speed"@ } else
    if key == "transmit_speed"@ { "Transmit Speed"@ } else
    if key == "docker_no_containers"@ { "Docker (No containers running)"@ } else
    if key == "docker_error"@ { "Docker (Error)"@ } else
    if key == "docker_containers"@ { "Docker Containers"@ } else
    if key == "container_id"@ { "Container ID"@ } else
    if key == "image"@ { "Image"@ } else
    if key == "status"@ { "Status"@ } else
    if key == "name"@ { "Name"@ } else
    if key == "running_status"@ { "running"@ } else
    if key == "cpu_percent"@ { "CPU %"@ } else
    if key == "memory_percent"@ { "Memory %"@ } else
    if key == "ports"@ { "Ports"@ } else
    if key == "no_docker_containers_message"@ { "No Docker containers are currently running."@ } else
    if key == "docker_connection_error"@ { "Failed to connect to Docker: {}"@ } else
    if key == "docker_not_available"@ { "Docker not available"@ } else
    if key == "failed_to_list_containers"@ { "Failed to list containers: {}"@ } else
    if key == "system_logs"@ { "System Logs (Last 20 Lines)"@ } else
    if key == "time"@ { "Time"@ } else
    if key == "message"@ { "Message"@ } else
    if key == "log_category_system"@ { "System Logs"@ } else
    if key == "log_category_kernel"@ { "Kernel Logs"@ } else
    if key == "log_category_error"@ { "Error Logs"@ } else
    if key == "log_category_docker"@ { "Docker Logs"@ } else
    if key == "log_category_boot"@ { "Boot Logs"@ } else
    if key == "log_category_all"@ { "All Logs"@ } else
    if key == "gb"@ { "GB"@ } else
    if key == "mb"@ { "MB"@ } else
    if key == "kb"@ { "KB"@ } else
    if key == "b"@ { "B"@ } else
    if key == "url_request_about"@ { "Make HTTP requests to URLs"@ } else
    if key == "url_help"@ { "The URL to request"@ } else
    if key == "method_help"@ { "HTTP method (GET, POST, PUT, DELETE)"@ } else
    if key == "data_help"@ { "Request data (JSON or plain text)"@ } else
    if key == "unsupported_method"@ { "Unsupported HTTP method: {}"@ } else
    if key == "data_update_failed"@ { "⚠️  Data update failed: {}"@ } else
    if key == "docker_update_failed"@ { "Warning: Failed to update Docker data: {}"@ } else
    if key == "docker_connect_failed"@ { "Failed to connect to Docker: {}"@ } else
    if key == "log_read_failed"@ { "⚠️  Failed to read logs: {}"@ } else
    if key == "log_update_failed"@ { "日志更新失败: {}"@ } else
    if key == "linux_only_logs"@ { "⚠️  Log viewing is only supported on Linux systems"@ } else
    if key == "journalctl_failed"@ { "journalctl execution failed (status code: {})"@ } else
    if key == "syslog_read_failed"@ { "Failed to read syslog (status code: {})"@ } else
    if key == "unknown"@ { "unknown"@ } else
    if key == "tcp"@ { "tcp"@ } else
    { key }
}

/// The Chinese translation table: a key outside the table reads as itself.
pub open spec fn chinese_of(key: Seq<char>) -> Seq<char> {
    if key == "system_monitor"@ { "系统监控"@ } else
    if key == "cpu"@ { "CPU"@ } else
    if key == "memory"@ { "内存"@ } else
    if key == "disk"@ { "磁盘"@ } else
    if key == "network"@ { "网络"@ } else
    if key == "docker"@ { "Docker"@ } else
    if key == "logs"@ { "日志"@ } else
    if key == "global_cpu_usage"@ { "全局CPU使用率"@ } else
    if key == "cpu_cores"@ { "CPU核心"@ } else
    if key == "core"@ { "核心"@ } else
    if key == "usage"@ { "使用率"@ } else
    if key == "memory_title"@ { "内存"@ } else
    if key == "swap_title"@ { "交换分区"@ } else
    if key == "disk_usage"@ { "磁盘使用情况"@ } else
    if key == "filesystem"@ { "文件系统"@ } else
    if key == "mount_point"@ { "挂载点"@ } else
    if key == "total"@ { "总量"@ } else
    if key == "used"@ { "已用"@ } else
    if key == "free"@ { "可用"@ } else
    if key == "percent"@ { "百分比"@ } else
    if key == "read_speed"@ { "读取速度"@ } else
    if key == "write_speed"@ { "写入速度"@ } else
    if key == "network_interfaces"@ { "网络接口"@ } else
    if key == "interface"@ { "接口"@ } else
    if key == "received"@ { "接收"@ } else
    if key == "sent"@ { "发送"@ } else
    if key == "receive_speed"@ { "接收速度"@ } else
    if key == "transmit_speed"@ { "发送速度"@ } else
    if key == "docker_no_containers"@ { "Docker (无运行中的容器)"@ } else
    if key == "docker_error"@ { "Docker (错误)"@ } else
    if key == "docker_containers"@ { "Docker容器"@ } else
    if key == "container_id"@ { "容器ID"@ } else
    if key == "image"@ { "镜像"@ } else
    if key == "status"@ { "状态"@ } else
    if key == "name"@ { "名称"@ } else
    if key == "running_status"@ { "running"@ } else
    if key == "cpu_percent"@ { "CPU %"@ } else
    if key == "memory_percent"@ { "内存 %"@ } else
    if key == "ports"@ { "端口"@ } else
    if key == "no_docker_containers_message"@ { "当前没有运行中的Docker容器。"@ } else
    if key == "docker_connection_error"@ { "连接Docker失败: {}"@ } else
    if key == "docker_not_available"@ { "Docker不可用"@ } else
    if key == "failed_to_list_containers"@ { "获取容器列表失败: {}"@ } else
    if key == "system_logs"@ { "系统日志 (最近20行)"@ } else
    if key == "time"@ { "时间"@ } else
    if key == "message"@ { "消息"@ } else
    if key == "log_category_system"@ { "系统日志"@ } else
    if key == "log_category_kernel"@ { "内核日志"@ } else
    if key == "log_category_error"@ { "错误日志"@ } else
    if key == "log_category_docker"@ { "Docker日志"@ } else
    if key == "log_category_boot"@ { "引导日志"@ } else
    if key == "log_category_all"@ { "全部日志"@ } else
    if key == "gb"@ { "GB"@ } else
    if key == "mb"@ { "MB"@ } else
    if key == "kb"@ { "KB"@ } else
    if key == "b"@ { "B"@ } else
    if key == "url_request_about"@ { "向URL发送HTTP请求"@ } else
    if key == "url_help"@ { "要请求的URL"@ } else
    if key == "method_help"@ { "HTTP方法 (GET, POST, PUT, DELETE)"@ } else
    if key == "data_help"@ { "请求数据 (JSON或纯文本)"@ } else
    if key == "unsupported_method"@ { "不支持的HTTP方法: {}"@ } else
    if key == "data_update_failed"@ { "⚠️  数据更新失败: {}"@ } else
    if key == "docker_update_failed"@ { "警告: Docker数据更新失败: {}"@ } else
    if key == "docker_connect_failed"@ { "连接Docker失败: {}"@ } else
    if key == "log_read_failed"@ { "⚠️  读取日志失败: {}"@ } else
    if key == "log_update_failed"@ { "日志更新失败: {}"@ } else
    if key == "linux_only_logs"@ { "⚠️  仅支持Linux系统查看日志"@ } else
    if key == "journalctl_failed"@ { "journalctl执行失败 (状态码: {})"@ } else
    if key == "syslog_read_failed"@ { "读取syslog失败 (状态码: {})"@ } else
    if key == "unknown"@ { "未知"@ } else
    if key == "tcp"@ { "tcp"@ } else
    { key }
}

/// What `t` returns for a key under a language.
pub open spec fn translation_spec(lang: Language, key: Seq<char>) -> Seq<char> {
    match lang {
        Language::English => english_of(key),
        Language::Chinese => chinese_of(key),
    }
}

/// A translation table bound to one language.
pub struct I18n {
    language: Language,
}

impl I18n {
    /// The bound language.
    pub closed spec fn lang(&self) -> Language {
        self.language
    }

    pub fn new(language: Language) -> (r: Self)
        ensures
            r.lang() == language,
    {
        I18n { language }
    }

    /// Looks a key up in the bound language's table.
    pub fn get<'a>(&self, key: &'a str) -> (r: &'a str)
        ensures
            r@ == translation_spec(self.lang(), key@),
    {
        match self.language {
            Language::English => self.get_english(key),
            Language::Chinese => self.get_chinese(key),
        }
    }

    /// The English table.
    pub fn get_english<'a>(&self, key: &'a str) -> (r: &'a str)
        ensures
            r@ == english_of(key@),
    {
        if str_eq(key, "system_monitor") { return "System Monitor"; }
        if str_eq(key, "cpu") { return "CPU"; }
        if str_eq(key, "memory") { return "Memory"; }
        if str_eq(key, "disk") { return "Disk"; }
        if str_eq(key, "network") { return "Network"; }
        if str_eq(key, "docker") { return "Docker"; }
        if str_eq(key, "logs") { return "Logs"; }
        if str_eq(key, "global_cpu_usage") { return "Global CPU Usage"; }
        if str_eq(key, "cpu_cores") { return "CPU Cores"; }
        if str_eq(key, "core") { return "Core"; }
        if str_eq(key, "usage") { return "Usage"; }
        if str_eq(key, "memory_title") { return "Memory"; }
        if str_eq(key, "swap_title") { return "Swap"; }
        if str_eq(key, "disk_usage") { return "Disk Usage"; }
        if str_eq(key, "filesystem") { return "Filesystem"; }
        if str_eq(key, "mount_point") { return "Mount Point"; }
        if str_eq(key, "total") { return "Total"; }
        if str_eq(key, "used") { return "Used"; }
        if str_eq(key, "free") { return "Free"; }
        if str_eq(key, "percent") { return "Percent"; }
        if str_eq(key, "read_speed") { return "Read Speed"; }
        if str_eq(key, "write_speed") { return "Write Speed"; }
        if str_eq(key, "network_interfaces") { return "Network Interfaces"; }
        if str_eq(key, "interface") { return "Interface"; }
        if str_eq(key, "received") { return "Received"; }
        if str_eq(key, "sent") { return "Sent"; }
        if str_eq(key, "receive_speed") { return "Receive Speed"; }
        if str_eq(key, "transmit_speed") { return "Transmit Speed"; }
        if str_eq(key, "docker_no_containers") { return "Docker (No containers running)"; }
        if str_eq(key, "docker_error") { return "Docker (Error)"; }
        if str_eq(key, "docker_containers") { return "Docker Containers"; }
        if str_eq(key, "container_id") { return "Container ID"; }
        if str_eq(key, "image") { return "Image"; }
        if str_eq(key, "status") { return "Status"; }
        if str_eq(key, "name") { return "Name"; }
        if str_eq(key, "running_status") { return "running"; }
        if str_eq(key, "cpu_percent") { return "CPU %"; }
        if str_eq(key, "memory_percent") { return "Memory %"; }
        if str_eq(key, "ports") { return "Ports"; }
        if str_eq(key, "no_docker_containers_message") { return "No Docker containers are currently running."; }
        if str_eq(key, "docker_connection_error") { return "Failed to connect to Docker: {}"; }
        if str_eq(key, "docker_not_available") { return "Docker not available"; }
        if str_eq(key, "failed_to_list_containers") { return "Failed to list containers: {}"; }
        if str_eq(key, "system_logs") { return "System Logs (Last 20 Lines)"; }
        if str_eq(key, "time") { return "Time"; }
        if str_eq(key, "message") { return "Message"; }
        if str_eq(key, "log_category_system") { return "System Logs"; }
        if str_eq(key, "log_category_kernel") { return "Kernel Logs"; }
        if str_eq(key, "log_category_error") { return "Error Logs"; }
        if str_eq(key, "log_category_docker") { return "Docker Logs"; }
        if str_eq(key, "log_category_boot") { return "Boot Logs"; }
        if str_eq(key, "log_category_all") { return "All Logs"; }
        if str_eq(key, "gb") { return "GB"; }
        if str_eq(key, "mb") { return "MB"; }
        if str_eq(key, "kb") { return "KB"; }
        if str_eq(key, "b") { return "B"; }
        if str_eq(key, "url_request_about") { return "Make HTTP requests to URLs"; }
        if str_eq(key, "url_help") { return "The URL to request"; }
        if str_eq(key, "method_help") { return "HTTP method (GET, POST, PUT, DELETE)"; }
        if str_eq(key, "data_help") { return "Request data (JSON or plain text)"; }
        if str_eq(key, "unsupported_method") { return "Unsupported HTTP method: {}"; }
        if str_eq(key, "data_update_failed") { return "⚠️  Data update failed: {}"; }
        if str_eq(key, "docker_update_failed") { return "Warning: Failed to update Docker data: {}"; }
        if str_eq(key, "docker_connect_failed") { return "Failed to connect to Docker: {}"; }
        if str_eq(key, "log_read_failed") { return "⚠️  Failed to read logs: {}"; }
        if str_eq(key, "log_update_failed") { return "日志更新失败: {}"; }
        if str_eq(key, "linux_only_logs") { return "⚠️  Log viewing is only supported on Linux systems"; }
        if str_eq(key, "journalctl_failed") { return "journalctl execution failed (status code: {})"; }
        if str_eq(key, "syslog_read_failed") { return "Failed to read syslog (status code: {})"; }
        if str_eq(key, "unknown") { return "unknown"; }
        if str_eq(key, "tcp") { return "tcp"; }
        key
    }

    /// The Chinese table.
    pub fn get_chinese<'a>(&self, key: &'a str) -> (r: &'a str)
        ensures
            r@ == chinese_of(key@),
    {
        if str_eq(key, "system_monitor") { return "系统监控"; }
        if str_eq(key, "cpu") { return "CPU"; }
        if str_eq(key, "memory") { return "内存"; }
        if str_eq(key, "disk") { return "磁盘"; }
        if str_eq(key, "network") { return "网络"; }
        if str_eq(key, "docker") { return "Docker"; }
        if str_eq(key, "logs") { return "日志"; }
        if str_eq(key, "global_cpu_usage") { return "全局CPU使用率"; }
        if str_eq(key, "cpu_cores") { return "CPU核心"; }
        if str_eq(key, "core") { return "核心"; }
        if str_eq(key, "usage") { return "使用率"; }
        if str_eq(key, "memory_title") { return "内存"; }
        if str_eq(key, "swap_title") { return "交换分区"; }
        if str_eq(key, "disk_usage") { return "磁盘使用情况"; }
        if str_eq(key, "filesystem") { return "文件系统"; }
        if str_eq(key, "mount_point") { return "挂载点"; }
        if str_eq(key, "total") { return "总量"; }
        if str_eq(key, "used") { return "已用"; }
        if str_eq(key, "free") { return "可用"; }
        if str_eq(key, "percent") { return "百分比"; }
        if str_eq(key, "read_speed") { return "读取速度"; }
        if str_eq(key, "write_speed") { return "写入速度"; }
        if str_eq(key, "network_interfaces") { return "网络接口"; }
        if str_eq(key, "interface") { return "接口"; }
        if str_eq(key, "received") { return "接收"; }
        if str_eq(key, "sent") { return "发送"; }
        if str_eq(key, "receive_speed") { return "接收速度"; }
        if str_eq(key, "transmit_speed") { return "发送速度"; }
        if str_eq(key, "docker_no_containers") { return "Docker (无运行中的容器)"; }
        if str_eq(key, "docker_error") { return "Docker (错误)"; }
        if str_eq(key, "docker_containers") { return "Docker容器"; }
        if str_eq(key, "container_id") { return "容器ID"; }
        if str_eq(key, "image") { return "镜像"; }
        if str_eq(key, "status") { return "状态"; }
        if str_eq(key, "name") { return "名称"; }
        if str_eq(key, "running_status") { return "running"; }
        if str_eq(key, "cpu_percent") { return "CPU %"; }
        if str_eq(key, "memory_percent") { return "内存 %"; }
        if str_eq(key, "ports") { return "端口"; }
        if str_eq(key, "no_docker_containers_message") { return "当前没有运行中的Docker容器。"; }
        if str_eq(key, "docker_connection_error") { return "连接Docker失败: {}"; }
        if str_eq(key, "docker_not_available") { return "Docker不可用"; }
        if str_eq(key, "failed_to_list_containers") { return "获取容器列表失败: {}"; }
        if str_eq(key, "system_logs") { return "系统日志 (最近20行)"; }
        if str_eq(key, "time") { return "时间"; }
        if str_eq(key, "message") { return "消息"; }
        if str_eq(key, "log_category_system") { return "系统日志"; }
        if str_eq(key, "log_category_kernel") { return "内核日志"; }
        if str_eq(key, "log_category_error") { return "错误日志"; }
        if str_eq(key, "log_category_docker") { return "Docker日志"; }
        if str_eq(key, "log_category_boot") { return "引导日志"; }
        if str_eq(key, "log_category_all") { return "全部日志"; }
        if str_eq(key, "gb") { return "GB"; }
        if str_eq(key, "mb") { return "MB"; }
        if str_eq(key, "kb") { return "KB"; }
        if str_eq(key, "b") { return "B"; }
        if str_eq(key, "url_request_about") { return "向URL发送HTTP请求"; }
        if str_eq(key, "url_help") { return "要请求的URL"; }
        if str_eq(key, "method_help") { return "HTTP方法 (GET, POST, PUT, DELETE)"; }
        if str_eq(key, "data_help") { return "请求数据 (JSON或纯文本)"; }
        if str_eq(key, "unsupported_method") { return "不支持的HTTP方法: {}"; }
        if str_eq(key, "data_update_failed") { return "⚠️  数据更新失败: {}"; }
        if str_eq(key, "docker_update_failed") { return "警告: Docker数据更新失败: {}"; }
        if str_eq(key, "docker_connect_failed") { return "连接Docker失败: {}"; }
        if str_eq(key, "log_read_failed") { return "⚠️  读取日志失败: {}"; }
        if str_eq(key, "log_update_failed") { return "日志更新失败: {}"; }
        if str_eq(key, "linux_only_logs") { return "⚠️  仅支持Linux系统查看日志"; }
        if str_eq(key, "journalctl_failed") { return "journalctl执行失败 (状态码: {})"; }
        if str_eq(key, "syslog_read_failed") { return "读取syslog失败 (状态码: {})"; }
        if str_eq(key, "unknown") { return "未知"; }
        if str_eq(key, "tcp") { return "tcp"; }
        key
    }
}

/// Looks a key up under the given language.
pub fn t<'a>(lang: Language, key: &'a str) -> (r: &'a str)
    ensures
        r@ == translation_spec(lang, key@),
{
    I18n::new(lang).get(key)
}

/// The table key naming a log category.
pub open spec fn category_key(c: LogCategory) -> Seq<char> {
    match c {
        LogCategory::System => "log_category_system"@,
        LogCategory::Kernel => "log_category_kernel"@,
        LogCategory::Error => "log_category_error"@,
        LogCategory::Docker => "log_category_docker"@,
        LogCategory::Boot => "log_category_boot"@,
        LogCategory::All => "log_category_all"@,
    }
}

/// The display name of a log category under the given language.
pub fn get_category_name(lang: Language, category: &LogCategory) -> (r: &'static str)
    ensures
        r@ == translation_spec(lang, category_key(*category)),
{
    match category {
        LogCategory::System => t(lang, "log_category_system"),
        LogCategory::Kernel => t(lang, "log_category_kernel"),
        LogCategory::Error => t(lang, "log_category_error"),
        LogCategory::Docker => t(lang, "log_category_docker"),
        LogCategory::Boot => t(lang, "log_category_boot"),
        LogCategory::All => t(lang, "log_category_all"),
    }
}

} // verus!
