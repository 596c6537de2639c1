use sysmon::docker::{
    format_container_log_line, strip_leading_slashes, u64_to_string, ContainerSummaryInfo,
    DockerData, PollOutcome, PortInfo,
};
use sysmon::i18n::{Language, t};

fn container(names: &[&str], status: Option<&str>, ports: Vec<PortInfo>) -> ContainerSummaryInfo {
    ContainerSummaryInfo {
        names: names.iter().map(|s| String::from(*s)).collect(),
        status: status.map(String::from),
        ports,
    }
}

fn port(public: Option<u16>, typ: Option<&str>) -> PortInfo {
    PortInfo { public_port: public, typ: typ.map(String::from) }
}

#[test]
fn success_replaces_list_and_clears_error() {
    let mut d = DockerData::new();
    d.update(Language::English, PollOutcome::Error(String::from("boom")));
    assert!(d.error().is_some());
    d.update(Language::English, PollOutcome::Success(vec![
        container(&["/web"], Some("Up 2 hours"), vec![
            port(Some(8080), Some("tcp")),
            port(None, Some("tcp")),
        ]),
    ]));
    assert!(d.error().is_none());
    let cs = d.containers();
    assert_eq!(cs.len(), 1);
    assert_eq!(cs[0].name.as_str(), "web");
    assert_eq!(cs[0].status.as_str(), "Up 2 hours");
    assert_eq!(cs[0].cpu_usage, 0);
    assert_eq!(cs[0].memory_usage, 0);
    // The unmapped port is omitted.
    assert_eq!(cs[0].ports.as_str(), "8080/tcp");
}

#[test]
fn ports_comma_joined_with_default_protocol() {
    let mut d = DockerData::new();
    d.update(Language::English, PollOutcome::Success(vec![
        container(&["/db"], Some("running"), vec![
            port(Some(80), Some("tcp")),
            port(Some(443), None),
        ]),
    ]));
    assert_eq!(d.containers()[0].ports.as_str(), "80/tcp, 443/tcp");
}

#[test]
fn unnamed_container_gets_placeholder() {
    let mut d = DockerData::new();
    d.update(Language::English, PollOutcome::Success(vec![
        container(&[], None, vec![]),
    ]));
    assert_eq!(d.containers()[0].name.as_str(), t(Language::English, "unknown"));
    assert_eq!(d.containers()[0].status.as_str(), "unknown");
}

#[test]
fn explicit_error_clears_list_and_records_message() {
    let mut d = DockerData::new();
    d.update(Language::English, PollOutcome::Success(vec![
        container(&["/one"], Some("running"), vec![]),
    ]));
    d.update(Language::English, PollOutcome::Error(String::from("socket closed")));
    assert_eq!(d.containers().len(), 0);
    let msg = d.error().unwrap();
    assert_eq!(msg.as_str(), "Failed to list containers: {} socket closed");
}

#[test]
fn timeout_preserves_nonempty_state() {
    let mut d = DockerData::new();
    d.update(Language::English, PollOutcome::Success(vec![
        container(&["/a"], Some("running"), vec![]),
        container(&["/b"], Some("exited"), vec![]),
    ]));
    d.update(Language::English, PollOutcome::Timeout);
    assert_eq!(d.containers().len(), 2);
    assert!(d.error().is_none());
}

#[test]
fn timeout_with_empty_list_records_error() {
    let mut d = DockerData::new();
    d.update(Language::English, PollOutcome::Timeout);
    assert_eq!(d.containers().len(), 0);
    assert!(d.error().is_some());
}

#[test]
fn unavailable_runtime_short_circuits() {
    let mut d = DockerData::new();
    d.update(Language::English, PollOutcome::Success(vec![
        container(&["/a"], Some("running"), vec![]),
    ]));
    d.update(Language::English, PollOutcome::Unavailable);
    assert_eq!(d.containers().len(), 0);
    assert_eq!(d.error().unwrap().as_str(), t(Language::English, "docker_not_available"));
}

#[test]
fn decimal_formatting() {
    assert_eq!(u64_to_string(0).as_str(), "0");
    assert_eq!(u64_to_string(7).as_str(), "7");
    assert_eq!(u64_to_string(12345).as_str(), "12345");
    assert_eq!(u64_to_string(u64::MAX).as_str(), "18446744073709551615");
}

#[test]
fn leading_separators_stripped() {
    assert_eq!(strip_leading_slashes("/web").as_str(), "web");
    assert_eq!(strip_leading_slashes("//a/b").as_str(), "a/b");
    assert_eq!(strip_leading_slashes("plain").as_str(), "plain");
    assert_eq!(strip_leading_slashes("///").as_str(), "");
}

#[test]
fn container_log_lines_tagged_and_blank_dropped() {
    let line = format_container_log_line("web", "OUT", "hello world\n").unwrap();
    assert_eq!(line.as_str(), "[web][OUT] hello world\n");
    assert!(format_container_log_line("web", "ERR", "   \n\t").is_none());
    assert!(format_container_log_line("web", "ERR", "").is_none());
}
