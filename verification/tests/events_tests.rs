use positron_edr::events::{EventType, SecurityEvent, Severity, Timestamp};
use positron_edr::{simulate_error, PositronError};

#[test]
fn severity_ranks_are_ordered() {
    let order = [
        Severity::Info,
        Severity::Low,
        Severity::Medium,
        Severity::High,
        Severity::Critical,
    ];
    for w in order.windows(2) {
        assert!(w[0].rank() < w[1].rank());
    }
    assert_eq!(Severity::Info.rank(), 0);
    assert_eq!(Severity::Critical.rank(), 4);
}

#[test]
fn file_event_shape() {
    let e = SecurityEvent::file_event(
        EventType::FileCreated,
        "/tmp/suspicious_file.exe",
        "agent-001".to_string(),
    );
    assert_eq!(e.event_type, EventType::FileCreated);
    assert_eq!(e.severity, Severity::Info);
    assert_eq!(e.source, "agent-001");
    assert_eq!(e.description, "File operation on /tmp/suspicious_file.exe");
    assert_eq!(
        e.details.get("file_path"),
        Some("/tmp/suspicious_file.exe".to_string())
    );
    assert_eq!(e.details.len(), 1);
}

#[test]
fn process_event_shape() {
    let e = SecurityEvent::process_event(
        EventType::ProcessStarted,
        "powershell.exe",
        1234,
        "agent-001".to_string(),
    );
    assert_eq!(e.description, "Process powershell.exe (PID: 1234)");
    assert_eq!(e.details.get("process_name"), Some("powershell.exe".to_string()));
    assert_eq!(e.details.get("pid"), Some("1234".to_string()));
    assert_eq!(e.severity, Severity::Info);
}

#[test]
fn network_event_shape() {
    let e = SecurityEvent::network_event(
        EventType::NetworkConnectionEstablished,
        "192.168.1.100",
        "10.0.0.1:443",
        "agent-001".to_string(),
    );
    assert_eq!(e.description, "Network connection 192.168.1.100 -> 10.0.0.1:443");
    assert_eq!(e.details.get("local_address"), Some("192.168.1.100".to_string()));
    assert_eq!(e.details.get("remote_address"), Some("10.0.0.1:443".to_string()));
}

#[test]
fn auth_event_shape() {
    let e = SecurityEvent::auth_event(
        EventType::LoginFailure,
        "admin",
        Severity::Medium,
        "agent-001".to_string(),
    );
    assert_eq!(e.description, "Authentication event for user admin");
    assert_eq!(e.details.get("Username"), Some("admin".to_string()));
    assert_eq!(e.severity, Severity::Medium);
}

#[test]
fn registry_event_shape() {
    let e = SecurityEvent::registry_event(
        EventType::RegistryKeyModified,
        "HKEY_LOCAL_MACHINE\\SOFTWARE\\Run",
        Some("MaliciousStartup"),
        "agent-windows-001".to_string(),
    );
    assert_eq!(e.description, "Registry operation on HKEY_LOCAL_MACHINE\\SOFTWARE\\Run");
    assert_eq!(
        e.details.get("registry_path"),
        Some("HKEY_LOCAL_MACHINE\\SOFTWARE\\Run".to_string())
    );
    assert_eq!(e.details.get("value_name"), Some("MaliciousStartup".to_string()));

    let bare = SecurityEvent::registry_event(
        EventType::RegistryKeyDeleted,
        "HKLM\\X",
        None,
        "a".to_string(),
    );
    assert_eq!(bare.details.get("value_name"), None);
    assert_eq!(bare.details.len(), 1);
}

#[test]
fn linux_sys_event_shape() {
    let e = SecurityEvent::linux_sys_event(
        EventType::SudoUsage,
        "User attempted sudo access",
        Severity::Medium,
        "agent-linux-001".to_string(),
    );
    assert_eq!(e.description, "Linux system event: User attempted sudo access");
    assert_eq!(
        e.details.get("system_details"),
        Some("User attempted sudo access".to_string())
    );
}

#[test]
fn security_alert_shape() {
    let e = SecurityEvent::security_alert(
        EventType::MalwareDetected,
        "Trojan.Win32.Generic",
        Severity::Critical,
        "agent-001".to_string(),
    );
    assert_eq!(e.description, "Security alert: Trojan.Win32.Generic");
    assert_eq!(e.details.get("threat_name"), Some("Trojan.Win32.Generic".to_string()));
    assert_eq!(e.details.get("alert_type"), Some("security".to_string()));
    assert_eq!(e.severity, Severity::Critical);
}

#[test]
fn add_detail_last_write_wins() {
    let mut e = SecurityEvent::new(
        EventType::SystemStartup,
        Severity::Info,
        "a".to_string(),
        "boot".to_string(),
    );
    e.add_detail("key", "first");
    e.add_detail("other", "x");
    e.add_detail("key", "second");
    assert_eq!(e.details.get("key"), Some("second".to_string()));
    assert_eq!(e.details.get("other"), Some("x".to_string()));
    assert_eq!(e.details.len(), 2);
}

#[test]
fn timestamp_from_parts_clamps() {
    let t = Timestamp::from_parts(-5, 0, 99, 99, 99, 99, 2_000_000_000);
    assert_eq!(t.year, 0);
    assert_eq!(t.month, 1);
    assert_eq!(t.day, 31);
    assert_eq!(t.hour, 23);
    assert_eq!(t.minute, 59);
    assert_eq!(t.second, 59);
    assert_eq!(t.nanos, 999_999_999);
    let u = Timestamp::from_parts(2024, 1, 2, 3, 4, 5, 6);
    assert_eq!((u.year, u.month, u.day), (2024, 1, 2));
    assert_eq!((u.hour, u.minute, u.second, u.nanos), (3, 4, 5, 6));
}

#[test]
fn error_messages() {
    assert_eq!(
        PositronError::Io("boom".to_string()).message(),
        "I/O error: boom"
    );
    assert_eq!(
        PositronError::Json("bad".to_string()).message(),
        "JSON error: bad"
    );
    assert_eq!(PositronError::Message("hi".to_string()).message(), "hi");
}

#[test]
fn notify_error_message_carries_prefix_and_cause() {
    let e = PositronError::from(notify::Error::generic("boom"));
    let m = e.message();
    assert!(m.starts_with("File System notify error: "));
    assert!(m.contains("boom"));
}

#[test]
fn simulate_error_is_ok() {
    assert!(simulate_error().is_ok());
}
