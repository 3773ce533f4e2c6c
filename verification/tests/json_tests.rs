use positron_edr::events::{DetailMap, EventType, SecurityEvent, Severity, Timestamp};
use positron_edr::PositronError;

fn fixed_ts() -> Timestamp {
    Timestamp {
        year: 2024,
        month: 1,
        day: 2,
        hour: 3,
        minute: 4,
        second: 5,
        nanos: 6,
    }
}

fn event_with(et: EventType, sev: Severity, details: &[(&str, &str)]) -> SecurityEvent {
    let mut e = SecurityEvent {
        timestamp: fixed_ts(),
        event_type: et,
        severity: sev,
        source: "agent-001".to_string(),
        description: "hello".to_string(),
        details: DetailMap::new(),
    };
    for (k, v) in details {
        e.add_detail(k, v);
    }
    e
}

fn assert_events_equal(a: &SecurityEvent, b: &SecurityEvent, keys: &[&str]) {
    assert_eq!(a.timestamp, b.timestamp);
    assert_eq!(a.event_type, b.event_type);
    assert_eq!(a.severity, b.severity);
    assert_eq!(a.source, b.source);
    assert_eq!(a.description, b.description);
    assert_eq!(a.details.len(), b.details.len());
    for k in keys {
        assert_eq!(a.details.get(k), b.details.get(k));
    }
}

#[test]
fn canonical_text_empty_details() {
    let e = event_with(EventType::FileCreated, Severity::High, &[]);
    let json = e.to_json().unwrap();
    assert_eq!(
        json,
        "{\"timestamp\":\"2024-01-02T03:04:05.000000006Z\",\"event_type\":\"FileCreated\",\
         \"severity\":\"High\",\"source\":\"agent-001\",\"description\":\"hello\",\"details\":{}}"
    );
}

#[test]
fn canonical_text_with_details() {
    let e = event_with(EventType::FileDeleted, Severity::Info, &[("file_path", "/x")]);
    let json = e.to_json().unwrap();
    assert_eq!(
        json,
        "{\"timestamp\":\"2024-01-02T03:04:05.000000006Z\",\"event_type\":\"FileDeleted\",\
         \"severity\":\"Info\",\"source\":\"agent-001\",\"description\":\"hello\",\
         \"details\":{\"file_path\":\"/x\"}}"
    );
}

#[test]
fn round_trip_every_event_type_and_severity() {
    let all_types = [
        EventType::FileCreated,
        EventType::FileModified,
        EventType::FileDeleted,
        EventType::FileRenamed,
        EventType::FilePermissionChanged,
        EventType::DirectoryCreated,
        EventType::DirectoryDeleted,
        EventType::ProcessStarted,
        EventType::ProcessTerminated,
        EventType::ProcessInjection,
        EventType::DllLoaded,
        EventType::ChildProcessCreated,
        EventType::NetworkConnectionEstablished,
        EventType::NetworkConnectionClosed,
        EventType::DnsQuery,
        EventType::HttpRequest,
        EventType::SuspiciousTraffic,
        EventType::LoginSuccess,
        EventType::LoginFailure,
        EventType::LogoutEvent,
        EventType::PrivilegeEscalation,
        EventType::PasswordChanged,
        EventType::RegistryKeyCreated,
        EventType::RegistryKeyModified,
        EventType::RegistryKeyDeleted,
        EventType::WindowsServiceStarted,
        EventType::WindowsServiceStopped,
        EventType::ScheduledTaskCreated,
        EventType::CronJobCreated,
        EventType::SudoUsage,
        EventType::PackageInstalled,
        EventType::KernelModuleLoaded,
        EventType::SystemdServiceChanged,
        EventType::MalwareDetected,
        EventType::SuspiciousCommand,
        EventType::UnauthorizedAccess,
        EventType::DataExfil,
        EventType::AntiVirusAlert,
        EventType::FireWallBlock,
        EventType::SystemStartup,
        EventType::SystemShutdown,
        EventType::TimeChanged,
        EventType::UserCreated,
        EventType::UserDeleted,
        EventType::GroupMembershipChanged,
    ];
    let all_severities = [
        Severity::Info,
        Severity::Low,
        Severity::Medium,
        Severity::High,
        Severity::Critical,
    ];
    for et in all_types {
        for sev in all_severities {
            let empty = event_with(et, sev, &[]);
            let back = SecurityEvent::from_json(&empty.to_json().unwrap()).unwrap();
            assert_events_equal(&empty, &back, &[]);

            let full = event_with(et, sev, &[("file_path", "/a/b.txt"), ("pid", "42")]);
            let back = SecurityEvent::from_json(&full.to_json().unwrap()).unwrap();
            assert_events_equal(&full, &back, &["file_path", "pid"]);
        }
    }
}

#[test]
fn round_trip_with_escaped_characters() {
    let mut e = event_with(EventType::SuspiciousCommand, Severity::Low, &[]);
    e.description = "say \"hi\" \\ and\nnewline\ttab".to_string();
    e.source = "agent \"x\"".to_string();
    e.add_detail("cmd\"line", "a\\b\u{1}");
    let json = e.to_json().unwrap();
    assert!(json.contains("\\\""));
    assert!(json.contains("\\\\"));
    assert!(json.contains("\\u000a"));
    let back = SecurityEvent::from_json(&json).unwrap();
    assert_events_equal(&e, &back, &["cmd\"line"]);
}

#[test]
fn timestamp_round_trips_through_text() {
    let e = event_with(EventType::TimeChanged, Severity::Info, &[]);
    let json = e.to_json().unwrap();
    assert!(json.contains("\"2024-01-02T03:04:05.000000006Z\""));
    let back = SecurityEvent::from_json(&json).unwrap();
    assert_eq!(back.timestamp, fixed_ts());
}

#[test]
fn duplicate_detail_keys_collapse_last_write_wins() {
    let json = "{\"timestamp\":\"2024-01-02T03:04:05.000000006Z\",\"event_type\":\"FileCreated\",\
                \"severity\":\"Info\",\"source\":\"s\",\"description\":\"d\",\
                \"details\":{\"a\":\"1\",\"a\":\"2\"}}";
    let e = SecurityEvent::from_json(json).unwrap();
    assert_eq!(e.details.get("a"), Some("2".to_string()));
    assert_eq!(e.details.len(), 1);
}

#[test]
fn malformed_json_is_rejected() {
    for bad in [
        "",
        "{}",
        "not json at all",
        "{\"timestamp\":\"2024-13-02T03:04:05.000000006Z\",\"event_type\":\"FileCreated\",\
         \"severity\":\"Info\",\"source\":\"s\",\"description\":\"d\",\"details\":{}}",
        "{\"timestamp\":\"2024-01-02T03:04:05.000000006Z\",\"event_type\":\"NotAType\",\
         \"severity\":\"Info\",\"source\":\"s\",\"description\":\"d\",\"details\":{}}",
        "{\"timestamp\":\"2024-01-02T03:04:05.000000006Z\",\"event_type\":\"FileCreated\",\
         \"severity\":\"Whatever\",\"source\":\"s\",\"description\":\"d\",\"details\":{}}",
        "{\"timestamp\":\"2024-01-02T03:04:05.000000006Z\",\"event_type\":\"FileCreated\",\
         \"severity\":\"Info\",\"source\":\"s\",\"description\":\"d\",\"details\":{}}trailing",
    ] {
        let r = SecurityEvent::from_json(bad);
        assert!(matches!(r, Err(PositronError::Json(_))), "accepted: {bad}");
    }
}
