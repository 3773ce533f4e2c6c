use std::path::PathBuf;

use notify::event::{CreateKind, DataChange, EventKind, ModifyKind, RemoveKind};
use notify::Event;
use positron_edr::events::{EventType, SecurityEvent, Severity};
use positron_edr::monitor::{on_watch_result, FileMonitor};
use tokio::sync::mpsc;

fn create_event(path: &str) -> Event {
    Event::new(EventKind::Create(CreateKind::File)).add_path(PathBuf::from(path))
}

#[test]
fn suspicious_create_enqueues_exactly_one_high_event() {
    let (tx, mut rx) = mpsc::unbounded_channel::<SecurityEvent>();
    on_watch_result(&tx, Ok(create_event("/watched/suspicious.exe")), "agent-001");
    let e = rx.try_recv().expect("one event should be enqueued");
    assert_eq!(e.event_type, EventType::FileCreated);
    assert_eq!(e.severity, Severity::High);
    assert_eq!(e.source, "agent-001");
    assert_eq!(e.details.get("file_extension"), Some("exe".to_string()));
    assert_eq!(
        e.details.get("file_path"),
        Some("/watched/suspicious.exe".to_string())
    );
    assert!(rx.try_recv().is_err(), "exactly one event expected");
}

#[test]
fn benign_create_is_info() {
    let (tx, mut rx) = mpsc::unbounded_channel::<SecurityEvent>();
    on_watch_result(&tx, Ok(create_event("/watched/readme.txt")), "agent-001");
    let e = rx.try_recv().unwrap();
    assert_eq!(e.severity, Severity::Info);
    assert_eq!(e.details.get("file_extension"), Some("txt".to_string()));
}

#[test]
fn modify_then_delete_arrive_in_order() {
    let (tx, mut rx) = mpsc::unbounded_channel::<SecurityEvent>();
    let modify = Event::new(EventKind::Modify(ModifyKind::Data(DataChange::Content)))
        .add_path(PathBuf::from("/watched/file.txt"));
    let remove = Event::new(EventKind::Remove(RemoveKind::File))
        .add_path(PathBuf::from("/watched/file.txt"));
    on_watch_result(&tx, Ok(modify), "agent-001");
    on_watch_result(&tx, Ok(remove), "agent-001");
    let first = rx.try_recv().unwrap();
    let second = rx.try_recv().unwrap();
    assert_eq!(first.event_type, EventType::FileModified);
    assert_eq!(first.severity, Severity::Info);
    assert_eq!(second.event_type, EventType::FileDeleted);
    assert_eq!(second.severity, Severity::Info);
    assert!(rx.try_recv().is_err());
}

#[test]
fn notification_without_paths_is_discarded() {
    let (tx, mut rx) = mpsc::unbounded_channel::<SecurityEvent>();
    on_watch_result(&tx, Ok(Event::new(EventKind::Create(CreateKind::File))), "agent-001");
    assert!(rx.try_recv().is_err(), "no event should be enqueued");
}

#[test]
fn watch_error_is_swallowed() {
    let (tx, mut rx) = mpsc::unbounded_channel::<SecurityEvent>();
    on_watch_result(&tx, Err(notify::Error::generic("transient")), "agent-001");
    assert!(rx.try_recv().is_err());
}

#[test]
fn stop_monitoring_twice_is_a_no_op() {
    let (tx, mut rx) = mpsc::unbounded_channel::<SecurityEvent>();
    let mut monitor = FileMonitor::new(tx, "agent-001".to_string());
    monitor.stop_monitoring();
    monitor.stop_monitoring();
    assert!(rx.try_recv().is_err());
}

#[test]
fn start_monitoring_missing_path_fails_with_notify_error() {
    let (tx, _rx) = mpsc::unbounded_channel::<SecurityEvent>();
    let mut monitor = FileMonitor::new(tx, "agent-001".to_string());
    let r = monitor.start_monitoring("/definitely/not/a/path/positron");
    assert!(matches!(r, Err(positron_edr::PositronError::Notify(_))));
    monitor.stop_monitoring();
}
