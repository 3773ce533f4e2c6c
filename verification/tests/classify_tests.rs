use positron_edr::classify::{convert_fs_event_to_security_event, get_file_extension, is_suspicious_file};
use positron_edr::events::{EventType, Severity};
use positron_edr::monitor::{RawEventKind, RawNotification};

fn raw(kind: RawEventKind, kind_text: &str, paths: &[&str]) -> RawNotification {
    RawNotification {
        kind,
        kind_text: kind_text.to_string(),
        paths: paths.iter().map(|p| p.to_string()).collect(),
    }
}

#[test]
fn suspicious_extensions_flagged() {
    assert!(is_suspicious_file("/watched/suspicious.exe"));
    assert!(is_suspicious_file("run.bat"));
    assert!(is_suspicious_file("job.cmd"));
    assert!(is_suspicious_file("script.ps1"));
    assert!(is_suspicious_file("macro.vbs"));
    assert!(is_suspicious_file("saver.scr"));
    assert!(is_suspicious_file("lib.dll"));
}

#[test]
fn suspicious_names_flagged_anywhere() {
    assert!(is_suspicious_file("/mnt/usb/autorun.inf"));
    assert!(is_suspicious_file("/mnt/usb/autorun.inf.bak"));
    assert!(is_suspicious_file("/home/user/desktop.ini"));
}

#[test]
fn case_insensitive_verdicts() {
    assert_eq!(
        is_suspicious_file("payload.ExE"),
        is_suspicious_file("PAYLOAD.EXE")
    );
    assert!(is_suspicious_file("PAYLOAD.EXE"));
    assert!(is_suspicious_file("AUTORUN.INF"));
    assert_eq!(
        is_suspicious_file("readme.txt"),
        is_suspicious_file("README.TXT")
    );
    assert!(!is_suspicious_file("README.TXT"));
}

#[test]
fn benign_names_pass() {
    assert!(!is_suspicious_file("notes.md"));
    assert!(!is_suspicious_file("exe.txt"));
    assert!(!is_suspicious_file("/watched/readme.txt"));
    assert!(!is_suspicious_file("autorun.in"));
    assert!(!is_suspicious_file(""));
}

#[test]
fn extension_of_paths() {
    assert_eq!(get_file_extension("/watched/readme.txt"), "txt");
    assert_eq!(get_file_extension("/watched/suspicious.exe"), "exe");
    assert_eq!(get_file_extension("archive.tar.gz"), "gz");
    assert_eq!(get_file_extension("noext"), "unknown");
    assert_eq!(get_file_extension(".bashrc"), "unknown");
    assert_eq!(get_file_extension("/dir.d/file"), "unknown");
}

#[test]
fn create_suspicious_is_high() {
    let n = raw(RawEventKind::Create, "Create(File)", &["/watched/suspicious.exe"]);
    let e = convert_fs_event_to_security_event(&n, "agent-001").unwrap();
    assert_eq!(e.event_type, EventType::FileCreated);
    assert_eq!(e.severity, Severity::High);
    assert_eq!(e.source, "agent-001");
    assert_eq!(e.description, "File operation on /watched/suspicious.exe");
    assert_eq!(
        e.details.get("file_path"),
        Some("/watched/suspicious.exe".to_string())
    );
    assert_eq!(e.details.get("file_extension"), Some("exe".to_string()));
    assert_eq!(e.details.get("event_kind"), Some("Create(File)".to_string()));
}

#[test]
fn create_benign_is_info() {
    let n = raw(RawEventKind::Create, "Create(File)", &["/watched/readme.txt"]);
    let e = convert_fs_event_to_security_event(&n, "agent-001").unwrap();
    assert_eq!(e.event_type, EventType::FileCreated);
    assert_eq!(e.severity, Severity::Info);
    assert_eq!(e.details.get("file_extension"), Some("txt".to_string()));
}

#[test]
fn modify_and_remove_are_info_even_for_suspicious_names() {
    let m = raw(RawEventKind::Modify, "Modify(Data)", &["/watched/evil.exe"]);
    let e = convert_fs_event_to_security_event(&m, "a").unwrap();
    assert_eq!(e.event_type, EventType::FileModified);
    assert_eq!(e.severity, Severity::Info);

    let r = raw(RawEventKind::Remove, "Remove(File)", &["/watched/evil.exe"]);
    let e = convert_fs_event_to_security_event(&r, "a").unwrap();
    assert_eq!(e.event_type, EventType::FileDeleted);
    assert_eq!(e.severity, Severity::Info);
}

#[test]
fn unclassified_kind_is_discarded() {
    let n = raw(RawEventKind::Other, "Access(Open)", &["/watched/readme.txt"]);
    assert!(convert_fs_event_to_security_event(&n, "a").is_none());
}

#[test]
fn empty_path_list_is_discarded() {
    let n = raw(RawEventKind::Create, "Create(File)", &[]);
    assert!(convert_fs_event_to_security_event(&n, "a").is_none());
}
