use docwatch::errors::WatchSetupError;
use docwatch::event::{ChangeEvent, ChangeKind, RawEvent, RawEventKind};
use docwatch::paths::file_name_of;
use docwatch::watcher::{classify, process_events, WatchTarget};

fn target() -> WatchTarget {
    WatchTarget::new("/tmp/doc.pdf").unwrap()
}

fn raw(kind: RawEventKind, paths: &[&str]) -> RawEvent {
    RawEvent { kind, paths: paths.iter().map(|p| p.to_string()).collect() }
}

#[test]
fn target_split() {
    let t = target();
    assert_eq!(t.path, "/tmp/doc.pdf");
    assert_eq!(t.parent_dir, "/tmp");
    assert_eq!(t.file_name, "doc.pdf");
}

#[test]
fn target_in_root_dir() {
    let t = WatchTarget::new("/doc.pdf").unwrap();
    assert_eq!(t.parent_dir, "/");
    assert_eq!(t.file_name, "doc.pdf");
}

#[test]
fn target_nested() {
    let t = WatchTarget::new("/home/user/docs/thesis.pdf").unwrap();
    assert_eq!(t.parent_dir, "/home/user/docs");
    assert_eq!(t.file_name, "thesis.pdf");
}

#[test]
fn setup_error_empty_path() {
    assert_eq!(WatchTarget::new("").unwrap_err(), WatchSetupError::NotAbsolute);
}

#[test]
fn setup_error_relative_path() {
    assert_eq!(WatchTarget::new("doc.pdf").unwrap_err(), WatchSetupError::NotAbsolute);
}

#[test]
fn setup_error_directory_path() {
    assert_eq!(WatchTarget::new("/tmp/").unwrap_err(), WatchSetupError::MissingFileName);
    assert_eq!(WatchTarget::new("/").unwrap_err(), WatchSetupError::MissingFileName);
}

#[test]
fn file_name_of_cases() {
    assert_eq!(file_name_of("/tmp/doc.pdf"), Some("doc.pdf".to_string()));
    assert_eq!(file_name_of("doc.pdf"), Some("doc.pdf".to_string()));
    assert_eq!(file_name_of("/tmp/"), None);
    assert_eq!(file_name_of(""), None);
}

#[test]
fn non_data_kinds_emit_nothing() {
    let t = target();
    let events = vec![
        raw(RawEventKind::Created, &["/tmp/doc.pdf"]),
        raw(RawEventKind::MetadataModified, &["/tmp/doc.pdf"]),
        raw(RawEventKind::Removed, &["/tmp/doc.pdf"]),
        raw(RawEventKind::Renamed, &["/tmp/doc.pdf"]),
        raw(RawEventKind::Other, &["/tmp/doc.pdf"]),
    ];
    assert!(process_events(&events, &t, 1).is_empty());
}

#[test]
fn other_files_emit_nothing() {
    let t = target();
    let events = vec![
        raw(RawEventKind::DataModified, &["/tmp/other.pdf"]),
        raw(RawEventKind::DataModified, &["/tmp/doc.pdf.swp"]),
        raw(RawEventKind::DataModified, &[]),
        raw(RawEventKind::DataModified, &["/tmp/"]),
    ];
    assert!(process_events(&events, &t, 1).is_empty());
}

#[test]
fn qualifying_event_emits_exactly_one() {
    let t = target();
    let ev = raw(RawEventKind::DataModified, &["/tmp/doc.pdf"]);
    let out = process_events(&vec![ev], &t, 42);
    assert_eq!(out.len(), 1);
    assert_eq!(out[0], ChangeEvent { kind: ChangeKind::DataModified, occurred_at: 42 });
}

#[test]
fn classify_matches_any_affected_path() {
    let t = target();
    let ev = raw(RawEventKind::DataModified, &["/tmp/other.txt", "/elsewhere/doc.pdf"]);
    assert_eq!(classify(&ev, &t, 7), Some(ChangeEvent { kind: ChangeKind::DataModified, occurred_at: 7 }));
}

#[test]
fn classify_rejects_metadata_for_watched_file() {
    let t = target();
    let ev = raw(RawEventKind::MetadataModified, &["/tmp/doc.pdf"]);
    assert_eq!(classify(&ev, &t, 7), None);
}

#[test]
fn burst_is_not_coalesced() {
    let t = target();
    let events = vec![
        raw(RawEventKind::DataModified, &["/tmp/doc.pdf"]),
        raw(RawEventKind::DataModified, &["/tmp/doc.pdf"]),
        raw(RawEventKind::DataModified, &["/tmp/doc.pdf"]),
    ];
    assert_eq!(process_events(&events, &t, 9).len(), 3);
}
