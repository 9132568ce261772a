use stool::filter::build_globset;
use stool::pid::{lock_owner, may_take_lock, pid_text, LockFile};
use stool::relpath::RelPath;
use stool::sync::{classify_failure, destination_filters, FileStamp, IoFailure, ScanEntry, SyncDir, SyncJobError, SyncOp};
use stool::worker::{restore_phases, RestorePhase};

fn rel(s: &str) -> RelPath {
    RelPath::new(s.split('/').map(|c| c.to_string()).collect())
}

fn file(s: &str, size: u64, secs: i64) -> ScanEntry {
    ScanEntry { path: rel(s), is_file: true, stamp: FileStamp { size, mtime_secs: secs, mtime_nanos: 0 } }
}

#[test]
fn lock_file_text_names_its_owner() {
    assert_eq!(lock_owner(&LockFile::Text("4242".to_string())), Some(4242));
    assert_eq!(lock_owner(&LockFile::Text("not a pid".to_string())), None);
    assert_eq!(lock_owner(&LockFile::Absent), None);
    assert_eq!(lock_owner(&LockFile::Unreadable), None);
}

#[test]
fn lock_is_refused_only_to_a_live_owner_or_unreadable_file() {
    assert!(may_take_lock(&LockFile::Absent, false));
    assert!(may_take_lock(&LockFile::Unopenable, false));
    assert!(!may_take_lock(&LockFile::Unreadable, false));
    assert!(!may_take_lock(&LockFile::Text("4242".to_string()), true));
    assert!(may_take_lock(&LockFile::Text("4242".to_string()), false));
    assert!(may_take_lock(&LockFile::Text("garbage".to_string()), true));
}

#[test]
fn pid_text_is_decimal() {
    assert_eq!(pid_text(0), "0");
    assert_eq!(pid_text(7), "7");
    assert_eq!(pid_text(4242), "4242");
    assert_eq!(pid_text(u32::MAX), "4294967295");
    assert_eq!(lock_owner(&LockFile::Text(pid_text(31337))), Some(31337));
}

#[test]
fn new_files_are_copied_before_changed_ones() {
    let src = SyncDir::new(
        "/t".to_string(),
        &vec![file("changed", 2, 2), file("fresh", 1, 1), file("same", 3, 3)],
        None,
        None,
    );
    let dst = SyncDir::new("/s".to_string(), &vec![file("changed", 9, 2), file("same", 3, 3)], None, None);
    let order: Vec<String> = dst.files_to_copy(&src).iter().map(|p| p.to_slash_string()).collect();
    assert_eq!(order, vec!["fresh", "changed"]);
    let job = dst.sync_from(&src, &vec![10, 20]);
    let ops: Vec<String> = job
        .ops
        .iter()
        .map(|op| match op {
            SyncOp::Copy { path } => format!("copy {}", path.to_slash_string()),
            SyncOp::VerifyCheckSum { path, crc32, .. } => format!("verify {} {}", path.to_slash_string(), crc32),
            _ => "other".to_string(),
        })
        .collect();
    assert_eq!(ops, vec!["copy fresh", "copy changed", "verify fresh 10", "verify changed 20"]);
}

#[test]
fn failures_are_classified_for_retry() {
    assert!(matches!(classify_failure(rel("a"), IoFailure::MetadataUnavailable), SyncJobError::ReadError { .. }));
    assert!(matches!(classify_failure(rel("a"), IoFailure::Unreadable), SyncJobError::ReadError { .. }));
    assert!(matches!(classify_failure(rel("a"), IoFailure::NotFound), SyncJobError::FileNotFound { .. }));
    match classify_failure(rel("a"), IoFailure::Other { message: "disk full".to_string() }) {
        SyncJobError::Other { message } => assert_eq!(message, "disk full"),
        other => panic!("unexpected {other:?}"),
    }
}

#[test]
fn restore_scans_live_tree_with_the_lists_backup_does_not() {
    let ignore = build_globset(&vec!["*.log".to_string()]).unwrap();
    let (a, i) = destination_filters(true, None, Some(&ignore));
    assert!(a.is_none());
    assert!(i.unwrap().is_match("noise.log"));
    let (a, i) = destination_filters(false, None, Some(&ignore));
    assert!(a.is_none() && i.is_none());
}

#[test]
fn restore_of_missing_archive_does_nothing() {
    assert!(restore_phases(false).is_empty());
    assert_eq!(
        restore_phases(true),
        vec![
            RestorePhase::Begin,
            RestorePhase::ResetStaging,
            RestorePhase::Extract,
            RestorePhase::RestoreSaves,
            RestorePhase::Settle,
            RestorePhase::End,
        ]
    );
}
