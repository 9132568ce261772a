use stool::filter::{build_globset, FilterError};
use stool::hash::{checksum_of, ChecksumStream};
use stool::relpath::RelPath;
use stool::sync::{
    check_checksum, file_needs_copy, should_retry, sync_file_job, FileEntry, FileStamp, ScanEntry, SyncDir,
    SyncJobError, SyncOp,
};

fn rel(s: &str) -> RelPath {
    RelPath::new(s.split('/').map(|c| c.to_string()).collect())
}

fn stamp(size: u64, secs: i64) -> FileStamp {
    FileStamp { size, mtime_secs: secs, mtime_nanos: 0 }
}

fn dir(s: &str) -> ScanEntry {
    ScanEntry { path: rel(s), is_file: false, stamp: stamp(0, 0) }
}

fn file(s: &str, size: u64, secs: i64) -> ScanEntry {
    ScanEntry { path: rel(s), is_file: true, stamp: stamp(size, secs) }
}

fn root_entry() -> ScanEntry {
    ScanEntry { path: RelPath::new(vec![]), is_file: false, stamp: stamp(0, 0) }
}

fn describe(op: &SyncOp) -> String {
    match op {
        SyncOp::Copy { path } => format!("copy {}", path.to_slash_string()),
        SyncOp::CreateDir { path } => format!("mkdir {}", path.to_slash_string()),
        SyncOp::Delete { path } => format!("delete {}", path.to_slash_string()),
        SyncOp::RemoveDir { path } => format!("rmdir {}", path.to_slash_string()),
        SyncOp::VerifyCheckSum { path, size, crc32 } => {
            format!("verify {} {} {}", path.to_slash_string(), size, crc32)
        }
    }
}

fn tree_t() -> Vec<ScanEntry> {
    vec![
        root_entry(),
        file("a.txt", 6, 100),
        dir("sub"),
        file("sub/b.bin", 256, 200),
        dir("sub/empty"),
        file("noise.log", 3, 300),
    ]
}

#[test]
fn slash_string_joins_components() {
    assert_eq!(rel("sub/b.bin").to_slash_string(), "sub/b.bin");
    assert_eq!(rel("a.txt").to_slash_string(), "a.txt");
    assert_eq!(RelPath::new(vec![]).to_slash_string(), "");
}

#[test]
fn scan_drops_ignored_files_and_root() {
    let ignore = build_globset(&vec!["*.log".to_string()]).unwrap();
    let d = SyncDir::new("/t".to_string(), &tree_t(), None, Some(&ignore));
    let dirs: Vec<String> = d.dirs.iter().map(|p| p.to_slash_string()).collect();
    let files: Vec<String> = d.files.iter().map(|f| f.path.to_slash_string()).collect();
    assert_eq!(dirs, vec!["sub", "sub/empty"]);
    assert_eq!(files, vec!["a.txt", "sub/b.bin"]);
}

#[test]
fn scan_allow_list_keeps_only_matching_files() {
    let allow = build_globset(&vec!["*.bin".to_string()]).unwrap();
    let d = SyncDir::new("/t".to_string(), &tree_t(), Some(&allow), None);
    let files: Vec<String> = d.files.iter().map(|f| f.path.to_slash_string()).collect();
    assert_eq!(files, vec!["sub/b.bin"]);
    // directories are not subject to the allow list
    assert_eq!(d.dirs.len(), 2);
}

#[test]
fn scan_keeps_a_repeated_path_once() {
    let entries = vec![file("a.txt", 1, 1), file("a.txt", 2, 2), dir("x"), dir("x")];
    let d = SyncDir::new("/t".to_string(), &entries, None, None);
    assert_eq!(d.files.len(), 1);
    assert_eq!(d.files[0].stamp, stamp(1, 1));
    assert_eq!(d.dirs.len(), 1);
}

#[test]
fn backup_of_tree_into_empty_staging() {
    let ignore = build_globset(&vec!["*.log".to_string()]).unwrap();
    let src = SyncDir::new("/t".to_string(), &tree_t(), None, Some(&ignore));
    let dst = SyncDir::new("/staging/main".to_string(), &vec![root_entry()], None, None);
    let to_copy: Vec<String> = dst.files_to_copy(&src).iter().map(|p| p.to_slash_string()).collect();
    assert_eq!(to_copy, vec!["a.txt", "sub/b.bin"]);
    let job = dst.sync_from(&src, &vec![11, 22]);
    assert_eq!(job.src_path, "/t");
    assert_eq!(job.dst_path, "/staging/main");
    let ops: Vec<String> = job.ops.iter().map(describe).collect();
    assert_eq!(
        ops,
        vec![
            "mkdir sub",
            "mkdir sub/empty",
            "copy a.txt",
            "copy sub/b.bin",
            "verify a.txt 6 11",
            "verify sub/b.bin 256 22",
        ]
    );
}

#[test]
fn second_sync_of_mirrored_tree_plans_nothing() {
    let src = SyncDir::new("/t".to_string(), &tree_t(), None, None);
    let dst = SyncDir::new("/s".to_string(), &tree_t(), None, None);
    assert!(dst.files_to_copy(&src).is_empty());
    let job = dst.sync_from(&src, &vec![]);
    assert!(job.ops.is_empty());
}

#[test]
fn changed_size_or_mtime_is_copied_again() {
    let src = SyncDir::new(
        "/t".to_string(),
        &vec![file("a", 6, 100), file("b", 5, 100), file("c", 5, 100)],
        None,
        None,
    );
    let dst = SyncDir::new(
        "/s".to_string(),
        &vec![file("a", 7, 100), file("b", 5, 101), file("c", 5, 100)],
        None,
        None,
    );
    let job = dst.sync_from(&src, &vec![1, 2]);
    let ops: Vec<String> = job.ops.iter().map(describe).collect();
    assert_eq!(ops, vec!["copy a", "copy b", "verify a 6 1", "verify b 5 2"]);
}

#[test]
fn stale_entries_are_deleted_deepest_directory_first() {
    let src = SyncDir::new("/t".to_string(), &vec![dir("keep")], None, None);
    let dst = SyncDir::new(
        "/s".to_string(),
        &vec![dir("keep"), dir("x"), dir("a"), dir("a/b"), dir("a/b/c"), file("a/b/old.txt", 1, 1)],
        None,
        None,
    );
    let job = dst.sync_from(&src, &vec![]);
    let ops: Vec<String> = job.ops.iter().map(describe).collect();
    assert_eq!(ops, vec!["delete a/b/old.txt", "rmdir a/b/c", "rmdir a/b", "rmdir x", "rmdir a"]);
}

#[test]
fn restore_keeps_ignored_live_files() {
    // restoring scans the live tree with the same lists, so an ignored live
    // file is not seen and so not deleted
    let ignore = build_globset(&vec!["*.log".to_string()]).unwrap();
    let staged = SyncDir::new(
        "/staging/main".to_string(),
        &vec![file("a.txt", 6, 100)],
        None,
        Some(&ignore),
    );
    let live = SyncDir::new(
        "/t".to_string(),
        &vec![file("a.txt", 6, 100), file("noise.log", 3, 1)],
        None,
        Some(&ignore),
    );
    let job = live.sync_from(&staged, &vec![]);
    assert!(job.ops.is_empty());
}

#[test]
fn restore_into_deleted_tree_recreates_it() {
    let ignore = build_globset(&vec!["*.log".to_string()]).unwrap();
    let staged_entries =
        vec![root_entry(), file("a.txt", 6, 100), dir("sub"), file("sub/b.bin", 256, 200), dir("sub/empty")];
    let staged = SyncDir::new("/staging/main".to_string(), &staged_entries, None, Some(&ignore));
    let live = SyncDir::new("/t".to_string(), &vec![root_entry()], None, Some(&ignore));
    let job = live.sync_from(&staged, &vec![5, 6]);
    let ops: Vec<String> = job.ops.iter().map(describe).collect();
    assert_eq!(
        ops,
        vec!["mkdir sub", "mkdir sub/empty", "copy a.txt", "copy sub/b.bin", "verify a.txt 6 5", "verify sub/b.bin 256 6"]
    );
    assert!(!ops.iter().any(|o| o.contains("noise.log")));
}

#[test]
fn malformed_glob_is_rejected_with_its_index() {
    let r = build_globset(&vec!["*.log".to_string(), "a[".to_string()]);
    assert!(matches!(r, Err(FilterError::InvalidGlob { index: 1 })));
}

#[test]
fn filter_matches_any_of_its_globs() {
    let f = build_globset(&vec!["*.log".to_string(), "cache/**".to_string()]).unwrap();
    assert!(f.is_match("noise.log"));
    assert!(f.is_match("sub/deep.log"));
    assert!(f.is_match("cache/x/y"));
    assert!(!f.is_match("a.txt"));
    let empty = build_globset(&vec![]).unwrap();
    assert!(!empty.is_match("a.txt"));
}

#[test]
fn crc32_of_check_string() {
    assert_eq!(checksum_of(b"123456789"), 0xCBF4_3926);
    assert_eq!(checksum_of(b""), 0);
}

#[test]
fn streamed_checksum_equals_whole_checksum() {
    let mut s = ChecksumStream::new();
    assert_eq!(s.feed(b"12345"), Some(5));
    assert_eq!(s.feed(b"6789"), Some(4));
    assert_eq!(s.finish(), 0xCBF4_3926);
}

#[test]
fn verify_step_reports_mismatch() {
    let mut s = ChecksumStream::new();
    s.feed(b"alpha\n");
    let good = checksum_of(b"alpha\n");
    assert!(check_checksum(good, s).is_ok());
    let mut s = ChecksumStream::new();
    s.feed(b"alpha!\n");
    assert!(matches!(check_checksum(good, s), Err(SyncJobError::ChecksumMismatch)));
}

#[test]
fn retry_policy_allows_three_retries_of_transient_errors() {
    assert!(should_retry(1, &SyncJobError::ChecksumMismatch));
    assert!(should_retry(3, &SyncJobError::FileNotFound { path: rel("a") }));
    assert!(should_retry(2, &SyncJobError::ReadError { path: rel("a") }));
    assert!(!should_retry(4, &SyncJobError::ChecksumMismatch));
    assert!(!should_retry(1, &SyncJobError::Other { message: "disk full".to_string() }));
}

#[test]
fn single_file_sync_copies_then_verifies() {
    assert!(!file_needs_copy(stamp(6, 1), Some(stamp(6, 1))));
    assert!(file_needs_copy(stamp(6, 1), None));
    assert!(file_needs_copy(stamp(6, 1), Some(stamp(7, 1))));
    assert!(sync_file_job("/a".to_string(), "/b".to_string(), rel("s.dat"), stamp(6, 1), Some(stamp(6, 1)), 9)
        .is_none());
    let job =
        sync_file_job("/a".to_string(), "/b".to_string(), rel("s.dat"), stamp(6, 1), None, 9).unwrap();
    let ops: Vec<String> = job.ops.iter().map(describe).collect();
    assert_eq!(ops, vec!["copy s.dat", "verify s.dat 6 9"]);
    assert_eq!(job.src_path, "/a");
    assert_eq!(job.dst_path, "/b");
}

#[test]
fn file_entry_duplicate_keeps_path_and_stamp() {
    let f = FileEntry { path: rel("x/y"), stamp: stamp(3, 4) };
    let g = f.duplicate();
    assert_eq!(g.path.to_slash_string(), "x/y");
    assert_eq!(g.stamp, stamp(3, 4));
}

#[test]
fn mutation_during_staging_is_retried_with_new_content() {
    // first attempt: a.txt copied with its old content, then the game
    // rewrote it before the verify step
    let src = SyncDir::new("/t".to_string(), &vec![file("a.txt", 6, 100)], None, None);
    let staging = SyncDir::new("/s".to_string(), &vec![], None, None);
    let old_crc = checksum_of(b"alpha\n");
    let job = staging.sync_from(&src, &vec![old_crc]);
    assert_eq!(job.ops.len(), 2);
    let mut copied = ChecksumStream::new();
    copied.feed(b"alpha, changed\n");
    let err = check_checksum(old_crc, copied).unwrap_err();
    assert!(matches!(err, SyncJobError::ChecksumMismatch));
    assert!(should_retry(1, &err));
    // second attempt: the rescan sees the new size; the staged copy (with
    // the new content but the old stamp) is copied again
    let src = SyncDir::new("/t".to_string(), &vec![file("a.txt", 15, 101)], None, None);
    let staging = SyncDir::new("/s".to_string(), &vec![file("a.txt", 15, 101 - 1)], None, None);
    let new_crc = checksum_of(b"alpha, changed\n");
    let job = staging.sync_from(&src, &vec![new_crc]);
    let ops: Vec<String> = job.ops.iter().map(describe).collect();
    assert_eq!(ops, vec!["copy a.txt".to_string(), format!("verify a.txt 15 {new_crc}")]);
    let mut copied = ChecksumStream::new();
    copied.feed(b"alpha, changed\n");
    assert!(check_checksum(new_crc, copied).is_ok());
}
