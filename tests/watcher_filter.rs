use stool::filter::build_globset;
use stool::relpath::RelPath;
use stool::watch::{event_accepted, strip_root, WatchedDir};

fn abs(s: &str) -> RelPath {
    RelPath::new(s.split('/').map(|c| c.to_string()).collect())
}

fn watched(root: &str, ignore: Option<&str>) -> WatchedDir {
    WatchedDir {
        root: abs(root),
        allow: None,
        ignore: ignore.map(|g| build_globset(&vec![g.to_string()]).unwrap()),
    }
}

#[test]
fn strip_root_gives_relative_path() {
    let r = strip_root(&abs("/home/u/saves"), &abs("/home/u/saves/sub/b.bin")).unwrap();
    assert_eq!(r.to_slash_string(), "sub/b.bin");
    assert!(strip_root(&abs("/home/u/saves"), &abs("/home/u/other/x")).is_none());
    assert!(strip_root(&abs("/home/u/saves"), &abs("/home/u")).is_none());
}

#[test]
fn access_events_are_discarded() {
    let dirs = vec![watched("/t", None)];
    assert!(!event_accepted(true, &vec![abs("/t/a.txt")], &vec![], &dirs));
    assert!(event_accepted(false, &vec![abs("/t/a.txt")], &vec![], &dirs));
}

#[test]
fn ignored_changes_do_not_count() {
    let dirs = vec![watched("/t", Some("*.log"))];
    assert!(!event_accepted(false, &vec![abs("/t/noise.log")], &vec![], &dirs));
    assert!(event_accepted(false, &vec![abs("/t/noise.log"), abs("/t/a.txt")], &vec![], &dirs));
    assert!(!event_accepted(false, &vec![abs("/elsewhere/a.txt")], &vec![], &dirs));
}

#[test]
fn save_file_events_always_count() {
    let dirs = vec![watched("/t", Some("*"))];
    let files = vec![abs("/g/slot.dat")];
    assert!(event_accepted(false, &vec![abs("/g/slot.dat")], &files, &dirs));
    assert!(!event_accepted(false, &vec![abs("/g/other.dat")], &files, &dirs));
}
