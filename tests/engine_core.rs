use stool::engine::{should_exit_backup, AutoBackupScheduler, BackupRequest, EngineControl, EngineState, Timeline};

fn create(name: &str) -> BackupRequest {
    BackupRequest::CreateBackup { archive_name: name.to_string() }
}

fn name_of(r: &BackupRequest) -> &str {
    match r {
        BackupRequest::CreateBackup { archive_name } => archive_name,
        BackupRequest::RestoreBackup { archive_name } => archive_name,
    }
}

#[test]
fn requests_run_one_at_a_time_in_order() {
    let mut c = EngineControl::new(true);
    c.send(create("first"));
    c.send(BackupRequest::RestoreBackup { archive_name: "second".to_string() });
    assert!(!c.is_ongoing());
    let r = c.next_request().unwrap();
    assert_eq!(name_of(&r), "first");
    assert!(c.is_ongoing());
    // nothing else is handed out while a request is in flight
    assert!(c.next_request().is_none());
    c.finish_request();
    assert!(!c.is_ongoing());
    let r = c.next_request().unwrap();
    assert!(matches!(r, BackupRequest::RestoreBackup { .. }));
    assert_eq!(name_of(&r), "second");
    c.finish_request();
    assert!(c.next_request().is_none());
    assert!(!c.is_ongoing());
}

#[test]
fn closed_queue_drops_new_requests_but_drains_old_ones() {
    let mut c = EngineControl::new(false);
    c.send(create("kept"));
    c.close();
    c.send(create("dropped"));
    assert!(!c.worker_may_stop());
    let r = c.next_request().unwrap();
    assert_eq!(name_of(&r), "kept");
    assert!(!c.worker_may_stop());
    c.finish_request();
    assert!(c.next_request().is_none());
    assert!(c.worker_may_stop());
}

#[test]
fn engine_state_only_moves_forward() {
    let mut c = EngineControl::new(true);
    assert!(c.state() == EngineState::Starting);
    c.advance_state(EngineState::Running);
    assert!(c.state() == EngineState::Running);
    c.advance_state(EngineState::Starting);
    assert!(c.state() == EngineState::Running);
    c.advance_state(EngineState::ShutDown);
    c.advance_state(EngineState::ShuttingDown);
    assert!(c.state() == EngineState::ShutDown);
}

#[test]
fn engine_state_ranks_round_trip() {
    for n in 0u8..4 {
        assert_eq!(EngineState::from_rank(n).unwrap().rank(), n);
    }
    assert!(EngineState::from_rank(4).is_none());
}

#[test]
fn shutdown_latch_and_autobackup_switch() {
    let mut c = EngineControl::new(true);
    assert!(!c.shutdown_requested());
    assert!(c.get_autobackup());
    c.set_autobackup(false);
    assert!(!c.get_autobackup());
    c.shutdown();
    c.shutdown();
    assert!(c.shutdown_requested());
}

#[test]
fn grace_wait_restarts_on_new_change() {
    let mut t = Timeline::new();
    t.record_change(10_000);
    // change at 10 s, grace 1 s: at 10.2 s wait 0.8 s more
    assert_eq!(t.grace_check(10_200, 1_000), 800);
    assert_eq!(t.last_change_at, Some(10_000));
    // a new change during the wait restarts the countdown
    t.record_change(10_900);
    assert_eq!(t.grace_check(11_000, 1_000), 900);
    assert_eq!(t.grace_check(11_899, 1_000), 1);
    assert_eq!(t.grace_check(11_900, 1_000), 0);
    assert_eq!(t.last_change_at, None);
}

#[test]
fn change_stamped_after_now_waits_full_grace() {
    let mut t = Timeline::new();
    t.record_change(5_000);
    assert_eq!(t.grace_check(4_000, 1_000), 1_000);
}

#[test]
fn second_queued_backup_does_not_wait_for_grace() {
    let mut c = EngineControl::new(true);
    let mut t = Timeline::new();
    t.record_change(1_000);
    c.send(create("one"));
    c.send(create("two"));
    let _first = c.next_request().unwrap();
    assert_eq!(t.grace_check(1_005, 1_000), 995);
    assert_eq!(t.grace_check(2_000, 1_000), 0);
    t.begin_backup(2_000);
    c.finish_request();
    let second = c.next_request().unwrap();
    assert_eq!(name_of(&second), "two");
    // the first cleared the change, so the second proceeds at once
    assert_eq!(t.grace_check(2_010, 1_000), 0);
}

#[test]
fn restore_clears_change_and_counts_as_backup() {
    let mut t = Timeline::new();
    t.record_change(3);
    t.finish_restore(9);
    assert_eq!(t.last_change_at, None);
    assert_eq!(t.last_backup_at, Some(9));
    t.finish_backup("/b/x.7z".to_string());
    assert_eq!(t.latest_backup_path.as_deref(), Some("/b/x.7z"));
}

#[test]
fn scheduler_waits_for_change_and_rate_limit() {
    let mut s = AutoBackupScheduler::new(60_000);
    let mut t = Timeline::new();
    // nothing changed
    assert!(!s.tick(1_000, true, false, &t));
    t.record_change(1_500);
    // disabled, or a request in flight
    assert!(!s.tick(2_000, false, false, &t));
    assert!(!s.tick(2_000, true, true, &t));
    assert!(s.tick(2_000, true, false, &t));
    assert_eq!(s.last_autobackup_at, Some(2_000));
    // that auto-backup has not begun yet
    t.record_change(2_500);
    assert!(!s.tick(3_000, true, false, &t));
    t.grace_check(3_500, 1_000);
    t.begin_backup(3_600);
    t.record_change(4_000);
    // rate limit: no sooner than 60 s after the last backup began
    assert!(!s.tick(63_599, true, false, &t));
    assert!(s.tick(63_600, true, false, &t));
}

#[test]
fn toggling_autobackup_back_on_gives_one_backup() {
    let mut s = AutoBackupScheduler::new(60_000);
    let mut t = Timeline::new();
    for k in 0..10u64 {
        t.record_change(1_000 * k);
        assert!(!s.tick(1_000 * k + 500, false, false, &t));
    }
    assert!(s.tick(10_500, true, false, &t));
    assert!(!s.tick(11_500, true, false, &t));
}

#[test]
fn exit_backup_only_for_unsaved_changes() {
    let mut t = Timeline::new();
    assert!(!should_exit_backup(false, &t));
    t.record_change(100);
    assert!(should_exit_backup(false, &t));
    assert!(!should_exit_backup(true, &t));
    t.begin_backup(50);
    assert!(should_exit_backup(false, &t));
    t.begin_backup(100);
    assert!(should_exit_backup(false, &t));
    t.begin_backup(101);
    assert!(!should_exit_backup(false, &t));
}
