use stool::config::{AutoBackup, ConfigError, GameConfig, GameSaveDir, GameSaveFile, MainConfig};
use stool::console::{MenuItem, MenuState, StatusView, View as MenuView};
use stool::engine::EngineArgs;
use stool::naming::{make_backup_filename, ArchiveTimestamp};
use stool::tui::{ActionKind, View};
use stool::worker::{backup_tasks, join, restore_tasks, EngineLayout, RestoreTask, StageTask};

fn save_dir(path: &str, ignore: Option<Vec<&str>>) -> GameSaveDir {
    GameSaveDir {
        path: path.to_string(),
        allow: None,
        ignore: ignore.map(|v| v.into_iter().map(|s| s.to_string()).collect()),
    }
}

fn config(dirs: Vec<(&str, GameSaveDir)>) -> GameConfig {
    GameConfig {
        grace_time: 1,
        copy_latest_to_path: None,
        auto_backup: AutoBackup { enabled: true, min_interval: 60 },
        save_dirs: dirs.into_iter().map(|(n, d)| (n.to_string(), d)).collect(),
        save_files: vec![GameSaveFile { path: "/g/slot.dat".to_string(), staging_subdirectory: None }],
    }
}

#[test]
fn archive_name_format() {
    let t = ArchiveTimestamp { year: 2024, month: 3, day: 5, hour: 7, minute: 8, second: 9 };
    assert_eq!(make_backup_filename(&t, "Auto"), "2024-03-05 07-08-09 Auto.7z");
    let t = ArchiveTimestamp { year: 999, month: 12, day: 31, hour: 23, minute: 59, second: 0 };
    assert_eq!(make_backup_filename(&t, "before boss"), "0999-12-31 23-59-00 before boss.7z");
}

#[test]
fn main_config_file_location() {
    assert_eq!(MainConfig::path_from_location("/home/u/.config/stool"), "/home/u/.config/stool/config.toml");
}

#[test]
fn engine_layout_paths() {
    let args = EngineArgs {
        name: "game".to_string(),
        game_config_path: "/cfg/games".to_string(),
        data_path: "/data".to_string(),
    };
    let l = EngineLayout::new(&args);
    assert_eq!(l.game_config_file, "/cfg/games/game.toml");
    assert_eq!(l.output, "/data/game");
    assert_eq!(l.pid_file, "/data/game/stool.pid");
    assert_eq!(l.staging, "/data/game/staging");
    assert_eq!(l.backups, "/data/game/backups");
    assert_eq!(l.archive_path("x.7z"), "/data/game/backups/x.7z");
    assert_eq!(join("a", "b"), "a/b");
}

#[test]
fn config_compiles_each_save_dir() {
    let c = config(vec![("main", save_dir("/t", Some(vec!["*.log"]))), ("extra", save_dir("/u", None))]);
    let dirs = c.compile_save_dirs().unwrap();
    assert_eq!(dirs.len(), 2);
    assert_eq!(dirs[0].name, "main");
    assert_eq!(dirs[0].path, "/t");
    assert!(dirs[0].ignore.as_ref().unwrap().is_match("noise.log"));
    assert!(dirs[0].allow.is_none());
    assert!(dirs[1].ignore.is_none());
}

#[test]
fn config_rejects_duplicate_names() {
    let c = config(vec![("main", save_dir("/t", None)), ("main", save_dir("/u", None))]);
    assert!(matches!(c.compile_save_dirs(), Err(ConfigError::DuplicateName { name }) if name == "main"));
}

#[test]
fn config_rejects_malformed_glob() {
    let c = config(vec![("main", save_dir("/t", None)), ("b", save_dir("/u", Some(vec!["[x"])))]);
    assert!(matches!(c.compile_save_dirs(), Err(ConfigError::BadGlob { dir_index: 1 })));
}

#[test]
fn backup_tasks_follow_source_presence() {
    let tasks = backup_tasks(
        &"/s".to_string(),
        &vec!["main".to_string(), "gone".to_string()],
        &vec![true, false],
        &vec![None, Some("cfg".to_string())],
        &vec![false, true],
    );
    assert_eq!(tasks.len(), 4);
    assert!(matches!(&tasks[0], StageTask::SyncDir { dir: 0, staged } if staged == "/s/main"));
    assert!(matches!(&tasks[1], StageTask::DropStagedDir { dir: 1, staged } if staged == "/s/gone"));
    assert!(matches!(&tasks[2], StageTask::DropStagedFile { file: 0, staged_dir } if staged_dir == "/s"));
    assert!(matches!(&tasks[3], StageTask::SyncFile { file: 1, staged_dir } if staged_dir == "/s/cfg"));
}

#[test]
fn restore_tasks_skip_what_the_archive_lacks() {
    let tasks = restore_tasks(
        &"/s".to_string(),
        &vec!["main".to_string(), "gone".to_string()],
        &vec![true, false],
        &vec![Some("cfg".to_string())],
        &vec![true],
    );
    assert_eq!(tasks.len(), 3);
    assert!(matches!(&tasks[0], RestoreTask::SyncDir { dir: 0, staged } if staged == "/s/main"));
    assert!(matches!(&tasks[1], RestoreTask::SkipDir { dir: 1 }));
    assert!(matches!(&tasks[2], RestoreTask::SyncFile { file: 0, staged_dir } if staged_dir == "/s/cfg"));
}

#[test]
fn action_descriptions() {
    let c = ActionKind::CreateBackup { name: "x.7z".to_string() };
    let r = ActionKind::RestoreBackup { name: "y.7z".to_string() };
    assert_eq!(c.describe(), "Creating backup: x.7z");
    assert_eq!(r.describe(), "Restoring backup: y.7z");
    assert_eq!(c.describe_complete(), "Backup created: x.7z");
    assert_eq!(r.describe_complete(), "Backup restored: y.7z");
    assert_eq!(c.describe_error(), "Create backup failed: x.7z");
    assert_eq!(r.describe_error(), "Restore backup failed: y.7z");
}

#[test]
fn menu_enter_chooses_highlighted_item() {
    let items = vec![
        MenuItem { description: "Create backup".to_string(), view: MenuView::CreateBackup },
        MenuItem { description: "Exit".to_string(), view: MenuView::Exit },
    ];
    let mut m = MenuState::new();
    m.enter(&items);
    assert_eq!(m.choice(), None);
    m.selected = Some(1);
    m.enter(&items);
    assert_eq!(m.choice(), Some(MenuView::Exit));
    m.clear();
    assert_eq!(m.choice(), None);
    m.selected = Some(5);
    m.enter(&items);
    assert_eq!(m.choice(), None);
    let _ = StatusView::new();
    assert_eq!(View::default_view(), View::Menu);
}
