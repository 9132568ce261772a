use vstd::prelude::*;
use vstd::string::*;

use crate::engine::EngineArgs;

verus! {

/// `base/rest`.
pub open spec fn joined(base: Seq<char>, rest: Seq<char>) -> Seq<char> {
    base + seq!['/'] + rest
}

/// `base/rest`, the way the engine builds its paths.
pub fn join(base: &str, rest: &str) -> (r: String)
    ensures
        r@ == joined(base@, rest@),
{
    proof {
        reveal_strlit("/");
    }
    let mut s = String::from_str(base);
    s.append("/");
    s.append(rest);
    assert(s@ =~= joined(base@, rest@));
    s
}

/// Where an engine keeps its files for one game.
#[derive(Debug)]
pub struct EngineLayout {
    /// The game's configuration file.
    pub game_config_file: String,
    /// `data_path/name`.
    pub output: String,
    /// The single-instance lock file.
    pub pid_file: String,
    /// The mirror tree that archives are packed from and unpacked into.
    pub staging: String,
    /// The archives.
    pub backups: String,
}

impl EngineLayout {
    pub fn new(args: &EngineArgs) -> (r: EngineLayout)
        ensures
            r.game_config_file@ == joined(args.game_config_path@, args.name@ + ".toml"@),
            r.output@ == joined(args.data_path@, args.name@),
            r.pid_file@ == joined(r.output@, "stool.pid"@),
            r.staging@ == joined(r.output@, "staging"@),
            r.backups@ == joined(r.output@, "backups"@),
    {
        let mut file_name = args.name.clone();
        file_name.append(".toml");
        let game_config_file = join(args.game_config_path.as_str(), file_name.as_str());
        let output = join(args.data_path.as_str(), args.name.as_str());
        let pid_file = join(output.as_str(), "stool.pid");
        let staging = join(output.as_str(), "staging");
        let backups = join(output.as_str(), "backups");
        EngineLayout { game_config_file, output, pid_file, staging, backups }
    }

    /// The path of an archive of the backup directory.
    pub fn archive_path(&self, archive_name: &str) -> (r: String)
        ensures
            r@ == joined(self.backups@, archive_name@),
    {
        join(self.backups.as_str(), archive_name)
    }
}

/// The staging directory that a save file goes to: the staging root, or
/// its configured subdirectory of it.
pub open spec fn staged_file_dir(staging: Seq<char>, subdir: Option<String>) -> Seq<char> {
    match subdir {
        Some(d) => joined(staging, d@),
        None => staging,
    }
}

pub fn staged_file_dir_of(staging: &String, subdir: &Option<String>) -> (r: String)
    ensures
        r@ == staged_file_dir(staging@, *subdir),
{
    match subdir {
        Some(d) => join(staging.as_str(), d.as_str()),
        None => staging.clone(),
    }
}

/// One step of staging a backup.
#[derive(Debug)]
pub enum StageTask {
    /// Mirror save directory `dir` into `staged`.
    SyncDir { dir: usize, staged: String },
    /// Save directory `dir` is gone: remove its staged copy `staged`.
    DropStagedDir { dir: usize, staged: String },
    /// Mirror save file `file` into the directory `staged_dir`, creating it.
    SyncFile { file: usize, staged_dir: String },
    /// Save file `file` is gone: remove its staged copy from `staged_dir`.
    DropStagedFile { file: usize, staged_dir: String },
}

/// The staging steps of a backup, one per save directory (in order), then
/// one per save file (in order). `dir_exists[i]` and `file_exists[j]` say
/// whether each source is present now.
pub fn backup_tasks(
    staging: &String,
    dir_names: &Vec<String>,
    dir_exists: &Vec<bool>,
    file_subdirs: &Vec<Option<String>>,
    file_exists: &Vec<bool>,
) -> (r: Vec<StageTask>)
    requires
        dir_exists@.len() == dir_names@.len(),
        file_exists@.len() == file_subdirs@.len(),
    ensures
        r@.len() == dir_names@.len() + file_subdirs@.len(),
        forall|i: int|
            0 <= i < dir_names@.len() ==> (if dir_exists@[i] {
                (#[trigger] r@[i]) matches StageTask::SyncDir { dir, staged } && dir == i && staged@
                    == joined(staging@, dir_names@[i]@)
            } else {
                r@[i] matches StageTask::DropStagedDir { dir, staged } && dir == i && staged@
                    == joined(staging@, dir_names@[i]@)
            }),
        forall|j: int|
            0 <= j < file_subdirs@.len() ==> (if file_exists@[j] {
                (#[trigger] r@[dir_names@.len() + j]) matches StageTask::SyncFile { file, staged_dir }
                    && file == j && staged_dir@ == staged_file_dir(staging@, file_subdirs@[j])
            } else {
                r@[dir_names@.len() + j] matches StageTask::DropStagedFile { file, staged_dir } && file
                    == j && staged_dir@ == staged_file_dir(staging@, file_subdirs@[j])
            }),
{
    let mut r: Vec<StageTask> = Vec::new();
    let mut i: usize = 0;
    while i < dir_names.len()
        invariant
            0 <= i <= dir_names@.len(),
            dir_exists@.len() == dir_names@.len(),
            r@.len() == i,
            forall|k: int|
                0 <= k < i ==> (if dir_exists@[k] {
                    (#[trigger] r@[k]) matches StageTask::SyncDir { dir, staged } && dir == k
                        && staged@ == joined(staging@, dir_names@[k]@)
                } else {
                    r@[k] matches StageTask::DropStagedDir { dir, staged } && dir == k && staged@
                        == joined(staging@, dir_names@[k]@)
                }),
        decreases dir_names.len() - i,
    {
        let staged = join(staging.as_str(), dir_names[i].as_str());
        if dir_exists[i] {
            r.push(StageTask::SyncDir { dir: i, staged });
        } else {
            r.push(StageTask::DropStagedDir { dir: i, staged });
        }
        i = i + 1;
    }
    let n = dir_names.len();
    let mut j: usize = 0;
    while j < file_subdirs.len()
        invariant
            0 <= j <= file_subdirs@.len(),
            n == dir_names@.len(),
            file_exists@.len() == file_subdirs@.len(),
            r@.len() == n + j,
            forall|k: int|
                0 <= k < n ==> (if dir_exists@[k] {
                    (#[trigger] r@[k]) matches StageTask::SyncDir { dir, staged } && dir == k
                        && staged@ == joined(staging@, dir_names@[k]@)
                } else {
                    r@[k] matches StageTask::DropStagedDir { dir, staged } && dir == k && staged@
                        == joined(staging@, dir_names@[k]@)
                }),
            forall|k: int|
                0 <= k < j ==> (if file_exists@[k] {
                    (#[trigger] r@[n + k]) matches StageTask::SyncFile { file, staged_dir }
                        && file == k && staged_dir@ == staged_file_dir(staging@, file_subdirs@[k])
                } else {
                    r@[n + k] matches StageTask::DropStagedFile { file, staged_dir } && file == k
                        && staged_dir@ == staged_file_dir(staging@, file_subdirs@[k])
                }),
        decreases file_subdirs.len() - j,
    {
        let staged_dir = staged_file_dir_of(staging, &file_subdirs[j]);
        if file_exists[j] {
            r.push(StageTask::SyncFile { file: j, staged_dir });
        } else {
            r.push(StageTask::DropStagedFile { file: j, staged_dir });
        }
        j = j + 1;
    }
    r
}

/// One step of putting an unpacked archive back onto the live saves.
#[derive(Debug)]
pub enum RestoreTask {
    /// Mirror the staged copy `staged` onto save directory `dir`.
    SyncDir { dir: usize, staged: String },
    /// The archive has no copy of save directory `dir`: leave it as it is.
    SkipDir { dir: usize },
    /// Mirror save file `file` from the directory `staged_dir` back to its
    /// live directory.
    SyncFile { file: usize, staged_dir: String },
    /// The archive has no copy of save file `file`: leave it as it is.
    SkipFile { file: usize },
}

/// The restore steps, one per save directory, then one per save file.
/// `dir_staged[i]` and `file_staged[j]` say whether the unpacked archive
/// holds each.
pub fn restore_tasks(
    staging: &String,
    dir_names: &Vec<String>,
    dir_staged: &Vec<bool>,
    file_subdirs: &Vec<Option<String>>,
    file_staged: &Vec<bool>,
) -> (r: Vec<RestoreTask>)
    requires
        dir_staged@.len() == dir_names@.len(),
        file_staged@.len() == file_subdirs@.len(),
    ensures
        r@.len() == dir_names@.len() + file_subdirs@.len(),
        forall|i: int|
            0 <= i < dir_names@.len() ==> (if dir_staged@[i] {
                (#[trigger] r@[i]) matches RestoreTask::SyncDir { dir, staged } && dir == i && staged@
                    == joined(staging@, dir_names@[i]@)
            } else {
                r@[i] == RestoreTask::SkipDir { dir: i as usize }
            }),
        forall|j: int|
            0 <= j < file_subdirs@.len() ==> (if file_staged@[j] {
                (#[trigger] r@[dir_names@.len() + j]) matches RestoreTask::SyncFile { file, staged_dir }
                    && file == j && staged_dir@ == staged_file_dir(staging@, file_subdirs@[j])
            } else {
                r@[dir_names@.len() + j] == RestoreTask::SkipFile { file: j as usize }
            }),
{
    let mut r: Vec<RestoreTask> = Vec::new();
    let mut i: usize = 0;
    while i < dir_names.len()
        invariant
            0 <= i <= dir_names@.len(),
            dir_staged@.len() == dir_names@.len(),
            r@.len() == i,
            forall|k: int|
                0 <= k < i ==> (if dir_staged@[k] {
                    (#[trigger] r@[k]) matches RestoreTask::SyncDir { dir, staged } && dir == k
                        && staged@ == joined(staging@, dir_names@[k]@)
                } else {
                    r@[k] == RestoreTask::SkipDir { dir: k as usize }
                }),
        decreases dir_names.len() - i,
    {
        if dir_staged[i] {
            let staged = join(staging.as_str(), dir_names[i].as_str());
            r.push(RestoreTask::SyncDir { dir: i, staged });
        } else {
            r.push(RestoreTask::SkipDir { dir: i });
        }
        i = i + 1;
    }
    let n = dir_names.len();
    let mut j: usize = 0;
    while j < file_subdirs.len()
        invariant
            0 <= j <= file_subdirs@.len(),
            n == dir_names@.len(),
            file_staged@.len() == file_subdirs@.len(),
            r@.len() == n + j,
            forall|k: int|
                0 <= k < n ==> (if dir_staged@[k] {
                    (#[trigger] r@[k]) matches RestoreTask::SyncDir { dir, staged } && dir == k
                        && staged@ == joined(staging@, dir_names@[k]@)
                } else {
                    r@[k] == RestoreTask::SkipDir { dir: k as usize }
                }),
            forall|k: int|
                0 <= k < j ==> (if file_staged@[k] {
                    (#[trigger] r@[n + k]) matches RestoreTask::SyncFile { file, staged_dir }
                        && file == k && staged_dir@ == staged_file_dir(staging@, file_subdirs@[k])
                } else {
                    r@[n + k] == RestoreTask::SkipFile { file: k as usize }
                }),
        decreases file_subdirs.len() - j,
    {
        if file_staged[j] {
            let staged_dir = staged_file_dir_of(staging, &file_subdirs[j]);
            r.push(RestoreTask::SyncFile { file: j, staged_dir });
        } else {
            r.push(RestoreTask::SkipFile { file: j });
        }
        j = j + 1;
    }
    r
}

/// A phase of a restore, in the order they run.
#[derive(Debug, PartialEq, Eq, Structural)]
pub enum RestorePhase {
    /// Announce the restore.
    Begin,
    /// Replace the staging tree by an empty one.
    ResetStaging,
    /// Unpack the archive into the staging tree.
    Extract,
    /// Run the restore tasks.
    RestoreSaves,
    /// Clear the pending change and count the restore as a backup.
    Settle,
    /// Report the outcome.
    End,
}

/// The phases of a restore. A missing archive is no error: the restore
/// does nothing.
pub fn restore_phases(archive_exists: bool) -> (r: Vec<RestorePhase>)
    ensures
        archive_exists ==> r@ == seq![
            RestorePhase::Begin,
            RestorePhase::ResetStaging,
            RestorePhase::Extract,
            RestorePhase::RestoreSaves,
            RestorePhase::Settle,
            RestorePhase::End,
        ],
        !archive_exists ==> r@.len() == 0,
{
    let mut r: Vec<RestorePhase> = Vec::new();
    if archive_exists {
        r.push(RestorePhase::Begin);
        r.push(RestorePhase::ResetStaging);
        r.push(RestorePhase::Extract);
        r.push(RestorePhase::RestoreSaves);
        r.push(RestorePhase::Settle);
        r.push(RestorePhase::End);
        assert(r@ =~= seq![
            RestorePhase::Begin,
            RestorePhase::ResetStaging,
            RestorePhase::Extract,
            RestorePhase::RestoreSaves,
            RestorePhase::Settle,
            RestorePhase::End,
        ]);
    }
    r
}

} // verus!
