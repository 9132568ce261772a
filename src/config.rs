use vstd::prelude::*;
use vstd::string::*;

use crate::filter::{build_globset, glob_valid, globset_compiles, pattern_texts, Filter, FilterError};

verus! {

/// A directory of game saves, mirrored under its logical name.
#[derive(Clone, Debug)]
pub struct GameSaveDir {
    pub path: String,
    /// When set, only files matching one of these globs are kept.
    pub allow: Option<Vec<String>>,
    /// Entries matching one of these globs are dropped.
    pub ignore: Option<Vec<String>>,
}

/// A single save file, staged into `staging_subdirectory` when set.
#[derive(Clone, Debug)]
pub struct GameSaveFile {
    pub path: String,
    pub staging_subdirectory: Option<String>,
}

#[derive(Clone, Debug)]
pub struct AutoBackup {
    pub enabled: bool,
    /// Seconds between two automatic backups, at least.
    pub min_interval: u64,
}

/// A game's configuration, fixed once loaded.
#[derive(Clone, Debug)]
pub struct GameConfig {
    /// Seconds without change before a backup may read the saves.
    pub grace_time: u64,
    pub copy_latest_to_path: Option<String>,
    pub auto_backup: AutoBackup,
    /// Save directories by logical name.
    pub save_dirs: Vec<(String, GameSaveDir)>,
    pub save_files: Vec<GameSaveFile>,
}

/// The user's main configuration.
#[derive(Clone, Debug)]
pub struct MainConfig {
    pub data_path: String,
}

pub open spec fn config_file_path(location: Seq<char>) -> Seq<char> {
    location + "/config.toml"@
}

impl MainConfig {
    /// Where the main configuration file lives inside `location`.
    pub fn path_from_location(location: &str) -> (r: String)
        ensures
            r@ == config_file_path(location@),
    {
        let mut s = String::from_str(location);
        s.append("/config.toml");
        s
    }
}

/// A save directory with its glob lists compiled.
pub struct CompiledSaveDir {
    pub name: String,
    pub path: String,
    pub allow: Option<Filter>,
    pub ignore: Option<Filter>,
}

/// Why a configuration cannot be used.
#[derive(Debug)]
pub enum ConfigError {
    /// Two save directories share this logical name.
    DuplicateName { name: String },
    /// A glob of the save directory at this index is malformed or does
    /// not compile.
    BadGlob { dir_index: usize },
}

pub open spec fn names_unique(dirs: Seq<(String, GameSaveDir)>) -> bool {
    forall|a: int, b: int| 0 <= a < b < dirs.len() ==> dirs[a].0@ != dirs[b].0@
}

/// Every glob in the optional list is well-formed.
pub open spec fn globs_valid(globs: Option<Vec<String>>) -> bool {
    globs matches Some(v) ==> forall|i: int| 0 <= i < v@.len() ==> glob_valid(#[trigger] v@[i]@)
}

/// The optional list, when present, compiles into one set.
pub open spec fn globs_compile(globs: Option<Vec<String>>) -> bool {
    globs matches Some(v) ==> globset_compiles(pattern_texts(v@))
}

/// Both lists of a save directory are well-formed and compile.
pub open spec fn dir_globs_usable(d: GameSaveDir) -> bool {
    globs_valid(d.allow) && globs_compile(d.allow) && globs_valid(d.ignore) && globs_compile(d.ignore)
}

fn compile_optional(globs: &Option<Vec<String>>) -> (r: Result<Option<Filter>, FilterError>)
    ensures
        r matches Ok(f) ==> (f is Some <==> globs is Some),
        r matches Ok(Some(f)) ==> globs matches Some(v) && f@ == v@.map_values(|p: String| p@),
        !globs_valid(*globs) ==> r is Err,
        globs_valid(*globs) && globs_compile(*globs) ==> r is Ok,
{
    match globs {
        None => Ok(None),
        Some(v) => match build_globset(v) {
            Ok(f) => Ok(Some(f)),
            Err(e) => Err(e),
        },
    }
}

fn name_taken(dirs: &Vec<(String, GameSaveDir)>, upto: usize, name: &String) -> (r: bool)
    requires
        upto <= dirs@.len(),
    ensures
        r == exists|k: int| 0 <= k < upto && dirs@[k].0@ == name@,
{
    let mut k: usize = 0;
    while k < upto
        invariant
            0 <= k <= upto <= dirs@.len(),
            forall|j: int| 0 <= j < k ==> dirs@[j].0@ != name@,
        decreases upto - k,
    {
        if dirs[k].0 == *name {
            return true;
        }
        k = k + 1;
    }
    false
}

impl GameConfig {
    /// Checks the configuration and compiles each save directory's globs,
    /// keeping the order of `save_dirs`.
    pub fn compile_save_dirs(&self) -> (r: Result<Vec<CompiledSaveDir>, ConfigError>)
        ensures
            r is Ok ==> names_unique(self.save_dirs@),
            !names_unique(self.save_dirs@) ==> r is Err,
            names_unique(self.save_dirs@) ==> !(r is Err && r->Err_0 is DuplicateName),
            r matches Err(ConfigError::DuplicateName { name }) ==> exists|a: int, b: int|
                0 <= a < b < self.save_dirs@.len() && #[trigger] self.save_dirs@[a].0@ == name@
                    && #[trigger] self.save_dirs@[b].0@ == name@,
            r matches Err(ConfigError::BadGlob { dir_index }) ==> dir_index < self.save_dirs@.len(),
            names_unique(self.save_dirs@) && (forall|i: int|
                0 <= i < self.save_dirs@.len() ==> dir_globs_usable(#[trigger] self.save_dirs@[i].1))
                ==> r is Ok,
            (exists|i: int| 0 <= i < self.save_dirs@.len() && (!globs_valid(#[trigger] self.save_dirs@[i].1.allow)
                || !globs_valid(self.save_dirs@[i].1.ignore))) ==> r is Err,
            r matches Ok(v) ==> v@.len() == self.save_dirs@.len() && forall|i: int|
                0 <= i < v@.len() ==> {
                    &&& (#[trigger] v@[i]).name@ == self.save_dirs@[i].0@
                    &&& v@[i].path@ == self.save_dirs@[i].1.path@
                    &&& (v@[i].allow is Some <==> self.save_dirs@[i].1.allow is Some)
                    &&& (v@[i].ignore is Some <==> self.save_dirs@[i].1.ignore is Some)
                },
    {
        let mut out: Vec<CompiledSaveDir> = Vec::new();
        let mut i: usize = 0;
        while i < self.save_dirs.len()
            invariant
                0 <= i <= self.save_dirs@.len(),
                out@.len() == i,
                forall|a: int, b: int| 0 <= a < b < i ==> self.save_dirs@[a].0@ != self.save_dirs@[b].0@,
                forall|k: int| 0 <= k < i ==> globs_valid(#[trigger] self.save_dirs@[k].1.allow) && globs_valid(
                    self.save_dirs@[k].1.ignore,
                ),
                forall|k: int|
                    0 <= k < i ==> {
                        &&& (#[trigger] out@[k]).name@ == self.save_dirs@[k].0@
                        &&& out@[k].path@ == self.save_dirs@[k].1.path@
                        &&& (out@[k].allow is Some <==> self.save_dirs@[k].1.allow is Some)
                        &&& (out@[k].ignore is Some <==> self.save_dirs@[k].1.ignore is Some)
                    },
            decreases self.save_dirs.len() - i,
        {
            let entry = &self.save_dirs[i];
            if name_taken(&self.save_dirs, i, &entry.0) {
                let name = entry.0.clone();
                assert(exists|a: int| 0 <= a < i && self.save_dirs@[a].0@ == name@);
                return Err(ConfigError::DuplicateName { name });
            }
            let allow = match compile_optional(&entry.1.allow) {
                Ok(f) => f,
                Err(_) => {
                    return Err(ConfigError::BadGlob { dir_index: i });
                },
            };
            let ignore = match compile_optional(&entry.1.ignore) {
                Ok(f) => f,
                Err(_) => {
                    return Err(ConfigError::BadGlob { dir_index: i });
                },
            };
            out.push(
                CompiledSaveDir { name: entry.0.clone(), path: entry.1.path.clone(), allow, ignore },
            );
            i = i + 1;
        }
        Ok(out)
    }
}

} // verus!
