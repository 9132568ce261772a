use vstd::prelude::*;

use crate::filter::{matches_any, Filter};
use crate::hash::{crc32_of, ChecksumStream};
use crate::relpath::{contains_path, slash_joined, PathView, RelPath};

verus! {

/// What the planner compares to decide whether a file changed: its size
/// and its last-modified time.
#[derive(Clone, Copy, Debug, PartialEq, Eq, Structural)]
pub struct FileStamp {
    pub size: u64,
    pub mtime_secs: i64,
    pub mtime_nanos: u32,
}

pub type FileView = (PathView, FileStamp);

/// A file of a scanned tree.
#[derive(Debug)]
pub struct FileEntry {
    pub path: RelPath,
    pub stamp: FileStamp,
}

impl View for FileEntry {
    type V = FileView;

    open spec fn view(&self) -> FileView {
        (self.path@, self.stamp)
    }
}

/// One entry of a directory walk, as the walker reports it.
#[derive(Debug)]
pub struct ScanEntry {
    pub path: RelPath,
    pub is_file: bool,
    pub stamp: FileStamp,
}

pub ghost struct SyncDirView {
    pub dirs: Seq<PathView>,
    pub files: Seq<FileView>,
}

/// A scanned tree: its root and the relative paths of its directories and
/// files, each path once.
#[derive(Debug)]
pub struct SyncDir {
    pub root: String,
    pub dirs: Vec<RelPath>,
    pub files: Vec<FileEntry>,
}

pub open spec fn paths_of(v: Seq<RelPath>) -> Seq<PathView> {
    v.map_values(|p: RelPath| p@)
}

pub open spec fn files_of(v: Seq<FileEntry>) -> Seq<FileView> {
    v.map_values(|f: FileEntry| f@)
}

pub open spec fn file_paths(files: Seq<FileView>) -> Seq<PathView> {
    files.map_values(|f: FileView| f.0)
}

impl View for SyncDir {
    type V = SyncDirView;

    open spec fn view(&self) -> SyncDirView {
        SyncDirView { dirs: paths_of(self.dirs@), files: files_of(self.files@) }
    }
}

pub open spec fn no_duplicates<A>(s: Seq<A>) -> bool {
    forall|a: int, b: int| 0 <= a < b < s.len() ==> s[a] != s[b]
}

/// Each directory path and each file path of the tree occurs once.
pub open spec fn distinct_paths(d: SyncDirView) -> bool {
    no_duplicates(d.dirs) && no_duplicates(file_paths(d.files))
}

pub open spec fn filter_view(f: Option<&Filter>) -> Option<Seq<Seq<char>>> {
    match f {
        Some(x) => Some(x@),
        None => None,
    }
}

/// The path matches the ignore list, when there is one.
pub open spec fn is_ignored(ignore: Option<Seq<Seq<char>>>, p: PathView) -> bool {
    ignore matches Some(ps) && matches_any(ps, slash_joined(p))
}

/// The path matches the allow list, or there is none.
pub open spec fn is_allowed(allow: Option<Seq<Seq<char>>>, p: PathView) -> bool {
    allow matches Some(ps) ==> matches_any(ps, slash_joined(p))
}

/// A path that neither the ignore list nor the allow list excludes.
pub open spec fn passes(allow: Option<Seq<Seq<char>>>, ignore: Option<Seq<Seq<char>>>, p: PathView) -> bool {
    !is_ignored(ignore, p) && is_allowed(allow, p)
}

/// Every file of the tree passes both lists.
pub open spec fn all_files_pass(
    d: SyncDirView,
    allow: Option<Seq<Seq<char>>>,
    ignore: Option<Seq<Seq<char>>>,
) -> bool {
    forall|k: int| 0 <= k < d.files.len() ==> passes(allow, ignore, (#[trigger] d.files[k]).0)
}

/// A walk entry that the scan keeps as a directory.
pub open spec fn keeps_dir(e: ScanEntry, ignore: Option<Seq<Seq<char>>>) -> bool {
    !e.is_file && e.path@.len() > 0 && !is_ignored(ignore, e.path@)
}

/// A walk entry that the scan keeps as a file.
pub open spec fn keeps_file(
    e: ScanEntry,
    allow: Option<Seq<Seq<char>>>,
    ignore: Option<Seq<Seq<char>>>,
) -> bool {
    e.is_file && e.path@.len() > 0 && !is_ignored(ignore, e.path@) && is_allowed(allow, e.path@)
}

/// Some of the first `n` walk entries is kept as a directory with path `p`.
pub open spec fn dir_kept_from(entries: Seq<ScanEntry>, n: int, p: PathView, ignore: Option<Seq<Seq<char>>>) -> bool {
    exists|j: int| 0 <= j < n && keeps_dir(#[trigger] entries[j], ignore) && entries[j].path@ == p
}

/// Some of the first `n` walk entries is kept as the file `f`.
pub open spec fn file_kept_from(
    entries: Seq<ScanEntry>,
    n: int,
    f: FileView,
    allow: Option<Seq<Seq<char>>>,
    ignore: Option<Seq<Seq<char>>>,
) -> bool {
    exists|j: int|
        0 <= j < n && keeps_file(#[trigger] entries[j], allow, ignore) && (entries[j].path@, entries[j].stamp) == f
}

fn matches_filter(f: Option<&Filter>, path: &RelPath) -> (r: bool)
    ensures
        r == (filter_view(f) matches Some(ps) && matches_any(ps, slash_joined(path@))),
{
    match f {
        Some(x) => {
            let s = path.to_slash_string();
            x.is_match(s.as_str())
        },
        None => false,
    }
}

/// Whether some file of `files` has the path `p`.
pub fn contains_file_path(files: &Vec<FileEntry>, p: &RelPath) -> (r: bool)
    ensures
        r == file_paths(files_of(files@)).contains(p@),
{
    let ghost fp = file_paths(files_of(files@));
    let mut i: usize = 0;
    while i < files.len()
        invariant
            0 <= i <= files@.len(),
            fp == file_paths(files_of(files@)),
            fp.len() == files@.len(),
            forall|k: int| 0 <= k < i ==> fp[k] != p@,
        decreases files.len() - i,
    {
        if files[i].path.same_as(p) {
            assert(fp[i as int] == p@);
            return true;
        }
        i = i + 1;
    }
    false
}

/// Whether `files` holds a file with the same path and stamp as `f`.
pub fn contains_file(files: &Vec<FileEntry>, f: &FileEntry) -> (r: bool)
    ensures
        r == files_of(files@).contains(f@),
{
    let ghost fv = files_of(files@);
    let mut i: usize = 0;
    while i < files.len()
        invariant
            0 <= i <= files@.len(),
            fv == files_of(files@),
            fv.len() == files@.len(),
            forall|k: int| 0 <= k < i ==> fv[k] != f@,
        decreases files.len() - i,
    {
        if files[i].stamp == f.stamp && files[i].path.same_as(&f.path) {
            assert(fv[i as int] == f@);
            return true;
        }
        i = i + 1;
    }
    false
}

impl FileEntry {
    pub fn duplicate(&self) -> (r: FileEntry)
        ensures
            r@ == self@,
    {
        FileEntry { path: self.path.duplicate(), stamp: self.stamp }
    }
}

impl SyncDir {
    /// Builds the scanned tree from the entries of a walk of `root`. The root
    /// itself (the empty path) is left out; an entry whose path matches
    /// `ignore` is dropped; a file that `allow` (when given) does not match
    /// is dropped. A path that comes twice is kept once.
    pub fn new(
        root: String,
        entries: &Vec<ScanEntry>,
        allow: Option<&Filter>,
        ignore: Option<&Filter>,
    ) -> (r: SyncDir)
        ensures
            r.root == root,
            no_duplicates(r@.dirs),
            no_duplicates(file_paths(r@.files)),
            forall|k: int|
                0 <= k < r@.dirs.len() ==> dir_kept_from(entries@, entries@.len() as int, #[trigger] r@.dirs[k], filter_view(ignore)),
            forall|i: int|
                0 <= i < entries@.len() && keeps_dir(#[trigger] entries@[i], filter_view(ignore))
                    ==> r@.dirs.contains(entries@[i].path@),
            forall|k: int|
                0 <= k < r@.files.len() ==> file_kept_from(entries@, entries@.len() as int, #[trigger] r@.files[k], filter_view(allow), filter_view(ignore)),
            forall|i: int|
                0 <= i < entries@.len() && keeps_file(
                    #[trigger] entries@[i],
                    filter_view(allow),
                    filter_view(ignore),
                ) ==> file_paths(r@.files).contains(entries@[i].path@),
            all_files_pass(r@, filter_view(allow), filter_view(ignore)),
            distinct_paths(r@),
    {
        let ghost inc = filter_view(allow);
        let ghost ign = filter_view(ignore);
        let mut dirs: Vec<RelPath> = Vec::new();
        let mut files: Vec<FileEntry> = Vec::new();
        let mut i: usize = 0;
        while i < entries.len()
            invariant
                0 <= i <= entries@.len(),
                inc == filter_view(allow),
                ign == filter_view(ignore),
                no_duplicates(paths_of(dirs@)),
                no_duplicates(file_paths(files_of(files@))),
                forall|k: int|
                    0 <= k < dirs@.len() ==> dir_kept_from(entries@, i as int, (#[trigger] dirs@[k])@, ign),
                forall|j: int|
                    0 <= j < i && keeps_dir(#[trigger] entries@[j], ign) ==> paths_of(
                        dirs@,
                    ).contains(entries@[j].path@),
                forall|k: int|
                    0 <= k < files@.len() ==> file_kept_from(entries@, i as int, (#[trigger] files@[k])@, inc, ign),
                forall|j: int|
                    0 <= j < i && keeps_file(#[trigger] entries@[j], inc, ign) ==> file_paths(
                        files_of(files@),
                    ).contains(entries@[j].path@),
            decreases entries.len() - i,
        {
            let e = &entries[i];
            let ghost pd = paths_of(dirs@);
            let ghost pf = file_paths(files_of(files@));
            let ghost old_dirs = dirs@;
            let ghost old_files = files@;
            if e.path.depth() > 0 && !matches_filter(ignore, &e.path) {
                if !e.is_file {
                    if !contains_path(&dirs, &e.path) {
                        dirs.push(e.path.duplicate());
                        proof {
                            assert(paths_of(dirs@) =~= pd.push(e.path@));
                            assert forall|a: int, b: int|
                                0 <= a < b < paths_of(dirs@).len() implies paths_of(dirs@)[a]
                                != paths_of(dirs@)[b] by {
                                if b == dirs@.len() - 1 {
                                    assert(old_dirs[a]@ == pd[a]);
                                }
                            }
                            assert forall|k: int| 0 <= k < dirs@.len() implies dir_kept_from(entries@, i + 1, (#[trigger] dirs@[k])@, ign) by {
                                if k == dirs@.len() - 1 {
                                    assert(keeps_dir(entries@[i as int], ign));
                                } else {
                                    assert(dirs@[k] == old_dirs[k]);
                                    assert(dir_kept_from(entries@, i as int, old_dirs[k]@, ign));
                                }
                            }
                            assert forall|j: int|
                                0 <= j < i + 1 && keeps_dir(#[trigger] entries@[j], ign)
                                implies paths_of(dirs@).contains(entries@[j].path@) by {
                                if j == i {
                                    assert(paths_of(dirs@)[dirs@.len() - 1] == e.path@);
                                } else {
                                    let k = choose|k: int| 0 <= k < pd.len() && pd[k] == entries@[j].path@;
                                    assert(paths_of(dirs@)[k] == pd[k]);
                                }
                            }
                        }
                    } else {
                        assert(paths_of(dirs@).contains(e.path@)) by {
                            let k = choose|k: int| 0 <= k < dirs@.len() && dirs@[k]@ == e.path@;
                            assert(paths_of(dirs@)[k] == e.path@);
                        }
                    }
                } else if !(allow.is_some() && !matches_filter(allow, &e.path)) {
                    if !contains_file_path(&files, &e.path) {
                        files.push(FileEntry { path: e.path.duplicate(), stamp: e.stamp });
                        proof {
                            assert(file_paths(files_of(files@)) =~= pf.push(e.path@));
                            assert forall|a: int, b: int|
                                0 <= a < b < file_paths(files_of(files@)).len() implies file_paths(files_of(files@))[a]
                                != file_paths(files_of(files@))[b] by {
                                if b == files@.len() - 1 {
                                    assert(pf[a] == file_paths(files_of(files@))[a]);
                                }
                            }
                            assert forall|k: int| 0 <= k < files@.len() implies file_kept_from(entries@, i + 1, (#[trigger] files@[k])@, inc, ign) by {
                                if k == files@.len() - 1 {
                                    assert(keeps_file(entries@[i as int], inc, ign));
                                } else {
                                    assert(files@[k] == old_files[k]);
                                    assert(file_kept_from(entries@, i as int, old_files[k]@, inc, ign));
                                }
                            }
                            assert forall|j: int|
                                0 <= j < i + 1 && keeps_file(#[trigger] entries@[j], inc, ign)
                                implies file_paths(files_of(files@)).contains(entries@[j].path@) by {
                                if j == i {
                                    assert(file_paths(files_of(files@))[files@.len() - 1] == e.path@);
                                } else {
                                    let k = choose|k: int| 0 <= k < pf.len() && pf[k] == entries@[j].path@;
                                    assert(file_paths(files_of(files@))[k] == pf[k]);
                                }
                            }
                        }
                    }
                }
            }
            proof {
                assert forall|k: int| 0 <= k < dirs@.len() implies dir_kept_from(entries@, i + 1, (#[trigger] dirs@[k])@, ign) by {
                    if k < old_dirs.len() {
                        assert(dirs@[k] == old_dirs[k]);
                        assert(dir_kept_from(entries@, i as int, old_dirs[k]@, ign));
                    }
                }
                assert forall|k: int| 0 <= k < files@.len() implies file_kept_from(entries@, i + 1, (#[trigger] files@[k])@, inc, ign) by {
                    if k < old_files.len() {
                        assert(files@[k] == old_files[k]);
                        assert(file_kept_from(entries@, i as int, old_files[k]@, inc, ign));
                    }
                }
            }
            i = i + 1;
        }
        let r = SyncDir { root, dirs, files };
        assert forall|k: int| 0 <= k < r@.dirs.len() implies dir_kept_from(entries@, entries@.len() as int, #[trigger] r@.dirs[k], ign) by {
            assert(r@.dirs[k] == r.dirs@[k]@);
        }
        assert forall|k: int| 0 <= k < r@.files.len() implies file_kept_from(entries@, entries@.len() as int, #[trigger] r@.files[k], inc, ign) by {
            assert(r@.files[k] == r.files@[k]@);
        }
        assert forall|k: int| 0 <= k < r@.files.len() implies passes(inc, ign, (#[trigger] r@.files[k]).0) by {
            assert(file_kept_from(entries@, entries@.len() as int, r@.files[k], inc, ign));
        }
        r
    }
}


/// One step of a sync job.
#[derive(Debug)]
pub enum SyncOp {
    Copy { path: RelPath },
    CreateDir { path: RelPath },
    Delete { path: RelPath },
    RemoveDir { path: RelPath },
    VerifyCheckSum { path: RelPath, size: u64, crc32: u32 },
}

pub ghost enum OpView {
    Copy(PathView),
    CreateDir(PathView),
    Delete(PathView),
    RemoveDir(PathView),
    VerifyCheckSum(PathView, u64, u32),
}

impl View for SyncOp {
    type V = OpView;

    open spec fn view(&self) -> OpView {
        match self {
            SyncOp::Copy { path } => OpView::Copy(path@),
            SyncOp::CreateDir { path } => OpView::CreateDir(path@),
            SyncOp::Delete { path } => OpView::Delete(path@),
            SyncOp::RemoveDir { path } => OpView::RemoveDir(path@),
            SyncOp::VerifyCheckSum { path, size, crc32 } => OpView::VerifyCheckSum(path@, *size, *crc32),
        }
    }
}

pub open spec fn ops_of(v: Seq<SyncOp>) -> Seq<OpView> {
    v.map_values(|o: SyncOp| o@)
}

/// The operations that mirror `src_path` onto `dst_path`, in the order
/// they are to run.
#[derive(Debug)]
pub struct SyncJob {
    pub src_path: String,
    pub dst_path: String,
    pub ops: Vec<SyncOp>,
}

/// Directories of `src` that `dst` lacks.
pub open spec fn new_dirs(src: SyncDirView, dst: SyncDirView) -> Seq<PathView> {
    src.dirs.filter(|d: PathView| !dst.dirs.contains(d))
}

/// Files of `src` whose path `dst` lacks.
pub open spec fn new_files(src: SyncDirView, dst: SyncDirView) -> Seq<FileView> {
    src.files.filter(|f: FileView| !file_paths(dst.files).contains(f.0))
}

/// Files of `src` that `dst` holds at the same path with another size or
/// modification time.
pub open spec fn changed_files(src: SyncDirView, dst: SyncDirView) -> Seq<FileView> {
    src.files.filter(|f: FileView| file_paths(dst.files).contains(f.0) && !dst.files.contains(f))
}

/// The files a sync copies: the new ones, then the changed ones.
pub open spec fn copied_files(src: SyncDirView, dst: SyncDirView) -> Seq<FileView> {
    new_files(src, dst) + changed_files(src, dst)
}

/// A file is copied exactly when `dst` does not hold it with the same stamp.
pub proof fn lemma_copied_files_contains(src: SyncDirView, dst: SyncDirView, f: FileView)
    ensures
        copied_files(src, dst).contains(f) <==> (src.files.contains(f) && !dst.files.contains(f)),
{
    broadcast use vstd::seq_lib::group_filter_ensures;
    let n = new_files(src, dst);
    let g = changed_files(src, dst);
    let dp = file_paths(dst.files);
    let pn = |h: FileView| !dp.contains(h.0);
    let pg = |h: FileView| dp.contains(h.0) && !dst.files.contains(h);
    if dst.files.contains(f) {
        let j = choose|j: int| 0 <= j < dst.files.len() && dst.files[j] == f;
        assert(dp[j] == f.0);
    }
    if src.files.contains(f) && !dst.files.contains(f) {
        let i = choose|i: int| 0 <= i < src.files.len() && src.files[i] == f;
        if dp.contains(f.0) {
            src.files.lemma_filter_contains(pg, i);
            let k = choose|k: int| 0 <= k < g.len() && g[k] == f;
            assert((n + g)[n.len() + k] == f);
        } else {
            src.files.lemma_filter_contains(pn, i);
            let k = choose|k: int| 0 <= k < n.len() && n[k] == f;
            assert((n + g)[k] == f);
        }
    }
    if (n + g).contains(f) {
        let k = choose|k: int| 0 <= k < (n + g).len() && (n + g)[k] == f;
        if k < n.len() {
            assert(n[k] == f);
            assert(n.contains(f));
            src.files.lemma_filter_contains_rev(pn, f);
        } else {
            assert(g[k - n.len()] == f);
            assert(g.contains(f));
            src.files.lemma_filter_contains_rev(pg, f);
        }
    }
}

/// Files of `dst` whose path `src` lacks.
pub open spec fn stale_files(src: SyncDirView, dst: SyncDirView) -> Seq<PathView> {
    file_paths(dst.files).filter(|p: PathView| !file_paths(src.files).contains(p))
}

/// Directories of `dst` that `src` lacks.
pub open spec fn stale_dirs(src: SyncDirView, dst: SyncDirView) -> Seq<PathView> {
    dst.dirs.filter(|d: PathView| !src.dirs.contains(d))
}

pub open spec fn max_depth(s: Seq<PathView>) -> nat
    decreases s.len(),
{
    if s.len() == 0 {
        0
    } else {
        let m = max_depth(s.drop_last());
        if s.last().len() > m {
            s.last().len()
        } else {
            m
        }
    }
}

pub open spec fn at_depth(s: Seq<PathView>, d: nat) -> Seq<PathView> {
    s.filter(|p: PathView| p.len() == d)
}

/// The paths of `s` of depth `hi`, then those of depth `hi - 1`, and so
/// on down to depth `lo`; each group in the order of `s`.
pub open spec fn levels(s: Seq<PathView>, hi: nat, lo: nat) -> Seq<PathView>
    decreases hi - lo,
{
    if lo >= hi {
        at_depth(s, hi)
    } else {
        levels(s, hi, lo + 1) + at_depth(s, lo)
    }
}

/// `s` ordered deepest first, so that each directory is removed before its
/// parent.
pub open spec fn deepest_first(s: Seq<PathView>) -> Seq<PathView> {
    levels(s, max_depth(s), 0)
}

pub open spec fn verify_ops(files: Seq<FileView>, checksums: Seq<u32>) -> Seq<OpView> {
    Seq::new(
        files.len(),
        |i: int| OpView::VerifyCheckSum(files[i].0, files[i].1.size, checksums[i]),
    )
}

/// The plan that mirrors `src` onto `dst`: create the missing directories,
/// copy new and changed files, delete stale files, remove stale directories
/// deepest first, then verify each copied file against its checksum.
pub open spec fn plan_ops(src: SyncDirView, dst: SyncDirView, checksums: Seq<u32>) -> Seq<OpView> {
    new_dirs(src, dst).map_values(|d: PathView| OpView::CreateDir(d))
        + copied_files(src, dst).map_values(|f: FileView| OpView::Copy(f.0))
        + stale_files(src, dst).map_values(|p: PathView| OpView::Delete(p))
        + deepest_first(stale_dirs(src, dst)).map_values(|p: PathView| OpView::RemoveDir(p))
        + verify_ops(copied_files(src, dst), checksums)
}

proof fn lemma_filter_step<A>(s: Seq<A>, i: int, pred: spec_fn(A) -> bool)
    requires
        0 <= i < s.len(),
    ensures
        s.subrange(0, i + 1).filter(pred) == if pred(s[i]) {
            s.subrange(0, i).filter(pred).push(s[i])
        } else {
            s.subrange(0, i).filter(pred)
        },
{
    reveal(Seq::filter);
    assert(s.subrange(0, i + 1).drop_last() =~= s.subrange(0, i));
}

/// The paths of `a` that `b` lacks, in the order of `a`.
fn paths_missing_from(a: &Vec<RelPath>, b: &Vec<RelPath>) -> (r: Vec<RelPath>)
    ensures
        paths_of(r@) == paths_of(a@).filter(|d: PathView| !paths_of(b@).contains(d)),
{
    let ghost pred = |d: PathView| !paths_of(b@).contains(d);
    let ghost pa = paths_of(a@);
    let mut r: Vec<RelPath> = Vec::new();
    let mut i: usize = 0;
    while i < a.len()
        invariant
            0 <= i <= a@.len(),
            pa == paths_of(a@),
            pred == (|d: PathView| !paths_of(b@).contains(d)),
            paths_of(r@) == pa.subrange(0, i as int).filter(pred),
        decreases a.len() - i,
    {
        proof {
            lemma_filter_step(pa, i as int, pred);
        }
        let found = contains_path(b, &a[i]);
        proof {
            if found {
                let k = choose|k: int| 0 <= k < b@.len() && b@[k]@ == a@[i as int]@;
                assert(paths_of(b@)[k] == a@[i as int]@);
            }
        }
        if !found {
            let ghost before = r@;
            r.push(a[i].duplicate());
            assert(paths_of(r@) =~= paths_of(before).push(a@[i as int]@));
        }
        i = i + 1;
    }
    assert(pa.subrange(0, a@.len() as int) =~= pa);
    r
}


/// The files of `src` whose path `dst` lacks, in the order of `src`.
fn new_files_of(src: &SyncDir, dst: &SyncDir) -> (r: Vec<FileEntry>)
    ensures
        files_of(r@) == new_files(src@, dst@),
{
    let ghost pred = |f: FileView| !file_paths(dst@.files).contains(f.0);
    let ghost fs = src@.files;
    let mut r: Vec<FileEntry> = Vec::new();
    let mut i: usize = 0;
    while i < src.files.len()
        invariant
            0 <= i <= fs.len(),
            fs == src@.files,
            pred == (|f: FileView| !file_paths(dst@.files).contains(f.0)),
            files_of(r@) == fs.subrange(0, i as int).filter(pred),
        decreases src.files.len() - i,
    {
        proof {
            lemma_filter_step(fs, i as int, pred);
        }
        if !contains_file_path(&dst.files, &src.files[i].path) {
            let ghost before = r@;
            r.push(src.files[i].duplicate());
            assert(files_of(r@) =~= files_of(before).push(src.files@[i as int]@));
        }
        i = i + 1;
    }
    assert(fs.subrange(0, fs.len() as int) =~= fs);
    r
}

/// The files of `src` that `dst` holds at the same path with another
/// stamp, in the order of `src`.
fn changed_files_of(src: &SyncDir, dst: &SyncDir) -> (r: Vec<FileEntry>)
    ensures
        files_of(r@) == changed_files(src@, dst@),
{
    let ghost pred = |f: FileView| file_paths(dst@.files).contains(f.0) && !dst@.files.contains(f);
    let ghost fs = src@.files;
    let mut r: Vec<FileEntry> = Vec::new();
    let mut i: usize = 0;
    while i < src.files.len()
        invariant
            0 <= i <= fs.len(),
            fs == src@.files,
            pred == (|f: FileView| file_paths(dst@.files).contains(f.0) && !dst@.files.contains(f)),
            files_of(r@) == fs.subrange(0, i as int).filter(pred),
        decreases src.files.len() - i,
    {
        proof {
            lemma_filter_step(fs, i as int, pred);
        }
        if contains_file_path(&dst.files, &src.files[i].path) && !contains_file(&dst.files, &src.files[i]) {
            let ghost before = r@;
            r.push(src.files[i].duplicate());
            assert(files_of(r@) =~= files_of(before).push(src.files@[i as int]@));
        }
        i = i + 1;
    }
    assert(fs.subrange(0, fs.len() as int) =~= fs);
    r
}

/// The files a sync of `src` onto `dst` copies, new ones first.
fn copied_files_of(src: &SyncDir, dst: &SyncDir) -> (r: Vec<FileEntry>)
    ensures
        files_of(r@) == copied_files(src@, dst@),
{
    let mut r = new_files_of(src, dst);
    let mut changed = changed_files_of(src, dst);
    let ghost a = r@;
    let ghost b = changed@;
    r.append(&mut changed);
    assert(files_of(r@) =~= files_of(a) + files_of(b));
    r
}

/// The paths of the files of `dst` that `src` has no file at.
fn file_paths_missing_from(dst: &Vec<FileEntry>, src: &Vec<FileEntry>) -> (r: Vec<RelPath>)
    ensures
        paths_of(r@) == file_paths(files_of(dst@)).filter(
            |p: PathView| !file_paths(files_of(src@)).contains(p),
        ),
{
    let ghost pred = |p: PathView| !file_paths(files_of(src@)).contains(p);
    let ghost fp = file_paths(files_of(dst@));
    let mut r: Vec<RelPath> = Vec::new();
    let mut i: usize = 0;
    while i < dst.len()
        invariant
            0 <= i <= dst@.len(),
            fp == file_paths(files_of(dst@)),
            pred == (|p: PathView| !file_paths(files_of(src@)).contains(p)),
            paths_of(r@) == fp.subrange(0, i as int).filter(pred),
        decreases dst.len() - i,
    {
        proof {
            lemma_filter_step(fp, i as int, pred);
        }
        assert(fp[i as int] == dst@[i as int].path@);
        if !contains_file_path(src, &dst[i].path) {
            let ghost before = r@;
            r.push(dst[i].path.duplicate());
            assert(paths_of(r@) =~= paths_of(before).push(dst@[i as int].path@));
        }
        i = i + 1;
    }
    assert(fp.subrange(0, dst@.len() as int) =~= fp);
    r
}

/// The paths of `v` with exactly `d` components, in the order of `v`.
fn paths_at_depth(v: &Vec<RelPath>, d: usize) -> (r: Vec<RelPath>)
    ensures
        paths_of(r@) == at_depth(paths_of(v@), d as nat),
{
    let ghost pred = |p: PathView| p.len() == d as nat;
    let ghost pv = paths_of(v@);
    let mut r: Vec<RelPath> = Vec::new();
    let mut i: usize = 0;
    while i < v.len()
        invariant
            0 <= i <= v@.len(),
            pv == paths_of(v@),
            pred == (|p: PathView| p.len() == d as nat),
            paths_of(r@) == pv.subrange(0, i as int).filter(pred),
        decreases v.len() - i,
    {
        proof {
            lemma_filter_step(pv, i as int, pred);
        }
        if v[i].depth() == d {
            let ghost before = r@;
            r.push(v[i].duplicate());
            assert(paths_of(r@) =~= paths_of(before).push(v@[i as int]@));
        }
        i = i + 1;
    }
    assert(pv.subrange(0, v@.len() as int) =~= pv);
    r
}

/// `v` reordered deepest first.
fn order_deepest_first(v: &Vec<RelPath>) -> (r: Vec<RelPath>)
    ensures
        paths_of(r@) == deepest_first(paths_of(v@)),
{
    let ghost pv = paths_of(v@);
    let mut m: usize = 0;
    let mut i: usize = 0;
    while i < v.len()
        invariant
            0 <= i <= v@.len(),
            pv == paths_of(v@),
            m as nat == max_depth(pv.subrange(0, i as int)),
        decreases v.len() - i,
    {
        assert(pv.subrange(0, i as int + 1).drop_last() =~= pv.subrange(0, i as int));
        if v[i].depth() > m {
            m = v[i].depth();
        }
        i = i + 1;
    }
    assert(pv.subrange(0, v@.len() as int) =~= pv);
    let mut r = paths_at_depth(v, m);
    let mut d: usize = m;
    while d > 0
        invariant
            d <= m,
            m as nat == max_depth(pv),
            pv == paths_of(v@),
            paths_of(r@) == levels(pv, m as nat, d as nat),
        decreases d,
    {
        d = d - 1;
        let mut level = paths_at_depth(v, d);
        let ghost before = r@;
        r.append(&mut level);
        assert(paths_of(r@) =~= paths_of(before) + at_depth(pv, d as nat));
    }
    r
}

spec fn make_op(kind: int, p: PathView) -> OpView {
    if kind == 0 {
        OpView::CreateDir(p)
    } else if kind == 1 {
        OpView::Copy(p)
    } else if kind == 2 {
        OpView::Delete(p)
    } else {
        OpView::RemoveDir(p)
    }
}

/// Appends one operation per path, all of one kind: 0 creates a directory,
/// 1 copies, 2 deletes a file, 3 removes a directory.
fn push_path_ops(ops: &mut Vec<SyncOp>, paths: &Vec<RelPath>, kind: u8)
    requires
        kind <= 3,
    ensures
        ops_of(final(ops)@) == ops_of(old(ops)@) + paths_of(paths@).map_values(
            |p: PathView| make_op(kind as int, p),
        ),
{
    let ghost start = ops_of(ops@);
    let ghost pv = paths_of(paths@);
    let mut i: usize = 0;
    while i < paths.len()
        invariant
            0 <= i <= paths@.len(),
            kind <= 3,
            pv == paths_of(paths@),
            ops_of(ops@) == start + pv.subrange(0, i as int).map_values(
                |p: PathView| make_op(kind as int, p),
            ),
        decreases paths.len() - i,
    {
        let path = paths[i].duplicate();
        let op = if kind == 0 {
            SyncOp::CreateDir { path }
        } else if kind == 1 {
            SyncOp::Copy { path }
        } else if kind == 2 {
            SyncOp::Delete { path }
        } else {
            SyncOp::RemoveDir { path }
        };
        let ghost before = ops@;
        ops.push(op);
        assert(ops_of(ops@) =~= ops_of(before).push(make_op(kind as int, pv[i as int])));
        i = i + 1;
        assert(pv.subrange(0, i as int).map_values(|p: PathView| make_op(kind as int, p))
            =~= pv.subrange(0, i as int - 1).map_values(|p: PathView| make_op(kind as int, p)).push(make_op(kind as int, pv[i as int - 1])));
    }
    assert(pv.subrange(0, paths@.len() as int) =~= pv);
}


fn paths_of_files(files: &Vec<FileEntry>) -> (r: Vec<RelPath>)
    ensures
        paths_of(r@) == file_paths(files_of(files@)),
{
    let mut r: Vec<RelPath> = Vec::new();
    let mut i: usize = 0;
    while i < files.len()
        invariant
            0 <= i <= files@.len(),
            paths_of(r@) == file_paths(files_of(files@)).subrange(0, i as int),
        decreases files.len() - i,
    {
        let ghost before = r@;
        r.push(files[i].path.duplicate());
        assert(paths_of(r@) =~= paths_of(before).push(files@[i as int].path@));
        assert(file_paths(files_of(files@))[i as int] == files@[i as int].path@);
        i = i + 1;
        assert(paths_of(r@) =~= file_paths(files_of(files@)).subrange(0, i as int));
    }
    assert(file_paths(files_of(files@)).subrange(0, files@.len() as int) =~= file_paths(files_of(files@)));
    r
}

impl SyncDir {
    /// The files of `src` that a sync onto `self` copies, in the order their
    /// checksums are to be given to `sync_from`.
    pub fn files_to_copy(&self, src: &SyncDir) -> (r: Vec<RelPath>)
        ensures
            paths_of(r@) == file_paths(copied_files(src@, self@)),
    {
        let copies = copied_files_of(src, self);
        paths_of_files(&copies)
    }

    /// The job that mirrors `src` onto `self`. `checksums[i]` is the CRC-32
    /// of the source file `files_to_copy(src)[i]`, taken before the copy.
    pub fn sync_from(&self, src: &SyncDir, checksums: &Vec<u32>) -> (r: SyncJob)
        requires
            checksums@.len() == copied_files(src@, self@).len(),
            distinct_paths(src@),
            distinct_paths(self@),
        ensures
            no_duplicates(new_dirs(src@, self@)),
            no_duplicates(file_paths(copied_files(src@, self@))),
            no_duplicates(stale_files(src@, self@)),
            no_duplicates(deepest_first(stale_dirs(src@, self@))),
            r.src_path == src.root,
            r.dst_path == self.root,
            ops_of(r.ops@) == plan_ops(src@, self@, checksums@),
    {
        let created = paths_missing_from(&src.dirs, &self.dirs);
        let copies = copied_files_of(src, self);
        let copied_paths = paths_of_files(&copies);
        let deleted = file_paths_missing_from(&self.files, &src.files);
        let stale = paths_missing_from(&self.dirs, &src.dirs);
        let removed = order_deepest_first(&stale);

        let mut ops: Vec<SyncOp> = Vec::new();
        push_path_ops(&mut ops, &created, 0);
        push_path_ops(&mut ops, &copied_paths, 1);
        push_path_ops(&mut ops, &deleted, 2);
        push_path_ops(&mut ops, &removed, 3);
        let ghost head = ops_of(ops@);

        let ghost cf = copied_files(src@, self@);
        let mut i: usize = 0;
        while i < copies.len()
            invariant
                0 <= i <= copies@.len(),
                cf == copied_files(src@, self@),
                files_of(copies@) == cf,
                checksums@.len() == cf.len(),
                ops_of(ops@) == head + verify_ops(cf, checksums@).subrange(0, i as int),
            decreases copies.len() - i,
        {
            let ghost before = ops@;
            ops.push(
                SyncOp::VerifyCheckSum {
                    path: copies[i].path.duplicate(),
                    size: copies[i].stamp.size,
                    crc32: checksums[i],
                },
            );
            assert(ops_of(ops@) =~= ops_of(before).push(verify_ops(cf, checksums@)[i as int]));
            i = i + 1;
            assert(verify_ops(cf, checksums@).subrange(0, i as int) =~= verify_ops(
                cf,
                checksums@,
            ).subrange(0, i as int - 1).push(verify_ops(cf, checksums@)[i as int - 1]));
        }
        proof {
            let sv = src@;
            let dv = self@;
            crate::model::lemma_plan_paths_distinct(sv, dv);
            assert(verify_ops(cf, checksums@).subrange(0, cf.len() as int) =~= verify_ops(cf, checksums@));
            assert(paths_of(created@).map_values(|p: PathView| make_op(0, p)) =~= new_dirs(sv, dv).map_values(
                |d: PathView| OpView::CreateDir(d),
            ));
            assert(paths_of(copied_paths@).map_values(|p: PathView| make_op(1, p)) =~= cf.map_values(
                |f: FileView| OpView::Copy(f.0),
            ));
            assert(paths_of(deleted@).map_values(|p: PathView| make_op(2, p)) =~= stale_files(sv, dv).map_values(
                |p: PathView| OpView::Delete(p),
            ));
            assert(paths_of(removed@).map_values(|p: PathView| make_op(3, p)) =~= deepest_first(
                stale_dirs(sv, dv),
            ).map_values(|p: PathView| OpView::RemoveDir(p)));
        }
        SyncJob { src_path: src.root.clone(), dst_path: self.root.clone(), ops }
    }
}


/// Why a sync job stopped.
#[derive(Debug)]
pub enum SyncJobError {
    /// Any other failure, with what was reported.
    Other { message: String },
    /// A copied file did not hash to the source's checksum.
    ChecksumMismatch,
    /// A source file was gone when it was to be copied.
    FileNotFound { path: RelPath },
    /// A source file could not be read.
    ReadError { path: RelPath },
}

/// The failures that a new attempt may cure: the source may still be
/// being written.
pub open spec fn retriable(e: SyncJobError) -> bool {
    !(e is Other)
}

/// Retries after a failed attempt, at most; so at most four attempts.
pub const MAX_RETRIES: u32 = 3;

impl SyncJobError {
    pub fn is_retriable(&self) -> (r: bool)
        ensures
            r == retriable(*self),
    {
        match self {
            SyncJobError::Other { .. } => false,
            _ => true,
        }
    }
}

/// Whether to run scan, plan and execute again after the `failures`-th
/// failed attempt (counting this one) ended in `err`.
pub fn should_retry(failures: u32, err: &SyncJobError) -> (r: bool)
    ensures
        r == (retriable(*err) && failures <= MAX_RETRIES),
{
    err.is_retriable() && failures <= MAX_RETRIES
}

/// The outcome of a verify step: the copy hashed to `expected` or not.
pub fn check_checksum(expected: u32, copy: ChecksumStream) -> (r: Result<(), SyncJobError>)
    ensures
        r is Ok <==> crc32_of(copy@) == expected,
        r matches Err(e) ==> e is ChecksumMismatch,
{
    if copy.finish() == expected {
        Ok(())
    } else {
        Err(SyncJobError::ChecksumMismatch)
    }
}

/// Whether a single file must be copied: the destination lacks it or holds
/// it with another size or modification time.
pub fn file_needs_copy(src: FileStamp, dst: Option<FileStamp>) -> (r: bool)
    ensures
        r == (dst != Some(src)),
{
    match dst {
        Some(d) => d != src,
        None => true,
    }
}

/// The job that mirrors one file `name` of `src_dir` into `dst_dir`, or
/// `None` when the destination already holds it unchanged. `crc` is the
/// source's checksum.
pub fn sync_file_job(
    src_dir: String,
    dst_dir: String,
    name: RelPath,
    src_stamp: FileStamp,
    dst_stamp: Option<FileStamp>,
    crc: u32,
) -> (r: Option<SyncJob>)
    ensures
        r is None <==> dst_stamp == Some(src_stamp),
        r matches Some(j) ==> j.src_path == src_dir && j.dst_path == dst_dir && ops_of(j.ops@)
            == seq![OpView::Copy(name@), OpView::VerifyCheckSum(name@, src_stamp.size, crc)],
{
    if !file_needs_copy(src_stamp, dst_stamp) {
        return None;
    }
    let mut ops: Vec<SyncOp> = Vec::new();
    ops.push(SyncOp::Copy { path: name.duplicate() });
    ops.push(SyncOp::VerifyCheckSum { path: name, size: src_stamp.size, crc32: crc });
    let job = SyncJob { src_path: src_dir, dst_path: dst_dir, ops };
    assert(ops_of(job.ops@) =~= seq![OpView::Copy(job.ops@[0]->Copy_path@), OpView::VerifyCheckSum(job.ops@[1]->VerifyCheckSum_path@, src_stamp.size, crc)]);
    Some(job)
}

/// The two trees hold the same directories and the same files, each with
/// the same size and modification time.
pub open spec fn mirrors(src: SyncDirView, dst: SyncDirView) -> bool {
    &&& forall|p: PathView| src.dirs.contains(p) <==> dst.dirs.contains(p)
    &&& forall|f: FileView| src.files.contains(f) <==> dst.files.contains(f)
}

proof fn lemma_levels_empty(s: Seq<PathView>, hi: nat, lo: nat)
    requires
        s.len() == 0,
    ensures
        levels(s, hi, lo).len() == 0,
    decreases hi - lo,
{
    reveal(Seq::filter);
    if lo < hi {
        lemma_levels_empty(s, hi, lo + 1);
    }
}

/// Syncing is idempotent: once the destination mirrors the source (which
/// is what a completed job leaves, since copies keep the modification
/// time), a new plan copies nothing and has no operation at all.
pub proof fn lemma_sync_idempotent(src: SyncDirView, dst: SyncDirView)
    requires
        mirrors(src, dst),
    ensures
        copied_files(src, dst).len() == 0,
        plan_ops(src, dst, Seq::empty()).len() == 0,
{
    broadcast use vstd::seq_lib::group_filter_ensures;
    src.dirs.lemma_all_neg_filter_empty(|d: PathView| !dst.dirs.contains(d));
    assert forall|k: int| 0 <= k < src.files.len() implies file_paths(dst.files).contains(
        (#[trigger] src.files[k]).0,
    ) && dst.files.contains(src.files[k]) by {
        assert(src.files.contains(src.files[k]));
        let j = choose|j: int| 0 <= j < dst.files.len() && dst.files[j] == src.files[k];
        assert(file_paths(dst.files)[j] == src.files[k].0);
    }
    src.files.lemma_all_neg_filter_empty(|f: FileView| !file_paths(dst.files).contains(f.0));
    src.files.lemma_all_neg_filter_empty(
        |f: FileView| file_paths(dst.files).contains(f.0) && !dst.files.contains(f),
    );
    dst.dirs.lemma_all_neg_filter_empty(|d: PathView| !src.dirs.contains(d));
    assert forall|k: int| 0 <= k < file_paths(dst.files).len() implies file_paths(src.files).contains(
        #[trigger] file_paths(dst.files)[k],
    ) by {
        assert(dst.files.contains(dst.files[k]));
        let j = choose|j: int| 0 <= j < src.files.len() && src.files[j] == dst.files[k];
        assert(file_paths(src.files)[j] == file_paths(dst.files)[k]);
    }
    file_paths(dst.files).lemma_all_neg_filter_empty(
        |p: PathView| !file_paths(src.files).contains(p),
    );
    lemma_levels_empty(stale_dirs(src, dst), max_depth(stale_dirs(src, dst)), 0);
}

/// Every file that a plan copies is verified afterwards: a copy of `p` is
/// followed, later in the job, by a checksum check of `p`.
pub proof fn lemma_copies_verified(src: SyncDirView, dst: SyncDirView, checksums: Seq<u32>)
    requires
        checksums.len() == copied_files(src, dst).len(),
    ensures
        forall|i: int|
            0 <= i < plan_ops(src, dst, checksums).len() && (#[trigger] plan_ops(src, dst, checksums)[i]) is Copy
                ==> exists|j: int|
                i < j < plan_ops(src, dst, checksums).len() && plan_ops(src, dst, checksums)[j] is VerifyCheckSum
                    && plan_ops(src, dst, checksums)[j]->VerifyCheckSum_0 == plan_ops(src, dst, checksums)[i]->Copy_0,
{
    let ops = plan_ops(src, dst, checksums);
    let a = new_dirs(src, dst).map_values(|d: PathView| OpView::CreateDir(d));
    let c = copied_files(src, dst).map_values(|f: FileView| OpView::Copy(f.0));
    let d = stale_files(src, dst).map_values(|p: PathView| OpView::Delete(p));
    let e = deepest_first(stale_dirs(src, dst)).map_values(|p: PathView| OpView::RemoveDir(p));
    let v = verify_ops(copied_files(src, dst), checksums);
    assert(ops == a + c + d + e + v);
    assert forall|i: int| 0 <= i < ops.len() && (#[trigger] ops[i]) is Copy implies exists|j: int|
        i < j < ops.len() && ops[j] is VerifyCheckSum && ops[j]->VerifyCheckSum_0 == ops[i]->Copy_0 by {
        if i < a.len() {
            assert(ops[i] == a[i]);
        } else if i < a.len() + c.len() {
            let k = i - a.len();
            let j = a.len() + c.len() + d.len() + e.len() + k;
            assert(ops[i] == c[k]);
            assert(ops[j] == v[k]);
        } else if i < a.len() + c.len() + d.len() {
            assert(ops[i] == d[i - a.len() - c.len()]);
        } else if i < a.len() + c.len() + d.len() + e.len() {
            assert(ops[i] == e[i - a.len() - c.len() - d.len()]);
        } else {
            assert(ops[i] == v[i - a.len() - c.len() - d.len() - e.len()]);
        }
    }
}

/// What the allow and ignore lists exclude never reaches the destination:
/// when every source file passes them (as `SyncDir::new` ensures), no copy
/// is of an excluded path, and every excluded file already at the
/// destination is deleted.
pub proof fn lemma_excluded_never_synced(
    src: SyncDirView,
    dst: SyncDirView,
    checksums: Seq<u32>,
    allow: Option<Seq<Seq<char>>>,
    ignore: Option<Seq<Seq<char>>>,
)
    requires
        checksums.len() == copied_files(src, dst).len(),
        all_files_pass(src, allow, ignore),
    ensures
        forall|i: int|
            0 <= i < plan_ops(src, dst, checksums).len() && (#[trigger] plan_ops(src, dst, checksums)[i]) is Copy
                ==> passes(allow, ignore, plan_ops(src, dst, checksums)[i]->Copy_0),
        forall|k: int|
            0 <= k < dst.files.len() && !passes(allow, ignore, (#[trigger] dst.files[k]).0)
                ==> plan_ops(src, dst, checksums).contains(OpView::Delete(dst.files[k].0)),
{
    broadcast use vstd::seq_lib::group_filter_ensures;
    let ops = plan_ops(src, dst, checksums);
    let a = new_dirs(src, dst).map_values(|d: PathView| OpView::CreateDir(d));
    let cf = copied_files(src, dst);
    let c = cf.map_values(|f: FileView| OpView::Copy(f.0));
    let d = stale_files(src, dst).map_values(|p: PathView| OpView::Delete(p));
    let e = deepest_first(stale_dirs(src, dst)).map_values(|p: PathView| OpView::RemoveDir(p));
    let v = verify_ops(cf, checksums);
    assert(ops == a + c + d + e + v);
    assert forall|i: int| 0 <= i < ops.len() && (#[trigger] ops[i]) is Copy implies passes(
        allow,
        ignore,
        ops[i]->Copy_0,
    ) by {
        if i < a.len() {
            assert(ops[i] == a[i]);
        } else if i < a.len() + c.len() {
            let k = i - a.len();
            assert(ops[i] == c[k]);
            assert(cf.contains(cf[k]));
            lemma_copied_files_contains(src, dst, cf[k]);
            let j = choose|j: int| 0 <= j < src.files.len() && src.files[j] == cf[k];
            assert(passes(allow, ignore, src.files[j].0));
        } else if i < a.len() + c.len() + d.len() {
            assert(ops[i] == d[i - a.len() - c.len()]);
        } else if i < a.len() + c.len() + d.len() + e.len() {
            assert(ops[i] == e[i - a.len() - c.len() - d.len()]);
        } else {
            assert(ops[i] == v[i - a.len() - c.len() - d.len() - e.len()]);
        }
    }
    assert forall|k: int| 0 <= k < dst.files.len() && !passes(allow, ignore, (#[trigger] dst.files[k]).0)
        implies ops.contains(OpView::Delete(dst.files[k].0)) by {
        let p = dst.files[k].0;
        assert(file_paths(dst.files)[k] == p);
        if file_paths(src.files).contains(p) {
            let j = choose|j: int| 0 <= j < file_paths(src.files).len() && file_paths(src.files)[j] == p;
            assert(src.files[j].0 == p);
            assert(passes(allow, ignore, src.files[j].0));
        }
        let sf = stale_files(src, dst);
        assert(sf.contains(p));
        let m = choose|m: int| 0 <= m < sf.len() && sf[m] == p;
        assert(d[m] == OpView::Delete(p));
        assert(ops[a.len() + c.len() + m] == d[m]);
    }
}

/// The lists a sync scans its destination with. A restore scans the live
/// tree with the save directory's own lists, so what they exclude there is
/// never seen and so never deleted; a backup scans its staging tree whole,
/// so whatever the lists exclude is removed from the staged copy.
pub fn destination_filters<'a>(
    restoring: bool,
    allow: Option<&'a Filter>,
    ignore: Option<&'a Filter>,
) -> (r: (Option<&'a Filter>, Option<&'a Filter>))
    ensures
        restoring ==> r.0 == allow && r.1 == ignore,
        !restoring ==> r.0 is None && r.1 is None,
{
    if restoring {
        (allow, ignore)
    } else {
        (None, None)
    }
}

/// A restore deletes no live file that the lists exclude: when every file
/// of the destination's scan passes the lists (as a scan with them
/// ensures), every file the plan deletes passes them.
pub proof fn lemma_restore_keeps_excluded(
    src: SyncDirView,
    dst: SyncDirView,
    checksums: Seq<u32>,
    allow: Option<Seq<Seq<char>>>,
    ignore: Option<Seq<Seq<char>>>,
)
    requires
        checksums.len() == copied_files(src, dst).len(),
        all_files_pass(dst, allow, ignore),
    ensures
        forall|i: int|
            0 <= i < plan_ops(src, dst, checksums).len() && (#[trigger] plan_ops(src, dst, checksums)[i]) is Delete
                ==> passes(allow, ignore, plan_ops(src, dst, checksums)[i]->Delete_0),
{
    broadcast use vstd::seq_lib::group_filter_ensures;
    let ops = plan_ops(src, dst, checksums);
    let a = new_dirs(src, dst).map_values(|d: PathView| OpView::CreateDir(d));
    let cf = copied_files(src, dst);
    let c = cf.map_values(|f: FileView| OpView::Copy(f.0));
    let sf = stale_files(src, dst);
    let d = sf.map_values(|p: PathView| OpView::Delete(p));
    let e = deepest_first(stale_dirs(src, dst)).map_values(|p: PathView| OpView::RemoveDir(p));
    let v = verify_ops(cf, checksums);
    assert(ops == a + c + d + e + v);
    let dp = file_paths(dst.files);
    assert forall|i: int| 0 <= i < ops.len() && (#[trigger] ops[i]) is Delete implies passes(
        allow,
        ignore,
        ops[i]->Delete_0,
    ) by {
        if i < a.len() {
            assert(ops[i] == a[i]);
        } else if i < a.len() + c.len() {
            assert(ops[i] == c[i - a.len()]);
        } else if i < a.len() + c.len() + d.len() {
            let m = i - a.len() - c.len();
            assert(ops[i] == d[m]);
            let p = sf[m];
            assert(sf.contains(p));
            dp.lemma_filter_contains_rev(|q: PathView| !file_paths(src.files).contains(q), p);
            let j = choose|j: int| 0 <= j < dp.len() && dp[j] == p;
            assert(dst.files[j].0 == p);
            assert(passes(allow, ignore, dst.files[j].0));
        } else if i < a.len() + c.len() + d.len() + e.len() {
            assert(ops[i] == e[i - a.len() - c.len() - d.len()]);
        } else {
            assert(ops[i] == v[i - a.len() - c.len() - d.len() - e.len()]);
        }
    }
}

/// How a file operation failed, as the file system reported it.
#[derive(Debug)]
pub enum IoFailure {
    /// The source's metadata could not be read (it may be gone).
    MetadataUnavailable,
    /// The file was not found when it was opened or copied.
    NotFound,
    /// The file could not be read through (while hashing it).
    Unreadable,
    /// Anything else, with what was reported.
    Other { message: String },
}

/// The sync error for a failure on `path`. Missing metadata and unreadable
/// files are read errors and a vanished file is "not found", all of which a
/// new attempt may cure; anything else is fatal.
pub fn classify_failure(path: RelPath, failure: IoFailure) -> (r: SyncJobError)
    ensures
        failure is MetadataUnavailable || failure is Unreadable ==> (r is ReadError && r->ReadError_path@
            == path@),
        failure is NotFound ==> (r is FileNotFound && r->FileNotFound_path@ == path@),
        failure is Other ==> (r is Other && r->Other_message == failure->Other_message),
        retriable(r) == !(failure is Other),
{
    match failure {
        IoFailure::MetadataUnavailable => SyncJobError::ReadError { path },
        IoFailure::Unreadable => SyncJobError::ReadError { path },
        IoFailure::NotFound => SyncJobError::FileNotFound { path },
        IoFailure::Other { message } => SyncJobError::Other { message },
    }
}

} // verus!
