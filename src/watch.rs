use vstd::prelude::*;

use crate::filter::Filter;
use crate::relpath::{PathView, RelPath};
use crate::sync::{filter_view, passes};

verus! {

/// `root` is a leading part of `p`, component by component.
pub open spec fn is_under(root: PathView, p: PathView) -> bool {
    root.len() <= p.len() && p.subrange(0, root.len() as int) == root
}

/// `path` relative to `root`, if it lies under it.
pub fn strip_root(root: &RelPath, path: &RelPath) -> (r: Option<RelPath>)
    ensures
        r is Some <==> is_under(root@, path@),
        r matches Some(rel) ==> rel@ == path@.subrange(root@.len() as int, path@.len() as int),
{
    let n = root.components.len();
    if n > path.components.len() {
        return None;
    }
    let mut i: usize = 0;
    while i < n
        invariant
            n == root@.len(),
            n <= path@.len(),
            0 <= i <= n,
            forall|k: int| 0 <= k < i ==> path@[k] == root@[k],
        decreases n - i,
    {
        if root.components[i] != path.components[i] {
            assert(path@.subrange(0, n as int)[i as int] != root@[i as int]);
            return None;
        }
        i = i + 1;
    }
    assert(path@.subrange(0, n as int) =~= root@);
    let mut rest: Vec<String> = Vec::new();
    let mut j: usize = n;
    while j < path.components.len()
        invariant
            n == root@.len(),
            n <= j <= path@.len(),
            rest@.len() == j - n,
            forall|k: int| 0 <= k < j - n ==> (#[trigger] rest@[k])@ == path@[n + k],
        decreases path.components.len() - j,
    {
        rest.push(path.components[j].clone());
        j = j + 1;
    }
    let rel = RelPath::new(rest);
    assert(rel@ =~= path@.subrange(n as int, path@.len() as int));
    Some(rel)
}

/// A watched save directory: its absolute path as components, with its
/// lists.
pub struct WatchedDir {
    pub root: RelPath,
    pub allow: Option<Filter>,
    pub ignore: Option<Filter>,
}

pub open spec fn opt_view(f: Option<Filter>) -> Option<Seq<Seq<char>>> {
    match f {
        Some(x) => Some(x@),
        None => None,
    }
}

/// `p` lies under the directory and its relative path passes its lists.
pub open spec fn passes_dir(d: WatchedDir, p: PathView) -> bool {
    is_under(d.root@, p) && passes(opt_view(d.allow), opt_view(d.ignore), p.subrange(d.root@.len() as int, p.len() as int))
}

/// Whether a filesystem event is a change to back up: it is not a mere
/// access, and one of its paths is a watched save file, or lies under a
/// watched directory and passes that directory's lists.
pub open spec fn event_relevant(
    is_access: bool,
    paths: Seq<RelPath>,
    save_files: Seq<RelPath>,
    dirs: Seq<WatchedDir>,
) -> bool {
    !is_access && (names_save_file(paths, save_files) || names_dir_change(paths, dirs))
}

/// One of `paths` is one of `save_files`.
pub open spec fn names_save_file(paths: Seq<RelPath>, save_files: Seq<RelPath>) -> bool {
    exists|i: int, k: int|
        0 <= i < paths.len() && 0 <= k < save_files.len() && #[trigger] paths[i]@ == #[trigger] save_files[k]@
}

/// One of `paths` passes one of `dirs`.
pub open spec fn names_dir_change(paths: Seq<RelPath>, dirs: Seq<WatchedDir>) -> bool {
    exists|i: int, k: int|
        0 <= i < paths.len() && 0 <= k < dirs.len() && passes_dir(#[trigger] dirs[k], #[trigger] paths[i]@)
}

fn passes_watched_dir(d: &WatchedDir, p: &RelPath) -> (r: bool)
    ensures
        r == passes_dir(*d, p@),
{
    match strip_root(&d.root, p) {
        None => false,
        Some(rel) => {
            let s = rel.to_slash_string();
            let ignored = match &d.ignore {
                Some(f) => f.is_match(s.as_str()),
                None => false,
            };
            let allowed = match &d.allow {
                Some(f) => f.is_match(s.as_str()),
                None => true,
            };
            !ignored && allowed
        },
    }
}

/// Decides whether an event updates the last-change time.
pub fn event_accepted(
    is_access: bool,
    paths: &Vec<RelPath>,
    save_files: &Vec<RelPath>,
    dirs: &Vec<WatchedDir>,
) -> (r: bool)
    ensures
        r == event_relevant(is_access, paths@, save_files@, dirs@),
{
    if is_access {
        return false;
    }
    let mut i: usize = 0;
    while i < paths.len()
        invariant
            0 <= i <= paths@.len(),
            !is_access,
            forall|a: int, k: int|
                0 <= a < i && 0 <= k < save_files@.len() ==> #[trigger] paths@[a]@ != #[trigger] save_files@[k]@,
            forall|a: int, k: int|
                0 <= a < i && 0 <= k < dirs@.len() ==> !passes_dir(#[trigger] dirs@[k], #[trigger] paths@[a]@),
        decreases paths.len() - i,
    {
        let mut k: usize = 0;
        while k < save_files.len()
            invariant
                0 <= i < paths@.len(),
                !is_access,
                0 <= k <= save_files@.len(),
                forall|a: int, m: int|
                    0 <= a < i && 0 <= m < save_files@.len() ==> #[trigger] paths@[a]@ != #[trigger] save_files@[m]@,
                forall|m: int| 0 <= m < k ==> paths@[i as int]@ != #[trigger] save_files@[m]@,
            decreases save_files.len() - k,
        {
            if paths[i].same_as(&save_files[k]) {
                assert(paths@[i as int]@ == save_files@[k as int]@);
                assert(names_save_file(paths@, save_files@));

                return true;
            }
            k = k + 1;
        }
        let mut k: usize = 0;
        while k < dirs.len()
            invariant
                0 <= i < paths@.len(),
                !is_access,
                0 <= k <= dirs@.len(),
                forall|a: int, m: int|
                    0 <= a < i && 0 <= m < dirs@.len() ==> !passes_dir(#[trigger] dirs@[m], #[trigger] paths@[a]@),
                forall|m: int| 0 <= m < k ==> !passes_dir(#[trigger] dirs@[m], paths@[i as int]@),
            decreases dirs.len() - k,
        {
            if passes_watched_dir(&dirs[k], &paths[i]) {
                assert(passes_dir(dirs@[k as int], paths@[i as int]@));
                assert(names_dir_change(paths@, dirs@));
                return true;
            }
            k = k + 1;
        }
        i = i + 1;
    }
    false
}

} // verus!
