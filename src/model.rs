use vstd::prelude::*;

use crate::relpath::PathView;
use crate::sync::{
    FileStamp,
    copied_files, deepest_first, file_paths, new_dirs, no_duplicates, plan_ops, stale_dirs, stale_files,
    verify_ops, FileView, OpView, SyncDirView,
};

verus! {

/// A tree as a sync sees it: its directories, and its files with their
/// stamps.
pub ghost struct TreeModel {
    pub dirs: Set<PathView>,
    pub files: Set<FileView>,
}

pub open spec fn tree_of(d: SyncDirView) -> TreeModel {
    TreeModel { dirs: Set::new(|p: PathView| d.dirs.contains(p)), files: Set::new(|f: FileView| d.files.contains(f)) }
}

/// What one operation does to the destination tree. A copy of `p`
/// replaces what the destination holds at `p` by the source's file there,
/// with its size and modification time (the copy keeps the time). A check
/// changes nothing.
pub open spec fn apply_op(t: TreeModel, op: OpView, src: Set<FileView>) -> TreeModel {
    match op {
        OpView::CreateDir(p) => TreeModel { dirs: t.dirs.insert(p), files: t.files },
        OpView::RemoveDir(p) => TreeModel { dirs: t.dirs.remove(p), files: t.files },
        OpView::Copy(p) => TreeModel {
            dirs: t.dirs,
            files: t.files.filter(|f: FileView| f.0 != p).union(src.filter(|f: FileView| f.0 == p)),
        },
        OpView::Delete(p) => TreeModel { dirs: t.dirs, files: t.files.filter(|f: FileView| f.0 != p) },
        OpView::VerifyCheckSum(_, _, _) => t,
    }
}

/// The operations run in order.
pub open spec fn apply_ops(t: TreeModel, ops: Seq<OpView>, src: Set<FileView>) -> TreeModel
    decreases ops.len(),
{
    if ops.len() == 0 {
        t
    } else {
        apply_op(apply_ops(t, ops.drop_last(), src), ops.last(), src)
    }
}

proof fn lemma_apply_concat(t: TreeModel, a: Seq<OpView>, b: Seq<OpView>, src: Set<FileView>)
    ensures
        apply_ops(t, a + b, src) == apply_ops(apply_ops(t, a, src), b, src),
    decreases b.len(),
{
    if b.len() == 0 {
        assert(a + b =~= a);
    } else {
        assert((a + b).drop_last() =~= a + b.drop_last());
        lemma_apply_concat(t, a, b.drop_last(), src);
    }
}

proof fn lemma_apply_creates(t: TreeModel, s: Seq<PathView>, src: Set<FileView>)
    ensures
        apply_ops(t, s.map_values(|p: PathView| OpView::CreateDir(p)), src) == (TreeModel {
            dirs: t.dirs.union(Set::new(|p: PathView| s.contains(p))),
            files: t.files,
        }),
    decreases s.len(),
{
    let ops = s.map_values(|p: PathView| OpView::CreateDir(p));
    if s.len() == 0 {
        assert(t.dirs.union(Set::new(|p: PathView| s.contains(p))) =~= t.dirs);
    } else {
        assert(ops.drop_last() =~= s.drop_last().map_values(|p: PathView| OpView::CreateDir(p)));
        lemma_apply_creates(t, s.drop_last(), src);
        assert forall|p: PathView| s.contains(p) <==> (s.drop_last().contains(p) || p == s.last()) by {
            if s.contains(p) {
                let i = choose|i: int| 0 <= i < s.len() && s[i] == p;
                if i < s.len() - 1 {
                    assert(s.drop_last()[i] == p);
                }
            }
            if s.drop_last().contains(p) {
                let i = choose|i: int| 0 <= i < s.drop_last().len() && s.drop_last()[i] == p;
                assert(s[i] == p);
            }
        }
        assert(t.dirs.union(Set::new(|p: PathView| s.drop_last().contains(p))).insert(s.last())
            =~= t.dirs.union(Set::new(|p: PathView| s.contains(p))));
    }
}

proof fn lemma_apply_removes(t: TreeModel, s: Seq<PathView>, src: Set<FileView>)
    ensures
        apply_ops(t, s.map_values(|p: PathView| OpView::RemoveDir(p)), src) == (TreeModel {
            dirs: t.dirs.difference(Set::new(|p: PathView| s.contains(p))),
            files: t.files,
        }),
    decreases s.len(),
{
    let ops = s.map_values(|p: PathView| OpView::RemoveDir(p));
    if s.len() == 0 {
        assert(t.dirs.difference(Set::new(|p: PathView| s.contains(p))) =~= t.dirs);
    } else {
        assert(ops.drop_last() =~= s.drop_last().map_values(|p: PathView| OpView::RemoveDir(p)));
        lemma_apply_removes(t, s.drop_last(), src);
        assert forall|p: PathView| s.contains(p) <==> (s.drop_last().contains(p) || p == s.last()) by {
            if s.contains(p) {
                let i = choose|i: int| 0 <= i < s.len() && s[i] == p;
                if i < s.len() - 1 {
                    assert(s.drop_last()[i] == p);
                }
            }
            if s.drop_last().contains(p) {
                let i = choose|i: int| 0 <= i < s.drop_last().len() && s.drop_last()[i] == p;
                assert(s[i] == p);
            }
        }
        assert(t.dirs.difference(Set::new(|p: PathView| s.drop_last().contains(p))).remove(s.last())
            =~= t.dirs.difference(Set::new(|p: PathView| s.contains(p))));
    }
}

proof fn lemma_apply_deletes(t: TreeModel, s: Seq<PathView>, src: Set<FileView>)
    ensures
        apply_ops(t, s.map_values(|p: PathView| OpView::Delete(p)), src) == (TreeModel {
            dirs: t.dirs,
            files: t.files.filter(|f: FileView| !s.contains(f.0)),
        }),
    decreases s.len(),
{
    let ops = s.map_values(|p: PathView| OpView::Delete(p));
    if s.len() == 0 {
        assert(t.files.filter(|f: FileView| !s.contains(f.0)) =~= t.files);
    } else {
        assert(ops.drop_last() =~= s.drop_last().map_values(|p: PathView| OpView::Delete(p)));
        assert(ops.last() == OpView::Delete(s.last()));
        lemma_apply_deletes(t, s.drop_last(), src);
        assert forall|p: PathView| s.contains(p) <==> (s.drop_last().contains(p) || p == s.last()) by {
            if s.contains(p) {
                let i = choose|i: int| 0 <= i < s.len() && s[i] == p;
                if i < s.len() - 1 {
                    assert(s.drop_last()[i] == p);
                }
            }
            if s.drop_last().contains(p) {
                let i = choose|i: int| 0 <= i < s.drop_last().len() && s.drop_last()[i] == p;
                assert(s[i] == p);
            }
        }
        assert(apply_ops(t, ops, src).files =~= t.files.filter(|f: FileView| !s.contains(f.0)));
    }
}

proof fn lemma_apply_copies(t: TreeModel, s: Seq<FileView>, src: Set<FileView>)
    ensures
        apply_ops(t, s.map_values(|f: FileView| OpView::Copy(f.0)), src) == (TreeModel {
            dirs: t.dirs,
            files: t.files.filter(|f: FileView| !file_paths(s).contains(f.0)).union(
                src.filter(|f: FileView| file_paths(s).contains(f.0)),
            ),
        }),
    decreases s.len(),
{
    let ops = s.map_values(|f: FileView| OpView::Copy(f.0));
    let ps = file_paths(s);
    if s.len() == 0 {
        assert(t.files.filter(|f: FileView| !ps.contains(f.0)).union(src.filter(|f: FileView| ps.contains(f.0)))
            =~= t.files);
    } else {
        let q = s.drop_last();
        let pq = file_paths(q);
        assert(ops.drop_last() =~= q.map_values(|f: FileView| OpView::Copy(f.0)));
        assert(pq =~= ps.drop_last());
        lemma_apply_copies(t, q, src);
        let last = s.last().0;
        assert(ps.last() == last);
        assert forall|p: PathView| ps.contains(p) <==> (pq.contains(p) || p == last) by {
            if ps.contains(p) {
                let i = choose|i: int| 0 <= i < ps.len() && ps[i] == p;
                if i < ps.len() - 1 {
                    assert(pq[i] == p);
                }
            }
            if pq.contains(p) {
                let i = choose|i: int| 0 <= i < pq.len() && pq[i] == p;
                assert(ps[i] == p);
            }
        }
        assert(t.files.filter(|f: FileView| !pq.contains(f.0)).union(src.filter(|f: FileView| pq.contains(f.0)))
            .filter(|f: FileView| f.0 != last).union(src.filter(|f: FileView| f.0 == last))
            =~= t.files.filter(|f: FileView| !ps.contains(f.0)).union(src.filter(|f: FileView| ps.contains(f.0))));
    }
}

proof fn lemma_apply_verifies(t: TreeModel, files: Seq<FileView>, checksums: Seq<u32>, src: Set<FileView>)
    ensures
        apply_ops(t, verify_ops(files, checksums), src) == t,
    decreases files.len(),
{
    if files.len() > 0 {
        assert(verify_ops(files, checksums).drop_last() =~= verify_ops(files.drop_last(), checksums));
        lemma_apply_verifies(t, files.drop_last(), checksums, src);
    }
}

proof fn lemma_levels_members(s: Seq<PathView>, hi: nat, lo: nat, p: PathView)
    requires
        lo <= hi,
        forall|k: int| 0 <= k < s.len() ==> (#[trigger] s[k]).len() <= hi,
    ensures
        crate::sync::levels(s, hi, lo).contains(p) <==> (s.contains(p) && p.len() >= lo),
    decreases hi - lo,
{
    broadcast use vstd::seq_lib::group_filter_ensures;
    let here = crate::sync::at_depth(s, lo);
    assert(here.contains(p) <==> (s.contains(p) && p.len() == lo)) by {
        if s.contains(p) && p.len() == lo {
            let i = choose|i: int| 0 <= i < s.len() && s[i] == p;
            s.lemma_filter_contains(|q: PathView| q.len() == lo, i);
        }
        if here.contains(p) {
            s.lemma_filter_contains_rev(|q: PathView| q.len() == lo, p);
            let i = choose|i: int| 0 <= i < here.len() && here[i] == p;
            assert(p.len() == lo);
        }
    }
    if lo < hi {
        lemma_levels_members(s, hi, lo + 1, p);
        let rest = crate::sync::levels(s, hi, lo + 1);
        assert((rest + here).contains(p) <==> (rest.contains(p) || here.contains(p))) by {
            if (rest + here).contains(p) {
                let i = choose|i: int| 0 <= i < (rest + here).len() && (rest + here)[i] == p;
                if i < rest.len() {
                    assert(rest[i] == p);
                } else {
                    assert(here[i - rest.len()] == p);
                }
            }
            if rest.contains(p) {
                let i = choose|i: int| 0 <= i < rest.len() && rest[i] == p;
                assert((rest + here)[i] == p);
            }
            if here.contains(p) {
                let i = choose|i: int| 0 <= i < here.len() && here[i] == p;
                assert((rest + here)[rest.len() + i] == p);
            }
        }
    } else {
        if s.contains(p) {
            let i = choose|i: int| 0 <= i < s.len() && s[i] == p;
            assert(s[i].len() <= hi);
        }
    }
}

proof fn lemma_max_depth_bounds(s: Seq<PathView>)
    ensures
        forall|k: int| 0 <= k < s.len() ==> (#[trigger] s[k]).len() <= crate::sync::max_depth(s),
    decreases s.len(),
{
    if s.len() > 0 {
        lemma_max_depth_bounds(s.drop_last());
        assert forall|k: int| 0 <= k < s.len() implies (#[trigger] s[k]).len() <= crate::sync::max_depth(s) by {
            if k < s.len() - 1 {
                assert(s.drop_last()[k] == s[k]);
            }
        }
    }
}

/// Running the plan leaves the destination equal to the source: the same
/// directories, and the same files with the same sizes and modification
/// times. Each tree holds a path at most once, as `SyncDir::new` ensures.
/// So a backup followed by a restore onto a wiped tree gives back the tree
/// as it was (its files that pass the lists), and a second sync finds
/// nothing to do.
pub proof fn lemma_plan_mirrors_source(src: SyncDirView, dst: SyncDirView, checksums: Seq<u32>)
    requires
        no_duplicates(file_paths(src.files)),
        no_duplicates(file_paths(dst.files)),
    ensures
        apply_ops(tree_of(dst), plan_ops(src, dst, checksums), tree_of(src).files) == tree_of(src),
{
    broadcast use vstd::seq_lib::group_filter_ensures;
    let sf = tree_of(src).files;
    let t0 = tree_of(dst);
    let a = new_dirs(src, dst);
    let c = copied_files(src, dst);
    let d = stale_files(src, dst);
    let e = deepest_first(stale_dirs(src, dst));
    let v = verify_ops(c, checksums);
    let oa = a.map_values(|p: PathView| OpView::CreateDir(p));
    let oc = c.map_values(|f: FileView| OpView::Copy(f.0));
    let od = d.map_values(|p: PathView| OpView::Delete(p));
    let oe = e.map_values(|p: PathView| OpView::RemoveDir(p));
    assert(plan_ops(src, dst, checksums) == oa + oc + od + oe + v);
    lemma_apply_concat(t0, oa + oc + od + oe, v, sf);
    lemma_apply_concat(t0, oa + oc + od, oe, sf);
    lemma_apply_concat(t0, oa + oc, od, sf);
    lemma_apply_concat(t0, oa, oc, sf);
    lemma_apply_creates(t0, a, sf);
    let t1 = apply_ops(t0, oa, sf);
    lemma_apply_copies(t1, c, sf);
    let t2 = apply_ops(t1, oc, sf);
    lemma_apply_deletes(t2, d, sf);
    let t3 = apply_ops(t2, od, sf);
    lemma_apply_removes(t3, e, sf);
    let t4 = apply_ops(t3, oe, sf);
    lemma_apply_verifies(t4, c, checksums, sf);

    // directories
    let sd = stale_dirs(src, dst);
    lemma_max_depth_bounds(sd);
    assert forall|p: PathView| e.contains(p) <==> sd.contains(p) by {
        lemma_levels_members(sd, crate::sync::max_depth(sd), 0, p);
    }
    assert forall|p: PathView| a.contains(p) <==> (src.dirs.contains(p) && !dst.dirs.contains(p)) by {
        if src.dirs.contains(p) && !dst.dirs.contains(p) {
            let i = choose|i: int| 0 <= i < src.dirs.len() && src.dirs[i] == p;
            src.dirs.lemma_filter_contains(|q: PathView| !dst.dirs.contains(q), i);
        }
        if a.contains(p) {
            src.dirs.lemma_filter_contains_rev(|q: PathView| !dst.dirs.contains(q), p);
            let i = choose|i: int| 0 <= i < a.len() && a[i] == p;
        }
    }
    assert forall|p: PathView| sd.contains(p) <==> (dst.dirs.contains(p) && !src.dirs.contains(p)) by {
        if dst.dirs.contains(p) && !src.dirs.contains(p) {
            let i = choose|i: int| 0 <= i < dst.dirs.len() && dst.dirs[i] == p;
            dst.dirs.lemma_filter_contains(|q: PathView| !src.dirs.contains(q), i);
        }
        if sd.contains(p) {
            dst.dirs.lemma_filter_contains_rev(|q: PathView| !src.dirs.contains(q), p);
            let i = choose|i: int| 0 <= i < sd.len() && sd[i] == p;
        }
    }
    assert(t4.dirs =~= tree_of(src).dirs);

    // files
    let cp = file_paths(c);
    let sp = file_paths(src.files);
    let dp = file_paths(dst.files);
    assert forall|f: FileView| c.contains(f) <==> (src.files.contains(f) && !dst.files.contains(f)) by {
        crate::sync::lemma_copied_files_contains(src, dst, f);
    }
    assert forall|p: PathView| cp.contains(p) <==> (exists|s: FileStamp| c.contains((p, s))) by {
        if cp.contains(p) {
            let i = choose|i: int| 0 <= i < cp.len() && cp[i] == p;
            assert(c.contains(c[i]));
            assert(c[i] == (p, c[i].1));
        }
        if exists|s: FileStamp| c.contains((p, s)) {
            let s = choose|s: FileStamp| c.contains((p, s));
            let i = choose|i: int| 0 <= i < c.len() && c[i] == (p, s);
            assert(cp[i] == p);
        }
    }
    assert forall|p: PathView| sp.contains(p) <==> (exists|s: FileStamp| src.files.contains((p, s))) by {
        if sp.contains(p) {
            let i = choose|i: int| 0 <= i < sp.len() && sp[i] == p;
            assert(src.files[i] == (p, src.files[i].1));
            assert(src.files.contains(src.files[i]));
        }
        if exists|s: FileStamp| src.files.contains((p, s)) {
            let s = choose|s: FileStamp| src.files.contains((p, s));
            let i = choose|i: int| 0 <= i < src.files.len() && src.files[i] == (p, s);
            assert(sp[i] == p);
        }
    }
    assert forall|p: PathView| dp.contains(p) <==> (exists|s: FileStamp| dst.files.contains((p, s))) by {
        if dp.contains(p) {
            let i = choose|i: int| 0 <= i < dp.len() && dp[i] == p;
            assert(dst.files[i] == (p, dst.files[i].1));
            assert(dst.files.contains(dst.files[i]));
        }
        if exists|s: FileStamp| dst.files.contains((p, s)) {
            let s = choose|s: FileStamp| dst.files.contains((p, s));
            let i = choose|i: int| 0 <= i < dst.files.len() && dst.files[i] == (p, s);
            assert(dp[i] == p);
        }
    }
    assert forall|p: PathView| d.contains(p) <==> (dp.contains(p) && !sp.contains(p)) by {
        if dp.contains(p) && !sp.contains(p) {
            let i = choose|i: int| 0 <= i < dp.len() && dp[i] == p;
            dp.lemma_filter_contains(|q: PathView| !sp.contains(q), i);
        }
        if d.contains(p) {
            dp.lemma_filter_contains_rev(|q: PathView| !sp.contains(q), p);
            let i = choose|i: int| 0 <= i < d.len() && d[i] == p;
        }
    }
    // a path holds one stamp in each tree
    assert forall|p: PathView, s1: FileStamp, s2: FileStamp|
        src.files.contains((p, s1)) && src.files.contains((p, s2)) implies s1 == s2 by {
        let i = choose|i: int| 0 <= i < src.files.len() && src.files[i] == (p, s1);
        let j = choose|j: int| 0 <= j < src.files.len() && src.files[j] == (p, s2);
        assert(sp[i] == sp[j]);
    }
    assert forall|p: PathView, s1: FileStamp, s2: FileStamp|
        dst.files.contains((p, s1)) && dst.files.contains((p, s2)) implies s1 == s2 by {
        let i = choose|i: int| 0 <= i < dst.files.len() && dst.files[i] == (p, s1);
        let j = choose|j: int| 0 <= j < dst.files.len() && dst.files[j] == (p, s2);
        assert(dp[i] == dp[j]);
    }
    assert forall|f: FileView| t4.files.contains(f) <==> sf.contains(f) by {
        let p = f.0;
        if sf.contains(f) {
            assert(src.files.contains((p, f.1)));
            assert(sp.contains(p));
            assert(!d.contains(p));
            if dst.files.contains(f) {
                if cp.contains(p) {
                    let s = choose|s: FileStamp| c.contains((p, s));
                    assert(src.files.contains((p, s)));
                }
            } else {
                assert(c.contains(f));
                assert(c.contains((p, f.1)));
                assert(cp.contains(p));
            }
        }
        if t4.files.contains(f) {
            assert(!d.contains(p));
            if !cp.contains(p) {
                assert(dst.files.contains(f));
                assert(dp.contains(p));
                assert(sp.contains(p));
                let s = choose|s: FileStamp| src.files.contains((p, s));
                if !dst.files.contains((p, s)) {
                    assert(c.contains((p, s)));
                }
            }
        }
    }
    assert(t4.files =~= sf);
}

/// Running a sync twice with no change in between: once the first plan has
/// run, a fresh scan of the destination (`again`) plans no operation.
pub proof fn lemma_second_run_is_empty(src: SyncDirView, dst: SyncDirView, again: SyncDirView, checksums: Seq<u32>)
    requires
        no_duplicates(file_paths(src.files)),
        no_duplicates(file_paths(dst.files)),
        tree_of(again) == apply_ops(tree_of(dst), plan_ops(src, dst, checksums), tree_of(src).files),
    ensures
        plan_ops(src, again, Seq::empty()).len() == 0,
{
    lemma_plan_mirrors_source(src, dst, checksums);
    assert forall|p: PathView| src.dirs.contains(p) <==> again.dirs.contains(p) by {
        assert(tree_of(src).dirs.contains(p) == tree_of(again).dirs.contains(p));
    }
    assert forall|f: FileView| src.files.contains(f) <==> again.files.contains(f) by {
        assert(tree_of(src).files.contains(f) == tree_of(again).files.contains(f));
    }
    crate::sync::lemma_sync_idempotent(src, again);
}

/// Filtering keeps distinct images distinct.
proof fn lemma_filter_distinct<A, B>(s: Seq<A>, p: spec_fn(A) -> bool, f: spec_fn(A) -> B)
    requires
        no_duplicates(s.map_values(f)),
    ensures
        no_duplicates(s.filter(p).map_values(f)),
    decreases s.len(),
{
    reveal(Seq::filter);
    if s.len() > 0 {
        let t = s.drop_last();
        assert(t.map_values(f) =~= s.map_values(f).drop_last());
        assert(no_duplicates(t.map_values(f))) by {
            assert forall|a: int, b: int| 0 <= a < b < t.map_values(f).len() implies t.map_values(f)[a]
                != t.map_values(f)[b] by {
                assert(s.map_values(f)[a] != s.map_values(f)[b]);
            }
        }
        lemma_filter_distinct(t, p, f);
        if p(s.last()) {
            let ft = t.filter(p);
            let out = ft.push(s.last());
            assert(s.filter(p) == out);
            assert forall|a: int, b: int| 0 <= a < b < out.map_values(f).len() implies out.map_values(f)[a]
                != out.map_values(f)[b] by {
                if b == out.len() - 1 {
                    let y = ft[a];
                    assert(ft.contains(y));
                    t.lemma_filter_contains_rev(p, y);
                    let j = choose|j: int| 0 <= j < t.len() && t[j] == y;
                    assert(s.map_values(f)[j] != s.map_values(f)[s.len() - 1]);
                } else {
                    assert(out.map_values(f)[a] == ft.map_values(f)[a]);
                    assert(out.map_values(f)[b] == ft.map_values(f)[b]);
                }
            }
        }
    }
}

proof fn lemma_levels_distinct(s: Seq<PathView>, hi: nat, lo: nat)
    requires
        lo <= hi,
        no_duplicates(s),
        forall|k: int| 0 <= k < s.len() ==> (#[trigger] s[k]).len() <= hi,
    ensures
        no_duplicates(crate::sync::levels(s, hi, lo)),
    decreases hi - lo,
{
    let id = |q: PathView| q;
    assert(s.map_values(id) =~= s);
    lemma_filter_distinct(s, |q: PathView| q.len() == lo, id);
    let here = crate::sync::at_depth(s, lo);
    assert(here.map_values(id) =~= here);
    if lo < hi {
        lemma_levels_distinct(s, hi, lo + 1);
        let rest = crate::sync::levels(s, hi, lo + 1);
        let all = rest + here;
        assert forall|a: int, b: int| 0 <= a < b < all.len() implies all[a] != all[b] by {
            if b >= rest.len() && a < rest.len() {
                let x = rest[a];
                assert(rest.contains(x));
                lemma_levels_members(s, hi, lo + 1, x);
                let y = here[b - rest.len()];
                assert(here.contains(y));
                lemma_levels_members(s, hi, lo, y);
                broadcast use vstd::seq_lib::group_filter_ensures;
                assert(y.len() == lo);
            } else if b >= rest.len() {
                assert(here[a - rest.len()] != here[b - rest.len()]);
            } else {
                assert(rest[a] != rest[b]);
            }
        }
    }
}

/// A plan over trees that hold each path once names each path at most
/// once within each kind of operation (and verifies exactly the copied
/// paths, so those repeat neither).
pub proof fn lemma_plan_paths_distinct(src: SyncDirView, dst: SyncDirView)
    requires
        crate::sync::distinct_paths(src),
        crate::sync::distinct_paths(dst),
    ensures
        no_duplicates(new_dirs(src, dst)),
        no_duplicates(file_paths(copied_files(src, dst))),
        no_duplicates(stale_files(src, dst)),
        no_duplicates(deepest_first(stale_dirs(src, dst))),
{
    let id = |q: PathView| q;
    assert(src.dirs.map_values(id) =~= src.dirs);
    assert(dst.dirs.map_values(id) =~= dst.dirs);
    lemma_filter_distinct(src.dirs, |d: PathView| !dst.dirs.contains(d), id);
    assert(new_dirs(src, dst).map_values(id) =~= new_dirs(src, dst));
    let dpaths = file_paths(dst.files);
    let pn = |f: FileView| !dpaths.contains(f.0);
    let pg = |f: FileView| dpaths.contains(f.0) && !dst.files.contains(f);
    let fst = |f: FileView| f.0;
    assert(src.files.map_values(fst) =~= file_paths(src.files));
    lemma_filter_distinct(src.files, pn, fst);
    lemma_filter_distinct(src.files, pg, fst);
    let n = crate::sync::new_files(src, dst);
    let g = crate::sync::changed_files(src, dst);
    assert(n.map_values(fst) =~= file_paths(n));
    assert(g.map_values(fst) =~= file_paths(g));
    let all = file_paths(copied_files(src, dst));
    assert(all =~= file_paths(n) + file_paths(g));
    assert forall|a: int, b: int| 0 <= a < b < all.len() implies all[a] != all[b] by {
        broadcast use vstd::seq_lib::group_filter_ensures;
        if a < n.len() && b >= n.len() {
            assert(pn(n[a]));
            assert(pg(g[b - n.len()]));
        } else if a < n.len() {
            assert(file_paths(n)[a] != file_paths(n)[b]);
        } else {
            assert(file_paths(g)[a - n.len()] != file_paths(g)[b - n.len()]);
        }
    }
    let dp = file_paths(dst.files);
    assert(dp.map_values(id) =~= dp);
    lemma_filter_distinct(dp, |q: PathView| !file_paths(src.files).contains(q), id);
    assert(stale_files(src, dst).map_values(id) =~= stale_files(src, dst));
    lemma_filter_distinct(dst.dirs, |d: PathView| !src.dirs.contains(d), id);
    let sd = stale_dirs(src, dst);
    assert(sd.map_values(id) =~= sd);
    lemma_max_depth_bounds(sd);
    lemma_levels_distinct(sd, crate::sync::max_depth(sd), 0);
}

} // verus!
