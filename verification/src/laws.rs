//! The reconciliation laws.
//!
//! Each public proof function here states one property of the walker and
//! the executor that the crate guarantees, over the same spec functions the
//! executable functions are verified against: dry runs touch nothing,
//! conflicts are never mutated, only owned links are ever deleted, creating
//! twice equals creating once, and creating then deleting restores the
//! original state.

use vstd::prelude::*;

use crate::symbolic_link::{
    link_entry, link_wf, run_fs, run_ok, run_work, step_fs, step_ok, step_work, FsMap, LinkModel,
};
use crate::fs_model::EntryModel;
use crate::my_utils::join_path;
use crate::walker::{
    classify_spec, lemma_join_ne, walk_entry_confs, walk_entry_syms, walk_list_confs,
    walk_list_syms, Classified, DirEntry, TargetEntry,
};
use crate::Action;

verus! {

/// What the classifier guaranteed about one emitted descriptor: a linked
/// descriptor sits on a symbolic link resolving exactly to its target, an
/// unlinked one sits on nothing, and no descriptor points at itself.
pub open spec fn descriptor_classified(fs: FsMap, d: LinkModel) -> bool {
    &&& d.exists ==> fs.contains_key(d.upper) && fs[d.upper] == (EntryModel::Symlink {
        resolved: Some(d.target),
    })
    &&& !d.exists ==> !fs.contains_key(d.upper)
    &&& link_wf(d)
}

/// Ownership invariant, classifier side: every descriptor the walk of one
/// entry emits was classified against the filesystem it was walked on.
pub proof fn lemma_walk_entry_descriptors(
    fs: FsMap,
    upper_path: Seq<char>,
    target_path: Seq<char>,
    e: TargetEntry,
)
    requires
        upper_path != target_path,
    ensures
        forall|i: int| 0 <= i < walk_entry_syms(fs, upper_path, target_path, e).len()
            ==> descriptor_classified(
            fs,
            #[trigger] walk_entry_syms(fs, upper_path, target_path, e)[i],
        ),
    decreases e,
{
    let syms = walk_entry_syms(fs, upper_path, target_path, e);
    match classify_spec(fs, upper_path, target_path, e is Dir) {
        Classified::Missing => {
            assert(!fs.contains_key(upper_path));
            assert(syms[0] == (LinkModel {
                upper: upper_path,
                target: target_path,
                exists: false,
            }));
            assert(descriptor_classified(fs, syms[0]));
        },
        Classified::Owned => {
            assert(fs.contains_key(upper_path));
            match fs[upper_path] {
                EntryModel::Symlink { resolved } => {
                    match resolved {
                        Some(rr) => {
                            assert(rr == target_path);
                            assert(fs[upper_path] == (EntryModel::Symlink {
                                resolved: Some(target_path),
                            }));
                        },
                        None => {
                            assert(false);
                        },
                    }
                },
                _ => {
                    assert(false);
                },
            }
            assert(syms[0] == (LinkModel {
                upper: upper_path,
                target: target_path,
                exists: true,
            }));
            assert(descriptor_classified(fs, syms[0]));
        },
        Classified::Recurse => {
            if let TargetEntry::Dir(children) = e {
                lemma_walk_list_descriptors(fs, upper_path, target_path, children@);
                assert(syms == walk_list_syms(fs, upper_path, target_path, children@));
            }
        },
        Classified::Conflict { .. } => {
            assert(syms.len() == 0);
        },
    }
}

/// Ownership invariant over a whole listing's walk.
pub proof fn lemma_walk_list_descriptors(
    fs: FsMap,
    upper_dir: Seq<char>,
    target_dir: Seq<char>,
    es: Seq<DirEntry>,
)
    requires
        upper_dir != target_dir,
    ensures
        forall|i: int| 0 <= i < walk_list_syms(fs, upper_dir, target_dir, es).len()
            ==> descriptor_classified(
            fs,
            #[trigger] walk_list_syms(fs, upper_dir, target_dir, es)[i],
        ),
    decreases es,
{
    if es.len() > 0 {
        let front = walk_list_syms(fs, upper_dir, target_dir, es.drop_last());
        let up = join_path(upper_dir, es.last().name@);
        let tg = join_path(target_dir, es.last().name@);
        let back = walk_entry_syms(fs, up, tg, es.last().entry);
        lemma_walk_list_descriptors(fs, upper_dir, target_dir, es.drop_last());
        lemma_join_ne(upper_dir, target_dir, es.last().name@);
        lemma_walk_entry_descriptors(fs, up, tg, es.last().entry);
        let whole = walk_list_syms(fs, upper_dir, target_dir, es);
        assert forall|i: int| 0 <= i < whole.len() implies descriptor_classified(
            fs,
            whole[i],
        ) by {
            if i < front.len() {
                assert(whole[i] == front[i]);
            } else {
                assert(whole[i] == back[i - front.len()]);
            }
        }
    }
}

/// Dry-run purity: under the dry-run flag a run leaves the filesystem
/// untouched and cannot fail, whatever the action.
pub proof fn lemma_dry_run_pure(fs: FsMap, syms: Seq<LinkModel>, action: Action)
    ensures
        run_fs(fs, syms, action, true) == fs,
        run_ok(fs, syms, action, true),
    decreases syms.len(),
{
    if syms.len() > 0 {
        lemma_dry_run_pure(fs, syms.drop_last(), action);
    }
}

/// Frame: a run never touches a path that no descriptor names.
pub proof fn lemma_run_frame(
    fs: FsMap,
    syms: Seq<LinkModel>,
    action: Action,
    dry: bool,
    p: Seq<char>,
)
    requires
        forall|i: int| 0 <= i < syms.len() ==> (#[trigger] syms[i].upper) != p,
    ensures
        run_fs(fs, syms, action, dry).contains_key(p) == fs.contains_key(p),
        fs.contains_key(p) ==> run_fs(fs, syms, action, dry)[p] == fs[p],
    decreases syms.len(),
{
    if syms.len() > 0 {
        assert(syms.drop_last().len() == syms.len() - 1);
        assert(forall|i: int|
            0 <= i < syms.drop_last().len() ==> (#[trigger] syms.drop_last()[i].upper) != p);
        lemma_run_frame(fs, syms.drop_last(), action, dry, p);
        assert(syms.last().upper != p);
    }
}

/// Ownership invariant, executor side: a delete run removes a path only if
/// the walk found an owned link there — a link whose resolution is exactly
/// the expected target.  Nothing else is ever deleted.
pub proof fn lemma_delete_only_owned(
    fs: FsMap,
    upper_dir: Seq<char>,
    target_dir: Seq<char>,
    es: Seq<DirEntry>,
    dry: bool,
    p: Seq<char>,
)
    requires
        upper_dir != target_dir,
        fs.contains_key(p),
        !run_fs(fs, walk_list_syms(fs, upper_dir, target_dir, es), Action::Delete, dry).contains_key(p),
    ensures
        exists|i: int|
            0 <= i < walk_list_syms(fs, upper_dir, target_dir, es).len() && (#[trigger] walk_list_syms(
                fs,
                upper_dir,
                target_dir,
                es,
            )[i].upper) == p && walk_list_syms(fs, upper_dir, target_dir, es)[i].exists && fs[p]
            == (EntryModel::Symlink {
                resolved: Some(walk_list_syms(fs, upper_dir, target_dir, es)[i].target),
            }),
{
    let syms = walk_list_syms(fs, upper_dir, target_dir, es);
    lemma_walk_list_descriptors(fs, upper_dir, target_dir, es);
    if forall|i: int| 0 <= i < syms.len() ==> (#[trigger] syms[i].upper) != p {
        lemma_run_frame(fs, syms, Action::Delete, dry, p);
        assert(false);
    }
    let i = choose|i: int| 0 <= i < syms.len() && (#[trigger] syms[i].upper) == p;
    assert(descriptor_classified(fs, syms[i]));
    if !syms[i].exists {
        assert(!fs.contains_key(p));
        assert(false);
    }
}

/// Conflict non-destructiveness: a symbolic link that resolves to anything
/// other than the target expected of its path is never created over,
/// rewritten or deleted, under any action, live or dry.
pub proof fn lemma_conflict_untouched(
    fs: FsMap,
    upper_dir: Seq<char>,
    target_dir: Seq<char>,
    es: Seq<DirEntry>,
    action: Action,
    dry: bool,
    p: Seq<char>,
    r: Option<Seq<char>>,
)
    requires
        upper_dir != target_dir,
        fs.contains_key(p),
        fs[p] == (EntryModel::Symlink { resolved: r }),
        forall|i: int|
            0 <= i < walk_list_syms(fs, upper_dir, target_dir, es).len() ==> !((
            #[trigger] walk_list_syms(fs, upper_dir, target_dir, es)[i].upper) == p && Some(
                walk_list_syms(fs, upper_dir, target_dir, es)[i].target,
            ) == r),
    ensures
        run_fs(fs, walk_list_syms(fs, upper_dir, target_dir, es), action, dry).contains_key(p),
        run_fs(fs, walk_list_syms(fs, upper_dir, target_dir, es), action, dry)[p] == fs[p],
{
    let syms = walk_list_syms(fs, upper_dir, target_dir, es);
    lemma_walk_list_descriptors(fs, upper_dir, target_dir, es);
    assert forall|i: int| 0 <= i < syms.len() implies (#[trigger] syms[i].upper) != p by {
        assert(descriptor_classified(fs, syms[i]));
        if syms[i].upper == p {
            if syms[i].exists {
                assert(fs[p] == (EntryModel::Symlink { resolved: Some(syms[i].target) }));
                assert(Some(syms[i].target) == r);
            } else {
                assert(!fs.contains_key(p));
            }
            assert(false);
        }
    }
    lemma_run_frame(fs, syms, action, dry, p);
}

/// The same descriptors, every one recorded as linked — what a fresh walk
/// finds after all of them have been put in place.
pub open spec fn mark_linked(syms: Seq<LinkModel>) -> Seq<LinkModel> {
    syms.map_values(|l: LinkModel| LinkModel { upper: l.upper, target: l.target, exists: true })
}

/// A successful create run keeps every existing path with its entry and
/// adds exactly the missing descriptors' links.
pub proof fn lemma_make_run_frame(fs: FsMap, syms: Seq<LinkModel>)
    requires
        run_ok(fs, syms, Action::Make, false),
    ensures
        forall|k: Seq<char>| #[trigger]
            fs.contains_key(k) ==> run_fs(fs, syms, Action::Make, false).contains_key(k) && run_fs(
                fs,
                syms,
                Action::Make,
                false,
            )[k] == fs[k],
        forall|i: int|
            0 <= i < syms.len() && !(#[trigger] syms[i]).exists ==> run_fs(
                fs,
                syms,
                Action::Make,
                false,
            ).contains_key(syms[i].upper) && run_fs(fs, syms, Action::Make, false)[syms[i].upper]
                == link_entry(syms[i]),
        forall|k: Seq<char>| #[trigger]
            run_fs(fs, syms, Action::Make, false).contains_key(k) ==> fs.contains_key(k) || exists|
                i: int,
            | 0 <= i < syms.len() && !(#[trigger] syms[i]).exists && syms[i].upper == k,
    decreases syms.len(),
{
    if syms.len() > 0 {
        let front = syms.drop_last();
        let last = syms.last();
        lemma_make_run_frame(fs, front);
        let prev = run_fs(fs, front, Action::Make, false);
        let fs1 = run_fs(fs, syms, Action::Make, false);
        assert(forall|i: int| 0 <= i < front.len() ==> front[i] == syms[i]);
        if !last.exists {
            assert(fs1 == prev.insert(last.upper, link_entry(last)));
            assert forall|i: int| 0 <= i < syms.len() && !(#[trigger] syms[i]).exists implies
                fs1.contains_key(syms[i].upper) && fs1[syms[i].upper] == link_entry(syms[i]) by {
                if i < syms.len() - 1 {
                    assert(prev.contains_key(syms[i].upper));
                    assert(syms[i].upper != last.upper);
                }
            }
            assert forall|k: Seq<char>| #[trigger] fs1.contains_key(k) implies fs.contains_key(k)
                || exists|i: int|
                0 <= i < syms.len() && !(#[trigger] syms[i]).exists && syms[i].upper == k by {
                if k == last.upper {
                    assert(!(syms[syms.len() - 1]).exists && syms[syms.len() - 1].upper == k);
                } else {
                    assert(prev.contains_key(k));
                }
            }
        } else {
            assert(fs1 == prev);
        }
    }
}

/// After a successful create run, re-walking one entry finds the very same
/// correspondences, now every one linked, and the very same conflicts.
pub proof fn lemma_walk_entry_after_make(
    fs: FsMap,
    fs1: FsMap,
    upper_path: Seq<char>,
    target_path: Seq<char>,
    e: TargetEntry,
)
    requires
        upper_path != target_path,
        forall|k: Seq<char>| #[trigger]
            fs.contains_key(k) ==> fs1.contains_key(k) && fs1[k] == fs[k],
        forall|i: int|
            0 <= i < walk_entry_syms(fs, upper_path, target_path, e).len() && !(
            #[trigger] walk_entry_syms(fs, upper_path, target_path, e)[i]).exists
                ==> fs1.contains_key(walk_entry_syms(fs, upper_path, target_path, e)[i].upper)
                && fs1[walk_entry_syms(fs, upper_path, target_path, e)[i].upper] == link_entry(
                walk_entry_syms(fs, upper_path, target_path, e)[i],
            ),
    ensures
        walk_entry_syms(fs1, upper_path, target_path, e) == mark_linked(
            walk_entry_syms(fs, upper_path, target_path, e),
        ),
        walk_entry_confs(fs1, upper_path, target_path, e) == walk_entry_confs(
            fs,
            upper_path,
            target_path,
            e,
        ),
    decreases e,
{
    let syms = walk_entry_syms(fs, upper_path, target_path, e);
    match classify_spec(fs, upper_path, target_path, e is Dir) {
        Classified::Missing => {
            assert(syms[0] == (LinkModel {
                upper: upper_path,
                target: target_path,
                exists: false,
            }));
            assert(fs1.contains_key(upper_path) && fs1[upper_path] == link_entry(syms[0]));
            assert(classify_spec(fs1, upper_path, target_path, e is Dir) == Classified::Owned);
            assert(walk_entry_syms(fs1, upper_path, target_path, e) =~= mark_linked(syms));
            assert(walk_entry_confs(fs1, upper_path, target_path, e) =~= walk_entry_confs(
                fs,
                upper_path,
                target_path,
                e,
            ));
        },
        Classified::Owned => {
            assert(fs.contains_key(upper_path));
            assert(fs1[upper_path] == fs[upper_path]);
            assert(classify_spec(fs1, upper_path, target_path, e is Dir) == Classified::Owned);
            assert(walk_entry_syms(fs1, upper_path, target_path, e) =~= mark_linked(syms));
            assert(walk_entry_confs(fs1, upper_path, target_path, e) =~= walk_entry_confs(
                fs,
                upper_path,
                target_path,
                e,
            ));
        },
        Classified::Recurse => {
            assert(fs.contains_key(upper_path));
            assert(fs1[upper_path] == fs[upper_path]);
            assert(classify_spec(fs1, upper_path, target_path, e is Dir) == Classified::Recurse);
            if let TargetEntry::Dir(children) = e {
                assert(syms == walk_list_syms(fs, upper_path, target_path, children@));
                lemma_walk_list_after_make(fs, fs1, upper_path, target_path, children@);
            }
        },
        Classified::Conflict { .. } => {
            assert(fs.contains_key(upper_path));
            assert(fs1[upper_path] == fs[upper_path]);
            assert(classify_spec(fs1, upper_path, target_path, e is Dir) == classify_spec(
                fs,
                upper_path,
                target_path,
                e is Dir,
            ));
            assert(walk_entry_syms(fs1, upper_path, target_path, e) =~= mark_linked(syms));
            assert(walk_entry_confs(fs1, upper_path, target_path, e) =~= walk_entry_confs(
                fs,
                upper_path,
                target_path,
                e,
            ));
        },
    }
}

/// After a successful create run, re-walking a whole listing finds the
/// same correspondences, all linked, and the same conflicts.
pub proof fn lemma_walk_list_after_make(
    fs: FsMap,
    fs1: FsMap,
    upper_dir: Seq<char>,
    target_dir: Seq<char>,
    es: Seq<DirEntry>,
)
    requires
        upper_dir != target_dir,
        forall|k: Seq<char>| #[trigger]
            fs.contains_key(k) ==> fs1.contains_key(k) && fs1[k] == fs[k],
        forall|i: int|
            0 <= i < walk_list_syms(fs, upper_dir, target_dir, es).len() && !(
            #[trigger] walk_list_syms(fs, upper_dir, target_dir, es)[i]).exists
                ==> fs1.contains_key(walk_list_syms(fs, upper_dir, target_dir, es)[i].upper)
                && fs1[walk_list_syms(fs, upper_dir, target_dir, es)[i].upper] == link_entry(
                walk_list_syms(fs, upper_dir, target_dir, es)[i],
            ),
    ensures
        walk_list_syms(fs1, upper_dir, target_dir, es) == mark_linked(
            walk_list_syms(fs, upper_dir, target_dir, es),
        ),
        walk_list_confs(fs1, upper_dir, target_dir, es) == walk_list_confs(
            fs,
            upper_dir,
            target_dir,
            es,
        ),
    decreases es,
{
    let whole = walk_list_syms(fs, upper_dir, target_dir, es);
    if es.len() == 0 {
        assert(walk_list_syms(fs1, upper_dir, target_dir, es) =~= mark_linked(whole));
    } else {
        let front = walk_list_syms(fs, upper_dir, target_dir, es.drop_last());
        let up = join_path(upper_dir, es.last().name@);
        let tg = join_path(target_dir, es.last().name@);
        let back = walk_entry_syms(fs, up, tg, es.last().entry);
        assert(whole == front + back);
        assert(forall|i: int| 0 <= i < front.len() ==> front[i] == whole[i]);
        assert(forall|i: int| 0 <= i < back.len() ==> back[i] == whole[front.len() + i]);
        lemma_walk_list_after_make(fs, fs1, upper_dir, target_dir, es.drop_last());
        lemma_join_ne(upper_dir, target_dir, es.last().name@);
        lemma_walk_entry_after_make(fs, fs1, up, tg, es.last().entry);
        assert(walk_list_syms(fs1, upper_dir, target_dir, es) =~= mark_linked(whole));
        assert(walk_list_confs(fs1, upper_dir, target_dir, es) =~= walk_list_confs(
            fs,
            upper_dir,
            target_dir,
            es,
        ));
    }
}

/// Creating over a set of descriptors that are all already linked never
/// fails, changes nothing and does no work.
pub proof fn lemma_all_linked_make_noop(fs: FsMap, syms: Seq<LinkModel>, dry: bool)
    requires
        forall|i: int| 0 <= i < syms.len() ==> (#[trigger] syms[i]).exists,
    ensures
        run_ok(fs, syms, Action::Make, dry),
        run_fs(fs, syms, Action::Make, dry) == fs,
        !run_work(syms, Action::Make),
    decreases syms.len(),
{
    if syms.len() > 0 {
        assert(forall|i: int| 0 <= i < syms.drop_last().len() ==> syms.drop_last()[i] == syms[i]);
        lemma_all_linked_make_noop(fs, syms.drop_last(), dry);
    }
    if run_work(syms, Action::Make) {
        let i = choose|i: int| 0 <= i < syms.len() && #[trigger] step_work(syms[i], Action::Make);
        assert(syms[i].exists);
        assert(false);
    }
}

/// Idempotence of creation: after one successful create run over a walk's
/// descriptors, walking again finds the same correspondences all in place
/// and the same conflicts, and a second create run succeeds, does no work,
/// and leaves the filesystem exactly as the first run left it.
pub proof fn lemma_create_idempotent(
    fs: FsMap,
    upper_dir: Seq<char>,
    target_dir: Seq<char>,
    es: Seq<DirEntry>,
)
    requires
        upper_dir != target_dir,
        run_ok(fs, walk_list_syms(fs, upper_dir, target_dir, es), Action::Make, false),
    ensures
        walk_list_syms(
            run_fs(fs, walk_list_syms(fs, upper_dir, target_dir, es), Action::Make, false),
            upper_dir,
            target_dir,
            es,
        ) == mark_linked(walk_list_syms(fs, upper_dir, target_dir, es)),
        walk_list_confs(
            run_fs(fs, walk_list_syms(fs, upper_dir, target_dir, es), Action::Make, false),
            upper_dir,
            target_dir,
            es,
        ) == walk_list_confs(fs, upper_dir, target_dir, es),
        run_ok(
            run_fs(fs, walk_list_syms(fs, upper_dir, target_dir, es), Action::Make, false),
            mark_linked(walk_list_syms(fs, upper_dir, target_dir, es)),
            Action::Make,
            false,
        ),
        run_fs(
            run_fs(fs, walk_list_syms(fs, upper_dir, target_dir, es), Action::Make, false),
            mark_linked(walk_list_syms(fs, upper_dir, target_dir, es)),
            Action::Make,
            false,
        ) == run_fs(fs, walk_list_syms(fs, upper_dir, target_dir, es), Action::Make, false),
        !run_work(mark_linked(walk_list_syms(fs, upper_dir, target_dir, es)), Action::Make),
{
    let syms = walk_list_syms(fs, upper_dir, target_dir, es);
    let fs1 = run_fs(fs, syms, Action::Make, false);
    lemma_make_run_frame(fs, syms);
    lemma_walk_list_after_make(fs, fs1, upper_dir, target_dir, es);
    assert(forall|i: int|
        0 <= i < mark_linked(syms).len() ==> (#[trigger] mark_linked(syms)[i]).exists);
    lemma_all_linked_make_noop(fs1, mark_linked(syms), false);
}

/// A create run over all-missing descriptors succeeds only when their
/// upper paths are distinct and none is occupied yet.
pub proof fn lemma_make_ok_distinct(fs: FsMap, syms: Seq<LinkModel>)
    requires
        run_ok(fs, syms, Action::Make, false),
        forall|i: int| 0 <= i < syms.len() ==> !(#[trigger] syms[i]).exists,
    ensures
        forall|i: int, j: int| 0 <= i < j < syms.len() ==> syms[i].upper != syms[j].upper,
        forall|i: int| 0 <= i < syms.len() ==> !fs.contains_key((#[trigger] syms[i]).upper),
    decreases syms.len(),
{
    if syms.len() > 0 {
        let front = syms.drop_last();
        let last = syms.last();
        assert(forall|i: int| 0 <= i < front.len() ==> front[i] == syms[i]);
        lemma_make_ok_distinct(fs, front);
        lemma_make_run_frame(fs, front);
        let prev = run_fs(fs, front, Action::Make, false);
        assert(!prev.contains_key(last.upper));
        assert forall|i: int, j: int| 0 <= i < j < syms.len() implies syms[i].upper
            != syms[j].upper by {
            if j == syms.len() - 1 {
                assert(prev.contains_key(syms[i].upper));
            }
        }
        assert forall|i: int| 0 <= i < syms.len() implies !fs.contains_key(
            (#[trigger] syms[i]).upper,
        ) by {
            if i == syms.len() - 1 {
                if fs.contains_key(last.upper) {
                    assert(prev.contains_key(last.upper));
                }
            }
        }
    }
}

/// A delete run never looks at a key that no descriptor names, so an
/// insertion there commutes with the whole run.
pub proof fn lemma_delete_run_insert_commute(
    fs: FsMap,
    syms: Seq<LinkModel>,
    k: Seq<char>,
    v: EntryModel,
)
    requires
        forall|i: int| 0 <= i < syms.len() ==> (#[trigger] syms[i]).upper != k,
    ensures
        run_ok(fs.insert(k, v), syms, Action::Delete, false) == run_ok(
            fs,
            syms,
            Action::Delete,
            false,
        ),
        run_fs(fs.insert(k, v), syms, Action::Delete, false) == run_fs(
            fs,
            syms,
            Action::Delete,
            false,
        ).insert(k, v),
    decreases syms.len(),
{
    if syms.len() == 0 {
        assert(run_fs(fs.insert(k, v), syms, Action::Delete, false) =~= run_fs(
            fs,
            syms,
            Action::Delete,
            false,
        ).insert(k, v));
    } else {
        let front = syms.drop_last();
        let last = syms.last();
        assert(forall|i: int| 0 <= i < front.len() ==> front[i] == syms[i]);
        lemma_delete_run_insert_commute(fs, front, k, v);
        let prev = run_fs(fs, front, Action::Delete, false);
        assert(last.upper != k);
        assert(step_ok(prev.insert(k, v), last, Action::Delete, false) == step_ok(
            prev,
            last,
            Action::Delete,
            false,
        ));
        assert(step_fs(prev.insert(k, v), last, Action::Delete, false) =~= step_fs(
            prev,
            last,
            Action::Delete,
            false,
        ).insert(k, v));
    }
}

/// Deleting freshly created links one by one undoes the creation exactly.
pub proof fn lemma_delete_after_make(fs: FsMap, syms: Seq<LinkModel>)
    requires
        forall|i: int| 0 <= i < syms.len() ==> !(#[trigger] syms[i]).exists,
        forall|i: int| 0 <= i < syms.len() ==> link_wf(#[trigger] syms[i]),
        forall|i: int, j: int| 0 <= i < j < syms.len() ==> syms[i].upper != syms[j].upper,
        forall|i: int| 0 <= i < syms.len() ==> !fs.contains_key((#[trigger] syms[i]).upper),
    ensures
        run_ok(fs, syms, Action::Make, false),
        run_ok(
            run_fs(fs, syms, Action::Make, false),
            mark_linked(syms),
            Action::Delete,
            false,
        ),
        run_fs(
            run_fs(fs, syms, Action::Make, false),
            mark_linked(syms),
            Action::Delete,
            false,
        ) == fs,
    decreases syms.len(),
{
    if syms.len() == 0 {
        assert(mark_linked(syms).len() == 0);
    } else {
        let front = syms.drop_last();
        let last = syms.last();
        assert(forall|i: int| 0 <= i < front.len() ==> front[i] == syms[i]);
        lemma_delete_after_make(fs, front);
        lemma_make_run_frame(fs, front);
        let prev1 = run_fs(fs, front, Action::Make, false);
        assert forall|k: Seq<char>| #[trigger] prev1.contains_key(k) implies k != last.upper by {
            if !fs.contains_key(k) {
                let i = choose|i: int|
                    0 <= i < front.len() && !(#[trigger] front[i]).exists && front[i].upper == k;
                assert(syms[i].upper != last.upper);
            }
        }
        assert(step_ok(prev1, last, Action::Make, false));
        assert(run_ok(fs, syms, Action::Make, false));
        let lv = link_entry(last);
        let fs1 = run_fs(fs, syms, Action::Make, false);
        assert(fs1 == prev1.insert(last.upper, lv));
        let marked = mark_linked(syms);
        assert(marked.drop_last() =~= mark_linked(front));
        assert(marked.last() == (LinkModel {
            upper: last.upper,
            target: last.target,
            exists: true,
        }));
        assert(forall|i: int|
            0 <= i < mark_linked(front).len() ==> (#[trigger] mark_linked(front)[i]).upper
                == front[i].upper);
        lemma_delete_run_insert_commute(prev1, mark_linked(front), last.upper, lv);
        assert(run_fs(fs1, marked.drop_last(), Action::Delete, false) == run_fs(
            prev1,
            mark_linked(front),
            Action::Delete,
            false,
        ).insert(last.upper, lv));
        assert(run_fs(fs1, marked.drop_last(), Action::Delete, false) == fs.insert(last.upper, lv));
        assert(step_ok(fs.insert(last.upper, lv), marked.last(), Action::Delete, false));
        assert(run_ok(fs1, marked, Action::Delete, false));
        assert(step_fs(fs.insert(last.upper, lv), marked.last(), Action::Delete, false) =~= fs);
    }
}

/// Round trip: when the upper tree holds none of the planned links yet, a
/// successful create run followed by a delete run over the re-walked
/// descriptors restores the filesystem exactly — no residual links.
pub proof fn lemma_round_trip(
    fs: FsMap,
    upper_dir: Seq<char>,
    target_dir: Seq<char>,
    es: Seq<DirEntry>,
)
    requires
        upper_dir != target_dir,
        run_ok(fs, walk_list_syms(fs, upper_dir, target_dir, es), Action::Make, false),
        forall|i: int|
            0 <= i < walk_list_syms(fs, upper_dir, target_dir, es).len() ==> !(
            #[trigger] walk_list_syms(fs, upper_dir, target_dir, es)[i]).exists,
    ensures
        walk_list_syms(
            run_fs(fs, walk_list_syms(fs, upper_dir, target_dir, es), Action::Make, false),
            upper_dir,
            target_dir,
            es,
        ) == mark_linked(walk_list_syms(fs, upper_dir, target_dir, es)),
        run_ok(
            run_fs(fs, walk_list_syms(fs, upper_dir, target_dir, es), Action::Make, false),
            mark_linked(walk_list_syms(fs, upper_dir, target_dir, es)),
            Action::Delete,
            false,
        ),
        run_fs(
            run_fs(fs, walk_list_syms(fs, upper_dir, target_dir, es), Action::Make, false),
            mark_linked(walk_list_syms(fs, upper_dir, target_dir, es)),
            Action::Delete,
            false,
        ) == fs,
{
    let syms = walk_list_syms(fs, upper_dir, target_dir, es);
    lemma_walk_list_descriptors(fs, upper_dir, target_dir, es);
    assert(forall|i: int| 0 <= i < syms.len() ==> link_wf(#[trigger] syms[i]));
    lemma_make_ok_distinct(fs, syms);
    lemma_delete_after_make(fs, syms);
    lemma_create_idempotent(fs, upper_dir, target_dir, es);
}

} // verus!
