//! The run orchestrator.
//!
//! One reconciliation run walks every selected target directory against the
//! upper tree and feeds each descriptor list to the executor.  A conflict
//! or an executor failure in one target directory is reported and that
//! directory contributes no further work, but the remaining directories are
//! still processed; the run as a whole always completes.

use vstd::prelude::*;
use vstd::string::StringExecFns;

use crate::fs_model::FsState;
use crate::my_utils::join_with_nl;
use crate::symbolic_link::{
    err_message_of, report_of, run_err, run_fs, run_ok, run_sym_vec, run_work, FsMap,
};
use crate::walker::{
    conf_message_of, conf_views, get_symlink_vec, walk_list_confs, walk_list_syms, ConflictModel,
    DirEntry,
};
use crate::{Action, MainApp};

verus! {

/// The snapshot of one selected target directory: its root path and its
/// listing, as observed before the run.
pub struct TargetTree {
    pub root: String,
    pub entries: Vec<DirEntry>,
}

/// The lines reporting the conflicts of one target directory.
pub open spec fn conflict_report_of(confs: Seq<ConflictModel>) -> Seq<char> {
    join_with_nl(confs.map_values(|c: ConflictModel| "Symlink Error "@ + conf_message_of(c)))
}

/// The report of one target directory, walked and executed against `fs`:
/// its conflicts if it has any, the first executor failure if one occurs,
/// and the executor's own report otherwise.
pub open spec fn tree_report(
    fs: FsMap,
    upper_dir: Seq<char>,
    tree: TargetTree,
    action: Action,
    dry: bool,
) -> Seq<char> {
    let syms = walk_list_syms(fs, upper_dir, tree.root@, tree.entries@);
    let confs = walk_list_confs(fs, upper_dir, tree.root@, tree.entries@);
    if confs.len() > 0 {
        conflict_report_of(confs)
    } else if !run_ok(fs, syms, action, dry) {
        "Symlink Error "@ + err_message_of(run_err(fs, syms, action, dry))
    } else if syms.len() == 0 {
        Seq::empty()
    } else {
        report_of(syms, action, dry)
    }
}

/// The filesystem after the directories processed so far.  A directory
/// with conflicts is skipped whole; an executor failure keeps what it had
/// already applied.
pub open spec fn orch_fs(
    fs: FsMap,
    upper_dir: Seq<char>,
    trees: Seq<TargetTree>,
    action: Action,
    dry: bool,
) -> FsMap
    decreases trees.len(),
{
    if trees.len() == 0 {
        fs
    } else {
        let prev = orch_fs(fs, upper_dir, trees.drop_last(), action, dry);
        let tree = trees.last();
        let confs = walk_list_confs(prev, upper_dir, tree.root@, tree.entries@);
        if confs.len() > 0 {
            prev
        } else {
            run_fs(prev, walk_list_syms(prev, upper_dir, tree.root@, tree.entries@), action, dry)
        }
    }
}

/// Whether any directory's run both succeeded and did work.
pub open spec fn orch_work(
    fs: FsMap,
    upper_dir: Seq<char>,
    trees: Seq<TargetTree>,
    action: Action,
    dry: bool,
) -> bool
    decreases trees.len(),
{
    if trees.len() == 0 {
        false
    } else {
        let prev = orch_fs(fs, upper_dir, trees.drop_last(), action, dry);
        let tree = trees.last();
        let syms = walk_list_syms(prev, upper_dir, tree.root@, tree.entries@);
        let confs = walk_list_confs(prev, upper_dir, tree.root@, tree.entries@);
        orch_work(fs, upper_dir, trees.drop_last(), action, dry) || (confs.len() == 0 && run_ok(
            prev,
            syms,
            action,
            dry,
        ) && run_work(syms, action))
    }
}

/// The closing summary line of a run.
pub open spec fn summary_of(work: bool, action: Action) -> Seq<char> {
    if work {
        crate::symbolic_link::action_name(action) + " link[s]"@
    } else {
        "nothing to do"@
    }
}

/// Reconcile every selected target directory with the upper tree: walk it,
/// then carry the plan out (or report it, in dry-run mode).  Returns the
/// aggregate did-work flag and one report entry per directory plus a
/// closing summary line.  A conflicted directory contributes no work; an
/// executor failure is reported and does not abort the other directories.
pub fn manage_symlinks(fs: &mut FsState, main_app: &MainApp, trees: &Vec<TargetTree>) -> (r: (
    bool,
    Vec<String>,
))
    requires
        old(fs).wf(),
        forall|k: int| 0 <= k < trees@.len() ==> trees@[k].root@ != main_app.upper_dir@,
    ensures
        final(fs).wf(),
        final(fs)@ == orch_fs(old(fs)@, main_app.upper_dir@, trees@, main_app.action, main_app.dry_run),
        main_app.dry_run ==> final(fs)@ == old(fs)@,
        r.0 == orch_work(old(fs)@, main_app.upper_dir@, trees@, main_app.action, main_app.dry_run),
        r.1@.len() == trees@.len() + 1,
        forall|k: int| 0 <= k < trees@.len() ==> r.1@[k]@ == tree_report(
            orch_fs(old(fs)@, main_app.upper_dir@, trees@.take(k), main_app.action, main_app.dry_run),
            main_app.upper_dir@,
            trees@[k],
            main_app.action,
            main_app.dry_run,
        ),
        r.1@.last()@ == summary_of(r.0, main_app.action),
{
    let mut did_work = false;
    let mut report: Vec<String> = Vec::new();
    let n = trees.len();
    let mut k: usize = 0;
    while k < n
        invariant
            0 <= k <= n,
            n == trees@.len(),
            old(fs).wf(),
            fs.wf(),
            forall|j: int| 0 <= j < n ==> trees@[j].root@ != main_app.upper_dir@,
            fs@ == orch_fs(
                old(fs)@,
                main_app.upper_dir@,
                trees@.take(k as int),
                main_app.action,
                main_app.dry_run,
            ),
            did_work == orch_work(
                old(fs)@,
                main_app.upper_dir@,
                trees@.take(k as int),
                main_app.action,
                main_app.dry_run,
            ),
            report@.len() == k,
            forall|j: int| 0 <= j < k ==> report@[j]@ == tree_report(
                orch_fs(
                    old(fs)@,
                    main_app.upper_dir@,
                    trees@.take(j),
                    main_app.action,
                    main_app.dry_run,
                ),
                main_app.upper_dir@,
                trees@[j],
                main_app.action,
                main_app.dry_run,
            ),
            main_app.dry_run ==> fs@ == old(fs)@,
        decreases n - k,
    {
        let tree = &trees[k];
        let ghost prev = fs@;
        proof {
            assert(trees@.take(k + 1).drop_last() =~= trees@.take(k as int));
            assert(trees@.take(k + 1).last() == trees@[k as int]);
        }
        let (to_sym, confs) = get_symlink_vec(fs, &main_app.upper_dir, &tree.root, &tree.entries);
        if confs.len() > 0 {
            // this target directory is voided; its siblings still run
            let ghost conf_models = conf_views(confs@);
            let ghost lines = conf_models.map_values(
                |c: ConflictModel| "Symlink Error "@ + conf_message_of(c),
            );
            let mut joined = String::new();
            let m = confs.len();
            let mut i: usize = 0;
            while i < m
                invariant
                    0 <= i <= m,
                    m == confs@.len(),
                    conf_models == conf_views(confs@),
                    lines == conf_models.map_values(
                        |c: ConflictModel| "Symlink Error "@ + conf_message_of(c),
                    ),
                    joined@ == join_with_nl(lines.take(i as int)),
                decreases m - i,
            {
                if i > 0 {
                    joined.append("\n");
                }
                joined.append("Symlink Error ");
                let msg = confs[i].message();
                joined.append(msg.as_str());
                proof {
                    assert(conf_models[i as int] == confs@[i as int]@);
                    assert(lines.take(i + 1).drop_last() =~= lines.take(i as int));
                    assert(lines.take(i + 1).last() == lines[i as int]);
                }
                i = i + 1;
            }
            proof {
                assert(lines.take(m as int) =~= lines);
            }
            report.push(joined);
        } else {
            proof {
                assert(conf_views(confs@).len() == 0);
            }
            match run_sym_vec(fs, &to_sym, main_app) {
                Ok((work, rep)) => {
                    if work {
                        did_work = true;
                    }
                    report.push(rep);
                },
                Err(err) => {
                    let mut line = String::new();
                    line.append("Symlink Error ");
                    let msg = err.message();
                    line.append(msg.as_str());
                    report.push(line);
                },
            }
        }
        k = k + 1;
    }
    proof {
        assert(trees@.take(n as int) =~= trees@);
    }
    let summary = if did_work {
        let mut s = String::new();
        s.append(main_app.action.to_str());
        s.append(" link[s]");
        s
    } else {
        let mut s = String::new();
        s.append("nothing to do");
        s
    };
    report.push(summary);
    (did_work, report)
}

} // verus!
