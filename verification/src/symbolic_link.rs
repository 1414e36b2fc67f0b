//! Link descriptors and the action executor.
//!
//! A [`SymLink`] records one candidate correspondence between an upper-tree
//! path and a target-tree path, together with whether the link is already in
//! place.  The executor turns a list of descriptors plus an [`Action`] into
//! filesystem-model mutations (or, in dry-run mode, into a report alone).
//! Every mutation is stated against the spec-level `step_*`/`run_*`
//! functions, on which the crate's reconciliation laws are proved.

use vstd::prelude::*;
use vstd::string::StringExecFns;

use crate::fs_model::{EntryModel, FsEntry, FsState};
use crate::my_utils::{join_with_nl, vec_to_string};
use crate::{Action, MainApp};

verus! {

/// One candidate link: where the link should sit, what it should point to,
/// and whether it is already in place.
pub struct SymLink {
    pub upper_file: String,
    pub target_file: String,
    pub exists: bool,
}

/// Mathematical image of a [`SymLink`].
pub struct LinkModel {
    pub upper: Seq<char>,
    pub target: Seq<char>,
    pub exists: bool,
}

impl View for SymLink {
    type V = LinkModel;

    open spec fn view(&self) -> LinkModel {
        LinkModel { upper: self.upper_file@, target: self.target_file@, exists: self.exists }
    }
}

/// The views of a descriptor list.
pub open spec fn link_views(s: Seq<SymLink>) -> Seq<LinkModel> {
    s.map_values(|l: SymLink| l@)
}

/// A descriptor never proposes a link pointing at itself.
pub open spec fn link_wf(l: LinkModel) -> bool {
    l.upper != l.target
}

impl SymLink {
    /// A fresh descriptor for `up` pointing at `lo`.
    pub fn new(up: &String, lo: &String, exists: bool) -> (r: Self)
        ensures
            r@ == (LinkModel { upper: up@, target: lo@, exists }),
    {
        SymLink { upper_file: up.clone(), target_file: lo.clone(), exists }
    }

    /// The `upper -> target` rendering used in every report line.
    pub fn to_display(&self) -> (r: String)
        ensures
            r@ == display_of(self@),
    {
        let mut r = self.upper_file.clone();
        r.append(" -> ");
        r.append(self.target_file.as_str());
        r
    }
}

/// How a descriptor is rendered: `upper -> target`.
pub open spec fn display_of(l: LinkModel) -> Seq<char> {
    l.upper + " -> "@ + l.target
}

/// Why the executor refused or failed one descriptor.
#[derive(Debug)]
pub enum LinkError {
    /// Creating the link failed: something already sits at the path.
    CreateOccupied { path: String },
    /// Deleting the link failed: nothing sits at the path.
    DeleteMissing { path: String },
    /// Deleting the link failed: the path is a directory.
    DeleteDir { path: String },
    /// The descriptor's two paths are equal; deleting would risk the
    /// canonical data, so the request is refused outright.
    SelfTarget { path: String },
}

/// Mathematical image of a [`LinkError`].
pub enum ErrModel {
    CreateOccupied { path: Seq<char> },
    DeleteMissing { path: Seq<char> },
    DeleteDir { path: Seq<char> },
    SelfTarget { path: Seq<char> },
}

impl View for LinkError {
    type V = ErrModel;

    open spec fn view(&self) -> ErrModel {
        match self {
            LinkError::CreateOccupied { path } => ErrModel::CreateOccupied { path: path@ },
            LinkError::DeleteMissing { path } => ErrModel::DeleteMissing { path: path@ },
            LinkError::DeleteDir { path } => ErrModel::DeleteDir { path: path@ },
            LinkError::SelfTarget { path } => ErrModel::SelfTarget { path: path@ },
        }
    }
}

impl LinkError {
    /// A printable account of the failure.
    pub fn message(&self) -> (r: String)
        ensures
            r@ == err_message_of(self@),
    {
        match self {
            LinkError::CreateOccupied { path } => {
                let mut m = String::new();
                m.append("cant make symlink ");
                m.append(path.as_str());
                m
            },
            LinkError::DeleteMissing { path } => {
                let mut m = String::new();
                m.append("cant delete symlink ");
                m.append(path.as_str());
                m
            },
            LinkError::DeleteDir { path } => {
                let mut m = String::new();
                m.append("cant delete symlink ");
                m.append(path.as_str());
                m
            },
            LinkError::SelfTarget { path } => {
                let mut m = String::new();
                m.append("upper_dir is pointing to target_dir ");
                m.append(path.as_str());
                m
            },
        }
    }
}

/// The report text of each failure.
pub open spec fn err_message_of(e: ErrModel) -> Seq<char> {
    match e {
        ErrModel::CreateOccupied { path } => "cant make symlink "@ + path,
        ErrModel::DeleteMissing { path } => "cant delete symlink "@ + path,
        ErrModel::DeleteDir { path } => "cant delete symlink "@ + path,
        ErrModel::SelfTarget { path } => "upper_dir is pointing to target_dir "@ + path,
    }
}

/// The entry a freshly created link leaves in the filesystem.
pub open spec fn link_entry(l: LinkModel) -> EntryModel {
    EntryModel::Symlink { resolved: Some(l.target) }
}

pub type FsMap = Map<Seq<char>, EntryModel>;

/// Whether one descriptor can be carried out on `fs`.  Dry runs always
/// succeed: they touch nothing.
pub open spec fn step_ok(fs: FsMap, l: LinkModel, action: Action, dry: bool) -> bool {
    dry || match action {
        Action::Make => l.exists || !fs.contains_key(l.upper),
        Action::Delete => !l.exists || (l.upper != l.target && fs.contains_key(l.upper) && !(
        fs[l.upper] is Dir)),
        Action::Remake => if l.exists {
            l.upper != l.target && fs.contains_key(l.upper) && !(fs[l.upper] is Dir)
        } else {
            !fs.contains_key(l.upper)
        },
    }
}

/// The filesystem after one descriptor.  A failing or dry step leaves the
/// filesystem untouched: an operation is applied fully or not at all.
pub open spec fn step_fs(fs: FsMap, l: LinkModel, action: Action, dry: bool) -> FsMap {
    if dry || !step_ok(fs, l, action, dry) {
        fs
    } else {
        match action {
            Action::Make => if l.exists {
                fs
            } else {
                fs.insert(l.upper, link_entry(l))
            },
            Action::Delete => if l.exists {
                fs.remove(l.upper)
            } else {
                fs
            },
            Action::Remake => fs.insert(l.upper, link_entry(l)),
        }
    }
}

/// Whether one descriptor counts as work.  Remaking is always work; making
/// and deleting are work exactly when they are not already satisfied.
pub open spec fn step_work(l: LinkModel, action: Action) -> bool {
    match action {
        Action::Make => !l.exists,
        Action::Delete => l.exists,
        Action::Remake => true,
    }
}

/// The error one failing descriptor reports.
pub open spec fn step_err(fs: FsMap, l: LinkModel, action: Action) -> ErrModel {
    match action {
        Action::Make => ErrModel::CreateOccupied { path: l.upper },
        Action::Delete | Action::Remake => if l.exists {
            if l.upper == l.target {
                ErrModel::SelfTarget { path: l.upper }
            } else if !fs.contains_key(l.upper) {
                ErrModel::DeleteMissing { path: l.upper }
            } else {
                ErrModel::DeleteDir { path: l.upper }
            }
        } else {
            ErrModel::CreateOccupied { path: l.upper }
        },
    }
}

/// Whether a whole run succeeds: every descriptor in turn, each against the
/// filesystem the previous ones left.
pub open spec fn run_ok(fs: FsMap, syms: Seq<LinkModel>, action: Action, dry: bool) -> bool
    decreases syms.len(),
{
    syms.len() == 0 || (run_ok(fs, syms.drop_last(), action, dry) && step_ok(
        run_fs(fs, syms.drop_last(), action, dry),
        syms.last(),
        action,
        dry,
    ))
}

/// The filesystem a run leaves.  Processing stops at the first failing
/// descriptor; what was already applied stays applied.
pub open spec fn run_fs(fs: FsMap, syms: Seq<LinkModel>, action: Action, dry: bool) -> FsMap
    decreases syms.len(),
{
    if syms.len() == 0 {
        fs
    } else {
        let prev = run_fs(fs, syms.drop_last(), action, dry);
        if run_ok(fs, syms.drop_last(), action, dry) {
            step_fs(prev, syms.last(), action, dry)
        } else {
            prev
        }
    }
}

/// The error a failing run reports: the first descriptor that fails.
pub open spec fn run_err(fs: FsMap, syms: Seq<LinkModel>, action: Action, dry: bool) -> ErrModel
    decreases syms.len(),
{
    if syms.len() == 0 {
        arbitrary()
    } else if !run_ok(fs, syms.drop_last(), action, dry) {
        run_err(fs, syms.drop_last(), action, dry)
    } else {
        step_err(run_fs(fs, syms.drop_last(), action, dry), syms.last(), action)
    }
}

/// Whether a run counts as work overall.
pub open spec fn run_work(syms: Seq<LinkModel>, action: Action) -> bool {
    exists|i: int| 0 <= i < syms.len() && step_work(syms[i], action)
}

/// The one report line a dry run prints for a descriptor.
pub open spec fn dry_line_of(l: LinkModel, action: Action) -> Seq<char> {
    match action {
        Action::Remake => "would remake "@ + display_of(l),
        Action::Make => if l.exists {
            "already made "@ + display_of(l)
        } else {
            "would make "@ + display_of(l)
        },
        Action::Delete => if l.exists {
            "would delete "@ + display_of(l)
        } else {
            "already missing "@ + display_of(l)
        },
    }
}

/// The aggregated report of a whole successful run: one line per
/// descriptor.  A live run prefixes each line with the action's name, or
/// with `did noting` when nothing needed doing.
pub open spec fn report_of(syms: Seq<LinkModel>, action: Action, dry: bool) -> Seq<char> {
    if dry {
        join_with_nl(syms.map_values(|l: LinkModel| dry_line_of(l, action)))
    } else {
        let msg = if run_work(syms, action) {
            action_name(action)
        } else {
            "did noting"@
        };
        join_with_nl(syms.map_values(|l: LinkModel| msg + " "@ + display_of(l)))
    }
}

/// The name of an action, as reports spell it.
pub open spec fn action_name(action: Action) -> Seq<char> {
    match action {
        Action::Make => "make"@,
        Action::Delete => "delete"@,
        Action::Remake => "remake"@,
    }
}

impl SymLink {
    /// Remove the link this descriptor records, if it was seen to exist.
    /// Refuses outright when the two paths coincide.
    fn delete_symlink(&self, fs: &mut FsState) -> (r: Result<bool, LinkError>)
        requires
            old(fs).wf(),
        ensures
            final(fs).wf(),
            final(fs)@ == step_fs(old(fs)@, self@, Action::Delete, false),
            r is Ok <==> step_ok(old(fs)@, self@, Action::Delete, false),
            r matches Ok(w) ==> w == step_work(self@, Action::Delete),
            r matches Err(e) ==> e@ == step_err(old(fs)@, self@, Action::Delete),
    {
        if !self.exists {
            return Ok(false);
        }
        if self.upper_file == self.target_file {
            return Err(LinkError::SelfTarget { path: self.upper_file.clone() });
        }
        match fs.lookup(&self.upper_file) {
            None => Err(LinkError::DeleteMissing { path: self.upper_file.clone() }),
            Some(entry) => {
                if matches!(entry, FsEntry::Dir) {
                    return Err(LinkError::DeleteDir { path: self.upper_file.clone() });
                }
                fs.remove_entry(&self.upper_file);
                Ok(true)
            },
        }
    }

    /// Put the link this descriptor records in place, unless it was seen to
    /// exist already.  Fails when something else sits at the path.
    fn make_symlink(&self, fs: &mut FsState) -> (r: Result<bool, LinkError>)
        requires
            old(fs).wf(),
        ensures
            final(fs).wf(),
            final(fs)@ == step_fs(old(fs)@, self@, Action::Make, false),
            r is Ok <==> step_ok(old(fs)@, self@, Action::Make, false),
            r matches Ok(w) ==> w == step_work(self@, Action::Make),
            r matches Err(e) ==> e@ == step_err(old(fs)@, self@, Action::Make),
    {
        if self.exists {
            return Ok(false);
        }
        match fs.lookup(&self.upper_file) {
            Some(_) => Err(LinkError::CreateOccupied { path: self.upper_file.clone() }),
            None => {
                fs.add_entry(
                    self.upper_file.clone(),
                    FsEntry::Symlink { resolved: Some(self.target_file.clone()) },
                );
                Ok(true)
            },
        }
    }
}

/// Report what would be done, using only the recorded `exists` flag; the
/// filesystem is not consulted and not touched.
pub fn dry_runner(sym: &SymLink, main_app: &MainApp) -> (r: (bool, String))
    ensures
        r.0 == step_work(sym@, main_app.action),
        r.1@ == dry_line_of(sym@, main_app.action),
{
    let mut line = String::new();
    let work = match main_app.action {
        Action::Remake => {
            line.append("would remake ");
            true
        },
        Action::Make => {
            if sym.exists {
                line.append("already made ");
                false
            } else {
                line.append("would make ");
                true
            }
        },
        Action::Delete => {
            if sym.exists {
                line.append("would delete ");
                true
            } else {
                line.append("already missing ");
                false
            }
        },
    };
    let display = sym.to_display();
    line.append(display.as_str());
    (work, line)
}

/// Carry one descriptor out on the filesystem.  Remaking deletes whatever
/// link is recorded and creates the link afresh, as one operation.
pub fn live_runner(fs: &mut FsState, sym: &SymLink, main_app: &MainApp) -> (r: Result<
    bool,
    LinkError,
>)
    requires
        old(fs).wf(),
    ensures
        final(fs).wf(),
        final(fs)@ == step_fs(old(fs)@, sym@, main_app.action, false),
        r is Ok <==> step_ok(old(fs)@, sym@, main_app.action, false),
        r matches Ok(w) ==> w == step_work(sym@, main_app.action),
        r matches Err(e) ==> e@ == step_err(old(fs)@, sym@, main_app.action),
{
    match main_app.action {
        Action::Make => sym.make_symlink(fs),
        Action::Delete => sym.delete_symlink(fs),
        Action::Remake => {
            if sym.exists {
                if sym.upper_file == sym.target_file {
                    return Err(LinkError::SelfTarget { path: sym.upper_file.clone() });
                }
                match fs.lookup(&sym.upper_file) {
                    None => {
                        return Err(LinkError::DeleteMissing { path: sym.upper_file.clone() });
                    },
                    Some(entry) => {
                        if matches!(entry, FsEntry::Dir) {
                            return Err(LinkError::DeleteDir { path: sym.upper_file.clone() });
                        }
                    },
                }
                fs.remove_entry(&sym.upper_file);
            } else {
                if fs.lookup(&sym.upper_file).is_some() {
                    return Err(LinkError::CreateOccupied { path: sym.upper_file.clone() });
                }
            }
            fs.add_entry(
                sym.upper_file.clone(),
                FsEntry::Symlink { resolved: Some(sym.target_file.clone()) },
            );
            Ok(true)
        },
    }
}

/// Run every descriptor under the context's action and dry-run flag.
/// Returns the did-work flag and the aggregated report, or the first
/// failure; descriptors before the failure stay applied.
pub fn run_sym_vec(fs: &mut FsState, to_sym_vec: &Vec<SymLink>, main_app: &MainApp) -> (r: Result<
    (bool, String),
    LinkError,
>)
    requires
        old(fs).wf(),
    ensures
        final(fs).wf(),
        final(fs)@ == run_fs(old(fs)@, link_views(to_sym_vec@), main_app.action, main_app.dry_run),
        main_app.dry_run ==> final(fs)@ == old(fs)@,
        r is Ok <==> run_ok(old(fs)@, link_views(to_sym_vec@), main_app.action, main_app.dry_run),
        r matches Ok(out) ==> out.0 == run_work(link_views(to_sym_vec@), main_app.action),
        r matches Ok(out) ==> (out.1@ == if to_sym_vec@.len() == 0 {
            Seq::<char>::empty()
        } else {
            report_of(link_views(to_sym_vec@), main_app.action, main_app.dry_run)
        }),
        r matches Err(e) ==> e@ == run_err(
            old(fs)@,
            link_views(to_sym_vec@),
            main_app.action,
            main_app.dry_run,
        ),
{
    let ghost views = link_views(to_sym_vec@);
    if to_sym_vec.is_empty() {
        return Ok((false, String::new()));
    }

    let mut did_work = false;
    let mut dry_lines: Vec<String> = Vec::new();
    let mut displays: Vec<String> = Vec::new();
    let n = to_sym_vec.len();
    let mut i: usize = 0;
    while i < n
        invariant
            0 <= i <= n,
            n == to_sym_vec@.len(),
            views == link_views(to_sym_vec@),
            old(fs).wf(),
            fs.wf(),
            fs@ == run_fs(old(fs)@, views.take(i as int), main_app.action, main_app.dry_run),
            run_ok(old(fs)@, views.take(i as int), main_app.action, main_app.dry_run),
            did_work == run_work(views.take(i as int), main_app.action),
            main_app.dry_run ==> dry_lines@.len() == i,
            main_app.dry_run ==> forall|j: int|
                0 <= j < i ==> dry_lines@[j]@ == dry_line_of(views[j], main_app.action),
            !main_app.dry_run ==> displays@.len() == i,
            !main_app.dry_run ==> forall|j: int|
                0 <= j < i ==> displays@[j]@ == display_of(views[j]),
            main_app.dry_run ==> fs@ == old(fs)@,
        decreases n - i,
    {
        let sym = &to_sym_vec[i];
        proof {
            assert(views.take(i + 1).drop_last() =~= views.take(i as int));
            assert(views.take(i + 1).last() == sym@);
        }
        let work: bool;
        if main_app.dry_run {
            let (w, line) = dry_runner(sym, main_app);
            work = w;
            dry_lines.push(line);
        } else {
            match live_runner(fs, sym, main_app) {
                Ok(w) => {
                    work = w;
                },
                Err(e) => {
                    proof {
                        lemma_run_failed_prefix(
                            old(fs)@,
                            views,
                            i as int,
                            main_app.action,
                            main_app.dry_run,
                        );
                    }
                    return Err(e);
                },
            }
            let display = sym.to_display();
            displays.push(display);
        }
        if work {
            did_work = true;
        }
        proof {
            if run_work(views.take(i + 1), main_app.action) && !run_work(
                views.take(i as int),
                main_app.action,
            ) {
                let k = choose|k: int|
                    0 <= k < views.take(i + 1).len() && #[trigger] step_work(
                        views.take(i + 1)[k],
                        main_app.action,
                    );
                assert(k == i);
            }
            if step_work(sym@, main_app.action) {
                assert(step_work(views.take(i + 1)[i as int], main_app.action));
            }
        }
        i = i + 1;
    }
    proof {
        assert(views.take(n as int) =~= views);
    }

    let report: String;
    if main_app.dry_run {
        let mut joined = String::new();
        let m = dry_lines.len();
        let ghost lines = views.map_values(|l: LinkModel| dry_line_of(l, main_app.action));
        proof {
            assert(dry_lines@.map_values(|s: String| s@) =~= lines);
        }
        let mut k: usize = 0;
        while k < m
            invariant
                0 <= k <= m,
                m == dry_lines@.len(),
                dry_lines@.map_values(|s: String| s@) == lines,
                joined@ == join_with_nl(lines.take(k as int)),
            decreases m - k,
        {
            if k > 0 {
                joined.append("\n");
            }
            joined.append(dry_lines[k].as_str());
            proof {
                assert(dry_lines@[k as int]@ == dry_lines@.map_values(|s: String| s@)[k as int]);
                assert(lines.take(k + 1).drop_last() =~= lines.take(k as int));
                assert(lines.take(k + 1).last() == lines[k as int]);
            }
            k = k + 1;
        }
        proof {
            assert(lines.take(m as int) =~= lines);
        }
        report = joined;
    } else {
        let msg = if did_work {
            main_app.action.to_str()
        } else {
            "did noting"
        };
        report = vec_to_string(msg, &displays);
        proof {
            let msg_seq = if run_work(views, main_app.action) {
                action_name(main_app.action)
            } else {
                "did noting"@
            };
            assert(msg@ == msg_seq);
            assert(displays@.map_values(|s: String| msg@ + " "@ + s@) =~= views.map_values(
                |l: LinkModel| msg_seq + " "@ + display_of(l),
            ));
        }
    }

    Ok((did_work, report))
}

/// A failure at the first not-yet-run descriptor decides the whole run:
/// nothing after it runs, and it names the error.
proof fn lemma_run_failed_prefix(fs: FsMap, syms: Seq<LinkModel>, i: int, action: Action, dry: bool)
    requires
        0 <= i < syms.len(),
        run_ok(fs, syms.take(i), action, dry),
        !step_ok(run_fs(fs, syms.take(i), action, dry), syms[i], action, dry),
    ensures
        !run_ok(fs, syms, action, dry),
        run_fs(fs, syms, action, dry) == run_fs(fs, syms.take(i), action, dry),
        run_err(fs, syms, action, dry) == step_err(
            run_fs(fs, syms.take(i), action, dry),
            syms[i],
            action,
        ),
    decreases syms.len(),
{
    if syms.len() == i + 1 {
        assert(syms.drop_last() =~= syms.take(i));
        assert(syms.last() == syms[i]);
    } else {
        assert(syms.drop_last().take(i) =~= syms.take(i));
        assert(syms.drop_last()[i] == syms[i]);
        lemma_run_failed_prefix(fs, syms.drop_last(), i, action, dry);
    }
}

} // verus!
