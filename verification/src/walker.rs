//! The tree walker and the path classifier.
//!
//! The walker descends a target subtree in lock-step with the corresponding
//! upper subtree and produces the flat list of link descriptors, plus the
//! conflicts it refused to plan around.  The classifier decides, for one
//! candidate upper path, whether the path is an owned link, absent, a
//! directory to recurse into, or a conflict that must never be touched.

use vstd::prelude::*;
use vstd::string::StringExecFns;

use crate::fs_model::{EntryModel, FsEntry, FsState};
use crate::my_utils::{join_path, path_join};
use crate::symbolic_link::{link_views, LinkModel, SymLink};

verus! {

/// One entry of a target directory listing: its name and what it is.
pub enum TargetEntry {
    /// A leaf: a file (or anything that is not a directory).
    File,
    /// A directory with its own listing, in listing order.
    Dir(Vec<DirEntry>),
}

/// A named entry of a target directory.
pub struct DirEntry {
    pub name: String,
    pub entry: TargetEntry,
}

/// Why a candidate upper path is excluded from the plan.
#[derive(Clone, Copy, PartialEq, Eq, Structural, Debug)]
pub enum ConflictKind {
    /// A symbolic link resolving to something other than the expected
    /// target; owned by someone else and never touched.
    Foreign,
    /// A symbolic link resolving to the candidate path itself.
    SelfLink,
    /// A symbolic link whose chain cannot be resolved at all.
    Unresolvable,
    /// A pre-existing plain file where a link or directory was expected.
    Unexpected,
    /// A directory in the upper tree where the target tree holds a leaf.
    Mismatch,
}

/// One conflict: the candidate upper path and why it is excluded.
pub struct Conflict {
    pub path: String,
    pub kind: ConflictKind,
}

/// Mathematical image of a [`Conflict`].
pub struct ConflictModel {
    pub path: Seq<char>,
    pub kind: ConflictKind,
}

impl View for Conflict {
    type V = ConflictModel;

    open spec fn view(&self) -> ConflictModel {
        ConflictModel { path: self.path@, kind: self.kind }
    }
}

/// The report text of each conflict.
pub open spec fn conf_message_of(c: ConflictModel) -> Seq<char> {
    match c.kind {
        ConflictKind::Foreign => "link is not owned by us "@ + c.path,
        ConflictKind::SelfLink => "link points to itself "@ + c.path,
        ConflictKind::Unresolvable => "cant canonicalize "@ + c.path,
        ConflictKind::Unexpected => "file exists "@ + c.path,
        ConflictKind::Mismatch => "target is not a directory under "@ + c.path,
    }
}

impl Conflict {
    /// A printable account of the conflict.
    pub fn message(&self) -> (r: String)
        ensures
            r@ == conf_message_of(self@),
    {
        let mut m = String::new();
        match self.kind {
            ConflictKind::Foreign => m.append("link is not owned by us "),
            ConflictKind::SelfLink => m.append("link points to itself "),
            ConflictKind::Unresolvable => m.append("cant canonicalize "),
            ConflictKind::Unexpected => m.append("file exists "),
            ConflictKind::Mismatch => m.append("target is not a directory under "),
        }
        m.append(self.path.as_str());
        m
    }
}

/// The views of a conflict list.
pub open spec fn conf_views(s: Seq<Conflict>) -> Seq<ConflictModel> {
    s.map_values(|c: Conflict| c@)
}

/// What the classifier can say about one candidate upper path.
pub enum Classified {
    /// A symbolic link already resolving to the expected target.
    Owned,
    /// Nothing sits at the candidate path.
    Missing,
    /// A plain directory on both sides: descend instead of linking.
    Recurse,
    /// Excluded from the plan; never mutated.
    Conflict { kind: ConflictKind },
}

/// Classification of the candidate path `upper_path`, which should expose
/// the target-tree path `target_path`; `entry_is_dir` says whether the
/// target side is a directory.
pub open spec fn classify_spec(
    fs: Map<Seq<char>, EntryModel>,
    upper_path: Seq<char>,
    target_path: Seq<char>,
    entry_is_dir: bool,
) -> Classified {
    if !fs.contains_key(upper_path) {
        Classified::Missing
    } else {
        match fs[upper_path] {
            EntryModel::Symlink { resolved } => classify_link(resolved, upper_path, target_path),
            EntryModel::Dir => if entry_is_dir {
                Classified::Recurse
            } else {
                Classified::Conflict { kind: ConflictKind::Mismatch }
            },
            EntryModel::File => Classified::Conflict { kind: ConflictKind::Unexpected },
        }
    }
}

/// The descriptors the walk of one classified entry produces.
pub open spec fn walk_entry_syms(
    fs: Map<Seq<char>, EntryModel>,
    upper_path: Seq<char>,
    target_path: Seq<char>,
    e: TargetEntry,
) -> Seq<LinkModel>
    decreases e,
{
    match classify_spec(fs, upper_path, target_path, e is Dir) {
        Classified::Missing => seq![
            LinkModel { upper: upper_path, target: target_path, exists: false },
        ],
        Classified::Owned => seq![
            LinkModel { upper: upper_path, target: target_path, exists: true },
        ],
        Classified::Recurse => match e {
            TargetEntry::Dir(children) => walk_list_syms(fs, upper_path, target_path, children@),
            TargetEntry::File => Seq::empty(),
        },
        Classified::Conflict { .. } => Seq::empty(),
    }
}

/// The descriptors the walk of a whole listing produces, in listing order.
pub open spec fn walk_list_syms(
    fs: Map<Seq<char>, EntryModel>,
    upper_dir: Seq<char>,
    target_dir: Seq<char>,
    es: Seq<DirEntry>,
) -> Seq<LinkModel>
    decreases es,
{
    if es.len() == 0 {
        Seq::empty()
    } else {
        walk_list_syms(fs, upper_dir, target_dir, es.drop_last()) + walk_entry_syms(
            fs,
            join_path(upper_dir, es.last().name@),
            join_path(target_dir, es.last().name@),
            es.last().entry,
        )
    }
}

/// The conflicts the walk of one classified entry surfaces.
pub open spec fn walk_entry_confs(
    fs: Map<Seq<char>, EntryModel>,
    upper_path: Seq<char>,
    target_path: Seq<char>,
    e: TargetEntry,
) -> Seq<ConflictModel>
    decreases e,
{
    match classify_spec(fs, upper_path, target_path, e is Dir) {
        Classified::Missing => Seq::empty(),
        Classified::Owned => Seq::empty(),
        Classified::Recurse => match e {
            TargetEntry::Dir(children) => walk_list_confs(fs, upper_path, target_path, children@),
            TargetEntry::File => Seq::empty(),
        },
        Classified::Conflict { kind } => seq![ConflictModel { path: upper_path, kind }],
    }
}

/// The conflicts the walk of a whole listing surfaces, in listing order.
pub open spec fn walk_list_confs(
    fs: Map<Seq<char>, EntryModel>,
    upper_dir: Seq<char>,
    target_dir: Seq<char>,
    es: Seq<DirEntry>,
) -> Seq<ConflictModel>
    decreases es,
{
    if es.len() == 0 {
        Seq::empty()
    } else {
        walk_list_confs(fs, upper_dir, target_dir, es.drop_last()) + walk_entry_confs(
            fs,
            join_path(upper_dir, es.last().name@),
            join_path(target_dir, es.last().name@),
            es.last().entry,
        )
    }
}

/// The symlink arm of the classifier: ours exactly when the resolution is
/// the expected target; self-referential, foreign and unresolvable links
/// are conflicts.
pub open spec fn classify_link(
    resolved: Option<Seq<char>>,
    upper_path: Seq<char>,
    target_path: Seq<char>,
) -> Classified {
    match resolved {
        None => Classified::Conflict { kind: ConflictKind::Unresolvable },
        Some(r) => if r == target_path {
            Classified::Owned
        } else if r == upper_path {
            Classified::Conflict { kind: ConflictKind::SelfLink }
        } else {
            Classified::Conflict { kind: ConflictKind::Foreign }
        },
    }
}

/// The view of an optional resolution.
pub open spec fn opt_path_view(o: Option<String>) -> Option<Seq<char>> {
    match o {
        Some(p) => Some(p@),
        None => None,
    }
}

/// Joining the same name onto different directories gives different paths.
pub proof fn lemma_join_ne(d1: Seq<char>, d2: Seq<char>, n: Seq<char>)
    requires
        d1 != d2,
    ensures
        join_path(d1, n) != join_path(d2, n),
{
    if join_path(d1, n) == join_path(d2, n) {
        assert(join_path(d1, n).len() == d1.len() + "/"@.len() + n.len());
        assert(join_path(d2, n).len() == d2.len() + "/"@.len() + n.len());
        assert(d1.len() == d2.len());
        assert forall|i: int| 0 <= i < d1.len() implies d1[i] == d2[i] by {
            assert(join_path(d1, n)[i] == d1[i]);
            assert(join_path(d2, n)[i] == d2[i]);
        }
        assert(d1 =~= d2);
    }
}

/// Check a symbolic link found at `maybe_path`: ours exactly when its
/// resolution is the expected target; anything else is a conflict.
pub fn symlink_check(resolved: &Option<String>, maybe_path: &String, target_path: &String) -> (r:
    Result<SymLink, Conflict>)
    requires
        maybe_path@ != target_path@,
    ensures
        match classify_link(opt_path_view(*resolved), maybe_path@, target_path@) {
            Classified::Owned => (r matches Ok(s) && s@ == (LinkModel {
                upper: maybe_path@,
                target: target_path@,
                exists: true,
            })),
            Classified::Conflict { kind } => (r matches Err(c) && c@ == (ConflictModel {
                path: maybe_path@,
                kind,
            })),
            _ => false,
        },
{
    match resolved {
        None => Err(
            Conflict { path: maybe_path.clone(), kind: ConflictKind::Unresolvable },
        ),
        Some(real_maybe) => {
            if *real_maybe == *target_path {
                Ok(SymLink::new(maybe_path, target_path, true))
            } else if *real_maybe == *maybe_path {
                Err(Conflict { path: maybe_path.clone(), kind: ConflictKind::SelfLink })
            } else {
                Err(Conflict { path: maybe_path.clone(), kind: ConflictKind::Foreign })
            }
        },
    }
}

/// Walk one target directory listing against the corresponding upper
/// directory: classify every entry, recurse where both sides are plain
/// directories, and return the flat descriptor list together with the
/// conflicts found; siblings of a conflict are still classified.
pub fn get_symlink_vec(
    fs: &FsState,
    upper_dir: &String,
    target_dir: &String,
    entries: &Vec<DirEntry>,
) -> (r: (Vec<SymLink>, Vec<Conflict>))
    requires
        upper_dir@ != target_dir@,
    ensures
        link_views(r.0@) == walk_list_syms(fs@, upper_dir@, target_dir@, entries@),
        conf_views(r.1@) == walk_list_confs(fs@, upper_dir@, target_dir@, entries@),
    decreases entries,
{
    let mut to_ret: Vec<SymLink> = Vec::new();
    let mut confs: Vec<Conflict> = Vec::new();
    let n = entries.len();
    let mut i: usize = 0;
    while i < n
        invariant
            0 <= i <= n,
            n == entries@.len(),
            upper_dir@ != target_dir@,
            link_views(to_ret@) == walk_list_syms(
                fs@,
                upper_dir@,
                target_dir@,
                entries@.take(i as int),
            ),
            conf_views(confs@) == walk_list_confs(
                fs@,
                upper_dir@,
                target_dir@,
                entries@.take(i as int),
            ),
        decreases n - i,
    {
        let dir_entry = &entries[i];
        let maybe_path = path_join(upper_dir, &dir_entry.name);
        let target_path = path_join(target_dir, &dir_entry.name);
        let ghost old_syms = to_ret@;
        let ghost old_confs = confs@;
        let ghost entry_syms = walk_entry_syms(fs@, maybe_path@, target_path@, dir_entry.entry);
        let ghost entry_confs = walk_entry_confs(fs@, maybe_path@, target_path@, dir_entry.entry);
        proof {
            lemma_join_ne(upper_dir@, target_dir@, dir_entry.name@);
            assert(entries@.take(i + 1).drop_last() =~= entries@.take(i as int));
            assert(entries@.take(i + 1).last() == entries@[i as int]);
        }
        match fs.lookup(&maybe_path) {
            Some(FsEntry::Symlink { resolved }) => {
                match symlink_check(resolved, &maybe_path, &target_path) {
                    Ok(sym) => {
                        proof {
                            assert(entry_syms =~= seq![sym@]);
                        }
                        to_ret.push(sym);
                    },
                    Err(conf) => {
                        proof {
                            assert(entry_confs =~= seq![conf@]);
                        }
                        confs.push(conf);
                    },
                }
            },
            Some(FsEntry::Dir) => {
                match &dir_entry.entry {
                    TargetEntry::Dir(children) => {
                        let (mut sub_syms, mut sub_confs) = get_symlink_vec(
                            fs,
                            &maybe_path,
                            &target_path,
                            children,
                        );
                        proof {
                            assert(entry_syms == link_views(sub_syms@));
                            assert(entry_confs == conf_views(sub_confs@));
                        }
                        to_ret.append(&mut sub_syms);
                        confs.append(&mut sub_confs);
                    },
                    TargetEntry::File => {
                        let conf = Conflict { path: maybe_path, kind: ConflictKind::Mismatch };
                        proof {
                            assert(entry_confs =~= seq![conf@]);
                        }
                        confs.push(conf);
                    },
                }
            },
            Some(FsEntry::File) => {
                let conf = Conflict { path: maybe_path, kind: ConflictKind::Unexpected };
                proof {
                    assert(entry_confs =~= seq![conf@]);
                }
                confs.push(conf);
            },
            None => {
                let sym = SymLink::new(&maybe_path, &target_path, false);
                proof {
                    assert(entry_syms =~= seq![sym@]);
                }
                to_ret.push(sym);
            },
        }
        proof {
            assert(link_views(to_ret@) =~= link_views(old_syms) + entry_syms);
            assert(conf_views(confs@) =~= conf_views(old_confs) + entry_confs);
            assert(link_views(to_ret@) =~= walk_list_syms(
                fs@,
                upper_dir@,
                target_dir@,
                entries@.take(i + 1),
            ));
            assert(conf_views(confs@) =~= walk_list_confs(
                fs@,
                upper_dir@,
                target_dir@,
                entries@.take(i + 1),
            ));
        }
        i = i + 1;
    }
    proof {
        assert(entries@.take(n as int) =~= entries@);
    }
    (to_ret, confs)
}

} // verus!
