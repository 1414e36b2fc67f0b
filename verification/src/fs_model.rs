//! In-memory model of the upper tree's filesystem state.
//!
//! The reconciliation logic is stated and verified over this model: a flat
//! finite map from absolute, canonical path to what sits at that path.  A
//! symbolic link carries the canonical resolution of its chain, or `None`
//! when it cannot be resolved (a dangling link).  The surrounding binary
//! observes the real filesystem into this model and replays the verified
//! plan onto the real tree.

use vstd::prelude::*;
use vstd::string::StrSliceExecFns;

verus! {

/// Whether `p` is a direct child path of the directory `d`: `d`, a
/// separator, and a nonempty name with no further separator.
pub open spec fn is_child_path(p: Seq<char>, d: Seq<char>) -> bool {
    &&& p.len() > d.len() + 1
    &&& p.subrange(0, d.len() as int) == d
    &&& p[d.len() as int] == '/'
    &&& forall|j: int| d.len() + 1 <= j < p.len() ==> p[j] != '/'
}

/// The paths among `keys` that are direct children of `d`, in order.
pub open spec fn children_of(keys: Seq<Seq<char>>, d: Seq<char>) -> Seq<Seq<char>>
    decreases keys.len(),
{
    if keys.len() == 0 {
        Seq::empty()
    } else {
        children_of(keys.drop_last(), d) + if is_child_path(keys.last(), d) {
            seq![keys.last()]
        } else {
            Seq::empty()
        }
    }
}

/// Whether `p` is a direct child path of the directory `d`.
pub fn is_child(p: &String, d: &String) -> (r: bool)
    ensures
        r == is_child_path(p@, d@),
{
    let plen = p.as_str().unicode_len();
    let dlen = d.as_str().unicode_len();
    if plen <= dlen {
        return false;
    }
    if plen - dlen < 2 {
        return false;
    }
    let mut j: usize = 0;
    while j < dlen
        invariant
            0 <= j <= dlen,
            dlen < plen,
            plen == p@.len(),
            dlen == d@.len(),
            forall|k: int| 0 <= k < j ==> p@[k] == d@[k],
        decreases dlen - j,
    {
        if p.as_str().get_char(j) != d.as_str().get_char(j) {
            return false;
        }
        j = j + 1;
    }
    if p.as_str().get_char(dlen) != '/' {
        return false;
    }
    let mut k: usize = dlen + 1;
    while k < plen
        invariant
            dlen + 1 <= k <= plen,
            plen == p@.len(),
            dlen == d@.len(),
            forall|m: int| dlen + 1 <= m < k ==> p@[m] != '/',
        decreases plen - k,
    {
        if p.as_str().get_char(k) == '/' {
            return false;
        }
        k = k + 1;
    }
    proof {
        assert(p@.subrange(0, d@.len() as int) =~= d@);
    }
    true
}

/// What sits at one path of the upper tree.
pub enum FsEntry {
    /// A regular file (or anything that is neither a directory nor a link).
    File,
    /// A plain directory.
    Dir,
    /// A symbolic link; `resolved` is the canonical path its chain resolves
    /// to, or `None` when resolution fails.
    Symlink { resolved: Option<String> },
}

/// Mathematical image of an `FsEntry`.
pub enum EntryModel {
    File,
    Dir,
    Symlink { resolved: Option<Seq<char>> },
}

impl View for FsEntry {
    type V = EntryModel;

    open spec fn view(&self) -> EntryModel {
        match self {
            FsEntry::File => EntryModel::File,
            FsEntry::Dir => EntryModel::Dir,
            FsEntry::Symlink { resolved: r } => EntryModel::Symlink {
                resolved: match r {
                    Some(p) => Some(p@),
                    None => None,
                },
            },
        }
    }
}

/// The map denoted by an association list, later bindings winning.
pub open spec fn map_of(s: Seq<(String, FsEntry)>) -> Map<Seq<char>, EntryModel>
    decreases s.len(),
{
    if s.len() == 0 {
        Map::empty()
    } else {
        map_of(s.drop_last()).insert(s.last().0@, s.last().1@)
    }
}

/// A finite filesystem: an association list of `(path, entry)` with unique
/// path keys, viewed as a map from path to entry.
pub struct FsState {
    entries: Vec<(String, FsEntry)>,
}

impl View for FsState {
    type V = Map<Seq<char>, EntryModel>;

    closed spec fn view(&self) -> Map<Seq<char>, EntryModel> {
        map_of(self.entries@)
    }
}

/// A key is in the denoted map exactly when some binding carries it.
pub proof fn lemma_map_of_domain(s: Seq<(String, FsEntry)>, k: Seq<char>)
    ensures
        map_of(s).contains_key(k) <==> exists|i: int| 0 <= i < s.len() && s[i].0@ == k,
    decreases s.len(),
{
    if s.len() > 0 {
        lemma_map_of_domain(s.drop_last(), k);
        if map_of(s).contains_key(k) {
            if s.last().0@ == k {
                assert(s[s.len() - 1].0@ == k);
            } else {
                let i = choose|i: int| 0 <= i < s.drop_last().len() && s.drop_last()[i].0@ == k;
                assert(s[i].0@ == k);
            }
        }
        if exists|i: int| 0 <= i < s.len() && s[i].0@ == k {
            let i = choose|i: int| 0 <= i < s.len() && s[i].0@ == k;
            if i < s.len() - 1 {
                assert(s.drop_last()[i].0@ == k);
            }
        }
    }
}

impl FsState {
    /// No two bindings share a key.
    pub closed spec fn wf(&self) -> bool {
        forall|i: int, j: int|
            0 <= i < j < self.entries@.len() ==> self.entries@[i].0@ != self.entries@[j].0@
    }

    /// The paths of the state in insertion order; directory listings are
    /// derived from this order.
    pub closed spec fn key_seq(&self) -> Seq<Seq<char>> {
        self.entries@.map_values(|e: (String, FsEntry)| e.0@)
    }

    pub proof fn lemma_key_seq(&self, k: Seq<char>)
        ensures
            self@.contains_key(k) <==> self.key_seq().contains(k),
    {
        lemma_map_of_domain(self.entries@, k);
        if self@.contains_key(k) {
            let i = choose|i: int| 0 <= i < self.entries@.len() && self.entries@[i].0@ == k;
            assert(self.key_seq()[i] == k);
        }
        if self.key_seq().contains(k) {
            let i = choose|i: int| 0 <= i < self.key_seq().len() && self.key_seq()[i] == k;
            assert(self.entries@[i].0@ == k);
        }
    }

    /// An empty filesystem.
    pub fn new() -> (r: FsState)
        ensures
            r@ == Map::<Seq<char>, EntryModel>::empty(),
            r.wf(),
            r.key_seq() == Seq::<Seq<char>>::empty(),
    {
        let r = FsState { entries: Vec::new() };
        proof {
            assert(r.key_seq() =~= Seq::<Seq<char>>::empty());
        }
        r
    }

    /// What sits at `path`, if anything.
    pub fn lookup(&self, path: &String) -> (r: Option<&FsEntry>)
        ensures
            match r {
                Some(e) => self@.contains_key(path@) && self@[path@] == e@,
                None => !self@.contains_key(path@),
            },
    {
        let n = self.entries.len();
        let mut i = n;
        proof {
            assert(self.entries@.subrange(0, n as int) =~= self.entries@);
        }
        while i > 0
            invariant
                0 <= i <= n,
                n == self.entries@.len(),
                map_of(self.entries@).contains_key(path@) == map_of(
                    self.entries@.subrange(0, i as int),
                ).contains_key(path@),
                map_of(self.entries@).contains_key(path@) ==> map_of(self.entries@)[path@]
                    == map_of(self.entries@.subrange(0, i as int))[path@],
            decreases i,
        {
            i = i - 1;
            proof {
                assert(self.entries@.subrange(0, i + 1).drop_last() =~= self.entries@.subrange(
                    0,
                    i as int,
                ));
                assert(self.entries@.subrange(0, i + 1).last() == self.entries@[i as int]);
            }
            if self.entries[i].0 == *path {
                return Some(&self.entries[i].1);
            }
        }
        proof {
            assert(self.entries@.subrange(0, 0) =~= Seq::<(String, FsEntry)>::empty());
            lemma_map_of_domain(self.entries@.subrange(0, 0), path@);
        }
        None
    }

    /// The direct children of `dir`, in insertion order — the model's
    /// directory listing.
    pub fn list_dir(&self, dir: &String) -> (r: Vec<String>)
        ensures
            r@.map_values(|p: String| p@) == children_of(self.key_seq(), dir@),
    {
        let mut r: Vec<String> = Vec::new();
        let n = self.entries.len();
        let mut i: usize = 0;
        proof {
            assert(self.key_seq().take(0) =~= Seq::<Seq<char>>::empty());
        }
        while i < n
            invariant
                0 <= i <= n,
                n == self.entries@.len(),
                self.key_seq().len() == n,
                forall|j: int| 0 <= j < n ==> self.key_seq()[j] == self.entries@[j].0@,
                r@.map_values(|p: String| p@) == children_of(
                    self.key_seq().take(i as int),
                    dir@,
                ),
            decreases n - i,
        {
            proof {
                assert(self.key_seq().take(i + 1).drop_last() =~= self.key_seq().take(i as int));
                assert(self.key_seq().take(i + 1).last() == self.key_seq()[i as int]);
            }
            if is_child(&self.entries[i].0, dir) {
                r.push(self.entries[i].0.clone());
                proof {
                    assert(r@.map_values(|p: String| p@) =~= children_of(
                        self.key_seq().take(i + 1),
                        dir@,
                    ));
                }
            } else {
                proof {
                    assert(r@.map_values(|p: String| p@) =~= children_of(
                        self.key_seq().take(i + 1),
                        dir@,
                    ));
                }
            }
            i = i + 1;
        }
        proof {
            assert(self.key_seq().take(n as int) =~= self.key_seq());
        }
        r
    }

    /// Record a new path.  The caller must know it is absent; the model has
    /// one entry per path.
    pub fn add_entry(&mut self, path: String, entry: FsEntry)
        requires
            old(self).wf(),
            !old(self)@.contains_key(path@),
        ensures
            final(self).wf(),
            final(self)@ == old(self)@.insert(path@, entry@),
            final(self).key_seq() == old(self).key_seq().push(path@),
    {
        proof {
            lemma_map_of_domain(self.entries@, path@);
        }
        let ghost old_entries = self.entries@;
        let ghost p = path@;
        let ghost e = entry@;
        self.entries.push((path, entry));
        proof {
            assert(self.entries@.drop_last() =~= old_entries);
            assert(self.key_seq() =~= old(self).key_seq().push(p));
        }
    }

    /// Forget the path entirely.
    pub fn remove_entry(&mut self, path: &String)
        requires
            old(self).wf(),
            old(self)@.contains_key(path@),
        ensures
            final(self).wf(),
            final(self)@ == old(self)@.remove(path@),
    {
        proof {
            lemma_map_of_domain(self.entries@, path@);
        }
        let n = self.entries.len();
        let mut i: usize = 0;
        while i < n
            invariant
                0 <= i <= n,
                n == self.entries@.len(),
                self.entries@ == old(self).entries@,
                old(self).wf(),
                exists|j: int| 0 <= j < n && self.entries@[j].0@ == path@,
                forall|j: int| 0 <= j < i ==> self.entries@[j].0@ != path@,
            decreases n - i,
        {
            if self.entries[i].0 == *path {
                let ghost before = old(self).entries@;
                proof {
                    assert(self.entries@ == before);
                }
                self.entries.remove(i);
                proof {
                    assert(old(self).wf());
                    assert(forall|p: int, q: int|
                        0 <= p < q < before.len() ==> before[p].0@ != before[q].0@);
                    lemma_map_of_remove(before, i as int);
                    assert(self@ =~= old(self)@.remove(path@));
                    assert forall|p: int, q: int|
                        0 <= p < q < self.entries@.len() implies self.entries@[p].0@
                        != self.entries@[q].0@ by {
                        let p0 = if p < i { p } else { p + 1 };
                        let q0 = if q < i { q } else { q + 1 };
                        assert(self.entries@[p] == before[p0]);
                        assert(self.entries@[q] == before[q0]);
                    }
                }
                return ;
            }
            i = i + 1;
        }
        proof {
            assert(false);
        }
    }
}

/// Removing the (unique) binding of a key removes the key from the map.
pub proof fn lemma_map_of_remove(s: Seq<(String, FsEntry)>, i: int)
    requires
        0 <= i < s.len(),
        forall|p: int, q: int| 0 <= p < q < s.len() ==> s[p].0@ != s[q].0@,
    ensures
        map_of(s.remove(i)) == map_of(s).remove(s[i].0@),
    decreases s.len(),
{
    let k = s[i].0@;
    if i == s.len() - 1 {
        assert(s.remove(i) =~= s.drop_last());
        lemma_map_of_domain(s.drop_last(), k);
        assert(!map_of(s.drop_last()).contains_key(k));
        assert(map_of(s).remove(k) =~= map_of(s.drop_last()));
    } else {
        lemma_map_of_remove(s.drop_last(), i);
        assert(s.remove(i).drop_last() =~= s.drop_last().remove(i));
        assert(s.remove(i).last() == s.last());
        assert(map_of(s.remove(i)) == map_of(s.drop_last().remove(i)).insert(
            s.last().0@,
            s.last().1@,
        ));
        assert(map_of(s).remove(k) =~= map_of(s.drop_last()).remove(k).insert(
            s.last().0@,
            s.last().1@,
        ));
    }
}

} // verus!
