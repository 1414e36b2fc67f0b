//! Selecting target directories by pattern.
//!
//! The configuration names, per host, a set of directory-name patterns
//! (`*_suffix` or `prefix_*`); the directories of the under tree whose
//! names match a pattern for the running host become the run's target
//! directories.

use vstd::prelude::*;
use vstd::string::StrSliceExecFns;
use vstd::string::StringExecFns;

use crate::fs_model::{children_of, FsState};
use crate::my_utils::{file_name, file_name_of};
use crate::user_config::{Conf, Target, TargetModel};

verus! {

/// How target directories are selected.  Only hostname-based selection is
/// implemented.
#[derive(Clone, Copy, PartialEq, Eq, Structural, Debug)]
pub enum FilterType {
    Keyfile,
    Hostname,
}

/// Why the selection failed.
#[derive(Clone, Copy, PartialEq, Eq, Structural, Debug)]
pub enum FilterError {
    /// A pattern carries its wildcard neither first nor last.
    BadFilter,
    /// No directory matched any pattern.
    NoneFound,
    /// Not exactly one filter target matches the host.
    HostMatch,
    /// The host name could not be determined.
    NoHostname,
}

/// `v` begins with `p`.
pub open spec fn starts_with(v: Seq<char>, p: Seq<char>) -> bool {
    p.len() <= v.len() && v.subrange(0, p.len() as int) == p
}

/// `v` ends with `p`.
pub open spec fn ends_with(v: Seq<char>, p: Seq<char>) -> bool {
    p.len() <= v.len() && v.subrange(v.len() - p.len(), v.len() as int) == p
}

/// `s` with every wildcard character removed.
pub open spec fn strip_stars(s: Seq<char>) -> Seq<char>
    decreases s.len(),
{
    if s.len() == 0 {
        Seq::empty()
    } else if s.last() == '*' {
        strip_stars(s.drop_last())
    } else {
        strip_stars(s.drop_last()).push(s.last())
    }
}

/// A usable pattern: its wildcard comes first or last.
pub open spec fn pattern_wf(p: Seq<char>) -> bool {
    p.len() > 0 && (p[0] == '*' || p[p.len() - 1] == '*')
}

/// Whether a name matches a pattern: a leading wildcard anchors the rest
/// at the end of the name, a trailing one anchors it at the start.
pub open spec fn pattern_matches(v: Seq<char>, p: Seq<char>) -> bool {
    if p.len() > 0 && p[0] == '*' {
        ends_with(v, strip_stars(p))
    } else {
        starts_with(v, strip_stars(p))
    }
}

/// Every pattern of the list is usable.
pub open spec fn patterns_wf(pats: Seq<Seq<char>>) -> bool {
    forall|i: int| 0 <= i < pats.len() ==> pattern_wf(#[trigger] pats[i])
}

/// `v` begins with `p`.
fn str_starts_with(v: &String, p: &String) -> (r: bool)
    ensures
        r == starts_with(v@, p@),
{
    let vlen = v.as_str().unicode_len();
    let plen = p.as_str().unicode_len();
    if plen > vlen {
        return false;
    }
    let mut i: usize = 0;
    while i < plen
        invariant
            0 <= i <= plen,
            plen <= vlen,
            vlen == v@.len(),
            plen == p@.len(),
            forall|j: int| 0 <= j < i ==> v@[j] == p@[j],
        decreases plen - i,
    {
        if v.as_str().get_char(i) != p.as_str().get_char(i) {
            proof {
                assert(v@.subrange(0, p@.len() as int)[i as int] != p@[i as int]);
            }
            return false;
        }
        i = i + 1;
    }
    proof {
        assert(v@.subrange(0, p@.len() as int) =~= p@);
    }
    true
}

/// `v` ends with `p`.
fn str_ends_with(v: &String, p: &String) -> (r: bool)
    ensures
        r == ends_with(v@, p@),
{
    let vlen = v.as_str().unicode_len();
    let plen = p.as_str().unicode_len();
    if plen > vlen {
        return false;
    }
    let off = vlen - plen;
    let mut i: usize = 0;
    while i < plen
        invariant
            0 <= i <= plen,
            plen <= vlen,
            vlen == v@.len(),
            plen == p@.len(),
            off == vlen - plen,
            forall|j: int| 0 <= j < i ==> v@[off + j] == p@[j],
        decreases plen - i,
    {
        if v.as_str().get_char(off + i) != p.as_str().get_char(i) {
            proof {
                assert(v@.subrange(v@.len() - p@.len(), v@.len() as int)[i as int] != p@[i as int]);
            }
            return false;
        }
        i = i + 1;
    }
    proof {
        assert(v@.subrange(v@.len() - p@.len(), v@.len() as int) =~= p@);
    }
    true
}

/// `s` with every wildcard character removed.
fn strip_stars_exec(s: &String) -> (r: String)
    ensures
        r@ == strip_stars(s@),
{
    let len = s.as_str().unicode_len();
    let mut r = String::new();
    let mut i: usize = 0;
    while i < len
        invariant
            0 <= i <= len,
            len == s@.len(),
            r@ == strip_stars(s@.take(i as int)),
        decreases len - i,
    {
        let c = s.as_str().get_char(i);
        proof {
            assert(s@.take(i + 1).drop_last() =~= s@.take(i as int));
            assert(s@.take(i + 1).last() == s@[i as int]);
        }
        if c != '*' {
            let piece = s.as_str().substring_char(i, i + 1);
            r.append(piece);
            proof {
                assert(piece@ =~= seq![c]);
                assert(r@ =~= strip_stars(s@.take(i + 1)));
            }
        }
        i = i + 1;
    }
    proof {
        assert(s@.take(len as int) =~= s@);
    }
    r
}

/// Whether `val` matches the pattern; a pattern whose wildcard is neither
/// first nor last is refused.
pub fn pattern_pred(val: &String, pat: &String) -> (r: Result<bool, FilterError>)
    ensures
        pattern_wf(pat@) ==> (r matches Ok(b) && b == pattern_matches(val@, pat@)),
        !pattern_wf(pat@) ==> r == Err::<bool, FilterError>(FilterError::BadFilter),
{
    let len = pat.as_str().unicode_len();
    if len > 0 && pat.as_str().get_char(0) == '*' {
        let stripped = strip_stars_exec(pat);
        Ok(str_ends_with(val, &stripped))
    } else if len > 0 && pat.as_str().get_char(len - 1) == '*' {
        let stripped = strip_stars_exec(pat);
        Ok(str_starts_with(val, &stripped))
    } else {
        Err(FilterError::BadFilter)
    }
}

/// The paths a pattern scan of one listed path contributes: one copy per
/// matching pattern, in pattern order.
pub open spec fn pushes_for(path: Seq<char>, pats: Seq<Seq<char>>) -> Seq<Seq<char>>
    decreases pats.len(),
{
    if pats.len() == 0 {
        Seq::empty()
    } else {
        pushes_for(path, pats.drop_last()) + if pattern_matches(
            file_name_of(path),
            pats.last(),
        ) {
            seq![path]
        } else {
            Seq::empty()
        }
    }
}

/// The paths a pattern scan of a whole listing yields, in listing order.
pub open spec fn get_dirs_spec(listing: Seq<Seq<char>>, pats: Seq<Seq<char>>) -> Seq<Seq<char>>
    decreases listing.len(),
{
    if listing.len() == 0 {
        Seq::empty()
    } else {
        get_dirs_spec(listing.drop_last(), pats) + pushes_for(listing.last(), pats)
    }
}

/// What a pattern scan of a listing returns: the matching paths, a refusal
/// if a pattern is unusable, or a miss when nothing matches.
pub open spec fn get_dirs_result(listing: Seq<Seq<char>>, pats: Seq<Seq<char>>) -> Result<
    Seq<Seq<char>>,
    FilterError,
> {
    if listing.len() > 0 && !patterns_wf(pats) {
        Err(FilterError::BadFilter)
    } else if get_dirs_spec(listing, pats).len() == 0 {
        Err(FilterError::NoneFound)
    } else {
        Ok(get_dirs_spec(listing, pats))
    }
}

/// Scan a directory listing for paths whose final component matches one of
/// the patterns; a path matching several patterns is reported once per
/// match.
pub fn get_dirs(read_dir: &Vec<String>, file_patterns: &Vec<String>) -> (r: Result<
    Vec<String>,
    FilterError,
>)
    ensures
        match get_dirs_result(
            read_dir@.map_values(|p: String| p@),
            file_patterns@.map_values(|p: String| p@),
        ) {
            Ok(v) => (r matches Ok(rv) && rv@.map_values(|p: String| p@) == v),
            Err(e) => r == Err::<Vec<String>, FilterError>(e),
        },
{
    let ghost listing = read_dir@.map_values(|p: String| p@);
    let ghost pats = file_patterns@.map_values(|p: String| p@);
    let mut to_ret: Vec<String> = Vec::new();
    let n = read_dir.len();
    let mut i: usize = 0;
    while i < n
        invariant
            0 <= i <= n,
            n == read_dir@.len(),
            listing == read_dir@.map_values(|p: String| p@),
            pats == file_patterns@.map_values(|p: String| p@),
            to_ret@.map_values(|p: String| p@) == get_dirs_spec(listing.take(i as int), pats),
            i > 0 ==> patterns_wf(pats),
        decreases n - i,
    {
        let dir_path = &read_dir[i];
        let name = file_name(dir_path);
        let m = file_patterns.len();
        proof {
            assert(pats.take(0) =~= Seq::<Seq<char>>::empty());
            assert(to_ret@.map_values(|p: String| p@) =~= get_dirs_spec(
                listing.take(i as int),
                pats,
            ) + pushes_for(dir_path@, pats.take(0)));
        }
        let mut j: usize = 0;
        while j < m
            invariant
                0 <= j <= m,
                0 <= i < n,
                n == read_dir@.len(),
                m == file_patterns@.len(),
                listing == read_dir@.map_values(|p: String| p@),
                pats == file_patterns@.map_values(|p: String| p@),
                dir_path == &read_dir@[i as int],
                name@ == file_name_of(dir_path@),
                to_ret@.map_values(|p: String| p@) == get_dirs_spec(listing.take(i as int), pats)
                    + pushes_for(dir_path@, pats.take(j as int)),
                forall|k: int| 0 <= k < j ==> pattern_wf(#[trigger] pats[k]),
            decreases m - j,
        {
            proof {
                assert(pats.take(j + 1).drop_last() =~= pats.take(j as int));
                assert(pats.take(j + 1).last() == pats[j as int]);
                assert(pats[j as int] == file_patterns@[j as int]@);
            }
            match pattern_pred(&name, &file_patterns[j]) {
                Ok(true) => {
                    let ghost before_map = to_ret@.map_values(|p: String| p@);
                    to_ret.push(dir_path.clone());
                    proof {
                        assert(pattern_matches(file_name_of(dir_path@), pats.take(j + 1).last()));
                        assert(pushes_for(dir_path@, pats.take(j + 1)) =~= pushes_for(
                            dir_path@,
                            pats.take(j as int),
                        ) + seq![dir_path@]);
                        assert(to_ret@.map_values(|p: String| p@) =~= before_map.push(dir_path@));
                        assert(to_ret@.map_values(|p: String| p@) =~= get_dirs_spec(
                            listing.take(i as int),
                            pats,
                        ) + pushes_for(dir_path@, pats.take(j + 1)));
                    }
                },
                Ok(false) => {
                    proof {
                        assert(to_ret@.map_values(|p: String| p@) =~= get_dirs_spec(
                            listing.take(i as int),
                            pats,
                        ) + pushes_for(dir_path@, pats.take(j + 1)));
                    }
                },
                Err(err) => {
                    proof {
                        assert(!pattern_wf(pats[j as int]));
                        assert(listing.len() > 0);
                    }
                    return Err(err);
                },
            }
            j = j + 1;
        }
        proof {
            assert(pats.take(m as int) =~= pats);
            assert(listing.take(i + 1).drop_last() =~= listing.take(i as int));
            assert(listing.take(i + 1).last() == listing[i as int]);
            assert(to_ret@.map_values(|p: String| p@) =~= get_dirs_spec(listing.take(i + 1), pats));
        }
        i = i + 1;
    }
    proof {
        assert(listing.take(n as int) =~= listing);
    }

    if to_ret.is_empty() {
        Err(FilterError::NoneFound)
    } else {
        Ok(to_ret)
    }
}

/// The filter targets whose name is exactly the host's.
pub open spec fn matching_targets(ts: Seq<TargetModel>, h: Seq<char>) -> Seq<TargetModel>
    decreases ts.len(),
{
    if ts.len() == 0 {
        Seq::empty()
    } else {
        matching_targets(ts.drop_last(), h) + if ts.last().name == h {
            seq![ts.last()]
        } else {
            Seq::empty()
        }
    }
}

/// Select the directories of the under tree that the host's (unique)
/// filter target names.
pub fn hostname_filter(
    read_under: &Vec<String>,
    to_filter: &Vec<Target>,
    hostname: &String,
) -> (r: Result<Vec<String>, FilterError>)
    ensures
        matching_targets(to_filter@.map_values(|t: Target| t@), hostname@).len() != 1 ==> r == Err::<
            Vec<String>,
            FilterError,
        >(FilterError::HostMatch),
        matching_targets(to_filter@.map_values(|t: Target| t@), hostname@).len() == 1 ==> match get_dirs_result(
            read_under@.map_values(|p: String| p@),
            matching_targets(to_filter@.map_values(|t: Target| t@), hostname@)[0].file_patterns,
        ) {
            Ok(v) => (r matches Ok(rv) && rv@.map_values(|p: String| p@) == v),
            Err(e) => r == Err::<Vec<String>, FilterError>(e),
        },
{
    let ghost tms = to_filter@.map_values(|t: Target| t@);
    let mut found: Option<&Target> = None;
    let mut count: usize = 0;
    let n = to_filter.len();
    let mut i: usize = 0;
    while i < n
        invariant
            0 <= i <= n,
            n == to_filter@.len(),
            tms == to_filter@.map_values(|t: Target| t@),
            count <= i,
            count == matching_targets(tms.take(i as int), hostname@).len(),
            count >= 1 ==> (found matches Some(t) && t@ == matching_targets(
                tms.take(i as int),
                hostname@,
            )[0]),
            count == 0 ==> found is None,
        decreases n - i,
    {
        proof {
            assert(tms.take(i + 1).drop_last() =~= tms.take(i as int));
            assert(tms.take(i + 1).last() == tms[i as int]);
        }
        if to_filter[i].name == *hostname {
            if count == 0 {
                found = Some(&to_filter[i]);
            }
            count = count + 1;
        }
        i = i + 1;
    }
    proof {
        assert(tms.take(n as int) =~= tms);
    }

    if count != 1 {
        return Err(FilterError::HostMatch);
    }

    let target = match found {
        Some(t) => t,
        None => {
            proof {
                assert(false);
            }
            return Err(FilterError::HostMatch);
        },
    };

    get_dirs(read_under, &target.file_patterns)
}

/// Select the target directories for this run: list the under tree and
/// filter it by the host's patterns.  Only hostname filtering exists.
pub fn filter_target_dirs(fs: &FsState, under_dir: &String, conf: &Conf, hostname: &String) -> (r:
    Result<Vec<String>, FilterError>)
    requires
        conf.filter_type is Hostname,
    ensures
        matching_targets(conf@.to_filter, hostname@).len() != 1 ==> r == Err::<
            Vec<String>,
            FilterError,
        >(FilterError::HostMatch),
        matching_targets(conf@.to_filter, hostname@).len() == 1 ==> match get_dirs_result(
            children_of(fs.key_seq(), under_dir@),
            matching_targets(conf@.to_filter, hostname@)[0].file_patterns,
        ) {
            Ok(v) => (r matches Ok(rv) && rv@.map_values(|p: String| p@) == v),
            Err(e) => r == Err::<Vec<String>, FilterError>(e),
        },
{
    match conf.filter_type {
        FilterType::Keyfile => {
            proof {
                assert(false);
            }
            Err(FilterError::HostMatch)
        },
        FilterType::Hostname => {
            let read_under = fs.list_dir(under_dir);
            hostname_filter(&read_under, &conf.to_filter, hostname)
        },
    }
}

} // verus!
