//! Small path- and string-building helpers shared by the walker, the
//! executor and the configuration resolver.

use vstd::prelude::*;
use vstd::string::StrSliceExecFns;
use vstd::string::StringExecFns;

use crate::fs_model::FsState;

verus! {

/// A child path: `dir`, a separator, and the entry's name.
pub open spec fn join_path(dir: Seq<char>, name: Seq<char>) -> Seq<char> {
    dir + "/"@ + name
}

/// `s` with every double-quote character removed.
pub open spec fn strip_quotes(s: Seq<char>) -> Seq<char>
    decreases s.len(),
{
    if s.len() == 0 {
        Seq::empty()
    } else if s.last() == '"' {
        strip_quotes(s.drop_last())
    } else {
        strip_quotes(s.drop_last()).push(s.last())
    }
}

/// The path denoted by a list of components: components joined by a
/// separator, each with its double quotes stripped.
pub open spec fn path_of(parts: Seq<Seq<char>>) -> Seq<char>
    decreases parts.len(),
{
    if parts.len() == 0 {
        Seq::empty()
    } else if parts.len() == 1 {
        strip_quotes(parts[0])
    } else {
        path_of(parts.drop_last()) + "/"@ + strip_quotes(parts.last())
    }
}

/// Lines joined by a newline, with no trailing newline.
pub open spec fn join_with_nl(lines: Seq<Seq<char>>) -> Seq<char>
    decreases lines.len(),
{
    if lines.len() == 0 {
        Seq::empty()
    } else if lines.len() == 1 {
        lines[0]
    } else {
        join_with_nl(lines.drop_last()) + "\n"@ + lines.last()
    }
}

/// Append one path component to a directory path.
pub fn path_join(dir: &String, name: &String) -> (r: String)
    ensures
        r@ == join_path(dir@, name@),
{
    let mut r = dir.clone();
    r.append("/");
    r.append(name.as_str());
    r
}

/// Make a path joining the components, stripping stray double quotes that a
/// quoted configuration value may carry.
pub fn str_to_path(to_add_collection: &Vec<String>) -> (r: String)
    ensures
        r@ == path_of(to_add_collection@.map_values(|p: String| p@)),
{
    let ghost parts = to_add_collection@.map_values(|p: String| p@);
    let mut path_accu = String::new();
    let n = to_add_collection.len();
    let mut i: usize = 0;
    while i < n
        invariant
            0 <= i <= n,
            n == to_add_collection@.len(),
            parts == to_add_collection@.map_values(|p: String| p@),
            path_accu@ == path_of(parts.take(i as int)),
        decreases n - i,
    {
        if i > 0 {
            path_accu.append("/");
        }
        let to_add = &to_add_collection[i];
        let len = to_add.as_str().unicode_len();
        let mut j: usize = 0;
        while j < len
            invariant
                0 <= j <= len,
                len == to_add@.len(),
                i < n,
                n == to_add_collection@.len(),
                parts == to_add_collection@.map_values(|p: String| p@),
                to_add == &to_add_collection[i as int],
                path_accu@ == if i == 0 {
                    strip_quotes(to_add@.take(j as int))
                } else {
                    path_of(parts.take(i as int)) + "/"@ + strip_quotes(to_add@.take(j as int))
                },
            decreases len - j,
        {
            let c = to_add.as_str().get_char(j);
            proof {
                assert(to_add@.take(j + 1).drop_last() =~= to_add@.take(j as int));
                assert(to_add@.take(j + 1).last() == to_add@[j as int]);
            }
            if c != '"' {
                let piece = to_add.as_str().substring_char(j, j + 1);
                path_accu.append(piece);
                proof {
                    assert(piece@ =~= seq![c]);
                    assert(strip_quotes(to_add@.take(j + 1)) =~= strip_quotes(
                        to_add@.take(j as int),
                    ).push(c));
                    assert(path_accu@ =~= if i == 0 {
                        strip_quotes(to_add@.take(j + 1))
                    } else {
                        path_of(parts.take(i as int)) + "/"@ + strip_quotes(to_add@.take(j + 1))
                    });
                }
            } else {
                proof {
                    assert(strip_quotes(to_add@.take(j + 1)) == strip_quotes(to_add@.take(j as int)));
                }
            }
            j = j + 1;
        }
        proof {
            assert(to_add@.take(len as int) =~= to_add@);
            assert(parts.take(i + 1).drop_last() =~= parts.take(i as int));
            assert(parts.take(i + 1).last() == to_add@);
        }
        i = i + 1;
    }
    proof {
        assert(parts.take(n as int) =~= parts);
    }
    path_accu
}

/// Sanity-check a path against the recorded filesystem: known paths come
/// back (they are stored canonical), unknown ones do not.
pub fn check_path(fs: &FsState, path: String) -> (r: Option<String>)
    ensures
        fs@.contains_key(path@) ==> (r matches Some(p) && p@ == path@),
        !fs@.contains_key(path@) ==> r is None,
{
    if fs.lookup(&path).is_some() {
        Some(path)
    } else {
        None
    }
}

/// Build a path from components, then check it against the filesystem.
pub fn make_then_check_path(fs: &FsState, strs_to_add: &Vec<String>) -> (r: Option<String>)
    ensures
        fs@.contains_key(path_of(strs_to_add@.map_values(|p: String| p@))) ==> (r matches Some(p)
            && p@ == path_of(strs_to_add@.map_values(|p: String| p@))),
        !fs@.contains_key(path_of(strs_to_add@.map_values(|p: String| p@))) ==> r is None,
{
    let maybe_path = str_to_path(strs_to_add);
    check_path(fs, maybe_path)
}

/// The final component of a path: what follows the last separator, or the
/// whole path when it has none.
pub open spec fn file_name_of(p: Seq<char>) -> Seq<char>
    decreases p.len(),
{
    if p.len() == 0 {
        Seq::empty()
    } else if p.last() == '/' {
        Seq::empty()
    } else {
        file_name_of(p.drop_last()).push(p.last())
    }
}

/// The suffix after the last separator is the file name.
proof fn lemma_file_name_suffix(p: Seq<char>, k: int)
    requires
        0 <= k < p.len(),
        p[k] == '/',
        forall|j: int| k < j < p.len() ==> p[j] != '/',
    ensures
        file_name_of(p) == p.subrange(k + 1, p.len() as int),
    decreases p.len(),
{
    if k == p.len() - 1 {
        assert(p.last() == '/');
        assert(file_name_of(p) =~= p.subrange(k + 1, p.len() as int));
    } else {
        lemma_file_name_suffix(p.drop_last(), k);
        assert(p.drop_last().subrange(k + 1, p.drop_last().len() as int) =~= p.subrange(
            k + 1,
            p.len() - 1,
        ));
        assert(file_name_of(p) =~= p.subrange(k + 1, p.len() as int));
    }
}

/// A path with no separator is its own file name.
proof fn lemma_file_name_plain(p: Seq<char>)
    requires
        forall|j: int| 0 <= j < p.len() ==> p[j] != '/',
    ensures
        file_name_of(p) == p,
    decreases p.len(),
{
    if p.len() > 0 {
        lemma_file_name_plain(p.drop_last());
        assert(file_name_of(p) =~= p);
    } else {
        assert(file_name_of(p) =~= p);
    }
}

/// The final component of a path.
pub fn file_name(p: &String) -> (r: String)
    ensures
        r@ == file_name_of(p@),
{
    let len = p.as_str().unicode_len();
    let mut k: usize = len;
    while k > 0
        invariant
            0 <= k <= len,
            len == p@.len(),
            forall|j: int| k <= j < len ==> p@[j] != '/',
        decreases k,
    {
        if p.as_str().get_char(k - 1) == '/' {
            let r = p.as_str().substring_char(k, len).to_owned();
            proof {
                lemma_file_name_suffix(p@, k - 1);
            }
            return r;
        }
        k = k - 1;
    }
    let r = p.as_str().substring_char(0, len).to_owned();
    proof {
        lemma_file_name_plain(p@);
        assert(p@.subrange(0, len as int) =~= p@);
    }
    r
}

/// Whether a string holds exactly the given text.
pub fn string_eq_lit(s: &String, lit: &str) -> (r: bool)
    ensures
        r == (s@ == lit@),
{
    let owned: String = lit.to_owned();
    *s == owned
}

/// One line per item, each prefixed by the message, newline separated.
pub fn vec_to_string(message: &str, vec_to_join: &Vec<String>) -> (r: String)
    ensures
        r@ == join_with_nl(vec_to_join@.map_values(|s: String| message@ + " "@ + s@)),
{
    let ghost lines = vec_to_join@.map_values(|s: String| message@ + " "@ + s@);
    let mut r = String::new();
    let n = vec_to_join.len();
    let mut i: usize = 0;
    while i < n
        invariant
            0 <= i <= n,
            n == vec_to_join@.len(),
            lines == vec_to_join@.map_values(|s: String| message@ + " "@ + s@),
            r@ == join_with_nl(lines.take(i as int)),
        decreases n - i,
    {
        if i > 0 {
            r.append("\n");
        }
        r.append(message);
        r.append(" ");
        r.append(vec_to_join[i].as_str());
        proof {
            assert(lines.take(i + 1).drop_last() =~= lines.take(i as int));
            assert(lines.take(i + 1).last() == lines[i as int]);
            assert(r@ =~= join_with_nl(lines.take(i + 1)));
        }
        i = i + 1;
    }
    proof {
        assert(lines.take(n as int) =~= lines);
    }
    r
}

} // verus!
