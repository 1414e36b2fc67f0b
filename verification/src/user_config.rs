//! The resolved user configuration.
//!
//! The configuration file is a small document of named tables holding
//! string and string-list values.  The surrounding binary parses the file
//! and hands the document over in that plain shape; this module holds the
//! verified rules that turn a document into a [`Conf`] — which keys are
//! required, which have defaults, and which documents are rejected.

use vstd::prelude::*;

use crate::auto_filters::FilterType;
use crate::my_utils::string_eq_lit;

verus! {

/// One configuration value: a string, a list of strings, or something the
/// rules below have no use for.
pub enum RawValue {
    Str(String),
    StrArr(Vec<String>),
    Other,
}

/// One named table of the configuration document.
pub struct RawTable {
    pub name: String,
    pub entries: Vec<(String, RawValue)>,
}

/// A parsed configuration document: its top-level tables, in document
/// order.
pub struct RawDoc {
    pub tables: Vec<RawTable>,
}

/// One host's filter rules: the host name and the directory-name patterns
/// selected for it.
pub struct Target {
    pub name: String,
    pub file_patterns: Vec<String>,
}

/// Mathematical image of a [`Target`].
pub struct TargetModel {
    pub name: Seq<char>,
    pub file_patterns: Seq<Seq<char>>,
}

impl View for Target {
    type V = TargetModel;

    open spec fn view(&self) -> TargetModel {
        TargetModel {
            name: self.name@,
            file_patterns: self.file_patterns@.map_values(|p: String| p@),
        }
    }
}

/// The resolved configuration.
pub struct Conf {
    pub under_dir: String,
    pub upper_dir: String,
    pub filter_type: FilterType,
    pub to_filter: Vec<Target>,
    pub git_url: Option<String>,
}

/// Why a configuration document was rejected.
#[derive(Clone, Copy, PartialEq, Eq, Structural, Debug)]
pub enum ConfError {
    /// No `base_vars` table.
    NeedBaseVars,
    /// No `base` value and no home directory to fall back on.
    NoHome,
    /// No `under_dir` value.
    NeedUnderDir,
    /// A `file_patterns` value that is not a list of strings.
    BadPatterns,
    /// No table carries `file_patterns` at all.
    NoFilters,
}

/// The first value bound to `key` in an entry list, scanning from `i`.
pub open spec fn table_get_from(
    entries: Seq<(String, RawValue)>,
    key: Seq<char>,
    i: int,
) -> Option<RawValue>
    decreases entries.len() - i,
{
    if i < 0 || i >= entries.len() {
        None
    } else if entries[i].0@ == key {
        Some(entries[i].1)
    } else {
        table_get_from(entries, key, i + 1)
    }
}

/// The first value bound to `key` in a table.
pub open spec fn table_get(entries: Seq<(String, RawValue)>, key: Seq<char>) -> Option<RawValue> {
    table_get_from(entries, key, 0)
}

/// The first table named `name`, scanning from `i`.
pub open spec fn doc_table_from(tables: Seq<RawTable>, name: Seq<char>, i: int) -> Option<RawTable>
    decreases tables.len() - i,
{
    if i < 0 || i >= tables.len() {
        None
    } else if tables[i].name@ == name {
        Some(tables[i])
    } else {
        doc_table_from(tables, name, i + 1)
    }
}

/// The first table named `name` in the document.
pub open spec fn doc_table(tables: Seq<RawTable>, name: Seq<char>) -> Option<RawTable> {
    doc_table_from(tables, name, 0)
}

/// A string value bound to `key`, if there is one.
pub open spec fn table_get_str(entries: Seq<(String, RawValue)>, key: Seq<char>) -> Option<
    Seq<char>,
> {
    match table_get(entries, key) {
        Some(RawValue::Str(s)) => Some(s@),
        _ => None,
    }
}

/// Every `file_patterns` value in the document is a list of strings.
pub open spec fn patterns_ok(tables: Seq<RawTable>) -> bool {
    forall|i: int|
        0 <= i < tables.len() ==> match table_get(
            (#[trigger] tables[i]).entries@,
            "file_patterns"@,
        ) {
            Some(v) => v is StrArr,
            None => true,
        }
}

/// The filter targets the document defines: one per table carrying
/// `file_patterns`, in document order.
pub open spec fn targets_of(tables: Seq<RawTable>) -> Seq<TargetModel>
    decreases tables.len(),
{
    if tables.len() == 0 {
        Seq::empty()
    } else {
        let front = targets_of(tables.drop_last());
        match table_get(tables.last().entries@, "file_patterns"@) {
            Some(RawValue::StrArr(v)) => front.push(
                TargetModel {
                    name: tables.last().name@,
                    file_patterns: v@.map_values(|p: String| p@),
                },
            ),
            _ => front,
        }
    }
}

/// The filter type the document selects: hostname filtering only where the
/// `filter_rules` table says so.
pub open spec fn filter_type_of(tables: Seq<RawTable>) -> FilterType {
    match doc_table(tables, "filter_rules"@) {
        Some(t) => match table_get_str(t.entries@, "filter_type"@) {
            Some(s) => if s == "hostname"@ {
                FilterType::Hostname
            } else {
                FilterType::Keyfile
            },
            None => FilterType::Keyfile,
        },
        None => FilterType::Keyfile,
    }
}

/// What `Conf::new` resolves a document to, or why it rejects it.
pub open spec fn spec_conf(tables: Seq<RawTable>, home: Option<Seq<char>>) -> Result<
    crate::user_config::ConfModel,
    ConfError,
> {
    match doc_table(tables, "base_vars"@) {
        None => Err(ConfError::NeedBaseVars),
        Some(base_vars) => {
            let base = match table_get_str(base_vars.entries@, "base"@) {
                Some(b) => Some(b),
                None => home,
            };
            match base {
                None => Err(ConfError::NoHome),
                Some(base_dir) => {
                    let upper = match table_get_str(base_vars.entries@, "upper_dir"@) {
                        Some(u) => u,
                        None => base_dir,
                    };
                    match table_get_str(base_vars.entries@, "under_dir"@) {
                        None => Err(ConfError::NeedUnderDir),
                        Some(under) => if !patterns_ok(tables) {
                            Err(ConfError::BadPatterns)
                        } else if targets_of(tables).len() == 0 {
                            Err(ConfError::NoFilters)
                        } else {
                            Ok(
                                ConfModel {
                                    under_dir: under,
                                    upper_dir: upper,
                                    filter_type: filter_type_of(tables),
                                    to_filter: targets_of(tables),
                                    git_url: table_get_str(base_vars.entries@, "git_url"@),
                                },
                            )
                        },
                    }
                },
            }
        },
    }
}

/// Mathematical image of a [`Conf`].
pub struct ConfModel {
    pub under_dir: Seq<char>,
    pub upper_dir: Seq<char>,
    pub filter_type: FilterType,
    pub to_filter: Seq<TargetModel>,
    pub git_url: Option<Seq<char>>,
}

impl View for Conf {
    type V = ConfModel;

    open spec fn view(&self) -> ConfModel {
        ConfModel {
            under_dir: self.under_dir@,
            upper_dir: self.upper_dir@,
            filter_type: self.filter_type,
            to_filter: self.to_filter@.map_values(|t: Target| t@),
            git_url: match self.git_url {
                Some(ref u) => Some(u@),
                None => None,
            },
        }
    }
}

/// Look a key up in a table's entries.
fn entries_get<'a>(entries: &'a Vec<(String, RawValue)>, key: &str) -> (r: Option<&'a RawValue>)
    ensures
        match table_get(entries@, key@) {
            Some(v) => (r matches Some(rv) && *rv == v),
            None => r is None,
        },
{
    let n = entries.len();
    let mut i: usize = 0;
    while i < n
        invariant
            0 <= i <= n,
            n == entries@.len(),
            table_get(entries@, key@) == table_get_from(entries@, key@, i as int),
        decreases n - i,
    {
        if string_eq_lit(&entries[i].0, key) {
            return Some(&entries[i].1);
        }
        i = i + 1;
    }
    None
}

/// Look a string value up in a table's entries.
fn entries_get_str<'a>(entries: &'a Vec<(String, RawValue)>, key: &str) -> (r: Option<&'a String>)
    ensures
        match table_get_str(entries@, key@) {
            Some(v) => (r matches Some(s) && s@ == v),
            None => r is None,
        },
{
    match entries_get(entries, key) {
        Some(RawValue::Str(s)) => Some(s),
        _ => None,
    }
}

/// Find a top-level table by name.
fn doc_get_table<'a>(tables: &'a Vec<RawTable>, name: &str) -> (r: Option<&'a RawTable>)
    ensures
        match doc_table(tables@, name@) {
            Some(t) => (r matches Some(rt) && *rt == t),
            None => r is None,
        },
{
    let n = tables.len();
    let mut i: usize = 0;
    while i < n
        invariant
            0 <= i <= n,
            n == tables@.len(),
            doc_table(tables@, name@) == doc_table_from(tables@, name@, i as int),
        decreases n - i,
    {
        if string_eq_lit(&tables[i].name, name) {
            return Some(&tables[i]);
        }
        i = i + 1;
    }
    None
}

impl Conf {
    /// Resolve a configuration document: `base_vars` must exist; `base`
    /// falls back to the home directory, `upper_dir` to `base`;
    /// `under_dir` is required; every table carrying `file_patterns`
    /// becomes a filter target, and at least one must.  A value of the
    /// wrong shape counts as absent, except `file_patterns`, which is
    /// rejected outright.
    #[verifier::loop_isolation(false)]
    pub fn new(doc: &RawDoc, home: Option<&String>) -> (r: Result<Conf, ConfError>)
        ensures
            match spec_conf(
                doc.tables@,
                match home {
                    Some(h) => Some(h@),
                    None => None,
                },
            ) {
                Ok(m) => (r matches Ok(c) && c@ == m),
                Err(e) => (r matches Err(re) && re == e),
            },
    {
        let base_vars = match doc_get_table(&doc.tables, "base_vars") {
            Some(t) => t,
            None => {
                return Err(ConfError::NeedBaseVars);
            },
        };

        let base_dir: String = match entries_get_str(&base_vars.entries, "base") {
            Some(b) => b.clone(),
            None => match home {
                Some(h) => h.clone(),
                None => {
                    return Err(ConfError::NoHome);
                },
            },
        };

        let upper_dir: String = match entries_get_str(&base_vars.entries, "upper_dir") {
            Some(u) => u.clone(),
            None => base_dir,
        };

        let under_dir: String = match entries_get_str(&base_vars.entries, "under_dir") {
            Some(u) => u.clone(),
            None => {
                return Err(ConfError::NeedUnderDir);
            },
        };

        let git_url: Option<String> = match entries_get_str(&base_vars.entries, "git_url") {
            Some(u) => Some(u.clone()),
            None => None,
        };

        let filter_type = match doc_get_table(&doc.tables, "filter_rules") {
            Some(rules) => match entries_get_str(&rules.entries, "filter_type") {
                Some(val) => if string_eq_lit(val, "hostname") {
                    FilterType::Hostname
                } else {
                    FilterType::Keyfile
                },
                None => FilterType::Keyfile,
            },
            None => FilterType::Keyfile,
        };

        let mut to_filter: Vec<Target> = Vec::new();
        let n = doc.tables.len();
        let mut i: usize = 0;
        while i < n
            invariant
                0 <= i <= n,
                n == doc.tables@.len(),
                patterns_ok(doc.tables@.take(i as int)),
                to_filter@.map_values(|t: Target| t@) == targets_of(doc.tables@.take(i as int)),
            decreases n - i,
        {
            let table = &doc.tables[i];
            proof {
                assert(doc.tables@.take(i + 1).drop_last() =~= doc.tables@.take(i as int));
                assert(doc.tables@.take(i + 1).last() == doc.tables@[i as int]);
            }
            match entries_get(&table.entries, "file_patterns") {
                Some(RawValue::StrArr(v)) => {
                    let target = Target { name: table.name.clone(), file_patterns: v.clone() };
                    proof {
                        assert(target@ == (TargetModel {
                            name: table.name@,
                            file_patterns: v@.map_values(|p: String| p@),
                        }));
                    }
                    to_filter.push(target);
                    proof {
                        assert(to_filter@.map_values(|t: Target| t@) =~= targets_of(
                            doc.tables@.take(i + 1),
                        ));
                    }
                },
                Some(_) => {
                    proof {
                        assert(match table_get(doc.tables@[i as int].entries@, "file_patterns"@) {
                            Some(v) => !(v is StrArr),
                            None => false,
                        });
                        assert(!patterns_ok(doc.tables@));
                    }
                    return Err(ConfError::BadPatterns);
                },
                None => {
                    proof {
                        assert(to_filter@.map_values(|t: Target| t@) =~= targets_of(
                            doc.tables@.take(i + 1),
                        ));
                    }
                },
            }
            proof {
                assert forall|j: int| 0 <= j < i + 1 implies match table_get(
                    (#[trigger] doc.tables@.take(i + 1)[j]).entries@,
                    "file_patterns"@,
                ) {
                    Some(v) => v is StrArr,
                    None => true,
                } by {
                    if j < i {
                        assert(doc.tables@.take(i + 1)[j] == doc.tables@.take(i as int)[j]);
                    }
                }
            }
            i = i + 1;
        }
        proof {
            assert(doc.tables@.take(n as int) =~= doc.tables@);
        }

        if to_filter.is_empty() {
            proof {
                assert(targets_of(doc.tables@).len() == to_filter@.map_values(
                    |t: Target| t@,
                ).len());
            }
            return Err(ConfError::NoFilters);
        }

        Ok(Conf { filter_type, upper_dir, under_dir, to_filter, git_url })
    }
}

} // verus!
