//! The package records that the listings hold, and the text filter over them.
use vstd::prelude::*;

use crate::text::{chars_of, contains_chars, has_infix, lower_of, lowercase};

verus! {

/// Where a package comes from.
#[derive(Debug, Clone, Copy, PartialEq, Eq, Structural)]
pub enum PackageSource {
    Pacman,
    Aur,
}

/// The label shown after a package's name for its source.
pub open spec fn source_label_of(s: PackageSource) -> Seq<char> {
    match s {
        PackageSource::Pacman => ""@,
        PackageSource::Aur => " (AUR)"@,
    }
}

/// An available update.
#[derive(Debug, Clone)]
pub struct Package {
    pub name: String,
    pub old_version: String,
    pub new_version: String,
    pub source: PackageSource,
    pub selected: bool,
}

impl Package {
    /// This update with its selection flag set to `v`.
    pub open spec fn with_selected(self, v: bool) -> Self {
        Package { selected: v, ..self }
    }

    /// An update, not selected.
    pub fn new(name: String, old_version: String, new_version: String, source: PackageSource) -> (r:
        Self)
        ensures
            r.name == name,
            r.old_version == old_version,
            r.new_version == new_version,
            r.source == source,
            !r.selected,
    {
        Package { name, old_version, new_version, source, selected: false }
    }

    /// The label shown after the name: empty for the official repositories,
    /// " (AUR)" for the AUR.
    pub fn source_label(&self) -> (r: &'static str)
        ensures
            r@ == source_label_of(self.source),
    {
        match self.source {
            PackageSource::Pacman => "",
            PackageSource::Aur => " (AUR)",
        }
    }
}

/// An explicitly installed or an orphaned package.
#[derive(Debug, Clone)]
pub struct InstalledPackage {
    pub name: String,
    pub version: String,
    pub source: PackageSource,
    pub selected: bool,
}

impl InstalledPackage {
    /// This package with its selection flag set to `v`.
    pub open spec fn with_selected(self, v: bool) -> Self {
        InstalledPackage { selected: v, ..self }
    }

    /// An installed package, not selected.
    pub fn new(name: String, version: String, source: PackageSource) -> (r: Self)
        ensures
            r.name == name,
            r.version == version,
            r.source == source,
            !r.selected,
    {
        InstalledPackage { name, version, source, selected: false }
    }

    /// The label shown after the name: empty for the official repositories,
    /// " (AUR)" for the AUR.
    pub fn source_label(&self) -> (r: &'static str)
        ensures
            r@ == source_label_of(self.source),
    {
        match self.source {
            PackageSource::Pacman => "",
            PackageSource::Aur => " (AUR)",
        }
    }
}

/// One package found by a search.
#[derive(Debug, Clone)]
pub struct SearchResult {
    pub name: String,
    pub version: String,
    pub description: String,
    pub repository: String,
    pub installed: bool,
    pub selected: bool,
}

impl SearchResult {
    /// This result with its selection flag set to `v`.
    pub open spec fn with_selected(self, v: bool) -> Self {
        SearchResult { selected: v, ..self }
    }
}

/// A record that a text filter matches by its name.
pub trait Filterable {
    /// The name that the filter reads.
    spec fn label(&self) -> Seq<char>;

    fn name(&self) -> (r: &str)
        ensures
            r@ == self.label(),
    ;
}

impl Filterable for Package {
    open spec fn label(&self) -> Seq<char> {
        self.name@
    }

    fn name(&self) -> (r: &str) {
        self.name.as_str()
    }
}

impl Filterable for InstalledPackage {
    open spec fn label(&self) -> Seq<char> {
        self.name@
    }

    fn name(&self) -> (r: &str) {
        self.name.as_str()
    }
}

/// A record named `name` is shown under the filter `query`: the query is
/// empty, or its lowercase form occurs in the name's.
pub open spec fn shown(name: Seq<char>, query: Seq<char>) -> bool {
    query.len() == 0 || has_infix(lower_of(name), lower_of(query))
}

/// The indices of the records named in `names` that the filter `query` shows,
/// in order.
pub open spec fn visible_indices(names: Seq<Seq<char>>, query: Seq<char>) -> Seq<int>
    decreases names.len(),
{
    if names.len() == 0 {
        Seq::empty()
    } else {
        let prev = visible_indices(names.drop_last(), query);
        if shown(names.last(), query) {
            prev.push(names.len() - 1)
        } else {
            prev
        }
    }
}

/// The names of `items`.
pub open spec fn labels<T: Filterable>(items: Seq<T>) -> Seq<Seq<char>> {
    items.map_values(|t: T| t.label())
}

/// The visible indices are increasing indices into the records.
pub proof fn lemma_visible_indices_bounds(names: Seq<Seq<char>>, query: Seq<char>)
    ensures
        visible_indices(names, query).len() <= names.len(),
        forall|k: int|
            0 <= k < visible_indices(names, query).len() ==> 0 <= #[trigger] visible_indices(
                names,
                query,
            )[k] < names.len(),
        forall|a: int, b: int|
            0 <= a < b < visible_indices(names, query).len() ==> visible_indices(names, query)[a]
                < visible_indices(names, query)[b],
    decreases names.len(),
{
    if names.len() > 0 {
        lemma_visible_indices_bounds(names.drop_last(), query);
    }
}

/// With an empty filter every record is shown.
pub proof fn lemma_visible_all(names: Seq<Seq<char>>, query: Seq<char>)
    requires
        query.len() == 0,
    ensures
        visible_indices(names, query).len() == names.len(),
    decreases names.len(),
{
    if names.len() > 0 {
        lemma_visible_all(names.drop_last(), query);
    }
}

/// The records that the filter `query` shows, with their indices, in order;
/// ignoring case, a record is shown where the query occurs in its name.
pub fn filter_items<'a, T: Filterable>(items: &'a Vec<T>, query: &str) -> (r: Vec<(usize, &'a T)>)
    ensures
        r@.len() == visible_indices(labels(items@), query@).len(),
        forall|k: int|
            0 <= k < r@.len() ==> {
                &&& (#[trigger] r@[k]).0 == visible_indices(labels(items@), query@)[k]
                &&& r@[k].0 < items@.len()
                &&& *r@[k].1 == items@[r@[k].0 as int]
            },
{
    let q = chars_of(lowercase(query).as_str());
    let empty = chars_of(query).len() == 0;
    let ghost names = labels(items@);
    let mut r: Vec<(usize, &'a T)> = Vec::new();
    let mut i: usize = 0;
    while i < items.len()
        invariant
            names == labels(items@),
            q@ == lower_of(query@),
            empty == (query@.len() == 0),
            i <= items@.len(),
            r@.len() == visible_indices(names.subrange(0, i as int), query@).len(),
            forall|k: int|
                0 <= k < r@.len() ==> {
                    &&& (#[trigger] r@[k]).0 == visible_indices(
                        names.subrange(0, i as int),
                        query@,
                    )[k]
                    &&& r@[k].0 < items@.len()
                    &&& *r@[k].1 == items@[r@[k].0 as int]
                },
        decreases items@.len() - i,
    {
        assert(names.subrange(0, i + 1).drop_last() =~= names.subrange(0, i as int));
        let item = &items[i];
        let keep = if empty {
            true
        } else {
            let n = chars_of(lowercase(item.name()).as_str());
            contains_chars(&n, &q)
        };
        if keep {
            r.push((i, item));
        }
        i = i + 1;
    }
    assert(names.subrange(0, i as int) =~= names);
    r
}

/// What the detail pane shows of a package.
#[derive(Debug, Clone)]
pub struct PackageInfo {
    pub name: String,
    pub version: String,
    pub description: String,
    pub size: String,
    pub repository: String,
    pub install_date: Option<String>,
    pub install_reason: Option<String>,
    pub url: Option<String>,
    pub build_date: Option<String>,
    pub maintainer: Option<String>,
    pub votes: Option<u32>,
}

} // verus!
