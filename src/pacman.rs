//! Readers for the package tools' text output: available updates, installed
//! package lists, and the installed packages with their sources.
use vstd::prelude::*;

use crate::text::{
    chars_of, contains_chars, has_infix, lemma_somes_step, lines_of, somes, text_lines, views,
    words, words_of,
};
use crate::types::{InstalledPackage, Package, PackageSource};

verus! {

/// The update that a line "name old -> new" announces: its first, second and
/// fourth words, where the line holds " -> " and at least four words.
pub open spec fn update_of(line: Seq<char>) -> Option<(Seq<char>, Seq<char>, Seq<char>)> {
    let w = words(line);
    if has_infix(line, " -> "@) && w.len() >= 4 {
        Some((w[0], w[1], w[3]))
    } else {
        None
    }
}

/// The updates that the lines of `output` announce, in order.
pub open spec fn updates_in(output: Seq<char>) -> Seq<(Seq<char>, Seq<char>, Seq<char>)> {
    somes(text_lines(output).map_values(|l: Seq<char>| update_of(l)))
}

/// (name, old version, new version) of each update of `v`.
pub open spec fn update_triples(v: Seq<Package>) -> Seq<(Seq<char>, Seq<char>, Seq<char>)> {
    v.map_values(|p: Package| (p.name@, p.old_version@, p.new_version@))
}

/// Reads the updates that an update listing tool prints, one "name old -> new" per
/// line, as updates from `source`, not selected; other lines are skipped.
pub fn parse_update_lines(output: &str, source: PackageSource) -> (r: Vec<Package>)
    ensures
        update_triples(r@) == updates_in(output@),
        forall|k: int| 0 <= k < r@.len() ==> (#[trigger] r@[k]).source == source && !r@[k].selected,
{
    let lines = lines_of(output);
    let ghost ls = text_lines(output@);
    let ghost opts = ls.map_values(|l: Seq<char>| update_of(l));
    let mut r: Vec<Package> = Vec::new();
    let mut i: usize = 0;
    while i < lines.len()
        invariant
            views(lines@) == ls,
            opts == ls.map_values(|l: Seq<char>| update_of(l)),
            i <= lines@.len(),
            update_triples(r@) == somes(opts.subrange(0, i as int)),
            forall|k: int| 0 <= k < r@.len() ==> (#[trigger] r@[k]).source == source && !r@[k].selected,
        decreases lines@.len() - i,
    {
        proof {
            lemma_somes_step(opts, i as int);
        }
        let ghost before = r@;
        let line = lines[i].as_str();
        assert(line@ == ls[i as int]);
        if contains_chars(&chars_of(line), &chars_of(" -> ")) {
            let w = words_of(line);
            assert(views(w@) == words(line@));
            if w.len() >= 4 {
                assert(views(w@)[0] == w@[0]@ && views(w@)[1] == w@[1]@ && views(w@)[3] == w@[3]@);
                r.push(Package::new(w[0].clone(), w[1].clone(), w[3].clone(), source));
                assert(update_triples(r@) =~= update_triples(before).push(
                    (w@[0]@, w@[1]@, w@[3]@),
                ));
            }
        }
        i = i + 1;
    }
    assert(opts.subrange(0, i as int) =~= opts);
    r
}

/// Reads the output of the repository update listing tool: updates from the
/// official repositories.
pub fn parse_updates(output: &str) -> (r: Vec<Package>)
    ensures
        update_triples(r@) == updates_in(output@),
        forall|k: int|
            0 <= k < r@.len() ==> (#[trigger] r@[k]).source == PackageSource::Pacman
                && !r@[k].selected,
{
    parse_update_lines(output, PackageSource::Pacman)
}

/// The (name, version) pair that a line gives: its first two words, where it
/// has at least two.
pub open spec fn name_version_of(line: Seq<char>) -> Option<(Seq<char>, Seq<char>)> {
    let w = words(line);
    if w.len() >= 2 {
        Some((w[0], w[1]))
    } else {
        None
    }
}

/// The (name, version) pairs of the lines of `output`, in order.
pub open spec fn name_versions_in(output: Seq<char>) -> Seq<(Seq<char>, Seq<char>)> {
    somes(text_lines(output).map_values(|l: Seq<char>| name_version_of(l)))
}

/// The pairs of `v` as character sequences.
pub open spec fn pair_views(v: Seq<(String, String)>) -> Seq<(Seq<char>, Seq<char>)> {
    v.map_values(|p: (String, String)| (p.0@, p.1@))
}

/// Reads a package list of "name version" lines; other lines are skipped.
pub fn parse_name_versions(output: &str) -> (r: Vec<(String, String)>)
    ensures
        pair_views(r@) == name_versions_in(output@),
{
    let lines = lines_of(output);
    let ghost ls = text_lines(output@);
    let ghost opts = ls.map_values(|l: Seq<char>| name_version_of(l));
    let mut r: Vec<(String, String)> = Vec::new();
    let mut i: usize = 0;
    while i < lines.len()
        invariant
            views(lines@) == ls,
            opts == ls.map_values(|l: Seq<char>| name_version_of(l)),
            i <= lines@.len(),
            pair_views(r@) == somes(opts.subrange(0, i as int)),
        decreases lines@.len() - i,
    {
        proof {
            lemma_somes_step(opts, i as int);
        }
        let ghost before = r@;
        let line = lines[i].as_str();
        assert(line@ == ls[i as int]);
        let w = words_of(line);
        assert(views(w@) == words(line@));
        if w.len() >= 2 {
            assert(views(w@)[0] == w@[0]@ && views(w@)[1] == w@[1]@);
            r.push((w[0].clone(), w[1].clone()));
            assert(pair_views(r@) =~= pair_views(before).push((w@[0]@, w@[1]@)));
        }
        i = i + 1;
    }
    assert(opts.subrange(0, i as int) =~= opts);
    r
}

/// The first word of a line, where it has one.
pub open spec fn first_word_of(line: Seq<char>) -> Option<Seq<char>> {
    let w = words(line);
    if w.len() >= 1 {
        Some(w[0])
    } else {
        None
    }
}

/// The first words of the lines of `output`, in order.
pub open spec fn first_words_in(output: Seq<char>) -> Seq<Seq<char>> {
    somes(text_lines(output).map_values(|l: Seq<char>| first_word_of(l)))
}

/// Reads the package names of a list whose lines start with a name; blank
/// lines are skipped.
pub fn parse_package_names(output: &str) -> (r: Vec<String>)
    ensures
        views(r@) == first_words_in(output@),
{
    let lines = lines_of(output);
    let ghost ls = text_lines(output@);
    let ghost opts = ls.map_values(|l: Seq<char>| first_word_of(l));
    let mut r: Vec<String> = Vec::new();
    let mut i: usize = 0;
    while i < lines.len()
        invariant
            views(lines@) == ls,
            opts == ls.map_values(|l: Seq<char>| first_word_of(l)),
            i <= lines@.len(),
            views(r@) == somes(opts.subrange(0, i as int)),
        decreases lines@.len() - i,
    {
        proof {
            lemma_somes_step(opts, i as int);
        }
        let ghost before = r@;
        let line = lines[i].as_str();
        assert(line@ == ls[i as int]);
        let w = words_of(line);
        assert(views(w@) == words(line@));
        if w.len() >= 1 {
            assert(views(w@)[0] == w@[0]@);
            r.push(w[0].clone());
            assert(views(r@) =~= views(before).push(w@[0]@));
        }
        i = i + 1;
    }
    assert(opts.subrange(0, i as int) =~= opts);
    r
}

/// Whether `names` holds `name`.
pub fn contains_name(names: &Vec<String>, name: &String) -> (r: bool)
    ensures
        r == views(names@).contains(name@),
{
    let mut i: usize = 0;
    while i < names.len()
        invariant
            i <= names@.len(),
            forall|k: int| 0 <= k < i ==> names@[k]@ != name@,
        decreases names@.len() - i,
    {
        if names[i] == *name {
            assert(views(names@)[i as int] == name@);
            return true;
        }
        i = i + 1;
    }
    assert(!views(names@).contains(name@)) by {
        if views(names@).contains(name@) {
            let k = choose|k: int| 0 <= k < views(names@).len() && views(names@)[k] == name@;
            assert(names@[k]@ == name@);
        }
    }
    false
}

/// The installed packages named in `packages` with their versions, in order,
/// each from the AUR exactly when `foreign` names it, none selected.
pub fn get_installed_packages(packages: &Vec<(String, String)>, foreign: &Vec<String>) -> (r: Vec<
    InstalledPackage,
>)
    ensures
        r@.len() == packages@.len(),
        forall|k: int|
            0 <= k < r@.len() ==> {
                &&& (#[trigger] r@[k]).name == packages@[k].0
                &&& r@[k].version == packages@[k].1
                &&& r@[k].source == if views(foreign@).contains(packages@[k].0@) {
                    PackageSource::Aur
                } else {
                    PackageSource::Pacman
                }
                &&& !r@[k].selected
            },
{
    let mut r: Vec<InstalledPackage> = Vec::new();
    let mut i: usize = 0;
    while i < packages.len()
        invariant
            i <= packages@.len(),
            r@.len() == i,
            forall|k: int|
                0 <= k < i ==> {
                    &&& (#[trigger] r@[k]).name == packages@[k].0
                    &&& r@[k].version == packages@[k].1
                    &&& r@[k].source == if views(foreign@).contains(packages@[k].0@) {
                        PackageSource::Aur
                    } else {
                        PackageSource::Pacman
                    }
                    &&& !r@[k].selected
                },
        decreases packages@.len() - i,
    {
        let source = if contains_name(foreign, &packages[i].0) {
            PackageSource::Aur
        } else {
            PackageSource::Pacman
        };
        r.push(InstalledPackage::new(packages[i].0.clone(), packages[i].1.clone(), source));
        i = i + 1;
    }
    r
}

} // verus!
