//! The list of explicitly installed packages, split by source, as text.
use vstd::prelude::*;

use crate::pacman::contains_name;
use crate::text::views;

verus! {

/// Each name of `names` followed by a newline.
pub open spec fn name_lines(names: Seq<Seq<char>>) -> Seq<char>
    decreases names.len(),
{
    if names.len() == 0 {
        Seq::empty()
    } else {
        name_lines(names.drop_last()) + names.last() + "\n"@
    }
}

/// The package list: an "# Official" section with the official packages and
/// an "# AUR" section with the AUR ones, one name per line.
pub open spec fn package_list_text(official: Seq<Seq<char>>, aur: Seq<Seq<char>>) -> Seq<char> {
    "# Official\n"@ + name_lines(official) + "\n# AUR\n"@ + name_lines(aur)
}

fn append_lines(out: &mut String, names: &Vec<String>)
    ensures
        final(out)@ == old(out)@ + name_lines(views(names@)),
{
    let ghost start = out@;
    let mut i: usize = 0;
    while i < names.len()
        invariant
            i <= names@.len(),
            out@ == start + name_lines(views(names@).subrange(0, i as int)),
        decreases names@.len() - i,
    {
        assert(views(names@).subrange(0, i + 1).drop_last() =~= views(names@).subrange(
            0,
            i as int,
        ));
        out.append(names[i].as_str());
        out.append("\n");
        i = i + 1;
        assert(out@ =~= start + name_lines(views(names@).subrange(0, i as int)));
    }
    assert(views(names@).subrange(0, i as int) =~= views(names@));
}

/// The package list text of the official and the AUR packages, with the
/// number of each.
pub fn get_package_list(official: &Vec<String>, aur: &Vec<String>) -> (r: (String, usize, usize))
    ensures
        r.0@ == package_list_text(views(official@), views(aur@)),
        r.1 == official@.len(),
        r.2 == aur@.len(),
{
    let mut result = String::from_str("# Official\n");
    append_lines(&mut result, official);
    result.append("\n# AUR\n");
    append_lines(&mut result, aur);
    (result, official.len(), aur.len())
}

/// The names of `all` that `foreign` does (`keep` true) or does not hold, in
/// order.
pub open spec fn names_where(all: Seq<Seq<char>>, foreign: Seq<Seq<char>>, keep: bool) -> Seq<
    Seq<char>,
>
    decreases all.len(),
{
    if all.len() == 0 {
        Seq::empty()
    } else {
        let prev = names_where(all.drop_last(), foreign, keep);
        if foreign.contains(all.last()) == keep {
            prev.push(all.last())
        } else {
            prev
        }
    }
}

/// Splits the explicitly installed packages into the official ones and the
/// AUR ones (those that `foreign` names), each in order.
pub fn split_packages(all: &Vec<String>, foreign: &Vec<String>) -> (r: (Vec<String>, Vec<String>))
    ensures
        views(r.0@) == names_where(views(all@), views(foreign@), false),
        views(r.1@) == names_where(views(all@), views(foreign@), true),
{
    let mut official: Vec<String> = Vec::new();
    let mut aur: Vec<String> = Vec::new();
    let mut i: usize = 0;
    while i < all.len()
        invariant
            i <= all@.len(),
            views(official@) == names_where(views(all@).subrange(0, i as int), views(foreign@), false),
            views(aur@) == names_where(views(all@).subrange(0, i as int), views(foreign@), true),
        decreases all@.len() - i,
    {
        assert(views(all@).subrange(0, i + 1).drop_last() =~= views(all@).subrange(0, i as int));
        let ghost o = official@;
        let ghost a = aur@;
        if contains_name(foreign, &all[i]) {
            aur.push(all[i].clone());
            assert(views(aur@) =~= views(a).push(all@[i as int]@));
        } else {
            official.push(all[i].clone());
            assert(views(official@) =~= views(o).push(all@[i as int]@));
        }
        i = i + 1;
    }
    assert(views(all@).subrange(0, i as int) =~= views(all@));
    (official, aur)
}

} // verus!
