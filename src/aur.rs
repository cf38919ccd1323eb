//! Updates of packages from the AUR: comparing the installed versions with
//! the versions that the AUR reports.
use vstd::prelude::*;

use crate::pacman::{parse_update_lines, pair_views, update_triples, updates_in};
use crate::rebuilds::output_at;
use crate::text::{same_chars, chars_of, trim_str, trimmed, somes, lemma_somes_step};
use crate::types::{Package, PackageSource};

verus! {

/// The version that `versions` gives for `name`: the last pair with that
/// name, as when the pairs are inserted into a map in order.
pub open spec fn last_version(versions: Seq<(Seq<char>, Seq<char>)>, name: Seq<char>) -> Option<
    Seq<char>,
>
    decreases versions.len(),
{
    if versions.len() == 0 {
        None
    } else if versions.last().0 == name {
        Some(versions.last().1)
    } else {
        last_version(versions.drop_last(), name)
    }
}

/// The version that the AUR reports for `name`, if any.
pub fn aur_version_of(name: &String, versions: &Vec<(String, String)>) -> (r: Option<String>)
    ensures
        crate::news::opt_view(r) == last_version(pair_views(versions@), name@),
{
    let mut k: usize = versions.len();
    assert(pair_views(versions@).subrange(0, k as int) =~= pair_views(versions@));
    while k > 0
        invariant
            k <= versions@.len(),
            last_version(pair_views(versions@), name@) == last_version(
                pair_views(versions@).subrange(0, k as int),
                name@,
            ),
        decreases k,
    {
        let ghost pre = pair_views(versions@).subrange(0, k as int);
        assert(pre.drop_last() =~= pair_views(versions@).subrange(0, k - 1));
        if versions[k - 1].0 == *name {
            return Some(versions[k - 1].1.clone());
        }
        k = k - 1;
    }
    None
}

/// Whether the AUR version `new` is newer than the installed `old`: never
/// when they are equal; else what the version comparer printed (its output,
/// trimmed, is "1"), or, where it could not run, that they differ.
pub open spec fn newer(new: Seq<char>, old: Seq<char>, vercmp_output: Option<String>) -> bool {
    if new == old {
        false
    } else {
        match vercmp_output {
            Some(out) => trimmed(out@) == "1"@,
            None => true,
        }
    }
}

/// Decides whether `new` is newer than `old` from the version comparer's
/// output (`None` where it could not run).
pub fn is_newer(new: &String, old: &String, vercmp_output: &Option<String>) -> (r: bool)
    ensures
        r == newer(new@, old@, *vercmp_output),
{
    if *new == *old {
        return false;
    }
    match vercmp_output {
        Some(out) => {
            let t = trim_str(out.as_str());
            same_chars(&chars_of(t.as_str()), &chars_of("1"))
        },
        None => true,
    }
}

/// The update that the installed package `local` (name, version) has, given
/// the AUR's versions and the comparer's output for it.
pub open spec fn aur_update_of(
    local: (Seq<char>, Seq<char>),
    versions: Seq<(Seq<char>, Seq<char>)>,
    out: Option<String>,
) -> Option<(Seq<char>, Seq<char>, Seq<char>)> {
    match last_version(versions, local.0) {
        Some(v) => if newer(v, local.1, out) {
            Some((local.0, local.1, v))
        } else {
            None
        },
        None => None,
    }
}

/// The AUR updates of the installed packages, in their order.
pub open spec fn aur_updates(
    local: Seq<(Seq<char>, Seq<char>)>,
    versions: Seq<(Seq<char>, Seq<char>)>,
    outs: Seq<Option<String>>,
) -> Seq<(Seq<char>, Seq<char>, Seq<char>)> {
    somes(Seq::new(local.len(), |i: int| aur_update_of(local[i], versions, output_at(outs, i))))
}

/// The installed AUR packages (name, version) for which the AUR reports a
/// newer version, as updates in their order; `vercmp_outputs[i]` is the
/// version comparer's output for the `i`th package (`None` where it could
/// not run or was not asked).
pub fn find_updates(
    local_packages: &Vec<(String, String)>,
    aur_versions: &Vec<(String, String)>,
    vercmp_outputs: &Vec<Option<String>>,
) -> (r: Vec<Package>)
    ensures
        update_triples(r@) == aur_updates(
            pair_views(local_packages@),
            pair_views(aur_versions@),
            vercmp_outputs@,
        ),
        forall|k: int|
            0 <= k < r@.len() ==> (#[trigger] r@[k]).source == PackageSource::Aur
                && !r@[k].selected,
{
    let ghost lv = pair_views(local_packages@);
    let ghost vv = pair_views(aur_versions@);
    let ghost opts = Seq::new(
        lv.len(),
        |i: int| aur_update_of(lv[i], vv, output_at(vercmp_outputs@, i)),
    );
    let mut r: Vec<Package> = Vec::new();
    let mut i: usize = 0;
    while i < local_packages.len()
        invariant
            lv == pair_views(local_packages@),
            vv == pair_views(aur_versions@),
            opts == Seq::new(
                lv.len(),
                |i: int| aur_update_of(lv[i], vv, output_at(vercmp_outputs@, i)),
            ),
            i <= local_packages@.len(),
            update_triples(r@) == somes(opts.subrange(0, i as int)),
            forall|k: int|
                0 <= k < r@.len() ==> (#[trigger] r@[k]).source == PackageSource::Aur
                    && !r@[k].selected,
        decreases local_packages@.len() - i,
    {
        proof {
            lemma_somes_step(opts, i as int);
        }
        let ghost before = r@;
        let name = &local_packages[i].0;
        let local_ver = &local_packages[i].1;
        let none: Option<String> = None;
        let out = if i < vercmp_outputs.len() {
            &vercmp_outputs[i]
        } else {
            &none
        };
        match aur_version_of(name, aur_versions) {
            Some(v) => {
                if is_newer(&v, local_ver, out) {
                    r.push(Package::new(name.clone(), local_ver.clone(), v, PackageSource::Aur));
                    assert(update_triples(r@) =~= update_triples(before).push(
                        opts[i as int]->Some_0,
                    ));
                }
            },
            None => {},
        }
        i = i + 1;
    }
    assert(opts.subrange(0, i as int) =~= opts);
    r
}

/// The AUR updates of the installed AUR packages `local_packages`: none
/// where there are none installed; else, where the AUR answered with its
/// versions (`aur_versions`), the packages it has newer; else what the AUR
/// helper's update listing (`fallback_output`) announces, if it gave one.
pub fn check_aur_updates(
    local_packages: &Vec<(String, String)>,
    aur_versions: &Option<Vec<(String, String)>>,
    vercmp_outputs: &Vec<Option<String>>,
    fallback_output: &Option<String>,
) -> (r: Vec<Package>)
    ensures
        local_packages@.len() == 0 ==> r@.len() == 0,
        local_packages@.len() > 0 ==> match aur_versions {
            Some(v) => update_triples(r@) == aur_updates(
                pair_views(local_packages@),
                pair_views(v@),
                vercmp_outputs@,
            ),
            None => match fallback_output {
                Some(o) => update_triples(r@) == updates_in(o@),
                None => r@.len() == 0,
            },
        },
        forall|k: int|
            0 <= k < r@.len() ==> (#[trigger] r@[k]).source == PackageSource::Aur
                && !r@[k].selected,
{
    if local_packages.len() == 0 {
        return Vec::new();
    }
    match aur_versions {
        Some(v) => find_updates(local_packages, v, vercmp_outputs),
        None => match fallback_output {
            Some(o) => parse_update_lines(o.as_str(), PackageSource::Aur),
            None => Vec::new(),
        },
    }
}

} // verus!
