//! Reading the package tool's "Key : Value" detail listing.
use vstd::prelude::*;

use crate::news::{opt_view, or_empty};
use crate::text::{
    chars_of, find_char, first_index, lines_of, same_chars, string_of, sub_chars, text_lines,
    trim_str, trimmed, views,
};
use crate::types::PackageInfo;

verus! {

/// The line has a colon.
pub open spec fn has_colon(l: Seq<char>) -> bool {
    first_index(l, ':') < l.len()
}

/// The key of a "Key : Value" line: what precedes its first colon, trimmed.
pub open spec fn field_key(l: Seq<char>) -> Seq<char> {
    trimmed(l.subrange(0, first_index(l, ':')))
}

/// The value of a "Key : Value" line: what follows its first colon, trimmed.
pub open spec fn field_value(l: Seq<char>) -> Seq<char> {
    trimmed(l.subrange(first_index(l, ':') + 1, l.len() as int))
}

/// The value of the last line of `ls` whose key `keys` accepts.
pub open spec fn last_field(ls: Seq<Seq<char>>, keys: spec_fn(Seq<char>) -> bool) -> Option<
    Seq<char>,
>
    decreases ls.len(),
{
    if ls.len() == 0 {
        None
    } else if has_colon(ls.last()) && keys(field_key(ls.last())) {
        Some(field_value(ls.last()))
    } else {
        last_field(ls.drop_last(), keys)
    }
}

/// The value of the last line of `ls` with key `key`.
pub open spec fn field(ls: Seq<Seq<char>>, key: Seq<char>) -> Option<Seq<char>> {
    last_field(ls, |k: Seq<char>| k == key)
}

/// The value of the last size line: "Installed Size", or also "Download
/// Size" for a package that is not installed.
pub open spec fn size_field(ls: Seq<Seq<char>>, is_installed: bool) -> Option<Seq<char>> {
    last_field(
        ls,
        |k: Seq<char>| k == "Installed Size"@ || (!is_installed && k == "Download Size"@),
    )
}

fn is_key(key: &Vec<char>, lit: &str) -> (r: bool)
    ensures
        r == (key@ == lit@),
{
    same_chars(key, &chars_of(lit))
}

fn set_if(slot: &mut Option<String>, hit: bool, value: &String)
    ensures
        *final(slot) == if hit {
            Some(*value)
        } else {
            *old(slot)
        },
{
    if hit {
        *slot = Some(value.clone());
    }
}

impl PackageInfo {
    /// The repository that the installed package `info` is shown with: its
    /// own, else the one of the repository listing `repo`, else "AUR" for a
    /// foreign package.
    pub open spec fn merged_repository(info: PackageInfo, repo: Option<PackageInfo>, foreign: bool) -> Seq<char> {
        let name = if info.repository@.len() == 0 && repo is Some {
            repo->Some_0.repository@
        } else {
            info.repository@
        };
        if name.len() == 0 && foreign {
            "AUR"@
        } else {
            name
        }
    }

    /// Completes the details of an installed package: the repository from the
    /// repository listing `repo` where its own listing has none, else "AUR"
    /// for a foreign package, whose maintainer and votes then come from the
    /// AUR's details `aur` where given.
    pub fn complete_installed(
        info: PackageInfo,
        repo: Option<PackageInfo>,
        foreign: bool,
        aur: Option<PackageInfo>,
    ) -> (r: PackageInfo)
        ensures
            r.repository@ == PackageInfo::merged_repository(info, repo, foreign),
            ({
                let own = if info.repository@.len() == 0 && repo is Some {
                    repo->Some_0.repository@
                } else {
                    info.repository@
                };
                if own.len() == 0 && foreign && aur is Some {
                    r.maintainer == aur->Some_0.maintainer && r.votes == aur->Some_0.votes
                } else {
                    r.maintainer == info.maintainer && r.votes == info.votes
                }
            }),
            r.name == info.name,
            r.version == info.version,
            r.description == info.description,
            r.size == info.size,
            r.install_date == info.install_date,
            r.install_reason == info.install_reason,
            r.url == info.url,
            r.build_date == info.build_date,
    {
        let mut info = info;
        if info.repository.as_str().unicode_len() == 0 {
            if let Some(listing) = repo {
                info.repository = listing.repository;
            }
        }
        if info.repository.as_str().unicode_len() == 0 && foreign {
            info.repository = String::from_str("AUR");
            if let Some(details) = aur {
                info.maintainer = details.maintainer;
                info.votes = details.votes;
            }
        }
        info
    }

    /// Reads the details that the package tool prints, one "Key : Value" per
    /// line, the last line of a key counting; `None` when no name is given.
    /// Maintainer and votes are not part of this listing.
    pub fn parse_pacman_output(output: &str, is_installed: bool) -> (r: Option<PackageInfo>)
        ensures
            ({
                let ls = text_lines(output@);
                &&& (r is None <==> or_empty(field(ls, "Name"@)).len() == 0)
                &&& r matches Some(info) ==> {
                    &&& info.name@ == or_empty(field(ls, "Name"@))
                    &&& info.version@ == or_empty(field(ls, "Version"@))
                    &&& info.description@ == or_empty(field(ls, "Description"@))
                    &&& info.repository@ == or_empty(field(ls, "Repository"@))
                    &&& info.size@ == or_empty(size_field(ls, is_installed))
                    &&& opt_view(info.install_date) == field(ls, "Install Date"@)
                    &&& opt_view(info.install_reason) == field(ls, "Install Reason"@)
                    &&& opt_view(info.url) == field(ls, "URL"@)
                    &&& opt_view(info.build_date) == field(ls, "Build Date"@)
                    &&& info.maintainer is None
                    &&& info.votes is None
                }
            }),
    {
        let lines = lines_of(output);
        let ghost ls = text_lines(output@);
        let mut name: Option<String> = None;
        let mut version: Option<String> = None;
        let mut description: Option<String> = None;
        let mut repository: Option<String> = None;
        let mut size: Option<String> = None;
        let mut install_date: Option<String> = None;
        let mut install_reason: Option<String> = None;
        let mut url: Option<String> = None;
        let mut build_date: Option<String> = None;
        let mut i: usize = 0;
        while i < lines.len()
            invariant
                views(lines@) == ls,
                i <= lines@.len(),
                opt_view(name) == field(ls.subrange(0, i as int), "Name"@),
                opt_view(version) == field(ls.subrange(0, i as int), "Version"@),
                opt_view(description) == field(ls.subrange(0, i as int), "Description"@),
                opt_view(repository) == field(ls.subrange(0, i as int), "Repository"@),
                opt_view(size) == size_field(ls.subrange(0, i as int), is_installed),
                opt_view(install_date) == field(ls.subrange(0, i as int), "Install Date"@),
                opt_view(install_reason) == field(ls.subrange(0, i as int), "Install Reason"@),
                opt_view(url) == field(ls.subrange(0, i as int), "URL"@),
                opt_view(build_date) == field(ls.subrange(0, i as int), "Build Date"@),
            decreases lines@.len() - i,
        {
            let ghost prefix = ls.subrange(0, i + 1);
            assert(prefix.drop_last() =~= ls.subrange(0, i as int));
            assert(prefix.last() == ls[i as int]);
            let line = chars_of(lines[i].as_str());
            assert(line@ == ls[i as int]);
            let colon = find_char(&line, ':');
            if colon < line.len() {
                let key_s = trim_str(string_of(&sub_chars(&line, 0, colon)).as_str());
                let key = chars_of(key_s.as_str());
                let value = trim_str(string_of(&sub_chars(&line, colon + 1, line.len())).as_str());
                assert(key@ == field_key(line@));
                assert(value@ == field_value(line@));
                set_if(&mut name, is_key(&key, "Name"), &value);
                set_if(&mut version, is_key(&key, "Version"), &value);
                set_if(&mut description, is_key(&key, "Description"), &value);
                set_if(&mut repository, is_key(&key, "Repository"), &value);
                let sized = is_key(&key, "Installed Size") || (!is_installed && is_key(
                    &key,
                    "Download Size",
                ));
                set_if(&mut size, sized, &value);
                set_if(&mut install_date, is_key(&key, "Install Date"), &value);
                set_if(&mut install_reason, is_key(&key, "Install Reason"), &value);
                set_if(&mut url, is_key(&key, "URL"), &value);
                set_if(&mut build_date, is_key(&key, "Build Date"), &value);
            }
            i = i + 1;
        }
        assert(ls.subrange(0, i as int) =~= ls);
        let name = match name {
            Some(n) => n,
            None => String::new(),
        };
        if name.as_str().unicode_len() == 0 {
            return None;
        }
        Some(
            PackageInfo {
                name,
                version: crate::news::text_or_empty(&version),
                description: crate::news::text_or_empty(&description),
                size: crate::news::text_or_empty(&size),
                repository: crate::news::text_or_empty(&repository),
                install_date,
                install_reason,
                url,
                build_date,
                maintainer: None,
                votes: None,
            },
        )
    }
}

} // verus!
