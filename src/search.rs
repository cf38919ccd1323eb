//! Package search: reading the repository search output, and merging it with
//! the AUR's answers into one ordered result list.
use vstd::prelude::*;

use crate::pacman::contains_name;
use crate::text::{
    chars_of, contains_chars, find_char, first_index, has_infix, lines_of, starts_with,
    sub_chars, string_of, text_lines, trim_str, trimmed, views, words, words_of,
};
use crate::types::SearchResult;
use vstd::multiset::Multiset;

verus! {

/// The fields of a search result line: repository, name, version, and whether
/// it is marked installed.
pub type HeaderView = (Seq<char>, Seq<char>, Seq<char>, bool);

/// What a line "repo/name version [installed]" of the search output gives:
/// a line that does not start with a space, holds a slash, has at least two
/// words and a slash in its first word.
pub open spec fn search_header(line: Seq<char>) -> Option<HeaderView> {
    let w = words(line);
    if !(line.len() > 0 && line[0] == ' ') && has_infix(line, "/"@) && w.len() >= 2
        && first_index(w[0], '/') < w[0].len() {
        let slash = first_index(w[0], '/');
        Some(
            (
                w[0].subrange(0, slash),
                w[0].subrange(slash + 1, w[0].len() as int),
                w[1],
                has_infix(line, "[installed"@),
            ),
        )
    } else {
        None
    }
}

/// (name, version, description, repository, installed) of a search result.
pub type ResultView = (Seq<char>, Seq<char>, Seq<char>, Seq<char>, bool);

/// The results that the lines `ls[i..]` give: each header line, with the
/// trimmed next line as description where that one starts with four spaces.
pub open spec fn search_entries_from(ls: Seq<Seq<char>>, i: int) -> Seq<ResultView>
    decreases ls.len() - i,
{
    if i < 0 || i >= ls.len() {
        Seq::empty()
    } else {
        match search_header(ls[i]) {
            Some(h) => {
                let has_desc = i + 1 < ls.len() && starts_with(ls[i + 1], "    "@);
                let desc = if has_desc {
                    trimmed(ls[i + 1])
                } else {
                    Seq::empty()
                };
                seq![(h.1, h.2, desc, h.0, h.3)] + search_entries_from(
                    ls,
                    if has_desc {
                        i + 2
                    } else {
                        i + 1
                    },
                )
            },
            None => search_entries_from(ls, i + 1),
        }
    }
}

/// The fields of each result of `v`.
pub open spec fn result_views(v: Seq<SearchResult>) -> Seq<ResultView> {
    v.map_values(
        |r: SearchResult| (r.name@, r.version@, r.description@, r.repository@, r.installed),
    )
}

fn header_of(line: &str) -> (r: Option<(String, String, String, bool)>)
    ensures
        match r {
            Some(h) => search_header(line@) == Some((h.0@, h.1@, h.2@, h.3)),
            None => search_header(line@) is None,
        },
{
    let cs = chars_of(line);
    if cs.len() > 0 && cs[0] == ' ' {
        return None;
    }
    if !contains_chars(&cs, &chars_of("/")) {
        return None;
    }
    let w = words_of(line);
    assert(views(w@) == words(line@));
    if w.len() < 2 {
        return None;
    }
    assert(views(w@)[0] == w@[0]@ && views(w@)[1] == w@[1]@);
    let first = chars_of(w[0].as_str());
    let slash = find_char(&first, '/');
    if slash >= first.len() {
        return None;
    }
    let repo = string_of(&sub_chars(&first, 0, slash));
    let name = string_of(&sub_chars(&first, slash + 1, first.len()));
    let installed = contains_chars(&cs, &chars_of("[installed"));
    Some((repo, name, w[1].clone(), installed))
}

fn starts_with_indent(line: &str) -> (r: bool)
    ensures
        r == starts_with(line@, "    "@),
{
    let cs = chars_of(line);
    let p = chars_of("    ");
    if p.len() > cs.len() {
        return false;
    }
    let head = sub_chars(&cs, 0, p.len());
    crate::text::same_chars(&head, &p)
}

/// Reads the repository search output: per package a line
/// "repo/name version [installed]", then an indented description line.
pub fn parse_pacman_search(output: &str) -> (r: Vec<SearchResult>)
    ensures
        result_views(r@) == search_entries_from(text_lines(output@), 0),
        forall|k: int| 0 <= k < r@.len() ==> !(#[trigger] r@[k]).selected,
{
    let lines = lines_of(output);
    let ghost ls = text_lines(output@);
    let mut results: Vec<SearchResult> = Vec::new();
    let mut i: usize = 0;
    while i < lines.len()
        invariant
            views(lines@) == ls,
            i <= lines@.len(),
            result_views(results@) + search_entries_from(ls, i as int) == search_entries_from(
                ls,
                0,
            ),
            forall|k: int| 0 <= k < results@.len() ==> !(#[trigger] results@[k]).selected,
        decreases lines@.len() - i,
    {
        let ghost before = results@;
        assert(lines@[i as int]@ == ls[i as int]);
        match header_of(lines[i].as_str()) {
            Some((repository, name, version, installed)) => {
                let has_desc = i + 1 < lines.len() && starts_with_indent(lines[i + 1].as_str());
                let description = if has_desc {
                    assert(lines@[i + 1]@ == ls[i + 1]);
                    trim_str(lines[i + 1].as_str())
                } else {
                    String::new()
                };
                results.push(
                    SearchResult { name, version, description, repository, installed, selected: false },
                );
                assert(result_views(results@) =~= result_views(before).push(
                    search_entries_from(ls, i as int)[0],
                ));
                let next = if has_desc {
                    i + 2
                } else {
                    i + 1
                };
                assert(search_entries_from(ls, i as int) =~= seq![
                    search_entries_from(ls, i as int)[0],
                ] + search_entries_from(ls, next as int));
                assert(result_views(results@) + search_entries_from(ls, next as int)
                    =~= result_views(before) + search_entries_from(ls, i as int));
                i = next;
            },
            None => {
                i = i + 1;
            },
        }
    }
    assert(result_views(results@) =~= result_views(results@) + search_entries_from(ls, i as int));
    results
}


/// `a` comes no later than `b` in code-point order.
pub open spec fn name_le(a: Seq<char>, b: Seq<char>) -> bool
    decreases a.len(),
{
    if a.len() == 0 {
        true
    } else if b.len() == 0 {
        false
    } else if a[0] != b[0] {
        (a[0] as u32) <= (b[0] as u32)
    } else {
        name_le(a.drop_first(), b.drop_first())
    }
}

proof fn lemma_name_le_total(a: Seq<char>, b: Seq<char>)
    ensures
        name_le(a, b) || name_le(b, a),
    decreases a.len(),
{
    if a.len() > 0 && b.len() > 0 && a[0] == b[0] {
        lemma_name_le_total(a.drop_first(), b.drop_first());
    }
}

fn names_in_order(a: &Vec<char>, b: &Vec<char>) -> (r: bool)
    ensures
        r == name_le(a@, b@),
{
    let mut i: usize = 0;
    assert(a@.subrange(0, a@.len() as int) =~= a@);
    assert(b@.subrange(0, b@.len() as int) =~= b@);
    while i < a.len() && i < b.len() && a[i] == b[i]
        invariant
            i <= a@.len(),
            i <= b@.len(),
            name_le(a@, b@) == name_le(
                a@.subrange(i as int, a@.len() as int),
                b@.subrange(i as int, b@.len() as int),
            ),
        decreases a@.len() - i,
    {
        assert(a@.subrange(i as int, a@.len() as int).drop_first() =~= a@.subrange(
            i + 1,
            a@.len() as int,
        ));
        assert(b@.subrange(i as int, b@.len() as int).drop_first() =~= b@.subrange(
            i + 1,
            b@.len() as int,
        ));
        i = i + 1;
    }
    if i == a.len() {
        true
    } else if i == b.len() {
        false
    } else {
        (a[i] as u32) <= (b[i] as u32)
    }
}

/// `a` comes no later than `b` among search results: results not installed
/// first, then by name.
pub open spec fn result_le(a: SearchResult, b: SearchResult) -> bool {
    (!a.installed && b.installed) || (a.installed == b.installed && name_le(a.name@, b.name@))
}

proof fn lemma_result_le_total(a: SearchResult, b: SearchResult)
    ensures
        result_le(a, b) || result_le(b, a),
{
    lemma_name_le_total(a.name@, b.name@);
}

fn result_in_order(a: &SearchResult, b: &SearchResult) -> (r: bool)
    ensures
        r == result_le(*a, *b),
{
    if !a.installed && b.installed {
        return true;
    }
    if a.installed != b.installed {
        return false;
    }
    names_in_order(&chars_of(a.name.as_str()), &chars_of(b.name.as_str()))
}

/// The names of the results of `v`.
pub open spec fn result_names(v: Seq<SearchResult>) -> Seq<Seq<char>> {
    v.map_values(|r: SearchResult| r.name@)
}

/// The AUR results whose names the repositories do not have, in order, each
/// marked installed exactly when `installed` names it.
pub open spec fn aur_kept(
    aur: Seq<SearchResult>,
    repo_names: Seq<Seq<char>>,
    installed: Seq<Seq<char>>,
) -> Seq<SearchResult>
    decreases aur.len(),
{
    if aur.len() == 0 {
        Seq::empty()
    } else {
        let prev = aur_kept(aur.drop_last(), repo_names, installed);
        let a = aur.last();
        if repo_names.contains(a.name@) {
            prev
        } else {
            prev.push(SearchResult { installed: installed.contains(a.name@), ..a })
        }
    }
}

/// `v` is ordered by `result_le`, each result no later than the next.
pub open spec fn results_sorted(v: Seq<SearchResult>) -> bool {
    forall|k: int| 0 <= k < v.len() - 1 ==> result_le(#[trigger] v[k], v[k + 1])
}

proof fn lemma_insert_multiset(s: Seq<SearchResult>, p: int, x: SearchResult)
    requires
        0 <= p <= s.len(),
    ensures
        s.insert(p, x).to_multiset() =~= s.to_multiset().insert(x),
{
    broadcast use vstd::seq_lib::group_to_multiset_ensures;

    let t = s.insert(p, x);
    assert(t.remove(p) =~= s);
    assert(t[p] == x);
    assert(t.contains(x));
    assert(t.to_multiset().count(x) > 0);
}

/// Merges the repository results with the AUR results for `query`: nothing
/// for a query under two characters; else the repository results and the AUR
/// results that the repositories do not have (these marked installed from
/// `installed`), ordered with results not installed first, then by name.
pub fn search_packages(
    query: &str,
    repo_results: Vec<SearchResult>,
    aur_results: Vec<SearchResult>,
    installed: &Vec<String>,
) -> (r: Vec<SearchResult>)
    ensures
        query@.len() < 2 ==> r@.len() == 0,
        query@.len() >= 2 ==> {
            let cand = repo_results@ + aur_kept(
                aur_results@,
                result_names(repo_results@),
                views(installed@),
            );
            &&& r@.to_multiset() == cand.to_multiset()
            &&& results_sorted(r@)
        },
{
    broadcast use vstd::seq_lib::group_to_multiset_ensures;

    if chars_of(query).len() < 2 {
        return Vec::new();
    }
    let ghost repo_names = result_names(repo_results@);
    let mut repo_name_list: Vec<String> = Vec::new();
    let mut k: usize = 0;
    while k < repo_results.len()
        invariant
            k <= repo_results@.len(),
            repo_names == result_names(repo_results@),
            views(repo_name_list@) == repo_names.subrange(0, k as int),
        decreases repo_results@.len() - k,
    {
        let ghost before = repo_name_list@;
        repo_name_list.push(repo_results[k].name.clone());
        assert(views(repo_name_list@) =~= views(before).push(repo_results@[k as int].name@));
        k = k + 1;
        assert(views(repo_name_list@) =~= repo_names.subrange(0, k as int));
    }
    assert(repo_names.subrange(0, k as int) =~= repo_names);
    let mut cand: Vec<SearchResult> = repo_results;
    let ghost repo_part = cand@;
    let mut j: usize = 0;
    while j < aur_results.len()
        invariant
            j <= aur_results@.len(),
            views(repo_name_list@) == repo_names,
            cand@ == repo_part + aur_kept(
                aur_results@.subrange(0, j as int),
                repo_names,
                views(installed@),
            ),
        decreases aur_results@.len() - j,
    {
        assert(aur_results@.subrange(0, j + 1).drop_last() =~= aur_results@.subrange(
            0,
            j as int,
        ));
        let a = &aur_results[j];
        if !contains_name(&repo_name_list, &a.name) {
            let marked = contains_name(installed, &a.name);
            cand.push(
                SearchResult {
                    name: a.name.clone(),
                    version: a.version.clone(),
                    description: a.description.clone(),
                    repository: a.repository.clone(),
                    installed: marked,
                    selected: a.selected,
                },
            );
        }
        j = j + 1;
    }
    assert(aur_results@.subrange(0, j as int) =~= aur_results@);
    let ghost all = cand@;
    let mut sorted: Vec<SearchResult> = Vec::new();
    assert(sorted@.to_multiset() =~= Multiset::<SearchResult>::empty());
    assert(sorted@.to_multiset().add(cand@.to_multiset()) =~= all.to_multiset());
    while cand.len() > 0
        invariant
            sorted@.to_multiset().add(cand@.to_multiset()) == all.to_multiset(),
            results_sorted(sorted@),
        decreases cand@.len(),
    {
        broadcast use vstd::seq_lib::group_to_multiset_ensures;

        let ghost c0 = cand@;
        let x = cand.remove(0);
        assert(c0.remove(0) == cand@);
        let mut p: usize = 0;
        while p < sorted.len() && result_in_order(&sorted[p], &x)
            invariant
                p <= sorted@.len(),
                forall|q: int| 0 <= q < p ==> result_le(#[trigger] sorted@[q], x),
            decreases sorted@.len() - p,
        {
            p = p + 1;
        }
        let ghost s0 = sorted@;
        proof {
            lemma_insert_multiset(s0, p as int, x);
            if p < s0.len() {
                lemma_result_le_total(s0[p as int], x);
            }
        }
        sorted.insert(p, x);
        assert forall|q: int| 0 <= q < sorted@.len() - 1 implies result_le(
            #[trigger] sorted@[q],
            sorted@[q + 1],
        ) by {
            if q + 1 < p {
                assert(sorted@[q] == s0[q] && sorted@[q + 1] == s0[q + 1]);
            } else if q + 1 == p {
                assert(sorted@[q] == s0[q]);
            } else if q == p {
                assert(sorted@[q + 1] == s0[q]);
            } else {
                assert(sorted@[q] == s0[q - 1] && sorted@[q + 1] == s0[q]);
            }
        }
        assert(sorted@.to_multiset().add(cand@.to_multiset()) =~= all.to_multiset());
    }
    assert(cand@.to_multiset() =~= Multiset::<SearchResult>::empty());
    assert(sorted@.to_multiset() =~= all.to_multiset());
    sorted
}

} // verus!
