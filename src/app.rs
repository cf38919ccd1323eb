//! The application state: the listings and their cursors, the filter, the two
//! debounced request tracks (search and package details) with their
//! generation counters, the key-event state machine and the reducer that
//! applies the results of background work.
use vstd::prelude::*;

use crate::action::{Action, ActionView};
use crate::config::Config;
use crate::cursor::{clamp_selection, clamped, cursor_ok, move_cursor, moved};
use crate::news::{find_related_packages, related_among, NewsInfo, NewsItem};
use crate::rebuilds::{RebuildCheck, RebuildIssue};
use crate::text::{chars_of, clone_strings, joined, push_char, string_of, take_chars, views};
use crate::types::{
    filter_items, labels, lemma_visible_all, lemma_visible_indices_bounds, visible_indices, InstalledPackage, Package,
    PackageInfo, PackageSource, SearchResult,
};

verus! {

/// Quiet time after the last keystroke before a search is sent, in
/// milliseconds.
pub const SEARCH_DEBOUNCE_MS: u64 = 350;

/// Quiet time after the last navigation before details are fetched, in
/// milliseconds.
pub const INFO_DEBOUNCE_MS: u64 = 100;

/// The listings, in the order that the tab keys cycle through.
#[derive(Debug, Clone, Copy, PartialEq, Eq, Structural)]
pub enum Tab {
    Updates,
    Installed,
    Orphans,
    Rebuilds,
    Search,
    News,
}

/// Whether background refreshes are outstanding.
#[derive(Debug, Clone, Copy, PartialEq, Eq, Structural)]
pub enum LoadingState {
    Idle,
    Loading,
}

/// A key, as the state machine reads it.
#[derive(Debug, Clone, Copy, PartialEq, Eq, Structural)]
pub enum KeyCode {
    Char(char),
    Esc,
    Tab,
    BackTab,
    Up,
    Down,
    PageUp,
    PageDown,
    Enter,
    Backspace,
    Other,
}

/// A key press: the key, and whether Shift was held.
#[derive(Debug, Clone, Copy, PartialEq, Eq, Structural)]
pub struct KeyEvent {
    pub code: KeyCode,
    pub shift: bool,
}

/// A unit of background work that the state asks the surrounding program to
/// start; each one answers with one `TaskResult` (a full refresh with three).
pub enum Task {
    Refresh { checks: Vec<RebuildCheck>, aur_helper: String },
    RefreshInstalled,
    RefreshOrphans,
    RefreshRebuilds { checks: Vec<RebuildCheck> },
    RefreshNews { installed_names: Vec<String> },
    Search { id: u64, query: String },
    PackageInfo { id: u64, name: String, fallback: Option<PackageInfo> },
}

/// The answer of a unit of background work.
pub enum TaskResult {
    Updates(Vec<Package>, Vec<Package>),
    Installed(Vec<InstalledPackage>),
    Orphans(Vec<InstalledPackage>),
    Rebuilds(Vec<RebuildIssue>),
    Search(u64, Vec<SearchResult>),
    PackageInfo(u64, Option<PackageInfo>),
    News(Result<Vec<NewsItem>, String>),
}

/// A result stamped `stamp` on a track whose counter stands at `current` is
/// applied: only the newest request's result is.
pub open spec fn accepted(current: u64, stamp: u64) -> bool {
    stamp == current
}

/// `now` plus `delay`, capped at the largest time.
pub open spec fn after(now: u64, delay: u64) -> u64 {
    if now as int + delay as int > u64::MAX as int {
        u64::MAX
    } else {
        (now + delay) as u64
    }
}

/// A deadline is set and has passed at `now`.
pub open spec fn due(deadline: Option<u64>, now: u64) -> bool {
    match deadline {
        Some(d) => now >= d,
        None => false,
    }
}

fn deadline_after(now: u64, delay: u64) -> (r: u64)
    ensures
        r == after(now, delay),
{
    if now > u64::MAX - delay {
        u64::MAX
    } else {
        now + delay
    }
}

/// The tab after `t` in the ring.
pub open spec fn next_tab(t: Tab) -> Tab {
    match t {
        Tab::Updates => Tab::Installed,
        Tab::Installed => Tab::Orphans,
        Tab::Orphans => Tab::Rebuilds,
        Tab::Rebuilds => Tab::Search,
        Tab::Search => Tab::News,
        Tab::News => Tab::Updates,
    }
}

/// The tab before `t` in the ring.
pub open spec fn prev_tab(t: Tab) -> Tab {
    match t {
        Tab::Updates => Tab::News,
        Tab::Installed => Tab::Updates,
        Tab::Orphans => Tab::Installed,
        Tab::Rebuilds => Tab::Orphans,
        Tab::Search => Tab::Rebuilds,
        Tab::News => Tab::Search,
    }
}

/// The names of the items of `s` that `pick` chooses, in order.
pub open spec fn picked<T>(s: Seq<T>, pick: spec_fn(T) -> bool, name: spec_fn(T) -> Seq<char>) -> Seq<
    Seq<char>,
>
    decreases s.len(),
{
    if s.len() == 0 {
        Seq::empty()
    } else {
        let prev = picked(s.drop_last(), pick, name);
        if pick(s.last()) {
            prev.push(name(s.last()))
        } else {
            prev
        }
    }
}

/// The number of items of `s` that `p` holds of.
pub open spec fn count_of<T>(s: Seq<T>, p: spec_fn(T) -> bool) -> nat
    decreases s.len(),
{
    if s.len() == 0 {
        0
    } else {
        count_of(s.drop_last(), p) + if p(s.last()) {
            1nat
        } else {
            0nat
        }
    }
}

proof fn lemma_count_step<T>(s: Seq<T>, p: spec_fn(T) -> bool, i: int)
    requires
        0 <= i < s.len(),
    ensures
        count_of(s.subrange(0, i + 1), p) == count_of(s.subrange(0, i), p) + if p(s[i]) {
            1nat
        } else {
            0nat
        },
        count_of(s.subrange(0, i), p) <= i,
    decreases i,
{
    assert(s.subrange(0, i + 1).drop_last() =~= s.subrange(0, i));
    if i > 0 {
        lemma_count_step(s, p, i - 1);
    }
}

/// `new` is `old` with `set` applied to the items at the indices that
/// `chosen` picks, and the others as they were.
pub open spec fn marked<T>(
    old: Seq<T>,
    new: Seq<T>,
    chosen: spec_fn(int) -> bool,
    set: spec_fn(T) -> T,
) -> bool {
    &&& new.len() == old.len()
    &&& forall|j: int|
        0 <= j < old.len() ==> #[trigger] new[j] == if chosen(j) {
            set(old[j])
        } else {
            old[j]
        }
}

/// The indices of `rows` as integers.
pub open spec fn row_ints(rows: Seq<usize>) -> Seq<int> {
    rows.map_values(|i: usize| i as int)
}

fn mark_packages(items: &mut Vec<Package>, rows: &Vec<usize>, v: bool)
    requires
        forall|m: int| 0 <= m < rows@.len() ==> #[trigger] rows@[m] < old(items)@.len(),
    ensures
        marked(
            old(items)@,
            final(items)@,
            |j: int| row_ints(rows@).contains(j),
            |p: Package| p.with_selected(v),
        ),
{
    let ghost start = items@;
    let mut i: usize = 0;
    while i < rows.len()
        invariant
            i <= rows@.len(),
            items@.len() == start.len(),
            forall|m: int| 0 <= m < rows@.len() ==> #[trigger] rows@[m] < start.len(),
            forall|j: int|
                0 <= j < start.len() ==> #[trigger] items@[j] == if row_ints(
                    rows@.subrange(0, i as int),
                ).contains(j) {
                    start[j].with_selected(v)
                } else {
                    start[j]
                },
        decreases rows@.len() - i,
    {
        let r = rows[i];
        items[r].selected = v;
        i = i + 1;
        assert forall|j: int| 0 <= j < start.len() implies #[trigger] items@[j] == if row_ints(
            rows@.subrange(0, i as int),
        ).contains(j) {
            start[j].with_selected(v)
        } else {
            start[j]
        } by {
            if row_ints(rows@.subrange(0, i - 1)).contains(j) {
                let m = choose|m: int| 0 <= m < i - 1 && #[trigger] row_ints(rows@.subrange(0, i - 1))[m] == j;
                assert(row_ints(rows@.subrange(0, i as int))[m] == j);
            }
            if row_ints(rows@.subrange(0, i as int)).contains(j) && j != r as int {
                let m = choose|m: int| 0 <= m < i && #[trigger] row_ints(rows@.subrange(0, i as int))[m] == j;
                assert(row_ints(rows@.subrange(0, i - 1))[m] == j);
            }
            if j == r as int {
                assert(row_ints(rows@.subrange(0, i as int))[i - 1] == j);
            }
        }
    }
    assert(rows@.subrange(0, i as int) =~= rows@);
}

fn mark_installed(items: &mut Vec<InstalledPackage>, rows: &Vec<usize>, v: bool)
    requires
        forall|m: int| 0 <= m < rows@.len() ==> #[trigger] rows@[m] < old(items)@.len(),
    ensures
        marked(
            old(items)@,
            final(items)@,
            |j: int| row_ints(rows@).contains(j),
            |p: InstalledPackage| p.with_selected(v),
        ),
{
    let ghost start = items@;
    let mut i: usize = 0;
    while i < rows.len()
        invariant
            i <= rows@.len(),
            items@.len() == start.len(),
            forall|m: int| 0 <= m < rows@.len() ==> #[trigger] rows@[m] < start.len(),
            forall|j: int|
                0 <= j < start.len() ==> #[trigger] items@[j] == if row_ints(
                    rows@.subrange(0, i as int),
                ).contains(j) {
                    start[j].with_selected(v)
                } else {
                    start[j]
                },
        decreases rows@.len() - i,
    {
        let r = rows[i];
        items[r].selected = v;
        i = i + 1;
        assert forall|j: int| 0 <= j < start.len() implies #[trigger] items@[j] == if row_ints(
            rows@.subrange(0, i as int),
        ).contains(j) {
            start[j].with_selected(v)
        } else {
            start[j]
        } by {
            if row_ints(rows@.subrange(0, i - 1)).contains(j) {
                let m = choose|m: int| 0 <= m < i - 1 && #[trigger] row_ints(rows@.subrange(0, i - 1))[m] == j;
                assert(row_ints(rows@.subrange(0, i as int))[m] == j);
            }
            if row_ints(rows@.subrange(0, i as int)).contains(j) && j != r as int {
                let m = choose|m: int| 0 <= m < i && #[trigger] row_ints(rows@.subrange(0, i as int))[m] == j;
                assert(row_ints(rows@.subrange(0, i - 1))[m] == j);
            }
            if j == r as int {
                assert(row_ints(rows@.subrange(0, i as int))[i - 1] == j);
            }
        }
    }
    assert(rows@.subrange(0, i as int) =~= rows@);
}

fn mark_all_installed(items: &mut Vec<InstalledPackage>, v: bool)
    ensures
        marked(old(items)@, final(items)@, |j: int| true, |p: InstalledPackage| p.with_selected(v)),
{
    let ghost start = items@;
    let mut i: usize = 0;
    while i < items.len()
        invariant
            i <= items@.len(),
            items@.len() == start.len(),
            forall|j: int|
                0 <= j < start.len() ==> #[trigger] items@[j] == if j < i {
                    start[j].with_selected(v)
                } else {
                    start[j]
                },
        decreases start.len() - i,
    {
        items[i].selected = v;
        i = i + 1;
    }
}

fn mark_all_issues(items: &mut Vec<RebuildIssue>, v: bool)
    ensures
        marked(old(items)@, final(items)@, |j: int| true, |p: RebuildIssue| p.with_selected(v)),
{
    let ghost start = items@;
    let mut i: usize = 0;
    while i < items.len()
        invariant
            i <= items@.len(),
            items@.len() == start.len(),
            forall|j: int|
                0 <= j < start.len() ==> #[trigger] items@[j] == if j < i {
                    start[j].with_selected(v)
                } else {
                    start[j]
                },
        decreases start.len() - i,
    {
        items[i].selected = v;
        i = i + 1;
    }
}

fn mark_results(items: &mut Vec<SearchResult>, v: bool)
    ensures
        marked(
            old(items)@,
            final(items)@,
            |j: int| !v || !old(items)@[j].installed,
            |p: SearchResult| p.with_selected(v),
        ),
{
    let ghost start = items@;
    let mut i: usize = 0;
    while i < items.len()
        invariant
            i <= items@.len(),
            items@.len() == start.len(),
            forall|j: int|
                0 <= j < start.len() ==> #[trigger] items@[j] == if j < i && (!v
                    || !start[j].installed) {
                    start[j].with_selected(v)
                } else {
                    start[j]
                },
        decreases start.len() - i,
    {
        if !v || !items[i].installed {
            items[i].selected = v;
        }
        i = i + 1;
    }
}

fn selected_update_names(items: &Vec<Package>) -> (r: Vec<String>)
    ensures
        views(r@) == picked(items@, |p: Package| p.selected, |p: Package| p.name@),
{
    let mut r: Vec<String> = Vec::new();
    let mut i: usize = 0;
    while i < items.len()
        invariant
            i <= items@.len(),
            views(r@) == picked(
                items@.subrange(0, i as int),
                |p: Package| p.selected,
                |p: Package| p.name@,
            ),
        decreases items@.len() - i,
    {
        assert(items@.subrange(0, i + 1).drop_last() =~= items@.subrange(0, i as int));
        let ghost before = r@;
        if items[i].selected {
            r.push(items[i].name.clone());
            assert(views(r@) =~= views(before).push(items@[i as int].name@));
        }
        i = i + 1;
    }
    assert(items@.subrange(0, i as int) =~= items@);
    r
}

fn selected_installed_names(items: &Vec<InstalledPackage>) -> (r: Vec<String>)
    ensures
        views(r@) == picked(
            items@,
            |p: InstalledPackage| p.selected,
            |p: InstalledPackage| p.name@,
        ),
{
    let mut r: Vec<String> = Vec::new();
    let mut i: usize = 0;
    while i < items.len()
        invariant
            i <= items@.len(),
            views(r@) == picked(
                items@.subrange(0, i as int),
                |p: InstalledPackage| p.selected,
                |p: InstalledPackage| p.name@,
            ),
        decreases items@.len() - i,
    {
        assert(items@.subrange(0, i + 1).drop_last() =~= items@.subrange(0, i as int));
        let ghost before = r@;
        if items[i].selected {
            r.push(items[i].name.clone());
            assert(views(r@) =~= views(before).push(items@[i as int].name@));
        }
        i = i + 1;
    }
    assert(items@.subrange(0, i as int) =~= items@);
    r
}

fn selected_installable_names(items: &Vec<SearchResult>) -> (r: Vec<String>)
    ensures
        views(r@) == picked(
            items@,
            |p: SearchResult| p.selected && !p.installed,
            |p: SearchResult| p.name@,
        ),
{
    let mut r: Vec<String> = Vec::new();
    let mut i: usize = 0;
    while i < items.len()
        invariant
            i <= items@.len(),
            views(r@) == picked(
                items@.subrange(0, i as int),
                |p: SearchResult| p.selected && !p.installed,
                |p: SearchResult| p.name@,
            ),
        decreases items@.len() - i,
    {
        assert(items@.subrange(0, i + 1).drop_last() =~= items@.subrange(0, i as int));
        let ghost before = r@;
        if items[i].selected && !items[i].installed {
            r.push(items[i].name.clone());
            assert(views(r@) =~= views(before).push(items@[i as int].name@));
        }
        i = i + 1;
    }
    assert(items@.subrange(0, i as int) =~= items@);
    r
}

fn selected_rebuild_commands(items: &Vec<RebuildIssue>) -> (r: Vec<String>)
    ensures
        views(r@) == picked(
            items@,
            |p: RebuildIssue| p.selected,
            |p: RebuildIssue| p.rebuild_command@,
        ),
{
    let mut r: Vec<String> = Vec::new();
    let mut i: usize = 0;
    while i < items.len()
        invariant
            i <= items@.len(),
            views(r@) == picked(
                items@.subrange(0, i as int),
                |p: RebuildIssue| p.selected,
                |p: RebuildIssue| p.rebuild_command@,
            ),
        decreases items@.len() - i,
    {
        assert(items@.subrange(0, i + 1).drop_last() =~= items@.subrange(0, i as int));
        let ghost before = r@;
        if items[i].selected {
            r.push(items[i].rebuild_command.clone());
            assert(views(r@) =~= views(before).push(items@[i as int].rebuild_command@));
        }
        i = i + 1;
    }
    assert(items@.subrange(0, i as int) =~= items@);
    r
}

/// The pieces of `v` joined by `sep`.
fn join_strings(v: &Vec<String>, sep: &str) -> (r: String)
    ensures
        r@ == joined(views(v@), sep@),
{
    let mut out = String::new();
    let mut i: usize = 0;
    while i < v.len()
        invariant
            i <= v@.len(),
            out@ == joined(views(v@).subrange(0, i as int), sep@),
        decreases v@.len() - i,
    {
        assert(views(v@).subrange(0, i + 1).drop_last() =~= views(v@).subrange(0, i as int));
        if i > 0 {
            out.append(sep);
        } else {
            assert(out@ =~= Seq::<char>::empty());
        }
        out.append(v[i].as_str());
        i = i + 1;
        assert(out@ =~= joined(views(v@).subrange(0, i as int), sep@));
    }
    assert(views(v@).subrange(0, i as int) =~= views(v@));
    out
}

/// `info` is the detail view of the news item `item`.
pub open spec fn news_info_of(info: NewsInfo, item: NewsItem) -> bool {
    &&& info.title == item.title
    &&& info.author == item.author
    &&& info.date == item.pub_date
    &&& info.link == item.link
    &&& views(info.content@) == crate::text::text_lines(item.description@)
    &&& info.related_packages@ == item.related_packages@
}

/// The text of a news item that is matched against package names: its title,
/// a space, its description.
pub open spec fn news_text(item: NewsItem) -> Seq<char> {
    item.title@ + " "@ + item.description@
}

/// `new` is `old` with each item's related packages recomputed against the
/// installed package names `names`.
pub open spec fn rematched(old: Seq<NewsItem>, new: Seq<NewsItem>, names: Seq<Seq<char>>) -> bool {
    &&& new.len() == old.len()
    &&& forall|i: int|
        0 <= i < old.len() ==> {
            &&& (#[trigger] new[i]).title == old[i].title
            &&& new[i].link == old[i].link
            &&& new[i].description == old[i].description
            &&& new[i].author == old[i].author
            &&& new[i].pub_date == old[i].pub_date
            &&& new[i].requires_attention == old[i].requires_attention
            &&& views(new[i].related_packages@) == related_among(
                crate::text::lower_of(news_text(old[i])),
                names,
            )
        }
}

fn rematch_items(items: &mut Vec<NewsItem>, names: &Vec<String>)
    ensures
        rematched(old(items)@, final(items)@, views(names@)),
{
    let ghost start = items@;
    let mut i: usize = 0;
    while i < items.len()
        invariant
            i <= items@.len(),
            items@.len() == start.len(),
            forall|j: int| i <= j < start.len() ==> #[trigger] items@[j] == start[j],
            forall|j: int|
                0 <= j < i ==> {
                    &&& (#[trigger] items@[j]).title == start[j].title
                    &&& items@[j].link == start[j].link
                    &&& items@[j].description == start[j].description
                    &&& items@[j].author == start[j].author
                    &&& items@[j].pub_date == start[j].pub_date
                    &&& items@[j].requires_attention == start[j].requires_attention
                    &&& views(items@[j].related_packages@) == related_among(
                        crate::text::lower_of(news_text(start[j])),
                        views(names@),
                    )
                },
        decreases start.len() - i,
    {
        let mut full = items[i].title.clone();
        full.append(" ");
        full.append(items[i].description.as_str());
        let related = find_related_packages(full.as_str(), names);
        items[i].related_packages = related;
        i = i + 1;
    }
}

/// `a` and `b` hold the same checks: names, commands, patterns and fixes.
pub open spec fn same_checks(a: Seq<RebuildCheck>, b: Seq<RebuildCheck>) -> bool {
    &&& a.len() == b.len()
    &&& forall|i: int|
        0 <= i < a.len() ==> {
            &&& (#[trigger] a[i]).name == b[i].name
            &&& a[i].command@ == b[i].command@
            &&& a[i].error_patterns@ == b[i].error_patterns@
            &&& a[i].rebuild == b[i].rebuild
        }
}

/// A copy of the checks `v`.
fn copy_checks(v: &Vec<RebuildCheck>) -> (r: Vec<RebuildCheck>)
    ensures
        same_checks(r@, v@),
{
    let mut r: Vec<RebuildCheck> = Vec::new();
    let mut i: usize = 0;
    while i < v.len()
        invariant
            i <= v@.len(),
            r@.len() == i,
            forall|k: int|
                0 <= k < i ==> {
                    &&& (#[trigger] r@[k]).name == v@[k].name
                    &&& r@[k].command@ == v@[k].command@
                    &&& r@[k].error_patterns@ == v@[k].error_patterns@
                    &&& r@[k].rebuild == v@[k].rebuild
                },
        decreases v@.len() - i,
    {
        let c = &v[i];
        r.push(
            RebuildCheck {
                name: c.name.clone(),
                command: clone_strings(&c.command),
                error_patterns: clone_strings(&c.error_patterns),
                rebuild: c.rebuild.clone(),
            },
        );
        i = i + 1;
    }
    r
}

/// The state of the application.
pub struct App {
    pub config: Config,
    pub tab: Tab,
    pub packages: Vec<Package>,
    pub installed_packages: Vec<InstalledPackage>,
    pub orphan_packages: Vec<InstalledPackage>,
    pub rebuild_issues: Vec<RebuildIssue>,
    pub rebuild_checks: Vec<RebuildCheck>,
    pub search_results: Vec<SearchResult>,
    pub search_query: String,
    pub search_loading: bool,
    pub pending_search: Option<String>,
    pub search_debounce_until: Option<u64>,
    pub current_search_id: u64,
    pub list_state: Option<usize>,
    pub installed_list_state: Option<usize>,
    pub orphans_list_state: Option<usize>,
    pub rebuilds_list_state: Option<usize>,
    pub search_list_state: Option<usize>,
    pub news_list_state: Option<usize>,
    pub news_items: Vec<NewsItem>,
    pub news_loading: bool,
    pub news_error: bool,
    pub cached_news_info: Option<NewsInfo>,
    pub news_scroll: u16,
    pub loading: LoadingState,
    pub filter_mode: bool,
    pub filter_text: String,
    pub show_info_pane: bool,
    pub cached_pkg_info: Option<PackageInfo>,
    pub info_loading: bool,
    pub pending_info_fetch: Option<(String, Option<PackageInfo>)>,
    pub info_debounce_until: Option<u64>,
    pub current_info_id: u64,
    pub pending_tasks: usize,
    /// Work asked for and not yet handed out by `take_tasks`.
    pub tasks: Vec<Task>,
}

impl App {
    /// The indices of the updates that the filter shows.
    pub open spec fn updates_visible(&self) -> Seq<int> {
        visible_indices(labels(self.packages@), self.filter_text@)
    }

    /// The indices of the installed packages that the filter shows.
    pub open spec fn installed_visible(&self) -> Seq<int> {
        visible_indices(labels(self.installed_packages@), self.filter_text@)
    }

    /// The number of rows that the listing of `tab` shows.
    pub open spec fn visible_len(&self, tab: Tab) -> nat {
        match tab {
            Tab::Updates => self.updates_visible().len(),
            Tab::Installed => self.installed_visible().len(),
            Tab::Orphans => self.orphan_packages@.len(),
            Tab::Rebuilds => self.rebuild_issues@.len(),
            Tab::Search => self.search_results@.len(),
            Tab::News => self.news_items@.len(),
        }
    }

    /// The cursor of the listing of `tab`.
    pub open spec fn cursor(&self, tab: Tab) -> Option<usize> {
        match tab {
            Tab::Updates => self.list_state,
            Tab::Installed => self.installed_list_state,
            Tab::Orphans => self.orphans_list_state,
            Tab::Rebuilds => self.rebuilds_list_state,
            Tab::Search => self.search_list_state,
            Tab::News => self.news_list_state,
        }
    }

    /// Every cursor indexes the rows that its listing shows.
    pub open spec fn wf(&self) -> bool {
        forall|t: Tab| cursor_ok(#[trigger] self.cursor(t), self.visible_len(t))
    }

    /// The generation counters leave room for one more request each.
    pub open spec fn counters_fit(&self) -> bool {
        self.current_search_id < u64::MAX && self.current_info_id < u64::MAX
    }

    /// The name of the package under the active tab's cursor, through the
    /// filter where the listing has one.
    pub open spec fn selected_name(&self) -> Option<Seq<char>> {
        match self.tab {
            Tab::Updates => match self.list_state {
                Some(k) => if k < self.updates_visible().len() {
                    Some(self.packages@[self.updates_visible()[k as int]].name@)
                } else {
                    None
                },
                None => None,
            },
            Tab::Installed => match self.installed_list_state {
                Some(k) => if k < self.installed_visible().len() {
                    Some(self.installed_packages@[self.installed_visible()[k as int]].name@)
                } else {
                    None
                },
                None => None,
            },
            Tab::Orphans => match self.orphans_list_state {
                Some(k) => if k < self.orphan_packages@.len() {
                    Some(self.orphan_packages@[k as int].name@)
                } else {
                    None
                },
                None => None,
            },
            Tab::Rebuilds => match self.rebuilds_list_state {
                Some(k) => if k < self.rebuild_issues@.len() {
                    Some(self.rebuild_issues@[k as int].name@)
                } else {
                    None
                },
                None => None,
            },
            Tab::Search => match self.search_list_state {
                Some(k) => if k < self.search_results@.len() {
                    Some(self.search_results@[k as int].name@)
                } else {
                    None
                },
                None => None,
            },
            Tab::News => None,
        }
    }

    /// The state at start-up: the Updates tab, empty listings, the detail pane
    /// shown, nothing pending.
    pub fn new(config: Config, rebuild_checks: Vec<RebuildCheck>) -> (r: Self)
        ensures
            r.wf(),
            r.config == config,
            r.rebuild_checks == rebuild_checks,
            r.tab == Tab::Updates,
            r.packages@.len() == 0,
            r.installed_packages@.len() == 0,
            r.orphan_packages@.len() == 0,
            r.rebuild_issues@.len() == 0,
            r.search_results@.len() == 0,
            r.news_items@.len() == 0,
            r.search_query@.len() == 0,
            r.filter_text@.len() == 0,
            !r.filter_mode,
            r.show_info_pane,
            r.current_search_id == 0,
            r.current_info_id == 0,
            r.pending_tasks == 0,
            r.loading == LoadingState::Idle,
            r.tasks@.len() == 0,
    {
        let r = App {
            config,
            tab: Tab::Updates,
            packages: Vec::new(),
            installed_packages: Vec::new(),
            orphan_packages: Vec::new(),
            rebuild_issues: Vec::new(),
            rebuild_checks,
            search_results: Vec::new(),
            search_query: String::new(),
            search_loading: false,
            pending_search: None,
            search_debounce_until: None,
            current_search_id: 0,
            list_state: None,
            installed_list_state: None,
            orphans_list_state: None,
            rebuilds_list_state: None,
            search_list_state: None,
            news_list_state: None,
            news_items: Vec::new(),
            news_loading: false,
            news_error: false,
            cached_news_info: None,
            news_scroll: 0,
            loading: LoadingState::Idle,
            filter_mode: false,
            filter_text: String::new(),
            show_info_pane: true,
            cached_pkg_info: None,
            info_loading: false,
            pending_info_fetch: None,
            info_debounce_until: None,
            current_info_id: 0,
            pending_tasks: 0,
            tasks: Vec::new(),
        };
        assert forall|t: Tab| cursor_ok(#[trigger] r.cursor(t), r.visible_len(t)) by {}
        r
    }

    /// `a` and `b` hold the same listings, filter and settings.
    pub open spec fn data_same(a: &App, b: &App) -> bool {
        &&& a.config == b.config
        &&& a.packages == b.packages
        &&& a.installed_packages == b.installed_packages
        &&& a.orphan_packages == b.orphan_packages
        &&& a.rebuild_issues == b.rebuild_issues
        &&& a.rebuild_checks == b.rebuild_checks
        &&& a.search_results == b.search_results
        &&& a.news_items == b.news_items
        &&& a.filter_text == b.filter_text
    }

    /// `a` and `b` have the same cursors.
    pub open spec fn cursors_same(a: &App, b: &App) -> bool {
        &&& a.list_state == b.list_state
        &&& a.installed_list_state == b.installed_list_state
        &&& a.orphans_list_state == b.orphans_list_state
        &&& a.rebuilds_list_state == b.rebuilds_list_state
        &&& a.search_list_state == b.search_list_state
        &&& a.news_list_state == b.news_list_state
    }

    /// `a` and `b` agree on the detail track.
    pub open spec fn info_same(a: &App, b: &App) -> bool {
        &&& a.cached_pkg_info == b.cached_pkg_info
        &&& a.info_loading == b.info_loading
        &&& a.pending_info_fetch == b.pending_info_fetch
        &&& a.info_debounce_until == b.info_debounce_until
        &&& a.current_info_id == b.current_info_id
    }

    /// `a` and `b` agree on the search track.
    pub open spec fn search_same(a: &App, b: &App) -> bool {
        &&& a.search_query == b.search_query
        &&& a.search_loading == b.search_loading
        &&& a.pending_search == b.pending_search
        &&& a.search_debounce_until == b.search_debounce_until
        &&& a.current_search_id == b.current_search_id
    }

    /// `a` and `b` agree on the tab, the modes, the news pane and the
    /// background bookkeeping.
    pub open spec fn view_same(a: &App, b: &App) -> bool {
        &&& a.tab == b.tab
        &&& a.filter_mode == b.filter_mode
        &&& a.show_info_pane == b.show_info_pane
        &&& a.news_scroll == b.news_scroll
        &&& a.cached_news_info == b.cached_news_info
        &&& a.news_loading == b.news_loading
        &&& a.news_error == b.news_error
        &&& a.loading == b.loading
        &&& a.pending_tasks == b.pending_tasks
        &&& a.tasks == b.tasks
    }

    /// `info` is the stand-in detail view built from the search result `r`:
    /// its name, version, description and repository, nothing else.
    pub open spec fn fallback_for(info: PackageInfo, r: SearchResult) -> bool {
        &&& info.name == r.name
        &&& info.version == r.version
        &&& info.description == r.description
        &&& info.repository == r.repository
        &&& info.size@.len() == 0
        &&& info.install_date is None
        &&& info.install_reason is None
        &&& info.url is None
        &&& info.build_date is None
        &&& info.maintainer is None
        &&& info.votes is None
    }

    /// What asking for details of the row under the cursor does to the detail
    /// track, from `a` to `b` at time `now` (the cursor and rows those of `b`):
    /// with a package under the cursor
    /// the request for it is (re)scheduled after the quiet time, with the
    /// search result as stand-in on the Search tab; with none, the pane is
    /// emptied and nothing is pending.
    pub open spec fn info_requested(a: &App, b: &App, now: u64) -> bool {
        &&& b.current_info_id == a.current_info_id
        &&& match b.selected_name() {
            Some(n) => {
                &&& b.pending_info_fetch matches Some(p)
                &&& p.0@ == n
                &&& (b.tab == Tab::Search ==> (p.1 matches Some(f) && App::fallback_for(
                    f,
                    b.search_results@[b.search_list_state->Some_0 as int],
                )))
                &&& (b.tab != Tab::Search ==> p.1 is None)
                &&& b.info_debounce_until == Some(after(now, INFO_DEBOUNCE_MS))
                &&& b.cached_pkg_info == a.cached_pkg_info
                &&& b.info_loading == a.info_loading
            },
            None => {
                &&& b.pending_info_fetch is None
                &&& b.info_debounce_until is None
                &&& b.cached_pkg_info is None
                &&& !b.info_loading
            },
        }
    }

    /// The updates that the filter shows, with their indices.
    pub fn filtered_updates(&self) -> (r: Vec<(usize, &Package)>)
        ensures
            r@.len() == self.updates_visible().len(),
            forall|k: int|
                0 <= k < r@.len() ==> {
                    &&& (#[trigger] r@[k]).0 == self.updates_visible()[k]
                    &&& r@[k].0 < self.packages@.len()
                    &&& *r@[k].1 == self.packages@[r@[k].0 as int]
                },
    {
        filter_items(&self.packages, self.filter_text.as_str())
    }

    /// The installed packages that the filter shows, with their indices.
    pub fn filtered_installed(&self) -> (r: Vec<(usize, &InstalledPackage)>)
        ensures
            r@.len() == self.installed_visible().len(),
            forall|k: int|
                0 <= k < r@.len() ==> {
                    &&& (#[trigger] r@[k]).0 == self.installed_visible()[k]
                    &&& r@[k].0 < self.installed_packages@.len()
                    &&& *r@[k].1 == self.installed_packages@[r@[k].0 as int]
                },
    {
        filter_items(&self.installed_packages, self.filter_text.as_str())
    }

    /// The index into the updates of the `k`th row that the filter shows.
    fn update_at_row(&self, k: usize) -> (r: Option<usize>)
        ensures
            k < self.updates_visible().len() ==> (r matches Some(i) && i as int
                == self.updates_visible()[k as int] && i < self.packages@.len()),
            k >= self.updates_visible().len() ==> r is None,
    {
        let f = self.filtered_updates();
        if k < f.len() {
            Some(f[k].0)
        } else {
            None
        }
    }

    /// The index into the installed packages of the `k`th row that the filter
    /// shows.
    fn installed_at_row(&self, k: usize) -> (r: Option<usize>)
        ensures
            k < self.installed_visible().len() ==> (r matches Some(i) && i as int
                == self.installed_visible()[k as int] && i < self.installed_packages@.len()),
            k >= self.installed_visible().len() ==> r is None,
    {
        let f = self.filtered_installed();
        if k < f.len() {
            Some(f[k].0)
        } else {
            None
        }
    }

    fn visible_count(&self, tab: Tab) -> (r: usize)
        ensures
            r == self.visible_len(tab),
    {
        match tab {
            Tab::Updates => self.filtered_updates().len(),
            Tab::Installed => self.filtered_installed().len(),
            Tab::Orphans => self.orphan_packages.len(),
            Tab::Rebuilds => self.rebuild_issues.len(),
            Tab::Search => self.search_results.len(),
            Tab::News => self.news_items.len(),
        }
    }

    fn set_cursor(&mut self, tab: Tab, c: Option<usize>)
        ensures
            final(self).cursor(tab) == c,
            forall|t: Tab| t != tab ==> #[trigger] final(self).cursor(t) == old(self).cursor(t),
            App::data_same(old(self), final(self)),
            App::info_same(old(self), final(self)),
            App::search_same(old(self), final(self)),
            App::view_same(old(self), final(self)),
    {
        match tab {
            Tab::Updates => self.list_state = c,
            Tab::Installed => self.installed_list_state = c,
            Tab::Orphans => self.orphans_list_state = c,
            Tab::Rebuilds => self.rebuilds_list_state = c,
            Tab::Search => self.search_list_state = c,
            Tab::News => self.news_list_state = c,
        }
    }

    fn get_selected_package_name(&self) -> (r: Option<String>)
        ensures
            match r {
                Some(n) => self.selected_name() == Some(n@),
                None => self.selected_name() is None,
            },
    {
        match self.tab {
            Tab::Updates => {
                match self.list_state {
                    Some(k) => match self.update_at_row(k) {
                        Some(i) => {
                            assert(k < self.updates_visible().len());
                            assert(i as int == self.updates_visible()[k as int]);
                            Some(self.packages[i].name.clone())
                        },
                        None => None,
                    },
                    None => None,
                }
            },
            Tab::Installed => {
                match self.installed_list_state {
                    Some(k) => match self.installed_at_row(k) {
                        Some(i) => {
                            assert(i as int == self.installed_visible()[k as int]);
                            Some(self.installed_packages[i].name.clone())
                        },
                        None => None,
                    },
                    None => None,
                }
            },
            Tab::Orphans => {
                let k = match self.orphans_list_state {
                    Some(k) => k,
                    None => {
                        return None;
                    },
                };
                if k < self.orphan_packages.len() {
                    Some(self.orphan_packages[k].name.clone())
                } else {
                    None
                }
            },
            Tab::Rebuilds => {
                let k = match self.rebuilds_list_state {
                    Some(k) => k,
                    None => {
                        return None;
                    },
                };
                if k < self.rebuild_issues.len() {
                    Some(self.rebuild_issues[k].name.clone())
                } else {
                    None
                }
            },
            Tab::Search => {
                let k = match self.search_list_state {
                    Some(k) => k,
                    None => {
                        return None;
                    },
                };
                if k < self.search_results.len() {
                    Some(self.search_results[k].name.clone())
                } else {
                    None
                }
            },
            Tab::News => None,
        }
    }

    /// Schedules a detail fetch for the row under the active tab's cursor.
    fn refresh_package_info(&mut self, now: u64)
        ensures
            App::info_requested(old(self), final(self), now),
            App::data_same(old(self), final(self)),
            App::cursors_same(old(self), final(self)),
            App::search_same(old(self), final(self)),
            App::view_same(old(self), final(self)),
    {
        if self.tab == Tab::Search {
            if let Some(idx) = self.search_list_state {
                if idx < self.search_results.len() {
                    let result = &self.search_results[idx];
                    let fallback = PackageInfo {
                        name: result.name.clone(),
                        version: result.version.clone(),
                        description: result.description.clone(),
                        size: String::new(),
                        repository: result.repository.clone(),
                        install_date: None,
                        install_reason: None,
                        url: None,
                        build_date: None,
                        maintainer: None,
                        votes: None,
                    };
                    self.pending_info_fetch = Some((result.name.clone(), Some(fallback)));
                    self.info_debounce_until = Some(deadline_after(now, INFO_DEBOUNCE_MS));
                    return;
                }
            }
            self.pending_info_fetch = None;
            self.info_debounce_until = None;
            self.cached_pkg_info = None;
            self.info_loading = false;
            return;
        }
        match self.get_selected_package_name() {
            Some(name) => {
                self.pending_info_fetch = Some((name, None));
                self.info_debounce_until = Some(deadline_after(now, INFO_DEBOUNCE_MS));
            },
            None => {
                self.pending_info_fetch = None;
                self.info_debounce_until = None;
                self.cached_pkg_info = None;
                self.info_loading = false;
            },
        }
    }

    /// `a` and `b` hold the same listings but for the items of `tab`.
    pub open spec fn others_same(a: &App, b: &App, tab: Tab) -> bool {
        &&& a.config == b.config
        &&& a.rebuild_checks == b.rebuild_checks
        &&& a.filter_text == b.filter_text
        &&& a.news_items == b.news_items
        &&& (tab != Tab::Updates ==> a.packages == b.packages)
        &&& (tab != Tab::Installed ==> a.installed_packages == b.installed_packages)
        &&& (tab != Tab::Orphans ==> a.orphan_packages == b.orphan_packages)
        &&& (tab != Tab::Rebuilds ==> a.rebuild_issues == b.rebuild_issues)
        &&& (tab != Tab::Search ==> a.search_results == b.search_results)
    }

    /// From `a` to `b`, the selection flag of the row under the active tab's
    /// cursor (through the filter) is flipped, and nothing else changes in the
    /// listings; news items have no selection.
    pub open spec fn toggled(a: &App, b: &App) -> bool {
        &&& App::others_same(a, b, a.tab)
        &&& match a.tab {
            Tab::Updates => match a.list_state {
                Some(k) if k < a.updates_visible().len() => {
                    let i = a.updates_visible()[k as int];
                    b.packages@ == a.packages@.update(
                        i,
                        a.packages@[i].with_selected(!a.packages@[i].selected),
                    )
                },
                _ => b.packages == a.packages,
            },
            Tab::Installed => match a.installed_list_state {
                Some(k) if k < a.installed_visible().len() => {
                    let i = a.installed_visible()[k as int];
                    b.installed_packages@ == a.installed_packages@.update(
                        i,
                        a.installed_packages@[i].with_selected(!a.installed_packages@[i].selected),
                    )
                },
                _ => b.installed_packages == a.installed_packages,
            },
            Tab::Orphans => match a.orphans_list_state {
                Some(k) if k < a.orphan_packages@.len() => b.orphan_packages@
                    == a.orphan_packages@.update(
                    k as int,
                    a.orphan_packages@[k as int].with_selected(!a.orphan_packages@[k as int].selected),
                ),
                _ => b.orphan_packages == a.orphan_packages,
            },
            Tab::Rebuilds => match a.rebuilds_list_state {
                Some(k) if k < a.rebuild_issues@.len() => b.rebuild_issues@
                    == a.rebuild_issues@.update(
                    k as int,
                    a.rebuild_issues@[k as int].with_selected(!a.rebuild_issues@[k as int].selected),
                ),
                _ => b.rebuild_issues == a.rebuild_issues,
            },
            Tab::Search => match a.search_list_state {
                Some(k) if k < a.search_results@.len() => b.search_results@
                    == a.search_results@.update(
                    k as int,
                    a.search_results@[k as int].with_selected(!a.search_results@[k as int].selected),
                ),
                _ => b.search_results == a.search_results,
            },
            Tab::News => true,
        }
    }

    /// From `a` to `b`, the rows that the active tab shows get selection flag
    /// `v` and no hidden row changes; on the Search tab, selecting skips
    /// installed results.
    pub open spec fn all_marked(a: &App, b: &App, v: bool) -> bool {
        &&& App::others_same(a, b, a.tab)
        &&& match a.tab {
            Tab::Updates => marked(
                a.packages@,
                b.packages@,
                |j: int| a.updates_visible().contains(j),
                |p: Package| p.with_selected(v),
            ),
            Tab::Installed => marked(
                a.installed_packages@,
                b.installed_packages@,
                |j: int| a.installed_visible().contains(j),
                |p: InstalledPackage| p.with_selected(v),
            ),
            Tab::Orphans => marked(
                a.orphan_packages@,
                b.orphan_packages@,
                |j: int| true,
                |p: InstalledPackage| p.with_selected(v),
            ),
            Tab::Rebuilds => marked(
                a.rebuild_issues@,
                b.rebuild_issues@,
                |j: int| true,
                |p: RebuildIssue| p.with_selected(v),
            ),
            Tab::Search => marked(
                a.search_results@,
                b.search_results@,
                |j: int| !v || !a.search_results@[j].installed,
                |p: SearchResult| p.with_selected(v),
            ),
            Tab::News => true,
        }
    }

    /// Moves the active tab's cursor by `delta` over its visible rows, and
    /// schedules details for the new row when the pane is shown; the news tab
    /// has its own navigation.
    pub fn move_selection(&mut self, delta: i32, now: u64)
        requires
            old(self).wf(),
        ensures
            final(self).wf(),
            App::data_same(old(self), final(self)),
            App::search_same(old(self), final(self)),
            App::view_same(old(self), final(self)),
            ({
                let t = old(self).tab;
                let n = old(self).visible_len(t);
                if t != Tab::News && n > 0 {
                    &&& final(self).cursor(t) == moved(old(self).cursor(t), delta as int, n)
                    &&& forall|u: Tab| u != t ==> #[trigger] final(self).cursor(u) == old(
                        self,
                    ).cursor(u)
                    &&& (old(self).show_info_pane ==> App::info_requested(
                        old(self),
                        final(self),
                        now,
                    ))
                    &&& (!old(self).show_info_pane ==> App::info_same(old(self), final(self)))
                } else {
                    &&& App::cursors_same(old(self), final(self))
                    &&& App::info_same(old(self), final(self))
                }
            }),
    {
        let t = self.tab;
        if t == Tab::News {
            return;
        }
        let n = self.visible_count(t);
        if n == 0 {
            return;
        }
        let c = match t {
            Tab::Updates => self.list_state,
            Tab::Installed => self.installed_list_state,
            Tab::Orphans => self.orphans_list_state,
            Tab::Rebuilds => self.rebuilds_list_state,
            Tab::Search => self.search_list_state,
            Tab::News => self.news_list_state,
        };
        assert(cursor_ok(self.cursor(t), self.visible_len(t)));
        let moved_to = move_cursor(c, delta, n);
        self.set_cursor(t, moved_to);
        assert forall|u: Tab| cursor_ok(#[trigger] self.cursor(u), self.visible_len(u)) by {
            assert(cursor_ok(old(self).cursor(u), old(self).visible_len(u)));
        }
        let ghost mid = *self;
        if self.show_info_pane {
            self.refresh_package_info(now);
            assert forall|u: Tab| cursor_ok(#[trigger] self.cursor(u), self.visible_len(u)) by {
                assert(cursor_ok(mid.cursor(u), mid.visible_len(u)));
                assert(self.cursor(u) == mid.cursor(u));
            }
            assert(App::info_requested(old(self), self, now));
        }
        assert(self.cursor(t) == moved(old(self).cursor(t), delta as int, n as nat));
        assert forall|u: Tab| u != t implies #[trigger] self.cursor(u) == old(self).cursor(u) by {
            assert(mid.cursor(u) == old(self).cursor(u));
        }
    }

    /// Flips the selection flag of the row under the active tab's cursor.
    fn toggle_selection(&mut self)
        ensures
            App::toggled(old(self), final(self)),
            App::cursors_same(old(self), final(self)),
            App::info_same(old(self), final(self)),
            App::search_same(old(self), final(self)),
            App::view_same(old(self), final(self)),
    {
        match self.tab {
            Tab::Updates => {
                if let Some(k) = self.list_state {
                    if let Some(i) = self.update_at_row(k) {
                        let v = !self.packages[i].selected;
                        self.packages[i].selected = v;
                    }
                }
            },
            Tab::Installed => {
                if let Some(k) = self.installed_list_state {
                    if let Some(i) = self.installed_at_row(k) {
                        let v = !self.installed_packages[i].selected;
                        self.installed_packages[i].selected = v;
                    }
                }
            },
            Tab::Orphans => {
                if let Some(k) = self.orphans_list_state {
                    if k < self.orphan_packages.len() {
                        let v = !self.orphan_packages[k].selected;
                        self.orphan_packages[k].selected = v;
                    }
                }
            },
            Tab::Rebuilds => {
                if let Some(k) = self.rebuilds_list_state {
                    if k < self.rebuild_issues.len() {
                        let v = !self.rebuild_issues[k].selected;
                        self.rebuild_issues[k].selected = v;
                    }
                }
            },
            Tab::Search => {
                if let Some(k) = self.search_list_state {
                    if k < self.search_results.len() {
                        let v = !self.search_results[k].selected;
                        self.search_results[k].selected = v;
                    }
                }
            },
            Tab::News => {},
        }
    }

    fn update_rows(&self) -> (r: Vec<usize>)
        ensures
            row_ints(r@) == self.updates_visible(),
            forall|m: int| 0 <= m < r@.len() ==> #[trigger] r@[m] < self.packages@.len(),
    {
        let f = self.filtered_updates();
        let mut r: Vec<usize> = Vec::new();
        let mut k: usize = 0;
        while k < f.len()
            invariant
                k <= f@.len(),
                f@.len() == self.updates_visible().len(),
                forall|m: int|
                    0 <= m < f@.len() ==> {
                        &&& (#[trigger] f@[m]).0 == self.updates_visible()[m]
                        &&& f@[m].0 < self.packages@.len()
                    },
                row_ints(r@) == self.updates_visible().subrange(0, k as int),
                forall|m: int| 0 <= m < r@.len() ==> #[trigger] r@[m] < self.packages@.len(),
            decreases f@.len() - k,
        {
            let ghost before = r@;
            r.push(f[k].0);
            assert(row_ints(r@) =~= row_ints(before).push(f@[k as int].0 as int));
            assert(f@[k as int].0 == self.updates_visible()[k as int]);
            k = k + 1;
            assert(row_ints(r@) =~= self.updates_visible().subrange(0, k as int));
        }
        assert(self.updates_visible().subrange(0, k as int) =~= self.updates_visible());
        r
    }

    fn installed_rows(&self) -> (r: Vec<usize>)
        ensures
            row_ints(r@) == self.installed_visible(),
            forall|m: int| 0 <= m < r@.len() ==> #[trigger] r@[m] < self.installed_packages@.len(),
    {
        let f = self.filtered_installed();
        let mut r: Vec<usize> = Vec::new();
        let mut k: usize = 0;
        while k < f.len()
            invariant
                k <= f@.len(),
                f@.len() == self.installed_visible().len(),
                forall|m: int|
                    0 <= m < f@.len() ==> {
                        &&& (#[trigger] f@[m]).0 == self.installed_visible()[m]
                        &&& f@[m].0 < self.installed_packages@.len()
                    },
                row_ints(r@) == self.installed_visible().subrange(0, k as int),
                forall|m: int|
                    0 <= m < r@.len() ==> #[trigger] r@[m] < self.installed_packages@.len(),
            decreases f@.len() - k,
        {
            let ghost before = r@;
            r.push(f[k].0);
            assert(row_ints(r@) =~= row_ints(before).push(f@[k as int].0 as int));
            assert(f@[k as int].0 == self.installed_visible()[k as int]);
            k = k + 1;
            assert(row_ints(r@) =~= self.installed_visible().subrange(0, k as int));
        }
        assert(self.installed_visible().subrange(0, k as int) =~= self.installed_visible());
        r
    }

    /// Selects the rows that the active tab shows (on Search, those not
    /// installed).
    fn select_all(&mut self)
        ensures
            App::all_marked(old(self), final(self), true),
            App::cursors_same(old(self), final(self)),
            App::info_same(old(self), final(self)),
            App::search_same(old(self), final(self)),
            App::view_same(old(self), final(self)),
    {
        self.mark_visible(true)
    }

    /// Deselects the rows that the active tab shows.
    fn select_none(&mut self)
        ensures
            App::all_marked(old(self), final(self), false),
            App::cursors_same(old(self), final(self)),
            App::info_same(old(self), final(self)),
            App::search_same(old(self), final(self)),
            App::view_same(old(self), final(self)),
    {
        self.mark_visible(false)
    }

    /// Gives the rows that the active tab shows selection flag `v`; on the
    /// Search tab, selecting skips installed results.
    fn mark_visible(&mut self, v: bool)
        ensures
            App::all_marked(old(self), final(self), v),
            App::cursors_same(old(self), final(self)),
            App::info_same(old(self), final(self)),
            App::search_same(old(self), final(self)),
            App::view_same(old(self), final(self)),
    {
        match self.tab {
            Tab::Updates => {
                let rows = self.update_rows();
                mark_packages(&mut self.packages, &rows, v);
            },
            Tab::Installed => {
                let rows = self.installed_rows();
                mark_installed(&mut self.installed_packages, &rows, v);
            },
            Tab::Orphans => mark_all_installed(&mut self.orphan_packages, v),
            Tab::Rebuilds => mark_all_issues(&mut self.rebuild_issues, v),
            Tab::Search => mark_results(&mut self.search_results, v),
            Tab::News => {},
        }
    }

    /// What the update key asks for: on the Updates tab, the selected updates,
    /// else the one under the cursor (through the filter), else nothing.
    pub open spec fn update_action(a: &App) -> ActionView {
        let s = picked(a.packages@, |p: Package| p.selected, |p: Package| p.name@);
        if a.tab != Tab::Updates {
            ActionView::NoOp
        } else if s.len() > 0 {
            ActionView::RunUpdate(s)
        } else {
            match a.selected_name() {
                Some(n) => ActionView::RunUpdate(seq![n]),
                None => ActionView::NoOp,
            }
        }
    }

    /// The packages that the uninstall and reinstall keys act on, on the
    /// Installed (or, for uninstalling, Orphans) tab: the selected ones, else
    /// the one under the cursor, else none.
    pub open spec fn target_names(a: &App) -> Seq<Seq<char>> {
        let s = match a.tab {
            Tab::Orphans => picked(
                a.orphan_packages@,
                |p: InstalledPackage| p.selected,
                |p: InstalledPackage| p.name@,
            ),
            _ => picked(
                a.installed_packages@,
                |p: InstalledPackage| p.selected,
                |p: InstalledPackage| p.name@,
            ),
        };
        if s.len() > 0 {
            s
        } else {
            match a.selected_name() {
                Some(n) => seq![n],
                None => Seq::empty(),
            }
        }
    }

    /// What the uninstall keys ask for (`with_deps` for removing dependencies
    /// too).
    pub open spec fn uninstall_action(a: &App, with_deps: bool) -> ActionView {
        let s = App::target_names(a);
        if (a.tab != Tab::Installed && a.tab != Tab::Orphans) || s.len() == 0 {
            ActionView::NoOp
        } else if with_deps {
            ActionView::UninstallWithDeps(s)
        } else {
            ActionView::Uninstall(s)
        }
    }

    /// What the reinstall keys ask for (`force_rebuild` for rebuilding from
    /// source).
    pub open spec fn reinstall_action(a: &App, force_rebuild: bool) -> ActionView {
        let s = App::target_names(a);
        if a.tab != Tab::Installed || s.len() == 0 {
            ActionView::NoOp
        } else if force_rebuild {
            ActionView::ForceRebuild(s)
        } else {
            ActionView::Reinstall(s)
        }
    }

    /// What Enter asks for: on Updates, updating everything; on Rebuilds, the
    /// selected fixes joined into one command, else the one under the cursor.
    pub open spec fn enter_action(a: &App) -> ActionView {
        match a.tab {
            Tab::Updates => ActionView::RunUpdate(Seq::empty()),
            Tab::Rebuilds => {
                let s = picked(
                    a.rebuild_issues@,
                    |p: RebuildIssue| p.selected,
                    |p: RebuildIssue| p.rebuild_command@,
                );
                if s.len() > 0 {
                    ActionView::RunRebuild(joined(s, " && "@))
                } else {
                    match a.rebuilds_list_state {
                        Some(k) if k < a.rebuild_issues@.len() => ActionView::RunRebuild(
                            a.rebuild_issues@[k as int].rebuild_command@,
                        ),
                        _ => ActionView::NoOp,
                    }
                }
            },
            _ => ActionView::NoOp,
        }
    }

    /// What Enter asks for on the Search tab: installing the selected results
    /// that are not installed, else the one under the cursor if it is not.
    pub open spec fn install_action(a: &App) -> ActionView {
        let s = picked(
            a.search_results@,
            |p: SearchResult| p.selected && !p.installed,
            |p: SearchResult| p.name@,
        );
        if a.tab != Tab::Search {
            ActionView::NoOp
        } else if s.len() > 0 {
            ActionView::Install(s)
        } else {
            match a.search_list_state {
                Some(k) if k < a.search_results@.len() && !a.search_results@[k as int].installed =>
                    ActionView::Install(seq![a.search_results@[k as int].name@]),
                _ => ActionView::NoOp,
            }
        }
    }

    fn run_selected_update(&self) -> (r: Action)
        ensures
            r@ == App::update_action(self),
    {
        if self.tab != Tab::Updates {
            return Action::NoOp;
        }
        let selected = selected_update_names(&self.packages);
        if selected.len() > 0 {
            return Action::RunUpdate(selected);
        }
        match self.get_selected_package_name() {
            Some(n) => {
                let mut v: Vec<String> = Vec::new();
                v.push(n);
                assert(views(v@) =~= seq![n@]);
                Action::RunUpdate(v)
            },
            None => Action::NoOp,
        }
    }

    fn target_list(&self) -> (r: Vec<String>)
        requires
            self.tab == Tab::Installed || self.tab == Tab::Orphans,
        ensures
            views(r@) == App::target_names(self),
    {
        let selected = if self.tab == Tab::Orphans {
            selected_installed_names(&self.orphan_packages)
        } else {
            selected_installed_names(&self.installed_packages)
        };
        if selected.len() > 0 {
            return selected;
        }
        let mut r: Vec<String> = Vec::new();
        match self.get_selected_package_name() {
            Some(n) => {
                r.push(n);
                assert(views(r@) =~= seq![n@]);
            },
            None => {
                assert(views(r@) =~= Seq::<Seq<char>>::empty());
            },
        }
        r
    }

    fn uninstall_selected(&self, with_deps: bool) -> (r: Action)
        ensures
            r@ == App::uninstall_action(self, with_deps),
    {
        if self.tab != Tab::Installed && self.tab != Tab::Orphans {
            return Action::NoOp;
        }
        let names = self.target_list();
        if names.len() == 0 {
            Action::NoOp
        } else if with_deps {
            Action::UninstallWithDeps(names)
        } else {
            Action::Uninstall(names)
        }
    }

    fn reinstall_selected(&self, force_rebuild: bool) -> (r: Action)
        ensures
            r@ == App::reinstall_action(self, force_rebuild),
    {
        if self.tab != Tab::Installed {
            return Action::NoOp;
        }
        let names = self.target_list();
        if names.len() == 0 {
            Action::NoOp
        } else if force_rebuild {
            Action::ForceRebuild(names)
        } else {
            Action::Reinstall(names)
        }
    }

    fn run_action(&self) -> (r: Action)
        ensures
            r@ == App::enter_action(self),
    {
        match self.tab {
            Tab::Updates => {
                let r = Action::RunUpdate(Vec::new());
                assert(r@ == ActionView::RunUpdate(Seq::<Seq<char>>::empty())) by {
                    assert(views(Seq::<String>::empty()) =~= Seq::<Seq<char>>::empty());
                }
                r
            },
            Tab::Rebuilds => {
                let selected = selected_rebuild_commands(&self.rebuild_issues);
                if selected.len() > 0 {
                    Action::RunRebuild(join_strings(&selected, " && "))
                } else {
                    match self.rebuilds_list_state {
                        Some(k) => if k < self.rebuild_issues.len() {
                            Action::RunRebuild(self.rebuild_issues[k].rebuild_command.clone())
                        } else {
                            Action::NoOp
                        },
                        None => Action::NoOp,
                    }
                }
            },
            _ => Action::NoOp,
        }
    }

    /// Installing from the Search tab: the selected results that are not
    /// installed, else the one under the cursor if it is not.
    pub fn install_selected(&self) -> (r: Action)
        ensures
            r@ == App::install_action(self),
    {
        if self.tab != Tab::Search {
            return Action::NoOp;
        }
        let selected = selected_installable_names(&self.search_results);
        if selected.len() > 0 {
            return Action::Install(selected);
        }
        match self.search_list_state {
            Some(k) => {
                if k < self.search_results.len() && !self.search_results[k].installed {
                    let mut v: Vec<String> = Vec::new();
                    v.push(self.search_results[k].name.clone());
                    assert(views(v@) =~= seq![self.search_results@[k as int].name@]);
                    Action::Install(v)
                } else {
                    Action::NoOp
                }
            },
            None => Action::NoOp,
        }
    }

    /// Starts a refresh of the updates, the installed packages and the
    /// rebuild checks: three answers are awaited.
    pub fn refresh(&mut self)
        ensures
            final(self).loading == LoadingState::Loading,
            final(self).pending_tasks == if old(self).pending_tasks <= usize::MAX - 3 {
                (old(self).pending_tasks + 3) as usize
            } else {
                usize::MAX
            },
            final(self).tasks@ == old(self).tasks@.push(final(self).tasks@.last()),
            final(self).tasks@.last() matches Task::Refresh { checks, aur_helper } && same_checks(
                checks@,
                old(self).rebuild_checks@,
            ) && aur_helper == old(self).config.aur_helper,
            App::data_same(old(self), final(self)),
            App::cursors_same(old(self), final(self)),
            App::info_same(old(self), final(self)),
            App::search_same(old(self), final(self)),
            final(self).tab == old(self).tab,
            final(self).filter_mode == old(self).filter_mode,
            final(self).show_info_pane == old(self).show_info_pane,
    {
        self.loading = LoadingState::Loading;
        self.pending_tasks = self.pending_tasks.saturating_add(3);
        let checks = copy_checks(&self.rebuild_checks);
        let aur_helper = self.config.aur_helper.clone();
        self.tasks.push(Task::Refresh { checks, aur_helper });
    }

    /// Starts a refresh of the installed packages.
    pub fn refresh_installed(&mut self)
        ensures
            final(self).loading == LoadingState::Loading,
            final(self).pending_tasks == if old(self).pending_tasks < usize::MAX {
                (old(self).pending_tasks + 1) as usize
            } else {
                usize::MAX
            },
            final(self).tasks@ == old(self).tasks@.push(Task::RefreshInstalled),
            App::data_same(old(self), final(self)),
            App::cursors_same(old(self), final(self)),
            App::info_same(old(self), final(self)),
            App::search_same(old(self), final(self)),
            final(self).tab == old(self).tab,
            final(self).filter_mode == old(self).filter_mode,
            final(self).show_info_pane == old(self).show_info_pane,
    {
        self.loading = LoadingState::Loading;
        self.pending_tasks = self.pending_tasks.saturating_add(1);
        self.tasks.push(Task::RefreshInstalled);
    }

    /// Starts the rebuild checks.
    pub fn refresh_rebuilds(&mut self)
        ensures
            final(self).loading == LoadingState::Loading,
            final(self).pending_tasks == if old(self).pending_tasks < usize::MAX {
                (old(self).pending_tasks + 1) as usize
            } else {
                usize::MAX
            },
            final(self).tasks@ == old(self).tasks@.push(final(self).tasks@.last()),
            final(self).tasks@.last() matches Task::RefreshRebuilds { checks } && same_checks(
                checks@,
                old(self).rebuild_checks@,
            ),
            App::data_same(old(self), final(self)),
            App::cursors_same(old(self), final(self)),
            App::info_same(old(self), final(self)),
            App::search_same(old(self), final(self)),
            final(self).tab == old(self).tab,
            final(self).filter_mode == old(self).filter_mode,
            final(self).show_info_pane == old(self).show_info_pane,
    {
        self.loading = LoadingState::Loading;
        self.pending_tasks = self.pending_tasks.saturating_add(1);
        let checks = copy_checks(&self.rebuild_checks);
        self.tasks.push(Task::RefreshRebuilds { checks });
    }

    /// Starts a refresh of the orphaned packages.
    pub fn refresh_orphans(&mut self)
        ensures
            final(self).loading == LoadingState::Loading,
            final(self).pending_tasks == if old(self).pending_tasks < usize::MAX {
                (old(self).pending_tasks + 1) as usize
            } else {
                usize::MAX
            },
            final(self).tasks@ == old(self).tasks@.push(Task::RefreshOrphans),
            App::data_same(old(self), final(self)),
            App::cursors_same(old(self), final(self)),
            App::info_same(old(self), final(self)),
            App::search_same(old(self), final(self)),
            final(self).tab == old(self).tab,
            final(self).filter_mode == old(self).filter_mode,
            final(self).show_info_pane == old(self).show_info_pane,
    {
        self.loading = LoadingState::Loading;
        self.pending_tasks = self.pending_tasks.saturating_add(1);
        self.tasks.push(Task::RefreshOrphans);
    }

    /// The names of the installed packages, in order.
    pub open spec fn installed_names(&self) -> Seq<Seq<char>> {
        self.installed_packages@.map_values(|p: InstalledPackage| p.name@)
    }

    fn installed_name_list(&self) -> (r: Vec<String>)
        ensures
            views(r@) == self.installed_names(),
    {
        let mut r: Vec<String> = Vec::new();
        let mut i: usize = 0;
        while i < self.installed_packages.len()
            invariant
                i <= self.installed_packages@.len(),
                views(r@) == self.installed_names().subrange(0, i as int),
            decreases self.installed_packages@.len() - i,
        {
            let ghost before = r@;
            r.push(self.installed_packages[i].name.clone());
            assert(views(r@) =~= views(before).push(self.installed_packages@[i as int].name@));
            i = i + 1;
            assert(views(r@) =~= self.installed_names().subrange(0, i as int));
        }
        assert(self.installed_names().subrange(0, i as int) =~= self.installed_names());
        r
    }

    /// Starts fetching the news feed, to be matched against the installed
    /// packages.
    pub fn refresh_news(&mut self)
        ensures
            App::news_requested(old(self), final(self)),
            App::data_same(old(self), final(self)),
            App::cursors_same(old(self), final(self)),
            App::info_same(old(self), final(self)),
            App::search_same(old(self), final(self)),
            final(self).tab == old(self).tab,
            final(self).filter_mode == old(self).filter_mode,
            final(self).show_info_pane == old(self).show_info_pane,
    {
        self.news_loading = true;
        self.news_error = false;
        let installed_names = self.installed_name_list();
        self.tasks.push(Task::RefreshNews { installed_names });
    }

    /// Reacts to an edit of the search query: a query of two characters or
    /// more is (re)scheduled after the quiet time; a shorter one clears the
    /// results at once, drops the pending search and makes any search in
    /// flight stale.
    pub fn do_search(&mut self, now: u64)
        requires
            old(self).wf(),
            old(self).current_search_id < u64::MAX,
        ensures
            final(self).wf(),
            final(self).search_query == old(self).search_query,
            old(self).search_query@.len() >= 2 ==> {
                &&& final(self).pending_search == Some(old(self).search_query)
                &&& final(self).search_debounce_until == Some(after(now, SEARCH_DEBOUNCE_MS))
                &&& final(self).current_search_id == old(self).current_search_id
                &&& final(self).search_results == old(self).search_results
                &&& final(self).search_list_state == old(self).search_list_state
                &&& final(self).search_loading == old(self).search_loading
            },
            old(self).search_query@.len() < 2 ==> {
                &&& final(self).pending_search is None
                &&& final(self).search_debounce_until is None
                &&& final(self).search_results@.len() == 0
                &&& final(self).search_list_state is None
                &&& !final(self).search_loading
                &&& final(self).current_search_id == old(self).current_search_id + 1
            },
            final(self).packages == old(self).packages,
            final(self).installed_packages == old(self).installed_packages,
            final(self).orphan_packages == old(self).orphan_packages,
            final(self).rebuild_issues == old(self).rebuild_issues,
            final(self).news_items == old(self).news_items,
            final(self).filter_text == old(self).filter_text,
            final(self).list_state == old(self).list_state,
            final(self).installed_list_state == old(self).installed_list_state,
            final(self).orphans_list_state == old(self).orphans_list_state,
            final(self).rebuilds_list_state == old(self).rebuilds_list_state,
            final(self).news_list_state == old(self).news_list_state,
            App::info_same(old(self), final(self)),
            App::view_same(old(self), final(self)),
    {
        if self.search_query.as_str().unicode_len() >= 2 {
            self.pending_search = Some(self.search_query.clone());
            self.search_debounce_until = Some(deadline_after(now, SEARCH_DEBOUNCE_MS));
        } else {
            self.pending_search = None;
            self.search_debounce_until = None;
            self.search_results = Vec::new();
            self.search_list_state = None;
            self.search_loading = false;
            self.current_search_id = self.current_search_id + 1;
        }
        proof {
            let a = old(self);
            assert forall|t: Tab| cursor_ok(#[trigger] self.cursor(t), self.visible_len(t)) by {
                assert(cursor_ok(a.cursor(t), a.visible_len(t)));
            }
        }
    }

    /// Sends the pending search once its quiet time has passed at `now`: it
    /// gets the next generation, and only its result will be applied.
    pub fn check_search_debounce(&mut self, now: u64) -> (r: bool)
        requires
            old(self).current_search_id < u64::MAX,
        ensures
            r == (old(self).pending_search is Some && due(old(self).search_debounce_until, now)),
            r ==> {
                &&& final(self).current_search_id == old(self).current_search_id + 1
                &&& final(self).search_loading
                &&& final(self).pending_search is None
                &&& final(self).search_debounce_until is None
                &&& final(self).tasks@ == old(self).tasks@.push(
                    Task::Search {
                        id: final(self).current_search_id,
                        query: old(self).pending_search->Some_0,
                    },
                )
            },
            !r ==> *final(self) == *old(self),
            App::data_same(old(self), final(self)),
            App::cursors_same(old(self), final(self)),
            App::info_same(old(self), final(self)),
            final(self).search_query == old(self).search_query,
            final(self).tab == old(self).tab,
            final(self).filter_mode == old(self).filter_mode,
            final(self).show_info_pane == old(self).show_info_pane,
            final(self).pending_tasks == old(self).pending_tasks,
    {
        let ready = match (&self.pending_search, self.search_debounce_until) {
            (Some(_), Some(d)) => now >= d,
            _ => false,
        };
        if !ready {
            return false;
        }
        let mut pending: Option<String> = None;
        std::mem::swap(&mut pending, &mut self.pending_search);
        self.search_debounce_until = None;
        match pending {
            Some(query) => {
                self.current_search_id = self.current_search_id + 1;
                self.search_loading = true;
                let id = self.current_search_id;
                self.tasks.push(Task::Search { id, query });
            },
            None => {},
        }
        true
    }

    /// Sends the pending detail fetch once its quiet time has passed at `now`:
    /// it gets the next generation, and only its result will be applied.
    pub fn check_info_debounce(&mut self, now: u64) -> (r: bool)
        requires
            old(self).current_info_id < u64::MAX,
        ensures
            r == (old(self).pending_info_fetch is Some && due(old(self).info_debounce_until, now)),
            r ==> {
                &&& final(self).current_info_id == old(self).current_info_id + 1
                &&& final(self).info_loading
                &&& final(self).pending_info_fetch is None
                &&& final(self).info_debounce_until is None
                &&& final(self).cached_pkg_info == old(self).cached_pkg_info
                &&& final(self).tasks@ == old(self).tasks@.push(
                    Task::PackageInfo {
                        id: final(self).current_info_id,
                        name: old(self).pending_info_fetch->Some_0.0,
                        fallback: old(self).pending_info_fetch->Some_0.1,
                    },
                )
            },
            !r ==> *final(self) == *old(self),
            App::data_same(old(self), final(self)),
            App::cursors_same(old(self), final(self)),
            App::search_same(old(self), final(self)),
            final(self).tab == old(self).tab,
            final(self).filter_mode == old(self).filter_mode,
            final(self).show_info_pane == old(self).show_info_pane,
            final(self).pending_tasks == old(self).pending_tasks,
    {
        let ready = match (&self.pending_info_fetch, self.info_debounce_until) {
            (Some(_), Some(d)) => now >= d,
            _ => false,
        };
        if !ready {
            return false;
        }
        let mut pending: Option<(String, Option<PackageInfo>)> = None;
        std::mem::swap(&mut pending, &mut self.pending_info_fetch);
        self.info_debounce_until = None;
        match pending {
            Some((name, fallback)) => {
                self.current_info_id = self.current_info_id + 1;
                self.info_loading = true;
                let id = self.current_info_id;
                self.tasks.push(Task::PackageInfo { id, name, fallback });
            },
            None => {},
        }
        true
    }

    /// Fills the news pane from the item under the news cursor.
    fn refresh_news_info(&mut self)
        ensures
            match old(self).news_list_state {
                Some(k) if k < old(self).news_items@.len() => final(self).cached_news_info matches Some(
                    info,
                ) && news_info_of(info, old(self).news_items@[k as int]),
                _ => final(self).cached_news_info is None,
            },
            App::data_same(old(self), final(self)),
            App::cursors_same(old(self), final(self)),
            App::info_same(old(self), final(self)),
            App::search_same(old(self), final(self)),
            final(self).tab == old(self).tab,
            final(self).filter_mode == old(self).filter_mode,
            final(self).show_info_pane == old(self).show_info_pane,
            final(self).news_scroll == old(self).news_scroll,
            final(self).news_loading == old(self).news_loading,
            final(self).news_error == old(self).news_error,
            final(self).loading == old(self).loading,
            final(self).pending_tasks == old(self).pending_tasks,
            final(self).tasks == old(self).tasks,
    {
        match self.news_list_state {
            Some(k) => {
                if k < self.news_items.len() {
                    self.cached_news_info = Some(self.news_items[k].to_info());
                } else {
                    self.cached_news_info = None;
                }
            },
            None => {
                self.cached_news_info = None;
            },
        }
    }

    /// Moves the news cursor by `delta`, back to the top of the article.
    pub fn move_news_selection(&mut self, delta: i32)
        requires
            old(self).wf(),
        ensures
            final(self).wf(),
            old(self).news_items@.len() > 0 ==> {
                &&& final(self).news_list_state == moved(
                    old(self).news_list_state,
                    delta as int,
                    old(self).news_items@.len(),
                )
                &&& final(self).news_scroll == 0
            },
            old(self).news_items@.len() == 0 ==> *final(self) == *old(self),
            App::data_same(old(self), final(self)),
            App::info_same(old(self), final(self)),
            App::search_same(old(self), final(self)),
            final(self).tab == old(self).tab,
            final(self).filter_mode == old(self).filter_mode,
            final(self).show_info_pane == old(self).show_info_pane,
            final(self).list_state == old(self).list_state,
            final(self).installed_list_state == old(self).installed_list_state,
            final(self).orphans_list_state == old(self).orphans_list_state,
            final(self).rebuilds_list_state == old(self).rebuilds_list_state,
            final(self).search_list_state == old(self).search_list_state,
            final(self).pending_tasks == old(self).pending_tasks,
            final(self).tasks == old(self).tasks,
    {
        if self.news_items.len() == 0 {
            return;
        }
        assert(cursor_ok(self.cursor(Tab::News), self.visible_len(Tab::News)));
        let c = move_cursor(self.news_list_state, delta, self.news_items.len());
        self.news_list_state = c;
        self.news_scroll = 0;
        if self.show_info_pane {
            self.refresh_news_info();
        }
        proof {
            let a = old(self);
            assert forall|t: Tab| cursor_ok(#[trigger] self.cursor(t), self.visible_len(t)) by {
                assert(cursor_ok(a.cursor(t), a.visible_len(t)));
            }
        }
    }

    /// The largest article scroll for the cached news details: the lines of
    /// the header (four, five with related packages) and of the content, less
    /// three, capped at the largest `u16`.
    pub open spec fn max_news_scroll(info: NewsInfo) -> int {
        let header: int = if info.related_packages@.len() == 0 { 4 } else { 5 };
        let total = header + info.content@.len();
        let m = if total >= 3 { total - 3 } else { 0 };
        if m > u16::MAX { u16::MAX as int } else { m }
    }

    /// Keeps the article scroll within the cached news details.
    fn clamp_news_scroll(&mut self)
        ensures
            final(self).news_scroll == match old(self).cached_news_info {
                Some(info) => if old(self).news_scroll as int > App::max_news_scroll(info) {
                    App::max_news_scroll(info) as u16
                } else {
                    old(self).news_scroll
                },
                None => old(self).news_scroll,
            },
            App::data_same(old(self), final(self)),
            App::cursors_same(old(self), final(self)),
            App::info_same(old(self), final(self)),
            App::search_same(old(self), final(self)),
            final(self).tab == old(self).tab,
            final(self).filter_mode == old(self).filter_mode,
            final(self).show_info_pane == old(self).show_info_pane,
            final(self).cached_news_info == old(self).cached_news_info,
            final(self).pending_tasks == old(self).pending_tasks,
            final(self).tasks == old(self).tasks,
    {
        let max: u16 = match &self.cached_news_info {
            Some(info) => {
                let header: usize = if info.related_packages.len() == 0 { 4 } else { 5 };
                let lines = info.content.len();
                let total: usize = if lines > usize::MAX - header { usize::MAX } else { header + lines };
                let m: usize = if total >= 3 { total - 3 } else { 0 };
                if m > 0xFFFF { 0xFFFF } else { m as u16 }
            },
            None => {
                return;
            },
        };
        if self.news_scroll > max {
            self.news_scroll = max;
        }
    }

    /// Recomputes which installed packages each news item mentions, now that
    /// the installed list changed; nothing is done while either list is empty.
    fn rematch_news_packages(&mut self)
        requires
            old(self).wf(),
        ensures
            final(self).wf(),
            old(self).news_items@.len() > 0 && old(self).installed_packages@.len() > 0
                ==> rematched(old(self).news_items@, final(self).news_items@, old(self).installed_names()),
            old(self).news_items@.len() == 0 || old(self).installed_packages@.len() == 0
                ==> final(self).news_items == old(self).news_items,
            final(self).config == old(self).config,
            final(self).rebuild_checks == old(self).rebuild_checks,
            final(self).packages == old(self).packages,
            final(self).installed_packages == old(self).installed_packages,
            final(self).orphan_packages == old(self).orphan_packages,
            final(self).rebuild_issues == old(self).rebuild_issues,
            final(self).search_results == old(self).search_results,
            final(self).filter_text == old(self).filter_text,
            App::cursors_same(old(self), final(self)),
            App::info_same(old(self), final(self)),
            App::search_same(old(self), final(self)),
            final(self).tab == old(self).tab,
            final(self).filter_mode == old(self).filter_mode,
            final(self).show_info_pane == old(self).show_info_pane,
            final(self).pending_tasks == old(self).pending_tasks,
            final(self).loading == old(self).loading,
            final(self).tasks == old(self).tasks,
    {
        if self.news_items.len() == 0 || self.installed_packages.len() == 0 {
            return;
        }
        let names = self.installed_name_list();
        rematch_items(&mut self.news_items, &names);
        if self.show_info_pane && self.tab == Tab::News {
            self.refresh_news_info();
        }
        proof {
            let a = old(self);
            assert forall|t: Tab| cursor_ok(#[trigger] self.cursor(t), self.visible_len(t)) by {
                assert(cursor_ok(a.cursor(t), a.visible_len(t)));
            }
        }
    }

    /// From `a` to `b`, the answer `result` was applied at time `now` (see
    /// `apply_result`).
    pub open spec fn applied(a: &App, b: &App, result: TaskResult, now: u64) -> bool {
        &&& b.wf()
        &&& b.current_search_id == a.current_search_id
        &&& b.current_info_id == a.current_info_id
        &&& b.tab == a.tab
        &&& b.filter_text == a.filter_text
        &&& b.filter_mode == a.filter_mode
        &&& b.show_info_pane == a.show_info_pane
        &&& b.search_query == a.search_query
        &&& b.pending_search == a.pending_search
        &&& b.tasks == a.tasks
        &&& b.loading == a.loading
        &&& match result {
            TaskResult::Updates(pacman, aur) => {
                &&& b.packages@ == pacman@ + aur@
                &&& b.list_state == clamped(a.list_state, b.visible_len(Tab::Updates))
                &&& b.pending_tasks == App::one_less(a.pending_tasks)
                &&& App::rest_same(a, b, Tab::Updates)
                &&& App::details_followed(a, b, Tab::Updates, now)
            },
            TaskResult::Installed(installed) => {
                &&& b.installed_packages@ == installed@
                &&& b.installed_list_state == clamped(
                    a.installed_list_state,
                    b.visible_len(Tab::Installed),
                )
                &&& (a.news_items@.len() > 0 && installed@.len() > 0 ==> rematched(
                    a.news_items@,
                    b.news_items@,
                    b.installed_names(),
                ))
                &&& (a.news_items@.len() == 0 || installed@.len() == 0 ==> b.news_items
                    == a.news_items)
                &&& b.pending_tasks == App::one_less(a.pending_tasks)
                &&& App::rest_same(a, b, Tab::Installed)
                &&& App::details_followed(a, b, Tab::Installed, now)
            },
            TaskResult::Orphans(orphans) => {
                &&& b.orphan_packages@ == orphans@
                &&& b.orphans_list_state == clamped(a.orphans_list_state, orphans@.len())
                &&& b.pending_tasks == App::one_less(a.pending_tasks)
                &&& App::rest_same(a, b, Tab::Orphans)
                &&& App::details_followed(a, b, Tab::Orphans, now)
            },
            TaskResult::Rebuilds(issues) => {
                &&& b.rebuild_issues@ == issues@
                &&& b.rebuilds_list_state == clamped(a.rebuilds_list_state, issues@.len())
                &&& b.pending_tasks == App::one_less(a.pending_tasks)
                &&& App::rest_same(a, b, Tab::Rebuilds)
                &&& App::details_followed(a, b, Tab::Rebuilds, now)
            },
            TaskResult::Search(id, results) => if accepted(a.current_search_id, id) {
                &&& b.search_results@ == results@
                &&& !b.search_loading
                &&& b.search_list_state == clamped(a.search_list_state, results@.len())
                &&& b.pending_tasks == a.pending_tasks
                &&& App::rest_same(a, b, Tab::Search)
                &&& (a.show_info_pane ==> App::info_requested(a, b, now))
                &&& (!a.show_info_pane ==> App::info_same(a, b))
            } else {
                *b == *a
            },
            TaskResult::PackageInfo(id, info) => if accepted(a.current_info_id, id) {
                &&& b.cached_pkg_info == info
                &&& !b.info_loading
                &&& b.pending_tasks == a.pending_tasks
                &&& App::data_same(a, b)
                &&& App::cursors_same(a, b)
            } else {
                *b == *a
            },
            TaskResult::News(Ok(items)) => {
                &&& b.news_items@ == items@
                &&& !b.news_loading
                &&& !b.news_error
                &&& b.news_list_state == clamped(a.news_list_state, items@.len())
                &&& b.pending_tasks == a.pending_tasks
                &&& App::rest_same(a, b, Tab::News)
                &&& App::info_same(a, b)
                &&& (a.show_info_pane && a.tab == Tab::News ==> App::news_pane_filled(b))
            },
            TaskResult::News(Err(_)) => {
                &&& b.news_items == a.news_items
                &&& !b.news_loading
                &&& b.news_error
                &&& b.news_list_state == a.news_list_state
                &&& b.cached_news_info == a.cached_news_info
                &&& b.pending_tasks == a.pending_tasks
                &&& App::data_same(a, b)
                &&& App::cursors_same(a, b)
                &&& App::info_same(a, b)
            },
        }
    }

    /// From `a` to `b` only the listing of tab `t` and its cursor changed
    /// (and, for the installed packages, the news items' related packages).
    pub open spec fn rest_same(a: &App, b: &App, t: Tab) -> bool {
        &&& b.config == a.config
        &&& b.rebuild_checks == a.rebuild_checks
        &&& (t != Tab::Updates ==> b.packages == a.packages)
        &&& (t != Tab::Installed ==> b.installed_packages == a.installed_packages)
        &&& (t != Tab::Orphans ==> b.orphan_packages == a.orphan_packages)
        &&& (t != Tab::Rebuilds ==> b.rebuild_issues == a.rebuild_issues)
        &&& (t != Tab::Search ==> b.search_results == a.search_results)
        &&& (t != Tab::News && t != Tab::Installed ==> b.news_items == a.news_items)
        &&& forall|u: Tab| u != t ==> #[trigger] b.cursor(u) == a.cursor(u)
    }

    /// After the listing of tab `t` was replaced from `a` to `b`, details are
    /// requested anew when the pane shows that tab, and stay otherwise.
    pub open spec fn details_followed(a: &App, b: &App, t: Tab, now: u64) -> bool {
        &&& (a.show_info_pane && a.tab == t ==> App::info_requested(a, b, now))
        &&& (!(a.show_info_pane && a.tab == t) ==> App::info_same(a, b))
    }

    /// One refresh fewer outstanding, never below none.
    pub open spec fn one_less(n: usize) -> usize {
        if n > 0 {
            (n - 1) as usize
        } else {
            0
        }
    }

    /// Applies one answer of background work at time `now`. A listing that
    /// arrives replaces the old one wholesale, its cursor is re-clamped to the
    /// rows now shown, and details are re-requested when the pane is shown on
    /// that tab; a search or detail answer is applied only if it carries its
    /// track's current generation, and is otherwise dropped without a trace.
    #[verifier::rlimit(100)]
    pub fn apply_result(&mut self, result: TaskResult, now: u64)
        requires
            old(self).wf(),
        ensures
            final(self).wf(),
            App::applied(old(self), final(self), result, now),
    {
        match result {
            TaskResult::Updates(pacman, aur) => {
                self.pending_tasks = self.pending_tasks.saturating_sub(1);
                let mut all = pacman;
                let mut more = aur;
                all.append(&mut more);
                self.packages = all;
                let n = self.visible_count(Tab::Updates);
                self.list_state = clamp_selection(self.list_state, n);
                if self.show_info_pane && self.tab == Tab::Updates {
                    self.refresh_package_info(now);
                }
            },
            TaskResult::Installed(installed) => {
                self.pending_tasks = self.pending_tasks.saturating_sub(1);
                self.installed_packages = installed;
                let n = self.visible_count(Tab::Installed);
                self.installed_list_state = clamp_selection(self.installed_list_state, n);
                if self.show_info_pane && self.tab == Tab::Installed {
                    self.refresh_package_info(now);
                }
                proof {
                    assert forall|t: Tab| cursor_ok(#[trigger] self.cursor(t), self.visible_len(t)) by {
                        assert(cursor_ok(old(self).cursor(t), old(self).visible_len(t)));
                    }
                }
                self.rematch_news_packages();
            },
            TaskResult::Orphans(orphans) => {
                self.pending_tasks = self.pending_tasks.saturating_sub(1);
                let n = orphans.len();
                self.orphan_packages = orphans;
                self.orphans_list_state = clamp_selection(self.orphans_list_state, n);
                if self.show_info_pane && self.tab == Tab::Orphans {
                    self.refresh_package_info(now);
                }
            },
            TaskResult::Rebuilds(issues) => {
                self.pending_tasks = self.pending_tasks.saturating_sub(1);
                let n = issues.len();
                self.rebuild_issues = issues;
                self.rebuilds_list_state = clamp_selection(self.rebuilds_list_state, n);
                if self.show_info_pane && self.tab == Tab::Rebuilds {
                    self.refresh_package_info(now);
                }
            },
            TaskResult::Search(id, results) => {
                if id == self.current_search_id {
                    let n = results.len();
                    self.search_results = results;
                    self.search_loading = false;
                    self.search_list_state = clamp_selection(self.search_list_state, n);
                    if self.show_info_pane {
                        self.refresh_package_info(now);
                    }
                }
            },
            TaskResult::PackageInfo(id, info) => {
                if id == self.current_info_id {
                    self.cached_pkg_info = info;
                    self.info_loading = false;
                }
            },
            TaskResult::News(Ok(items)) => {
                self.news_loading = false;
                let n = items.len();
                self.news_items = items;
                self.news_error = false;
                self.news_list_state = clamp_selection(self.news_list_state, n);
                if self.show_info_pane && self.tab == Tab::News {
                    self.refresh_news_info();
                }
            },
            TaskResult::News(Err(_)) => {
                self.news_loading = false;
                self.news_error = true;
            },
        }
        proof {
            assert forall|t: Tab| cursor_ok(#[trigger] self.cursor(t), self.visible_len(t)) by {
                assert(cursor_ok(old(self).cursor(t), old(self).visible_len(t)));
            }
        }
    }

    /// Once every answer has been applied (ending in `a`), loading is marked
    /// done in `b` if no refresh is outstanding.
    pub open spec fn loading_settled(a: &App, b: &App) -> bool {
        *b == if a.pending_tasks == 0 {
            App { loading: LoadingState::Idle, ..*a }
        } else {
            *a
        }
    }

    /// Applies the answers drained from the background work one by one, in
    /// arrival order, and marks loading done once no refresh is outstanding.
    pub fn poll_tasks(&mut self, results: Vec<TaskResult>, now: u64)
        requires
            old(self).wf(),
        ensures
            final(self).wf(),
            exists|chain: Seq<App>|
                {
                    &&& chain.len() == results@.len() + 1
                    &&& chain[0] == *old(self)
                    &&& forall|i: int|
                        0 <= i < results@.len() ==> App::applied(
                            &#[trigger] chain[i],
                            &chain[i + 1],
                            results@[i],
                            now,
                        )
                    &&& App::loading_settled(&chain.last(), final(self))
                },
    {
        let ghost orig = results@;
        let ghost mut chain: Seq<App> = seq![*self];
        let mut results = results;
        let ghost mut k: int = 0;
        while results.len() > 0
            invariant
                self.wf(),
                0 <= k <= orig.len(),
                results@ == orig.subrange(k, orig.len() as int),
                chain.len() == k + 1,
                chain[0] == *old(self),
                chain.last() == *self,
                forall|i: int|
                    0 <= i < k ==> App::applied(&#[trigger] chain[i], &chain[i + 1], orig[i], now),
            decreases results@.len(),
        {
            let r = results.remove(0);
            assert(r == orig[k]);
            let ghost before = chain;
            self.apply_result(r, now);
            proof {
                chain = chain.push(*self);
                assert forall|i: int| 0 <= i < k + 1 implies App::applied(
                    &#[trigger] chain[i],
                    &chain[i + 1],
                    orig[i],
                    now,
                ) by {
                    if i < k {
                        assert(chain[i] == before[i] && chain[i + 1] == before[i + 1]);
                    }
                }
            }
            proof {
                k = k + 1;
            }
            assert(results@ =~= orig.subrange(k, orig.len() as int));
        }
        let ghost last = *self;
        if self.pending_tasks == 0 {
            self.loading = LoadingState::Idle;
        }
        proof {
            assert forall|t: Tab| cursor_ok(#[trigger] self.cursor(t), self.visible_len(t)) by {
                assert(cursor_ok(last.cursor(t), last.visible_len(t)));
            }
            assert(k == orig.len());
            assert(App::loading_settled(&chain.last(), self));
        }
    }

    /// `s` without its last character, if it has one.
    pub open spec fn backspaced(s: Seq<char>) -> Seq<char> {
        if s.len() > 0 {
            s.drop_last()
        } else {
            s
        }
    }

    /// The action that a key press asks for in state `a`: none while editing
    /// the filter; on Search, quitting on `q` or on Esc with an empty query,
    /// installing on Enter; on News, quitting on `q` or Esc; elsewhere,
    /// quitting, or the update, uninstall, reinstall and Enter actions.
    pub open spec fn key_action(a: &App, key: KeyEvent) -> ActionView {
        if a.filter_mode {
            ActionView::NoOp
        } else if a.tab == Tab::Search {
            match key.code {
                KeyCode::Char('q') => ActionView::Quit,
                KeyCode::Esc => if a.search_query@.len() == 0 {
                    ActionView::Quit
                } else {
                    ActionView::NoOp
                },
                KeyCode::Enter => App::install_action(a),
                _ => ActionView::NoOp,
            }
        } else if a.tab == Tab::News {
            match key.code {
                KeyCode::Char('q') | KeyCode::Esc => ActionView::Quit,
                _ => ActionView::NoOp,
            }
        } else {
            match key.code {
                KeyCode::Char('q') | KeyCode::Esc => ActionView::Quit,
                KeyCode::Char('u') => App::update_action(a),
                KeyCode::Char('d') => App::uninstall_action(a, false),
                KeyCode::Char('D') => App::uninstall_action(a, true),
                KeyCode::Char('i') => App::reinstall_action(a, false),
                KeyCode::Char('I') => App::reinstall_action(a, true),
                KeyCode::Enter => App::enter_action(a),
                _ => ActionView::NoOp,
            }
        }
    }

    /// From `a` to `b` the detail pane was hidden: the cached details and the
    /// pending fetch are dropped, and a fetch in flight is made stale.
    pub open spec fn info_hidden(a: &App, b: &App) -> bool {
        &&& !b.show_info_pane
        &&& b.cached_pkg_info is None
        &&& b.pending_info_fetch is None
        &&& b.info_debounce_until is None
        &&& !b.info_loading
        &&& b.current_info_id == a.current_info_id + 1
    }

    /// What a key does while the filter is edited, from `a` to `b`.
    pub open spec fn filter_key_effect(a: &App, b: &App, key: KeyEvent) -> bool {
        &&& b.tab == a.tab
        &&& (key.code != KeyCode::Char(' ') ==> App::collections_same(a, b))
        &&& match key.code {
            KeyCode::Esc => {
                &&& !b.filter_mode
                &&& b.filter_text@.len() == 0
                &&& App::cursors_same(a, b)
            },
            KeyCode::Char('F') => {
                &&& !b.filter_mode
                &&& b.filter_text == a.filter_text
                &&& App::cursors_same(a, b)
            },
            KeyCode::Char('j') | KeyCode::Down | KeyCode::Char('k') | KeyCode::Up => {
                &&& b.filter_mode
                &&& b.filter_text == a.filter_text
                &&& (a.tab != Tab::News ==> b.cursor(a.tab) == moved(
                    a.cursor(a.tab),
                    if key.code == KeyCode::Char('j') || key.code == KeyCode::Down {
                        1
                    } else {
                        -1
                    },
                    a.visible_len(a.tab),
                ))
                &&& forall|t: Tab| t != a.tab ==> #[trigger] b.cursor(t) == a.cursor(t)
            },
            KeyCode::Char(' ') => {
                &&& b.filter_mode
                &&& b.filter_text == a.filter_text
                &&& App::toggled(a, b)
                &&& App::cursors_same(a, b)
            },
            KeyCode::Backspace => {
                &&& b.filter_mode
                &&& b.filter_text@ == App::backspaced(a.filter_text@)
                &&& App::filter_cursors_reclamped(a, b)
            },
            KeyCode::Char(c) => {
                &&& b.filter_mode
                &&& b.filter_text@ == a.filter_text@.push(c)
                &&& App::filter_cursors_reclamped(a, b)
            },
            _ => {
                &&& b.filter_mode
                &&& b.filter_text == a.filter_text
                &&& App::cursors_same(a, b)
            },
        }
    }

    /// `a` and `b` hold the same listings.
    pub open spec fn collections_same(a: &App, b: &App) -> bool {
        &&& a.packages == b.packages
        &&& a.installed_packages == b.installed_packages
        &&& a.orphan_packages == b.orphan_packages
        &&& a.rebuild_issues == b.rebuild_issues
        &&& a.search_results == b.search_results
        &&& a.news_items == b.news_items
    }

    /// After a filter edit from `a` to `b`, the cursors of the filtered
    /// listings are re-clamped to the rows that the new filter shows, and the
    /// other cursors stay.
    pub open spec fn filter_cursors_reclamped(a: &App, b: &App) -> bool {
        &&& b.list_state == clamped(a.list_state, b.visible_len(Tab::Updates))
        &&& b.installed_list_state == clamped(
            a.installed_list_state,
            b.visible_len(Tab::Installed),
        )
        &&& b.orphans_list_state == a.orphans_list_state
        &&& b.rebuilds_list_state == a.rebuilds_list_state
        &&& b.search_list_state == a.search_list_state
        &&& b.news_list_state == a.news_list_state
    }

    /// What a key does on the Search tab, from `a` to `b` at time `now`.
    pub open spec fn search_key_effect(a: &App, b: &App, key: KeyEvent) -> bool {
        match key.code {
            KeyCode::Char('q') | KeyCode::Enter => b.tab == a.tab,
            KeyCode::Esc => a.search_query@.len() > 0 ==> b.search_query@.len() == 0
                && b.search_results@.len() == 0 && b.search_list_state is None,
            KeyCode::Tab => b.tab == Tab::News,
            KeyCode::BackTab => b.tab == Tab::Rebuilds,
            KeyCode::Down => b.search_list_state == moved(
                a.search_list_state,
                1,
                a.search_results@.len(),
            ),
            KeyCode::Up => b.search_list_state == moved(
                a.search_list_state,
                -1,
                a.search_results@.len(),
            ),
            KeyCode::Char(' ') => App::toggled(a, b),
            KeyCode::Char('?') => b.show_info_pane == !a.show_info_pane && (!b.show_info_pane
                ==> App::info_hidden(a, b)),
            KeyCode::Backspace => b.search_query@ == App::backspaced(a.search_query@),
            KeyCode::Char(c) => b.search_query@ == a.search_query@.push(c),
            _ => true,
        }
    }

    /// What a search query edit does to the search track, from `a` to `b`:
    /// a query of two characters or more is scheduled after the quiet time,
    /// a shorter one clears the results at once and makes any search in
    /// flight stale.
    pub open spec fn query_edited(a: &App, b: &App, now: u64) -> bool {
        if b.search_query@.len() >= 2 {
            &&& b.pending_search == Some(b.search_query)
            &&& b.search_debounce_until == Some(after(now, SEARCH_DEBOUNCE_MS))
            &&& b.current_search_id == a.current_search_id
        } else {
            &&& b.pending_search is None
            &&& b.search_debounce_until is None
            &&& b.search_results@.len() == 0
            &&& b.search_list_state is None
            &&& !b.search_loading
            &&& b.current_search_id == a.current_search_id + 1
        }
    }

    /// What loading the listing of tab `t` when it is still empty asks for,
    /// from `a` to `b`: a refresh of the installed packages, of the orphans or
    /// of the news (matched against the installed names); nothing otherwise.
    pub open spec fn tab_loaded(a: &App, b: &App, t: Tab) -> bool {
        if t == Tab::Installed && a.installed_packages@.len() == 0 {
            b.tasks@ == a.tasks@.push(Task::RefreshInstalled)
        } else if t == Tab::Orphans && a.orphan_packages@.len() == 0 {
            b.tasks@ == a.tasks@.push(Task::RefreshOrphans)
        } else if t == Tab::News && a.news_items@.len() == 0 {
            App::news_requested(a, b)
        } else {
            b.tasks == a.tasks
        }
    }

    /// From `a` to `b` a news fetch was asked for, to be matched against the
    /// installed package names.
    pub open spec fn news_requested(a: &App, b: &App) -> bool {
        &&& b.tasks@ == a.tasks@.push(b.tasks@.last())
        &&& b.tasks@.last() matches Task::RefreshNews { installed_names } && views(
            installed_names@,
        ) == a.installed_names()
        &&& b.news_loading
        &&& !b.news_error
    }

    /// `s` plus `k`, capped at the largest `u16`.
    pub open spec fn scroll_plus(s: u16, k: u16) -> u16 {
        if s as int + k as int > u16::MAX as int {
            u16::MAX
        } else {
            (s + k) as u16
        }
    }

    /// `s` less `k`, not below zero.
    pub open spec fn scroll_minus(s: u16, k: u16) -> u16 {
        if s >= k {
            (s - k) as u16
        } else {
            0
        }
    }

    /// The article scroll `s` kept within the cached news details `info`.
    pub open spec fn scroll_capped(info: Option<NewsInfo>, s: u16) -> u16 {
        match info {
            Some(i) => if s as int > App::max_news_scroll(i) {
                App::max_news_scroll(i) as u16
            } else {
                s
            },
            None => s,
        }
    }

    /// The news pane of `b` shows the item under its news cursor, or nothing.
    pub open spec fn news_pane_filled(b: &App) -> bool {
        match b.news_list_state {
            Some(k) if k < b.news_items@.len() => b.cached_news_info matches Some(info)
                && news_info_of(info, b.news_items@[k as int]),
            _ => b.cached_news_info is None,
        }
    }

    /// What a key does on the News tab, from `a` to `b`.
    pub open spec fn news_key_effect(a: &App, b: &App, key: KeyEvent, now: u64) -> bool {
        match key.code {
            KeyCode::Tab | KeyCode::BackTab => {
                let t = if key.code == KeyCode::Tab {
                    Tab::Updates
                } else {
                    Tab::Search
                };
                &&& b.tab == t
                &&& App::tab_loaded(a, b, t)
                &&& (a.show_info_pane ==> App::info_requested(a, b, now))
            },
            KeyCode::Char('j') | KeyCode::Down | KeyCode::Char('k') | KeyCode::Up => if key.shift {
                &&& b.news_list_state == a.news_list_state
                &&& b.news_scroll == if key.code == KeyCode::Char('j') || key.code
                    == KeyCode::Down {
                    App::scroll_capped(a.cached_news_info, App::scroll_plus(a.news_scroll, 3))
                } else {
                    App::scroll_minus(a.news_scroll, 3)
                }
            } else {
                &&& b.news_list_state == moved(
                    a.news_list_state,
                    if key.code == KeyCode::Char('j') || key.code == KeyCode::Down {
                        1
                    } else {
                        -1
                    },
                    a.news_items@.len(),
                )
                &&& (a.news_items@.len() > 0 ==> b.news_scroll == 0)
            },
            KeyCode::PageUp => b.news_scroll == App::scroll_minus(a.news_scroll, 10),
            KeyCode::PageDown => b.news_scroll == App::scroll_capped(
                a.cached_news_info,
                App::scroll_plus(a.news_scroll, 10),
            ),
            KeyCode::Char('r') => App::news_requested(a, b),
            KeyCode::Char('?') => {
                &&& b.show_info_pane == !a.show_info_pane
                &&& (b.show_info_pane ==> App::news_pane_filled(b))
                &&& (!b.show_info_pane ==> b.cached_news_info is None && App::info_hidden(a, b))
            },
            _ => true,
        }
    }

    /// What a key does on the Updates, Installed, Orphans and Rebuilds tabs,
    /// from `a` to `b`.
    pub open spec fn normal_key_effect(a: &App, b: &App, key: KeyEvent, now: u64) -> bool {
        match key.code {
            KeyCode::Tab | KeyCode::BackTab => {
                let t = if key.code == KeyCode::Tab {
                    next_tab(a.tab)
                } else {
                    prev_tab(a.tab)
                };
                &&& b.tab == t
                &&& !b.filter_mode
                &&& b.filter_text@.len() == 0
                &&& App::tab_loaded(a, b, t)
                &&& (a.show_info_pane ==> App::info_requested(a, b, now))
            },
            KeyCode::Char('r') => match a.tab {
                Tab::Updates => {
                    &&& b.tasks@ == a.tasks@.push(b.tasks@.last())
                    &&& b.tasks@.last() is Refresh
                    &&& b.loading == LoadingState::Loading
                },
                Tab::Installed => b.tasks@ == a.tasks@.push(Task::RefreshInstalled) && b.loading
                    == LoadingState::Loading,
                Tab::Orphans => b.tasks@ == a.tasks@.push(Task::RefreshOrphans) && b.loading
                    == LoadingState::Loading,
                Tab::Rebuilds => {
                    &&& b.tasks@ == a.tasks@.push(b.tasks@.last())
                    &&& b.tasks@.last() is RefreshRebuilds
                    &&& b.loading == LoadingState::Loading
                },
                _ => b.tasks == a.tasks,
            },
            KeyCode::Char('j') | KeyCode::Down => b.cursor(a.tab) == moved(
                a.cursor(a.tab),
                1,
                a.visible_len(a.tab),
            ),
            KeyCode::Char('k') | KeyCode::Up => b.cursor(a.tab) == moved(
                a.cursor(a.tab),
                -1,
                a.visible_len(a.tab),
            ),
            KeyCode::Char(' ') => App::toggled(a, b),
            KeyCode::Char('a') => App::all_marked(a, b, true),
            KeyCode::Char('n') => App::all_marked(a, b, false),
            KeyCode::Char('f') => b.filter_mode == (a.filter_mode || a.tab == Tab::Updates || a.tab
                == Tab::Installed),
            KeyCode::Char('?') => b.show_info_pane == !a.show_info_pane && (!b.show_info_pane
                ==> App::info_hidden(a, b)),
            _ => true,
        }
    }

    /// Starts loading the active tab's listing if it is still empty.
    fn load_tab_data(&mut self)
        requires
            old(self).wf(),
        ensures
            final(self).wf(),
            App::data_same(old(self), final(self)),
            App::cursors_same(old(self), final(self)),
            App::info_same(old(self), final(self)),
            App::search_same(old(self), final(self)),
            final(self).tab == old(self).tab,
            final(self).filter_mode == old(self).filter_mode,
            final(self).show_info_pane == old(self).show_info_pane,
            App::tab_loaded(old(self), final(self), old(self).tab),
    {
        match self.tab {
            Tab::Installed => {
                if self.installed_packages.len() == 0 {
                    self.refresh_installed();
                }
            },
            Tab::Orphans => {
                if self.orphan_packages.len() == 0 {
                    self.refresh_orphans();
                }
            },
            Tab::News => {
                if self.news_items.len() == 0 {
                    self.refresh_news();
                }
            },
            _ => {},
        }
        proof {
            assert forall|t: Tab| cursor_ok(#[trigger] self.cursor(t), self.visible_len(t)) by {
                assert(cursor_ok(old(self).cursor(t), old(self).visible_len(t)));
            }
        }
    }

    /// Shows or hides the package detail pane; hiding drops the cached and
    /// pending details and makes a fetch in flight stale.
    fn toggle_info_pane(&mut self, now: u64)
        requires
            old(self).wf(),
            old(self).current_info_id < u64::MAX,
        ensures
            final(self).wf(),
            final(self).show_info_pane == !old(self).show_info_pane,
            final(self).show_info_pane ==> App::info_requested(old(self), final(self), now),
            !final(self).show_info_pane ==> App::info_hidden(old(self), final(self)),
            App::data_same(old(self), final(self)),
            App::cursors_same(old(self), final(self)),
            App::search_same(old(self), final(self)),
            final(self).tab == old(self).tab,
            final(self).filter_mode == old(self).filter_mode,
    {
        self.show_info_pane = !self.show_info_pane;
        if self.show_info_pane {
            self.refresh_package_info(now);
        } else {
            self.cached_pkg_info = None;
            self.pending_info_fetch = None;
            self.info_debounce_until = None;
            self.info_loading = false;
            self.current_info_id = self.current_info_id + 1;
        }
        proof {
            assert forall|t: Tab| cursor_ok(#[trigger] self.cursor(t), self.visible_len(t)) by {
                assert(cursor_ok(old(self).cursor(t), old(self).visible_len(t)));
            }
        }
    }

    fn handle_search_key(&mut self, key: KeyCode, now: u64) -> (r: Action)
        requires
            old(self).wf(),
            old(self).counters_fit(),
            old(self).tab == Tab::Search,
            !old(self).filter_mode,
        ensures
            final(self).wf(),
            r@ == App::key_action(old(self), KeyEvent { code: key, shift: false }),
            App::search_key_effect(old(self), final(self), KeyEvent { code: key, shift: false }),
            (key is Backspace || (key is Char && key != KeyCode::Char('q') && key != KeyCode::Char(
                ' ',
            ) && key != KeyCode::Char('?'))) ==> App::query_edited(old(self), final(self), now),
            old(self).current_search_id <= final(self).current_search_id
                <= old(self).current_search_id + 1,
            old(self).current_info_id <= final(self).current_info_id <= old(self).current_info_id
                + 1,
    {
        let ghost a = *self;
        match key {
            KeyCode::Char('q') => Action::Quit,
            KeyCode::Esc => {
                if self.search_query.as_str().unicode_len() > 0 {
                    self.search_query = String::new();
                    self.search_results = Vec::new();
                    self.search_list_state = None;
                    proof {
                        assert forall|t: Tab| cursor_ok(#[trigger] self.cursor(t), self.visible_len(t)) by {
                            assert(cursor_ok(a.cursor(t), a.visible_len(t)));
                        }
                    }
                    Action::NoOp
                } else {
                    Action::Quit
                }
            },
            KeyCode::Tab => {
                self.tab = Tab::News;
                proof {
                    assert forall|t: Tab| cursor_ok(#[trigger] self.cursor(t), self.visible_len(t)) by {
                        assert(cursor_ok(a.cursor(t), a.visible_len(t)));
                    }
                }
                self.load_tab_data();
                if self.show_info_pane {
                    self.refresh_news_info();
                }
                proof {
                    assert forall|t: Tab| cursor_ok(#[trigger] self.cursor(t), self.visible_len(t)) by {
                        assert(cursor_ok(a.cursor(t), a.visible_len(t)));
                    }
                }
                Action::NoOp
            },
            KeyCode::BackTab => {
                self.tab = Tab::Rebuilds;
                proof {
                    assert forall|t: Tab| cursor_ok(#[trigger] self.cursor(t), self.visible_len(t)) by {
                        assert(cursor_ok(a.cursor(t), a.visible_len(t)));
                    }
                }
                self.load_tab_data();
                if self.show_info_pane {
                    self.refresh_package_info(now);
                }
                proof {
                    assert forall|t: Tab| cursor_ok(#[trigger] self.cursor(t), self.visible_len(t)) by {
                        assert(cursor_ok(a.cursor(t), a.visible_len(t)));
                    }
                }
                Action::NoOp
            },
            KeyCode::Down => {
                self.move_selection(1, now);
                Action::NoOp
            },
            KeyCode::Up => {
                self.move_selection(-1, now);
                Action::NoOp
            },
            KeyCode::Char(' ') => {
                self.toggle_selection();
                proof {
                    App::lemma_selection_keeps_rows(&a, self);
                    assert forall|t: Tab| cursor_ok(#[trigger] self.cursor(t), self.visible_len(t)) by {
                        assert(cursor_ok(a.cursor(t), a.visible_len(t)));
                    }
                }
                Action::NoOp
            },
            KeyCode::Char('?') => {
                self.toggle_info_pane(now);
                Action::NoOp
            },
            KeyCode::Enter => self.install_selected(),
            KeyCode::Backspace => {
                let cs = chars_of(self.search_query.as_str());
                if cs.len() > 0 {
                    self.search_query = string_of(&take_chars(&cs, cs.len() - 1));
                }
                proof {
                    assert forall|t: Tab| cursor_ok(#[trigger] self.cursor(t), self.visible_len(t)) by {
                        assert(cursor_ok(a.cursor(t), a.visible_len(t)));
                    }
                }
                self.do_search(now);
                Action::NoOp
            },
            KeyCode::Char(c) => {
                push_char(&mut self.search_query, c);
                proof {
                    assert forall|t: Tab| cursor_ok(#[trigger] self.cursor(t), self.visible_len(t)) by {
                        assert(cursor_ok(a.cursor(t), a.visible_len(t)));
                    }
                }
                self.do_search(now);
                Action::NoOp
            },
            _ => Action::NoOp,
        }
    }

    fn handle_news_key(&mut self, key: KeyEvent, now: u64) -> (r: Action)
        requires
            old(self).wf(),
            old(self).counters_fit(),
            old(self).tab == Tab::News,
            !old(self).filter_mode,
        ensures
            final(self).wf(),
            r@ == App::key_action(old(self), key),
            App::news_key_effect(old(self), final(self), key, now),
            final(self).current_search_id == old(self).current_search_id,
            old(self).current_info_id <= final(self).current_info_id <= old(self).current_info_id
                + 1,
    {
        let ghost a = *self;
        let shift = key.shift;
        match key.code {
            KeyCode::Char('q') | KeyCode::Esc => Action::Quit,
            KeyCode::Tab | KeyCode::BackTab => {
                self.tab = if key.code == KeyCode::Tab {
                    Tab::Updates
                } else {
                    Tab::Search
                };
                proof {
                    assert forall|t: Tab| cursor_ok(#[trigger] self.cursor(t), self.visible_len(t)) by {
                        assert(cursor_ok(a.cursor(t), a.visible_len(t)));
                    }
                }
                self.load_tab_data();
                if self.show_info_pane {
                    self.refresh_package_info(now);
                }
                proof {
                    assert forall|t: Tab| cursor_ok(#[trigger] self.cursor(t), self.visible_len(t)) by {
                        assert(cursor_ok(a.cursor(t), a.visible_len(t)));
                    }
                }
                Action::NoOp
            },
            KeyCode::Char('j') | KeyCode::Down => {
                if shift {
                    self.news_scroll = self.news_scroll.saturating_add(3);
                    self.clamp_news_scroll();
                    proof {
                        assert forall|t: Tab| cursor_ok(#[trigger] self.cursor(t), self.visible_len(t)) by {
                            assert(cursor_ok(a.cursor(t), a.visible_len(t)));
                        }
                    }
                } else {
                    self.move_news_selection(1);
                }
                Action::NoOp
            },
            KeyCode::Char('k') | KeyCode::Up => {
                if shift {
                    self.news_scroll = self.news_scroll.saturating_sub(3);
                    proof {
                        assert forall|t: Tab| cursor_ok(#[trigger] self.cursor(t), self.visible_len(t)) by {
                            assert(cursor_ok(a.cursor(t), a.visible_len(t)));
                        }
                    }
                } else {
                    self.move_news_selection(-1);
                }
                Action::NoOp
            },
            KeyCode::PageDown => {
                self.news_scroll = self.news_scroll.saturating_add(10);
                self.clamp_news_scroll();
                proof {
                    assert forall|t: Tab| cursor_ok(#[trigger] self.cursor(t), self.visible_len(t)) by {
                        assert(cursor_ok(a.cursor(t), a.visible_len(t)));
                    }
                }
                Action::NoOp
            },
            KeyCode::PageUp => {
                self.news_scroll = self.news_scroll.saturating_sub(10);
                proof {
                    assert forall|t: Tab| cursor_ok(#[trigger] self.cursor(t), self.visible_len(t)) by {
                        assert(cursor_ok(a.cursor(t), a.visible_len(t)));
                    }
                }
                Action::NoOp
            },
            KeyCode::Char('r') => {
                self.refresh_news();
                proof {
                    assert forall|t: Tab| cursor_ok(#[trigger] self.cursor(t), self.visible_len(t)) by {
                        assert(cursor_ok(a.cursor(t), a.visible_len(t)));
                    }
                }
                Action::NoOp
            },
            KeyCode::Char('?') => {
                self.show_info_pane = !self.show_info_pane;
                if self.show_info_pane {
                    self.refresh_news_info();
                } else {
                    self.cached_news_info = None;
                    self.cached_pkg_info = None;
                    self.pending_info_fetch = None;
                    self.info_debounce_until = None;
                    self.info_loading = false;
                    self.current_info_id = self.current_info_id + 1;
                }
                proof {
                    assert forall|t: Tab| cursor_ok(#[trigger] self.cursor(t), self.visible_len(t)) by {
                        assert(cursor_ok(a.cursor(t), a.visible_len(t)));
                    }
                }
                Action::NoOp
            },
            _ => Action::NoOp,
        }
    }

    /// Moves to tab `t`, leaving the filter, loading the tab if empty and
    /// asking for details of its row.
    fn switch_tab(&mut self, t: Tab, now: u64)
        requires
            old(self).wf(),
        ensures
            final(self).wf(),
            final(self).tab == t,
            !final(self).filter_mode,
            final(self).filter_text@.len() == 0,
            final(self).current_search_id == old(self).current_search_id,
            final(self).current_info_id == old(self).current_info_id,
            App::tab_loaded(old(self), final(self), t),
            old(self).show_info_pane ==> App::info_requested(old(self), final(self), now),
    {
        let ghost a = *self;
        self.tab = t;
        self.filter_mode = false;
        self.filter_text = String::new();
        proof {
            lemma_visible_all(labels(self.packages@), self.filter_text@);
            lemma_visible_all(labels(self.installed_packages@), self.filter_text@);
            lemma_visible_indices_bounds(labels(a.packages@), a.filter_text@);
            lemma_visible_indices_bounds(labels(a.installed_packages@), a.filter_text@);
            assert forall|u: Tab| cursor_ok(#[trigger] self.cursor(u), self.visible_len(u)) by {
                assert(cursor_ok(a.cursor(u), a.visible_len(u)));
            }
        }
        let ghost mid = *self;
        self.load_tab_data();
        let ghost b = *self;
        assert(App::tab_loaded(&a, &b, t)) by {
            assert(App::tab_loaded(&mid, &b, t));
            assert(a.installed_names() == mid.installed_names());
        }
        if self.show_info_pane {
            self.refresh_package_info(now);
        }
        proof {
            assert forall|u: Tab| cursor_ok(#[trigger] self.cursor(u), self.visible_len(u)) by {
                assert(cursor_ok(b.cursor(u), b.visible_len(u)));
            }
        }
    }

    fn handle_normal_key(&mut self, key: KeyCode, now: u64) -> (r: Action)
        requires
            old(self).wf(),
            old(self).counters_fit(),
            old(self).tab != Tab::Search,
            old(self).tab != Tab::News,
            !old(self).filter_mode,
        ensures
            final(self).wf(),
            r@ == App::key_action(old(self), KeyEvent { code: key, shift: false }),
            App::normal_key_effect(old(self), final(self), KeyEvent { code: key, shift: false }, now),
            final(self).current_search_id == old(self).current_search_id,
            old(self).current_info_id <= final(self).current_info_id <= old(self).current_info_id
                + 1,
    {
        let ghost a = *self;
        match key {
            KeyCode::Char('q') | KeyCode::Esc => Action::Quit,
            KeyCode::Tab => {
                let t = match self.tab {
                    Tab::Updates => Tab::Installed,
                    Tab::Installed => Tab::Orphans,
                    Tab::Orphans => Tab::Rebuilds,
                    Tab::Rebuilds => Tab::Search,
                    Tab::Search => Tab::News,
                    Tab::News => Tab::Updates,
                };
                self.switch_tab(t, now);
                Action::NoOp
            },
            KeyCode::BackTab => {
                let t = match self.tab {
                    Tab::Updates => Tab::News,
                    Tab::Installed => Tab::Updates,
                    Tab::Orphans => Tab::Installed,
                    Tab::Rebuilds => Tab::Orphans,
                    Tab::Search => Tab::Rebuilds,
                    Tab::News => Tab::Search,
                };
                self.switch_tab(t, now);
                Action::NoOp
            },
            KeyCode::Char('j') | KeyCode::Down => {
                self.move_selection(1, now);
                Action::NoOp
            },
            KeyCode::Char('k') | KeyCode::Up => {
                self.move_selection(-1, now);
                Action::NoOp
            },
            KeyCode::Char(' ') => {
                self.toggle_selection();
                proof {
                    App::lemma_selection_keeps_rows(&a, self);
                    assert forall|t: Tab| cursor_ok(#[trigger] self.cursor(t), self.visible_len(t)) by {
                        assert(cursor_ok(a.cursor(t), a.visible_len(t)));
                    }
                }
                Action::NoOp
            },
            KeyCode::Char('a') | KeyCode::Char('n') => {
                if key == KeyCode::Char('a') {
                    self.select_all();
                } else {
                    self.select_none();
                }
                proof {
                    App::lemma_selection_keeps_rows(&a, self);
                    assert forall|t: Tab| cursor_ok(#[trigger] self.cursor(t), self.visible_len(t)) by {
                        assert(cursor_ok(a.cursor(t), a.visible_len(t)));
                    }
                }
                Action::NoOp
            },
            KeyCode::Char('r') => {
                match self.tab {
                    Tab::Updates => self.refresh(),
                    Tab::Installed => self.refresh_installed(),
                    Tab::Orphans => self.refresh_orphans(),
                    Tab::Rebuilds => self.refresh_rebuilds(),
                    _ => {},
                }
                proof {
                    assert forall|t: Tab| cursor_ok(#[trigger] self.cursor(t), self.visible_len(t)) by {
                        assert(cursor_ok(a.cursor(t), a.visible_len(t)));
                    }
                }
                Action::NoOp
            },
            KeyCode::Char('u') => self.run_selected_update(),
            KeyCode::Char('d') => self.uninstall_selected(false),
            KeyCode::Char('D') => self.uninstall_selected(true),
            KeyCode::Char('i') => self.reinstall_selected(false),
            KeyCode::Char('I') => self.reinstall_selected(true),
            KeyCode::Char('f') => {
                if self.tab == Tab::Updates || self.tab == Tab::Installed {
                    self.filter_mode = true;
                }
                proof {
                    assert forall|t: Tab| cursor_ok(#[trigger] self.cursor(t), self.visible_len(t)) by {
                        assert(cursor_ok(a.cursor(t), a.visible_len(t)));
                    }
                }
                Action::NoOp
            },
            KeyCode::Enter => self.run_action(),
            KeyCode::Char('?') => {
                self.toggle_info_pane(now);
                Action::NoOp
            },
            _ => Action::NoOp,
        }
    }

    fn handle_filter_key(&mut self, key: KeyCode, now: u64)
        requires
            old(self).wf(),
            old(self).filter_mode,
        ensures
            final(self).wf(),
            App::filter_key_effect(old(self), final(self), KeyEvent { code: key, shift: false }),
            final(self).current_search_id == old(self).current_search_id,
            final(self).current_info_id == old(self).current_info_id,
    {
        let ghost a = *self;
        match key {
            KeyCode::Esc => {
                self.filter_mode = false;
                self.filter_text = String::new();
                proof {
                    lemma_visible_all(labels(self.packages@), self.filter_text@);
                    lemma_visible_all(labels(self.installed_packages@), self.filter_text@);
                    lemma_visible_indices_bounds(labels(a.packages@), a.filter_text@);
                    lemma_visible_indices_bounds(labels(a.installed_packages@), a.filter_text@);
                    assert forall|u: Tab| cursor_ok(#[trigger] self.cursor(u), self.visible_len(u)) by {
                        assert(cursor_ok(a.cursor(u), a.visible_len(u)));
                    }
                }
            },
            KeyCode::Char('F') => {
                self.filter_mode = false;
                proof {
                    assert forall|u: Tab| cursor_ok(#[trigger] self.cursor(u), self.visible_len(u)) by {
                        assert(cursor_ok(a.cursor(u), a.visible_len(u)));
                    }
                }
            },
            KeyCode::Char('j') | KeyCode::Down => {
                self.move_selection(1, now);
                assert(forall|t: Tab| t != a.tab ==> #[trigger] self.cursor(t) == a.cursor(t));
            },
            KeyCode::Char('k') | KeyCode::Up => {
                self.move_selection(-1, now);
                assert(forall|t: Tab| t != a.tab ==> #[trigger] self.cursor(t) == a.cursor(t));
            },
            KeyCode::Char(' ') => {
                self.toggle_selection();
                proof {
                    App::lemma_selection_keeps_rows(&a, self);
                    assert forall|u: Tab| cursor_ok(#[trigger] self.cursor(u), self.visible_len(u)) by {
                        assert(cursor_ok(a.cursor(u), a.visible_len(u)));
                    }
                }
            },
            KeyCode::Backspace => {
                let cs = chars_of(self.filter_text.as_str());
                if cs.len() > 0 {
                    self.filter_text = string_of(&take_chars(&cs, cs.len() - 1));
                    assert(self.filter_text@ =~= a.filter_text@.drop_last());
                }
                proof {
                    assert forall|t: Tab|
                        t != Tab::Updates && t != Tab::Installed implies cursor_ok(
                        #[trigger] self.cursor(t),
                        self.visible_len(t),
                    ) by {
                        assert(cursor_ok(a.cursor(t), a.visible_len(t)));
                    }
                }
                self.clamp_filter_selection();
                assert(App::filter_cursors_reclamped(&a, self));
            },
            KeyCode::Char(c) => {
                push_char(&mut self.filter_text, c);
                proof {
                    assert forall|t: Tab|
                        t != Tab::Updates && t != Tab::Installed implies cursor_ok(
                        #[trigger] self.cursor(t),
                        self.visible_len(t),
                    ) by {
                        assert(cursor_ok(a.cursor(t), a.visible_len(t)));
                    }
                }
                self.clamp_filter_selection();
            },
            _ => {},
        }
    }

    /// Re-clamps the cursors of the filtered listings after the filter text
    /// was edited; the other cursors are still valid.
    fn clamp_filter_selection(&mut self)
        requires
            forall|t: Tab|
                t != Tab::Updates && t != Tab::Installed ==> cursor_ok(
                    #[trigger] old(self).cursor(t),
                    old(self).visible_len(t),
                ),
        ensures
            final(self).wf(),
            App::filter_cursors_reclamped(old(self), final(self)),
            App::data_same(old(self), final(self)),
            App::info_same(old(self), final(self)),
            App::search_same(old(self), final(self)),
            App::view_same(old(self), final(self)),
    {
        let n = self.visible_count(Tab::Updates);
        self.list_state = clamp_selection(self.list_state, n);
        let m = self.visible_count(Tab::Installed);
        self.installed_list_state = clamp_selection(self.installed_list_state, m);
        proof {
            assert forall|t: Tab| cursor_ok(#[trigger] self.cursor(t), self.visible_len(t)) by {
                if t != Tab::Updates && t != Tab::Installed {
                    assert(cursor_ok(old(self).cursor(t), old(self).visible_len(t)));
                }
            }
        }
    }

    /// Handles one key press at time `now` and says what the surrounding
    /// program is to do. Every cursor stays within its visible rows, and the
    /// generation counters only move forward, by at most one.
    pub fn handle_key(&mut self, key: KeyEvent, now: u64) -> (r: Action)
        requires
            old(self).wf(),
            old(self).counters_fit(),
        ensures
            final(self).wf(),
            r@ == App::key_action(old(self), key),
            old(self).filter_mode ==> App::filter_key_effect(old(self), final(self), key),
            !old(self).filter_mode && old(self).tab == Tab::Search ==> App::search_key_effect(
                old(self),
                final(self),
                key,
            ),
            !old(self).filter_mode && old(self).tab == Tab::Search && (key.code is Backspace || (
            key.code is Char && key.code != KeyCode::Char('q') && key.code != KeyCode::Char(' ')
                && key.code != KeyCode::Char('?'))) ==> App::query_edited(
                old(self),
                final(self),
                now,
            ),
            !old(self).filter_mode && old(self).tab == Tab::News ==> App::news_key_effect(
                old(self),
                final(self),
                key,
                now,
            ),
            !old(self).filter_mode && old(self).tab != Tab::Search && old(self).tab != Tab::News
                ==> App::normal_key_effect(old(self), final(self), key, now),
            old(self).current_search_id <= final(self).current_search_id
                <= old(self).current_search_id + 1,
            old(self).current_info_id <= final(self).current_info_id <= old(self).current_info_id
                + 1,
    {
        if self.filter_mode {
            self.handle_filter_key(key.code, now);
            Action::NoOp
        } else if self.tab == Tab::Search {
            let ghost plain = KeyEvent { code: key.code, shift: false };
            let r = self.handle_search_key(key.code, now);
            assert(App::key_action(old(self), key) == App::key_action(old(self), plain));
            assert(App::search_key_effect(old(self), self, key) == App::search_key_effect(
                old(self),
                self,
                plain,
            ));
            r
        } else if self.tab == Tab::News {
            self.handle_news_key(key, now)
        } else {
            let ghost plain = KeyEvent { code: key.code, shift: false };
            let r = self.handle_normal_key(key.code, now);
            assert(App::key_action(old(self), key) == App::key_action(old(self), plain));
            assert(App::normal_key_effect(old(self), self, key, now) == App::normal_key_effect(
                old(self),
                self,
                plain,
                now,
            ));
            r
        }
    }

    /// Flipping or setting selection flags keeps the rows that each listing
    /// shows.
    proof fn lemma_selection_keeps_rows(a: &App, b: &App)
        requires
            App::toggled(a, b) || App::all_marked(a, b, true) || App::all_marked(a, b, false),
        ensures
            forall|t: Tab| #[trigger] b.visible_len(t) == a.visible_len(t),
    {
        lemma_visible_indices_bounds(labels(a.packages@), a.filter_text@);
        lemma_visible_indices_bounds(labels(a.installed_packages@), a.filter_text@);
        if a.tab == Tab::Updates {
            assert(b.packages@.len() == a.packages@.len());
            assert forall|j: int| 0 <= j < a.packages@.len() implies b.packages@[j].name
                == a.packages@[j].name by {}
            assert(labels(b.packages@) =~= labels(a.packages@));
        }
        if a.tab == Tab::Installed {
            assert(b.installed_packages@.len() == a.installed_packages@.len());
            assert forall|j: int| 0 <= j < a.installed_packages@.len() implies b.installed_packages@[
                j].name == a.installed_packages@[j].name by {}
            assert(labels(b.installed_packages@) =~= labels(a.installed_packages@));
        }
        if a.tab == Tab::Orphans {
            assert(b.orphan_packages@.len() == a.orphan_packages@.len());
        }
        if a.tab == Tab::Rebuilds {
            assert(b.rebuild_issues@.len() == a.rebuild_issues@.len());
        }
        if a.tab == Tab::Search {
            assert(b.search_results@.len() == a.search_results@.len());
        }
    }

    /// Out-of-order delivery on the search track: when a search stamped `g2`
    /// was dispatched after one stamped `g1` (so `g1 < g2`, and the counter has
    /// reached `g2`), the result stamped `g1` is never applied, whenever it
    /// arrives; the one stamped `g2` is applied exactly while no later search
    /// has been dispatched.
    pub proof fn lemma_out_of_order_search(a: &App, g1: u64, g2: u64)
        requires
            g1 < g2,
            g2 <= a.current_search_id,
        ensures
            !accepted(a.current_search_id, g1),
            accepted(a.current_search_id, g2) <==> a.current_search_id == g2,
            forall|b: App, rs: Vec<SearchResult>, now: u64|
                #[trigger] App::applied(a, &b, TaskResult::Search(g1, rs), now) ==> b == *a,
    {
    }

    /// Cutting the query below two characters makes every search already
    /// dispatched stale: a result stamped with any generation issued so far is
    /// dropped when it arrives.
    pub proof fn lemma_short_query_drops_in_flight(a: &App, b: &App, now: u64, stamp: u64)
        requires
            App::query_edited(a, b, now),
            b.search_query@.len() < 2,
            stamp <= a.current_search_id,
        ensures
            !accepted(b.current_search_id, stamp),
            b.search_results@.len() == 0,
            b.pending_search is None,
            forall|c: App, rs: Vec<SearchResult>, t: u64|
                #[trigger] App::applied(b, &c, TaskResult::Search(stamp, rs), t) ==> c == *b,
    {
    }

    /// "Select all" and then "select none" on a filtered listing leave every
    /// row that the filter shows unselected and every hidden row as it was.
    pub proof fn lemma_select_all_then_none(a: &App, b: &App, c: &App)
        requires
            a.tab == Tab::Updates || a.tab == Tab::Installed,
            b.tab == a.tab,
            App::all_marked(a, b, true),
            App::all_marked(b, c, false),
        ensures
            a.tab == Tab::Updates ==> {
                &&& c.packages@.len() == a.packages@.len()
                &&& forall|j: int|
                    0 <= j < a.packages@.len() ==> #[trigger] c.packages@[j] == if a.updates_visible().contains(j) {
                        a.packages@[j].with_selected(false)
                    } else {
                        a.packages@[j]
                    }
            },
            a.tab == Tab::Installed ==> {
                &&& c.installed_packages@.len() == a.installed_packages@.len()
                &&& forall|j: int|
                    0 <= j < a.installed_packages@.len() ==> #[trigger] c.installed_packages@[j]
                        == if a.installed_visible().contains(j) {
                        a.installed_packages@[j].with_selected(false)
                    } else {
                        a.installed_packages@[j]
                    }
            },
    {
        if a.tab == Tab::Updates {
            assert forall|j: int| 0 <= j < a.packages@.len() implies b.packages@[j].name
                == a.packages@[j].name by {}
            assert(labels(b.packages@) =~= labels(a.packages@));
            assert(b.updates_visible() == a.updates_visible());
        } else {
            assert forall|j: int| 0 <= j < a.installed_packages@.len() implies b.installed_packages@[
                j].name == a.installed_packages@[j].name by {}
            assert(labels(b.installed_packages@) =~= labels(a.installed_packages@));
            assert(b.installed_visible() == a.installed_visible());
        }
    }

    /// The number of updates from the official repositories.
    pub fn pacman_count(&self) -> (r: usize)
        ensures
            r == count_of(self.packages@, |p: Package| p.source == PackageSource::Pacman),
    {
        let ghost f = |p: Package| p.source == PackageSource::Pacman;
        let mut n: usize = 0;
        let mut i: usize = 0;
        while i < self.packages.len()
            invariant
                i <= self.packages@.len(),
                n == count_of(self.packages@.subrange(0, i as int), f),
                f == |p: Package| p.source == PackageSource::Pacman,
            decreases self.packages@.len() - i,
        {
            proof {
                lemma_count_step(self.packages@, f, i as int);
            }
            if self.packages[i].source == PackageSource::Pacman {
                n = n + 1;
            }
            i = i + 1;
        }
        assert(self.packages@.subrange(0, i as int) =~= self.packages@);
        n
    }

    /// The number of updates from the AUR.
    pub fn aur_count(&self) -> (r: usize)
        ensures
            r == count_of(self.packages@, |p: Package| p.source == PackageSource::Aur),
    {
        let ghost f = |p: Package| p.source == PackageSource::Aur;
        let mut n: usize = 0;
        let mut i: usize = 0;
        while i < self.packages.len()
            invariant
                i <= self.packages@.len(),
                n == count_of(self.packages@.subrange(0, i as int), f),
                f == |p: Package| p.source == PackageSource::Aur,
            decreases self.packages@.len() - i,
        {
            proof {
                lemma_count_step(self.packages@, f, i as int);
            }
            if self.packages[i].source == PackageSource::Aur {
                n = n + 1;
            }
            i = i + 1;
        }
        assert(self.packages@.subrange(0, i as int) =~= self.packages@);
        n
    }

    /// The number of explicitly installed packages.
    pub fn installed_count(&self) -> (r: usize)
        ensures
            r == self.installed_packages@.len(),
    {
        self.installed_packages.len()
    }

    /// The number of explicitly installed packages from the AUR.
    pub fn installed_aur_count(&self) -> (r: usize)
        ensures
            r == count_of(
                self.installed_packages@,
                |p: InstalledPackage| p.source == PackageSource::Aur,
            ),
    {
        let ghost f = |p: InstalledPackage| p.source == PackageSource::Aur;
        let mut n: usize = 0;
        let mut i: usize = 0;
        while i < self.installed_packages.len()
            invariant
                i <= self.installed_packages@.len(),
                n == count_of(self.installed_packages@.subrange(0, i as int), f),
                f == |p: InstalledPackage| p.source == PackageSource::Aur,
            decreases self.installed_packages@.len() - i,
        {
            proof {
                lemma_count_step(self.installed_packages@, f, i as int);
            }
            if self.installed_packages[i].source == PackageSource::Aur {
                n = n + 1;
            }
            i = i + 1;
        }
        assert(self.installed_packages@.subrange(0, i as int) =~= self.installed_packages@);
        n
    }

    /// The number of orphaned packages.
    pub fn orphan_count(&self) -> (r: usize)
        ensures
            r == self.orphan_packages@.len(),
    {
        self.orphan_packages.len()
    }

    /// The number of news items that ask for manual intervention.
    pub fn news_attention_count(&self) -> (r: usize)
        ensures
            r == count_of(self.news_items@, |n: NewsItem| n.requires_attention),
    {
        let ghost f = |n: NewsItem| n.requires_attention;
        let mut n: usize = 0;
        let mut i: usize = 0;
        while i < self.news_items.len()
            invariant
                i <= self.news_items@.len(),
                n == count_of(self.news_items@.subrange(0, i as int), f),
                f == |n: NewsItem| n.requires_attention,
            decreases self.news_items@.len() - i,
        {
            proof {
                lemma_count_step(self.news_items@, f, i as int);
            }
            if self.news_items[i].requires_attention {
                n = n + 1;
            }
            i = i + 1;
        }
        assert(self.news_items@.subrange(0, i as int) =~= self.news_items@);
        n
    }

    /// The number of news items that mention installed packages.
    pub fn news_related_count(&self) -> (r: usize)
        ensures
            r == count_of(self.news_items@, |n: NewsItem| n.related_packages@.len() > 0),
    {
        let ghost f = |n: NewsItem| n.related_packages@.len() > 0;
        let mut n: usize = 0;
        let mut i: usize = 0;
        while i < self.news_items.len()
            invariant
                i <= self.news_items@.len(),
                n == count_of(self.news_items@.subrange(0, i as int), f),
                f == |n: NewsItem| n.related_packages@.len() > 0,
            decreases self.news_items@.len() - i,
        {
            proof {
                lemma_count_step(self.news_items@, f, i as int);
            }
            if self.news_items[i].related_packages.len() > 0 {
                n = n + 1;
            }
            i = i + 1;
        }
        assert(self.news_items@.subrange(0, i as int) =~= self.news_items@);
        n
    }

    /// Refreshes what an action that the surrounding program has just run may
    /// have changed: everything after an update, the rebuild checks after a
    /// fix, the installed packages and orphans after removing packages, the
    /// installed packages after reinstalling, and after installing also the
    /// search (its results' installed marks).
    pub fn after_action(&mut self, action: &Action, now: u64)
        requires
            old(self).wf(),
            old(self).current_search_id < u64::MAX,
        ensures
            final(self).wf(),
            match action {
                Action::RunUpdate(_) => final(self).tasks@.len() == old(self).tasks@.len() + 1
                    && final(self).tasks@.last() is Refresh,
                Action::RunRebuild(_) => final(self).tasks@.len() == old(self).tasks@.len() + 1
                    && final(self).tasks@.last() is RefreshRebuilds,
                Action::Uninstall(_) | Action::UninstallWithDeps(_) => final(self).tasks@
                    == old(self).tasks@.push(Task::RefreshInstalled).push(Task::RefreshOrphans),
                Action::Reinstall(_) | Action::ForceRebuild(_) => final(self).tasks@ == old(
                    self,
                ).tasks@.push(Task::RefreshInstalled),
                Action::Install(_) => {
                    &&& final(self).tasks@ == old(self).tasks@.push(Task::RefreshInstalled)
                    &&& final(self).search_query == old(self).search_query
                    &&& (old(self).search_query@.len() >= 2 ==> final(self).pending_search
                        == Some(old(self).search_query))
                },
                _ => *final(self) == *old(self),
            },
    {
        let ghost a = *self;
        match action {
            Action::RunUpdate(_) => self.refresh(),
            Action::RunRebuild(_) => self.refresh_rebuilds(),
            Action::Uninstall(_) | Action::UninstallWithDeps(_) => {
                self.refresh_installed();
                self.refresh_orphans();
            },
            Action::Reinstall(_) | Action::ForceRebuild(_) => self.refresh_installed(),
            Action::Install(_) => {
                self.refresh_installed();
                proof {
                    assert forall|t: Tab| cursor_ok(#[trigger] self.cursor(t), self.visible_len(t)) by {
                        assert(cursor_ok(a.cursor(t), a.visible_len(t)));
                    }
                }
                self.do_search(now);
            },
            _ => {},
        }
        proof {
            assert forall|t: Tab| cursor_ok(#[trigger] self.cursor(t), self.visible_len(t)) by {
                assert(cursor_ok(a.cursor(t), a.visible_len(t)));
            }
        }
    }

    /// Hands out the work asked for since the last call, in order.
    pub fn take_tasks(&mut self) -> (r: Vec<Task>)
        ensures
            r@ == old(self).tasks@,
            final(self).tasks@.len() == 0,
    {
        let mut out: Vec<Task> = Vec::new();
        std::mem::swap(&mut out, &mut self.tasks);
        out
    }
}

} // verus!
