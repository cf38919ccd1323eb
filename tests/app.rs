use upkeep::action::Action;
use upkeep::app::{App, KeyCode, KeyEvent, Tab, Task, TaskResult};
use upkeep::config::Config;
use upkeep::cursor::{clamp_selection, move_cursor};
use upkeep::rebuilds::RebuildIssue;
use upkeep::types::{InstalledPackage, Package, PackageInfo, PackageSource, SearchResult};

fn key(c: char) -> KeyEvent {
    KeyEvent { code: KeyCode::Char(c), shift: false }
}

fn code(k: KeyCode) -> KeyEvent {
    KeyEvent { code: k, shift: false }
}

fn app() -> App {
    App::new(Config::default(), Vec::new())
}

fn update(name: &str) -> Package {
    Package::new(name.to_string(), "1".to_string(), "2".to_string(), PackageSource::Pacman)
}

fn result(name: &str, installed: bool) -> SearchResult {
    SearchResult {
        name: name.to_string(),
        version: "1".to_string(),
        description: String::new(),
        repository: "extra".to_string(),
        installed,
        selected: false,
    }
}

#[test]
fn cursor_moves_stay_in_range() {
    let mut c = None;
    for d in [1, 5, -10, 3, 100, -1] {
        c = move_cursor(c, d, 4);
        let i = c.unwrap();
        assert!(i < 4);
    }
    assert_eq!(c, Some(2));
    assert_eq!(move_cursor(None, 1, 0), None);
    assert_eq!(move_cursor(Some(0), -1, 3), Some(0));
    assert_eq!(move_cursor(Some(2), 1, 3), Some(2));
}

#[test]
fn clamp_to_shorter_listing() {
    assert_eq!(clamp_selection(Some(7), 3), Some(2));
    assert_eq!(clamp_selection(Some(1), 3), Some(1));
    assert_eq!(clamp_selection(Some(1), 0), None);
    assert_eq!(clamp_selection(None, 2), Some(0));
}

#[test]
fn replacing_updates_reclamps_cursor() {
    let mut a = app();
    a.apply_result(TaskResult::Updates(vec![update("a"), update("b"), update("c")], vec![]), 0);
    a.handle_key(code(KeyCode::Down), 0);
    a.handle_key(code(KeyCode::Down), 0);
    assert_eq!(a.list_state, Some(2));
    a.apply_result(TaskResult::Updates(vec![update("x")], vec![]), 0);
    assert_eq!(a.list_state, Some(0));
    a.apply_result(TaskResult::Updates(vec![], vec![]), 0);
    assert_eq!(a.list_state, None);
}

#[test]
fn stale_search_results_are_dropped() {
    let mut a = app();
    a.tab = Tab::Search;
    a.handle_key(key('v'), 0);
    a.handle_key(key('i'), 0);
    assert!(a.check_search_debounce(1000));
    let g1 = a.current_search_id;
    a.handle_key(key('m'), 1000);
    assert!(!a.check_search_debounce(1100));
    assert!(a.check_search_debounce(1400));
    let g2 = a.current_search_id;
    assert!(g1 < g2);
    let tasks = a.take_tasks();
    assert_eq!(tasks.len(), 2);
    match &tasks[1] {
        Task::Search { id, query } => {
            assert_eq!(*id, g2);
            assert_eq!(query, "vim");
        }
        _ => panic!("expected a search"),
    }
    a.poll_tasks(vec![TaskResult::Search(g2, vec![result("vim", false)])], 1500);
    a.poll_tasks(vec![TaskResult::Search(g1, vec![result("vi", false), result("x", false)])], 1600);
    assert_eq!(a.search_results.len(), 1);
    assert_eq!(a.search_results[0].name, "vim");
}

#[test]
fn short_query_clears_at_once() {
    let mut a = app();
    a.tab = Tab::Search;
    a.handle_key(key('v'), 0);
    a.handle_key(key('i'), 0);
    assert!(a.check_search_debounce(400));
    let id = a.current_search_id;
    a.handle_key(code(KeyCode::Backspace), 500);
    assert!(a.search_results.is_empty());
    assert!(a.pending_search.is_none());
    assert!(a.current_search_id > id);
    a.apply_result(TaskResult::Search(id, vec![result("vim", false)]), 600);
    assert!(a.search_results.is_empty());
}

#[test]
fn select_all_then_none_under_filter() {
    let mut a = app();
    a.apply_result(
        TaskResult::Updates(vec![update("alpha"), update("beta"), update("alps")], vec![]),
        0,
    );
    a.packages[1].selected = true;
    a.handle_key(key('f'), 0);
    a.handle_key(key('a'), 0);
    a.handle_key(key('l'), 0);
    a.handle_key(key('F'), 0);
    assert_eq!(a.filter_text, "al");
    a.handle_key(key('a'), 0);
    assert!(a.packages[0].selected && a.packages[2].selected);
    a.handle_key(key('n'), 0);
    assert!(!a.packages[0].selected && !a.packages[2].selected);
    assert!(a.packages[1].selected);
}

#[test]
fn orphans_select_all() {
    let mut a = app();
    a.tab = Tab::Orphans;
    a.orphan_packages = vec![InstalledPackage::new("o".to_string(), "1".to_string(), PackageSource::Pacman)];
    a.handle_key(key('a'), 0);
    assert!(a.orphan_packages[0].selected);
}

#[test]
fn hiding_info_pane_invalidates_fetch() {
    let mut a = app();
    a.apply_result(TaskResult::Updates(vec![update("a")], vec![]), 0);
    assert!(a.pending_info_fetch.is_some());
    assert!(a.check_info_debounce(100));
    let id = a.current_info_id;
    a.handle_key(key('?'), 150);
    assert!(!a.show_info_pane);
    assert!(a.cached_pkg_info.is_none());
    assert!(a.pending_info_fetch.is_none());
    assert!(a.current_info_id > id);
    let info = PackageInfo {
        name: "a".to_string(),
        version: "2".to_string(),
        description: String::new(),
        size: String::new(),
        repository: String::new(),
        install_date: None,
        install_reason: None,
        url: None,
        build_date: None,
        maintainer: None,
        votes: None,
    };
    a.apply_result(TaskResult::PackageInfo(id, Some(info)), 200);
    assert!(a.cached_pkg_info.is_none());
}

#[test]
fn actions_fall_back_to_focused_row() {
    let mut a = app();
    a.apply_result(
        TaskResult::Installed(vec![
            InstalledPackage::new("bash".to_string(), "5".to_string(), PackageSource::Pacman),
            InstalledPackage::new("vim".to_string(), "9".to_string(), PackageSource::Pacman),
        ]),
        0,
    );
    a.handle_key(code(KeyCode::Tab), 0);
    assert_eq!(a.tab, Tab::Installed);
    a.handle_key(code(KeyCode::Down), 0);
    match a.handle_key(key('d'), 0) {
        Action::Uninstall(v) => assert_eq!(v, vec!["vim".to_string()]),
        _ => panic!("expected uninstall"),
    }
    a.installed_packages[0].selected = true;
    match a.handle_key(key('I'), 0) {
        Action::ForceRebuild(v) => assert_eq!(v, vec!["bash".to_string()]),
        _ => panic!("expected rebuild"),
    }
    assert!(matches!(a.handle_key(key('q'), 0), Action::Quit));
}

#[test]
fn tabs_cycle_in_ring_and_load_lazily() {
    let mut a = app();
    a.handle_key(code(KeyCode::BackTab), 0);
    assert_eq!(a.tab, Tab::News);
    let tasks = a.take_tasks();
    assert!(matches!(tasks.last(), Some(Task::RefreshNews { .. })));
    a.handle_key(code(KeyCode::Tab), 0);
    assert_eq!(a.tab, Tab::Updates);
    a.handle_key(code(KeyCode::Tab), 0);
    assert_eq!(a.tab, Tab::Installed);
    assert!(matches!(a.take_tasks().last(), Some(Task::RefreshInstalled)));
}

#[test]
fn rebuild_enter_joins_selected_commands() {
    let mut a = app();
    a.tab = Tab::Rebuilds;
    a.apply_result(
        TaskResult::Rebuilds(vec![
            RebuildIssue { name: "a".to_string(), rebuild_command: "fix a".to_string(), selected: false },
            RebuildIssue { name: "b".to_string(), rebuild_command: "fix b".to_string(), selected: false },
        ]),
        0,
    );
    match a.handle_key(code(KeyCode::Enter), 0) {
        Action::RunRebuild(c) => assert_eq!(c, "fix a"),
        _ => panic!("expected rebuild"),
    }
    a.handle_key(key('a'), 0);
    match a.handle_key(code(KeyCode::Enter), 0) {
        Action::RunRebuild(c) => assert_eq!(c, "fix a && fix b"),
        _ => panic!("expected rebuild"),
    }
}

#[test]
fn install_skips_installed_results() {
    let mut a = app();
    a.tab = Tab::Search;
    a.apply_result(TaskResult::Search(0, vec![result("a", true), result("b", false)]), 0);
    assert!(matches!(a.handle_key(code(KeyCode::Enter), 0), Action::NoOp));
    a.handle_key(code(KeyCode::Down), 0);
    match a.handle_key(code(KeyCode::Enter), 0) {
        Action::Install(v) => assert_eq!(v, vec!["b".to_string()]),
        _ => panic!("expected install"),
    }
}

#[test]
fn counts() {
    let mut a = app();
    let mut aur = update("y");
    aur.source = PackageSource::Aur;
    a.apply_result(TaskResult::Updates(vec![update("x")], vec![aur]), 0);
    assert_eq!(a.pacman_count(), 1);
    assert_eq!(a.aur_count(), 1);
    assert_eq!(a.installed_count(), 0);
    assert_eq!(a.orphan_count(), 0);
    assert_eq!(a.installed_aur_count(), 0);
    assert_eq!(a.news_attention_count(), 0);
    assert_eq!(a.news_related_count(), 0);
}

fn news(title: &str, description: &str) -> upkeep::news::NewsItem {
    upkeep::news::NewsItem {
        title: title.to_string(),
        link: String::new(),
        description: description.to_string(),
        author: String::new(),
        pub_date: String::new(),
        requires_attention: false,
        related_packages: Vec::new(),
    }
}

#[test]
fn rematch_marks_prefix_related() {
    let mut a = app();
    a.apply_result(TaskResult::News(Ok(vec![news("grub update", "regenerate config")])), 0);
    a.apply_result(
        TaskResult::Installed(vec![
            InstalledPackage::new("grub-btrfs".to_string(), "1".to_string(), PackageSource::Pacman),
            InstalledPackage::new("grubby".to_string(), "1".to_string(), PackageSource::Pacman),
        ]),
        0,
    );
    assert_eq!(a.news_items[0].related_packages, vec!["grub-btrfs".to_string()]);
    assert_eq!(a.news_related_count(), 1);
}

#[test]
fn news_failure_sets_error_flag() {
    let mut a = app();
    a.refresh_news();
    assert!(a.news_loading);
    a.apply_result(TaskResult::News(Err("fetch failed".to_string())), 0);
    assert!(a.news_error);
    assert!(!a.news_loading);
}

#[test]
fn loading_ends_when_refreshes_answered() {
    let mut a = app();
    a.refresh();
    assert_eq!(a.pending_tasks, 3);
    a.poll_tasks(
        vec![
            TaskResult::Updates(vec![], vec![]),
            TaskResult::Installed(vec![]),
        ],
        0,
    );
    assert_eq!(a.loading, upkeep::app::LoadingState::Loading);
    a.poll_tasks(vec![TaskResult::Rebuilds(vec![])], 0);
    assert_eq!(a.loading, upkeep::app::LoadingState::Idle);
}

#[test]
fn news_navigation_and_scroll() {
    let mut a = app();
    a.tab = Tab::News;
    a.apply_result(TaskResult::News(Ok(vec![news("a", "x\ny"), news("b", "z")])), 0);
    assert_eq!(a.news_list_state, Some(0));
    a.handle_key(KeyEvent { code: KeyCode::PageDown, shift: false }, 0);
    a.handle_key(code(KeyCode::Down), 0);
    assert_eq!(a.news_list_state, Some(1));
    assert_eq!(a.news_scroll, 0);
    assert_eq!(a.cached_news_info.as_ref().unwrap().title, "b");
}

#[test]
fn update_key_falls_back_to_focused_row() {
    let mut a = app();
    a.apply_result(TaskResult::Updates(vec![update("a"), update("b")], vec![]), 0);
    a.handle_key(code(KeyCode::Down), 0);
    match a.handle_key(key('u'), 0) {
        Action::RunUpdate(v) => assert_eq!(v, vec!["b".to_string()]),
        _ => panic!("expected update"),
    }
    a.packages[0].selected = true;
    match a.handle_key(key('u'), 0) {
        Action::RunUpdate(v) => assert_eq!(v, vec!["a".to_string()]),
        _ => panic!("expected update"),
    }
}

#[test]
fn refresh_counts_add_up() {
    let mut a = app();
    a.refresh_installed();
    a.refresh();
    assert_eq!(a.pending_tasks, 4);
}

#[test]
fn hiding_pane_on_news_tab_drops_package_details() {
    let mut a = app();
    a.apply_result(TaskResult::Updates(vec![update("a")], vec![]), 0);
    assert!(a.check_info_debounce(100));
    let id = a.current_info_id;
    a.tab = Tab::News;
    a.handle_key(key('?'), 150);
    assert!(!a.show_info_pane);
    assert!(a.cached_news_info.is_none());
    assert!(a.current_info_id > id);
    a.apply_result(TaskResult::PackageInfo(id, None), 200);
    assert!(!a.info_loading);
    assert!(a.pending_info_fetch.is_none());
}

#[test]
fn public_moves_clamp() {
    let mut a = app();
    a.tab = Tab::Orphans;
    a.apply_result(
        TaskResult::Orphans(vec![
            InstalledPackage::new("o1".to_string(), "1".to_string(), PackageSource::Pacman),
            InstalledPackage::new("o2".to_string(), "1".to_string(), PackageSource::Pacman),
        ]),
        0,
    );
    a.move_selection(5, 0);
    assert_eq!(a.orphans_list_state, Some(1));
    a.move_selection(-7, 0);
    assert_eq!(a.orphans_list_state, Some(0));
    a.move_news_selection(1);
    assert_eq!(a.news_list_state, None);
}

#[test]
fn follow_up_refreshes_after_actions() {
    let mut a = app();
    a.after_action(&Action::Uninstall(vec!["x".to_string()]), 0);
    let tasks = a.take_tasks();
    assert!(matches!(tasks[0], Task::RefreshInstalled));
    assert!(matches!(tasks[1], Task::RefreshOrphans));
    a.after_action(&Action::NoOp, 0);
    assert!(a.take_tasks().is_empty());
    a.after_action(&Action::RunRebuild("fix".to_string()), 0);
    assert!(matches!(a.take_tasks()[0], Task::RefreshRebuilds { .. }));
}
