use upkeep::aur::{aur_version_of, check_aur_updates, find_updates, is_newer};
use upkeep::backup::{get_package_list, split_packages};
use upkeep::config::{config_dir_from, default_aur_helper, join_path};
use upkeep::display::{format_package_name, truncate_with_ellipsis};
use upkeep::rebuilds::{check_rebuilds, RebuildCheck};
use upkeep::search::{parse_pacman_search, search_packages};
use upkeep::types::{filter_items, Package, PackageInfo, PackageSource, SearchResult};
use upkeep::util::url_encode;

fn s(x: &str) -> String {
    x.to_string()
}

#[test]
fn rebuild_check_without_pattern_match_yields_nothing() {
    let checks = vec![RebuildCheck {
        name: s("A"),
        command: vec![s("false")],
        error_patterns: vec![s("ABI mismatch")],
        rebuild: s("fix"),
    }];
    assert!(check_rebuilds(&checks, &vec![Some(String::new())]).is_empty());
    let issues = check_rebuilds(&checks, &vec![Some(s("error: ABI mismatch found"))]);
    assert_eq!(issues.len(), 1);
    assert_eq!(issues[0].name, "A");
    assert_eq!(issues[0].rebuild_command, "fix");
    assert!(check_rebuilds(&checks, &vec![None]).is_empty());
}

#[test]
fn rebuild_check_without_command_never_fires() {
    let checks = vec![RebuildCheck {
        name: s("B"),
        command: vec![],
        error_patterns: vec![s("x")],
        rebuild: s("fix"),
    }];
    assert!(check_rebuilds(&checks, &vec![Some(s("x"))]).is_empty());
}

#[test]
fn repository_search_output() {
    let out = "core/bash 5.2-1 [installed]\n    The GNU shell\nextra/zsh 5.9-2\n    A shell\nextra/fish 3.7\n";
    let r = parse_pacman_search(out);
    assert_eq!(r.len(), 3);
    assert_eq!(r[0].repository, "core");
    assert_eq!(r[0].name, "bash");
    assert!(r[0].installed);
    assert_eq!(r[0].description, "The GNU shell");
    assert_eq!(r[1].name, "zsh");
    assert!(!r[1].installed);
    assert_eq!(r[2].description, "");
}

fn res(name: &str, repo: &str, installed: bool) -> SearchResult {
    SearchResult {
        name: s(name),
        version: s("1"),
        description: String::new(),
        repository: s(repo),
        installed,
        selected: false,
    }
}

#[test]
fn merged_search_results_are_ordered() {
    let repo = vec![res("zsh", "extra", true), res("bash", "core", false)];
    let aur = vec![res("zsh", "AUR", false), res("yay", "AUR", false), res("paru", "AUR", false)];
    let installed = vec![s("paru")];
    let r = search_packages("sh", repo, aur, &installed);
    let names: Vec<&str> = r.iter().map(|x| x.name.as_str()).collect();
    assert_eq!(names, vec!["bash", "yay", "paru", "zsh"]);
    assert!(search_packages("s", vec![res("a", "core", false)], vec![], &installed).is_empty());
}

#[test]
fn package_details_listing() {
    let out = "Name            : vim\nVersion         : 9.1-1\nURL             : https://www.vim.org\nDownload Size   : 2 MiB\nInstalled Size  : 4 MiB\n";
    let info = PackageInfo::parse_pacman_output(out, false).unwrap();
    assert_eq!(info.name, "vim");
    assert_eq!(info.version, "9.1-1");
    assert_eq!(info.url.as_deref(), Some("https://www.vim.org"));
    assert_eq!(info.size, "4 MiB");
    let info = PackageInfo::parse_pacman_output("Name : x\nDownload Size : 2\n", false).unwrap();
    assert_eq!(info.size, "2");
    let info = PackageInfo::parse_pacman_output("Name : x\nDownload Size : 2\n", true).unwrap();
    assert_eq!(info.size, "");
    assert!(PackageInfo::parse_pacman_output("Version : 1\n", true).is_none());
}

#[test]
fn aur_updates_from_versions() {
    let local = vec![(s("yay"), s("12.0")), (s("paru"), s("2.0")), (s("gone"), s("1"))];
    let versions = vec![(s("yay"), s("12.1")), (s("paru"), s("2.0"))];
    assert_eq!(aur_version_of(&s("yay"), &versions), Some(s("12.1")));
    assert_eq!(aur_version_of(&s("gone"), &versions), None);
    let outs = vec![Some(s("1\n")), None, None];
    let ups = find_updates(&local, &versions, &outs);
    assert_eq!(ups.len(), 1);
    assert_eq!(ups[0].name, "yay");
    assert_eq!(ups[0].new_version, "12.1");
    assert_eq!(ups[0].source, PackageSource::Aur);
    assert!(!is_newer(&s("1"), &s("1"), &None));
    assert!(is_newer(&s("2"), &s("1"), &None));
    assert!(!is_newer(&s("2"), &s("1"), &Some(s("-1"))));
    let fallback = check_aur_updates(&local, &None, &vec![], &Some(s("yay 12.0 -> 12.2\n")));
    assert_eq!(fallback[0].new_version, "12.2");
    assert!(check_aur_updates(&vec![], &Some(versions), &outs, &None).is_empty());
}

#[test]
fn package_list_text() {
    let (official, aur) = split_packages(&vec![s("bash"), s("yay"), s("vim")], &vec![s("yay")]);
    assert_eq!(official, vec![s("bash"), s("vim")]);
    assert_eq!(aur, vec![s("yay")]);
    let (text, n, m) = get_package_list(&official, &aur);
    assert_eq!(text, "# Official\nbash\nvim\n\n# AUR\nyay\n");
    assert_eq!((n, m), (2, 1));
}

#[test]
fn url_encoding() {
    assert_eq!(url_encode("a b-c_d.e~f"), "a+b-c_d.e~f");
    assert_eq!(url_encode("c++"), "c%2B%2B");
    assert_eq!(url_encode("é"), "%C3%A9");
    assert_eq!(url_encode("€"), "%E2%82%AC");
}

#[test]
fn column_fitting() {
    assert_eq!(truncate_with_ellipsis("abc", 5), "abc  ");
    assert_eq!(truncate_with_ellipsis("abcdefgh", 6), "abc...");
    assert_eq!(format_package_name("vim", " (AUR)", 12), "vim (AUR)   ");
    assert_eq!(format_package_name("longpackagename", " (AUR)", 12), "lon... (AUR)");
}

#[test]
fn config_paths() {
    assert_eq!(default_aur_helper(), "yay");
    assert_eq!(config_dir_from(Some(s("/home/u/.config"))), "/home/u/.config/upkeep");
    assert_eq!(config_dir_from(None), "./upkeep");
    assert_eq!(join_path(&s("/etc/"), "x"), "/etc/x");
}

#[test]
fn filter_ignores_case() {
    let items = vec![
        Package::new(s("Firefox"), s("1"), s("2"), PackageSource::Pacman),
        Package::new(s("vim"), s("1"), s("2"), PackageSource::Pacman),
    ];
    let f = filter_items(&items, "FIRE");
    assert_eq!(f.len(), 1);
    assert_eq!(f[0].0, 0);
    assert_eq!(filter_items(&items, "").len(), 2);
}

#[test]
fn config_files_live_in_app_directory() {
    assert!(upkeep::config::config_path().ends_with("upkeep/config.toml"));
    assert!(upkeep::config::checks_path().ends_with("upkeep/checks.toml"));
}

fn info(name: &str, repo: &str) -> PackageInfo {
    PackageInfo {
        name: s(name),
        version: s("1"),
        description: String::new(),
        size: String::new(),
        repository: s(repo),
        install_date: None,
        install_reason: None,
        url: None,
        build_date: None,
        maintainer: None,
        votes: None,
    }
}

#[test]
fn installed_details_get_their_source() {
    let r = PackageInfo::complete_installed(info("vim", ""), Some(info("vim", "extra")), false, None);
    assert_eq!(r.repository, "extra");
    let mut aur = info("yay", "AUR");
    aur.maintainer = Some(s("m"));
    aur.votes = Some(7);
    let r = PackageInfo::complete_installed(info("yay", ""), None, true, Some(aur));
    assert_eq!(r.repository, "AUR");
    assert_eq!(r.votes, Some(7));
    let r = PackageInfo::complete_installed(info("x", "core"), None, true, None);
    assert_eq!(r.repository, "core");
}
