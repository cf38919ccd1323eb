use upkeep::pacman::{
    get_installed_packages, parse_name_versions, parse_package_names, parse_update_lines,
    parse_updates,
};
use upkeep::types::PackageSource;

#[test]
fn test_parse_updates() {
    let output = "firefox 115.0-1 -> 116.0-1\nlinux 6.4.10-1 -> 6.4.12-1\n";
    let packages = parse_updates(output);
    assert_eq!(packages.len(), 2);
    assert_eq!(packages[0].name, "firefox");
    assert_eq!(packages[0].old_version, "115.0-1");
    assert_eq!(packages[0].new_version, "116.0-1");
}

#[test]
fn update_lines_without_arrow_are_skipped() {
    let output = ":: warning\nvim 9.0 -> 9.1\nbroken -> \n";
    let packages = parse_update_lines(output, PackageSource::Aur);
    assert_eq!(packages.len(), 1);
    assert_eq!(packages[0].name, "vim");
    assert_eq!(packages[0].new_version, "9.1");
    assert_eq!(packages[0].source, PackageSource::Aur);
    assert!(!packages[0].selected);
}

#[test]
fn name_version_lists() {
    let pairs = parse_name_versions("bash 5.2-1\n\nlonely\nzsh 5.9-2 extra\n");
    assert_eq!(
        pairs,
        vec![
            ("bash".to_string(), "5.2-1".to_string()),
            ("zsh".to_string(), "5.9-2".to_string())
        ]
    );
    assert_eq!(
        parse_package_names("yay 12\n\nparu 2\n"),
        vec!["yay".to_string(), "paru".to_string()]
    );
}

#[test]
fn installed_sources_follow_foreign_list() {
    let pairs = vec![
        ("bash".to_string(), "5.2".to_string()),
        ("yay".to_string(), "12".to_string()),
    ];
    let foreign = vec!["yay".to_string()];
    let pkgs = get_installed_packages(&pairs, &foreign);
    assert_eq!(pkgs[0].source, PackageSource::Pacman);
    assert_eq!(pkgs[1].source, PackageSource::Aur);
    assert_eq!(pkgs[1].source_label(), " (AUR)");
    assert_eq!(pkgs[0].source_label(), "");
    assert_eq!(pkgs[1].version, "12");
}
