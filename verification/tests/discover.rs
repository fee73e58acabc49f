use phm::discover::{
    deduplicate, discover_homebrew_versions, discover_linux_versions, discover_versions,
    find_installation, has_version_text, homebrew_opt_dirs, homebrew_prefixes, is_bare_php,
    sort_by_version, system_php_dir_candidates, unique_paths, version_from_cellar_link,
    version_from_php_output, DiscoveryScan, HomebrewEntry, ManagedEntry, PhpInstallation,
    SystemPhp,
};
use phm::version::PhpVersion;

fn v(major: u8, minor: u8) -> PhpVersion {
    PhpVersion::new(major, minor)
}

fn inst(major: u8, minor: u8, dir: &str) -> PhpInstallation {
    PhpInstallation { version: v(major, minor), bin_dir: dir.to_string() }
}

fn managed(name: &str, has_php: bool) -> ManagedEntry {
    ManagedEntry {
        name: name.to_string(),
        path: format!("/data/phm/php-versions/{}", name),
        has_php,
    }
}

fn summary(found: &[PhpInstallation]) -> Vec<(PhpVersion, String)> {
    found.iter().map(|i| (i.version, i.bin_dir.clone())).collect()
}

#[test]
fn php_version_output_gives_the_version() {
    assert_eq!(
        version_from_php_output("PHP 8.3.19 (cli) (built: Mar 13 2025)\nCopyright (c) The PHP Group\n"),
        Some(v(8, 3))
    );
    assert_eq!(version_from_php_output("HipHop VM 4.0\n"), None);
    assert_eq!(version_from_php_output(""), None);
}

#[test]
fn linux_discovery_merges_managed_and_system_versions_sorted() {
    let managed_entries = vec![
        managed("8.3", true),
        managed("notes", true),
        managed("8.1", true),
        managed("8.2", false),
    ];
    let system = vec![
        SystemPhp { dir: "/usr/bin".to_string(), version_output: Some("PHP 8.3.19 (cli)\n".to_string()) },
        SystemPhp { dir: "/usr/local/bin".to_string(), version_output: Some("PHP 7.4.33 (cli)\n".to_string()) },
        SystemPhp { dir: "/opt/bin".to_string(), version_output: None },
    ];
    let found = discover_linux_versions(managed_entries, system);
    assert_eq!(
        summary(&found),
        vec![
            (v(7, 4), "/usr/local/bin".to_string()),
            (v(8, 1), "/data/phm/php-versions/8.1/bin".to_string()),
            (v(8, 3), "/data/phm/php-versions/8.3/bin".to_string()),
        ]
    );
}

#[test]
fn discover_versions_dispatches_on_the_scan() {
    let found = discover_versions(DiscoveryScan::Linux { managed: vec![managed("8.4", true)], system: vec![] });
    assert_eq!(summary(&found), vec![(v(8, 4), "/data/phm/php-versions/8.4/bin".to_string())]);
    let found = discover_versions(DiscoveryScan::Homebrew { entries: vec![] });
    assert!(found.is_empty());
}

#[test]
fn homebrew_discovery_prefers_versioned_formulas_over_bare_php() {
    let entries = vec![
        HomebrewEntry {
            name: "php".to_string(),
            path: "/opt/homebrew/opt/php".to_string(),
            has_php: true,
            link_target: Some("../Cellar/php/8.4.5".to_string()),
        },
        HomebrewEntry {
            name: "php@8.4".to_string(),
            path: "/opt/homebrew/opt/php@8.4".to_string(),
            has_php: true,
            link_target: None,
        },
        HomebrewEntry {
            name: "php@8.2".to_string(),
            path: "/opt/homebrew/opt/php@8.2".to_string(),
            has_php: true,
            link_target: None,
        },
        HomebrewEntry {
            name: "node".to_string(),
            path: "/opt/homebrew/opt/node".to_string(),
            has_php: false,
            link_target: None,
        },
    ];
    let found = discover_homebrew_versions(entries);
    assert_eq!(
        summary(&found),
        vec![
            (v(8, 2), "/opt/homebrew/opt/php@8.2/bin".to_string()),
            (v(8, 4), "/opt/homebrew/opt/php@8.4/bin".to_string()),
        ]
    );
}

#[test]
fn bare_php_alone_is_kept() {
    let entries = vec![HomebrewEntry {
        name: "php".to_string(),
        path: "/opt/homebrew/opt/php".to_string(),
        has_php: true,
        link_target: Some("../Cellar/php/8.5.4".to_string()),
    }];
    let found = discover_homebrew_versions(entries);
    assert_eq!(summary(&found), vec![(v(8, 5), "/opt/homebrew/opt/php/bin".to_string())]);
}

#[test]
fn cellar_links_and_bare_directories() {
    assert_eq!(version_from_cellar_link("../Cellar/php/8.5.4"), Some(v(8, 5)));
    assert_eq!(version_from_cellar_link("../Cellar/php/latest"), None);
    assert!(is_bare_php("/opt/homebrew/opt/php/bin"));
    assert!(!is_bare_php("/opt/homebrew/opt/php@8.2/bin"));
}

#[test]
fn deduplicate_drops_bare_php_shadowed_by_a_formula() {
    let mut found = vec![
        inst(8, 4, "/opt/homebrew/opt/php/bin"),
        inst(8, 4, "/opt/homebrew/opt/php@8.4/bin"),
        inst(8, 3, "/opt/homebrew/opt/php/bin"),
    ];
    deduplicate(&mut found);
    assert_eq!(
        summary(&found),
        vec![
            (v(8, 4), "/opt/homebrew/opt/php@8.4/bin".to_string()),
            (v(8, 3), "/opt/homebrew/opt/php/bin".to_string()),
        ]
    );
}

#[test]
fn sorting_is_stable_by_version() {
    let sorted = sort_by_version(vec![inst(8, 4, "a"), inst(7, 4, "b"), inst(8, 4, "c"), inst(8, 0, "d")]);
    assert_eq!(
        summary(&sorted),
        vec![
            (v(7, 4), "b".to_string()),
            (v(8, 0), "d".to_string()),
            (v(8, 4), "a".to_string()),
            (v(8, 4), "c".to_string()),
        ]
    );
}

#[test]
fn finding_installations() {
    let found = vec![inst(8, 2, "a"), inst(8, 4, "b"), inst(8, 4, "c")];
    assert_eq!(find_installation(&found, v(8, 4)), Some(1));
    assert_eq!(find_installation(&found, v(8, 3)), None);
    assert!(has_version_text(&found, "8.4"));
    assert!(!has_version_text(&found, "8.40"));
}

#[test]
fn homebrew_prefixes_are_unique_and_in_order() {
    let p = homebrew_prefixes(Some("/opt/homebrew"), Some("/usr/local\n"));
    assert_eq!(p, vec!["/opt/homebrew".to_string(), "/usr/local".to_string()]);
    let p = homebrew_prefixes(None, Some("  \n"));
    assert_eq!(p, vec!["/opt/homebrew".to_string(), "/usr/local".to_string()]);
    let p = homebrew_prefixes(Some("/custom/brew"), None);
    assert_eq!(
        p,
        vec!["/custom/brew".to_string(), "/opt/homebrew".to_string(), "/usr/local".to_string()]
    );
    assert_eq!(
        homebrew_opt_dirs(&p),
        vec![
            "/custom/brew/opt".to_string(),
            "/opt/homebrew/opt".to_string(),
            "/usr/local/opt".to_string()
        ]
    );
}

#[test]
fn system_directories_to_scan() {
    assert_eq!(
        system_php_dir_candidates(Some("/data/data/com.termux/files/usr")),
        vec![
            "/data/data/com.termux/files/usr/bin".to_string(),
            "/usr/bin".to_string(),
            "/usr/local/bin".to_string()
        ]
    );
    assert_eq!(
        unique_paths(&vec!["/usr/bin".to_string(), "/usr/bin".to_string(), "/usr/local/bin".to_string()]),
        vec!["/usr/bin".to_string(), "/usr/local/bin".to_string()]
    );
}
