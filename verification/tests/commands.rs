use phm::commands::default::{run as default_run, DefaultPlan};
use phm::commands::doctor::{
    run as doctor_run, DefaultCheck, DefaultRead, DnsCheck, DoctorFacts, ProotCheck, ShellCheck,
    ShimCheck,
};
use phm::commands::env::linked_installation;
use phm::commands::install::{
    brew_formula, confirm_brew_install, confirm_download, latest_release, run as install_run,
    version_dir, InstallPlan,
};
use phm::commands::list::{run as list_run, tags};
use phm::commands::list_remote::run as list_remote_run;
use phm::commands::uninstall::{
    confirm_brew_uninstall, plan_removal, run as uninstall_run, UninstallCheck, UninstallPlan,
};
use phm::commands::use_version::{
    answer_accepts_install, default_constraint, explicit_constraint, plan_after_install,
    plan_switch, SwitchPlan, UseOutput,
};
use phm::discover::PhpInstallation;
use phm::error::PhmError;
use phm::platform::Platform;
use phm::version::{PhpVersion, VersionConstraint};

fn v(major: u8, minor: u8) -> PhpVersion {
    PhpVersion::new(major, minor)
}

fn installs() -> Vec<PhpInstallation> {
    vec![
        PhpInstallation { version: v(7, 4), bin_dir: "/usr/bin".to_string() },
        PhpInstallation { version: v(8, 2), bin_dir: "/m/8.2/bin".to_string() },
        PhpInstallation { version: v(8, 4), bin_dir: "/m/8.4/bin".to_string() },
    ]
}

fn facts() -> DoctorFacts {
    DoctorFacts {
        platform: Platform::Linux,
        installations: installs(),
        default: DefaultRead::Stored("8.4".to_string()),
        multishell_path: Some("/s/ms/1_2".to_string()),
        multishell_exists: true,
        composer_found: false,
        shim_bin: Some("/h/.local/state/phm/shims/bin".to_string()),
        path_env: "/h/.local/state/phm/shims/bin:/usr/bin".to_string(),
        termux: false,
        resolv: None,
        proot_wrap: false,
        proot_found: false,
    }
}

#[test]
fn doctor_passes_a_healthy_linux_setup() {
    let r = doctor_run(facts());
    assert_eq!(r.issues, 0);
    assert!(!r.no_versions);
    assert!(matches!(r.default, DefaultCheck::Installed(ref d) if d == "8.4"));
    assert_eq!(r.shell, ShellCheck::Active);
    assert!(!r.composer_issue);
    assert!(matches!(r.shims, ShimCheck::InPath(_)));
    assert!(r.dns.is_none() && r.proot.is_none());
}

#[test]
fn doctor_counts_every_failed_check() {
    let mut f = facts();
    f.installations = Vec::new();
    f.default = DefaultRead::Stored("8.4".to_string());
    f.multishell_path = None;
    f.path_env = "/usr/bin".to_string();
    f.termux = true;
    f.resolv = Some(("/p/etc/resolv.conf".to_string(), false, false));
    let r = doctor_run(f);
    assert!(r.no_versions);
    assert!(matches!(r.default, DefaultCheck::NotInstalled(_)));
    assert_eq!(r.shell, ShellCheck::NotLoaded);
    assert!(matches!(r.shims, ShimCheck::NotInPath(_)));
    assert!(matches!(r.dns, Some(DnsCheck::Missing(_))));
    assert_eq!(r.proot, Some(ProotCheck::NotFound));
    assert_eq!(r.issues, 6);
}

#[test]
fn doctor_on_macos_checks_herd_and_composer() {
    let mut f = facts();
    f.platform = Platform::MacOs;
    f.path_env = "/Users/u/Library/Application Support/Herd/bin:/h/.local/state/phm/shims/bin".to_string();
    f.default = DefaultRead::Unset;
    f.multishell_exists = false;
    f.termux = true;
    let r = doctor_run(f);
    assert!(r.herd_conflict);
    assert!(r.composer_issue);
    assert!(matches!(r.default, DefaultCheck::Unset));
    assert_eq!(r.shell, ShellCheck::DirectoryMissing);
    assert!(r.dns.is_none() && r.proot.is_none());
    assert_eq!(r.issues, 4);
}

#[test]
fn doctor_reports_an_unreadable_default_and_missing_shims() {
    let mut f = facts();
    f.default = DefaultRead::Unreadable("permission denied".to_string());
    f.shim_bin = None;
    f.termux = true;
    f.resolv = Some(("/p/etc/resolv.conf".to_string(), true, true));
    f.proot_wrap = true;
    f.proot_found = true;
    let r = doctor_run(f);
    assert!(matches!(r.default, DefaultCheck::Unreadable(_)));
    assert!(matches!(r.shims, ShimCheck::NotConfigured));
    assert!(matches!(r.dns, Some(DnsCheck::Configured(_))));
    assert_eq!(r.proot, Some(ProotCheck::Wrapping));
    assert_eq!(r.issues, 1);
}

#[test]
fn remote_listing_marks_installed_minors() {
    let minors = vec!["8.1".to_string(), "8.2".to_string(), "8.4".to_string()];
    let lines = list_remote_run(&minors, &installs());
    let marks: Vec<(String, bool)> = lines.into_iter().map(|e| (e.minor, e.installed)).collect();
    assert_eq!(
        marks,
        vec![("8.1".to_string(), false), ("8.2".to_string(), true), ("8.4".to_string(), true)]
    );
}

#[test]
fn list_tags_current_and_default() {
    let entries = list_run(&installs(), Some("8.4"), Some("8.2"));
    let rows: Vec<(String, bool, bool)> =
        entries.iter().map(|e| (e.version.clone(), e.current, e.default)).collect();
    assert_eq!(
        rows,
        vec![
            ("7.4".to_string(), false, false),
            ("8.2".to_string(), true, false),
            ("8.4".to_string(), false, true)
        ]
    );
    assert_eq!(tags(&entries[0]), "");
    assert_eq!(tags(&entries[1]), " (current)");
    assert_eq!(tags(&entries[2]), " (default)");
    let both = list_run(&installs(), Some("8.2"), Some("8.2"));
    assert_eq!(tags(&both[1]), " (current, default)");
}

#[test]
fn install_plans() {
    assert!(matches!(install_run("8.2", &installs(), Platform::Linux), Ok(InstallPlan::AlreadyInstalled(x)) if x == v(8, 2)));
    assert!(matches!(install_run("7.3", &installs(), Platform::Linux), Ok(InstallPlan::SystemPackagesOnly(x)) if x == v(7, 3)));
    assert!(matches!(install_run("8.3", &installs(), Platform::Linux), Ok(InstallPlan::Download(x)) if x == v(8, 3)));
    match install_run("7.3", &installs(), Platform::MacOs) {
        Ok(InstallPlan::Brew { version, formula, needs_tap }) => {
            assert_eq!(version, v(7, 3));
            assert_eq!(formula, "shivammathur/php/php@7.3");
            assert!(needs_tap);
        }
        other => panic!("unexpected plan: {:?}", other),
    }
    assert_eq!(
        install_run("eight", &installs(), Platform::Linux).err(),
        Some(PhmError::InvalidVersion("eight".to_string()))
    );
    assert_eq!(brew_formula(v(8, 3)), ("php@8.3".to_string(), false));
}

#[test]
fn install_picks_the_latest_release() {
    let versions = vec!["8.3.19".to_string(), "8.3.20".to_string()];
    assert_eq!(latest_release(&versions, v(8, 3)), Ok("8.3.20".to_string()));
    assert_eq!(latest_release(&Vec::new(), v(8, 3)), Err(PhmError::NotInReleases(v(8, 3))));
    assert_eq!(
        PhmError::NotInReleases(v(8, 3)).message(),
        "PHP 8.3 not found in static-php-cli releases"
    );
    assert_eq!(version_dir("/d/phm/php-versions", v(8, 3)), "/d/phm/php-versions/8.3");
}

#[test]
fn install_is_confirmed_by_discovery() {
    assert_eq!(confirm_download(&installs(), v(8, 2), "/d/8.2"), Ok(()));
    assert_eq!(
        confirm_download(&installs(), v(8, 3), "/d/8.3"),
        Err(PhmError::NotDiscoveredAfterInstall(v(8, 3), "/d/8.3".to_string()))
    );
    assert_eq!(
        confirm_brew_install(&installs(), v(8, 3), "php@8.3"),
        Err(PhmError::NotDiscoveredAfterBrew(v(8, 3), "php@8.3".to_string()))
    );
    assert_eq!(
        confirm_brew_uninstall(&installs(), v(8, 2), "php@8.2"),
        Err(PhmError::StillDiscoverable(v(8, 2), "php@8.2".to_string()))
    );
    assert_eq!(confirm_brew_uninstall(&installs(), v(8, 3), "php@8.3"), Ok(()));
}

#[test]
fn uninstall_plans() {
    assert!(matches!(uninstall_run("8.3", &installs()), Ok(UninstallCheck::NotInstalled(x)) if x == v(8, 3)));
    assert!(matches!(uninstall_run("8.2", &installs()), Ok(UninstallCheck::Installed(x)) if x == v(8, 2)));
    assert!(matches!(plan_removal(v(8, 2), Some("8.2"), Platform::Linux), UninstallPlan::IsDefault(_)));
    assert!(matches!(plan_removal(v(8, 2), Some("8.4"), Platform::Linux), UninstallPlan::RemoveManaged(x) if x == v(8, 2)));
    assert!(matches!(plan_removal(v(8, 2), None, Platform::Linux), UninstallPlan::RemoveManaged(_)));
    match plan_removal(v(7, 4), None, Platform::MacOs) {
        UninstallPlan::Brew { version, formula } => {
            assert_eq!(version, v(7, 4));
            assert_eq!(formula, "shivammathur/php/php@7.4");
        }
        other => panic!("unexpected plan: {:?}", other),
    }
    assert_eq!(
        uninstall_run("x", &installs()).err().map(|e| e.message()),
        Some("invalid version: x".to_string())
    );
}

#[test]
fn default_plans() {
    assert!(matches!(default_run(None, &installs()), Ok(DefaultPlan::Show)));
    assert!(matches!(default_run(Some("8.3"), &installs()), Ok(DefaultPlan::NotInstalled(_))));
    match default_run(Some("8.4"), &installs()) {
        Ok(DefaultPlan::Store { version, installation, content }) => {
            assert_eq!(version, v(8, 4));
            assert_eq!(installation, 2);
            assert_eq!(content, "8.4\n");
        }
        other => panic!("unexpected plan: {:?}", other),
    }
    assert_eq!(
        default_run(Some("8"), &installs()).err(),
        Some(PhmError::InvalidVersion("8".to_string()))
    );
}

#[test]
fn new_shells_link_the_default_or_the_highest() {
    assert_eq!(linked_installation(&installs(), Some("8.2")), Some(1));
    assert_eq!(linked_installation(&installs(), Some("8.3")), Some(2));
    assert_eq!(linked_installation(&installs(), Some("junk")), Some(2));
    assert_eq!(linked_installation(&installs(), None), Some(2));
    assert_eq!(linked_installation(&[], Some("8.2")), None);
}

#[test]
fn use_plans() {
    let out = UseOutput::new(false, false, None);
    let c = explicit_constraint("8.2").unwrap();
    assert_eq!(plan_switch(c, &installs(), Some("8.2"), true, out), SwitchPlan::AlreadyUsing { version: v(8, 2), announce: true });
    assert_eq!(plan_switch(c, &installs(), Some("8.4"), true, out), SwitchPlan::Link { index: 1, announce: true });
    let c = VersionConstraint::from_constraint("^9.0").unwrap();
    assert_eq!(plan_switch(c, &installs(), None, false, out), SwitchPlan::Missing { target: v(9, 0) });
    assert_eq!(
        plan_after_install(c, &installs()),
        Err(PhmError::InstalledButUnresolved(v(9, 0)))
    );
    assert_eq!(explicit_constraint("x"), Err(PhmError::InvalidVersion("x".to_string())));
    assert_eq!(default_constraint(None, UseOutput::new(true, false, None)), Ok(None));
    assert_eq!(default_constraint(None, out), Err(PhmError::NoVersionSpecified));
    assert!(answer_accepts_install(" y\n"));
    assert!(!answer_accepts_install("yes"));
}
