use phm::error::PhmError;
use phm::paths::under_home_exec;
use phm::config::{default_file_content, default_from_content};
use phm::discover::PhpInstallation;
use phm::multishell::{
    current_file_content, current_from_content, is_php_binary, link_plan, multishell_id,
    php_binaries, pid_from_dir_name, proot_wrapper_script,
};
use phm::commands::use_version::{plan_switch, SwitchPlan, UseOutput};
use phm::version::{PhpVersion, VersionConstraint};

fn installation() -> PhpInstallation {
    PhpInstallation { version: PhpVersion::new(8, 3), bin_dir: "/opt/php/8.3/bin".to_string() }
}

#[test]
fn default_file_reads_back_what_was_written() {
    let written = default_file_content("8.3");
    assert_eq!(written, "8.3\n");
    assert_eq!(default_from_content(&written), Some("8.3".to_string()));
    let version_text = PhpVersion::new(10, 0).to_string();
    assert_eq!(default_from_content(&default_file_content(&version_text)), Some("10.0".to_string()));
}

#[test]
fn empty_default_file_means_no_default() {
    assert_eq!(default_from_content(""), None);
    assert_eq!(default_from_content("  \n\t"), None);
    assert_eq!(default_from_content("  8.2  \n"), Some("8.2".to_string()));
}

#[test]
fn shell_directories_are_named_after_the_process() {
    let id = multishell_id(4242, 1700000000123);
    assert_eq!(id, "4242_1700000000123");
    assert_eq!(pid_from_dir_name(&id), Some(4242));
    assert_eq!(pid_from_dir_name("notes"), None);
    assert_eq!(pid_from_dir_name("17"), Some(17));
}

#[test]
fn current_file_round_trip() {
    let content = current_file_content(PhpVersion::new(8, 3));
    assert_eq!(content, "8.3\n");
    assert_eq!(current_from_content(&content), Some("8.3".to_string()));
    assert_eq!(current_from_content("\n"), None);
}

#[test]
fn php_binaries_are_known() {
    let names = php_binaries();
    assert_eq!(names.len(), 9);
    assert_eq!(names[0], "php");
    assert!(is_php_binary("phpize"));
    assert!(is_php_binary("phar.phar"));
    assert!(!is_php_binary("phm"));
    assert!(!is_php_binary("composer"));
}

#[test]
fn link_plan_links_every_binary_and_records_the_version() {
    let plan = link_plan("/state/ms/1_2", &installation(), None);
    assert_eq!(plan.dir, "/state/ms/1_2");
    assert_eq!(plan.bin_dir, "/state/ms/1_2/bin");
    assert_eq!(plan.current_file, "/state/ms/1_2/current");
    assert_eq!(plan.current_content, "8.3\n");
    assert_eq!(plan.entries.len(), 9);
    assert_eq!(plan.entries[0].source, "/opt/php/8.3/bin/php");
    assert_eq!(plan.entries[0].target, "/state/ms/1_2/bin/php");
    assert_eq!(plan.entries[3].source, "/opt/php/8.3/bin/phpize");
    assert!(plan.entries.iter().all(|e| e.wrapper.is_none()));
}

#[test]
fn link_plan_under_proot_writes_wrappers() {
    let plan = link_plan("/ms", &installation(), Some(("/usr/bin/proot", "/p/etc/resolv.conf")));
    assert_eq!(
        plan.entries[0].wrapper.as_deref(),
        Some("#!/bin/sh\nexec '/usr/bin/proot' -b '/p/etc/resolv.conf:/etc/resolv.conf' '/opt/php/8.3/bin/php' \"$@\"\n")
    );
    assert_eq!(
        proot_wrapper_script("a", "b", "c"),
        "#!/bin/sh\nexec 'a' -b 'b:/etc/resolv.conf' 'c' \"$@\"\n"
    );
}

#[test]
fn a_linked_shell_reads_back_its_version() {
    let plan = link_plan("/ms", &installation(), None);
    let current = current_from_content(&plan.current_content);
    let c = VersionConstraint::exact(PhpVersion::new(8, 3));
    let quiet = UseOutput::new(false, false, None);
    assert_eq!(
        plan_switch(c, &[installation()], current.as_deref(), false, quiet),
        SwitchPlan::AlreadyUsing { version: PhpVersion::new(8, 3), announce: false }
    );
    assert_eq!(
        plan_switch(c, &[installation()], current.as_deref(), true, quiet),
        SwitchPlan::AlreadyUsing { version: PhpVersion::new(8, 3), announce: true }
    );
}

#[test]
fn distinct_shells_get_distinct_directories() {
    assert_ne!(multishell_id(12, 345), multishell_id(123, 45));
    assert_ne!(multishell_id(1, 2), multishell_id(1, 3));
    assert_eq!(multishell_id(0, 0), "0_0");
}

#[test]
fn default_file_reads_back_any_text_trimmed() {
    assert_eq!(default_from_content(&default_file_content("  8.3 ")), Some("8.3".to_string()));
    assert_eq!(default_from_content(&default_file_content(" \t")), None);
    assert_eq!(default_from_content(&default_file_content("")), None);
}

#[test]
fn paths_below_the_home_directory() {
    assert_eq!(under_home_exec(Some("/home/u"), ".phm"), Ok("/home/u/.phm".to_string()));
    assert_eq!(under_home_exec(Some("/home/u/"), ".phm"), Ok("/home/u/.phm".to_string()));
    assert_eq!(under_home_exec(Some("/home/u"), "/etc/phm"), Ok("/etc/phm".to_string()));
    assert_eq!(under_home_exec(None, ".phm"), Err(PhmError::NoHomeDirectory));
}
