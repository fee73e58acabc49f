use phm::commands::use_version::{current_matches_target, UseOutput};
use phm::version::{PhpVersion, VersionConstraint};

#[test]
fn current_only_matches_when_it_equals_the_resolved_target() {
    let target = PhpVersion::new(8, 2);

    assert!(current_matches_target(Some("8.2"), target));
    assert!(!current_matches_target(Some("8.5"), target));
    assert!(!current_matches_target(None, target));
}

#[test]
fn open_ended_constraints_still_resolve_to_the_lowest_matching_version() {
    let installed = vec![
        PhpVersion::new(8, 2),
        PhpVersion::new(8, 4),
        PhpVersion::new(8, 5),
    ];

    let resolved = VersionConstraint::from_constraint(">=8.2")
        .unwrap()
        .resolve(&installed)
        .unwrap();

    assert_eq!(resolved, PhpVersion::new(8, 2));
    assert!(!current_matches_target(Some("8.5"), resolved));
}

#[test]
fn use_output_suppresses_success_when_silent_flag_is_set() {
    let output = UseOutput::new(false, true, None);

    assert!(!output.should_print_unchanged(true));
}

#[test]
fn use_output_reads_silent_preference_from_shell_env() {
    let output = UseOutput::new(false, false, Some("1"));

    assert!(!output.should_print_unchanged(true));
}

#[test]
fn use_output_keeps_unchanged_message_when_not_silent() {
    let output = UseOutput::new(false, false, None);

    assert!(output.should_print_unchanged(true));
    assert!(!output.skip_when_no_version_target());
}

#[test]
fn silent_if_unchanged_only_controls_missing_target_fast_path() {
    let output = UseOutput::new(true, false, None);

    assert!(output.skip_when_no_version_target());
    assert!(output.should_print_unchanged(true));
}
