use phm::version::{ConstraintOverflow, PhpVersion, VersionConstraint};

fn v(major: u8, minor: u8) -> PhpVersion {
    PhpVersion::new(major, minor)
}

fn installed() -> Vec<PhpVersion> {
    vec![v(7, 4), v(8, 0), v(8, 2), v(8, 4)]
}

fn resolved(constraint: &str) -> Option<PhpVersion> {
    VersionConstraint::from_constraint(constraint)
        .unwrap()
        .resolve(&installed())
}

#[test]
fn readme_constraint_table_resolves_as_documented() {
    assert_eq!(resolved(">=8.2"), Some(v(8, 2)));
    assert_eq!(resolved("^8.2"), Some(v(8, 2)));
    assert_eq!(resolved("~8.2"), Some(v(8, 2)));
    assert_eq!(resolved("^7.4 || ^8.0"), Some(v(8, 0)));
    assert_eq!(resolved("8.2.*"), Some(v(8, 2)));
}

#[test]
fn exclusive_lower_bound_starts_at_the_next_minor() {
    assert_eq!(
        VersionConstraint::from_constraint(">8.2"),
        Some(VersionConstraint { min: v(8, 3), max: None })
    );
}

#[test]
fn and_constraints_combine_both_bounds() {
    assert_eq!(
        VersionConstraint::from_constraint(">=8.1 <8.3"),
        Some(VersionConstraint { min: v(8, 1), max: Some(v(8, 3)) })
    );
    assert_eq!(
        VersionConstraint::from_constraint(">=8.1 <=8.3"),
        Some(VersionConstraint { min: v(8, 1), max: Some(v(8, 4)) })
    );
    assert_eq!(resolved(">=8.1 <8.3"), Some(v(8, 2)));
}

#[test]
fn caret_on_major_zero_keeps_the_minor() {
    assert_eq!(
        VersionConstraint::from_constraint("^0.3"),
        Some(VersionConstraint { min: v(0, 3), max: Some(v(0, 4)) })
    );
}

#[test]
fn plain_version_is_exact() {
    assert_eq!(
        VersionConstraint::from_constraint("8.3"),
        Some(VersionConstraint::exact(v(8, 3)))
    );
    assert_eq!(VersionConstraint::exact(v(8, 3)).max, Some(v(8, 4)));
}

#[test]
fn exact_at_the_last_minor_still_admits_its_version() {
    let c = VersionConstraint::exact(v(8, 255));
    assert_eq!(c.max, Some(v(9, 0)));
    assert!(c.satisfies(v(8, 255)));
    assert!(!c.satisfies(v(9, 0)));
    assert!(!c.satisfies(v(8, 254)));
    let top = VersionConstraint::exact(v(255, 255));
    assert_eq!(top.max, None);
    assert!(top.satisfies(v(255, 255)));
    assert!(!top.satisfies(v(255, 254)));
}

#[test]
fn unreadable_constraints_give_nothing() {
    assert_eq!(VersionConstraint::from_constraint(""), None);
    assert_eq!(VersionConstraint::from_constraint("latest"), None);
    assert_eq!(VersionConstraint::from_constraint("^x.y"), None);
}

#[test]
fn overflowing_bounds_are_reported() {
    assert_eq!(VersionConstraint::try_from_constraint(">8.255"), Err(ConstraintOverflow));
    assert_eq!(VersionConstraint::try_from_constraint("^255.1"), Err(ConstraintOverflow));
    assert_eq!(
        VersionConstraint::try_from_constraint(">=8.2"),
        Ok(Some(VersionConstraint { min: v(8, 2), max: None }))
    );
}

#[test]
fn nothing_resolves_when_no_version_fits() {
    assert_eq!(resolved(">=9.0"), None);
    assert_eq!(resolved("8.3.*"), None);
}

#[test]
fn exact_constraint_admits_only_its_version() {
    let c = VersionConstraint::exact(v(8, 2));
    assert!(c.satisfies(v(8, 2)));
    assert!(!c.satisfies(v(8, 1)));
    assert!(!c.satisfies(v(8, 3)));
    assert_eq!(c.resolve(&installed()), Some(v(8, 2)));
    assert_eq!(c.target(), v(8, 2));
}

#[test]
fn version_text_round_trips() {
    for (major, minor) in [(7u8, 4u8), (8, 0), (10, 255), (0, 0)] {
        let t = v(major, minor).to_string();
        assert_eq!(PhpVersion::parse(&t), Some(v(major, minor)));
    }
    assert_eq!(v(10, 12).to_string(), "10.12");
    assert_eq!(PhpVersion::parse("  8.3\n"), Some(v(8, 3)));
    assert_eq!(PhpVersion::parse("8"), None);
    assert_eq!(PhpVersion::parse("8.256"), None);
}

#[test]
fn single_constraints_admit_their_minimum() {
    for s in ["8.2.*", "~8.2", "~8.2.1", "^8.2", "^0.3", ">=8.2", ">8.2", "8.2", "8.255"] {
        let c = VersionConstraint::from_single_constraint(s).unwrap();
        assert!(c.satisfies(c.target()), "{}", s);
    }
    assert_eq!(VersionConstraint::from_single_constraint("latest"), None);
}
