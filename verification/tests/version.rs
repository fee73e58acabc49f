use phm::version::{PhpVersion, VersionConstraint};

#[test]
fn test_parse() {
    assert_eq!(PhpVersion::parse("8.2"), Some(PhpVersion::new(8, 2)));
    assert_eq!(PhpVersion::parse("7.4"), Some(PhpVersion::new(7, 4)));
    assert_eq!(PhpVersion::parse("8.2.30"), Some(PhpVersion::new(8, 2)));
}

#[test]
fn test_constraints() {
    // >=8.2 → open-ended
    assert_eq!(
        VersionConstraint::from_constraint(">=8.2"),
        Some(VersionConstraint {
            min: PhpVersion::new(8, 2),
            max: None
        })
    );
    // ^8.2 → 8.2–8.x (max 9.0)
    assert_eq!(
        VersionConstraint::from_constraint("^8.2"),
        Some(VersionConstraint {
            min: PhpVersion::new(8, 2),
            max: Some(PhpVersion::new(9, 0))
        })
    );
    // ~8.2 → 8.2–8.x (max 9.0)
    assert_eq!(
        VersionConstraint::from_constraint("~8.2"),
        Some(VersionConstraint {
            min: PhpVersion::new(8, 2),
            max: Some(PhpVersion::new(9, 0))
        })
    );
    // 8.2.* → exact 8.2
    assert_eq!(
        VersionConstraint::from_constraint("8.2.*"),
        Some(VersionConstraint::exact(PhpVersion::new(8, 2)))
    );
    // ~8.2.0 → exact 8.2
    assert_eq!(
        VersionConstraint::from_constraint("~8.2.0"),
        Some(VersionConstraint::exact(PhpVersion::new(8, 2)))
    );
}

#[test]
fn test_or_constraints() {
    // Should pick highest group
    assert_eq!(
        VersionConstraint::from_constraint("^7.4 || ^8.0").map(|c| c.min),
        Some(PhpVersion::new(8, 0))
    );
    assert_eq!(
        VersionConstraint::from_constraint("^7.4|^8.0").map(|c| c.min),
        Some(PhpVersion::new(8, 0))
    );
}

#[test]
fn test_resolve() {
    let installed = vec![
        PhpVersion::new(7, 4),
        PhpVersion::new(8, 1),
        PhpVersion::new(8, 2),
        PhpVersion::new(8, 4),
        PhpVersion::new(8, 5),
    ];

    // >=8.2 → 8.2 (lowest matching, open-ended)
    assert_eq!(
        VersionConstraint::from_constraint(">=8.2")
            .unwrap()
            .resolve(&installed),
        Some(PhpVersion::new(8, 2))
    );

    // ^8.1 → 8.1
    assert_eq!(
        VersionConstraint::from_constraint("^8.1")
            .unwrap()
            .resolve(&installed),
        Some(PhpVersion::new(8, 1))
    );

    // >=9.0 → None
    assert_eq!(
        VersionConstraint::from_constraint(">=9.0")
            .unwrap()
            .resolve(&installed),
        None
    );

    // 8.4.* → exactly 8.4
    assert_eq!(
        VersionConstraint::from_constraint("8.4.*")
            .unwrap()
            .resolve(&installed),
        Some(PhpVersion::new(8, 4))
    );
}

#[test]
fn test_wildcard_no_fallback() {
    // Bug: 8.4.* was resolving to 8.5 when 8.4 not installed
    let installed = vec![PhpVersion::new(8, 3), PhpVersion::new(8, 5)];
    assert_eq!(
        VersionConstraint::from_constraint("8.4.*")
            .unwrap()
            .resolve(&installed),
        None
    );
}

#[test]
fn test_satisfies() {
    let exact = VersionConstraint::exact(PhpVersion::new(8, 4));
    assert!(exact.satisfies(PhpVersion::new(8, 4)));
    assert!(!exact.satisfies(PhpVersion::new(8, 5)));
    assert!(!exact.satisfies(PhpVersion::new(8, 3)));

    let caret = VersionConstraint::from_constraint("^8.2").unwrap();
    assert!(caret.satisfies(PhpVersion::new(8, 2)));
    assert!(caret.satisfies(PhpVersion::new(8, 5)));
    assert!(!caret.satisfies(PhpVersion::new(9, 0)));
    assert!(!caret.satisfies(PhpVersion::new(8, 1)));

    let open = VersionConstraint::from_constraint(">=8.2").unwrap();
    assert!(open.satisfies(PhpVersion::new(8, 2)));
    assert!(open.satisfies(PhpVersion::new(9, 0)));
    assert!(!open.satisfies(PhpVersion::new(8, 1)));
}
