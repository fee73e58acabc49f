use phm::error::PhmError;
use phm::version::PhpVersion;

#[test]
fn error_messages() {
    let v = PhpVersion::new(8, 3);
    let cases = vec![
        (PhmError::InvalidVersion("x".to_string()), "invalid version: x".to_string()),
        (PhmError::InvalidDefaultVersion("y".to_string()), "invalid default version: y".to_string()),
        (
            PhmError::NoVersionSpecified,
            "no PHP version specified and no default set. Run: phm default <version>".to_string(),
        ),
        (
            PhmError::InstalledButUnresolved(v),
            "PHP 8.3 was installed but could not be resolved afterwards. Run: phm doctor".to_string(),
        ),
        (PhmError::NoHomeDirectory, "could not determine home directory".to_string()),
        (PhmError::NoDataDirectory, "could not determine XDG data dir".to_string()),
        (
            PhmError::NoVersionDetected("/w".to_string()),
            "no PHP version detected for /w.\nAdd .php-version, composer.json require.php, or run: phm default <version>".to_string(),
        ),
        (PhmError::NoSatisfyingVersion(v), "no installed PHP satisfies constraint for 8.3".to_string()),
        (
            PhmError::BinaryNotFound("phpize".to_string(), v, "/b".to_string()),
            "'phpize' not found in PHP 8.3 (/b)".to_string(),
        ),
        (PhmError::ListingNotJson, "failed to parse version list JSON".to_string()),
        (PhmError::NotInReleases(v), "PHP 8.3 not found in static-php-cli releases".to_string()),
        (
            PhmError::NotDiscoveredAfterInstall(v, "/d/8.3".to_string()),
            "installation completed but PHP 8.3 was not discovered. Check /d/8.3".to_string(),
        ),
        (
            PhmError::NotDiscoveredAfterBrew(v, "php@8.3".to_string()),
            "brew install completed but PHP 8.3 was not discovered afterwards. Check `brew --prefix php@8.3` and `phm doctor`".to_string(),
        ),
        (
            PhmError::StillDiscoverable(v, "php@8.3".to_string()),
            "brew uninstall completed but PHP 8.3 is still discoverable. Check `brew list --versions php@8.3`".to_string(),
        ),
        (PhmError::ArchiveUnreadable, "failed to read archive".to_string()),
        (
            PhmError::NoPhpInArchive("a.tar.gz".to_string()),
            "no 'php' binary found in downloaded archive a.tar.gz".to_string(),
        ),
    ];
    for (e, m) in cases {
        assert_eq!(e.message(), m);
    }
}
