//! Errors that the library reports, with the messages shown to the user.

use vstd::prelude::*;
use vstd::string::StringExecFns;
use crate::version::PhpVersion;

verus! {

/// An error of the library.
#[derive(Debug, Clone, PartialEq, Eq)]
pub enum PhmError {
    /// A version argument that does not read as `major.minor`.
    InvalidVersion(String),
    /// A stored default version that does not read as `major.minor`.
    InvalidDefaultVersion(String),
    /// No version was given, found in the project, or set as the default.
    NoVersionSpecified,
    /// An installation finished but the version still cannot be resolved.
    InstalledButUnresolved(PhpVersion),
    /// The home directory could not be determined.
    NoHomeDirectory,
    /// The XDG data directory could not be determined.
    NoDataDirectory,
    /// A shim found no version for the directory it ran in.
    NoVersionDetected(String),
    /// No installed version satisfies the constraint whose minimum is given.
    NoSatisfyingVersion(PhpVersion),
    /// The binary a shim stands for is missing from the installation: its
    /// name, the version and the installation's binary directory.
    BinaryNotFound(String, PhpVersion, String),
    /// The version listing of the download site is not JSON.
    ListingNotJson,
    /// The download site offers no build of the version.
    NotInReleases(PhpVersion),
    /// A download finished but the version is not found in its directory.
    NotDiscoveredAfterInstall(PhpVersion, String),
    /// Homebrew installed the formula but the version is not found.
    NotDiscoveredAfterBrew(PhpVersion, String),
    /// Homebrew removed the formula but the version is still found.
    StillDiscoverable(PhpVersion, String),
    /// A downloaded archive could not be read.
    ArchiveUnreadable,
    /// A downloaded archive, whose name is given, holds no `php` binary.
    NoPhpInArchive(String),
}

impl PhmError {
    /// The message shown to the user.
    pub fn message(&self) -> (r: String)
        ensures
            r@ == self.message_text(),
    {
        match self {
            PhmError::InvalidVersion(v) => {
                let mut r = String::from_str("invalid version: ");
                r.append(v.as_str());
                r
            },
            PhmError::InvalidDefaultVersion(v) => {
                let mut r = String::from_str("invalid default version: ");
                r.append(v.as_str());
                r
            },
            PhmError::NoVersionSpecified => String::from_str(
                "no PHP version specified and no default set. Run: phm default <version>",
            ),
            PhmError::InstalledButUnresolved(v) => {
                let mut r = String::from_str("PHP ");
                let t = v.to_string();
                r.append(t.as_str());
                r.append(" was installed but could not be resolved afterwards. Run: phm doctor");
                r
            },
            PhmError::NoHomeDirectory => String::from_str("could not determine home directory"),
            PhmError::NoDataDirectory => String::from_str("could not determine XDG data dir"),
            PhmError::NoVersionDetected(cwd) => {
                let mut r = String::from_str("no PHP version detected for ");
                r.append(cwd.as_str());
                r.append(".\nAdd .php-version, composer.json require.php, or run: phm default <version>");
                r
            },
            PhmError::NoSatisfyingVersion(v) => {
                let mut r = String::from_str("no installed PHP satisfies constraint for ");
                let t = v.to_string();
                r.append(t.as_str());
                r
            },
            PhmError::BinaryNotFound(name, v, dir) => {
                let mut r = String::from_str("'");
                r.append(name.as_str());
                r.append("' not found in PHP ");
                let t = v.to_string();
                r.append(t.as_str());
                r.append(" (");
                r.append(dir.as_str());
                r.append(")");
                r
            },
            PhmError::ListingNotJson => String::from_str("failed to parse version list JSON"),
            PhmError::NotInReleases(v) => {
                let mut r = String::from_str("PHP ");
                let t = v.to_string();
                r.append(t.as_str());
                r.append(" not found in static-php-cli releases");
                r
            },
            PhmError::NotDiscoveredAfterInstall(v, dir) => {
                let mut r = String::from_str("installation completed but PHP ");
                let t = v.to_string();
                r.append(t.as_str());
                r.append(" was not discovered. Check ");
                r.append(dir.as_str());
                r
            },
            PhmError::NotDiscoveredAfterBrew(v, formula) => {
                let mut r = String::from_str("brew install completed but PHP ");
                let t = v.to_string();
                r.append(t.as_str());
                r.append(" was not discovered afterwards. Check `brew --prefix ");
                r.append(formula.as_str());
                r.append("` and `phm doctor`");
                r
            },
            PhmError::StillDiscoverable(v, formula) => {
                let mut r = String::from_str("brew uninstall completed but PHP ");
                let t = v.to_string();
                r.append(t.as_str());
                r.append(" is still discoverable. Check `brew list --versions ");
                r.append(formula.as_str());
                r.append("`");
                r
            },
            PhmError::ArchiveUnreadable => String::from_str("failed to read archive"),
            PhmError::NoPhpInArchive(name) => {
                let mut r = String::from_str("no 'php' binary found in downloaded archive ");
                r.append(name.as_str());
                r
            },
        }
    }

    pub open spec fn message_text(&self) -> Seq<char> {
        match self {
            PhmError::InvalidVersion(v) => "invalid version: "@ + v@,
            PhmError::InvalidDefaultVersion(v) => "invalid default version: "@ + v@,
            PhmError::NoVersionSpecified =>
                "no PHP version specified and no default set. Run: phm default <version>"@,
            PhmError::InstalledButUnresolved(v) => "PHP "@ + v.text()
                + " was installed but could not be resolved afterwards. Run: phm doctor"@,
            PhmError::NoHomeDirectory => "could not determine home directory"@,
            PhmError::NoDataDirectory => "could not determine XDG data dir"@,
            PhmError::NoVersionDetected(cwd) => "no PHP version detected for "@ + cwd@
                + ".\nAdd .php-version, composer.json require.php, or run: phm default <version>"@,
            PhmError::NoSatisfyingVersion(v) => "no installed PHP satisfies constraint for "@
                + v.text(),
            PhmError::BinaryNotFound(name, v, dir) => "'"@ + name@ + "' not found in PHP "@
                + v.text() + " ("@ + dir@ + ")"@,
            PhmError::ListingNotJson => "failed to parse version list JSON"@,
            PhmError::NotInReleases(v) => "PHP "@ + v.text() + " not found in static-php-cli releases"@,
            PhmError::NotDiscoveredAfterInstall(v, dir) => "installation completed but PHP "@ + v.text()
                + " was not discovered. Check "@ + dir@,
            PhmError::NotDiscoveredAfterBrew(v, formula) => "brew install completed but PHP "@
                + v.text() + " was not discovered afterwards. Check `brew --prefix "@ + formula@
                + "` and `phm doctor`"@,
            PhmError::StillDiscoverable(v, formula) => "brew uninstall completed but PHP "@ + v.text()
                + " is still discoverable. Check `brew list --versions "@ + formula@ + "`"@,
            PhmError::ArchiveUnreadable => "failed to read archive"@,
            PhmError::NoPhpInArchive(name) => "no 'php' binary found in downloaded archive "@ + name@,
        }
    }
}

} // verus!
