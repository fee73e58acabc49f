//! `phm install`: what installing a version takes, and how the result is
//! confirmed.

use vstd::prelude::*;
use vstd::string::StringExecFns;
use crate::discover::{PhpInstallation, find_installation};
use crate::error::PhmError;
use crate::paths::{join, path_join};
use crate::platform::Platform;
use crate::version::{PhpVersion, version_of};

verus! {

/// What `phm install` does for a version.
#[derive(Debug)]
pub enum InstallPlan {
    /// The version is installed already.
    AlreadyInstalled(PhpVersion),
    /// On Linux, PHP 7 and older come only from the system's packages.
    SystemPackagesOnly(PhpVersion),
    /// On Linux, download the latest static build of the minor version.
    Download(PhpVersion),
    /// On macOS, install the Homebrew formula, tapping `shivammathur/php`
    /// first when `needs_tap`.
    Brew { version: PhpVersion, formula: String, needs_tap: bool },
}

/// The Homebrew formula of a version: PHP 7 and older come from the
/// `shivammathur/php` tap.
pub open spec fn formula_text(v: PhpVersion) -> Seq<char> {
    if v.major <= 7 {
        "shivammathur/php/php@"@ + v.text()
    } else {
        "php@"@ + v.text()
    }
}

/// The Homebrew formula of a version, and whether its tap is needed.
pub fn brew_formula(v: PhpVersion) -> (r: (String, bool))
    ensures
        r.0@ == formula_text(v),
        r.1 == (v.major <= 7),
{
    let t = v.to_string();
    if v.major <= 7 {
        let mut f = String::from_str("shivammathur/php/php@");
        f.append(t.as_str());
        (f, true)
    } else {
        let mut f = String::from_str("php@");
        f.append(t.as_str());
        (f, false)
    }
}

/// The plan on Linux for a version that is not installed.
pub open spec fn linux_step(v: PhpVersion) -> InstallPlan {
    if v.major < 8 {
        InstallPlan::SystemPackagesOnly(v)
    } else {
        InstallPlan::Download(v)
    }
}

/// Decides what installing `version` takes: it must read as `major.minor`
/// (else `InvalidVersion`); an installed version is left alone; otherwise
/// Linux downloads a static build of PHP 8 or later, and macOS installs the
/// Homebrew formula.
pub fn run(version: &str, installations: &[PhpInstallation], platform: Platform) -> (r: Result<
    InstallPlan,
    PhmError,
>)
    ensures
        version_of(version@) is None ==> (r matches Err(PhmError::InvalidVersion(s)) && s@
            == version@),
        version_of(version@) matches Some(v) ==> r matches Ok(plan) && {
            if exists|k: int| 0 <= k < installations@.len() && installations@[k].version == v {
                plan == InstallPlan::AlreadyInstalled(v)
            } else {
                match platform {
                    Platform::Linux => plan == linux_step(v),
                    Platform::MacOs => plan matches InstallPlan::Brew { version, formula, needs_tap }
                        && version == v && formula@ == formula_text(v) && needs_tap == (v.major
                        <= 7),
                }
            }
        },
{
    let v = match PhpVersion::parse(version) {
        Some(v) => v,
        None => {
            return Err(PhmError::InvalidVersion(String::from_str(version)));
        },
    };
    match find_installation(installations, v) {
        Some(_) => {
            return Ok(InstallPlan::AlreadyInstalled(v));
        },
        None => {},
    }
    match platform {
        Platform::Linux => if v.major < 8 {
            Ok(InstallPlan::SystemPackagesOnly(v))
        } else {
            Ok(InstallPlan::Download(v))
        },
        Platform::MacOs => {
            let (formula, needs_tap) = brew_formula(v);
            Ok(InstallPlan::Brew { version: v, formula, needs_tap })
        },
    }
}

/// The build to download: the last of the versions the site lists for the
/// minor version (sorted), or `NotInReleases` when there is none.
pub fn latest_release(versions: &Vec<String>, v: PhpVersion) -> (r: Result<String, PhmError>)
    ensures
        versions@.len() == 0 ==> r == Err::<String, PhmError>(PhmError::NotInReleases(v)),
        versions@.len() > 0 ==> r == Ok::<String, PhmError>(versions@.last()),
{
    let n = versions.len();
    if n == 0 {
        Err(PhmError::NotInReleases(v))
    } else {
        Ok(versions[n - 1].clone())
    }
}

/// The directory a managed version is kept in: its `major.minor` below the
/// managed directory.
pub fn version_dir(managed: &str, v: PhpVersion) -> (r: String)
    ensures
        r@ == join(managed@, v.text()),
{
    let t = v.to_string();
    proof {
        crate::version::lemma_text_shape(v);
    }
    path_join(managed, t.as_str())
}

/// After a download: the version must now be found, else
/// `NotDiscoveredAfterInstall` with the directory it went to.
pub fn confirm_download(installations: &[PhpInstallation], v: PhpVersion, dest: &str) -> (r: Result<(), PhmError>)
    ensures
        (exists|k: int| 0 <= k < installations@.len() && installations@[k].version == v) ==> r is Ok,
        !(exists|k: int| 0 <= k < installations@.len() && installations@[k].version == v) ==> (
        r matches Err(PhmError::NotDiscoveredAfterInstall(w, d)) && w == v && d@ == dest@),
{
    match find_installation(installations, v) {
        Some(_) => Ok(()),
        None => Err(PhmError::NotDiscoveredAfterInstall(v, String::from_str(dest))),
    }
}

/// After `brew install`: the version must now be found, else
/// `NotDiscoveredAfterBrew` with the formula.
pub fn confirm_brew_install(installations: &[PhpInstallation], v: PhpVersion, formula: &str) -> (r: Result<(), PhmError>)
    ensures
        (exists|k: int| 0 <= k < installations@.len() && installations@[k].version == v) ==> r is Ok,
        !(exists|k: int| 0 <= k < installations@.len() && installations@[k].version == v) ==> (
        r matches Err(PhmError::NotDiscoveredAfterBrew(w, f)) && w == v && f@ == formula@),
{
    match find_installation(installations, v) {
        Some(_) => Ok(()),
        None => Err(PhmError::NotDiscoveredAfterBrew(v, String::from_str(formula))),
    }
}

} // verus!
