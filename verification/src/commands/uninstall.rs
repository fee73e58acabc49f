//! `phm uninstall`: whether a version may be removed, and how.

use vstd::prelude::*;
use vstd::string::StringExecFns;
use crate::commands::install::{brew_formula, formula_text};
use crate::discover::{PhpInstallation, find_installation};
use crate::error::PhmError;
use crate::platform::Platform;
use crate::text::{chars_of, eq_exec};
use crate::version::{PhpVersion, version_of};

verus! {

/// Whether the version given to `phm uninstall` is installed.
#[derive(Debug)]
pub enum UninstallCheck {
    /// The version is not installed: nothing to do.
    NotInstalled(PhpVersion),
    /// The version is installed; the stored default decides next.
    Installed(PhpVersion),
}

/// How an installed version is removed.
#[derive(Debug)]
pub enum UninstallPlan {
    /// The version is the default one and stays.
    IsDefault(PhpVersion),
    /// On Linux, remove the version's directory among the managed ones
    /// (a version without one was installed by the system).
    RemoveManaged(PhpVersion),
    /// On macOS, uninstall the Homebrew formula.
    Brew { version: PhpVersion, formula: String },
}

/// The first step of `phm uninstall`: `version` must read as `major.minor`
/// (else `InvalidVersion`) and be installed.
pub fn run(version: &str, installations: &[PhpInstallation]) -> (r: Result<UninstallCheck, PhmError>)
    ensures
        match version_of(version@) {
            None => r matches Err(PhmError::InvalidVersion(s)) && s@ == version@,
            Some(v) => if exists|k: int| 0 <= k < installations@.len() && installations@[k].version == v {
                r matches Ok(UninstallCheck::Installed(w)) && w == v
            } else {
                r matches Ok(UninstallCheck::NotInstalled(w)) && w == v
            },
        },
{
    let v = match PhpVersion::parse(version) {
        Some(v) => v,
        None => {
            return Err(PhmError::InvalidVersion(String::from_str(version)));
        },
    };
    if find_installation(installations, v).is_none() {
        Ok(UninstallCheck::NotInstalled(v))
    } else {
        Ok(UninstallCheck::Installed(v))
    }
}

/// How an installed version `v` is removed, once the stored default
/// (`default`, trimmed) is known: the default version stays; otherwise Linux
/// removes its managed directory and macOS uninstalls its formula.
pub fn plan_removal(v: PhpVersion, default: Option<&str>, platform: Platform) -> (r: UninstallPlan)
    ensures
        if default matches Some(d) && d@ == v.text() {
            r == UninstallPlan::IsDefault(v)
        } else {
            match platform {
                Platform::Linux => r == UninstallPlan::RemoveManaged(v),
                Platform::MacOs => r matches UninstallPlan::Brew { version, formula } && version == v
                    && formula@ == formula_text(v),
            }
        },
{
    match default {
        Some(d) => {
            let dc = chars_of(d);
            let t = v.to_string();
            let tc = chars_of(t.as_str());
            if eq_exec(dc.as_slice(), tc.as_slice()) {
                return UninstallPlan::IsDefault(v);
            }
        },
        None => {},
    }
    match platform {
        Platform::Linux => UninstallPlan::RemoveManaged(v),
        Platform::MacOs => {
            let (formula, _) = brew_formula(v);
            UninstallPlan::Brew { version: v, formula }
        },
    }
}

/// After `brew uninstall`: the version must be gone, else
/// `StillDiscoverable` with the formula.
pub fn confirm_brew_uninstall(installations: &[PhpInstallation], v: PhpVersion, formula: &str) -> (r: Result<(), PhmError>)
    ensures
        !(exists|k: int| 0 <= k < installations@.len() && installations@[k].version == v) ==> r is Ok,
        (exists|k: int| 0 <= k < installations@.len() && installations@[k].version == v) ==> (
        r matches Err(PhmError::StillDiscoverable(w, f)) && w == v && f@ == formula@),
{
    match find_installation(installations, v) {
        Some(_) => Err(PhmError::StillDiscoverable(v, String::from_str(formula))),
        None => Ok(()),
    }
}

} // verus!
