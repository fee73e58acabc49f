//! `phm default`: showing or setting the default version.

use vstd::prelude::*;
use vstd::string::StringExecFns;
use crate::config::{default_file_content, default_file_text};
use crate::discover::{PhpInstallation, find_installation, first_with_version};
use crate::error::PhmError;
use crate::version::{PhpVersion, version_of};

verus! {

/// What `phm default` does.
#[derive(Debug)]
pub enum DefaultPlan {
    /// No version given: show the stored default.
    Show,
    /// The version is not installed: nothing is stored.
    NotInstalled(PhpVersion),
    /// Store the version (the default file gets `content`) and point the
    /// default alias at the installation of that index.
    Store { version: PhpVersion, installation: usize, content: String },
}

/// Decides what `phm default [version]` does: without a version it shows the
/// default; a version must read as `major.minor` (else `InvalidVersion`) and
/// be installed to be stored, and the first installation of it is the one
/// the alias points to.
pub fn run(version: Option<&str>, installations: &[PhpInstallation]) -> (r: Result<DefaultPlan, PhmError>)
    ensures
        match version {
            None => r matches Ok(DefaultPlan::Show),
            Some(s) => match version_of(s@) {
                None => r matches Err(PhmError::InvalidVersion(e)) && e@ == s@,
                Some(v) => r matches Ok(plan) && if first_with_version(installations@, v, 0)
                    < installations@.len() {
                    plan matches DefaultPlan::Store { version: w, installation, content } && w == v
                        && installation == first_with_version(installations@, v, 0) && content@
                        == default_file_text(v.text())
                } else {
                    plan == DefaultPlan::NotInstalled(v)
                },
            },
        },
{
    let s = match version {
        Some(s) => s,
        None => {
            return Ok(DefaultPlan::Show);
        },
    };
    let v = match PhpVersion::parse(s) {
        Some(v) => v,
        None => {
            return Err(PhmError::InvalidVersion(String::from_str(s)));
        },
    };
    match find_installation(installations, v) {
        Some(k) => {
            let t = v.to_string();
            let content = default_file_content(t.as_str());
            Ok(DefaultPlan::Store { version: v, installation: k, content })
        },
        None => Ok(DefaultPlan::NotInstalled(v)),
    }
}

} // verus!
