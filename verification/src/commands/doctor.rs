//! `phm doctor`: judges what was found about the setup, check by check, and
//! counts the issues.

use vstd::prelude::*;
use crate::discover::{PhpInstallation, has_version_text, version_text_listed};
use crate::text::{contains, str_contains};
use crate::platform::Platform;

verus! {

/// What reading the stored default version gave.
#[derive(Debug)]
pub enum DefaultRead {
    /// Reading failed, with the reason.
    Unreadable(String),
    /// No default is set.
    Unset,
    /// The stored version text.
    Stored(String),
}

/// What was found about the setup before judging it.
#[derive(Debug)]
pub struct DoctorFacts {
    pub platform: Platform,
    /// The installed versions.
    pub installations: Vec<PhpInstallation>,
    /// The stored default version.
    pub default: DefaultRead,
    /// `$PHM_MULTISHELL_PATH`, when set.
    pub multishell_path: Option<String>,
    /// The directory it names exists.
    pub multishell_exists: bool,
    /// `composer` is on the `PATH`.
    pub composer_found: bool,
    /// The shim directory, when its `php` shim is a symbolic link.
    pub shim_bin: Option<String>,
    /// `$PATH`.
    pub path_env: String,
    /// Inside Termux.
    pub termux: bool,
    /// `$PREFIX/etc/resolv.conf` (inside Termux), whether it exists, and
    /// whether it names a server.
    pub resolv: Option<(String, bool, bool)>,
    /// Static PHP builds run under `proot` to resolve names.
    pub proot_wrap: bool,
    /// `proot` was found.
    pub proot_found: bool,
}

/// The judgement on the default version.
#[derive(Debug)]
pub enum DefaultCheck {
    Unreadable(String),
    Installed(String),
    NotInstalled(String),
    Unset,
}

/// The judgement on the shell integration.
#[derive(Debug, Clone, Copy, PartialEq, Eq, Structural)]
pub enum ShellCheck {
    Active,
    DirectoryMissing,
    NotLoaded,
}

/// The judgement on the shims.
#[derive(Debug)]
pub enum ShimCheck {
    NotConfigured,
    InPath(String),
    NotInPath(String),
}

/// The judgement on Termux's resolver configuration.
#[derive(Debug)]
pub enum DnsCheck {
    Configured(String),
    NoNameserver(String),
    Missing(String),
}

/// The judgement on `proot` inside Termux.
#[derive(Debug, Clone, Copy, PartialEq, Eq, Structural)]
pub enum ProotCheck {
    /// Static builds run under `proot`.
    Wrapping,
    /// `proot` is missing.
    NotFound,
    /// `proot` is there but not needed.
    Unneeded,
}

/// The judgements, and how many of them are issues.
#[derive(Debug)]
pub struct DoctorReport {
    pub no_versions: bool,
    pub default: DefaultCheck,
    pub shell: ShellCheck,
    /// Composer's absence is an issue (on macOS).
    pub composer_issue: bool,
    pub shims: ShimCheck,
    /// `Herd/bin` is on the `PATH` (checked on macOS only).
    pub herd_conflict: bool,
    pub dns: Option<DnsCheck>,
    pub proot: Option<ProotCheck>,
    pub issues: usize,
}

pub open spec fn default_check(installations: Seq<PhpInstallation>, d: DefaultRead) -> DefaultCheck {
    match d {
        DefaultRead::Unreadable(e) => DefaultCheck::Unreadable(e),
        DefaultRead::Unset => DefaultCheck::Unset,
        DefaultRead::Stored(v) => if version_text_listed(installations, v@) {
            DefaultCheck::Installed(v)
        } else {
            DefaultCheck::NotInstalled(v)
        },
    }
}

pub open spec fn shell_check(path: Option<String>, exists: bool) -> ShellCheck {
    match path {
        Some(_) => if exists {
            ShellCheck::Active
        } else {
            ShellCheck::DirectoryMissing
        },
        None => ShellCheck::NotLoaded,
    }
}

pub open spec fn shim_check(shim_bin: Option<String>, path_env: Seq<char>) -> ShimCheck {
    match shim_bin {
        Some(b) => if contains(path_env, b@) {
            ShimCheck::InPath(b)
        } else {
            ShimCheck::NotInPath(b)
        },
        None => ShimCheck::NotConfigured,
    }
}

pub open spec fn dns_check(termux: bool, resolv: Option<(String, bool, bool)>) -> Option<DnsCheck> {
    if !termux {
        None
    } else {
        match resolv {
            Some((p, exists, named)) => if !exists {
                Some(DnsCheck::Missing(p))
            } else if named {
                Some(DnsCheck::Configured(p))
            } else {
                Some(DnsCheck::NoNameserver(p))
            },
            None => None,
        }
    }
}

pub open spec fn proot_check(termux: bool, wrap: bool, found: bool) -> Option<ProotCheck> {
    if !termux {
        None
    } else if wrap {
        Some(ProotCheck::Wrapping)
    } else if !found {
        Some(ProotCheck::NotFound)
    } else {
        Some(ProotCheck::Unneeded)
    }
}

pub open spec fn flag(b: bool) -> nat {
    if b {
        1
    } else {
        0
    }
}

/// The number of issues: no versions, a default that is not an installed
/// version, no working shell integration, shims out of the `PATH`, a missing
/// or empty resolver configuration, and a missing `proot` inside Termux;
/// on macOS also `Herd/bin` on the `PATH` and a missing Composer.
pub open spec fn issue_count(f: DoctorFacts) -> nat {
    let macos = f.platform == Platform::MacOs;
    flag(f.installations@.len() == 0)
    + flag(!(default_check(f.installations@, f.default) is Installed))
    + flag(shell_check(f.multishell_path, f.multishell_exists) != ShellCheck::Active)
    + flag(macos && !f.composer_found)
    + flag(shim_check(f.shim_bin, f.path_env@) is NotInPath)
    + flag(macos && contains(f.path_env@, "Herd/bin"@))
    + flag(!macos && (dns_check(f.termux, f.resolv) matches Some(c) && !(c is Configured)))
    + flag(!macos && proot_check(f.termux, f.proot_wrap, f.proot_found) == Some(ProotCheck::NotFound))
}

/// Judges the setup. Every check of the report is the one its spec function
/// gives for the facts, and `issues` counts the failed ones.
pub fn run(facts: DoctorFacts) -> (r: DoctorReport)
    ensures
        r.no_versions == (facts.installations@.len() == 0),
        r.default == default_check(facts.installations@, facts.default),
        r.shell == shell_check(facts.multishell_path, facts.multishell_exists),
        r.composer_issue == (facts.platform == Platform::MacOs && !facts.composer_found),
        r.shims == shim_check(facts.shim_bin, facts.path_env@),
        r.herd_conflict == (facts.platform == Platform::MacOs && contains(facts.path_env@, "Herd/bin"@)),
        facts.platform == Platform::Linux ==> r.dns == dns_check(facts.termux, facts.resolv)
            && r.proot == proot_check(facts.termux, facts.proot_wrap, facts.proot_found),
        facts.platform == Platform::MacOs ==> r.dns is None && r.proot is None,
        r.issues == issue_count(facts),
{
    let ghost f = facts;
    let macos = match facts.platform {
        Platform::MacOs => true,
        Platform::Linux => false,
    };
    let no_versions = facts.installations.len() == 0;
    let mut issues: usize = 0;
    if no_versions {
        issues = issues + 1;
    }
    let default = match facts.default {
        DefaultRead::Unreadable(e) => DefaultCheck::Unreadable(e),
        DefaultRead::Unset => DefaultCheck::Unset,
        DefaultRead::Stored(v) => {
            if has_version_text(facts.installations.as_slice(), v.as_str()) {
                DefaultCheck::Installed(v)
            } else {
                DefaultCheck::NotInstalled(v)
            }
        },
    };
    let default_ok = match &default {
        DefaultCheck::Installed(_) => true,
        _ => false,
    };
    if !default_ok {
        issues = issues + 1;
    }
    let shell = match &facts.multishell_path {
        Some(_) => if facts.multishell_exists {
            ShellCheck::Active
        } else {
            ShellCheck::DirectoryMissing
        },
        None => ShellCheck::NotLoaded,
    };
    if shell != ShellCheck::Active {
        issues = issues + 1;
    }
    let composer_issue = macos && !facts.composer_found;
    if composer_issue {
        issues = issues + 1;
    }
    let shims = match facts.shim_bin {
        Some(b) => if str_contains(facts.path_env.as_str(), b.as_str()) {
            ShimCheck::InPath(b)
        } else {
            ShimCheck::NotInPath(b)
        },
        None => ShimCheck::NotConfigured,
    };
    let shims_out = match &shims {
        ShimCheck::NotInPath(_) => true,
        _ => false,
    };
    if shims_out {
        issues = issues + 1;
    }
    proof {
        reveal_strlit("Herd/bin");
    }
    let herd_conflict = macos && str_contains(facts.path_env.as_str(), "Herd/bin");
    if herd_conflict {
        issues = issues + 1;
    }
    let mut dns: Option<DnsCheck> = None;
    let mut proot: Option<ProotCheck> = None;
    if !macos && facts.termux {
        dns = match facts.resolv {
            Some((p, exists, named)) => if !exists {
                Some(DnsCheck::Missing(p))
            } else if named {
                Some(DnsCheck::Configured(p))
            } else {
                Some(DnsCheck::NoNameserver(p))
            },
            None => None,
        };
        let dns_issue = match &dns {
            Some(DnsCheck::Configured(_)) => false,
            Some(_) => true,
            None => false,
        };
        if dns_issue {
            issues = issues + 1;
        }
        proot = if facts.proot_wrap {
            Some(ProotCheck::Wrapping)
        } else if !facts.proot_found {
            Some(ProotCheck::NotFound)
        } else {
            Some(ProotCheck::Unneeded)
        };
        if proot == Some(ProotCheck::NotFound) {
            issues = issues + 1;
        }
    }
    DoctorReport {
        no_versions,
        default,
        shell,
        composer_issue,
        shims,
        herd_conflict,
        dns,
        proot,
        issues,
    }
}

} // verus!
