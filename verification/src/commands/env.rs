//! `phm env`: which installation a new shell starts with.

use vstd::prelude::*;
use crate::discover::{PhpInstallation, find_installation, first_with_version};
use crate::text::opt_view;
use crate::version::{PhpVersion, version_of};

verus! {

/// The installation a new shell links: the first one of the stored default
/// version (`default`, when it reads as a version and is installed), else the
/// last one (the highest, as discovery sorts them); none when nothing is
/// installed.
pub open spec fn linked_index(s: Seq<PhpInstallation>, default: Option<Seq<char>>) -> Option<int> {
    if s.len() == 0 {
        None
    } else {
        match default {
            Some(d) => match version_of(d) {
                Some(v) => if first_with_version(s, v, 0) < s.len() {
                    Some(first_with_version(s, v, 0))
                } else {
                    Some(s.len() - 1)
                },
                None => Some(s.len() - 1),
            },
            None => Some(s.len() - 1),
        }
    }
}

/// The index of the installation a new shell links to.
pub fn linked_installation(installations: &[PhpInstallation], default: Option<&str>) -> (r: Option<usize>)
    ensures
        match r {
            Some(k) => linked_index(installations@, opt_view(default)) == Some(k as int),
            None => linked_index(installations@, opt_view(default)) is None,
        },
{
    let n = installations.len();
    if n == 0 {
        return None;
    }
    match default {
        Some(d) => match PhpVersion::parse(d) {
            Some(v) => match find_installation(installations, v) {
                Some(k) => Some(k),
                None => Some(n - 1),
            },
            None => Some(n - 1),
        },
        None => Some(n - 1),
    }
}

} // verus!
