//! `phm list-remote`: the minor versions the download site offers, marked
//! where one is installed.

use vstd::prelude::*;
use crate::discover::{PhpInstallation, has_version_text, version_text_listed};

verus! {

/// One line of the listing: a minor version, and whether it is installed.
#[derive(Debug)]
pub struct RemoteEntry {
    pub minor: String,
    pub installed: bool,
}

/// The listing for the minor versions on offer (as the download site's
/// listing gives them), against the installed versions: one entry per minor
/// version, in order, marked installed when an installed version reads as it.
pub fn run(minors: &Vec<String>, installed: &[PhpInstallation]) -> (r: Vec<RemoteEntry>)
    ensures
        r@.len() == minors@.len(),
        forall|i: int| 0 <= i < r@.len() ==> (#[trigger] r@[i]).minor == minors@[i],
        forall|i: int| 0 <= i < r@.len() ==> (#[trigger] r@[i]).installed == version_text_listed(installed@, minors@[i]@),
{
    let mut r: Vec<RemoteEntry> = Vec::new();
    let n = minors.len();
    for i in 0..n
        invariant
            n == minors@.len(),
            r@.len() == i,
            forall|j: int| 0 <= j < i ==> (#[trigger] r@[j]).minor == minors@[j],
            forall|j: int| 0 <= j < i ==> (#[trigger] r@[j]).installed == version_text_listed(installed@, minors@[j]@),
    {
        let m = minors[i].clone();
        let installed_here = has_version_text(installed, m.as_str());
        r.push(RemoteEntry { minor: m, installed: installed_here });
    }
    r
}

} // verus!
