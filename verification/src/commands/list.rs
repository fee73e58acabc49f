//! `phm list`: the installed versions, tagged current and default.

use vstd::prelude::*;
use vstd::string::StringExecFns;
use crate::discover::PhpInstallation;
use crate::text::{chars_of, eq_exec, opt_view};

verus! {

/// One line of the list.
#[derive(Debug)]
pub struct ListEntry {
    /// The version, as `major.minor`.
    pub version: String,
    /// It is the version of the current shell.
    pub current: bool,
    /// It is the stored default.
    pub default: bool,
}

/// The text `t` is `Some` and reads exactly `v`.
pub open spec fn names_version(t: Option<Seq<char>>, v: Seq<char>) -> bool {
    t == Some(v)
}

fn same_text(t: Option<&str>, v: &str) -> (b: bool)
    ensures
        b == names_version(opt_view(t), v@),
{
    match t {
        Some(s) => {
            let a = chars_of(s);
            let b = chars_of(v);
            eq_exec(a.as_slice(), b.as_slice())
        },
        None => false,
    }
}

/// One entry per installation, in order: its version text, tagged current
/// when the current shell's version (`current`) reads as it, and default when
/// the stored default (`default`) does.
pub fn run(installations: &[PhpInstallation], default: Option<&str>, current: Option<&str>) -> (r: Vec<ListEntry>)
    ensures
        r@.len() == installations@.len(),
        forall|i: int| 0 <= i < r@.len() ==> (#[trigger] r@[i]).version@ == installations@[i].version.text(),
        forall|i: int| 0 <= i < r@.len() ==> (#[trigger] r@[i]).current == names_version(
            opt_view(current),
            installations@[i].version.text(),
        ),
        forall|i: int| 0 <= i < r@.len() ==> (#[trigger] r@[i]).default == names_version(
            opt_view(default),
            installations@[i].version.text(),
        ),
{
    let mut r: Vec<ListEntry> = Vec::new();
    let n = installations.len();
    for i in 0..n
        invariant
            n == installations@.len(),
            r@.len() == i,
            forall|j: int| 0 <= j < i ==> (#[trigger] r@[j]).version@ == installations@[j].version.text(),
            forall|j: int| 0 <= j < i ==> (#[trigger] r@[j]).current == names_version(
                opt_view(current),
                installations@[j].version.text(),
            ),
            forall|j: int| 0 <= j < i ==> (#[trigger] r@[j]).default == names_version(
                opt_view(default),
                installations@[j].version.text(),
            ),
    {
        let t = installations[i].version.to_string();
        let is_current = same_text(current, t.as_str());
        let is_default = same_text(default, t.as_str());
        r.push(ListEntry { version: t, current: is_current, default: is_default });
    }
    r
}

/// The tag text after a version: ` (current, default)`, ` (current)`,
/// ` (default)`, or nothing.
pub open spec fn tag_text(current: bool, default: bool) -> Seq<char> {
    if current && default {
        " (current, default)"@
    } else if current {
        " (current)"@
    } else if default {
        " (default)"@
    } else {
        Seq::empty()
    }
}

/// The tag text of an entry.
pub fn tags(entry: &ListEntry) -> (r: String)
    ensures
        r@ == tag_text(entry.current, entry.default),
{
    if entry.current && entry.default {
        String::from_str(" (current, default)")
    } else if entry.current {
        String::from_str(" (current)")
    } else if entry.default {
        String::from_str(" (default)")
    } else {
        String::new()
    }
}

} // verus!
