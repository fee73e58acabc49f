//! `phm use`: which version a shell switches to, and what it reports.

use vstd::prelude::*;
use crate::discover::{PhpInstallation, versions_of, installation_versions, find_installation, first_with_version};
use crate::error::PhmError;
use crate::text::{chars_of, eq_exec, trim, trim_chars, trimmed_nonempty};
use crate::multishell::current_record;
use crate::version::{PhpVersion, VersionConstraint, version_of, exact_of, lowest_admitted};
use vstd::string::StringExecFns;

verus! {

/// The current version recorded for a shell is `target`.
pub open spec fn current_matches(current: Option<Seq<char>>, target: PhpVersion) -> bool {
    match current {
        Some(c) => version_of(c) == Some(target),
        None => false,
    }
}

/// Whether the version recorded for the shell reads as `target`.
pub fn current_matches_target(current: Option<&str>, target: PhpVersion) -> (b: bool)
    ensures
        b == current_matches(
            match current {
                Some(c) => Some(c@),
                None => None,
            },
            target,
        ),
{
    match current {
        Some(c) => match PhpVersion::parse(c) {
            Some(v) => v == target,
            None => false,
        },
        None => false,
    }
}

/// The values of `PHM_SILENT` that ask for a silent shell.
pub open spec fn silent_value(s: Seq<char>) -> bool {
    s == "1"@ || s == "true"@ || s == "TRUE"@ || s == "yes"@ || s == "YES"@ || s == "on"@
        || s == "ON"@
}

/// Whether the shell's `PHM_SILENT` value (when set) asks for silence.
pub fn shell_prefers_silent(value: Option<&str>) -> (b: bool)
    ensures
        b == (value matches Some(v) && silent_value(v@)),
{
    match value {
        Some(v) => {
            let c = chars_of(v);
            let s = c.as_slice();
            let one = chars_of("1");
            let t1 = chars_of("true");
            let t2 = chars_of("TRUE");
            let y1 = chars_of("yes");
            let y2 = chars_of("YES");
            let o1 = chars_of("on");
            let o2 = chars_of("ON");
            eq_exec(s, one.as_slice()) || eq_exec(s, t1.as_slice()) || eq_exec(s, t2.as_slice())
                || eq_exec(s, y1.as_slice()) || eq_exec(s, y2.as_slice()) || eq_exec(
                s,
                o1.as_slice(),
            ) || eq_exec(s, o2.as_slice())
        },
        None => false,
    }
}

/// How `phm use` reports: quietly when the version did not change, and
/// without success messages when silent.
#[derive(Debug, Clone, Copy, PartialEq, Eq, Structural)]
pub struct UseOutput {
    pub silent_if_unchanged: bool,
    pub silent: bool,
}

impl UseOutput {
    /// `phm_silent` is the value of `PHM_SILENT`, when it is set.
    pub fn new(silent_if_unchanged: bool, silent_flag: bool, phm_silent: Option<&str>) -> (o: Self)
        ensures
            o.silent_if_unchanged == silent_if_unchanged,
            o.silent == (silent_flag || (phm_silent matches Some(v) && silent_value(v@))),
    {
        UseOutput { silent_if_unchanged, silent: silent_flag || shell_prefers_silent(phm_silent) }
    }

    /// With no version to switch to, end quietly rather than fail.
    pub fn skip_when_no_version_target(self) -> (b: bool)
        ensures
            b == self.silent_if_unchanged,
    {
        self.silent_if_unchanged
    }

    /// Report "Already using" only for an explicit version, and not when silent.
    pub fn should_print_unchanged(self, explicit_version: bool) -> (b: bool)
        ensures
            b == (explicit_version && !self.silent),
    {
        explicit_version && !self.silent
    }

    /// Success messages are shown unless silent.
    pub fn should_print_success(self) -> (b: bool)
        ensures
            b == !self.silent,
    {
        !self.silent
    }
}

/// The constraint of an explicit version argument: exactly that version.
pub fn explicit_constraint(version: &str) -> (r: Result<VersionConstraint, PhmError>)
    ensures
        match version_of(version@) {
            Some(v) => r == Ok::<VersionConstraint, PhmError>(exact_of(v)),
            None => r matches Err(PhmError::InvalidVersion(s)) && s@ == version@,
        },
{
    match PhpVersion::parse(version) {
        Some(v) => Ok(VersionConstraint::exact(v)),
        None => Err(PhmError::InvalidVersion(String::from_str(version))),
    }
}

/// With no version argument and none found in the project: the stored
/// default, exactly; with no default, nothing to do (`Ok(None)`) when asked to
/// stay silent, else an error.
pub fn default_constraint(default: Option<&str>, output: UseOutput) -> (r: Result<
    Option<VersionConstraint>,
    PhmError,
>)
    ensures
        match default {
            Some(d) => match version_of(d@) {
                Some(v) => r == Ok::<Option<VersionConstraint>, PhmError>(Some(exact_of(v))),
                None => r matches Err(PhmError::InvalidDefaultVersion(s)) && s@ == d@,
            },
            None => if output.silent_if_unchanged {
                r == Ok::<Option<VersionConstraint>, PhmError>(None)
            } else {
                r == Err::<Option<VersionConstraint>, PhmError>(PhmError::NoVersionSpecified)
            },
        },
{
    match default {
        Some(d) => match PhpVersion::parse(d) {
            Some(v) => Ok(Some(VersionConstraint::exact(v))),
            None => Err(PhmError::InvalidDefaultVersion(String::from_str(d))),
        },
        None => if output.skip_when_no_version_target() {
            Ok(None)
        } else {
            Err(PhmError::NoVersionSpecified)
        },
    }
}

/// What `phm use` does once the constraint and the installations are known.
#[derive(Debug, Clone, Copy, PartialEq, Eq, Structural)]
pub enum SwitchPlan {
    /// The shell already uses the resolved version; `announce`: print
    /// "Already using".
    AlreadyUsing { version: PhpVersion, announce: bool },
    /// Link the installation at `index`; `announce`: print "Using".
    Link { index: usize, announce: bool },
    /// No installed version satisfies the constraint; offer `target`.
    Missing { target: PhpVersion },
}

/// The plan for a constraint, the installations found and the version the
/// shell records (`current`); `explicit`: a version was given on the command
/// line. The resolved version is the lowest installed one that the
/// constraint admits.
pub open spec fn switch_plan(
    constraint: VersionConstraint,
    installations: Seq<PhpInstallation>,
    current: Option<Seq<char>>,
    explicit: bool,
    output: UseOutput,
) -> SwitchPlan {
    match lowest_admitted(constraint, versions_of(installations)) {
        Some(v) => if current_matches(current, v) {
            SwitchPlan::AlreadyUsing { version: v, announce: explicit && !output.silent }
        } else {
            SwitchPlan::Link {
                index: first_with_version(installations, v, 0) as usize,
                announce: !output.silent,
            }
        },
        None => SwitchPlan::Missing { target: constraint.min },
    }
}

pub fn plan_switch(
    constraint: VersionConstraint,
    installations: &[PhpInstallation],
    current: Option<&str>,
    explicit: bool,
    output: UseOutput,
) -> (p: SwitchPlan)
    ensures
        p == switch_plan(
            constraint,
            installations@,
            match current {
                Some(c) => Some(c@),
                None => None,
            },
            explicit,
            output,
        ),
        p matches SwitchPlan::Link { index, .. } ==> index < installations@.len(),
{
    let versions = installation_versions(installations);
    match constraint.resolve(versions.as_slice()) {
        Some(v) => {
            if current_matches_target(current, v) {
                SwitchPlan::AlreadyUsing { version: v, announce: output.should_print_unchanged(explicit) }
            } else {
                proof {
                    crate::version::lemma_lowest_admitted(constraint, versions@);
                    let k = choose|k: int| 0 <= k < versions@.len() && versions@[k] == v;
                    assert(installations@[k].version == v);
                }
                match find_installation(installations, v) {
                    Some(index) => SwitchPlan::Link { index, announce: output.should_print_success() },
                    None => SwitchPlan::Missing { target: constraint.target() },
                }
            }
        },
        None => SwitchPlan::Missing { target: constraint.target() },
    }
}

/// `first_with_version` from `i` on: the first index at or after `i` that
/// holds `v`, or the length when none does.
proof fn lemma_first_with_version(s: Seq<PhpInstallation>, v: PhpVersion, i: int)
    requires
        0 <= i <= s.len(),
    ensures
        i <= first_with_version(s, v, i) <= s.len(),
        first_with_version(s, v, i) < s.len() ==> s[first_with_version(s, v, i)].version == v,
        forall|k: int| i <= k < first_with_version(s, v, i) ==> s[k].version != v,
    decreases s.len() - i,
{
    if i < s.len() && s[i].version != v {
        lemma_first_with_version(s, v, i + 1);
    }
}

/// `phm use` always targets the lowest installed version that the constraint
/// admits. It reports the shell as already using a version only when that
/// version is the lowest admitted one and the shell's recorded version reads
/// as it (announced only for an explicit version, when not silent); it links
/// the first installation of the lowest admitted version when the recorded
/// version is another (announced unless silent); and it reports the
/// constraint's minimum as missing only when no installed version is
/// admitted.
pub proof fn lemma_switch_targets_lowest(
    c: VersionConstraint,
    installations: Seq<PhpInstallation>,
    current: Option<Seq<char>>,
    explicit: bool,
    output: UseOutput,
)
    requires
        installations.len() <= usize::MAX,
    ensures
        switch_plan(c, installations, current, explicit, output) matches SwitchPlan::AlreadyUsing {
            version: w,
            announce,
        } ==> {
            &&& current_matches(current, w)
            &&& announce == (explicit && !output.silent)
            &&& c.admits(w)
            &&& exists|k: int| 0 <= k < installations.len() && installations[k].version == w
            &&& forall|k: int|
                0 <= k < installations.len() && c.admits(#[trigger] installations[k].version) ==> w.le(
                    installations[k].version,
                )
        },
        switch_plan(c, installations, current, explicit, output) matches SwitchPlan::Link {
            index,
            announce,
        } ==> {
            let v = installations[index as int].version;
            &&& index < installations.len()
            &&& announce == !output.silent
            &&& c.admits(v)
            &&& !current_matches(current, v)
            &&& forall|k: int|
                0 <= k < installations.len() && c.admits(#[trigger] installations[k].version) ==> v.le(
                    installations[k].version,
                )
            &&& forall|k: int| 0 <= k < index ==> #[trigger] installations[k].version != v
        },
        switch_plan(c, installations, current, explicit, output) matches SwitchPlan::Missing {
            target,
        } ==> {
            &&& target == c.min
            &&& forall|k: int|
                0 <= k < installations.len() ==> !c.admits(#[trigger] installations[k].version)
        },
{
    let vs = versions_of(installations);
    crate::version::lemma_lowest_admitted(c, vs);
    assert forall|k: int| 0 <= k < installations.len() implies vs[k] == #[trigger] installations[k].version by {}
    match lowest_admitted(c, vs) {
        Some(v) => {
            lemma_first_with_version(installations, v, 0);
            let j = choose|j: int| 0 <= j < vs.len() && vs[j] == v;
            assert(installations[j].version == v);
        },
        None => {},
    }
}

/// The answer to the install prompt accepts: `y` or `Y`, white space aside.
pub open spec fn accepts_install(answer: Seq<char>) -> bool {
    trim(answer) == seq!['y'] || trim(answer) == seq!['Y']
}

pub fn answer_accepts_install(answer: &str) -> (b: bool)
    ensures
        b == accepts_install(answer@),
{
    let c = chars_of(answer);
    let t = trim_chars(c.as_slice());
    let b = t.len() == 1 && (t[0] == 'y' || t[0] == 'Y');
    proof {
        if t@.len() == 1 {
            if t@[0] == 'y' {
                assert(t@ == seq!['y']);
            }
            if t@[0] == 'Y' {
                assert(t@ == seq!['Y']);
            }
        }
        if t@ == seq!['y'] || t@ == seq!['Y'] {
            assert(t@.len() == 1);
        }
    }
    b
}

/// After installing a missing version: the installation to link, or the
/// error when the constraint still resolves to nothing.
pub fn plan_after_install(
    constraint: VersionConstraint,
    installations: &[PhpInstallation],
) -> (r: Result<usize, PhmError>)
    ensures
        match lowest_admitted(constraint, versions_of(installations@)) {
            Some(v) => r == Ok::<usize, PhmError>(first_with_version(installations@, v, 0) as usize)
                && (first_with_version(installations@, v, 0) as usize) < installations@.len(),
            None => r == Err::<usize, PhmError>(PhmError::InstalledButUnresolved(constraint.min)),
        },
{
    let versions = installation_versions(installations);
    match constraint.resolve(versions.as_slice()) {
        Some(v) => {
            proof {
                crate::version::lemma_lowest_admitted(constraint, versions@);
                let k = choose|k: int| 0 <= k < versions@.len() && versions@[k] == v;
                assert(installations@[k].version == v);
            }
            match find_installation(installations, v) {
                Some(index) => Ok(index),
                None => Err(PhmError::InstalledButUnresolved(constraint.target())),
            }
        },
        None => Err(PhmError::InstalledButUnresolved(constraint.target())),
    }
}

/// A shell that records the text of a version is using that version.
pub proof fn lemma_recorded_version_matches(v: PhpVersion)
    ensures
        current_matches(Some(v.text()), v),
{
    crate::version::lemma_version_text_parses(v);
}

/// After `phm use` links the version a constraint resolves to, the shell's
/// `current` file reads back as that version: the same constraint then finds
/// the shell already using it, and says so only for an explicit version that
/// is not silenced.
pub proof fn lemma_switch_is_idempotent(
    c: VersionConstraint,
    installations: Seq<PhpInstallation>,
    v: PhpVersion,
    explicit: bool,
    output: UseOutput,
)
    requires
        lowest_admitted(c, versions_of(installations)) == Some(v),
    ensures
        switch_plan(
            c,
            installations,
            trimmed_nonempty(current_record(v)),
            explicit,
            output,
        ) == (SwitchPlan::AlreadyUsing { version: v, announce: explicit && !output.silent }),
{
    reveal_strlit("\n");
    crate::version::lemma_text_shape(v);
    assert(current_record(v) == v.text() + "\n"@);
    crate::config::lemma_trim_line(v.text());
    lemma_recorded_version_matches(v);
}

} // verus!
