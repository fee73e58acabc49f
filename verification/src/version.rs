//! PHP versions (`major.minor`) and Composer-style version constraints.

use vstd::prelude::*;
use crate::number::{
    decimal, push_decimal, u8_of, parse_u8, is_digit, lemma_decimal_digits, lemma_u8_decimal,
};
use crate::text::{
    chars_of, contains, matches_at, skip_space, back_space, find_space, words_from,
    lemma_skip_space_bounds, lemma_back_space_bounds, lemma_trim_idempotent, is_space,
    lemma_trim_unchanged, lemma_find_char_at, contains_exec, ends_with, ends_with_exec, find_char, find_char_exec,
    split, split_exec, starts_with, starts_with_exec, strip_leading, strip_leading_exec,
    strip_trailing, strip_trailing_exec, trim, trim_chars, views, words, words_exec, push_char,
    lemma_lacks_char, lemma_found_at, lemma_find_space_bounds,
};

verus! {

/// A PHP release line, `major.minor`.
#[derive(Debug, Clone, Copy, PartialEq, Eq, PartialOrd, Ord, Hash, Structural)]
pub struct PhpVersion {
    pub major: u8,
    pub minor: u8,
}

impl PhpVersion {
    /// The order of versions: by major, then by minor.
    pub open spec fn le(self, other: PhpVersion) -> bool {
        self.major < other.major || (self.major == other.major && self.minor <= other.minor)
    }

    pub open spec fn lt(self, other: PhpVersion) -> bool {
        self.le(other) && self != other
    }

    /// The text `major.minor`.
    pub open spec fn text(self) -> Seq<char> {
        decimal(self.major as nat) + seq!['.'] + decimal(self.minor as nat)
    }

    pub fn new(major: u8, minor: u8) -> (v: Self)
        ensures
            v.major == major,
            v.minor == minor,
    {
        PhpVersion { major, minor }
    }

    /// Reads `major.minor` from `s`: surrounding white space is ignored, the
    /// text before the first `.` is the major number, the text between the
    /// first and a second `.` (or the end) is the minor number; a patch part is
    /// ignored.
    pub fn parse(s: &str) -> (r: Option<Self>)
        ensures
            r == version_of(s@),
    {
        let v = chars_of(s);
        parse_chars(v.as_slice())
    }

    /// The text `major.minor`.
    pub fn to_string(&self) -> (r: String)
        ensures
            r@ == self.text(),
    {
        let mut r = String::new();
        push_decimal(&mut r, self.major as u128);
        push_char(&mut r, '.');
        push_decimal(&mut r, self.minor as u128);
        r
    }
}

/// `a` comes no later than `b`.
pub fn version_le(a: PhpVersion, b: PhpVersion) -> (r: bool)
    ensures
        r == a.le(b),
{
    a.major < b.major || (a.major == b.major && a.minor <= b.minor)
}

/// `a` comes strictly before `b`.
pub fn version_lt(a: PhpVersion, b: PhpVersion) -> (r: bool)
    ensures
        r == a.lt(b),
{
    a.major < b.major || (a.major == b.major && a.minor < b.minor)
}

/// What `PhpVersion::parse` reads from the text `s`.
pub open spec fn version_of(s: Seq<char>) -> Option<PhpVersion> {
    let t = trim(s);
    let i = find_char(t, '.', 0);
    if i >= t.len() {
        None
    } else {
        let j = find_char(t, '.', i + 1);
        match (u8_of(t.subrange(0, i)), u8_of(t.subrange(i + 1, j))) {
            (Some(major), Some(minor)) => Some(PhpVersion { major, minor }),
            _ => None,
        }
    }
}

pub fn parse_chars(s: &[char]) -> (r: Option<PhpVersion>)
    ensures
        r == version_of(s@),
{
    let t = trim_chars(s);
    let n = t.len();
    let i = find_char_exec(t, '.', 0);
    if i >= n {
        return None;
    }
    let j = find_char_exec(t, '.', i + 1);
    let major = parse_u8(vstd::slice::slice_subrange(t, 0, i));
    let minor = parse_u8(vstd::slice::slice_subrange(t, i + 1, j));
    match (major, minor) {
        (Some(major), Some(minor)) => Some(PhpVersion { major, minor }),
        _ => None,
    }
}

/// A constraint: versions from `min` on, below `max` when there is one.
#[derive(Debug, Clone, Copy, PartialEq, Eq, Structural)]
pub struct VersionConstraint {
    pub min: PhpVersion,
    pub max: Option<PhpVersion>,
}

/// The next minor version, when the minor number has room for it.
pub open spec fn next_minor(v: PhpVersion) -> Result<PhpVersion, ()> {
    if v.minor < 255 {
        Ok(PhpVersion { major: v.major, minor: (v.minor + 1) as u8 })
    } else {
        Err(())
    }
}

/// `major + 1 . 0`, when the major number has room for it.
pub open spec fn next_major(v: PhpVersion) -> Result<PhpVersion, ()> {
    if v.major < 255 {
        Ok(PhpVersion { major: (v.major + 1) as u8, minor: 0 })
    } else {
        Err(())
    }
}

/// The constraint that admits exactly the minor version `v`: from `v` up to
/// the next minor version, or, at minor 255, up to the next major version
/// (no bound at all for `255.255`).
pub open spec fn exact_of(v: PhpVersion) -> VersionConstraint {
    VersionConstraint {
        min: v,
        max: if v.minor < 255 {
            Some(PhpVersion { major: v.major, minor: (v.minor + 1) as u8 })
        } else if v.major < 255 {
            Some(PhpVersion { major: (v.major + 1) as u8, minor: 0 })
        } else {
            None
        },
    }
}

/// `min` then the bound that `next` gives; `Err` when the bound does not fit.
pub open spec fn bounded(min: PhpVersion, next: Result<PhpVersion, ()>) -> Result<
    Option<VersionConstraint>,
    (),
> {
    match next {
        Ok(max) => Ok(Some(VersionConstraint { min, max: Some(max) })),
        Err(_) => Err(()),
    }
}

/// The text holds at least two `.`, so splitting it at `.` gives three parts or more.
pub open spec fn has_patch(t: Seq<char>) -> bool {
    let i = find_char(t, '.', 0);
    i < t.len() && find_char(t, '.', i + 1) < t.len()
}

/// What one Composer constraint (no `|`, no `&&`-by-space) reads as. `Err`
/// stands for a bound that does not fit in a `u8`, on which the reading
/// overflows.
///  - `X.Y.*`: exactly `X.Y`;
///  - `~X.Y.Z`: exactly `X.Y`; `~X.Y`: from `X.Y` below `X+1.0`;
///  - `^0.Y`: from `0.Y` below `0.Y+1`; `^X.Y`: from `X.Y` below `X+1.0`;
///  - `>=X.Y`: from `X.Y` on; `>X.Y`: from `X.Y+1` on;
///  - anything else is read as a plain version, exactly `X.Y`.
#[verifier::opaque]
pub open spec fn single_outcome(s: Seq<char>) -> Result<Option<VersionConstraint>, ()> {
    let t = trim(s);
    if ends_with(t, seq!['.', '*']) {
        match version_of(strip_trailing(t, seq!['.', '*'])) {
            Some(v) => Ok(Some(exact_of(v))),
            None => Ok(None),
        }
    } else if starts_with(t, seq!['~']) {
        let vs = trim(strip_leading(t, seq!['~']));
        match version_of(vs) {
            Some(v) => if has_patch(vs) {
                Ok(Some(exact_of(v)))
            } else {
                bounded(v, next_major(v))
            },
            None => Ok(None),
        }
    } else if starts_with(t, seq!['^']) {
        match version_of(trim(strip_leading(t, seq!['^']))) {
            Some(v) => if v.major == 0 {
                bounded(v, next_minor(v))
            } else {
                bounded(v, next_major(v))
            },
            None => Ok(None),
        }
    } else if starts_with(t, seq!['>', '=']) {
        match version_of(trim(strip_leading(t, seq!['>', '=']))) {
            Some(v) => Ok(Some(VersionConstraint { min: v, max: None })),
            None => Ok(None),
        }
    } else if starts_with(t, seq!['>']) {
        match version_of(trim(strip_leading(t, seq!['>']))) {
            Some(v) => match next_minor(v) {
                Ok(m) => Ok(Some(VersionConstraint { min: m, max: None })),
                Err(_) => Err(()),
            },
            None => Ok(None),
        }
    } else {
        match version_of(t) {
            Some(v) => Ok(Some(exact_of(v))),
            None => Ok(None),
        }
    }
}

/// One word of a space-separated (and-ed) constraint applied to the bounds read
/// so far: `>=` and `<` set a bound from the version after them (unset when
/// it does not parse), `>` and `<=` set one only when the version parses.
pub open spec fn and_step(st: (Option<PhpVersion>, Option<PhpVersion>), w: Seq<char>) -> Result<
    (Option<PhpVersion>, Option<PhpVersion>),
    (),
> {
    if starts_with(w, seq!['>', '=']) {
        Ok((version_of(strip_leading(w, seq!['>', '='])), st.1))
    } else if starts_with(w, seq!['>']) {
        match version_of(strip_leading(w, seq!['>'])) {
            Some(v) => match next_minor(v) {
                Ok(m) => Ok((Some(m), st.1)),
                Err(_) => Err(()),
            },
            None => Ok(st),
        }
    } else if starts_with(w, seq!['<', '=']) {
        match version_of(strip_leading(w, seq!['<', '='])) {
            Some(v) => match next_minor(v) {
                Ok(m) => Ok((st.0, Some(m))),
                Err(_) => Err(()),
            },
            None => Ok(st),
        }
    } else if starts_with(w, seq!['<']) {
        Ok((st.0, version_of(strip_leading(w, seq!['<']))))
    } else {
        Ok(st)
    }
}

/// The bounds read from the first `n` words.
pub open spec fn and_fold(ws: Seq<Seq<char>>, n: int) -> Result<
    (Option<PhpVersion>, Option<PhpVersion>),
    (),
>
    decreases n,
{
    if n <= 0 {
        Ok((None, None))
    } else {
        match and_fold(ws, n - 1) {
            Ok(st) => and_step(st, ws[n - 1]),
            Err(_) => Err(()),
        }
    }
}

/// Of `best` and `c`, the one to keep: `c` unless `best` has a higher minimum.
pub open spec fn prefer(best: Option<VersionConstraint>, c: VersionConstraint) -> VersionConstraint {
    match best {
        Some(b) => if b.min.le(c.min) {
            c
        } else {
            b
        },
        None => c,
    }
}

/// The alternatives among the first `n` that read as constraints: the one
/// with the highest minimum (the last of them on a tie).
pub open spec fn or_fold(alts: Seq<Seq<char>>, n: int) -> Result<Option<VersionConstraint>, ()>
    decreases n,
{
    if n <= 0 {
        Ok(None)
    } else {
        match or_fold(alts, n - 1) {
            Ok(best) => match single_outcome(alts[n - 1]) {
                Ok(Some(c)) => Ok(Some(prefer(best, c))),
                Ok(None) => Ok(best),
                Err(_) => Err(()),
            },
            Err(_) => Err(()),
        }
    }
}

/// The alternatives of `t`: split at `||`, or at `|` when it holds no `||`.
pub open spec fn alternatives(t: Seq<char>) -> Seq<Seq<char>> {
    if contains(t, seq!['|', '|']) {
        split(t, seq!['|', '|'])
    } else {
        split(t, seq!['|'])
    }
}

/// What a Composer constraint string reads as (`Err`: a bound overflows).
/// With a `|`, the string is split at `||` (or at `|` when there is no `||`)
/// and the alternative with the highest minimum is kept. Otherwise, with a
/// space, the words set the bounds (`>=`, `>`, `<=`, `<`); without a lower
/// bound the first word is read alone. Otherwise it is one constraint.
pub open spec fn constraint_outcome(s: Seq<char>) -> Result<Option<VersionConstraint>, ()> {
    let t = trim(s);
    if contains(t, seq!['|']) {
        let alts = alternatives(t);
        or_fold(alts, alts.len() as int)
    } else if contains(t, seq![' ']) {
        let ws = words(t);
        match and_fold(ws, ws.len() as int) {
            Ok((Some(min), max)) => Ok(Some(VersionConstraint { min, max })),
            Ok((None, _)) => single_outcome(ws[0]),
            Err(_) => Err(()),
        }
    } else {
        single_outcome(t)
    }
}

/// The constraint string makes a bound overflow.
pub open spec fn constraint_overflows(s: Seq<char>) -> bool {
    constraint_outcome(s) is Err
}

/// The lowest of the versions in `s` that `c` admits.
pub open spec fn lowest_admitted(c: VersionConstraint, s: Seq<PhpVersion>) -> Option<PhpVersion>
    decreases s.len(),
{
    if s.len() == 0 {
        None
    } else {
        let r = lowest_admitted(c, s.drop_last());
        let v = s.last();
        if c.admits(v) && match r {
            Some(b) => v.lt(b),
            None => true,
        } {
            Some(v)
        } else {
            r
        }
    }
}

/// `lowest_admitted` is an admitted member of `s` no higher than any other
/// admitted member, and is absent only when `c` admits none of `s`.
pub proof fn lemma_lowest_admitted(c: VersionConstraint, s: Seq<PhpVersion>)
    ensures
        lowest_admitted(c, s) is None <==> forall|i: int| 0 <= i < s.len() ==> !c.admits(s[i]),
        lowest_admitted(c, s) matches Some(v) ==> {
            &&& s.contains(v)
            &&& c.admits(v)
            &&& forall|i: int| 0 <= i < s.len() && c.admits(s[i]) ==> v.le(s[i])
        },
    decreases s.len(),
{
    if s.len() > 0 {
        let p = s.drop_last();
        lemma_lowest_admitted(c, p);
        assert forall|i: int| 0 <= i < p.len() implies p[i] == s[i] by {}
        if let Some(v) = lowest_admitted(c, s) {
            if v != s.last() {
                let k = choose|k: int| 0 <= k < p.len() && p[k] == v;
                assert(s[k] == v);
            } else {
                assert(s[s.len() - 1] == v);
            }
        }
    }
}

/// The reading of a constraint string overflowed a version number.
#[derive(Debug, Clone, Copy, PartialEq, Eq, Structural)]
pub struct ConstraintOverflow;

impl VersionConstraint {
    /// `v` lies within the constraint.
    pub open spec fn admits(self, v: PhpVersion) -> bool {
        self.min.le(v) && match self.max {
            Some(max) => v.lt(max),
            None => true,
        }
    }

    /// Constraint that matches exactly one minor version.
    pub fn exact(version: PhpVersion) -> (c: Self)
        ensures
            c == exact_of(version),
            forall|w: PhpVersion| c.admits(w) <==> w == version,
    {
        proof {
            assert forall|w: PhpVersion| exact_of(version).admits(w) <==> w == version by {
                lemma_exact_admits_only(version, w);
            }
        }
        let max = if version.minor < 255 {
            Some(PhpVersion { major: version.major, minor: version.minor + 1 })
        } else if version.major < 255 {
            Some(PhpVersion { major: version.major + 1, minor: 0 })
        } else {
            None
        };
        VersionConstraint { min: version, max }
    }

    /// Parse a composer-style version constraint string.
    pub fn from_constraint(constraint: &str) -> (r: Option<Self>)
        requires
            !constraint_overflows(constraint@),
        ensures
            constraint_outcome(constraint@) == Ok::<Option<VersionConstraint>, ()>(r),
    {
        match Self::try_from_constraint(constraint) {
            Ok(r) => r,
            Err(_) => None,
        }
    }

    /// Parse a composer-style version constraint string, reporting the strings
    /// on which a bound overflows instead of reading them.
    pub fn try_from_constraint(constraint: &str) -> (r: Result<Option<Self>, ConstraintOverflow>)
        ensures
            r is Err <==> constraint_overflows(constraint@),
            r matches Ok(c) ==> constraint_outcome(constraint@) == Ok::<
                Option<VersionConstraint>,
                (),
            >(c),
    {
        let v = chars_of(constraint);
        match outcome_exec(v.as_slice()) {
            Ok(c) => Ok(c),
            Err(_) => Err(ConstraintOverflow),
        }
    }

    /// Parse one constraint: a wildcard `X.Y.*`, `~`, `^`, `>=`, `>`, or a
    /// plain version (no alternatives, no space-separated bounds). A
    /// constraint that reads admits its own minimum.
    pub fn from_single_constraint(s: &str) -> (r: Option<Self>)
        requires
            single_outcome(s@) is Ok,
        ensures
            single_outcome(s@) == Ok::<Option<VersionConstraint>, ()>(r),
            r matches Some(c) ==> c.admits(c.min),
    {
        proof {
            lemma_single_admits_minimum(s@);
        }
        let v = chars_of(s);
        match single_exec(v.as_slice()) {
            Ok(c) => c,
            Err(_) => None,
        }
    }

    /// Check if a version satisfies this constraint.
    pub fn satisfies(&self, version: PhpVersion) -> (b: bool)
        ensures
            b == self.admits(version),
    {
        version_le(self.min, version) && match self.max {
            Some(max) => version_lt(version, max),
            None => true,
        }
    }

    /// Find the lowest installed version that satisfies this constraint.
    pub fn resolve(&self, installed: &[PhpVersion]) -> (r: Option<PhpVersion>)
        ensures
            r == lowest_admitted(*self, installed@),
            r is None <==> forall|i: int| 0 <= i < installed@.len() ==> !self.admits(installed@[i]),
            r matches Some(v) ==> {
                &&& installed@.contains(v)
                &&& self.admits(v)
                &&& forall|i: int|
                    0 <= i < installed@.len() && self.admits(installed@[i]) ==> v.le(installed@[i])
            },
    {
        let n = installed.len();
        let mut best: Option<PhpVersion> = None;
        for i in 0..n
            invariant
                n == installed@.len(),
                best == lowest_admitted(*self, installed@.subrange(0, i as int)),
        {
            let v = installed[i];
            let ghost pre = installed@.subrange(0, i as int);
            assert(installed@.subrange(0, i + 1).drop_last() == pre);
            if self.satisfies(v) {
                let better = match best {
                    Some(b) => version_lt(v, b),
                    None => true,
                };
                if better {
                    best = Some(v);
                }
            }
        }
        proof {
            assert(installed@.subrange(0, n as int) == installed@);
            lemma_lowest_admitted(*self, installed@);
        }
        best
    }

    /// The minimum version of this constraint (used for install suggestions).
    pub fn target(&self) -> (v: PhpVersion)
        ensures
            v == self.min,
    {
        self.min
    }
}

fn bounded_exec(min: PhpVersion, major: bool) -> (r: Result<Option<VersionConstraint>, ()>)
    ensures
        major ==> r == bounded(min, next_major(min)),
        !major ==> r == bounded(min, next_minor(min)),
{
    if major {
        if min.major < 255 {
            Ok(Some(VersionConstraint { min, max: Some(PhpVersion { major: min.major + 1, minor: 0 }) }))
        } else {
            Err(())
        }
    } else {
        if min.minor < 255 {
            Ok(Some(VersionConstraint { min, max: Some(PhpVersion { major: min.major, minor: min.minor + 1 }) }))
        } else {
            Err(())
        }
    }
}

fn next_minor_exec(v: PhpVersion) -> (r: Result<PhpVersion, ()>)
    ensures
        r == next_minor(v),
{
    if v.minor < 255 {
        Ok(PhpVersion { major: v.major, minor: v.minor + 1 })
    } else {
        Err(())
    }
}

fn has_patch_exec(t: &[char]) -> (b: bool)
    ensures
        b == has_patch(t@),
{
    let i = find_char_exec(t, '.', 0);
    i < t.len() && find_char_exec(t, '.', i + 1) < t.len()
}

fn single_exec(s: &[char]) -> (r: Result<Option<VersionConstraint>, ()>)
    ensures
        r == single_outcome(s@),
{
    reveal(single_outcome);
    let t = trim_chars(s);
    let wild = ['.', '*'];
    let tilde = ['~'];
    let caret = ['^'];
    let ge = ['>', '='];
    let gt = ['>'];
    assert(wild@ == seq!['.', '*']);
    assert(tilde@ == seq!['~']);
    assert(caret@ == seq!['^']);
    assert(ge@ == seq!['>', '=']);
    assert(gt@ == seq!['>']);
    if ends_with_exec(t, wild.as_slice()) {
        match parse_chars(strip_trailing_exec(t, wild.as_slice())) {
            Some(v) => Ok(Some(VersionConstraint::exact(v))),
            None => Ok(None),
        }
    } else if starts_with_exec(t, tilde.as_slice()) {
        let vs = trim_chars(strip_leading_exec(t, tilde.as_slice()));
        match parse_chars(vs) {
            Some(v) => if has_patch_exec(vs) {
                Ok(Some(VersionConstraint::exact(v)))
            } else {
                bounded_exec(v, true)
            },
            None => Ok(None),
        }
    } else if starts_with_exec(t, caret.as_slice()) {
        match parse_chars(trim_chars(strip_leading_exec(t, caret.as_slice()))) {
            Some(v) => if v.major == 0 {
                bounded_exec(v, false)
            } else {
                bounded_exec(v, true)
            },
            None => Ok(None),
        }
    } else if starts_with_exec(t, ge.as_slice()) {
        match parse_chars(trim_chars(strip_leading_exec(t, ge.as_slice()))) {
            Some(v) => Ok(Some(VersionConstraint { min: v, max: None })),
            None => Ok(None),
        }
    } else if starts_with_exec(t, gt.as_slice()) {
        match parse_chars(trim_chars(strip_leading_exec(t, gt.as_slice()))) {
            Some(v) => match next_minor_exec(v) {
                Ok(m) => Ok(Some(VersionConstraint { min: m, max: None })),
                Err(_) => Err(()),
            },
            None => Ok(None),
        }
    } else {
        match parse_chars(t) {
            Some(v) => Ok(Some(VersionConstraint::exact(v))),
            None => Ok(None),
        }
    }
}

fn and_step_exec(st: (Option<PhpVersion>, Option<PhpVersion>), w: &[char]) -> (r: Result<
    (Option<PhpVersion>, Option<PhpVersion>),
    (),
>)
    ensures
        r == and_step(st, w@),
{
    let ge = ['>', '='];
    let gt = ['>'];
    let le = ['<', '='];
    let lt = ['<'];
    assert(ge@ == seq!['>', '=']);
    assert(gt@ == seq!['>']);
    assert(le@ == seq!['<', '=']);
    assert(lt@ == seq!['<']);
    if starts_with_exec(w, ge.as_slice()) {
        Ok((parse_chars(strip_leading_exec(w, ge.as_slice())), st.1))
    } else if starts_with_exec(w, gt.as_slice()) {
        match parse_chars(strip_leading_exec(w, gt.as_slice())) {
            Some(v) => match next_minor_exec(v) {
                Ok(m) => Ok((Some(m), st.1)),
                Err(_) => Err(()),
            },
            None => Ok(st),
        }
    } else if starts_with_exec(w, le.as_slice()) {
        match parse_chars(strip_leading_exec(w, le.as_slice())) {
            Some(v) => match next_minor_exec(v) {
                Ok(m) => Ok((st.0, Some(m))),
                Err(_) => Err(()),
            },
            None => Ok(st),
        }
    } else if starts_with_exec(w, lt.as_slice()) {
        Ok((st.0, parse_chars(strip_leading_exec(w, lt.as_slice()))))
    } else {
        Ok(st)
    }
}

fn outcome_exec(s: &[char]) -> (r: Result<Option<VersionConstraint>, ()>)
    ensures
        r == constraint_outcome(s@),
{
    let t = trim_chars(s);
    let bar = ['|'];
    let bars = ['|', '|'];
    let space = [' '];
    assert(bar@ == seq!['|']);
    assert(bars@ == seq!['|', '|']);
    assert(space@ == seq![' ']);
    if contains_exec(t, bar.as_slice()) {
        let alts = if contains_exec(t, bars.as_slice()) {
            split_exec(t, bars.as_slice())
        } else {
            split_exec(t, bar.as_slice())
        };
        let n = alts.len();
        let mut best: Option<VersionConstraint> = None;
        assert(constraint_outcome(s@) == or_fold(views(alts@), n as int));
        for i in 0..n
            invariant
                n == alts@.len(),
                constraint_outcome(s@) == or_fold(views(alts@), n as int),
                or_fold(views(alts@), i as int) == Ok::<Option<VersionConstraint>, ()>(best),
        {
            assert(views(alts@)[i as int] == alts@[i as int]@);
            match single_exec(alts[i]) {
                Ok(Some(c)) => {
                    best = Some(
                        match best {
                            Some(b) => if version_le(b.min, c.min) {
                                c
                            } else {
                                b
                            },
                            None => c,
                        },
                    );
                },
                Ok(None) => {},
                Err(_) => {
                    proof {
                        assert(or_fold(views(alts@), i + 1) is Err);
                        lemma_or_fold_err(views(alts@), i + 1, n as int);
                    }
                    return Err(());
                },
            }
        }
        Ok(best)
    } else if contains_exec(t, space.as_slice()) {
        let ws = words_exec(t);
        let n = ws.len();
        let mut st: (Option<PhpVersion>, Option<PhpVersion>) = (None, None);
        assert(and_fold(views(ws@), n as int) is Err ==> constraint_outcome(s@) == Err::<Option<VersionConstraint>, ()>(()));
        for i in 0..n
            invariant
                n == ws@.len(),
                and_fold(views(ws@), n as int) is Err ==> constraint_outcome(s@) == Err::<Option<VersionConstraint>, ()>(()),
                and_fold(views(ws@), i as int) == Ok::<
                    (Option<PhpVersion>, Option<PhpVersion>),
                    (),
                >(st),
        {
            assert(views(ws@)[i as int] == ws@[i as int]@);
            match and_step_exec(st, ws[i]) {
                Ok(next) => {
                    st = next;
                },
                Err(_) => {
                    proof {
                        assert(and_fold(views(ws@), i + 1) is Err);
                        lemma_and_fold_err(views(ws@), i + 1, n as int);
                    }
                    return Err(());
                },
            }
        }
        match st {
            (Some(min), max) => Ok(Some(VersionConstraint { min, max })),
            (None, _) => {
                proof {
                    lemma_trim_idempotent(s@);
                    lemma_words_nonempty(t@);
                }
                assert(views(ws@)[0] == ws@[0]@);
                single_exec(ws[0])
            },
        }
    } else {
        single_exec(t)
    }
}

proof fn lemma_or_fold_err(alts: Seq<Seq<char>>, i: int, n: int)
    requires
        0 <= i <= n,
        or_fold(alts, i) is Err,
    ensures
        or_fold(alts, n) is Err,
    decreases n - i,
{
    if i < n {
        lemma_or_fold_err(alts, i + 1, n);
    }
}

proof fn lemma_and_fold_err(ws: Seq<Seq<char>>, i: int, n: int)
    requires
        0 <= i <= n,
        and_fold(ws, i) is Err,
    ensures
        and_fold(ws, n) is Err,
    decreases n - i,
{
    if i < n {
        lemma_and_fold_err(ws, i + 1, n);
    }
}

/// The digits of a numeral hold neither white space nor any of `. | * ~ ^ > < =`.
proof fn lemma_decimal_plain(n: nat)
    ensures
        forall|i: int|
            0 <= i < decimal(n).len() ==> is_digit(#[trigger] decimal(n)[i]) && !is_space(
                decimal(n)[i],
            ),
{
    lemma_decimal_digits(n);
}

/// The text of a version is built from digits and one `.`.
pub proof fn lemma_text_shape(v: PhpVersion)
    ensures
        v.text().len() == decimal(v.major as nat).len() + 1 + decimal(v.minor as nat).len(),
        v.text()[decimal(v.major as nat).len() as int] == '.',
        forall|i: int|
            0 <= i < v.text().len() && i != decimal(v.major as nat).len() ==> is_digit(
                #[trigger] v.text()[i],
            ),
        forall|i: int| 0 <= i < v.text().len() ==> !is_space(#[trigger] v.text()[i]),
        is_digit(v.text()[0]),
        is_digit(v.text()[v.text().len() - 1]),
        trim(v.text()) == v.text(),
{
    let a = decimal(v.major as nat);
    let b = decimal(v.minor as nat);
    lemma_decimal_plain(v.major as nat);
    lemma_decimal_plain(v.minor as nat);
    let t = v.text();
    assert forall|i: int| 0 <= i < t.len() && i != a.len() implies is_digit(#[trigger] t[i]) by {
        if i < a.len() {
            assert(t[i] == a[i]);
        } else {
            assert(t[i] == b[i - a.len() - 1]);
        }
    }
    assert forall|i: int| 0 <= i < t.len() implies !is_space(#[trigger] t[i]) by {
        if i != a.len() {
            assert(is_digit(t[i]));
        }
    }
    lemma_trim_unchanged(t);
}

/// Reading the text of a version gives the version back.
pub proof fn lemma_version_text_parses(v: PhpVersion)
    ensures
        version_of(v.text()) == Some(v),
{
    let a = decimal(v.major as nat);
    let b = decimal(v.minor as nat);
    let t = v.text();
    lemma_text_shape(v);
    lemma_find_char_at(t, '.', 0, a.len() as int);
    lemma_find_char_at(t, '.', a.len() as int + 1, t.len() as int);
    assert(t.subrange(0, a.len() as int) == a);
    assert(t.subrange(a.len() as int + 1, t.len() as int) == b);
    lemma_u8_decimal(v.major);
    lemma_u8_decimal(v.minor);
}

/// The exact constraint of a version admits that version and no other.
pub proof fn lemma_exact_admits_only(v: PhpVersion, w: PhpVersion)
    ensures
        exact_of(v).admits(w) <==> w == v,
{
}

/// Every single constraint that reads admits its own minimum, the version
/// `target` reports.
pub proof fn lemma_single_admits_minimum(s: Seq<char>)
    ensures
        single_outcome(s) matches Ok(Some(c)) ==> c.admits(c.min),
{
    reveal(single_outcome);
    match single_outcome(s) {
        Ok(Some(c)) => {
            lemma_exact_admits_only(c.min, c.min);
        },
        _ => {},
    }
}

/// Of the versions in `s`, the exact constraint of `v` resolves to `v` when
/// `s` holds it and to nothing otherwise: a wildcard such as `8.4.*` never
/// falls back to another version.
pub proof fn lemma_exact_resolves_only_itself(v: PhpVersion, s: Seq<PhpVersion>)
    ensures
        lowest_admitted(exact_of(v), s) == if s.contains(v) {
            Some(v)
        } else {
            None
        },
    decreases s.len(),
{
    if s.len() > 0 {
        let p = s.drop_last();
        lemma_exact_resolves_only_itself(v, p);
        if s.last() == v {
            assert(s.contains(v)) by {
                assert(s[s.len() - 1] == v);
            }
        } else if p.contains(v) {
            let k = choose|k: int| 0 <= k < p.len() && p[k] == v;
            assert(s[k] == v);
        } else {
            assert forall|k: int| 0 <= k < s.len() implies s[k] != v by {
                if k < s.len() - 1 {
                    assert(s[k] == p[k]);
                }
            }
        }
    }
}

/// A text made of digits and `.` holds no `|`, space, `*`, `~`, `^`, `>`.
proof fn lemma_text_has_no(v: PhpVersion, c: char)
    requires
        c != '.' && !is_digit(c),
    ensures
        !contains(v.text(), seq![c]),
        forall|i: int| 0 <= i < v.text().len() ==> v.text()[i] != c,
{
    lemma_text_shape(v);
    let t = v.text();
    assert forall|i: int| !matches_at(t, seq![c], i) by {
        if matches_at(t, seq![c], i) {
            assert(t.subrange(i, i + 1)[0] == t[i]);
            if i != decimal(v.major as nat).len() {
                assert(is_digit(t[i]));
            }
        }
    }
}

/// A plain version string reads as the exact constraint of that version.
pub proof fn lemma_plain_version_is_exact(v: PhpVersion)
    ensures
        constraint_outcome(v.text()) == Ok::<Option<VersionConstraint>, ()>(Some(exact_of(v))),
{
    let t = v.text();
    lemma_text_shape(v);
    lemma_text_has_no(v, '|');
    lemma_text_has_no(v, ' ');
    lemma_version_text_parses(v);
    reveal(single_outcome);
    assert(!ends_with(t, seq!['.', '*'])) by {
        if ends_with(t, seq!['.', '*']) {
            assert(t.subrange(t.len() - 2, t.len() as int)[1] == t[t.len() - 1]);
        }
    }
    assert(!starts_with(t, seq!['~'])) by {
        if starts_with(t, seq!['~']) {
            assert(t.subrange(0, 1)[0] == t[0]);
        }
    }
    assert(!starts_with(t, seq!['^'])) by {
        if starts_with(t, seq!['^']) {
            assert(t.subrange(0, 1)[0] == t[0]);
        }
    }
    assert(!starts_with(t, seq!['>'])) by {
        if starts_with(t, seq!['>']) {
            assert(t.subrange(0, 1)[0] == t[0]);
        }
    }
    assert(!starts_with(t, seq!['>', '='])) by {
        if starts_with(t, seq!['>', '=']) {
            assert(t.subrange(0, 2)[0] == t[0]);
        }
    }
}

/// A wildcard `X.Y.*` reads as the exact constraint of `X.Y`.
pub proof fn lemma_wildcard_is_exact(v: PhpVersion)
    ensures
        constraint_outcome(v.text() + seq!['.', '*']) == Ok::<Option<VersionConstraint>, ()>(
            Some(exact_of(v)),
        ),
{
    let t = v.text();
    let w = t + seq!['.', '*'];
    lemma_text_shape(v);
    lemma_text_has_no(v, '|');
    lemma_text_has_no(v, ' ');
    lemma_version_text_parses(v);
    reveal(single_outcome);
    lemma_trim_unchanged(w);
    assert(!contains(w, seq!['|'])) by {
        if contains(w, seq!['|']) {
            let i = choose|i: int| matches_at(w, seq!['|'], i);
            assert(w.subrange(i, i + 1)[0] == w[i]);
            if i < t.len() {
                assert(w[i] == t[i]);
            }
        }
    }
    assert(!contains(w, seq![' '])) by {
        if contains(w, seq![' ']) {
            let i = choose|i: int| matches_at(w, seq![' '], i);
            assert(w.subrange(i, i + 1)[0] == w[i]);
            if i < t.len() {
                assert(w[i] == t[i]);
            }
        }
    }
    assert(w.subrange(w.len() - 2, w.len() as int) == seq!['.', '*']);
    assert(w.subrange(0, w.len() - 2) == t);
    assert(!ends_with(t, seq!['.', '*'])) by {
        if ends_with(t, seq!['.', '*']) {
            assert(t.subrange(t.len() - 2, t.len() as int)[1] == t[t.len() - 1]);
        }
    }
    assert(strip_trailing(t, seq!['.', '*']) == t);
    assert(strip_trailing(w, seq!['.', '*']) == t);
}

proof fn lemma_or_fold_best(alts: Seq<Seq<char>>, n: int)
    requires
        0 <= n <= alts.len(),
        or_fold(alts, n) is Ok,
    ensures
        forall|k: int| 0 <= k < n ==> single_outcome(alts[k]) is Ok,
        or_fold(alts, n) == Ok::<Option<VersionConstraint>, ()>(None) <==> forall|k: int|
            0 <= k < n ==> single_outcome(alts[k]) == Ok::<Option<VersionConstraint>, ()>(None),
        or_fold(alts, n) matches Ok(Some(c)) ==> {
            &&& exists|k: int|
                0 <= k < n && single_outcome(alts[k]) == Ok::<Option<VersionConstraint>, ()>(
                    Some(c),
                )
            &&& forall|k: int|
                0 <= k < n ==> (#[trigger] single_outcome(alts[k]) matches Ok(Some(d)) ==> d.min.le(c.min))
        },
    decreases n,
{
    if n > 0 {
        lemma_or_fold_best(alts, n - 1);
        let r = or_fold(alts, n);
        if let Ok(Some(c)) = r {
            if single_outcome(alts[n - 1]) == Ok::<Option<VersionConstraint>, ()>(Some(c)) {
            } else {
                let k = choose|k: int|
                    0 <= k < n - 1 && single_outcome(alts[k]) == Ok::<Option<VersionConstraint>, ()>(
                        Some(c),
                    );
            }
        }
    }
}

/// A constraint with alternatives (`a || b`, or `a | b`) reads as the
/// alternative with the highest minimum version, and as nothing only when no
/// alternative reads as a constraint.
pub proof fn lemma_alternatives_keep_highest_minimum(s: Seq<char>)
    requires
        contains(trim(s), seq!['|']),
        !constraint_overflows(s),
    ensures
        constraint_outcome(s) == Ok::<Option<VersionConstraint>, ()>(None) <==> forall|k: int|
            0 <= k < alternatives(trim(s)).len() ==> single_outcome(alternatives(trim(s))[k])
                == Ok::<Option<VersionConstraint>, ()>(None),
        constraint_outcome(s) matches Ok(Some(c)) ==> {
            &&& exists|k: int|
                0 <= k < alternatives(trim(s)).len() && single_outcome(alternatives(trim(s))[k])
                    == Ok::<Option<VersionConstraint>, ()>(Some(c))
            &&& forall|k: int|
                0 <= k < alternatives(trim(s)).len() ==> (#[trigger] single_outcome(alternatives(trim(s))[k]) matches Ok(
                    Some(d),
                ) ==> d.min.le(c.min))
        },
{
    let alts = alternatives(trim(s));
    lemma_or_fold_best(alts, alts.len() as int);
}

/// Facts about `op + text` for an operator `op` of one or two characters
/// from `~ ^ > = <`.
proof fn lemma_operator_text(v: PhpVersion, op: Seq<char>)
    requires
        op == seq!['~'] || op == seq!['^'] || op == seq!['>'] || op == seq!['>', '='] || op
            == seq!['<'],
    ensures
        trim(op + v.text()) == op + v.text(),
        !contains(op + v.text(), seq!['|']),
        !contains(op + v.text(), seq![' ']),
        !ends_with(op + v.text(), seq!['.', '*']),
        strip_leading(op + v.text(), op) == v.text(),
        (op + v.text()).subrange(op.len() as int, (op + v.text()).len() as int) == v.text(),
        !has_patch(v.text()),
        version_of(v.text()) == Some(v),
{
    let t = v.text();
    let w = op + t;
    lemma_text_shape(v);
    lemma_version_text_parses(v);
    lemma_text_has_no(v, '|');
    lemma_text_has_no(v, ' ');
    assert(!is_space(w[0]));
    assert(w[w.len() - 1] == t[t.len() - 1]);
    lemma_trim_unchanged(w);
    assert forall|c: char| c == '|' || c == ' ' implies !contains(w, seq![c]) by {
        lemma_text_has_no(v, c);
        if contains(w, seq![c]) {
            let i = choose|i: int| matches_at(w, seq![c], i);
            assert(w.subrange(i, i + 1)[0] == w[i]);
            if i >= op.len() {
                assert(w[i] == t[i - op.len()]);
            }
        }
    }
    assert(!ends_with(w, seq!['.', '*'])) by {
        if ends_with(w, seq!['.', '*']) {
            assert(w.subrange(w.len() - 2, w.len() as int)[1] == w[w.len() - 1]);
        }
    }
    assert(w.subrange(op.len() as int, w.len() as int) == t);
    assert(starts_with(w, op)) by {
        assert(w.subrange(0, op.len() as int) == op);
    }
    assert(!starts_with(t, op)) by {
        if starts_with(t, op) {
            assert(t.subrange(0, op.len() as int)[0] == t[0]);
        }
    }
    assert(strip_leading(t, op) == t);
    let i = find_char(t, '.', 0);
    lemma_find_char_at(t, '.', 0, decimal(v.major as nat).len() as int);
    lemma_find_char_at(t, '.', i + 1, t.len() as int);
}

/// The constraint an operator and a version text read as is the one the
/// operator alone gives.
proof fn lemma_operator_outcome(v: PhpVersion, op: Seq<char>)
    requires
        op == seq!['~'] || op == seq!['^'] || op == seq!['>'] || op == seq!['>', '='],
    ensures
        constraint_outcome(op + v.text()) == single_outcome(op + v.text()),
{
    lemma_operator_text(v, op);
}

proof fn lemma_first_chars(t: Seq<char>, p: Seq<char>)
    ensures
        starts_with(t, p) <==> p.len() <= t.len() && forall|i: int| 0 <= i < p.len() ==> t[i] == p[i],
{
    if p.len() <= t.len() && forall|i: int| 0 <= i < p.len() ==> t[i] == p[i] {
        assert(t.subrange(0, p.len() as int) == p);
    }
    if starts_with(t, p) {
        assert forall|i: int| 0 <= i < p.len() implies t[i] == p[i] by {
            assert(t.subrange(0, p.len() as int)[i] == t[i]);
        }
    }
}

/// The bound `next_major` gives, admitted: the versions from `v` on with the
/// major number of `v`.
proof fn lemma_same_major_admits(v: PhpVersion, w: PhpVersion)
    requires
        v.major < 255,
    ensures
        bounded(v, next_major(v)) matches Ok(Some(c)) && (c.admits(w) <==> (v.le(w) && w.major
            == v.major)),
{
}

/// What an operator followed by a version text reads as.
pub open spec fn operator_reading(v: PhpVersion, op: Seq<char>) -> Result<Option<VersionConstraint>, ()> {
    if op == seq!['~'] {
        bounded(v, next_major(v))
    } else if op == seq!['^'] {
        if v.major == 0 {
            bounded(v, next_minor(v))
        } else {
            bounded(v, next_major(v))
        }
    } else if op == seq!['>', '='] {
        Ok(Some(VersionConstraint { min: v, max: None }))
    } else {
        match next_minor(v) {
            Ok(m) => Ok(Some(VersionConstraint { min: m, max: None })),
            Err(_) => Err(()),
        }
    }
}

#[verifier::rlimit(80)]
#[verifier::spinoff_prover]
proof fn lemma_single_operator(v: PhpVersion, op: Seq<char>)
    requires
        op == seq!['~'] || op == seq!['^'] || op == seq!['>'] || op == seq!['>', '='],
    ensures
        single_outcome(op + v.text()) == operator_reading(v, op),
{
    let t = op + v.text();
    lemma_text_shape(v);
    lemma_operator_text(v, op);
    lemma_first_chars(t, seq!['~']);
    lemma_first_chars(t, seq!['^']);
    lemma_first_chars(t, seq!['>', '=']);
    lemma_first_chars(t, seq!['>']);
    assert(t[0] == op[0]);
    assert(t.len() > 1 && t[1] == if op.len() == 2 { op[1] } else { v.text()[0] });
    reveal(single_outcome);
}

/// `^X.Y` with `0 < X < 255` admits the versions from `X.Y` on that keep
/// the major number `X`.
pub proof fn lemma_caret_same_major(v: PhpVersion, w: PhpVersion)
    requires
        0 < v.major < 255,
    ensures
        constraint_outcome(seq!['^'] + v.text()) matches Ok(Some(c)) && (c.admits(w) <==> (v.le(w)
            && w.major == v.major)),
{
    lemma_operator_outcome(v, seq!['^']);
    lemma_single_operator(v, seq!['^']);
    lemma_same_major_admits(v, w);
}

/// `^0.Y` with `Y < 255` admits `0.Y` alone.
pub proof fn lemma_caret_zero_major(v: PhpVersion, w: PhpVersion)
    requires
        v.major == 0,
        v.minor < 255,
    ensures
        constraint_outcome(seq!['^'] + v.text()) matches Ok(Some(c)) && (c.admits(w) <==> w == v),
{
    lemma_operator_outcome(v, seq!['^']);
    lemma_single_operator(v, seq!['^']);
}

/// `~X.Y` with `X < 255` admits the versions from `X.Y` on that keep the
/// major number `X`.
pub proof fn lemma_tilde_same_major(v: PhpVersion, w: PhpVersion)
    requires
        v.major < 255,
    ensures
        constraint_outcome(seq!['~'] + v.text()) matches Ok(Some(c)) && (c.admits(w) <==> (v.le(w)
            && w.major == v.major)),
{
    lemma_operator_outcome(v, seq!['~']);
    lemma_single_operator(v, seq!['~']);
    lemma_same_major_admits(v, w);
}

/// `>=X.Y` is open-ended: it admits every version from `X.Y` on.
pub proof fn lemma_at_least_open_ended(v: PhpVersion, w: PhpVersion)
    ensures
        constraint_outcome(seq!['>', '='] + v.text()) matches Ok(Some(c)) && (c.admits(w)
            <==> v.le(w)),
{
    lemma_operator_outcome(v, seq!['>', '=']);
    lemma_single_operator(v, seq!['>', '=']);
}

/// `>X.Y` with `Y < 255` admits the versions above `X.Y`.
pub proof fn lemma_above_open_ended(v: PhpVersion, w: PhpVersion)
    requires
        v.minor < 255,
    ensures
        constraint_outcome(seq!['>'] + v.text()) matches Ok(Some(c)) && (c.admits(w) <==> v.lt(w)),
{
    lemma_operator_outcome(v, seq!['>']);
    lemma_single_operator(v, seq!['>']);
}

/// The lower-bound operator of a range: `>=` (inclusive) or `>`.
pub open spec fn lower_op(inclusive: bool) -> Seq<char> {
    if inclusive {
        seq!['>', '=']
    } else {
        seq!['>']
    }
}

/// The upper-bound operator of a range: `<=` (inclusive) or `<`.
pub open spec fn upper_op(inclusive: bool) -> Seq<char> {
    if inclusive {
        seq!['<', '=']
    } else {
        seq!['<']
    }
}

/// The lower bound that `lower_op(inclusive)` and `v` set.
pub open spec fn range_low(v: PhpVersion, inclusive: bool) -> PhpVersion {
    if inclusive {
        v
    } else {
        PhpVersion { major: v.major, minor: (v.minor + 1) as u8 }
    }
}

/// The (exclusive) upper bound that `upper_op(inclusive)` and `w` set.
pub open spec fn range_high(w: PhpVersion, inclusive: bool) -> PhpVersion {
    if inclusive {
        PhpVersion { major: w.major, minor: (w.minor + 1) as u8 }
    } else {
        w
    }
}

/// `lower_op(il) + v + " " + upper_op(iu) + w` is one trimmed text without
/// `|`, with a space, made of the two words.
proof fn lemma_range_text(v: PhpVersion, w: PhpVersion, il: bool, iu: bool)
    ensures
        ({
            let s = lower_op(il) + v.text() + seq![' '] + upper_op(iu) + w.text();
            &&& trim(s) == s
            &&& !contains(s, seq!['|'])
            &&& contains(s, seq![' '])
            &&& words(s) == seq![lower_op(il) + v.text(), upper_op(iu) + w.text()]
        }),
{
    let a = lower_op(il) + v.text();
    let b = upper_op(iu) + w.text();
    let s = lower_op(il) + v.text() + seq![' '] + upper_op(iu) + w.text();
    let n = a.len() as int;
    let k = lower_op(il).len() as int;
    let l = upper_op(iu).len() as int;
    assert(s =~= a + seq![' '] + b);
    lemma_text_shape(v);
    lemma_text_shape(w);
    lemma_text_has_no(v, '|');
    lemma_text_has_no(w, '|');
    assert forall|i: int| 0 <= i < a.len() implies !is_space(#[trigger] a[i]) && a[i] != '|' by {
        if i >= k {
            assert(a[i] == v.text()[i - k]);
        }
    }
    assert forall|i: int| 0 <= i < b.len() implies !is_space(#[trigger] b[i]) && b[i] != '|' by {
        if i >= l {
            assert(b[i] == w.text()[i - l]);
        }
    }
    assert forall|i: int| 0 <= i < s.len() implies s[i] != '|' && (i != n ==> !is_space(s[i])) by {
        if i < n {
            assert(s[i] == a[i]);
        } else if i > n {
            assert(s[i] == b[i - n - 1]);
        }
    }
    lemma_trim_unchanged(s);
    assert(seq!['|'][0] == '|');
    lemma_lacks_char(s, seq!['|'], '|');
    assert(s.subrange(n, n + 1) =~= seq![' ']);
    lemma_found_at(s, seq![' '], n);
    lemma_two_words(a, b);
}

/// The first word of a range sets the lower bound.
proof fn lemma_lower_step(v: PhpVersion, il: bool)
    requires
        !il ==> v.minor < 255,
    ensures
        and_step((None, None), lower_op(il) + v.text()) == Ok::<
            (Option<PhpVersion>, Option<PhpVersion>),
            (),
        >((Some(range_low(v, il)), None)),
{
    let a = lower_op(il) + v.text();
    let k = lower_op(il).len() as int;
    lemma_operator_text(v, lower_op(il));
    lemma_text_shape(v);
    assert(a[k] == v.text()[0]);
    lemma_first_chars(a, seq!['>', '=']);
    lemma_first_chars(a, seq!['>']);
}

/// The second word of a range sets the upper bound.
proof fn lemma_upper_step(w: PhpVersion, iu: bool, lo: PhpVersion)
    requires
        iu ==> w.minor < 255,
    ensures
        and_step((Some(lo), None), upper_op(iu) + w.text()) == Ok::<
            (Option<PhpVersion>, Option<PhpVersion>),
            (),
        >((Some(lo), Some(range_high(w, iu)))),
{
    let b = upper_op(iu) + w.text();
    let l = upper_op(iu).len() as int;
    lemma_text_shape(w);
    lemma_version_text_parses(w);
    assert(b[0] == '<');
    assert(b[l] == w.text()[0]);
    lemma_first_chars(b, seq!['>', '=']);
    lemma_first_chars(b, seq!['>']);
    lemma_first_chars(b, seq!['<', '=']);
    lemma_first_chars(b, seq!['<']);
    assert(b.subrange(l, b.len() as int) =~= w.text());
    assert(!starts_with(w.text(), upper_op(iu))) by {
        lemma_first_chars(w.text(), upper_op(iu));
    }
    assert(starts_with(b, upper_op(iu))) by {
        assert(b.subrange(0, l) =~= upper_op(iu));
    }
    assert(strip_leading(w.text(), upper_op(iu)) == w.text());
    assert(strip_leading(b, upper_op(iu)) == w.text());
}

/// What a space-separated range `>=X.Y <V.W` (or with `>` / `<=`) reads as:
/// the range from `range_low` below `range_high`.
pub proof fn lemma_and_range_outcome(
    v: PhpVersion,
    w: PhpVersion,
    inclusive_lower: bool,
    inclusive_upper: bool,
)
    requires
        !inclusive_lower ==> v.minor < 255,
        inclusive_upper ==> w.minor < 255,
    ensures
        constraint_outcome(
            lower_op(inclusive_lower) + v.text() + seq![' '] + upper_op(inclusive_upper) + w.text(),
        ) == Ok::<Option<VersionConstraint>, ()>(
            Some(
                VersionConstraint {
                    min: range_low(v, inclusive_lower),
                    max: Some(range_high(w, inclusive_upper)),
                },
            ),
        ),
{
    let a = lower_op(inclusive_lower) + v.text();
    let b = upper_op(inclusive_upper) + w.text();
    lemma_range_text(v, w, inclusive_lower, inclusive_upper);
    lemma_lower_step(v, inclusive_lower);
    lemma_upper_step(w, inclusive_upper, range_low(v, inclusive_lower));
    let ws = seq![a, b];
    assert(ws[0] == a);
    assert(ws[1] == b);
    let lo = range_low(v, inclusive_lower);
    assert(and_fold(ws, 0) == Ok::<(Option<PhpVersion>, Option<PhpVersion>), ()>((None, None)));
    assert(and_fold(ws, 1) == Ok::<(Option<PhpVersion>, Option<PhpVersion>), ()>(
        (Some(lo), None),
    ));
    assert(and_fold(ws, 2) == Ok::<(Option<PhpVersion>, Option<PhpVersion>), ()>(
        (Some(lo), Some(range_high(w, inclusive_upper))),
    ));
}

/// A space-separated range `>=X.Y <V.W` (or with `>` / `<=`) admits exactly
/// the versions `u` within its two bounds: from `X.Y` (`>=`) or above it
/// (`>`), up to and including `V.W` (`<=`) or below it (`<`).
pub proof fn lemma_and_range(
    v: PhpVersion,
    w: PhpVersion,
    inclusive_lower: bool,
    inclusive_upper: bool,
    u: PhpVersion,
)
    requires
        !inclusive_lower ==> v.minor < 255,
        inclusive_upper ==> w.minor < 255,
    ensures
        constraint_outcome(
            lower_op(inclusive_lower) + v.text() + seq![' '] + upper_op(inclusive_upper) + w.text(),
        ) matches Ok(Some(c)) && (c.admits(u) <==> (if inclusive_lower {
            v.le(u)
        } else {
            v.lt(u)
        }) && (if inclusive_upper {
            u.le(w)
        } else {
            u.lt(w)
        })),
{
    lemma_and_range_outcome(v, w, inclusive_lower, inclusive_upper);
}

/// In a space-separated constraint, `>X.Y` is an exclusive lower bound:
/// `>X.Y <V.W` admits the versions from the next minor version `X.Y+1` up to
/// `V.W`, and never `X.Y` itself.
pub proof fn lemma_and_exclusive_lower_bound(v: PhpVersion, w: PhpVersion)
    requires
        v.minor < 255,
    ensures
        constraint_outcome(seq!['>'] + v.text() + seq![' ', '<'] + w.text())
            == Ok::<Option<VersionConstraint>, ()>(
            Some(
                VersionConstraint {
                    min: PhpVersion { major: v.major, minor: (v.minor + 1) as u8 },
                    max: Some(w),
                },
            ),
        ),
        constraint_outcome(seq!['>'] + v.text() + seq![' ', '<'] + w.text()) matches Ok(Some(c))
            && !c.admits(v),
{
    lemma_and_range_outcome(v, w, false, false);
    assert(seq!['>'] + v.text() + seq![' ', '<'] + w.text() =~= lower_op(false) + v.text()
        + seq![' '] + upper_op(false) + w.text());
}

/// Two texts without white space, joined by one space, are two words.
proof fn lemma_two_words(a: Seq<char>, b: Seq<char>)
    requires
        a.len() > 0,
        b.len() > 0,
        forall|i: int| 0 <= i < a.len() ==> !is_space(#[trigger] a[i]),
        forall|i: int| 0 <= i < b.len() ==> !is_space(#[trigger] b[i]),
    ensures
        words(a + seq![' '] + b) == seq![a, b],
{
    let s = a + seq![' '] + b;
    let n = a.len() as int;
    assert forall|i: int| 0 <= i < s.len() && i != n implies !is_space(#[trigger] s[i]) by {
        if i < n {
            assert(s[i] == a[i]);
        } else {
            assert(s[i] == b[i - n - 1]);
        }
    }
    assert(is_space(s[n]));
    lemma_find_space_bounds(s, 0);
    lemma_find_space_bounds(s, n + 1);
    assert(find_space(s, 0) == n);
    assert(find_space(s, n + 1) == s.len());
    assert(skip_space(s, 0) == 0);
    assert(skip_space(s, n + 1) == n + 1);
    assert(skip_space(s, n) == n + 1);
    assert(skip_space(s, s.len() as int) == s.len());
    assert(words_from(s, s.len() as int) == Seq::<Seq<char>>::empty());
    assert(words_from(s, n) == seq![s.subrange(n + 1, s.len() as int)] + words_from(
        s,
        s.len() as int,
    ));
    assert(words(s) == seq![s.subrange(0, n)] + words_from(s, n));
    assert(s.subrange(0, n) =~= a);
    assert(s.subrange(n + 1, s.len() as int) =~= b);
}

/// `X.Y.Z`: a version text followed by a patch number.
proof fn lemma_patch_text(v: PhpVersion, p: nat)
    ensures
        ({
            let u = v.text() + seq!['.'] + decimal(p);
            &&& forall|i: int| 0 <= i < u.len() ==> (is_digit(#[trigger] u[i]) || u[i] == '.')
            &&& is_digit(u[0])
            &&& is_digit(u[u.len() - 1])
            &&& trim(u) == u
            &&& version_of(u) == Some(v)
            &&& has_patch(u)
        }),
{
    let t = v.text();
    let d = decimal(p);
    let u = t + seq!['.'] + d;
    let a = decimal(v.major as nat).len() as int;
    let n = t.len() as int;
    lemma_text_shape(v);
    lemma_decimal_plain(p);
    lemma_decimal_digits(p);
    assert forall|i: int| 0 <= i < u.len() implies (is_digit(#[trigger] u[i]) || u[i] == '.') by {
        if i < n {
            assert(u[i] == t[i]);
        } else if i > n {
            assert(u[i] == d[i - n - 1]);
        }
    }
    assert(u[0] == t[0]);
    assert(u[u.len() - 1] == d[d.len() - 1]);
    assert(!is_space(u[0]));
    assert(!is_space(u[u.len() - 1]));
    lemma_trim_unchanged(u);
    assert forall|j: int| 0 <= j < a implies u[j] != '.' by {
        assert(u[j] == t[j]);
    }
    assert forall|j: int| a + 1 <= j < n implies u[j] != '.' by {
        assert(u[j] == t[j]);
    }
    assert(u[a] == t[a]);
    lemma_find_char_at(u, '.', 0, a);
    lemma_find_char_at(u, '.', a + 1, n);
    assert(u.subrange(0, a) =~= decimal(v.major as nat));
    assert(u.subrange(a + 1, n) =~= decimal(v.minor as nat));
    lemma_u8_decimal(v.major);
    lemma_u8_decimal(v.minor);
}

/// `~X.Y.Z`, a tilde with a patch number, admits the minor version `X.Y`
/// alone: it reads as the exact constraint of `X.Y`.
#[verifier::rlimit(40)]
pub proof fn lemma_tilde_patch_is_exact(v: PhpVersion, p: nat)
    ensures
        constraint_outcome(seq!['~'] + v.text() + seq!['.'] + decimal(p))
            == Ok::<Option<VersionConstraint>, ()>(Some(exact_of(v))),
{
    let u = v.text() + seq!['.'] + decimal(p);
    let t = seq!['~'] + v.text() + seq!['.'] + decimal(p);
    assert(t =~= seq!['~'] + u);
    lemma_patch_text(v, p);
    assert forall|i: int| 0 <= i < t.len() implies t[i] != '|' && t[i] != ' ' && (i > 0 ==> t[i]
        == u[i - 1]) by {
        if i > 0 {
            assert(t[i] == u[i - 1]);
        }
    }
    assert(t[t.len() - 1] == u[u.len() - 1]);
    lemma_trim_unchanged(t);
    assert(seq!['|'][0] == '|');
    assert(seq![' '][0] == ' ');
    lemma_lacks_char(t, seq!['|'], '|');
    lemma_lacks_char(t, seq![' '], ' ');
    assert(!ends_with(t, seq!['.', '*'])) by {
        if ends_with(t, seq!['.', '*']) {
            assert(t.subrange(t.len() - 2, t.len() as int)[1] == t[t.len() - 1]);
        }
    }
    assert(starts_with(t, seq!['~'])) by {
        assert(t.subrange(0, 1) =~= seq!['~']);
    }
    assert(t.subrange(1, t.len() as int) =~= u);
    assert(!starts_with(u, seq!['~'])) by {
        if starts_with(u, seq!['~']) {
            assert(u.subrange(0, 1)[0] == u[0]);
        }
    }
    assert(strip_leading(u, seq!['~']) == u);
    assert(strip_leading(t, seq!['~']) == u);
    reveal(single_outcome);
}

/// A trimmed text with a space in it has a first word.
proof fn lemma_words_nonempty(t: Seq<char>)
    requires
        trim(t) == t,
        contains(t, seq![' ']),
    ensures
        words(t).len() > 0,
{
    let k = choose|k: int| matches_at(t, seq![' '], k);
    assert(t.subrange(k, k + 1)[0] == ' ');
    assert(t.len() > 0);
    lemma_skip_space_bounds(t, 0);
    lemma_back_space_bounds(t, t.len() as int);
    let a = skip_space(t, 0);
    let b = back_space(t, t.len() as int);
    if a >= b {
        assert(trim(t).len() == 0);
    }
    assert(trim(t).len() == b - a);
    assert(a == 0);
    assert(words(t) == seq![t.subrange(0, find_space(t, 0))] + words_from(t, find_space(t, 0)));
}

} // verus!
