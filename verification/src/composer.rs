//! The version a project asks for: its `.php-version` file, or the
//! `require.php` constraint of its `composer.json`.

use vstd::prelude::*;
use crate::json::{Json, field_of, find_field, json_of, parse_json};
use crate::version::{ConstraintOverflow, VersionConstraint, constraint_outcome};

verus! {

/// The `require.php` text of a `composer.json` document.
pub open spec fn require_php_of(j: Json) -> Option<Seq<char>> {
    match j {
        Json::Object(f) => match field_of(f@, "require"@, 0) {
            Some(Json::Object(g)) => match field_of(g@, "php"@, 0) {
                Some(Json::Str(s)) => Some(s@),
                _ => None,
            },
            _ => None,
        },
        _ => None,
    }
}

/// The `require.php` constraint text of a `composer.json` document.
pub fn require_php(j: &Json) -> (r: Option<String>)
    ensures
        match r {
            Some(s) => require_php_of(*j) == Some(s@),
            None => require_php_of(*j) is None,
        },
{
    proof {
        reveal_strlit("require");
        reveal_strlit("php");
    }
    match j {
        Json::Object(f) => match find_field(f, "require") {
            Some(k) => match &f[k].1 {
                Json::Object(g) => match find_field(g, "php") {
                    Some(m) => match &g[m].1 {
                        Json::Str(s) => Some(s.clone()),
                        _ => None,
                    },
                    None => None,
                },
                _ => None,
            },
            None => None,
        },
        _ => None,
    }
}

/// What `composer.json` (its bytes) asks for: the reading of its
/// `require.php` constraint; nothing when it is not JSON or has none.
pub open spec fn composer_outcome(composer: Option<Seq<u8>>) -> Result<Option<VersionConstraint>, ()> {
    match composer {
        Some(b) => match json_of(b) {
            Some(j) => match require_php_of(j) {
                Some(s) => constraint_outcome(s),
                None => Ok(None),
            },
            None => Ok(None),
        },
        None => Ok(None),
    }
}

/// What a directory asks for: its `.php-version` file when that reads as a
/// constraint (it takes priority), else its `composer.json`. An overflowing
/// bound in either is reported.
pub open spec fn directory_outcome(
    php_version: Option<Seq<char>>,
    composer: Option<Seq<u8>>,
) -> Result<Option<VersionConstraint>, ()> {
    match php_version {
        Some(t) => match constraint_outcome(t) {
            Ok(Some(c)) => Ok(Some(c)),
            Ok(None) => composer_outcome(composer),
            Err(()) => Err(()),
        },
        None => composer_outcome(composer),
    }
}

/// `.php-version` takes priority: whenever its text reads as a constraint,
/// that constraint is the directory's answer, whatever `composer.json` holds
/// or whether there is one.
pub proof fn lemma_php_version_takes_priority(
    t: Seq<char>,
    composer: Option<Seq<u8>>,
    c: VersionConstraint,
)
    requires
        constraint_outcome(t) == Ok::<Option<VersionConstraint>, ()>(Some(c)),
    ensures
        directory_outcome(Some(t), composer) == Ok::<Option<VersionConstraint>, ()>(Some(c)),
{
}

/// Without a `.php-version` file, or with one that reads as no constraint,
/// the directory's answer is what `composer.json` asks for.
pub proof fn lemma_composer_when_no_php_version(
    php_version: Option<Seq<char>>,
    composer: Option<Seq<u8>>,
)
    requires
        php_version matches Some(t) ==> constraint_outcome(t) == Ok::<
            Option<VersionConstraint>,
            (),
        >(None),
    ensures
        directory_outcome(php_version, composer) == composer_outcome(composer),
{
}

/// The constraint of `composer.json` content.
pub fn composer_constraint(composer_json: &[u8]) -> (r: Result<Option<VersionConstraint>, ConstraintOverflow>)
    ensures
        match composer_outcome(Some(composer_json@)) {
            Ok(c) => r == Ok::<Option<VersionConstraint>, ConstraintOverflow>(c),
            Err(_) => r is Err,
        },
{
    match parse_json(composer_json) {
        Some(j) => match require_php(&j) {
            Some(s) => VersionConstraint::try_from_constraint(s.as_str()),
            None => Ok(None),
        },
        None => Ok(None),
    }
}

/// The constraint a directory gives, from the content of its `.php-version`
/// file and of its `composer.json` (`None` where the file is missing).
pub fn directory_constraint(php_version: Option<&str>, composer_json: Option<&[u8]>) -> (r: Result<
    Option<VersionConstraint>,
    ConstraintOverflow,
>)
    ensures
        match directory_outcome(
            match php_version {
                Some(t) => Some(t@),
                None => None,
            },
            match composer_json {
                Some(b) => Some(b@),
                None => None,
            },
        ) {
            Ok(c) => r == Ok::<Option<VersionConstraint>, ConstraintOverflow>(c),
            Err(_) => r is Err,
        },
{
    match php_version {
        Some(t) => match VersionConstraint::try_from_constraint(t) {
            Ok(Some(c)) => {
                return Ok(Some(c));
            },
            Ok(None) => {},
            Err(e) => {
                return Err(e);
            },
        },
        None => {},
    }
    match composer_json {
        Some(b) => composer_constraint(b),
        None => Ok(None),
    }
}

} // verus!
