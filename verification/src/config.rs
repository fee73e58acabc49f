//! The stored default version: the file it lives in and what it holds.

use vstd::prelude::*;
use vstd::string::StringExecFns;
use crate::error::PhmError;
use crate::paths::{join, path_join};
pub use crate::paths::{config_dir, managed_php_dir};
use crate::text::{lemma_trim_newline, is_space, skip_space, back_space, trim, trimmed_nonempty, trimmed_nonempty_exec};
use crate::version::{PhpVersion, version_of, lemma_text_shape, lemma_version_text_parses};

verus! {

/// The file that holds the default version, `default` in the configuration
/// directory.
pub fn default_file() -> (r: Result<String, PhmError>)
    ensures
        r matches Err(e) ==> e == PhmError::NoHomeDirectory,
        r matches Ok(p) ==> exists|h: Seq<char>| h.len() > 0 && p@ == join(join(h, ".phm"@), "default"@),
{
    let dir = config_dir()?;
    proof {
        reveal_strlit("default");
    }
    Ok(path_join(dir.as_str(), "default"))
}

/// What `phm default` writes: the version and a newline.
pub open spec fn default_file_text(version: Seq<char>) -> Seq<char> {
    version + "\n"@
}

/// The content of the default file for `version`.
pub fn default_file_content(version: &str) -> (r: String)
    ensures
        r@ == default_file_text(version@),
{
    let mut r = String::from_str(version);
    r.append("\n");
    r
}

/// The default version a default file holds: its content trimmed, nothing
/// when that is empty.
pub fn default_from_content(content: &str) -> (r: Option<String>)
    ensures
        r matches Some(s) ==> trimmed_nonempty(content@) == Some(s@),
        r is None ==> trimmed_nonempty(content@) is None,
{
    trimmed_nonempty_exec(content)
}

/// A text with no white space at its ends, followed by a newline, trims back
/// to itself.
pub proof fn lemma_trim_line(t: Seq<char>)
    requires
        t.len() > 0,
        !is_space(t[0]),
        !is_space(t[t.len() - 1]),
    ensures
        trim(t + "\n"@) == t,
{
    reveal_strlit("\n");
    let s = t + "\n"@;
    assert(s.len() == t.len() + 1);
    assert(is_space(s[t.len() as int]));
    assert(skip_space(s, 0) == 0);
    assert(back_space(s, t.len() as int) == t.len());
    assert(back_space(s, s.len() as int) == t.len());
    assert(s.subrange(0, t.len() as int) =~= t);
}

/// Reading back a default file gives the written text, trimmed, for any
/// text: nothing when it is empty or white space only.
pub proof fn lemma_default_round_trip(t: Seq<char>)
    ensures
        trimmed_nonempty(default_file_text(t)) == trimmed_nonempty(t),
{
    reveal_strlit("\n");
    assert("\n"@ == seq!['\n']);
    lemma_trim_newline(t);
}

/// The default file written for a version reads back as that version's text,
/// which parses to the version again.
pub proof fn lemma_default_version_round_trip(v: PhpVersion)
    ensures
        trimmed_nonempty(default_file_text(v.text())) == Some(v.text()),
        version_of(v.text()) == Some(v),
{
    lemma_text_shape(v);
    lemma_default_round_trip(v.text());
    crate::text::lemma_trim_unchanged(v.text());
    lemma_version_text_parses(v);
}

} // verus!
