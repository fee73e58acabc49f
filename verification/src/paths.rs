//! Paths as text, and the directories phm keeps its state in.

use vstd::prelude::*;
use vstd::string::StringExecFns;
use crate::error::PhmError;
use crate::text::{chars_of, push_char, eq_exec, split, split_exec, views};

verus! {

/// `Path::join` with a relative path `rel`: a `/` goes between the two unless
/// `base` is empty or already ends with `/`.
pub open spec fn join(base: Seq<char>, rel: Seq<char>) -> Seq<char> {
    if base.len() == 0 || base.last() == '/' {
        base + rel
    } else {
        base + seq!['/'] + rel
    }
}

/// `base.join(rel)` for a relative `rel`.
pub fn path_join(base: &str, rel: &str) -> (r: String)
    requires
        rel@.len() == 0 || rel@[0] != '/',
    ensures
        r@ == join(base@, rel@),
{
    let b = chars_of(base);
    let mut r = String::from_str(base);
    if b.len() > 0 && b[b.len() - 1] != '/' {
        push_char(&mut r, '/');
    }
    r.append(rel);
    r
}

/// The user's home directory, as `dirs::home_dir` finds it (from `$HOME`, or
/// the password database; both are passed over when empty); `None` when it
/// cannot be determined. Which directory comes back depends on the
/// environment, so only that it is not empty is promised.
#[verifier::external_body]
fn home_dir() -> (r: Option<String>)
    ensures
        r matches Some(h) ==> h@.len() > 0,
{
    dirs::home_dir().map(|p| p.to_string_lossy().into_owned())
}

/// The directory for user data, as `dirs::data_local_dir` finds it (an
/// absolute `$XDG_DATA_HOME`, or `$HOME/.local/share` on Linux); `None` when
/// it cannot be determined. Which directory comes back depends on the
/// environment, so only that it is not empty is promised.
#[verifier::external_body]
fn data_local_dir() -> (r: Option<String>)
    ensures
        r matches Some(d) ==> d@.len() > 0,
{
    dirs::data_local_dir().map(|p| p.to_string_lossy().into_owned())
}

/// `home` joined with `rel` (as `Path::join` does), or the missing-home error.
pub open spec fn under_home(home: Option<Seq<char>>, rel: Seq<char>) -> Result<Seq<char>, PhmError> {
    match home {
        Some(h) => Ok(push_path(h, rel)),
        None => Err(PhmError::NoHomeDirectory),
    }
}

/// The path `rel` below the home directory `home` (`None`: it could not be
/// determined).
pub fn under_home_exec(home: Option<&str>, rel: &str) -> (r: Result<String, PhmError>)
    ensures
        match under_home(crate::text::opt_view(home), rel@) {
            Ok(p) => r matches Ok(s) && s@ == p,
            Err(e) => r == Err::<String, PhmError>(e),
        },
{
    match home {
        Some(h) => Ok(path_push(h, rel)),
        None => Err(PhmError::NoHomeDirectory),
    }
}

/// A directory below the home directory, as `dirs::home_dir` finds it.
pub fn home_join(rel: &str) -> (r: Result<String, PhmError>)
    ensures
        r matches Err(e) ==> e == PhmError::NoHomeDirectory,
        r matches Ok(p) ==> exists|h: Seq<char>| h.len() > 0 && under_home(Some(h), rel@) == Ok::<Seq<char>, PhmError>(p@),
{
    match home_dir() {
        Some(h) => {
            let r = under_home_exec(Some(h.as_str()), rel);
            assert(under_home(Some(h@), rel@) == Ok::<Seq<char>, PhmError>(r.unwrap()@));
            r
        },
        None => under_home_exec(None, rel),
    }
}

/// The phm configuration directory, `~/.phm`.
pub fn config_dir() -> (r: Result<String, PhmError>)
    ensures
        r matches Err(e) ==> e == PhmError::NoHomeDirectory,
        r matches Ok(p) ==> exists|h: Seq<char>| h.len() > 0 && p@ == join(h, ".phm"@),
{
    proof {
        reveal_strlit(".phm");
    }
    home_join(".phm")
}

/// Where phm keeps the PHP versions it downloads: `phm/php-versions` under the
/// user data directory.
pub fn managed_php_dir() -> (r: Result<String, PhmError>)
    ensures
        r matches Err(e) ==> e == PhmError::NoDataDirectory,
        r matches Ok(p) ==> exists|d: String| d@.len() > 0 && p@ == join(d@, "phm/php-versions"@),
{
    match data_local_dir() {
        Some(d) => {
            proof {
                reveal_strlit("phm/php-versions");
            }
            Ok(path_join(d.as_str(), "phm/php-versions"))
        },
        None => Err(PhmError::NoDataDirectory),
    }
}

/// The base directory of the per-shell directories.
pub fn multishell_base() -> (r: Result<String, PhmError>)
    ensures
        r matches Err(e) ==> e == PhmError::NoHomeDirectory,
        r matches Ok(p) ==> exists|h: Seq<char>| h.len() > 0 && p@ == join(h, ".local/state/phm/multishells"@),
{
    proof {
        reveal_strlit(".local/state/phm/multishells");
    }
    home_join(".local/state/phm/multishells")
}

/// The stable alias directory, the same for every shell.
pub fn default_alias_path() -> (r: Result<String, PhmError>)
    ensures
        r matches Err(e) ==> e == PhmError::NoHomeDirectory,
        r matches Ok(p) ==> exists|h: Seq<char>| h.len() > 0 && p@ == join(h, ".local/state/phm/aliases/default"@),
{
    proof {
        reveal_strlit(".local/state/phm/aliases/default");
    }
    home_join(".local/state/phm/aliases/default")
}

/// The shim directory.
pub fn shim_dir() -> (r: Result<String, PhmError>)
    ensures
        r matches Err(e) ==> e == PhmError::NoHomeDirectory,
        r matches Ok(p) ==> exists|h: Seq<char>| h.len() > 0 && p@ == join(h, ".local/state/phm/shims"@),
{
    proof {
        reveal_strlit(".local/state/phm/shims");
    }
    home_join(".local/state/phm/shims")
}

/// The directory the shims live in, `bin` below the shim directory.
pub fn shim_bin_dir() -> (r: Result<String, PhmError>)
    ensures
        r matches Err(e) ==> e == PhmError::NoHomeDirectory,
        r matches Ok(p) ==> exists|h: Seq<char>| h.len() > 0 && p@ == join(join(h, ".local/state/phm/shims"@), "bin"@),
{
    let d = shim_dir()?;
    proof {
        reveal_strlit("bin");
    }
    Ok(path_join(d.as_str(), "bin"))
}


/// The path starts at the root.
pub open spec fn is_rooted(s: Seq<char>) -> bool {
    s.len() > 0 && s[0] == '/'
}

/// The `i`-th `/`-separated part is a component: it is not empty, and it is
/// not `.` unless it starts the path.
pub open spec fn keeps_part(parts: Seq<Seq<char>>, i: int) -> bool {
    parts[i].len() > 0 && (parts[i] != seq!['.'] || i == 0)
}

pub open spec fn components_from(parts: Seq<Seq<char>>, i: int) -> Seq<Seq<char>>
    decreases parts.len() - i,
{
    if i < 0 || i >= parts.len() {
        Seq::empty()
    } else if keeps_part(parts, i) {
        seq![parts[i]] + components_from(parts, i + 1)
    } else {
        components_from(parts, i + 1)
    }
}

/// `Path::components` without the root: repeated and trailing `/` and inner
/// `.` parts do not count.
pub open spec fn components(s: Seq<char>) -> Seq<Seq<char>> {
    components_from(split(s, seq!['/']), 0)
}

/// `Path` equality: the same root and the same components.
pub open spec fn same_path(a: Seq<char>, b: Seq<char>) -> bool {
    is_rooted(a) == is_rooted(b) && components(a) == components(b)
}

pub fn components_exec<'a>(s: &'a [char]) -> (r: Vec<&'a [char]>)
    ensures
        views(r@) == components(s@),
{
    let slash = ['/'];
    assert(slash@ == seq!['/']);
    let parts = split_exec(s, slash.as_slice());
    let ghost ps = views(parts@);
    let n = parts.len();
    let mut r: Vec<&'a [char]> = Vec::new();
    let dot = ['.'];
    assert(dot@ == seq!['.']);
    for i in 0..n
        invariant
            n == parts@.len(),
            ps == views(parts@),
            dot@ == seq!['.'],
            views(r@) + components_from(ps, i as int) == components_from(ps, 0),
    {
        let ghost before = r@;
        let part = parts[i];
        assert(ps[i as int] == part@);
        if part.len() > 0 && (!eq_exec(part, dot.as_slice()) || i == 0) {
            r.push(part);
            assert(views(r@) == views(before).push(part@));
            assert(views(before).push(part@) + components_from(ps, i + 1) == views(before) + (
            seq![part@] + components_from(ps, i + 1)));
        }
    }
    r
}

fn texts_equal(a: &Vec<&[char]>, b: &Vec<&[char]>) -> (r: bool)
    ensures
        r == (views(a@) == views(b@)),
{
    if a.len() != b.len() {
        assert(views(a@).len() != views(b@).len());
        return false;
    }
    let n = a.len();
    for i in 0..n
        invariant
            n == a@.len(),
            n == b@.len(),
            forall|k: int| 0 <= k < i ==> views(a@)[k] == views(b@)[k],
    {
        if !eq_exec(a[i], b[i]) {
            assert(views(a@)[i as int] != views(b@)[i as int]);
            return false;
        }
    }
    assert(views(a@) == views(b@));
    true
}

/// Whether `a` and `b` name the same path, as `Path`'s `==` decides.
pub fn same_path_exec(a: &str, b: &str) -> (r: bool)
    ensures
        r == same_path(a@, b@),
{
    let ac = chars_of(a);
    let bc = chars_of(b);
    let ra = ac.len() > 0 && ac[0] == '/';
    let rb = bc.len() > 0 && bc[0] == '/';
    if ra != rb {
        return false;
    }
    let ca = components_exec(ac.as_slice());
    let cb = components_exec(bc.as_slice());
    texts_equal(&ca, &cb)
}


/// `Path::join` with any `p`: an absolute `p` replaces `base`.
pub open spec fn push_path(base: Seq<char>, p: Seq<char>) -> Seq<char> {
    if is_rooted(p) {
        p
    } else {
        join(base, p)
    }
}

pub fn path_push(base: &str, p: &str) -> (r: String)
    ensures
        r@ == push_path(base@, p@),
{
    let pc = chars_of(p);
    if pc.len() > 0 && pc[0] == '/' {
        String::from_str(p)
    } else {
        path_join(base, p)
    }
}

/// `Path::file_name`: the last component, unless it is `.` or `..` (or there
/// is none).
pub open spec fn file_name_of(p: Seq<char>) -> Option<Seq<char>> {
    let c = components(p);
    if c.len() > 0 && c.last() != seq!['.'] && c.last() != seq!['.', '.'] {
        Some(c.last())
    } else {
        None
    }
}

pub fn file_name_exec(p: &str) -> (r: Option<String>)
    ensures
        r matches Some(n) ==> file_name_of(p@) == Some(n@),
        r is None ==> file_name_of(p@) is None,
{
    let c = chars_of(p);
    let comps = components_exec(c.as_slice());
    let dot = ['.'];
    let dots = ['.', '.'];
    assert(dot@ == seq!['.']);
    assert(dots@ == seq!['.', '.']);
    if comps.len() > 0 {
        let last = comps[comps.len() - 1];
        assert(views(comps@).last() == last@);
        if !eq_exec(last, dot.as_slice()) && !eq_exec(last, dots.as_slice()) {
            return Some(crate::text::string_of(last));
        }
    }
    None
}

/// `Path::starts_with`: `base`'s root and components begin `p`.
pub open spec fn path_starts_with(p: Seq<char>, base: Seq<char>) -> bool {
    is_rooted(p) == is_rooted(base) && components(base).len() <= components(p).len()
        && components(p).subrange(0, components(base).len() as int) == components(base)
}

pub fn path_starts_with_exec(p: &str, base: &str) -> (r: bool)
    ensures
        r == path_starts_with(p@, base@),
{
    let pc = chars_of(p);
    let bc = chars_of(base);
    let rp = pc.len() > 0 && pc[0] == '/';
    let rb = bc.len() > 0 && bc[0] == '/';
    if rp != rb {
        return false;
    }
    let cp = components_exec(pc.as_slice());
    let cb = components_exec(bc.as_slice());
    if cb.len() > cp.len() {
        return false;
    }
    let n = cb.len();
    for i in 0..n
        invariant
            n == cb@.len(),
            n <= cp@.len(),
            views(cp@) == components(p@),
            views(cb@) == components(base@),
            is_rooted(p@) == is_rooted(base@),
            forall|k: int| 0 <= k < i ==> views(cp@)[k] == views(cb@)[k],
    {
        if !eq_exec(cp[i], cb[i]) {
            assert(views(cp@)[i as int] != views(cb@)[i as int]);
            assert(views(cp@).subrange(0, n as int)[i as int] == views(cp@)[i as int]);
            assert(views(cp@).subrange(0, n as int) != views(cb@));
            return false;
        }
    }
    assert(views(cp@).subrange(0, n as int) == views(cb@));
    true
}

} // verus!
