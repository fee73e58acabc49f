//! Per-shell directories: their names, and the links they hold to the
//! binaries of the active PHP version.

use vstd::prelude::*;
use vstd::string::StringExecFns;
use crate::discover::PhpInstallation;
use crate::error::PhmError;
use crate::number::{decimal, i32_of, lemma_decimal_digits, parse_i32, push_decimal};
use crate::paths::{join, path_join};
pub use crate::paths::{default_alias_path, multishell_base};
use crate::text::{chars_of, eq_exec, find_char, find_char_exec, lemma_find_char_at, push_char, trimmed_nonempty, trimmed_nonempty_exec};

verus! {

/// The binaries a PHP installation may provide, in the order they are linked.
pub open spec fn php_binary_names() -> Seq<Seq<char>> {
    seq![
        "php"@,
        "php-cgi"@,
        "php-config"@,
        "phpize"@,
        "phpdbg"@,
        "phar"@,
        "phar.phar"@,
        "pecl"@,
        "pear"@,
    ]
}

/// The binaries a PHP installation may provide.
pub fn php_binaries() -> (r: Vec<String>)
    ensures
        r.deep_view() == php_binary_names(),
{
    let r = vec![
        String::from_str("php"),
        String::from_str("php-cgi"),
        String::from_str("php-config"),
        String::from_str("phpize"),
        String::from_str("phpdbg"),
        String::from_str("phar"),
        String::from_str("phar.phar"),
        String::from_str("pecl"),
        String::from_str("pear"),
    ];
    assert(r.deep_view() == php_binary_names());
    r
}

/// Every binary name is a relative path.
proof fn lemma_binary_names_relative()
    ensures
        forall|k: int|
            0 <= k < php_binary_names().len() ==> php_binary_names()[k].len() > 0
                && #[trigger] php_binary_names()[k][0] != '/',
{
    reveal_strlit("php");
    reveal_strlit("php-cgi");
    reveal_strlit("php-config");
    reveal_strlit("phpize");
    reveal_strlit("phpdbg");
    reveal_strlit("phar");
    reveal_strlit("phar.phar");
    reveal_strlit("pecl");
    reveal_strlit("pear");
    let n = php_binary_names();
    assert(n[0] == "php"@);
    assert(n[1] == "php-cgi"@);
    assert(n[2] == "php-config"@);
    assert(n[3] == "phpize"@);
    assert(n[4] == "phpdbg"@);
    assert(n[5] == "phar"@);
    assert(n[6] == "phar.phar"@);
    assert(n[7] == "pecl"@);
    assert(n[8] == "pear"@);
}

/// Whether `name` is one of the PHP binaries.
pub fn is_php_binary(name: &str) -> (b: bool)
    ensures
        b == php_binary_names().contains(name@),
{
    let names = php_binaries();
    let c = chars_of(name);
    let n = names.len();
    for i in 0..n
        invariant
            n == names@.len(),
            names.deep_view() == php_binary_names(),
            c@ == name@,
            forall|k: int| 0 <= k < i ==> php_binary_names()[k] != name@,
    {
        let e = chars_of(names[i].as_str());
        assert(names.deep_view()[i as int] == names@[i as int]@);
        if eq_exec(e.as_slice(), c.as_slice()) {
            return true;
        }
    }
    false
}

/// The name of a shell's directory: its parent's process id and a time stamp
/// in milliseconds, `pid_ts`.
pub open spec fn multishell_name(pid: u32, ts: u128) -> Seq<char> {
    decimal(pid as nat) + seq!['_'] + decimal(ts as nat)
}

pub fn multishell_id(pid: u32, ts: u128) -> (r: String)
    ensures
        r@ == multishell_name(pid, ts),
{
    let mut r = String::new();
    push_decimal(&mut r, pid as u128);
    push_char(&mut r, '_');
    push_decimal(&mut r, ts);
    r
}

/// The directory for a new shell, below the base of the per-shell directories.
pub fn multishell_dir(pid: u32, ts: u128) -> (r: Result<String, PhmError>)
    ensures
        r matches Err(e) ==> e == PhmError::NoHomeDirectory,
        r matches Ok(p) ==> exists|b: Seq<char>| p@ == join(b, multishell_name(pid, ts)),
{
    let base = multishell_base()?;
    let id = multishell_id(pid, ts);
    proof {
        lemma_decimal_digits(pid as nat);
    }
    Ok(path_join(base.as_str(), id.as_str()))
}

/// The process id a shell directory is named after: the text before the
/// first `_`, read as an `i32`.
pub open spec fn pid_of_name(name: Seq<char>) -> Option<i32> {
    i32_of(name.subrange(0, find_char(name, '_', 0)))
}

pub fn pid_from_dir_name(name: &str) -> (r: Option<i32>)
    ensures
        r == pid_of_name(name@),
{
    let c = chars_of(name);
    let s = c.as_slice();
    let i = find_char_exec(s, '_', 0);
    parse_i32(vstd::slice::slice_subrange(s, 0, i))
}

/// A shell directory is traced back to the process that made it.
pub proof fn lemma_multishell_name_pid(pid: u32, ts: u128)
    requires
        pid <= 0x7fff_ffff,
    ensures
        pid_of_name(multishell_name(pid, ts)) == Some(pid as i32),
{
    let d = decimal(pid as nat);
    let name = multishell_name(pid, ts);
    lemma_decimal_digits(pid as nat);
    assert forall|k: int| 0 <= k < d.len() implies name[k] != '_' by {
        assert(name[k] == d[k]);
        assert(crate::number::is_digit(d[k]));
    }
    lemma_find_char_at(name, '_', 0, d.len() as int);
    assert(name.subrange(0, d.len() as int) == d);
}

/// Different processes, or one process at different times, get different
/// shell directories: the name gives back both numbers.
pub proof fn lemma_multishell_name_injective(p1: u32, t1: u128, p2: u32, t2: u128)
    requires
        multishell_name(p1, t1) == multishell_name(p2, t2),
    ensures
        p1 == p2,
        t1 == t2,
{
    let a1 = decimal(p1 as nat);
    let a2 = decimal(p2 as nat);
    let n = multishell_name(p1, t1);
    lemma_decimal_digits(p1 as nat);
    lemma_decimal_digits(p2 as nat);
    lemma_decimal_digits(t1 as nat);
    lemma_decimal_digits(t2 as nat);
    assert forall|k: int| 0 <= k < a1.len() implies n[k] != '_' by {
        assert(n[k] == a1[k]);
        assert(crate::number::is_digit(a1[k]));
    }
    assert forall|k: int| 0 <= k < a2.len() implies n[k] != '_' by {
        assert(n[k] == multishell_name(p2, t2)[k]);
        assert(multishell_name(p2, t2)[k] == a2[k]);
        assert(crate::number::is_digit(a2[k]));
    }
    assert(n[a1.len() as int] == '_');
    assert(multishell_name(p2, t2)[a2.len() as int] == '_');
    if a1.len() < a2.len() {
        assert(n[a1.len() as int] != '_');
    }
    if a2.len() < a1.len() {
        assert(n[a2.len() as int] != '_');
    }
    assert(a1.len() == a2.len());
    assert(a1 =~= n.subrange(0, a1.len() as int));
    assert(a2 =~= multishell_name(p2, t2).subrange(0, a2.len() as int));
    assert(a1 == a2);
    let b1 = decimal(t1 as nat);
    let b2 = decimal(t2 as nat);
    assert(b1 =~= n.subrange(a1.len() as int + 1, n.len() as int));
    assert(b2 =~= multishell_name(p2, t2).subrange(a2.len() as int + 1, n.len() as int));
    assert(b1 == b2);
}

/// The text a shell directory records for its version: the version and a
/// line break.
pub open spec fn current_record(v: crate::version::PhpVersion) -> Seq<char> {
    v.text() + seq!['\n']
}

pub fn current_file_content(v: crate::version::PhpVersion) -> (r: String)
    ensures
        r@ == current_record(v),
{
    let mut r = v.to_string();
    push_char(&mut r, '\n');
    r
}

/// The version a shell directory records: its `current` file without
/// surrounding white space, when anything is left.
pub fn current_from_content(content: &str) -> (r: Option<String>)
    ensures
        r matches Some(t) ==> trimmed_nonempty(content@) == Some(t@),
        r is None ==> trimmed_nonempty(content@) is None,
{
    trimmed_nonempty_exec(content)
}

/// The wrapper script that runs a binary under `proot`, bind-mounting a
/// `resolv.conf` over `/etc/resolv.conf`.
pub open spec fn wrapper_script(proot: Seq<char>, resolv: Seq<char>, source: Seq<char>) -> Seq<char> {
    "#!/bin/sh\nexec '"@ + proot + "' -b '"@ + resolv + ":/etc/resolv.conf' '"@ + source + "' \"$@\"\n"@
}

pub fn proot_wrapper_script(proot: &str, resolv: &str, source: &str) -> (r: String)
    ensures
        r@ == wrapper_script(proot@, resolv@, source@),
{
    let mut r = String::from_str("#!/bin/sh\nexec '");
    r.append(proot);
    r.append("' -b '");
    r.append(resolv);
    r.append(":/etc/resolv.conf' '");
    r.append(source);
    r.append("' \"$@\"\n");
    r
}

/// One binary to link: from the installation's `source` to `target` in the
/// shell's `bin` directory; with a `wrapper`, a script with that text is
/// written in place of a symbolic link.
#[derive(Debug)]
pub struct LinkEntry {
    pub source: String,
    pub target: String,
    pub wrapper: Option<String>,
}

/// What linking a shell directory `dir` to an installation does: empty (or make)
/// `bin_dir`, link each binary that exists in the installation, and write the
/// version to `current_file`.
#[derive(Debug)]
pub struct LinkPlan {
    pub dir: String,
    pub bin_dir: String,
    pub entries: Vec<LinkEntry>,
    pub current_file: String,
    pub current_content: String,
}

/// The plan is the one for the shell directory `ms`, the installation and
/// the `proot` and `resolv.conf` paths (when binaries are wrapped).
pub open spec fn is_link_plan(
    p: LinkPlan,
    ms: Seq<char>,
    inst: PhpInstallation,
    proot: Option<(Seq<char>, Seq<char>)>,
) -> bool {
    &&& p.dir@ == ms
    &&& p.bin_dir@ == join(ms, "bin"@)
    &&& p.current_file@ == join(ms, "current"@)
    &&& p.current_content@ == current_record(inst.version)
    &&& p.entries@.len() == php_binary_names().len()
    &&& forall|k: int|
        0 <= k < p.entries@.len() ==> {
            let e = #[trigger] p.entries@[k];
            &&& e.source@ == join(inst.bin_dir@, php_binary_names()[k])
            &&& e.target@ == join(join(ms, "bin"@), php_binary_names()[k])
            &&& match proot {
                Some((pr, rs)) => e.wrapper matches Some(w) && w@ == wrapper_script(
                    pr,
                    rs,
                    e.source@,
                ),
                None => e.wrapper is None,
            }
        }
}

/// The texts of the `proot` binary and `resolv.conf` paths.
pub open spec fn proot_views(proot: Option<(&str, &str)>) -> Option<(Seq<char>, Seq<char>)> {
    match proot {
        Some((a, b)) => Some((a@, b@)),
        None => None,
    }
}

/// The links for a shell directory `multishell_path` to `installation`;
/// `proot` holds the `proot` binary and the `resolv.conf` to bind when the
/// binaries must run under `proot`.
pub fn link_plan(
    multishell_path: &str,
    installation: &PhpInstallation,
    proot: Option<(&str, &str)>,
) -> (p: LinkPlan)
    ensures
        is_link_plan(
            p,
            multishell_path@,
            *installation,
            proot_views(proot),
        ),
{
    proof {
        reveal_strlit("bin");
        reveal_strlit("current");
    }
    let bin_dir = path_join(multishell_path, "bin");
    let names = php_binaries();
    let n = names.len();
    let mut entries: Vec<LinkEntry> = Vec::new();
    for i in 0..n
        invariant
            n == names@.len(),
            names.deep_view() == php_binary_names(),
            bin_dir@ == join(multishell_path@, "bin"@),
            entries@.len() == i,
            forall|k: int|
                0 <= k < i ==> {
                    let e = #[trigger] entries@[k];
                    &&& e.source@ == join(installation.bin_dir@, php_binary_names()[k])
                    &&& e.target@ == join(join(multishell_path@, "bin"@), php_binary_names()[k])
                    &&& match proot {
                        Some((a, b)) => e.wrapper matches Some(w) && w@ == wrapper_script(
                            a@,
                            b@,
                            e.source@,
                        ),
                        None => e.wrapper is None,
                    }
                },
    {
        let name = names[i].as_str();
        assert(names.deep_view()[i as int] == names@[i as int]@);
        proof {
            lemma_binary_names_relative();
        }
        let source = path_join(installation.bin_dir.as_str(), name);
        let target = path_join(bin_dir.as_str(), name);
        let wrapper = match proot {
            Some((pr, rs)) => Some(proot_wrapper_script(pr, rs, source.as_str())),
            None => None,
        };
        entries.push(LinkEntry { source, target, wrapper });
    }
    let current_file = path_join(multishell_path, "current");
    let current_content = current_file_content(installation.version);
    LinkPlan { dir: String::from_str(multishell_path), bin_dir, entries, current_file, current_content }
}

/// Update the stable default alias to point to the given installation.
/// Called by `phm env`, `phm use`, and `phm default` so the alias stays
/// current: the plan links the alias directory to the installation.
pub fn update_default_alias(installation: &PhpInstallation, proot: Option<(&str, &str)>) -> (r: Result<
    LinkPlan,
    PhmError,
>)
    ensures
        r matches Err(e) ==> e == PhmError::NoHomeDirectory,
        r matches Ok(p) ==> is_link_plan(p, p.dir@, *installation, proot_views(proot)),
        r matches Ok(p) ==> exists|h: Seq<char>| h.len() > 0 && p.dir@ == join(h, ".local/state/phm/aliases/default"@),
{
    match default_alias_path() {
        Ok(alias) => {
            let p = link_plan(alias.as_str(), installation, proot);
            Ok(p)
        },
        Err(e) => Err(e),
    }
}

} // verus!
