//! Termux (Android): where its resolver configuration lives, what it should
//! say, and when PHP has to run under `proot` to find it.

use vstd::prelude::*;
use vstd::string::StringExecFns;
use crate::paths::{join, path_join};
use crate::text::{matches_at, opt_view, opt_string_view, contains, str_contains, trim, trim_chars, chars_of, string_of, eq_exec};

verus! {

/// `$PREFIX` names a Termux installation.
pub open spec fn termux_prefix(prefix: Option<Seq<char>>) -> bool {
    prefix matches Some(p) && contains(p, "com.termux"@)
}

/// Whether phm runs inside Termux, from the value of `$PREFIX` (`None` when it
/// is unset).
pub fn is_termux(prefix: Option<&str>) -> (b: bool)
    ensures
        b == termux_prefix(opt_view(prefix)),
{
    proof {
        reveal_strlit("com.termux");
    }
    match prefix {
        Some(p) => str_contains(p, "com.termux"),
        None => false,
    }
}

/// `$PREFIX/etc/resolv.conf`, the resolver configuration Termux-native
/// programs read; only inside Termux.
pub fn resolv_conf_path(prefix: Option<&str>) -> (r: Option<String>)
    ensures
        termux_prefix(opt_view(prefix)) ==> (r matches Some(s) && s@ == join(
            prefix.unwrap()@,
            "etc/resolv.conf"@,
        )),
        !termux_prefix(opt_view(prefix)) ==> r is None,
{
    proof {
        reveal_strlit("etc/resolv.conf");
    }
    if is_termux(prefix) {
        Some(path_join(prefix.unwrap(), "etc/resolv.conf"))
    } else {
        None
    }
}

/// A resolver configuration names at least one server.
pub open spec fn names_server(content: Seq<char>) -> bool {
    contains(content, "nameserver"@)
}

/// Whether a resolver configuration names at least one server.
pub fn has_nameserver(content: &str) -> (b: bool)
    ensures
        b == names_server(content@),
{
    proof {
        reveal_strlit("nameserver");
    }
    str_contains(content, "nameserver")
}

/// The configuration has to be written: it is missing, unreadable, or names
/// no server. `content` is what reading it gave, `None` when it could not be
/// read.
pub open spec fn dns_config_needed(exists: bool, content: Option<Seq<char>>) -> bool {
    !(exists && (content matches Some(c) && names_server(c)))
}

/// Whether `$PREFIX/etc/resolv.conf` has to be (re)written.
pub fn needs_dns_config(exists: bool, content: Option<&str>) -> (b: bool)
    ensures
        b == dns_config_needed(exists, opt_view(content)),
{
    if exists {
        match content {
            Some(c) => !has_nameserver(c),
            None => true,
        }
    } else {
        true
    }
}

/// A usable answer of `getprop net.dnsN`: trimmed, not empty and not
/// `0.0.0.0`.
pub open spec fn dns_server(answer: Option<Seq<char>>) -> Option<Seq<char>> {
    match answer {
        Some(a) => if trim(a).len() > 0 && trim(a) != "0.0.0.0"@ {
            Some(trim(a))
        } else {
            None
        },
        None => None,
    }
}

/// The `nameserver` lines for the first `n` answers.
pub open spec fn server_lines(answers: Seq<Option<Seq<char>>>, n: int) -> Seq<char>
    decreases n,
{
    if n <= 0 {
        Seq::empty()
    } else {
        match dns_server(answers[n - 1]) {
            Some(s) => server_lines(answers, n - 1) + "nameserver "@ + s + "\n"@,
            None => server_lines(answers, n - 1),
        }
    }
}

/// The resolver configuration built from the answers of `getprop`, with
/// Google's servers when none is usable.
pub open spec fn resolv_conf_text(answers: Seq<Option<Seq<char>>>) -> Seq<char> {
    let lines = server_lines(answers, answers.len() as int);
    if lines.len() == 0 {
        "nameserver 8.8.8.8\n"@ + "nameserver 8.8.4.4\n"@
    } else {
        lines
    }
}

pub open spec fn answer_views(answers: Seq<Option<String>>) -> Seq<Option<Seq<char>>> {
    answers.map_values(|a: Option<String>| opt_string_view(a))
}

/// The answer is used: trimmed, it is neither empty nor `0.0.0.0`.
fn usable_server(answer: &str) -> (r: Option<String>)
    ensures
        r matches Some(s) ==> dns_server(Some(answer@)) == Some(s@),
        r is None ==> dns_server(Some(answer@)) is None,
{
    let c = chars_of(answer);
    let t = trim_chars(c.as_slice());
    let zero = chars_of("0.0.0.0");
    proof {
        reveal_strlit("0.0.0.0");
    }
    if t.len() == 0 || eq_exec(t, zero.as_slice()) {
        None
    } else {
        Some(string_of(t))
    }
}

/// The resolver configuration to write, from the answers of
/// `getprop net.dns1` to `net.dns4` (`None` where the command failed).
pub fn build_resolv_conf(answers: &Vec<Option<String>>) -> (r: String)
    ensures
        r@ == resolv_conf_text(answer_views(answers@)),
{
    let ghost views = answer_views(answers@);
    let mut lines = String::new();
    let mut added = false;
    let n = answers.len();
    for i in 0..n
        invariant
            n == answers@.len(),
            views == answer_views(answers@),
            lines@ == server_lines(views, i as int),
            added <==> lines@.len() > 0,
    {
        let ghost before = lines@;
        match &answers[i] {
            Some(a) => match usable_server(a.as_str()) {
                Some(s) => {
                    lines.append("nameserver ");
                    lines.append(s.as_str());
                    lines.append("\n");
                    added = true;
                    proof {
                        reveal_strlit("nameserver ");
                        reveal_strlit("\n");
                        assert(lines@ == before + "nameserver "@ + s@ + "\n"@);
                    }
                },
                None => {},
            },
            None => {},
        }
    }
    if !added {
        lines.append("nameserver 8.8.8.8\n");
        lines.append("nameserver 8.8.4.4\n");
    }
    lines
}

/// Non-empty server lines begin with `nameserver`.
proof fn lemma_server_lines_start(answers: Seq<Option<Seq<char>>>, n: int)
    ensures
        server_lines(answers, n).len() > 0 ==> matches_at(server_lines(answers, n), "nameserver"@, 0),
    decreases n,
{
    reveal_strlit("nameserver");
    reveal_strlit("nameserver ");
    if n > 0 {
        lemma_server_lines_start(answers, n - 1);
        let prev = server_lines(answers, n - 1);
        match dns_server(answers[n - 1]) {
            Some(s) => {
                let cur = server_lines(answers, n);
                if prev.len() > 0 {
                    assert(cur.subrange(0, 10) =~= prev.subrange(0, 10));
                } else {
                    assert(cur.subrange(0, 10) =~= "nameserver"@);
                }
            },
            None => {},
        }
    }
}

/// The resolver configuration phm writes names a server, so a later check
/// finds nothing to rewrite.
pub proof fn lemma_built_config_names_a_server(answers: Seq<Option<Seq<char>>>)
    ensures
        names_server(resolv_conf_text(answers)),
        !dns_config_needed(true, Some(resolv_conf_text(answers))),
{
    reveal_strlit("nameserver");
    reveal_strlit("nameserver 8.8.8.8\n");
    reveal_strlit("nameserver 8.8.4.4\n");
    lemma_server_lines_start(answers, answers.len() as int);
    let t = resolv_conf_text(answers);
    if server_lines(answers, answers.len() as int).len() == 0 {
        assert(t.subrange(0, 10) =~= "nameserver"@);
    }
    assert(matches_at(t, "nameserver"@, 0));
}

/// PHP has to run under `proot`: inside Termux, when `/etc/resolv.conf`
/// (`etc_resolv`, `None` when unreadable) names no server and `proot` was
/// found.
pub open spec fn proot_dns_wrap(termux: bool, etc_resolv: Option<Seq<char>>, proot_found: bool) -> bool {
    termux && !(etc_resolv matches Some(c) && names_server(c)) && proot_found
}

/// Whether static PHP builds must be wrapped in `proot` to resolve names.
pub fn needs_proot_dns_wrap(termux: bool, etc_resolv: Option<&str>, proot_found: bool) -> (b: bool)
    ensures
        b == proot_dns_wrap(termux, opt_view(etc_resolv), proot_found),
{
    if !termux {
        return false;
    }
    let resolv_ok = match etc_resolv {
        Some(c) => has_nameserver(c),
        None => false,
    };
    if resolv_ok {
        return false;
    }
    proot_found
}

/// Where `proot` is: `$PREFIX/bin/proot` when that file exists, else what
/// `which proot` printed (trimmed, when not empty); only inside Termux.
pub open spec fn proot_location(
    termux: bool,
    prefix: Option<Seq<char>>,
    prefix_proot_exists: bool,
    which_output: Option<Seq<char>>,
) -> Option<Seq<char>> {
    if !termux {
        None
    } else if prefix is Some && prefix_proot_exists {
        Some(join(prefix.unwrap(), "bin/proot"@))
    } else {
        match which_output {
            Some(o) => if trim(o).len() > 0 {
                Some(trim(o))
            } else {
                None
            },
            None => None,
        }
    }
}

/// The candidate `$PREFIX/bin/proot`.
pub fn prefix_proot(prefix: &str) -> (r: String)
    ensures
        r@ == join(prefix@, "bin/proot"@),
{
    proof {
        reveal_strlit("bin/proot");
    }
    path_join(prefix, "bin/proot")
}

/// Finds `proot`. `prefix_proot_exists` tells whether `$PREFIX/bin/proot`
/// exists; `which_output` is what a successful `which proot` printed (`None`
/// when it failed or was not run).
pub fn proot_bin(
    termux: bool,
    prefix: Option<&str>,
    prefix_proot_exists: bool,
    which_output: Option<&str>,
) -> (r: Option<String>)
    ensures
        opt_string_view(r) == proot_location(
            termux,
            opt_view(prefix),
            prefix_proot_exists,
            opt_view(which_output),
        ),
{
    if !termux {
        return None;
    }
    match prefix {
        Some(p) => {
            if prefix_proot_exists {
                return Some(prefix_proot(p));
            }
        },
        None => {},
    }
    match which_output {
        Some(o) => {
            let c = chars_of(o);
            let t = trim_chars(c.as_slice());
            if t.len() > 0 {
                Some(string_of(t))
            } else {
                None
            }
        },
        None => None,
    }
}

/// What PHP runs under when it must be wrapped: the `proot` binary and the
/// resolver configuration to bind over `/etc/resolv.conf`; nothing when no
/// wrapping is needed or one of the two is missing.
pub fn proot_wrap_args(needs_wrap: bool, proot: Option<&str>, resolv: Option<&str>) -> (r: Option<(String, String)>)
    ensures
        r matches Some(p) ==> needs_wrap && opt_view(proot) == Some(p.0@) && opt_view(resolv) == Some(p.1@),
        r is None ==> !needs_wrap || proot is None || resolv is None,
{
    if !needs_wrap {
        return None;
    }
    match (proot, resolv) {
        (Some(p), Some(r)) => Some((String::from_str(p), String::from_str(r))),
        _ => None,
    }
}

} // verus!
