//! Installed PHP versions: how the versions found on disk are read, kept
//! unique and put in order.

use vstd::prelude::*;
use crate::version::{PhpVersion, version_le, version_lt, version_of, parse_chars};
use crate::paths::{join, path_join, components, components_exec, same_path, same_path_exec};
use vstd::string::StringExecFns;
use crate::text::{opt_view, 
    chars_of, eq_exec, first_line, first_line_exec, last_segment, last_segment_exec, starts_with, starts_with_exec, words, words_exec,
    text_le, text_lt, string_lt, lemma_text_lt_total, lemma_text_lt_transitive, views, trim,
    trim_chars, string_of,
};

verus! {

/// A PHP installation: its version and the directory of its binaries.
#[derive(Debug, Clone)]
pub struct PhpInstallation {
    pub version: PhpVersion,
    pub bin_dir: String,
}

/// The installations of version `v`, in order.
pub open spec fn of_version(s: Seq<PhpInstallation>, v: PhpVersion) -> Seq<PhpInstallation> {
    s.filter(has_version(v))
}

pub open spec fn has_version(v: PhpVersion) -> spec_fn(PhpInstallation) -> bool {
    |i: PhpInstallation| i.version == v
}

/// `r` is `s` sorted by version, keeping the order of installations of the
/// same version (as a stable sort does).
pub open spec fn stably_sorted(r: Seq<PhpInstallation>, s: Seq<PhpInstallation>) -> bool {
    &&& forall|i: int, j: int| 0 <= i < j < r.len() ==> r[i].version.le(r[j].version)
    &&& forall|v: PhpVersion| #[trigger] of_version(r, v) == of_version(s, v)
}

/// Sorts the installations by version, stably.
pub fn sort_by_version(s: Vec<PhpInstallation>) -> (r: Vec<PhpInstallation>)
    ensures
        stably_sorted(r@, s@),
{
    let ghost orig = s@;
    let mut input = s;
    let mut r: Vec<PhpInstallation> = Vec::new();
    let n = input.len();
    let mut done: usize = 0;
    while input.len() > 0
        invariant
            n == orig.len(),
            done + input@.len() == n,
            input@ == orig.subrange(done as int, n as int),
            forall|i: int, j: int| 0 <= i < j < r@.len() ==> r@[i].version.le(r@[j].version),
            forall|v: PhpVersion|
                #[trigger] of_version(r@, v) == of_version(orig.subrange(0, done as int), v),
        decreases input@.len(),
    {
        let x = input.remove(0);
        let ghost old_r = r@;
        // insert after every installation whose version is not above x's
        let mut j: usize = 0;
        while j < r.len() && version_le(r[j].version, x.version)
            invariant
                j <= r@.len(),
                r@ == old_r,
                forall|k: int| 0 <= k < j ==> r@[k].version.le(x.version),
            decreases r@.len() - j,
        {
            j = j + 1;
        }
        proof {
            // everything from j on is above x
            assert forall|k: int| j <= k < old_r.len() implies !old_r[k].version.le(x.version) by {
                if j < old_r.len() {
                    assert(!old_r[j as int].version.le(x.version));
                    assert(old_r[j as int].version.le(old_r[k].version) || k == j);
                }
            }
        }
        r.insert(j, x);
        proof {
            let a = old_r.subrange(0, j as int);
            let b = old_r.subrange(j as int, old_r.len() as int);
            assert(old_r == a + b);
            assert(r@ == a.push(x) + b);
            let pre = orig.subrange(0, done as int);
            let post = orig.subrange(0, done + 1);
            assert(post == pre.push(x));
            assert forall|v: PhpVersion| #[trigger] of_version(r@, v) == of_version(post, v) by {
                let f = has_version(v);
                Seq::<PhpInstallation>::filter_distributes_over_add(a.push(x), b, f);
                Seq::<PhpInstallation>::filter_distributes_over_add(a, b, f);
                a.lemma_filter_push(x, f);
                pre.lemma_filter_push(x, f);
                if x.version == v {
                    assert(b.all(|y: PhpInstallation| !f(y))) by {
                        assert forall|k: int| 0 <= k < b.len() implies !f(b[k]) by {
                            assert(b[k] == old_r[j + k]);
                        }
                    }
                    b.lemma_all_neg_filter_empty(f);
                    assert(b.filter(f) == Seq::<PhpInstallation>::empty());
                    assert(a.push(x).filter(f) == a.filter(f).push(x));
                    assert(old_r.filter(f) == a.filter(f) + b.filter(f));
                    assert(a.filter(f) + Seq::<PhpInstallation>::empty() == a.filter(f));
                    assert(a.filter(f).push(x) + Seq::<PhpInstallation>::empty() == a.filter(f).push(x));
                    assert(of_version(old_r, v) == of_version(pre, v));
                    assert(r@.filter(f) == a.filter(f).push(x));
                    assert(post.filter(f) == pre.filter(f).push(x));
                } else {
                    assert(a.push(x).filter(f) == a.filter(f));
                    assert(old_r.filter(f) == a.filter(f) + b.filter(f));
                    assert(of_version(old_r, v) == of_version(pre, v));
                    assert(post.filter(f) == pre.filter(f));
                }
            }
        }
        done = done + 1;
    }
    proof {
        assert(orig.subrange(0, n as int) == orig);
    }
    r
}

/// The versions of the installations, in order.
pub open spec fn versions_of(s: Seq<PhpInstallation>) -> Seq<PhpVersion> {
    s.map_values(|i: PhpInstallation| i.version)
}

/// The versions of `installations`, in order.
pub fn installation_versions(installations: &[PhpInstallation]) -> (r: Vec<PhpVersion>)
    ensures
        r@ == versions_of(installations@),
{
    let n = installations.len();
    let mut r: Vec<PhpVersion> = Vec::new();
    for i in 0..n
        invariant
            n == installations@.len(),
            r@ == versions_of(installations@.subrange(0, i as int)),
    {
        r.push(installations[i].version);
        assert(versions_of(installations@.subrange(0, i + 1)) == versions_of(
            installations@.subrange(0, i as int),
        ).push(installations@[i as int].version));
    }
    assert(installations@.subrange(0, n as int) == installations@);
    r
}

/// Index of the first installation of version `v`, if any.
pub open spec fn first_with_version(s: Seq<PhpInstallation>, v: PhpVersion, i: int) -> int
    decreases s.len() - i,
{
    if i < 0 || i >= s.len() {
        s.len() as int
    } else if s[i].version == v {
        i
    } else {
        first_with_version(s, v, i + 1)
    }
}

/// `installations.iter().position(|i| i.version == v)`.
pub fn find_installation(installations: &[PhpInstallation], v: PhpVersion) -> (r: Option<usize>)
    ensures
        r is None <==> forall|k: int| 0 <= k < installations@.len() ==> installations@[k].version != v,
        r is None ==> first_with_version(installations@, v, 0) == installations@.len(),
        r matches Some(k) ==> k == first_with_version(installations@, v, 0) && k < installations@.len()
            && installations@[k as int].version == v,
{
    let n = installations.len();
    let mut i: usize = 0;
    while i < n
        invariant
            n == installations@.len(),
            i <= n,
            forall|k: int| 0 <= k < i ==> installations@[k].version != v,
            first_with_version(installations@, v, 0) == first_with_version(installations@, v, i as int),
        decreases n - i,
    {
        if installations[i].version == v {
            return Some(i);
        }
        i = i + 1;
    }
    None
}


/// The version `php --version` reports: its first line reads `PHP X.Y.Z ...`.
pub open spec fn version_in_php_output(out: Seq<char>) -> Option<PhpVersion> {
    match first_line(out) {
        Some(l) => if starts_with(l, "PHP "@) {
            let ws = words(l.subrange(4, l.len() as int));
            if ws.len() > 0 {
                version_of(ws[0])
            } else {
                None
            }
        } else {
            None
        },
        None => None,
    }
}

/// The version in the output of `php --version`.
pub fn version_from_php_output(out: &str) -> (r: Option<PhpVersion>)
    ensures
        r == version_in_php_output(out@),
{
    let c = chars_of(out);
    let prefix = chars_of("PHP ");
    proof {
        reveal_strlit("PHP ");
    }
    match first_line_exec(c.as_slice()) {
        Some(l) => if starts_with_exec(l, prefix.as_slice()) {
            let rest = vstd::slice::slice_subrange(l, 4, l.len());
            let ws = words_exec(rest);
            if ws.len() > 0 {
                assert(views(ws@)[0] == ws@[0]@);
                parse_chars(ws[0])
            } else {
                None
            }
        } else {
            None
        },
        None => None,
    }
}

/// An entry of phm's own version directory: its name, its path, and whether
/// it holds `bin/php`.
#[derive(Debug)]
pub struct ManagedEntry {
    pub name: String,
    pub path: String,
    pub has_php: bool,
}

/// A directory that may hold a system `php`, with the output of
/// `php --version` when the binary exists and ran successfully.
#[derive(Debug)]
pub struct SystemPhp {
    pub dir: String,
    pub version_output: Option<String>,
}

pub open spec fn names_sorted(s: Seq<ManagedEntry>) -> bool {
    forall|i: int, j: int| 0 <= i < j < s.len() ==> text_le(s[i].name@, s[j].name@)
}

/// Sorts the entries by name, stably.
pub fn sort_by_name(s: Vec<ManagedEntry>) -> (r: Vec<ManagedEntry>)
    ensures
        names_sorted(r@),
        r@.to_multiset() == s@.to_multiset(),
{
    let ghost orig = s@;
    let mut input = s;
    let mut r: Vec<ManagedEntry> = Vec::new();
    let n = input.len();
    let mut done: usize = 0;
    assert(r@ == orig.subrange(0, 0));
    while input.len() > 0
        invariant
            n == orig.len(),
            done + input@.len() == n,
            input@ == orig.subrange(done as int, n as int),
            names_sorted(r@),
            r@.to_multiset() == orig.subrange(0, done as int).to_multiset(),
        decreases input@.len(),
    {
        let x = input.remove(0);
        let ghost old_r = r@;
        let mut j: usize = 0;
        while j < r.len() && !string_lt(&x.name, &r[j].name)
            invariant
                j <= r@.len(),
                r@ == old_r,
                forall|k: int| 0 <= k < j ==> text_le(old_r[k].name@, x.name@),
            decreases r@.len() - j,
        {
            proof {
                lemma_text_lt_total(x.name@, old_r[j as int].name@);
            }
            j = j + 1;
        }
        proof {
            assert forall|k: int| j <= k < old_r.len() implies text_lt(x.name@, old_r[k].name@) by {
                if k > j {
                    assert(text_le(old_r[j as int].name@, old_r[k].name@));
                    if old_r[j as int].name@ != old_r[k].name@ {
                        lemma_text_lt_transitive(x.name@, old_r[j as int].name@, old_r[k].name@);
                    }
                }
            }
        }
        r.insert(j, x);
        proof {
            let nv = r@;
            assert forall|a: int, b: int| 0 <= a < b < nv.len() implies text_le(
                nv[a].name@,
                nv[b].name@,
            ) by {
                if b < j {
                } else if a < j && b == j {
                } else if a < j && b > j {
                    assert(nv[b] == old_r[b - 1]);
                } else if a == j {
                    assert(nv[b] == old_r[b - 1]);
                } else {
                    assert(nv[a] == old_r[a - 1] && nv[b] == old_r[b - 1]);
                }
            }
            vstd::seq_lib::to_multiset_insert(old_r, j as int, x);
            assert(orig.subrange(0, done + 1) == orig.subrange(0, done as int).push(x));
            vstd::seq_lib::to_multiset_build(orig.subrange(0, done as int), x);
        }
        done = done + 1;
    }
    proof {
        assert(orig.subrange(0, n as int) == orig);
    }
    r
}

/// An installation as plain values: its version and its directory.
pub open spec fn inst_view(i: PhpInstallation) -> (PhpVersion, Seq<char>) {
    (i.version, i.bin_dir@)
}

pub open spec fn inst_views(s: Seq<PhpInstallation>) -> Seq<(PhpVersion, Seq<char>)> {
    s.map_values(|i: PhpInstallation| inst_view(i))
}

pub open spec fn has_version_view(s: Seq<(PhpVersion, Seq<char>)>, v: PhpVersion) -> bool {
    exists|k: int| 0 <= k < s.len() && s[k].0 == v
}

/// The installations found in phm's own directories (taken in the order of
/// `es`), after those in `found`: an entry counts when its name reads as a
/// version, it holds `bin/php`, and no installation of that version came
/// before.
pub open spec fn managed_found(
    found: Seq<(PhpVersion, Seq<char>)>,
    es: Seq<ManagedEntry>,
    n: int,
) -> Seq<(PhpVersion, Seq<char>)>
    decreases n,
{
    if n <= 0 {
        found
    } else {
        let f = managed_found(found, es, n - 1);
        let e = es[n - 1];
        match version_of(e.name@) {
            Some(v) => if e.has_php && !has_version_view(f, v) {
                f.push((v, join(e.path@, "bin"@)))
            } else {
                f
            },
            None => f,
        }
    }
}

/// The system installations found after those in `found`: a directory counts
/// when `php --version` reports a version no installation before it has.
pub open spec fn system_found(
    found: Seq<(PhpVersion, Seq<char>)>,
    ss: Seq<SystemPhp>,
    n: int,
) -> Seq<(PhpVersion, Seq<char>)>
    decreases n,
{
    if n <= 0 {
        found
    } else {
        let f = system_found(found, ss, n - 1);
        let s = ss[n - 1];
        match s.version_output {
            Some(out) => match version_in_php_output(out@) {
                Some(v) => if !has_version_view(f, v) {
                    f.push((v, s.dir@))
                } else {
                    f
                },
                None => f,
            },
            None => f,
        }
    }
}

fn has_version_exec(found: &Vec<PhpInstallation>, v: PhpVersion) -> (r: bool)
    ensures
        r == has_version_view(inst_views(found@), v),
{
    let n = found.len();
    for i in 0..n
        invariant
            n == found@.len(),
            forall|k: int| 0 <= k < i ==> found@[k].version != v,
    {
        if found[i].version == v {
            assert(inst_views(found@)[i as int].0 == v);
            return true;
        }
    }
    proof {
        assert forall|k: int| 0 <= k < inst_views(found@).len() implies inst_views(found@)[k].0 != v by {
            assert(inst_views(found@)[k] == inst_view(found@[k]));
        }
    }
    false
}

/// `r` is what Linux discovery finds in `managed` and `system`.
pub open spec fn linux_discovery(r: Seq<PhpInstallation>, managed: Seq<ManagedEntry>, system: Seq<SystemPhp>) -> bool {
    exists|sorted: Seq<ManagedEntry>, found: Seq<PhpInstallation>|
        #![trigger names_sorted(sorted), stably_sorted(r, found)]
        {
            &&& names_sorted(sorted)
            &&& sorted.to_multiset() == managed.to_multiset()
            &&& inst_views(found) == system_found(
                managed_found(Seq::empty(), sorted, sorted.len() as int),
                system,
                system.len() as int,
            )
            &&& stably_sorted(r, found)
        }
}

/// Discover PHP versions on Linux: phm-managed installs (the entries of its
/// version directory, in the order of their names) first, then the system
/// PHP of each directory in `system`; one installation per version, the
/// first found, sorted by version.
pub fn discover_linux_versions(managed: Vec<ManagedEntry>, system: Vec<SystemPhp>) -> (r: Vec<
    PhpInstallation,
>)
    ensures
        linux_discovery(r@, managed@, system@),
{
    let entries = sort_by_name(managed);
    let mut found: Vec<PhpInstallation> = Vec::new();
    let n = entries.len();
    proof {
        reveal_strlit("bin");
    }
    for i in 0..n
        invariant
            n == entries@.len(),
            inst_views(found@) == managed_found(Seq::empty(), entries@, i as int),
    {
        let e = &entries[i];
        let ghost before = found@;
        match parse_chars(chars_of(e.name.as_str()).as_slice()) {
            Some(v) => {
                if e.has_php && !has_version_exec(&found, v) {
                    proof {
                        reveal_strlit("bin");
                    }
                    let bin_dir = path_join(e.path.as_str(), "bin");
                    found.push(PhpInstallation { version: v, bin_dir });
                    assert(inst_views(found@) == inst_views(before).push((v, join(e.path@, "bin"@))));
                }
            },
            None => {},
        }
    }
    let ghost after_managed = inst_views(found@);
    let m = system.len();
    for i in 0..m
        invariant
            m == system@.len(),
            inst_views(found@) == system_found(after_managed, system@, i as int),
    {
        let s = &system[i];
        let ghost before = found@;
        match &s.version_output {
            Some(out) => match version_from_php_output(out.as_str()) {
                Some(v) => {
                    if !has_version_exec(&found, v) {
                        found.push(PhpInstallation { version: v, bin_dir: s.dir.clone() });
                        assert(inst_views(found@) == inst_views(before).push((v, s.dir@)));
                    }
                },
                None => {},
            },
            None => {},
        }
    }
    let ghost found_all = found@;
    let r = sort_by_version(found);
    assert(stably_sorted(r@, found_all));
    assert(names_sorted(entries@));
    r
}


/// No two found pairs share a version.
pub open spec fn distinct_versions(f: Seq<(PhpVersion, Seq<char>)>) -> bool {
    forall|i: int, j: int| 0 <= i < j < f.len() ==> f[i].0 != f[j].0
}

proof fn lemma_managed_found_distinct(found: Seq<(PhpVersion, Seq<char>)>, es: Seq<ManagedEntry>, n: int)
    requires
        distinct_versions(found),
    ensures
        distinct_versions(managed_found(found, es, n)),
    decreases n,
{
    if n > 0 {
        lemma_managed_found_distinct(found, es, n - 1);
        let f = managed_found(found, es, n - 1);
        let e = es[n - 1];
        match version_of(e.name@) {
            Some(v) => if e.has_php && !has_version_view(f, v) {
                let g = f.push((v, join(e.path@, "bin"@)));
                assert forall|i: int, j: int| 0 <= i < j < g.len() implies g[i].0 != g[j].0 by {
                    if j == f.len() {
                        assert(g[i] == f[i]);
                        if f[i].0 == v {
                            assert(has_version_view(f, v));
                        }
                    }
                }
            },
            None => {},
        }
    }
}

proof fn lemma_system_found_distinct(found: Seq<(PhpVersion, Seq<char>)>, ss: Seq<SystemPhp>, n: int)
    requires
        distinct_versions(found),
    ensures
        distinct_versions(system_found(found, ss, n)),
    decreases n,
{
    if n > 0 {
        lemma_system_found_distinct(found, ss, n - 1);
        let f = system_found(found, ss, n - 1);
        let s = ss[n - 1];
        match s.version_output {
            Some(out) => match version_in_php_output(out@) {
                Some(v) => if !has_version_view(f, v) {
                    let g = f.push((v, s.dir@));
                    assert forall|i: int, j: int| 0 <= i < j < g.len() implies g[i].0 != g[j].0 by {
                        if j == f.len() {
                            assert(g[i] == f[i]);
                            if f[i].0 == v {
                                assert(has_version_view(f, v));
                            }
                        }
                    }
                },
                None => {},
            },
            None => {},
        }
    }
}

/// Two installations of version `v` make at least two entries of it.
proof fn lemma_of_version_two(s: Seq<PhpInstallation>, v: PhpVersion, i: int, j: int)
    requires
        0 <= i < j < s.len(),
        s[i].version == v,
        s[j].version == v,
    ensures
        of_version(s, v).len() >= 2,
    decreases s.len(),
{
    reveal(Seq::filter);
    let p = has_version(v);
    let rest = s.drop_last();
    assert(s.filter(p) == if p(s.last()) {
        rest.filter(p).push(s.last())
    } else {
        rest.filter(p)
    });
    if j < s.len() - 1 {
        assert(rest[i] == s[i] && rest[j] == s[j]);
        lemma_of_version_two(rest, v, i, j);
    } else {
        assert(rest[i] == s[i]);
        assert(p(rest[i]));
        rest.lemma_filter_contains(p, i);
        assert(rest.filter(p).len() >= 1);
        assert(p(s.last()));
    }
}

/// A version held at most once makes at most one entry.
proof fn lemma_of_version_at_most_one(s: Seq<PhpInstallation>, v: PhpVersion)
    requires
        forall|i: int, j: int| 0 <= i < j < s.len() ==> !(s[i].version == v && s[j].version == v),
    ensures
        of_version(s, v).len() <= 1,
    decreases s.len(),
{
    if s.len() > 0 {
        let rest = s.drop_last();
        assert forall|i: int, j: int| 0 <= i < j < rest.len() implies !(rest[i].version == v
            && rest[j].version == v) by {
            assert(rest[i] == s[i] && rest[j] == s[j]);
        }
        lemma_of_version_at_most_one(rest, v);
        reveal(Seq::filter);
        let p = has_version(v);
        assert(s.filter(p) == if p(s.last()) {
            rest.filter(p).push(s.last())
        } else {
            rest.filter(p)
        });
        if s.last().version == v && rest.filter(has_version(v)).len() > 0 {
            let x = rest.filter(has_version(v))[0];
            rest.lemma_filter_pred(has_version(v), 0);
            assert(rest.filter(has_version(v)).contains(x));
            rest.lemma_filter_contains_rev(has_version(v), x);
            let k = choose|k: int| 0 <= k < rest.len() && rest[k] == x;
            assert(s[k] == x && s[k].version == v);
            assert(s[s.len() - 1].version == v);
        }
    }
}

/// On Linux, discovery lists each version once, in increasing order.
pub proof fn lemma_linux_discovery_increasing(
    r: Seq<PhpInstallation>,
    managed: Seq<ManagedEntry>,
    system: Seq<SystemPhp>,
)
    requires
        linux_discovery(r, managed, system),
    ensures
        forall|i: int, j: int| 0 <= i < j < r.len() ==> r[i].version.lt(r[j].version),
{
    let (sorted, found) = choose|sorted: Seq<ManagedEntry>, found: Seq<PhpInstallation>|
        #![trigger names_sorted(sorted), stably_sorted(r, found)]
        {
            &&& names_sorted(sorted)
            &&& sorted.to_multiset() == managed.to_multiset()
            &&& inst_views(found) == system_found(
                managed_found(Seq::empty(), sorted, sorted.len() as int),
                system,
                system.len() as int,
            )
            &&& stably_sorted(r, found)
        };
    let empty = Seq::<(PhpVersion, Seq<char>)>::empty();
    lemma_managed_found_distinct(empty, sorted, sorted.len() as int);
    lemma_system_found_distinct(
        managed_found(empty, sorted, sorted.len() as int),
        system,
        system.len() as int,
    );
    let views = inst_views(found);
    assert(distinct_versions(views));
    assert forall|i: int, j: int| 0 <= i < j < r.len() implies r[i].version.lt(r[j].version) by {
        assert(r[i].version.le(r[j].version));
        if r[i].version == r[j].version {
            let v = r[i].version;
            lemma_of_version_two(r, v, i, j);
            assert forall|a: int, b: int| 0 <= a < b < found.len() implies !(found[a].version == v
                && found[b].version == v) by {
                assert(views[a].0 == found[a].version);
                assert(views[b].0 == found[b].version);
            }
            lemma_of_version_at_most_one(found, v);
            assert(of_version(r, v) == of_version(found, v));
        }
    }
}

/// The version a Homebrew `opt/php` link points at: the last part of the link
/// target, such as `8.5.4` in `../Cellar/php/8.5.4`.
pub open spec fn version_of_link(target: Seq<char>) -> Option<PhpVersion> {
    version_of(last_segment(target))
}

pub fn version_from_cellar_link(target: &str) -> (r: Option<PhpVersion>)
    ensures
        r == version_of_link(target@),
{
    let c = chars_of(target);
    parse_chars(last_segment_exec(c.as_slice()))
}

/// The directory is the `bin` of Homebrew's unversioned `php` formula: the
/// component before its last one is `php`.
pub open spec fn is_bare(bin_dir: Seq<char>) -> bool {
    let c = components(bin_dir);
    c.len() >= 2 && c[c.len() - 2] == "php"@
}

pub fn is_bare_php(bin_dir: &str) -> (b: bool)
    ensures
        b == is_bare(bin_dir@),
{
    let c = chars_of(bin_dir);
    let comps = components_exec(c.as_slice());
    let php = chars_of("php");
    if comps.len() >= 2 {
        assert(views(comps@)[comps@.len() - 2] == comps@[comps@.len() - 2]@);
        eq_exec(comps[comps.len() - 2], php.as_slice())
    } else {
        false
    }
}

/// Some installation in `s` that is not the unversioned formula has version `v`.
pub open spec fn versioned_has(s: Seq<PhpInstallation>, v: PhpVersion) -> bool {
    exists|k: int| 0 <= k < s.len() && !is_bare(s[k].bin_dir@) && s[k].version == v
}

/// The installations to keep: the unversioned formula is dropped when a
/// versioned formula provides the same version.
pub open spec fn keeps(s: Seq<PhpInstallation>) -> spec_fn(PhpInstallation) -> bool {
    |i: PhpInstallation| !(is_bare(i.bin_dir@) && versioned_has(s, i.version))
}

/// Deduplicate: if both `php@X.Y` and bare `php` resolve to the same version,
/// keep `php@X.Y`.
pub fn deduplicate(installations: &mut Vec<PhpInstallation>)
    ensures
        final(installations)@ == old(installations)@.filter(keeps(old(installations)@)),
{
    let ghost orig = installations@;
    let n = installations.len();
    let mut versioned: Vec<PhpVersion> = Vec::new();
    let mut bare: Vec<bool> = Vec::new();
    for i in 0..n
        invariant
            n == installations@.len(),
            installations@ == orig,
            bare@.len() == i,
            forall|k: int| 0 <= k < i ==> bare@[k] == is_bare(orig[k].bin_dir@),
            forall|v: PhpVersion|
                versioned@.contains(v) <==> exists|k: int|
                    0 <= k < i && !is_bare(orig[k].bin_dir@) && orig[k].version == v,
    {
        let b = is_bare_php(installations[i].bin_dir.as_str());
        bare.push(b);
        if !b {
            let ghost old_v = versioned@;
            versioned.push(installations[i].version);
            proof {
                assert forall|v: PhpVersion| versioned@.contains(v) <==> exists|k: int|
                    0 <= k < i + 1 && !is_bare(orig[k].bin_dir@) && orig[k].version == v by {
                    if versioned@.contains(v) {
                        let j = choose|j: int| 0 <= j < versioned@.len() && versioned@[j] == v;
                        if j < old_v.len() {
                            assert(old_v.contains(v));
                        }
                    }
                    if exists|k: int| 0 <= k < i + 1 && !is_bare(orig[k].bin_dir@) && orig[k].version == v {
                        let k = choose|k: int| 0 <= k < i + 1 && !is_bare(orig[k].bin_dir@) && orig[k].version == v;
                        if k < i {
                            assert(exists|k2: int|
                                0 <= k2 < i && !is_bare(orig[k2].bin_dir@) && orig[k2].version == v);
                            assert(old_v.contains(v));
                            let j = choose|j: int| 0 <= j < old_v.len() && old_v[j] == v;
                            assert(versioned@[j] == v);
                        } else {
                            assert(versioned@[old_v.len() as int] == v);
                        }
                    }
                }
            }
        } else {
            proof {
                assert forall|v: PhpVersion| versioned@.contains(v) <==> exists|k: int|
                    0 <= k < i + 1 && !is_bare(orig[k].bin_dir@) && orig[k].version == v by {
                    if exists|k: int| 0 <= k < i + 1 && !is_bare(orig[k].bin_dir@) && orig[k].version == v {
                        let k = choose|k: int| 0 <= k < i + 1 && !is_bare(orig[k].bin_dir@) && orig[k].version == v;
                        assert(k < i);
                    }
                }
            }
        }
    }
    let mut input: Vec<PhpInstallation> = Vec::new();
    std::mem::swap(&mut input, installations);
    let f = Ghost(keeps(orig));
    let mut i: usize = 0;
    assert(installations@ == orig.subrange(0, 0).filter(f@));
    while input.len() > 0
        invariant
            n == orig.len(),
            i + input@.len() == n,
            input@ == orig.subrange(i as int, n as int),
            bare@.len() == n,
            forall|k: int| 0 <= k < n ==> bare@[k] == is_bare(orig[k].bin_dir@),
            forall|v: PhpVersion|
                versioned@.contains(v) <==> exists|k: int|
                    0 <= k < n && !is_bare(orig[k].bin_dir@) && orig[k].version == v,
            f@ == keeps(orig),
            installations@ == orig.subrange(0, i as int).filter(f@),
        decreases input@.len(),
    {
        let x = input.remove(0);
        let keep = if bare[i] {
            !contains_version(&versioned, x.version)
        } else {
            true
        };
        proof {
            assert(x == orig[i as int]);
            assert(orig.subrange(0, i + 1) == orig.subrange(0, i as int).push(x));
            orig.subrange(0, i as int).lemma_filter_push(x, f@);
            assert(keep == f@(x));
        }
        if keep {
            installations.push(x);
        }
        i = i + 1;
    }
    proof {
        assert(orig.subrange(0, n as int) == orig);
    }
}

fn contains_version(vs: &Vec<PhpVersion>, v: PhpVersion) -> (r: bool)
    ensures
        r == vs@.contains(v),
{
    let n = vs.len();
    for i in 0..n
        invariant
            n == vs@.len(),
            forall|k: int| 0 <= k < i ==> vs@[k] != v,
    {
        if vs[i] == v {
            return true;
        }
    }
    false
}


/// An entry of a Homebrew `opt` directory: its name, its path, whether it
/// holds `bin/php`, and where it links to (when it is a link).
#[derive(Debug)]
pub struct HomebrewEntry {
    pub name: String,
    pub path: String,
    pub has_php: bool,
    pub link_target: Option<String>,
}

/// The installations the Homebrew entries provide, after those in `found`:
/// `php@X.Y` with `bin/php` is version `X.Y`; the unversioned `php` with
/// `bin/php` is the version its link points at.
pub open spec fn homebrew_found(
    found: Seq<(PhpVersion, Seq<char>)>,
    es: Seq<HomebrewEntry>,
    n: int,
) -> Seq<(PhpVersion, Seq<char>)>
    decreases n,
{
    if n <= 0 {
        found
    } else {
        let f = homebrew_found(found, es, n - 1);
        let e = es[n - 1];
        if starts_with(e.name@, "php@"@) {
            match version_of(e.name@.subrange(4, e.name@.len() as int)) {
                Some(v) => if e.has_php {
                    f.push((v, join(e.path@, "bin"@)))
                } else {
                    f
                },
                None => f,
            }
        } else if e.name@ == "php"@ && e.has_php {
            match e.link_target {
                Some(t) => match version_of_link(t@) {
                    Some(v) => f.push((v, join(e.path@, "bin"@))),
                    None => f,
                },
                None => f,
            }
        } else {
            f
        }
    }
}

/// `r` is what Homebrew discovery finds in `entries`.
pub open spec fn homebrew_discovery(r: Seq<PhpInstallation>, entries: Seq<HomebrewEntry>) -> bool {
    exists|found: Seq<PhpInstallation>|
        #![trigger stably_sorted(r, found.filter(keeps(found)))]
        {
            &&& inst_views(found) == homebrew_found(Seq::empty(), entries, entries.len() as int)
            &&& stably_sorted(r, found.filter(keeps(found)))
        }
}

/// Discover PHP versions from the entries of Homebrew's `opt` directories:
/// versioned and unversioned formulae, the unversioned one dropped where a
/// versioned formula provides its version, sorted by version.
pub fn discover_homebrew_versions(entries: Vec<HomebrewEntry>) -> (r: Vec<PhpInstallation>)
    ensures
        homebrew_discovery(r@, entries@),
{
    let mut found: Vec<PhpInstallation> = Vec::new();
    let n = entries.len();
    let at = chars_of("php@");
    let bare = chars_of("php");
    for i in 0..n
        invariant
            n == entries@.len(),
            at@ == "php@"@,
            bare@ == "php"@,
            inst_views(found@) == homebrew_found(Seq::empty(), entries@, i as int),
    {
        proof {
            reveal_strlit("bin");
            reveal_strlit("php@");
        }
        let e = &entries[i];
        let ghost before = found@;
        let name = chars_of(e.name.as_str());
        if starts_with_exec(name.as_slice(), at.as_slice()) {
            let rest = vstd::slice::slice_subrange(name.as_slice(), 4, name.len());
            match parse_chars(rest) {
                Some(v) => {
                    if e.has_php {
                        let bin_dir = path_join(e.path.as_str(), "bin");
                        found.push(PhpInstallation { version: v, bin_dir });
                        assert(inst_views(found@) == inst_views(before).push((v, join(e.path@, "bin"@))));
                    }
                },
                None => {},
            }
        } else if eq_exec(name.as_slice(), bare.as_slice()) && e.has_php {
            match &e.link_target {
                Some(t) => match version_from_cellar_link(t.as_str()) {
                    Some(v) => {
                        let bin_dir = path_join(e.path.as_str(), "bin");
                        found.push(PhpInstallation { version: v, bin_dir });
                        assert(inst_views(found@) == inst_views(before).push((v, join(e.path@, "bin"@))));
                    },
                    None => {},
                },
                None => {},
            }
        }
    }
    let ghost all = found@;
    deduplicate(&mut found);
    let ghost kept = found@;
    let r = sort_by_version(found);
    assert(stably_sorted(r@, all.filter(keeps(all))));
    r
}

/// What the platform's discovery scanned on disk.
#[derive(Debug)]
pub enum DiscoveryScan {
    /// phm's version directory and the system directories (Linux, Termux).
    Linux { managed: Vec<ManagedEntry>, system: Vec<SystemPhp> },
    /// Homebrew's `opt` directories (macOS).
    Homebrew { entries: Vec<HomebrewEntry> },
}

/// Discover all installed PHP versions from what the platform scan found.
pub fn discover_versions(scan: DiscoveryScan) -> (r: Vec<PhpInstallation>)
    ensures
        match scan {
            DiscoveryScan::Linux { managed, system } => linux_discovery(r@, managed@, system@),
            DiscoveryScan::Homebrew { entries } => homebrew_discovery(r@, entries@),
        },
{
    match scan {
        DiscoveryScan::Linux { managed, system } => discover_linux_versions(managed, system),
        DiscoveryScan::Homebrew { entries } => discover_homebrew_versions(entries),
    }
}

/// Of the paths `cands`, in order, those that are not the same path as one
/// kept before them.
pub open spec fn unique_paths_spec(cands: Seq<Seq<char>>, n: int) -> Seq<Seq<char>>
    decreases n,
{
    if n <= 0 {
        Seq::empty()
    } else {
        let kept = unique_paths_spec(cands, n - 1);
        if exists|k: int| 0 <= k < kept.len() && same_path(kept[k], cands[n - 1]) {
            kept
        } else {
            kept.push(cands[n - 1])
        }
    }
}

/// The paths `cands` in order, each one dropped when it names the same path
/// as one kept before it.
pub fn unique_paths(cands: &Vec<String>) -> (r: Vec<String>)
    ensures
        r.deep_view() == unique_paths_spec(cands.deep_view(), cands.deep_view().len() as int),
{
    let n = cands.len();
    let mut r: Vec<String> = Vec::new();
    for i in 0..n
        invariant
            n == cands@.len(),
            r.deep_view() == unique_paths_spec(cands.deep_view(), i as int),
    {
        let c = &cands[i];
        assert(cands.deep_view()[i as int] == c@);
        let ghost kept = r.deep_view();
        let mut dup = false;
        let m = r.len();
        for k in 0..m
            invariant
                m == r@.len(),
                r.deep_view() == kept,
                dup <==> exists|j: int| 0 <= j < k && same_path(kept[j], c@),
        {
            assert(kept[k as int] == r@[k as int]@);
            if same_path_exec(r[k].as_str(), c.as_str()) {
                dup = true;
            }
        }
        if !dup {
            r.push(c.clone());
            assert(r.deep_view() == kept.push(c@));
        }
    }
    r
}

/// Where Homebrew may live: `$HOMEBREW_PREFIX` (when set), the output of
/// `brew --prefix` (when it ran and printed something), then `/opt/homebrew`
/// and `/usr/local`.
pub open spec fn prefix_candidates(env_prefix: Option<Seq<char>>, brew_output: Option<Seq<char>>) -> Seq<Seq<char>> {
    (match env_prefix {
        Some(p) => seq![p],
        None => Seq::empty(),
    }) + (match brew_output {
        Some(o) => if trim(o).len() > 0 {
            seq![trim(o)]
        } else {
            Seq::empty()
        },
        None => Seq::empty(),
    }) + seq!["/opt/homebrew"@, "/usr/local"@]
}

/// The Homebrew prefixes, each path once, in the order of `prefix_candidates`.
pub fn homebrew_prefixes(env_prefix: Option<&str>, brew_output: Option<&str>) -> (r: Vec<String>)
    ensures
        r.deep_view() == unique_paths_spec(
            prefix_candidates(opt_view(env_prefix), opt_view(brew_output)),
            prefix_candidates(opt_view(env_prefix), opt_view(brew_output)).len() as int,
        ),
{
    let mut cands: Vec<String> = Vec::new();
    match env_prefix {
        Some(p) => cands.push(String::from_str(p)),
        None => {},
    }
    let ghost first = cands.deep_view();
    match brew_output {
        Some(o) => {
            let c = chars_of(o);
            let t = trim_chars(c.as_slice());
            if t.len() > 0 {
                cands.push(string_of(t));
            }
        },
        None => {},
    }
    let ghost second = cands.deep_view();
    cands.push(String::from_str("/opt/homebrew"));
    cands.push(String::from_str("/usr/local"));
    assert(cands.deep_view() == prefix_candidates(opt_view(env_prefix), opt_view(brew_output)));
    unique_paths(&cands)
}


/// The `opt` directory of each Homebrew prefix.
pub fn homebrew_opt_dirs(prefixes: &Vec<String>) -> (r: Vec<String>)
    ensures
        r.deep_view().len() == prefixes.deep_view().len(),
        forall|k: int|
            0 <= k < r.deep_view().len() ==> #[trigger] r.deep_view()[k] == join(
                prefixes.deep_view()[k],
                "opt"@,
            ),
{
    let n = prefixes.len();
    let mut r: Vec<String> = Vec::new();
    for i in 0..n
        invariant
            n == prefixes@.len(),
            r@.len() == i,
            forall|k: int|
                0 <= k < i ==> #[trigger] r.deep_view()[k] == join(prefixes.deep_view()[k], "opt"@),
    {
        proof {
            reveal_strlit("opt");
        }
        let ghost before = r.deep_view();
        r.push(path_join(prefixes[i].as_str(), "opt"));
        assert(prefixes.deep_view()[i as int] == prefixes@[i as int]@);
        assert forall|k: int| 0 <= k < i + 1 implies #[trigger] r.deep_view()[k] == join(
            prefixes.deep_view()[k],
            "opt"@,
        ) by {
            if k < i {
                assert(r.deep_view()[k] == before[k]);
            }
        }
    }
    r
}

/// The directories that may hold a system `php`: `$PREFIX/bin` (Termux) when
/// `$PREFIX` is set, then `/usr/bin` and `/usr/local/bin`. Those that exist
/// are then kept once each, by `unique_paths`.
pub fn system_php_dir_candidates(prefix: Option<&str>) -> (r: Vec<String>)
    ensures
        r.deep_view() == (match prefix {
            Some(p) => seq![join(p@, "bin"@)],
            None => Seq::empty(),
        }) + seq!["/usr/bin"@, "/usr/local/bin"@],
{
    let mut r: Vec<String> = Vec::new();
    match prefix {
        Some(p) => {
            proof {
                reveal_strlit("bin");
            }
            r.push(path_join(p, "bin"));
        },
        None => {},
    }
    r.push(String::from_str("/usr/bin"));
    r.push(String::from_str("/usr/local/bin"));
    r
}

/// Some installation's version reads as the text `t`.
pub open spec fn version_text_listed(s: Seq<PhpInstallation>, t: Seq<char>) -> bool {
    exists|k: int| 0 <= k < s.len() && #[trigger] s[k].version.text() == t
}

/// Whether some installation's version reads as the text `t` (such as `8.3`).
pub fn has_version_text(installations: &[PhpInstallation], t: &str) -> (b: bool)
    ensures
        b == version_text_listed(installations@, t@),
{
    let tc = chars_of(t);
    let n = installations.len();
    for k in 0..n
        invariant
            n == installations@.len(),
            tc@ == t@,
            forall|j: int| 0 <= j < k ==> #[trigger] installations@[j].version.text() != t@,
    {
        let vt = installations[k].version.to_string();
        let vc = chars_of(vt.as_str());
        if eq_exec(vc.as_slice(), tc.as_slice()) {
            assert(installations@[k as int].version.text() == t@);
            return true;
        }
    }
    false
}

} // verus!
