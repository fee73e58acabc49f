//! Shims for non-interactive shells: where the shim `PATH` and the shell
//! integration go in the user's shell files, and the lines phm writes there.

use vstd::prelude::*;
use vstd::string::StringExecFns;
use crate::discover::{PhpInstallation, versions_of, installation_versions, find_installation, first_with_version};
use crate::error::PhmError;
pub use crate::paths::{shim_bin_dir, shim_dir};
use crate::paths::{same_path, same_path_exec, join, path_join, push_path, path_push, file_name_of, file_name_exec, path_starts_with, path_starts_with_exec};
use crate::text::{eq_exec, matches_at, 
    chars_of, contains, contains_exec, find_pat, find_pat_exec, lemma_find_pat_bounds, lines, lines_exec,
    starts_with, starts_with_exec, str_contains, string_of, trim, trim_chars, views, words, words_exec,
};
use crate::version::{PhpVersion, VersionConstraint, version_of, exact_of, lowest_admitted};

verus! {

pub open spec fn is_quote_or_semicolon(c: char) -> bool {
    c == '"' || c == '\'' || c == ';'
}

pub open spec fn skip_quotes(s: Seq<char>, i: int) -> int
    decreases s.len() - i,
{
    if 0 <= i < s.len() && is_quote_or_semicolon(s[i]) {
        skip_quotes(s, i + 1)
    } else {
        i
    }
}

pub open spec fn back_quotes(s: Seq<char>, j: int) -> int
    decreases j,
{
    if 0 < j <= s.len() && is_quote_or_semicolon(s[j - 1]) {
        back_quotes(s, j - 1)
    } else {
        j
    }
}

/// `s.trim_matches(|c| c == '"' || c == '\'' || c == ';')`.
pub open spec fn strip_quotes(s: Seq<char>) -> Seq<char> {
    let a = skip_quotes(s, 0);
    let b = back_quotes(s, s.len() as int);
    if a < b {
        s.subrange(a, b)
    } else {
        Seq::empty()
    }
}

fn strip_quotes_exec(s: &[char]) -> (t: &[char])
    ensures
        t@ == strip_quotes(s@),
{
    let n = s.len();
    let mut a: usize = 0;
    while a < n && (s[a] == '"' || s[a] == '\'' || s[a] == ';')
        invariant
            n == s@.len(),
            a <= n,
            skip_quotes(s@, 0) == skip_quotes(s@, a as int),
        decreases n - a,
    {
        a = a + 1;
    }
    let mut b: usize = n;
    while b > 0 && (s[b - 1] == '"' || s[b - 1] == '\'' || s[b - 1] == ';')
        invariant
            n == s@.len(),
            b <= n,
            back_quotes(s@, n as int) == back_quotes(s@, b as int),
        decreases b,
    {
        b = b - 1;
    }
    if a < b {
        vstd::slice::slice_subrange(s, a, b)
    } else {
        vstd::slice::slice_subrange(s, 0, 0)
    }
}

/// The path a line sources from the home directory, read from the first word
/// after `start`, without surrounding quotes and semicolons; nothing when no
/// word follows.
pub open spec fn token_path(line: Seq<char>, start: int, home: Seq<char>) -> Option<Seq<char>> {
    let ws = words(trim(line.subrange(start, line.len() as int)));
    if ws.len() > 0 {
        Some(push_path(home, strip_quotes(ws[0])))
    } else {
        None
    }
}

/// The file a line sources from the home directory: `source ~/FILE` or
/// `. ~/FILE`, also within guarded forms such as `[[ -f ~/f ]] && source ~/f`.
pub open spec fn sourced_path(line: Seq<char>, home: Seq<char>) -> Option<Seq<char>> {
    if contains(line, "source ~/"@) {
        token_path(line, find_pat(line, "source ~/"@, 0) + 9, home)
    } else if contains(line, ". ~/"@) {
        token_path(line, find_pat(line, ". ~/"@, 0) + 4, home)
    } else {
        None
    }
}

/// The `. ~/FILE` form sources a file just as `source ~/FILE` does: a line
/// `. ~/` followed by a text with a word in it (and no `source ~/`) sources
/// the first word, its quotes and semicolons removed, below the home
/// directory.
pub proof fn lemma_dot_source_form(f: Seq<char>, home: Seq<char>)
    requires
        !contains(f, "source ~/"@),
        words(trim(f)).len() > 0,
    ensures
        sourced_path(". ~/"@ + f, home) == Some(push_path(home, strip_quotes(words(trim(f))[0]))),
{
    reveal_strlit(". ~/");
    reveal_strlit("source ~/");
    let p = ". ~/"@;
    let q = "source ~/"@;
    let line = p + f;
    assert(line.subrange(0, 4) =~= p);
    crate::text::lemma_found_at(line, p, 0);
    assert(matches_at(line, p, 0));
    assert(find_pat(line, p, 0) == 0);
    assert(!contains(line, q)) by {
        if contains(line, q) {
            let i = choose|i: int| matches_at(line, q, i);
            if i >= 4 {
                assert(line.subrange(i, i + 9) =~= f.subrange(i - 4, i + 5));
                assert(matches_at(f, q, i - 4));
            } else {
                assert(line.subrange(i, i + 9)[0] == line[i]);
                assert(line[i] == p[i]);
            }
        }
    }
    assert(line.subrange(4, line.len() as int) =~= f);
}

/// A line that starts with `source ~/` sources the first word after it, its
/// quotes and semicolons removed, below the home directory.
pub proof fn lemma_source_form(f: Seq<char>, home: Seq<char>)
    requires
        words(trim(f)).len() > 0,
    ensures
        sourced_path("source ~/"@ + f, home) == Some(
            push_path(home, strip_quotes(words(trim(f))[0])),
        ),
{
    reveal_strlit("source ~/");
    let q = "source ~/"@;
    let line = q + f;
    assert(line.subrange(0, 9) =~= q);
    crate::text::lemma_found_at(line, q, 0);
    assert(matches_at(line, q, 0));
    assert(find_pat(line, q, 0) == 0);
    assert(line.subrange(9, line.len() as int) =~= f);
}

/// A plain file name after `. ~/` (no white space, quotes or semicolons) is
/// the file sourced below the home directory.
pub proof fn lemma_dot_source_plain_file(f: Seq<char>, home: Seq<char>)
    requires
        f.len() > 0,
        forall|k: int|
            0 <= k < f.len() ==> !crate::text::is_space(#[trigger] f[k]) && !is_quote_or_semicolon(
                f[k],
            ),
    ensures
        sourced_path(". ~/"@ + f, home) == Some(push_path(home, f)),
{
    reveal_strlit("source ~/");
    crate::text::lemma_trim_unchanged(f);
    crate::text::lemma_find_space_bounds(f, 0);
    assert(crate::text::find_space(f, 0) == f.len());
    assert(crate::text::skip_space(f, 0) == 0);
    assert(crate::text::skip_space(f, f.len() as int) == f.len());
    assert(crate::text::words_from(f, f.len() as int) == Seq::<Seq<char>>::empty());
    assert(f.subrange(0, f.len() as int) =~= f);
    assert(words(f) =~= seq![f]);
    assert(skip_quotes(f, 0) == 0);
    assert(back_quotes(f, f.len() as int) == f.len());
    assert(strip_quotes(f) == f);
    assert("source ~/"@[6] == ' ');
    crate::text::lemma_lacks_char(f, "source ~/"@, ' ');
    lemma_dot_source_form(f, home);
}

fn token_path_exec(line: &[char], start: usize, home: &str) -> (r: Option<String>)
    requires
        start <= line@.len(),
    ensures
        r matches Some(p) ==> token_path(line@, start as int, home@) == Some(p@),
        r is None ==> token_path(line@, start as int, home@) is None,
{
    let rest = trim_chars(vstd::slice::slice_subrange(line, start, line.len()));
    let ws = words_exec(rest);
    if ws.len() > 0 {
        assert(views(ws@)[0] == ws@[0]@);
        let token = string_of(strip_quotes_exec(ws[0]));
        Some(path_push(home, token.as_str()))
    } else {
        None
    }
}

fn extract_sourced_home_path(line: &str, home: &str) -> (r: Option<String>)
    ensures
        r matches Some(p) ==> sourced_path(line@, home@) == Some(p@),
        r is None ==> sourced_path(line@, home@) is None,
{
    let lc = chars_of(line);
    let l = lc.as_slice();
    let len = l.len();
    let p1 = chars_of("source ~/");
    let p2 = chars_of(". ~/");
    proof {
        reveal_strlit("source ~/");
        reveal_strlit(". ~/");
    }
    if contains_exec(l, p1.as_slice()) {
        let pos = find_pat_exec(l, p1.as_slice(), 0);
        proof {
            lemma_find_pat_bounds(l@, p1@, 0);
            let k = choose|k: int| crate::text::matches_at(l@, p1@, k);
            lemma_first_match(l@, p1@, k);
            assert(p1@.len() == 9);
            assert(pos + 9 <= len);
        }
        token_path_exec(l, pos + 9, home)
    } else if contains_exec(l, p2.as_slice()) {
        let pos = find_pat_exec(l, p2.as_slice(), 0);
        proof {
            lemma_find_pat_bounds(l@, p2@, 0);
            let k = choose|k: int| crate::text::matches_at(l@, p2@, k);
            lemma_first_match(l@, p2@, k);
            assert(p2@.len() == 4);
            assert(pos + 4 <= len);
        }
        token_path_exec(l, pos + 4, home)
    } else {
        None
    }
}

/// A text that contains `p` has its first occurrence at or before any other.
proof fn lemma_first_match(s: Seq<char>, p: Seq<char>, k: int)
    requires
        crate::text::matches_at(s, p, k),
        p.len() > 0,
    ensures
        find_pat(s, p, 0) <= k,
        crate::text::matches_at(s, p, find_pat(s, p, 0)),
{
    lemma_find_pat_bounds(s, p, 0);
    if find_pat(s, p, 0) > k {
        assert(!crate::text::matches_at(s, p, k));
    }
}

/// The file name of `p` holds one of the words that mark a user's own shell
/// file.
pub open spec fn is_custom_file(p: Seq<char>) -> bool {
    match file_name_of(p) {
        Some(n) => contains(n, "custom"@) || contains(n, "local"@) || contains(n, "extra"@)
            || contains(n, "personal"@) || contains(n, "private"@) || contains(n, "user"@)
            || contains(n, "mine"@),
        None => false,
    }
}

fn is_custom_file_exec(p: &str) -> (b: bool)
    ensures
        b == is_custom_file(p@),
{
    proof {
        reveal_strlit("custom");
        reveal_strlit("local");
        reveal_strlit("extra");
        reveal_strlit("personal");
        reveal_strlit("private");
        reveal_strlit("user");
        reveal_strlit("mine");
    }
    match file_name_exec(p) {
        Some(n) => {
            let s = n.as_str();
            str_contains(s, "custom") || str_contains(s, "local") || str_contains(s, "extra")
                || str_contains(s, "personal") || str_contains(s, "private") || str_contains(s, "user")
                || str_contains(s, "mine")
        },
        None => false,
    }
}

/// The first of the lines (from the `i`-th on) that, trimmed and not a
/// comment, sources a user's own file below the home directory.
pub open spec fn custom_source(ls: Seq<Seq<char>>, home: Seq<char>, i: int) -> Option<Seq<char>>
    decreases ls.len() - i,
{
    if i < 0 || i >= ls.len() {
        None
    } else {
        let line = trim(ls[i]);
        if starts_with(line, seq!['#']) {
            custom_source(ls, home, i + 1)
        } else {
            match sourced_path(line, home) {
                Some(p) => if is_custom_file(p) && path_starts_with(p, home) {
                    Some(p)
                } else {
                    custom_source(ls, home, i + 1)
                },
                None => custom_source(ls, home, i + 1),
            }
        }
    }
}

/// The well-known custom file that `.zshrc` mentions, if any.
pub open spec fn mentioned_file(content: Seq<char>, home: Seq<char>) -> Option<Seq<char>> {
    if contains(content, "zshrc_custom"@) {
        Some(join(home, ".zshrc_custom"@))
    } else if contains(content, "zshrc.local"@) {
        Some(join(home, ".zshrc.local"@))
    } else if contains(content, "zsh_custom"@) {
        Some(join(home, ".zsh_custom"@))
    } else if contains(content, "zsh.local"@) {
        Some(join(home, ".zsh.local"@))
    } else {
        None
    }
}

/// The file to write the shim `PATH` into, given the home directory and the
/// content of `~/.zshrc` (when it could be read): a custom file that
/// `.zshrc` sources, else a well-known custom file it mentions, else
/// `~/.zshenv`.
pub open spec fn zsh_target(home: Seq<char>, zshrc: Option<Seq<char>>) -> Seq<char> {
    match zshrc {
        Some(content) => match custom_source(lines(content), home, 0) {
            Some(p) => p,
            None => match mentioned_file(content, home) {
                Some(p) => p,
                None => join(home, ".zshenv"@),
            },
        },
        None => join(home, ".zshenv"@),
    }
}

/// Find the best file to inject the shim PATH into.
pub fn find_zsh_injection_target(home: &str, zshrc: Option<&str>) -> (r: String)
    ensures
        r@ == zsh_target(
            home@,
            match zshrc {
                Some(c) => Some(c@),
                None => None,
            },
        ),
{
    proof {
        reveal_strlit(".zshenv");
        reveal_strlit(".zshrc_custom");
        reveal_strlit(".zshrc.local");
        reveal_strlit(".zsh_custom");
        reveal_strlit(".zsh.local");
        reveal_strlit("zshrc_custom");
        reveal_strlit("zshrc.local");
        reveal_strlit("zsh_custom");
        reveal_strlit("zsh.local");
    }
    match zshrc {
        Some(content) => {
            let cc = chars_of(content);
            let ls = lines_exec(cc.as_slice());
            let n = ls.len();
            let hash = ['#'];
            assert(hash@ == seq!['#']);
            let mut i: usize = 0;
            while i < n
                invariant
                    n == ls@.len(),
                    i <= n,
                    hash@ == seq!['#'],
                    zshrc == Some(content),
                    views(ls@) == lines(content@),
                    custom_source(views(ls@), home@, 0) == custom_source(views(ls@), home@, i as int),
                decreases n - i,
            {
                assert(views(ls@)[i as int] == ls@[i as int]@);
                let line = trim_chars(ls[i]);
                if !starts_with_exec(line, hash.as_slice()) {
                    let ls_str = string_of(line);
                    match extract_sourced_home_path(ls_str.as_str(), home) {
                        Some(p) => {
                            if is_custom_file_exec(p.as_str()) && path_starts_with_exec(p.as_str(), home) {
                                return p;
                            }
                        },
                        None => {},
                    }
                }
                i = i + 1;
            }
            if str_contains(content, "zshrc_custom") {
                path_join(home, ".zshrc_custom")
            } else if str_contains(content, "zshrc.local") {
                path_join(home, ".zshrc.local")
            } else if str_contains(content, "zsh_custom") {
                path_join(home, ".zsh_custom")
            } else if str_contains(content, "zsh.local") {
                path_join(home, ".zsh.local")
            } else {
                path_join(home, ".zshenv")
            }
        },
        None => path_join(home, ".zshenv"),
    }
}


/// `files` with `target` added at the end, unless one of them is the same
/// path.
pub open spec fn with_target(files: Seq<Seq<char>>, target: Seq<char>) -> Seq<Seq<char>> {
    if exists|k: int| 0 <= k < files.len() && same_path(#[trigger] files[k], target) {
        files
    } else {
        files.push(target)
    }
}

fn add_target(r: &mut Vec<String>, target: &str)
    ensures
        final(r).deep_view() == with_target(old(r).deep_view(), target@),
{
    let n = r.len();
    for i in 0..n
        invariant
            n == r@.len(),
            r.deep_view() == old(r).deep_view(),
            forall|k: int| 0 <= k < i ==> !same_path(#[trigger] r.deep_view()[k], target@),
    {
        assert(r.deep_view()[i as int] == r@[i as int]@);
        if same_path_exec(r[i].as_str(), target) {
            return;
        }
    }
    r.push(String::from_str(target));
    assert(r.deep_view() == old(r).deep_view().push(target@));
}

/// The files the shim `PATH` line may have been written to: the known ones,
/// and `target`, the file an injection writes to now.
pub open spec fn shim_path_files(home: Seq<char>) -> Seq<Seq<char>> {
    seq![
        join(home, ".zshenv"@),
        join(home, ".zshrc_custom"@),
        join(home, ".zshrc.local"@),
        join(home, ".zsh_custom"@),
        join(home, ".zsh.local"@),
    ]
}

pub fn shim_path_candidates(home: &str, target: &str) -> (r: Vec<String>)
    ensures
        r.deep_view() == with_target(shim_path_files(home@), target@),
{
    proof {
        reveal_strlit(".zshenv");
        reveal_strlit(".zshrc_custom");
        reveal_strlit(".zshrc.local");
        reveal_strlit(".zsh_custom");
        reveal_strlit(".zsh.local");
    }
    let mut r = vec![
        path_join(home, ".zshenv"),
        path_join(home, ".zshrc_custom"),
        path_join(home, ".zshrc.local"),
        path_join(home, ".zsh_custom"),
        path_join(home, ".zsh.local"),
    ];
    assert(r.deep_view() == shim_path_files(home@));
    add_target(&mut r, target);
    r
}

/// The files the shell integration line may have been written to: the known
/// ones, and `target`, the file an injection writes to now.
pub open spec fn shell_eval_files(home: Seq<char>) -> Seq<Seq<char>> {
    seq![
        join(home, ".zshrc_custom"@),
        join(home, ".zshrc.local"@),
        join(home, ".zsh_custom"@),
        join(home, ".zsh.local"@),
        join(home, ".zshrc"@),
        join(home, ".bashrc"@),
        join(home, ".bash_profile"@),
    ]
}

pub fn shell_eval_candidates(home: &str, target: &str) -> (r: Vec<String>)
    ensures
        r.deep_view() == with_target(shell_eval_files(home@), target@),
{
    proof {
        reveal_strlit(".zshrc_custom");
        reveal_strlit(".zshrc.local");
        reveal_strlit(".zsh_custom");
        reveal_strlit(".zsh.local");
        reveal_strlit(".zshrc");
        reveal_strlit(".bashrc");
        reveal_strlit(".bash_profile");
    }
    let mut r = vec![
        path_join(home, ".zshrc_custom"),
        path_join(home, ".zshrc.local"),
        path_join(home, ".zsh_custom"),
        path_join(home, ".zsh.local"),
        path_join(home, ".zshrc"),
        path_join(home, ".bashrc"),
        path_join(home, ".bash_profile"),
    ];
    assert(r.deep_view() == shell_eval_files(home@));
    add_target(&mut r, target);
    r
}

/// Some file read (`None`: missing or unreadable) holds `marker`.
pub open spec fn some_file_holds(contents: Seq<Option<Seq<char>>>, marker: Seq<char>) -> bool {
    exists|k: int| 0 <= k < contents.len() && (#[trigger] contents[k] matches Some(c) && contains(c, marker))
}

pub open spec fn contents_view(contents: Seq<Option<String>>) -> Seq<Option<Seq<char>>> {
    contents.map_values(|c: Option<String>| crate::text::opt_string_view(c))
}

/// The shim `PATH` line is already in one of the candidate files (their
/// contents, in order): injecting it again writes nothing.
pub fn shim_path_present(contents: &Vec<Option<String>>) -> (b: bool)
    ensures
        b == some_file_holds(contents_view(contents@), shim_marker()),
{
    let ghost cv = contents_view(contents@);
    let n = contents.len();
    for i in 0..n
        invariant
            n == contents@.len(),
            cv == contents_view(contents@),
            forall|k: int| 0 <= k < i ==> !(#[trigger] cv[k] matches Some(c) && contains(c, shim_marker())),
    {
        match &contents[i] {
            Some(c) => if has_shim_path(c.as_str()) {
                assert(cv[i as int] == Some(c@));
                return true;
            },
            None => {},
        }
    }
    false
}

/// The shell integration is already loaded by one of the candidate files
/// (their mark, or any `phm env` call): injecting it again writes nothing.
pub fn shell_eval_present(contents: &Vec<Option<String>>) -> (b: bool)
    ensures
        b == (some_file_holds(contents_view(contents@), eval_marker()) || some_file_holds(
            contents_view(contents@),
            "phm env"@,
        )),
{
    let ghost cv = contents_view(contents@);
    let n = contents.len();
    for i in 0..n
        invariant
            n == contents@.len(),
            cv == contents_view(contents@),
            forall|k: int| 0 <= k < i ==> !(#[trigger] cv[k] matches Some(c) && contains(c, eval_marker())),
            forall|k: int| 0 <= k < i ==> !(#[trigger] cv[k] matches Some(c) && contains(c, "phm env"@)),
    {
        match &contents[i] {
            Some(c) => if has_shell_eval(c.as_str()) {
                assert(cv[i as int] == Some(c@));
                return true;
            },
            None => {},
        }
    }
    false
}

/// The mark at the end of the shim `PATH` line.
pub open spec fn shim_marker() -> Seq<char> {
    "# phm shims"@
}

/// The mark at the end of the shell integration line.
pub open spec fn eval_marker() -> Seq<char> {
    "# phm shell"@
}

/// The line that puts the shim directory in front of `PATH`.
pub open spec fn shim_path_text(bin_dir: Seq<char>) -> Seq<char> {
    "export PATH=\""@ + bin_dir + ":$PATH\" "@ + shim_marker()
}

pub fn shim_path_line(bin_dir: &str) -> (r: String)
    ensures
        r@ == shim_path_text(bin_dir@),
{
    let mut r = String::from_str("export PATH=\"");
    r.append(bin_dir);
    r.append(":$PATH\" ");
    r.append("# phm shims");
    r
}

/// The name of the shell in `$SHELL` (empty when unset): `bash`, `fish`, or
/// else `zsh`.
pub open spec fn shell_name_of(shell: Seq<char>) -> Seq<char> {
    if contains(shell, "bash"@) {
        "bash"@
    } else if contains(shell, "fish"@) {
        "fish"@
    } else {
        "zsh"@
    }
}

pub fn detect_shell_name(shell: &str) -> (r: String)
    ensures
        r@ == shell_name_of(shell@),
{
    proof {
        reveal_strlit("bash");
        reveal_strlit("fish");
    }
    if str_contains(shell, "bash") {
        String::from_str("bash")
    } else if str_contains(shell, "fish") {
        String::from_str("fish")
    } else {
        String::from_str("zsh")
    }
}

/// The line that loads phm's shell integration for `shell`.
pub open spec fn shell_eval_text(shell: Seq<char>) -> Seq<char> {
    "eval \"$(phm env --shell "@ + shell + " --use-on-cd)\" "@ + eval_marker()
}

pub fn shell_eval_line(shell: &str) -> (r: String)
    ensures
        r@ == shell_eval_text(shell@),
{
    let mut r = String::from_str("eval \"$(phm env --shell ");
    r.append(shell);
    r.append(" --use-on-cd)\" ");
    r.append("# phm shell");
    r
}

/// A file already holds the shim `PATH` line.
pub fn has_shim_path(content: &str) -> (b: bool)
    ensures
        b == contains(content@, shim_marker()),
{
    proof {
        reveal_strlit("# phm shims");
    }
    str_contains(content, "# phm shims")
}

/// A file already loads phm's shell integration.
pub fn has_shell_eval(content: &str) -> (b: bool)
    ensures
        b == (contains(content@, eval_marker()) || contains(content@, "phm env"@)),
{
    proof {
        reveal_strlit("# phm shell");
        reveal_strlit("phm env");
    }
    str_contains(content, "# phm shell") || str_contains(content, "phm env")
}

/// What is appended to a file to add a line: a line break, the line, and a
/// line break.
pub open spec fn appended(line: Seq<char>) -> Seq<char> {
    seq!['\n'] + line + seq!['\n']
}

pub fn appended_text(line: &str) -> (r: String)
    ensures
        r@ == appended(line@),
{
    let mut r = String::new();
    crate::text::push_char(&mut r, '\n');
    r.append(line);
    crate::text::push_char(&mut r, '\n');
    r
}

/// `[..].join("\n")`.
pub open spec fn join_lines(ls: Seq<Seq<char>>) -> Seq<char>
    decreases ls.len(),
{
    if ls.len() == 0 {
        Seq::empty()
    } else if ls.len() == 1 {
        ls[0]
    } else {
        join_lines(ls.drop_last()) + seq!['\n'] + ls.last()
    }
}

pub open spec fn lacks(marker: Seq<char>) -> spec_fn(Seq<char>) -> bool {
    |l: Seq<char>| !contains(l, marker)
}

/// A file's content with the lines that hold `marker` removed (lines joined
/// by line breaks, with a final one); nothing to do when no line holds it.
pub open spec fn without_marked(content: Seq<char>, marker: Seq<char>) -> Option<Seq<char>> {
    if contains(content, marker) {
        Some(join_lines(lines(content).filter(lacks(marker))) + seq!['\n'])
    } else {
        None
    }
}

pub fn remove_marked_lines(content: &str, marker: &str) -> (r: Option<String>)
    requires
        marker@.len() > 0,
    ensures
        r matches Some(t) ==> without_marked(content@, marker@) == Some(t@),
        r is None ==> without_marked(content@, marker@) is None,
{
    if !str_contains(content, marker) {
        return None;
    }
    let cc = chars_of(content);
    let mc = chars_of(marker);
    let ls = lines_exec(cc.as_slice());
    let ghost f = lacks(marker@);
    let n = ls.len();
    let mut out = String::new();
    let mut kept: usize = 0;
    let ghost mut kept_lines: Seq<Seq<char>> = Seq::empty();
    for i in 0..n
        invariant
            n == ls@.len(),
            mc@ == marker@,
            mc@.len() > 0,
            f == lacks(marker@),
            kept_lines == views(ls@).subrange(0, i as int).filter(f),
            kept == kept_lines.len(),
            out@ == join_lines(kept_lines),
    {
        let l = ls[i];
        assert(views(ls@)[i as int] == l@);
        assert(views(ls@).subrange(0, i + 1) == views(ls@).subrange(0, i as int).push(l@));
        proof {
            views(ls@).subrange(0, i as int).lemma_filter_push(l@, f);
        }
        if !contains_exec(l, mc.as_slice()) {
            let ghost prev = kept_lines;
            if kept > 0 {
                crate::text::push_char(&mut out, '\n');
            }
            let ls_str = string_of(l);
            out.append(ls_str.as_str());
            proof {
                kept_lines = kept_lines.push(l@);
                assert(kept_lines.drop_last() == prev);
                if prev.len() == 0 {
                    assert(out@ == l@);
                }
            }
            kept = kept + 1;
        }
    }
    assert(views(ls@).subrange(0, n as int) == views(ls@));
    crate::text::push_char(&mut out, '\n');
    Some(out)
}

/// A file's content without its shim `PATH` lines; nothing to do when it
/// has none.
pub fn remove_shim_path(content: &str) -> (r: Option<String>)
    ensures
        match r {
            Some(t) => without_marked(content@, shim_marker()) == Some(t@),
            None => without_marked(content@, shim_marker()) is None,
        },
{
    proof {
        reveal_strlit("# phm shims");
    }
    remove_marked_lines(content, "# phm shims")
}

/// A file's content without its shell integration lines; nothing to do when
/// it has none.
pub fn remove_shell_eval(content: &str) -> (r: Option<String>)
    ensures
        match r {
            Some(t) => without_marked(content@, eval_marker()) == Some(t@),
            None => without_marked(content@, eval_marker()) is None,
        },
{
    proof {
        reveal_strlit("# phm shell");
    }
    remove_marked_lines(content, "# phm shell")
}

/// A text `m` without line breaks, found in two texts joined by a line break,
/// is found in one of them.
proof fn lemma_contains_across_break(a: Seq<char>, b: Seq<char>, m: Seq<char>)
    requires
        m.len() > 0,
        !m.contains('\n'),
        contains(a + seq!['\n'] + b, m),
    ensures
        contains(a, m) || contains(b, m),
{
    let c = a + seq!['\n'] + b;
    let i = choose|i: int| matches_at(c, m, i);
    assert(matches_at(c, m, i));
    if i + m.len() <= a.len() {
        assert(c.subrange(i, i + m.len()) =~= a.subrange(i, i + m.len()));
        assert(matches_at(a, m, i));
    } else if i > a.len() {
        let j = i - a.len() - 1;
        assert(c.subrange(i, i + m.len()) =~= b.subrange(j, j + m.len()));
        assert(matches_at(b, m, j));
    } else {
        let k = a.len() - i;
        assert(c.subrange(i, i + m.len())[k] == c[a.len() as int]);
        assert(m[k] == '\n');
        assert(m.contains('\n'));
    }
}

/// Lines that each lack `m` (which has no line break) lack it once joined.
proof fn lemma_joined_lines_lack(ls: Seq<Seq<char>>, m: Seq<char>)
    requires
        m.len() > 0,
        !m.contains('\n'),
        forall|k: int| 0 <= k < ls.len() ==> !contains(#[trigger] ls[k], m),
    ensures
        !contains(join_lines(ls), m),
    decreases ls.len(),
{
    if ls.len() == 0 {
        assert(!matches_at(join_lines(ls), m, choose|i: int| matches_at(join_lines(ls), m, i)));
    } else if ls.len() == 1 {
        assert(!contains(ls[0], m));
    } else {
        let init = ls.drop_last();
        assert forall|k: int| 0 <= k < init.len() implies !contains(#[trigger] init[k], m) by {
            assert(init[k] == ls[k]);
        }
        lemma_joined_lines_lack(init, m);
        assert(!contains(ls[ls.len() - 1], m));
        if contains(join_lines(ls), m) {
            lemma_contains_across_break(join_lines(init), ls.last(), m);
        }
    }
}

/// Removing the lines marked with `m` (a text without line breaks) leaves a
/// file that no longer holds `m`.
pub proof fn lemma_removal_clears_marker(content: Seq<char>, m: Seq<char>)
    requires
        m.len() > 0,
        !m.contains('\n'),
    ensures
        without_marked(content, m) matches Some(t) ==> !contains(t, m),
{
    if contains(content, m) {
        let kept = lines(content).filter(lacks(m));
        assert forall|k: int| 0 <= k < kept.len() implies !contains(#[trigger] kept[k], m) by {
            lines(content).lemma_filter_pred(lacks(m), k);
        }
        lemma_joined_lines_lack(kept, m);
        let t = join_lines(kept) + seq!['\n'];
        assert(t =~= join_lines(kept) + seq!['\n'] + Seq::<char>::empty());
        if contains(t, m) {
            lemma_contains_across_break(join_lines(kept), Seq::<char>::empty(), m);
            let j = choose|j: int| matches_at(Seq::<char>::empty(), m, j);
            assert(!matches_at(Seq::<char>::empty(), m, j));
        }
    }
}

/// Neither marker holds a line break.
proof fn lemma_markers_single_line()
    ensures
        shim_marker().len() > 0,
        !shim_marker().contains('\n'),
        eval_marker().len() > 0,
        !eval_marker().contains('\n'),
{
    reveal_strlit("# phm shims");
    reveal_strlit("# phm shell");
    assert forall|i: int| 0 <= i < shim_marker().len() implies shim_marker()[i] != '\n' by {}
    assert forall|i: int| 0 <= i < eval_marker().len() implies eval_marker()[i] != '\n' by {}
}

/// Once the shim `PATH` lines are removed from a file, it no longer holds the
/// shim `PATH` line.
pub proof fn lemma_shim_path_removed(content: Seq<char>)
    ensures
        without_marked(content, shim_marker()) matches Some(t) ==> !contains(t, shim_marker()),
{
    lemma_markers_single_line();
    lemma_removal_clears_marker(content, shim_marker());
}

/// Once the shell integration lines are removed from a file, it no longer
/// holds the shell integration mark.
pub proof fn lemma_shell_eval_removed(content: Seq<char>)
    ensures
        without_marked(content, eval_marker()) matches Some(t) ==> !contains(t, eval_marker()),
{
    lemma_markers_single_line();
    lemma_removal_clears_marker(content, eval_marker());
}

/// A line appended to a file is found in it afterwards.
proof fn lemma_appended_found(content: Seq<char>, line: Seq<char>, m: Seq<char>, at: int)
    requires
        0 <= at && at + m.len() <= line.len(),
        line.subrange(at, at + m.len()) == m,
    ensures
        contains(content + appended(line), m),
{
    let s = content + appended(line);
    let i = content.len() + 1 + at;
    assert(s.subrange(i, i + m.len()) =~= line.subrange(at, at + m.len()));
    assert(matches_at(s, m, i));
}

/// After the shim `PATH` line is appended to a file, the file holds it: a
/// second injection finds it and writes nothing.
pub proof fn lemma_shim_path_injected(content: Seq<char>, bin_dir: Seq<char>)
    ensures
        contains(content + appended(shim_path_text(bin_dir)), shim_marker()),
{
    let line = shim_path_text(bin_dir);
    let at = line.len() - shim_marker().len();
    assert(line.subrange(at, at + shim_marker().len()) =~= shim_marker());
    lemma_appended_found(content, line, shim_marker(), at);
}

/// After the shell integration line is appended to a file, the file holds it:
/// a second injection finds it and writes nothing.
pub proof fn lemma_shell_eval_injected(content: Seq<char>, shell: Seq<char>)
    ensures
        contains(content + appended(shell_eval_text(shell)), eval_marker()),
{
    let line = shell_eval_text(shell);
    let at = line.len() - eval_marker().len();
    assert(line.subrange(at, at + eval_marker().len()) =~= eval_marker());
    lemma_appended_found(content, line, eval_marker(), at);
}

/// What injecting the shim `PATH` line appends to the target file, given the
/// candidate files' contents: nothing when one already holds the line.
pub open spec fn shim_injection(contents: Seq<Option<Seq<char>>>, bin_dir: Seq<char>) -> Option<Seq<char>> {
    if some_file_holds(contents, shim_marker()) {
        None
    } else {
        Some(appended(shim_path_text(bin_dir)))
    }
}

/// What injecting the shell integration line appends to the target file,
/// for the shell named in `$SHELL`: nothing when a candidate file already
/// loads phm's shell integration.
pub open spec fn eval_injection(contents: Seq<Option<Seq<char>>>, shell_env: Seq<char>) -> Option<Seq<char>> {
    if some_file_holds(contents, eval_marker()) || some_file_holds(contents, "phm env"@) {
        None
    } else {
        Some(appended(shell_eval_text(shell_name_of(shell_env))))
    }
}

/// The text `phm shim create` appends to the target file for the shim
/// directory `bin_dir`, given the contents of the candidate files (`None`:
/// missing or unreadable); nothing when the line is already present.
pub fn inject_shim_path(contents: &Vec<Option<String>>, bin_dir: &str) -> (r: Option<String>)
    ensures
        crate::text::opt_string_view(r) == shim_injection(contents_view(contents@), bin_dir@),
{
    if shim_path_present(contents) {
        None
    } else {
        let line = shim_path_line(bin_dir);
        Some(appended_text(line.as_str()))
    }
}

/// The text `phm shim create` appends to the target file to load phm's shell
/// integration, given the candidate files' contents and `$SHELL`; nothing
/// when it is already loaded.
pub fn inject_shell_eval(contents: &Vec<Option<String>>, shell_env: &str) -> (r: Option<String>)
    ensures
        crate::text::opt_string_view(r) == eval_injection(contents_view(contents@), shell_env@),
{
    if shell_eval_present(contents) {
        None
    } else {
        let shell = detect_shell_name(shell_env);
        let line = shell_eval_line(shell.as_str());
        Some(appended_text(line.as_str()))
    }
}

/// The content of a candidate file after an injection appended `added` to it
/// (a missing file is created with just that).
pub open spec fn after_append(c: Option<Seq<char>>, added: Seq<char>) -> Option<Seq<char>> {
    match c {
        Some(t) => Some(t + added),
        None => Some(added),
    }
}

/// Injecting the shim `PATH` line into one of the candidate files that lack
/// it appends the line; injecting again then finds it and appends nothing.
pub proof fn lemma_shim_injection_idempotent(contents: Seq<Option<Seq<char>>>, k: int, bin_dir: Seq<char>)
    requires
        0 <= k < contents.len(),
        !some_file_holds(contents, shim_marker()),
    ensures
        shim_injection(contents, bin_dir) == Some(appended(shim_path_text(bin_dir))),
        shim_injection(
            contents.update(k, after_append(contents[k], appended(shim_path_text(bin_dir)))),
            bin_dir,
        ) is None,
{
    let before = match contents[k] {
        Some(t) => t,
        None => Seq::<char>::empty(),
    };
    let after = contents.update(k, after_append(contents[k], appended(shim_path_text(bin_dir))));
    assert(after[k] == Some(before + appended(shim_path_text(bin_dir))));
    lemma_second_shim_injection_finds_the_first(after, k, before, bin_dir);
}

/// Injecting the shell integration line into one of the candidate files that
/// do not load phm appends the line; injecting again then finds it and
/// appends nothing.
pub proof fn lemma_eval_injection_idempotent(contents: Seq<Option<Seq<char>>>, k: int, shell_env: Seq<char>)
    requires
        0 <= k < contents.len(),
        !some_file_holds(contents, eval_marker()),
        !some_file_holds(contents, "phm env"@),
    ensures
        eval_injection(contents, shell_env) == Some(appended(shell_eval_text(shell_name_of(shell_env)))),
        eval_injection(
            contents.update(
                k,
                after_append(contents[k], appended(shell_eval_text(shell_name_of(shell_env)))),
            ),
            shell_env,
        ) is None,
{
    let line = shell_eval_text(shell_name_of(shell_env));
    let before = match contents[k] {
        Some(t) => t,
        None => Seq::<char>::empty(),
    };
    let after = contents.update(k, after_append(contents[k], appended(line)));
    assert(after[k] == Some(before + appended(line)));
    lemma_second_eval_injection_finds_the_first(after, k, before, shell_name_of(shell_env));
}

/// Removing the shell integration from a file it was appended to takes every
/// marked line out, keeping the other lines in order.
pub proof fn lemma_eval_removed_after_injection(before: Seq<char>, shell: Seq<char>)
    ensures
        without_marked(before + appended(shell_eval_text(shell)), eval_marker()) matches Some(t)
            && !contains(t, eval_marker())
            && t == join_lines(lines(before + appended(shell_eval_text(shell))).filter(lacks(eval_marker())))
            + seq!['\n'],
{
    lemma_shell_eval_injected(before, shell);
    lemma_shell_eval_removed(before + appended(shell_eval_text(shell)));
}

/// Removing the shim `PATH` line from a file it was appended to takes every
/// marked line out, keeping the other lines in order.
pub proof fn lemma_shim_path_removed_after_injection(before: Seq<char>, bin_dir: Seq<char>)
    ensures
        without_marked(before + appended(shim_path_text(bin_dir)), shim_marker()) matches Some(t)
            && !contains(t, shim_marker())
            && t == join_lines(lines(before + appended(shim_path_text(bin_dir))).filter(lacks(shim_marker())))
            + seq!['\n'],
{
    lemma_shim_path_injected(before, bin_dir);
    lemma_shim_path_removed(before + appended(shim_path_text(bin_dir)));
}

/// The file an injection writes to is always among the files searched for
/// an earlier injection and cleaned on removal.
pub proof fn lemma_target_is_candidate(files: Seq<Seq<char>>, target: Seq<char>)
    ensures
        exists|k: int| 0 <= k < with_target(files, target).len() && same_path(
            #[trigger] with_target(files, target)[k],
            target,
        ),
{
    let w = with_target(files, target);
    if exists|k: int| 0 <= k < files.len() && same_path(#[trigger] files[k], target) {
        let k = choose|k: int| 0 <= k < files.len() && same_path(#[trigger] files[k], target);
        assert(w[k] == files[k]);
        assert(same_path(w[k], target));
    } else {
        assert(w[files.len() as int] == target);
        assert(same_path(w[files.len() as int], target));
    }
}

/// Once the shim `PATH` line has been appended to one of the candidate files,
/// the next injection finds it there and writes nothing.
pub proof fn lemma_second_shim_injection_finds_the_first(
    contents: Seq<Option<Seq<char>>>,
    k: int,
    before: Seq<char>,
    bin_dir: Seq<char>,
)
    requires
        0 <= k < contents.len(),
        contents[k] == Some(before + appended(shim_path_text(bin_dir))),
    ensures
        some_file_holds(contents, shim_marker()),
{
    lemma_shim_path_injected(before, bin_dir);
    assert(contents[k] matches Some(c) && contains(c, shim_marker()));
}

/// Once the shell integration line has been appended to one of the candidate
/// files, the next injection finds it there and writes nothing.
pub proof fn lemma_second_eval_injection_finds_the_first(
    contents: Seq<Option<Seq<char>>>,
    k: int,
    before: Seq<char>,
    shell: Seq<char>,
)
    requires
        0 <= k < contents.len(),
        contents[k] == Some(before + appended(shell_eval_text(shell))),
    ensures
        some_file_holds(contents, eval_marker()),
{
    lemma_shell_eval_injected(before, shell);
    assert(contents[k] matches Some(c) && contains(c, eval_marker()));
}

/// With no version found in the project, a shim uses the stored default,
/// exactly; with none, it reports the directory it ran in.
pub fn shim_default_constraint(default: Option<&str>, cwd: &str) -> (r: Result<VersionConstraint, PhmError>)
    ensures
        match default {
            Some(d) => match version_of(d@) {
                Some(v) => r == Ok::<VersionConstraint, PhmError>(exact_of(v)),
                None => r matches Err(PhmError::InvalidDefaultVersion(s)) && s@ == d@,
            },
            None => r matches Err(PhmError::NoVersionDetected(s)) && s@ == cwd@,
        },
{
    match default {
        Some(d) => match PhpVersion::parse(d) {
            Some(v) => Ok(VersionConstraint::exact(v)),
            None => Err(PhmError::InvalidDefaultVersion(String::from_str(d))),
        },
        None => Err(PhmError::NoVersionDetected(String::from_str(cwd))),
    }
}

/// The binary a shim runs: the resolved version, its installation's binary
/// directory, and the binary in it.
#[derive(Debug)]
pub struct ShimTarget {
    pub version: PhpVersion,
    pub bin_dir: String,
    pub binary: String,
}

/// Resolves the binary `binary_name` a shim stands for: the lowest installed
/// version the constraint admits (the first installation of it), else the
/// error naming the constraint's minimum.
pub fn resolve_shim(
    constraint: VersionConstraint,
    installations: &[PhpInstallation],
    binary_name: &str,
) -> (r: Result<ShimTarget, PhmError>)
    ensures
        match lowest_admitted(constraint, versions_of(installations@)) {
            Some(v) => r matches Ok(t) && {
                let k = first_with_version(installations@, v, 0);
                &&& 0 <= k < installations@.len()
                &&& t.version == v
                &&& t.bin_dir@ == installations@[k].bin_dir@
                &&& t.binary@ == push_path(installations@[k].bin_dir@, binary_name@)
            },
            None => r == Err::<ShimTarget, PhmError>(PhmError::NoSatisfyingVersion(constraint.min)),
        },
{
    let versions = installation_versions(installations);
    match constraint.resolve(versions.as_slice()) {
        Some(v) => {
            proof {
                crate::version::lemma_lowest_admitted(constraint, versions@);
                let k = choose|k: int| 0 <= k < versions@.len() && versions@[k] == v;
                assert(installations@[k].version == v);
            }
            match find_installation(installations, v) {
                Some(k) => {
                    let bin_dir = installations[k].bin_dir.clone();
                    let binary = path_push(bin_dir.as_str(), binary_name);
                    Ok(ShimTarget { version: v, bin_dir, binary })
                },
                None => Err(PhmError::NoSatisfyingVersion(constraint.target())),
            }
        },
        None => Err(PhmError::NoSatisfyingVersion(constraint.target())),
    }
}

/// The command a shim runs in its place: the binary itself, or `proot`
/// bind-mounting `resolv.conf` over `/etc/resolv.conf` and running the binary.
#[derive(Debug)]
pub struct ShimCommand {
    pub program: String,
    pub leading_args: Vec<String>,
}

pub fn shim_command(binary: &str, proot: Option<(&str, &str)>) -> (r: ShimCommand)
    ensures
        match proot {
            Some((p, rs)) => r.program@ == p@ && r.leading_args.deep_view() == seq![
                "-b"@,
                rs@ + ":/etc/resolv.conf"@,
                binary@,
            ],
            None => r.program@ == binary@ && r.leading_args@.len() == 0,
        },
{
    match proot {
        Some((p, rs)) => {
            let mut bind = String::from_str(rs);
            bind.append(":/etc/resolv.conf");
            let args = vec![String::from_str("-b"), bind, String::from_str(binary)];
            ShimCommand { program: String::from_str(p), leading_args: args }
        },
        None => ShimCommand { program: String::from_str(binary), leading_args: Vec::new() },
    }
}

/// The program was started under the name of a PHP binary (through a shim
/// link), other than `phm`: that name.
pub open spec fn shim_name(arg0: Seq<char>) -> Option<Seq<char>> {
    match crate::paths::file_name_of(arg0) {
        Some(n) => if n != "phm"@ && crate::multishell::php_binary_names().contains(n) {
            Some(n)
        } else {
            None
        },
        None => None,
    }
}

/// The PHP binary the program stands in for, from the path it was started
/// by (`argv[0]`); none when it runs as `phm` itself.
pub fn invoked_shim(arg0: &str) -> (r: Option<String>)
    ensures
        match r {
            Some(n) => shim_name(arg0@) == Some(n@),
            None => shim_name(arg0@) is None,
        },
{
    match crate::paths::file_name_exec(arg0) {
        Some(n) => {
            let nc = chars_of(n.as_str());
            let phm = chars_of("phm");
            if !eq_exec(nc.as_slice(), phm.as_slice()) && crate::multishell::is_php_binary(n.as_str()) {
                Some(n)
            } else {
                None
            }
        },
        None => None,
    }
}

} // verus!
