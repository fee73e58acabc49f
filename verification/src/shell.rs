//! The initialization code that `phm env` prints for each shell.

use vstd::prelude::*;
use vstd::string::StringExecFns;
use crate::paths::{join, path_join};
use crate::text::{
    contains, find_pat, matches_at, lemma_find_pat_bounds, lemma_lacks_char, lemma_concat_lacks,
    lemma_contains_within, lemma_found_at,
};

verus! {

/// The shells phm can set up.
#[derive(Debug, Clone, Copy, PartialEq, Eq, Structural)]
pub enum ShellKind {
    Zsh,
    Bash,
    Fish,
}

pub open spec fn zsh_hook() -> Seq<char> {
    "autoload -U add-zsh-hook\n_phm_autoload_hook() {\n  if [[ -f composer.json || -f .php-version ]]; then\n    phm use --silent-if-unchanged\n  fi\n}\nadd-zsh-hook -D chpwd _phm_autoload_hook\nadd-zsh-hook chpwd _phm_autoload_hook\nif [[ \"${PHM_INIT_PID:-}\" != \"$$\" ]]; then\n  export PHM_INIT_PID=\"$$\"\n  _phm_autoload_hook\nfi\nrehash\n"@
}

pub open spec fn bash_hook() -> Seq<char> {
    "__phm_cd() {\n  \\builtin cd \"$@\" || return\n  if [[ -f composer.json || -f .php-version ]]; then\n    phm use --silent-if-unchanged\n  fi\n}\nalias cd=__phm_cd\nif [[ \"${PHM_INIT_PID:-}\" != \"$$\" ]]; then\n  export PHM_INIT_PID=\"$$\"\n  if [[ -f composer.json || -f .php-version ]]; then\n    phm use --silent-if-unchanged\n  fi\nfi\nhash -r\n"@
}

pub open spec fn fish_hook() -> Seq<char> {
    "function _phm_autoload --on-variable PWD\n  if test -f composer.json; or test -f .php-version\n    phm use --silent-if-unchanged\n  end\nend\nif test -f composer.json; or test -f .php-version\n  _phm_autoload\nend\n"@
}

/// The lines that put the shell's `bin` directory, then the fallback `bin`
/// directory, in front of `PATH` and record the shell's directory.
pub open spec fn path_lines(shell: ShellKind, bin: Seq<char>, fallback_bin: Seq<char>, ms: Seq<char>) -> Seq<char> {
    match shell {
        ShellKind::Fish => "set -gx PATH \""@ + bin + "\" \""@ + fallback_bin + "\" $PATH\nset -gx PHM_MULTISHELL_PATH \""@
            + ms + "\"\n"@,
        _ => "export PATH=\""@ + bin + ":"@ + fallback_bin + ":$PATH\"\nexport PHM_MULTISHELL_PATH=\""@ + ms
            + "\"\n"@,
    }
}

/// The line that marks the session silent.
pub open spec fn silent_line(shell: ShellKind) -> Seq<char> {
    match shell {
        ShellKind::Fish => "set -gx PHM_SILENT 1\n"@,
        _ => "export PHM_SILENT=1\n"@,
    }
}

/// The hook that runs `phm use --silent-if-unchanged` on entering a project
/// directory.
pub open spec fn cd_hook(shell: ShellKind) -> Seq<char> {
    match shell {
        ShellKind::Zsh => zsh_hook(),
        ShellKind::Bash => bash_hook(),
        ShellKind::Fish => fish_hook(),
    }
}

/// The initialization code for `shell`.
pub open spec fn env_text(
    shell: ShellKind,
    multishell_path: Seq<char>,
    fallback_path: Seq<char>,
    use_on_cd: bool,
    silent: bool,
) -> Seq<char> {
    path_lines(shell, join(multishell_path, "bin"@), join(fallback_path, "bin"@), multishell_path)
        + (if silent { silent_line(shell) } else { Seq::empty() }) + (if use_on_cd {
        cd_hook(shell)
    } else {
        Seq::empty()
    })
}

/// The variable that marks a session silent.
pub open spec fn silent_marker() -> Seq<char> {
    "PHM_SILENT"@
}

/// The call the directory hook makes.
pub open spec fn cd_marker() -> Seq<char> {
    "phm use --silent-if-unchanged"@
}

proof fn lemma_silent_marker_has_s()
    ensures
        silent_marker().contains('S'),
{
    reveal_strlit("PHM_SILENT");
    assert(silent_marker()[4] == 'S');
}

proof fn lemma_zsh_hook_lacks_silent_marker()
    ensures
        !contains(zsh_hook(), silent_marker()),
{
    reveal_strlit("autoload -U add-zsh-hook\n_phm_autoload_hook() {\n  if [[ -f composer.json || -f .php-version ]]; then\n    phm use --silent-if-unchanged\n  fi\n}\nadd-zsh-hook -D chpwd _phm_autoload_hook\nadd-zsh-hook chpwd _phm_autoload_hook\nif [[ \"${PHM_INIT_PID:-}\" != \"$$\" ]]; then\n  export PHM_INIT_PID=\"$$\"\n  _phm_autoload_hook\nfi\nrehash\n");
    assert forall|i: int| 0 <= i < zsh_hook().len() implies zsh_hook()[i] != 'S' by {}
    lemma_silent_marker_has_s();
    lemma_lacks_char(zsh_hook(), silent_marker(), 'S');
}

proof fn lemma_bash_hook_lacks_silent_marker()
    ensures
        !contains(bash_hook(), silent_marker()),
{
    reveal_strlit("__phm_cd() {\n  \\builtin cd \"$@\" || return\n  if [[ -f composer.json || -f .php-version ]]; then\n    phm use --silent-if-unchanged\n  fi\n}\nalias cd=__phm_cd\nif [[ \"${PHM_INIT_PID:-}\" != \"$$\" ]]; then\n  export PHM_INIT_PID=\"$$\"\n  if [[ -f composer.json || -f .php-version ]]; then\n    phm use --silent-if-unchanged\n  fi\nfi\nhash -r\n");
    assert forall|i: int| 0 <= i < bash_hook().len() implies bash_hook()[i] != 'S' by {}
    lemma_silent_marker_has_s();
    lemma_lacks_char(bash_hook(), silent_marker(), 'S');
}

proof fn lemma_fish_hook_lacks_silent_marker()
    ensures
        !contains(fish_hook(), silent_marker()),
{
    reveal_strlit("function _phm_autoload --on-variable PWD\n  if test -f composer.json; or test -f .php-version\n    phm use --silent-if-unchanged\n  end\nend\nif test -f composer.json; or test -f .php-version\n  _phm_autoload\nend\n");
    assert forall|i: int| 0 <= i < fish_hook().len() implies fish_hook()[i] != 'S' by {}
    lemma_silent_marker_has_s();
    lemma_lacks_char(fish_hook(), silent_marker(), 'S');
}

/// The command in the bash hook that changes directory.
pub open spec fn bash_cd_command() -> Seq<char> {
    "\\builtin cd \"$@\""@
}

/// The bash hook changes directory before it switches versions: its first
/// `\builtin cd "$@"` comes before its first `phm use --silent-if-unchanged`,
/// so the version is detected in the directory entered, not the one left.
pub proof fn lemma_bash_hook_changes_directory_first()
    ensures
        contains(cd_hook(ShellKind::Bash), bash_cd_command()),
        find_pat(cd_hook(ShellKind::Bash), bash_cd_command(), 0) < find_pat(
            cd_hook(ShellKind::Bash),
            cd_marker(),
            0,
        ),
{
    reveal_strlit("__phm_cd() {\n  \\builtin cd \"$@\" || return\n  if [[ -f composer.json || -f .php-version ]]; then\n    phm use --silent-if-unchanged\n  fi\n}\nalias cd=__phm_cd\nif [[ \"${PHM_INIT_PID:-}\" != \"$$\" ]]; then\n  export PHM_INIT_PID=\"$$\"\n  if [[ -f composer.json || -f .php-version ]]; then\n    phm use --silent-if-unchanged\n  fi\nfi\nhash -r\n");
    reveal_strlit("\\builtin cd \"$@\"");
    reveal_strlit("phm use --silent-if-unchanged");
    let h = bash_hook();
    let d = bash_cd_command();
    let m = cd_marker();
    assert(h.subrange(15, 31) =~= d);
    lemma_found_at(h, d, 15);
    lemma_find_pat_bounds(h, d, 0);
    lemma_find_pat_bounds(h, m, 0);
    assert forall|k: int| 0 <= k < 15 implies !matches_at(h, d, k) by {
        if matches_at(h, d, k) {
            assert(h.subrange(k, k + 16)[0] == h[k]);
        }
    }
    assert forall|k: int| 0 <= k <= 15 implies !matches_at(h, m, k) by {
        if matches_at(h, m, k) {
            assert(h.subrange(k, k + 29)[0] == h[k]);
            if k == 2 {
                assert(h.subrange(k, k + 29)[3] == h[5]);
            }
        }
    }
    assert(matches_at(h, d, 15));
    assert(h.len() > 31);
    assert(find_pat(h, d, 0) == 15);
    assert(find_pat(h, m, 0) > 15);
}

/// The command in a hook that changes directory, or watches for it.
pub open spec fn dir_change_marker(shell: ShellKind) -> Seq<char> {
    match shell {
        ShellKind::Zsh => "add-zsh-hook chpwd"@,
        ShellKind::Bash => "alias cd=__phm_cd"@,
        ShellKind::Fish => "--on-variable PWD"@,
    }
}

/// What a hook holds: the call, both project files, and the directory-change
/// command.
pub open spec fn hook_holds_all(h: Seq<char>, shell: ShellKind) -> bool {
    &&& contains(h, cd_marker())
    &&& contains(h, "composer.json"@)
    &&& contains(h, ".php-version"@)
    &&& contains(h, dir_change_marker(shell))
}

proof fn lemma_zsh_hook_holds()
    ensures
        hook_holds_all(zsh_hook(), ShellKind::Zsh),
{
    reveal_strlit("autoload -U add-zsh-hook\n_phm_autoload_hook() {\n  if [[ -f composer.json || -f .php-version ]]; then\n    phm use --silent-if-unchanged\n  fi\n}\nadd-zsh-hook -D chpwd _phm_autoload_hook\nadd-zsh-hook chpwd _phm_autoload_hook\nif [[ \"${PHM_INIT_PID:-}\" != \"$$\" ]]; then\n  export PHM_INIT_PID=\"$$\"\n  _phm_autoload_hook\nfi\nrehash\n");
    reveal_strlit("phm use --silent-if-unchanged");
    reveal_strlit("composer.json");
    reveal_strlit(".php-version");
    reveal_strlit("add-zsh-hook chpwd");
    let h = zsh_hook();
    assert(h.subrange(105, 134) =~= cd_marker());
    lemma_found_at(h, cd_marker(), 105);
    assert(h.subrange(59, 72) =~= "composer.json"@);
    lemma_found_at(h, "composer.json"@, 59);
    assert(h.subrange(79, 91) =~= ".php-version"@);
    lemma_found_at(h, ".php-version"@, 79);
    assert(h.subrange(183, 201) =~= dir_change_marker(ShellKind::Zsh));
    lemma_found_at(h, dir_change_marker(ShellKind::Zsh), 183);
}

proof fn lemma_bash_hook_holds()
    ensures
        hook_holds_all(bash_hook(), ShellKind::Bash),
{
    reveal_strlit("__phm_cd() {\n  \\builtin cd \"$@\" || return\n  if [[ -f composer.json || -f .php-version ]]; then\n    phm use --silent-if-unchanged\n  fi\n}\nalias cd=__phm_cd\nif [[ \"${PHM_INIT_PID:-}\" != \"$$\" ]]; then\n  export PHM_INIT_PID=\"$$\"\n  if [[ -f composer.json || -f .php-version ]]; then\n    phm use --silent-if-unchanged\n  fi\nfi\nhash -r\n");
    reveal_strlit("phm use --silent-if-unchanged");
    reveal_strlit("composer.json");
    reveal_strlit(".php-version");
    reveal_strlit("alias cd=__phm_cd");
    let h = bash_hook();
    assert(h.subrange(99, 128) =~= cd_marker());
    lemma_found_at(h, cd_marker(), 99);
    assert(h.subrange(53, 66) =~= "composer.json"@);
    lemma_found_at(h, "composer.json"@, 53);
    assert(h.subrange(73, 85) =~= ".php-version"@);
    lemma_found_at(h, ".php-version"@, 73);
    assert(h.subrange(136, 153) =~= dir_change_marker(ShellKind::Bash));
    lemma_found_at(h, dir_change_marker(ShellKind::Bash), 136);
}

proof fn lemma_fish_hook_holds()
    ensures
        hook_holds_all(fish_hook(), ShellKind::Fish),
{
    reveal_strlit("function _phm_autoload --on-variable PWD\n  if test -f composer.json; or test -f .php-version\n    phm use --silent-if-unchanged\n  end\nend\nif test -f composer.json; or test -f .php-version\n  _phm_autoload\nend\n");
    reveal_strlit("phm use --silent-if-unchanged");
    reveal_strlit("composer.json");
    reveal_strlit(".php-version");
    reveal_strlit("--on-variable PWD");
    let h = fish_hook();
    assert(h.subrange(97, 126) =~= cd_marker());
    lemma_found_at(h, cd_marker(), 97);
    assert(h.subrange(54, 67) =~= "composer.json"@);
    lemma_found_at(h, "composer.json"@, 54);
    assert(h.subrange(80, 92) =~= ".php-version"@);
    lemma_found_at(h, ".php-version"@, 80);
    assert(h.subrange(23, 40) =~= dir_change_marker(ShellKind::Fish));
    lemma_found_at(h, dir_change_marker(ShellKind::Fish), 23);
}

/// Neither marker holds the characters that join the pieces of the output.
proof fn lemma_marker_chars()
    ensures
        !silent_marker().contains('"'),
        !silent_marker().contains(':'),
        !silent_marker().contains('/'),
        !silent_marker().contains('b'),
        !silent_marker().contains('\n'),
        silent_marker().contains('N'),
        !cd_marker().contains('"'),
        !cd_marker().contains(':'),
        !cd_marker().contains('/'),
        !cd_marker().contains('b'),
        !cd_marker().contains('\n'),
        cd_marker().contains('u'),
{
    reveal_strlit("PHM_SILENT");
    reveal_strlit("phm use --silent-if-unchanged");
    assert(silent_marker()[8] == 'N');
    assert(cd_marker()[4] == 'u');
    assert forall|i: int| 0 <= i < silent_marker().len() implies silent_marker()[i] != '"'
        && silent_marker()[i] != ':' && silent_marker()[i] != '/' && silent_marker()[i] != 'b'
        && silent_marker()[i] != '\n' by {}
    assert forall|i: int| 0 <= i < cd_marker().len() implies cd_marker()[i] != '"'
        && cd_marker()[i] != ':' && cd_marker()[i] != '/' && cd_marker()[i] != 'b'
        && cd_marker()[i] != '\n' by {}
}

/// `dir/bin` lacks a marker that `dir` lacks.
proof fn lemma_join_bin_lacks(ms: Seq<char>, p: Seq<char>, c: char)
    requires
        p.len() > 0,
        p.contains(c),
        c == 'N' || c == 'u',
        !contains(ms, p),
        !p.contains('/'),
        !p.contains('b'),
    ensures
        !contains(join(ms, "bin"@), p),
{
    reveal_strlit("bin");
    assert forall|i: int| 0 <= i < "bin"@.len() implies "bin"@[i] != c by {}
    lemma_lacks_char("bin"@, p, c);
    assert("bin"@[0] == 'b');
    if ms.len() == 0 || ms.last() == '/' {
        lemma_concat_lacks(ms, "bin"@, p);
    } else {
        let slash = seq!['/'];
        lemma_lacks_char(slash, p, c);
        lemma_concat_lacks(ms, slash, p);
        assert((ms + slash).last() == '/');
        lemma_concat_lacks(ms + slash, "bin"@, p);
    }
}

/// The `PATH` lines lack a marker that the paths lack.
proof fn lemma_path_lines_lack(shell: ShellKind, ms: Seq<char>, fb: Seq<char>, p: Seq<char>, c: char)
    requires
        p.len() > 0,
        p.contains(c),
        c == 'N' || c == 'u',
        !p.contains('"'),
        !p.contains(':'),
        !p.contains('/'),
        !p.contains('b'),
        !contains(ms, p),
        !contains(fb, p),
    ensures
        !contains(path_lines(shell, join(ms, "bin"@), join(fb, "bin"@), ms), p),
{
    reveal_strlit("export PATH=\"");
    reveal_strlit(":");
    reveal_strlit(":$PATH\"\nexport PHM_MULTISHELL_PATH=\"");
    reveal_strlit("\"\n");
    reveal_strlit("set -gx PATH \"");
    reveal_strlit("\" \"");
    reveal_strlit("\" $PATH\nset -gx PHM_MULTISHELL_PATH \"");
    reveal_strlit("\"\n");
    reveal_strlit("export PHM_SILENT=1\n");
    reveal_strlit("set -gx PHM_SILENT 1\n");
    let bin = join(ms, "bin"@);
    let fbin = join(fb, "bin"@);
    lemma_join_bin_lacks(ms, p, c);
    lemma_join_bin_lacks(fb, p, c);
    let (l1, l2, l3, l4) = match shell {
        ShellKind::Fish => ("set -gx PATH \""@, "\" \""@, "\" $PATH\nset -gx PHM_MULTISHELL_PATH \""@, "\"\n"@),
        _ => ("export PATH=\""@, ":"@, ":$PATH\"\nexport PHM_MULTISHELL_PATH=\""@, "\"\n"@),
    };
    assert forall|i: int| 0 <= i < l1.len() implies l1[i] != c by {}
    assert forall|i: int| 0 <= i < l2.len() implies l2[i] != c by {}
    assert forall|i: int| 0 <= i < l3.len() implies l3[i] != c by {}
    assert forall|i: int| 0 <= i < l4.len() implies l4[i] != c by {}
    lemma_lacks_char(l1, p, c);
    lemma_lacks_char(l2, p, c);
    lemma_lacks_char(l3, p, c);
    lemma_lacks_char(l4, p, c);
    let x1 = l1 + bin;
    lemma_concat_lacks(l1, bin, p);
    let x2 = x1 + l2;
    lemma_concat_lacks(x1, l2, p);
    let x3 = x2 + fbin;
    assert(x2.last() == l2.last());
    lemma_concat_lacks(x2, fbin, p);
    let x4 = x3 + l3;
    lemma_concat_lacks(x3, l3, p);
    let x5 = x4 + ms;
    assert(x4.last() == l3.last());
    lemma_concat_lacks(x4, ms, p);
    let x6 = x5 + l4;
    lemma_concat_lacks(x5, l4, p);
    assert(path_lines(shell, bin, fbin, ms) == x6);
}

/// The silent line holds the silent marker and not the hook's call.
proof fn lemma_silent_line_shape(shell: ShellKind)
    ensures
        contains(silent_line(shell), silent_marker()),
        !contains(silent_line(shell), cd_marker()),
        silent_line(shell).len() > 0,
        silent_line(shell).last() == '\n',
{
    reveal_strlit("export PHM_SILENT=1\n");
    reveal_strlit("set -gx PHM_SILENT 1\n");
    reveal_strlit("PHM_SILENT");
    lemma_marker_chars();
    let l = silent_line(shell);
    assert forall|i: int| 0 <= i < l.len() implies l[i] != 'u' by {}
    lemma_lacks_char(l, cd_marker(), 'u');
    match shell {
        ShellKind::Fish => {
            assert(l.subrange(8, 18) =~= silent_marker());
            lemma_found_at(l, silent_marker(), 8);
        },
        _ => {
            assert(l.subrange(7, 17) =~= silent_marker());
            lemma_found_at(l, silent_marker(), 7);
        },
    }
}

/// The hooks hold their call, both project files and the directory-change
/// command, and not the silent marker.
proof fn lemma_hook_shape(shell: ShellKind)
    ensures
        hook_holds_all(cd_hook(shell), shell),
        !contains(cd_hook(shell), silent_marker()),
{
    match shell {
        ShellKind::Zsh => {
            lemma_zsh_hook_holds();
            lemma_zsh_hook_lacks_silent_marker();
        },
        ShellKind::Bash => {
            lemma_bash_hook_holds();
            lemma_bash_hook_lacks_silent_marker();
        },
        ShellKind::Fish => {
            lemma_fish_hook_holds();
            lemma_fish_hook_lacks_silent_marker();
        },
    }
}

/// With paths that hold neither marker, `phm env` exports `PHM_SILENT` exactly
/// when asked to be silent and installs the directory hook exactly when asked
/// to switch on `cd`; the hook then checks both `composer.json` and
/// `.php-version` and watches directory changes. The plain output (neither
/// flag) always comes first.
pub proof fn lemma_env_markers(
    shell: ShellKind,
    ms: Seq<char>,
    fb: Seq<char>,
    use_on_cd: bool,
    silent: bool,
)
    requires
        !contains(ms, silent_marker()),
        !contains(fb, silent_marker()),
        !contains(ms, cd_marker()),
        !contains(fb, cd_marker()),
    ensures
        contains(env_text(shell, ms, fb, use_on_cd, silent), silent_marker()) <==> silent,
        contains(env_text(shell, ms, fb, use_on_cd, silent), cd_marker()) <==> use_on_cd,
        use_on_cd ==> hook_holds_all(env_text(shell, ms, fb, use_on_cd, silent), shell),
        env_text(shell, ms, fb, use_on_cd, silent).subrange(
            0,
            env_text(shell, ms, fb, false, false).len() as int,
        ) == env_text(shell, ms, fb, false, false),
{
    lemma_marker_chars();
    lemma_silent_line_shape(shell);
    lemma_hook_shape(shell);
    reveal_strlit("PHM_SILENT");
    reveal_strlit("phm use --silent-if-unchanged");
    let base = path_lines(shell, join(ms, "bin"@), join(fb, "bin"@), ms);
    lemma_path_lines_lack(shell, ms, fb, silent_marker(), 'N');
    lemma_path_lines_lack(shell, ms, fb, cd_marker(), 'u');
    let sp = if silent { silent_line(shell) } else { Seq::<char>::empty() };
    let hp = if use_on_cd { cd_hook(shell) } else { Seq::<char>::empty() };
    let out = env_text(shell, ms, fb, use_on_cd, silent);
    assert(out == base + sp + hp);
    assert(env_text(shell, ms, fb, false, false) =~= base);
    assert(out.subrange(0, base.len() as int) =~= base);
    reveal_strlit("export PATH=\"");
    reveal_strlit(":");
    reveal_strlit(":$PATH\"\nexport PHM_MULTISHELL_PATH=\"");
    reveal_strlit("\"\n");
    reveal_strlit("set -gx PATH \"");
    reveal_strlit("\" \"");
    reveal_strlit("\" $PATH\nset -gx PHM_MULTISHELL_PATH \"");
    reveal_strlit("\"\n");
    reveal_strlit("export PHM_SILENT=1\n");
    reveal_strlit("set -gx PHM_SILENT 1\n");
    assert(base.last() == '\n');
    assert(!contains(Seq::<char>::empty(), silent_marker()));
    assert(!contains(Seq::<char>::empty(), cd_marker()));
    let bs = base + sp;
    assert(bs.len() == 0 || bs.last() == '\n');
    if silent {
        lemma_contains_within(base, sp, hp, silent_marker());
    } else {
        lemma_concat_lacks(base, sp, silent_marker());
        lemma_concat_lacks(bs, hp, silent_marker());
    }
    if use_on_cd {
        lemma_contains_within(bs, hp, Seq::<char>::empty(), cd_marker());
        lemma_contains_within(bs, hp, Seq::<char>::empty(), "composer.json"@);
        lemma_contains_within(bs, hp, Seq::<char>::empty(), ".php-version"@);
        lemma_contains_within(bs, hp, Seq::<char>::empty(), dir_change_marker(shell));
        assert(bs + hp + Seq::<char>::empty() =~= out);
    } else {
        lemma_concat_lacks(base, sp, cd_marker());
        lemma_concat_lacks(bs, hp, cd_marker());
    }
}

/// Generate shell initialization code.
pub fn generate_env(
    shell: ShellKind,
    multishell_path: &str,
    fallback_path: &str,
    use_on_cd: bool,
    silent: bool,
) -> (r: String)
    ensures
        r@ == env_text(shell, multishell_path@, fallback_path@, use_on_cd, silent),
{
    proof {
        reveal_strlit("bin");
    }
    let bin_path = path_join(multishell_path, "bin");
    let fallback_bin_path = path_join(fallback_path, "bin");
    match shell {
        ShellKind::Zsh => generate_zsh(bin_path.as_str(), fallback_bin_path.as_str(), multishell_path, use_on_cd, silent),
        ShellKind::Bash => generate_bash(bin_path.as_str(), fallback_bin_path.as_str(), multishell_path, use_on_cd, silent),
        ShellKind::Fish => generate_fish(bin_path.as_str(), fallback_bin_path.as_str(), multishell_path, use_on_cd, silent),
    }
}

fn export_lines(bin_path: &str, fallback_bin_path: &str, multishell_path: &str) -> (r: String)
    ensures
        r@ == path_lines(ShellKind::Zsh, bin_path@, fallback_bin_path@, multishell_path@),
        r@ == path_lines(ShellKind::Bash, bin_path@, fallback_bin_path@, multishell_path@),
{
    let mut out = String::from_str("export PATH=\"");
    out.append(bin_path);
    out.append(":");
    out.append(fallback_bin_path);
    out.append(":$PATH\"\nexport PHM_MULTISHELL_PATH=\"");
    out.append(multishell_path);
    out.append("\"\n");
    out
}

fn generate_zsh(bin_path: &str, fallback_bin_path: &str, multishell_path: &str, use_on_cd: bool, silent: bool) -> (r: String)
    ensures
        r@ == path_lines(ShellKind::Zsh, bin_path@, fallback_bin_path@, multishell_path@) + (if silent {
            silent_line(ShellKind::Zsh)
        } else {
            Seq::empty()
        }) + (if use_on_cd {
            cd_hook(ShellKind::Zsh)
        } else {
            Seq::empty()
        }),
{
    let mut out = export_lines(bin_path, fallback_bin_path, multishell_path);
    let ghost head = out@;
    if silent {
        out.append("export PHM_SILENT=1\n");
    }
    let ghost mid = out@;
    if use_on_cd {
        out.append("autoload -U add-zsh-hook\n_phm_autoload_hook() {\n  if [[ -f composer.json || -f .php-version ]]; then\n    phm use --silent-if-unchanged\n  fi\n}\nadd-zsh-hook -D chpwd _phm_autoload_hook\nadd-zsh-hook chpwd _phm_autoload_hook\nif [[ \"${PHM_INIT_PID:-}\" != \"$$\" ]]; then\n  export PHM_INIT_PID=\"$$\"\n  _phm_autoload_hook\nfi\nrehash\n");
    }
    assert(mid == head + (if silent { silent_line(ShellKind::Zsh) } else { Seq::<char>::empty() }));
    assert(out@ == mid + (if use_on_cd { cd_hook(ShellKind::Zsh) } else { Seq::<char>::empty() }));
    out
}

fn generate_bash(bin_path: &str, fallback_bin_path: &str, multishell_path: &str, use_on_cd: bool, silent: bool) -> (r: String)
    ensures
        r@ == path_lines(ShellKind::Bash, bin_path@, fallback_bin_path@, multishell_path@) + (if silent {
            silent_line(ShellKind::Bash)
        } else {
            Seq::empty()
        }) + (if use_on_cd {
            cd_hook(ShellKind::Bash)
        } else {
            Seq::empty()
        }),
{
    let mut out = export_lines(bin_path, fallback_bin_path, multishell_path);
    let ghost head = out@;
    if silent {
        out.append("export PHM_SILENT=1\n");
    }
    let ghost mid = out@;
    if use_on_cd {
        out.append("__phm_cd() {\n  \\builtin cd \"$@\" || return\n  if [[ -f composer.json || -f .php-version ]]; then\n    phm use --silent-if-unchanged\n  fi\n}\nalias cd=__phm_cd\nif [[ \"${PHM_INIT_PID:-}\" != \"$$\" ]]; then\n  export PHM_INIT_PID=\"$$\"\n  if [[ -f composer.json || -f .php-version ]]; then\n    phm use --silent-if-unchanged\n  fi\nfi\nhash -r\n");
    }
    assert(mid == head + (if silent { silent_line(ShellKind::Bash) } else { Seq::<char>::empty() }));
    assert(out@ == mid + (if use_on_cd { cd_hook(ShellKind::Bash) } else { Seq::<char>::empty() }));
    out
}

fn generate_fish(bin_path: &str, fallback_bin_path: &str, multishell_path: &str, use_on_cd: bool, silent: bool) -> (r: String)
    ensures
        r@ == path_lines(ShellKind::Fish, bin_path@, fallback_bin_path@, multishell_path@) + (if silent {
            silent_line(ShellKind::Fish)
        } else {
            Seq::empty()
        }) + (if use_on_cd {
            cd_hook(ShellKind::Fish)
        } else {
            Seq::empty()
        }),
{
    let mut out = String::from_str("set -gx PATH \"");
    out.append(bin_path);
    out.append("\" \"");
    out.append(fallback_bin_path);
    out.append("\" $PATH\nset -gx PHM_MULTISHELL_PATH \"");
    out.append(multishell_path);
    out.append("\"\n");
    let ghost head = out@;
    if silent {
        out.append("set -gx PHM_SILENT 1\n");
    }
    let ghost mid = out@;
    if use_on_cd {
        out.append("function _phm_autoload --on-variable PWD\n  if test -f composer.json; or test -f .php-version\n    phm use --silent-if-unchanged\n  end\nend\nif test -f composer.json; or test -f .php-version\n  _phm_autoload\nend\n");
    }
    assert(mid == head + (if silent { silent_line(ShellKind::Fish) } else { Seq::<char>::empty() }));
    assert(out@ == mid + (if use_on_cd { cd_hook(ShellKind::Fish) } else { Seq::<char>::empty() }));
    out
}

} // verus!
