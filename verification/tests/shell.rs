use phm::shell::{generate_env, ShellKind};

fn fallback_path() -> &'static str {
    "/tmp/phm-alias"
}

#[test]
fn generate_env_exports_silent_flag_for_supported_shells() {
    let path = "/tmp/phm-shell";

    let zsh = generate_env(ShellKind::Zsh, path, fallback_path(), false, true);
    let bash = generate_env(ShellKind::Bash, path, fallback_path(), false, true);
    let fish = generate_env(ShellKind::Fish, path, fallback_path(), false, true);

    assert!(zsh.contains("export PHM_SILENT=1"));
    assert!(bash.contains("export PHM_SILENT=1"));
    assert!(fish.contains("set -gx PHM_SILENT 1"));
}

#[test]
fn generate_env_omits_silent_flag_when_disabled() {
    let output = generate_env(ShellKind::Zsh, "/tmp/phm-shell", fallback_path(), true, false);

    assert!(!output.contains("PHM_SILENT"));
    assert!(output.contains("phm use --silent-if-unchanged"));
}

#[test]
fn generate_env_includes_fallback_bin_in_path() {
    let output = generate_env(ShellKind::Zsh, "/tmp/phm-shell", fallback_path(), false, false);

    assert!(output.contains("/tmp/phm-alias/bin"));
}

#[test]
fn generate_env_puts_the_shell_bin_first_in_path() {
    let zsh = generate_env(ShellKind::Zsh, "/tmp/phm-shell", fallback_path(), false, false);
    let fish = generate_env(ShellKind::Fish, "/tmp/phm-shell", fallback_path(), false, false);

    assert!(zsh.contains("/tmp/phm-shell/bin"));
    assert!(zsh.contains("PHM_MULTISHELL_PATH"));
    assert!(fish.contains("/tmp/phm-shell/bin"));
}

#[test]
fn generate_env_without_cd_hook_has_no_use_call() {
    let output = generate_env(ShellKind::Bash, "/tmp/phm-shell", fallback_path(), false, false);

    assert!(!output.contains("phm use"));
}

#[test]
fn generate_env_zsh_plain_output_is_exact() {
    let output = generate_env(ShellKind::Zsh, "/tmp/phm-shell", fallback_path(), false, false);

    assert_eq!(
        output,
        "export PATH=\"/tmp/phm-shell/bin:/tmp/phm-alias/bin:$PATH\"\nexport PHM_MULTISHELL_PATH=\"/tmp/phm-shell\"\n"
    );
}

#[test]
fn generate_env_fish_silent_output_is_exact() {
    let output = generate_env(ShellKind::Fish, "/tmp/phm-shell", fallback_path(), false, true);

    assert_eq!(
        output,
        "set -gx PATH \"/tmp/phm-shell/bin\" \"/tmp/phm-alias/bin\" $PATH\nset -gx PHM_MULTISHELL_PATH \"/tmp/phm-shell\"\nset -gx PHM_SILENT 1\n"
    );
}

#[test]
fn plain_output_comes_first_and_flags_add_their_markers() {
    for shell in [ShellKind::Zsh, ShellKind::Bash, ShellKind::Fish] {
        let plain = generate_env(shell, "/tmp/phm-shell", fallback_path(), false, false);
        let full = generate_env(shell, "/tmp/phm-shell", fallback_path(), true, true);
        assert!(full.starts_with(&plain));
        assert!(!plain.contains("PHM_SILENT") && !plain.contains("phm use --silent-if-unchanged"));
        assert!(full.contains("PHM_SILENT") && full.contains("phm use --silent-if-unchanged"));
        assert!(full.contains("composer.json") && full.contains(".php-version"));
    }
}
