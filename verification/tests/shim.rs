use phm::discover::PhpInstallation;
use phm::error::PhmError;
use phm::shim::{
    appended_text, detect_shell_name, find_zsh_injection_target, has_shell_eval, has_shim_path,
    invoked_shim, remove_marked_lines, remove_shell_eval, remove_shim_path, resolve_shim, inject_shell_eval, inject_shim_path, shell_eval_candidates, shell_eval_line,
    shell_eval_present, shim_path_present,
    shim_command, shim_default_constraint, shim_path_candidates, shim_path_line,
};
use phm::version::{PhpVersion, VersionConstraint};

#[test]
fn zsh_target_prefers_a_sourced_custom_file() {
    let zshrc = "# settings\n[[ -f ~/.zshrc_custom ]] && source ~/.zshrc_custom\n";
    assert_eq!(find_zsh_injection_target("/home/u", Some(zshrc)), "/home/u/.zshrc_custom");
}

#[test]
fn zsh_target_ignores_comments_and_plain_sources() {
    let zshrc = "# source ~/.zsh_private\nsource ~/.aliases\n";
    assert_eq!(find_zsh_injection_target("/home/u", Some(zshrc)), "/home/u/.zshenv");
}

#[test]
fn zsh_target_uses_mentioned_custom_names() {
    let zshrc = "for f in zshrc.local; do :; done\n";
    assert_eq!(find_zsh_injection_target("/home/u", Some(zshrc)), "/home/u/.zshrc.local");
}

#[test]
fn zsh_target_defaults_to_zshenv() {
    assert_eq!(find_zsh_injection_target("/home/u", None), "/home/u/.zshenv");
}

#[test]
fn candidate_files() {
    assert_eq!(
        shim_path_candidates("/h", "/h/.zshenv"),
        vec!["/h/.zshenv", "/h/.zshrc_custom", "/h/.zshrc.local", "/h/.zsh_custom", "/h/.zsh.local"]
    );
    assert_eq!(
        shim_path_candidates("/h", "/h/.zsh_private"),
        vec![
            "/h/.zshenv",
            "/h/.zshrc_custom",
            "/h/.zshrc.local",
            "/h/.zsh_custom",
            "/h/.zsh.local",
            "/h/.zsh_private"
        ]
    );
    let evals = shell_eval_candidates("/h", "/h/.zshenv");
    assert_eq!(evals.len(), 8);
    assert_eq!(evals[6], "/h/.bash_profile");
    assert_eq!(evals[7], "/h/.zshenv");
    assert_eq!(shell_eval_candidates("/h", "/h//.zshrc").len(), 7);
}

#[test]
fn a_second_injection_finds_the_first() {
    let line = shim_path_line("/h/shims/bin");
    let before = "alias ll='ls -l'\n".to_string();
    let after = format!("{}{}", before, appended_text(&line));
    assert!(!shim_path_present(&vec![None, Some(before.clone())]));
    assert!(shim_path_present(&vec![None, Some(after)]));
    let eval = format!("{}{}", before, appended_text(&shell_eval_line("zsh")));
    assert!(!shell_eval_present(&vec![Some(before), None]));
    assert!(shell_eval_present(&vec![Some(eval), None]));
    assert!(shell_eval_present(&vec![Some("phm env --shell fish | source\n".to_string())]));
}

#[test]
fn injected_lines_are_recognised() {
    let line = shim_path_line("/h/.local/state/phm/shims/bin");
    assert_eq!(line, "export PATH=\"/h/.local/state/phm/shims/bin:$PATH\" # phm shims");
    let content = format!("alias ll='ls -l'{}", appended_text(&line));
    assert_eq!(content, format!("alias ll='ls -l'\n{}\n", line));
    assert!(has_shim_path(&content));
    assert!(!has_shim_path("alias ll='ls -l'\n"));

    let eval = shell_eval_line(&detect_shell_name("/bin/bash"));
    assert_eq!(eval, "eval \"$(phm env --shell bash --use-on-cd)\" # phm shell");
    assert!(has_shell_eval(&eval));
    assert!(has_shell_eval("phm env --shell fish | source\n"));
    assert_eq!(detect_shell_name("/usr/bin/fish"), "fish");
    assert_eq!(detect_shell_name(""), "zsh");
}

#[test]
fn removing_marked_lines_cleans_the_file() {
    let content = "a\nexport PATH=\"x:$PATH\" # phm shims\nb\n";
    let cleaned = remove_marked_lines(content, "# phm shims").unwrap();
    assert_eq!(cleaned, "a\nb\n");
    assert!(!has_shim_path(&cleaned));
    assert_eq!(remove_marked_lines("a\nb\n", "# phm shims"), None);
}

#[test]
fn shim_falls_back_to_the_default_version() {
    assert_eq!(
        shim_default_constraint(Some("8.2"), "/w"),
        Ok(VersionConstraint::exact(PhpVersion::new(8, 2)))
    );
    assert_eq!(
        shim_default_constraint(Some("eight"), "/w"),
        Err(PhmError::InvalidDefaultVersion("eight".to_string()))
    );
    assert_eq!(shim_default_constraint(None, "/w"), Err(PhmError::NoVersionDetected("/w".to_string())));
}

#[test]
fn shim_resolves_the_lowest_fitting_installation() {
    let installs = vec![
        PhpInstallation { version: PhpVersion::new(8, 1), bin_dir: "/a".to_string() },
        PhpInstallation { version: PhpVersion::new(8, 3), bin_dir: "/b".to_string() },
    ];
    let c = VersionConstraint::from_constraint("^8.2").unwrap();
    let t = resolve_shim(c, &installs, "phpize").unwrap();
    assert_eq!(t.version, PhpVersion::new(8, 3));
    assert_eq!(t.bin_dir, "/b");
    assert_eq!(t.binary, "/b/phpize");
    let t = resolve_shim(c, &installs, "/opt/tools/php").unwrap();
    assert_eq!(t.binary, "/opt/tools/php");
    let c = VersionConstraint::from_constraint(">=9.0").unwrap();
    assert_eq!(
        resolve_shim(c, &installs, "php").err(),
        Some(PhmError::NoSatisfyingVersion(PhpVersion::new(9, 0)))
    );
}

#[test]
fn shim_command_under_proot() {
    let plain = shim_command("/b/php", None);
    assert_eq!(plain.program, "/b/php");
    assert!(plain.leading_args.is_empty());
    let wrapped = shim_command("/b/php", Some(("/usr/bin/proot", "/p/resolv.conf")));
    assert_eq!(wrapped.program, "/usr/bin/proot");
    assert_eq!(wrapped.leading_args, vec!["-b", "/p/resolv.conf:/etc/resolv.conf", "/b/php"]);
}

#[test]
fn program_name_decides_shim_mode() {
    assert_eq!(invoked_shim("/home/u/.local/state/phm/shims/bin/php"), Some("php".to_string()));
    assert_eq!(invoked_shim("phpize"), Some("phpize".to_string()));
    assert_eq!(invoked_shim("/usr/local/bin/phm"), None);
    assert_eq!(invoked_shim("/usr/bin/composer"), None);
    assert_eq!(invoked_shim(""), None);
}

#[test]
fn injecting_twice_writes_once_and_removal_undoes_it() {
    let zshenv = "export EDITOR=vim\n".to_string();
    let files = vec![Some(zshenv.clone()), None];
    let added = inject_shim_path(&files, "/h/shims/bin").unwrap();
    assert_eq!(added, "\nexport PATH=\"/h/shims/bin:$PATH\" # phm shims\n");
    let after = format!("{}{}", zshenv, added);
    assert_eq!(inject_shim_path(&vec![Some(after.clone()), None], "/h/shims/bin"), None);
    assert_eq!(remove_shim_path(&after), Some("export EDITOR=vim\n\n".to_string()));

    let added = inject_shell_eval(&vec![None, None], "/bin/zsh").unwrap();
    assert_eq!(added, "\neval \"$(phm env --shell zsh --use-on-cd)\" # phm shell\n");
    assert_eq!(inject_shell_eval(&vec![None, Some(added.clone())], "/bin/zsh"), None);
    assert_eq!(remove_shell_eval(&added), Some("\n".to_string()));
}
