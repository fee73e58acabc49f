use phm::termux::{
    build_resolv_conf, has_nameserver, is_termux, needs_dns_config, needs_proot_dns_wrap,
    prefix_proot, proot_bin, proot_wrap_args, resolv_conf_path,
};

const PREFIX: &str = "/data/data/com.termux/files/usr";

#[test]
fn termux_is_recognised_by_its_prefix() {
    assert!(is_termux(Some(PREFIX)));
    assert!(!is_termux(Some("/usr")));
    assert!(!is_termux(None));
}

#[test]
fn resolver_configuration_lives_under_the_prefix() {
    assert_eq!(
        resolv_conf_path(Some(PREFIX)),
        Some("/data/data/com.termux/files/usr/etc/resolv.conf".to_string())
    );
    assert_eq!(resolv_conf_path(Some("/usr")), None);
    assert_eq!(resolv_conf_path(None), None);
}

#[test]
fn resolver_configuration_from_android_properties() {
    let answers = vec![
        Some("192.168.1.1\n".to_string()),
        Some("0.0.0.0\n".to_string()),
        None,
        Some("  \n".to_string()),
    ];
    assert_eq!(build_resolv_conf(&answers), "nameserver 192.168.1.1\n");
    let answers = vec![Some("1.1.1.1".to_string()), Some("9.9.9.9".to_string())];
    assert_eq!(build_resolv_conf(&answers), "nameserver 1.1.1.1\nnameserver 9.9.9.9\n");
}

#[test]
fn resolver_configuration_falls_back_to_public_servers() {
    let answers = vec![Some("0.0.0.0".to_string()), None, Some(String::new()), None];
    assert_eq!(build_resolv_conf(&answers), "nameserver 8.8.8.8\nnameserver 8.8.4.4\n");
    assert_eq!(build_resolv_conf(&Vec::new()), "nameserver 8.8.8.8\nnameserver 8.8.4.4\n");
}

#[test]
fn configuration_is_rewritten_only_without_servers() {
    assert!(has_nameserver("nameserver 1.1.1.1\n"));
    assert!(!needs_dns_config(true, Some("nameserver 1.1.1.1\n")));
    assert!(needs_dns_config(true, Some("# empty\n")));
    assert!(needs_dns_config(true, None));
    assert!(needs_dns_config(false, None));
}

#[test]
fn proot_is_needed_inside_termux_without_system_servers() {
    assert!(needs_proot_dns_wrap(true, None, true));
    assert!(needs_proot_dns_wrap(true, Some("search lan\n"), true));
    assert!(!needs_proot_dns_wrap(true, Some("nameserver 10.0.0.1\n"), true));
    assert!(!needs_proot_dns_wrap(true, None, false));
    assert!(!needs_proot_dns_wrap(false, None, true));
}

#[test]
fn proot_is_found_under_the_prefix_or_on_the_path() {
    assert_eq!(prefix_proot(PREFIX), "/data/data/com.termux/files/usr/bin/proot");
    assert_eq!(
        proot_bin(true, Some(PREFIX), true, None),
        Some("/data/data/com.termux/files/usr/bin/proot".to_string())
    );
    assert_eq!(proot_bin(true, Some(PREFIX), false, Some("/x/proot\n")), Some("/x/proot".to_string()));
    assert_eq!(proot_bin(true, Some(PREFIX), false, Some("\n")), None);
    assert_eq!(proot_bin(false, Some(PREFIX), true, Some("/x/proot")), None);
}

#[test]
fn proot_wrapping_needs_both_paths() {
    assert_eq!(
        proot_wrap_args(true, Some("/p"), Some("/r")),
        Some(("/p".to_string(), "/r".to_string()))
    );
    assert_eq!(proot_wrap_args(false, Some("/p"), Some("/r")), None);
    assert_eq!(proot_wrap_args(true, None, Some("/r")), None);
    assert_eq!(proot_wrap_args(true, Some("/p"), None), None);
}

#[test]
fn a_written_configuration_needs_no_rewrite() {
    for answers in [vec![], vec![Some("10.0.0.2\n".to_string())], vec![None, Some("0.0.0.0".to_string())]] {
        let written = build_resolv_conf(&answers);
        assert!(has_nameserver(&written));
        assert!(!needs_dns_config(true, Some(&written)));
    }
}
