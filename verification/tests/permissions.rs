use xmas_package_manager::vsys::permissions::{BlackOrWhiteList, Permissions};

#[test]
fn test_allow_all_permissions() {
    let perm = Permissions::allow_all();
    assert!(perm.stdio);
    assert!(perm.check_net("example.com"));
    assert!(perm.check_env("PATH"));
}

#[test]
fn test_deny_all_permissions() {
    let perm = Permissions::deny_all();
    assert!(!perm.stdio);
    assert!(!perm.check_net("example.com"));
    assert!(!perm.check_env("PATH"));
}

#[test]
fn test_whitelist_net() {
    let perm = Permissions {
        net: BlackOrWhiteList::whitelist(vec!["api.example.com".to_string()]),
        ..Default::default()
    };
    assert!(perm.check_net("api.example.com"));
    assert!(!perm.check_net("other.com"));
}

#[test]
fn test_blacklist_net() {
    let perm = Permissions {
        net: BlackOrWhiteList::blacklist(vec!["evil.com".to_string()]),
        ..Default::default()
    };
    assert!(!perm.check_net("evil.com"));
    assert!(perm.check_net("good.com"));
}

#[test]
fn test_wildcard_net() {
    let perm = Permissions {
        net: BlackOrWhiteList::whitelist(vec!["*.example.com".to_string()]),
        ..Default::default()
    };
    assert!(perm.check_net("api.example.com"));
    assert!(perm.check_net("example.com"));
    assert!(!perm.check_net("other.com"));
}

#[test]
fn default_permissions_allow_nothing() {
    let perm = Permissions::default();
    assert!(!perm.stdio);
    assert!(!perm.check_fs("/etc/passwd"));
    assert!(!perm.check_net("localhost"));
    assert!(!perm.check_env("HOME"));
    assert_eq!(BlackOrWhiteList::default(), BlackOrWhiteList::WhiteList(vec![]));
    assert_eq!(BlackOrWhiteList::deny_all(), BlackOrWhiteList::WhiteList(vec![]));
    assert_eq!(BlackOrWhiteList::allow_all(), BlackOrWhiteList::BlackList(vec![]));
}

#[test]
fn wildcard_does_not_match_a_mere_suffix() {
    let list = BlackOrWhiteList::whitelist(vec!["*.example.com".to_string()]);
    assert!(list.check_host("a.b.example.com"));
    assert!(!list.check_host("badexample.com"));
    assert!(!list.check_host("example.org"));
}

#[test]
fn blacklist_with_wildcard_refuses_the_domain() {
    let list = BlackOrWhiteList::blacklist(vec!["*.evil.com".to_string(), "bad.org".to_string()]);
    assert!(!list.check_host("evil.com"));
    assert!(!list.check_host("x.evil.com"));
    assert!(!list.check_host("bad.org"));
    assert!(list.check_host("good.org"));
}

#[test]
fn env_lists_name_variables_exactly() {
    let white = Permissions {
        env: BlackOrWhiteList::whitelist(vec!["PATH".to_string(), "HOME".to_string()]),
        ..Default::default()
    };
    assert!(white.check_env("PATH"));
    assert!(white.check_env("HOME"));
    assert!(!white.check_env("PATHS"));
    assert!(!white.check_env("path"));
    let black = Permissions {
        env: BlackOrWhiteList::blacklist(vec!["SECRET".to_string()]),
        ..Default::default()
    };
    assert!(!black.check_env("SECRET"));
    assert!(black.check_env("PATH"));
}

#[test]
fn path_whitelist_names_files_and_directories() {
    let list = BlackOrWhiteList::whitelist(vec!["/srv/data/*".to_string(), "/etc/hosts".to_string()]);
    assert!(list.check_path("/srv/data/a.txt"));
    assert!(list.check_path("/srv/data/deep/b.txt"));
    assert!(list.check_path("/etc/hosts"));
    assert!(!list.check_path("/etc/passwd"));
    assert!(!list.check_path("/srv/database"));
}

#[test]
fn path_blacklist_refuses_what_it_names() {
    let list = BlackOrWhiteList::blacklist(vec!["/srv/data/*".to_string(), "/etc/hosts".to_string()]);
    assert!(!list.check_path("/srv/data/a.txt"));
    assert!(!list.check_path("/etc/hosts"));
    assert!(list.check_path("/etc/passwd"));
    let perm = Permissions { fs: list, ..Default::default() };
    assert!(perm.check_fs("/home/user/file"));
    assert!(!perm.check_fs("/srv/data/x"));
}

#[test]
fn path_comparison_goes_by_components() {
    let list = BlackOrWhiteList::whitelist(vec!["/etc/hosts/".to_string()]);
    assert!(list.check_path("/etc/hosts"));
}

#[test]
fn a_path_that_cannot_be_resolved_is_refused() {
    let black = BlackOrWhiteList::allow_all();
    assert!(!black.check_canonical(None));
    assert!(black.check_canonical(Some("/etc/hosts")));
    let white = BlackOrWhiteList::whitelist(vec!["/srv/data/*".to_string()]);
    assert!(!white.check_canonical(None));
    assert!(white.check_canonical(Some("/srv/data/a")));
    assert!(!white.check_canonical(Some("/srv/other")));
    assert_eq!(BlackOrWhiteList::resolved_entry("data/*", Some("/srv/data")), "/srv/data*");
    assert_eq!(BlackOrWhiteList::resolved_entry("data/*", None), "data/*");
    assert_eq!(BlackOrWhiteList::resolved_entry("hosts", Some("/etc/hosts")), "/etc/hosts");
    assert_eq!(BlackOrWhiteList::resolved_entry("hosts", None), "hosts");
}
