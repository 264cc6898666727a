use xmas_package_manager::access::{
    check_could_access, ensure_url_access, url_match, url_restricted_error, verify_metadata,
    UriParts,
};
use xmas_package_manager::bundler::{
    external_modules, input_items, script_bundle, BundleConfig, BundleError, BundleFormat,
    InputItem,
};
use xmas_package_manager::vsys::permissions::BlackOrWhiteList;
use xmas_package_manager::repl::transform_import_to_dynamic;
use xmas_package_manager::text::{split_first, split_last};
use xmas_package_manager::runtime::{
    chmod_error, current_id, max, rename_error, round_size, strip_bom, TaskPoll, ALLOC_ALIGN,
};

#[test]
fn test_default_config() {
    let config = BundleConfig::default();
    assert_eq!(config.format, BundleFormat::Esm);
    assert!(config.tree_shake);
    assert!(!config.minify);
}

#[test]
fn default_config_writes_to_dist() {
    let config = BundleConfig::default();
    assert!(config.entry.is_empty());
    assert_eq!(config.output_dir, "dist");
    assert_eq!(config.output_filename, None);
    assert!(!config.source_map);
    assert!(config.external.is_empty());
    assert_eq!(BundleFormat::default(), BundleFormat::Esm);
}

#[test]
fn bundle_errors_describe_themselves() {
    assert_eq!(BundleError::BundleFailed("x".to_string()).message(), "Bundling failed: x");
    assert_eq!(BundleError::IoError("disk".to_string()).message(), "IO error: disk");
    assert_eq!(BundleError::FeatureNotEnabled.message(), "Rolldown feature not enabled");
}

#[test]
fn runtime_helpers_compute_sizes_and_texts() {
    assert_eq!(ALLOC_ALIGN, 8);
    assert_eq!(max(3, 8), 8);
    assert_eq!(max(8, 3), 8);
    assert_eq!(max(5, 5), 5);
    assert_eq!(round_size(0), 0);
    assert_eq!(round_size(1), 8);
    assert_eq!(round_size(8), 8);
    assert_eq!(round_size(9), 16);
    assert_eq!(round_size(usize::MAX - 7), usize::MAX - 7);
    assert_eq!(current_id(), 0);
    assert_ne!(TaskPoll::Empty, TaskPoll::Done);
    assert_eq!(strip_bom(vec![0xEF, 0xBB, 0xBF, b'a', b'b']), b"ab".to_vec());
    assert_eq!(strip_bom(vec![0xEF, 0xBB, 0xBF]), Vec::<u8>::new());
    assert_eq!(strip_bom(vec![0xEF, 0xBB]), vec![0xEF, 0xBB]);
    assert_eq!(strip_bom(vec![b'a', 0xEF, 0xBB, 0xBF]), vec![b'a', 0xEF, 0xBB, 0xBF]);
    assert_eq!(strip_bom(Vec::new()), Vec::<u8>::new());
    assert_eq!(chmod_error("/a b"), "Can't set permissions of \"/a b\"");
    assert_eq!(rename_error("a", "b"), "Can't rename file/folder from \"a\" to \"b\"");
}

#[test]
fn imports_become_dynamic_imports() {
    assert_eq!(
        transform_import_to_dynamic("import * as fs from \"node:fs\""),
        "const fs = await import(\"node:fs\")"
    );
    assert_eq!(
        transform_import_to_dynamic("  import { a, b } from 'mod';  "),
        "const { a, b } = await import('mod')"
    );
    assert_eq!(
        transform_import_to_dynamic("import name from \"mod\";;"),
        "const { default: name } = await import(\"mod\")"
    );
    assert_eq!(
        transform_import_to_dynamic("import name, { a, b } from \"mod\""),
        "const { default: name,  a, b  } = await import(\"mod\")"
    );
    assert_eq!(
        transform_import_to_dynamic("import name, * as all from \"mod\""),
        "const { default: name, * as all } = await import(\"mod\")"
    );
    assert_eq!(transform_import_to_dynamic("import \"side-effect\";"), "await import(\"side-effect\")");
    assert_eq!(transform_import_to_dynamic("import\t`x`"), "await import(`x`)");
    assert_eq!(transform_import_to_dynamic("import x"), "import x");
    assert_eq!(transform_import_to_dynamic("importing from \"x\""), "importing from \"x\"");
    assert_eq!(transform_import_to_dynamic(" const a = 1; "), " const a = 1; ");
    assert_eq!(transform_import_to_dynamic(""), "");
    assert_eq!(
        transform_import_to_dynamic("import a from \"x from y\" from \"z\""),
        "const { default: a from \"x from y\" } = await import(\"z\")"
    );
}

fn uri(host: &str, port: Option<u16>) -> UriParts {
    UriParts { host: host.to_string(), port }
}

#[test]
fn addresses_are_judged_by_host_and_port() {
    let list = vec![uri("example.com", None), uri("internal", Some(8080))];
    assert!(url_match(&list, &uri("api.example.com", None)));
    assert!(url_match(&list, &uri("example.com", Some(80))));
    assert!(!url_match(&list, &uri("example.com", Some(443))));
    assert!(url_match(&list, &uri("internal", Some(8080))));
    assert!(!url_match(&list, &uri("internal", None)));
    assert!(!url_match(&list, &uri("example.org", None)));
    assert!(!url_match(&Vec::new(), &uri("example.com", None)));
    assert_eq!(ensure_url_access(true, &list, &uri("api.example.com", None)), Ok(()));
    assert_eq!(
        ensure_url_access(true, &list, &uri("other.com", Some(8443))),
        Err("URL not allowed: other.com:8443".to_string())
    );
    assert_eq!(
        ensure_url_access(false, &list, &uri("api.example.com", None)),
        Err("URL denied: api.example.com".to_string())
    );
    assert_eq!(ensure_url_access(false, &list, &uri("other.com", None)), Ok(()));
    assert_eq!(ensure_url_access(false, &Vec::new(), &uri("", None)), Ok(()));
    assert_eq!(url_restricted_error("URL denied", &uri("h", Some(65535))), "URL denied: h:65535");
}

#[test]
fn files_are_judged_by_their_directory() {
    let white = BlackOrWhiteList::whitelist(vec!["/srv/data/*".to_string(), "/".to_string()]);
    assert!(check_could_access(&white, "/srv/data/a.txt"));
    assert!(!check_could_access(&white, "/srv/data/deep/a.txt"));
    assert!(!check_could_access(&white, "/etc/hosts"));
    assert!(check_could_access(&white, "/"));
    let black = BlackOrWhiteList::blacklist(vec!["/srv/data/*".to_string()]);
    assert!(!check_could_access(&black, "/srv/data/a.txt"));
    assert!(check_could_access(&black, "/etc/hosts"));
    assert!(check_could_access(&black, "/"));
    assert_eq!(verify_metadata(None, true, 0), Ok(()));
    assert_eq!(verify_metadata(Some(4), true, 0), Ok(()));
    assert_eq!(verify_metadata(Some(2), false, 0), Ok(()));
    assert_eq!(verify_metadata(Some(2), true, 0o777), Err("Permission denied. File not writable".to_string()));
    assert_eq!(verify_metadata(Some(1), false, 0o644), Err("Permission denied. File not executable".to_string()));
    assert_eq!(verify_metadata(Some(1), false, 0o744), Ok(()));
    assert_eq!(verify_metadata(Some(3), true, 0o644), Err("Permission denied. File not writable".to_string()));
}

#[test]
fn entry_points_are_named_by_their_file() {
    let config = BundleConfig {
        entry: vec!["src/main.ts".to_string(), "..".to_string(), "lib/index.min.js".to_string(), "".to_string()],
        external: vec!["react".to_string()],
        ..BundleConfig::default()
    };
    let item = |name: &str, import: &str| InputItem { name: name.to_string(), import: import.to_string() };
    assert_eq!(
        input_items(&config),
        vec![
            item("main", "src/main.ts"),
            item("entry1", ".."),
            item("index.min", "lib/index.min.js"),
            item("entry3", ""),
        ]
    );
    assert_eq!(external_modules(&config), Some(vec!["react".to_string()]));
    assert_eq!(external_modules(&BundleConfig::default()), None);
    let bundle = script_bundle("scripts/run.ts");
    assert_eq!(bundle.entry, vec!["scripts/run.ts"]);
    assert_eq!(bundle.output_dir, ".");
    assert_eq!(bundle.output_filename, Some("run.js".to_string()));
    assert_eq!(bundle.format, BundleFormat::Esm);
    assert!(bundle.tree_shake && !bundle.minify && !bundle.source_map);
    assert_eq!(script_bundle("..").output_filename, Some("bundle.js".to_string()));
}

#[test]
fn a_text_is_split_at_the_last_and_at_the_first_delimiter() {
    assert_eq!(split_last("a from b from c", " from "), Some(("a from b", "c")));
    assert_eq!(split_first("a from b from c", " from "), Some(("a", "b from c")));
    assert_eq!(split_last("a,b", ","), Some(("a", "b")));
    assert_eq!(split_first("a,b", ","), Some(("a", "b")));
    assert_eq!(split_last(",", ","), Some(("", "")));
    assert_eq!(split_first("aaa", "aa"), Some(("", "a")));
    assert_eq!(split_last("aaa", "aa"), Some(("a", "")));
    assert_eq!(split_last("abc", ","), None);
    assert_eq!(split_first("", ","), None);
}
