use xmas_package_manager::cache::{download_package_shared, Cache, CacheAction, Flight};
use xmas_package_manager::model::Model;
use xmas_package_manager::npm::{duplicate_tree, same_tree, Dependency, DependencyTree, Dist};
use xmas_package_manager::package::{PackageMetadata, PackageSpecifier};
use xmas_package_manager::plan::{
    cmd_shim, download_package, execute_plan, install_action, install_package, install_path,
    install_target, is_forest_wf, link_accepted, ps1_shim, select_auth, setup_bins, store_dir,
    store_marker, symlink, tree_size, BinLink, DownloadAction, InstallAction, LinkAttempt,
    Placement, Plan, RegistryConfig, SymlinkKind,
};
use xmas_package_manager::scoped_path::{escapes, scoped_join, ScopeError};

fn spec(name: &str, version: &str) -> PackageSpecifier {
    PackageSpecifier::new(name.to_string(), version.to_string())
}

fn dep(name: &str, version: &str) -> Dependency {
    Dependency {
        name: name.to_string(),
        version: version.to_string(),
        dist: Dist {
            tarball: format!("https://registry.example/{}/-/{}-{}.tgz", name, name, version),
            integrity: String::new(),
        },
        bins: Vec::new(),
        dependencies: Vec::new(),
    }
}

fn tree(name: &str, version: &str, children: Vec<DependencyTree>) -> DependencyTree {
    DependencyTree { root: dep(name, version), children }
}

fn manifest(dependencies: Vec<PackageSpecifier>, dev_dependencies: Vec<PackageSpecifier>) -> PackageMetadata {
    PackageMetadata { name: "app".to_string(), dependencies, dev_dependencies, scripts: Vec::new() }
}

fn nested() -> Plan {
    Plan::new(vec![
        tree("left-pad", "1.3.0", vec![]),
        tree(
            "foo",
            "1.0.0",
            vec![tree("left-pad", "2.0.0", vec![]), tree("bar", "0.1.0", vec![tree("baz", "3.0.0", vec![])])],
        ),
    ])
}

#[test]
fn plan_satisfies_the_manifest_it_was_built_from() {
    let plan = Plan::new(vec![tree("a", "1.2.0", vec![])]);
    assert!(plan.satisfies(&manifest(vec![spec("a", "^1.0.0")], vec![])));
    assert!(!plan.satisfies(&manifest(vec![spec("a", "^2.0.0")], vec![])));
}

#[test]
fn every_requirement_needs_a_root_in_range() {
    let plan = Plan::new(vec![tree("a", "1.2.0", vec![tree("c", "1.0.0", vec![])]), tree("b", "0.3.1", vec![])]);
    assert!(plan.satisfies(&manifest(vec![], vec![])));
    assert!(plan.satisfies(&manifest(vec![spec("a", "1.x")], vec![spec("b", "~0.3.0")])));
    assert!(!plan.satisfies(&manifest(vec![spec("a", "1.x")], vec![spec("b", "~0.4.0")])));
    assert!(!plan.satisfies(&manifest(vec![spec("a", "1.x"), spec("c", "*")], vec![])));
    assert!(!plan.satisfies(&manifest(vec![spec("a", "1.x"), spec("a", "^2.0.0")], vec![])));
    assert!(!plan.satisfies(&manifest(vec![spec("a", "github:user/repo")], vec![])));
    assert_eq!(plan.root_version(&"b".to_string()), Some("0.3.1".to_string()));
    assert_eq!(plan.root_version(&"c".to_string()), None);
}

#[test]
fn plans_are_compared_node_for_node() {
    let plan = nested();
    assert!(plan.same(&nested()));
    let mut other = nested();
    other.trees[1].children[1].children[0].root.version = "3.0.1".to_string();
    assert!(!plan.same(&other));
    let mut fewer = nested();
    fewer.trees[1].children.pop();
    assert!(!plan.same(&fewer));
    assert!(!fewer.same(&plan));
    let copy = duplicate_tree(&plan.trees[1]);
    assert!(same_tree(&copy, &plan.trees[1]));
    assert!(copy.same(&plan.trees[1]));
    assert!(!same_tree(&copy, &plan.trees[0]));
    assert_eq!(copy.duplicate(), plan.trees[1]);
}

#[test]
fn tree_size_counts_every_node() {
    assert_eq!(tree_size(&Vec::new()), 0);
    assert_eq!(tree_size(&nested().trees), 5);
    assert_eq!(tree_size(&nested().trees[1].children), 3);
    assert_eq!(tree_size(&vec![tree("a", "1.0.0", vec![])]), 1);
}

#[test]
fn nested_placement_puts_each_version_below_its_parent() {
    let none: Vec<String> = Vec::new();
    assert_eq!(install_target(&none, "left-pad"), "node_modules/left-pad");
    assert_eq!(install_target(&vec!["foo".to_string()], "left-pad"), "node_modules/foo/node_modules/left-pad");
    assert_eq!(
        install_target(&vec!["foo".to_string(), "bar".to_string()], "baz"),
        "node_modules/foo/node_modules/bar/node_modules/baz"
    );
    assert_eq!(install_target(&none, "@scope/name"), "node_modules/@scope/name");

    let steps = execute_plan(&nested());
    let placed: Vec<(String, String, String)> = steps
        .iter()
        .map(|s| {
            let p = install_package(&s.prefix, &s.dependency).unwrap();
            (s.dependency.id(), p.target, p.store)
        })
        .collect();
    let row = |id: &str, target: &str, store: &str| (id.to_string(), target.to_string(), store.to_string());
    assert_eq!(
        placed,
        vec![
            row("left-pad@1.3.0", "node_modules/left-pad", ".xmas/store/left-pad@1.3.0"),
            row("foo@1.0.0", "node_modules/foo", ".xmas/store/foo@1.0.0"),
            row("left-pad@2.0.0", "node_modules/foo/node_modules/left-pad", ".xmas/store/left-pad@2.0.0"),
            row("bar@0.1.0", "node_modules/foo/node_modules/bar", ".xmas/store/bar@0.1.0"),
            row("baz@3.0.0", "node_modules/foo/node_modules/bar/node_modules/baz", ".xmas/store/baz@3.0.0"),
        ]
    );
    assert_eq!(steps.len(), tree_size(&nested().trees));
}

#[test]
fn a_node_is_placed_before_the_nodes_below_it() {
    let steps = execute_plan(&nested());
    for (at, step) in steps.iter().enumerate() {
        if let Some((parent, above)) = step.prefix.split_last() {
            let before = steps[..at]
                .iter()
                .position(|s| s.prefix == above && &s.dependency.name == parent);
            assert!(before.is_some());
        }
    }
    assert!(execute_plan(&Plan::new(vec![])).is_empty());
}

#[test]
fn placements_name_target_marker_and_store() {
    let placement = install_package(&vec!["foo".to_string()], &dep("left-pad", "2.0.0"));
    assert_eq!(
        placement,
        Ok(Placement {
            target: "node_modules/foo/node_modules/left-pad".to_string(),
            marker: "node_modules/foo/node_modules/left-pad/.installed!left-pad@2.0.0".to_string(),
            store: ".xmas/store/left-pad@2.0.0".to_string(),
        })
    );
    assert_eq!(install_path(&vec!["foo".to_string()], "left-pad"), "foo/node_modules/left-pad");
    assert_eq!(install_path(&Vec::new(), "left-pad"), "left-pad");
    assert_eq!(store_dir("a@1.0.0"), ".xmas/store/a@1.0.0");
    assert_eq!(store_marker("a@1.0.0"), ".xmas/store/a@1.0.0/_complete");
    assert_eq!(install_action(true), InstallAction::Skip);
    assert_eq!(install_action(false), InstallAction::Replace);
}

#[test]
fn a_complete_store_entry_is_not_fetched_again() {
    let registries = vec![
        RegistryConfig { url: "https://private.example/".to_string(), auth: Some("token-a".to_string()) },
        RegistryConfig { url: "https://registry.example/".to_string(), auth: Some("token-b".to_string()) },
        RegistryConfig { url: "https://registry.example/a".to_string(), auth: Some("token-c".to_string()) },
        RegistryConfig { url: "https://open.example/".to_string(), auth: None },
    ];
    let a = dep("a", "1.0.0");
    assert_eq!(download_package(&a, &registries, true), Ok(DownloadAction::Skip));
    assert_eq!(
        download_package(&a, &registries, false),
        Ok(DownloadAction::Fetch {
            url: "https://registry.example/a/-/a-1.0.0.tgz".to_string(),
            directory: ".xmas/store/a@1.0.0".to_string(),
            marker: ".xmas/store/a@1.0.0/_complete".to_string(),
            auth: Some("token-b".to_string()),
        })
    );
    let evil = dep("..", "1.0.0");
    assert_eq!(download_package(&evil, &registries, false), Ok(DownloadAction::Fetch {
        url: "https://registry.example/../-/..-1.0.0.tgz".to_string(),
        directory: ".xmas/store/..@1.0.0".to_string(),
        marker: ".xmas/store/..@1.0.0/_complete".to_string(),
        auth: Some("token-b".to_string()),
    }));
    let worse = dep("../../etc", "1.0.0");
    assert_eq!(
        download_package(&worse, &registries, true),
        Err(ScopeError { path: "../../etc@1.0.0".to_string() })
    );
    assert_eq!(select_auth(&registries, "https://private.example/x.tgz"), Some("token-a".to_string()));
    assert_eq!(select_auth(&registries, "https://open.example/x.tgz"), None);
    assert_eq!(select_auth(&registries, "https://elsewhere.example/x.tgz"), None);
    assert_eq!(select_auth(&registries, "https://private.example"), None);
    assert_eq!(select_auth(&Vec::new(), "https://private.example/x.tgz"), None);
}

#[test]
fn single_flight_download_starts_one_fetch() {
    let mut cache = Cache::new();
    let dep = dep("left-pad", "1.3.0");
    let mut starts = 0;
    let mut waits = 0;
    for _ in 0..50 {
        match download_package_shared(&mut cache, &dep) {
            CacheAction::Start => starts += 1,
            CacheAction::Wait => waits += 1,
            other => panic!("{:?}", other),
        }
    }
    assert_eq!(starts, 1);
    assert_eq!(waits, 49);
    assert_eq!(cache.get("left-pad@1.3.0"), Some(Flight::Pending));
    cache.complete("left-pad@1.3.0", Ok(()));
    for _ in 0..50 {
        assert_eq!(download_package_shared(&mut cache, &dep), CacheAction::Done);
    }
    assert_eq!(cache.get("left-pad@1.3.0"), Some(Flight::Done));
}

#[test]
fn every_caller_shares_the_same_failure() {
    let mut cache = Cache::new();
    assert_eq!(cache.get("a@1.0.0"), None);
    assert_eq!(cache.request("a@1.0.0"), CacheAction::Start);
    assert_eq!(cache.request("b@1.0.0"), CacheAction::Start);
    assert_eq!(cache.request("a@1.0.0"), CacheAction::Wait);
    cache.complete("a@1.0.0", Err("connection reset".to_string()));
    assert_eq!(cache.request("a@1.0.0"), CacheAction::Failed("connection reset".to_string()));
    assert_eq!(cache.request("a@1.0.0"), CacheAction::Failed("connection reset".to_string()));
    assert_eq!(cache.request("b@1.0.0"), CacheAction::Wait);
    cache.complete("a@1.0.0", Ok(()));
    assert_eq!(cache.request("a@1.0.0"), CacheAction::Failed("connection reset".to_string()));
    cache.complete("b@1.0.0", Ok(()));
    cache.complete("b@1.0.0", Err("late".to_string()));
    assert_eq!(cache.request("b@1.0.0"), CacheAction::Done);
    cache.complete("c@1.0.0", Ok(()));
    assert_eq!(cache.request("c@1.0.0"), CacheAction::Done);
    assert_eq!(Flight::Failed("x".to_string()).clone_flight(), Flight::Failed("x".to_string()));
}

#[test]
fn entry_points_are_made_for_top_level_commands() {
    let mut typescript = dep("typescript", "5.0.0");
    typescript.bins = vec![
        ("tsc".to_string(), "bin/tsc".to_string()),
        ("scoped/cmd".to_string(), "bin/x".to_string()),
        ("tsserver".to_string(), "./bin/tsserver.mjs".to_string()),
    ];
    let mut nested_bin = dep("inner", "1.0.0");
    nested_bin.bins = vec![("inner".to_string(), "cli.js".to_string())];
    let mut tool = dep("tool", "0.1.0");
    tool.bins = vec![("tool".to_string(), "tool.js".to_string())];
    let plan = Plan::new(vec![
        DependencyTree { root: typescript, children: vec![DependencyTree { root: nested_bin, children: vec![] }] },
        tree("plain", "1.0.0", vec![]),
        DependencyTree { root: tool, children: vec![] },
    ]);
    let link = |package: &str, command: &str, script: &str, fallback: &str| BinLink {
        package: package.to_string(),
        command: command.to_string(),
        link: format!("node_modules/.bin/{}", command),
        script: script.to_string(),
        fallback: fallback.to_string(),
    };
    assert_eq!(
        setup_bins(&plan),
        vec![
            link("typescript@5.0.0", "tsc", "../typescript/bin/tsc", "../typescript/bin/tsc.js"),
            link(
                "typescript@5.0.0",
                "tsserver",
                "../typescript/./bin/tsserver.mjs",
                "../typescript/./bin/tsserver.js"
            ),
            link("tool@0.1.0", "tool", "../tool/tool.js", "../tool/tool.js"),
        ]
    );
    assert!(setup_bins(&Plan::new(vec![])).is_empty());
}

#[test]
fn paths_that_lead_out_are_refused() {
    assert!(!escapes(""));
    assert!(!escapes("left-pad"));
    assert!(!escapes("@scope/name"));
    assert!(!escapes("a/node_modules/b"));
    assert!(!escapes("..."));
    assert!(!escapes("..a/b.."));
    assert!(!escapes("a/.b/c"));
    assert!(!escapes("a/./b"));
    assert!(!escapes("a//b"));
    assert!(escapes(".."));
    assert!(escapes("../a"));
    assert!(escapes("a/.."));
    assert!(escapes("a/../b"));
    assert!(escapes("a//../b"));
    assert!(escapes("/etc/passwd"));
    assert!(escapes("/"));
    assert_eq!(scoped_join("node_modules", "a/node_modules/b"), Ok("node_modules/a/node_modules/b".to_string()));
    assert_eq!(scoped_join("node_modules", "a/../../b"), Err(ScopeError { path: "a/../../b".to_string() }));
    assert_eq!(
        install_package(&vec!["..".to_string()], &dep("a", "1.0.0")),
        Err(ScopeError { path: "../node_modules/a".to_string() })
    );
    assert_eq!(
        install_package(&Vec::new(), &dep("/abs", "1.0.0")),
        Err(ScopeError { path: "/abs@1.0.0".to_string() })
    );
    assert_eq!(
        install_package(&Vec::new(), &dep("a/../../b", "1.0.0")),
        Err(ScopeError { path: "a/../../b@1.0.0".to_string() })
    );
}

#[test]
fn no_two_nodes_share_a_place() {
    let steps = execute_plan(&nested());
    for (i, a) in steps.iter().enumerate() {
        for b in steps[i + 1..].iter() {
            assert!(a.prefix != b.prefix || a.dependency.name != b.dependency.name);
            assert_ne!(
                install_target(&a.prefix, &a.dependency.name),
                install_target(&b.prefix, &b.dependency.name)
            );
        }
    }
}

#[test]
fn shims_run_the_script_from_their_directory() {
    assert_eq!(
        cmd_shim("../typescript/bin/tsc"),
        "@ECHO off\r\nGOTO start\r\n:find_dp0\r\nSET dp0=%~dp0\r\nEXIT /b\r\n:start\r\nSETLOCAL\r\nCALL :find_dp0\r\n\r\n\"%dp0%\\..\\typescript\\bin\\tsc\" %*\r\n"
    );
    assert_eq!(
        ps1_shim("../typescript/bin/tsc"),
        "#!/usr/bin/env pwsh\r\n$basedir=Split-Path $MyInvocation.MyCommand.Definition -Parent\r\n\r\n$exe=\"\"\r\nif ($PSVersionTable.PSVersion -lt \"6.0\" -or $IsWindows) {\r\n  $exe=\".exe\"\r\n}\r\n& \"$basedir/../typescript/bin/tsc\" $args\r\nexit $LASTEXITCODE\r\n"
    );
}

#[test]
fn links_are_made_of_the_kind_asked_for() {
    assert_eq!(symlink(Some("file"), true), SymlinkKind::File);
    assert_eq!(symlink(Some("dir"), false), SymlinkKind::Dir);
    assert_eq!(symlink(Some("junction"), false), SymlinkKind::Junction);
    assert_eq!(symlink(Some("other"), true), SymlinkKind::Dir);
    assert_eq!(symlink(Some("other"), false), SymlinkKind::File);
    assert_eq!(symlink(None, true), SymlinkKind::Dir);
    assert_eq!(symlink(None, false), SymlinkKind::File);
}

#[test]
fn a_plan_has_one_tree_for_each_root_name() {
    assert!(is_forest_wf(&nested().trees));
    assert!(is_forest_wf(&Vec::new()));
    assert_eq!(Plan::checked(nested().trees), Some(nested()));
    let twice = vec![tree("a", "1.0.0", vec![]), tree("b", "1.0.0", vec![]), tree("a", "2.0.0", vec![])];
    assert!(!is_forest_wf(&twice));
    assert_eq!(Plan::checked(twice), None);
    let below = vec![tree("a", "1.0.0", vec![tree("c", "1.0.0", vec![]), tree("c", "1.0.0", vec![])])];
    assert!(!is_forest_wf(&below));
    assert_eq!(Plan::checked(below), None);
    let same_name_at_two_levels = vec![tree("a", "1.0.0", vec![tree("a", "2.0.0", vec![])])];
    assert!(is_forest_wf(&same_name_at_two_levels));
}

#[test]
fn the_order_of_the_trees_makes_no_other_plan() {
    let plan = nested();
    let mut reordered = nested();
    reordered.trees.swap(0, 1);
    assert!(plan.same(&reordered));
    assert!(reordered.same(&plan));
    let mut below = nested();
    below.trees[1].children.swap(0, 1);
    assert!(plan.same(&below));
    assert!(below.same(&plan));
    assert_ne!(plan, below);
    let one = Plan::new(vec![tree("a", "1.0.0", vec![]), tree("b", "1.0.0", vec![])]);
    let other = Plan::new(vec![tree("b", "1.0.0", vec![]), tree("a", "1.0.1", vec![])]);
    assert!(!one.same(&other));
    let twice = Plan { trees: vec![tree("a", "1.0.0", vec![]), tree("a", "1.0.0", vec![])] };
    assert!(!twice.same(&one));
    assert!(!one.same(&twice));
    let empty = Plan::new(vec![]);
    assert!(empty.same(&Plan::new(vec![])));
    assert!(!empty.same(&one));
}

#[test]
fn an_entry_point_points_at_the_script_or_at_its_fallback() {
    let link = BinLink {
        package: "tool@1.0.0".to_string(),
        command: "tool".to_string(),
        link: "node_modules/.bin/tool".to_string(),
        script: "../tool/cli".to_string(),
        fallback: "../tool/cli.js".to_string(),
    };
    assert_eq!(link.target(true), "../tool/cli");
    assert_eq!(link.target(false), "../tool/cli.js");
}

#[test]
fn an_entry_point_that_exists_already_is_left_alone() {
    assert!(link_accepted(LinkAttempt::Made));
    assert!(link_accepted(LinkAttempt::AlreadyExists));
    assert!(!link_accepted(LinkAttempt::Failed));
}
