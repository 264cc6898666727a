use xmas_package_manager::forest::upsert;
use xmas_package_manager::lockfile::Lockfile;
use xmas_package_manager::model::Model;
use xmas_package_manager::npm::{Dependency, DependencyTree, Dist, RegistryPackage};
use xmas_package_manager::package::{PackageMetadata, PackageSpecifier};
use xmas_package_manager::resolve::{find_published, pick_version, Graph, ResolveError};
use xmas_package_manager::semver::{is_parseable, precedes, satisfies};

fn spec(name: &str, version: &str) -> PackageSpecifier {
    PackageSpecifier::new(name.to_string(), version.to_string())
}

fn dep(name: &str, version: &str, dependencies: Vec<PackageSpecifier>) -> Dependency {
    Dependency {
        name: name.to_string(),
        version: version.to_string(),
        dist: Dist {
            tarball: format!("https://registry.example/{}/-/{}-{}.tgz", name, name, version),
            integrity: format!("sha512-{}{}", name, version),
        },
        bins: Vec::new(),
        dependencies,
    }
}

fn published(name: &str, versions: Vec<Dependency>) -> RegistryPackage {
    let latest = versions.last().map(|v| v.version.clone()).unwrap_or_default();
    RegistryPackage {
        name: name.to_string(),
        dist_tags: vec![("latest".to_string(), latest)],
        versions,
    }
}

fn registry() -> Vec<RegistryPackage> {
    vec![
        published(
            "left-pad",
            vec![dep("left-pad", "1.0.0", vec![]), dep("left-pad", "1.3.0", vec![]), dep("left-pad", "2.0.0", vec![])],
        ),
        published("foo", vec![dep("foo", "1.0.0", vec![spec("left-pad", "^2.0.0")])]),
    ]
}

fn requirements() -> Vec<PackageSpecifier> {
    vec![spec("left-pad", "^1.0.0"), spec("foo", "^1.0.0")]
}

fn bound(graph: &Graph) -> Vec<(String, String, String)> {
    graph
        .relations
        .iter()
        .map(|(req, dep)| (format!("{}@{}", req.name, req.version), dep.name.clone(), dep.version.clone()))
        .collect()
}

fn row(req: &str, name: &str, version: &str) -> (String, String, String) {
    (req.to_string(), name.to_string(), version.to_string())
}

#[test]
fn ranges_are_node_semver_ranges() {
    assert!(satisfies("^1.0.0", "1.2.0"));
    assert!(satisfies("^1.0.0", "1.0.0"));
    assert!(!satisfies("^1.0.0", "2.0.0"));
    assert!(!satisfies("^2.0.0", "1.2.0"));
    assert!(satisfies("~1.2.0", "1.2.9"));
    assert!(!satisfies("~1.2.0", "1.3.0"));
    assert!(satisfies(">=1.0.0 <2.0.0", "1.9.9"));
    assert!(satisfies("1.x", "1.4.0"));
    assert!(satisfies("*", "0.0.1"));
    assert!(satisfies("1.2.3", "1.2.3"));
    assert!(!satisfies("1.2.3", "1.2.4"));
    assert!(!satisfies("^1.0.0", "not a version"));
    assert!(!satisfies("^1.0.0", ""));
    assert!(!satisfies("^1.0.0", "^1.0.0"));
}

#[test]
fn versions_are_ordered_by_number() {
    assert!(precedes("1.2.0", "1.10.0"));
    assert!(!precedes("1.10.0", "1.2.0"));
    assert!(precedes("1.9.9", "2.0.0"));
    assert!(!precedes("1.0.0", "1.0.0"));
    assert!(precedes("1.0.0-alpha", "1.0.0"));
    assert!(!precedes("1.0.0", "1.0.0-alpha"));
    assert!(!precedes("1.0.0", "two"));
    assert!(!precedes("one", "2.0.0"));
}

#[test]
fn the_highest_version_in_range_is_picked() {
    let versions = vec![
        dep("a", "1.0.0", vec![]),
        dep("a", "1.10.0", vec![]),
        dep("a", "1.9.0", vec![]),
        dep("a", "2.0.0", vec![]),
        dep("a", "broken", vec![]),
    ];
    let pick = |range: &str| pick_version(&versions, &spec("a", range)).map(|d| d.version);
    assert_eq!(pick("^1.0.0"), Some("1.10.0".to_string()));
    assert_eq!(pick("~1.9.0"), Some("1.9.0".to_string()));
    assert_eq!(pick("*"), Some("2.0.0".to_string()));
    assert_eq!(pick("1.0.0"), Some("1.0.0".to_string()));
    assert_eq!(pick("^3.0.0"), None);
    assert_eq!(pick_version(&Vec::new(), &spec("a", "*")), None);
    assert_eq!(pick_version(&versions, &spec("b", "*")), None);
    let twice = vec![dep("a", "1.0.0", vec![spec("x", "1")]), dep("a", "1.0.0", vec![])];
    assert_eq!(pick_version(&twice, &spec("a", "*")), Some(twice[0].clone()));
}

#[test]
fn the_registry_is_searched_by_name() {
    let registry = registry();
    assert_eq!(find_published(&registry, &"foo".to_string()), Some(&registry[1]));
    assert_eq!(find_published(&registry, &"bar".to_string()), None);
}

#[test]
fn satisfaction_invariant_holds_after_resolution() {
    let mut graph = Graph::new();
    let waiting = graph.append(requirements(), &registry(), false).unwrap();
    assert!(waiting.is_empty());
    assert_eq!(
        bound(&graph),
        vec![
            row("left-pad@^1.0.0", "left-pad", "1.3.0"),
            row("foo@^1.0.0", "foo", "1.0.0"),
            row("left-pad@^2.0.0", "left-pad", "2.0.0"),
        ]
    );
    for (req, resolved) in graph.relations.iter() {
        assert!(req.satisfies(&resolved.version));
        assert!(satisfies(&req.version, &resolved.version));
    }
}

#[test]
fn a_version_in_the_graph_is_shared() {
    let registry = vec![
        published("a", vec![dep("a", "1.0.0", vec![]), dep("a", "1.2.0", vec![]), dep("a", "1.5.0", vec![])]),
        published("b", vec![dep("b", "1.0.0", vec![spec("a", "~1.2.0"), spec("a", "^1.2.0")])]),
    ];
    let mut graph = Graph::new();
    let waiting = graph.append(vec![spec("a", "^1.0.0"), spec("b", "*")], &registry, false).unwrap();
    assert!(waiting.is_empty());
    assert_eq!(
        bound(&graph),
        vec![
            row("a@^1.0.0", "a", "1.5.0"),
            row("b@*", "b", "1.0.0"),
            row("a@~1.2.0", "a", "1.2.0"),
            row("a@^1.2.0", "a", "1.5.0"),
        ]
    );
    assert_eq!(graph.find_shared(&spec("a", "1.x")).map(|d| d.version), Some("1.5.0".to_string()));
    assert_eq!(graph.find_shared(&spec("a", "<1.3.0")).map(|d| d.version), Some("1.2.0".to_string()));
    assert_eq!(graph.find_shared(&spec("a", "^2.0.0")), None);
    assert_eq!(graph.find_shared(&spec("c", "*")), None);
}

#[test]
fn what_the_graph_binds_is_not_resolved_again() {
    let mut graph = Graph::new();
    graph.relations.push((spec("left-pad", "^1.0.0"), dep("left-pad", "1.0.0", vec![])));
    let waiting = graph.append(requirements(), &registry(), false).unwrap();
    assert!(waiting.is_empty());
    assert_eq!(
        bound(&graph),
        vec![
            row("left-pad@^1.0.0", "left-pad", "1.0.0"),
            row("foo@^1.0.0", "foo", "1.0.0"),
            row("left-pad@^2.0.0", "left-pad", "2.0.0"),
        ]
    );
    let again = graph.clone();
    let mut graph = graph;
    assert_eq!(graph.append(requirements(), &registry(), false), Ok(vec![]));
    assert_eq!(graph, again);
}

#[test]
fn requirements_wait_for_the_registry() {
    let mut graph = Graph::new();
    let known = vec![registry().remove(1)];
    let waiting = graph.append(requirements(), &known, false).unwrap();
    assert_eq!(waiting, vec![spec("left-pad", "^1.0.0"), spec("left-pad", "^2.0.0")]);
    assert_eq!(bound(&graph), vec![row("foo@^1.0.0", "foo", "1.0.0")]);
    let waiting = graph.append(waiting, &registry(), false).unwrap();
    assert!(waiting.is_empty());
    assert_eq!(
        bound(&graph),
        vec![
            row("foo@^1.0.0", "foo", "1.0.0"),
            row("left-pad@^1.0.0", "left-pad", "1.3.0"),
            row("left-pad@^2.0.0", "left-pad", "2.0.0"),
        ]
    );
    let mut empty = Graph::new();
    assert_eq!(empty.append(requirements(), &Vec::new(), false), Ok(requirements()));
    assert!(empty.relations.is_empty());
}

#[test]
fn a_package_without_versions_is_not_found() {
    let mut graph = Graph::new();
    let mut registry = registry();
    registry.push(published("ghost", vec![]));
    let result = graph.append(vec![spec("foo", "^1.0.0"), spec("ghost", "*")], &registry, false);
    assert_eq!(result, Err(ResolveError::NotFound("ghost".to_string())));
    assert!(graph.relations.is_empty());
}

#[test]
fn a_range_that_excludes_everything_fails() {
    let mut graph = Graph::new();
    graph.relations.push((spec("foo", "^1.0.0"), dep("foo", "1.0.0", vec![])));
    let before = graph.clone();
    let result = graph.append(vec![spec("left-pad", "^1.0.0"), spec("left-pad", "^3.0.0")], &registry(), false);
    assert_eq!(result, Err(ResolveError::NoSatisfyingVersion(spec("left-pad", "^3.0.0"))));
    assert_eq!(graph, before);
}

#[test]
fn strict_mode_resolves_nothing() {
    let mut graph = Graph::new();
    assert_eq!(
        graph.append(requirements(), &registry(), true),
        Err(ResolveError::LockfileMismatch(spec("left-pad", "^1.0.0")))
    );
    assert!(graph.relations.is_empty());
    graph.append(requirements(), &registry(), false).unwrap();
    let before = graph.clone();
    assert_eq!(graph.append(requirements(), &Vec::new(), true), Ok(vec![]));
    assert_eq!(graph, before);
    assert_eq!(
        graph.append(vec![spec("foo", "^1.0.0"), spec("foo", "^1.0.1")], &registry(), true),
        Err(ResolveError::LockfileMismatch(spec("foo", "^1.0.1")))
    );
    assert_eq!(graph, before);
    assert_eq!(graph.find_unbound(&requirements()), None);
    assert_eq!(graph.find_unbound(&vec![spec("bar", "1")]), Some(spec("bar", "1")));
}

#[test]
fn requirements_are_looked_up_exactly() {
    let mut graph = Graph::new();
    graph.append(requirements(), &registry(), false).unwrap();
    assert_eq!(graph.resolve_req(&spec("left-pad", "^2.0.0")).map(|d| d.version), Ok("2.0.0".to_string()));
    assert_eq!(
        graph.resolve_req(&spec("left-pad", "2.0.0")),
        Err(ResolveError::Unresolved(spec("left-pad", "2.0.0")))
    );
}

fn names(trees: &Vec<DependencyTree>) -> Vec<String> {
    trees.iter().map(|t| t.root.id()).collect()
}

#[test]
fn the_graph_unrolls_into_nested_trees() {
    let mut graph = Graph::new();
    graph.append(requirements(), &registry(), false).unwrap();
    let trees = graph.build_trees(&requirements()).unwrap();
    assert_eq!(names(&trees), vec!["left-pad@1.3.0", "foo@1.0.0"]);
    assert!(trees[0].children.is_empty());
    assert_eq!(names(&trees[1].children), vec!["left-pad@2.0.0"]);
    assert!(trees[1].children[0].children.is_empty());
    assert_eq!(Dependency::id(&trees[1].children[0].root), "left-pad@2.0.0");
}

#[test]
fn a_shared_version_is_a_node_of_its_own_in_each_tree() {
    let registry = vec![
        published("a", vec![dep("a", "1.0.0", vec![spec("c", "1")])]),
        published("b", vec![dep("b", "1.0.0", vec![spec("c", "1")])]),
        published("c", vec![dep("c", "1.0.0", vec![])]),
    ];
    let roots = vec![spec("a", "*"), spec("b", "*")];
    let mut graph = Graph::new();
    graph.append(roots.clone(), &registry, false).unwrap();
    assert_eq!(graph.relations.len(), 3);
    let trees = graph.build_trees(&roots).unwrap();
    assert_eq!(names(&trees[0].children), vec!["c@1.0.0"]);
    assert_eq!(names(&trees[1].children), vec!["c@1.0.0"]);
}

#[test]
fn unrolling_ends_on_a_cycle() {
    let registry = vec![
        published("a", vec![dep("a", "1.0.0", vec![spec("b", "*")])]),
        published("b", vec![dep("b", "1.0.0", vec![spec("a", "*"), spec("b", "*"), spec("c", "*")])]),
        published("c", vec![dep("c", "1.0.0", vec![spec("a", "*")])]),
    ];
    let mut graph = Graph::new();
    assert_eq!(graph.append(vec![spec("a", "*")], &registry, false), Ok(vec![]));
    let trees = graph.build_trees(&vec![spec("a", "*")]).unwrap();
    assert_eq!(names(&trees), vec!["a@1.0.0"]);
    assert_eq!(names(&trees[0].children), vec!["b@1.0.0"]);
    assert_eq!(names(&trees[0].children[0].children), vec!["c@1.0.0"]);
    assert!(trees[0].children[0].children[0].children.is_empty());
    let path = vec!["a@1.0.0".to_string()];
    assert_eq!(graph.build_tree(&spec("a", "*"), &path), Ok(None));
    let below = graph.build_forest(&vec![spec("a", "*"), spec("c", "*")], &path).unwrap();
    assert_eq!(names(&below), vec!["c@1.0.0"]);
}

#[test]
fn a_requirement_without_a_relation_cannot_be_unrolled() {
    let mut graph = Graph::new();
    graph.relations.push((spec("a", "*"), dep("a", "1.0.0", vec![spec("b", "^1.0.0")])));
    assert_eq!(
        graph.build_trees(&vec![spec("a", "*")]),
        Err(ResolveError::Unresolved(spec("b", "^1.0.0")))
    );
    assert_eq!(
        graph.build_trees(&vec![spec("z", "*"), spec("a", "*")]),
        Err(ResolveError::Unresolved(spec("z", "*")))
    );
    assert_eq!(graph.build_trees(&Vec::new()), Ok(Vec::new()));
}

#[test]
fn roots_of_one_name_share_one_tree() {
    let mut graph = Graph::new();
    graph.relations.push((spec("a", "^1.0.0"), dep("a", "1.0.0", vec![])));
    graph.relations.push((spec("b", "*"), dep("b", "1.0.0", vec![])));
    graph.relations.push((spec("a", "^1.1.0"), dep("a", "1.1.0", vec![])));
    let trees = graph
        .build_trees(&vec![spec("a", "^1.0.0"), spec("b", "*"), spec("a", "^1.1.0")])
        .unwrap();
    assert_eq!(names(&trees), vec!["a@1.1.0", "b@1.0.0"]);
    let mut forest = Vec::new();
    upsert(&mut forest, DependencyTree { root: dep("x", "1.0.0", vec![]), children: vec![] });
    upsert(&mut forest, DependencyTree { root: dep("y", "1.0.0", vec![]), children: vec![] });
    upsert(&mut forest, DependencyTree { root: dep("x", "2.0.0", vec![]), children: vec![] });
    assert_eq!(names(&forest), vec!["x@2.0.0", "y@1.0.0"]);
}

fn relation_set(graph: &Graph) -> Vec<(PackageSpecifier, Dependency)> {
    let mut all = graph.relations.clone();
    all.sort_by_key(|(req, dep)| (req.name.clone(), req.version.clone(), dep.version.clone()));
    all
}

#[test]
fn lockfile_round_trip_keeps_the_relations() {
    let mut graph = Graph::new();
    graph.append(requirements(), &registry(), false).unwrap();
    let lockfile = Lockfile::new(&graph);
    assert_eq!(lockfile.packages.len(), 2);
    assert_eq!(lockfile.packages[0].name, "left-pad");
    assert_eq!(
        lockfile.packages[0].entries.iter().map(|e| e.0.clone()).collect::<Vec<_>>(),
        vec!["^1.0.0", "^2.0.0"]
    );
    assert_eq!(lockfile.packages[1].name, "foo");
    assert_eq!(lockfile.packages[1].entries[0].1, dep("foo", "1.0.0", vec![spec("left-pad", "^2.0.0")]));
    let back = lockfile.into_graph();
    assert_eq!(
        bound(&back),
        vec![
            row("left-pad@^1.0.0", "left-pad", "1.3.0"),
            row("left-pad@^2.0.0", "left-pad", "2.0.0"),
            row("foo@^1.0.0", "foo", "1.0.0"),
        ]
    );
    assert_eq!(relation_set(&back), relation_set(&graph));
    assert_eq!(Lockfile::new(&back).into_graph(), back);
    assert_eq!(Lockfile::new(&Graph::new()).into_graph(), Graph::new());
    assert_eq!(back.build_trees(&requirements()).unwrap(), graph.build_trees(&requirements()).unwrap());
}

#[test]
fn the_manifest_lists_its_requirements() {
    let manifest = PackageMetadata {
        name: "app".to_string(),
        dependencies: vec![spec("a", "1"), spec("b", "2")],
        dev_dependencies: vec![spec("c", "3")],
        scripts: vec![("build".to_string(), "tsc".to_string()), ("build".to_string(), "no".to_string())],
    };
    assert_eq!(manifest.iter_all(), vec![spec("a", "1"), spec("b", "2"), spec("c", "3")]);
    assert_eq!(manifest.script("build"), Some("tsc".to_string()));
    assert_eq!(manifest.script("test"), None);
    assert!(manifest.same(&manifest.clone()));
    let mut other = manifest.clone();
    other.dev_dependencies.clear();
    assert!(!manifest.same(&other));
    let d = dep("a", "1.0.0", vec![spec("b", "2")]);
    assert_eq!(d.iter(), vec![spec("b", "2")]);
    assert!(d.same(&d.duplicate()));
    assert!(!d.same(&dep("a", "1.0.1", vec![spec("b", "2")])));
    assert!(spec("a", "1").same(&spec("a", "1")));
    assert!(!spec("a", "1").same(&spec("a", "2")));
}

#[test]
fn requirements_that_the_parser_does_not_survive_are_no_ranges() {
    for trap in [
        "=*", "=x", "= X", "=v*", "= v x", "=*.1.2", "~*", "~x", "~ X", "~>*", "~ > x", "~v*",
        "~1.x.3", "~1.*.3", "~>1.x.3", "~ 007.X.1", "~1.x.3-pre", "1.0.0 =*", "1.0.0\t~x",
        "1.0.0||=*", "1.0.0 || ~1.x.0", "a||=x", " =*", "^1.0.0 ~x",
    ] {
        assert!(!is_parseable(trap), "{}", trap);
        assert!(!satisfies(trap, "1.2.3"), "{}", trap);
    }
    for fine in [
        "", "*", "x", "1.x", ">=*", "<=x", ">*", "<X", "^*", "^x.1", "==*", "1=*", "a=*", "|=*",
        "~1", "~1.2", "~1.2.3", "~1.x", "~1.x.x", "~1.2.x", "~>1.2", "=1", "=1.x", "=1.2.3",
        "=v1.*", "1.0.0 - *", "~1.x.", "~1.x.a",
    ] {
        assert!(is_parseable(fine), "{}", fine);
    }
    assert!(satisfies(">=*", "1.2.3"));
    assert!(satisfies("<=x", "1.2.3") || !satisfies("<=x", "1.2.3"));
    assert!(satisfies("~1.2", "1.2.9"));
    assert!(satisfies("=1.x", "1.9.0"));
    assert!(satisfies("~1.x.x", "1.9.0"));
    assert!(!spec("a", "=*").satisfies(&"1.0.0".to_string()));
}

#[test]
fn no_requirement_makes_the_parser_give_up() {
    let mut asked = 0;
    for prefix in ["", " ", "\t", "1.0.0 ", "1.0.0||", "1.0.0 || ", "a||", "- "] {
        for op in ["", "=", "= ", "~", "~ ", "~>", "~ > ", "^", "^ ", ">=", "<=", ">", "<", "=="] {
            for lead in ["", "v", "v ", " v", "V"] {
                for partial in [
                    "*", "x", "X", "1", "1.x", "1.*.3", "x.1", "x.1.2", "1.2.x", "1.x.x", "*.*.3",
                    "1.2.3", "007.x.1", "1.x.3-pre", "1.x.3+b", "1..3", "",
                ] {
                    for suffix in ["", " ", " 2", "||1", " - 3"] {
                        let text = format!("{}{}{}{}{}", prefix, op, lead, partial, suffix);
                        let _ = satisfies(&text, "1.2.3");
                        asked += 1;
                    }
                }
            }
        }
    }
    assert_eq!(asked, 8 * 14 * 5 * 17 * 5);
}

#[test]
fn a_resolution_survives_a_requirement_that_the_parser_does_not() {
    let registry = vec![published("a", vec![dep("a", "1.0.0", vec![spec("b", "=*")])])];
    let mut graph = Graph::new();
    assert_eq!(
        graph.append(vec![spec("a", "~x")], &registry, false),
        Err(ResolveError::NoSatisfyingVersion(spec("a", "~x")))
    );
    graph.relations.push((spec("a", "=*"), dep("a", "1.0.0", vec![])));
    assert_eq!(graph.find_shared(&spec("a", "~1.x.3")), None);
    assert_eq!(pick_version(&registry[0].versions, &spec("a", "=x")), None);
}
