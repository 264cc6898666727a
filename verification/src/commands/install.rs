//! Installing: from the manifest and the graph to a plan, from the plan to
//! the work that is left, and the lifecycle scripts that follow it.

use vstd::prelude::*;
use crate::forest::forest_of;
use crate::model::{duplicate_all, Model};
use crate::npm::{forest_nodes, lemma_tree_children, DependencyTree, RegistryPackage, RegistryPackageView};
use crate::package::{find_script, PackageMetadata, PackageSpecifier, PackageSpecifierView};
use crate::plan::{
    execute_plan, forest_links, forest_steps, plan_alike, queue_install, setup_bins, target_path,
    tree_size, tree_steps, BinLink, InstallStep, InstallStepView, Plan, PlanView,
};
use crate::resolve::{
    first_unbound, run, Graph, RelationView, ResolveError, ResolveErrorView,
};

verus! {

/// How far the preparation of a plan has come.
#[derive(Debug, PartialEq, Eq)]
pub enum Prepared {
    /// The graph binds everything: this is the plan.
    Plan(Plan),
    /// These requirements name packages of which the registry snapshot
    /// knows nothing: fetch what is published under their names and hand
    /// them in again.
    Waiting(Vec<PackageSpecifier>),
}

/// The model of [`Prepared`]: texts as sequences of characters.
pub enum PreparedView {
    Plan(PlanView),
    Waiting(Seq<PackageSpecifierView>),
}

impl View for Prepared {
    type V = PreparedView;

    open spec fn view(&self) -> PreparedView {
        match self {
            Prepared::Plan(plan) => PreparedView::Plan(plan@),
            Prepared::Waiting(waiting) => PreparedView::Waiting(waiting.deep_view()),
        }
    }
}

/// The plan for the manifest's requirements from a graph that is taken as
/// it is.
pub open spec fn planned(relations: Seq<RelationView>, requirements: Seq<PackageSpecifierView>)
    -> Result<PreparedView, ResolveErrorView> {
    match forest_of(relations, requirements, Seq::empty()) {
        Ok(trees) => Ok(PreparedView::Plan(PlanView { trees })),
        Err(e) => Err(e),
    }
}

/// What preparing gives, and the graph it leaves.
pub open spec fn prepared(
    relations: Seq<RelationView>,
    pending: Seq<PackageSpecifierView>,
    requirements: Seq<PackageSpecifierView>,
    registry: Seq<RegistryPackageView>,
    immutable: bool,
) -> (Result<PreparedView, ResolveErrorView>, Seq<RelationView>) {
    if immutable {
        match first_unbound(relations, requirements) {
            Some(req) => (Err(ResolveErrorView::LockfileMismatch(req)), relations),
            None => (planned(relations, requirements), relations),
        }
    } else {
        match run(relations, pending, Seq::empty(), registry) {
            Err(e) => (Err(e), relations),
            Ok(end) => if end.waiting.len() > 0 {
                (Ok(PreparedView::Waiting(end.waiting)), end.relations)
            } else {
                (planned(end.relations, requirements), end.relations)
            },
        }
    }
}

/// Whether the exec result stands for the spec result.
pub open spec fn prepared_matches(
    r: Result<Prepared, ResolveError>,
    expected: Result<PreparedView, ResolveErrorView>,
) -> bool {
    match (r, expected) {
        (Ok(p), Ok(view)) => p@ == view,
        (Err(e), Err(view)) => e@ == view,
        _ => false,
    }
}

/// Prepares the plan for the manifest `package`.
///
/// With `immutable` the graph is taken as the lockfile gave it: a
/// requirement of the manifest that it does not bind is a mismatch, and
/// nothing is resolved. Otherwise the graph is extended for the `pending`
/// requirements (at first all those of the manifest, later the ones that
/// were waiting); when none is left waiting, the graph is unrolled from the
/// manifest's requirements into the plan.
pub fn prepare_plan(
    graph: &mut Graph,
    pending: Vec<PackageSpecifier>,
    package: &PackageMetadata,
    registry: &Vec<RegistryPackage>,
    immutable: bool,
) -> (r: Result<Prepared, ResolveError>)
    ensures
        prepared_matches(
            r,
            prepared(
                old(graph)@,
                pending.deep_view(),
                package@.all(),
                registry.deep_view(),
                immutable,
            ).0,
        ),
        final(graph)@ == prepared(
            old(graph)@,
            pending.deep_view(),
            package@.all(),
            registry.deep_view(),
            immutable,
        ).1,
        crate::resolve::satisfied(old(graph)@) ==> crate::resolve::satisfied(final(graph)@),
        r matches Ok(Prepared::Plan(plan)) ==> plan.wf(),
        r matches Ok(Prepared::Plan(plan)) ==> (crate::resolve::satisfied(old(graph)@)
            ==> crate::forest::forest_meets(plan@.trees, package@.all())),
{
    let roots = package.iter_all();
    let waiting = if immutable {
        let none: Vec<PackageSpecifier> = Vec::new();
        assert(none.deep_view() =~= Seq::<PackageSpecifierView>::empty());
        match graph.append(duplicate_all(&roots), registry, true) {
            Err(e) => {
                return Err(e);
            },
            Ok(_) => none,
        }
    } else {
        match graph.append(pending, registry, false) {
            Err(e) => {
                return Err(e);
            },
            Ok(waiting) => waiting,
        }
    };
    if waiting.len() > 0 {
        return Ok(Prepared::Waiting(waiting));
    }
    match graph.build_trees(&roots) {
        Err(e) => Err(e),
        Ok(trees) => Ok(Prepared::Plan(Plan::new(trees))),
    }
}

/// Whether what is installed is what the plan asks for: the snapshot of
/// the last installation holds the trees of the plan, node for node and in
/// whatever order, and meets every requirement of the manifest. Without a
/// snapshot nothing is installed.
pub fn verify_installation(package: &PackageMetadata, plan: &Plan, installed: Option<&Plan>) -> (r:
    bool)
    ensures
        r == match installed {
            Some(snapshot) => plan_alike(snapshot@, plan@) && snapshot@.satisfies(package@.all()),
            None => false,
        },
{
    match installed {
        None => false,
        Some(snapshot) => {
            if !snapshot.same(plan) {
                return false;
            }
            snapshot.satisfies(package)
        },
    }
}

/// A second installation has nothing to do: where every relation of the
/// graph binds its requirement to a version that meets it and no two
/// requirements name the same package, the plan unrolled from them, found
/// again as the snapshot of the last installation, holds the trees of the
/// plan and meets the requirements, which is when [`install`] is up to date.
pub proof fn lemma_installed_plan_is_kept(
    relations: Seq<RelationView>,
    requirements: Seq<PackageSpecifierView>,
)
    requires
        crate::resolve::satisfied(relations),
        crate::forest::distinct_names(requirements),
        forest_of(relations, requirements, Seq::empty()) is Ok,
    ensures
        ({
            let plan = PlanView { trees: forest_of(relations, requirements, Seq::empty())->Ok_0 };
            plan_alike(plan, plan) && plan.satisfies(requirements)
        }),
{
    crate::forest::lemma_fresh_plan_satisfies(relations, requirements);
    crate::plan::lemma_alike_itself(forest_of(relations, requirements, Seq::empty())->Ok_0);
}

/// A package directory in which lifecycle scripts are looked up and run.
#[derive(Debug, Clone, PartialEq, Eq)]
pub struct ScriptSite {
    /// The names from the tree root down to the package itself.
    pub stack: Vec<String>,
    /// The directory of the package.
    pub directory: String,
}

/// The model of [`ScriptSite`]: texts as sequences of characters.
pub struct ScriptSiteView {
    pub stack: Seq<Seq<char>>,
    pub directory: Seq<char>,
}

impl View for ScriptSite {
    type V = ScriptSiteView;

    open spec fn view(&self) -> ScriptSiteView {
        ScriptSiteView { stack: self.stack.deep_view(), directory: self.directory@ }
    }
}

impl DeepView for ScriptSite {
    type V = ScriptSiteView;

    open spec fn deep_view(&self) -> ScriptSiteView {
        self@
    }
}

/// The site of the package that a step installs.
pub open spec fn site_of(step: InstallStepView) -> ScriptSiteView {
    ScriptSiteView {
        stack: step.prefix.push(step.dependency.name),
        directory: target_path(step.prefix, step.dependency.name),
    }
}

/// The sites of the steps, in the order of the steps.
pub open spec fn sites_of(steps: Seq<InstallStepView>) -> Seq<ScriptSiteView> {
    Seq::new(steps.len(), |i: int| site_of(steps[i]))
}

/// The sites of the packages that the steps install, in the same order.
pub fn script_sites(steps: &Vec<InstallStep>) -> (r: Vec<ScriptSite>)
    ensures
        r.deep_view() == sites_of(steps.deep_view()),
{
    let mut out: Vec<ScriptSite> = Vec::new();
    let mut i: usize = 0;
    while i < steps.len()
        invariant
            0 <= i <= steps.len(),
            out.len() == i,
            forall|j: int| 0 <= j < i ==> out@[j]@ == site_of(steps@[j]@),
        decreases steps.len() - i,
    {
        let step = &steps[i];
        let mut stack = duplicate_all(&step.prefix);
        stack.push(step.dependency.name.clone());
        assert(stack.deep_view() =~= step@.prefix.push(step@.dependency.name));
        let directory = crate::plan::install_target(&step.prefix, step.dependency.name.as_str());
        out.push(ScriptSite { stack, directory });
        i = i + 1;
    }
    assert(out.deep_view() =~= sites_of(steps.deep_view()));
    out
}

/// The package directories of one tree in the order in which their
/// lifecycle scripts run: the root first, then every child with what is
/// below it, so that a package comes before the packages it requires.
pub fn exec_install_scripts(tree: &DependencyTree) -> (r: Vec<ScriptSite>)
    ensures
        r.deep_view() == sites_of(tree_steps(tree@, Seq::empty())),
{
    let mut steps: Vec<InstallStep> = Vec::new();
    let prefix: Vec<String> = Vec::new();
    assert(prefix.deep_view() =~= Seq::<Seq<char>>::empty());
    steps.push(InstallStep { prefix: Vec::new(), dependency: tree.root.duplicate() });
    proof {
        lemma_tree_children(*tree);
        assert(steps.deep_view() =~= seq![
            InstallStepView { prefix: Seq::empty(), dependency: tree@.root },
        ]);
    }
    let mut below: Vec<String> = Vec::new();
    below.push(tree.root.name.clone());
    assert(below.deep_view() =~= Seq::<Seq<char>>::empty().push(tree@.root.name));
    queue_install(&tree.children, &below, &mut steps);
    script_sites(&steps)
}

/// The lifecycle scripts, in the order in which they run.
pub open spec fn lifecycle_names() -> Seq<Seq<char>> {
    seq!["preinstall"@, "install"@, "postinstall"@]
}

/// The scripts among the first `n` lifecycle names that the manifest
/// declares, each with its command.
pub open spec fn declared_scripts(scripts: Seq<(Seq<char>, Seq<char>)>, n: int) -> Seq<
    (Seq<char>, Seq<char>),
>
    decreases n,
{
    if n <= 0 {
        Seq::empty()
    } else {
        let name = lifecycle_names()[n - 1];
        match find_script(scripts, name) {
            Some(command) => declared_scripts(scripts, n - 1).push((name, command)),
            None => declared_scripts(scripts, n - 1),
        }
    }
}

/// The lifecycle scripts that the package declares, with their commands,
/// in the order in which they run: `preinstall`, `install`, `postinstall`.
pub fn lifecycle_scripts(package: &PackageMetadata) -> (r: Vec<(String, String)>)
    ensures
        r.deep_view() == declared_scripts(package@.scripts, 3),
{
    let mut out: Vec<(String, String)> = Vec::new();
    assert(out.deep_view() =~= declared_scripts(package@.scripts, 0));
    match package.script("preinstall") {
        Some(command) => {
            let ghost before = out.deep_view();
            out.push((String::from_str("preinstall"), command));
            assert(out.deep_view() =~= before.push(("preinstall"@, command@)));
        },
        None => {},
    }
    assert(out.deep_view() == declared_scripts(package@.scripts, 1));
    match package.script("install") {
        Some(command) => {
            let ghost before = out.deep_view();
            out.push((String::from_str("install"), command));
            assert(out.deep_view() =~= before.push(("install"@, command@)));
        },
        None => {},
    }
    assert(out.deep_view() == declared_scripts(package@.scripts, 2));
    match package.script("postinstall") {
        Some(command) => {
            let ghost before = out.deep_view();
            out.push((String::from_str("postinstall"), command));
            assert(out.deep_view() =~= before.push(("postinstall"@, command@)));
        },
        None => {},
    }
    out
}

/// A lifecycle script that ended with a code other than zero.
#[derive(Debug, Clone, PartialEq, Eq)]
pub struct ScriptError {
    pub script: String,
    pub code: i32,
}

/// Judges how a lifecycle script ended: any code other than zero is fatal
/// and is reported with the script's name.
pub fn check_exit(script: &str, code: i32) -> (r: Result<(), ScriptError>)
    ensures
        code == 0 <==> r is Ok,
        r matches Err(e) ==> e.script@ == script@ && e.code == code,
{
    if code == 0 {
        Ok(())
    } else {
        Err(ScriptError { script: String::from_str(script), code })
    }
}

/// What an installation has left to do.
#[derive(Debug, PartialEq, Eq)]
pub struct InstallWork {
    /// Whether what is installed is what the plan asks for. Then there
    /// is nothing to do.
    pub up_to_date: bool,
    /// What the progress display counts up to: a download and a placement
    /// for every node of the plan.
    pub total: u64,
    /// The nodes to place, every node before the nodes below it.
    pub steps: Vec<InstallStep>,
    /// The package directories whose lifecycle scripts run once every node
    /// is placed, in the order in which they run.
    pub scripts: Vec<ScriptSite>,
    /// The entry points to create after the scripts.
    pub bins: Vec<BinLink>,
}

/// Lays out an installation of `plan`. Where the snapshot of the last
/// installation holds the trees of the plan and meets the manifest, nothing is left to
/// do: no node is placed, no script runs, no entry point is made. Otherwise
/// every node is placed, in the order of [`execute_plan`]; then, unless the
/// configuration disallows them, the lifecycle scripts run in the same
/// order; then the entry points of [`setup_bins`] are made.
pub fn install(
    package: &PackageMetadata,
    plan: &Plan,
    installed: Option<&Plan>,
    disallow_install_scripts: bool,
) -> (r: InstallWork)
    requires
        2 * forest_nodes(plan@.trees) <= usize::MAX,
    ensures
        r.up_to_date == match installed {
            Some(snapshot) => plan_alike(snapshot@, plan@) && snapshot@.satisfies(package@.all()),
            None => false,
        },
        r.total == 2 * forest_nodes(plan@.trees),
        r.up_to_date ==> r.steps.len() == 0 && r.scripts.len() == 0 && r.bins.len() == 0,
        !r.up_to_date ==> r.steps.deep_view() == forest_steps(plan@.trees, Seq::empty())
            && r.bins.deep_view() == forest_links(plan@.trees, plan@.trees.len() as int)
            && r.scripts.deep_view() == (if disallow_install_scripts {
            Seq::empty()
        } else {
            sites_of(forest_steps(plan@.trees, Seq::empty()))
        }),
{
    let size = tree_size(&plan.trees);
    let total = (size as u64) * 2;
    if verify_installation(package, plan, installed) {
        return InstallWork {
            up_to_date: true,
            total,
            steps: Vec::new(),
            scripts: Vec::new(),
            bins: Vec::new(),
        };
    }
    let steps = execute_plan(plan);
    let scripts = if disallow_install_scripts {
        let none: Vec<ScriptSite> = Vec::new();
        assert(none.deep_view() =~= Seq::<ScriptSiteView>::empty());
        none
    } else {
        script_sites(&steps)
    };
    let bins = setup_bins(plan);
    InstallWork { up_to_date: false, total, steps, scripts, bins }
}

} // verus!
