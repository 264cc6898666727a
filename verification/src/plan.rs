//! The installable forest: one tree per top-level requirement, where each
//! node goes on disk, and in which order the nodes are placed.

use vstd::prelude::*;
use crate::model::Model;
use crate::npm::{
    forest_nodes, lemma_tree_children, tree_nodes, Dependency, DependencyTree,
    DependencyTreeView, DependencyView,
};
use crate::package::{PackageMetadata, PackageSpecifierView};
use crate::semver::in_range;
use crate::scoped_path::{leaves, scoped_join, ScopeError};
use crate::text::{concat, concat3};

verus! {

/// The forest to install: the trees of the top-level requirements, found by
/// the name of their root.
#[derive(Debug, PartialEq, Eq)]
pub struct Plan {
    pub trees: Vec<DependencyTree>,
}

/// The model of [`Plan`]: texts as sequences of characters.
pub struct PlanView {
    pub trees: Seq<DependencyTreeView>,
}

impl View for Plan {
    type V = PlanView;

    open spec fn view(&self) -> PlanView {
        PlanView { trees: self.trees.deep_view() }
    }
}

/// The version of the first tree whose root is called `name`.
pub open spec fn root_version(trees: Seq<DependencyTreeView>, name: Seq<char>) -> Option<
    Seq<char>,
>
    decreases trees.len(),
{
    if trees.len() == 0 {
        None
    } else if trees[0].root.name == name {
        Some(trees[0].root.version)
    } else {
        root_version(trees.skip(1), name)
    }
}

/// Whether the forest has a root for the requirement whose version lies in
/// the required range.
pub open spec fn root_meets(trees: Seq<DependencyTreeView>, req: PackageSpecifierView) -> bool {
    match root_version(trees, req.name) {
        Some(version) => in_range(req.version, version),
        None => false,
    }
}

impl PlanView {
    /// Whether every requirement is met by the root of its name.
    pub open spec fn satisfies(self, requirements: Seq<PackageSpecifierView>) -> bool {
        forall|i: int| 0 <= i < requirements.len() ==> root_meets(self.trees, #[trigger] requirements[i])
    }
}

/// No two trees of the forest have roots of the same name, and the same
/// holds among the children of every node.
pub open spec fn forest_wf(trees: Seq<DependencyTreeView>) -> bool
    decreases trees,
{
    &&& forall|i: int, j: int|
        0 <= i < j < trees.len() ==> trees[i].root.name != trees[j].root.name
    &&& forall|i: int| 0 <= i < trees.len() ==> forest_wf(#[trigger] trees[i].children)
}

/// Whether no two trees of the forest have roots of the same name, and
/// the same holds among the children of every node.
pub fn is_forest_wf(trees: &Vec<DependencyTree>) -> (r: bool)
    ensures
        r == forest_wf(trees.deep_view()),
    decreases trees,
{
    let ghost all = trees.deep_view();
    let mut i: usize = 0;
    while i < trees.len()
        invariant
            0 <= i <= trees.len(),
            all == trees.deep_view(),
            forall|a: int, b: int| 0 <= a < b < i ==> all[a].root.name != all[b].root.name,
            forall|a: int| 0 <= a < i ==> forest_wf(#[trigger] all[a].children),
        decreases trees.len() - i,
    {
        proof {
            lemma_tree_children(trees@[i as int]);
            assert(all[i as int] == trees@[i as int]@);
        }
        let mut j: usize = 0;
        while j < i
            invariant
                0 <= j <= i < trees.len(),
                all == trees.deep_view(),
                all[i as int] == trees@[i as int]@,
                all[i as int].root == trees@[i as int].root@,
                forall|a: int| 0 <= a < j ==> all[a].root.name != all[i as int].root.name,
            decreases i - j,
        {
            proof {
                lemma_tree_children(trees@[j as int]);
                assert(all[j as int] == trees@[j as int]@);
            }
            if trees[j].root.name == trees[i].root.name {
                assert(all[j as int].root.name == all[i as int].root.name);
                return false;
            }
            j = j + 1;
        }
        if !is_forest_wf(&trees[i].children) {
            assert(!forest_wf(all[i as int].children));
            return false;
        }
        i = i + 1;
    }
    true
}

impl Plan {
    /// The plan that holds `trees`, in their order. The trees are found by
    /// the name of their root, so no two of them may have roots of one name, at
    /// any level; [`Plan::checked`] takes any trees and tests this.
    pub fn new(trees: Vec<DependencyTree>) -> (r: Self)
        requires
            forest_wf(trees.deep_view()),
        ensures
            r@.trees == trees.deep_view(),
            r.wf(),
    {
        Plan { trees }
    }

    /// The plan that holds `trees`, where no two of them have roots of one
    /// name, at any level; none where two have.
    pub fn checked(trees: Vec<DependencyTree>) -> (r: Option<Self>)
        ensures
            match r {
                Some(plan) => forest_wf(trees.deep_view()) && plan@.trees == trees.deep_view(),
                None => !forest_wf(trees.deep_view()),
            },
    {
        if is_forest_wf(&trees) {
            Some(Plan { trees })
        } else {
            None
        }
    }

    /// Whether the plan has at most one tree per root name, at every level.
    pub open spec fn wf(&self) -> bool {
        forest_wf(self@.trees)
    }

    /// The version of the root called `name`, if the plan has one.
    pub fn root_version(&self, name: &String) -> (r: Option<String>)
        ensures
            r.deep_view() == root_version(self@.trees, name@),
    {
        let mut i: usize = 0;
        assert(self@.trees.skip(0) =~= self@.trees);
        while i < self.trees.len()
            invariant
                0 <= i <= self.trees.len(),
                root_version(self@.trees, name@) == root_version(
                    self@.trees.skip(i as int),
                    name@,
                ),
            decreases self.trees.len() - i,
        {
            let ghost rest = self@.trees.skip(i as int);
            assert(rest[0] == self.trees@[i as int]@);
            assert(rest.skip(1) =~= self@.trees.skip(i as int + 1));
            proof {
                lemma_tree_children(self.trees@[i as int]);
            }
            if self.trees[i].root.name == *name {
                return Some(self.trees[i].root.version.clone());
            }
            i = i + 1;
        }
        None
    }

    /// Whether every requirement of the manifest is met by the root of its
    /// name: a root of that name exists and its version lies in the required
    /// range. Reads nothing but its arguments.
    pub fn satisfies(&self, package: &PackageMetadata) -> (r: bool)
        ensures
            r == self@.satisfies(package@.all()),
    {
        let requirements = package.iter_all();
        let mut i: usize = 0;
        while i < requirements.len()
            invariant
                0 <= i <= requirements.len(),
                requirements.deep_view() == package@.all(),
                forall|j: int| 0 <= j < i ==> root_meets(self@.trees, #[trigger] package@.all()[j]),
            decreases requirements.len() - i,
        {
            assert(requirements.deep_view()[i as int] == requirements@[i as int]@);
            let met = match self.root_version(&requirements[i].name) {
                Some(version) => requirements[i].satisfies(&version),
                None => false,
            };
            if !met {
                assert(!root_meets(self@.trees, package@.all()[i as int]));
                return false;
            }
            i = i + 1;
        }
        true
    }

    /// Whether the two plans hold the same trees under the same names, node
    /// for node, in whatever order the trees and the children of each node
    /// stand.
    pub fn same(&self, other: &Plan) -> (r: bool)
        ensures
            r == plan_alike(self@, other@),
    {
        alike(&self.trees, &other.trees) && alike(&other.trees, &self.trees)
    }
}

/// Whether the two trees have the same root, and every child of the first
/// has its like among the children of the second.
pub open spec fn tree_alike(a: DependencyTreeView, b: DependencyTreeView) -> bool
    decreases a, 0nat,
{
    a.root == b.root && forest_alike(a.children, b.children)
}

/// Whether one of `trees` is like `a`.
pub open spec fn has_alike(a: DependencyTreeView, trees: Seq<DependencyTreeView>) -> bool
    decreases a, 1nat,
{
    exists|j: int| 0 <= j < trees.len() && tree_alike(a, #[trigger] trees[j])
}

/// Whether the two forests have equally many trees and every tree of the
/// first has its like in the second, whatever the order.
pub open spec fn forest_alike(a: Seq<DependencyTreeView>, b: Seq<DependencyTreeView>) -> bool
    decreases a, 2nat,
{
    &&& a.len() == b.len()
    &&& forall|i: int| 0 <= i < a.len() ==> has_alike(#[trigger] a[i], b)
}

/// Whether the two plans hold the same trees but for their order: each
/// forest is like the other. For plans that name no root twice this is the
/// equality of the maps from root name to tree.
pub open spec fn plan_alike(a: PlanView, b: PlanView) -> bool {
    forest_alike(a.trees, b.trees) && forest_alike(b.trees, a.trees)
}

/// A forest is like itself.
pub proof fn lemma_alike_itself(trees: Seq<DependencyTreeView>)
    ensures
        forest_alike(trees, trees),
    decreases trees,
{
    assert forall|i: int| 0 <= i < trees.len() implies has_alike(#[trigger] trees[i], trees) by {
        lemma_alike_itself(trees[i].children);
        assert(tree_alike(trees[i], trees[i]));
    }
}

/// Whether every tree of `a` has its like in `b`, and they are equally
/// many.
pub fn alike(a: &Vec<DependencyTree>, b: &Vec<DependencyTree>) -> (r: bool)
    ensures
        r == forest_alike(a.deep_view(), b.deep_view()),
    decreases a,
{
    let ghost left = a.deep_view();
    let ghost right = b.deep_view();
    if a.len() != b.len() {
        return false;
    }
    let mut i: usize = 0;
    while i < a.len()
        invariant
            0 <= i <= a.len(),
            a.len() == b.len(),
            left == a.deep_view(),
            right == b.deep_view(),
            forall|k: int| 0 <= k < i ==> has_alike(#[trigger] left[k], right),
        decreases a.len() - i,
    {
        let mut j: usize = 0;
        let mut found = false;
        proof {
            lemma_tree_children(a@[i as int]);
            assert(left[i as int] == a@[i as int]@);
        }
        while j < b.len() && !found
            invariant
                0 <= j <= b.len(),
                0 <= i < a.len(),
                left == a.deep_view(),
                right == b.deep_view(),
                left[i as int] == a@[i as int]@,
                left[i as int].root == a@[i as int].root@,
                left[i as int].children == a@[i as int].children.deep_view(),
                found ==> has_alike(left[i as int], right),
                !found ==> forall|k: int|
                    0 <= k < j ==> !tree_alike(left[i as int], #[trigger] right[k]),
            decreases b.len() - j + (if found { 0int } else { 1int }),
        {
            proof {
                lemma_tree_children(b@[j as int]);
                assert(right[j as int] == b@[j as int]@);
            }
            if a[i].root.same(&b[j].root) && alike(&a[i].children, &b[j].children) {
                assert(tree_alike(left[i as int], right[j as int]));
                found = true;
            } else {
                j = j + 1;
            }
        }
        if !found {
            assert(!has_alike(left[i as int], right));
            return false;
        }
        i = i + 1;
    }
    true
}

/// A prefix of a forest has no more nodes than the forest.
pub proof fn lemma_forest_nodes_take(trees: Seq<DependencyTreeView>, n: int)
    requires
        0 <= n <= trees.len(),
    ensures
        forest_nodes(trees.take(n)) <= forest_nodes(trees),
    decreases trees.len(),
{
    if n == trees.len() {
        assert(trees.take(n) =~= trees);
    } else {
        assert(trees.drop_last().take(n) =~= trees.take(n));
        lemma_forest_nodes_take(trees.drop_last(), n);
    }
}

/// How many nodes the trees have together, every level counted.
pub fn tree_size(trees: &Vec<DependencyTree>) -> (r: usize)
    requires
        forest_nodes(trees.deep_view()) <= usize::MAX,
    ensures
        r == forest_nodes(trees.deep_view()),
    decreases trees,
{
    let ghost all = trees.deep_view();
    let mut total: usize = 0;
    let mut i: usize = 0;
    assert(all.take(0) =~= Seq::<DependencyTreeView>::empty());
    while i < trees.len()
        invariant
            0 <= i <= trees.len(),
            all == trees.deep_view(),
            forest_nodes(all) <= usize::MAX,
            total == forest_nodes(all.take(i as int)),
        decreases trees.len() - i,
    {
        proof {
            assert(all.take(i as int + 1).drop_last() =~= all.take(i as int));
            assert(all.take(i as int + 1).last() == trees@[i as int]@);
            lemma_forest_nodes_take(all, i as int + 1);
            lemma_tree_children(trees@[i as int]);
            assert(forest_nodes(all.take(i as int + 1)) == forest_nodes(all.take(i as int))
                + tree_nodes(trees@[i as int]@));
            assert(tree_nodes(trees@[i as int]@) == 1 + forest_nodes(
                trees@[i as int].children.deep_view(),
            ));
        }
        let below = tree_size(&trees[i].children);
        total = total + 1 + below;
        i = i + 1;
    }
    assert(all.take(i as int) =~= all);
    total
}

/// Where the package `name` lies below the ancestors in `prefix`,
/// relative to the top `node_modules`: below every ancestor in its own
/// `node_modules`.
pub open spec fn relative_path(prefix: Seq<Seq<char>>, name: Seq<char>) -> Seq<char> {
    crate::text::joined(prefix.push(name), "/node_modules/"@)
}

/// Where the package `name` is placed below the ancestors in `prefix`.
/// Placement is nested: the same package below different ancestors gets
/// different paths.
pub open spec fn target_path(prefix: Seq<Seq<char>>, name: Seq<char>) -> Seq<char> {
    "node_modules/"@ + relative_path(prefix, name)
}

/// The directory of the content-addressed store that holds the package `id`.
pub open spec fn store_path(id: Seq<char>) -> Seq<char> {
    ".xmas/store/"@ + id
}

/// The directory of the store that holds the unpacked package `id`.
pub fn store_dir(id: &str) -> (r: String)
    ensures
        r@ == store_path(id@),
{
    concat(".xmas/store/", id)
}

/// The file whose existence says that the store entry `id` is complete.
pub fn store_marker(id: &str) -> (r: String)
    ensures
        r@ == store_path(id@) + "/_complete"@,
{
    concat3(".xmas/store/", id, "/_complete")
}

/// Where the package `name` lies below the ancestors in `prefix`, the
/// outermost first, relative to the top `node_modules`.
pub fn install_path(prefix: &Vec<String>, name: &str) -> (r: String)
    ensures
        r@ == relative_path(prefix.deep_view(), name@),
{
    let mut stack = crate::model::duplicate_all(prefix);
    stack.push(String::from_str(name));
    assert(stack.deep_view() =~= prefix.deep_view().push(name@));
    crate::text::join(&stack, "/node_modules/")
}

/// The path at which the package `name` is installed below the ancestors in
/// `prefix`, the outermost first.
pub fn install_target(prefix: &Vec<String>, name: &str) -> (r: String)
    ensures
        r@ == target_path(prefix.deep_view(), name@),
{
    let relative = install_path(prefix, name);
    concat("node_modules/", relative.as_str())
}

/// Where one node of the plan goes and what tells that it is already there.
#[derive(Debug, Clone, PartialEq, Eq)]
pub struct Placement {
    /// The directory that receives the package's files.
    pub target: String,
    /// The file inside `target` whose existence says that exactly this
    /// version is installed there.
    pub marker: String,
    /// The store entry from which the files are linked.
    pub store: String,
}

/// The model of [`Placement`]: texts as sequences of characters.
pub struct PlacementView {
    pub target: Seq<char>,
    pub marker: Seq<char>,
    pub store: Seq<char>,
}

impl View for Placement {
    type V = PlacementView;

    open spec fn view(&self) -> PlacementView {
        PlacementView { target: self.target@, marker: self.marker@, store: self.store@ }
    }
}

/// The placement of `dep` below the ancestors in `prefix`.
pub open spec fn placement(prefix: Seq<Seq<char>>, dep: DependencyView) -> PlacementView {
    PlacementView {
        target: target_path(prefix, dep.name),
        marker: target_path(prefix, dep.name) + "/.installed!"@ + dep.id(),
        store: store_path(dep.id()),
    }
}

/// Where `dep` is installed below the ancestors in `prefix`, the marker that
/// records it, and the store entry that provides its files. A package whose
/// identity or whose place could lead out of the store or out of
/// `node_modules` is refused.
pub fn install_package(prefix: &Vec<String>, dep: &Dependency) -> (r: Result<Placement, ScopeError>)
    ensures
        match r {
            Ok(p) => !leaves(dep@.id()) && !leaves(relative_path(prefix.deep_view(), dep@.name))
                && p@ == placement(prefix.deep_view(), dep@),
            Err(e) => if leaves(dep@.id()) {
                e.path@ == dep@.id()
            } else {
                leaves(relative_path(prefix.deep_view(), dep@.name)) && e.path@ == relative_path(
                    prefix.deep_view(),
                    dep@.name,
                )
            },
        },
{
    let id = dep.id();
    let store = match scoped_join(".xmas/store", id.as_str()) {
        Ok(store) => store,
        Err(e) => {
            return Err(e);
        },
    };
    let relative = install_path(prefix, dep.name.as_str());
    let target = match scoped_join("node_modules", relative.as_str()) {
        Ok(target) => target,
        Err(e) => {
            return Err(e);
        },
    };
    proof {
        lemma_literals();
    }
    let marker = concat3(target.as_str(), "/.installed!", id.as_str());
    assert(target@ =~= target_path(prefix.deep_view(), dep@.name));
    assert(store@ =~= store_path(dep@.id()));
    Ok(Placement { target, marker, store })
}

/// How the literals of the paths are made up.
proof fn lemma_literals()
    ensures
        "node_modules/"@ == "node_modules"@ + "/"@,
        ".xmas/store/"@ == ".xmas/store"@ + "/"@,
{
    reveal_strlit("node_modules/");
    reveal_strlit("node_modules");
    reveal_strlit(".xmas/store/");
    reveal_strlit(".xmas/store");
    reveal_strlit("/");
    assert("node_modules/"@ =~= "node_modules"@ + "/"@);
    assert(".xmas/store/"@ =~= ".xmas/store"@ + "/"@);
}

/// What to do with a node once its download is there.
#[derive(Debug, Clone, Copy, PartialEq, Eq)]
pub enum InstallAction {
    /// The marker exists: this version is already in place, leave it.
    Skip,
    /// Remove what is at the target, link the store entry in, write the marker.
    Replace,
}

/// Decides from the presence of the install marker whether a node is left
/// alone or installed afresh.
pub fn install_action(marker_exists: bool) -> (r: InstallAction)
    ensures
        r == (if marker_exists {
            InstallAction::Skip
        } else {
            InstallAction::Replace
        }),
{
    if marker_exists {
        InstallAction::Skip
    } else {
        InstallAction::Replace
    }
}

/// One unit of work of an installation: a node and the names of its
/// ancestors, the outermost first.
#[derive(Debug, Clone, PartialEq, Eq)]
pub struct InstallStep {
    pub prefix: Vec<String>,
    pub dependency: Dependency,
}

/// The model of [`InstallStep`]: texts as sequences of characters.
pub struct InstallStepView {
    pub prefix: Seq<Seq<char>>,
    pub dependency: DependencyView,
}

impl View for InstallStep {
    type V = InstallStepView;

    open spec fn view(&self) -> InstallStepView {
        InstallStepView { prefix: self.prefix.deep_view(), dependency: self.dependency@ }
    }
}

impl DeepView for InstallStep {
    type V = InstallStepView;

    open spec fn deep_view(&self) -> InstallStepView {
        self@
    }
}

/// The steps for one tree below `prefix`: the root first, then the steps of
/// its children with the root's name added to the prefix.
pub open spec fn tree_steps(tree: DependencyTreeView, prefix: Seq<Seq<char>>) -> Seq<
    InstallStepView,
>
    decreases tree,
{
    seq![InstallStepView { prefix: prefix, dependency: tree.root }] + forest_steps(
        tree.children,
        prefix.push(tree.root.name),
    )
}

/// The steps for the trees of a forest, tree after tree.
pub open spec fn forest_steps(trees: Seq<DependencyTreeView>, prefix: Seq<Seq<char>>) -> Seq<
    InstallStepView,
>
    decreases trees,
{
    if trees.len() == 0 {
        Seq::empty()
    } else {
        forest_steps(trees.drop_last(), prefix) + tree_steps(trees.last(), prefix)
    }
}

/// Appends to `out` the steps of the forest `trees` below `prefix`.
pub fn queue_install(trees: &Vec<DependencyTree>, prefix: &Vec<String>, out: &mut Vec<InstallStep>)
    ensures
        final(out).deep_view() == old(out).deep_view() + forest_steps(
            trees.deep_view(),
            prefix.deep_view(),
        ),
    decreases trees,
{
    let ghost all = trees.deep_view();
    let ghost start = out.deep_view();
    let mut i: usize = 0;
    assert(all.take(0) =~= Seq::<DependencyTreeView>::empty());
    assert(out.deep_view() =~= start + forest_steps(all.take(0), prefix.deep_view()));
    while i < trees.len()
        invariant
            0 <= i <= trees.len(),
            all == trees.deep_view(),
            out.deep_view() == start + forest_steps(all.take(i as int), prefix.deep_view()),
        decreases trees.len() - i,
    {
        let tree = &trees[i];
        proof {
            assert(all.take(i as int + 1).drop_last() =~= all.take(i as int));
            assert(all.take(i as int + 1).last() == tree@);
            lemma_tree_children(*tree);
        }
        let ghost before = out.deep_view();
        let step = InstallStep {
            prefix: crate::model::duplicate_all(prefix),
            dependency: tree.root.duplicate(),
        };
        out.push(step);
        assert(out.deep_view() =~= before + seq![
            InstallStepView { prefix: prefix.deep_view(), dependency: tree@.root },
        ]);
        let mut below = crate::model::duplicate_all(prefix);
        below.push(tree.root.name.clone());
        assert(below.deep_view() =~= prefix.deep_view().push(tree@.root.name));
        let ghost middle = out.deep_view();
        queue_install(&tree.children, &below, out);
        proof {
            let own = tree_steps(tree@, prefix.deep_view());
            assert(own == seq![
                InstallStepView { prefix: prefix.deep_view(), dependency: tree@.root },
            ] + forest_steps(tree@.children, prefix.deep_view().push(tree@.root.name)));
            assert(forest_steps(all.take(i as int + 1), prefix.deep_view()) == forest_steps(
                all.take(i as int),
                prefix.deep_view(),
            ) + own);
            assert(out.deep_view() == middle + forest_steps(
                tree@.children,
                prefix.deep_view().push(tree@.root.name),
            ));
        }
        assert(out.deep_view() =~= start + forest_steps(
            all.take(i as int + 1),
            prefix.deep_view(),
        ));
        i = i + 1;
    }
    assert(all.take(i as int) =~= all);
}

/// The work of installing the plan, in an order in which every node comes
/// before the nodes below it: each tree in turn, its root first.
pub fn execute_plan(plan: &Plan) -> (r: Vec<InstallStep>)
    ensures
        r.deep_view() == forest_steps(plan@.trees, Seq::empty()),
{
    let mut out: Vec<InstallStep> = Vec::new();
    let prefix: Vec<String> = Vec::new();
    assert(prefix.deep_view() =~= Seq::<Seq<char>>::empty());
    assert(out.deep_view() =~= Seq::<InstallStepView>::empty());
    queue_install(&plan.trees, &prefix, &mut out);
    assert(out.deep_view() =~= forest_steps(plan@.trees, Seq::empty()));
    out
}

/// What to do about the store entry of a package.
#[derive(Debug, Clone, PartialEq, Eq)]
pub enum DownloadAction {
    /// The completion marker is there: the entry was unpacked by this run or
    /// an earlier one, and the network is left alone.
    Skip,
    /// Fetch the tarball, unpack it into `directory`, then create `marker`.
    Fetch { url: String, directory: String, marker: String, auth: Option<String> },
}

/// The model of [`DownloadAction`]: texts as sequences of characters.
pub enum DownloadActionView {
    Skip,
    Fetch { url: Seq<char>, directory: Seq<char>, marker: Seq<char>, auth: Option<Seq<char>> },
}

impl View for DownloadAction {
    type V = DownloadActionView;

    open spec fn view(&self) -> DownloadActionView {
        match self {
            DownloadAction::Skip => DownloadActionView::Skip,
            DownloadAction::Fetch { url, directory, marker, auth } => DownloadActionView::Fetch {
                url: url@,
                directory: directory@,
                marker: marker@,
                auth: auth.deep_view(),
            },
        }
    }
}

/// A registry of the configuration: the prefix of the tarball addresses it
/// serves and the credentials to send there.
#[derive(Debug, Clone, PartialEq, Eq)]
pub struct RegistryConfig {
    pub url: String,
    pub auth: Option<String>,
}

/// The model of [`RegistryConfig`]: texts as sequences of characters.
pub struct RegistryConfigView {
    pub url: Seq<char>,
    pub auth: Option<Seq<char>>,
}

impl View for RegistryConfig {
    type V = RegistryConfigView;

    open spec fn view(&self) -> RegistryConfigView {
        RegistryConfigView { url: self.url@, auth: self.auth.deep_view() }
    }
}

impl DeepView for RegistryConfig {
    type V = RegistryConfigView;

    open spec fn deep_view(&self) -> RegistryConfigView {
        self@
    }
}

/// The credentials of the first registry whose address is a prefix of
/// `tarball`; none if no registry serves it or that registry has none.
pub open spec fn auth_for(registries: Seq<RegistryConfigView>, tarball: Seq<char>) -> Option<
    Seq<char>,
>
    decreases registries.len(),
{
    if registries.len() == 0 {
        None
    } else if registries[0].url.is_prefix_of(tarball) {
        registries[0].auth
    } else {
        auth_for(registries.skip(1), tarball)
    }
}

/// The credentials to send when fetching `tarball`.
pub fn select_auth(registries: &Vec<RegistryConfig>, tarball: &str) -> (r: Option<String>)
    ensures
        r.deep_view() == auth_for(registries.deep_view(), tarball@),
{
    let ghost all = registries.deep_view();
    let mut i: usize = 0;
    assert(all.skip(0) =~= all);
    while i < registries.len()
        invariant
            0 <= i <= registries.len(),
            all == registries.deep_view(),
            auth_for(all, tarball@) == auth_for(all.skip(i as int), tarball@),
        decreases registries.len() - i,
    {
        assert(all.skip(i as int)[0] == registries@[i as int]@);
        assert(all.skip(i as int).skip(1) =~= all.skip(i as int + 1));
        if crate::text::starts_with(tarball, registries[i].url.as_str()) {
            return match &registries[i].auth {
                Some(auth) => Some(auth.clone()),
                None => None,
            };
        }
        i = i + 1;
    }
    None
}

/// What the download of `dep` has to do, given whether the completion
/// marker of its store entry exists. A package whose identity could lead out
/// of the store is refused.
pub fn download_package(dep: &Dependency, registries: &Vec<RegistryConfig>, complete: bool) -> (r:
    Result<DownloadAction, ScopeError>)
    ensures
        match r {
            Err(e) => leaves(dep@.id()) && e.path@ == dep@.id(),
            Ok(action) => !leaves(dep@.id()) && action@ == (if complete {
                DownloadActionView::Skip
            } else {
                DownloadActionView::Fetch {
                    url: dep@.tarball,
                    directory: store_path(dep@.id()),
                    marker: store_path(dep@.id()) + "/_complete"@,
                    auth: auth_for(registries.deep_view(), dep@.tarball),
                }
            }),
        },
{
    let id = dep.id();
    let directory = match scoped_join(".xmas/store", id.as_str()) {
        Ok(directory) => directory,
        Err(e) => {
            return Err(e);
        },
    };
    proof {
        lemma_literals();
    }
    assert(directory@ =~= store_path(dep@.id()));
    if complete {
        Ok(DownloadAction::Skip)
    } else {
        Ok(
            DownloadAction::Fetch {
                url: dep.dist.tarball.clone(),
                directory,
                marker: store_marker(id.as_str()),
                auth: select_auth(registries, dep.dist.tarball.as_str()),
            },
        )
    }
}

/// An entry point to create in the shared directory of executables.
#[derive(Debug, Clone, PartialEq, Eq)]
pub struct BinLink {
    /// The identity of the package that exposes the command.
    pub package: String,
    pub command: String,
    /// Where the entry point is created.
    pub link: String,
    /// What it points at, relative to the directory of executables.
    pub script: String,
    /// What it points at where `script` does not exist: the same path with
    /// the extension `js`.
    pub fallback: String,
}

impl BinLink {
    /// What the entry point points at: the script where it exists, else
    /// the fallback.
    pub fn target(&self, script_exists: bool) -> (r: &String)
        ensures
            r@ == (if script_exists {
                self.script@
            } else {
                self.fallback@
            }),
    {
        if script_exists {
            &self.script
        } else {
            &self.fallback
        }
    }
}

/// What an attempt to make an entry point came to.
#[derive(Debug, Clone, Copy, PartialEq, Eq)]
pub enum LinkAttempt {
    /// The entry point was made.
    Made,
    /// There was one of that name already.
    AlreadyExists,
    /// It could not be made for another reason.
    Failed,
}

/// Whether the installation goes on after an attempt to make an entry
/// point: an entry point that already exists is left alone and counts as
/// made; any other failure ends the installation.
pub fn link_accepted(attempt: LinkAttempt) -> (r: bool)
    ensures
        r == !(attempt is Failed),
{
    match attempt {
        LinkAttempt::Made => true,
        LinkAttempt::AlreadyExists => true,
        LinkAttempt::Failed => false,
    }
}

/// The model of [`BinLink`]: texts as sequences of characters.
pub struct BinLinkView {
    pub package: Seq<char>,
    pub command: Seq<char>,
    pub link: Seq<char>,
    pub script: Seq<char>,
    pub fallback: Seq<char>,
}

impl View for BinLink {
    type V = BinLinkView;

    open spec fn view(&self) -> BinLinkView {
        BinLinkView {
            package: self.package@,
            command: self.command@,
            link: self.link@,
            script: self.script@,
            fallback: self.fallback@,
        }
    }
}

impl DeepView for BinLink {
    type V = BinLinkView;

    open spec fn deep_view(&self) -> BinLinkView {
        self@
    }
}

/// The entry point for the command `bin` of the package `dep`.
pub open spec fn bin_link(dep: DependencyView, bin: (Seq<char>, Seq<char>)) -> BinLinkView {
    let script = "../"@ + dep.name + "/"@ + bin.1;
    BinLinkView {
        package: dep.id(),
        command: bin.0,
        link: "node_modules/.bin/"@ + bin.0,
        script: script,
        fallback: crate::text::path_with_extension(script, "js"@),
    }
}

/// The entry points for the first `n` commands of `dep`: one for each
/// command whose name holds no `/`.
pub open spec fn dep_links(dep: DependencyView, n: int) -> Seq<BinLinkView>
    decreases n,
{
    if n <= 0 {
        Seq::empty()
    } else if dep.bins[n - 1].0.contains('/') {
        dep_links(dep, n - 1)
    } else {
        dep_links(dep, n - 1).push(bin_link(dep, dep.bins[n - 1]))
    }
}

/// The entry points for the roots of the first `n` trees.
pub open spec fn forest_links(trees: Seq<DependencyTreeView>, n: int) -> Seq<BinLinkView>
    decreases n,
{
    if n <= 0 {
        Seq::empty()
    } else {
        forest_links(trees, n - 1) + dep_links(trees[n - 1].root, trees[n - 1].root.bins.len() as int)
    }
}

/// The entry points to create for the plan: for every top-level package,
/// one per command that it exposes, in the order of the plan. A command
/// whose name holds a `/` gets none.
pub fn setup_bins(plan: &Plan) -> (r: Vec<BinLink>)
    ensures
        r.deep_view() == forest_links(plan@.trees, plan@.trees.len() as int),
{
    let mut out: Vec<BinLink> = Vec::new();
    let mut i: usize = 0;
    assert(out.deep_view() =~= Seq::<BinLinkView>::empty());
    while i < plan.trees.len()
        invariant
            0 <= i <= plan.trees.len(),
            out.deep_view() == forest_links(plan@.trees, i as int),
        decreases plan.trees.len() - i,
    {
        let dep = &plan.trees[i].root;
        let ghost start = out.deep_view();
        proof {
            lemma_tree_children(plan.trees@[i as int]);
            assert(plan@.trees[i as int].root == dep@);
        }
        let id = dep.id();
        let mut j: usize = 0;
        assert(out.deep_view() =~= start + dep_links(dep@, 0));
        while j < dep.bins.len()
            invariant
                0 <= j <= dep.bins.len(),
                id@ == dep@.id(),
                out.deep_view() == start + dep_links(dep@, j as int),
            decreases dep.bins.len() - j,
        {
            let bin = &dep.bins[j];
            assert(dep@.bins[j as int] == (bin.0@, bin.1@));
            if !crate::text::contains_char(bin.0.as_str(), '/') {
                let mut script = concat3("../", dep.name.as_str(), "/");
                script.append(bin.1.as_str());
                proof {
                    reveal_strlit("js");
                    assert(crate::text::plain_extension("js"@));
                }
                let fallback = crate::text::with_extension(script.as_str(), "js");
                let link = BinLink {
                    package: id.clone(),
                    command: bin.0.clone(),
                    link: concat("node_modules/.bin/", bin.0.as_str()),
                    script,
                    fallback,
                };
                assert(link@ == bin_link(dep@, dep@.bins[j as int]));
                let ghost before = out.deep_view();
                out.push(link);
                assert(out.deep_view() =~= before.push(bin_link(dep@, dep@.bins[j as int])));
            }
            assert(out.deep_view() =~= start + dep_links(dep@, j as int + 1));
            j = j + 1;
        }
        i = i + 1;
    }
    out
}

/// Whether `parent` is the step of the node directly above the node of
/// `child`.
pub open spec fn is_parent(parent: InstallStepView, child: InstallStepView) -> bool {
    child.prefix.len() > 0 && parent.prefix == child.prefix.drop_last() && parent.dependency.name
        == child.prefix.last()
}

/// Whether the step of the node directly above the node of step `j` comes
/// before step `j`.
pub open spec fn has_parent_before(steps: Seq<InstallStepView>, j: int) -> bool {
    exists|i: int| 0 <= i < j && is_parent(#[trigger] steps[i], steps[j])
}

/// Whether every step is at or below `base`, and every step below it comes
/// after the step of its parent.
pub open spec fn parents_first(steps: Seq<InstallStepView>, base: Seq<Seq<char>>) -> bool {
    forall|j: int|
        0 <= j < steps.len() ==> base.is_prefix_of((#[trigger] steps[j]).prefix) && (
        steps[j].prefix.len() > base.len() ==> has_parent_before(steps, j))
}

/// The steps of a tree start with its root, and every other step comes
/// after the step of its parent.
pub proof fn lemma_tree_parents_first(tree: DependencyTreeView, base: Seq<Seq<char>>)
    ensures
        tree_steps(tree, base).len() >= 1,
        tree_steps(tree, base)[0].prefix == base,
        tree_steps(tree, base)[0].dependency == tree.root,
        parents_first(tree_steps(tree, base), base),
    decreases tree,
{
    let below = base.push(tree.root.name);
    let rest = forest_steps(tree.children, below);
    let steps = tree_steps(tree, base);
    lemma_forest_parents_first(tree.children, below);
    assert(steps[0] == InstallStepView { prefix: base, dependency: tree.root });
    assert forall|j: int| 0 <= j < steps.len() implies base.is_prefix_of(
        (#[trigger] steps[j]).prefix,
    ) && (steps[j].prefix.len() > base.len() ==> has_parent_before(steps, j)) by {
        if j > 0 {
            assert(steps[j] == rest[j - 1]);
            let prefix = steps[j].prefix;
            assert(below.is_prefix_of(rest[j - 1].prefix));
            assert(prefix.subrange(0, below.len() as int) =~= below);
            assert(base =~= prefix.subrange(0, base.len() as int)) by {
                assert forall|k: int| 0 <= k < base.len() implies base[k] == prefix[k] by {
                    assert(below[k] == prefix.subrange(0, below.len() as int)[k]);
                }
            }
            if prefix.len() == below.len() {
                assert(prefix =~= below);
                assert(prefix.drop_last() =~= base);
                assert(is_parent(steps[0], steps[j]));
            } else {
                assert(has_parent_before(rest, j - 1));
                let i = choose|i: int| 0 <= i < j - 1 && is_parent(#[trigger] rest[i], rest[j - 1]);
                assert(steps[i + 1] == rest[i]);
                assert(is_parent(steps[i + 1], steps[j]));
            }
        } else {
            assert(base.subrange(0, base.len() as int) =~= base);
        }
    }
}

/// In the steps of a forest, every step below the top comes after the step
/// of its parent.
pub proof fn lemma_forest_parents_first(trees: Seq<DependencyTreeView>, base: Seq<Seq<char>>)
    ensures
        parents_first(forest_steps(trees, base), base),
    decreases trees,
{
    if trees.len() > 0 {
        let first = forest_steps(trees.drop_last(), base);
        let second = tree_steps(trees.last(), base);
        let steps = forest_steps(trees, base);
        lemma_forest_parents_first(trees.drop_last(), base);
        lemma_tree_parents_first(trees.last(), base);
        assert forall|j: int| 0 <= j < steps.len() implies base.is_prefix_of(
            (#[trigger] steps[j]).prefix,
        ) && (steps[j].prefix.len() > base.len() ==> has_parent_before(steps, j)) by {
            if j < first.len() {
                assert(steps[j] == first[j]);
                if steps[j].prefix.len() > base.len() {
                    let i = choose|i: int| 0 <= i < j && is_parent(#[trigger] first[i], first[j]);
                    assert(steps[i] == first[i]);
                    assert(is_parent(steps[i], steps[j]));
                }
            } else {
                let at = j - first.len();
                assert(steps[j] == second[at]);
                if steps[j].prefix.len() > base.len() {
                    let i = choose|i: int| 0 <= i < at && is_parent(#[trigger] second[i], second[at]);
                    assert(steps[first.len() + i] == second[i]);
                    assert(is_parent(steps[first.len() + i], steps[j]));
                }
            }
        }
    }
}

/// Parents first: in the order in which a plan is executed, and in which
/// lifecycle scripts run, every node that is not the root of a tree comes
/// after the node directly above it.
pub proof fn lemma_placed_after_parent(plan: PlanView, j: int)
    requires
        0 <= j < forest_steps(plan.trees, Seq::empty()).len(),
        forest_steps(plan.trees, Seq::empty())[j].prefix.len() > 0,
    ensures
        has_parent_before(forest_steps(plan.trees, Seq::empty()), j),
{
    lemma_forest_parents_first(plan.trees, Seq::empty());
}

/// A tree has one step for each of its nodes.
pub proof fn lemma_tree_steps_count(tree: DependencyTreeView, base: Seq<Seq<char>>)
    ensures
        tree_steps(tree, base).len() == tree_nodes(tree),
    decreases tree,
{
    lemma_forest_steps_count(tree.children, base.push(tree.root.name));
}

/// Every node once: a forest has one step for each of its nodes, which is
/// what [`tree_size`] counts.
pub proof fn lemma_forest_steps_count(trees: Seq<DependencyTreeView>, base: Seq<Seq<char>>)
    ensures
        forest_steps(trees, base).len() == forest_nodes(trees),
    decreases trees,
{
    if trees.len() > 0 {
        lemma_forest_steps_count(trees.drop_last(), base);
        lemma_tree_steps_count(trees.last(), base);
    }
}

/// The name of the tree at the top of which, or below which, a step lies,
/// for steps at or below `base`.
pub open spec fn top_name(step: InstallStepView, base: Seq<Seq<char>>) -> Seq<char> {
    if step.prefix.len() == base.len() {
        step.dependency.name
    } else {
        step.prefix[base.len() as int]
    }
}

/// Whether the two steps are for the same place: the same name below the
/// same ancestors.
pub open spec fn same_place(a: InstallStepView, b: InstallStepView) -> bool {
    a.prefix == b.prefix && a.dependency.name == b.dependency.name
}

/// Whether no two of the steps are for the same place.
pub open spec fn distinct_places(steps: Seq<InstallStepView>) -> bool {
    forall|i: int, j: int|
        0 <= i < j < steps.len() ==> !same_place(#[trigger] steps[i], #[trigger] steps[j])
}

/// Every step of a tree lies at the top of the tree or below it.
pub proof fn lemma_tree_top(tree: DependencyTreeView, base: Seq<Seq<char>>, j: int)
    requires
        0 <= j < tree_steps(tree, base).len(),
    ensures
        top_name(tree_steps(tree, base)[j], base) == tree.root.name,
        j > 0 ==> tree_steps(tree, base)[j].prefix.len() > base.len(),
{
    lemma_tree_parents_first(tree, base);
    if j > 0 {
        let below = base.push(tree.root.name);
        let rest = forest_steps(tree.children, below);
        lemma_forest_parents_first(tree.children, below);
        assert(tree_steps(tree, base)[j] == rest[j - 1]);
        assert(below.is_prefix_of(rest[j - 1].prefix));
        assert(rest[j - 1].prefix.subrange(0, below.len() as int)[base.len() as int]
            == below[base.len() as int]);
    }
}

/// Every step of a forest lies at the top of one of its trees or below it.
pub proof fn lemma_forest_top(trees: Seq<DependencyTreeView>, base: Seq<Seq<char>>, j: int)
    requires
        0 <= j < forest_steps(trees, base).len(),
    ensures
        exists|k: int|
            0 <= k < trees.len() && (#[trigger] trees[k]).root.name == top_name(
                forest_steps(trees, base)[j],
                base,
            ),
    decreases trees,
{
    let first = forest_steps(trees.drop_last(), base);
    let second = tree_steps(trees.last(), base);
    if j < first.len() {
        lemma_forest_top(trees.drop_last(), base, j);
        let k = choose|k: int|
            0 <= k < trees.drop_last().len() && (#[trigger] trees.drop_last()[k]).root.name
                == top_name(first[j], base);
        assert(trees[k] == trees.drop_last()[k]);
    } else {
        lemma_tree_top(trees.last(), base, j - first.len());
        assert(trees[trees.len() - 1] == trees.last());
    }
}

/// No two steps of a tree whose nodes have distinct names among their
/// children are for the same place.
pub proof fn lemma_tree_places(tree: DependencyTreeView, base: Seq<Seq<char>>)
    requires
        forest_wf(tree.children),
    ensures
        distinct_places(tree_steps(tree, base)),
    decreases tree,
{
    let below = base.push(tree.root.name);
    let rest = forest_steps(tree.children, below);
    let steps = tree_steps(tree, base);
    lemma_forest_places(tree.children, below);
    lemma_tree_parents_first(tree, base);
    assert forall|i: int, j: int| 0 <= i < j < steps.len() implies !same_place(
        #[trigger] steps[i],
        #[trigger] steps[j],
    ) by {
        lemma_tree_top(tree, base, j);
        if i > 0 {
            assert(steps[i] == rest[i - 1]);
            assert(steps[j] == rest[j - 1]);
        }
    }
}

/// Nested placement: no two steps of a forest whose nodes have distinct
/// names among their children, and whose trees have roots of distinct names,
/// are for the same place. A package that is required at two positions is
/// placed twice, once below each of its parents.
pub proof fn lemma_forest_places(trees: Seq<DependencyTreeView>, base: Seq<Seq<char>>)
    requires
        forest_wf(trees),
    ensures
        distinct_places(forest_steps(trees, base)),
    decreases trees,
{
    if trees.len() > 0 {
        let shorter = trees.drop_last();
        let first = forest_steps(shorter, base);
        let second = tree_steps(trees.last(), base);
        let steps = forest_steps(trees, base);
        assert(forest_wf(shorter)) by {
            assert forall|i: int, j: int| 0 <= i < j < shorter.len() implies shorter[i].root.name
                != shorter[j].root.name by {
                assert(shorter[i] == trees[i] && shorter[j] == trees[j]);
            }
            assert forall|i: int| 0 <= i < shorter.len() implies forest_wf(
                #[trigger] shorter[i].children,
            ) by {
                assert(shorter[i] == trees[i]);
            }
        }
        assert(forest_wf(trees[trees.len() - 1].children));
        lemma_forest_places(shorter, base);
        lemma_tree_places(trees.last(), base);
        assert forall|i: int, j: int| 0 <= i < j < steps.len() implies !same_place(
            #[trigger] steps[i],
            #[trigger] steps[j],
        ) by {
            if j < first.len() {
                assert(steps[i] == first[i] && steps[j] == first[j]);
            } else if i >= first.len() {
                assert(steps[i] == second[i - first.len()]);
                assert(steps[j] == second[j - first.len()]);
            } else {
                assert(steps[i] == first[i]);
                assert(steps[j] == second[j - first.len()]);
                lemma_forest_top(shorter, base, i);
                lemma_tree_top(trees.last(), base, j - first.len());
                let k = choose|k: int|
                    0 <= k < shorter.len() && (#[trigger] shorter[k]).root.name == top_name(
                        first[i],
                        base,
                    );
                assert(shorter[k] == trees[k]);
                assert(trees[k].root.name != trees[trees.len() - 1].root.name);
                if same_place(steps[i], steps[j]) {
                    assert(top_name(steps[i], base) == top_name(steps[j], base));
                }
            }
        }
    }
}

/// The text of the command shim that runs `script`, which is given
/// relative to the directory of the shim.
pub open spec fn cmd_shim_text(script: Seq<char>) -> Seq<char> {
    "@ECHO off\r\nGOTO start\r\n:find_dp0\r\nSET dp0=%~dp0\r\nEXIT /b\r\n:start\r\nSETLOCAL\r\nCALL :find_dp0\r\n\r\n\"%dp0%\\"@
        + crate::text::with_backslashes(script) + "\" %*\r\n"@
}

/// The text of the PowerShell shim that runs `script`.
pub open spec fn ps1_shim_text(script: Seq<char>) -> Seq<char> {
    "#!/usr/bin/env pwsh\r\n$basedir=Split-Path $MyInvocation.MyCommand.Definition -Parent\r\n\r\n$exe=\"\"\r\nif ($PSVersionTable.PSVersion -lt \"6.0\" -or $IsWindows) {\r\n  $exe=\".exe\"\r\n}\r\n& \"$basedir/"@
        + script + "\" $args\r\nexit $LASTEXITCODE\r\n"@
}

/// The command shim for an entry point, for platforms on which a link
/// cannot be had cheaply: a script that runs `script` from the directory of
/// the shim, with the path written with backslashes.
pub fn cmd_shim(script: &str) -> (r: String)
    ensures
        r@ == cmd_shim_text(script@),
{
    let path = crate::text::backslashed(script);
    concat3(
        "@ECHO off\r\nGOTO start\r\n:find_dp0\r\nSET dp0=%~dp0\r\nEXIT /b\r\n:start\r\nSETLOCAL\r\nCALL :find_dp0\r\n\r\n\"%dp0%\\",
        path.as_str(),
        "\" %*\r\n",
    )
}

/// The PowerShell shim for an entry point.
pub fn ps1_shim(script: &str) -> (r: String)
    ensures
        r@ == ps1_shim_text(script@),
{
    concat3(
        "#!/usr/bin/env pwsh\r\n$basedir=Split-Path $MyInvocation.MyCommand.Definition -Parent\r\n\r\n$exe=\"\"\r\nif ($PSVersionTable.PSVersion -lt \"6.0\" -or $IsWindows) {\r\n  $exe=\".exe\"\r\n}\r\n& \"$basedir/",
        script,
        "\" $args\r\nexit $LASTEXITCODE\r\n",
    )
}

/// What kind of link is made on a platform that tells the kinds apart.
#[derive(Debug, Clone, Copy, PartialEq, Eq)]
pub enum SymlinkKind {
    File,
    Dir,
    Junction,
}

/// The kind of link that the type names: `file`, `dir` or `junction`.
pub open spec fn named_kind(type_value: Seq<char>) -> Option<SymlinkKind> {
    if type_value == "file"@ {
        Some(SymlinkKind::File)
    } else if type_value == "dir"@ {
        Some(SymlinkKind::Dir)
    } else if type_value == "junction"@ {
        Some(SymlinkKind::Junction)
    } else {
        None
    }
}

/// The kind of link to make: the kind that was asked for where it is one
/// of `file`, `dir` and `junction`; else a directory link to a directory and
/// a file link to anything else.
pub fn symlink(type_value: Option<&str>, target_is_dir: bool) -> (r: SymlinkKind)
    ensures
        r == (match type_value {
            Some(t) if named_kind(t@) is Some => named_kind(t@)->Some_0,
            _ => if target_is_dir {
                SymlinkKind::Dir
            } else {
                SymlinkKind::File
            },
        }),
{
    match type_value {
        Some(t) => {
            if crate::text::str_eq(t, "file") {
                return SymlinkKind::File;
            }
            if crate::text::str_eq(t, "dir") {
                return SymlinkKind::Dir;
            }
            if crate::text::str_eq(t, "junction") {
                return SymlinkKind::Junction;
            }
        },
        None => {},
    }
    if target_is_dir {
        SymlinkKind::Dir
    } else {
        SymlinkKind::File
    }
}

} // verus!
