//! Resolved packages, the trees they form, and what the registry publishes.

use vstd::prelude::*;
use crate::model::{duplicate_all, same_all, Model};
use crate::package::{PackageSpecifier, PackageSpecifierView};
use crate::text::concat3;

verus! {

/// Where a published version can be downloaded, and its checksum.
#[derive(Debug, Clone, PartialEq, Eq)]
pub struct Dist {
    pub tarball: String,
    pub integrity: String,
}

/// A requirement bound to one concrete, published version.
#[derive(Debug, Clone, PartialEq, Eq)]
pub struct Dependency {
    pub name: String,
    pub version: String,
    pub dist: Dist,
    /// Command name and the script file, relative to the package, that it runs.
    pub bins: Vec<(String, String)>,
    /// What this version itself requires.
    pub dependencies: Vec<PackageSpecifier>,
}

/// The model of [`Dependency`]: texts as sequences of characters.
pub struct DependencyView {
    pub name: Seq<char>,
    pub version: Seq<char>,
    pub tarball: Seq<char>,
    pub integrity: Seq<char>,
    pub bins: Seq<(Seq<char>, Seq<char>)>,
    pub dependencies: Seq<PackageSpecifierView>,
}

impl DependencyView {
    /// The identity of a resolved package: its name, `@`, its version.
    pub open spec fn id(self) -> Seq<char> {
        self.name + seq!['@'] + self.version
    }
}

impl View for Dependency {
    type V = DependencyView;

    open spec fn view(&self) -> DependencyView {
        DependencyView {
            name: self.name@,
            version: self.version@,
            tarball: self.dist.tarball@,
            integrity: self.dist.integrity@,
            bins: self.bins.deep_view(),
            dependencies: self.dependencies.deep_view(),
        }
    }
}

impl DeepView for Dependency {
    type V = DependencyView;

    open spec fn deep_view(&self) -> DependencyView {
        self@
    }
}

impl Model for Dependency {
    fn same(&self, other: &Self) -> (r: bool) {
        self.name == other.name && self.version == other.version && self.dist.tarball
            == other.dist.tarball && self.dist.integrity == other.dist.integrity && same_all(
            &self.bins,
            &other.bins,
        ) && same_all(&self.dependencies, &other.dependencies)
    }

    fn duplicate(&self) -> (r: Self) {
        Dependency {
            name: self.name.clone(),
            version: self.version.clone(),
            dist: Dist {
                tarball: self.dist.tarball.clone(),
                integrity: self.dist.integrity.clone(),
            },
            bins: duplicate_all(&self.bins),
            dependencies: duplicate_all(&self.dependencies),
        }
    }
}

impl Dependency {
    /// The identity under which the package is stored: `name@version`.
    pub fn id(&self) -> (r: String)
        ensures
            r@ == self@.id(),
    {
        proof {
            reveal_strlit("@");
            assert("@"@ =~= seq!['@']);
        }
        concat3(self.name.as_str(), "@", self.version.as_str())
    }

    /// The requirements of this version, in the order it declares them.
    pub fn iter(&self) -> (r: Vec<PackageSpecifier>)
        ensures
            r.deep_view() == self@.dependencies,
    {
        duplicate_all(&self.dependencies)
    }
}

/// A resolved package together with the trees of what it requires.
#[derive(Debug, PartialEq, Eq)]
pub struct DependencyTree {
    pub root: Dependency,
    /// One tree per requirement of the root; no two share a root name.
    pub children: Vec<DependencyTree>,
}

/// The model of [`DependencyTree`]: texts as sequences of characters.
pub struct DependencyTreeView {
    pub root: DependencyView,
    pub children: Seq<DependencyTreeView>,
}

/// The model of a tree: the model of its root and, in order, of its children.
pub open spec fn tree_view(tree: DependencyTree) -> DependencyTreeView
    decreases tree,
{
    DependencyTreeView {
        root: tree.root@,
        children: Seq::new(
            tree.children@.len(),
            |i: int|
                if 0 <= i < tree.children@.len() {
                    tree_view(tree.children@[i])
                } else {
                    arbitrary()
                },
        ),
    }
}

impl View for DependencyTree {
    type V = DependencyTreeView;

    open spec fn view(&self) -> DependencyTreeView {
        tree_view(*self)
    }
}

impl DeepView for DependencyTree {
    type V = DependencyTreeView;

    open spec fn deep_view(&self) -> DependencyTreeView {
        tree_view(*self)
    }
}

/// The children of a tree's model are the models of its children.
pub proof fn lemma_tree_children(tree: DependencyTree)
    ensures
        tree@.children == tree.children.deep_view(),
        tree@.root == tree.root@,
{
    assert(tree@.children =~= tree.children.deep_view());
}

/// Whether the two trees have the same model.
pub fn same_tree(a: &DependencyTree, b: &DependencyTree) -> (r: bool)
    ensures
        r == (a@ == b@),
    decreases a,
{
    proof {
        lemma_tree_children(*a);
        lemma_tree_children(*b);
    }
    if !a.root.same(&b.root) {
        return false;
    }
    if a.children.len() != b.children.len() {
        assert(a@.children.len() != b@.children.len());
        return false;
    }
    let mut i: usize = 0;
    while i < a.children.len()
        invariant
            0 <= i <= a.children.len(),
            a.children.len() == b.children.len(),
            a@.children == a.children.deep_view(),
            b@.children == b.children.deep_view(),
            a@.root == b@.root,
            forall|j: int| 0 <= j < i ==> a.children@[j]@ == b.children@[j]@,
        decreases a.children.len() - i,
    {
        if !same_tree(&a.children[i], &b.children[i]) {
            assert(a@.children[i as int] != b@.children[i as int]);
            return false;
        }
        i = i + 1;
    }
    assert(a@.children =~= b@.children);
    true
}

/// A fresh tree with the same model.
pub fn duplicate_tree(tree: &DependencyTree) -> (r: DependencyTree)
    ensures
        r@ == tree@,
    decreases tree,
{
    let mut children: Vec<DependencyTree> = Vec::new();
    let mut i: usize = 0;
    while i < tree.children.len()
        invariant
            0 <= i <= tree.children.len(),
            children.len() == i,
            forall|j: int| 0 <= j < i ==> children@[j]@ == tree.children@[j]@,
        decreases tree.children.len() - i,
    {
        children.push(duplicate_tree(&tree.children[i]));
        i = i + 1;
    }
    let out = DependencyTree { root: tree.root.duplicate(), children };
    proof {
        lemma_tree_children(*tree);
        lemma_tree_children(out);
        assert(out@.children =~= tree@.children);
    }
    out
}

impl Model for DependencyTree {
    fn same(&self, other: &Self) -> (r: bool) {
        same_tree(self, other)
    }

    fn duplicate(&self) -> (r: Self) {
        duplicate_tree(self)
    }
}

/// How many nodes the tree has.
pub open spec fn tree_nodes(tree: DependencyTreeView) -> nat
    decreases tree,
{
    1 + forest_nodes(tree.children)
}

/// How many nodes the trees have together.
pub open spec fn forest_nodes(trees: Seq<DependencyTreeView>) -> nat
    decreases trees,
{
    if trees.len() == 0 {
        0
    } else {
        forest_nodes(trees.drop_last()) + tree_nodes(trees.last())
    }
}

/// What the registry publishes under one package name.
#[derive(Debug, Clone, PartialEq, Eq)]
pub struct RegistryPackage {
    pub name: String,
    /// Tag and the version it points at (`latest` among them).
    pub dist_tags: Vec<(String, String)>,
    /// The published versions, each with its own requirements.
    pub versions: Vec<Dependency>,
}

/// The model of [`RegistryPackage`]: texts as sequences of characters.
pub struct RegistryPackageView {
    pub name: Seq<char>,
    pub dist_tags: Seq<(Seq<char>, Seq<char>)>,
    pub versions: Seq<DependencyView>,
}

impl View for RegistryPackage {
    type V = RegistryPackageView;

    open spec fn view(&self) -> RegistryPackageView {
        RegistryPackageView {
            name: self.name@,
            dist_tags: self.dist_tags.deep_view(),
            versions: self.versions.deep_view(),
        }
    }
}

impl DeepView for RegistryPackage {
    type V = RegistryPackageView;

    open spec fn deep_view(&self) -> RegistryPackageView {
        self@
    }
}

} // verus!
