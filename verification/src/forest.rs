//! Unrolling the graph into trees: from each top-level requirement down along
//! what the bound versions require, stopping where a package would come
//! below itself.

use vstd::prelude::*;
use crate::model::duplicate_all;
use crate::npm::{lemma_tree_children, DependencyTree, DependencyTreeView};
use crate::package::{PackageSpecifier, PackageSpecifierView};
use crate::plan::forest_wf;
use crate::resolve::{
    bound, lemma_resolved_member, resolved, Graph, RelationView, ResolveError, ResolveErrorView,
};

verus! {

/// The position of the first tree whose root is called `name`; the number
/// of trees if there is none.
pub open spec fn root_position(trees: Seq<DependencyTreeView>, name: Seq<char>) -> int
    decreases trees.len(),
{
    if trees.len() == 0 {
        0
    } else if trees[0].root.name == name {
        0
    } else {
        1 + root_position(trees.skip(1), name)
    }
}

/// The forest with `tree` put in under the name of its root: in the place
/// of the tree that had that name, or at the end.
pub open spec fn upserted(trees: Seq<DependencyTreeView>, tree: DependencyTreeView) -> Seq<
    DependencyTreeView,
> {
    let at = root_position(trees, tree.root.name);
    if at < trees.len() {
        trees.update(at, tree)
    } else {
        trees.push(tree)
    }
}

/// The position found is within the forest or just behind it; a tree at
/// that position has the name, and no tree before it has.
pub proof fn lemma_root_position(trees: Seq<DependencyTreeView>, name: Seq<char>)
    ensures
        0 <= root_position(trees, name) <= trees.len(),
        root_position(trees, name) < trees.len() ==> trees[root_position(trees, name)].root.name
            == name,
        forall|i: int|
            0 <= i < root_position(trees, name) ==> (#[trigger] trees[i]).root.name != name,
    decreases trees.len(),
{
    if trees.len() > 0 && trees[0].root.name != name {
        lemma_root_position(trees.skip(1), name);
        assert forall|i: int| 0 <= i < root_position(trees, name) implies (
        #[trigger] trees[i]).root.name != name by {
            if i > 0 {
                assert(trees.skip(1)[i - 1] == trees[i]);
            }
        }
        let at = root_position(trees.skip(1), name);
        if at < trees.skip(1).len() {
            assert(trees.skip(1)[at] == trees[at + 1]);
        }
    }
}

/// Putting a well-formed tree into a forest with distinct root names
/// leaves the root names distinct.
pub proof fn lemma_upserted_wf(trees: Seq<DependencyTreeView>, tree: DependencyTreeView)
    requires
        forest_wf(trees),
        forest_wf(tree.children),
    ensures
        forest_wf(upserted(trees, tree)),
{
    lemma_root_position(trees, tree.root.name);
    let at = root_position(trees, tree.root.name);
    let out = upserted(trees, tree);
    assert forall|i: int, j: int| 0 <= i < j < out.len() implies out[i].root.name
        != out[j].root.name by {
        if at < trees.len() {
            if i != at && j != at {
                assert(out[i] == trees[i] && out[j] == trees[j]);
            } else if i == at {
                assert(out[j] == trees[j]);
                assert(trees[at].root.name == tree.root.name);
            } else {
                assert(out[i] == trees[i]);
            }
        } else {
            if j < trees.len() {
                assert(out[i] == trees[i] && out[j] == trees[j]);
            } else {
                assert(out[i] == trees[i]);
            }
        }
    }
    assert forall|i: int| 0 <= i < out.len() implies forest_wf(#[trigger] out[i].children) by {
        if i < trees.len() && i != at {
            assert(out[i] == trees[i]);
        }
    }
}

/// Puts `tree` into the forest under the name of its root, in the place of
/// the tree that had that name, or at the end.
pub fn upsert(forest: &mut Vec<DependencyTree>, tree: DependencyTree)
    ensures
        final(forest).deep_view() == upserted(old(forest).deep_view(), tree@),
{
    let ghost all = forest.deep_view();
    let mut i: usize = 0;
    assert(all.skip(0) =~= all);
    proof {
        lemma_tree_children(tree);
    }
    while i < forest.len()
        invariant
            0 <= i <= forest.len(),
            all == forest.deep_view(),
            forest == old(forest),
            root_position(all, tree@.root.name) == i + root_position(
                all.skip(i as int),
                tree@.root.name,
            ),
        decreases forest.len() - i,
    {
        assert(all.skip(i as int)[0] == forest@[i as int]@);
        assert(all.skip(i as int).skip(1) =~= all.skip(i as int + 1));
        proof {
            lemma_tree_children(forest@[i as int]);
        }
        if forest[i].root.name == tree.root.name {
            forest[i] = tree;
            assert(forest.deep_view() =~= all.update(i as int, tree@));
            return ;
        }
        i = i + 1;
    }
    forest.push(tree);
    assert(forest.deep_view() =~= all.push(tree@));
}

/// The identities of the versions that the graph binds, relation after
/// relation.
pub open spec fn ids_of(relations: Seq<RelationView>) -> Seq<Seq<char>> {
    Seq::new(relations.len(), |i: int| relations[i].1.id())
}

/// The identities in the graph that are not on the path.
pub open spec fn free_ids(relations: Seq<RelationView>, path: Seq<Seq<char>>) -> Set<Seq<char>> {
    Set::new(|id: Seq<char>| ids_of(relations).contains(id) && !path.contains(id))
}

/// Going down to a version of the graph that is not on the path leaves
/// fewer identities free.
pub proof fn lemma_free_push(relations: Seq<RelationView>, path: Seq<Seq<char>>, id: Seq<char>)
    requires
        ids_of(relations).contains(id),
        !path.contains(id),
    ensures
        free_ids(relations, path.push(id)).len() < free_ids(relations, path).len(),
{
    let before = free_ids(relations, path);
    let after = free_ids(relations, path.push(id));
    vstd::seq_lib::seq_to_set_is_finite(ids_of(relations));
    assert(before.subset_of(ids_of(relations).to_set()));
    vstd::set_lib::lemma_len_subset(before, ids_of(relations).to_set());
    assert(path.push(id)[path.len() as int] == id);
    assert forall|other: Seq<char>| after.contains(other) implies before.contains(other) by {
        if path.contains(other) {
            let i = choose|i: int| 0 <= i < path.len() && path[i] == other;
            assert(path.push(id)[i] == other);
        }
    }
    after.lemma_subset_not_in_lt(before, id);
}

/// A version to which the graph binds a requirement has its identity among
/// those of the graph.
pub proof fn lemma_resolved_id(relations: Seq<RelationView>, req: PackageSpecifierView)
    ensures
        resolved(relations, req) is Some ==> ids_of(relations).contains(
            resolved(relations, req)->Some_0.id(),
        ),
{
    lemma_resolved_member(relations, req);
    if resolved(relations, req) is Some {
        let dep = resolved(relations, req)->Some_0;
        let i = choose|i: int|
            0 <= i < relations.len() && (#[trigger] relations[i]).0 == req && relations[i].1 == dep;
        assert(ids_of(relations)[i] == dep.id());
    }
}

/// The tree for `req` below the versions on `path`: the version that the
/// graph binds it to, with the trees of what that version requires. There
/// is no tree where that version is on the path already: a package is not
/// unrolled below itself, which is what ends the unrolling of a cycle.
pub open spec fn tree_of(
    relations: Seq<RelationView>,
    req: PackageSpecifierView,
    path: Seq<Seq<char>>,
) -> Result<Option<DependencyTreeView>, ResolveErrorView>
    decreases free_ids(relations, path).len(), 0nat,
{
    match resolved(relations, req) {
        None => Err(ResolveErrorView::Unresolved(req)),
        Some(dep) => if path.contains(dep.id()) {
            Ok(None)
        } else {
            proof {
                lemma_resolved_id(relations, req);
                lemma_free_push(relations, path, dep.id());
            }
            match forest_of(relations, dep.dependencies, path.push(dep.id())) {
                Err(e) => Err(e),
                Ok(children) => Ok(Some(DependencyTreeView { root: dep, children })),
            }
        },
    }
}

/// The trees for `requirements` below the versions on `path`, each put in
/// under the name of its root; the first requirement that the graph does not
/// bind is the error.
pub open spec fn forest_of(
    relations: Seq<RelationView>,
    requirements: Seq<PackageSpecifierView>,
    path: Seq<Seq<char>>,
) -> Result<Seq<DependencyTreeView>, ResolveErrorView>
    decreases free_ids(relations, path).len(), requirements.len() + 1,
{
    if requirements.len() == 0 {
        Ok(Seq::empty())
    } else {
        match forest_of(relations, requirements.drop_last(), path) {
            Err(e) => Err(e),
            Ok(before) => match tree_of(relations, requirements.last(), path) {
                Err(e) => Err(e),
                Ok(None) => Ok(before),
                Ok(Some(tree)) => Ok(upserted(before, tree)),
            },
        }
    }
}

/// Whether `path` holds `id`.
pub fn on_path(path: &Vec<String>, id: &String) -> (r: bool)
    ensures
        r == path.deep_view().contains(id@),
{
    let mut i: usize = 0;
    while i < path.len()
        invariant
            0 <= i <= path.len(),
            forall|j: int| 0 <= j < i ==> path.deep_view()[j] != id@,
        decreases path.len() - i,
    {
        if path[i] == *id {
            assert(path.deep_view()[i as int] == id@);
            return true;
        }
        i = i + 1;
    }
    false
}

/// Whether the exec result stands for the spec result of [`tree_of`].
pub open spec fn tree_matches(
    r: Result<Option<DependencyTree>, ResolveError>,
    expected: Result<Option<DependencyTreeView>, ResolveErrorView>,
) -> bool {
    match (r, expected) {
        (Ok(Some(tree)), Ok(Some(view))) => tree@ == view,
        (Ok(None), Ok(None)) => true,
        (Err(e), Err(view)) => e@ == view,
        _ => false,
    }
}

/// Whether the exec result stands for the spec result of [`forest_of`].
pub open spec fn forest_matches(
    r: Result<Vec<DependencyTree>, ResolveError>,
    expected: Result<Seq<DependencyTreeView>, ResolveErrorView>,
) -> bool {
    match (r, expected) {
        (Ok(trees), Ok(views)) => trees.deep_view() == views,
        (Err(e), Err(view)) => e@ == view,
        _ => false,
    }
}

impl Graph {
    /// The tree for `req` below the versions whose identities are on `path`.
    pub fn build_tree(&self, req: &PackageSpecifier, path: &Vec<String>) -> (r: Result<
        Option<DependencyTree>,
        ResolveError,
    >)
        ensures
            tree_matches(r, tree_of(self@, req@, path.deep_view())),
        decreases free_ids(self@, path.deep_view()).len(), 0nat,
    {
        match self.resolve_req(req) {
            Err(e) => Err(e),
            Ok(dep) => {
                let id = dep.id();
                if on_path(path, &id) {
                    Ok(None)
                } else {
                    proof {
                        lemma_resolved_id(self@, req@);
                        lemma_free_push(self@, path.deep_view(), id@);
                    }
                    let mut below = duplicate_all(path);
                    below.push(id);
                    assert(below.deep_view() =~= path.deep_view().push(dep@.id()));
                    match self.build_forest(&dep.dependencies, &below) {
                        Err(e) => Err(e),
                        Ok(children) => {
                            let tree = DependencyTree { root: dep, children };
                            proof {
                                lemma_tree_children(tree);
                            }
                            Ok(Some(tree))
                        },
                    }
                }
            },
        }
    }

    /// The trees for `requirements` below the versions whose identities are
    /// on `path`.
    pub fn build_forest(&self, requirements: &Vec<PackageSpecifier>, path: &Vec<String>) -> (r:
        Result<Vec<DependencyTree>, ResolveError>)
        ensures
            forest_matches(r, forest_of(self@, requirements.deep_view(), path.deep_view())),
        decreases free_ids(self@, path.deep_view()).len(), requirements.len() + 1,
    {
        let ghost all = requirements.deep_view();
        let mut out: Vec<DependencyTree> = Vec::new();
        let mut i: usize = 0;
        assert(all.take(0) =~= Seq::<PackageSpecifierView>::empty());
        assert(out.deep_view() =~= Seq::<DependencyTreeView>::empty());
        while i < requirements.len()
            invariant
                0 <= i <= requirements.len(),
                all == requirements.deep_view(),
                forest_of(self@, all.take(i as int), path.deep_view()) == Ok::<
                    Seq<DependencyTreeView>,
                    ResolveErrorView,
                >(out.deep_view()),
            decreases requirements.len() - i,
        {
            proof {
                assert(all.take(i as int + 1).drop_last() =~= all.take(i as int));
                assert(all.take(i as int + 1).last() == requirements@[i as int]@);
            }
            match self.build_tree(&requirements[i], path) {
                Err(e) => {
                    proof {
                        lemma_forest_error(self@, all, path.deep_view(), i as int + 1);
                    }
                    return Err(e);
                },
                Ok(None) => {},
                Ok(Some(tree)) => {
                    upsert(&mut out, tree);
                },
            }
            i = i + 1;
        }
        assert(all.take(i as int) =~= all);
        Ok(out)
    }

    /// One tree per top-level requirement, found by the name of its root:
    /// the graph unrolled from each of `roots`. The unrolling ends on every
    /// graph, cyclic or not. A requirement that the graph does not bind,
    /// at the top or further down, is an error.
    pub fn build_trees(&self, roots: &Vec<PackageSpecifier>) -> (r: Result<
        Vec<DependencyTree>,
        ResolveError,
    >)
        ensures
            forest_matches(r, forest_of(self@, roots.deep_view(), Seq::empty())),
            r is Ok ==> forest_wf(r->Ok_0.deep_view()),
            r is Ok && self.satisfied() ==> forest_meets(r->Ok_0.deep_view(), roots.deep_view()),
    {
        let path: Vec<String> = Vec::new();
        assert(path.deep_view() =~= Seq::<Seq<char>>::empty());
        let r = self.build_forest(roots, &path);
        proof {
            lemma_forest_wf(self@, roots.deep_view(), Seq::empty());
            if self.satisfied() {
                lemma_forest_meets(self@, roots.deep_view(), Seq::empty());
            }
        }
        r
    }
}

/// An error among the first `n` requirements is the error of them all.
pub proof fn lemma_forest_error(
    relations: Seq<RelationView>,
    requirements: Seq<PackageSpecifierView>,
    path: Seq<Seq<char>>,
    n: int,
)
    requires
        0 <= n <= requirements.len(),
        forest_of(relations, requirements.take(n), path) is Err,
    ensures
        forest_of(relations, requirements, path) == forest_of(relations, requirements.take(n), path),
    decreases requirements.len() - n,
{
    if n < requirements.len() {
        assert(requirements.take(n + 1).drop_last() =~= requirements.take(n));
        lemma_forest_error(relations, requirements, path, n + 1);
    } else {
        assert(requirements.take(n) =~= requirements);
    }
}

/// The trees that unrolling gives have distinct root names at every level.
pub proof fn lemma_forest_wf(
    relations: Seq<RelationView>,
    requirements: Seq<PackageSpecifierView>,
    path: Seq<Seq<char>>,
)
    ensures
        forest_of(relations, requirements, path) is Ok ==> forest_wf(
            forest_of(relations, requirements, path)->Ok_0,
        ),
    decreases free_ids(relations, path).len(), requirements.len() + 1,
{
    if requirements.len() > 0 {
        lemma_forest_wf(relations, requirements.drop_last(), path);
        match forest_of(relations, requirements.drop_last(), path) {
            Err(e) => {},
            Ok(before) => {
                lemma_tree_wf(relations, requirements.last(), path);
                match tree_of(relations, requirements.last(), path) {
                    Ok(Some(tree)) => {
                        lemma_upserted_wf(before, tree);
                    },
                    _ => {},
                }
            },
        }
    }
}

/// The tree that unrolling gives has distinct root names among the
/// children of every node.
pub proof fn lemma_tree_wf(
    relations: Seq<RelationView>,
    req: PackageSpecifierView,
    path: Seq<Seq<char>>,
)
    ensures
        match tree_of(relations, req, path) {
            Ok(Some(tree)) => forest_wf(tree.children),
            _ => true,
        },
    decreases free_ids(relations, path).len(), 0nat,
{
    match resolved(relations, req) {
        None => {},
        Some(dep) => {
            if !path.contains(dep.id()) {
                lemma_resolved_id(relations, req);
                lemma_free_push(relations, path, dep.id());
                lemma_forest_wf(relations, dep.dependencies, path.push(dep.id()));
            }
        },
    }
}

/// Whether no two of the requirements name the same package.
pub open spec fn distinct_names(requirements: Seq<PackageSpecifierView>) -> bool {
    forall|i: int, j: int|
        0 <= i < j < requirements.len() ==> (#[trigger] requirements[i]).name != (
        #[trigger] requirements[j]).name
}

/// Unrolled from the top, the requirements of distinct names get one tree
/// each, in their order: the root of each is the version that the graph binds
/// the requirement to.
pub proof fn lemma_forest_roots(
    relations: Seq<RelationView>,
    requirements: Seq<PackageSpecifierView>,
)
    requires
        crate::resolve::satisfied(relations),
        distinct_names(requirements),
        forest_of(relations, requirements, Seq::empty()) is Ok,
    ensures
        forest_of(relations, requirements, Seq::empty())->Ok_0.len() == requirements.len(),
        forall|i: int|
            0 <= i < requirements.len() ==> resolved(relations, #[trigger] requirements[i]) == Some(
                forest_of(relations, requirements, Seq::empty())->Ok_0[i].root,
            ) && forest_of(relations, requirements, Seq::empty())->Ok_0[i].root.name
                == requirements[i].name,
    decreases requirements.len(),
{
    let path = Seq::<Seq<char>>::empty();
    if requirements.len() > 0 {
        let shorter = requirements.drop_last();
        let req = requirements.last();
        assert forall|i: int, j: int| 0 <= i < j < shorter.len() implies (#[trigger] shorter[i]).name
            != (#[trigger] shorter[j]).name by {
            assert(shorter[i] == requirements[i] && shorter[j] == requirements[j]);
        }
        lemma_forest_roots(relations, shorter);
        let before = forest_of(relations, shorter, path)->Ok_0;
        let dep = resolved(relations, req)->Some_0;
        lemma_resolved_member(relations, req);
        let at = choose|at: int|
            0 <= at < relations.len() && (#[trigger] relations[at]).0 == req && relations[at].1
                == dep;
        assert(crate::resolve::meets(relations[at]));
        let tree = tree_of(relations, req, path)->Ok_0->Some_0;
        assert(tree.root == dep);
        lemma_root_position(before, tree.root.name);
        let found = root_position(before, tree.root.name);
        if found < before.len() {
            assert(before[found].root.name == shorter[found].name);
            assert(shorter[found] == requirements[found]);
            assert(requirements[found].name != requirements[requirements.len() - 1].name);
        }
        let out = forest_of(relations, requirements, path)->Ok_0;
        assert(out == before.push(tree));
        assert forall|i: int| 0 <= i < requirements.len() implies resolved(
            relations,
            #[trigger] requirements[i],
        ) == Some(out[i].root) && out[i].root.name == requirements[i].name by {
            if i < shorter.len() {
                assert(shorter[i] == requirements[i]);
                assert(out[i] == before[i]);
            }
        }
    }
}

/// A fresh plan meets its manifest: where every relation of the graph
/// binds its requirement to a version that meets it, and no two requirements
/// of the manifest name the same package, the plan unrolled from the
/// manifest's requirements satisfies them. A second installation that finds
/// this plan as its snapshot therefore has nothing to do.
pub proof fn lemma_fresh_plan_satisfies(
    relations: Seq<RelationView>,
    requirements: Seq<PackageSpecifierView>,
)
    requires
        crate::resolve::satisfied(relations),
        distinct_names(requirements),
        forest_of(relations, requirements, Seq::empty()) is Ok,
    ensures
        (crate::plan::PlanView {
            trees: forest_of(relations, requirements, Seq::empty())->Ok_0,
        }).satisfies(requirements),
{
    let trees = forest_of(relations, requirements, Seq::empty())->Ok_0;
    lemma_forest_roots(relations, requirements);
    assert forall|i: int| 0 <= i < requirements.len() implies crate::plan::root_meets(
        trees,
        #[trigger] requirements[i],
    ) by {
        let req = requirements[i];
        assert forall|k: int| 0 <= k < i implies (#[trigger] trees[k]).root.name != req.name by {
            assert(trees[k].root.name == requirements[k].name);
            assert(requirements[k].name != requirements[i].name);
        }
        lemma_root_version(trees, req.name, i);
        lemma_resolved_member(relations, req);
        let at = choose|at: int|
            0 <= at < relations.len() && (#[trigger] relations[at]).0 == req && relations[at].1
                == trees[i].root;
        assert(crate::resolve::meets(relations[at]));
    }
}

/// The version found for a name is that of the first tree whose root has
/// the name.
pub proof fn lemma_root_version(trees: Seq<DependencyTreeView>, name: Seq<char>, i: int)
    requires
        0 <= i < trees.len(),
        trees[i].root.name == name,
        forall|k: int| 0 <= k < i ==> (#[trigger] trees[k]).root.name != name,
    ensures
        crate::plan::root_version(trees, name) == Some(trees[i].root.version),
    decreases i,
{
    if i > 0 {
        assert(trees[0].root.name != name);
        assert(trees.skip(1)[i - 1] == trees[i]);
        assert forall|k: int| 0 <= k < i - 1 implies (#[trigger] trees.skip(1)[k]).root.name
            != name by {
            assert(trees.skip(1)[k] == trees[k + 1]);
        }
        lemma_root_version(trees.skip(1), name, i - 1);
    }
}

/// Whether one of the requirements is met by the root of the tree.
pub open spec fn root_admitted(
    tree: DependencyTreeView,
    requirements: Seq<PackageSpecifierView>,
) -> bool {
    exists|k: int|
        0 <= k < requirements.len() && (#[trigger] requirements[k]).admits(
            tree.root.name,
            tree.root.version,
        )
}

/// Whether every node below the root of the tree meets a requirement that
/// the node directly above it declares.
pub open spec fn tree_meets(tree: DependencyTreeView) -> bool
    decreases tree,
{
    forest_meets(tree.children, tree.root.dependencies)
}

/// Whether the root of every tree meets one of the requirements, and every
/// node below a root a requirement that the node directly above it declares.
pub open spec fn forest_meets(
    trees: Seq<DependencyTreeView>,
    requirements: Seq<PackageSpecifierView>,
) -> bool
    decreases trees,
{
    forall|i: int|
        0 <= i < trees.len() ==> root_admitted(#[trigger] trees[i], requirements) && tree_meets(
            trees[i],
        )
}

/// A requirement that is met among some requirements is met among more.
pub proof fn lemma_root_admitted_more(
    tree: DependencyTreeView,
    fewer: Seq<PackageSpecifierView>,
    more: Seq<PackageSpecifierView>,
)
    requires
        root_admitted(tree, fewer),
        fewer.len() <= more.len(),
        forall|k: int| 0 <= k < fewer.len() ==> fewer[k] == more[k],
    ensures
        root_admitted(tree, more),
{
    let k = choose|k: int|
        0 <= k < fewer.len() && (#[trigger] fewer[k]).admits(tree.root.name, tree.root.version);
    assert(more[k].admits(tree.root.name, tree.root.version));
}

/// The tree that unrolling gives for a requirement meets it at its root,
/// and every node below meets a requirement of the node above it, where every
/// relation of the graph binds its requirement to a version that meets it.
pub proof fn lemma_tree_meets(
    relations: Seq<RelationView>,
    req: PackageSpecifierView,
    path: Seq<Seq<char>>,
)
    requires
        crate::resolve::satisfied(relations),
    ensures
        match tree_of(relations, req, path) {
            Ok(Some(tree)) => req.admits(tree.root.name, tree.root.version) && tree_meets(tree),
            _ => true,
        },
    decreases free_ids(relations, path).len(), 0nat,
{
    match resolved(relations, req) {
        None => {},
        Some(dep) => {
            lemma_resolved_member(relations, req);
            let at = choose|at: int|
                0 <= at < relations.len() && (#[trigger] relations[at]).0 == req && relations[at].1
                    == dep;
            assert(crate::resolve::meets(relations[at]));
            if !path.contains(dep.id()) {
                lemma_resolved_id(relations, req);
                lemma_free_push(relations, path, dep.id());
                lemma_forest_meets(relations, dep.dependencies, path.push(dep.id()));
            }
        },
    }
}

/// Children meet what their parents declare: in the trees that unrolling
/// gives for some requirements, every root meets one of the requirements, and
/// every node below a root meets a requirement that the node directly above
/// it declares, where every relation of the graph binds its requirement to a
/// version that meets it.
pub proof fn lemma_forest_meets(
    relations: Seq<RelationView>,
    requirements: Seq<PackageSpecifierView>,
    path: Seq<Seq<char>>,
)
    requires
        crate::resolve::satisfied(relations),
    ensures
        forest_of(relations, requirements, path) is Ok ==> forest_meets(
            forest_of(relations, requirements, path)->Ok_0,
            requirements,
        ),
    decreases free_ids(relations, path).len(), requirements.len() + 1,
{
    if requirements.len() > 0 {
        let shorter = requirements.drop_last();
        let req = requirements.last();
        lemma_forest_meets(relations, shorter, path);
        match forest_of(relations, shorter, path) {
            Err(e) => {},
            Ok(before) => {
                lemma_tree_meets(relations, req, path);
                assert forall|i: int| 0 <= i < before.len() implies root_admitted(
                    #[trigger] before[i],
                    requirements,
                ) by {
                    lemma_root_admitted_more(before[i], shorter, requirements);
                }
                match tree_of(relations, req, path) {
                    Ok(Some(tree)) => {
                        let out = upserted(before, tree);
                        lemma_root_position(before, tree.root.name);
                        assert(requirements[requirements.len() - 1] == req);
                        assert(root_admitted(tree, requirements));
                        assert forall|i: int| 0 <= i < out.len() implies root_admitted(
                            #[trigger] out[i],
                            requirements,
                        ) && tree_meets(out[i]) by {
                            if out[i] != tree {
                                assert(out[i] == before[i]);
                            }
                        }
                    },
                    _ => {},
                }
            },
        }
    }
}

/// Whether the two graphs bind every requirement alike.
pub open spec fn same_bindings(a: Seq<RelationView>, b: Seq<RelationView>) -> bool {
    forall|req: PackageSpecifierView| #[trigger] resolved(a, req) == resolved(b, req)
}

/// Graphs that bind every requirement alike unroll into the same tree.
pub proof fn lemma_tree_same_bindings(
    a: Seq<RelationView>,
    b: Seq<RelationView>,
    req: PackageSpecifierView,
    path: Seq<Seq<char>>,
)
    requires
        same_bindings(a, b),
    ensures
        tree_of(a, req, path) == tree_of(b, req, path),
    decreases free_ids(a, path).len(), 0nat,
{
    assert(resolved(a, req) == resolved(b, req));
    match resolved(a, req) {
        None => {},
        Some(dep) => {
            if !path.contains(dep.id()) {
                lemma_resolved_id(a, req);
                lemma_free_push(a, path, dep.id());
                lemma_forest_same_bindings(a, b, dep.dependencies, path.push(dep.id()));
            }
        },
    }
}

/// Graphs that bind every requirement alike unroll into the same trees,
/// whatever the order of their relations.
pub proof fn lemma_forest_same_bindings(
    a: Seq<RelationView>,
    b: Seq<RelationView>,
    requirements: Seq<PackageSpecifierView>,
    path: Seq<Seq<char>>,
)
    requires
        same_bindings(a, b),
    ensures
        forest_of(a, requirements, path) == forest_of(b, requirements, path),
    decreases free_ids(a, path).len(), requirements.len() + 1,
{
    if requirements.len() > 0 {
        lemma_forest_same_bindings(a, b, requirements.drop_last(), path);
        lemma_tree_same_bindings(a, b, requirements.last(), path);
    }
}

} // verus!
