//! The lockfile: the relations of a graph, grouped by the name of the
//! required package, so that a resolution can be written down and taken up
//! again without asking the registry.

use vstd::prelude::*;
use crate::model::Model;
use crate::npm::{Dependency, DependencyView};
use crate::package::{PackageSpecifier, PackageSpecifierView};
use crate::resolve::{Graph, RelationView};

verus! {

/// The resolutions of the requirements that name one package.
#[derive(Debug, Clone, PartialEq, Eq)]
pub struct LockedPackage {
    pub name: String,
    /// The required range and the version it is bound to.
    pub entries: Vec<(String, Dependency)>,
}

/// The model of [`LockedPackage`]: texts as sequences of characters.
pub struct LockedPackageView {
    pub name: Seq<char>,
    pub entries: Seq<(Seq<char>, DependencyView)>,
}

impl View for LockedPackage {
    type V = LockedPackageView;

    open spec fn view(&self) -> LockedPackageView {
        LockedPackageView { name: self.name@, entries: self.entries.deep_view() }
    }
}

impl DeepView for LockedPackage {
    type V = LockedPackageView;

    open spec fn deep_view(&self) -> LockedPackageView {
        self@
    }
}

/// A snapshot of a graph's relations.
#[derive(Debug, Clone, PartialEq, Eq)]
pub struct Lockfile {
    pub packages: Vec<LockedPackage>,
}

impl View for Lockfile {
    type V = Seq<LockedPackageView>;

    open spec fn view(&self) -> Seq<LockedPackageView> {
        self.packages.deep_view()
    }
}

/// The position of the first group called `name`; the number of groups if
/// there is none.
pub open spec fn group_position(groups: Seq<LockedPackageView>, name: Seq<char>) -> int
    decreases groups.len(),
{
    if groups.len() == 0 {
        0
    } else if groups[0].name == name {
        0
    } else {
        1 + group_position(groups.skip(1), name)
    }
}

/// The groups with one more relation: at the end of the group of its
/// requirement's name, or in a new group at the end.
pub open spec fn locked(groups: Seq<LockedPackageView>, relation: RelationView) -> Seq<
    LockedPackageView,
> {
    let at = group_position(groups, relation.0.name);
    if at < groups.len() {
        groups.update(
            at,
            LockedPackageView {
                name: groups[at].name,
                entries: groups[at].entries.push((relation.0.version, relation.1)),
            },
        )
    } else {
        groups.push(
            LockedPackageView {
                name: relation.0.name,
                entries: seq![(relation.0.version, relation.1)],
            },
        )
    }
}

/// The groups that hold the relations, each put in after the ones before it.
pub open spec fn lock_all(relations: Seq<RelationView>) -> Seq<LockedPackageView>
    decreases relations.len(),
{
    if relations.len() == 0 {
        Seq::empty()
    } else {
        locked(lock_all(relations.drop_last()), relations.last())
    }
}

/// The relation that entry `j` of the group stands for.
pub open spec fn entry_relation(group: LockedPackageView, j: int) -> RelationView {
    (PackageSpecifierView { name: group.name, version: group.entries[j].0 }, group.entries[j].1)
}

/// The relations that a group stands for, in order.
pub open spec fn group_relations(group: LockedPackageView) -> Seq<RelationView> {
    Seq::new(group.entries.len(), |j: int| entry_relation(group, j))
}

/// The relations that the groups stand for, group after group.
pub open spec fn unlock_all(groups: Seq<LockedPackageView>) -> Seq<RelationView>
    decreases groups.len(),
{
    if groups.len() == 0 {
        Seq::empty()
    } else {
        unlock_all(groups.drop_last()) + group_relations(groups.last())
    }
}

/// The position found is within the groups or just behind them, and a
/// group at that position has the name.
pub proof fn lemma_group_position(groups: Seq<LockedPackageView>, name: Seq<char>)
    ensures
        0 <= group_position(groups, name) <= groups.len(),
        group_position(groups, name) < groups.len() ==> groups[group_position(groups, name)].name
            == name,
    decreases groups.len(),
{
    if groups.len() > 0 && groups[0].name != name {
        lemma_group_position(groups.skip(1), name);
        let at = group_position(groups.skip(1), name);
        if at < groups.skip(1).len() {
            assert(groups.skip(1)[at] == groups[at + 1]);
        }
    }
}

/// A relation is among those that the groups stand for exactly when it is
/// the relation of some entry of some group.
pub proof fn lemma_unlock_member(groups: Seq<LockedPackageView>, x: RelationView)
    ensures
        unlock_all(groups).contains(x) <==> exists|i: int, j: int|
            0 <= i < groups.len() && 0 <= j < groups[i].entries.len() && #[trigger] entry_relation(
                groups[i],
                j,
            ) == x,
    decreases groups.len(),
{
    if groups.len() > 0 {
        let shorter = groups.drop_last();
        let last = groups.last();
        lemma_unlock_member(shorter, x);
        crate::resolve::lemma_contains_add(unlock_all(shorter), group_relations(last), x);
        if unlock_all(shorter).contains(x) {
            let (i, j) = choose|i: int, j: int|
                0 <= i < shorter.len() && 0 <= j < shorter[i].entries.len()
                    && #[trigger] entry_relation(shorter[i], j) == x;
            assert(entry_relation(groups[i], j) == x);
        }
        if group_relations(last).contains(x) {
            let j = choose|j: int| 0 <= j < group_relations(last).len() && group_relations(last)[j] == x;
            assert(entry_relation(groups[groups.len() - 1], j) == x);
        }
        if exists|i: int, j: int|
            0 <= i < groups.len() && 0 <= j < groups[i].entries.len() && #[trigger] entry_relation(
                groups[i],
                j,
            ) == x {
            let (i, j) = choose|i: int, j: int|
                0 <= i < groups.len() && 0 <= j < groups[i].entries.len()
                    && #[trigger] entry_relation(groups[i], j) == x;
            if i < groups.len() - 1 {
                assert(entry_relation(shorter[i], j) == x);
            } else {
                assert(group_relations(last)[j] == x);
            }
        }
    }
}

/// Putting a relation into the groups adds it to the relations that the
/// groups stand for, and adds or removes no other.
pub proof fn lemma_locked_member(
    groups: Seq<LockedPackageView>,
    relation: RelationView,
    x: RelationView,
)
    ensures
        unlock_all(locked(groups, relation)).contains(x) <==> unlock_all(groups).contains(x) || x
            == relation,
{
    let after = locked(groups, relation);
    let at = group_position(groups, relation.0.name);
    lemma_group_position(groups, relation.0.name);
    lemma_unlock_member(groups, x);
    lemma_unlock_member(after, x);
    if unlock_all(groups).contains(x) {
        let (i, j) = choose|i: int, j: int|
            0 <= i < groups.len() && 0 <= j < groups[i].entries.len() && #[trigger] entry_relation(
                groups[i],
                j,
            ) == x;
        assert(entry_relation(after[i], j) == x);
    }
    if x == relation {
        if at < groups.len() {
            assert(entry_relation(after[at], groups[at].entries.len() as int) == x);
        } else {
            assert(entry_relation(after[groups.len() as int], 0) == x);
        }
    }
    if unlock_all(after).contains(x) {
        let (i, j) = choose|i: int, j: int|
            0 <= i < after.len() && 0 <= j < after[i].entries.len() && #[trigger] entry_relation(
                after[i],
                j,
            ) == x;
        if at < groups.len() {
            if i == at && j == groups[at].entries.len() {
                assert(x == relation);
            } else {
                assert(entry_relation(groups[i], j) == x);
            }
        } else {
            if i < groups.len() {
                assert(entry_relation(groups[i], j) == x);
            } else {
                assert(x == relation);
            }
        }
    }
}

/// A relation is in the lockfile of a graph exactly when it is in the graph.
pub proof fn lemma_lock_member(relations: Seq<RelationView>, x: RelationView)
    ensures
        unlock_all(lock_all(relations)).contains(x) <==> relations.contains(x),
    decreases relations.len(),
{
    if relations.len() > 0 {
        let shorter = relations.drop_last();
        lemma_lock_member(shorter, x);
        lemma_locked_member(lock_all(shorter), relations.last(), x);
        if shorter.contains(x) {
            let i = choose|i: int| 0 <= i < shorter.len() && shorter[i] == x;
            assert(relations[i] == x);
        }
        if relations.contains(x) {
            let i = choose|i: int| 0 <= i < relations.len() && relations[i] == x;
            if i < relations.len() - 1 {
                assert(shorter[i] == x);
            }
        } else {
            if x == relations.last() {
                assert(relations[relations.len() - 1] == x);
            }
        }
    }
}

/// The round trip of the lockfile: the graph read back from the lockfile of
/// a graph has the same set of relations as that graph.
pub proof fn lemma_lockfile_round_trip(relations: Seq<RelationView>)
    ensures
        unlock_all(lock_all(relations)).to_set() == relations.to_set(),
{
    assert forall|x: RelationView|
        unlock_all(lock_all(relations)).to_set().contains(x) == relations.to_set().contains(
            x,
        ) by {
        lemma_lock_member(relations, x);
    }
    assert(unlock_all(lock_all(relations)).to_set() =~= relations.to_set());
}

/// The lockfile keeps the invariant of the graph: where every relation of
/// a graph binds its requirement to a version that meets it, so does every
/// relation of the graph read back from its lockfile.
pub proof fn lemma_lockfile_keeps_satisfied(relations: Seq<RelationView>)
    requires
        crate::resolve::satisfied(relations),
    ensures
        crate::resolve::satisfied(unlock_all(lock_all(relations))),
{
    let back = unlock_all(lock_all(relations));
    assert forall|i: int| 0 <= i < back.len() implies crate::resolve::meets(#[trigger] back[i]) by {
        lemma_lock_member(relations, back[i]);
        assert(back.contains(back[i]));
        let k = choose|k: int| 0 <= k < relations.len() && relations[k] == back[i];
        assert(crate::resolve::meets(relations[k]));
    }
}

/// The lockfile keeps every binding: the graph read back from the lockfile
/// of a graph that binds no requirement twice binds every requirement to the
/// version that the graph binds it to.
pub proof fn lemma_lockfile_keeps_bindings(relations: Seq<RelationView>)
    requires
        crate::resolve::functional(relations),
    ensures
        crate::forest::same_bindings(unlock_all(lock_all(relations)), relations),
{
    let back = unlock_all(lock_all(relations));
    assert forall|req: PackageSpecifierView| #[trigger]
        crate::resolve::resolved(back, req) == crate::resolve::resolved(relations, req) by {
        crate::resolve::lemma_resolved_member(back, req);
        crate::resolve::lemma_resolved_member(relations, req);
        match crate::resolve::resolved(back, req) {
            Some(dep) => {
                let i = choose|i: int|
                    0 <= i < back.len() && (#[trigger] back[i]).0 == req && back[i].1 == dep;
                lemma_lock_member(relations, back[i]);
                assert(back.contains(back[i]));
                let k = choose|k: int| 0 <= k < relations.len() && relations[k] == back[i];
                assert(relations[k].0 == req);
                let first = crate::resolve::resolved(relations, req)->Some_0;
                let at = choose|at: int|
                    0 <= at < relations.len() && (#[trigger] relations[at]).0 == req
                        && relations[at].1 == first;
                assert(at == k);
            },
            None => {
                if crate::resolve::resolved(relations, req) is Some {
                    let first = crate::resolve::resolved(relations, req)->Some_0;
                    let at = choose|at: int|
                        0 <= at < relations.len() && (#[trigger] relations[at]).0 == req
                            && relations[at].1 == first;
                    lemma_lock_member(relations, relations[at]);
                    assert(relations.contains(relations[at]));
                    let i = choose|i: int| 0 <= i < back.len() && back[i] == relations[at];
                    assert(back[i].0 == req);
                }
            },
        }
    }
}

/// The lockfile keeps the plan: the graph read back from the lockfile of
/// a graph that binds no requirement twice unrolls into the same trees as
/// that graph, for whatever requirements.
pub proof fn lemma_lockfile_keeps_plan(
    relations: Seq<RelationView>,
    requirements: Seq<PackageSpecifierView>,
)
    requires
        crate::resolve::functional(relations),
    ensures
        crate::forest::forest_of(unlock_all(lock_all(relations)), requirements, Seq::empty())
            == crate::forest::forest_of(relations, requirements, Seq::empty()),
{
    lemma_lockfile_keeps_bindings(relations);
    crate::forest::lemma_forest_same_bindings(
        unlock_all(lock_all(relations)),
        relations,
        requirements,
        Seq::empty(),
    );
}

impl Lockfile {
    /// Puts one more relation into the lockfile.
    fn lock(&mut self, req: &PackageSpecifier, dep: &Dependency)
        ensures
            final(self)@ == locked(old(self)@, (req@, dep@)),
    {
        let ghost all = self@;
        let mut i: usize = 0;
        assert(all.skip(0) =~= all);
        while i < self.packages.len()
            invariant
                0 <= i <= self.packages.len(),
                all == self@,
                self == old(self),
                group_position(all, req@.name) == i + group_position(
                    all.skip(i as int),
                    req@.name,
                ),
            decreases self.packages.len() - i,
        {
            assert(all.skip(i as int)[0] == self.packages@[i as int]@);
            assert(all.skip(i as int).skip(1) =~= all.skip(i as int + 1));
            if self.packages[i].name == req.name {
                let ghost before = self.packages@[i as int]@.entries;
                self.packages[i].entries.push((req.version.clone(), dep.duplicate()));
                proof {
                    assert(self.packages@[i as int]@.entries =~= before.push(
                        (req@.version, dep@),
                    ));
                    assert(self@ =~= all.update(
                        i as int,
                        LockedPackageView {
                            name: all[i as int].name,
                            entries: all[i as int].entries.push((req@.version, dep@)),
                        },
                    ));
                }
                return ;
            }
            i = i + 1;
        }
        let mut entries: Vec<(String, Dependency)> = Vec::new();
        entries.push((req.version.clone(), dep.duplicate()));
        assert(entries.deep_view() =~= seq![(req@.version, dep@)]);
        self.packages.push(LockedPackage { name: req.name.clone(), entries });
        assert(self@ =~= all.push(
            LockedPackageView { name: req@.name, entries: seq![(req@.version, dep@)] },
        ));
    }

    /// The lockfile of a graph: its relations, grouped by the name of the
    /// required package, groups and entries in the order in which the graph
    /// has them.
    pub fn new(graph: &Graph) -> (r: Self)
        ensures
            r@ == lock_all(graph@),
            r.into_graph_spec().to_set() == graph@.to_set(),
    {
        let ghost all = graph@;
        let mut out = Lockfile { packages: Vec::new() };
        let mut i: usize = 0;
        assert(out@ =~= Seq::<LockedPackageView>::empty());
        assert(all.take(0) =~= Seq::<RelationView>::empty());
        while i < graph.relations.len()
            invariant
                0 <= i <= graph.relations.len(),
                all == graph@,
                out@ == lock_all(all.take(i as int)),
            decreases graph.relations.len() - i,
        {
            proof {
                assert(all.take(i as int + 1).drop_last() =~= all.take(i as int));
                assert(all.take(i as int + 1).last() == graph.relations@[i as int].deep_view());
            }
            out.lock(&graph.relations[i].0, &graph.relations[i].1);
            i = i + 1;
        }
        proof {
            assert(all.take(i as int) =~= all);
            lemma_lockfile_round_trip(all);
        }
        out
    }

    /// The relations that the lockfile stands for.
    pub open spec fn into_graph_spec(&self) -> Seq<RelationView> {
        unlock_all(self@)
    }

    /// The graph that the lockfile stands for: its relations, group after
    /// group. Nothing is resolved anew.
    pub fn into_graph(&self) -> (r: Graph)
        ensures
            r@ == unlock_all(self@),
    {
        let ghost all = self@;
        let mut relations: Vec<(PackageSpecifier, Dependency)> = Vec::new();
        let mut i: usize = 0;
        assert(all.take(0) =~= Seq::<LockedPackageView>::empty());
        assert(relations.deep_view() =~= Seq::<RelationView>::empty());
        while i < self.packages.len()
            invariant
                0 <= i <= self.packages.len(),
                all == self@,
                relations.deep_view() == unlock_all(all.take(i as int)),
            decreases self.packages.len() - i,
        {
            let package = &self.packages[i];
            let ghost start = relations.deep_view();
            proof {
                assert(all.take(i as int + 1).drop_last() =~= all.take(i as int));
                assert(all.take(i as int + 1).last() == package@);
            }
            let mut j: usize = 0;
            while j < package.entries.len()
                invariant
                    0 <= j <= package.entries.len(),
                    relations.deep_view() == start + group_relations(package@).take(j as int),
                decreases package.entries.len() - j,
            {
                let ghost before = relations.deep_view();
                let req = PackageSpecifier {
                    name: package.name.clone(),
                    version: package.entries[j].0.clone(),
                };
                let dep = package.entries[j].1.duplicate();
                assert(package@.entries[j as int] == package.entries@[j as int].deep_view());
                assert((req@, dep@) == entry_relation(package@, j as int));
                relations.push((req, dep));
                assert(relations.deep_view() =~= before.push(entry_relation(package@, j as int)));
                assert(group_relations(package@).take(j as int + 1) =~= group_relations(
                    package@,
                ).take(j as int).push(entry_relation(package@, j as int)));
                assert(relations.deep_view() =~= start + group_relations(package@).take(
                    j as int + 1,
                ));
                j = j + 1;
            }
            assert(group_relations(package@).take(j as int) =~= group_relations(package@));
            i = i + 1;
        }
        assert(all.take(i as int) =~= all);
        Graph { relations }
    }
}

} // verus!
