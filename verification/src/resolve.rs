//! The dependency graph: which published version each requirement is bound
//! to, how the graph grows from what the registry publishes, and how it
//! unrolls into trees.

use vstd::prelude::*;
use crate::model::Model;
use crate::npm::{Dependency, DependencyView, RegistryPackage, RegistryPackageView};
use crate::package::{PackageSpecifier, PackageSpecifierView};
use crate::semver::{precedes, semver_precedes};

verus! {

/// One resolution: the requirement and the version it is bound to.
pub type RelationView = (PackageSpecifierView, DependencyView);

/// Why a resolution failed.
#[derive(Debug, Clone, PartialEq, Eq)]
pub enum ResolveError {
    /// The registry publishes no version under this name.
    NotFound(String),
    /// The range of the requirement excludes every published version.
    NoSatisfyingVersion(PackageSpecifier),
    /// The lockfile is to be taken as it is, and it does not bind this
    /// requirement of the manifest.
    LockfileMismatch(PackageSpecifier),
    /// The graph binds this requirement to no version.
    Unresolved(PackageSpecifier),
}

/// The model of [`ResolveError`]: texts as sequences of characters.
pub enum ResolveErrorView {
    NotFound(Seq<char>),
    NoSatisfyingVersion(PackageSpecifierView),
    LockfileMismatch(PackageSpecifierView),
    Unresolved(PackageSpecifierView),
}

impl View for ResolveError {
    type V = ResolveErrorView;

    open spec fn view(&self) -> ResolveErrorView {
        match self {
            ResolveError::NotFound(name) => ResolveErrorView::NotFound(name@),
            ResolveError::NoSatisfyingVersion(req) => ResolveErrorView::NoSatisfyingVersion(req@),
            ResolveError::LockfileMismatch(req) => ResolveErrorView::LockfileMismatch(req@),
            ResolveError::Unresolved(req) => ResolveErrorView::Unresolved(req@),
        }
    }
}

/// The version to which the first relation for `req` binds it.
pub open spec fn resolved(relations: Seq<RelationView>, req: PackageSpecifierView) -> Option<
    DependencyView,
>
    decreases relations.len(),
{
    if relations.len() == 0 {
        None
    } else if relations[0].0 == req {
        Some(relations[0].1)
    } else {
        resolved(relations.skip(1), req)
    }
}

/// The first version already in the graph that has the required name and
/// lies in the required range.
pub open spec fn shared(relations: Seq<RelationView>, req: PackageSpecifierView) -> Option<
    DependencyView,
>
    decreases relations.len(),
{
    if relations.len() == 0 {
        None
    } else if req.admits(relations[0].1.name, relations[0].1.version) {
        Some(relations[0].1)
    } else {
        shared(relations.skip(1), req)
    }
}

/// Whether the relation binds its requirement to a version that meets it:
/// one of the required name, in the required range.
pub open spec fn meets(relation: RelationView) -> bool {
    relation.0.admits(relation.1.name, relation.1.version)
}

/// Whether every relation binds its requirement to a version that meets
/// it.
pub open spec fn satisfied(relations: Seq<RelationView>) -> bool {
    forall|i: int| 0 <= i < relations.len() ==> meets(#[trigger] relations[i])
}

/// Whether no requirement is bound twice.
pub open spec fn functional(relations: Seq<RelationView>) -> bool {
    forall|i: int, j: int|
        0 <= i < j < relations.len() ==> (#[trigger] relations[i]).0 != (#[trigger] relations[j]).0
}

/// What the registry publishes under `name`: its first entry of that name.
pub open spec fn published(registry: Seq<RegistryPackageView>, name: Seq<char>) -> Option<
    RegistryPackageView,
>
    decreases registry.len(),
{
    if registry.len() == 0 {
        None
    } else if registry[0].name == name {
        Some(registry[0])
    } else {
        published(registry.skip(1), name)
    }
}

/// The version picked for a requirement among the published ones: going
/// through them in order, a version that meets the requirement replaces the
/// pick so far when that one precedes it.
pub open spec fn best(versions: Seq<DependencyView>, req: PackageSpecifierView) -> Option<
    DependencyView,
>
    decreases versions.len(),
{
    if versions.len() == 0 {
        None
    } else {
        let before = best(versions.drop_last(), req);
        let candidate = versions.last();
        if !req.admits(candidate.name, candidate.version) {
            before
        } else {
            match before {
                None => Some(candidate),
                Some(pick) => if semver_precedes(pick.version, candidate.version) {
                    Some(candidate)
                } else {
                    Some(pick)
                },
            }
        }
    }
}

/// Whether no version that meets the requirement and comes after position
/// `i` in the list has `pick` before it in the order of versions.
pub open spec fn unbeaten(
    versions: Seq<DependencyView>,
    req: PackageSpecifierView,
    pick: DependencyView,
    i: int,
) -> bool {
    forall|j: int|
        i < j < versions.len() && req.admits((#[trigger] versions[j]).name, versions[j].version)
            ==> !semver_precedes(pick.version, versions[j].version)
}

/// The pick is one of the published versions and meets the requirement;
/// there is a pick exactly when some published version meets it; and no
/// version that meets it and comes after the pick in the list has the pick
/// before it in the order of versions.
pub proof fn lemma_best(versions: Seq<DependencyView>, req: PackageSpecifierView)
    ensures
        match best(versions, req) {
            Some(pick) => req.admits(pick.name, pick.version) && exists|i: int|
                0 <= i < versions.len() && #[trigger] versions[i] == pick && unbeaten(
                    versions,
                    req,
                    pick,
                    i,
                ),
            None => forall|i: int|
                0 <= i < versions.len() ==> !req.admits(
                    (#[trigger] versions[i]).name,
                    versions[i].version,
                ),
        },
    decreases versions.len(),
{
    if versions.len() > 0 {
        let shorter = versions.drop_last();
        lemma_best(shorter, req);
        let candidate = versions.last();
        let last = versions.len() - 1;
        assert forall|i: int| 0 <= i < shorter.len() implies shorter[i] == versions[i] by {}
        match best(versions, req) {
            Some(pick) => {
                if req.admits(candidate.name, candidate.version) && (best(shorter, req).is_none()
                    || semver_precedes(best(shorter, req).unwrap().version, candidate.version)) {
                    assert(versions[last] == pick);
                    assert(unbeaten(versions, req, pick, last));
                } else {
                    let i = choose|i: int|
                        0 <= i < shorter.len() && #[trigger] shorter[i] == pick && unbeaten(
                            shorter,
                            req,
                            pick,
                            i,
                        );
                    assert(versions[i] == pick);
                    assert forall|j: int|
                        i < j < versions.len() && req.admits(
                            (#[trigger] versions[j]).name,
                            versions[j].version,
                        ) implies !semver_precedes(pick.version, versions[j].version) by {
                        if j < last {
                            assert(shorter[j] == versions[j]);
                        }
                    }
                    assert(unbeaten(versions, req, pick, i));
                }
            },
            None => {
                assert forall|i: int| 0 <= i < versions.len() implies !req.admits(
                    (#[trigger] versions[i]).name,
                    versions[i].version,
                ) by {
                    if i < last {
                        assert(shorter[i] == versions[i]);
                    }
                }
            },
        }
    }
}

/// What has to happen for one requirement, given the graph and what is
/// known of the registry.
pub enum Decision {
    /// The graph binds the requirement already.
    Known,
    /// A version already in the graph has the name and lies in the range:
    /// the requirement is bound to it, so that it is shared.
    Shared(DependencyView),
    /// No version in the graph fits: the requirement is bound to the pick
    /// among the published versions.
    Fresh(DependencyView),
    /// Nothing is known yet of what the registry publishes under the name.
    Missing,
    /// The registry publishes no version under the name.
    NotFound,
    /// The range excludes every published version.
    NoVersion,
}

/// What has to happen for `req`.
pub open spec fn decide(
    relations: Seq<RelationView>,
    registry: Seq<RegistryPackageView>,
    req: PackageSpecifierView,
) -> Decision {
    if resolved(relations, req).is_some() {
        Decision::Known
    } else if shared(relations, req).is_some() {
        Decision::Shared(shared(relations, req).unwrap())
    } else {
        match published(registry, req.name) {
            None => Decision::Missing,
            Some(package) => if package.versions.len() == 0 {
                Decision::NotFound
            } else {
                match best(package.versions, req) {
                    None => Decision::NoVersion,
                    Some(pick) => Decision::Fresh(pick),
                }
            },
        }
    }
}

/// The relations of a resolution, in the order in which they were made.
#[derive(Debug, Clone, PartialEq, Eq)]
pub struct Graph {
    pub relations: Vec<(PackageSpecifier, Dependency)>,
}

impl View for Graph {
    type V = Seq<RelationView>;

    open spec fn view(&self) -> Seq<RelationView> {
        self.relations.deep_view()
    }
}

impl DeepView for Graph {
    type V = Seq<RelationView>;

    open spec fn deep_view(&self) -> Seq<RelationView> {
        self@
    }
}

/// Whether `pick` is the highest of the versions that meet the
/// requirement: none of them, unless it has the very version of the pick,
/// has the pick before it in the order of versions.
pub open spec fn highest(
    versions: Seq<DependencyView>,
    req: PackageSpecifierView,
    pick: DependencyView,
) -> bool {
    forall|j: int|
        0 <= j < versions.len() && req.admits((#[trigger] versions[j]).name, versions[j].version)
            && versions[j].version != pick.version ==> !semver_precedes(
            pick.version,
            versions[j].version,
        )
}

/// The pick among `versions` for the requirement `req`: the highest of the
/// versions that have its name and lie in its range; of several that are
/// equally high, the first.
pub fn pick_version(versions: &Vec<Dependency>, req: &PackageSpecifier) -> (r: Option<Dependency>)
    ensures
        r.deep_view() == best(versions.deep_view(), req@),
        r matches Some(pick) ==> highest(versions.deep_view(), req@, pick@),
{
    let ghost all = versions.deep_view();
    let mut pick: Option<usize> = None;
    let mut i: usize = 0;
    assert(all.take(0) =~= Seq::<DependencyView>::empty());
    while i < versions.len()
        invariant
            0 <= i <= versions.len(),
            all == versions.deep_view(),
            match pick {
                Some(at) => at < i && best(all.take(i as int), req@) == Some(
                    versions@[at as int]@,
                ) && highest(all.take(i as int), req@, versions@[at as int]@),
                None => best(all.take(i as int), req@).is_none() && forall|j: int|
                    0 <= j < i ==> !req@.admits((#[trigger] all[j]).name, all[j].version),
            },
        decreases versions.len() - i,
    {
        let ghost before = all.take(i as int);
        let ghost after = all.take(i as int + 1);
        proof {
            assert(after.drop_last() =~= before);
            assert(after.last() == versions@[i as int]@);
            assert forall|j: int| 0 <= j < i implies after[j] == before[j] && before[j] == all[j] by {}
            assert(after[i as int] == all[i as int]);
        }
        if versions[i].name == req.name && req.satisfies(&versions[i].version) {
            match pick {
                None => {
                    pick = Some(i);
                    assert(highest(after, req@, versions@[i as int]@));
                },
                Some(at) => {
                    let ghost old_pick = versions@[at as int]@;
                    let higher = precedes(
                        versions[at].version.as_str(),
                        versions[i].version.as_str(),
                    );
                    if higher {
                        pick = Some(i);
                        proof {
                            let new_pick = versions@[i as int]@;
                            assert forall|j: int|
                                0 <= j < after.len() && req@.admits(
                                    (#[trigger] after[j]).name,
                                    after[j].version,
                                ) && after[j].version != new_pick.version implies !semver_precedes(
                                new_pick.version,
                                after[j].version,
                            ) by {
                                if j < i {
                                    assert(after[j] == before[j]);
                                    if before[j].version != old_pick.version {
                                        assert(!semver_precedes(
                                            old_pick.version,
                                            before[j].version,
                                        ));
                                    }
                                }
                            }
                        }
                    } else {
                        proof {
                            assert forall|j: int|
                                0 <= j < after.len() && req@.admits(
                                    (#[trigger] after[j]).name,
                                    after[j].version,
                                ) && after[j].version != old_pick.version implies !semver_precedes(
                                old_pick.version,
                                after[j].version,
                            ) by {
                                if j < i {
                                    assert(after[j] == before[j]);
                                }
                            }
                        }
                    }
                },
            }
        } else {
            proof {
                match pick {
                    Some(at) => {
                        let old_pick = versions@[at as int]@;
                        assert forall|j: int|
                            0 <= j < after.len() && req@.admits(
                                (#[trigger] after[j]).name,
                                after[j].version,
                            ) && after[j].version != old_pick.version implies !semver_precedes(
                            old_pick.version,
                            after[j].version,
                        ) by {
                            if j < i {
                                assert(after[j] == before[j]);
                            }
                        }
                    },
                    None => {},
                }
            }
        }
        i = i + 1;
    }
    assert(all.take(i as int) =~= all);
    match pick {
        Some(at) => Some(versions[at].duplicate()),
        None => None,
    }
}

/// What the registry snapshot holds under `name`.
pub fn find_published<'a>(registry: &'a Vec<RegistryPackage>, name: &String) -> (r: Option<
    &'a RegistryPackage,
>)
    ensures
        match r {
            Some(package) => published(registry.deep_view(), name@) == Some(package@),
            None => published(registry.deep_view(), name@).is_none(),
        },
{
    let ghost all = registry.deep_view();
    let mut i: usize = 0;
    assert(all.skip(0) =~= all);
    while i < registry.len()
        invariant
            0 <= i <= registry.len(),
            all == registry.deep_view(),
            published(all, name@) == published(all.skip(i as int), name@),
        decreases registry.len() - i,
    {
        assert(all.skip(i as int)[0] == registry@[i as int]@);
        assert(all.skip(i as int).skip(1) =~= all.skip(i as int + 1));
        if registry[i].name == *name {
            return Some(&registry[i]);
        }
        i = i + 1;
    }
    None
}

impl Graph {
    /// A graph without relations.
    pub fn new() -> (r: Self)
        ensures
            r@ == Seq::<RelationView>::empty(),
    {
        let r = Graph { relations: Vec::new() };
        assert(r@ =~= Seq::<RelationView>::empty());
        r
    }

    /// Whether in every relation the version lies in the required range.
    pub open spec fn satisfied(&self) -> bool {
        satisfied(self@)
    }

    /// The version to which the graph binds `req`.
    pub fn resolve_req(&self, req: &PackageSpecifier) -> (r: Result<Dependency, ResolveError>)
        ensures
            match r {
                Ok(dep) => resolved(self@, req@) == Some(dep@),
                Err(e) => resolved(self@, req@).is_none() && e@ == ResolveErrorView::Unresolved(
                    req@,
                ),
            },
    {
        let ghost all = self@;
        let mut i: usize = 0;
        assert(all.skip(0) =~= all);
        while i < self.relations.len()
            invariant
                0 <= i <= self.relations.len(),
                all == self@,
                resolved(all, req@) == resolved(all.skip(i as int), req@),
            decreases self.relations.len() - i,
        {
            assert(all.skip(i as int)[0] == self.relations@[i as int].deep_view());
            assert(all.skip(i as int).skip(1) =~= all.skip(i as int + 1));
            if self.relations[i].0.same(req) {
                return Ok(self.relations[i].1.duplicate());
            }
            i = i + 1;
        }
        Err(ResolveError::Unresolved(req.duplicate()))
    }

    /// A version already in the graph that has the name of `req` and lies
    /// in its range: the first such, in the order of the relations.
    pub fn find_shared(&self, req: &PackageSpecifier) -> (r: Option<Dependency>)
        ensures
            r.deep_view() == shared(self@, req@),
    {
        let ghost all = self@;
        let mut i: usize = 0;
        assert(all.skip(0) =~= all);
        while i < self.relations.len()
            invariant
                0 <= i <= self.relations.len(),
                all == self@,
                shared(all, req@) == shared(all.skip(i as int), req@),
            decreases self.relations.len() - i,
        {
            assert(all.skip(i as int)[0] == self.relations@[i as int].deep_view());
            assert(all.skip(i as int).skip(1) =~= all.skip(i as int + 1));
            if self.relations[i].1.name == req.name && req.satisfies(&self.relations[i].1.version) {
                return Some(self.relations[i].1.duplicate());
            }
            i = i + 1;
        }
        None
    }
}

/// The versions to which the relations bind, in order.
pub open spec fn bound(relations: Seq<RelationView>) -> Seq<DependencyView> {
    Seq::new(relations.len(), |i: int| relations[i].1)
}

/// What the versions in `deps` require, version after version.
pub open spec fn requirements_of(deps: Seq<DependencyView>) -> Seq<PackageSpecifierView>
    decreases deps.len(),
{
    if deps.len() == 0 {
        Seq::empty()
    } else {
        requirements_of(deps.drop_last()) + deps.last().dependencies
    }
}

/// Every version that the registry snapshot holds, package after package.
pub open spec fn all_versions(registry: Seq<RegistryPackageView>) -> Seq<DependencyView>
    decreases registry.len(),
{
    if registry.len() == 0 {
        Seq::empty()
    } else {
        all_versions(registry.drop_last()) + registry.last().versions
    }
}

/// Every requirement that a resolution can come across: the pending ones,
/// and those of the versions in the graph and in the registry snapshot.
pub open spec fn universe(
    relations: Seq<RelationView>,
    pending: Seq<PackageSpecifierView>,
    registry: Seq<RegistryPackageView>,
) -> Seq<PackageSpecifierView> {
    pending + requirements_of(bound(relations)) + requirements_of(all_versions(registry))
}

/// The requirements of the universe that the graph does not bind yet.
pub open spec fn unbound(
    relations: Seq<RelationView>,
    pending: Seq<PackageSpecifierView>,
    registry: Seq<RegistryPackageView>,
) -> Set<PackageSpecifierView> {
    Set::new(
        |s: PackageSpecifierView|
            universe(relations, pending, registry).contains(s) && resolved(relations, s).is_none(),
    )
}

/// A sequence put together from two holds what either of them holds.
pub proof fn lemma_contains_add<T>(a: Seq<T>, b: Seq<T>, x: T)
    ensures
        (a + b).contains(x) <==> a.contains(x) || b.contains(x),
{
    if a.contains(x) {
        let i = choose|i: int| 0 <= i < a.len() && a[i] == x;
        assert((a + b)[i] == x);
    }
    if b.contains(x) {
        let i = choose|i: int| 0 <= i < b.len() && b[i] == x;
        assert((a + b)[a.len() + i] == x);
    }
    if (a + b).contains(x) {
        let i = choose|i: int| 0 <= i < (a + b).len() && (a + b)[i] == x;
        if i < a.len() {
            assert(a[i] == x);
        } else {
            assert(b[i - a.len()] == x);
        }
    }
}

/// What one of the versions requires is among what they all require.
pub proof fn lemma_requirements_member(deps: Seq<DependencyView>, i: int, s: PackageSpecifierView)
    requires
        0 <= i < deps.len(),
        deps[i].dependencies.contains(s),
    ensures
        requirements_of(deps).contains(s),
    decreases deps.len(),
{
    lemma_contains_add(requirements_of(deps.drop_last()), deps.last().dependencies, s);
    if i < deps.len() - 1 {
        assert(deps.drop_last()[i] == deps[i]);
        lemma_requirements_member(deps.drop_last(), i, s);
    }
}

/// A version that a package of the snapshot lists is among all versions.
pub proof fn lemma_versions_member(registry: Seq<RegistryPackageView>, i: int, d: DependencyView)
    requires
        0 <= i < registry.len(),
        registry[i].versions.contains(d),
    ensures
        all_versions(registry).contains(d),
    decreases registry.len(),
{
    lemma_contains_add(all_versions(registry.drop_last()), registry.last().versions, d);
    if i < registry.len() - 1 {
        assert(registry.drop_last()[i] == registry[i]);
        lemma_versions_member(registry.drop_last(), i, d);
    }
}

/// What is published under a name is an entry of the snapshot.
pub proof fn lemma_published_member(registry: Seq<RegistryPackageView>, name: Seq<char>)
    ensures
        match published(registry, name) {
            Some(package) => registry.contains(package) && package.name == name,
            None => forall|i: int| 0 <= i < registry.len() ==> (#[trigger] registry[i]).name != name,
        },
    decreases registry.len(),
{
    if registry.len() > 0 {
        if registry[0].name != name {
            lemma_published_member(registry.skip(1), name);
            match published(registry, name) {
                Some(package) => {
                    let i = choose|i: int|
                        0 <= i < registry.skip(1).len() && registry.skip(1)[i] == package;
                    assert(registry[i + 1] == package);
                },
                None => {
                    assert forall|i: int| 0 <= i < registry.len() implies (
                    #[trigger] registry[i]).name != name by {
                        if i > 0 {
                            assert(registry.skip(1)[i - 1] == registry[i]);
                        }
                    }
                },
            }
        }
    }
}

/// A shared version is bound by some relation, has the required name and
/// lies in the required range.
pub proof fn lemma_shared_member(relations: Seq<RelationView>, req: PackageSpecifierView)
    ensures
        match shared(relations, req) {
            Some(dep) => bound(relations).contains(dep) && req.admits(dep.name, dep.version),
            None => forall|i: int|
                0 <= i < relations.len() ==> !req.admits(
                    (#[trigger] relations[i]).1.name,
                    relations[i].1.version,
                ),
        },
    decreases relations.len(),
{
    if relations.len() > 0 {
        if req.admits(relations[0].1.name, relations[0].1.version) {
            assert(bound(relations)[0] == relations[0].1);
        } else {
            lemma_shared_member(relations.skip(1), req);
            match shared(relations, req) {
                Some(dep) => {
                    let i = choose|i: int|
                        0 <= i < bound(relations.skip(1)).len() && bound(relations.skip(1))[i]
                            == dep;
                    assert(bound(relations)[i + 1] == dep);
                },
                None => {
                    assert forall|i: int| 0 <= i < relations.len() implies !req.admits(
                        (#[trigger] relations[i]).1.name,
                        relations[i].1.version,
                    ) by {
                        if i > 0 {
                            assert(relations.skip(1)[i - 1] == relations[i]);
                        }
                    }
                },
            }
        }
    }
}

/// The graph binds a requirement exactly when one of its relations is for
/// it, and then to the version of the first such relation.
pub proof fn lemma_resolved_member(relations: Seq<RelationView>, req: PackageSpecifierView)
    ensures
        match resolved(relations, req) {
            Some(dep) => exists|i: int|
                0 <= i < relations.len() && (#[trigger] relations[i]).0 == req && relations[i].1
                    == dep,
            None => forall|i: int| 0 <= i < relations.len() ==> (#[trigger] relations[i]).0 != req,
        },
    decreases relations.len(),
{
    if relations.len() > 0 {
        if relations[0].0 != req {
            lemma_resolved_member(relations.skip(1), req);
            match resolved(relations, req) {
                Some(dep) => {
                    let i = choose|i: int|
                        0 <= i < relations.skip(1).len() && (#[trigger] relations.skip(1)[i]).0
                            == req && relations.skip(1)[i].1 == dep;
                    assert(relations[i + 1] == relations.skip(1)[i]);
                },
                None => {
                    assert forall|i: int| 0 <= i < relations.len() implies (
                    #[trigger] relations[i]).0 != req by {
                        if i > 0 {
                            assert(relations.skip(1)[i - 1] == relations[i]);
                        }
                    }
                },
            }
        }
    }
}

/// A new relation binds its requirement if that was not bound, and changes
/// no other binding.
pub proof fn lemma_resolved_push(
    relations: Seq<RelationView>,
    req: PackageSpecifierView,
    dep: DependencyView,
    s: PackageSpecifierView,
)
    ensures
        resolved(relations.push((req, dep)), s) == (if resolved(relations, s).is_some() {
            resolved(relations, s)
        } else if s == req {
            Some(dep)
        } else {
            None
        }),
    decreases relations.len(),
{
    let grown = relations.push((req, dep));
    if relations.len() == 0 {
        assert(grown.skip(1) =~= Seq::<RelationView>::empty());
        assert(resolved(grown.skip(1), s).is_none());
    } else {
        assert(grown[0] == relations[0]);
        assert(grown.skip(1) =~= relations.skip(1).push((req, dep)));
        lemma_resolved_push(relations.skip(1), req, dep, s);
    }
}

/// The unbound requirements are finitely many.
pub proof fn lemma_unbound_finite(
    relations: Seq<RelationView>,
    pending: Seq<PackageSpecifierView>,
    registry: Seq<RegistryPackageView>,
)
    ensures
        unbound(relations, pending, registry).finite(),
{
    let all = universe(relations, pending, registry);
    vstd::seq_lib::seq_to_set_is_finite(all);
    assert(unbound(relations, pending, registry).subset_of(all.to_set()));
    vstd::set_lib::lemma_len_subset(unbound(relations, pending, registry), all.to_set());
}

/// Dropping the first pending requirement, with the graph as it is, leaves
/// no more requirements unbound than before.
pub proof fn lemma_unbound_skip(
    relations: Seq<RelationView>,
    pending: Seq<PackageSpecifierView>,
    registry: Seq<RegistryPackageView>,
)
    requires
        pending.len() > 0,
    ensures
        unbound(relations, pending.skip(1), registry).len() <= unbound(
            relations,
            pending,
            registry,
        ).len(),
{
    let before = unbound(relations, pending, registry);
    let after = unbound(relations, pending.skip(1), registry);
    let fixed = requirements_of(bound(relations)) + requirements_of(all_versions(registry));
    assert forall|s: PackageSpecifierView| after.contains(s) implies before.contains(s) by {
        assert(universe(relations, pending.skip(1), registry) =~= pending.skip(1) + fixed);
        assert(universe(relations, pending, registry) =~= pending + fixed);
        lemma_contains_add(pending.skip(1), fixed, s);
        lemma_contains_add(pending, fixed, s);
        if pending.skip(1).contains(s) {
            let i = choose|i: int| 0 <= i < pending.skip(1).len() && pending.skip(1)[i] == s;
            assert(pending[i + 1] == s);
        }
    }
    lemma_unbound_finite(relations, pending, registry);
    vstd::set_lib::lemma_len_subset(after, before);
}

/// Binding the first pending requirement, which was unbound, to a version
/// of the graph or of the registry, and queueing what that version
/// requires, leaves fewer requirements unbound than before.
pub proof fn lemma_unbound_bind(
    relations: Seq<RelationView>,
    pending: Seq<PackageSpecifierView>,
    registry: Seq<RegistryPackageView>,
    dep: DependencyView,
)
    requires
        pending.len() > 0,
        resolved(relations, pending[0]).is_none(),
        bound(relations).contains(dep) || all_versions(registry).contains(dep),
    ensures
        unbound(
            relations.push((pending[0], dep)),
            pending.skip(1) + dep.dependencies,
            registry,
        ).len() < unbound(relations, pending, registry).len(),
{
    let req = pending[0];
    let grown = relations.push((req, dep));
    let queue = pending.skip(1) + dep.dependencies;
    let before = unbound(relations, pending, registry);
    let after = unbound(grown, queue, registry);
    let in_graph = requirements_of(bound(relations));
    let in_registry = requirements_of(all_versions(registry));
    assert(bound(grown).drop_last() =~= bound(relations));
    assert(bound(grown).last() == dep);
    assert(requirements_of(bound(grown)) == in_graph + dep.dependencies);
    assert forall|s: PackageSpecifierView| after.contains(s) implies before.contains(s) by {
        lemma_resolved_push(relations, req, dep, s);
        lemma_contains_add(queue + requirements_of(bound(grown)), in_registry, s);
        lemma_contains_add(queue, requirements_of(bound(grown)), s);
        lemma_contains_add(pending.skip(1), dep.dependencies, s);
        lemma_contains_add(in_graph, dep.dependencies, s);
        lemma_contains_add(pending + in_graph, in_registry, s);
        lemma_contains_add(pending, in_graph, s);
        if pending.skip(1).contains(s) {
            let i = choose|i: int| 0 <= i < pending.skip(1).len() && pending.skip(1)[i] == s;
            assert(pending[i + 1] == s);
        }
        if dep.dependencies.contains(s) {
            if bound(relations).contains(dep) {
                let k = choose|k: int| 0 <= k < bound(relations).len() && bound(relations)[k] == dep;
                lemma_requirements_member(bound(relations), k, s);
            } else {
                let k = choose|k: int|
                    0 <= k < all_versions(registry).len() && all_versions(registry)[k] == dep;
                lemma_requirements_member(all_versions(registry), k, s);
            }
        }
    }
    lemma_resolved_push(relations, req, dep, req);
    assert(!after.contains(req));
    assert(pending.contains(req));
    lemma_contains_add(pending + in_graph, in_registry, req);
    lemma_contains_add(pending, in_graph, req);
    assert(before.contains(req));
    lemma_unbound_finite(relations, pending, registry);
    after.lemma_subset_not_in_lt(before, req);
}

/// The versions picked for the first pending requirement come from the
/// graph or from the registry snapshot.
pub proof fn lemma_decide_member(
    relations: Seq<RelationView>,
    registry: Seq<RegistryPackageView>,
    req: PackageSpecifierView,
)
    ensures
        match decide(relations, registry, req) {
            Decision::Shared(dep) => bound(relations).contains(dep) && req.admits(
                dep.name,
                dep.version,
            ),
            Decision::Fresh(dep) => all_versions(registry).contains(dep) && req.admits(
                dep.name,
                dep.version,
            ),
            _ => true,
        },
{
    lemma_shared_member(relations, req);
    lemma_published_member(registry, req.name);
    match decide(relations, registry, req) {
        Decision::Fresh(dep) => {
            let package = published(registry, req.name).unwrap();
            lemma_best(package.versions, req);
            let i = choose|i: int| 0 <= i < registry.len() && registry[i] == package;
            let j = choose|j: int|
                0 <= j < package.versions.len() && #[trigger] package.versions[j] == dep && unbeaten(
                    package.versions,
                    req,
                    dep,
                    j,
                );
            assert(package.versions.contains(dep));
            lemma_versions_member(registry, i, dep);
        },
        _ => {},
    }
}

/// The graph and the requirements that wait for the registry, as a
/// resolution leaves them.
pub struct Resolution {
    pub relations: Seq<RelationView>,
    pub waiting: Seq<PackageSpecifierView>,
}

/// A resolution, carried through: the pending requirements are taken in
/// order. One that the graph binds is passed over. One that a version in the
/// graph fits is bound to it; otherwise to the pick among the published
/// versions of its name; either way what that version requires is queued
/// behind the pending ones. One of whose name nothing is known yet is set
/// aside in `waiting`. A name without published versions, or a range that
/// excludes them all, ends the resolution with an error.
pub open spec fn run(
    relations: Seq<RelationView>,
    pending: Seq<PackageSpecifierView>,
    waiting: Seq<PackageSpecifierView>,
    registry: Seq<RegistryPackageView>,
) -> Result<Resolution, ResolveErrorView>
    decreases unbound(relations, pending, registry).len(), pending.len(),
{
    if pending.len() == 0 {
        Ok(Resolution { relations, waiting })
    } else {
        let req = pending[0];
        match decide(relations, registry, req) {
            Decision::Known => {
                proof {
                    lemma_unbound_skip(relations, pending, registry);
                }
                run(relations, pending.skip(1), waiting, registry)
            },
            Decision::Missing => {
                proof {
                    lemma_unbound_skip(relations, pending, registry);
                }
                run(relations, pending.skip(1), waiting.push(req), registry)
            },
            Decision::Shared(dep) => {
                proof {
                    lemma_decide_member(relations, registry, req);
                    lemma_unbound_bind(relations, pending, registry, dep);
                }
                run(
                    relations.push((req, dep)),
                    pending.skip(1) + dep.dependencies,
                    waiting,
                    registry,
                )
            },
            Decision::Fresh(dep) => {
                proof {
                    lemma_decide_member(relations, registry, req);
                    lemma_unbound_bind(relations, pending, registry, dep);
                }
                run(
                    relations.push((req, dep)),
                    pending.skip(1) + dep.dependencies,
                    waiting,
                    registry,
                )
            },
            Decision::NotFound => Err(ResolveErrorView::NotFound(req.name)),
            Decision::NoVersion => Err(ResolveErrorView::NoSatisfyingVersion(req)),
        }
    }
}

/// Whether the relation was made as a resolution makes it, given the
/// relations before it: by sharing the first version of the graph that meets
/// the requirement; or, where there is none, by taking the highest version
/// that the registry publishes under the name and that meets it.
pub open spec fn picked(
    before: Seq<RelationView>,
    registry: Seq<RegistryPackageView>,
    relation: RelationView,
) -> bool {
    match decide(before, registry, relation.0) {
        Decision::Shared(dep) => dep == relation.1,
        Decision::Fresh(dep) => dep == relation.1 && highest(
            published(registry, relation.0.name)->Some_0.versions,
            relation.0,
            dep,
        ),
        _ => false,
    }
}

/// Binding a requirement that was not bound leaves no requirement bound
/// twice.
pub proof fn lemma_functional_push(
    relations: Seq<RelationView>,
    req: PackageSpecifierView,
    dep: DependencyView,
)
    requires
        functional(relations),
        resolved(relations, req) is None,
    ensures
        functional(relations.push((req, dep))),
{
    lemma_resolved_member(relations, req);
    let grown = relations.push((req, dep));
    assert forall|i: int, j: int| 0 <= i < j < grown.len() implies (#[trigger] grown[i]).0 != (
    #[trigger] grown[j]).0 by {
        assert(grown[i] == relations[i]);
        if j < relations.len() {
            assert(grown[j] == relations[j]);
        }
    }
}

/// The first of the requirements that the graph does not bind.
pub open spec fn first_unbound(
    relations: Seq<RelationView>,
    requirements: Seq<PackageSpecifierView>,
) -> Option<PackageSpecifierView>
    decreases requirements.len(),
{
    if requirements.len() == 0 {
        None
    } else if resolved(relations, requirements[0]).is_none() {
        Some(requirements[0])
    } else {
        first_unbound(relations, requirements.skip(1))
    }
}

/// Whether the requirement is bound, still pending, or waiting for the
/// registry.
pub open spec fn covered(
    relations: Seq<RelationView>,
    pending: Seq<PackageSpecifierView>,
    waiting: Seq<PackageSpecifierView>,
    s: PackageSpecifierView,
) -> bool {
    resolved(relations, s).is_some() || pending.contains(s) || waiting.contains(s)
}

/// Whether the graph binds everything that the versions bound by its
/// relations from position `from` on require.
pub open spec fn closed_from(relations: Seq<RelationView>, from: int) -> bool {
    forall|i: int, j: int|
        from <= i < relations.len() && 0 <= j < relations[i].1.dependencies.len() ==> resolved(
            relations,
            #[trigger] relations[i].1.dependencies[j],
        ).is_some()
}

/// What is covered stays covered when the first pending requirement is
/// passed over because the graph binds it, or is set aside to wait.
proof fn lemma_covered_skip(
    relations: Seq<RelationView>,
    pending: Seq<PackageSpecifierView>,
    waiting: Seq<PackageSpecifierView>,
    set_aside: bool,
    s: PackageSpecifierView,
)
    requires
        pending.len() > 0,
        set_aside || resolved(relations, pending[0]).is_some(),
        covered(relations, pending, waiting, s),
    ensures
        covered(
            relations,
            pending.skip(1),
            if set_aside {
                waiting.push(pending[0])
            } else {
                waiting
            },
            s,
        ),
{
    if waiting.contains(s) {
        let i = choose|i: int| 0 <= i < waiting.len() && waiting[i] == s;
        assert(waiting.push(pending[0])[i] == s);
    }
    if pending.contains(s) {
        let i = choose|i: int| 0 <= i < pending.len() && pending[i] == s;
        if i == 0 {
            assert(waiting.push(pending[0])[waiting.len() as int] == s);
        } else {
            assert(pending.skip(1)[i - 1] == s);
        }
    }
}

/// What is covered stays covered when the first pending requirement is
/// bound and what its version requires is queued; and what that version
/// requires is covered.
proof fn lemma_covered_bind(
    relations: Seq<RelationView>,
    pending: Seq<PackageSpecifierView>,
    waiting: Seq<PackageSpecifierView>,
    dep: DependencyView,
    s: PackageSpecifierView,
)
    requires
        pending.len() > 0,
        covered(relations, pending, waiting, s) || dep.dependencies.contains(s),
    ensures
        covered(
            relations.push((pending[0], dep)),
            pending.skip(1) + dep.dependencies,
            waiting,
            s,
        ),
{
    lemma_resolved_push(relations, pending[0], dep, s);
    lemma_contains_add(pending.skip(1), dep.dependencies, s);
    if pending.contains(s) {
        let i = choose|i: int| 0 <= i < pending.len() && pending[i] == s;
        if i > 0 {
            assert(pending.skip(1)[i - 1] == s);
        }
    }
}

/// Appends to `queue` fresh copies of `items`, in order.
fn enqueue(queue: &mut Vec<PackageSpecifier>, items: &Vec<PackageSpecifier>)
    ensures
        final(queue).deep_view() == old(queue).deep_view() + items.deep_view(),
{
    let ghost start = queue.deep_view();
    let mut i: usize = 0;
    assert(queue.deep_view() =~= start + items.deep_view().take(0));
    while i < items.len()
        invariant
            0 <= i <= items.len(),
            queue.deep_view() == start + items.deep_view().take(i as int),
        decreases items.len() - i,
    {
        let ghost before = queue.deep_view();
        queue.push(items[i].duplicate());
        assert(queue.deep_view() =~= before.push(items@[i as int]@));
        assert(queue.deep_view() =~= start + items.deep_view().take(i as int + 1));
        i = i + 1;
    }
    assert(items.deep_view().take(i as int) =~= items.deep_view());
}

impl Graph {
    /// Binds `req` to `dep` by a new relation at the end.
    fn bind(&mut self, req: PackageSpecifier, dep: Dependency)
        ensures
            final(self)@ == old(self)@.push((req@, dep@)),
    {
        let ghost before = self@;
        self.relations.push((req, dep));
        assert(self@ =~= before.push((req@, dep@)));
    }

    /// Takes the graph back to its first `len` relations.
    fn rewind(&mut self, len: usize)
        requires
            len <= old(self).relations.len(),
        ensures
            final(self)@ == old(self)@.take(len as int),
    {
        self.relations.truncate(len);
        assert(self@ =~= old(self)@.take(len as int));
    }

    /// The first of `requirements` that the graph does not bind.
    pub fn find_unbound(&self, requirements: &Vec<PackageSpecifier>) -> (r: Option<
        PackageSpecifier,
    >)
        ensures
            r.deep_view() == first_unbound(self@, requirements.deep_view()),
    {
        let ghost all = requirements.deep_view();
        let mut i: usize = 0;
        assert(all.skip(0) =~= all);
        while i < requirements.len()
            invariant
                0 <= i <= requirements.len(),
                all == requirements.deep_view(),
                first_unbound(self@, all) == first_unbound(self@, all.skip(i as int)),
            decreases requirements.len() - i,
        {
            assert(all.skip(i as int)[0] == requirements@[i as int]@);
            assert(all.skip(i as int).skip(1) =~= all.skip(i as int + 1));
            if self.resolve_req(&requirements[i]).is_err() {
                return Some(requirements[i].duplicate());
            }
            i = i + 1;
        }
        None
    }

    /// Extends the graph until it binds `requirements` and everything that
    /// the versions it binds them to require, as far as `registry` tells
    /// what is published.
    ///
    /// With `strict` nothing is resolved: the graph stays as it is, and the
    /// first requirement that it does not bind is reported as a mismatch.
    ///
    /// Otherwise the result is that of [`run`]: the new relations follow the
    /// old ones, and the requirements whose names the registry snapshot
    /// lacks come back, to be handed in again once their packages have been
    /// fetched. When none comes back the graph is complete. On an error the
    /// graph is as it was.
    pub fn append(
        &mut self,
        requirements: Vec<PackageSpecifier>,
        registry: &Vec<RegistryPackage>,
        strict: bool,
    ) -> (r: Result<Vec<PackageSpecifier>, ResolveError>)
        ensures
            strict ==> final(self)@ == old(self)@ && (match first_unbound(
                old(self)@,
                requirements.deep_view(),
            ) {
                Some(req) => r is Err && r->Err_0@ == ResolveErrorView::LockfileMismatch(req),
                None => r is Ok && r->Ok_0.len() == 0,
            }),
            !strict ==> (match run(
                old(self)@,
                requirements.deep_view(),
                Seq::empty(),
                registry.deep_view(),
            ) {
                Ok(end) => r is Ok && final(self)@ == end.relations && r->Ok_0.deep_view()
                    == end.waiting,
                Err(e) => r is Err && r->Err_0@ == e && final(self)@ == old(self)@,
            }),
            old(self)@.len() <= final(self)@.len(),
            final(self)@.take(old(self)@.len() as int) == old(self)@,
            forall|i: int|
                old(self)@.len() <= i < final(self)@.len() ==> meets(#[trigger] final(self)@[i]),
            forall|i: int|
                old(self)@.len() <= i < final(self)@.len() ==> picked(
                    final(self)@.take(i),
                    registry.deep_view(),
                    #[trigger] final(self)@[i],
                ),
            satisfied(old(self)@) ==> satisfied(final(self)@),
            functional(old(self)@) ==> functional(final(self)@),
            r is Ok && r->Ok_0.len() == 0 ==> closed_from(final(self)@, old(self)@.len() as int)
                && forall|k: int|
                0 <= k < requirements.len() ==> resolved(
                    final(self)@,
                    #[trigger] requirements.deep_view()[k],
                ).is_some(),
    {
        let ghost start = self@;
        let ghost wanted = requirements.deep_view();
        let ghost known = registry.deep_view();
        assert(start.take(start.len() as int) =~= start);
        if strict {
            return match self.find_unbound(&requirements) {
                Some(req) => Err(ResolveError::LockfileMismatch(req)),
                None => {
                    proof {
                        lemma_first_unbound(start, wanted);
                    }
                    Ok(Vec::new())
                },
            };
        }
        let first = self.relations.len();
        let mut queue = requirements;
        let mut next: usize = 0;
        let mut waiting: Vec<PackageSpecifier> = Vec::new();
        assert(waiting.deep_view() =~= Seq::<PackageSpecifierView>::empty());
        assert(queue.deep_view().skip(0) =~= queue.deep_view());
        while next < queue.len()
            invariant
                0 <= next <= queue.len(),
                !strict,
                start == old(self)@,
                wanted == requirements.deep_view(),
                first == start.len(),
                known == registry.deep_view(),
                first <= self@.len(),
                self@.take(first as int) == start,
                run(start, wanted, Seq::empty(), known) == run(
                    self@,
                    queue.deep_view().skip(next as int),
                    waiting.deep_view(),
                    known,
                ),
                forall|i: int| first <= i < self@.len() ==> meets(#[trigger] self@[i]),
                functional(start) ==> functional(self@),
                forall|i: int|
                    first <= i < self@.len() ==> picked(self@.take(i), known, #[trigger] self@[i]),
                forall|k: int|
                    0 <= k < wanted.len() ==> covered(
                        self@,
                        queue.deep_view().skip(next as int),
                        waiting.deep_view(),
                        #[trigger] wanted[k],
                    ),
                forall|i: int, j: int|
                    first <= i < self@.len() && 0 <= j < self@[i].1.dependencies.len() ==> covered(
                        self@,
                        queue.deep_view().skip(next as int),
                        waiting.deep_view(),
                        #[trigger] self@[i].1.dependencies[j],
                    ),
            decreases
                    unbound(self@, queue.deep_view().skip(next as int), known).len(),
                    queue.len() - next,
        {
            let ghost relations = self@;
            let ghost pending = queue.deep_view().skip(next as int);
            let ghost aside = waiting.deep_view();
            let req = queue[next].duplicate();
            assert(pending[0] == req@);
            assert(queue.deep_view().skip(next as int + 1) =~= pending.skip(1));
            proof {
                lemma_decide_member(relations, known, req@);
            }
            let bound_already = self.resolve_req(&req).is_ok();
            if bound_already {
                proof {
                    lemma_unbound_skip(relations, pending, known);
                    assert forall|s: PackageSpecifierView|
                        covered(relations, pending, aside, s) implies covered(
                        relations,
                        pending.skip(1),
                        aside,
                        s,
                    ) by {
                        lemma_covered_skip(relations, pending, aside, false, s);
                    }
                }
                next = next + 1;
            } else {
                let found = match self.find_shared(&req) {
                    Some(dep) => Ok(Some(dep)),
                    None => match find_published(registry, &req.name) {
                        None => Ok(None),
                        Some(package) => if package.versions.len() == 0 {
                            Err(ResolveError::NotFound(req.name.clone()))
                        } else {
                            match pick_version(&package.versions, &req) {
                                None => Err(ResolveError::NoSatisfyingVersion(req.duplicate())),
                                Some(dep) => Ok(Some(dep)),
                            }
                        },
                    },
                };
                match found {
                    Err(e) => {
                        self.rewind(first);
                        return Err(e);
                    },
                    Ok(None) => {
                        proof {
                            lemma_unbound_skip(relations, pending, known);
                            assert forall|s: PackageSpecifierView|
                                covered(relations, pending, aside, s) implies covered(
                                relations,
                                pending.skip(1),
                                aside.push(req@),
                                s,
                            ) by {
                                lemma_covered_skip(relations, pending, aside, true, s);
                            }
                        }
                        let ghost before = waiting.deep_view();
                        waiting.push(req);
                        assert(waiting.deep_view() =~= before.push(pending[0]));
                        next = next + 1;
                    },
                    Ok(Some(dep)) => {
                        proof {
                            assert(picked(relations, known, (pending[0], dep@)));
                            lemma_unbound_bind(relations, pending, known, dep@);
                            assert forall|s: PackageSpecifierView|
                                covered(relations, pending, aside, s) || dep@.dependencies.contains(
                                    s,
                                ) implies covered(
                                relations.push((pending[0], dep@)),
                                pending.skip(1) + dep@.dependencies,
                                aside,
                                s,
                            ) by {
                                lemma_covered_bind(relations, pending, aside, dep@, s);
                            }
                        }
                        let ghost queued = queue.deep_view();
                        enqueue(&mut queue, &dep.dependencies);
                        assert(queue.deep_view().skip(next as int + 1) =~= pending.skip(1)
                            + dep@.dependencies);
                        self.bind(req, dep);
                        next = next + 1;
                        proof {
                            let grown = self@;
                            if functional(start) {
                                lemma_functional_push(relations, pending[0], dep@);
                            }
                            assert(grown.take(first as int) =~= relations.take(first as int));
                            assert forall|i: int, j: int|
                                first <= i < grown.len() && 0 <= j < grown[i].1.dependencies.len() implies covered(
                                grown,
                                queue.deep_view().skip(next as int),
                                waiting.deep_view(),
                                #[trigger] grown[i].1.dependencies[j],
                            ) by {
                                if i < relations.len() {
                                    assert(grown[i] == relations[i]);
                                } else {
                                    assert(grown[i].1 == dep@);
                                    assert(dep@.dependencies.contains(dep@.dependencies[j]));
                                }
                            }
                            assert forall|i: int| first <= i < grown.len() implies picked(
                                grown.take(i),
                                known,
                                #[trigger] grown[i],
                            ) by {
                                if i < relations.len() {
                                    assert(grown[i] == relations[i]);
                                    assert(grown.take(i) =~= relations.take(i));
                                } else {
                                    assert(grown.take(i) =~= relations);
                                }
                            }
                            assert forall|i: int| first <= i < grown.len() implies meets(
                                #[trigger] grown[i],
                            ) by {
                                if i < relations.len() {
                                    assert(grown[i] == relations[i]);
                                }
                            }
                        }
                    },
                }
            }
        }
        proof {
            let end = self@;
            assert(queue.deep_view().skip(next as int).len() == 0);
            assert forall|i: int| 0 <= i < start.len() implies end[i] == start[i] by {
                assert(end.take(first as int)[i] == end[i]);
            }
            if waiting.len() == 0 {
                assert(waiting.deep_view().len() == 0);
                assert forall|k: int| 0 <= k < wanted.len() implies resolved(
                    end,
                    #[trigger] wanted[k],
                ).is_some() by {
                    assert(covered(end, queue.deep_view().skip(next as int), waiting.deep_view(), wanted[k]));
                }
                assert forall|i: int, j: int|
                    first <= i < end.len() && 0 <= j < end[i].1.dependencies.len() implies resolved(
                    end,
                    #[trigger] end[i].1.dependencies[j],
                ).is_some() by {
                    assert(covered(
                        end,
                        queue.deep_view().skip(next as int),
                        waiting.deep_view(),
                        end[i].1.dependencies[j],
                    ));
                }
            }
        }
        Ok(waiting)
    }
}

/// No requirement is reported unbound exactly when the graph binds them all.
pub proof fn lemma_first_unbound(
    relations: Seq<RelationView>,
    requirements: Seq<PackageSpecifierView>,
)
    ensures
        match first_unbound(relations, requirements) {
            Some(req) => requirements.contains(req) && resolved(relations, req).is_none(),
            None => forall|k: int|
                0 <= k < requirements.len() ==> resolved(relations, #[trigger] requirements[k]).is_some(),
        },
    decreases requirements.len(),
{
    if requirements.len() > 0 {
        if resolved(relations, requirements[0]).is_some() {
            lemma_first_unbound(relations, requirements.skip(1));
            match first_unbound(relations, requirements) {
                Some(req) => {
                    let i = choose|i: int|
                        0 <= i < requirements.skip(1).len() && requirements.skip(1)[i] == req;
                    assert(requirements[i + 1] == req);
                },
                None => {
                    assert forall|k: int| 0 <= k < requirements.len() implies resolved(
                        relations,
                        #[trigger] requirements[k],
                    ).is_some() by {
                        if k > 0 {
                            assert(requirements.skip(1)[k - 1] == requirements[k]);
                        }
                    }
                },
            }
        } else {
            assert(requirements[0] == requirements[0]);
        }
    }
}

} // verus!
