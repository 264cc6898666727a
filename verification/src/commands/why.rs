//! Why a package is there: who requires it, and who requires them, back to
//! the manifest.

use vstd::prelude::*;
use crate::model::Model;
use crate::package::{PackageMetadata, PackageSpecifier, PackageSpecifierView};
use crate::resolve::{
    lemma_contains_add, lemma_resolved_member, resolved, Graph, RelationView, ResolveError,
    ResolveErrorView,
};
use crate::semver::in_range;

verus! {

/// A package at a version: its name and its version.
pub type PairView = (Seq<char>, Seq<char>);

/// One use of a resolved package: the requirement `by` is bound to a
/// version that requires it.
#[derive(Debug, Clone, PartialEq, Eq)]
pub struct Use {
    pub name: String,
    pub version: String,
    pub by: PackageSpecifier,
}

/// The model of [`Use`]: texts as sequences of characters.
pub struct UseView {
    pub name: Seq<char>,
    pub version: Seq<char>,
    pub by: PackageSpecifierView,
}

impl View for Use {
    type V = UseView;

    open spec fn view(&self) -> UseView {
        UseView { name: self.name@, version: self.version@, by: self.by@ }
    }
}

impl DeepView for Use {
    type V = UseView;

    open spec fn deep_view(&self) -> UseView {
        self@
    }
}

/// The uses that the first `n` of `requirements` make when `by` is bound
/// to the version that has them; the first of them that the graph does not
/// bind is the error.
pub open spec fn uses_by(
    relations: Seq<RelationView>,
    by: PackageSpecifierView,
    requirements: Seq<PackageSpecifierView>,
    n: int,
) -> Result<Seq<UseView>, ResolveErrorView>
    decreases n,
{
    if n <= 0 {
        Ok(Seq::empty())
    } else {
        match uses_by(relations, by, requirements, n - 1) {
            Err(e) => Err(e),
            Ok(before) => match resolved(relations, requirements[n - 1]) {
                None => Err(ResolveErrorView::Unresolved(requirements[n - 1])),
                Some(dep) => Ok(
                    before.push(UseView { name: dep.name, version: dep.version, by: by }),
                ),
            },
        }
    }
}

/// The uses that the first `n` relations of the graph make, relation after
/// relation.
pub open spec fn uses_of(relations: Seq<RelationView>, n: int) -> Result<
    Seq<UseView>,
    ResolveErrorView,
>
    decreases n,
{
    if n <= 0 {
        Ok(Seq::empty())
    } else {
        match uses_of(relations, n - 1) {
            Err(e) => Err(e),
            Ok(before) => match uses_by(
                relations,
                relations[n - 1].0,
                relations[n - 1].1.dependencies,
                relations[n - 1].1.dependencies.len() as int,
            ) {
                Err(e) => Err(e),
                Ok(own) => Ok(before + own),
            },
        }
    }
}

/// Every use in the graph: for each relation and each requirement of the
/// version it binds, the version that this requirement is bound to, used by
/// the relation's requirement.
pub fn build_map(graph: &Graph) -> (r: Result<Vec<Use>, ResolveError>)
    ensures
        match uses_of(graph@, graph@.len() as int) {
            Ok(uses) => r matches Ok(found) && found.deep_view() == uses,
            Err(e) => r matches Err(error) && error@ == e,
        },
{
    let ghost all = graph@;
    let mut out: Vec<Use> = Vec::new();
    let mut i: usize = 0;
    assert(out.deep_view() =~= Seq::<UseView>::empty());
    while i < graph.relations.len()
        invariant
            0 <= i <= graph.relations.len(),
            all == graph@,
            uses_of(all, i as int) == Ok::<Seq<UseView>, ResolveErrorView>(out.deep_view()),
        decreases graph.relations.len() - i,
    {
        let from = &graph.relations[i].0;
        let to = &graph.relations[i].1;
        assert(all[i as int] == (from@, to@));
        let ghost start = out.deep_view();
        let mut j: usize = 0;
        assert(out.deep_view() =~= start + Seq::<UseView>::empty());
        while j < to.dependencies.len()
            invariant
                0 <= j <= to.dependencies.len(),
                0 <= i < graph.relations.len(),
                all == graph@,
                all[i as int] == (from@, to@),
                uses_of(all, i as int) == Ok::<Seq<UseView>, ResolveErrorView>(start),
                exists|own: Seq<UseView>|
                    uses_by(all, from@, to@.dependencies, j as int) == Ok::<
                        Seq<UseView>,
                        ResolveErrorView,
                    >(own) && out.deep_view() == start + own,
            decreases to.dependencies.len() - j,
        {
            let ghost own = choose|own: Seq<UseView>|
                uses_by(all, from@, to@.dependencies, j as int) == Ok::<
                    Seq<UseView>,
                    ResolveErrorView,
                >(own) && out.deep_view() == start + own;
            assert(to@.dependencies[j as int] == to.dependencies@[j as int]@);
            match graph.resolve_req(&to.dependencies[j]) {
                Err(e) => {
                    proof {
                        lemma_uses_by_error(
                            all,
                            from@,
                            to@.dependencies,
                            j as int + 1,
                            to@.dependencies.len() as int,
                        );
                        lemma_uses_of_error(all, i as int + 1, all.len() as int);
                    }
                    return Err(e);
                },
                Ok(dep) => {
                    let ghost before = out.deep_view();
                    let used = Use {
                        name: dep.name.clone(),
                        version: dep.version.clone(),
                        by: from.duplicate(),
                    };
                    let ghost added = used@;
                    out.push(used);
                    proof {
                        let grown = own.push(
                            UseView { name: dep@.name, version: dep@.version, by: from@ },
                        );
                        assert(out.deep_view() =~= before.push(added));
                        assert(out.deep_view() =~= start + grown);
                        assert(uses_by(all, from@, to@.dependencies, j as int + 1) == Ok::<
                            Seq<UseView>,
                            ResolveErrorView,
                        >(grown));
                    }
                },
            }
            j = j + 1;
        }
        i = i + 1;
    }
    Ok(out)
}

/// An error among the first `n` requirements is the error of the first
/// `m`, for every `m` from `n` on.
pub proof fn lemma_uses_by_error(
    relations: Seq<RelationView>,
    by: PackageSpecifierView,
    requirements: Seq<PackageSpecifierView>,
    n: int,
    m: int,
)
    requires
        0 <= n <= m,
        uses_by(relations, by, requirements, n) is Err,
    ensures
        uses_by(relations, by, requirements, m) == uses_by(relations, by, requirements, n),
    decreases m - n,
{
    if n < m {
        lemma_uses_by_error(relations, by, requirements, n, m - 1);
    }
}

/// An error among the first `n` relations is the error of the first `m`,
/// for every `m` from `n` on.
pub proof fn lemma_uses_of_error(relations: Seq<RelationView>, n: int, m: int)
    requires
        0 <= n <= m,
        uses_of(relations, n) is Err,
    ensures
        uses_of(relations, m) == uses_of(relations, n),
    decreases m - n,
{
    if n < m {
        lemma_uses_of_error(relations, n, m - 1);
    }
}

/// Whether some use is of the package `p`.
pub open spec fn has_use(uses: Seq<UseView>, p: PairView) -> bool {
    exists|i: int| 0 <= i < uses.len() && (#[trigger] uses[i]).name == p.0 && uses[i].version == p.1
}

/// The packages that use `p` according to the first `n` uses: for each use
/// of `p`, the version that the using requirement is bound to; each package
/// once, in the order in which it is first met.
pub open spec fn users_of(relations: Seq<RelationView>, uses: Seq<UseView>, p: PairView, n: int)
    -> Seq<PairView>
    decreases n,
{
    if n <= 0 {
        Seq::empty()
    } else {
        let before = users_of(relations, uses, p, n - 1);
        let u = uses[n - 1];
        if u.name == p.0 && u.version == p.1 {
            match resolved(relations, u.by) {
                Some(dep) => if before.contains((dep.name, dep.version)) {
                    before
                } else {
                    before.push((dep.name, dep.version))
                },
                None => before,
            }
        } else {
            before
        }
    }
}

/// Whether the manifest asks for the package `p`: one of its requirements
/// has the name and a range that holds the version.
pub open spec fn manifest_uses(requirements: Seq<PackageSpecifierView>, p: PairView) -> bool {
    exists|i: int|
        0 <= i < requirements.len() && (#[trigger] requirements[i]).name == p.0
            && in_range(requirements[i].version, p.1)
}

/// The packages that the graph binds, relation after relation.
pub open spec fn pairs_of(relations: Seq<RelationView>) -> Seq<PairView> {
    Seq::new(relations.len(), |i: int| (relations[i].1.name, relations[i].1.version))
}

/// The packages that may still come up and were not looked at.
pub open spec fn unseen(relations: Seq<RelationView>, queue: Seq<PairView>, seen: Seq<PairView>)
    -> Set<PairView> {
    Set::new(|p: PairView| (queue + pairs_of(relations)).contains(p) && !seen.contains(p))
}

/// The users of a package are packages of the graph.
pub proof fn lemma_users_member(
    relations: Seq<RelationView>,
    uses: Seq<UseView>,
    p: PairView,
    n: int,
    x: PairView,
)
    requires
        users_of(relations, uses, p, n).contains(x),
    ensures
        pairs_of(relations).contains(x),
    decreases n,
{
    if n > 0 {
        let before = users_of(relations, uses, p, n - 1);
        let u = uses[n - 1];
        if before.contains(x) {
            lemma_users_member(relations, uses, p, n - 1, x);
        } else {
            let after = users_of(relations, uses, p, n);
            let k = choose|k: int| 0 <= k < after.len() && after[k] == x;
            if k < before.len() {
                assert(before[k] == x);
            }
            lemma_resolved_member(relations, u.by);
            let dep = resolved(relations, u.by)->Some_0;
            let at = choose|at: int|
                0 <= at < relations.len() && (#[trigger] relations[at]).0 == u.by
                    && relations[at].1 == dep;
            assert(pairs_of(relations)[at] == x);
        }
    }
}

/// Passing over the first package of the queue, with the same or more
/// packages seen, leaves no more packages unseen.
pub proof fn lemma_unseen_skip(
    relations: Seq<RelationView>,
    queue: Seq<PairView>,
    seen: Seq<PairView>,
)
    requires
        queue.len() > 0,
    ensures
        unseen(relations, queue, seen).finite(),
        unseen(relations, queue.skip(1), seen).len() <= unseen(relations, queue, seen).len(),
{
    let before = unseen(relations, queue, seen);
    let after = unseen(relations, queue.skip(1), seen);
    let all = queue + pairs_of(relations);
    vstd::seq_lib::seq_to_set_is_finite(all);
    assert(before.subset_of(all.to_set()));
    vstd::set_lib::lemma_len_subset(before, all.to_set());
    assert forall|p: PairView| after.contains(p) implies before.contains(p) by {
        lemma_contains_add(queue.skip(1), pairs_of(relations), p);
        lemma_contains_add(queue, pairs_of(relations), p);
        if queue.skip(1).contains(p) {
            let i = choose|i: int| 0 <= i < queue.skip(1).len() && queue.skip(1)[i] == p;
            assert(queue[i + 1] == p);
        }
    }
    vstd::set_lib::lemma_len_subset(after, before);
}

/// Looking at the first package of the queue, which was not seen, and
/// queueing packages of the graph, leaves fewer packages unseen.
pub proof fn lemma_unseen_visit(
    relations: Seq<RelationView>,
    queue: Seq<PairView>,
    seen: Seq<PairView>,
    more: Seq<PairView>,
)
    requires
        queue.len() > 0,
        !seen.contains(queue[0]),
        forall|x: PairView| more.contains(x) ==> pairs_of(relations).contains(x),
    ensures
        unseen(relations, queue.skip(1) + more, seen.push(queue[0])).len() < unseen(
            relations,
            queue,
            seen,
        ).len(),
{
    let p = queue[0];
    let before = unseen(relations, queue, seen);
    let after = unseen(relations, queue.skip(1) + more, seen.push(p));
    lemma_unseen_skip(relations, queue, seen);
    assert(seen.push(p)[seen.len() as int] == p);
    assert forall|q: PairView| after.contains(q) implies before.contains(q) by {
        lemma_contains_add(queue.skip(1) + more, pairs_of(relations), q);
        lemma_contains_add(queue.skip(1), more, q);
        lemma_contains_add(queue, pairs_of(relations), q);
        if queue.skip(1).contains(q) {
            let i = choose|i: int| 0 <= i < queue.skip(1).len() && queue.skip(1)[i] == q;
            assert(queue[i + 1] == q);
        }
        if seen.contains(q) {
            let i = choose|i: int| 0 <= i < seen.len() && seen[i] == q;
            assert(seen.push(p)[i] == q);
        }
    }
    assert(queue.contains(p));
    lemma_contains_add(queue, pairs_of(relations), p);
    after.lemma_subset_not_in_lt(before, p);
}

/// One finding of the inquiry.
#[derive(Debug, Clone, PartialEq, Eq)]
pub enum WhyLine {
    /// The package is required by these packages.
    UsedBy { name: String, version: String, users: Vec<(String, String)> },
    /// The package is required by the manifest itself.
    UsedByManifest { name: String, version: String },
}

/// The model of [`WhyLine`]: texts as sequences of characters.
pub enum WhyLineView {
    UsedBy { name: Seq<char>, version: Seq<char>, users: Seq<PairView> },
    UsedByManifest { name: Seq<char>, version: Seq<char> },
}

impl View for WhyLine {
    type V = WhyLineView;

    open spec fn view(&self) -> WhyLineView {
        match self {
            WhyLine::UsedBy { name, version, users } => WhyLineView::UsedBy {
                name: name@,
                version: version@,
                users: users.deep_view(),
            },
            WhyLine::UsedByManifest { name, version } => WhyLineView::UsedByManifest {
                name: name@,
                version: version@,
            },
        }
    }
}

impl DeepView for WhyLine {
    type V = WhyLineView;

    open spec fn deep_view(&self) -> WhyLineView {
        self@
    }
}

/// Why the inquiry found nothing.
#[derive(Debug, Clone, PartialEq, Eq)]
pub enum WhyError {
    /// No requirement of the graph names the package.
    NotUsed(String),
    /// Nothing requires the package at this version: no package of the
    /// graph and not the manifest.
    VersionNotUsed(String, String),
    /// The graph does not bind a requirement of one of its own versions.
    Unresolved(PackageSpecifier),
}

/// The model of [`WhyError`]: texts as sequences of characters.
pub enum WhyErrorView {
    NotUsed(Seq<char>),
    VersionNotUsed(Seq<char>, Seq<char>),
    Unresolved(PackageSpecifierView),
}

impl View for WhyError {
    type V = WhyErrorView;

    open spec fn view(&self) -> WhyErrorView {
        match self {
            WhyError::NotUsed(name) => WhyErrorView::NotUsed(name@),
            WhyError::VersionNotUsed(name, version) => WhyErrorView::VersionNotUsed(
                name@,
                version@,
            ),
            WhyError::Unresolved(req) => WhyErrorView::Unresolved(req@),
        }
    }
}

/// What the inquiry found.
#[derive(Debug, Clone, PartialEq, Eq)]
pub struct WhyReport {
    pub lines: Vec<WhyLine>,
    /// How many packages were looked at.
    pub analyzed: usize,
}

/// The model of [`WhyReport`]: texts as sequences of characters.
pub struct WhyReportView {
    pub lines: Seq<WhyLineView>,
    pub analyzed: nat,
}

/// The inquiry, carried through: the packages of the queue are taken in
/// order. One that was seen is passed over. One that packages of the graph
/// use is reported with its users, which are queued behind the others so
/// that it is asked in turn why they are there. One that nothing in the
/// graph uses is reported as used by the manifest if the manifest asks for
/// it; otherwise the inquiry ends with an error. A package is looked at
/// once, whatever cycles the graph has.
pub open spec fn why_run(
    relations: Seq<RelationView>,
    uses: Seq<UseView>,
    requirements: Seq<PackageSpecifierView>,
    queue: Seq<PairView>,
    seen: Seq<PairView>,
    lines: Seq<WhyLineView>,
) -> Result<WhyReportView, WhyErrorView>
    decreases unseen(relations, queue, seen).len(), queue.len(),
{
    if queue.len() == 0 {
        Ok(WhyReportView { lines, analyzed: seen.len() })
    } else {
        let p = queue[0];
        if seen.contains(p) {
            proof {
                lemma_unseen_skip(relations, queue, seen);
            }
            why_run(relations, uses, requirements, queue.skip(1), seen, lines)
        } else if has_use(uses, p) {
            let users = users_of(relations, uses, p, uses.len() as int);
            proof {
                assert forall|x: PairView| users.contains(x) implies pairs_of(relations).contains(
                    x,
                ) by {
                    lemma_users_member(relations, uses, p, uses.len() as int, x);
                }
                lemma_unseen_visit(relations, queue, seen, users);
            }
            why_run(
                relations,
                uses,
                requirements,
                queue.skip(1) + users,
                seen.push(p),
                if users.len() > 0 {
                    lines.push(WhyLineView::UsedBy { name: p.0, version: p.1, users })
                } else {
                    lines
                },
            )
        } else if manifest_uses(requirements, p) {
            proof {
                lemma_unseen_visit(relations, queue, seen, Seq::empty());
                assert(queue.skip(1) + Seq::<PairView>::empty() =~= queue.skip(1));
            }
            why_run(
                relations,
                uses,
                requirements,
                queue.skip(1),
                seen.push(p),
                lines.push(WhyLineView::UsedByManifest { name: p.0, version: p.1 }),
            )
        } else {
            Err(WhyErrorView::VersionNotUsed(p.0, p.1))
        }
    }
}

/// The versions to which the first `n` relations bind requirements that
/// name `name`, each with the name.
pub open spec fn named(relations: Seq<RelationView>, name: Seq<char>, n: int) -> Seq<PairView>
    decreases n,
{
    if n <= 0 {
        Seq::empty()
    } else if relations[n - 1].0.name == name {
        named(relations, name, n - 1).push((name, relations[n - 1].1.version))
    } else {
        named(relations, name, n - 1)
    }
}

/// Where the inquiry starts: at the given version, or at every version to
/// which a requirement for the name is bound.
pub open spec fn starting(relations: Seq<RelationView>, name: Seq<char>, version: Option<Seq<char>>)
    -> Seq<PairView> {
    match version {
        Some(v) => seq![(name, v)],
        None => named(relations, name, relations.len() as int),
    }
}

/// What the inquiry gives.
pub open spec fn why_spec(
    relations: Seq<RelationView>,
    requirements: Seq<PackageSpecifierView>,
    name: Seq<char>,
    version: Option<Seq<char>>,
) -> Result<WhyReportView, WhyErrorView> {
    match uses_of(relations, relations.len() as int) {
        Err(ResolveErrorView::Unresolved(req)) => Err(WhyErrorView::Unresolved(req)),
        Err(_) => Err(WhyErrorView::NotUsed(name)),
        Ok(uses) => if starting(relations, name, version).len() == 0 {
            Err(WhyErrorView::NotUsed(name))
        } else {
            why_run(
                relations,
                uses,
                requirements,
                starting(relations, name, version),
                Seq::empty(),
                Seq::empty(),
            )
        },
    }
}

/// Whether `list` holds the package.
fn holds(list: &Vec<(String, String)>, name: &String, version: &String) -> (r: bool)
    ensures
        r == list.deep_view().contains((name@, version@)),
{
    let mut i: usize = 0;
    while i < list.len()
        invariant
            0 <= i <= list.len(),
            forall|j: int| 0 <= j < i ==> list.deep_view()[j] != (name@, version@),
        decreases list.len() - i,
    {
        if list[i].0 == *name && list[i].1 == *version {
            assert(list.deep_view()[i as int] == (name@, version@));
            return true;
        }
        i = i + 1;
    }
    false
}

/// Whether some use is of the package.
fn is_used(uses: &Vec<Use>, name: &String, version: &String) -> (r: bool)
    ensures
        r == has_use(uses.deep_view(), (name@, version@)),
{
    let mut i: usize = 0;
    while i < uses.len()
        invariant
            0 <= i <= uses.len(),
            forall|j: int|
                0 <= j < i ==> !((#[trigger] uses.deep_view()[j]).name == name@
                    && uses.deep_view()[j].version == version@),
        decreases uses.len() - i,
    {
        assert(uses.deep_view()[i as int] == uses@[i as int]@);
        if uses[i].name == *name && uses[i].version == *version {
            return true;
        }
        i = i + 1;
    }
    false
}

/// The packages that use the package, each once.
fn find_users(graph: &Graph, uses: &Vec<Use>, name: &String, version: &String) -> (r: Vec<
    (String, String),
>)
    ensures
        r.deep_view() == users_of(
            graph@,
            uses.deep_view(),
            (name@, version@),
            uses.len() as int,
        ),
{
    let mut out: Vec<(String, String)> = Vec::new();
    let mut i: usize = 0;
    assert(out.deep_view() =~= Seq::<PairView>::empty());
    while i < uses.len()
        invariant
            0 <= i <= uses.len(),
            out.deep_view() == users_of(graph@, uses.deep_view(), (name@, version@), i as int),
        decreases uses.len() - i,
    {
        assert(uses.deep_view()[i as int] == uses@[i as int]@);
        if uses[i].name == *name && uses[i].version == *version {
            match graph.resolve_req(&uses[i].by) {
                Ok(dep) => {
                    if !holds(&out, &dep.name, &dep.version) {
                        let ghost before = out.deep_view();
                        out.push((dep.name.clone(), dep.version.clone()));
                        assert(out.deep_view() =~= before.push((dep@.name, dep@.version)));
                    }
                },
                Err(_) => {},
            }
        }
        i = i + 1;
    }
    out
}

/// Whether the manifest asks for the package.
fn in_manifest(requirements: &Vec<PackageSpecifier>, name: &String, version: &String) -> (r: bool)
    ensures
        r == manifest_uses(requirements.deep_view(), (name@, version@)),
{
    let mut i: usize = 0;
    while i < requirements.len()
        invariant
            0 <= i <= requirements.len(),
            forall|j: int|
                0 <= j < i ==> !((#[trigger] requirements.deep_view()[j]).name == name@
                    && in_range(requirements.deep_view()[j].version, version@)),
        decreases requirements.len() - i,
    {
        assert(requirements.deep_view()[i as int] == requirements@[i as int]@);
        if requirements[i].name == *name && requirements[i].satisfies(version) {
            return true;
        }
        i = i + 1;
    }
    false
}

/// Where the inquiry starts.
fn start_queue(graph: &Graph, name: &String, version: &Option<String>) -> (r: Vec<(String, String)>)
    ensures
        r.deep_view() == starting(graph@, name@, version.deep_view()),
{
    let mut out: Vec<(String, String)> = Vec::new();
    match version {
        Some(v) => {
            out.push((name.clone(), v.clone()));
            assert(out.deep_view() =~= seq![(name@, v@)]);
        },
        None => {
            let mut i: usize = 0;
            assert(out.deep_view() =~= Seq::<PairView>::empty());
            while i < graph.relations.len()
                invariant
                    0 <= i <= graph.relations.len(),
                    out.deep_view() == named(graph@, name@, i as int),
                decreases graph.relations.len() - i,
            {
                assert(graph@[i as int] == graph.relations@[i as int].deep_view());
                if graph.relations[i].0.name == *name {
                    let ghost before = out.deep_view();
                    out.push((name.clone(), graph.relations[i].1.version.clone()));
                    assert(out.deep_view() =~= before.push((name@, graph@[i as int].1.version)));
                }
                i = i + 1;
            }
        },
    }
    out
}

/// Whether the exec result stands for the spec result.
pub open spec fn why_matches(
    r: Result<WhyReport, WhyError>,
    expected: Result<WhyReportView, WhyErrorView>,
) -> bool {
    match (r, expected) {
        (Ok(report), Ok(view)) => report.lines.deep_view() == view.lines && report.analyzed
            == view.analyzed,
        (Err(e), Err(view)) => e@ == view,
        _ => false,
    }
}

/// Finds out why the package `name` is in the graph: which packages
/// require it, and which require those, back to the requirements of the
/// manifest `package`. Without a version the inquiry starts at every version
/// to which a requirement for the name is bound; when there is none, or when
/// a package turns up that nothing requires, the package is not used.
pub fn cmd_why(graph: &Graph, package: &PackageMetadata, name: &String, version: &Option<String>)
    -> (r: Result<WhyReport, WhyError>)
    ensures
        why_matches(r, why_spec(graph@, package@.all(), name@, version.deep_view())),
{
    let uses = match build_map(graph) {
        Ok(uses) => uses,
        Err(e) => {
            return match e {
                ResolveError::Unresolved(req) => Err(WhyError::Unresolved(req)),
                _ => Err(WhyError::NotUsed(name.clone())),
            };
        },
    };
    let requirements = package.iter_all();
    let mut queue = start_queue(graph, name, version);
    if queue.len() == 0 {
        return Err(WhyError::NotUsed(name.clone()));
    }
    let ghost relations = graph@;
    let ghost used = uses.deep_view();
    let ghost wanted = requirements.deep_view();
    let ghost start = queue.deep_view();
    let mut seen: Vec<(String, String)> = Vec::new();
    let mut lines: Vec<WhyLine> = Vec::new();
    let mut next: usize = 0;
    assert(seen.deep_view() =~= Seq::<PairView>::empty());
    assert(lines.deep_view() =~= Seq::<WhyLineView>::empty());
    assert(queue.deep_view().skip(0) =~= queue.deep_view());
    while next < queue.len()
        invariant
            0 <= next <= queue.len(),
            relations == graph@,
            used == uses.deep_view(),
            wanted == requirements.deep_view(),
            wanted == package@.all(),
            uses_of(relations, relations.len() as int) == Ok::<Seq<UseView>, ResolveErrorView>(
                used,
            ),
            start == starting(relations, name@, version.deep_view()),
            start.len() > 0,
            seen.len() <= next,
            why_run(relations, used, wanted, start, Seq::empty(), Seq::empty()) == why_run(
                relations,
                used,
                wanted,
                queue.deep_view().skip(next as int),
                seen.deep_view(),
                lines.deep_view(),
            ),
        decreases
                unseen(relations, queue.deep_view().skip(next as int), seen.deep_view()).len(),
                queue.len() - next,
    {
        let ghost pending = queue.deep_view().skip(next as int);
        let ghost looked = seen.deep_view();
        let ghost found = lines.deep_view();
        let asked = queue[next].0.clone();
        let at = queue[next].1.clone();
        let ghost p = (asked@, at@);
        assert(pending[0] == p);
        assert(queue.deep_view().skip(next as int + 1) =~= pending.skip(1));
        if holds(&seen, &asked, &at) {
            proof {
                lemma_unseen_skip(relations, pending, looked);
            }
            next = next + 1;
        } else if is_used(&uses, &asked, &at) {
            let users = find_users(graph, &uses, &asked, &at);
            proof {
                assert forall|x: PairView| users.deep_view().contains(x) implies pairs_of(
                    relations,
                ).contains(x) by {
                    lemma_users_member(relations, used, p, used.len() as int, x);
                }
                lemma_unseen_visit(relations, pending, looked, users.deep_view());
            }
            seen.push((asked.clone(), at.clone()));
            assert(seen.deep_view() =~= looked.push(p));
            let ghost queued = queue.deep_view();
            let mut k: usize = 0;
            assert(queue.deep_view() =~= queued + users.deep_view().take(0));
            while k < users.len()
                invariant
                    0 <= k <= users.len(),
                    next < queue.len(),
                    queue.deep_view() == queued + users.deep_view().take(k as int),
                decreases users.len() - k,
            {
                let ghost before = queue.deep_view();
                queue.push((users[k].0.clone(), users[k].1.clone()));
                assert(queue.deep_view() =~= before.push(users.deep_view()[k as int]));
                assert(queue.deep_view() =~= queued + users.deep_view().take(k as int + 1));
                k = k + 1;
            }
            assert(users.deep_view().take(k as int) =~= users.deep_view());
            assert(queue.deep_view().skip(next as int + 1) =~= pending.skip(1)
                + users.deep_view());
            if users.len() > 0 {
                lines.push(WhyLine::UsedBy { name: asked, version: at, users });
                assert(lines.deep_view() =~= found.push(
                    WhyLineView::UsedBy {
                        name: p.0,
                        version: p.1,
                        users: users_of(relations, used, p, used.len() as int),
                    },
                ));
            }
            next = next + 1;
        } else if in_manifest(&requirements, &asked, &at) {
            proof {
                lemma_unseen_visit(relations, pending, looked, Seq::empty());
                assert(pending.skip(1) + Seq::<PairView>::empty() =~= pending.skip(1));
            }
            seen.push((asked.clone(), at.clone()));
            assert(seen.deep_view() =~= looked.push(p));
            lines.push(WhyLine::UsedByManifest { name: asked, version: at });
            assert(lines.deep_view() =~= found.push(
                WhyLineView::UsedByManifest { name: p.0, version: p.1 },
            ));
            next = next + 1;
        } else {
            return Err(WhyError::VersionNotUsed(asked, at));
        }
    }
    Ok(WhyReport { lines, analyzed: seen.len() })
}

} // verus!
