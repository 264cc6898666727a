//! The single-flight cache of downloads: however many callers ask for one
//! package identity, one of them is told to fetch it and the others share
//! what that fetch gave.

use vstd::prelude::*;
use crate::npm::Dependency;
use crate::text::str_eq;

verus! {

/// How far the download of one identity has come.
#[derive(Debug, Clone, PartialEq, Eq)]
pub enum Flight {
    /// A caller was told to fetch it and has not reported back.
    Pending,
    /// The fetch ended well: the store entry is complete.
    Done,
    /// The fetch failed, with the error that every caller shares.
    Failed(String),
}

/// The model of [`Flight`]: texts as sequences of characters.
pub enum FlightView {
    Pending,
    Done,
    Failed(Seq<char>),
}

impl View for Flight {
    type V = FlightView;

    open spec fn view(&self) -> FlightView {
        match self {
            Flight::Pending => FlightView::Pending,
            Flight::Done => FlightView::Done,
            Flight::Failed(e) => FlightView::Failed(e@),
        }
    }
}

impl DeepView for Flight {
    type V = FlightView;

    open spec fn deep_view(&self) -> FlightView {
        self@
    }
}

/// What a caller that asks for an identity has to do.
#[derive(Debug, Clone, PartialEq, Eq)]
pub enum CacheAction {
    /// Nobody asked before: fetch it, then report with `complete`.
    Start,
    /// Somebody is fetching it: wait for that fetch.
    Wait,
    /// It was fetched before, with success.
    Done,
    /// It was fetched before and failed with this error.
    Failed(String),
}

/// The model of [`CacheAction`]: texts as sequences of characters.
pub enum CacheActionView {
    Start,
    Wait,
    Done,
    Failed(Seq<char>),
}

impl View for CacheAction {
    type V = CacheActionView;

    open spec fn view(&self) -> CacheActionView {
        match self {
            CacheAction::Start => CacheActionView::Start,
            CacheAction::Wait => CacheActionView::Wait,
            CacheAction::Done => CacheActionView::Done,
            CacheAction::Failed(e) => CacheActionView::Failed(e@),
        }
    }
}

/// The state in which a fetch that ended with `outcome` leaves its identity.
pub open spec fn outcome_view(outcome: Result<(), String>) -> FlightView {
    match outcome {
        Ok(()) => FlightView::Done,
        Err(e) => FlightView::Failed(e@),
    }
}

/// The state of the first entry for `id`.
pub open spec fn lookup(entries: Seq<(Seq<char>, FlightView)>, id: Seq<char>) -> Option<
    FlightView,
>
    decreases entries.len(),
{
    if entries.len() == 0 {
        None
    } else if entries[0].0 == id {
        Some(entries[0].1)
    } else {
        lookup(entries.skip(1), id)
    }
}

/// What a request answers when the identity is in state `known`.
pub open spec fn answer(known: Option<FlightView>) -> CacheActionView {
    match known {
        None => CacheActionView::Start,
        Some(FlightView::Pending) => CacheActionView::Wait,
        Some(FlightView::Done) => CacheActionView::Done,
        Some(FlightView::Failed(error)) => CacheActionView::Failed(error),
    }
}

/// The state of an identity after a request for it.
pub open spec fn after_request(known: Option<FlightView>) -> FlightView {
    match known {
        None => FlightView::Pending,
        Some(flight) => flight,
    }
}

/// The state of an identity after a fetch of it reported `outcome`: the
/// first report stands.
pub open spec fn after_complete(known: Option<FlightView>, outcome: FlightView) -> FlightView {
    match known {
        Some(FlightView::Done) => FlightView::Done,
        Some(FlightView::Failed(first)) => FlightView::Failed(first),
        _ => outcome,
    }
}

/// How many of the requests `ids`, made in this order with no fetch
/// reporting back in between, are answered with `Start`.
pub open spec fn starts(known: Map<Seq<char>, FlightView>, ids: Seq<Seq<char>>) -> nat
    decreases ids.len(),
{
    if ids.len() == 0 {
        0
    } else {
        let first = ids[0];
        let here: nat = if known.dom().contains(first) {
            0
        } else {
            1
        };
        let next = known.insert(
            first,
            after_request(
                if known.dom().contains(first) {
                    Some(known[first])
                } else {
                    None
                },
            ),
        );
        here + starts(next, ids.skip(1))
    }
}

/// The downloads of one run, by package identity.
#[derive(Debug, Clone, PartialEq, Eq)]
pub struct Cache {
    entries: Vec<(String, Flight)>,
}

impl View for Cache {
    type V = Map<Seq<char>, FlightView>;

    closed spec fn view(&self) -> Map<Seq<char>, FlightView> {
        Map::new(
            |id: Seq<char>| lookup(self.entries.deep_view(), id).is_some(),
            |id: Seq<char>| lookup(self.entries.deep_view(), id).unwrap(),
        )
    }
}

/// What the map knows of `id`.
pub open spec fn known(map: Map<Seq<char>, FlightView>, id: Seq<char>) -> Option<FlightView> {
    if map.dom().contains(id) {
        Some(map[id])
    } else {
        None
    }
}

/// Changing the state of the entry at `at` changes what is known of its
/// identity and of no other, provided no earlier entry has that identity.
proof fn lemma_lookup_update(
    entries: Seq<(Seq<char>, FlightView)>,
    at: int,
    flight: FlightView,
    id: Seq<char>,
)
    requires
        0 <= at < entries.len(),
        forall|j: int| 0 <= j < at ==> entries[j].0 != entries[at].0,
    ensures
        lookup(entries.update(at, (entries[at].0, flight)), id) == (if id == entries[at].0 {
            Some(flight)
        } else {
            lookup(entries, id)
        }),
    decreases entries.len(),
{
    let changed = entries.update(at, (entries[at].0, flight));
    if at == 0 {
        assert(changed.skip(1) =~= entries.skip(1));
    } else {
        assert(changed[0] == entries[0]);
        assert(changed.skip(1) =~= entries.skip(1).update(at - 1, (entries[at].0, flight)));
        assert(entries.skip(1)[at - 1] == entries[at]);
        let rest = entries.skip(1);
        assert forall|j: int| 0 <= j < at - 1 implies (#[trigger] rest[j]).0 != rest[at - 1].0 by {
            assert(rest[j] == entries[j + 1]);
        }
        lemma_lookup_update(entries.skip(1), at - 1, flight, id);
    }
}

/// Adding an entry for an identity that has none makes it known and changes
/// nothing else.
proof fn lemma_lookup_push(
    entries: Seq<(Seq<char>, FlightView)>,
    key: Seq<char>,
    flight: FlightView,
    id: Seq<char>,
)
    requires
        lookup(entries, key).is_none(),
    ensures
        lookup(entries.push((key, flight)), id) == (if id == key {
            Some(flight)
        } else {
            lookup(entries, id)
        }),
    decreases entries.len(),
{
    let grown = entries.push((key, flight));
    if entries.len() == 0 {
        assert(grown.skip(1) =~= Seq::<(Seq<char>, FlightView)>::empty());
        assert(lookup(grown.skip(1), id).is_none());
        assert(lookup(entries, id).is_none());
    } else {
        assert(grown[0] == entries[0]);
        assert(grown.skip(1) =~= entries.skip(1).push((key, flight)));
        lemma_lookup_push(entries.skip(1), key, flight, id);
    }
}

impl Cache {
    /// A cache that knows of no download.
    pub fn new() -> (r: Self)
        ensures
            r@ == Map::<Seq<char>, FlightView>::empty(),
    {
        let r = Cache { entries: Vec::new() };
        assert(r.entries.deep_view() =~= Seq::<(Seq<char>, FlightView)>::empty());
        assert(r@ =~= Map::<Seq<char>, FlightView>::empty());
        r
    }

    /// The position of the first entry for `id`.
    fn position(&self, id: &str) -> (r: Option<usize>)
        ensures
            match r {
                Some(at) => at < self.entries.len() && self.entries@[at as int].0@ == id@
                    && lookup(self.entries.deep_view(), id@) == Some(self.entries@[at as int].1@)
                    && forall|j: int| 0 <= j < at ==> self.entries@[j].0@ != id@,
                None => lookup(self.entries.deep_view(), id@).is_none(),
            },
    {
        let ghost all = self.entries.deep_view();
        let mut i: usize = 0;
        assert(all.skip(0) =~= all);
        while i < self.entries.len()
            invariant
                0 <= i <= self.entries.len(),
                all == self.entries.deep_view(),
                lookup(all, id@) == lookup(all.skip(i as int), id@),
                forall|j: int| 0 <= j < i ==> self.entries@[j].0@ != id@,
            decreases self.entries.len() - i,
        {
            assert(all.skip(i as int)[0] == self.entries@[i as int].deep_view());
            assert(all.skip(i as int).skip(1) =~= all.skip(i as int + 1));
            if str_eq(self.entries[i].0.as_str(), id) {
                return Some(i);
            }
            i = i + 1;
        }
        None
    }

    /// What the cache knows of `id`.
    pub fn get(&self, id: &str) -> (r: Option<Flight>)
        ensures
            r.deep_view() == known(self@, id@),
    {
        match self.position(id) {
            Some(at) => Some(self.entries[at].1.clone_flight()),
            None => None,
        }
    }

    /// Registers a caller that wants `id`. The first caller is told to
    /// start the fetch; every later one is told to wait for it or is handed
    /// its outcome. Nothing else in the cache changes.
    pub fn request(&mut self, id: &str) -> (r: CacheAction)
        ensures
            r@ == answer(known(old(self)@, id@)),
            final(self)@ == old(self)@.insert(id@, after_request(known(old(self)@, id@))),
    {
        let ghost before = self.entries.deep_view();
        match self.position(id) {
            Some(at) => {
                assert(self@ =~= self@.insert(id@, after_request(known(self@, id@))));
                match &self.entries[at].1 {
                    Flight::Pending => CacheAction::Wait,
                    Flight::Done => CacheAction::Done,
                    Flight::Failed(e) => CacheAction::Failed(e.clone()),
                }
            },
            None => {
                self.entries.push((String::from_str(id), Flight::Pending));
                proof {
                    assert(self.entries.deep_view() =~= before.push((id@, FlightView::Pending)));
                    assert forall|k: Seq<char>|
                        lookup(self.entries.deep_view(), k) == (if k == id@ {
                            Some(FlightView::Pending)
                        } else {
                            lookup(before, k)
                        }) by {
                        lemma_lookup_push(before, id@, FlightView::Pending, k);
                    }
                    assert(self@ =~= old(self)@.insert(id@, FlightView::Pending));
                }
                CacheAction::Start
            },
        }
    }

    /// Records how the fetch of `id` ended. The first report for an
    /// identity stands; a later one changes nothing.
    pub fn complete(&mut self, id: &str, outcome: Result<(), String>)
        ensures
            final(self)@ == old(self)@.insert(
                id@,
                after_complete(known(old(self)@, id@), outcome_view(outcome)),
            ),
    {
        let ghost before = self.entries.deep_view();
        let ghost flight = outcome_view(outcome);
        let ended = match outcome {
            Ok(()) => Flight::Done,
            Err(e) => Flight::Failed(e),
        };
        match self.position(id) {
            Some(at) => {
                let pending = match &self.entries[at].1 {
                    Flight::Pending => true,
                    _ => false,
                };
                if pending {
                    self.entries[at].1 = ended;
                    proof {
                        assert(self.entries.deep_view() =~= before.update(
                            at as int,
                            (before[at as int].0, flight),
                        ));
                        assert forall|j: int| 0 <= j < at implies before[j].0 != before[at as int].0 by {
                            assert(before[j] == old(self).entries@[j].deep_view());
                        }
                        assert forall|k: Seq<char>|
                            lookup(self.entries.deep_view(), k) == (if k == id@ {
                                Some(flight)
                            } else {
                                lookup(before, k)
                            }) by {
                            lemma_lookup_update(before, at as int, flight, k);
                        }
                        assert(self@ =~= old(self)@.insert(id@, flight));
                    }
                } else {
                    assert(self@ =~= old(self)@.insert(
                        id@,
                        after_complete(known(old(self)@, id@), outcome_view(outcome)),
                    ));
                }
            },
            None => {
                self.entries.push((String::from_str(id), ended));
                proof {
                    assert(self.entries.deep_view() =~= before.push((id@, flight)));
                    assert forall|k: Seq<char>|
                        lookup(self.entries.deep_view(), k) == (if k == id@ {
                            Some(flight)
                        } else {
                            lookup(before, k)
                        }) by {
                        lemma_lookup_push(before, id@, flight, k);
                    }
                    assert(self@ =~= old(self)@.insert(id@, flight));
                }
            },
        }
    }
}

impl Flight {
    /// A fresh value with the same model.
    pub fn clone_flight(&self) -> (r: Flight)
        ensures
            r@ == self@,
    {
        match self {
            Flight::Pending => Flight::Pending,
            Flight::Done => Flight::Done,
            Flight::Failed(e) => Flight::Failed(e.clone()),
        }
    }
}

/// Asks the cache for the download of `dep`, under its identity
/// `name@version`: the caller that is answered `Start` performs the one fetch
/// that all callers for this identity share.
pub fn download_package_shared(cache: &mut Cache, dep: &Dependency) -> (r: CacheAction)
    ensures
        r@ == answer(known(old(cache)@, dep@.id())),
        final(cache)@ == old(cache)@.insert(
            dep@.id(),
            after_request(known(old(cache)@, dep@.id())),
        ),
{
    let id = dep.id();
    cache.request(id.as_str())
}

/// Single flight: of any number of requests for one identity, made before
/// its fetch reports back, exactly one is answered with `Start` if the
/// identity was unknown, and none if it was known.
pub proof fn lemma_single_flight(cache: Map<Seq<char>, FlightView>, id: Seq<char>, ids: Seq<Seq<char>>)
    requires
        ids.len() >= 1,
        forall|i: int| 0 <= i < ids.len() ==> ids[i] == id,
    ensures
        starts(cache, ids) == (if cache.dom().contains(id) {
            0nat
        } else {
            1nat
        }),
    decreases ids.len(),
{
    let next = cache.insert(id, after_request(known(cache, id)));
    assert(ids[0] == id);
    if ids.len() == 1 {
        assert(ids.skip(1).len() == 0);
        assert(starts(next, ids.skip(1)) == 0);
    } else {
        assert forall|i: int| 0 <= i < ids.skip(1).len() implies ids.skip(1)[i] == id by {
            assert(ids.skip(1)[i] == ids[i + 1]);
        }
        lemma_single_flight(next, id, ids.skip(1));
        assert(next.dom().contains(id));
    }
}

} // verus!
