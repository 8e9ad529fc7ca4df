//! The intent dispatcher: owns all intents of one session, routes session
//! events to the intents they concern, and tracks per-intent completion.
//!
//! The dispatcher is a state machine. The asynchronous shell around the
//! library drives it: it feeds inputs (submitted intents, session events,
//! per-intent updates), performs the channel sends the dispatcher asks for,
//! and reports delivery failures and closed update sources back.

use vstd::prelude::*;

use tokio::sync::mpsc::{Receiver, Sender};

use crate::grouping::{AoiV, Area, AreaOfInterest, AreaV};
use crate::intents::{
    event_views, EventKind, EventKindV, Intent, IntentChannels, IntentId, IntentUpdate,
};
use crate::interest::{
    aoi_set, bucket_intersects, bucket_remove_included, flat_view, flatten_interests,
    get_or_empty, lemma_ni_at_unique, lemma_ni_view_remove, lemma_ni_view_update, merge_flat,
    merge_into, ni_find, ni_has, ni_view, ni_wf, shrink_bucket, InterestMap, Interests,
    NamespaceInterests,
};
use crate::keys::NamespaceId;
use crate::session::{ResolveError, SessionMode};

verus! {

/// Does any remaining area of interest under this namespace intersect the
/// given area?
pub open spec fn area_match(m: Map<NamespaceId, Set<AoiV>>, ns: NamespaceId, a: AreaV) -> bool {
    m.dom().contains(ns) && exists|x: AoiV| m[ns].contains(x) && x.area.intersects(a)
}

/// How a `Reconciled` event over `a` shrinks remaining interests: when the
/// event matches, every area of interest entirely contained in `a` is
/// removed, and the namespace is dropped once its bucket empties. A partial
/// overlap does not shrink an interest.
pub open spec fn shrink_interests(
    m: Map<NamespaceId, Set<AoiV>>,
    ns: NamespaceId,
    a: AreaV,
) -> Map<NamespaceId, Set<AoiV>> {
    if area_match(m, ns, a) {
        let b = shrink_bucket(m[ns], a);
        if b.is_empty() {
            m.remove(ns)
        } else {
            m.insert(ns, b)
        }
    } else {
        m
    }
}

/// Whether an event concerns an intent with these remaining interests.
pub open spec fn event_matches(m: Map<NamespaceId, Set<AoiV>>, e: EventKindV) -> bool {
    match e {
        EventKindV::CapabilityIntersection { namespace, .. } => m.dom().contains(namespace),
        EventKindV::InterestIntersection { namespace, area } => area_match(m, namespace, area.area),
        EventKindV::Reconciled { namespace, area } => area_match(m, namespace, area.area),
        EventKindV::Abort { .. } => true,
        EventKindV::ReconciledAll => false,
    }
}

/// The ghost value of an [`IntentInfo`].
pub ghost struct IntentInfoV {
    /// Remaining unreconciled interests, keyed by namespace.
    pub interests: Map<NamespaceId, Set<AoiV>>,
    /// The liveness mode of the intent.
    pub mode: SessionMode,
    /// Whether an event sink is attached.
    pub has_sink: bool,
}

impl IntentInfoV {
    /// An intent is complete when no interests remain and the mode does not
    /// keep it open for live updates.
    pub open spec fn is_complete(self) -> bool {
        self.interests.dom() == Set::<NamespaceId>::empty() && self.mode
            != SessionMode::Continuous
    }

    /// How one event changes the bookkeeping: only a matching `Reconciled`
    /// event shrinks the remaining interests.
    pub open spec fn step(self, e: EventKindV) -> IntentInfoV {
        match e {
            EventKindV::Reconciled { namespace, area } => IntentInfoV {
                interests: shrink_interests(self.interests, namespace, area.area),
                ..self
            },
            _ => self,
        }
    }

    /// The events an intent in this state is told about: the event itself
    /// when it matches, followed by a synthesised `ReconciledAll` when a
    /// `Reconciled` event empties the remaining interests.
    pub open spec fn deliveries(self, e: EventKindV) -> Seq<EventKindV> {
        if event_matches(self.interests, e) {
            if e is Reconciled && self.step(e).interests.dom() == Set::<NamespaceId>::empty() {
                seq![e, EventKindV::ReconciledAll]
            } else {
                seq![e]
            }
        } else {
            Seq::empty()
        }
    }
}

/// Dispatcher-side bookkeeping for one accepted intent: the remaining
/// interests, the mode, and the sink matching events are delivered to.
#[derive(Debug)]
pub struct IntentInfo {
    /// Remaining unreconciled interests, shrunk by `Reconciled` events.
    pub interests: NamespaceInterests,
    /// The liveness mode of the intent.
    pub mode: SessionMode,
    /// The event sink of the intent, absent for a detached intent.
    pub event_tx: Option<Sender<EventKind>>,
}

impl View for IntentInfo {
    type V = IntentInfoV;

    open spec fn view(&self) -> IntentInfoV {
        IntentInfoV {
            interests: ni_view(self.interests@),
            mode: self.mode,
            has_sink: self.event_tx is Some,
        }
    }
}

impl IntentInfo {
    /// Internal invariant: one bucket per namespace.
    pub open spec fn wf(self) -> bool {
        ni_wf(self.interests@)
    }

    /// Unions freshly resolved interests into the remaining set, keeping
    /// the progress already made.
    pub fn merge_interests(&mut self, interests: &InterestMap)
        requires
            old(self).wf(),
        ensures
            final(self).wf(),
            final(self)@.interests == merge_flat(old(self)@.interests, interests@),
            final(self)@.mode == old(self)@.mode,
            final(self).event_tx == old(self).event_tx,
            final(self).mode == old(self).mode,
    {
        merge_into(&mut self.interests, interests);
    }

    /// Is the intent complete?
    pub fn is_complete(&self) -> (r: bool)
        ensures
            r == self@.is_complete(),
    {
        let empty = self.interests.is_empty();
        proof {
            if self.interests@.len() == 0 {
                assert(ni_view(self.interests@).dom() =~= Set::<NamespaceId>::empty());
            } else {
                assert(ni_has(self.interests@, self.interests@[0].0));
                assert(ni_view(self.interests@).dom().contains(self.interests@[0].0));
            }
        }
        empty && !self.mode.is_live()
    }

    /// Has the consumer side of the event sink gone away? `false` for a
    /// detached intent, which has no sink to lose.
    pub fn events_closed(&self) -> (r: bool)
        ensures
            self.event_tx is None ==> r == false,
    {
        match &self.event_tx {
            None => false,
            Some(event_tx) => event_tx.is_closed(),
        }
    }

    /// Does any remaining interest under the namespace intersect the area?
    pub fn matches_area(&self, namespace: &NamespaceId, area: &Area) -> (r: bool)
        requires
            self.wf(),
        ensures
            r == area_match(self@.interests, *namespace, area@),
    {
        match ni_find(&self.interests, *namespace) {
            None => {
                proof {
                    assert(!ni_view(self.interests@).dom().contains(*namespace));
                }
                false
            },
            Some(i) => {
                proof {
                    lemma_ni_at_unique(self.interests@, *namespace, i as int);
                    assert(ni_view(self.interests@).dom().contains(*namespace));
                    assert(ni_view(self.interests@)[*namespace] == aoi_set(
                        self.interests@[i as int].1@,
                    ));
                }
                bucket_intersects(&self.interests[i].1, area)
            },
        }
    }

    /// Marks an area reconciled: when some remaining interest under the
    /// namespace intersects it, removes every interest it entirely
    /// contains, dropping the namespace once empty. Returns whether the
    /// area matched.
    pub fn complete_area_if_matches(&mut self, namespace: &NamespaceId, area: &Area) -> (r: bool)
        requires
            old(self).wf(),
        ensures
            final(self).wf(),
            r == area_match(old(self)@.interests, *namespace, area@),
            final(self)@.interests == shrink_interests(old(self)@.interests, *namespace, area@),
            final(self)@.mode == old(self)@.mode,
            final(self).event_tx == old(self).event_tx,
            final(self).mode == old(self).mode,
    {
        let found = ni_find(&self.interests, *namespace);
        match found {
            None => {
                proof {
                    assert(!ni_view(self.interests@).dom().contains(*namespace));
                }
                false
            },
            Some(i) => {
                proof {
                    lemma_ni_at_unique(self.interests@, *namespace, i as int);
                }
                let matches = bucket_intersects(&self.interests[i].1, area);
                if matches {
                    let ghost orig = self.interests@;
                    let pair = self.interests.remove(i);
                    let filtered = bucket_remove_included(&pair.1, area);
                    proof {
                        assert(aoi_set(filtered@) == shrink_bucket(
                            ni_view(orig)[*namespace],
                            area@,
                        ));
                    }
                    if filtered.is_empty() {
                        proof {
                            assert(aoi_set(filtered@) =~= Set::<AoiV>::empty());
                            lemma_ni_view_remove(orig, i as int);
                        }
                    } else {
                        self.interests.insert(i, (*namespace, filtered));
                        proof {
                            assert(self.interests@ =~= orig.update(
                                i as int,
                                (orig[i as int].0, self.interests@[i as int].1),
                            ));
                            lemma_ni_view_update(orig, i as int, self.interests@[i as int].1);
                            let b = aoi_set(self.interests@[i as int].1@);
                            assert(b.contains(self.interests@[i as int].1@[0]@)) by {
                                assert(crate::interest::aoi_views(
                                    self.interests@[i as int].1@,
                                )[0] == self.interests@[i as int].1@[0]@);
                            }
                            assert(!b.is_empty());
                        }
                    }
                    true
                } else {
                    false
                }
            },
        }
    }

    /// Routes one session event through the bookkeeping: shrinks interests
    /// on a matching `Reconciled` event, and returns the events to deliver
    /// to this intent together with whether it is now complete.
    pub fn handle_event(&mut self, event: &EventKind) -> (r: (Vec<EventKind>, bool))
        requires
            old(self).wf(),
        ensures
            final(self).wf(),
            final(self)@ == old(self)@.step(event@),
            event_views(r.0@) == old(self)@.deliveries(event@),
            r.1 == final(self)@.is_complete(),
            final(self).event_tx == old(self).event_tx,
    {
        let matches = match event {
            EventKind::CapabilityIntersection { namespace, .. } => {
                let f = ni_find(&self.interests, *namespace);
                proof {
                    if f is Some {
                        lemma_ni_at_unique(self.interests@, *namespace, f->Some_0 as int);
                        assert(ni_view(self.interests@).dom().contains(*namespace));
                    } else {
                        assert(!ni_view(self.interests@).dom().contains(*namespace));
                    }
                }
                f.is_some()
            },
            EventKind::InterestIntersection { namespace, area } => {
                self.matches_area(namespace, &area.area)
            },
            EventKind::Reconciled { namespace, area } => {
                self.complete_area_if_matches(namespace, &area.area)
            },
            EventKind::Abort { .. } => true,
            EventKind::ReconciledAll => false,
        };
        let is_reconciled = matches!(event, EventKind::Reconciled { .. });
        let mut out: Vec<EventKind> = Vec::new();
        if matches {
            out.push(event.clone());
            if is_reconciled {
                let empty = self.interests.is_empty();
                proof {
                    if self.interests@.len() == 0 {
                        assert(ni_view(self.interests@).dom() =~= Set::<NamespaceId>::empty());
                    } else {
                        assert(ni_has(self.interests@, self.interests@[0].0));
                        assert(ni_view(self.interests@).dom().contains(self.interests@[0].0));
                        assert(self@.interests.dom() != Set::<NamespaceId>::empty());
                    }
                }
                if empty {
                    out.push(EventKind::ReconciledAll);
                    proof {
                        assert(event_views(out@) =~= seq![
                            event@,
                            EventKindV::ReconciledAll,
                        ]);
                    }
                } else {
                    proof {
                        assert(event_views(out@) =~= seq![event@]);
                    }
                }
            } else {
                proof {
                    assert(event_views(out@) =~= seq![event@]);
                }
            }
        } else {
            proof {
                assert(event_views(out@) =~= Seq::<EventKindV>::empty());
            }
        }
        let done = self.is_complete();
        proof {
            assert(matches == event_matches(old(self)@.interests, event@));
            assert(event_views(out@) =~= old(self)@.deliveries(event@));
        }
        (out, done)
    }

    /// Replays one cached reconciled area to a newly submitted intent,
    /// through the same path a live `Reconciled` event takes.
    pub fn on_reconciled(&mut self, namespace: NamespaceId, area: &AreaOfInterest) -> (r: Vec<
        EventKind,
    >)
        requires
            old(self).wf(),
        ensures
            final(self).wf(),
            final(self)@ == old(self)@.step(
                EventKindV::Reconciled { namespace, area: area@ },
            ),
            event_views(r@) == old(self)@.deliveries(
                EventKindV::Reconciled { namespace, area: area@ },
            ),
            final(self).event_tx == old(self).event_tx,
    {
        let ghost e = EventKindV::Reconciled { namespace, area: area@ };
        let mut out: Vec<EventKind> = Vec::new();
        if self.complete_area_if_matches(&namespace, &area.area) {
            out.push(EventKind::Reconciled { namespace, area: area.clone() });
            let empty = self.interests.is_empty();
            proof {
                if self.interests@.len() == 0 {
                    assert(ni_view(self.interests@).dom() =~= Set::<NamespaceId>::empty());
                } else {
                    assert(ni_has(self.interests@, self.interests@[0].0));
                    assert(ni_view(self.interests@).dom().contains(self.interests@[0].0));
                    assert(self@.interests.dom() != Set::<NamespaceId>::empty());
                }
            }
            if empty {
                out.push(EventKind::ReconciledAll);
                proof {
                    assert(event_views(out@) =~= seq![e, EventKindV::ReconciledAll]);
                }
            } else {
                proof {
                    assert(event_views(out@) =~= seq![e]);
                }
            }
        } else {
            proof {
                assert(event_views(out@) =~= Seq::<EventKindV>::empty());
            }
        }
        proof {
            assert(event_views(out@) =~= old(self)@.deliveries(e));
        }
        out
    }
}

/// The authorisation collaborator: resolves a capability-qualified interest
/// declaration into concrete granted areas, or fails. Implemented outside
/// this crate, by whatever owns the capability store.
pub trait InterestResolver {
    /// Resolves a declaration into an interest map.
    fn resolve_interests(&self, interests: &Interests) -> Result<InterestMap, ResolveError>;
}

/// The ghost values of a registry of intents.
pub open spec fn registry_views(s: Seq<(IntentId, IntentInfo)>) -> Seq<(IntentId, IntentInfoV)> {
    s.map_values(|p: (IntentId, IntentInfo)| (p.0, p.1@))
}

/// The ghost values of a sequence of addressed deliveries.
pub open spec fn delivery_views(s: Seq<(IntentId, EventKind)>) -> Seq<(IntentId, EventKindV)> {
    s.map_values(|p: (IntentId, EventKind)| (p.0, p.1@))
}

/// Addresses a sequence of events to one intent.
pub open spec fn tag_views(id: IntentId, s: Seq<EventKindV>) -> Seq<(IntentId, EventKindV)> {
    s.map_values(|e: EventKindV| (id, e))
}

/// How one event changes the registry: every intent is stepped
/// independently, and intents that become complete leave the registry.
pub open spec fn emit_registry(rs: Seq<(IntentId, IntentInfoV)>, e: EventKindV) -> Seq<
    (IntentId, IntentInfoV),
>
    decreases rs.len(),
{
    if rs.len() == 0 {
        Seq::empty()
    } else {
        let stepped = (rs[0].0, rs[0].1.step(e));
        let rest = emit_registry(rs.drop_first(), e);
        if stepped.1.is_complete() {
            rest
        } else {
            seq![stepped] + rest
        }
    }
}

/// The deliveries one event causes: for each intent with a sink, in
/// registry order, the events that match it.
pub open spec fn emit_deliveries(rs: Seq<(IntentId, IntentInfoV)>, e: EventKindV) -> Seq<
    (IntentId, EventKindV),
>
    decreases rs.len(),
{
    if rs.len() == 0 {
        Seq::empty()
    } else {
        let here = if rs[0].1.has_sink {
            tag_views(rs[0].0, rs[0].1.deliveries(e))
        } else {
            Seq::empty()
        };
        here + emit_deliveries(rs.drop_first(), e)
    }
}

/// Stepping a registry extended by one intent appends that intent's
/// outcome.
pub proof fn lemma_emit_registry_push(
    rs: Seq<(IntentId, IntentInfoV)>,
    p: (IntentId, IntentInfoV),
    e: EventKindV,
)
    ensures
        emit_registry(rs.push(p), e) == emit_registry(rs, e) + (if p.1.step(e).is_complete() {
            Seq::<(IntentId, IntentInfoV)>::empty()
        } else {
            seq![(p.0, p.1.step(e))]
        }),
    decreases rs.len(),
{
    let tail = if p.1.step(e).is_complete() {
        Seq::<(IntentId, IntentInfoV)>::empty()
    } else {
        seq![(p.0, p.1.step(e))]
    };
    if rs.len() == 0 {
        assert(rs.push(p)[0] == p);
        assert(rs.push(p).drop_first() =~= rs);
        assert(emit_registry(rs.push(p), e) =~= emit_registry(rs, e) + tail);
    } else {
        assert(rs.push(p)[0] == rs[0]);
        assert(rs.push(p).drop_first() =~= rs.drop_first().push(p));
        lemma_emit_registry_push(rs.drop_first(), p, e);
        assert(emit_registry(rs.push(p), e) =~= emit_registry(rs, e) + tail);
    }
}

/// The deliveries of a registry extended by one intent append that
/// intent's deliveries.
pub proof fn lemma_emit_deliveries_push(
    rs: Seq<(IntentId, IntentInfoV)>,
    p: (IntentId, IntentInfoV),
    e: EventKindV,
)
    ensures
        emit_deliveries(rs.push(p), e) == emit_deliveries(rs, e) + (if p.1.has_sink {
            tag_views(p.0, p.1.deliveries(e))
        } else {
            Seq::<(IntentId, EventKindV)>::empty()
        }),
    decreases rs.len(),
{
    let tail = if p.1.has_sink {
        tag_views(p.0, p.1.deliveries(e))
    } else {
        Seq::<(IntentId, EventKindV)>::empty()
    };
    if rs.len() == 0 {
        assert(rs.push(p)[0] == p);
        assert(rs.push(p).drop_first() =~= rs);
        assert(emit_deliveries(rs.push(p), e) =~= emit_deliveries(rs, e) + tail);
    } else {
        assert(rs.push(p)[0] == rs[0]);
        assert(rs.push(p).drop_first() =~= rs.drop_first().push(p));
        lemma_emit_deliveries_push(rs.drop_first(), p, e);
        assert(emit_deliveries(rs.push(p), e) =~= emit_deliveries(rs, e) + tail);
    }
}

/// The sinks of the intents one event completes, in registry order:
/// their final deliveries must still be sent into them before they are
/// dropped.
pub open spec fn emit_retired(s: Seq<(IntentId, IntentInfo)>, e: EventKindV) -> Seq<
    (IntentId, Sender<EventKind>),
>
    decreases s.len(),
{
    if s.len() == 0 {
        Seq::empty()
    } else {
        let rest = emit_retired(s.drop_first(), e);
        if s[0].1@.step(e).is_complete() {
            match s[0].1.event_tx {
                Some(tx) => seq![(s[0].0, tx)] + rest,
                None => rest,
            }
        } else {
            rest
        }
    }
}

/// The retired sinks of a registry extended by one intent append that
/// intent's sink when the event completes it.
pub proof fn lemma_emit_retired_push(
    s: Seq<(IntentId, IntentInfo)>,
    p: (IntentId, IntentInfo),
    e: EventKindV,
)
    ensures
        emit_retired(s.push(p), e) == emit_retired(s, e) + (if p.1@.step(e).is_complete() {
            match p.1.event_tx {
                Some(tx) => seq![(p.0, tx)],
                None => Seq::<(IntentId, Sender<EventKind>)>::empty(),
            }
        } else {
            Seq::<(IntentId, Sender<EventKind>)>::empty()
        }),
    decreases s.len(),
{
    let tail = if p.1@.step(e).is_complete() {
        match p.1.event_tx {
            Some(tx) => seq![(p.0, tx)],
            None => Seq::<(IntentId, Sender<EventKind>)>::empty(),
        }
    } else {
        Seq::<(IntentId, Sender<EventKind>)>::empty()
    };
    if s.len() == 0 {
        assert(s.push(p)[0] == p);
        assert(s.push(p).drop_first() =~= s);
        assert(emit_retired(s.push(p), e) =~= emit_retired(s, e) + tail);
    } else {
        assert(s.push(p)[0] == s[0]);
        assert(s.push(p).drop_first() =~= s.drop_first().push(p));
        lemma_emit_retired_push(s.drop_first(), p, e);
        assert(emit_retired(s.push(p), e) =~= emit_retired(s, e) + tail);
    }
}

/// Every intent the stepped registry keeps was already registered.
pub proof fn lemma_emit_registry_ids(rs: Seq<(IntentId, IntentInfoV)>, e: EventKindV, k: int)
    requires
        0 <= k < emit_registry(rs, e).len(),
    ensures
        exists|j: int|
            0 <= j < rs.len() && rs[j].0 == emit_registry(rs, e)[k].0 && emit_registry(rs, e)[k].1
                == rs[j].1.step(e),
    decreases rs.len(),
{
    let out = emit_registry(rs, e);
    let stepped = (rs[0].0, rs[0].1.step(e));
    let rest = emit_registry(rs.drop_first(), e);
    if stepped.1.is_complete() {
        lemma_emit_registry_ids(rs.drop_first(), e, k);
        let j = choose|j: int|
            0 <= j < rs.drop_first().len() && rs.drop_first()[j].0 == rest[k].0 && rest[k].1
                == rs.drop_first()[j].1.step(e);
        assert(rs[j + 1].0 == out[k].0 && out[k].1 == rs[j + 1].1.step(e));
    } else {
        if k == 0 {
            assert(rs[0].0 == out[0].0 && out[0].1 == rs[0].1.step(e));
        } else {
            lemma_emit_registry_ids(rs.drop_first(), e, k - 1);
            let j = choose|j: int|
                0 <= j < rs.drop_first().len() && rs.drop_first()[j].0 == rest[k - 1].0 && rest[k
                    - 1].1 == rs.drop_first()[j].1.step(e);
            assert(rs[j + 1].0 == out[k].0 && out[k].1 == rs[j + 1].1.step(e));
        }
    }
}

/// Stepping a registry with unique identifiers keeps them unique.
pub proof fn lemma_emit_registry_distinct(
    rs: Seq<(IntentId, IntentInfoV)>,
    e: EventKindV,
    a: int,
    b: int,
)
    requires
        forall|i: int, j: int| 0 <= i < j < rs.len() ==> rs[i].0 != rs[j].0,
        0 <= a < b < emit_registry(rs, e).len(),
    ensures
        emit_registry(rs, e)[a].0 != emit_registry(rs, e)[b].0,
    decreases rs.len(),
{
    let out = emit_registry(rs, e);
    let stepped = (rs[0].0, rs[0].1.step(e));
    let tl = rs.drop_first();
    let rest = emit_registry(tl, e);
    assert forall|i: int, j: int| 0 <= i < j < tl.len() implies tl[i].0 != tl[j].0 by {
        assert(rs[i + 1].0 != rs[j + 1].0);
    }
    if stepped.1.is_complete() {
        lemma_emit_registry_distinct(rs.drop_first(), e, a, b);
    } else {
        if a == 0 {
            lemma_emit_registry_ids(rs.drop_first(), e, b - 1);
            let j = choose|j: int|
                0 <= j < rs.drop_first().len() && rs.drop_first()[j].0 == rest[b - 1].0 && rest[b
                    - 1].1 == rs.drop_first()[j].1.step(e);
            assert(rs[0].0 != rs[j + 1].0);
        } else {
            lemma_emit_registry_distinct(rs.drop_first(), e, a - 1, b - 1);
        }
    }
}

/// How a `Reconciled` event grows the reconciled-areas cache: the area is
/// recorded under its namespace, exactly once, whatever it matched.
pub open spec fn cache_step(c: Map<NamespaceId, Set<AoiV>>, e: EventKindV) -> Map<
    NamespaceId,
    Set<AoiV>,
> {
    match e {
        EventKindV::Reconciled { namespace, area } => c.insert(
            namespace,
            get_or_empty(c, namespace).insert(area),
        ),
        _ => c,
    }
}

/// What the dispatcher asks of its driver after fanning out one event.
pub struct EmitOutcome {
    /// The events to send, each into the sink of the named intent, in
    /// order per intent.
    pub deliveries: Vec<(IntentId, EventKind)>,
    /// The sinks of intents this event completed: their deliveries above
    /// must be sent into these before the sinks are dropped.
    pub retired: Vec<(IntentId, Sender<EventKind>)>,
    /// No registered intents remain: the `AllIntentsDropped` effect.
    pub all_dropped: bool,
}

/// The coordinator: owns every accepted intent's bookkeeping, the pending
/// queue, and the reconciled-areas cache; routes events and tracks
/// completion. `R` is the authorisation collaborator.
#[derive(Debug)]
pub struct IntentDispatcher<R> {
    /// The authorisation collaborator interests are resolved through.
    pub auth: R,
    /// Intents accepted before the session started, submitted first.
    pub pending_intents: Vec<Intent>,
    /// Bookkeeping of every registered intent, in registration order.
    pub intents: Vec<(IntentId, IntentInfo)>,
    /// Intents whose update source the driver still watches.
    pub watched_updates: Vec<IntentId>,
    /// The next intent identifier to assign.
    pub next_intent_id: u64,
    /// Areas already reconciled in this session, replayed to late joiners.
    pub complete_areas: NamespaceInterests,
}

impl<R> IntentDispatcher<R> {
    /// Internal invariant: identifiers are unique and below the counter,
    /// and every interest list is well-formed.
    pub open spec fn wf(self) -> bool {
        &&& forall|i: int, j: int|
            #![trigger self.intents@[i], self.intents@[j]]
            0 <= i < j < self.intents@.len() ==> self.intents@[i].0 != self.intents@[j].0
        &&& forall|i: int|
            0 <= i < self.intents@.len() ==> (#[trigger] self.intents@[i].1).wf()
        &&& forall|i: int|
            0 <= i < self.intents@.len() ==> (#[trigger] self.intents@[i].0) < self.next_intent_id
        &&& ni_wf(self.complete_areas@)
        &&& forall|i: int, j: int|
            #![trigger self.watched_updates@[i], self.watched_updates@[j]]
            0 <= i < j < self.watched_updates@.len() ==> self.watched_updates@[i]
                != self.watched_updates@[j]
        &&& forall|i: int|
            0 <= i < self.watched_updates@.len() ==> (#[trigger] self.watched_updates@[i])
                < self.next_intent_id
    }

    /// A dispatcher for a fresh session, with intents queued before the
    /// session started.
    pub fn new(auth: R, initial_intents: Vec<Intent>) -> (r: IntentDispatcher<R>)
        ensures
            r.wf(),
            r.auth == auth,
            r.pending_intents == initial_intents,
            r.intents@.len() == 0,
            r.watched_updates@.len() == 0,
            r.next_intent_id == 0,
            r.complete_areas@.len() == 0,
    {
        IntentDispatcher {
            auth,
            pending_intents: initial_intents,
            intents: Vec::new(),
            watched_updates: Vec::new(),
            next_intent_id: 0,
            complete_areas: Vec::new(),
        }
    }

    /// Takes the next not-yet-submitted intent, oldest first.
    pub fn pop_pending(&mut self) -> (r: Option<Intent>)
        requires
            old(self).wf(),
        ensures
            final(self).wf(),
            old(self).pending_intents@.len() == 0 ==> r is None && *final(self) == *old(self),
            old(self).pending_intents@.len() > 0 ==> r == Some(old(self).pending_intents@[0])
                && final(self).pending_intents@ == old(self).pending_intents@.drop_first(),
            final(self).intents == old(self).intents,
            final(self).watched_updates == old(self).watched_updates,
            final(self).next_intent_id == old(self).next_intent_id,
            final(self).complete_areas == old(self).complete_areas,
            final(self).auth == old(self).auth,
    {
        if self.pending_intents.is_empty() {
            None
        } else {
            let intent = self.pending_intents.remove(0);
            proof {
                assert(self.pending_intents@ =~= old(self).pending_intents@.drop_first());
            }
            Some(intent)
        }
    }

    /// How many intents are registered.
    pub fn intent_count(&self) -> (r: usize)
        ensures
            r == self.intents@.len(),
    {
        self.intents.len()
    }

    /// A borrow of the event sink of a registered intent, for the driver
    /// to send deliveries into.
    pub fn event_sink(&self, intent_id: IntentId) -> (r: Option<&Sender<EventKind>>)
        requires
            self.wf(),
        ensures
            match r {
                Some(tx) => exists|i: int|
                    0 <= i < self.intents@.len() && self.intents@[i].0 == intent_id
                        && self.intents@[i].1.event_tx == Some(*tx),
                None => forall|i: int|
                    0 <= i < self.intents@.len() && self.intents@[i].0 == intent_id
                        ==> (#[trigger] self.intents@[i].1).event_tx is None,
            },
    {
        let mut i: usize = 0;
        while i < self.intents.len()
            invariant
                self.wf(),
                i <= self.intents@.len(),
                forall|j: int| 0 <= j < i ==> self.intents@[j].0 != intent_id,
            decreases self.intents@.len() - i,
        {
            if self.intents[i].0 == intent_id {
                proof {
                    assert forall|j: int|
                        0 <= j < self.intents@.len() && self.intents@[j].0 == intent_id
                            implies j == i by {
                        if j < i {
                            assert(self.intents@[j].0 != self.intents@[i as int].0);
                        } else if j > i {
                            assert(self.intents@[i as int].0 != self.intents@[j].0);
                        }
                    }
                }
                return match &self.intents[i].1.event_tx {
                    Some(tx) => Some(tx),
                    None => None,
                };
            }
            i += 1;
        }
        None
    }

    /// Fans one session event out to every registered intent: records a
    /// `Reconciled` area in the cache first, steps each intent's
    /// bookkeeping, collects the deliveries owed, and drops the intents
    /// that completed.
    pub fn emit_event_inner(&mut self, event: &EventKind) -> (r: (
        Vec<(IntentId, EventKind)>,
        Vec<(IntentId, Sender<EventKind>)>,
    ))
        requires
            old(self).wf(),
        ensures
            final(self).wf(),
            ni_view(final(self).complete_areas@) == cache_step(
                ni_view(old(self).complete_areas@),
                event@,
            ),
            registry_views(final(self).intents@) == emit_registry(
                registry_views(old(self).intents@),
                event@,
            ),
            delivery_views(r.0@) == emit_deliveries(
                registry_views(old(self).intents@),
                event@,
            ),
            r.1@ == emit_retired(old(self).intents@, event@),
            final(self).pending_intents == old(self).pending_intents,
            final(self).watched_updates == old(self).watched_updates,
            final(self).next_intent_id == old(self).next_intent_id,
            final(self).auth == old(self).auth,
    {
        match event {
            EventKind::Reconciled { namespace, area } => {
                let mut one: Vec<AreaOfInterest> = Vec::new();
                one.push(area.clone());
                let ghost cache0 = ni_view(self.complete_areas@);
                crate::interest::ni_extend(&mut self.complete_areas, *namespace, &one);
                proof {
                    assert(crate::interest::aoi_views(one@) =~= seq![area@]);
                    assert forall|x: AoiV| aoi_set(one@).contains(x) == (x == area@) by {
                        if x == area@ {
                            assert(crate::interest::aoi_views(one@)[0] == x);
                        }
                        if crate::interest::aoi_views(one@).contains(x) {
                            let k = choose|k: int|
                                0 <= k < crate::interest::aoi_views(one@).len()
                                    && crate::interest::aoi_views(one@)[k] == x;
                            assert(x == area@);
                        }
                    }
                    assert(aoi_set(one@) =~= Set::<AoiV>::empty().insert(area@));
                    assert(get_or_empty(cache0, *namespace).union(aoi_set(one@))
                        =~= get_or_empty(cache0, *namespace).insert(area@));
                    assert(ni_view(self.complete_areas@) == cache_step(cache0, event@));
                }
            },
            _ => {},
        }
        let mut taken: Vec<(IntentId, IntentInfo)> = Vec::new();
        core::mem::swap(&mut self.intents, &mut taken);
        let ghost orig = taken@;
        let mut kept: Vec<(IntentId, IntentInfo)> = Vec::new();
        let mut out: Vec<(IntentId, EventKind)> = Vec::new();
        let mut retired: Vec<(IntentId, Sender<EventKind>)> = Vec::new();
        let ghost mut idx: int = 0;
        proof {
            assert(orig.take(0) =~= Seq::<(IntentId, IntentInfo)>::empty());
            assert(registry_views(orig.take(0)) =~= Seq::<(IntentId, IntentInfoV)>::empty());
            assert(emit_retired(orig.take(0), event@) =~= Seq::<
                (IntentId, Sender<EventKind>),
            >::empty());
            assert(orig.skip(0) =~= orig);
        }
        while taken.len() > 0
            invariant
                0 <= idx,
                idx + taken@.len() == orig.len(),
                taken@ == orig.skip(idx),
                forall|k: int|
                    0 <= k < orig.len() ==> (#[trigger] orig[k].1).wf() && orig[k].0
                        < old(self).next_intent_id,
                registry_views(kept@) == emit_registry(registry_views(orig.take(idx)), event@),
                delivery_views(out@) == emit_deliveries(registry_views(orig.take(idx)), event@),
                retired@ == emit_retired(orig.take(idx), event@),
                forall|k: int| 0 <= k < kept@.len() ==> (#[trigger] kept@[k].1).wf(),
            decreases taken@.len(),
        {
            let ghost pre = taken@[0];
            let pair = taken.remove(0);
            let id = pair.0;
            let mut info = pair.1;
            proof {
                assert(pre == orig[idx]);
                assert(taken@ =~= orig.skip(idx + 1));
            }
            let r = info.handle_event(event);
            let mut evs = r.0;
            let done = r.1;
            let ghost devs = evs@;
            let has_sink = info.event_tx.is_some();
            let ghost out0 = out@;
            if has_sink {
                let ghost evs0 = evs@;
                let ghost mut m: int = 0;
                proof {
                    assert(evs0.skip(0) =~= evs0);
                    assert(event_views(evs0.take(0)) =~= Seq::<EventKindV>::empty());
                    assert(tag_views(id, event_views(evs0.take(0))) =~= Seq::<
                        (IntentId, EventKindV),
                    >::empty());
                    assert(delivery_views(out@) =~= delivery_views(out0) + tag_views(
                        id,
                        event_views(evs0.take(0)),
                    ));
                }
                while evs.len() > 0
                    invariant
                        0 <= m,
                        m + evs@.len() == evs0.len(),
                        evs@ == evs0.skip(m),
                        delivery_views(out@) == delivery_views(out0) + tag_views(
                            id,
                            event_views(evs0.take(m)),
                        ),
                    decreases evs@.len(),
                {
                    let ghost ev0 = evs@[0];
                    let ghost outp = out@;
                    let ev = evs.remove(0);
                    out.push((id, ev));
                    proof {
                        assert(ev0 == evs0[m]);
                        assert(evs@ =~= evs0.skip(m + 1));
                        assert(out@ == outp.push((id, ev0)));
                        assert(delivery_views(out@) =~= delivery_views(outp).push((id, ev0@)));
                        assert(event_views(evs0.take(m + 1)) =~= event_views(
                            evs0.take(m),
                        ).push(ev0@));
                        assert(tag_views(id, event_views(evs0.take(m + 1))) =~= tag_views(
                            id,
                            event_views(evs0.take(m)),
                        ).push((id, ev0@)));
                        assert(delivery_views(out@) =~= delivery_views(out0) + tag_views(
                            id,
                            event_views(evs0.take(m + 1)),
                        ));
                        m = m + 1;
                    }
                }
                proof {
                    assert(evs0.take(evs0.len() as int) =~= evs0);
                    assert(delivery_views(out@) == delivery_views(out0) + tag_views(id, event_views(evs0)));
                }
            }
            if !done {
                kept.push((id, info));
            } else {
                match info.event_tx {
                    Some(tx) => {
                        retired.push((id, tx));
                    },
                    None => {},
                }
            }
            proof {
                let rs = registry_views(orig.take(idx));
                let p = (pre.0, pre.1@);
                assert(orig.take(idx + 1) =~= orig.take(idx).push(pre));
                assert(registry_views(orig.take(idx + 1)) =~= rs.push(p));
                lemma_emit_registry_push(rs, p, event@);
                lemma_emit_deliveries_push(rs, p, event@);
                lemma_emit_retired_push(orig.take(idx), pre, event@);
                assert(retired@ =~= emit_retired(orig.take(idx + 1), event@));
                assert(p.1.step(event@) == info@);
                assert(p.1.deliveries(event@) == event_views(devs));
                assert(registry_views(kept@) =~= emit_registry(
                    registry_views(orig.take(idx + 1)),
                    event@,
                ));
                if has_sink {
                    assert(delivery_views(out@) =~= emit_deliveries(
                        registry_views(orig.take(idx + 1)),
                        event@,
                    ));
                } else {
                    assert(delivery_views(out@) =~= emit_deliveries(
                        registry_views(orig.take(idx + 1)),
                        event@,
                    ));
                }
                idx = idx + 1;
            }
        }
        proof {
            assert(orig.take(orig.len() as int) =~= orig);
        }
        self.intents = kept;
        proof {
            let rv = registry_views(orig);
            let fin = registry_views(self.intents@);
            assert forall|i: int, j: int| 0 <= i < j < rv.len() implies rv[i].0 != rv[j].0 by {
                assert(orig[i].0 != orig[j].0);
            }
            assert forall|a: int, b: int|
                0 <= a < b < self.intents@.len() implies self.intents@[a].0
                != self.intents@[b].0 by {
                lemma_emit_registry_distinct(rv, event@, a, b);
                assert(fin[a].0 == self.intents@[a].0);
                assert(fin[b].0 == self.intents@[b].0);
            }
            assert forall|i: int|
                0 <= i < self.intents@.len() implies (#[trigger] self.intents@[i].0) < self
                .next_intent_id by {
                lemma_emit_registry_ids(rv, event@, i);
                let j = choose|j: int|
                    0 <= j < rv.len() && rv[j].0 == fin[i].0 && fin[i].1 == rv[j].1.step(event@);
                assert(orig[j].0 < self.next_intent_id);
            }
        }
        (out, retired)
    }
}


/// Replaying one bucket of cached areas to a fresh intent: the state and
/// deliveries after feeding each area, in order, through the live
/// `Reconciled` path.
pub open spec fn catchup_bucket(
    v: IntentInfoV,
    ns: NamespaceId,
    areas: Seq<AreaOfInterest>,
) -> (IntentInfoV, Seq<EventKindV>)
    decreases areas.len(),
{
    if areas.len() == 0 {
        (v, Seq::empty())
    } else {
        let e = EventKindV::Reconciled { namespace: ns, area: areas[0]@ };
        let d = v.deliveries(e);
        let r = catchup_bucket(v.step(e), ns, areas.drop_first());
        (r.0, d + r.1)
    }
}

/// Replaying the whole reconciled-areas cache to a fresh intent.
pub open spec fn catchup_all(
    v: IntentInfoV,
    cache: Seq<(NamespaceId, Vec<AreaOfInterest>)>,
) -> (IntentInfoV, Seq<EventKindV>)
    decreases cache.len(),
{
    if cache.len() == 0 {
        (v, Seq::empty())
    } else {
        let r0 = catchup_bucket(v, cache[0].0, cache[0].1@);
        let r1 = catchup_all(r0.0, cache.drop_first());
        (r1.0, r0.1 + r1.1)
    }
}

/// Replaying one more area extends the bucket replay by one step.
pub proof fn lemma_catchup_bucket_push(
    v: IntentInfoV,
    ns: NamespaceId,
    areas: Seq<AreaOfInterest>,
    a: AreaOfInterest,
)
    ensures
        ({
            let r = catchup_bucket(v, ns, areas);
            let e = EventKindV::Reconciled { namespace: ns, area: a@ };
            catchup_bucket(v, ns, areas.push(a)) == (
                r.0.step(e),
                r.1 + r.0.deliveries(e),
            )
        }),
    decreases areas.len(),
{
    let e = EventKindV::Reconciled { namespace: ns, area: a@ };
    if areas.len() == 0 {
        assert(areas.push(a)[0] == a);
        assert(areas.push(a).drop_first() =~= Seq::<AreaOfInterest>::empty());
        let r1 = catchup_bucket(v.step(e), ns, areas.push(a).drop_first());
        assert(r1 == (v.step(e), Seq::<EventKindV>::empty()));
        assert(v.deliveries(e) + Seq::<EventKindV>::empty() =~= v.deliveries(e));
        assert(Seq::<EventKindV>::empty() + v.deliveries(e) =~= v.deliveries(e));
    } else {
        assert(areas.push(a)[0] == areas[0]);
        assert(areas.push(a).drop_first() =~= areas.drop_first().push(a));
        let e0 = EventKindV::Reconciled { namespace: ns, area: areas[0]@ };
        lemma_catchup_bucket_push(v.step(e0), ns, areas.drop_first(), a);
        let r = catchup_bucket(v, ns, areas);
        let rr = catchup_bucket(v.step(e0), ns, areas.drop_first());
        assert(v.deliveries(e0) + (rr.1 + rr.0.deliveries(e)) =~= (v.deliveries(e0) + rr.1)
            + rr.0.deliveries(e));
    }
}

/// Replaying one more bucket extends the cache replay by that bucket.
pub proof fn lemma_catchup_all_push(
    v: IntentInfoV,
    cache: Seq<(NamespaceId, Vec<AreaOfInterest>)>,
    p: (NamespaceId, Vec<AreaOfInterest>),
)
    ensures
        ({
            let r = catchup_all(v, cache);
            let rb = catchup_bucket(r.0, p.0, p.1@);
            catchup_all(v, cache.push(p)) == (rb.0, r.1 + rb.1)
        }),
    decreases cache.len(),
{
    if cache.len() == 0 {
        assert(cache.push(p)[0] == p);
        assert(cache.push(p).drop_first() =~= Seq::<(NamespaceId, Vec<AreaOfInterest>)>::empty());
        assert(catchup_all(v, cache) == (v, Seq::<EventKindV>::empty()));
        let rb = catchup_bucket(v, p.0, p.1@);
        assert(catchup_all(rb.0, cache.push(p).drop_first()) == (
            rb.0,
            Seq::<EventKindV>::empty(),
        ));
        assert(rb.1 + Seq::<EventKindV>::empty() =~= rb.1);
        assert(Seq::<EventKindV>::empty() + rb.1 =~= rb.1);
        assert(catchup_all(v, cache.push(p)) == (rb.0, rb.1));
    } else {
        assert(cache.push(p)[0] == cache[0]);
        assert(cache.push(p).drop_first() =~= cache.drop_first().push(p));
        let r0 = catchup_bucket(v, cache[0].0, cache[0].1@);
        lemma_catchup_all_push(r0.0, cache.drop_first(), p);
        let r = catchup_all(r0.0, cache.drop_first());
        let rb = catchup_bucket(r.0, p.0, p.1@);
        let router = catchup_all(v, cache);
        assert(router == (r.0, r0.1 + r.1));
        let rbout = catchup_bucket(router.0, p.0, p.1@);
        assert(rbout == rb);
        assert(catchup_all(r0.0, cache.drop_first().push(p)) == (rb.0, r.1 + rb.1));
        assert(catchup_all(v, cache.push(p)) == (rb.0, r0.1 + (r.1 + rb.1)));
        assert(r0.1 + (r.1 + rb.1) =~= (r0.1 + r.1) + rb.1);
        assert(catchup_all(v, cache.push(p)) == (rbout.0, router.1 + rbout.1));
    }
}

/// What the dispatcher hands back when an intent is submitted.
pub struct SubmitOutcome {
    /// The identifier assigned to the intent.
    pub intent_id: IntentId,
    /// Whether the intent was registered; a fully caught-up intent in
    /// reconcile-once mode is not.
    pub registered: bool,
    /// Catch-up events for the intent's sink, replayed from the cache.
    pub deliveries: Vec<EventKind>,
    /// For an unregistered intent with channels: its sink, for the driver
    /// to send the catch-up events into before dropping it.
    pub unregistered_sink: Option<Sender<EventKind>>,
    /// For a registered intent with channels: its update source, for the
    /// driver to watch.
    pub update_rx: Option<Receiver<IntentUpdate>>,
    /// The `SubmitInterests` effect owed to the session, when registered.
    pub effect: Option<InterestMap>,
}

/// The exact relation between a dispatcher before and after submitting a
/// resolved intent.
pub open spec fn submit_post<R>(
    pre: IntentDispatcher<R>,
    post: IntentDispatcher<R>,
    intent: Intent,
    interests: InterestMap,
    r: SubmitOutcome,
) -> bool {
    let v0 = IntentInfoV {
        interests: flat_view(interests@),
        mode: intent.init.mode,
        has_sink: intent.channels is Some,
    };
    let cu = catchup_all(v0, pre.complete_areas@);
    let vf = cu.0;
    &&& r.intent_id == pre.next_intent_id
    &&& post.next_intent_id == pre.next_intent_id + 1
    &&& event_views(r.deliveries@) == cu.1
    &&& post.complete_areas == pre.complete_areas
    &&& post.pending_intents == pre.pending_intents
    &&& post.auth == pre.auth
    &&& r.registered == !vf.is_complete()
    &&& if vf.is_complete() {
        &&& post.intents == pre.intents
        &&& post.watched_updates == pre.watched_updates
        &&& r.effect is None
        &&& r.update_rx is None
        &&& (r.unregistered_sink is Some <==> intent.channels is Some)
        &&& (intent.channels is Some ==> r.unregistered_sink == Some(
            intent.channels->Some_0.event_tx,
        ))
    } else {
        &&& post.intents@.len() == pre.intents@.len() + 1
        &&& forall|k: int| 0 <= k < pre.intents@.len() ==> post.intents@[k] == pre.intents@[k]
        &&& registry_views(post.intents@) == registry_views(pre.intents@).push(
            (r.intent_id, vf),
        )
        &&& post.intents@.last().0 == r.intent_id
        &&& post.intents@.last().1.event_tx == (match intent.channels {
            Some(c) => Some(c.event_tx),
            None => None::<Sender<EventKind>>,
        })
        &&& post.watched_updates@ == (if intent.channels is Some {
            pre.watched_updates@.push(r.intent_id)
        } else {
            pre.watched_updates@
        })
        &&& r.effect == Some(interests)
        &&& r.unregistered_sink is None
        &&& (r.update_rx is Some <==> intent.channels is Some)
        &&& (intent.channels is Some ==> r.update_rx == Some(
            intent.channels->Some_0.update_rx,
        ))
    }
}


impl<R> IntentDispatcher<R> {
    /// Accepts an intent whose interests are already resolved: assigns it
    /// the next identifier, replays the reconciled-areas cache through the
    /// live event path, and registers it unless the replay already
    /// completed it. The returned outcome carries the catch-up events, the
    /// update source to watch, and the `SubmitInterests` effect owed.
    pub fn submit_resolved(&mut self, intent: Intent, interests: InterestMap) -> (r: SubmitOutcome)
        requires
            old(self).wf(),
            old(self).next_intent_id < u64::MAX,
        ensures
            final(self).wf(),
            submit_post(*old(self), *final(self), intent, interests, r),
    {
        let intent_id = self.next_intent_id;
        self.next_intent_id = self.next_intent_id + 1;
        let Intent { init, channels } = intent;
        let (event_tx, update_rx) = match channels {
            None => (None, None),
            Some(IntentChannels { event_tx, update_rx }) => (Some(event_tx), Some(update_rx)),
        };
        let flat = flatten_interests(&interests);
        let mut info = IntentInfo { interests: flat, mode: init.mode, event_tx };
        let ghost v0 = info@;
        let ghost sink0 = info.event_tx;
        let ghost cache = self.complete_areas@;
        let mut deliveries: Vec<EventKind> = Vec::new();
        proof {
            assert(cache.take(0) =~= Seq::<(NamespaceId, Vec<AreaOfInterest>)>::empty());
            assert(catchup_all(v0, cache.take(0)) == (v0, Seq::<EventKindV>::empty()));
            assert(event_views(deliveries@) =~= Seq::<EventKindV>::empty());
        }
        let mut i: usize = 0;
        while i < self.complete_areas.len()
            invariant
                i <= self.complete_areas@.len(),
                self.complete_areas@ == cache,
                info.wf(),
                info.event_tx == sink0,
                info.mode == v0.mode,
                info@ == catchup_all(v0, cache.take(i as int)).0,
                event_views(deliveries@) == catchup_all(v0, cache.take(i as int)).1,
            decreases self.complete_areas@.len() - i,
        {
            let ghost pair = cache[i as int];
            let ghost c0 = catchup_all(v0, cache.take(i as int));
            let ghost areas = pair.1@;
            let ns = self.complete_areas[i].0;
            proof {
                assert(areas.take(0) =~= Seq::<AreaOfInterest>::empty());
                assert(catchup_bucket(c0.0, ns, areas.take(0)) == (
                    c0.0,
                    Seq::<EventKindV>::empty(),
                ));
                assert(c0.1 + Seq::<EventKindV>::empty() =~= c0.1);
            }
            let mut j: usize = 0;
            while j < self.complete_areas[i].1.len()
                invariant
                    i < self.complete_areas@.len(),
                    self.complete_areas@ == cache,
                    pair == cache[i as int],
                    areas == pair.1@,
                    ns == pair.0,
                    j <= areas.len(),
                    c0 == catchup_all(v0, cache.take(i as int)),
                    info.wf(),
                    info.event_tx == sink0,
                    info.mode == v0.mode,
                    info@ == catchup_bucket(c0.0, ns, areas.take(j as int)).0,
                    event_views(deliveries@) == c0.1 + catchup_bucket(
                        c0.0,
                        ns,
                        areas.take(j as int),
                    ).1,
                decreases areas.len() - j,
            {
                let ghost a = areas[j as int];
                let ghost cb = catchup_bucket(c0.0, ns, areas.take(j as int));
                let mut evs = info.on_reconciled(ns, &self.complete_areas[i].1[j]);
                let ghost devs = evs@;
                let ghost d0 = deliveries@;
                deliveries.append(&mut evs);
                proof {
                    let e = EventKindV::Reconciled { namespace: ns, area: a@ };
                    assert(areas.take(j as int + 1) =~= areas.take(j as int).push(a));
                    lemma_catchup_bucket_push(c0.0, ns, areas.take(j as int), a);
                    assert(catchup_bucket(c0.0, ns, areas.take(j as int + 1)) == (
                        cb.0.step(e),
                        cb.1 + cb.0.deliveries(e),
                    ));
                    assert(event_views(devs) == cb.0.deliveries(e));
                    assert(deliveries@ == d0 + devs);
                    assert(event_views(deliveries@) =~= event_views(d0) + event_views(devs));
                    assert(event_views(deliveries@) =~= c0.1 + (cb.1 + cb.0.deliveries(e)));
                }
                j += 1;
            }
            proof {
                assert(areas.take(areas.len() as int) =~= areas);
                assert(cache.take(i as int + 1) =~= cache.take(i as int).push(pair));
                lemma_catchup_all_push(v0, cache.take(i as int), pair);
            }
            i += 1;
        }
        proof {
            assert(cache.take(cache.len() as int) =~= cache);
        }
        let complete = info.is_complete();
        if !complete {
            self.intents.push((intent_id, info));
            let watch = update_rx.is_some();
            if watch {
                let ghost w0 = self.watched_updates@;
                self.watched_updates.push(intent_id);
                proof {
                    assert forall|a: int, b: int|
                        0 <= a < b < self.watched_updates@.len() implies self.watched_updates@[a]
                        != self.watched_updates@[b] by {
                        if b == w0.len() {
                            assert(self.watched_updates@[a] == w0[a]);
                        }
                    }
                }
            }
            proof {
                assert(registry_views(self.intents@) =~= registry_views(
                    old(self).intents@,
                ).push((intent_id, catchup_all(v0, cache).0)));
            }
            SubmitOutcome {
                intent_id,
                registered: true,
                deliveries,
                unregistered_sink: None,
                update_rx,
                effect: Some(interests),
            }
        } else {
            let IntentInfo { event_tx: sink, .. } = info;
            SubmitOutcome {
                intent_id,
                registered: false,
                deliveries,
                unregistered_sink: sink,
                update_rx: None,
                effect: None,
            }
        }
    }
}


/// Is an intent with this identifier registered?
pub open spec fn reg_has(s: Seq<(IntentId, IntentInfo)>, id: IntentId) -> bool {
    exists|i: int| 0 <= i < s.len() && s[i].0 == id
}

/// The registry index of an intent.
pub open spec fn reg_at(s: Seq<(IntentId, IntentInfo)>, id: IntentId) -> int {
    choose|i: int| 0 <= i < s.len() && s[i].0 == id
}

/// Removal of an intent from a registry, a no-op when it is absent.
pub open spec fn reg_remove(s: Seq<(IntentId, IntentInfo)>, id: IntentId) -> Seq<
    (IntentId, IntentInfo),
> {
    if reg_has(s, id) {
        s.remove(reg_at(s, id))
    } else {
        s
    }
}

/// Removal of an identifier from the watched list, a no-op when absent.
pub open spec fn watched_remove(s: Seq<IntentId>, id: IntentId) -> Seq<IntentId> {
    if s.contains(id) {
        s.remove(s.index_of(id))
    } else {
        s
    }
}

/// What the dispatcher hands back when an intent's update is applied.
pub struct UpdateOutcome {
    /// The `SubmitInterests` effect owed to the session, for added
    /// interests.
    pub effect: Option<InterestMap>,
    /// No registered intents remain after a close.
    pub all_dropped: bool,
}

/// Why an intent update was not applied.
#[derive(Debug)]
pub enum UpdateError {
    /// No intent with the given identifier is registered.
    UnknownIntent,
    /// The added interests could not be resolved; the update is dropped,
    /// the intent stays as it was.
    Resolution(ResolveError),
}

/// What the dispatcher decides when an intent's update source closes.
pub struct SourceClosedOutcome {
    /// The intent was cancelled: its event path was already gone too.
    pub cancelled: bool,
    /// No registered intents remain: the `AllIntentsDropped` effect.
    pub all_dropped: bool,
}

/// What the dispatcher decides when a delivery into a sink failed.
pub struct DeliveryFailedOutcome {
    /// The intent was cancelled: its update source is no longer watched.
    pub cancelled: bool,
    /// No registered intents remain after the cancellation.
    pub now_empty: bool,
}

/// The exact relation between a dispatcher before and after merging added
/// interests into a registered intent.
pub open spec fn add_interests_post<R>(
    pre: IntentDispatcher<R>,
    post: IntentDispatcher<R>,
    intent_id: IntentId,
    m: InterestMap,
) -> bool {
    let i = reg_at(pre.intents@, intent_id);
    &&& post.intents@.len() == pre.intents@.len()
    &&& forall|k: int|
        0 <= k < pre.intents@.len() && k != i ==> post.intents@[k] == pre.intents@[k]
    &&& post.intents@[i].0 == intent_id
    &&& post.intents@[i].1@.interests == merge_flat(pre.intents@[i].1@.interests, m@)
    &&& post.intents@[i].1@.mode == pre.intents@[i].1@.mode
    &&& post.intents@[i].1.event_tx == pre.intents@[i].1.event_tx
    &&& post.watched_updates == pre.watched_updates
    &&& post.pending_intents == pre.pending_intents
    &&& post.next_intent_id == pre.next_intent_id
    &&& post.complete_areas == pre.complete_areas
    &&& post.auth == pre.auth
}

impl<R> IntentDispatcher<R> {
    /// Finds the registry index of an intent.
    fn reg_find(&self, intent_id: IntentId) -> (r: Option<usize>)
        requires
            self.wf(),
        ensures
            match r {
                Some(i) => i < self.intents@.len() && self.intents@[i as int].0 == intent_id
                    && reg_at(self.intents@, intent_id) == i,
                None => !reg_has(self.intents@, intent_id),
            },
    {
        let mut i: usize = 0;
        while i < self.intents.len()
            invariant
                self.wf(),
                i <= self.intents@.len(),
                forall|j: int| 0 <= j < i ==> self.intents@[j].0 != intent_id,
            decreases self.intents@.len() - i,
        {
            if self.intents[i].0 == intent_id {
                proof {
                    let w = reg_at(self.intents@, intent_id);
                    assert(reg_has(self.intents@, intent_id));
                    if w < i {
                        assert(self.intents@[w].0 != self.intents@[i as int].0);
                    } else if w > i {
                        assert(self.intents@[i as int].0 != self.intents@[w].0);
                    }
                }
                return Some(i);
            }
            i += 1;
        }
        None
    }

    /// Is the intent's update source still watched?
    fn is_watched(&self, intent_id: IntentId) -> (r: bool)
        ensures
            r == self.watched_updates@.contains(intent_id),
    {
        let mut w: usize = 0;
        while w < self.watched_updates.len()
            invariant
                w <= self.watched_updates@.len(),
                forall|j: int| 0 <= j < w ==> self.watched_updates@[j] != intent_id,
            decreases self.watched_updates@.len() - w,
        {
            if self.watched_updates[w] == intent_id {
                proof {
                    assert(self.watched_updates@[w as int] == intent_id);
                }
                return true;
            }
            w += 1;
        }
        proof {
            if self.watched_updates@.contains(intent_id) {
                let fi = self.watched_updates@.index_of(intent_id);
                assert(self.watched_updates@[fi] == intent_id);
            }
        }
        false
    }

    /// Stops watching an intent's update source, if it was watched.
    fn unwatch(&mut self, intent_id: IntentId)
        requires
            old(self).wf(),
        ensures
            final(self).wf(),
            final(self).watched_updates@ == watched_remove(old(self).watched_updates@, intent_id),
            final(self).intents == old(self).intents,
            final(self).pending_intents == old(self).pending_intents,
            final(self).next_intent_id == old(self).next_intent_id,
            final(self).complete_areas == old(self).complete_areas,
            final(self).auth == old(self).auth,
    {
        let ghost w0 = self.watched_updates@;
        let mut w: usize = 0;
        while w < self.watched_updates.len()
            invariant
                self.wf(),
                self.watched_updates@ == w0,
                w0 == old(self).watched_updates@,
                self.intents == old(self).intents,
                self.pending_intents == old(self).pending_intents,
                self.next_intent_id == old(self).next_intent_id,
                self.complete_areas == old(self).complete_areas,
                self.auth == old(self).auth,
                w <= self.watched_updates@.len(),
                forall|j: int| 0 <= j < w ==> self.watched_updates@[j] != intent_id,
            decreases self.watched_updates@.len() - w,
        {
            if self.watched_updates[w] == intent_id {
                proof {
                    assert(w0[w as int] == intent_id);
                    assert(w0.contains(intent_id));
                    let fi = w0.index_of(intent_id);
                    if fi < w {
                        assert(w0[fi] != w0[w as int]);
                    } else if fi > w {
                        assert(w0[w as int] != w0[fi]);
                    }
                }
                let _ = self.watched_updates.remove(w);
                proof {
                    assert forall|a: int, b: int|
                        0 <= a < b < self.watched_updates@.len()
                            implies self.watched_updates@[a] != self.watched_updates@[b] by {
                        let a0 = if a < w {
                            a
                        } else {
                            a + 1
                        };
                        let b0 = if b < w {
                            b
                        } else {
                            b + 1
                        };
                        assert(w0[a0] != w0[b0]);
                    }
                    assert forall|k: int|
                        0 <= k < self.watched_updates@.len()
                            implies (#[trigger] self.watched_updates@[k])
                            < self.next_intent_id by {
                        let k0 = if k < w {
                            k
                        } else {
                            k + 1
                        };
                        assert(self.watched_updates@[k] == w0[k0]);
                        assert(w0[k0] < self.next_intent_id);
                    }
                }
                return ;
            }
            w += 1;
        }
        proof {
            if w0.contains(intent_id) {
                let fi = w0.index_of(intent_id);
                assert(w0[fi] == intent_id);
            }
            assert(self.watched_updates@ =~= watched_remove(w0, intent_id));
        }
    }

    /// Removes an intent's bookkeeping and its update-source registration.
    fn cancel_intent_inner(&mut self, intent_id: IntentId)
        requires
            old(self).wf(),
        ensures
            final(self).wf(),
            final(self).intents@ == reg_remove(old(self).intents@, intent_id),
            final(self).watched_updates@ == watched_remove(old(self).watched_updates@, intent_id),
            final(self).pending_intents == old(self).pending_intents,
            final(self).next_intent_id == old(self).next_intent_id,
            final(self).complete_areas == old(self).complete_areas,
            final(self).auth == old(self).auth,
    {
        self.unwatch(intent_id);
        let ghost r0 = self.intents@;
        match self.reg_find(intent_id) {
            Some(i) => {
                let _ = self.intents.remove(i);
                proof {
                    assert forall|a: int, b: int|
                        0 <= a < b < self.intents@.len() implies self.intents@[a].0
                        != self.intents@[b].0 by {
                        let a0 = if a < i {
                            a
                        } else {
                            a + 1
                        };
                        let b0 = if b < i {
                            b
                        } else {
                            b + 1
                        };
                        assert(self.intents@[a] == r0[a0]);
                        assert(self.intents@[b] == r0[b0]);
                        assert(r0[a0].0 != r0[b0].0);
                    }
                    assert forall|k: int|
                        0 <= k < self.intents@.len() implies (#[trigger] self.intents@[k].1).wf()
                        && self.intents@[k].0 < self.next_intent_id by {
                        let k0 = if k < i {
                            k
                        } else {
                            k + 1
                        };
                        assert(self.intents@[k] == r0[k0]);
                        assert(r0[k0].1.wf() && r0[k0].0 < self.next_intent_id);
                    }
                }
            },
            None => {
                proof {
                    assert(self.intents@ =~= reg_remove(r0, intent_id));
                }
            },
        }
    }

    /// Cancels an intent outright: removes its bookkeeping and update
    /// registration, and reports whether no intents remain.
    pub fn cancel_intent(&mut self, intent_id: IntentId) -> (all_dropped: bool)
        requires
            old(self).wf(),
        ensures
            final(self).wf(),
            final(self).intents@ == reg_remove(old(self).intents@, intent_id),
            final(self).watched_updates@ == watched_remove(old(self).watched_updates@, intent_id),
            final(self).pending_intents == old(self).pending_intents,
            final(self).next_intent_id == old(self).next_intent_id,
            final(self).complete_areas == old(self).complete_areas,
            final(self).auth == old(self).auth,
            all_dropped == (final(self).intents@.len() == 0),
    {
        self.cancel_intent_inner(intent_id);
        self.intents.is_empty()
    }

    /// Reacts to an intent's update source closing without an explicit
    /// close: the source is no longer watched, and the intent is cancelled
    /// once its event path is gone too.
    pub fn update_source_closed(&mut self, intent_id: IntentId) -> (r: SourceClosedOutcome)
        requires
            old(self).wf(),
        ensures
            final(self).wf(),
            final(self).watched_updates@ == watched_remove(old(self).watched_updates@, intent_id),
            r.cancelled ==> final(self).intents@ == reg_remove(old(self).intents@, intent_id),
            !r.cancelled ==> final(self).intents == old(self).intents,
            !reg_has(old(self).intents@, intent_id) ==> r.cancelled,
            reg_has(old(self).intents@, intent_id) && old(self).intents@[reg_at(
                old(self).intents@,
                intent_id,
            )].1.event_tx is None ==> !r.cancelled,
            r.all_dropped == (r.cancelled && final(self).intents@.len() == 0),
            final(self).pending_intents == old(self).pending_intents,
            final(self).next_intent_id == old(self).next_intent_id,
            final(self).complete_areas == old(self).complete_areas,
            final(self).auth == old(self).auth,
    {
        let closed = match self.reg_find(intent_id) {
            None => true,
            Some(i) => self.intents[i].1.events_closed(),
        };
        if closed {
            self.cancel_intent_inner(intent_id);
            let all_dropped = self.intents.is_empty();
            SourceClosedOutcome { cancelled: true, all_dropped }
        } else {
            self.unwatch(intent_id);
            SourceClosedOutcome { cancelled: false, all_dropped: false }
        }
    }

    /// Reacts to a failed delivery into an intent's sink: the intent is
    /// cancelled unless its update source is still watched, since an open
    /// update source may still want to drive the intent.
    pub fn delivery_failed(&mut self, intent_id: IntentId) -> (r: DeliveryFailedOutcome)
        requires
            old(self).wf(),
        ensures
            final(self).wf(),
            r.cancelled == !old(self).watched_updates@.contains(intent_id),
            r.cancelled ==> final(self).intents@ == reg_remove(old(self).intents@, intent_id)
                && final(self).watched_updates@ == old(self).watched_updates@,
            !r.cancelled ==> *final(self) == *old(self),
            r.now_empty == (final(self).intents@.len() == 0),
            final(self).pending_intents == old(self).pending_intents,
            final(self).next_intent_id == old(self).next_intent_id,
            final(self).complete_areas == old(self).complete_areas,
            final(self).auth == old(self).auth,
    {
        let watched = self.is_watched(intent_id);
        if !watched {
            let ghost w0 = self.watched_updates@;
            self.cancel_intent_inner(intent_id);
            proof {
                assert(self.watched_updates@ =~= w0);
            }
            let now_empty = self.intents.is_empty();
            DeliveryFailedOutcome { cancelled: true, now_empty }
        } else {
            let now_empty = self.intents.is_empty();
            DeliveryFailedOutcome { cancelled: false, now_empty }
        }
    }

    /// Fans one event out and reports whether the registry emptied, the
    /// signal the owning session uses to decide whether to stay alive.
    pub fn emit_event(&mut self, event: &EventKind) -> (r: EmitOutcome)
        requires
            old(self).wf(),
        ensures
            final(self).wf(),
            ni_view(final(self).complete_areas@) == cache_step(
                ni_view(old(self).complete_areas@),
                event@,
            ),
            registry_views(final(self).intents@) == emit_registry(
                registry_views(old(self).intents@),
                event@,
            ),
            delivery_views(r.deliveries@) == emit_deliveries(
                registry_views(old(self).intents@),
                event@,
            ),
            r.retired@ == emit_retired(old(self).intents@, event@),
            r.all_dropped == (final(self).intents@.len() == 0),
            final(self).pending_intents == old(self).pending_intents,
            final(self).watched_updates == old(self).watched_updates,
            final(self).next_intent_id == old(self).next_intent_id,
            final(self).auth == old(self).auth,
    {
        let r = self.emit_event_inner(event);
        let all_dropped = self.intents.is_empty();
        EmitOutcome { deliveries: r.0, retired: r.1, all_dropped }
    }
}

impl<R: InterestResolver> IntentDispatcher<R> {
    /// Applies an update arriving on an intent's update channel. Added
    /// interests are resolved and merged, and a fresh `SubmitInterests`
    /// effect is owed for them; a close cancels the intent.
    pub fn update_intent(&mut self, intent_id: IntentId, update: IntentUpdate) -> (r: Result<
        UpdateOutcome,
        UpdateError,
    >)
        requires
            old(self).wf(),
        ensures
            final(self).wf(),
            match update {
                IntentUpdate::Close => {
                    &&& r is Ok
                    &&& r->Ok_0.effect is None
                    &&& final(self).intents@ == reg_remove(old(self).intents@, intent_id)
                    &&& final(self).watched_updates@ == watched_remove(
                        old(self).watched_updates@,
                        intent_id,
                    )
                    &&& r->Ok_0.all_dropped == (final(self).intents@.len() == 0)
                    &&& final(self).pending_intents == old(self).pending_intents
                    &&& final(self).next_intent_id == old(self).next_intent_id
                    &&& final(self).complete_areas == old(self).complete_areas
                    &&& final(self).auth == old(self).auth
                },
                IntentUpdate::AddInterests(_) => match r {
                    Err(UpdateError::Resolution(_)) => *final(self) == *old(self),
                    Err(UpdateError::UnknownIntent) => *final(self) == *old(self) && !reg_has(
                        old(self).intents@,
                        intent_id,
                    ),
                    Ok(out) => {
                        &&& reg_has(old(self).intents@, intent_id)
                        &&& out.all_dropped == false
                        &&& exists|m: InterestMap|
                            #[trigger] add_interests_post(*old(self), *final(self), intent_id, m)
                                && out.effect == Some(m)
                    },
                },
            },
    {
        match update {
            IntentUpdate::Close => {
                let all_dropped = self.cancel_intent(intent_id);
                Ok(UpdateOutcome { effect: None, all_dropped })
            },
            IntentUpdate::AddInterests(interests) => {
                let resolved = match self.auth.resolve_interests(&interests) {
                    Ok(m) => m,
                    Err(e) => {
                        return Err(UpdateError::Resolution(e));
                    },
                };
                match self.reg_find(intent_id) {
                    None => Err(UpdateError::UnknownIntent),
                    Some(i) => {
                        let ghost r0 = self.intents@;
                        let ghost mres = resolved;
                        let mut pair = self.intents.remove(i);
                        pair.1.merge_interests(&resolved);
                        self.intents.insert(i, pair);
                        proof {
                            assert(self.intents@ =~= r0.update(
                                i as int,
                                self.intents@[i as int],
                            ));
                            assert(self.intents@[i as int].0 == r0[i as int].0);
                            assert forall|a: int, b: int|
                                0 <= a < b < self.intents@.len() implies self.intents@[a].0
                                != self.intents@[b].0 by {
                                assert(r0[a].0 != r0[b].0);
                                assert(self.intents@[a].0 == r0[a].0);
                                assert(self.intents@[b].0 == r0[b].0);
                            }
                            assert(add_interests_post(*old(self), *self, intent_id, mres));
                        }
                        Ok(UpdateOutcome { effect: Some(resolved), all_dropped: false })
                    },
                }
            },
        }
    }


    /// Submits an intent: resolves its declared interests through the
    /// authorisation collaborator, and accepts it on success. A resolution
    /// failure is surfaced to the submitter and changes nothing.
    pub fn submit_intent(&mut self, intent: Intent) -> (r: Result<SubmitOutcome, ResolveError>)
        requires
            old(self).wf(),
            old(self).next_intent_id < u64::MAX,
        ensures
            final(self).wf(),
            match r {
                Ok(out) => exists|m: InterestMap|
                    #[trigger] submit_post(*old(self), *final(self), intent, m, out),
                Err(_) => *final(self) == *old(self),
            },
    {
        let resolved = match self.auth.resolve_interests(&intent.init.interests) {
            Ok(m) => m,
            Err(e) => {
                return Err(e);
            },
        };
        let out = self.submit_resolved(intent, resolved);
        Ok(out)
    }
}


/// The event sinks of the registered intents that are not complete, in
/// registry order.
pub open spec fn active_sinks(s: Seq<(IntentId, IntentInfo)>) -> Seq<Sender<EventKind>>
    decreases s.len(),
{
    if s.len() == 0 {
        Seq::empty()
    } else {
        let rest = active_sinks(s.drop_first());
        match s[0].1.event_tx {
            Some(tx) => if !s[0].1@.is_complete() {
                seq![tx] + rest
            } else {
                rest
            },
            None => rest,
        }
    }
}

/// The event sinks of non-detached queued intents, in queue order.
pub open spec fn queued_sinks(s: Seq<Intent>) -> Seq<Sender<EventKind>>
    decreases s.len(),
{
    if s.len() == 0 {
        Seq::empty()
    } else {
        let rest = queued_sinks(s.drop_first());
        match s[0].channels {
            Some(c) => seq![c.event_tx] + rest,
            None => rest,
        }
    }
}

/// What is left of a dispatcher after a drain: intents that never got
/// session participation, resubmittable verbatim, and the sinks of active
/// intents that did not complete, kept only for notification.
#[derive(Debug)]
pub struct RemainingIntents {
    /// The event sinks of active intents that did not complete.
    pub active_incomplete: Vec<Sender<EventKind>>,
    /// Intents never onboarded: the pending queue plus submissions that
    /// arrived during the drain.
    pub queued: Vec<Intent>,
}

impl RemainingIntents {
    /// Hands out every sink an abort is owed to: the queued intents'
    /// sinks, then the active incomplete ones. Fully terminal.
    pub fn abort_all_sinks(self) -> (r: Vec<Sender<EventKind>>)
        ensures
            r@ == queued_sinks(self.queued@) + self.active_incomplete@,
    {
        let RemainingIntents { active_incomplete, queued } = self;
        let mut queued = queued;
        let mut out: Vec<Sender<EventKind>> = Vec::new();
        let ghost q0 = queued@;
        let ghost mut k: int = 0;
        proof {
            assert(q0.skip(0) =~= q0);
            assert(out@ + queued_sinks(q0.skip(0)) =~= queued_sinks(q0));
        }
        while queued.len() > 0
            invariant
                0 <= k,
                k + queued@.len() == q0.len(),
                queued@ == q0.skip(k),
                out@ + queued_sinks(queued@) == queued_sinks(q0),
            decreases queued@.len(),
        {
            let ghost q = queued@;
            let intent = queued.remove(0);
            proof {
                assert(queued@ =~= q.drop_first());
            }
            match intent.into_abort_sink() {
                Some(tx) => {
                    out.push(tx);
                    proof {
                        assert(out@ + queued_sinks(queued@) =~= queued_sinks(q0));
                    }
                },
                None => {
                    proof {
                        assert(out@ + queued_sinks(queued@) =~= queued_sinks(q0));
                    }
                },
            }
            proof {
                k = k + 1;
            }
        }
        proof {
            assert(queued_sinks(queued@) =~= Seq::<Sender<EventKind>>::empty());
        }
        let mut active = active_incomplete;
        let ghost o0 = out@;
        let ghost a0 = active@;
        let ghost mut m: int = 0;
        while active.len() > 0
            invariant
                0 <= m,
                m + active@.len() == a0.len(),
                active@ == a0.skip(m),
                out@ == o0 + a0.take(m),
            decreases active@.len(),
        {
            let tx = active.remove(0);
            proof {
                assert(tx == a0[m]);
                assert(active@ =~= a0.skip(m + 1));
                assert(a0.take(m + 1) =~= a0.take(m).push(a0[m]));
            }
            out.push(tx);
            proof {
                assert(out@ =~= o0 + a0.take(m + 1));
                m = m + 1;
            }
        }
        proof {
            assert(a0.take(a0.len() as int) =~= a0);
            assert(out@ =~= queued_sinks(q0) + a0);
        }
        out
    }

    /// Hands out the sinks of active incomplete intents for an abort, and
    /// returns the queued intents untouched, for a successor session.
    pub fn abort_active_sinks(self) -> (r: (Vec<Sender<EventKind>>, Vec<Intent>))
        ensures
            r.0@ == self.active_incomplete@,
            r.1@ == self.queued@,
    {
        (self.active_incomplete, self.queued)
    }
}

impl<R> IntentDispatcher<R> {
    /// Tears the dispatcher down once the driver has emptied the inbox:
    /// submissions that arrived during the drain are handed in as
    /// `overflow` and joined with the pending queue, and the sinks of
    /// registered intents that are not complete are collected for
    /// notification.
    pub fn drain_all(self, overflow: Vec<Intent>) -> (r: RemainingIntents)
        ensures
            r.queued@ == overflow@ + self.pending_intents@,
            r.active_incomplete@ == active_sinks(self.intents@),
    {
        let IntentDispatcher { pending_intents, intents, .. } = self;
        let mut queued = overflow;
        let mut pending = pending_intents;
        queued.append(&mut pending);
        let mut intents = intents;
        let mut active: Vec<Sender<EventKind>> = Vec::new();
        let ghost f0 = intents@;
        proof {
            assert(f0.skip(0) =~= f0);
            assert(active@ + active_sinks(f0.skip(0)) =~= active_sinks(f0));
        }
        while intents.len() > 0
            invariant
                active@ + active_sinks(intents@) == active_sinks(f0),
            decreases intents@.len(),
        {
            let ghost cur = intents@;
            let pair = intents.remove(0);
            let info = pair.1;
            proof {
                assert(intents@ =~= cur.drop_first());
            }
            let complete = info.is_complete();
            match info.event_tx {
                Some(tx) => {
                    if !complete {
                        active.push(tx);
                        proof {
                            assert(active@ + active_sinks(intents@) =~= active_sinks(f0));
                        }
                    } else {
                        proof {
                            assert(active@ + active_sinks(intents@) =~= active_sinks(f0));
                        }
                    }
                },
                None => {
                    proof {
                        assert(active@ + active_sinks(intents@) =~= active_sinks(f0));
                    }
                },
            }
        }
        proof {
            assert(active_sinks(intents@) =~= Seq::<Sender<EventKind>>::empty());
            assert(active@ + active_sinks(intents@) =~= active@);
        }
        RemainingIntents { active_incomplete: active, queued }
    }
}


/// No intent stays registered once it is complete: every entry of the
/// registry after an event fan-out is incomplete. Together with
/// [`lemma_owed_delivery_present`] this says an intent only remains pending
/// while interests genuinely remain unreconciled; it is told the moment
/// they are not.
pub proof fn lemma_no_complete_registered(rs: Seq<(IntentId, IntentInfoV)>, e: EventKindV, k: int)
    requires
        0 <= k < emit_registry(rs, e).len(),
    ensures
        !emit_registry(rs, e)[k].1.is_complete(),
    decreases rs.len(),
{
    let stepped = (rs[0].0, rs[0].1.step(e));
    if stepped.1.is_complete() {
        lemma_no_complete_registered(rs.drop_first(), e, k);
    } else {
        if k > 0 {
            lemma_no_complete_registered(rs.drop_first(), e, k - 1);
        }
    }
}

/// Every event owed to an intent with a sink is among the fan-out's
/// deliveries, whatever the other intents' states or sinks: one intent
/// cannot make the dispatcher withhold another's events. In particular,
/// when a `Reconciled` event empties an intent's interests, the
/// synthesised `ReconciledAll` it is owed is delivered.
pub proof fn lemma_owed_delivery_present(
    rs: Seq<(IntentId, IntentInfoV)>,
    e: EventKindV,
    k: int,
    ev: EventKindV,
)
    requires
        0 <= k < rs.len(),
        rs[k].1.has_sink,
        rs[k].1.deliveries(e).contains(ev),
    ensures
        emit_deliveries(rs, e).contains((rs[k].0, ev)),
    decreases rs.len(),
{
    let here = if rs[0].1.has_sink {
        tag_views(rs[0].0, rs[0].1.deliveries(e))
    } else {
        Seq::<(IntentId, EventKindV)>::empty()
    };
    let rest = emit_deliveries(rs.drop_first(), e);
    if k == 0 {
        let j = choose|j: int|
            0 <= j < rs[0].1.deliveries(e).len() && rs[0].1.deliveries(e)[j] == ev;
        assert(here[j] == (rs[0].0, ev));
        assert((here + rest)[j] == (rs[0].0, ev));
        assert(emit_deliveries(rs, e).contains((rs[0].0, ev)));
    } else {
        lemma_owed_delivery_present(rs.drop_first(), e, k - 1, ev);
        let j = choose|j: int|
            0 <= j < rest.len() && rest[j] == (rs.drop_first()[k - 1].0, ev);
        assert((here + rest)[here.len() + j] == (rs[k].0, ev));
        assert(emit_deliveries(rs, e).contains((rs[k].0, ev)));
    }
}

/// The reconciled-areas cache only grows: everything cached before an
/// event is still cached, unchanged, after it.
pub proof fn lemma_cache_monotone(c: Map<NamespaceId, Set<AoiV>>, e: EventKindV)
    ensures
        forall|ns: NamespaceId|
            c.dom().contains(ns) ==> #[trigger] cache_step(c, e).dom().contains(ns),
        forall|ns: NamespaceId, x: AoiV|
            c.dom().contains(ns) && c[ns].contains(x) ==> #[trigger] cache_step(
                c,
                e,
            )[ns].contains(x),
{
}

/// Replaying one cached area to a late joiner is exactly one live
/// `Reconciled` step: the cache is replayed through the same path a live
/// event takes, so a cached area reaches a later intent just as it would
/// have reached it live.
pub proof fn lemma_replay_matches_live(v: IntentInfoV, ns: NamespaceId, a: AreaOfInterest)
    ensures
        catchup_bucket(v, ns, seq![a]) == (
            v.step(EventKindV::Reconciled { namespace: ns, area: a@ }),
            v.deliveries(EventKindV::Reconciled { namespace: ns, area: a@ }),
        ),
{
    let e = EventKindV::Reconciled { namespace: ns, area: a@ };
    assert(seq![a][0] == a);
    assert(seq![a].drop_first() =~= Seq::<AreaOfInterest>::empty());
    assert(catchup_bucket(v.step(e), ns, seq![a].drop_first()) == (
        v.step(e),
        Seq::<EventKindV>::empty(),
    ));
    assert(v.deliveries(e) + Seq::<EventKindV>::empty() =~= v.deliveries(e));
}

/// Is some area of this bucket an entire cover of `x`'s area?
pub open spec fn covered_by_bucket(x: AoiV, areas: Seq<AreaOfInterest>) -> bool {
    exists|j: int| 0 <= j < areas.len() && areas[j]@.area.includes_area(x.area)
}

/// Replaying a bucket that covers every remaining interest of its
/// namespace removes that namespace entirely, and touches no other.
pub proof fn lemma_catchup_bucket_covers(
    v: IntentInfoV,
    ns: NamespaceId,
    areas: Seq<AreaOfInterest>,
)
    requires
        v.interests.dom().contains(ns) ==> exists|x: AoiV| v.interests[ns].contains(x),
        v.interests.dom().contains(ns) ==> forall|x: AoiV|
            #[trigger] v.interests[ns].contains(x) ==> x.area.is_nonempty() && covered_by_bucket(
                x,
                areas,
            ),
    ensures
        catchup_bucket(v, ns, areas).0.interests == v.interests.remove(ns),
        catchup_bucket(v, ns, areas).0.mode == v.mode,
        catchup_bucket(v, ns, areas).0.has_sink == v.has_sink,
    decreases areas.len(),
{
    if areas.len() == 0 {
        if v.interests.dom().contains(ns) {
            let x = choose|x: AoiV| v.interests[ns].contains(x);
            assert(covered_by_bucket(x, areas));
            assert(false);
        }
        assert(v.interests =~= v.interests.remove(ns));
    } else {
        let a0 = areas[0];
        let e0 = EventKindV::Reconciled { namespace: ns, area: a0@ };
        let v1 = v.step(e0);
        let b1 = v1.interests;
        assert forall|x: AoiV|
            v1.interests.dom().contains(ns) && #[trigger] b1[ns].contains(x)
                implies x.area.is_nonempty() && covered_by_bucket(x, areas.drop_first()) by {
            assert(v.interests.dom().contains(ns));
            assert(v.interests[ns].contains(x));
            let j = choose|j: int| 0 <= j < areas.len() && areas[j]@.area.includes_area(x.area);
            if j == 0 {
                crate::grouping::lemma_includes_nonempty_intersects(a0@.area, x.area);
                assert(area_match(v.interests, ns, a0@.area));
                assert(!shrink_bucket(v.interests[ns], a0@.area).contains(x));
                assert(false);
            } else {
                assert(areas.drop_first()[j - 1]@.area.includes_area(x.area));
            }
        }
        if v1.interests.dom().contains(ns) {
            if !(exists|x: AoiV| v1.interests[ns].contains(x)) {
                assert(v1.interests[ns] =~= Set::<AoiV>::empty());
                if area_match(v.interests, ns, a0@.area) {
                    assert(!shrink_bucket(v.interests[ns], a0@.area).is_empty());
                    assert(false);
                } else {
                    let x = choose|x: AoiV| v.interests[ns].contains(x);
                    assert(v1.interests[ns].contains(x));
                    assert(false);
                }
            }
        }
        lemma_catchup_bucket_covers(v1, ns, areas.drop_first());
        assert(catchup_bucket(v, ns, areas).0 == catchup_bucket(v1, ns, areas.drop_first()).0);
        assert(v1.interests.remove(ns) =~= v.interests.remove(ns));
    }
}

/// A late joiner whose every interest is entirely contained in already
/// reconciled areas completes synchronously at submission: the cache
/// replay empties its interests, so (in reconcile-once mode) it is not
/// registered and no `SubmitInterests` effect is produced.
pub proof fn lemma_late_joiner(
    v: IntentInfoV,
    cache: Seq<(NamespaceId, Vec<AreaOfInterest>)>,
)
    requires
        ni_wf(cache),
        v.mode == SessionMode::ReconcileOnce,
        forall|ns: NamespaceId, x: AoiV|
            v.interests.dom().contains(ns) && #[trigger] v.interests[ns].contains(x)
                ==> x.area.is_nonempty() && exists|i: int|
                0 <= i < cache.len() && cache[i].0 == ns && covered_by_bucket(x, cache[i].1@),
        forall|ns: NamespaceId|
            #[trigger] v.interests.dom().contains(ns) ==> exists|x: AoiV|
                v.interests[ns].contains(x),
    ensures
        catchup_all(v, cache).0.is_complete(),
    decreases cache.len(),
{
    if cache.len() == 0 {
        assert forall|ns: NamespaceId| !v.interests.dom().contains(ns) by {
            if v.interests.dom().contains(ns) {
                let x = choose|x: AoiV| v.interests[ns].contains(x);
                let i = choose|i: int|
                    0 <= i < cache.len() && cache[i].0 == ns && covered_by_bucket(
                        x,
                        cache[i].1@,
                    );
            }
        }
        assert(v.interests.dom() =~= Set::<NamespaceId>::empty());
    } else {
        let ns0 = cache[0].0;
        assert forall|x: AoiV| #[trigger] v.interests.dom().contains(ns0)
            && v.interests[ns0].contains(x) implies x.area.is_nonempty() && covered_by_bucket(
            x,
            cache[0].1@,
        ) by {
            let i = choose|i: int|
                0 <= i < cache.len() && cache[i].0 == ns0 && covered_by_bucket(x, cache[i].1@);
            if i != 0 {
                assert(cache[0].0 != cache[i].0);
            }
        }
        lemma_catchup_bucket_covers(v, ns0, cache[0].1@);
        let vb = catchup_bucket(v, ns0, cache[0].1@).0;
        assert(vb.interests == v.interests.remove(ns0));
        assert forall|i: int, j: int|
            0 <= i < j < cache.drop_first().len() implies cache.drop_first()[i].0
            != cache.drop_first()[j].0 by {
            assert(cache[i + 1].0 != cache[j + 1].0);
        }
        assert forall|ns: NamespaceId, x: AoiV|
            vb.interests.dom().contains(ns) && #[trigger] vb.interests[ns].contains(x)
                implies x.area.is_nonempty() && exists|i: int|
                0 <= i < cache.drop_first().len() && cache.drop_first()[i].0 == ns
                    && covered_by_bucket(x, cache.drop_first()[i].1@) by {
            assert(ns != ns0);
            assert(v.interests.dom().contains(ns));
            assert(v.interests[ns].contains(x));
            let i = choose|i: int|
                0 <= i < cache.len() && cache[i].0 == ns && covered_by_bucket(x, cache[i].1@);
            assert(i != 0);
            assert(cache.drop_first()[i - 1].0 == ns && covered_by_bucket(
                x,
                cache.drop_first()[i - 1].1@,
            ));
        }
        assert forall|ns: NamespaceId| #[trigger] vb.interests.dom().contains(ns)
            implies exists|x: AoiV| vb.interests[ns].contains(x) by {
            assert(ns != ns0);
            assert(vb.interests[ns] == v.interests[ns]);
            let x = choose|x: AoiV| v.interests[ns].contains(x);
            assert(vb.interests[ns].contains(x));
        }
        lemma_late_joiner(vb, cache.drop_first());
    }
}

/// At the dispatcher level: after a fan-out, no registered intent is
/// complete. An intent remains registered only while interests genuinely
/// remain unreconciled.
pub proof fn lemma_no_complete_after_emit<R>(
    pre: IntentDispatcher<R>,
    post: IntentDispatcher<R>,
    e: EventKindV,
    k: int,
)
    requires
        registry_views(post.intents@) == emit_registry(registry_views(pre.intents@), e),
        0 <= k < post.intents@.len(),
    ensures
        !post.intents@[k].1@.is_complete(),
{
    lemma_no_complete_registered(registry_views(pre.intents@), e, k);
    assert(registry_views(post.intents@)[k].1 == post.intents@[k].1@);
}

/// At the dispatcher level: a late joiner whose every declared interest is
/// entirely contained in already reconciled areas is not registered by its
/// submission, and no `SubmitInterests` effect is produced for it.
pub proof fn lemma_late_joiner_submit<R>(
    pre: IntentDispatcher<R>,
    post: IntentDispatcher<R>,
    intent: Intent,
    interests: InterestMap,
    out: SubmitOutcome,
)
    requires
        submit_post(pre, post, intent, interests, out),
        ni_wf(pre.complete_areas@),
        intent.init.mode == SessionMode::ReconcileOnce,
        forall|ns: NamespaceId, x: AoiV|
            flat_view(interests@).dom().contains(ns) && #[trigger] flat_view(
                interests@,
            )[ns].contains(x) ==> x.area.is_nonempty() && exists|i: int|
                0 <= i < pre.complete_areas@.len() && pre.complete_areas@[i].0 == ns
                    && covered_by_bucket(x, pre.complete_areas@[i].1@),
        forall|ns: NamespaceId|
            #[trigger] flat_view(interests@).dom().contains(ns) ==> exists|x: AoiV|
                flat_view(interests@)[ns].contains(x),
    ensures
        !out.registered,
        out.effect is None,
        post.intents == pre.intents,
{
    let v0 = IntentInfoV {
        interests: flat_view(interests@),
        mode: intent.init.mode,
        has_sink: intent.channels is Some,
    };
    lemma_late_joiner(v0, pre.complete_areas@);
}

} // verus!
