//! End-to-end exercises of the intent dispatcher state machine, driving it
//! the way the session shell would: submitting intents, emitting events,
//! performing the channel sends it asks for, and reporting outcomes back.

use spaces_sync::dispatcher::{IntentDispatcher, InterestResolver, UpdateError};
use spaces_sync::grouping::{Area, AreaOfInterest, AreaSubspace, Path, RangeEnd, TimeRange};
use spaces_sync::intents::{Completion, EventKind, Intent, IntentUpdate};
use spaces_sync::interest::{
    AreaOfInterestSelector, CapSelector, InterestMap, Interests, ReadAuthorisation,
};
use spaces_sync::keys::NamespaceId;
use spaces_sync::session::{ResolveError, SessionError, SessionInit, SessionMode};

fn ns(n: u64) -> NamespaceId {
    NamespaceId(n)
}

fn full_aoi() -> AreaOfInterest {
    AreaOfInterest::new(Area::full())
}

fn path_aoi(components: &[u64]) -> AreaOfInterest {
    let area = Area {
        subspace: AreaSubspace::Any,
        path: Path::from_components(components.to_vec()),
        times: TimeRange { start: 0, end: RangeEnd::Open },
    };
    AreaOfInterest::new(area)
}

fn resolved(namespace: NamespaceId, aois: Vec<AreaOfInterest>) -> InterestMap {
    vec![(ReadAuthorisation { namespace, cap: 0 }, aois)]
}

fn once_init() -> SessionInit {
    SessionInit::reconcile_once(Interests::builder())
}

/// Resolves every selector to the full area of its namespace.
struct FullResolver;

impl InterestResolver for FullResolver {
    fn resolve_interests(&self, interests: &Interests) -> Result<InterestMap, ResolveError> {
        let mut out: InterestMap = Vec::new();
        for entry in interests.entries.iter() {
            out.push((
                ReadAuthorisation { namespace: entry.0.namespace, cap: 0 },
                vec![full_aoi()],
            ));
        }
        Ok(out)
    }
}

/// Refuses every resolution.
struct NoCapResolver;

impl InterestResolver for NoCapResolver {
    fn resolve_interests(&self, _interests: &Interests) -> Result<InterestMap, ResolveError> {
        Err(ResolveError::NoCapability)
    }
}

#[test]
fn reconcile_once_full_flow() {
    // One intent over namespace N with a single full-area interest, in
    // reconcile-once mode; a Reconciled event over the full area must hand
    // it exactly [Reconciled, ReconciledAll] and remove it.
    let n = ns(7);
    let (intent, handle) = Intent::new(once_init());
    let mut disp: IntentDispatcher<()> = IntentDispatcher::new((), Vec::new());
    let out = disp.submit_resolved(intent, resolved(n, vec![full_aoi()]));
    assert_eq!(out.intent_id, 0);
    assert!(out.registered);
    assert!(out.effect.is_some());
    assert!(out.update_rx.is_some());
    assert!(out.deliveries.is_empty());
    assert_eq!(disp.intent_count(), 1);

    let event = EventKind::Reconciled { namespace: n, area: full_aoi() };
    let emit = disp.emit_event(&event);
    assert_eq!(emit.deliveries.len(), 2);
    assert_eq!(emit.deliveries[0].0, 0);
    assert!(matches!(emit.deliveries[1].1, EventKind::ReconciledAll));
    assert!(emit.all_dropped);
    assert_eq!(disp.intent_count(), 0);

    // The intent completed, so its sink comes back retired: send the two
    // deliveries into it, then drop it.
    assert_eq!(emit.retired.len(), 1);
    assert_eq!(emit.retired[0].0, 0);
    for (_, ev) in emit.deliveries {
        emit.retired[0].1.try_send(ev).unwrap();
    }
    drop(emit.retired);

    let mut handle = handle;
    let first = handle.event_rx.try_recv().unwrap();
    handle.note_event(&first);
    assert!(matches!(first, EventKind::Reconciled { .. }));
    let second = handle.event_rx.try_recv().unwrap();
    handle.note_event(&second);
    assert!(matches!(second, EventKind::ReconciledAll));
    assert!(handle.event_rx.try_recv().is_err());
    assert_eq!(handle.verdict(), Ok(Completion::Complete));
    // Reading the verdict again after the stream ended gives the same
    // answer.
    assert_eq!(handle.verdict(), Ok(Completion::Complete));
}

#[test]
fn overlapping_intents_narrow_completes_first() {
    // Intent a over the narrow area, intent b over the wide one that
    // contains it; reconciling the narrow area completes a and leaves b
    // registered with its interest reduced only by full containment.
    let n = ns(1);
    let narrow = path_aoi(&[1, 2]);
    let wide = path_aoi(&[1]);
    let (intent_a, _handle_a) = Intent::new(once_init());
    let (intent_b, _handle_b) = Intent::new(once_init());
    let mut disp: IntentDispatcher<()> = IntentDispatcher::new((), Vec::new());
    let out_a = disp.submit_resolved(intent_a, resolved(n, vec![narrow.clone()]));
    let out_b = disp.submit_resolved(intent_b, resolved(n, vec![wide.clone()]));
    assert_eq!(out_a.intent_id, 0);
    assert_eq!(out_b.intent_id, 1);

    let event = EventKind::Reconciled { namespace: n, area: narrow };
    let emit = disp.emit_event(&event);
    // a gets the event plus ReconciledAll; b overlaps so it gets the event,
    // but its wider interest is not contained in the narrow area.
    assert_eq!(emit.deliveries.len(), 3);
    assert_eq!(emit.deliveries[0].0, 0);
    assert!(matches!(emit.deliveries[1].1, EventKind::ReconciledAll));
    assert_eq!(emit.deliveries[2].0, 1);
    assert!(matches!(emit.deliveries[2].1, EventKind::Reconciled { .. }));
    assert!(!emit.all_dropped);
    assert_eq!(disp.intent_count(), 1);
    assert_eq!(emit.retired.len(), 1);
    assert_eq!(emit.retired[0].0, 0);
}

#[test]
fn late_joiner_completes_at_submission() {
    // Two areas are reconciled before the intent arrives; an intent whose
    // interest is exactly their union completes synchronously at
    // submission, with no interest-submission effect.
    let n = ns(3);
    let a = path_aoi(&[1]);
    let b = path_aoi(&[2]);
    let mut disp: IntentDispatcher<()> = IntentDispatcher::new((), Vec::new());
    let r1 = disp.emit_event(&EventKind::Reconciled { namespace: n, area: a.clone() });
    let r2 = disp.emit_event(&EventKind::Reconciled { namespace: n, area: b.clone() });
    assert!(r1.deliveries.is_empty() && r2.deliveries.is_empty());

    let (intent, mut handle) = Intent::new(once_init());
    let out = disp.submit_resolved(intent, resolved(n, vec![a, b]));
    assert!(!out.registered);
    assert!(out.effect.is_none());
    assert!(out.update_rx.is_none());
    assert_eq!(disp.intent_count(), 0);
    // The catch-up ends in ReconciledAll; the driver sends it through the
    // returned sink.
    assert_eq!(out.deliveries.len(), 3);
    assert!(matches!(out.deliveries[2], EventKind::ReconciledAll));
    let sink = out.unregistered_sink.expect("sink of an unregistered intent");
    for ev in out.deliveries {
        sink.try_send(ev).unwrap();
    }
    drop(sink);
    while let Ok(ev) = handle.event_rx.try_recv() {
        handle.note_event(&ev);
    }
    assert_eq!(handle.verdict(), Ok(Completion::Complete));
}

#[test]
fn cache_replays_only_matching_areas() {
    // A cached area in another part of the namespace does not touch a
    // disjoint late interest: the intent registers normally.
    let n = ns(4);
    let cached = path_aoi(&[1]);
    let disjoint = path_aoi(&[2]);
    let mut disp: IntentDispatcher<()> = IntentDispatcher::new((), Vec::new());
    disp.emit_event(&EventKind::Reconciled { namespace: n, area: cached });
    let intent = Intent::new_detached(once_init());
    let out = disp.submit_resolved(intent, resolved(n, vec![disjoint]));
    assert!(out.registered);
    assert!(out.deliveries.is_empty());
    assert!(out.effect.is_some());
}

#[test]
fn duplicate_reconciled_cached_once() {
    // The same area reconciled twice is cached once: a late joiner sees a
    // single replayed Reconciled event.
    let n = ns(5);
    let a = path_aoi(&[9]);
    let mut disp: IntentDispatcher<()> = IntentDispatcher::new((), Vec::new());
    disp.emit_event(&EventKind::Reconciled { namespace: n, area: a.clone() });
    disp.emit_event(&EventKind::Reconciled { namespace: n, area: a.clone() });
    let intent = Intent::new_detached(once_init());
    let out = disp.submit_resolved(intent, resolved(n, vec![a]));
    assert!(!out.registered);
    assert_eq!(out.deliveries.len(), 2);
    assert!(matches!(out.deliveries[0], EventKind::Reconciled { .. }));
    assert!(matches!(out.deliveries[1], EventKind::ReconciledAll));
}

#[test]
fn continuous_intent_stays_after_catching_up() {
    // A continuous-mode intent receives ReconciledAll but remains
    // registered for future live updates.
    let n = ns(6);
    let (intent, _handle) = Intent::new(SessionInit::continuous(Interests::builder()));
    let mut disp: IntentDispatcher<()> = IntentDispatcher::new((), Vec::new());
    disp.submit_resolved(intent, resolved(n, vec![full_aoi()]));
    let emit = disp.emit_event(&EventKind::Reconciled { namespace: n, area: full_aoi() });
    assert_eq!(emit.deliveries.len(), 2);
    assert!(matches!(emit.deliveries[1].1, EventKind::ReconciledAll));
    assert!(!emit.all_dropped);
    assert_eq!(disp.intent_count(), 1);
    assert!(emit.retired.is_empty());
}

#[test]
fn capability_and_interest_intersection_matching() {
    // CapabilityIntersection matches by namespace; InterestIntersection by
    // area overlap; an event for another namespace reaches nobody.
    let n = ns(8);
    let other = ns(9);
    let (intent, _handle) = Intent::new(once_init());
    let mut disp: IntentDispatcher<()> = IntentDispatcher::new((), Vec::new());
    disp.submit_resolved(intent, resolved(n, vec![path_aoi(&[1])]));

    let cap_hit = disp.emit_event(&EventKind::CapabilityIntersection {
        namespace: n,
        area: Area::full(),
    });
    assert_eq!(cap_hit.deliveries.len(), 1);

    let cap_miss = disp.emit_event(&EventKind::CapabilityIntersection {
        namespace: other,
        area: Area::full(),
    });
    assert!(cap_miss.deliveries.is_empty());

    let int_hit = disp.emit_event(&EventKind::InterestIntersection {
        namespace: n,
        area: path_aoi(&[1, 5]),
    });
    assert_eq!(int_hit.deliveries.len(), 1);

    let int_miss = disp.emit_event(&EventKind::InterestIntersection {
        namespace: n,
        area: path_aoi(&[2]),
    });
    assert!(int_miss.deliveries.is_empty());

    // An abort reaches every registered intent.
    let abort = disp.emit_event(&EventKind::Abort { error: SessionError::ConnectionLost });
    assert_eq!(abort.deliveries.len(), 1);
    assert!(matches!(abort.deliveries[0].1, EventKind::Abort { .. }));
}

#[test]
fn add_interests_and_close_updates() {
    let n = ns(10);
    let (intent, _handle) = Intent::new(once_init());
    let mut disp = IntentDispatcher::new(FullResolver, Vec::new());
    let out = disp.submit_resolved(intent, resolved(n, vec![path_aoi(&[1])]));
    let id = out.intent_id;

    // Adding interests resolves them and owes a fresh SubmitInterests
    // effect scoped to the newly added areas.
    let add = Interests::builder().add_full_cap(CapSelector::any(ns(11)));
    let upd = disp.update_intent(id, IntentUpdate::AddInterests(add)).unwrap();
    let effect = upd.effect.expect("a fresh SubmitInterests effect");
    assert_eq!(effect.len(), 1);
    assert_eq!(effect[0].0.namespace, ns(11));
    assert!(!upd.all_dropped);

    // The merged interest now matches the new namespace too.
    let hit = disp.emit_event(&EventKind::CapabilityIntersection {
        namespace: ns(11),
        area: Area::full(),
    });
    assert_eq!(hit.deliveries.len(), 1);

    // An unknown intent is reported as such.
    let unknown = disp.update_intent(99, IntentUpdate::AddInterests(Interests::builder()));
    assert!(matches!(unknown, Err(UpdateError::UnknownIntent)));

    // A close removes the intent and signals the empty registry.
    let closed = disp.update_intent(id, IntentUpdate::Close).unwrap();
    assert!(closed.effect.is_none());
    assert!(closed.all_dropped);
    assert_eq!(disp.intent_count(), 0);
}

#[test]
fn resolution_failure_leaves_dispatcher_unchanged() {
    let (intent, _handle) = Intent::new(once_init());
    let mut disp = IntentDispatcher::new(NoCapResolver, Vec::new());
    let r = disp.submit_intent(intent);
    assert!(matches!(r, Err(ResolveError::NoCapability)));
    assert_eq!(disp.intent_count(), 0);

    // A failed resolution of an update is surfaced and drops the update.
    let (intent2, _handle2) = Intent::new(once_init());
    let out = disp.submit_resolved(intent2, resolved(ns(1), vec![full_aoi()]));
    let bad = disp.update_intent(
        out.intent_id,
        IntentUpdate::AddInterests(Interests::builder()),
    );
    assert!(matches!(bad, Err(UpdateError::Resolution(ResolveError::NoCapability))));
    assert_eq!(disp.intent_count(), 1);
}

#[test]
fn submit_intent_through_resolver() {
    let n = ns(12);
    let init = SessionInit::new(
        Interests::builder().add(CapSelector::any(n), AreaOfInterestSelector::Widest),
        SessionMode::ReconcileOnce,
    );
    let (intent, _handle) = Intent::new(init);
    let mut disp = IntentDispatcher::new(FullResolver, Vec::new());
    let out = disp.submit_intent(intent).unwrap();
    assert!(out.registered);
    let effect = out.effect.unwrap();
    assert_eq!(effect.len(), 1);
    assert_eq!(effect[0].0.namespace, n);
}

#[test]
fn update_source_closed_cancels_once_events_gone() {
    let n = ns(13);
    let (intent, handle) = Intent::new(once_init());
    let mut disp: IntentDispatcher<()> = IntentDispatcher::new((), Vec::new());
    let out = disp.submit_resolved(intent, resolved(n, vec![full_aoi()]));
    let id = out.intent_id;

    // While the consumer still holds the event receiver, a closed update
    // source alone does not cancel the intent.
    let (update_tx, event_rx) = handle.split();
    drop(update_tx);
    let r = disp.update_source_closed(id);
    assert!(!r.cancelled);
    assert_eq!(disp.intent_count(), 1);

    // Once the event receiver is gone too, the intent is cancelled.
    drop(event_rx);
    let r2 = disp.update_source_closed(id);
    assert!(r2.cancelled);
    assert!(r2.all_dropped);
    assert_eq!(disp.intent_count(), 0);
}

#[test]
fn delivery_failure_cancels_unwatched_intent() {
    // A detached intent has no update source to watch; a failed delivery
    // cancels it outright.
    let n = ns(14);
    let intent = Intent::new_detached(SessionInit::continuous(Interests::builder()));
    let mut disp: IntentDispatcher<()> = IntentDispatcher::new((), Vec::new());
    let out = disp.submit_resolved(intent, resolved(n, vec![full_aoi()]));
    let r = disp.delivery_failed(out.intent_id);
    assert!(r.cancelled);
    assert!(r.now_empty);
    assert_eq!(disp.intent_count(), 0);

    // A watched intent survives the failure: its open update source may
    // still want to drive it.
    let (intent2, _handle) = Intent::new(once_init());
    let out2 = disp.submit_resolved(intent2, resolved(n, vec![full_aoi()]));
    let r2 = disp.delivery_failed(out2.intent_id);
    assert!(!r2.cancelled);
    assert_eq!(disp.intent_count(), 1);
}

#[test]
fn slow_consumer_does_not_block_other_intent() {
    // Intent a never drains its sink; its channel fills up. Deliveries to
    // intent b are computed and sent independently.
    let n = ns(15);
    let (intent_a, _handle_a) = Intent::new(once_init());
    let (intent_b, mut handle_b) = Intent::new(once_init());
    let mut disp: IntentDispatcher<()> = IntentDispatcher::new((), Vec::new());
    let id_a = disp.submit_resolved(intent_a, resolved(n, vec![full_aoi()])).intent_id;
    let id_b = disp.submit_resolved(intent_b, resolved(n, vec![full_aoi()])).intent_id;

    // Fill a's bounded sink to capacity.
    {
        let sink_a = disp.event_sink(id_a).unwrap();
        for _ in 0..64 {
            sink_a
                .try_send(EventKind::CapabilityIntersection {
                    namespace: n,
                    area: Area::full(),
                })
                .unwrap();
        }
        assert!(sink_a
            .try_send(EventKind::ReconciledAll)
            .is_err());
    }

    // An event matching both intents is owed to both...
    let emit = disp.emit_event(&EventKind::InterestIntersection {
        namespace: n,
        area: full_aoi(),
    });
    let to_b: Vec<&EventKind> = emit
        .deliveries
        .iter()
        .filter(|(id, _)| *id == id_b)
        .map(|(_, ev)| ev)
        .collect();
    assert_eq!(to_b.len(), 1);

    // ...and b's can be sent even while a's sink is full.
    for (id, ev) in emit.deliveries {
        if id == id_b {
            disp.event_sink(id_b).unwrap().try_send(ev).unwrap();
        }
    }
    let got = handle_b.event_rx.try_recv().unwrap();
    assert!(matches!(got, EventKind::InterestIntersection { .. }));
}

#[test]
fn subspace_restricted_interest_matching() {
    // An intent interested only in one subspace ignores areas reconciled
    // in another, and completes when its own subspace is covered.
    let n = ns(20);
    let mine = AreaOfInterest::new(Area::subspace(spaces_sync::keys::SubspaceId(1)));
    let other = AreaOfInterest::new(Area::subspace(spaces_sync::keys::SubspaceId(2)));
    let intent = Intent::new_detached(once_init());
    let mut disp: IntentDispatcher<()> = IntentDispatcher::new((), Vec::new());
    disp.submit_resolved(intent, resolved(n, vec![mine.clone()]));

    let miss = disp.emit_event(&EventKind::Reconciled { namespace: n, area: other });
    assert!(miss.deliveries.is_empty());
    assert_eq!(disp.intent_count(), 1);

    let hit = disp.emit_event(&EventKind::Reconciled { namespace: n, area: mine });
    assert!(hit.deliveries.is_empty());
    assert!(hit.all_dropped);
    assert_eq!(disp.intent_count(), 0);
}

#[test]
fn drain_returns_pending_and_aborts_active() {
    // One intent still pending (never submitted), one active and
    // incomplete: the drain returns the pending intent verbatim and hands
    // out the active intent's sink, which then receives the abort.
    let n = ns(16);
    let (pending_intent, _pending_handle) = Intent::new(once_init());
    let (active_intent, mut active_handle) = Intent::new(once_init());
    let mut disp: IntentDispatcher<()> = IntentDispatcher::new((), vec![pending_intent]);
    let first = disp.pop_pending();
    assert!(first.is_some());
    // Put it back aside as the driver would for a teardown overflow list.
    let overflow = vec![first.unwrap()];
    disp.submit_resolved(active_intent, resolved(n, vec![full_aoi()]));

    let remaining = disp.drain_all(overflow);
    assert_eq!(remaining.queued.len(), 1);
    assert_eq!(remaining.active_incomplete.len(), 1);

    let (sinks, queued) = remaining.abort_active_sinks();
    assert_eq!(queued.len(), 1);
    assert_eq!(queued[0].init.mode, SessionMode::ReconcileOnce);
    for sink in &sinks {
        sink.try_send(EventKind::Abort { error: SessionError::Cancelled }).unwrap();
    }
    drop(sinks);
    let got = active_handle.event_rx.try_recv().unwrap();
    active_handle.note_event(&got);
    assert_eq!(active_handle.verdict(), Err(SessionError::Cancelled));
}

#[test]
fn abort_all_reaches_queued_and_active() {
    let n = ns(17);
    let (queued_intent, mut queued_handle) = Intent::new(once_init());
    let (active_intent, mut active_handle) = Intent::new(once_init());
    let mut disp: IntentDispatcher<()> = IntentDispatcher::new((), Vec::new());
    disp.submit_resolved(active_intent, resolved(n, vec![full_aoi()]));
    let remaining = disp.drain_all(vec![queued_intent]);
    let sinks = remaining.abort_all_sinks();
    assert_eq!(sinks.len(), 2);
    for sink in &sinks {
        sink.try_send(EventKind::Abort { error: SessionError::ProtocolViolation }).unwrap();
    }
    drop(sinks);
    for handle in [&mut queued_handle, &mut active_handle] {
        let got = handle.event_rx.try_recv().unwrap();
        assert!(matches!(got, EventKind::Abort { .. }));
    }
}
