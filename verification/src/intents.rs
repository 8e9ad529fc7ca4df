//! Intents: caller-visible handles onto a synchronisation session.
//!
//! An intent tracks reconciliation progress for a resolved interest set.
//! A non-detached intent is paired with an [`IntentHandle`]: a bounded event
//! channel towards the consumer and a bounded update channel back into the
//! session. The handle latches completion state as events are pulled, so a
//! final verdict can be read at any time.

use vstd::prelude::*;

use tokio::sync::mpsc::{channel, Receiver, Sender};

use crate::grouping::{AoiV, Area, AreaOfInterest, AreaV};
use crate::interest::{InterestMap, Interests};
use crate::keys::NamespaceId;
use crate::session::{SessionError, SessionInit};

verus! {

/// Capacity of an intent's update channel.
pub const INTENT_UPDATE_CAP: usize = 16;

/// Capacity of an intent's event channel.
pub const INTENT_EVENT_CAP: usize = 64;

/// Identifier the dispatcher assigns to an accepted intent.
pub type IntentId = u64;

/// The ghost value of an [`EventKind`].
#[allow(inconsistent_fields)]
pub ghost enum EventKindV {
    /// A capability intersection with the peer was found in this namespace.
    CapabilityIntersection { namespace: NamespaceId, area: AreaV },
    /// An interest intersection was found; the area will be synchronised.
    InterestIntersection { namespace: NamespaceId, area: AoiV },
    /// An area was reconciled.
    Reconciled { namespace: NamespaceId, area: AoiV },
    /// Every interest of the intent was reconciled.
    ReconciledAll,
    /// The session was closed with an error.
    Abort { error: SessionError },
}

/// Events emitted from a session for a synchronisation intent.
#[allow(inconsistent_fields)]
#[derive(PartialEq, Eq, Debug)]
pub enum EventKind {
    /// We found an intersection between our and the peer's capabilities.
    CapabilityIntersection {
        /// The namespace concerned.
        namespace: NamespaceId,
        /// The granted area the capabilities intersect in.
        area: Area,
    },
    /// We found an intersection between our and the peer's interests and
    /// will start to synchronise the area.
    InterestIntersection {
        /// The namespace concerned.
        namespace: NamespaceId,
        /// The overlapping area of interest.
        area: AreaOfInterest,
    },
    /// We reconciled an area.
    Reconciled {
        /// The namespace concerned.
        namespace: NamespaceId,
        /// The reconciled area of interest.
        area: AreaOfInterest,
    },
    /// We reconciled all interests submitted in this intent.
    ReconciledAll,
    /// The session was closed with an error.
    Abort {
        /// The shared session failure.
        error: SessionError,
    },
}

impl View for EventKind {
    type V = EventKindV;

    open spec fn view(&self) -> EventKindV {
        match self {
            EventKind::CapabilityIntersection { namespace, area } => {
                EventKindV::CapabilityIntersection { namespace: *namespace, area: area@ }
            },
            EventKind::InterestIntersection { namespace, area } => {
                EventKindV::InterestIntersection { namespace: *namespace, area: area@ }
            },
            EventKind::Reconciled { namespace, area } => {
                EventKindV::Reconciled { namespace: *namespace, area: area@ }
            },
            EventKind::ReconciledAll => EventKindV::ReconciledAll,
            EventKind::Abort { error } => EventKindV::Abort { error: *error },
        }
    }
}

impl Clone for EventKind {
    fn clone(&self) -> (r: Self)
        ensures
            r@ == self@,
    {
        match self {
            EventKind::CapabilityIntersection { namespace, area } => {
                EventKind::CapabilityIntersection { namespace: *namespace, area: area.clone() }
            },
            EventKind::InterestIntersection { namespace, area } => {
                EventKind::InterestIntersection { namespace: *namespace, area: area.clone() }
            },
            EventKind::Reconciled { namespace, area } => {
                EventKind::Reconciled { namespace: *namespace, area: area.clone() }
            },
            EventKind::ReconciledAll => EventKind::ReconciledAll,
            EventKind::Abort { error } => EventKind::Abort { error: *error },
        }
    }
}

impl EventKind {
    /// The namespace an event concerns, when it concerns one.
    pub fn namespace(&self) -> (r: Option<NamespaceId>)
        ensures
            r == match self@ {
                EventKindV::CapabilityIntersection { namespace, .. } => Some(namespace),
                EventKindV::InterestIntersection { namespace, .. } => Some(namespace),
                EventKindV::Reconciled { namespace, .. } => Some(namespace),
                _ => None::<NamespaceId>,
            },
    {
        match self {
            EventKind::CapabilityIntersection { namespace, .. } => Some(*namespace),
            EventKind::InterestIntersection { namespace, .. } => Some(*namespace),
            EventKind::Reconciled { namespace, .. } => Some(*namespace),
            _ => None,
        }
    }
}

/// The ghost values of a sequence of events.
pub open spec fn event_views(s: Seq<EventKind>) -> Seq<EventKindV> {
    s.map_values(|e: EventKind| e@)
}

/// Updates that may be submitted from an intent into the session.
#[derive(PartialEq, Eq, Debug)]
pub enum IntentUpdate {
    /// Submit new interests into the session.
    AddInterests(Interests),
    /// Close the intent early; not required, but frees the intent's
    /// bookkeeping before the consumer is dropped.
    Close,
}

/// Outcome of driving an intent to completion.
#[derive(Clone, Copy, PartialEq, Eq, Structural, Debug)]
pub enum Completion {
    /// All interests were reconciled.
    Complete,
    /// Some interests were reconciled.
    Partial,
    /// No interests were reconciled.
    Nothing,
}

/// Latched completion state of an intent's event stream: which outcomes
/// have been observed so far.
#[derive(Clone, Copy, PartialEq, Eq, Structural, Debug)]
pub struct IntentProgress {
    /// A `ReconciledAll` event was observed.
    pub complete: bool,
    /// A `Reconciled` event was observed.
    pub partial: bool,
    /// The first `Abort` error observed, if any.
    pub failed: Option<SessionError>,
}

impl IntentProgress {
    /// Fresh state: nothing observed yet.
    pub fn new() -> (r: IntentProgress)
        ensures
            r == IntentProgress::init(),
    {
        IntentProgress { complete: false, partial: false, failed: None }
    }

    /// The fresh state.
    pub open spec fn init() -> IntentProgress {
        IntentProgress { complete: false, partial: false, failed: None }
    }

    /// How one event advances the state. The first abort error is kept.
    pub open spec fn spec_step(self, e: EventKindV) -> IntentProgress {
        match e {
            EventKindV::ReconciledAll => IntentProgress { complete: true, ..self },
            EventKindV::Reconciled { .. } => IntentProgress { partial: true, ..self },
            EventKindV::Abort { error } => if self.failed is Some {
                self
            } else {
                IntentProgress { failed: Some(error), ..self }
            },
            _ => self,
        }
    }

    /// How a whole sequence of events advances the state.
    pub open spec fn spec_fold(self, s: Seq<EventKindV>) -> IntentProgress
        decreases s.len(),
    {
        if s.len() == 0 {
            self
        } else {
            self.spec_step(s[0]).spec_fold(s.drop_first())
        }
    }

    /// The verdict read off the latched flags, abort first.
    pub open spec fn spec_verdict(self) -> Result<Completion, SessionError> {
        match self.failed {
            Some(e) => Err(e),
            None => if self.complete {
                Ok(Completion::Complete)
            } else if self.partial {
                Ok(Completion::Partial)
            } else {
                Ok(Completion::Nothing)
            },
        }
    }

    /// Advances the state by one observed event.
    pub fn handle_event(&mut self, event: &EventKind)
        ensures
            *final(self) == old(self).spec_step(event@),
    {
        match event {
            EventKind::ReconciledAll => {
                self.complete = true;
            },
            EventKind::Reconciled { .. } => {
                self.partial = true;
            },
            EventKind::Abort { error } => {
                if self.failed.is_none() {
                    self.failed = Some(*error);
                }
            },
            _ => {},
        }
    }

    /// The verdict for the state observed so far. Reading it does not
    /// change the state, so repeated calls agree.
    pub fn verdict(&self) -> (r: Result<Completion, SessionError>)
        ensures
            r == self.spec_verdict(),
    {
        match self.failed {
            Some(e) => Err(e),
            None => if self.complete {
                Ok(Completion::Complete)
            } else if self.partial {
                Ok(Completion::Partial)
            } else {
                Ok(Completion::Nothing)
            },
        }
    }
}

/// Once an event stream has ended, repeated verdicts agree: folding no
/// further events leaves the latched state, and with it the verdict,
/// unchanged.
pub proof fn lemma_verdict_idempotent(t: IntentProgress, s: Seq<EventKindV>)
    ensures
        t.spec_fold(s).spec_fold(Seq::<EventKindV>::empty()) == t.spec_fold(s),
        t.spec_fold(s).spec_fold(Seq::<EventKindV>::empty()).spec_verdict() == t.spec_fold(
            s,
        ).spec_verdict(),
{
}

/// An abort outweighs any partial progress: whatever was observed before,
/// as long as no earlier abort was, an `Abort` event makes the verdict that
/// abort's error.
pub proof fn lemma_abort_overrides(t: IntentProgress, e: SessionError)
    requires
        t.failed is None,
    ensures
        t.spec_step(EventKindV::Abort { error: e }).spec_verdict() == Err::<
            Completion,
            SessionError,
        >(e),
{
}

/// The error type of a failed update submission: the receiving side is gone.
/// Carries the update that could not be delivered.
#[derive(Debug)]
pub struct SendError<T>(pub T);

/// The session-facing halves of a non-detached intent's channels.
#[derive(Debug)]
pub struct IntentChannels {
    /// Where the dispatcher delivers events for this intent.
    pub event_tx: Sender<EventKind>,
    /// Where updates submitted through the handle arrive.
    pub update_rx: Receiver<IntentUpdate>,
}

/// A synchronisation intent: a list of interests to synchronise, optionally
/// paired with the channels of an [`IntentHandle`]. A *detached* intent has
/// no channels: it contributes interests but nothing observes it.
#[derive(Debug)]
pub struct Intent {
    /// The interest declaration and mode this intent asks for.
    pub init: SessionInit,
    /// The session-facing channel halves, absent for a detached intent.
    pub channels: Option<IntentChannels>,
}

impl Intent {
    /// Creates an intent with an associated handle, bound by fixed channel
    /// capacities. The intent must be passed into a session; the handle
    /// must be drained, otherwise delivery to this intent blocks.
    pub fn new(init: SessionInit) -> (r: (Intent, IntentHandle))
        ensures
            r.0.init == init,
            r.0.channels is Some,
            r.1.state == IntentProgress::init(),
    {
        Self::new_with_cap(init, INTENT_EVENT_CAP, INTENT_UPDATE_CAP)
    }

    /// Creates a detached intent: interests are submitted and tracked, but
    /// no events are delivered and no updates can be made.
    pub fn new_detached(init: SessionInit) -> (r: Intent)
        ensures
            r.init == init,
            r.channels is None,
    {
        Intent { init, channels: None }
    }

    /// Creates a bound intent/handle pair with the given capacities.
    fn new_with_cap(init: SessionInit, event_cap: usize, update_cap: usize) -> (r: (
        Intent,
        IntentHandle,
    ))
        requires
            1 <= event_cap <= usize::MAX / 8,
            1 <= update_cap <= usize::MAX / 8,
        ensures
            r.0.init == init,
            r.0.channels is Some,
            r.1.state == IntentProgress::init(),
    {
        let (event_tx, event_rx) = channel(event_cap);
        let (update_tx, update_rx) = channel(update_cap);
        let handle = IntentHandle::new(update_tx, event_rx);
        let channels = IntentChannels { event_tx, update_rx };
        let intent = Intent { init, channels: Some(channels) };
        (intent, handle)
    }

    /// Gives up the intent, handing out the event sink an abort should be
    /// delivered to; `None` for a detached intent, which nothing observes.
    pub fn into_abort_sink(self) -> (r: Option<Sender<EventKind>>)
        ensures
            r == (match self.channels {
                Some(c) => Some(c.event_tx),
                None => None::<Sender<EventKind>>,
            }),
    {
        match self.channels {
            Some(channels) => Some(channels.event_tx),
            None => None,
        }
    }
}

/// The consumer-facing half of an intent: a source of events and a sink of
/// updates, with latched completion state. Events pulled from the source
/// must be fed through [`IntentHandle::note_event`] so the verdict stays
/// current.
#[derive(Debug)]
pub struct IntentHandle {
    /// Where events for this intent arrive.
    pub event_rx: Receiver<EventKind>,
    /// Where updates are submitted into the session.
    pub update_tx: Sender<IntentUpdate>,
    /// The completion state observed so far.
    pub state: IntentProgress,
}

impl IntentHandle {
    /// Wraps the two channel halves into a handle with fresh state.
    pub fn new(update_tx: Sender<IntentUpdate>, event_rx: Receiver<EventKind>) -> (r: IntentHandle)
        ensures
            r.state == IntentProgress::init(),
    {
        IntentHandle { event_rx, update_tx, state: IntentProgress::new() }
    }

    /// Splits the handle into its update sink and event source, dropping
    /// the latched state.
    pub fn split(self) -> (r: (Sender<IntentUpdate>, Receiver<EventKind>)) {
        (self.update_tx, self.event_rx)
    }

    /// Records one event pulled from the event source.
    pub fn note_event(&mut self, event: &EventKind)
        ensures
            final(self).state == old(self).state.spec_step(event@),
    {
        self.state.handle_event(event);
    }

    /// The verdict for everything observed so far; stable across repeated
    /// calls while no further event is noted.
    pub fn verdict(&self) -> (r: Result<Completion, SessionError>)
        ensures
            r == self.state.spec_verdict(),
    {
        self.state.verdict()
    }
}

/// Session-originated inputs the dispatcher accepts.
#[derive(Debug)]
pub enum Input {
    /// A reconciliation outcome to fan out.
    EmitEvent(EventKind),
    /// A newly arrived intent to onboard.
    SubmitIntent(Intent),
}

/// Effects the dispatcher yields for the owning session to act on.
#[derive(Debug)]
pub enum Output {
    /// Begin or extend reconciliation for exactly these interests.
    SubmitInterests(InterestMap),
    /// No registered intents remain; the session may end itself.
    AllIntentsDropped,
}


/// The ghost value of an [`Event`].
#[allow(inconsistent_fields)]
pub ghost enum EventV {
    /// A capability intersection was found.
    CapabilityIntersection { namespace: NamespaceId, area: AreaV },
    /// An interest intersection was found.
    InterestIntersection { namespace: NamespaceId, area: AoiV },
    /// An area was reconciled.
    Reconciled { namespace: NamespaceId, area: AoiV },
    /// Every interest was reconciled.
    ReconciledAll,
    /// The session was closed; the error flattened to text.
    Abort { error: Seq<char> },
}

/// The serialisable flavour of [`EventKind`]: the same events, with the
/// structured session failure flattened to text so the event can cross a
/// process boundary. The conversion is lossy on purpose; the rich failure
/// value never leaves the session side.
#[allow(inconsistent_fields)]
#[derive(PartialEq, Eq, Debug)]
pub enum Event {
    /// We found an intersection between our and the peer's capabilities.
    CapabilityIntersection {
        /// The namespace concerned.
        namespace: NamespaceId,
        /// The granted area the capabilities intersect in.
        area: Area,
    },
    /// We found an intersection between our and the peer's interests.
    InterestIntersection {
        /// The namespace concerned.
        namespace: NamespaceId,
        /// The overlapping area of interest.
        area: AreaOfInterest,
    },
    /// We reconciled an area.
    Reconciled {
        /// The namespace concerned.
        namespace: NamespaceId,
        /// The reconciled area of interest.
        area: AreaOfInterest,
    },
    /// We reconciled all interests submitted in this intent.
    ReconciledAll,
    /// The session was closed with an error.
    Abort {
        /// The flattened rendering of the session failure.
        error: String,
    },
}

impl View for Event {
    type V = EventV;

    open spec fn view(&self) -> EventV {
        match self {
            Event::CapabilityIntersection { namespace, area } => {
                EventV::CapabilityIntersection { namespace: *namespace, area: area@ }
            },
            Event::InterestIntersection { namespace, area } => {
                EventV::InterestIntersection { namespace: *namespace, area: area@ }
            },
            Event::Reconciled { namespace, area } => {
                EventV::Reconciled { namespace: *namespace, area: area@ }
            },
            Event::ReconciledAll => EventV::ReconciledAll,
            Event::Abort { error } => EventV::Abort { error: error@ },
        }
    }
}

impl Clone for Event {
    fn clone(&self) -> (r: Self)
        ensures
            r@ == self@,
    {
        match self {
            Event::CapabilityIntersection { namespace, area } => {
                Event::CapabilityIntersection { namespace: *namespace, area: area.clone() }
            },
            Event::InterestIntersection { namespace, area } => {
                Event::InterestIntersection { namespace: *namespace, area: area.clone() }
            },
            Event::Reconciled { namespace, area } => {
                Event::Reconciled { namespace: *namespace, area: area.clone() }
            },
            Event::ReconciledAll => Event::ReconciledAll,
            Event::Abort { error } => Event::Abort { error: error.clone() },
        }
    }
}

/// The flattening an [`EventKind`] undergoes on its way out.
pub open spec fn flatten_event(e: EventKindV) -> EventV {
    match e {
        EventKindV::CapabilityIntersection { namespace, area } => {
            EventV::CapabilityIntersection { namespace, area }
        },
        EventKindV::InterestIntersection { namespace, area } => {
            EventV::InterestIntersection { namespace, area }
        },
        EventKindV::Reconciled { namespace, area } => EventV::Reconciled { namespace, area },
        EventKindV::ReconciledAll => EventV::ReconciledAll,
        EventKindV::Abort { error } => EventV::Abort { error: error.spec_text() },
    }
}

impl Event {
    /// Flattens a session-side event for the boundary.
    pub fn from_kind(event: EventKind) -> (r: Event)
        ensures
            r@ == flatten_event(event@),
    {
        match event {
            EventKind::CapabilityIntersection { namespace, area } => {
                Event::CapabilityIntersection { namespace, area }
            },
            EventKind::InterestIntersection { namespace, area } => {
                Event::InterestIntersection { namespace, area }
            },
            EventKind::Reconciled { namespace, area } => Event::Reconciled { namespace, area },
            EventKind::ReconciledAll => Event::ReconciledAll,
            EventKind::Abort { error } => Event::Abort { error: error.text() },
        }
    }
}

} // verus!
