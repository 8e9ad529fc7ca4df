//! The caller-facing side of the service boundary: completion accounting
//! for a remote synchronisation intent, tickets, and the decisions behind
//! the convenience calls. The transport around them lives outside this
//! crate.

use vstd::prelude::*;

use crate::data_model::{AuthForm, SubspaceForm, TimestampForm};
use crate::grouping::Path;
use crate::intents::{Completion, Event, EventV};
use crate::interest::{
    AreaOfInterestSelector, CapSelector, CapabilityPack, Interests, UserSelector,
};
use crate::keys::{NamespaceId, NodeAddr, NodeId, UserId};
use crate::proto::{FullEntryForm, PayloadForm, SyncWithPeerResponse};
use crate::session::{SessionInit, SessionMode};

verus! {

/// A ticket to import and synchronise a space: capabilities for it, and
/// nodes to synchronise with.
#[derive(PartialEq, Eq, Debug)]
pub struct SpaceTicket {
    /// Capabilities for the space.
    pub caps: Vec<CapabilityPack>,
    /// Nodes to synchronise with.
    pub nodes: Vec<NodeAddr>,
}

/// Why a space ticket was rejected.
#[derive(Clone, Copy, PartialEq, Eq, Structural, Debug)]
pub enum TicketError {
    /// The ticket holds no capabilities at all.
    NoCapabilities,
    /// The ticket's capabilities name more than one namespace.
    MixedNamespaces,
}

/// The namespace a ticket's capabilities all grant access to: the ticket
/// is rejected when it holds none, or when they disagree.
pub fn ticket_namespace(caps: &Vec<CapabilityPack>) -> (r: Result<NamespaceId, TicketError>)
    ensures
        caps@.len() == 0 ==> r == Err::<NamespaceId, TicketError>(TicketError::NoCapabilities),
        caps@.len() > 0 ==> r == (if forall|i: int|
            0 <= i < caps@.len() ==> (#[trigger] caps@[i]).namespace == caps@[0].namespace {
            Ok::<NamespaceId, TicketError>(caps@[0].namespace)
        } else {
            Err::<NamespaceId, TicketError>(TicketError::MixedNamespaces)
        }),
{
    if caps.len() == 0 {
        return Err(TicketError::NoCapabilities);
    }
    let namespace = caps[0].namespace();
    let mut i: usize = 1;
    while i < caps.len()
        invariant
            1 <= i <= caps@.len(),
            namespace == caps@[0].namespace,
            forall|j: int| 0 <= j < i ==> (#[trigger] caps@[j]).namespace == namespace,
        decreases caps@.len() - i,
    {
        if caps[i].namespace().0 != namespace.0 {
            return Err(TicketError::MixedNamespaces);
        }
        i += 1;
    }
    Ok(namespace)
}

/// The session opening for an imported ticket: the widest interests any
/// capability for the namespace grants, in the requested mode.
pub fn import_sync_init(namespace: NamespaceId, mode: SessionMode) -> (r: SessionInit)
    ensures
        r.mode == mode,
        r.interests.entries@.len() == 1,
        r.interests.entries@[0] == (
            CapSelector { namespace, user: UserSelector::Any },
            AreaOfInterestSelector::Widest,
        ),
{
    let interests = Interests::builder().add_full_cap(CapSelector::any(namespace));
    SessionInit::new(interests, mode)
}

/// The session opening for a one-shot synchronisation of chosen areas.
pub fn sync_once_init(namespace: NamespaceId, areas: AreaOfInterestSelector) -> (r: SessionInit)
    ensures
        r.mode == SessionMode::ReconcileOnce,
        r.interests.entries@.len() == 1,
        r.interests.entries@[0].0 == (CapSelector { namespace, user: UserSelector::Any }),
        r.interests.entries@[0].1 == areas,
{
    let interests = Interests::builder().add(CapSelector::any(namespace), areas);
    SessionInit::reconcile_once(interests)
}

/// The session opening for a continuous synchronisation of chosen areas.
pub fn sync_continuously_init(namespace: NamespaceId, areas: AreaOfInterestSelector) -> (r:
    SessionInit)
    ensures
        r.mode == SessionMode::Continuous,
        r.interests.entries@.len() == 1,
        r.interests.entries@[0].0 == (CapSelector { namespace, user: UserSelector::Any }),
        r.interests.entries@[0].1 == areas,
{
    let interests = Interests::builder().add(CapSelector::any(namespace), areas);
    SessionInit::continuous(interests)
}

/// Assembles a share ticket from delegated capabilities and this node's
/// own address.
pub fn share_ticket(caps: Vec<CapabilityPack>, node_addr: NodeAddr) -> (r: SpaceTicket)
    ensures
        r.caps == caps,
        r.nodes@ == seq![node_addr],
{
    let mut nodes: Vec<NodeAddr> = Vec::new();
    nodes.push(node_addr);
    proof {
        assert(nodes@ =~= seq![node_addr]);
    }
    SpaceTicket { caps, nodes }
}

/// What a remote synchronisation session's stream item means to the
/// consumer: events pass through, a started notice and failures are
/// folded into the event stream.
pub fn map_sync_response(res: Result<SyncWithPeerResponse, String>) -> (r: Event)
    ensures
        r@ == (match res {
            Ok(SyncWithPeerResponse::Event(e)) => e@,
            Ok(SyncWithPeerResponse::Started) => EventV::ReconciledAll,
            Err(e) => EventV::Abort { error: e@ },
        }),
{
    match res {
        Ok(SyncWithPeerResponse::Event(event)) => event,
        Ok(SyncWithPeerResponse::Started) => Event::ReconciledAll,
        Err(error) => Event::Abort { error },
    }
}

/// The ghost value of a [`SyncProgress`].
pub ghost struct SyncProgressV {
    /// A `Reconciled` event was observed.
    pub partial: bool,
    /// A `ReconciledAll` event was observed.
    pub complete: bool,
    /// The first failure observed, flattened to text.
    pub failed: Option<Seq<char>>,
}

impl SyncProgressV {
    /// The fresh state.
    pub open spec fn init() -> SyncProgressV {
        SyncProgressV { partial: false, complete: false, failed: None }
    }

    /// How one observed event advances the state; the first failure is
    /// kept.
    pub open spec fn spec_step(self, e: EventV) -> SyncProgressV {
        match e {
            EventV::ReconciledAll => SyncProgressV { complete: true, ..self },
            EventV::Reconciled { .. } => SyncProgressV { partial: true, ..self },
            EventV::Abort { error } => if self.failed is Some {
                self
            } else {
                SyncProgressV { failed: Some(error), ..self }
            },
            _ => self,
        }
    }

    /// Whether the stream needs no further events for a verdict.
    pub open spec fn spec_is_ready(self) -> bool {
        self.complete || self.failed is Some
    }

    /// The verdict read off the flags, failure first.
    pub open spec fn spec_verdict(self) -> Result<Completion, Seq<char>> {
        match self.failed {
            Some(e) => Err(e),
            None => if self.complete {
                Ok(Completion::Complete)
            } else if self.partial {
                Ok(Completion::Partial)
            } else {
                Ok(Completion::Nothing)
            },
        }
    }
}

/// Completion state of a remote synchronisation intent, accumulated from
/// its event stream.
#[derive(Debug)]
pub struct SyncProgress {
    /// A `Reconciled` event was observed.
    pub partial: bool,
    /// A `ReconciledAll` event was observed.
    pub complete: bool,
    /// The first failure observed, if any.
    pub failed: Option<String>,
}

impl View for SyncProgress {
    type V = SyncProgressV;

    open spec fn view(&self) -> SyncProgressV {
        SyncProgressV {
            partial: self.partial,
            complete: self.complete,
            failed: match self.failed {
                Some(ref s) => Some(s@),
                None => None,
            },
        }
    }
}

impl Default for SyncProgress {
    /// Fresh state: nothing observed yet.
    fn default() -> (r: Self)
        ensures
            r@ == SyncProgressV::init(),
    {
        SyncProgress { partial: false, complete: false, failed: None }
    }
}

impl SyncProgress {
    /// Records one event pulled from the stream.
    pub fn handle_event(&mut self, event: &Event)
        ensures
            final(self)@ == old(self)@.spec_step(event@),
    {
        match event {
            Event::ReconciledAll => {
                self.complete = true;
            },
            Event::Reconciled { .. } => {
                self.partial = true;
            },
            Event::Abort { error } => {
                if self.failed.is_none() {
                    self.failed = Some(error.clone());
                }
            },
            _ => {},
        }
    }

    /// Does the verdict need no further events?
    pub fn is_ready(&self) -> (r: bool)
        ensures
            r == self@.spec_is_ready(),
    {
        self.complete || self.failed.is_some()
    }

    /// The verdict for everything observed so far.
    pub fn into_completion(self) -> (r: Result<Completion, String>)
        ensures
            r is Ok <==> self@.spec_verdict() is Ok,
            r is Ok ==> r->Ok_0 == self@.spec_verdict()->Ok_0,
            r is Err ==> r->Err_0@ == self@.spec_verdict()->Err_0,
    {
        match self.failed {
            Some(error) => Err(error),
            None => if self.complete {
                Ok(Completion::Complete)
            } else if self.partial {
                Ok(Completion::Partial)
            } else {
                Ok(Completion::Nothing)
            },
        }
    }
}

/// The set already tracks a synchronisation intent for this peer.
#[derive(Clone, Copy, PartialEq, Eq, Structural, Debug)]
pub struct IntentExistsError(pub NodeId);

/// Per-peer bookkeeping of a set of synchronisation handles: one entry per
/// peer, refused on a duplicate. The fair wait over the peers' event
/// streams lives with the driver; this holds the peer-keyed state.
#[derive(Debug)]
pub struct HandleRegistry<T> {
    /// The entries, one per peer, in insertion order.
    pub entries: Vec<(NodeId, T)>,
}

impl<T> HandleRegistry<T> {
    /// Internal invariant: at most one entry per peer.
    pub open spec fn wf(self) -> bool {
        forall|i: int, j: int|
            #![trigger self.entries@[i], self.entries@[j]]
            0 <= i < j < self.entries@.len() ==> self.entries@[i].0 != self.entries@[j].0
    }

    /// Is a peer tracked?
    pub open spec fn spec_has(self, peer: NodeId) -> bool {
        exists|i: int| 0 <= i < self.entries@.len() && self.entries@[i].0 == peer
    }

    /// The index of a tracked peer's entry.
    pub open spec fn spec_at(self, peer: NodeId) -> int {
        choose|i: int| 0 <= i < self.entries@.len() && self.entries@[i].0 == peer
    }

    /// An empty registry.
    pub fn new() -> (r: HandleRegistry<T>)
        ensures
            r.wf(),
            r.entries@.len() == 0,
    {
        HandleRegistry { entries: Vec::new() }
    }

    /// Finds a tracked peer's entry.
    fn find(&self, peer: NodeId) -> (r: Option<usize>)
        requires
            self.wf(),
        ensures
            match r {
                Some(i) => i < self.entries@.len() && self.entries@[i as int].0 == peer
                    && self.spec_at(peer) == i,
                None => !self.spec_has(peer),
            },
    {
        let mut i: usize = 0;
        while i < self.entries.len()
            invariant
                self.wf(),
                i <= self.entries@.len(),
                forall|j: int| 0 <= j < i ==> self.entries@[j].0 != peer,
            decreases self.entries@.len() - i,
        {
            if self.entries[i].0 == peer {
                proof {
                    let w = self.spec_at(peer);
                    assert(self.spec_has(peer));
                    if w < i {
                        assert(self.entries@[w].0 != self.entries@[i as int].0);
                    } else if w > i {
                        assert(self.entries@[i as int].0 != self.entries@[w].0);
                    }
                }
                return Some(i);
            }
            i += 1;
        }
        None
    }

    /// How many peers are tracked.
    pub fn len(&self) -> (r: usize)
        ensures
            r == self.entries@.len(),
    {
        self.entries.len()
    }

    /// Does the registry track this peer?
    pub fn contains(&self, peer: NodeId) -> (r: bool)
        requires
            self.wf(),
        ensures
            r == self.spec_has(peer),
    {
        self.find(peer).is_some()
    }

    /// Adds an entry for a peer; refused when the peer already has one.
    pub fn insert(&mut self, peer: NodeId, value: T) -> (r: Result<(), IntentExistsError>)
        requires
            old(self).wf(),
        ensures
            final(self).wf(),
            old(self).spec_has(peer) ==> r == Err::<(), IntentExistsError>(IntentExistsError(
                peer,
            )) && *final(self) == *old(self),
            !old(self).spec_has(peer) ==> r == Ok::<(), IntentExistsError>(())
                && final(self).entries@ == old(self).entries@.push((peer, value)),
    {
        if self.find(peer).is_some() {
            return Err(IntentExistsError(peer));
        }
        let ghost e0 = self.entries@;
        self.entries.push((peer, value));
        proof {
            assert forall|a: int, b: int|
                0 <= a < b < self.entries@.len() implies self.entries@[a].0
                != self.entries@[b].0 by {
                if b == e0.len() {
                    assert(self.entries@[a] == e0[a]);
                } else {
                    assert(self.entries@[a] == e0[a]);
                    assert(self.entries@[b] == e0[b]);
                }
            }
        }
        Ok(())
    }

    /// Removes and returns a peer's entry, if one is tracked.
    pub fn remove(&mut self, peer: NodeId) -> (r: Option<T>)
        requires
            old(self).wf(),
        ensures
            final(self).wf(),
            old(self).spec_has(peer) ==> r == Some(
                old(self).entries@[old(self).spec_at(peer)].1,
            ) && final(self).entries@ == old(self).entries@.remove(old(self).spec_at(peer)),
            !old(self).spec_has(peer) ==> r is None && *final(self) == *old(self),
    {
        match self.find(peer) {
            None => None,
            Some(i) => {
                let ghost e0 = self.entries@;
                let pair = self.entries.remove(i);
                proof {
                    assert forall|a: int, b: int|
                        0 <= a < b < self.entries@.len() implies self.entries@[a].0
                        != self.entries@[b].0 by {
                        let a0 = if a < i {
                            a
                        } else {
                            a + 1
                        };
                        let b0 = if b < i {
                            b
                        } else {
                            b + 1
                        };
                        assert(self.entries@[a] == e0[a0]);
                        assert(self.entries@[b] == e0[b0]);
                        assert(e0[a0].0 != e0[b0].0);
                    }
                }
                Some(pair.1)
            },
        }
    }
}

/// Form to insert a new entry.
#[derive(PartialEq, Eq, Debug)]
pub struct EntryForm {
    /// The authorisation: an exact capability, or a user to select one
    /// for.
    pub auth: AuthForm,
    /// The subspace, exact or the authorising user's.
    pub subspace_id: SubspaceForm,
    /// The path.
    pub path: Path,
    /// The timestamp, exact or the current time.
    pub timestamp: TimestampForm,
}

impl EntryForm {
    /// A form for the given user and path: the subspace follows the user,
    /// the timestamp follows the clock, and any applicable capability of
    /// the user authorises the entry.
    pub fn new(user: UserId, path: Path) -> (r: EntryForm)
        ensures
            r.auth == AuthForm::Any(user),
            r.path@ == path@,
            r.subspace_id == SubspaceForm::User,
            r.timestamp == TimestampForm::Now,
    {
        EntryForm {
            auth: AuthForm::Any(user),
            path,
            subspace_id: SubspaceForm::User,
            timestamp: TimestampForm::Now,
        }
    }

    /// Completes the form for a namespace with a payload choice, splitting
    /// off the authorisation.
    pub fn into_full(self, namespace_id: NamespaceId, payload: PayloadForm) -> (r: (
        FullEntryForm,
        AuthForm,
    ))
        ensures
            r.0.namespace_id == namespace_id,
            r.0.subspace_id == self.subspace_id,
            r.0.path@ == self.path@,
            r.0.timestamp == self.timestamp,
            r.0.payload == payload,
            r.1 == self.auth,
    {
        let EntryForm { auth, subspace_id, path, timestamp } = self;
        let form = FullEntryForm { namespace_id, subspace_id, path, timestamp, payload };
        (form, auth)
    }
}

} // verus!
