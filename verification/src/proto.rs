//! The request and response values of the service boundary.
//!
//! These are plain data carriers: the framing, transport and serialisation
//! around them live outside this crate.

use vstd::prelude::*;

use crate::data_model::{AuthForm, AuthorisedEntry, Entry, PayloadDigest, SubspaceForm,
    TimestampForm};
use crate::grouping::{Area, Path, TimeRange};
use crate::intents::{Event, IntentUpdate};
use crate::interest::{AccessMode, CapSelector, CapabilityPack, DelegateTo};
use crate::keys::{NamespaceId, NamespaceKind, NodeAddr, NodeId, SecretKey, SubspaceId, UserId};
use crate::session::SessionInit;

verus! {

/// Marker for the spaces service protocol.
#[derive(Clone, Copy, PartialEq, Eq, Structural, Debug)]
pub struct RpcService;

/// A range of subspaces, inclusive start and exclusive end; an absent end
/// is unbounded.
#[derive(Clone, Copy, PartialEq, Eq, Structural, Debug)]
pub struct SubspaceRange {
    /// Inclusive lower bound.
    pub start: SubspaceId,
    /// Exclusive upper bound, unbounded when absent.
    pub end: Option<SubspaceId>,
}

/// A range of paths, inclusive start and exclusive end; an absent end is
/// unbounded.
#[derive(PartialEq, Eq, Debug)]
pub struct PathRange {
    /// Inclusive lower bound.
    pub start: Path,
    /// Exclusive upper bound, unbounded when absent.
    pub end: Option<Path>,
}

/// A three-dimensional range: subspaces, paths, timestamps.
#[derive(PartialEq, Eq, Debug)]
pub struct Range3d {
    /// The subspaces in range.
    pub subspaces: SubspaceRange,
    /// The paths in range.
    pub paths: PathRange,
    /// The timestamps in range.
    pub times: TimeRange,
}

/// Parameters of a store subscription.
#[derive(Clone, Copy, PartialEq, Eq, Structural, Debug)]
pub struct SubscribeParams {
    /// Also report entries whose payload is not yet present.
    pub ingest_only: bool,
}

/// Asks the store to ingest an externally authorised entry.
#[derive(PartialEq, Eq, Debug)]
pub struct IngestEntryRequest {
    /// The entry with its authorisation.
    pub authorised_entry: AuthorisedEntry,
}

/// Asks the store to create and insert a new entry.
#[derive(PartialEq, Eq, Debug)]
pub struct InsertEntryRequest {
    /// The entry form to complete and insert.
    pub entry: FullEntryForm,
    /// How to authorise the entry.
    pub auth: AuthForm,
}

/// The outcome of inserting a new entry.
#[derive(PartialEq, Eq, Debug)]
pub enum InsertEntrySuccess {
    /// The entry was inserted.
    Inserted(AuthorisedEntry),
    /// A newer entry made the insertion obsolete.
    Obsolete,
}

/// The outcome of ingesting an authorised entry.
#[derive(Clone, Copy, PartialEq, Eq, Structural, Debug)]
pub enum IngestEntrySuccess {
    /// The entry was inserted.
    Inserted,
    /// A newer entry made the ingestion obsolete.
    Obsolete,
}

/// The entry was not inserted because a newer entry exists.
#[derive(Clone, Copy, PartialEq, Eq, Structural, Debug)]
pub struct EntryObsoleteError;

impl InsertEntrySuccess {
    /// The inserted entry, or an error if the insertion was obsolete.
    pub fn inserted(self) -> (r: Result<AuthorisedEntry, EntryObsoleteError>)
        ensures
            match self {
                InsertEntrySuccess::Inserted(e) => r == Ok::<AuthorisedEntry, EntryObsoleteError>(
                    e,
                ),
                InsertEntrySuccess::Obsolete => r == Err::<AuthorisedEntry, EntryObsoleteError>(
                    EntryObsoleteError,
                ),
            },
    {
        match self {
            InsertEntrySuccess::Inserted(entry) => Ok(entry),
            InsertEntrySuccess::Obsolete => Err(EntryObsoleteError),
        }
    }
}

/// Stores a secret key.
#[derive(Clone, Copy, PartialEq, Eq, Structural, Debug)]
pub struct InsertSecretRequest {
    /// The secret to store.
    pub secret: SecretKey,
}

/// Acknowledges a stored secret.
#[derive(Clone, Copy, PartialEq, Eq, Structural, Debug)]
pub struct InsertSecretResponse;

/// Asks for the entries of a namespace within a range.
#[derive(PartialEq, Eq, Debug)]
pub struct GetEntriesRequest {
    /// The namespace to query.
    pub namespace: NamespaceId,
    /// The range to query.
    pub range: Range3d,
}

/// One entry of a range query.
#[derive(PartialEq, Eq, Debug)]
pub struct GetEntriesResponse(pub AuthorisedEntry);

/// Asks for a single entry.
#[derive(PartialEq, Eq, Debug)]
pub struct GetEntryRequest {
    /// The namespace to query.
    pub namespace: NamespaceId,
    /// The subspace of the entry.
    pub subspace: SubspaceId,
    /// The path of the entry.
    pub path: Path,
}

/// A single entry, when present.
#[derive(PartialEq, Eq, Debug)]
pub struct GetEntryResponse(pub Option<AuthorisedEntry>);

/// Asks for a fresh namespace.
#[derive(Clone, Copy, PartialEq, Eq, Structural, Debug)]
pub struct CreateNamespaceRequest {
    /// The kind of namespace to create.
    pub kind: NamespaceKind,
    /// The user owning it.
    pub owner: UserId,
}

/// The created namespace.
#[derive(Clone, Copy, PartialEq, Eq, Structural, Debug)]
pub struct CreateNamespaceResponse(pub NamespaceId);

/// Asks for a fresh user identity.
#[derive(Clone, Copy, PartialEq, Eq, Structural, Debug)]
pub struct CreateUserRequest;

/// The created user.
#[derive(Clone, Copy, PartialEq, Eq, Structural, Debug)]
pub struct CreateUserResponse(pub UserId);

/// Asks for capabilities to be delegated to another user.
#[derive(PartialEq, Eq, Debug)]
pub struct DelegateCapsRequest {
    /// Which capability to delegate from.
    pub from: CapSelector,
    /// The access mode to delegate.
    pub access_mode: AccessMode,
    /// The receiver, with an optional restriction.
    pub to: DelegateTo,
}

/// The delegated capabilities, ready to be transferred.
#[derive(PartialEq, Eq, Debug)]
pub struct DelegateCapsResponse(pub Vec<CapabilityPack>);

/// Imports capabilities into the local store.
#[derive(PartialEq, Eq, Debug)]
pub struct ImportCapsRequest {
    /// The capabilities to import.
    pub caps: Vec<CapabilityPack>,
}

/// Acknowledges imported capabilities.
#[derive(Clone, Copy, PartialEq, Eq, Structural, Debug)]
pub struct ImportCapsResponse;

/// Starts a synchronisation session with a peer.
#[derive(PartialEq, Eq, Debug)]
pub struct SyncWithPeerRequest {
    /// The peer to synchronise with.
    pub peer: NodeId,
    /// The interests and mode to open the session with.
    pub init: SessionInit,
}

/// An update flowing into a running synchronisation intent.
#[derive(PartialEq, Eq, Debug)]
pub struct SyncWithPeerUpdate(pub IntentUpdate);

/// What a synchronisation session streams back.
#[derive(PartialEq, Eq, Debug)]
pub enum SyncWithPeerResponse {
    /// The session started.
    Started,
    /// An event of the session.
    Event(Event),
}

/// Subscribes to store events within an area.
#[derive(PartialEq, Eq, Debug)]
pub struct SubscribeRequest {
    /// The namespace to watch.
    pub namespace: NamespaceId,
    /// The area to watch.
    pub area: Area,
    /// Subscription parameters.
    pub params: SubscribeParams,
    /// Resume from this progress point, when present.
    pub initial_progress_id: Option<u64>,
}

/// Either a complete entry or a form to complete.
#[derive(PartialEq, Eq, Debug)]
pub enum EntryOrForm {
    /// A complete entry.
    Entry(Entry),
    /// A form the store completes.
    Form(FullEntryForm),
}

/// A form the store completes into an entry.
#[derive(PartialEq, Eq, Debug)]
pub struct FullEntryForm {
    /// The namespace of the new entry.
    pub namespace_id: NamespaceId,
    /// How the subspace is chosen.
    pub subspace_id: SubspaceForm,
    /// The path of the new entry.
    pub path: Path,
    /// How the timestamp is chosen.
    pub timestamp: TimestampForm,
    /// How the payload is supplied.
    pub payload: PayloadForm,
}

/// How a new entry's payload is supplied.
#[derive(Clone, Copy, PartialEq, Eq, Structural, Debug)]
pub enum PayloadForm {
    /// Use this digest, after checking the blob store holds it.
    Checked(PayloadDigest),
    /// Use this digest and length without checking the blob store.
    Unchecked(PayloadDigest, u64),
}

/// Asks for this node's own dialing information.
#[derive(Clone, Copy, PartialEq, Eq, Structural, Debug)]
pub struct AddrRequest;

/// Makes a peer's dialing information known to this node.
#[derive(Clone, Copy, PartialEq, Eq, Structural, Debug)]
pub struct AddAddrRequest {
    /// The address to add.
    pub addr: NodeAddr,
}

} // verus!
