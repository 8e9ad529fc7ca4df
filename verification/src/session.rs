//! Session-level configuration and failure values.

use vstd::prelude::*;

use crate::interest::Interests;

verus! {

/// How long a session keeps an intent's interests alive.
#[derive(Clone, Copy, PartialEq, Eq, Structural, Debug)]
pub enum SessionMode {
    /// Reconcile the declared interests once, then finish.
    ReconcileOnce,
    /// Keep the intent open for live updates after catching up.
    Continuous,
}

impl SessionMode {
    /// Does the mode keep intents open after their interests are reconciled?
    pub fn is_live(&self) -> (r: bool)
        ensures
            r == (*self == SessionMode::Continuous),
    {
        match self {
            SessionMode::ReconcileOnce => false,
            SessionMode::Continuous => true,
        }
    }
}

/// What a caller submits to open an intent: the interest declaration and the
/// session mode it asks for.
#[derive(PartialEq, Eq, Debug)]
pub struct SessionInit {
    /// The caller-declared interests, resolved on submission.
    pub interests: Interests,
    /// The liveness mode.
    pub mode: SessionMode,
}

impl SessionInit {
    /// Combines interests and a mode.
    pub fn new(interests: Interests, mode: SessionMode) -> (r: SessionInit)
        ensures
            r.interests == interests,
            r.mode == mode,
    {
        SessionInit { interests, mode }
    }

    /// Interests to be reconciled once.
    pub fn reconcile_once(interests: Interests) -> (r: SessionInit)
        ensures
            r.interests == interests,
            r.mode == SessionMode::ReconcileOnce,
    {
        SessionInit { interests, mode: SessionMode::ReconcileOnce }
    }

    /// Interests to be kept live.
    pub fn continuous(interests: Interests) -> (r: SessionInit)
        ensures
            r.interests == interests,
            r.mode == SessionMode::Continuous,
    {
        SessionInit { interests, mode: SessionMode::Continuous }
    }
}

/// The shared failure value a session aborts with. Immutable once built;
/// every intent of the session receives the same value.
#[derive(Clone, Copy, PartialEq, Eq, Structural, Debug)]
pub enum SessionError {
    /// The connection to the peer was lost.
    ConnectionLost,
    /// The peer violated the protocol.
    ProtocolViolation,
    /// The session was cancelled locally.
    Cancelled,
    /// Another failure, carried by code.
    Other(u64),
}

impl SessionError {
    /// A flattened, human-readable rendering, used where the structured
    /// value cannot cross a boundary.
    pub fn text(&self) -> (r: String)
        ensures
            r@ == self.spec_text(),
    {
        match self {
            SessionError::ConnectionLost => "connection to the peer was lost".to_owned(),
            SessionError::ProtocolViolation => "peer violated the protocol".to_owned(),
            SessionError::Cancelled => "session was cancelled".to_owned(),
            SessionError::Other(_) => "session failed".to_owned(),
        }
    }

    /// The rendering `text` returns.
    pub open spec fn spec_text(&self) -> Seq<char> {
        match self {
            SessionError::ConnectionLost => "connection to the peer was lost"@,
            SessionError::ProtocolViolation => "peer violated the protocol"@,
            SessionError::Cancelled => "session was cancelled"@,
            SessionError::Other(_) => "session failed"@,
        }
    }
}

/// Why an interest declaration could not be resolved.
#[derive(Clone, Copy, PartialEq, Eq, Structural, Debug)]
pub enum ResolveError {
    /// No capability matches the selector.
    NoCapability,
    /// The selector itself is malformed.
    InvalidSelector,
}

} // verus!
