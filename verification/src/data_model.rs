//! Entries: the path-addressed, timestamped records the protocol
//! synchronises, and the forms used to create them.

use vstd::prelude::*;

use crate::grouping::Path;
use crate::interest::CapabilityPack;
use crate::keys::{NamespaceId, SubspaceId, UserId};

verus! {

/// The digest of an entry's payload, an opaque content address.
#[derive(Clone, Copy, PartialEq, Eq, Structural, Debug)]
pub struct PayloadDigest(pub u64);

/// A record of the synchronised data space.
#[derive(PartialEq, Eq, Debug)]
pub struct Entry {
    /// The namespace the entry belongs to.
    pub namespace_id: NamespaceId,
    /// The subspace the entry belongs to.
    pub subspace_id: SubspaceId,
    /// The path addressing the entry.
    pub path: Path,
    /// The entry's timestamp.
    pub timestamp: u64,
    /// The length of the entry's payload.
    pub payload_length: u64,
    /// The digest of the entry's payload.
    pub payload_digest: PayloadDigest,
}

/// An entry together with the token authorising it.
#[derive(PartialEq, Eq, Debug)]
pub struct AuthorisedEntry {
    /// The entry itself.
    pub entry: Entry,
    /// An opaque handle onto the authorisation token.
    pub token: u64,
}

/// How an entry insertion is authorised.
#[derive(PartialEq, Eq, Debug)]
pub enum AuthForm {
    /// Any applicable capability issued to this user.
    Any(UserId),
    /// Exactly this capability.
    Exact(CapabilityPack),
}

/// How an entry's subspace is chosen.
#[derive(Clone, Copy, PartialEq, Eq, Structural, Debug)]
pub enum SubspaceForm {
    /// The subspace of the authorising user.
    User,
    /// Exactly this subspace.
    Exact(SubspaceId),
}

impl Default for SubspaceForm {
    /// The authorising user's subspace.
    fn default() -> (r: Self)
        ensures
            r == SubspaceForm::User,
    {
        SubspaceForm::User
    }
}

/// How an entry's timestamp is chosen.
#[derive(Clone, Copy, PartialEq, Eq, Structural, Debug)]
pub enum TimestampForm {
    /// The current system time, read when the entry is stored.
    Now,
    /// Exactly this timestamp.
    Exact(u64),
}

impl Default for TimestampForm {
    /// The current system time.
    fn default() -> (r: Self)
        ensures
            r == TimestampForm::Now,
    {
        TimestampForm::Now
    }
}

} // verus!
