//! Identifiers partitioning the synchronised data space.
//!
//! A namespace is the top-level partition; a subspace belongs to one user
//! within a namespace. The real system derives these from public keys; here
//! they are opaque numeric identifiers with value equality.

use vstd::prelude::*;

verus! {

/// Identifier of a namespace, the top-level partition of the data space.
#[derive(Clone, Copy, PartialEq, Eq, Structural, Hash, Debug)]
pub struct NamespaceId(pub u64);

/// Identifier of a user, the holder of capabilities.
#[derive(Clone, Copy, PartialEq, Eq, Structural, Hash, Debug)]
pub struct UserId(pub u64);

/// Identifier of a subspace within a namespace.
#[derive(Clone, Copy, PartialEq, Eq, Structural, Hash, Debug)]
pub struct SubspaceId(pub u64);

/// Identifier of a peer node.
#[derive(Clone, Copy, PartialEq, Eq, Structural, Hash, Debug)]
pub struct NodeId(pub u64);

/// The dialing information of a peer node, reduced to its identity; the
/// transport resolves it to concrete addresses.
#[derive(Clone, Copy, PartialEq, Eq, Structural, Debug)]
pub struct NodeAddr {
    /// The peer's identity.
    pub node_id: NodeId,
}

/// Kind of a namespace.
#[derive(Clone, Copy, PartialEq, Eq, Structural, Debug)]
pub enum NamespaceKind {
    /// A namespace writable by its single owner.
    Owned,
    /// A namespace writable by any member.
    Communal,
}

/// An opaque secret key handle, stored for a user or namespace.
#[derive(Clone, Copy, PartialEq, Eq, Structural, Debug)]
pub struct SecretKey(pub u64);

} // verus!
