//! Identifiers shared by every part of the SDK.

use vstd::prelude::*;

verus! {

/// Numeric identifier of an agent in the mesh.
#[derive(Debug, Clone, Copy, PartialEq, Eq, Hash, Structural)]
pub struct AgentId(pub u64);

/// The identity an agent signs with: its Ed25519 public key.
#[derive(Debug, Clone)]
pub struct AgentIdentity {
    /// The 32-byte Ed25519 public key.
    pub public_key: Vec<u8>,
}

} // verus!
