//! Errors of the mesh transport.

use vstd::prelude::*;

verus! {

/// Errors reported by the mesh transport.
#[derive(Debug)]
pub enum TransportError {
    /// A network-level failure, with its description.
    Network(String),
    /// The peer is not known to the transport.
    UnknownPeer(u64),
    /// Any other failure, with its description.
    Other(String),
}

} // verus!
