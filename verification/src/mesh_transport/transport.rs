//! Transport backend selection.

use vstd::prelude::*;

verus! {

/// Type of backend to use for the mesh transport.
#[derive(Debug, Clone, Copy, PartialEq, Eq, Structural)]
pub enum BackendType {
    /// libp2p-based backend (TCP, WebSocket, mDNS).
    Libp2p,
    /// In-memory backend for testing/simulation.
    InMemory,
    /// WebRTC data channels (for browser/Web environments).
    WebRtc,
    /// LoRa radio (long-range, low-bandwidth).
    LoRa,
}

impl Default for BackendType {
    fn default() -> (r: Self)
        ensures
            r == BackendType::Libp2p,
    {
        BackendType::Libp2p
    }
}

} // verus!
