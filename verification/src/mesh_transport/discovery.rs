//! Peer discovery mechanisms.

use vstd::prelude::*;

verus! {

/// mDNS-based discovery; it holds no state of its own.
pub struct MdnsDiscovery {}

impl MdnsDiscovery {
    /// Creates the discovery.
    pub fn new() -> (r: Self)
        ensures
            r == (MdnsDiscovery {}),
    {
        MdnsDiscovery {}
    }
}

} // verus!
