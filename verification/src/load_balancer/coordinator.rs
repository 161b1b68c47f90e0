//! Configuration of distributed load-balancing coordination.

use vstd::prelude::*;

verus! {

/// Distributed coordinator configuration.
#[derive(Debug, Clone, Copy, PartialEq, Eq, Structural)]
pub struct DistributedCoordinatorConfig {
    /// Heartbeat interval in seconds.
    pub heartbeat_interval_secs: u64,
    /// Heartbeat timeout in seconds.
    pub heartbeat_timeout_secs: u64,
    /// Sync interval in seconds.
    pub sync_interval_secs: u64,
    /// Election timeout in seconds.
    pub election_timeout_secs: u64,
    /// Whether to enable leader election.
    pub enable_leader_election: bool,
    /// Quorum size (minimum agents for decisions).
    pub quorum_size: usize,
    /// Maximum agents per coordinator.
    pub max_agents: usize,
}

impl Default for DistributedCoordinatorConfig {
    fn default() -> (r: Self)
        ensures
            r == (DistributedCoordinatorConfig {
                heartbeat_interval_secs: 5,
                heartbeat_timeout_secs: 30,
                sync_interval_secs: 10,
                election_timeout_secs: 10,
                enable_leader_election: true,
                quorum_size: 1,
                max_agents: 100,
            }),
    {
        DistributedCoordinatorConfig {
            heartbeat_interval_secs: 5,
            heartbeat_timeout_secs: 30,
            sync_interval_secs: 10,
            election_timeout_secs: 10,
            enable_leader_election: true,
            quorum_size: 1,
            max_agents: 100,
        }
    }
}

} // verus!
