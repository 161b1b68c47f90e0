//! The table of open connections to peers, by peer id.

use std::collections::HashMap;
use vstd::prelude::*;
use crate::common::AgentId;
use crate::hash_keys::keys_of;

verus! {

/// Open connections by peer id; `C` is what a connection holds (its
/// address and its outgoing channel), which the table only stores.
pub struct ConnectionManager<C> {
    connections: HashMap<u64, C>,
}

impl<C> ConnectionManager<C> {
    /// The connections, by peer id.
    pub closed spec fn connections_view(&self) -> Map<u64, C> {
        self.connections@
    }

    /// An empty table.
    pub fn new() -> (r: Self)
        ensures
            r.connections_view() == Map::<u64, C>::empty(),
    {
        ConnectionManager { connections: HashMap::new() }
    }

    /// Adds a connection to `peer_id`, replacing any it had.
    pub fn add_connection(&mut self, peer_id: AgentId, conn: C)
        ensures
            final(self).connections_view() == old(self).connections_view().insert(peer_id.0, conn),
    {
        broadcast use vstd::std_specs::hash::group_hash_axioms;
        self.connections.insert(peer_id.0, conn);
    }

    /// Removes the connection to `peer_id`.
    pub fn remove_connection(&mut self, peer_id: &AgentId)
        ensures
            final(self).connections_view() == old(self).connections_view().remove(peer_id.0),
    {
        broadcast use vstd::std_specs::hash::group_hash_axioms;
        self.connections.remove(&peer_id.0);
    }

    /// The connection to `peer_id`.
    pub fn get_connection(&self, peer_id: &AgentId) -> (r: Option<&C>)
        ensures
            self.connections_view().contains_key(peer_id.0) ==> r == Some(&self.connections_view()[peer_id.0]),
            !self.connections_view().contains_key(peer_id.0) ==> r is None,
    {
        broadcast use vstd::std_specs::hash::group_hash_axioms;
        self.connections.get(&peer_id.0)
    }

    /// The ids of the connected peers, each once.
    pub fn connected_peers(&self) -> (r: Vec<AgentId>)
        ensures
            r@.len() == self.connections_view().len(),
            forall|i: int| 0 <= i < r@.len() ==> self.connections_view().contains_key((#[trigger] r@[i]).0),
            forall|k: u64| #[trigger] self.connections_view().contains_key(k) ==> exists|i: int| 0 <= i < r@.len() && r@[i].0 == k,
            forall|i: int, j: int| 0 <= i < j < r@.len() ==> r@[i] != r@[j],
    {
        broadcast use vstd::std_specs::hash::group_hash_axioms;
        let ks = keys_of(&self.connections);
        let mut r: Vec<AgentId> = Vec::new();
        let n = ks.len();
        let mut i: usize = 0;
        while i < n
            invariant
                n == ks@.len(),
                i <= n,
                r@.len() == i,
                forall|a: int| 0 <= a < i ==> r@[a].0 == ks@[a],
            decreases n - i,
        {
            r.push(AgentId(ks[i]));
            i = i + 1;
        }
        proof {
            assert forall|a: int| 0 <= a < r@.len() implies self.connections_view().contains_key((#[trigger] r@[a]).0) by {
                assert(ks@.to_set().contains(ks@[a]));
            }
            assert forall|k: u64| #[trigger] self.connections_view().contains_key(k) implies exists|a: int| 0 <= a < r@.len() && r@[a].0 == k by {
                assert(ks@.to_set().contains(k));
                let a = choose|a: int| 0 <= a < ks@.len() && ks@[a] == k;
                assert(r@[a].0 == k);
            }
            assert forall|a: int, b: int| 0 <= a < b < r@.len() implies r@[a] != r@[b] by {
                assert(ks@[a] != ks@[b]);
            }
        }
        r
    }
}

} // verus!
