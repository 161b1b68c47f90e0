//! The coordinator's registry of agents: which agents are known, with their
//! last reported load, capabilities and heartbeat time, and how each
//! coordination event changes it.

use vstd::prelude::*;
use crate::load_balancer::error::LoadBalancingError;
use crate::text::str_eq;

verus! {

/// An agent known to the coordinator.
pub struct RegisteredAgent<L, C> {
    /// The agent's id.
    pub agent_id: String,
    /// Its last reported load.
    pub load: L,
    /// Its capabilities.
    pub capabilities: C,
    /// Time of its last heartbeat, in nanoseconds since the Unix epoch.
    pub last_heartbeat: u64,
    /// Whether it is active.
    pub active: bool,
}

/// The agents of a list, by id; a later one overrides an earlier one.
pub open spec fn agents_map<L, C>(v: Seq<RegisteredAgent<L, C>>) -> Map<Seq<char>, RegisteredAgent<L, C>>
    decreases v.len(),
{
    if v.len() == 0 {
        Map::empty()
    } else {
        agents_map(v.drop_last()).insert(v.last().agent_id@, v.last())
    }
}

/// No two agents of the list share an id.
pub open spec fn distinct_ids<L, C>(v: Seq<RegisteredAgent<L, C>>) -> bool {
    forall|i: int, j: int| 0 <= i < v.len() && 0 <= j < v.len() && i != j ==> v[i].agent_id@ != v[j].agent_id@
}

proof fn lemma_agents_map<L, C>(v: Seq<RegisteredAgent<L, C>>)
    requires
        distinct_ids(v),
    ensures
        forall|k: Seq<char>| agents_map(v).contains_key(k) <==> exists|i: int| 0 <= i < v.len() && (#[trigger] v[i]).agent_id@ == k,
        forall|i: int| 0 <= i < v.len() ==> agents_map(v).contains_key((#[trigger] v[i]).agent_id@)
            && agents_map(v)[v[i].agent_id@] == v[i],
        agents_map(v).dom().finite(),
        agents_map(v).dom().len() == v.len(),
    decreases v.len(),
{
    if v.len() > 0 {
        let w = v.drop_last();
        assert(distinct_ids(w));
        lemma_agents_map(w);
        assert forall|k: Seq<char>| agents_map(v).contains_key(k) implies exists|i: int| 0 <= i < v.len() && (#[trigger] v[i]).agent_id@ == k by {
            if k == v.last().agent_id@ {
                assert(v[v.len() - 1].agent_id@ == k);
            } else {
                assert(agents_map(w).contains_key(k));
                let i = choose|i: int| 0 <= i < w.len() && (#[trigger] w[i]).agent_id@ == k;
                assert(v[i] == w[i]);
            }
        }
        assert forall|i: int| 0 <= i < v.len() implies agents_map(v).contains_key((#[trigger] v[i]).agent_id@)
            && agents_map(v)[v[i].agent_id@] == v[i] by {
            if i < v.len() - 1 {
                assert(v[i] == w[i]);
                assert(v[i].agent_id@ != v.last().agent_id@);
            }
        }
        assert(!agents_map(w).contains_key(v.last().agent_id@)) by {
            if agents_map(w).contains_key(v.last().agent_id@) {
                let i = choose|i: int| 0 <= i < w.len() && (#[trigger] w[i]).agent_id@ == v.last().agent_id@;
                assert(v[i] == w[i]);
            }
        }
    }
}

proof fn lemma_agents_map_remove<L, C>(v: Seq<RegisteredAgent<L, C>>, i: int)
    requires
        distinct_ids(v),
        0 <= i < v.len(),
    ensures
        distinct_ids(v.remove(i)),
        agents_map(v.remove(i)) == agents_map(v).remove(v[i].agent_id@),
{
    let w = v.remove(i);
    assert forall|a: int, b: int| 0 <= a < w.len() && 0 <= b < w.len() && a != b implies w[a].agent_id@ != w[b].agent_id@ by {
        let a2 = if a < i { a } else { a + 1 };
        let b2 = if b < i { b } else { b + 1 };
        assert(w[a] == v[a2]);
        assert(w[b] == v[b2]);
    }
    lemma_agents_map(v);
    lemma_agents_map(w);
    let lhs = agents_map(w);
    let rhs = agents_map(v).remove(v[i].agent_id@);
    assert forall|k: Seq<char>| lhs.contains_key(k) <==> rhs.contains_key(k) by {
        if lhs.contains_key(k) {
            let a = choose|a: int| 0 <= a < w.len() && (#[trigger] w[a]).agent_id@ == k;
            let a2 = if a < i { a } else { a + 1 };
            assert(w[a] == v[a2]);
        }
        if rhs.contains_key(k) {
            let a = choose|a: int| 0 <= a < v.len() && (#[trigger] v[a]).agent_id@ == k;
            let a2 = if a < i { a } else { a - 1 };
            assert(w[a2] == v[a]);
        }
    }
    assert forall|k: Seq<char>| lhs.contains_key(k) implies lhs[k] == rhs[k] by {
        let a = choose|a: int| 0 <= a < w.len() && (#[trigger] w[a]).agent_id@ == k;
        let a2 = if a < i { a } else { a + 1 };
        assert(w[a] == v[a2]);
    }
    assert(lhs =~= rhs);
}

proof fn lemma_agents_map_update<L, C>(v: Seq<RegisteredAgent<L, C>>, i: int, e: RegisteredAgent<L, C>)
    requires
        distinct_ids(v),
        0 <= i < v.len(),
        e.agent_id@ == v[i].agent_id@,
    ensures
        distinct_ids(v.update(i, e)),
        agents_map(v.update(i, e)) == agents_map(v).insert(e.agent_id@, e),
{
    let w = v.update(i, e);
    assert forall|a: int, b: int| 0 <= a < w.len() && 0 <= b < w.len() && a != b implies w[a].agent_id@ != w[b].agent_id@ by {
        assert(w[a].agent_id@ == v[a].agent_id@);
        assert(w[b].agent_id@ == v[b].agent_id@);
    }
    lemma_agents_map(v);
    lemma_agents_map(w);
    let lhs = agents_map(w);
    let rhs = agents_map(v).insert(e.agent_id@, e);
    assert forall|k: Seq<char>| lhs.contains_key(k) <==> rhs.contains_key(k) by {
        if lhs.contains_key(k) {
            let a = choose|a: int| 0 <= a < w.len() && (#[trigger] w[a]).agent_id@ == k;
            assert(w[a].agent_id@ == v[a].agent_id@);
        }
        if rhs.contains_key(k) && k != e.agent_id@ {
            let a = choose|a: int| 0 <= a < v.len() && (#[trigger] v[a]).agent_id@ == k;
            assert(w[a].agent_id@ == v[a].agent_id@);
        }
        if k == e.agent_id@ {
            assert(w[i] == e);
        }
    }
    assert forall|k: Seq<char>| lhs.contains_key(k) implies lhs[k] == rhs[k] by {
        let a = choose|a: int| 0 <= a < w.len() && (#[trigger] w[a]).agent_id@ == k;
        if a == i {
            assert(w[a] == e);
        } else {
            assert(w[a] == v[a]);
        }
    }
    assert(lhs =~= rhs);
}

proof fn lemma_agents_map_push<L, C>(v: Seq<RegisteredAgent<L, C>>, e: RegisteredAgent<L, C>)
    requires
        distinct_ids(v),
        !agents_map(v).contains_key(e.agent_id@),
    ensures
        distinct_ids(v.push(e)),
        agents_map(v.push(e)) == agents_map(v).insert(e.agent_id@, e),
{
    lemma_agents_map(v);
    let w = v.push(e);
    assert(w.drop_last() =~= v);
    assert forall|a: int, b: int| 0 <= a < w.len() && 0 <= b < w.len() && a != b implies w[a].agent_id@ != w[b].agent_id@ by {
        if a == v.len() {
            assert(w[b] == v[b]);
        } else if b == v.len() {
            assert(w[a] == v[a]);
        } else {
            assert(w[a] == v[a] && w[b] == v[b]);
        }
    }
}

/// An entry as the registry records it for a new agent.
pub open spec fn fresh_entry<L, C>(e: RegisteredAgent<L, C>, id: Seq<char>, load: L, capabilities: C, now: u64) -> bool {
    &&& e.agent_id@ == id
    &&& e.load == load
    &&& e.capabilities == capabilities
    &&& e.last_heartbeat == now
    &&& e.active
}

/// Nanoseconds in a second.
pub const NANOS_PER_SEC: u64 = 1_000_000_000;

/// Whether an agent last heard from at `last` has timed out at `now`
/// (both in nanoseconds): the whole seconds elapsed exceed `timeout`
/// (none elapse when the clock reads earlier than `last`).
pub open spec fn timed_out(last: u64, now: u64, timeout: u64) -> bool {
    now > last && (now - last) as int / NANOS_PER_SEC as int > timeout
}

/// Whether one of `ids` is `k`.
pub open spec fn names_id(ids: Seq<String>, k: Seq<char>) -> bool {
    exists|j: int| 0 <= j < ids.len() && (#[trigger] ids[j])@ == k
}

/// Whether one of the first `i` agents of `v` is `k` and has timed out.
pub open spec fn expired_before<L, C>(v: Seq<RegisteredAgent<L, C>>, i: int, k: Seq<char>, now: u64, timeout: u64) -> bool {
    exists|j: int| 0 <= j < i && (#[trigger] v[j]).agent_id@ == k && timed_out(v[j].last_heartbeat, now, timeout)
}

/// The coordinator's registry of agents.
pub struct AgentRegistry<L, C> {
    agents: Vec<RegisteredAgent<L, C>>,
}

impl<L, C> AgentRegistry<L, C> {
    /// The registry's invariant: ids are unique, and every agent is active
    /// (no event marks an agent inactive).
    pub closed spec fn wf(&self) -> bool {
        &&& distinct_ids(self.agents@)
        &&& forall|i: int| 0 <= i < self.agents@.len() ==> (#[trigger] self.agents@[i]).active
    }

    /// The agents, by id.
    pub closed spec fn agents_view(&self) -> Map<Seq<char>, RegisteredAgent<L, C>> {
        agents_map(self.agents@)
    }

    /// An empty registry.
    pub fn new() -> (r: Self)
        ensures
            r.wf(),
            r.agents_view() == Map::<Seq<char>, RegisteredAgent<L, C>>::empty(),
    {
        AgentRegistry { agents: Vec::new() }
    }

    fn find(&self, agent_id: &str) -> (r: Option<usize>)
        requires
            self.wf(),
        ensures
            match r {
                Some(i) => i < self.agents@.len() && self.agents@[i as int].agent_id@ == agent_id@,
                None => !self.agents_view().contains_key(agent_id@),
            },
    {
        proof { lemma_agents_map(self.agents@); }
        let n = self.agents.len();
        let mut i: usize = 0;
        while i < n
            invariant
                n == self.agents@.len(),
                i <= n,
                forall|j: int| 0 <= j < i ==> (#[trigger] self.agents@[j]).agent_id@ != agent_id@,
            decreases n - i,
        {
            if str_eq(self.agents[i].agent_id.as_str(), agent_id) {
                return Some(i);
            }
            i = i + 1;
        }
        None
    }

    /// Whether an agent is known.
    pub fn contains(&self, agent_id: &str) -> (r: bool)
        requires
            self.wf(),
        ensures
            r == self.agents_view().contains_key(agent_id@),
    {
        proof { lemma_agents_map(self.agents@); }
        self.find(agent_id).is_some()
    }

    fn insert_new(&mut self, agent_id: &str, load: L, capabilities: C, now: u64)
        requires
            old(self).wf(),
            !old(self).agents_view().contains_key(agent_id@),
        ensures
            final(self).wf(),
            final(self).agents_view().contains_key(agent_id@),
            fresh_entry(final(self).agents_view()[agent_id@], agent_id@, load, capabilities, now),
            final(self).agents_view().remove(agent_id@) == old(self).agents_view(),
    {
        let e = RegisteredAgent {
            agent_id: String::from_str(agent_id),
            load,
            capabilities,
            last_heartbeat: now,
            active: true,
        };
        proof { lemma_agents_map_push(self.agents@, e); }
        self.agents.push(e);
        assert(self.agents_view().remove(agent_id@) =~= old(self).agents_view());
    }

    /// Registers a local agent; an agent already known is refused.
    pub fn register(&mut self, agent_id: &str, load: L, capabilities: C, now: u64) -> (r: Result<(), LoadBalancingError>)
        requires
            old(self).wf(),
        ensures
            final(self).wf(),
            old(self).agents_view().contains_key(agent_id@) ==> {
                &&& r matches Err(LoadBalancingError::Other(m)) && m@ == "Agent "@ + agent_id@ + " already registered"@
                &&& final(self).agents_view() == old(self).agents_view()
            },
            !old(self).agents_view().contains_key(agent_id@) ==> {
                &&& r is Ok
                &&& final(self).agents_view().contains_key(agent_id@)
                &&& fresh_entry(final(self).agents_view()[agent_id@], agent_id@, load, capabilities, now)
                &&& final(self).agents_view().remove(agent_id@) == old(self).agents_view()
            },
    {
        if self.contains(agent_id) {
            let mut msg = String::from_str("Agent ");
            msg.append(agent_id);
            msg.append(" already registered");
            proof {
                reveal_strlit("Agent ");
                reveal_strlit(" already registered");
            }
            return Err(LoadBalancingError::Other(msg));
        }
        self.insert_new(agent_id, load, capabilities, now);
        Ok(())
    }

    /// Unregisters a local agent; an unknown agent is refused.
    pub fn unregister(&mut self, agent_id: &str) -> (r: Result<(), LoadBalancingError>)
        requires
            old(self).wf(),
        ensures
            final(self).wf(),
            old(self).agents_view().contains_key(agent_id@) ==> r is Ok,
            !old(self).agents_view().contains_key(agent_id@) ==> (r matches Err(LoadBalancingError::AgentNotFound(m)) && m@ == agent_id@),
            final(self).agents_view() == old(self).agents_view().remove(agent_id@),
    {
        if self.remove(agent_id) {
            Ok(())
        } else {
            Err(LoadBalancingError::AgentNotFound(String::from_str(agent_id)))
        }
    }

    /// Forgets an agent, if known; says whether it was.
    pub fn remove(&mut self, agent_id: &str) -> (r: bool)
        requires
            old(self).wf(),
        ensures
            final(self).wf(),
            r == old(self).agents_view().contains_key(agent_id@),
            final(self).agents_view() == old(self).agents_view().remove(agent_id@),
    {
        match self.find(agent_id) {
            None => {
                assert(self.agents_view().remove(agent_id@) =~= self.agents_view());
                false
            },
            Some(i) => {
                proof {
                    lemma_agents_map(self.agents@);
                    lemma_agents_map_remove(self.agents@, i as int);
                }
                self.agents.remove(i);
                true
            },
        }
    }

    /// Records a heartbeat: a known agent gets the load and the time and
    /// is active; an unknown one is registered with the given capabilities.
    /// Says whether the agent was new.
    pub fn heartbeat(&mut self, agent_id: &str, load: L, capabilities: C, now: u64) -> (r: bool)
        requires
            old(self).wf(),
        ensures
            final(self).wf(),
            r == !old(self).agents_view().contains_key(agent_id@),
            final(self).agents_view().contains_key(agent_id@),
            final(self).agents_view().remove(agent_id@) == old(self).agents_view().remove(agent_id@),
            ({
                let e = final(self).agents_view()[agent_id@];
                &&& e.agent_id@ == agent_id@ && e.load == load && e.last_heartbeat == now && e.active
                &&& e.capabilities == (if r { capabilities } else { old(self).agents_view()[agent_id@].capabilities })
            }),
    {
        match self.find(agent_id) {
            None => {
                self.insert_new(agent_id, load, capabilities, now);
                assert(old(self).agents_view().remove(agent_id@) =~= old(self).agents_view());
                true
            },
            Some(i) => {
                proof { lemma_agents_map(self.agents@); }
                let ghost v0 = self.agents@;
                let mut e = self.agents.remove(i);
                e.load = load;
                e.last_heartbeat = now;
                e.active = true;
                self.agents.insert(i, e);
                proof {
                    assert(self.agents@ =~= v0.update(i as int, e));
                    lemma_agents_map_update(v0, i as int, e);
                    assert(self.agents_view().remove(agent_id@) =~= old(self).agents_view().remove(agent_id@));
                }
                false
            },
        }
    }

    /// Records a load report of a known agent; says whether it was known.
    pub fn update_load(&mut self, agent_id: &str, load: L) -> (r: bool)
        requires
            old(self).wf(),
        ensures
            final(self).wf(),
            r == old(self).agents_view().contains_key(agent_id@),
            !r ==> final(self).agents_view() == old(self).agents_view(),
            r ==> final(self).agents_view() == old(self).agents_view().insert(
                agent_id@,
                RegisteredAgent { load, ..old(self).agents_view()[agent_id@] },
            ),
    {
        match self.find(agent_id) {
            None => false,
            Some(i) => {
                proof { lemma_agents_map(self.agents@); }
                let ghost v0 = self.agents@;
                let mut e = self.agents.remove(i);
                e.load = load;
                self.agents.insert(i, e);
                proof {
                    assert(self.agents@ =~= v0.update(i as int, e));
                    lemma_agents_map_update(v0, i as int, e);
                }
                true
            },
        }
    }

    /// Registers an agent announced by another coordinator, unless it is
    /// known already; says whether it was added.
    pub fn register_if_absent(&mut self, agent_id: &str, load: L, capabilities: C, now: u64) -> (r: bool)
        requires
            old(self).wf(),
        ensures
            final(self).wf(),
            r == !old(self).agents_view().contains_key(agent_id@),
            !r ==> final(self).agents_view() == old(self).agents_view(),
            r ==> final(self).agents_view().contains_key(agent_id@)
                && fresh_entry(final(self).agents_view()[agent_id@], agent_id@, load, capabilities, now)
                && final(self).agents_view().remove(agent_id@) == old(self).agents_view(),
    {
        if self.contains(agent_id) {
            return false;
        }
        self.insert_new(agent_id, load, capabilities, now);
        true
    }

    /// Forgets every agent whose last heartbeat lies more than `timeout`
    /// whole seconds before `now` (times in nanoseconds); returns their
    /// ids, in registry order.
    pub fn expire(&mut self, now: u64, timeout: u64) -> (r: Vec<String>)
        requires
            old(self).wf(),
        ensures
            final(self).wf(),
            forall|k: Seq<char>| #[trigger] final(self).agents_view().contains_key(k) <==> (old(self).agents_view().contains_key(k)
                && !timed_out(old(self).agents_view()[k].last_heartbeat, now, timeout)),
            forall|k: Seq<char>| #[trigger] final(self).agents_view().contains_key(k) ==> final(self).agents_view()[k] == old(self).agents_view()[k],
            forall|k: Seq<char>| #[trigger] names_id(r@, k) <==> (old(self).agents_view().contains_key(k)
                && timed_out(old(self).agents_view()[k].last_heartbeat, now, timeout)),
    {
        let ghost v0 = self.agents@;
        proof { lemma_agents_map(v0); }
        let mut removed: Vec<String> = Vec::new();
        let mut kept: Vec<RegisteredAgent<L, C>> = Vec::new();
        let mut rest: Vec<RegisteredAgent<L, C>> = Vec::new();
        std::mem::swap(&mut rest, &mut self.agents);
        let n = rest.len();
        let mut i: usize = 0;
        while rest.len() > 0
            invariant
                distinct_ids(v0),
                forall|j: int| 0 <= j < v0.len() ==> (#[trigger] v0[j]).active,
                forall|k: Seq<char>| agents_map(v0).contains_key(k) <==> exists|j: int| 0 <= j < v0.len() && (#[trigger] v0[j]).agent_id@ == k,
                forall|j: int| 0 <= j < v0.len() ==> agents_map(v0).contains_key((#[trigger] v0[j]).agent_id@)
                    && agents_map(v0)[v0[j].agent_id@] == v0[j],
                i + rest@.len() == n,
                n == v0.len(),
                rest@ == v0.subrange(i as int, n as int),
                distinct_ids(kept@),
                forall|j: int| 0 <= j < kept@.len() ==> (#[trigger] kept@[j]).active,
                forall|j: int| 0 <= j < kept@.len() ==> exists|m: int| 0 <= m < i && #[trigger] kept@[j] == v0[m],
                forall|k: Seq<char>| #[trigger] agents_map(kept@).contains_key(k) <==> (agents_map(v0.subrange(0, i as int)).contains_key(k)
                    && !timed_out(agents_map(v0.subrange(0, i as int))[k].last_heartbeat, now, timeout)),
                forall|k: Seq<char>| #[trigger] agents_map(kept@).contains_key(k) ==> agents_map(kept@)[k] == agents_map(v0.subrange(0, i as int))[k],
                forall|k: Seq<char>| #[trigger] names_id(removed@, k) <==> expired_before(v0, i as int, k, now, timeout),
            decreases rest@.len(),
        {
            let e = rest.remove(0);
            let ghost before = v0.subrange(0, i as int);
            let ghost after = v0.subrange(0, i + 1);
            proof {
                assert(e == v0[i as int]);
                assert(after.drop_last() =~= before);
                assert(after.last() == e);
                assert(agents_map(after) == agents_map(before).insert(e.agent_id@, e));
            }
            let over = now > e.last_heartbeat && (now - e.last_heartbeat) / NANOS_PER_SEC > timeout;
            if over {
                let ghost old_removed = removed@;
                removed.push(String::from_str(e.agent_id.as_str()));
                proof {
                    assert forall|k: Seq<char>| #[trigger] names_id(removed@, k) <==> expired_before(v0, i + 1, k, now, timeout) by {
                        if names_id(removed@, k) {
                            let j = choose|j: int| 0 <= j < removed@.len() && (#[trigger] removed@[j])@ == k;
                            if j < old_removed.len() {
                                assert(old_removed[j] == removed@[j]);
                                assert(names_id(old_removed, k));
                                assert(expired_before(v0, i as int, k, now, timeout));
                                let w = choose|w: int| 0 <= w < i && (#[trigger] v0[w]).agent_id@ == k && timed_out(v0[w].last_heartbeat, now, timeout);
                                assert(0 <= w < i + 1 && v0[w].agent_id@ == k && timed_out(v0[w].last_heartbeat, now, timeout));
                            } else {
                                assert(v0[i as int].agent_id@ == k);
                                assert(timed_out(v0[i as int].last_heartbeat, now, timeout));
                            }
                            assert(expired_before(v0, i + 1, k, now, timeout));
                        }
                        if expired_before(v0, i + 1, k, now, timeout) {
                            let j = choose|j: int| 0 <= j < i + 1 && (#[trigger] v0[j]).agent_id@ == k && timed_out(v0[j].last_heartbeat, now, timeout);
                            if j < i {
                                assert(expired_before(v0, i as int, k, now, timeout));
                                assert(names_id(old_removed, k));
                                let jj = choose|jj: int| 0 <= jj < old_removed.len() && (#[trigger] old_removed[jj])@ == k;
                                assert(removed@[jj] == old_removed[jj]);
                            } else {
                                assert(removed@[old_removed.len() as int]@ == k);
                            }
                        }
                    }
                    assert forall|k: Seq<char>| #[trigger] agents_map(kept@).contains_key(k) <==> (agents_map(after).contains_key(k)
                        && !timed_out(agents_map(after)[k].last_heartbeat, now, timeout)) by {
                        if k == e.agent_id@ && agents_map(kept@).contains_key(k) {
                            assert(agents_map(before).contains_key(k));
                            lemma_agents_map(before);
                            let m = choose|m: int| 0 <= m < before.len() && (#[trigger] before[m]).agent_id@ == k;
                            assert(before[m] == v0[m]);
                            assert(v0[m].agent_id@ == v0[i as int].agent_id@);
                        }
                    }
                }
            } else {
                proof {
                    assert(!agents_map(kept@).contains_key(e.agent_id@)) by {
                        if agents_map(kept@).contains_key(e.agent_id@) {
                            lemma_agents_map(before);
                            assert(agents_map(before).contains_key(e.agent_id@));
                            let m = choose|m: int| 0 <= m < before.len() && (#[trigger] before[m]).agent_id@ == e.agent_id@;
                            assert(before[m] == v0[m]);
                        }
                    }
                    lemma_agents_map_push(kept@, e);
                }
                let ghost old_kept = kept@;
                kept.push(e);
                proof {
                    assert forall|j: int| 0 <= j < kept@.len() implies exists|m: int| 0 <= m < i + 1 && #[trigger] kept@[j] == v0[m] by {
                        if j < old_kept.len() {
                            assert(kept@[j] == old_kept[j]);
                            let m = choose|m: int| 0 <= m < i && #[trigger] old_kept[j] == v0[m];
                        } else {
                            assert(kept@[j] == v0[i as int]);
                        }
                    }
                    assert forall|k: Seq<char>| #[trigger] names_id(removed@, k) <==> expired_before(v0, i + 1, k, now, timeout) by {
                        if expired_before(v0, i + 1, k, now, timeout) {
                            let j = choose|j: int| 0 <= j < i + 1 && (#[trigger] v0[j]).agent_id@ == k && timed_out(v0[j].last_heartbeat, now, timeout);
                            assert(j < i);
                        }
                    }
                }
            }
            proof {
                assert(rest@ =~= v0.subrange(i + 1, n as int));
            }
            i = i + 1;
        }
        assert(v0.subrange(0, n as int) =~= v0);
        self.agents = kept;
        proof {
            assert forall|k: Seq<char>| #[trigger] names_id(removed@, k) <==> (old(self).agents_view().contains_key(k)
                && timed_out(old(self).agents_view()[k].last_heartbeat, now, timeout)) by {
                if old(self).agents_view().contains_key(k) {
                    let j = choose|j: int| 0 <= j < v0.len() && (#[trigger] v0[j]).agent_id@ == k;
                    assert(agents_map(v0)[k] == v0[j]);
                }
                if expired_before(v0, n as int, k, now, timeout) {
                    let j = choose|j: int| 0 <= j < n && (#[trigger] v0[j]).agent_id@ == k && timed_out(v0[j].last_heartbeat, now, timeout);
                    assert(agents_map(v0)[k] == v0[j]);
                }
            }
        }
        removed
    }

    /// Number of known agents.
    pub fn agent_count(&self) -> (r: usize)
        requires
            self.wf(),
        ensures
            r == self.agents_view().len(),
    {
        proof { lemma_agents_map(self.agents@); }
        self.agents.len()
    }

    /// Number of active agents; every known agent is active.
    pub fn active_agent_count(&self) -> (r: usize)
        requires
            self.wf(),
        ensures
            r == self.agents_view().len(),
            forall|k: Seq<char>| #[trigger] self.agents_view().contains_key(k) ==> self.agents_view()[k].active,
    {
        proof {
            lemma_agents_map(self.agents@);
            assert forall|k: Seq<char>| #[trigger] self.agents_view().contains_key(k) implies self.agents_view()[k].active by {
                let j = choose|j: int| 0 <= j < self.agents@.len() && (#[trigger] self.agents@[j]).agent_id@ == k;
                assert(self.agents_view()[k] == self.agents@[j]);
            }
        }
        self.agents.len()
    }

    /// Whether at least `quorum_size` agents are active.
    pub fn has_quorum(&self, quorum_size: usize) -> (r: bool)
        requires
            self.wf(),
        ensures
            r == (self.agents_view().len() >= quorum_size),
    {
        self.active_agent_count() >= quorum_size
    }

    /// The active agents (every known agent), in registry order.
    pub fn active_agents(&self) -> (r: Vec<&RegisteredAgent<L, C>>)
        requires
            self.wf(),
        ensures
            r@.len() == self.agents_view().len(),
            forall|i: int| 0 <= i < r@.len() ==> self.agents_view().contains_key((#[trigger] r@[i]).agent_id@)
                && *r@[i] == self.agents_view()[r@[i].agent_id@] && r@[i].active,
            forall|k: Seq<char>| #[trigger] self.agents_view().contains_key(k)
                ==> exists|i: int| 0 <= i < r@.len() && (#[trigger] r@[i]).agent_id@ == k,
    {
        proof { lemma_agents_map(self.agents@); }
        let n = self.agents.len();
        let mut out: Vec<&RegisteredAgent<L, C>> = Vec::new();
        let mut i: usize = 0;
        while i < n
            invariant
                n == self.agents@.len(),
                i <= n,
                out@.len() == i,
                forall|j: int| 0 <= j < i ==> *out@[j] == self.agents@[j],
            decreases n - i,
        {
            out.push(&self.agents[i]);
            i = i + 1;
        }
        proof {
            assert forall|k: Seq<char>| #[trigger] self.agents_view().contains_key(k)
                implies exists|i: int| 0 <= i < out@.len() && (#[trigger] out@[i]).agent_id@ == k by {
                let j = choose|j: int| 0 <= j < self.agents@.len() && (#[trigger] self.agents@[j]).agent_id@ == k;
                assert(*out@[j] == self.agents@[j]);
            }
        }
        out
    }
}

} // verus!
