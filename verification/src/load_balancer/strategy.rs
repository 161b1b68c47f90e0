//! Load balancing strategies: round-robin rotation and a consistent-hash
//! ring for sticky sessions.

use std::collections::hash_map::DefaultHasher;
use std::hash::Hasher;
use vstd::prelude::*;
use std::collections::HashMap;
use crate::hash_keys::keys_of;
use vstd::std_specs::hash::DefaultHasherAdditionalSpecFns;
use crate::load_balancer::error::LoadBalancingError;
use crate::text::{decimal, append_decimal};

verus! {

/// Load balancing strategy enumeration.
#[derive(Debug, Clone, Copy, PartialEq, Eq, Hash, Structural)]
pub enum LoadBalancingStrategy {
    /// Simple round-robin selection.
    RoundRobin,
    /// Select the agent with the lowest current load.
    LeastLoaded,
    /// Weighted round-robin based on agent capacity.
    WeightedRoundRobin,
    /// Consistent hashing for sticky sessions.
    ConsistentHashing,
    /// Adaptive strategy that learns from past performance.
    Adaptive,
    /// Predictive strategy using time-series forecasting.
    Predictive,
}

/// The display name of each strategy.
pub open spec fn strategy_name(s: LoadBalancingStrategy) -> Seq<char> {
    match s {
        LoadBalancingStrategy::RoundRobin => "RoundRobin"@,
        LoadBalancingStrategy::LeastLoaded => "LeastLoaded"@,
        LoadBalancingStrategy::WeightedRoundRobin => "WeightedRoundRobin"@,
        LoadBalancingStrategy::ConsistentHashing => "ConsistentHashing"@,
        LoadBalancingStrategy::Adaptive => "Adaptive"@,
        LoadBalancingStrategy::Predictive => "Predictive"@,
    }
}

impl LoadBalancingStrategy {
    /// The name under which the strategy is displayed.
    pub fn display_name(&self) -> (r: String)
        ensures
            r@ == strategy_name(*self),
    {
        match self {
            LoadBalancingStrategy::RoundRobin => String::from_str("RoundRobin"),
            LoadBalancingStrategy::LeastLoaded => String::from_str("LeastLoaded"),
            LoadBalancingStrategy::WeightedRoundRobin => String::from_str("WeightedRoundRobin"),
            LoadBalancingStrategy::ConsistentHashing => String::from_str("ConsistentHashing"),
            LoadBalancingStrategy::Adaptive => String::from_str("Adaptive"),
            LoadBalancingStrategy::Predictive => String::from_str("Predictive"),
        }
    }
}

/// Configuration for the load balancer.
#[derive(Debug, Clone)]
pub struct LoadBalancerConfig {
    /// Strategy to use.
    pub strategy: LoadBalancingStrategy,
    /// Update interval for metrics in seconds.
    pub metrics_update_interval_secs: u64,
    /// Whether to enable health checks.
    pub enable_health_checks: bool,
    /// Health check interval in seconds.
    pub health_check_interval_secs: u64,
    /// Maximum number of agents to track.
    pub max_agents: Option<usize>,
    /// Whether to enable automatic agent discovery.
    pub enable_auto_discovery: bool,
}

impl Default for LoadBalancerConfig {
    fn default() -> (r: Self)
        ensures
            r.strategy == LoadBalancingStrategy::LeastLoaded,
            r.metrics_update_interval_secs == 5,
            r.enable_health_checks,
            r.health_check_interval_secs == 30,
            r.max_agents == Some(100usize),
            !r.enable_auto_discovery,
    {
        LoadBalancerConfig {
            strategy: LoadBalancingStrategy::LeastLoaded,
            metrics_update_interval_secs: 5,
            enable_health_checks: true,
            health_check_interval_secs: 30,
            max_agents: Some(100),
            enable_auto_discovery: false,
        }
    }
}

/// The character sequences of a list of strings.
pub open spec fn strings_view(v: Seq<String>) -> Seq<Seq<char>> {
    v.map_values(|s: String| s@)
}

/// Round-robin load balancing strategy.
pub struct RoundRobinStrategy {
    agents: Vec<String>,
    current_index: usize,
}

impl RoundRobinStrategy {
    #[verifier::type_invariant]
    spec fn index_in_range(self) -> bool {
        self.agents.len() > 0 ==> self.current_index < self.agents.len()
    }

    /// The agents, in rotation order.
    pub closed spec fn agents_view(&self) -> Seq<Seq<char>> {
        strings_view(self.agents@)
    }

    /// The position of the agent that the next selection returns.
    pub closed spec fn index(&self) -> nat {
        self.current_index as nat
    }

    /// Creates a round-robin strategy with no agents.
    pub fn new() -> (r: Self)
        ensures
            r.agents_view() == Seq::<Seq<char>>::empty(),
            r.index() == 0,
    {
        let r = RoundRobinStrategy { agents: Vec::new(), current_index: 0 };
        assert(r.agents_view() =~= Seq::<Seq<char>>::empty());
        r
    }

    /// Selects the next agent in round-robin order: the agent at the
    /// current position, after which the position moves on by one,
    /// wrapping around at the end of the list.
    pub fn select(&mut self) -> (r: Result<String, LoadBalancingError>)
        ensures
            old(self).agents_view().len() == 0 ==> {
                &&& r matches Err(LoadBalancingError::NoAgentsAvailable)
                &&& final(self).agents_view() == old(self).agents_view()
                &&& final(self).index() == old(self).index()
            },
            old(self).agents_view().len() > 0 ==> {
                &&& old(self).index() < old(self).agents_view().len()
                &&& r matches Ok(a) && a@ == old(self).agents_view()[old(self).index() as int]
                &&& final(self).agents_view() == old(self).agents_view()
                &&& final(self).index() == (old(self).index() + 1) % old(self).agents_view().len()
            },
    {
        proof { use_type_invariant(&*self); }
        if self.agents.len() == 0 {
            return Err(LoadBalancingError::NoAgentsAvailable);
        }
        let agent = self.agents[self.current_index].clone();
        self.current_index = (self.current_index + 1) % self.agents.len();
        Ok(agent)
    }

    /// Replaces the list of agents; the position is kept where it still
    /// names an agent, and goes back to the start otherwise.
    pub fn update_agents(&mut self, agents: Vec<String>)
        ensures
            final(self).agents_view() == strings_view(agents@),
            final(self).index() == (if old(self).index() >= agents@.len() && agents@.len() > 0 {
                0
            } else {
                old(self).index()
            }),
    {
        let idx = if self.current_index >= agents.len() && agents.len() > 0 {
            0
        } else {
            self.current_index
        };
        *self = RoundRobinStrategy { agents, current_index: idx };
    }
}

/// What the standard library's string hashing feeds a `DefaultHasher`
/// for the given characters.
pub uninterp spec fn str_hash_writes(key: Seq<char>) -> Seq<Seq<u8>>;

/// Feeds `key` to `state` through the standard `Hash` impl of `str`.
/// Trusted: `<str as Hash>::hash` writes to the hasher what depends on the
/// characters of `key` alone; the contract names those writes.
#[verifier::external_body]
fn hash_str_into(key: &str, state: &mut DefaultHasher)
    ensures
        final(state)@ == old(state)@ + str_hash_writes(key@),
{
    std::hash::Hash::hash(key, state)
}

/// The 32-bit ring position of a key: the low half of its `DefaultHasher` digest.
pub open spec fn ring_hash(key: Seq<char>) -> u32 {
    DefaultHasher::spec_finish(Seq::<Seq<u8>>::empty() + str_hash_writes(key)) as u32
}

/// The key of the `i`-th virtual node of an agent: `agent#i`.
pub open spec fn vnode_key(agent: Seq<char>, i: nat) -> Seq<char> {
    agent + seq!['#'] + decimal(i)
}

/// The ring after placing the first `k` virtual nodes of `agent` on `m`;
/// a later node overrides an earlier one at the same position.
pub open spec fn place_vnodes(m: Map<u32, Seq<char>>, agent: Seq<char>, k: nat) -> Map<u32, Seq<char>>
    decreases k,
{
    if k == 0 {
        m
    } else {
        place_vnodes(m, agent, (k - 1) as nat).insert(ring_hash(vnode_key(agent, (k - 1) as nat)), agent)
    }
}

/// The ring built from `agents`, in order, each with `vn` virtual nodes.
pub open spec fn ring_of(agents: Seq<Seq<char>>, vn: nat) -> Map<u32, Seq<char>>
    decreases agents.len(),
{
    if agents.len() == 0 {
        Map::empty()
    } else {
        place_vnodes(ring_of(agents.drop_last(), vn), agents.last(), vn)
    }
}

/// A ring is empty exactly when there are no agents or no virtual nodes.
pub proof fn lemma_ring_empty(agents: Seq<Seq<char>>, vn: nat)
    ensures
        ring_of(agents, vn).dom().is_empty() <==> (agents.len() == 0 || vn == 0),
    decreases agents.len(),
{
    if agents.len() == 0 {
        assert(ring_of(agents, vn).dom() =~= Set::<u32>::empty());
    } else {
        lemma_ring_empty(agents.drop_last(), vn);
        if vn == 0 {
            assert(ring_of(agents, vn) == ring_of(agents.drop_last(), vn));
        } else {
            let k = ring_hash(vnode_key(agents.last(), (vn - 1) as nat));
            assert(ring_of(agents, vn).dom().contains(k));
        }
    }
}

/// The texts of a ring's agents, by position.
pub open spec fn ring_texts(ring: Map<u32, String>) -> Map<u32, Seq<char>> {
    ring.map_values(|a: String| a@)
}

/// `k` is where a lookup of hash `h` lands on a ring with positions `dom`:
/// the smallest position at or after `h`, or, when there is none, the
/// smallest position of all.
pub open spec fn is_successor(dom: Set<u32>, h: u32, k: u32) -> bool {
    &&& dom.contains(k)
    &&& if exists|j: u32| dom.contains(j) && j >= h {
        k >= h && forall|j: u32| dom.contains(j) && j >= h ==> k <= j
    } else {
        forall|j: u32| dom.contains(j) ==> k <= j
    }
}

/// Consistent hashing strategy for sticky sessions.
pub struct ConsistentHashingStrategy {
    agents: Vec<String>,
    virtual_nodes: usize,
    ring: HashMap<u32, String>,
}

impl ConsistentHashingStrategy {
    #[verifier::type_invariant]
    spec fn ring_names_agents(self) -> bool {
        &&& forall|k: u32| #[trigger] ring_texts(self.ring@).contains_key(k)
            ==> strings_view(self.agents@).contains(ring_texts(self.ring@)[k])
        &&& ring_texts(self.ring@).dom().is_empty() <==> (self.agents@.len() == 0 || self.virtual_nodes == 0)
    }

    /// The agents, in registration order.
    pub closed spec fn agents_view(&self) -> Seq<Seq<char>> {
        strings_view(self.agents@)
    }

    /// The number of virtual nodes per agent.
    pub closed spec fn virtual_nodes_view(&self) -> nat {
        self.virtual_nodes as nat
    }

    /// The ring: which agent owns each occupied position.
    pub closed spec fn ring_view(&self) -> Map<u32, Seq<char>> {
        ring_texts(self.ring@)
    }

    /// Creates a consistent hashing strategy with `virtual_nodes` nodes per agent.
    pub fn new(virtual_nodes: usize) -> (r: Self)
        ensures
            r.agents_view() == Seq::<Seq<char>>::empty(),
            r.virtual_nodes_view() == virtual_nodes,
            r.ring_view() == Map::<u32, Seq<char>>::empty(),
    {
        let r = ConsistentHashingStrategy { agents: Vec::new(), virtual_nodes, ring: HashMap::new() };
        assert(r.agents_view() =~= Seq::<Seq<char>>::empty());
        assert(r.ring_view() =~= Map::<u32, Seq<char>>::empty());
        r
    }

    /// The ring position of a key.
    fn hash(key: &str) -> (r: u32)
        ensures
            r == ring_hash(key@),
    {
        let mut hasher = DefaultHasher::new();
        hash_str_into(key, &mut hasher);
        assert(hasher@ == Seq::<Seq<u8>>::empty() + str_hash_writes(key@));
        hasher.finish() as u32
    }

    /// Selects the agent owning the first ring position at or after the
    /// key's hash, wrapping around to the lowest position.
    pub fn select(&self, key: &str) -> (r: Result<String, LoadBalancingError>)
        ensures
            self.agents_view().len() == 0 ==> r matches Err(LoadBalancingError::NoAgentsAvailable),
            self.agents_view().len() > 0 && self.ring_view().dom().is_empty()
                ==> r matches Err(LoadBalancingError::NoAgentsAvailable),
            self.agents_view().len() > 0 && !self.ring_view().dom().is_empty() ==> r is Ok,
            r is Ok <==> (self.agents_view().len() > 0 && self.virtual_nodes_view() > 0),
            r is Ok <==> !self.ring_view().dom().is_empty(),
            self.ring_view().dom().is_empty() <==> (self.agents_view().len() == 0 || self.virtual_nodes_view() == 0),
            r matches Ok(a) ==> exists|k: u32| #![trigger self.ring_view()[k]]
                is_successor(self.ring_view().dom(), ring_hash(key@), k)
                && a@ == self.ring_view()[k],
            r matches Ok(a) ==> self.agents_view().contains(a@),
    {
        broadcast use vstd::std_specs::hash::group_hash_axioms;
        proof { use_type_invariant(self); }
        if self.agents.len() == 0 {
            return Err(LoadBalancingError::NoAgentsAvailable);
        }
        let h = Self::hash(key);
        let ks = keys_of(&self.ring);
        let ghost dom = self.ring@.dom();
        assert(self.ring_view().dom() =~= dom);
        let n = ks.len();
        // smallest position at or after `h`, and smallest position overall
        let mut best_ge: Option<u32> = None;
        let mut best_min: Option<u32> = None;
        let mut j: usize = 0;
        while j < n
            invariant
                n == ks@.len(),
                j <= n,
                ks@.to_set() == dom,
                match best_ge {
                    Some(b) => dom.contains(b) && b >= h && forall|i: int| 0 <= i < j && ks@[i] >= h ==> b <= ks@[i],
                    None => forall|i: int| 0 <= i < j ==> ks@[i] < h,
                },
                match best_min {
                    Some(b) => dom.contains(b) && forall|i: int| 0 <= i < j ==> b <= ks@[i],
                    None => j == 0,
                },
            decreases n - j,
        {
            let kj = ks[j];
            assert(ks@.to_set().contains(ks@[j as int]));
            if kj >= h {
                match best_ge {
                    Some(b) => {
                        if kj <= b {
                            best_ge = Some(kj);
                        }
                    },
                    None => {
                        best_ge = Some(kj);
                    },
                }
            }
            match best_min {
                Some(b) => {
                    if kj <= b {
                        best_min = Some(kj);
                    }
                },
                None => {
                    best_min = Some(kj);
                },
            }
            j = j + 1;
        }
        let chosen = match best_ge {
            Some(b) => Some(b),
            None => best_min,
        };
        proof {
            assert forall|k: u32| dom.contains(k) implies exists|i: int| 0 <= i < n && ks@[i] == k by {
                assert(ks@.to_set().contains(k));
            }
        }
        match chosen {
            Some(k) => {
                proof {
                    let m = self.ring_view();
                    assert(is_successor(m.dom(), ring_hash(key@), k)) by {
                        if exists|j2: u32| m.dom().contains(j2) && j2 >= h {
                            let j2 = choose|j2: u32| m.dom().contains(j2) && j2 >= h;
                            let i2 = choose|i: int| 0 <= i < n && ks@[i] == j2;
                            assert(best_ge is Some);
                            assert forall|x: u32| m.dom().contains(x) && x >= h implies k <= x by {
                                let ix = choose|i: int| 0 <= i < n && ks@[i] == x;
                            }
                        } else {
                            if best_ge is Some {
                                assert(m.dom().contains(k) && k >= h);
                            }
                            assert forall|x: u32| m.dom().contains(x) implies k <= x by {
                                let ix = choose|i: int| 0 <= i < n && ks@[i] == x;
                            }
                        }
                    }
                }
                match self.ring.get(&k) {
                    Some(agent) => {
                        proof {
                            assert(self.ring_view()[k] == agent@);
                            assert(self.ring_view().contains_key(k));
                        }
                        Ok(agent.clone())
                    },
                    None => Err(LoadBalancingError::NoAgentsAvailable),
                }
            },
            None => {
                proof {
                    assert(n == 0);
                    assert(dom =~= Set::<u32>::empty()) by {
                        assert forall|k: u32| !dom.contains(k) by {
                            if dom.contains(k) {
                                assert(ks@.to_set().contains(k));
                            }
                        }
                    }
                }
                Err(LoadBalancingError::NoAgentsAvailable)
            },
        }
    }

    /// Replaces the list of agents and rebuilds the ring from it.
    pub fn update_agents(&mut self, agents: Vec<String>)
        ensures
            final(self).agents_view() == strings_view(agents@),
            final(self).virtual_nodes_view() == old(self).virtual_nodes_view(),
            final(self).ring_view() == ring_of(strings_view(agents@), old(self).virtual_nodes_view()),
            final(self).ring_view().dom().is_empty() <==> (agents@.len() == 0 || old(self).virtual_nodes_view() == 0),
    {
        let ring = Self::build_ring(&agents, self.virtual_nodes);
        proof { lemma_ring_empty(strings_view(agents@), self.virtual_nodes as nat); }
        *self = ConsistentHashingStrategy { agents, virtual_nodes: self.virtual_nodes, ring };
    }

    /// Places `vn` virtual nodes of every agent on a fresh ring.
    fn build_ring(agents: &Vec<String>, vn: usize) -> (ring: HashMap<u32, String>)
        ensures
            ring_texts(ring@) == ring_of(strings_view(agents@), vn as nat),
            forall|k: u32| #[trigger] ring_texts(ring@).contains_key(k)
                ==> strings_view(agents@).contains(ring_texts(ring@)[k]),
    {
        broadcast use vstd::std_specs::hash::group_hash_axioms;
        let mut ring: HashMap<u32, String> = HashMap::new();
        assert(ring_texts(ring@) =~= ring_of(strings_view(agents@.subrange(0, 0)), vn as nat));
        let n = agents.len();
        let mut a: usize = 0;
        while a < n
            invariant
                n == agents@.len(),
                a <= n,
                ring_texts(ring@) == ring_of(strings_view(agents@.subrange(0, a as int)), vn as nat),
                forall|k: u32| #[trigger] ring_texts(ring@).contains_key(k)
                    ==> strings_view(agents@).contains(ring_texts(ring@)[k]),
            decreases n - a,
        {
            let ghost before = ring_texts(ring@);
            let mut i: usize = 0;
            while i < vn
                invariant
                    n == agents@.len(),
                    a < n,
                    i <= vn,
                    ring_texts(ring@) == place_vnodes(before, agents@[a as int]@, i as nat),
                    forall|k: u32| #[trigger] ring_texts(ring@).contains_key(k)
                        ==> strings_view(agents@).contains(ring_texts(ring@)[k]),
                decreases vn - i,
            {
                let mut key = agents[a].clone();
                key.append("#");
                append_decimal(&mut key, i as u64);
                proof {
                    reveal_strlit("#");
                    assert(key@ =~= vnode_key(agents@[a as int]@, i as nat));
                }
                let h = Self::hash(key.as_str());
                let ghost old_ring = ring@;
                let agent = agents[a].clone();
                ring.insert(h, agent);
                proof {
                    assert(ring_texts(ring@) =~= ring_texts(old_ring).insert(h, agents@[a as int]@));
                    assert(strings_view(agents@)[a as int] == agents@[a as int]@);
                    assert forall|k: u32| #[trigger] ring_texts(ring@).contains_key(k)
                        implies strings_view(agents@).contains(ring_texts(ring@)[k]) by {
                        if k != h {
                            assert(ring_texts(old_ring).contains_key(k));
                        }
                    }
                }
                i = i + 1;
            }
            proof {
                let sub = agents@.subrange(0, a + 1);
                assert(strings_view(sub).drop_last() =~= strings_view(agents@.subrange(0, a as int)));
                assert(strings_view(sub).last() == agents@[a as int]@);
            }
            a = a + 1;
        }
        assert(agents@.subrange(0, n as int) =~= agents@);
        ring
    }
}

} // verus!
