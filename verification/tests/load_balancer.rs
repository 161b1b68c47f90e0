use offline_first_sdk::load_balancer::error::LoadBalancingError;
use offline_first_sdk::load_balancer::registry::AgentRegistry;
use offline_first_sdk::load_balancer::strategy::{
    ConsistentHashingStrategy, LoadBalancerConfig, LoadBalancingStrategy, RoundRobinStrategy,
};

fn names(v: &[&str]) -> Vec<String> {
    v.iter().map(|s| s.to_string()).collect()
}

#[test]
fn round_robin_cycles_through_agents() {
    let mut rr = RoundRobinStrategy::new();
    assert!(matches!(rr.select(), Err(LoadBalancingError::NoAgentsAvailable)));
    rr.update_agents(names(&["a", "b", "c"]));
    let picks: Vec<String> = (0..6).map(|_| rr.select().unwrap()).collect();
    assert_eq!(picks, names(&["a", "b", "c", "a", "b", "c"]));
}

#[test]
fn round_robin_keeps_or_resets_position() {
    let mut rr = RoundRobinStrategy::new();
    rr.update_agents(names(&["a", "b", "c"]));
    rr.select().unwrap();
    rr.select().unwrap();
    rr.update_agents(names(&["x", "y"]));
    // position 2 is out of range for two agents: back to the start
    assert_eq!(rr.select().unwrap(), "x");
    rr.update_agents(names(&["p", "q", "r"]));
    assert_eq!(rr.select().unwrap(), "q");
}

#[test]
fn consistent_hashing_is_sticky_and_names_agents() {
    let mut ch = ConsistentHashingStrategy::new(100);
    assert!(matches!(ch.select("k"), Err(LoadBalancingError::NoAgentsAvailable)));
    ch.update_agents(names(&["agent-1", "agent-2", "agent-3"]));
    for key in ["user-1", "user-2", "session-xyz", ""] {
        let a = ch.select(key).unwrap();
        assert!(["agent-1", "agent-2", "agent-3"].contains(&a.as_str()));
        assert_eq!(ch.select(key).unwrap(), a);
    }
}

#[test]
fn consistent_hashing_without_virtual_nodes_has_empty_ring() {
    let mut ch = ConsistentHashingStrategy::new(0);
    ch.update_agents(names(&["a"]));
    assert!(matches!(ch.select("k"), Err(LoadBalancingError::NoAgentsAvailable)));
}

#[test]
fn consistent_hashing_single_agent_takes_everything() {
    let mut ch = ConsistentHashingStrategy::new(3);
    ch.update_agents(names(&["only"]));
    assert_eq!(ch.select("a").unwrap(), "only");
    assert_eq!(ch.select("zzz").unwrap(), "only");
}

#[test]
fn strategy_names_and_default_config() {
    assert_eq!(LoadBalancingStrategy::RoundRobin.display_name(), "RoundRobin");
    assert_eq!(LoadBalancingStrategy::ConsistentHashing.display_name(), "ConsistentHashing");
    let c = LoadBalancerConfig::default();
    assert_eq!(c.strategy, LoadBalancingStrategy::LeastLoaded);
    assert_eq!(c.max_agents, Some(100));
    assert_eq!(c.health_check_interval_secs, 30);
}

#[test]
fn error_constructors_carry_message() {
    assert!(matches!(LoadBalancingError::coordination("x"), LoadBalancingError::CoordinationError(ref m) if m == "x"));
    assert!(matches!(LoadBalancingError::prediction("p"), LoadBalancingError::PredictionError(ref m) if m == "p"));
    assert!(matches!(LoadBalancingError::adaptive("a"), LoadBalancingError::AdaptiveError(ref m) if m == "a"));
}

const S: u64 = 1_000_000_000;

#[test]
fn registry_follows_coordination_events() {
    let mut reg: AgentRegistry<u32, Vec<String>> = AgentRegistry::new();
    assert!(reg.register("a1", 0, vec!["gpu".to_string()], 100 * S).is_ok());
    match reg.register("a1", 0, Vec::new(), 101 * S) {
        Err(LoadBalancingError::Other(m)) => assert_eq!(m, "Agent a1 already registered"),
        _ => panic!("duplicate registration accepted"),
    }
    assert!(reg.heartbeat("a2", 7, Vec::new(), 110 * S));
    assert!(!reg.heartbeat("a1", 5, Vec::new(), 120 * S));
    assert!(reg.update_load("a1", 9));
    assert!(!reg.update_load("zz", 9));
    assert!(!reg.register_if_absent("a2", 0, Vec::new(), 130 * S));
    assert_eq!(reg.agent_count(), 2);
    assert!(reg.has_quorum(2));
    assert!(!reg.has_quorum(3));
    let active = reg.active_agents();
    assert_eq!(active.len(), 2);
    assert_eq!(active[0].agent_id, "a1");
    assert_eq!(active[0].load, 9);
    assert_eq!(active[0].capabilities, vec!["gpu".to_string()]);
    assert_eq!(active[0].last_heartbeat, 120 * S);
    // a2 was last heard at 110: at 141 more than 30 s have passed
    let expired = reg.expire(141 * S, 30);
    assert_eq!(expired, vec!["a2".to_string()]);
    assert_eq!(reg.agent_count(), 1);
    assert!(reg.unregister("a1").is_ok());
    match reg.unregister("a1") {
        Err(LoadBalancingError::AgentNotFound(m)) => assert_eq!(m, "a1"),
        _ => panic!("unknown agent unregistered"),
    }
    assert!(!reg.remove("a1"));
}

#[test]
fn registry_expiry_boundary_and_clock_going_back() {
    let mut reg: AgentRegistry<(), ()> = AgentRegistry::new();
    reg.heartbeat("a", (), (), 100 * S + 500);
    assert!(reg.expire(130 * S + 500, 30).is_empty());
    // 30.99 s have passed: still 30 whole seconds
    assert!(reg.expire(131 * S + 499, 30).is_empty());
    assert!(reg.expire(50 * S, 30).is_empty());
    assert_eq!(reg.expire(131 * S + 500, 30), vec!["a".to_string()]);
}


#[test]
fn error_messages() {
    assert_eq!(LoadBalancingError::coordination("lost quorum").message(), "Distributed coordination error: lost quorum");
    assert_eq!(LoadBalancingError::NoAgentsAvailable.message(), "No agents available for load balancing");
    assert_eq!(LoadBalancingError::AgentNotFound("a1".to_string()).message(), "Agent 'a1' not found");
    assert_eq!(LoadBalancingError::Other("x".to_string()).message(), "x");
}

#[test]
fn adding_an_agent_moves_keys_only_onto_it() {
    let mut s1 = ConsistentHashingStrategy::new(50);
    s1.update_agents(names(&["a", "b", "c"]));
    let mut s2 = ConsistentHashingStrategy::new(50);
    s2.update_agents(names(&["a", "b", "c", "d"]));
    let mut moved = 0;
    for i in 0..500 {
        let key = format!("session-{}", i);
        let before = s1.select(&key).unwrap();
        let after = s2.select(&key).unwrap();
        assert!(after == before || after == "d");
        if after != before {
            moved += 1;
        }
    }
    assert!(moved > 0);
    let mut none = ConsistentHashingStrategy::new(0);
    none.update_agents(names(&["a"]));
    assert!(matches!(none.select("k"), Err(LoadBalancingError::NoAgentsAvailable)));
}

#[test]
fn round_robin_cycle_returns_each_agent_once() {
    let mut rr = RoundRobinStrategy::new();
    rr.update_agents(names(&["a", "b", "c"]));
    rr.select().unwrap();
    let cycle: Vec<String> = (0..3).map(|_| rr.select().unwrap()).collect();
    assert_eq!(cycle, names(&["b", "c", "a"]));
}
