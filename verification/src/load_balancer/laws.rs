//! Laws of the selection strategies: round-robin fairness and the
//! stickiness of consistent hashing.

use vstd::prelude::*;
use crate::load_balancer::registry::{RegisteredAgent, timed_out};
use crate::load_balancer::strategy::{RoundRobinStrategy, is_successor, place_vnodes, ring_hash, ring_of};

verus! {

/// Position of a round-robin strategy over `n` agents after `k` selections
/// from position `start`, each moving the position on by one and wrapping
/// around at the end.
pub open spec fn rr_position(start: nat, n: nat, k: nat) -> nat
    decreases k,
{
    if k == 0 {
        start
    } else {
        (((rr_position(start, n, (k - 1) as nat) + 1) as int) % (n as int)) as nat
    }
}

proof fn lemma_wrap(x: int, n: int)
    requires
        0 < n,
        0 <= x < 2 * n,
    ensures
        x % n == (if x < n { x } else { x - n }),
{
    if x < n {
        vstd::arithmetic::div_mod::lemma_small_mod(x as nat, n as nat);
    } else {
        vstd::arithmetic::div_mod::lemma_small_mod((x - n) as nat, n as nat);
        vstd::arithmetic::div_mod::lemma_mod_add_multiples_vanish(x - n, n);
    }
}

/// After `k` selections the round-robin position is `(start + k) mod n`.
pub proof fn law_round_robin_position(start: nat, n: nat, k: nat)
    requires
        start < n,
    ensures
        rr_position(start, n, k) as int == ((start + k) as int) % (n as int),
    decreases k,
{
    if k == 0 {
        vstd::arithmetic::div_mod::lemma_small_mod(start, n);
    } else {
        law_round_robin_position(start, n, (k - 1) as nat);
        let p = rr_position(start, n, (k - 1) as nat);
        vstd::arithmetic::div_mod::lemma_add_mod_noop((start + k - 1) as int, 1, n as int);
        if n > 1 {
            vstd::arithmetic::div_mod::lemma_small_mod(1, n);
        } else {
            assert(p == 0) by {
                vstd::arithmetic::div_mod::lemma_mod_bound((start + k - 1) as int, n as int);
            }
            vstd::arithmetic::div_mod::lemma_mod_self_0(1);
            vstd::arithmetic::div_mod::lemma_mod_bound((start + k) as int, 1);
        }
    }
}

/// Some selection among the first `n` from `start` lands on position `a`.
pub open spec fn rr_reaches(start: nat, n: nat, a: nat) -> bool {
    exists|j: nat| j < n && #[trigger] rr_position(start, n, j) == a
}

/// Round robin is fair: any `n` consecutive selections over `n` agents
/// return every agent exactly once.
pub proof fn law_round_robin_fair(start: nat, n: nat)
    requires
        start < n,
    ensures
        forall|a: nat| a < n ==> #[trigger] rr_reaches(start, n, a),
        forall|j1: nat, j2: nat| j1 < j2 < n ==> #[trigger] rr_position(start, n, j1) != #[trigger] rr_position(start, n, j2),
{
    assert forall|a: nat| a < n implies #[trigger] rr_reaches(start, n, a) by {
        let j: nat = if a >= start { (a - start) as nat } else { (a + n - start) as nat };
        law_round_robin_position(start, n, j);
        lemma_wrap((start + j) as int, n as int);
        assert(rr_position(start, n, j) == a);
    }
    assert forall|j1: nat, j2: nat| j1 < j2 < n implies #[trigger] rr_position(start, n, j1) != #[trigger] rr_position(start, n, j2) by {
        law_round_robin_position(start, n, j1);
        law_round_robin_position(start, n, j2);
        lemma_wrap((start + j1) as int, n as int);
        lemma_wrap((start + j2) as int, n as int);
    }
}

/// `b` and `out` are what one `RoundRobinStrategy::select` on `a` leaves
/// and returns, by its contract, when there are agents.
pub open spec fn select_step(a: RoundRobinStrategy, b: RoundRobinStrategy, out: Seq<char>) -> bool {
    &&& a.agents_view().len() > 0
    &&& a.index() < a.agents_view().len()
    &&& out == a.agents_view()[a.index() as int]
    &&& b.agents_view() == a.agents_view()
    &&& b.index() == (a.index() + 1) % a.agents_view().len()
}

/// Round robin over calls: `n` consecutive selections over `n` distinct
/// agents, with no change of the agent list between them, return every
/// agent exactly once, in list order from the starting position.
pub proof fn law_round_robin_calls_fair(states: Seq<RoundRobinStrategy>, outs: Seq<Seq<char>>)
    requires
        states.len() == outs.len() + 1,
        outs.len() == states[0].agents_view().len(),
        forall|t: int| 0 <= t < outs.len() ==> select_step(#[trigger] states[t], states[t + 1], outs[t]),
        forall|i: int, j: int| 0 <= i < j < states[0].agents_view().len() ==> states[0].agents_view()[i]
            != states[0].agents_view()[j],
    ensures
        forall|t: int| 0 <= t < outs.len() ==> outs[t] == states[0].agents_view()[
            ((states[0].index() + t) as int) % (outs.len() as int)],
        forall|a: int| 0 <= a < outs.len() ==> outs.contains(#[trigger] states[0].agents_view()[a]),
        forall|t1: int, t2: int| 0 <= t1 < t2 < outs.len() ==> outs[t1] != outs[t2],
{
    let n = outs.len();
    if n == 0 {
        return;
    }
    let v = states[0].agents_view();
    let start = states[0].index();
    assert(select_step(states[0], states[1], outs[0]));
    assert forall|t: int| 0 <= t <= n implies #[trigger] states[t].agents_view() == v
        && states[t].index() == rr_position(start, n, t as nat) by {
        lemma_states_follow(states, outs, v, start, t);
    }
    assert forall|t: int| 0 <= t < n implies outs[t] == v[((start + t) as int) % (n as int)] by {
        assert(select_step(states[t], states[t + 1], outs[t]));
        assert(states[t].index() == rr_position(start, n, t as nat));
        law_round_robin_position(start, n, t as nat);
    }
    law_round_robin_fair(start, n);
    assert forall|a: int| 0 <= a < n implies outs.contains(#[trigger] states[0].agents_view()[a]) by {
        assert(rr_reaches(start, n, a as nat));
        let j = choose|j: nat| j < n && #[trigger] rr_position(start, n, j) == a as nat;
        assert(select_step(states[j as int], states[j as int + 1], outs[j as int]));
        assert(states[j as int].index() == rr_position(start, n, j));
        assert(outs[j as int] == v[a]);
    }
    assert forall|t1: int, t2: int| 0 <= t1 < t2 < n implies outs[t1] != outs[t2] by {
        assert(select_step(states[t1], states[t1 + 1], outs[t1]));
        assert(select_step(states[t2], states[t2 + 1], outs[t2]));
        assert(states[t1].index() == rr_position(start, n, t1 as nat));
        assert(states[t2].index() == rr_position(start, n, t2 as nat));
        assert(rr_position(start, n, t1 as nat) != rr_position(start, n, t2 as nat));
    }
}

proof fn lemma_states_follow(states: Seq<RoundRobinStrategy>, outs: Seq<Seq<char>>, v: Seq<Seq<char>>, start: nat, t: int)
    requires
        states.len() == outs.len() + 1,
        outs.len() == v.len(),
        v == states[0].agents_view(),
        start == states[0].index(),
        forall|u: int| 0 <= u < outs.len() ==> select_step(#[trigger] states[u], states[u + 1], outs[u]),
        0 <= t <= outs.len(),
    ensures
        states[t].agents_view() == v,
        states[t].index() == rr_position(start, v.len(), t as nat),
    decreases t,
{
    if t > 0 {
        lemma_states_follow(states, outs, v, start, t - 1);
        assert(select_step(states[t - 1], states[t], outs[t - 1]));
    }
}

/// Consistent hashing is sticky: on a given ring a key always lands on the
/// same position, so two selections of the same key name the same agent.
pub proof fn law_consistent_hashing_sticky(ring: Map<u32, Seq<char>>, key: Seq<char>, a1: Seq<char>, a2: Seq<char>)
    requires
        exists|k: u32| is_successor(ring.dom(), ring_hash(key), k) && a1 == #[trigger] ring[k],
        exists|k: u32| is_successor(ring.dom(), ring_hash(key), k) && a2 == #[trigger] ring[k],
    ensures
        a1 == a2,
{
    let h = ring_hash(key);
    let k1 = choose|k: u32| is_successor(ring.dom(), h, k) && a1 == #[trigger] ring[k];
    let k2 = choose|k: u32| is_successor(ring.dom(), h, k) && a2 == #[trigger] ring[k];
    assert(k1 <= k2 && k2 <= k1);
}

proof fn lemma_place_vnodes(m: Map<u32, Seq<char>>, x: Seq<char>, k: nat)
    ensures
        forall|p: u32| m.contains_key(p) ==> #[trigger] place_vnodes(m, x, k).contains_key(p),
        forall|p: u32| #[trigger] place_vnodes(m, x, k).contains_key(p) ==> place_vnodes(m, x, k)[p] == x || (
        m.contains_key(p) && place_vnodes(m, x, k)[p] == m[p]),
    decreases k,
{
    if k > 0 {
        let prev = place_vnodes(m, x, (k - 1) as nat);
        lemma_place_vnodes(m, x, (k - 1) as nat);
        let cur = place_vnodes(m, x, k);
        let hk = ring_hash(crate::load_balancer::strategy::vnode_key(x, (k - 1) as nat));
        assert(cur == prev.insert(hk, x));
        assert forall|p: u32| m.contains_key(p) implies #[trigger] cur.contains_key(p) by {
            assert(prev.contains_key(p));
        }
        assert forall|p: u32| #[trigger] cur.contains_key(p) implies cur[p] == x || (m.contains_key(p) && cur[p] == m[p]) by {
            if p != hk {
                assert(prev.contains_key(p));
            }
        }
    }
}

/// Adding an agent to a consistent-hashing ring moves keys only onto
/// that agent: a key that the ring of `agents` sends to `a1` goes, on the
/// ring of `agents` followed by `x`, to `a1` or to `x`.
pub proof fn law_adding_agent_moves_keys_only_to_it(
    agents: Seq<Seq<char>>,
    x: Seq<char>,
    vn: nat,
    key: Seq<char>,
    a1: Seq<char>,
    a2: Seq<char>,
)
    requires
        exists|k: u32| is_successor(ring_of(agents, vn).dom(), ring_hash(key), k) && a1 == #[trigger] ring_of(agents, vn)[k],
        exists|k: u32| is_successor(ring_of(agents.push(x), vn).dom(), ring_hash(key), k) && a2 == #[trigger] ring_of(
            agents.push(x),
            vn,
        )[k],
    ensures
        a2 == a1 || a2 == x,
{
    let r1 = ring_of(agents, vn);
    let r2 = ring_of(agents.push(x), vn);
    assert(agents.push(x).drop_last() =~= agents);
    assert(r2 == place_vnodes(r1, x, vn));
    lemma_place_vnodes(r1, x, vn);
    let h = ring_hash(key);
    let k1 = choose|k: u32| is_successor(r1.dom(), h, k) && a1 == #[trigger] r1[k];
    let k2 = choose|k: u32| is_successor(r2.dom(), h, k) && a2 == #[trigger] r2[k];
    if a2 != x {
        assert(r1.contains_key(k2) && r2[k2] == r1[k2]);
        assert(is_successor(r1.dom(), h, k2)) by {
            if exists|j: u32| r2.dom().contains(j) && j >= h {
                assert(r1.dom().contains(k2) && k2 >= h);
                assert forall|j: u32| r1.dom().contains(j) && j >= h implies k2 <= j by {
                    assert(r2.dom().contains(j));
                }
            } else {
                assert forall|j: u32| r1.dom().contains(j) implies k2 <= j by {
                    assert(r2.dom().contains(j));
                }
                assert(!exists|j: u32| r1.dom().contains(j) && j >= h) by {
                    if exists|j: u32| r1.dom().contains(j) && j >= h {
                        let j = choose|j: u32| r1.dom().contains(j) && j >= h;
                        assert(r2.dom().contains(j));
                    }
                }
            }
        }
        law_consistent_hashing_sticky(r1, key, a1, a2);
    }
}

/// Registering an unknown agent and then unregistering it leaves the
/// registry as it was.
pub proof fn law_register_then_unregister<L, C>(
    agents: Map<Seq<char>, RegisteredAgent<L, C>>,
    id: Seq<char>,
    e: RegisteredAgent<L, C>,
)
    requires
        !agents.contains_key(id),
    ensures
        agents.insert(id, e).remove(id) == agents,
{
    assert(agents.insert(id, e).remove(id) =~= agents);
}

/// An agent heard from at `now` does not time out at `now`, nor at any
/// time less than `timeout + 1` seconds later (times in nanoseconds).
pub proof fn law_fresh_heartbeat_survives_expiry(now: u64, later: u64, timeout: u64)
    requires
        now <= later,
        later - now < (timeout + 1) * 1_000_000_000,
    ensures
        !timed_out(now, later, timeout),
{
    if later > now {
        let d = (later - now) as int;
        assert(d / 1_000_000_000 <= timeout) by (nonlinear_arith)
            requires
                0 < d < (timeout + 1) * 1_000_000_000,
        ;
    }
}

} // verus!
