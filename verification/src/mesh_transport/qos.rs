//! Quality of Service (QoS) for mesh transport: message classes, delivery
//! guarantees and a priority scheduler with congestion-driven dropping.

use std::time::{Duration, Instant};
use vstd::prelude::*;
use crate::mesh_transport::error::TransportError;
use crate::clock::{duration_of_secs, duration_from_secs};

verus! {

/// QoS class (similar to DSCP / IEEE 802.1p).
#[derive(Debug, Clone, Copy, PartialEq, Eq, Hash, Structural)]
pub enum QosClass {
    /// Best-effort (default). No guarantees.
    BestEffort,
    /// Background low-priority traffic.
    Background,
    /// Standard data.
    Standard,
    /// Interactive traffic (low latency).
    Interactive,
    /// Real-time traffic (guaranteed latency).
    RealTime,
    /// Control plane (highest priority).
    Control,
}

impl Default for QosClass {
    fn default() -> (r: Self)
        ensures
            r == QosClass::BestEffort,
    {
        QosClass::BestEffort
    }
}

/// Scheduling rank of a class: 0 is served first.
/// Control > RealTime > Interactive > Standard > Background > BestEffort.
pub open spec fn priority_rank(c: QosClass) -> nat {
    match c {
        QosClass::Control => 0,
        QosClass::RealTime => 1,
        QosClass::Interactive => 2,
        QosClass::Standard => 3,
        QosClass::Background => 4,
        QosClass::BestEffort => 5,
    }
}

/// Number of QoS classes.
pub const NUM_CLASSES: usize = 6;

fn rank_of(c: QosClass) -> (r: usize)
    ensures
        r == priority_rank(c),
{
    match c {
        QosClass::Control => 0,
        QosClass::RealTime => 1,
        QosClass::Interactive => 2,
        QosClass::Standard => 3,
        QosClass::Background => 4,
        QosClass::BestEffort => 5,
    }
}

/// Delivery guarantee.
#[derive(Debug, Clone, Copy, PartialEq, Eq, Structural)]
pub enum DeliveryGuarantee {
    /// At-most-once (fire-and-forget).
    AtMostOnce,
    /// At-least-once (ack-based retransmission).
    AtLeastOnce,
    /// Exactly-once (idempotent delivery).
    ExactlyOnce,
}

/// QoS profile for a message or stream.
#[derive(Debug, Clone, Copy)]
pub struct QosProfile {
    /// QoS class.
    pub class: QosClass,
    /// Delivery guarantee.
    pub delivery: DeliveryGuarantee,
    /// Maximum allowed latency (if applicable).
    pub max_latency: Option<Duration>,
    /// Minimum required bandwidth (bytes per second).
    pub min_bandwidth_bps: Option<u64>,
    /// Whether the message can be dropped under congestion.
    pub droppable: bool,
    /// Time-to-live (after which the message is discarded).
    pub ttl: Option<Duration>,
}

impl Default for QosProfile {
    fn default() -> (r: Self)
        ensures
            r.class == QosClass::BestEffort,
            r.delivery == DeliveryGuarantee::AtMostOnce,
            r.max_latency.is_none(),
            r.min_bandwidth_bps.is_none(),
            r.droppable,
            r.ttl.is_none(),
    {
        QosProfile {
            class: QosClass::BestEffort,
            delivery: DeliveryGuarantee::AtMostOnce,
            max_latency: None,
            min_bandwidth_bps: None,
            droppable: true,
            ttl: None,
        }
    }
}

impl QosProfile {
    /// Creates a best-effort profile: the default one.
    pub fn best_effort() -> (r: Self)
        ensures
            r.class == QosClass::BestEffort,
            r.delivery == DeliveryGuarantee::AtMostOnce,
            r.max_latency.is_none(),
            r.min_bandwidth_bps.is_none(),
            r.droppable,
            r.ttl.is_none(),
    {
        Self::default()
    }

    /// Creates a real-time profile with low latency.
    pub fn real_time(max_latency: Duration) -> (r: Self)
        ensures
            r.class == QosClass::RealTime,
            r.delivery == DeliveryGuarantee::AtLeastOnce,
            r.max_latency == Some(max_latency),
            r.min_bandwidth_bps.is_none(),
            !r.droppable,
            r.ttl.is_none(),
    {
        QosProfile {
            class: QosClass::RealTime,
            delivery: DeliveryGuarantee::AtLeastOnce,
            max_latency: Some(max_latency),
            min_bandwidth_bps: None,
            droppable: false,
            ttl: None,
        }
    }

    /// Creates a control profile (high priority, reliable, 30 s time-to-live).
    pub fn control() -> (r: Self)
        ensures
            r.class == QosClass::Control,
            r.delivery == DeliveryGuarantee::ExactlyOnce,
            r.max_latency.is_none(),
            r.min_bandwidth_bps.is_none(),
            !r.droppable,
            r.ttl == Some(duration_of_secs(30)),
    {
        QosProfile {
            class: QosClass::Control,
            delivery: DeliveryGuarantee::ExactlyOnce,
            max_latency: None,
            min_bandwidth_bps: None,
            droppable: false,
            ttl: Some(duration_from_secs(30)),
        }
    }
}

/// The standard monotonic clock reading, carried as an opaque value.
#[verifier::external_type_specification]
#[verifier::external_body]
pub struct ExInstant(Instant);

/// Trusted: `Instant::now` reads the monotonic clock; nothing is promised
/// of the instant returned.
#[verifier::external_body]
fn instant_now() -> Instant {
    Instant::now()
}

struct QueuedMessage {
    payload: Vec<u8>,
    profile: QosProfile,
    created_at: Instant,
}

/// A queued message as the scheduler sees it: payload and profile.
pub type QueuedView = (Seq<u8>, QosProfile);

/// QoS statistics.
#[derive(Debug, Clone, Copy, Default)]
pub struct QosStats {
    /// Messages handed out for sending.
    pub messages_sent: u64,
    /// Messages dropped under congestion.
    pub messages_dropped: u64,
    /// Times the congestion level rose above 80.
    pub congestion_events: u32,
}

/// Congestion level above which droppable messages are discarded.
pub const DROP_THRESHOLD: u8 = 70;

/// Congestion level above which a congestion event is counted.
pub const EVENT_THRESHOLD: u8 = 80;

/// Index of the first droppable message of `q` at or after `j`, or `q.len()`.
pub open spec fn first_droppable(q: Seq<QueuedView>, j: int) -> int
    decreases q.len() - j,
{
    if j >= q.len() {
        q.len() as int
    } else if q[j].1.droppable {
        j
    } else {
        first_droppable(q, j + 1)
    }
}

/// The scheduler from class rank `i` on: under congestion a class that
/// holds a droppable message loses its first droppable message and the
/// same class is tried again; an empty class passes to the next one;
/// otherwise the class yields its oldest message. Returns the queues
/// afterwards, the number of drops, and the message handed out.
pub open spec fn dequeue_from(qs: Seq<Seq<QueuedView>>, congested: bool, i: nat, dropped: nat)
    -> (Seq<Seq<QueuedView>>, nat, Option<QueuedView>)
    decreases 6 - i, if i < qs.len() { qs[i as int].len() } else { 0 },
{
    if i >= 6 || i >= qs.len() {
        (qs, dropped, None)
    } else if qs[i as int].len() == 0 {
        dequeue_from(qs, congested, i + 1, dropped)
    } else if congested && 0 <= first_droppable(qs[i as int], 0) < qs[i as int].len() {
        let j = first_droppable(qs[i as int], 0);
        dequeue_from(qs.update(i as int, qs[i as int].remove(j)), congested, i, dropped + 1)
    } else {
        (qs.update(i as int, qs[i as int].remove(0)), dropped, Some(qs[i as int][0]))
    }
}

/// Updating one queue changes a sum over the queues by the difference.
pub proof fn lemma_sum_update(qs: Seq<Seq<QueuedView>>, f: spec_fn(Seq<QueuedView>) -> nat, i: int, q: Seq<QueuedView>)
    requires
        0 <= i < qs.len(),
    ensures
        sum_queues(qs.update(i, q), f) + f(qs[i]) == sum_queues(qs, f) + f(q),
    decreases qs.len(),
{
    let u = qs.update(i, q);
    if i == qs.len() - 1 {
        assert(u.drop_last() =~= qs.drop_last());
    } else {
        assert(u.drop_last() =~= qs.drop_last().update(i, q));
        lemma_sum_update(qs.drop_last(), f, i, q);
    }
}

/// Sum of `f` over the queues of `qs`.
pub open spec fn sum_queues(qs: Seq<Seq<QueuedView>>, f: spec_fn(Seq<QueuedView>) -> nat) -> nat
    decreases qs.len(),
{
    if qs.len() == 0 {
        0
    } else {
        sum_queues(qs.drop_last(), f) + f(qs.last())
    }
}

/// The length of a queue.
pub open spec fn queue_len() -> spec_fn(Seq<QueuedView>) -> nat {
    |q: Seq<QueuedView>| q.len()
}

/// Total number of queued messages.
pub open spec fn total_queued(qs: Seq<Seq<QueuedView>>) -> nat {
    sum_queues(qs, queue_len())
}

/// Whether a queued message may not be dropped.
pub open spec fn not_droppable(m: QueuedView) -> bool {
    !m.1.droppable
}

/// Number of queued messages that may not be dropped.
pub open spec fn total_undroppable(qs: Seq<Seq<QueuedView>>) -> nat {
    sum_queues(qs, undroppable_count())
}

/// Number of messages of a queue that may not be dropped.
pub open spec fn undroppable_count() -> spec_fn(Seq<QueuedView>) -> nat {
    |q: Seq<QueuedView>| q.filter(|m: QueuedView| not_droppable(m)).len()
}

/// Index of the first non-empty queue at or after `i` (at most six).
pub open spec fn first_nonempty(qs: Seq<Seq<QueuedView>>, i: nat) -> nat
    decreases 6 - i,
{
    if i >= 6 || i >= qs.len() {
        i
    } else if qs[i as int].len() > 0 {
        i
    } else {
        first_nonempty(qs, i + 1)
    }
}

/// Six queues, one per class, each holding only messages of its class.
pub open spec fn queues_well_placed(qs: Seq<Seq<QueuedView>>) -> bool {
    &&& qs.len() == 6
    &&& forall|i: int, j: int| 0 <= i < 6 && 0 <= j < qs[i].len()
        ==> priority_rank(#[trigger] qs[i][j].1.class) == i
}

/// QoS manager that enforces policies and schedules messages.
pub struct QosManager {
    congestion_level: u8,
    queues: Vec<Vec<QueuedMessage>>,
    stats: QosStats,
}

spec fn queue_view(q: Seq<QueuedMessage>) -> Seq<QueuedView> {
    q.map_values(|m: QueuedMessage| (m.payload@, m.profile))
}

/// `first_droppable` lies between its start and the queue's length.
pub proof fn lemma_first_droppable_bounds(q: Seq<QueuedView>, j: int)
    requires
        0 <= j <= q.len(),
    ensures
        j <= first_droppable(q, j) <= q.len(),
        first_droppable(q, j) < q.len() ==> q[first_droppable(q, j)].1.droppable,
    decreases q.len() - j,
{
    if j < q.len() && !q[j].1.droppable {
        lemma_first_droppable_bounds(q, j + 1);
    }
}

fn first_droppable_index(queue: &Vec<QueuedMessage>) -> (j: usize)
    ensures
        j as int == first_droppable(queue_view(queue@), 0),
        j <= queue@.len(),
{
    let ghost qv = queue_view(queue@);
    let n = queue.len();
    let mut j: usize = 0;
    while j < n
        invariant
            n == queue@.len(),
            j <= n,
            qv == queue_view(queue@),
            first_droppable(qv, 0) == first_droppable(qv, j as int),
        decreases n - j,
    {
        if queue[j].profile.droppable {
            return j;
        }
        j = j + 1;
    }
    j
}

impl QosManager {
    /// The per-class queues, indexed by priority rank, oldest message first.
    pub closed spec fn queues_view(&self) -> Seq<Seq<QueuedView>> {
        self.queues@.map_values(|q: Vec<QueuedMessage>| queue_view(q@))
    }

    /// Current congestion level.
    pub closed spec fn congestion(&self) -> u8 {
        self.congestion_level
    }

    /// Current statistics.
    pub closed spec fn stats_view(&self) -> QosStats {
        self.stats
    }

    /// Creates a QoS manager with empty queues and no congestion.
    pub fn new() -> (r: Self)
        ensures
            r.queues_view() == Seq::new(6, |i: int| Seq::<QueuedView>::empty()),
            r.congestion() == 0,
            r.stats_view() == (QosStats { messages_sent: 0, messages_dropped: 0, congestion_events: 0 }),
            queues_well_placed(r.queues_view()),
    {
        let mut queues: Vec<Vec<QueuedMessage>> = Vec::new();
        let mut i: usize = 0;
        while i < NUM_CLASSES
            invariant
                i <= NUM_CLASSES,
                queues@.len() == i,
                forall|k: int| 0 <= k < i ==> (#[trigger] queues@[k])@.len() == 0,
            decreases NUM_CLASSES - i,
        {
            queues.push(Vec::new());
            i = i + 1;
        }
        let r = QosManager {
            congestion_level: 0,
            queues,
            stats: QosStats { messages_sent: 0, messages_dropped: 0, congestion_events: 0 },
        };
        assert(r.queues_view() =~= Seq::new(6, |i: int| Seq::<QueuedView>::empty())) by {
            assert forall|k: int| 0 <= k < 6 implies r.queues_view()[k] =~= Seq::<QueuedView>::empty() by {
                assert(queues@[k]@.len() == 0);
            }
        }
        r
    }

    /// Enqueues a message at the back of the queue of its class.
    pub fn enqueue(&mut self, payload: Vec<u8>, profile: QosProfile) -> (r: Result<(), TransportError>)
        requires
            queues_well_placed(old(self).queues_view()),
        ensures
            queues_well_placed(final(self).queues_view()),
            r is Ok,
            final(self).queues_view() == old(self).queues_view().update(
                priority_rank(profile.class) as int,
                old(self).queues_view()[priority_rank(profile.class) as int].push((payload@, profile)),
            ),
            final(self).congestion() == old(self).congestion(),
            final(self).stats_view() == old(self).stats_view(),
    {
        let rank = rank_of(profile.class);
        let created_at = instant_now();
        let mut queue: Vec<QueuedMessage> = Vec::new();
        self.queues.set_and_swap(rank, &mut queue);
        let ghost taken = queue@;
        queue.push(QueuedMessage { payload, profile, created_at });
        self.queues.set_and_swap(rank, &mut queue);
        proof {
            assert(queue_view(taken.push(self.queues@[rank as int]@.last())) =~= queue_view(taken).push(
                (self.queues@[rank as int]@.last().payload@, profile),
            ));
            assert(self.queues_view() =~= old(self).queues_view().update(
                priority_rank(profile.class) as int,
                old(self).queues_view()[priority_rank(profile.class) as int].push((self.queues@[rank as int]@.last().payload@, profile)),
            ));
        }
        Ok(())
    }

    /// Dequeues the next message to send. Classes are served in priority
    /// order, oldest message first. When the congestion level is above 70,
    /// the droppable messages of a class are discarded (and counted) one
    /// by one, oldest first, before the class yields its oldest remaining
    /// message; a class left empty passes to the next one.
    pub fn dequeue(&mut self) -> (r: Option<(Vec<u8>, QosProfile)>)
        requires
            queues_well_placed(old(self).queues_view()),
            old(self).stats_view().messages_dropped + total_queued(old(self).queues_view()) <= u64::MAX,
        ensures
            queues_well_placed(final(self).queues_view()),
            ({
                let (qs, dropped, out) = dequeue_from(
                    old(self).queues_view(),
                    old(self).congestion() > DROP_THRESHOLD,
                    0,
                    0,
                );
                &&& final(self).queues_view() == qs
                &&& final(self).stats_view() == (QosStats {
                    messages_dropped: (old(self).stats_view().messages_dropped + dropped) as u64,
                    ..old(self).stats_view()
                })
                &&& match r {
                    Some((p, prof)) => out == Some((p@, prof)),
                    None => out is None,
                }
            }),
            final(self).congestion() == old(self).congestion(),
    {
        let congested = self.congestion_level > DROP_THRESHOLD;
        let ghost total0 = total_queued(old(self).queues_view());
        let mut i: usize = 0;
        let ghost mut dropped: nat = 0;
        while i < NUM_CLASSES
            invariant
                i <= NUM_CLASSES,
                congested == (old(self).congestion() > DROP_THRESHOLD),
                queues_well_placed(self.queues_view()),
                self.queues@.len() == NUM_CLASSES,
                total0 == total_queued(old(self).queues_view()),
                dropped + total_queued(self.queues_view()) == total0,
                old(self).stats_view().messages_dropped + total0 <= u64::MAX,
                dequeue_from(old(self).queues_view(), congested, 0, 0)
                    == dequeue_from(self.queues_view(), congested, i as nat, dropped),
                self.stats == (QosStats {
                    messages_dropped: (old(self).stats_view().messages_dropped + dropped) as u64,
                    ..old(self).stats_view()
                }),
                self.congestion_level == old(self).congestion(),
            decreases NUM_CLASSES - i,
        {
            let ghost qs = self.queues_view();
            let mut queue: Vec<QueuedMessage> = Vec::new();
            let ghost before_swap = self.queues@;
            self.queues.set_and_swap(i, &mut queue);
            let ghost after_swap = self.queues@;
            assert(queue_view(queue@) == qs[i as int]);
            assert forall|a: int| 0 <= a < NUM_CLASSES && a != i implies queue_view(after_swap[a]@) == qs[a] by {
                assert(after_swap[a] == before_swap[a]);
            }
            let ghost mut cur = qs;
            let mut k = first_droppable_index(&queue);
            assert(cur =~= qs.update(i as int, queue_view(queue@)));
            while congested && k < queue.len()
                invariant
                    0 <= i < NUM_CLASSES,
                    cur.len() == NUM_CLASSES,
                    cur == qs.update(i as int, queue_view(queue@)),
                    k as int == first_droppable(queue_view(queue@), 0),
                    k <= queue@.len(),
                    queues_well_placed(cur),
                    total0 == total_queued(old(self).queues_view()),
                    dropped + total_queued(cur) == total0,
                    old(self).stats_view().messages_dropped + total0 <= u64::MAX,
                    dequeue_from(old(self).queues_view(), congested, 0, 0)
                        == dequeue_from(cur, congested, i as nat, dropped),
                    self.stats == (QosStats {
                        messages_dropped: (old(self).stats_view().messages_dropped + dropped) as u64,
                        ..old(self).stats_view()
                    }),
                    self.congestion_level == old(self).congestion(),
                    self.queues@.len() == NUM_CLASSES,
                    qs.len() == NUM_CLASSES,
                    self.queues@ == after_swap,
                    forall|a: int| 0 <= a < NUM_CLASSES && a != i ==> queue_view(after_swap[a]@) == qs[a],
                decreases queue@.len(),
            {
                let ghost qv = queue_view(queue@);
                assert(cur[i as int] == qv);
                proof {
                    lemma_sum_update(cur, queue_len(), i as int, Seq::<QueuedView>::empty());
                    lemma_sum_update(cur, queue_len(), i as int, qv.remove(k as int));
                    lemma_remove_keeps_placed(cur, i as int, k as int);
                }
                let _dropped_msg = queue.remove(k);
                proof {
                    assert(queue_view(queue@) =~= qv.remove(k as int));
                    assert(qs.update(i as int, queue_view(queue@)) =~= cur.update(i as int, cur[i as int].remove(k as int)));
                    cur = qs.update(i as int, queue_view(queue@));
                    dropped = dropped + 1;
                }
                self.stats.messages_dropped = self.stats.messages_dropped + 1;
                k = first_droppable_index(&queue);
            }
            let ghost qv = queue_view(queue@);
            assert(cur[i as int] == qv);
            if queue.len() == 0 {
                self.queues.set_and_swap(i, &mut queue);
                assert forall|a: int| 0 <= a < NUM_CLASSES implies self.queues_view()[a] == cur[a] by {
                    if a != i {
                        assert(self.queues@[a] == after_swap[a]);
                    }
                }
                assert(self.queues_view() =~= cur);
                i = i + 1;
                continue;
            }
            let msg = queue.remove(0);
            self.queues.set_and_swap(i, &mut queue);
            assert forall|a: int| 0 <= a < NUM_CLASSES && a != i implies self.queues_view()[a] == cur[a] by {
                assert(self.queues@[a] == after_swap[a]);
            }
            proof {
                assert(queue_view(self.queues@[i as int]@) =~= qv.remove(0));
                assert(self.queues_view() =~= cur.update(i as int, cur[i as int].remove(0)));
                lemma_remove_keeps_placed(cur, i as int, 0);
            }
            return Some((msg.payload, msg.profile));
        }
        None
    }

    /// Records the network congestion level; a level above 80 counts as a
    /// congestion event.
    pub fn update_congestion(&mut self, level: u8)
        requires
            level > EVENT_THRESHOLD ==> old(self).stats_view().congestion_events < u32::MAX,
        ensures
            final(self).congestion() == level,
            final(self).queues_view() == old(self).queues_view(),
            final(self).stats_view() == (QosStats {
                congestion_events: if level > EVENT_THRESHOLD {
                    (old(self).stats_view().congestion_events + 1) as u32
                } else {
                    old(self).stats_view().congestion_events
                },
                ..old(self).stats_view()
            }),
    {
        self.congestion_level = level;
        if level > EVENT_THRESHOLD {
            self.stats.congestion_events = self.stats.congestion_events + 1;
        }
    }

    /// Returns current statistics.
    pub fn stats(&self) -> (r: &QosStats)
        ensures
            *r == self.stats_view(),
    {
        &self.stats
    }
}

/// A sender that delivers payloads under a QoS profile.
pub trait QosSender {
    /// Sends a payload with a specific QoS profile.
    fn send_with_qos(&mut self, payload: Vec<u8>, profile: QosProfile) -> Result<(), TransportError>;
}

proof fn lemma_remove_keeps_placed(qs: Seq<Seq<QueuedView>>, i: int, j: int)
    requires
        queues_well_placed(qs),
        0 <= i < 6,
        0 <= j < qs[i].len(),
    ensures
        queues_well_placed(qs.update(i, qs[i].remove(j))),
{
    let q2 = qs.update(i, qs[i].remove(j));
    assert forall|a: int, b: int| 0 <= a < 6 && 0 <= b < q2[a].len()
        implies priority_rank(#[trigger] q2[a][b].1.class) == a by {
        if a == i {
            if b < j {
                assert(q2[a][b] == qs[i][b]);
            } else {
                assert(q2[a][b] == qs[i][b + 1]);
            }
        } else {
            assert(q2[a][b] == qs[a][b]);
        }
    }
}

} // verus!
