//! Laws of the QoS scheduler, of authenticated encryption and of access
//! control.

use vstd::prelude::*;
use crate::common::AgentId;
use crate::mesh_transport::qos::{
    QosClass, priority_rank, queues_well_placed,
    QueuedView, dequeue_from, first_droppable, first_nonempty, lemma_first_droppable_bounds, lemma_sum_update,
    not_droppable, total_queued, total_undroppable, queue_len, undroppable_count,
};
use crate::mesh_transport::security::{AccessControlEntry, acl_allows, entry_grants};

verus! {

proof fn lemma_remove_filter(q: Seq<QueuedView>, j: int, p: spec_fn(QueuedView) -> bool)
    requires
        0 <= j < q.len(),
    ensures
        q.remove(j).filter(p).len() + (if p(q[j]) { 1int } else { 0int }) == q.filter(p).len(),
{
    let a = q.subrange(0, j);
    let b = q.subrange(j + 1, q.len() as int);
    let m = seq![q[j]];
    assert(q.remove(j) =~= a + b);
    assert(q =~= (a + m) + b);
    Seq::filter_distributes_over_add(a, b, p);
    Seq::filter_distributes_over_add(a + m, b, p);
    Seq::filter_distributes_over_add(a, m, p);
    reveal_with_fuel(Seq::filter, 2);
    assert(m.drop_last() =~= Seq::<QueuedView>::empty());
}

/// The scheduler loses no message: what was queued before a dequeue is
/// what is queued after it, plus the messages it dropped, plus the one it
/// handed out.
pub proof fn law_dequeue_conserves_messages(qs: Seq<Seq<QueuedView>>, congested: bool, i: nat, dropped: nat)
    requires
        qs.len() == 6,
    ensures
        ({
            let (qs2, dropped2, out) = dequeue_from(qs, congested, i, dropped);
            total_queued(qs) + dropped == total_queued(qs2) + dropped2 + (if out is Some { 1int } else { 0int })
        }),
    decreases 6 - i, qs[i as int].len(),
{
    let f = queue_len();
    if i >= 6 {
    } else if qs[i as int].len() == 0 {
        law_dequeue_conserves_messages(qs, congested, i + 1, dropped);
    } else if congested && 0 <= first_droppable(qs[i as int], 0) < qs[i as int].len() {
        let j = first_droppable(qs[i as int], 0);
        lemma_first_droppable_bounds(qs[i as int], 0);
        let qs1 = qs.update(i as int, qs[i as int].remove(j));
        lemma_sum_update(qs, f, i as int, qs[i as int].remove(j));
        law_dequeue_conserves_messages(qs1, congested, i, dropped + 1);
    } else {
        lemma_sum_update(qs, f, i as int, qs[i as int].remove(0));
    }
}

/// Congestion control never discards a message that may not be dropped:
/// such a message is either still queued after a dequeue or is the one
/// handed out.
pub proof fn law_dequeue_keeps_undroppable(qs: Seq<Seq<QueuedView>>, congested: bool, i: nat, dropped: nat)
    requires
        qs.len() == 6,
    ensures
        ({
            let (qs2, dropped2, out) = dequeue_from(qs, congested, i, dropped);
            total_undroppable(qs) == total_undroppable(qs2) + (if out matches Some(m) && not_droppable(m) {
                1int
            } else {
                0int
            })
        }),
    decreases 6 - i, qs[i as int].len(),
{
    let p = |m: QueuedView| not_droppable(m);
    let f = undroppable_count();
    if i >= 6 {
    } else if qs[i as int].len() == 0 {
        law_dequeue_keeps_undroppable(qs, congested, i + 1, dropped);
    } else if congested && 0 <= first_droppable(qs[i as int], 0) < qs[i as int].len() {
        let j = first_droppable(qs[i as int], 0);
        lemma_first_droppable_bounds(qs[i as int], 0);
        let q1 = qs[i as int].remove(j);
        lemma_remove_filter(qs[i as int], j, p);
        assert(f(q1) == f(qs[i as int]));
        lemma_sum_update(qs, f, i as int, q1);
        law_dequeue_keeps_undroppable(qs.update(i as int, q1), congested, i, dropped + 1);
    } else {
        lemma_remove_filter(qs[i as int], 0, p);
        lemma_sum_update(qs, f, i as int, qs[i as int].remove(0));
    }
}

/// Without congestion, a dequeue hands out the oldest message of the
/// highest-priority class that holds one, drops nothing and leaves the
/// other classes untouched; it hands out nothing only when every class is
/// empty.
pub proof fn law_uncongested_dequeue_serves_priority_order(qs: Seq<Seq<QueuedView>>, i: nat, dropped: nat)
    requires
        qs.len() == 6,
        i <= 6,
    ensures
        ({
            let (qs2, dropped2, out) = dequeue_from(qs, false, i, dropped);
            let k = first_nonempty(qs, i);
            &&& i <= k <= 6
            &&& forall|c: int| i <= c < k ==> qs[c].len() == 0
            &&& dropped2 == dropped
            &&& k < 6 ==> out == Some(qs[k as int][0]) && qs2 == qs.update(k as int, qs[k as int].remove(0))
            &&& k == 6 ==> out is None && qs2 == qs
        }),
    decreases 6 - i,
{
    if i < 6 && qs[i as int].len() == 0 {
        law_uncongested_dequeue_serves_priority_order(qs, i + 1, dropped);
    }
}

/// The oldest message of a queue that may not be dropped.
pub open spec fn first_undroppable(q: Seq<QueuedView>) -> Option<QueuedView>
    decreases q.len(),
{
    if q.len() == 0 {
        None
    } else if !q[0].1.droppable {
        Some(q[0])
    } else {
        first_undroppable(q.drop_first())
    }
}

/// Rank of the first class at or after `i` that holds a message that may
/// not be dropped (six when there is none).
pub open spec fn first_undroppable_class(qs: Seq<Seq<QueuedView>>, i: nat) -> nat
    decreases 6 - i,
{
    if i >= 6 || i >= qs.len() {
        6
    } else if first_undroppable(qs[i as int]) is Some {
        i
    } else {
        first_undroppable_class(qs, i + 1)
    }
}

proof fn lemma_no_droppable_from(q: Seq<QueuedView>, j: int)
    requires
        0 <= j <= q.len(),
        first_droppable(q, j) == q.len(),
    ensures
        forall|m: int| j <= m < q.len() ==> !(#[trigger] q[m]).1.droppable,
    decreases q.len() - j,
{
    if j < q.len() {
        lemma_no_droppable_from(q, j + 1);
    }
}

proof fn lemma_remove_droppable(q: Seq<QueuedView>, j: int)
    requires
        0 <= j < q.len(),
        q[j].1.droppable,
    ensures
        first_undroppable(q.remove(j)) == first_undroppable(q),
    decreases q.len(),
{
    if j == 0 {
        assert(q.remove(0) =~= q.drop_first());
    } else if q[0].1.droppable {
        assert(q.remove(j).drop_first() =~= q.drop_first().remove(j - 1));
        lemma_remove_droppable(q.drop_first(), j - 1);
    } else {
        assert(q.remove(j)[0] == q[0]);
    }
}

/// Under congestion a dequeue hands out the oldest message that may not
/// be dropped of the highest-priority class that holds one, discarding
/// the droppable messages queued ahead of it; it hands out nothing only
/// when no class holds such a message.
pub proof fn law_congested_dequeue_serves_first_undroppable(qs: Seq<Seq<QueuedView>>, i: nat, dropped: nat)
    requires
        qs.len() == 6,
    ensures
        ({
            let (qs2, dropped2, out) = dequeue_from(qs, true, i, dropped);
            let k = first_undroppable_class(qs, i);
            &&& k < 6 ==> out == first_undroppable(qs[k as int])
            &&& k == 6 ==> out is None
        }),
    decreases 6 - i, qs[i as int].len(),
{
    if i < 6 {
        let q = qs[i as int];
        if q.len() == 0 {
            law_congested_dequeue_serves_first_undroppable(qs, i + 1, dropped);
        } else if 0 <= first_droppable(q, 0) < q.len() {
            let j = first_droppable(q, 0);
            lemma_first_droppable_bounds(q, 0);
            lemma_remove_droppable(q, j);
            let qs1 = qs.update(i as int, q.remove(j));
            assert forall|c: nat| i < c implies first_undroppable_class(qs1, c) == first_undroppable_class(qs, c) by {
                lemma_class_unchanged(qs, qs1, i, c);
            }
            law_congested_dequeue_serves_first_undroppable(qs1, i, dropped + 1);
        } else {
            lemma_first_droppable_bounds(q, 0);
            lemma_no_droppable_from(q, 0);
        }
    }
}

proof fn lemma_class_unchanged(qs: Seq<Seq<QueuedView>>, qs1: Seq<Seq<QueuedView>>, i: nat, c: nat)
    requires
        qs.len() == qs1.len(),
        forall|a: int| 0 <= a < qs.len() && a != i ==> qs1[a] == qs[a],
        i < c,
    ensures
        first_undroppable_class(qs1, c) == first_undroppable_class(qs, c),
    decreases 6 - c,
{
    if c < 6 && c < qs.len() {
        lemma_class_unchanged(qs, qs1, i, c + 1);
    }
}

/// The classes from the highest priority to the lowest.
pub open spec fn classes_by_priority() -> Seq<QosClass> {
    seq![
        QosClass::Control,
        QosClass::RealTime,
        QosClass::Interactive,
        QosClass::Standard,
        QosClass::Background,
        QosClass::BestEffort,
    ]
}

/// Control outranks real-time traffic, which outranks interactive, then
/// standard, background and best-effort traffic: a class listed earlier
/// is served first.
pub proof fn law_priority_order()
    ensures
        forall|i: int, j: int| 0 <= i < j < 6 ==> priority_rank(#[trigger] classes_by_priority()[i]) < priority_rank(
            #[trigger] classes_by_priority()[j],
        ),
        forall|c: QosClass| priority_rank(c) < 6,
{
}

proof fn lemma_first_nonempty_holds(qs: Seq<Seq<QueuedView>>, i: nat)
    requires
        qs.len() == 6,
    ensures
        first_nonempty(qs, i) < 6 ==> qs[first_nonempty(qs, i) as int].len() > 0,
    decreases 6 - i,
{
    if i < 6 && qs[i as int].len() == 0 {
        lemma_first_nonempty_holds(qs, i + 1);
    }
}

/// Without congestion a dequeue hands out a message that no queued
/// message outranks, and hands out nothing only when nothing is queued.
pub proof fn law_uncongested_dequeue_serves_highest(qs: Seq<Seq<QueuedView>>)
    requires
        queues_well_placed(qs),
    ensures
        ({
            let (qs2, dropped, out) = dequeue_from(qs, false, 0, 0);
            &&& out matches Some(m) ==> forall|c: int, j: int| 0 <= c < 6 && 0 <= j < qs[c].len() ==> priority_rank(
                m.1.class,
            ) <= priority_rank((#[trigger] qs[c][j]).1.class)
            &&& out is None ==> forall|c: int| 0 <= c < 6 ==> #[trigger] qs[c].len() == 0
        }),
{
    law_uncongested_dequeue_serves_priority_order(qs, 0, 0);
    lemma_first_nonempty_holds(qs, 0);
    let k = first_nonempty(qs, 0);
    if k < 6 {
        assert(priority_rank(qs[k as int][0].1.class) == k);
        assert forall|c: int, j: int| 0 <= c < 6 && 0 <= j < qs[c].len() implies priority_rank(qs[k as int][0].1.class)
            <= priority_rank((#[trigger] qs[c][j]).1.class) by {
            assert(priority_rank(qs[c][j].1.class) == c);
        }
    }
}

/// Authenticated encryption is undone by decryption: a message sealed
/// under a key, opened with the same key, yields the plaintext.
pub proof fn law_decrypt_undoes_encrypt(
    m: crate::mesh_transport::security::EncryptedMessage,
    key: Seq<u8>,
    plaintext: Seq<u8>,
    r: Result<Vec<u8>, crate::mesh_transport::security::SecurityError>,
)
    requires
        crate::mesh_transport::security::sealed_message(m, key, plaintext),
        crate::mesh_transport::security::opened_message(m, key, r),
        plaintext.len() / 64 < u32::MAX,
    ensures
        r matches Ok(p) && p@ == plaintext,
{
}

/// A message signed with a key pair verifies: its signature is valid under
/// the public key it carries.
pub proof fn law_signed_message_verifies(
    m: crate::mesh_transport::security::SignedMessage,
    secret: Seq<u8>,
)
    requires
        m.signature@ == crate::mesh_transport::security::ed25519_signature(secret, m.payload@),
        m.public_key@ == crate::mesh_transport::security::ed25519_public_key(secret),
        crate::mesh_transport::security::signature_valid(m),
    ensures
        crate::mesh_transport::security::ed25519_accepts(m.public_key@, m.payload@, m.signature@),
{
}

/// Hybrid encryption is undone by hybrid decryption: a message sealed for
/// the public key of a recipient, opened with the recipient's secret,
/// yields the plaintext.
pub proof fn law_hybrid_decrypt_undoes_encrypt(
    m: crate::mesh_transport::security::EncryptedMessage,
    ephemeral: Seq<u8>,
    recipient_secret: Seq<u8>,
    plaintext: Seq<u8>,
    r: Result<Vec<u8>, crate::mesh_transport::security::SecurityError>,
)
    requires
        crate::mesh_transport::security::hybrid_sealed(
            m,
            ephemeral,
            crate::mesh_transport::security::x25519_public_key(recipient_secret),
            plaintext,
        ),
        crate::mesh_transport::security::hybrid_opened(m, recipient_secret, r),
        plaintext.len() / 64 < u32::MAX,
    ensures
        r matches Ok(p) && p@ == plaintext,
{
    let k = m.ephemeral_public_key.unwrap();
    assert(k@.len() == 32);
}

/// Two parties that exchange X25519 public keys compute the same shared
/// secret.
pub proof fn law_key_agreement(a: Seq<u8>, b: Seq<u8>, shared_a: Seq<u8>, shared_b: Seq<u8>)
    requires
        a.len() == 32,
        b.len() == 32,
        shared_a == crate::mesh_transport::security::x25519_shared(a, crate::mesh_transport::security::x25519_public_key(b)),
        forall|other: Seq<u8>|
            other.len() == 32 && crate::mesh_transport::security::x25519_public_key(b) == #[trigger] crate::mesh_transport::security::x25519_public_key(other)
                ==> shared_a == crate::mesh_transport::security::x25519_shared(other, crate::mesh_transport::security::x25519_public_key(a)),
        shared_b == crate::mesh_transport::security::x25519_shared(b, crate::mesh_transport::security::x25519_public_key(a)),
    ensures
        shared_a == shared_b,
{
    assert(crate::mesh_transport::security::x25519_public_key(b) == crate::mesh_transport::security::x25519_public_key(b));
}

/// Adding an entry to an access list grants what the entry grants and
/// revokes nothing.
pub proof fn law_add_entry_grants(
    entries: Seq<AccessControlEntry>,
    e: AccessControlEntry,
    agent: AgentId,
    resource: Seq<char>,
    action: Seq<char>,
)
    ensures
        acl_allows(entries.push(e), agent, resource, action)
            == (acl_allows(entries, agent, resource, action) || entry_grants(e, agent, resource, action)),
{
    let s2 = entries.push(e);
    if acl_allows(entries, agent, resource, action) {
        let i = choose|i: int| 0 <= i < entries.len() && #[trigger] entry_grants(entries[i], agent, resource, action);
        assert(s2[i] == entries[i]);
    }
    if entry_grants(e, agent, resource, action) {
        assert(s2[entries.len() as int] == e);
    }
    if acl_allows(s2, agent, resource, action) {
        let i = choose|i: int| 0 <= i < s2.len() && #[trigger] entry_grants(s2[i], agent, resource, action);
        if i < entries.len() {
            assert(s2[i] == entries[i]);
        }
    }
}

} // verus!
