//! The delivery log of notifications: one record per send, looked up by
//! notification, listed by recipient, and counted by status and channel.

use vstd::prelude::*;
use crate::clock::{UtcTimestamp, utc_now};
use crate::ids::{new_uuid, uuid_string, uuid_text};
use crate::json::empty_json_object;
use crate::notification::{Notification, NotificationChannel, SendResult, channel_view, same_channel};
use crate::text::str_eq;

verus! {

/// Outcome of a delivery.
#[derive(Debug, Clone, Copy, PartialEq, Eq, Structural)]
pub enum DeliveryStatus {
    /// The notification was delivered.
    Delivered,
    /// The delivery failed.
    Failed,
}

/// The record of one delivery.
#[derive(Debug, Clone)]
pub struct DeliveryRecord {
    /// Record id: a UUID in hyphenated form.
    pub id: String,
    /// Id of the notification delivered.
    pub notification_id: String,
    /// Channel it went out on.
    pub channel: NotificationChannel,
    /// Its recipients.
    pub recipients: Vec<String>,
    /// Its subject.
    pub subject: String,
    /// Outcome.
    pub status: DeliveryStatus,
    /// Why it failed, if it did.
    pub error_message: Option<String>,
    /// When it was sent.
    pub sent_at: UtcTimestamp,
    /// When it was delivered, if it was.
    pub delivered_at: Option<UtcTimestamp>,
    /// Free-form metadata.
    pub metadata: serde_json::Value,
}

/// Entries above which the log is trimmed.
pub const MAX_LOG_ENTRIES: usize = 100000;

/// Oldest entries dropped by a trim.
pub const TRIM_ENTRIES: usize = 50000;

/// The log after a trim: when it holds more than 100000 records, its
/// oldest 50000 are dropped.
pub open spec fn trimmed_log(s: Seq<DeliveryRecord>) -> Seq<DeliveryRecord> {
    if s.len() > MAX_LOG_ENTRIES { s.subrange(TRIM_ENTRIES as int, s.len() as int) } else { s }
}

/// The texts of a list of strings.
pub open spec fn texts(v: Seq<String>) -> Seq<Seq<char>> {
    v.map_values(|s: String| s@)
}

/// `r` records the delivery of `n` with outcome `result`, but for its id
/// and times.
pub open spec fn records_delivery(r: DeliveryRecord, n: Notification, result: SendResult) -> bool {
    &&& r.notification_id@ == n.id@
    &&& channel_view(r.channel) == channel_view(n.channel)
    &&& texts(r.recipients@) == texts(n.recipients@)
    &&& r.subject@ == n.subject@
    &&& r.status == (if result.success { DeliveryStatus::Delivered } else { DeliveryStatus::Failed })
    &&& r.error_message == result.error
    &&& (r.delivered_at is Some <==> result.success)
    &&& exists|u: u128| #[trigger] uuid_text(u) == r.id@
}

/// Whether a record lists the recipient.
pub open spec fn lists_recipient(r: DeliveryRecord, recipient: Seq<char>) -> bool {
    texts(r.recipients@).contains(recipient)
}

/// The records that list the recipient, newest first.
pub open spec fn newest_for(s: Seq<DeliveryRecord>, recipient: Seq<char>) -> Seq<DeliveryRecord>
    decreases s.len(),
{
    if s.len() == 0 {
        Seq::empty()
    } else if lists_recipient(s.last(), recipient) {
        seq![s.last()] + newest_for(s.drop_last(), recipient)
    } else {
        newest_for(s.drop_last(), recipient)
    }
}

/// Index of the first record of notification `id` at or after `i`, or
/// the length.
pub open spec fn first_of_notification(s: Seq<DeliveryRecord>, id: Seq<char>, i: int) -> int
    decreases s.len() - i,
{
    if i >= s.len() {
        s.len() as int
    } else if s[i].notification_id@ == id {
        i
    } else {
        first_of_notification(s, id, i + 1)
    }
}

/// Number of records with the given status.
pub open spec fn status_count(s: Seq<DeliveryRecord>, st: DeliveryStatus) -> nat
    decreases s.len(),
{
    if s.len() == 0 {
        0
    } else {
        status_count(s.drop_last(), st) + if s.last().status == st { 1nat } else { 0nat }
    }
}

/// Number of records sent on the given channel.
pub open spec fn channel_count(s: Seq<DeliveryRecord>, c: (nat, Seq<char>)) -> nat
    decreases s.len(),
{
    if s.len() == 0 {
        0
    } else {
        channel_count(s.drop_last(), c) + if channel_view(s.last().channel) == c { 1nat } else { 0nat }
    }
}

/// Counts of a delivery log.
#[derive(Debug, Clone)]
pub struct DeliveryCounts {
    /// Records in the log.
    pub total: usize,
    /// Records of delivered notifications.
    pub successful: usize,
    /// Records of failed deliveries.
    pub failed: usize,
    /// Records per channel, each channel once, in order of first use.
    pub by_channel: Vec<(NotificationChannel, usize)>,
}

/// The delivery log.
pub struct DeliveryLog {
    records: Vec<DeliveryRecord>,
}

fn copy_channel(c: &NotificationChannel) -> (r: NotificationChannel)
    ensures
        channel_view(r) == channel_view(*c),
{
    match c {
        NotificationChannel::Email => NotificationChannel::Email,
        NotificationChannel::Sms => NotificationChannel::Sms,
        NotificationChannel::Push => NotificationChannel::Push,
        NotificationChannel::Slack => NotificationChannel::Slack,
        NotificationChannel::Teams => NotificationChannel::Teams,
        NotificationChannel::Webhook => NotificationChannel::Webhook,
        NotificationChannel::Custom(s) => NotificationChannel::Custom(s.clone()),
    }
}

fn copy_strings(v: &Vec<String>) -> (r: Vec<String>)
    ensures
        texts(r@) == texts(v@),
{
    let mut r: Vec<String> = Vec::new();
    let n = v.len();
    let mut i: usize = 0;
    while i < n
        invariant
            n == v@.len(),
            i <= n,
            texts(r@) == texts(v@.subrange(0, i as int)),
        decreases n - i,
    {
        r.push(v[i].clone());
        assert(texts(v@.subrange(0, i + 1)) =~= texts(v@.subrange(0, i as int)).push(v@[i as int]@));
        assert(texts(r@) =~= texts(v@.subrange(0, i as int)).push(v@[i as int]@));
        i = i + 1;
    }
    assert(v@.subrange(0, n as int) =~= v@);
    r
}

impl DeliveryLog {
    /// The records, oldest first.
    pub closed spec fn records_view(&self) -> Seq<DeliveryRecord> {
        self.records@
    }

    /// An empty log.
    pub fn new() -> (r: Self)
        ensures
            r.records_view() == Seq::<DeliveryRecord>::empty(),
    {
        DeliveryLog { records: Vec::new() }
    }

    /// Records the delivery of a notification: delivered when the send
    /// succeeded, failed otherwise. When the log then holds more than
    /// 100000 records, its oldest 50000 are dropped.
    pub fn log_delivery(&mut self, notification: &Notification, result: &SendResult)
        ensures
            exists|r: DeliveryRecord| {
                &&& records_delivery(r, *notification, *result)
                &&& final(self).records_view() == trimmed_log(#[trigger] old(self).records_view().push(r))
            },
    {
        let status = if result.success { DeliveryStatus::Delivered } else { DeliveryStatus::Failed };
        let sent_at = utc_now();
        let delivered_at = if result.success { Some(utc_now()) } else { None };
        let raw = new_uuid();
        let record = DeliveryRecord {
            id: uuid_string(raw),
            notification_id: notification.id.clone(),
            channel: copy_channel(&notification.channel),
            recipients: copy_strings(&notification.recipients),
            subject: notification.subject.clone(),
            status,
            error_message: result.error.clone(),
            sent_at,
            delivered_at,
            metadata: empty_json_object(),
        };
        assert(records_delivery(record, *notification, *result));
        let ghost pushed = self.records@.push(record);
        self.records.push(record);
        if self.records.len() > MAX_LOG_ENTRIES {
            let tail = self.records.split_off(TRIM_ENTRIES);
            self.records = tail;
        }
        assert(self.records@ == trimmed_log(pushed));
        assert(uuid_text(raw) == record.id@);
        assert(records_delivery(record, *notification, *result));
        assert(self.records_view() == trimmed_log(old(self).records_view().push(record)));
    }

    /// The first record of a notification.
    pub fn get_delivery_status(&self, notification_id: &str) -> (r: Option<&DeliveryRecord>)
        ensures
            ({
                let s = self.records_view();
                let i = first_of_notification(s, notification_id@, 0);
                &&& i < s.len() ==> r == Some(&s[i])
                &&& i >= s.len() ==> r is None
            }),
    {
        let ghost s = self.records@;
        let n = self.records.len();
        let mut i: usize = 0;
        while i < n
            invariant
                s == self.records@,
                n == s.len(),
                i <= n,
                first_of_notification(s, notification_id@, 0) == first_of_notification(s, notification_id@, i as int),
            decreases n - i,
        {
            if str_eq(self.records[i].notification_id.as_str(), notification_id) {
                return Some(&self.records[i]);
            }
            i = i + 1;
        }
        None
    }

    /// The records that list a recipient, newest first, at most `limit`.
    pub fn get_delivery_history(&self, recipient: &str, limit: usize) -> (r: Vec<&DeliveryRecord>)
        ensures
            ({
                let h = newest_for(self.records_view(), recipient@);
                r@.map_values(|x: &DeliveryRecord| *x) == h.subrange(0, if limit < h.len() { limit as int } else { h.len() as int })
            }),
    {
        let ghost s = self.records@;
        let ghost d = |x: &DeliveryRecord| *x;
        let ghost mut all: Seq<DeliveryRecord> = Seq::empty();
        let mut out: Vec<&DeliveryRecord> = Vec::new();
        let mut j = self.records.len();
        assert(s.subrange(0, j as int) =~= s);
        while j > 0
            invariant
                s == self.records@,
                j <= s.len(),
                d == (|x: &DeliveryRecord| *x),
                newest_for(s, recipient@) == all + newest_for(s.subrange(0, j as int), recipient@),
                out@.map_values(d) == all.subrange(0, if limit < all.len() { limit as int } else { all.len() as int }),
            decreases j,
        {
            let ghost sub = s.subrange(0, j as int);
            assert(sub.drop_last() =~= s.subrange(0, j - 1));
            assert(sub.last() == s[j - 1]);
            let rec = &self.records[j - 1];
            let listed = Self::lists(rec, recipient);
            if listed {
                proof {
                    assert(newest_for(sub, recipient@) == seq![s[j - 1]] + newest_for(s.subrange(0, j - 1), recipient@));
                    assert(all + (seq![s[j - 1]] + newest_for(s.subrange(0, j - 1), recipient@))
                        =~= all.push(s[j - 1]) + newest_for(s.subrange(0, j - 1), recipient@));
                }
                let ghost m = if limit < all.len() { limit as int } else { all.len() as int };
                assert(out@.map_values(d).len() == m);
                if out.len() < limit {
                    assert(m == all.len());
                    assert(all.subrange(0, m) =~= all);
                    out.push(rec);
                    proof {
                        assert(out@.map_values(d) =~= all.push(s[j - 1]).subrange(0, all.len() + 1 as int));
                    }
                } else {
                    proof {
                        assert(m == limit);
                        assert(limit <= all.len());
                        assert(all.push(s[j - 1]).subrange(0, limit as int) =~= all.subrange(0, limit as int));
                    }
                }
                proof { all = all.push(s[j - 1]); }
            }
            j = j - 1;
        }
        assert(all + Seq::<DeliveryRecord>::empty() =~= all);
        out
    }

    fn lists(rec: &DeliveryRecord, recipient: &str) -> (r: bool)
        ensures
            r == lists_recipient(*rec, recipient@),
    {
        let n = rec.recipients.len();
        let mut k: usize = 0;
        while k < n
            invariant
                n == rec.recipients@.len(),
                k <= n,
                forall|q: int| 0 <= q < k ==> rec.recipients@[q]@ != recipient@,
            decreases n - k,
        {
            if str_eq(rec.recipients[k].as_str(), recipient) {
                assert(texts(rec.recipients@)[k as int] == recipient@);
                return true;
            }
            k = k + 1;
        }
        assert forall|q: int| 0 <= q < texts(rec.recipients@).len() implies texts(rec.recipients@)[q] != recipient@ by {
            assert(texts(rec.recipients@)[q] == rec.recipients@[q]@);
        }
        false
    }
}

/// `table` counts the records of `s` by channel: each channel once, with
/// its count, every channel of `s` listed, and no other.
pub open spec fn counts_channels(table: Seq<(NotificationChannel, usize)>, s: Seq<DeliveryRecord>) -> bool {
    &&& forall|a: int, b: int| 0 <= a < table.len() && 0 <= b < table.len() && a != b ==> channel_view(
        (#[trigger] table[a]).0,
    ) != channel_view((#[trigger] table[b]).0)
    &&& forall|a: int| 0 <= a < table.len() ==> (#[trigger] table[a]).1 == channel_count(s, channel_view(table[a].0))
        && channel_count(s, channel_view(table[a].0)) > 0
    &&& forall|i: int| 0 <= i < s.len() ==> exists|a: int| 0 <= a < table.len() && channel_view((#[trigger] table[a]).0)
        == channel_view((#[trigger] s[i]).channel)
}

proof fn lemma_channel_count_absent(s: Seq<DeliveryRecord>, c: (nat, Seq<char>))
    requires
        forall|i: int| 0 <= i < s.len() ==> channel_view((#[trigger] s[i]).channel) != c,
    ensures
        channel_count(s, c) == 0,
    decreases s.len(),
{
    if s.len() > 0 {
        assert(s.last() == s[s.len() - 1]);
        assert forall|i: int| 0 <= i < s.len() - 1 implies channel_view((#[trigger] s.drop_last()[i]).channel) != c by {
            assert(s.drop_last()[i] == s[i]);
        }
        lemma_channel_count_absent(s.drop_last(), c);
    }
}

impl DeliveryLog {
    /// Counts the records: in all, by status, and by channel.
    pub fn counts(&self) -> (r: DeliveryCounts)
        ensures
            r.total == self.records_view().len(),
            r.successful == status_count(self.records_view(), DeliveryStatus::Delivered),
            r.failed == status_count(self.records_view(), DeliveryStatus::Failed),
            counts_channels(r.by_channel@, self.records_view()),
    {
        let ghost s = self.records@;
        let n = self.records.len();
        let mut ok: usize = 0;
        let mut bad: usize = 0;
        let mut table: Vec<(NotificationChannel, usize)> = Vec::new();
        let mut i: usize = 0;
        while i < n
            invariant
                s == self.records@,
                n == s.len(),
                i <= n,
                ok == status_count(s.subrange(0, i as int), DeliveryStatus::Delivered),
                bad == status_count(s.subrange(0, i as int), DeliveryStatus::Failed),
                ok <= i,
                bad <= i,
                counts_channels(table@, s.subrange(0, i as int)),
                forall|a: int| 0 <= a < table@.len() ==> (#[trigger] table@[a]).1 <= i,
            decreases n - i,
        {
            let ghost pre = s.subrange(0, i as int);
            let ghost post = s.subrange(0, i + 1);
            assert(post.drop_last() =~= pre);
            assert(post.last() == s[i as int]);
            let rec = &self.records[i];
            match rec.status {
                DeliveryStatus::Delivered => { ok = ok + 1; },
                DeliveryStatus::Failed => { bad = bad + 1; },
            }
            let ghost t0 = table@;
            let ghost c = channel_view(rec.channel);
            let tl = table.len();
            let mut a: usize = 0;
            while a < tl && !same_channel(&table[a].0, &rec.channel)
                invariant
                    tl == table@.len(),
                    a <= tl,
                    forall|b: int| 0 <= b < a ==> channel_view(table@[b].0) != channel_view(rec.channel),
                decreases tl - a,
            {
                a = a + 1;
            }
            if a < tl {
                let k = copy_channel(&table[a].0);
                let cnt = table[a].1;
                table.set(a, (k, cnt + 1));
                proof {
                    assert forall|b: int, b2: int| 0 <= b < table@.len() && 0 <= b2 < table@.len() && b != b2
                        implies channel_view((#[trigger] table@[b]).0) != channel_view((#[trigger] table@[b2]).0) by {
                        assert(channel_view(table@[b].0) == channel_view(t0[b].0));
                        assert(channel_view(table@[b2].0) == channel_view(t0[b2].0));
                    }
                    assert forall|b: int| 0 <= b < table@.len() implies (#[trigger] table@[b]).1 == channel_count(post, channel_view(table@[b].0))
                        && channel_count(post, channel_view(table@[b].0)) > 0 by {
                        assert(channel_view(table@[b].0) == channel_view(t0[b].0));
                    }
                    assert forall|q: int| 0 <= q < post.len() implies exists|b: int| 0 <= b < table@.len() && channel_view((#[trigger] table@[b]).0)
                        == channel_view((#[trigger] post[q]).channel) by {
                        if q < i {
                            assert(post[q] == pre[q]);
                            let b = choose|b: int| 0 <= b < t0.len() && channel_view((#[trigger] t0[b]).0) == channel_view((#[trigger] pre[q]).channel);
                            assert(channel_view(table@[b].0) == channel_view(t0[b].0));
                        } else {
                            assert(channel_view(table@[a as int].0) == c);
                        }
                    }
                }
            } else {
                proof {
                    assert forall|q: int| 0 <= q < pre.len() implies channel_view((#[trigger] pre[q]).channel) != c by {
                        if channel_view(pre[q].channel) == c {
                            let b = choose|b: int| 0 <= b < t0.len() && channel_view((#[trigger] t0[b]).0) == channel_view((#[trigger] pre[q]).channel);
                        }
                    }
                    lemma_channel_count_absent(pre, c);
                }
                table.push((copy_channel(&rec.channel), 1));
                proof {
                    assert forall|b: int, b2: int| 0 <= b < table@.len() && 0 <= b2 < table@.len() && b != b2
                        implies channel_view((#[trigger] table@[b]).0) != channel_view((#[trigger] table@[b2]).0) by {
                        if b < t0.len() { assert(table@[b] == t0[b]); }
                        if b2 < t0.len() { assert(table@[b2] == t0[b2]); }
                    }
                    assert forall|b: int| 0 <= b < table@.len() implies (#[trigger] table@[b]).1 == channel_count(post, channel_view(table@[b].0))
                        && channel_count(post, channel_view(table@[b].0)) > 0 by {
                        if b < t0.len() { assert(table@[b] == t0[b]); }
                    }
                    assert forall|q: int| 0 <= q < post.len() implies exists|b: int| 0 <= b < table@.len() && channel_view((#[trigger] table@[b]).0)
                        == channel_view((#[trigger] post[q]).channel) by {
                        if q < i {
                            assert(post[q] == pre[q]);
                            let b = choose|b: int| 0 <= b < t0.len() && channel_view((#[trigger] t0[b]).0) == channel_view((#[trigger] pre[q]).channel);
                            assert(table@[b] == t0[b]);
                        } else {
                            assert(channel_view(table@[tl as int].0) == c);
                        }
                    }
                }
            }
            i = i + 1;
        }
        assert(s.subrange(0, n as int) =~= s);
        DeliveryCounts { total: n, successful: ok, failed: bad, by_channel: table }
    }
}

} // verus!
