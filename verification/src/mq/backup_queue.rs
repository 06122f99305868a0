//! The local backup queue: messages that could not be published wait here, oldest
//! first, until they are republished; when the queue is full the oldest one goes to
//! disk (which the caller writes).

use vstd::prelude::*;
use crate::outside::{new_uuid_string, unix_time_millis, json_null};

verus! {

/// A message queue.
#[derive(Clone, Copy, Debug, PartialEq, Eq, Structural)]
pub enum MQType {
    RedisStreams,
    Kafka,
    RabbitMQ,
}

/// The name of a queue.
pub open spec fn mq_name(t: MQType) -> Seq<char> {
    match t {
        MQType::RedisStreams => "RedisStreams"@,
        MQType::Kafka => "Kafka"@,
        MQType::RabbitMQ => "RabbitMQ"@,
    }
}

impl MQType {
    /// The name of the queue: "RedisStreams", "Kafka" or "RabbitMQ".
    pub fn name(&self) -> (r: String)
        ensures
            r@ == mq_name(*self),
    {
        match self {
            MQType::RedisStreams => String::from_str("RedisStreams"),
            MQType::Kafka => String::from_str("Kafka"),
            MQType::RabbitMQ => String::from_str("RabbitMQ"),
        }
    }
}

/// A message waiting to be republished.
#[derive(Debug)]
pub struct BackupMessage {
    pub id: String,
    pub mq_type: MQType,
    pub topic_stream: String,
    pub routing_key: Option<String>,
    pub message_data: serde_json::Value,
    pub timestamp: u64,
    pub retry_count: u32,
    pub max_retries: u32,
    pub priority: u8,
    pub created_at: u64,
}

fn clone_opt(s: &Option<String>) -> (r: Option<String>)
    ensures
        r == *s,
{
    match s {
        Some(v) => Some(v.clone()),
        None => None,
    }
}

impl Clone for BackupMessage {
    fn clone(&self) -> (r: Self)
        ensures
            r == *self,
    {
        BackupMessage {
            id: self.id.clone(),
            mq_type: self.mq_type,
            topic_stream: self.topic_stream.clone(),
            routing_key: clone_opt(&self.routing_key),
            message_data: self.message_data.clone(),
            timestamp: self.timestamp,
            retry_count: self.retry_count,
            max_retries: self.max_retries,
            priority: self.priority,
            created_at: self.created_at,
        }
    }
}

/// Counts of the backup queue.
#[derive(Debug, Clone, Copy)]
pub struct BackupQueueStats {
    pub total_messages: usize,
    pub pending_messages: usize,
    pub failed_messages: usize,
    pub oldest_message_age: u64,
    pub last_backup_time: u64,
}

/// The number of messages with retries left.
pub open spec fn pending_count(q: Seq<BackupMessage>) -> nat
    decreases q.len(),
{
    if q.len() == 0 {
        0
    } else {
        pending_count(q.drop_last()) + if q.last().retry_count < q.last().max_retries {
            1nat
        } else {
            0nat
        }
    }
}

pub proof fn lemma_pending_count(q: Seq<BackupMessage>)
    ensures
        pending_count(q) <= q.len(),
    decreases q.len(),
{
    if q.len() > 0 {
        lemma_pending_count(q.drop_last());
    }
}

/// `a - b` wrapping around below zero.
pub open spec fn wrap_sub(a: u64, b: u64) -> u64 {
    if a >= b { (a - b) as u64 } else { (a + 0x1_0000_0000_0000_0000 - b) as u64 }
}

/// The counts of a queue at `now` after `old` counts: messages, those with retries
/// left, those without, the age of the oldest (kept when the queue is empty) and the
/// time.
pub open spec fn stats_at(q: Seq<BackupMessage>, old: BackupQueueStats, now: u64) -> BackupQueueStats {
    BackupQueueStats {
        total_messages: q.len() as usize,
        pending_messages: pending_count(q) as usize,
        failed_messages: (q.len() - pending_count(q)) as usize,
        oldest_message_age: if q.len() > 0 { wrap_sub(now, q[0].created_at) } else { old.oldest_message_age },
        last_backup_time: now,
    }
}

/// The messages of `t`, up to `limit` of them, in order; and the rest in order.
pub open spec fn split_type(q: Seq<BackupMessage>, t: MQType, limit: nat) -> (Seq<BackupMessage>, Seq<BackupMessage>)
    decreases q.len(),
{
    if q.len() == 0 {
        (Seq::empty(), Seq::empty())
    } else {
        let (taken, rest) = split_type(q.drop_last(), t, limit);
        if q.last().mq_type == t && taken.len() < limit {
            (taken.push(q.last()), rest)
        } else {
            (taken, rest.push(q.last()))
        }
    }
}

/// The messages without id `id`, in order.
pub open spec fn without_id(q: Seq<BackupMessage>, id: Seq<char>) -> Seq<BackupMessage>
    decreases q.len(),
{
    if q.len() == 0 {
        Seq::empty()
    } else if q.last().id@ == id {
        without_id(q.drop_last(), id)
    } else {
        without_id(q.drop_last(), id).push(q.last())
    }
}

/// Whether a message has id `id`.
pub open spec fn has_id(q: Seq<BackupMessage>, id: Seq<char>) -> bool {
    exists|i: int| 0 <= i < q.len() && q[i].id@ == id
}

/// The messages with one more retry counted on those with id `id`.
pub open spec fn bump_retries(q: Seq<BackupMessage>, id: Seq<char>) -> Seq<BackupMessage> {
    q.map_values(
        |m: BackupMessage|
            if m.id@ == id {
                BackupMessage { retry_count: if m.retry_count == u32::MAX { 0 } else { (m.retry_count + 1) as u32 }, ..m }
            } else {
                m
            },
    )
}

/// The messages in memory after backing up `m` into `q` with room for `cap`: when
/// memory is full the oldest leaves first, and `m` goes at the end.
pub open spec fn after_backup(q: Seq<BackupMessage>, cap: usize, m: BackupMessage) -> Seq<BackupMessage> {
    if q.len() >= cap && q.len() > 0 { q.drop_first().push(m) } else { q.push(m) }
}

/// The local backup queue.
pub struct LocalBackupQueue {
    memory_queue: Vec<BackupMessage>,
    backup_file_path: String,
    max_memory_size: usize,
    backup_interval_ms: u64,
    last_backup_time: u64,
    stats: BackupQueueStats,
}

impl LocalBackupQueue {
    /// The messages in memory, oldest first.
    pub closed spec fn messages(&self) -> Seq<BackupMessage> {
        self.memory_queue@
    }

    /// The counts.
    pub closed spec fn counts(&self) -> BackupQueueStats {
        self.stats
    }

    /// How many messages memory holds before the oldest goes to disk.
    pub closed spec fn capacity(&self) -> usize {
        self.max_memory_size
    }

    /// The time of the last full backup to disk.
    pub closed spec fn last_backup(&self) -> u64 {
        self.last_backup_time
    }

    /// The path the backup file is named after.
    pub closed spec fn path(&self) -> Seq<char> {
        self.backup_file_path@
    }

    /// How long between full backups.
    pub closed spec fn interval(&self) -> u64 {
        self.backup_interval_ms
    }

    /// An empty queue backed by the file at `backup_file_path` (with ".backup" added).
    pub fn new(backup_file_path: String, max_memory_size: usize, backup_interval_ms: u64) -> (r: Self)
        ensures
            r.messages().len() == 0,
            r.capacity() == max_memory_size,
            r.interval() == backup_interval_ms,
            r.last_backup() == 0,
            r.counts() == (BackupQueueStats {
                total_messages: 0,
                pending_messages: 0,
                failed_messages: 0,
                oldest_message_age: 0,
                last_backup_time: 0,
            }),
    {
        LocalBackupQueue {
            memory_queue: Vec::new(),
            backup_file_path,
            max_memory_size,
            backup_interval_ms,
            last_backup_time: 0,
            stats: BackupQueueStats {
                total_messages: 0,
                pending_messages: 0,
                failed_messages: 0,
                oldest_message_age: 0,
                last_backup_time: 0,
            },
        }
    }

    /// The file that holds the messages written to disk.
    pub fn backup_file(&self) -> (r: String)
        ensures
            r@ == self.path() + ".backup"@,
    {
        let r = crate::text::join3(self.backup_file_path.as_str(), ".backup", "");
        proof {
            reveal_strlit("");
            assert(r@ =~= self.backup_file_path@ + ".backup"@);
        }
        r
    }

    fn refresh_stats(&mut self, now: u64)
        ensures
            final(self).counts() == stats_at(old(self).messages(), old(self).counts(), now),
            final(self).messages() == old(self).messages(),
            final(self).capacity() == old(self).capacity(),
            final(self).interval() == old(self).interval(),
            final(self).last_backup() == old(self).last_backup(),
    {
        let n = self.memory_queue.len();
        let mut pending: usize = 0;
        let mut i: usize = 0;
        while i < n
            invariant
                n == self.memory_queue@.len(),
                i <= n,
                pending == pending_count(self.memory_queue@.take(i as int)),
                pending <= i,
            decreases n - i,
        {
            proof {
                let t = self.memory_queue@.take(i + 1);
                assert(t.drop_last() =~= self.memory_queue@.take(i as int));
            }
            if self.memory_queue[i].retry_count < self.memory_queue[i].max_retries {
                pending = pending + 1;
            }
            i = i + 1;
        }
        proof {
            assert(self.memory_queue@.take(n as int) =~= self.memory_queue@);
        }
        let age = if n > 0 {
            now.wrapping_sub(self.memory_queue[0].created_at)
        } else {
            self.stats.oldest_message_age
        };
        self.stats = BackupQueueStats {
            total_messages: n,
            pending_messages: pending,
            failed_messages: n - pending,
            oldest_message_age: age,
            last_backup_time: now,
        };
    }

    /// When memory is full, takes out the oldest message (for the caller to write to
    /// disk); otherwise nothing.
    pub fn take_overflow(&mut self) -> (r: Option<BackupMessage>)
        ensures
            ({
                let q = old(self).messages();
                if q.len() >= old(self).capacity() && q.len() > 0 {
                    &&& r == Some(q[0])
                    &&& final(self).messages() == q.drop_first()
                } else {
                    &&& r is None
                    &&& final(self).messages() == q
                }
            }),
            final(self).counts() == old(self).counts(),
            final(self).capacity() == old(self).capacity(),
            final(self).interval() == old(self).interval(),
            final(self).last_backup() == old(self).last_backup(),
    {
        if self.memory_queue.len() >= self.max_memory_size && self.memory_queue.len() > 0 {
            let m = self.memory_queue.remove(0);
            proof {
                assert(self.memory_queue@ =~= old(self).memory_queue@.drop_first());
            }
            Some(m)
        } else {
            None
        }
    }

    /// Adds a message at the end and takes the counts at `now`.
    pub fn push_message(&mut self, message: BackupMessage, now: u64)
        ensures
            final(self).messages() == old(self).messages().push(message),
            final(self).counts() == stats_at(old(self).messages().push(message), old(self).counts(), now),
            final(self).capacity() == old(self).capacity(),
            final(self).interval() == old(self).interval(),
            final(self).last_backup() == old(self).last_backup(),
    {
        self.memory_queue.push(message);
        self.refresh_stats(now);
    }

    /// Backs up `message` at `now`: when memory is full its oldest message is taken out
    /// first and returned, for the caller to write to disk; then `message` is added at
    /// the end and the counts are taken. (Whether a full backup to disk is then due is
    /// `backup_due`.)
    pub fn backup_message(&mut self, message: BackupMessage, now: u64) -> (r: Option<BackupMessage>)
        ensures
            ({
                let q = old(self).messages();
                let overflow = q.len() >= old(self).capacity() && q.len() > 0;
                &&& r == if overflow { Some(q[0]) } else { None::<BackupMessage> }
                &&& final(self).messages() == after_backup(q, old(self).capacity(), message)
                &&& final(self).counts() == stats_at(after_backup(q, old(self).capacity(), message), old(self).counts(), now)
            }),
            final(self).capacity() == old(self).capacity(),
            final(self).interval() == old(self).interval(),
            final(self).last_backup() == old(self).last_backup(),
    {
        let oldest = self.take_overflow();
        self.push_message(message, now);
        oldest
    }

    /// Whether a full backup to disk is due at `now`: the interval has passed since the
    /// last one.
    pub fn backup_due(&self, now: u64) -> (r: bool)
        ensures
            r == (wrap_sub(now, self.last_backup()) >= self.interval()),
    {
        now.wrapping_sub(self.last_backup_time) >= self.backup_interval_ms
    }

    /// Notes a full backup to disk at `now`.
    pub fn mark_backed_up(&mut self, now: u64)
        ensures
            final(self).last_backup() == now,
            final(self).messages() == old(self).messages(),
            final(self).counts() == old(self).counts(),
            final(self).capacity() == old(self).capacity(),
            final(self).interval() == old(self).interval(),
    {
        self.last_backup_time = now;
    }

    /// Takes out up to `limit` messages for `mq_type`, oldest first; the others stay in
    /// order. The counts are taken at `now`.
    pub fn recover_messages(&mut self, mq_type: &MQType, limit: usize, now: u64) -> (r: Vec<BackupMessage>)
        ensures
            r@ == split_type(old(self).messages(), *mq_type, limit as nat).0,
            final(self).messages() == split_type(old(self).messages(), *mq_type, limit as nat).1,
            final(self).counts() == stats_at(final(self).messages(), old(self).counts(), now),
            final(self).capacity() == old(self).capacity(),
            final(self).interval() == old(self).interval(),
            final(self).last_backup() == old(self).last_backup(),
    {
        let mut src: Vec<BackupMessage> = Vec::new();
        std::mem::swap(&mut src, &mut self.memory_queue);
        let ghost q = src@;
        let n = src.len();
        let mut rev: Vec<BackupMessage> = Vec::new();
        while src.len() > 0
            invariant
                src@.len() + rev@.len() == n,
                n == q.len(),
                src@ == q.take(src@.len() as int),
                forall|j: int| 0 <= j < rev@.len() ==> rev@[j] == q[n - 1 - j],
            decreases src@.len(),
        {
            let m = src.pop().unwrap();
            rev.push(m);
            proof {
                assert(src@ =~= q.take(src@.len() as int));
            }
        }
        let mut taken: Vec<BackupMessage> = Vec::new();
        let mut rest: Vec<BackupMessage> = Vec::new();
        let mut i: usize = 0;
        while i < n
            invariant
                n == q.len(),
                i <= n,
                rev@.len() == n - i,
                forall|j: int| 0 <= j < n - i ==> rev@[j] == q[n - 1 - j],
                (taken@, rest@) == split_type(q.take(i as int), *mq_type, limit as nat),
            decreases n - i,
        {
            let m = rev.pop().unwrap();
            proof {
                let t = q.take(i + 1);
                assert(t.drop_last() =~= q.take(i as int));
                assert(t.last() == m);
            }
            if m.mq_type == *mq_type && taken.len() < limit {
                taken.push(m);
            } else {
                rest.push(m);
            }
            i = i + 1;
        }
        proof {
            assert(q.take(n as int) =~= q);
        }
        self.memory_queue = rest;
        self.refresh_stats(now);
        taken
    }

    /// Removes the messages with id `message_id`; whether there was one. The counts are
    /// taken at `now`.
    pub fn remove_message(&mut self, message_id: &str, now: u64) -> (r: bool)
        ensures
            r == has_id(old(self).messages(), message_id@),
            final(self).messages() == without_id(old(self).messages(), message_id@),
            final(self).counts() == stats_at(final(self).messages(), old(self).counts(), now),
            final(self).capacity() == old(self).capacity(),
            final(self).interval() == old(self).interval(),
            final(self).last_backup() == old(self).last_backup(),
    {
        let key = String::from_str(message_id);
        let mut src: Vec<BackupMessage> = Vec::new();
        std::mem::swap(&mut src, &mut self.memory_queue);
        let ghost q = src@;
        let n = src.len();
        let mut rev: Vec<BackupMessage> = Vec::new();
        while src.len() > 0
            invariant
                src@.len() + rev@.len() == n,
                n == q.len(),
                src@ == q.take(src@.len() as int),
                forall|j: int| 0 <= j < rev@.len() ==> rev@[j] == q[n - 1 - j],
            decreases src@.len(),
        {
            let m = src.pop().unwrap();
            rev.push(m);
            proof {
                assert(src@ =~= q.take(src@.len() as int));
            }
        }
        let mut kept: Vec<BackupMessage> = Vec::new();
        let mut found = false;
        let mut i: usize = 0;
        while i < n
            invariant
                n == q.len(),
                key@ == message_id@,
                i <= n,
                rev@.len() == n - i,
                forall|j: int| 0 <= j < n - i ==> rev@[j] == q[n - 1 - j],
                kept@ == without_id(q.take(i as int), message_id@),
                found == has_id(q.take(i as int), message_id@),
            decreases n - i,
        {
            let m = rev.pop().unwrap();
            let ghost t = q.take(i + 1);
            proof {
                assert(t.drop_last() =~= q.take(i as int));
                assert(t.last() == m);
            }
            if m.id == key {
                found = true;
                proof {
                    assert(t[i as int].id@ == message_id@);
                }
            } else {
                kept.push(m);
            }
            proof {
                if has_id(t, message_id@) && m.id@ != message_id@ {
                    let j = choose|j: int| 0 <= j < t.len() && t[j].id@ == message_id@;
                    assert(q.take(i as int)[j] == t[j]);
                }
                if has_id(q.take(i as int), message_id@) {
                    let j = choose|j: int| 0 <= j < q.take(i as int).len() && q.take(i as int)[j].id@ == message_id@;
                    assert(t[j] == q.take(i as int)[j]);
                }
            }
            i = i + 1;
        }
        proof {
            assert(q.take(n as int) =~= q);
        }
        self.memory_queue = kept;
        self.refresh_stats(now);
        found
    }

    /// Counts one more retry on the messages with id `message_id`; whether there was
    /// one. The counts are taken at `now`.
    pub fn increment_retry_count(&mut self, message_id: &str, now: u64) -> (r: bool)
        ensures
            r == has_id(old(self).messages(), message_id@),
            final(self).messages() == bump_retries(old(self).messages(), message_id@),
            final(self).counts() == stats_at(final(self).messages(), old(self).counts(), now),
            final(self).capacity() == old(self).capacity(),
            final(self).interval() == old(self).interval(),
            final(self).last_backup() == old(self).last_backup(),
    {
        let key = String::from_str(message_id);
        let ghost q = self.memory_queue@;
        let n = self.memory_queue.len();
        let mut found = false;
        let mut i: usize = 0;
        while i < n
            invariant
                n == q.len(),
                key@ == message_id@,
                i <= n,
                self.memory_queue@.len() == n,
                forall|j: int| 0 <= j < i ==> self.memory_queue@[j] == bump_retries(q, message_id@)[j],
                forall|j: int| i <= j < n ==> self.memory_queue@[j] == q[j],
                found == exists|j: int| 0 <= j < i && q[j].id@ == message_id@,
                self.stats == old(self).stats,
                self.max_memory_size == old(self).max_memory_size,
                self.backup_interval_ms == old(self).backup_interval_ms,
                self.last_backup_time == old(self).last_backup_time,
                q == old(self).memory_queue@,
            decreases n - i,
        {
            let ghost was = found;
            let hit = self.memory_queue[i].id == key;
            if hit {
                let m = &mut self.memory_queue[i];
                m.retry_count = m.retry_count.wrapping_add(1);
                found = true;
            }
            proof {
                assert(hit == (q[i as int].id@ == message_id@));
                if hit {
                    assert(exists|j: int| 0 <= j < i + 1 && q[j].id@ == message_id@);
                } else if was {
                    let j = choose|j: int| 0 <= j < i && q[j].id@ == message_id@;
                    assert(0 <= j < i + 1 && q[j].id@ == message_id@);
                } else {
                    assert forall|j: int| 0 <= j < i + 1 implies q[j].id@ != message_id@ by {
                        if j < i {
                            assert(!(0 <= j < i && q[j].id@ == message_id@));
                        }
                    }
                }
            }
            i = i + 1;
        }
        proof {
            assert(self.memory_queue@ =~= bump_retries(q, message_id@));
        }
        self.refresh_stats(now);
        found
    }

    /// The counts.
    pub fn get_stats(&self) -> (r: BackupQueueStats)
        ensures
            r == self.counts(),
    {
        self.stats
    }

    /// The number of messages in memory.
    pub fn size(&self) -> (r: usize)
        ensures
            r == self.messages().len(),
    {
        self.memory_queue.len()
    }

    /// Copies of the messages in memory, oldest first.
    pub fn messages_in_memory(&self) -> (r: Vec<BackupMessage>)
        ensures
            r@ == self.messages(),
    {
        let mut out: Vec<BackupMessage> = Vec::new();
        let n = self.memory_queue.len();
        let mut i: usize = 0;
        while i < n
            invariant
                n == self.memory_queue@.len(),
                i <= n,
                out@ == self.memory_queue@.take(i as int),
            decreases n - i,
        {
            out.push(self.memory_queue[i].clone());
            proof {
                assert(self.memory_queue@.take(i + 1) =~= self.memory_queue@.take(i as int).push(
                    self.memory_queue@[i as int],
                ));
            }
            i = i + 1;
        }
        proof {
            assert(self.memory_queue@.take(n as int) =~= self.memory_queue@);
        }
        out
    }

    /// Empties memory; the counts are taken at `now`.
    pub fn clear(&mut self, now: u64) -> (r: Result<(), String>)
        ensures
            r is Ok,
            final(self).messages().len() == 0,
            final(self).counts() == stats_at(Seq::empty(), old(self).counts(), now),
            final(self).capacity() == old(self).capacity(),
            final(self).interval() == old(self).interval(),
            final(self).last_backup() == old(self).last_backup(),
    {
        self.memory_queue = Vec::new();
        self.refresh_stats(now);
        Ok(())
    }
}

/// Builds a backup message step by step.
pub struct BackupMessageBuilder {
    message: BackupMessage,
}

impl BackupMessageBuilder {
    /// The message built so far.
    pub closed spec fn current(&self) -> BackupMessage {
        self.message
    }

    /// A new message for `mq_type` and `topic_stream`, made now, with a fresh id, no
    /// routing key, JSON null data, no retries yet, at most 3, priority 5.
    pub fn new(mq_type: MQType, topic_stream: String) -> (r: Self)
        ensures
            r.current().mq_type == mq_type,
            r.current().topic_stream == topic_stream,
            r.current().routing_key is None,
            r.current().timestamp == r.current().created_at,
            r.current().retry_count == 0,
            r.current().max_retries == 3,
            r.current().priority == 5,
            r.current().id@.len() == 36,
    {
        let now = unix_time_millis();
        BackupMessageBuilder {
            message: BackupMessage {
                id: new_uuid_string(),
                mq_type,
                topic_stream,
                routing_key: None,
                message_data: json_null(),
                timestamp: now,
                retry_count: 0,
                max_retries: 3,
                priority: 5,
                created_at: now,
            },
        }
    }

    /// Sets the routing key.
    pub fn routing_key(self, routing_key: String) -> (r: Self)
        ensures
            r.current() == (BackupMessage { routing_key: Some(routing_key), ..self.current() }),
    {
        let mut b = self;
        b.message.routing_key = Some(routing_key);
        b
    }

    /// Sets the data.
    pub fn message_data(self, data: serde_json::Value) -> (r: Self)
        ensures
            r.current() == (BackupMessage { message_data: data, ..self.current() }),
    {
        let mut b = self;
        b.message.message_data = data;
        b
    }

    /// Sets the most retries.
    pub fn max_retries(self, max_retries: u32) -> (r: Self)
        ensures
            r.current() == (BackupMessage { max_retries, ..self.current() }),
    {
        let mut b = self;
        b.message.max_retries = max_retries;
        b
    }

    /// Sets the priority.
    pub fn priority(self, priority: u8) -> (r: Self)
        ensures
            r.current() == (BackupMessage { priority, ..self.current() }),
    {
        let mut b = self;
        b.message.priority = priority;
        b
    }

    /// The message.
    pub fn build(self) -> (r: BackupMessage)
        ensures
            r == self.current(),
    {
        self.message
    }
}

/// Backing up keeps memory within its room: a queue within its room (of at least one
/// message) stays within it, the message just backed up is the newest, and only the
/// oldest one can have left.
pub proof fn law_backup_keeps_capacity(q: Seq<BackupMessage>, cap: usize, m: BackupMessage)
    requires
        q.len() <= cap,
        cap > 0,
    ensures
        after_backup(q, cap, m).len() <= cap,
        after_backup(q, cap, m).last() == m,
        after_backup(q, cap, m).drop_last() == q || after_backup(q, cap, m).drop_last() == q.drop_first(),
{
    assert(q.push(m).drop_last() =~= q);
    if q.len() > 0 {
        assert(q.drop_first().push(m).drop_last() =~= q.drop_first());
    }
}

/// Removing a backed-up message undoes backing it up: a message with a new id, put at
/// the end and then removed by its id, leaves the queue as it was.
pub proof fn law_remove_undoes_backup(q: Seq<BackupMessage>, m: BackupMessage)
    requires
        !has_id(q, m.id@),
    ensures
        without_id(q.push(m), m.id@) == q,
    decreases q.len(),
{
    assert(q.push(m).drop_last() =~= q);
    lemma_without_absent(q, m.id@);
}

/// Without a message of id `id`, removing that id changes nothing.
pub proof fn lemma_without_absent(q: Seq<BackupMessage>, id: Seq<char>)
    requires
        !has_id(q, id),
    ensures
        without_id(q, id) == q,
    decreases q.len(),
{
    if q.len() > 0 {
        let t = q.drop_last();
        assert(!has_id(t, id)) by {
            if has_id(t, id) {
                let i = choose|i: int| 0 <= i < t.len() && t[i].id@ == id;
                assert(q[i].id@ == id);
            }
        }
        lemma_without_absent(t, id);
        assert(q.last().id@ != id) by {
            assert(q[q.len() - 1].id@ != id);
        }
        assert(t.push(q.last()) =~= q);
    }
}

/// Recovery loses nothing: the messages taken for one queue are of that queue, at most
/// the limit, and together with those left they are all the messages.
pub proof fn law_recover_loses_nothing(q: Seq<BackupMessage>, t: MQType, limit: nat)
    ensures
        split_type(q, t, limit).0.len() <= limit,
        split_type(q, t, limit).0.len() + split_type(q, t, limit).1.len() == q.len(),
        forall|i: int| 0 <= i < split_type(q, t, limit).0.len() ==> (#[trigger] split_type(q, t, limit).0[i]).mq_type == t,
    decreases q.len(),
{
    if q.len() > 0 {
        law_recover_loses_nothing(q.drop_last(), t, limit);
        let (taken, rest) = split_type(q.drop_last(), t, limit);
        if q.last().mq_type == t && taken.len() < limit {
            assert forall|i: int| 0 <= i < taken.push(q.last()).len() implies (#[trigger] taken.push(q.last())[i]).mq_type == t by {
                if i < taken.len() {
                    assert(taken.push(q.last())[i] == taken[i]);
                }
            }
        }
    }
}

} // verus!
