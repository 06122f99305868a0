//! Notifications: channels, priorities and messages, the channel handlers' settings,
//! duplicate suppression, rate limiting, and the queue that accepts notifications.

use vstd::prelude::*;
use crate::metrics::bump;
use crate::outside::{new_uuid_string, unix_time_millis};

verus! {

/// A delivery channel.
#[derive(Debug, Clone, Copy, PartialEq, Eq, Structural)]
pub enum NotificationChannel {
    Email,
    Slack,
    Discord,
    Webhook,
    SMS,
    Push,
    Log,
    Console,
}

/// Priority of a notification.
#[derive(Debug, Clone, Copy, PartialEq, Eq, Structural)]
pub enum NotificationPriority {
    Low,
    Normal,
    High,
    Critical,
}

/// Kind of notification.
#[derive(Debug, Clone, Copy, PartialEq, Eq, Structural)]
pub enum NotificationType {
    HealthCheck,
    PerformanceAlert,
    ErrorAlert,
    StatusChange,
    Maintenance,
    SecurityAlert,
    Custom,
}

/// A notification.
#[derive(Debug)]
pub struct NotificationMessage {
    pub id: String,
    pub title: String,
    pub content: String,
    pub channel: NotificationChannel,
    pub priority: NotificationPriority,
    pub notification_type: NotificationType,
    pub timestamp: u64,
    pub retry_count: u32,
    pub max_retries: u32,
    pub metadata: std::collections::HashMap<String, String>,
}

/// The outcome of one delivery.
#[derive(Debug)]
pub struct NotificationResult {
    pub message_id: String,
    pub success: bool,
    pub error_message: Option<String>,
    pub sent_at: u64,
    pub channel: NotificationChannel,
}

/// Settings of the notification system.
#[derive(Debug)]
pub struct NotificationConfig {
    pub enabled_channels: Vec<NotificationChannel>,
    pub retry_attempts: u32,
    pub retry_delay_ms: u64,
    pub batch_size: usize,
    pub batch_timeout_ms: u64,
    pub rate_limit_per_minute: u32,
    pub enable_deduplication: bool,
    pub deduplication_window_ms: u64,
}

impl Default for NotificationConfig {
    fn default() -> (r: Self)
        ensures
            r.enabled_channels@ == seq![NotificationChannel::Console, NotificationChannel::Log],
            r.retry_attempts == 3,
            r.retry_delay_ms == 1000,
            r.batch_size == 10,
            r.batch_timeout_ms == 5000,
            r.rate_limit_per_minute == 100,
            r.enable_deduplication,
            r.deduplication_window_ms == 60000,
    {
        let mut enabled_channels = Vec::new();
        enabled_channels.push(NotificationChannel::Console);
        enabled_channels.push(NotificationChannel::Log);
        NotificationConfig {
            enabled_channels,
            retry_attempts: 3,
            retry_delay_ms: 1000,
            batch_size: 10,
            batch_timeout_ms: 5000,
            rate_limit_per_minute: 100,
            enable_deduplication: true,
            deduplication_window_ms: 60000,
        }
    }
}

/// The name of a channel.
pub open spec fn channel_name(channel: NotificationChannel) -> Seq<char> {
    match channel {
        NotificationChannel::Email => "Email"@,
        NotificationChannel::Slack => "Slack"@,
        NotificationChannel::Discord => "Discord"@,
        NotificationChannel::Webhook => "Webhook"@,
        NotificationChannel::SMS => "SMS"@,
        NotificationChannel::Push => "Push"@,
        NotificationChannel::Log => "Log"@,
        NotificationChannel::Console => "Console"@,
    }
}

/// The name of a channel.
pub fn channel_to_string(channel: &NotificationChannel) -> (r: String)
    ensures
        r@ == channel_name(*channel),
{
    match channel {
        NotificationChannel::Email => String::from_str("Email"),
        NotificationChannel::Slack => String::from_str("Slack"),
        NotificationChannel::Discord => String::from_str("Discord"),
        NotificationChannel::Webhook => String::from_str("Webhook"),
        NotificationChannel::SMS => String::from_str("SMS"),
        NotificationChannel::Push => String::from_str("Push"),
        NotificationChannel::Log => String::from_str("Log"),
        NotificationChannel::Console => String::from_str("Console"),
    }
}

/// The name of a priority.
pub fn priority_to_string(priority: &NotificationPriority) -> (r: String)
    ensures
        r@ == match *priority {
            NotificationPriority::Low => "Low"@,
            NotificationPriority::Normal => "Normal"@,
            NotificationPriority::High => "High"@,
            NotificationPriority::Critical => "Critical"@,
        },
{
    match priority {
        NotificationPriority::Low => String::from_str("Low"),
        NotificationPriority::Normal => String::from_str("Normal"),
        NotificationPriority::High => String::from_str("High"),
        NotificationPriority::Critical => String::from_str("Critical"),
    }
}

/// The name of a kind of notification.
pub fn notification_type_to_string(notification_type: &NotificationType) -> (r: String)
    ensures
        r@ == match *notification_type {
            NotificationType::HealthCheck => "HealthCheck"@,
            NotificationType::PerformanceAlert => "PerformanceAlert"@,
            NotificationType::ErrorAlert => "ErrorAlert"@,
            NotificationType::StatusChange => "StatusChange"@,
            NotificationType::Maintenance => "Maintenance"@,
            NotificationType::SecurityAlert => "SecurityAlert"@,
            NotificationType::Custom => "Custom"@,
        },
{
    match notification_type {
        NotificationType::HealthCheck => String::from_str("HealthCheck"),
        NotificationType::PerformanceAlert => String::from_str("PerformanceAlert"),
        NotificationType::ErrorAlert => String::from_str("ErrorAlert"),
        NotificationType::StatusChange => String::from_str("StatusChange"),
        NotificationType::Maintenance => String::from_str("Maintenance"),
        NotificationType::SecurityAlert => String::from_str("SecurityAlert"),
        NotificationType::Custom => String::from_str("Custom"),
    }
}

/// A way of delivering notifications: the channel it serves and whether it is set up
/// to deliver. (Delivery itself goes over the network and is done by the caller.)
pub trait NotificationChannelHandler {
    /// The channel served.
    spec fn channel(&self) -> NotificationChannel;

    /// Whether it is set up to deliver.
    spec fn enabled(&self) -> bool;

    /// The channel served.
    fn get_channel(&self) -> (r: NotificationChannel)
        ensures
            r == self.channel(),
    ;

    /// Whether it can deliver.
    fn is_enabled(&self) -> (r: bool)
        ensures
            r == self.enabled(),
    ;
}

/// Delivers to the console.
pub struct ConsoleNotificationHandler;

impl NotificationChannelHandler for ConsoleNotificationHandler {
    /// Its channel.
    open spec fn channel(&self) -> NotificationChannel {
        NotificationChannel::Console
    }

    /// When it delivers.
    open spec fn enabled(&self) -> bool {
        true
    }

    /// Its channel.
    fn get_channel(&self) -> (r: NotificationChannel)
        ensures
            r == NotificationChannel::Console,
    {
        NotificationChannel::Console
    }

    /// Always enabled.
    fn is_enabled(&self) -> (r: bool)
        ensures
            r,
    {
        true
    }
}

/// Delivers to the log.
pub struct LogNotificationHandler;

impl NotificationChannelHandler for LogNotificationHandler {
    /// Its channel.
    open spec fn channel(&self) -> NotificationChannel {
        NotificationChannel::Log
    }

    /// When it delivers.
    open spec fn enabled(&self) -> bool {
        true
    }

    /// Its channel.
    fn get_channel(&self) -> (r: NotificationChannel)
        ensures
            r == NotificationChannel::Log,
    {
        NotificationChannel::Log
    }

    /// Always enabled.
    fn is_enabled(&self) -> (r: bool)
        ensures
            r,
    {
        true
    }
}

/// Delivers by e-mail.
pub struct EmailNotificationHandler {
    pub smtp_server: String,
    pub from_email: String,
}

impl EmailNotificationHandler {
    /// A handler for the given server and sender.
    pub fn new(smtp_server: String, from_email: String) -> (r: Self)
        ensures
            r.smtp_server == smtp_server,
            r.from_email == from_email,
    {
        EmailNotificationHandler { smtp_server, from_email }
    }
}

impl NotificationChannelHandler for EmailNotificationHandler {
    /// Its channel.
    open spec fn channel(&self) -> NotificationChannel {
        NotificationChannel::Email
    }

    /// When it delivers.
    open spec fn enabled(&self) -> bool {
        self.smtp_server@.len() > 0
    }

    /// Its channel.
    fn get_channel(&self) -> (r: NotificationChannel)
        ensures
            r == NotificationChannel::Email,
    {
        NotificationChannel::Email
    }

    /// Enabled when a server is set.
    fn is_enabled(&self) -> (r: bool)
        ensures
            r == (self.smtp_server@.len() > 0),
    {
        self.smtp_server.as_str().unicode_len() > 0
    }
}

/// Delivers to a Slack channel.
pub struct SlackNotificationHandler {
    pub webhook_url: String,
    pub channel: String,
}

impl SlackNotificationHandler {
    /// A handler for the given webhook and channel.
    pub fn new(webhook_url: String, channel: String) -> (r: Self)
        ensures
            r.webhook_url == webhook_url,
            r.channel == channel,
    {
        SlackNotificationHandler { webhook_url, channel }
    }
}

impl NotificationChannelHandler for SlackNotificationHandler {
    /// Its channel.
    open spec fn channel(&self) -> NotificationChannel {
        NotificationChannel::Slack
    }

    /// When it delivers.
    open spec fn enabled(&self) -> bool {
        self.webhook_url@.len() > 0
    }

    /// Its channel.
    fn get_channel(&self) -> (r: NotificationChannel)
        ensures
            r == NotificationChannel::Slack,
    {
        NotificationChannel::Slack
    }

    /// Enabled when a webhook is set.
    fn is_enabled(&self) -> (r: bool)
        ensures
            r == (self.webhook_url@.len() > 0),
    {
        self.webhook_url.as_str().unicode_len() > 0
    }
}

/// Delivers to a web hook.
pub struct WebhookNotificationHandler {
    pub webhook_url: String,
}

impl WebhookNotificationHandler {
    /// A handler for the given hook.
    pub fn new(webhook_url: String) -> (r: Self)
        ensures
            r.webhook_url == webhook_url,
    {
        WebhookNotificationHandler { webhook_url }
    }
}

impl NotificationChannelHandler for WebhookNotificationHandler {
    /// Its channel.
    open spec fn channel(&self) -> NotificationChannel {
        NotificationChannel::Webhook
    }

    /// When it delivers.
    open spec fn enabled(&self) -> bool {
        self.webhook_url@.len() > 0
    }

    /// Its channel.
    fn get_channel(&self) -> (r: NotificationChannel)
        ensures
            r == NotificationChannel::Webhook,
    {
        NotificationChannel::Webhook
    }

    /// Enabled when a hook is set.
    fn is_enabled(&self) -> (r: bool)
        ensures
            r == (self.webhook_url@.len() > 0),
    {
        self.webhook_url.as_str().unicode_len() > 0
    }
}

/// Time passed from `t` to `now`, modulo 2^64.
pub open spec fn age(now: u64, t: u64) -> int {
    (now - t) % 0x1_0000_0000_0000_0000
}

/// The send times still inside the window at `now`, in order.
pub open spec fn recent(times: Seq<u64>, now: u64, window: u64) -> Seq<u64>
    decreases times.len(),
{
    if times.len() == 0 {
        Seq::empty()
    } else {
        let rest = recent(times.drop_last(), now, window);
        if age(now, times.last()) < window {
            rest.push(times.last())
        } else {
            rest
        }
    }
}

pub proof fn lemma_recent_len(times: Seq<u64>, now: u64, window: u64)
    ensures
        recent(times, now, window).len() <= times.len(),
    decreases times.len(),
{
    if times.len() > 0 {
        lemma_recent_len(times.drop_last(), now, window);
    }
}

fn keep_recent(times: &Vec<u64>, now: u64, window: u64) -> (r: Vec<u64>)
    ensures
        r@ == recent(times@, now, window),
{
    let mut out: Vec<u64> = Vec::new();
    let mut i: usize = 0;
    while i < times.len()
        invariant
            i <= times@.len(),
            out@ == recent(times@.take(i as int), now, window),
        decreases times@.len() - i,
    {
        proof {
            assert(times@.take(i + 1).drop_last() =~= times@.take(i as int));
        }
        if now.wrapping_sub(times[i]) < window {
            out.push(times[i]);
        }
        i = i + 1;
    }
    proof {
        assert(times@.take(times@.len() as int) =~= times@);
    }
    out
}

/// Allows at most `limit` sends within any window of `window_ms` milliseconds.
pub struct RateLimiter {
    requests: Vec<u64>,
    limit: u32,
    window_ms: u64,
}

impl RateLimiter {
    /// The times of the sends recorded.
    pub closed spec fn requests(&self) -> Seq<u64> {
        self.requests@
    }

    /// The most sends per window.
    pub closed spec fn limit(&self) -> u32 {
        self.limit
    }

    /// The window, in milliseconds.
    pub closed spec fn window(&self) -> u64 {
        self.window_ms
    }

    /// A limiter with no send recorded.
    pub fn new(limit: u32, window_ms: u64) -> (r: Self)
        ensures
            r.requests().len() == 0,
            r.limit() == limit,
            r.window() == window_ms,
    {
        RateLimiter { requests: Vec::new(), limit, window_ms }
    }

    /// At time `now`: forgets the sends that fell out of the window, then allows a
    /// send (and records it) if fewer than the limit remain.
    pub fn can_send_at(&mut self, now: u64) -> (r: bool)
        ensures
            final(self).limit() == old(self).limit(),
            final(self).window() == old(self).window(),
            ({
                let kept = recent(old(self).requests(), now, old(self).window());
                &&& r == (kept.len() < old(self).limit())
                &&& final(self).requests() == if r { kept.push(now) } else { kept }
            }),
    {
        self.requests = keep_recent(&self.requests, now, self.window_ms);
        if self.requests.len() < self.limit as usize {
            self.requests.push(now);
            true
        } else {
            false
        }
    }

    /// Whether a send is allowed now, by the wall clock (see `can_send_at`).
    pub fn can_send(&mut self) -> (r: bool)
        ensures
            final(self).limit() == old(self).limit(),
            final(self).window() == old(self).window(),
            old(self).requests().len() <= old(self).limit() ==> final(self).requests().len() <= old(self).limit(),
            exists|now: u64| {
                let kept = #[trigger] recent(old(self).requests(), now, old(self).window());
                &&& r == (kept.len() < old(self).limit())
                &&& final(self).requests() == if r { kept.push(now) } else { kept }
            },
    {
        let now = unix_time_millis();
        proof {
            lemma_recent_len(self.requests@, now, self.window_ms);
        }
        let r = self.can_send_at(now);
        proof {
            let kept = recent(old(self).requests(), now, old(self).window());
            assert(r == (kept.len() < old(self).limit()));
        }
        r
    }
}

/// The key under which a message counts as a duplicate: title, content and channel
/// name joined by ':'.
pub open spec fn dedup_key(m: NotificationMessage) -> Seq<char> {
    m.title@ + ":"@ + m.content@ + ":"@ + channel_name(m.channel)
}

/// The keys still inside the window at `now`, in order.
pub open spec fn recent_keys(entries: Seq<(Seq<char>, u64)>, now: u64, window: u64) -> Seq<(Seq<char>, u64)>
    decreases entries.len(),
{
    if entries.len() == 0 {
        Seq::empty()
    } else {
        let rest = recent_keys(entries.drop_last(), now, window);
        if age(now, entries.last().1) < window {
            rest.push(entries.last())
        } else {
            rest
        }
    }
}

/// Whether `key` is among the entries.
pub open spec fn has_key(entries: Seq<(Seq<char>, u64)>, key: Seq<char>) -> bool {
    exists|i: int| 0 <= i < entries.len() && entries[i].0 == key
}

fn find_key(entries: &Vec<(String, u64)>, key: &String) -> (r: bool)
    ensures
        r == exists|x: int| 0 <= x < entries@.len() && entries@[x].0@ == key@,
{
    let mut j: usize = 0;
    while j < entries.len()
        invariant
            j <= entries@.len(),
            forall|x: int| 0 <= x < j ==> entries@[x].0@ != key@,
        decreases entries@.len() - j,
    {
        if entries[j].0 == *key {
            return true;
        }
        j = j + 1;
    }
    false
}

/// Suppresses a message seen within the last `window_ms` milliseconds.
pub struct Deduplicator {
    messages: Vec<(String, u64)>,
    window_ms: u64,
}

impl Deduplicator {
    /// The keys recorded, with the time each was first seen.
    pub closed spec fn entries(&self) -> Seq<(Seq<char>, u64)> {
        Seq::new(self.messages@.len(), |i: int| (self.messages@[i].0@, self.messages@[i].1))
    }

    /// The window, in milliseconds.
    pub closed spec fn window(&self) -> u64 {
        self.window_ms
    }

    /// A deduplicator that has seen nothing.
    pub fn new(window_ms: u64) -> (r: Self)
        ensures
            r.entries().len() == 0,
            r.window() == window_ms,
    {
        Deduplicator { messages: Vec::new(), window_ms }
    }

    /// At time `now`: forgets the keys that fell out of the window, then tells whether
    /// the message's key is still known; an unknown key is recorded with time `now`.
    pub fn is_duplicate_at(&mut self, message: &NotificationMessage, now: u64) -> (r: bool)
        ensures
            final(self).window() == old(self).window(),
            ({
                let kept = recent_keys(old(self).entries(), now, old(self).window());
                let key = dedup_key(*message);
                &&& r == has_key(kept, key)
                &&& final(self).entries() == if r { kept } else { kept.push((key, now)) }
            }),
    {
        let ghost old_entries = self.entries();
        let mut kept: Vec<(String, u64)> = Vec::new();
        let mut i: usize = 0;
        while i < self.messages.len()
            invariant
                i <= self.messages@.len(),
                old_entries == self.entries(),
                Seq::new(kept@.len(), |j: int| (kept@[j].0@, kept@[j].1)) == recent_keys(
                    old_entries.take(i as int),
                    now,
                    self.window_ms,
                ),
            decreases self.messages@.len() - i,
        {
            proof {
                assert(old_entries.take(i + 1).drop_last() =~= old_entries.take(i as int));
                assert(old_entries.take(i + 1).last() == (self.messages@[i as int].0@, self.messages@[i as int].1));
            }
            let ghost before = kept@;
            if now.wrapping_sub(self.messages[i].1) < self.window_ms {
                let entry = (self.messages[i].0.clone(), self.messages[i].1);
                kept.push(entry);
                proof {
                    assert(Seq::new(kept@.len(), |j: int| (kept@[j].0@, kept@[j].1)) =~= Seq::new(
                        before.len(),
                        |j: int| (before[j].0@, before[j].1),
                    ).push((self.messages@[i as int].0@, self.messages@[i as int].1)));
                }
            }
            i = i + 1;
        }
        proof {
            assert(old_entries.take(self.messages@.len() as int) =~= old_entries);
        }
        let mut key = String::from_str(message.title.as_str());
        key.append(":");
        key.append(message.content.as_str());
        key.append(":");
        let name = channel_to_string(&message.channel);
        key.append(name.as_str());
        let ghost kept_view = Seq::new(kept@.len(), |j: int| (kept@[j].0@, kept@[j].1));
        proof {
            assert(key@ == dedup_key(*message));
        }
        let found = find_key(&kept, &key);
        proof {
            if found {
                let x = choose|x: int| 0 <= x < kept@.len() && kept@[x].0@ == key@;
                assert(kept_view[x].0 == key@);
            } else {
                assert forall|x: int| 0 <= x < kept_view.len() implies kept_view[x].0 != key@ by {
                    assert(kept_view[x].0 == kept@[x].0@);
                }
            }
        }
        if !found {
            let ghost before = kept@;
            kept.push((key, now));
            proof {
                assert(Seq::new(kept@.len(), |x: int| (kept@[x].0@, kept@[x].1)) =~= kept_view.push(
                    (dedup_key(*message), now),
                ));
            }
        }
        self.messages = kept;
        found
    }

    /// Whether the message is a duplicate now, by the wall clock (see
    /// `is_duplicate_at`).
    pub fn is_duplicate(&mut self, message: &NotificationMessage) -> (r: bool)
        ensures
            final(self).window() == old(self).window(),
            exists|now: u64| {
                let kept = #[trigger] recent_keys(old(self).entries(), now, old(self).window());
                &&& r == has_key(kept, dedup_key(*message))
                &&& final(self).entries() == if r { kept } else { kept.push((dedup_key(*message), now)) }
            },
    {
        let now = unix_time_millis();
        let r = self.is_duplicate_at(message, now);
        proof {
            let kept = recent_keys(old(self).entries(), now, old(self).window());
            assert(r == has_key(kept, dedup_key(*message)));
        }
        r
    }
}

/// What happens to a queued message at delivery time.
#[derive(Debug, Clone, Copy, PartialEq, Eq, Structural)]
pub enum Admission {
    /// The rate limit is reached: the message goes back to the queue and the batch
    /// stops.
    RateLimited,
    /// The message was seen within the deduplication window: it is dropped.
    Duplicate,
    /// The message goes to its channel's handler.
    Deliver,
}

/// The position of a channel in the order of `NotificationChannel`.
pub open spec fn channel_index(c: NotificationChannel) -> int {
    match c {
        NotificationChannel::Email => 0,
        NotificationChannel::Slack => 1,
        NotificationChannel::Discord => 2,
        NotificationChannel::Webhook => 3,
        NotificationChannel::SMS => 4,
        NotificationChannel::Push => 5,
        NotificationChannel::Log => 6,
        NotificationChannel::Console => 7,
    }
}

/// The position of a priority in the order of `NotificationPriority`.
pub open spec fn priority_index(p: NotificationPriority) -> int {
    match p {
        NotificationPriority::Low => 0,
        NotificationPriority::Normal => 1,
        NotificationPriority::High => 2,
        NotificationPriority::Critical => 3,
    }
}

/// The position of a kind in the order of `NotificationType`.
pub open spec fn type_index(t: NotificationType) -> int {
    match t {
        NotificationType::HealthCheck => 0,
        NotificationType::PerformanceAlert => 1,
        NotificationType::ErrorAlert => 2,
        NotificationType::StatusChange => 3,
        NotificationType::Maintenance => 4,
        NotificationType::SecurityAlert => 5,
        NotificationType::Custom => 6,
    }
}

fn channel_slot(c: NotificationChannel) -> (r: usize)
    ensures
        r == channel_index(c),
{
    match c {
        NotificationChannel::Email => 0,
        NotificationChannel::Slack => 1,
        NotificationChannel::Discord => 2,
        NotificationChannel::Webhook => 3,
        NotificationChannel::SMS => 4,
        NotificationChannel::Push => 5,
        NotificationChannel::Log => 6,
        NotificationChannel::Console => 7,
    }
}

fn priority_slot(p: NotificationPriority) -> (r: usize)
    ensures
        r == priority_index(p),
{
    match p {
        NotificationPriority::Low => 0,
        NotificationPriority::Normal => 1,
        NotificationPriority::High => 2,
        NotificationPriority::Critical => 3,
    }
}

fn type_slot(t: NotificationType) -> (r: usize)
    ensures
        r == type_index(t),
{
    match t {
        NotificationType::HealthCheck => 0,
        NotificationType::PerformanceAlert => 1,
        NotificationType::ErrorAlert => 2,
        NotificationType::StatusChange => 3,
        NotificationType::Maintenance => 4,
        NotificationType::SecurityAlert => 5,
        NotificationType::Custom => 6,
    }
}

fn zeros(n: usize) -> (r: Vec<u64>)
    ensures
        r@ == Seq::new(n as nat, |i: int| 0u64),
{
    let mut v: Vec<u64> = Vec::new();
    let mut i: usize = 0;
    while i < n
        invariant
            i <= n,
            v@ == Seq::new(i as nat, |j: int| 0u64),
        decreases n - i,
    {
        v.push(0);
        i = i + 1;
        proof {
            assert(v@ =~= Seq::new(i as nat, |j: int| 0u64));
        }
    }
    v
}

fn bumped_at(v: &Vec<u64>, i: usize) -> (r: Vec<u64>)
    requires
        i < v@.len(),
    ensures
        r@ == v@.update(i as int, bump(v@[i as int])),
{
    let mut out: Vec<u64> = Vec::new();
    let mut k: usize = 0;
    while k < v.len()
        invariant
            k <= v@.len(),
            i < v@.len(),
            out@ == v@.update(i as int, bump(v@[i as int])).take(k as int),
        decreases v@.len() - k,
    {
        let x = if k == i { v[k].wrapping_add(1) } else { v[k] };
        out.push(x);
        k = k + 1;
        proof {
            assert(out@ =~= v@.update(i as int, bump(v@[i as int])).take(k as int));
        }
    }
    proof {
        assert(out@ =~= v@.update(i as int, bump(v@[i as int])));
    }
    out
}

/// The delivery counts: deliveries made and failed, in all and per channel, deliveries
/// made per priority and per kind, and those of the last day. (The success rates are
/// their ratios.)
#[derive(Debug)]
pub struct NotificationCounts {
    total_sent: u64,
    total_failed: u64,
    channel_sent: Vec<u64>,
    channel_failed: Vec<u64>,
    priority_sent: Vec<u64>,
    type_sent: Vec<u64>,
    last_24h_sent: u64,
    last_24h_failed: u64,
}

impl NotificationCounts {
    #[verifier::type_invariant]
    spec fn shaped(self) -> bool {
        &&& self.channel_sent@.len() == 8
        &&& self.channel_failed@.len() == 8
        &&& self.priority_sent@.len() == 4
        &&& self.type_sent@.len() == 7
    }

    /// Deliveries made.
    pub closed spec fn sent(&self) -> u64 {
        self.total_sent
    }

    /// Deliveries failed.
    pub closed spec fn failed(&self) -> u64 {
        self.total_failed
    }

    /// Deliveries made per channel, by `channel_index`.
    pub closed spec fn sent_by_channel(&self) -> Seq<u64> {
        self.channel_sent@
    }

    /// Deliveries failed per channel, by `channel_index`.
    pub closed spec fn failed_by_channel(&self) -> Seq<u64> {
        self.channel_failed@
    }

    /// Deliveries made per priority, by `priority_index`.
    pub closed spec fn sent_by_priority(&self) -> Seq<u64> {
        self.priority_sent@
    }

    /// Deliveries made per kind, by `type_index`.
    pub closed spec fn sent_by_type(&self) -> Seq<u64> {
        self.type_sent@
    }

    /// Deliveries made and failed in the last day.
    pub closed spec fn last_day(&self) -> (u64, u64) {
        (self.last_24h_sent, self.last_24h_failed)
    }

    /// No delivery yet.
    pub fn new() -> (r: Self)
        ensures
            r.sent() == 0,
            r.failed() == 0,
            r.sent_by_channel() == Seq::new(8, |i: int| 0u64),
            r.failed_by_channel() == Seq::new(8, |i: int| 0u64),
            r.sent_by_priority() == Seq::new(4, |i: int| 0u64),
            r.sent_by_type() == Seq::new(7, |i: int| 0u64),
            r.last_day() == (0u64, 0u64),
    {
        NotificationCounts {
            total_sent: 0,
            total_failed: 0,
            channel_sent: zeros(8),
            channel_failed: zeros(8),
            priority_sent: zeros(4),
            type_sent: zeros(7),
            last_24h_sent: 0,
            last_24h_failed: 0,
        }
    }

    /// Counts a delivery of `message` made: in all, for its channel, its priority, its
    /// kind, and in the last day.
    pub fn record_sent(&mut self, message: &NotificationMessage)
        ensures
            final(self).sent() == bump(old(self).sent()),
            final(self).failed() == old(self).failed(),
            final(self).sent_by_channel() == old(self).sent_by_channel().update(channel_index(message.channel),
                bump(old(self).sent_by_channel()[channel_index(message.channel)])),
            final(self).failed_by_channel() == old(self).failed_by_channel(),
            final(self).sent_by_priority() == old(self).sent_by_priority().update(priority_index(message.priority),
                bump(old(self).sent_by_priority()[priority_index(message.priority)])),
            final(self).sent_by_type() == old(self).sent_by_type().update(type_index(message.notification_type),
                bump(old(self).sent_by_type()[type_index(message.notification_type)])),
            final(self).last_day() == (bump(old(self).last_day().0), old(self).last_day().1),
    {
        proof {
            use_type_invariant(&*self);
        }
        self.total_sent = self.total_sent.wrapping_add(1);
        self.last_24h_sent = self.last_24h_sent.wrapping_add(1);
        self.channel_sent = bumped_at(&self.channel_sent, channel_slot(message.channel));
        self.priority_sent = bumped_at(&self.priority_sent, priority_slot(message.priority));
        self.type_sent = bumped_at(&self.type_sent, type_slot(message.notification_type));
    }

    /// Counts a failed delivery of `message`: in all, for its channel, and in the last
    /// day.
    pub fn record_failed(&mut self, message: &NotificationMessage)
        ensures
            final(self).sent() == old(self).sent(),
            final(self).failed() == bump(old(self).failed()),
            final(self).sent_by_channel() == old(self).sent_by_channel(),
            final(self).failed_by_channel() == old(self).failed_by_channel().update(channel_index(message.channel),
                bump(old(self).failed_by_channel()[channel_index(message.channel)])),
            final(self).sent_by_priority() == old(self).sent_by_priority(),
            final(self).sent_by_type() == old(self).sent_by_type(),
            final(self).last_day() == (old(self).last_day().0, bump(old(self).last_day().1)),
    {
        proof {
            use_type_invariant(&*self);
        }
        self.total_failed = self.total_failed.wrapping_add(1);
        self.last_24h_failed = self.last_24h_failed.wrapping_add(1);
        self.channel_failed = bumped_at(&self.channel_failed, channel_slot(message.channel));
    }

    /// Deliveries made and failed.
    pub fn totals(&self) -> (r: (u64, u64))
        ensures
            r == (self.sent(), self.failed()),
    {
        (self.total_sent, self.total_failed)
    }

    /// Deliveries made and failed on `channel`.
    pub fn channel_counts(&self, channel: NotificationChannel) -> (r: (u64, u64))
        ensures
            r == (self.sent_by_channel()[channel_index(channel)], self.failed_by_channel()[channel_index(channel)]),
    {
        proof {
            use_type_invariant(self);
        }
        let i = channel_slot(channel);
        (self.channel_sent[i], self.channel_failed[i])
    }

    /// Deliveries made at `priority`.
    pub fn priority_count(&self, priority: NotificationPriority) -> (r: u64)
        ensures
            r == self.sent_by_priority()[priority_index(priority)],
    {
        proof {
            use_type_invariant(self);
        }
        self.priority_sent[priority_slot(priority)]
    }

    /// Deliveries made of kind `notification_type`.
    pub fn type_count(&self, notification_type: NotificationType) -> (r: u64)
        ensures
            r == self.sent_by_type()[type_index(notification_type)],
    {
        proof {
            use_type_invariant(self);
        }
        self.type_sent[type_slot(notification_type)]
    }

    /// Deliveries made and failed in the last day.
    pub fn last_24h(&self) -> (r: (u64, u64))
        ensures
            r == self.last_day(),
    {
        (self.last_24h_sent, self.last_24h_failed)
    }
}

/// Whether the handler registered last for `c` (if any) is enabled.
pub open spec fn handler_state(hs: Seq<(NotificationChannel, bool)>, c: NotificationChannel) -> Option<bool>
    decreases hs.len(),
{
    if hs.len() == 0 {
        None
    } else if hs.last().0 == c {
        Some(hs.last().1)
    } else {
        handler_state(hs.drop_last(), c)
    }
}

/// What the delivery loop does with a message taken from the queue.
#[derive(Debug)]
pub enum DeliveryStep {
    /// The rate limit is reached: the message is back in the queue; the batch stops.
    Stop,
    /// The message is dropped: a duplicate, or no enabled handler serves its channel.
    Skip,
    /// The message is to be delivered on its channel (then `record_delivery`).
    Send(NotificationMessage),
}

/// The deduplicator's entries after the key `key` is checked at `now`: the keys still in
/// the window, and `key` with time `now` when it was not among them.
pub open spec fn dedup_after(d: Deduplicator, key: Seq<char>, now: u64) -> Seq<(Seq<char>, u64)> {
    let kept = recent_keys(d.entries(), now, d.window());
    if has_key(kept, key) { kept } else { kept.push((key, now)) }
}

/// The limiter's send times after a send is asked for at `now`: those still in the
/// window, and `now` when fewer than the limit were.
pub open spec fn limiter_after(l: RateLimiter, now: u64) -> Seq<u64> {
    let kept = recent(l.requests(), now, l.window());
    if kept.len() < l.limit() { kept.push(now) } else { kept }
}

/// The refusal of a duplicate.
pub open spec fn duplicate_message() -> Seq<char> {
    "중복된 알림입니다"@
}

/// The refusal over the rate limit.
pub open spec fn rate_limited_message() -> Seq<char> {
    "속도 제한에 걸렸습니다"@
}

/// Accepts notifications into a queue, after duplicate suppression and rate limiting,
/// and hands them out in batches for delivery.
pub struct NotificationSystem {
    config: NotificationConfig,
    message_queue: Vec<NotificationMessage>,
    rate_limiter: RateLimiter,
    deduplicator: Deduplicator,
    channel_handlers: Vec<(NotificationChannel, bool)>,
    stats: NotificationCounts,
}

impl NotificationSystem {
    /// The queued messages, oldest first.
    pub closed spec fn queue(&self) -> Seq<NotificationMessage> {
        self.message_queue@
    }

    /// Whether duplicates are suppressed.
    pub closed spec fn dedup_enabled(&self) -> bool {
        self.config.enable_deduplication
    }

    /// The number of delivery attempts allowed per message.
    pub closed spec fn retries(&self) -> u32 {
        self.config.retry_attempts
    }

    /// The largest batch handed out.
    pub closed spec fn batch_size(&self) -> usize {
        self.config.batch_size
    }

    /// The rate limiter.
    pub closed spec fn limiter(&self) -> RateLimiter {
        self.rate_limiter
    }

    /// The deduplicator.
    pub closed spec fn dedup(&self) -> Deduplicator {
        self.deduplicator
    }

    /// The handlers registered, oldest first: a channel and whether the handler
    /// delivers.
    pub closed spec fn handlers(&self) -> Seq<(NotificationChannel, bool)> {
        self.channel_handlers@
    }

    /// The delivery counts.
    pub closed spec fn counts(&self) -> NotificationCounts {
        self.stats
    }

    /// A system with an empty queue: at most `rate_limit_per_minute` notifications per
    /// minute, duplicates suppressed within `deduplication_window_ms`.
    pub fn new(config: NotificationConfig) -> (r: Self)
        ensures
            r.queue().len() == 0,
            r.dedup_enabled() == config.enable_deduplication,
            r.retries() == config.retry_attempts,
            r.batch_size() == config.batch_size,
            r.limiter().requests().len() == 0,
            r.limiter().limit() == config.rate_limit_per_minute,
            r.limiter().window() == 60000,
            r.dedup().entries().len() == 0,
            r.dedup().window() == config.deduplication_window_ms,
            r.handlers() == seq![(NotificationChannel::Console, true), (NotificationChannel::Log, true)],
            r.counts().sent() == 0 && r.counts().failed() == 0,
            r.counts().sent_by_channel() == Seq::new(8, |i: int| 0u64),
            r.counts().failed_by_channel() == Seq::new(8, |i: int| 0u64),
            r.counts().sent_by_priority() == Seq::new(4, |i: int| 0u64),
            r.counts().sent_by_type() == Seq::new(7, |i: int| 0u64),
            r.counts().last_day() == (0u64, 0u64),
    {
        let rate_limiter = RateLimiter::new(config.rate_limit_per_minute, 60000);
        let deduplicator = Deduplicator::new(config.deduplication_window_ms);
        let mut channel_handlers: Vec<(NotificationChannel, bool)> = Vec::new();
        channel_handlers.push((NotificationChannel::Console, true));
        channel_handlers.push((NotificationChannel::Log, true));
        proof {
            assert(channel_handlers@ =~= seq![(NotificationChannel::Console, true), (NotificationChannel::Log, true)]);
        }
        NotificationSystem {
            config,
            message_queue: Vec::new(),
            rate_limiter,
            deduplicator,
            channel_handlers,
            stats: NotificationCounts::new(),
        }
    }

    /// Accepts `message` at time `now`: a duplicate (when suppression is on) is refused,
    /// then a message over the rate limit is refused; otherwise it joins the queue and
    /// its id is returned.
    pub fn submit_at(&mut self, message: NotificationMessage, now: u64) -> (r: Result<String, String>)
        ensures
            final(self).limiter().limit() == old(self).limiter().limit(),
            final(self).limiter().window() == old(self).limiter().window(),
            final(self).dedup().window() == old(self).dedup().window(),
            final(self).dedup().entries() == if old(self).dedup_enabled() {
                dedup_after(old(self).dedup(), dedup_key(message), now)
            } else {
                old(self).dedup().entries()
            },
            final(self).limiter().requests() == if old(self).dedup_enabled() && has_key(
                recent_keys(old(self).dedup().entries(), now, old(self).dedup().window()),
                dedup_key(message),
            ) {
                old(self).limiter().requests()
            } else {
                limiter_after(old(self).limiter(), now)
            },
            final(self).handlers() == old(self).handlers(),
            final(self).counts() == old(self).counts(),
            final(self).dedup_enabled() == old(self).dedup_enabled(),
            final(self).retries() == old(self).retries(),
            final(self).batch_size() == old(self).batch_size(),
            ({
                let dup = old(self).dedup_enabled() && has_key(
                    recent_keys(old(self).dedup().entries(), now, old(self).dedup().window()),
                    dedup_key(message),
                );
                let kept = recent(old(self).limiter().requests(), now, old(self).limiter().window());
                if dup {
                    &&& r matches Err(e) && e@ == duplicate_message()
                    &&& final(self).queue() == old(self).queue()
                    &&& final(self).limiter() == old(self).limiter()
                } else if kept.len() >= old(self).limiter().limit() {
                    &&& r matches Err(e) && e@ == rate_limited_message()
                    &&& final(self).queue() == old(self).queue()
                } else {
                    &&& r == Ok::<String, String>(message.id)
                    &&& final(self).queue() == old(self).queue().push(message)
                }
            }),
    {
        if self.config.enable_deduplication {
            if self.deduplicator.is_duplicate_at(&message, now) {
                proof {
                    reveal_strlit("중복된 알림입니다");
                }
                return Err(String::from_str("중복된 알림입니다"));
            }
        }
        if !self.rate_limiter.can_send_at(now) {
            proof {
                reveal_strlit("속도 제한에 걸렸습니다");
            }
            return Err(String::from_str("속도 제한에 걸렸습니다"));
        }
        let id = message.id.clone();
        self.message_queue.push(message);
        Ok(id)
    }

    /// Creates a notification with a fresh id and the current time, no retry made yet
    /// and the configured number of retries, and submits it (see `submit_at`).
    pub fn send_notification(
        &mut self,
        title: String,
        content: String,
        channel: NotificationChannel,
        priority: NotificationPriority,
        notification_type: NotificationType,
    ) -> (r: Result<String, String>)
        ensures
            final(self).handlers() == old(self).handlers(),
            final(self).counts() == old(self).counts(),
            final(self).dedup_enabled() == old(self).dedup_enabled(),
            final(self).retries() == old(self).retries(),
            final(self).batch_size() == old(self).batch_size(),
            r is Ok ==> final(self).queue().len() == old(self).queue().len() + 1 && final(self).queue().drop_last()
                == old(self).queue() && {
                let m = final(self).queue().last();
                &&& r == Ok::<String, String>(m.id)
                &&& m.title == title
                &&& m.content == content
                &&& m.channel == channel
                &&& m.priority == priority
                &&& m.notification_type == notification_type
                &&& m.retry_count == 0
                &&& m.max_retries == old(self).retries()
            },
            r is Err ==> final(self).queue() == old(self).queue(),
            exists|now: u64| {
                let dup = old(self).dedup_enabled() && has_key(
                    recent_keys(old(self).dedup().entries(), now, old(self).dedup().window()),
                    title@ + ":"@ + content@ + ":"@ + channel_name(channel),
                );
                let kept = #[trigger] recent(old(self).limiter().requests(), now, old(self).limiter().window());
                &&& dup ==> (r matches Err(e) && e@ == duplicate_message())
                &&& !dup && kept.len() >= old(self).limiter().limit() ==> (r matches Err(e) && e@
                    == rate_limited_message())
                &&& !dup && kept.len() < old(self).limiter().limit() ==> r is Ok && final(self).queue().last().timestamp
                    == now
                &&& final(self).dedup().entries() == if old(self).dedup_enabled() {
                    dedup_after(old(self).dedup(), title@ + ":"@ + content@ + ":"@ + channel_name(channel), now)
                } else {
                    old(self).dedup().entries()
                }
                &&& final(self).limiter().requests() == if dup {
                    old(self).limiter().requests()
                } else {
                    limiter_after(old(self).limiter(), now)
                }
            },
            final(self).limiter().limit() == old(self).limiter().limit(),
            final(self).limiter().window() == old(self).limiter().window(),
            final(self).dedup().window() == old(self).dedup().window(),
    {
        let now = unix_time_millis();
        let message = NotificationMessage {
            id: new_uuid_string(),
            title,
            content,
            channel,
            priority,
            notification_type,
            timestamp: now,
            retry_count: 0,
            max_retries: self.config.retry_attempts,
            metadata: std::collections::HashMap::new(),
        };
        let ghost key = dedup_key(message);
        proof {
            assert(key == title@ + ":"@ + content@ + ":"@ + channel_name(channel));
        }
        let r = self.submit_at(message, now);
        proof {
            let kept = recent(old(self).limiter().requests(), now, old(self).limiter().window());
            assert(recent(old(self).limiter().requests(), now, old(self).limiter().window()) == kept);
        }
        r
    }

    /// Hands out up to the batch size of queued messages, newest first.
    pub fn take_batch(&mut self) -> (r: Vec<NotificationMessage>)
        ensures
            final(self).handlers() == old(self).handlers(),
            final(self).counts() == old(self).counts(),
            ({
                let q = old(self).queue();
                let n = if q.len() < old(self).batch_size() { q.len() as int } else { old(self).batch_size() as int };
                &&& final(self).queue() == q.take(q.len() - n)
                &&& r@ == q.skip(q.len() - n).reverse()
            }),
            final(self).dedup_enabled() == old(self).dedup_enabled(),
            final(self).retries() == old(self).retries(),
            final(self).batch_size() == old(self).batch_size(),
            final(self).limiter() == old(self).limiter(),
            final(self).dedup() == old(self).dedup(),
    {
        let ghost q = self.message_queue@;
        let mut batch: Vec<NotificationMessage> = Vec::new();
        let mut i: usize = 0;
        while i < self.config.batch_size
            invariant_except_break
                i <= self.config.batch_size,
                i <= q.len(),
                self.message_queue@ == q.take(q.len() - i),
                batch@ == q.skip(q.len() - i).reverse(),
                self.config == old(self).config,
                self.rate_limiter == old(self).rate_limiter,
                self.deduplicator == old(self).deduplicator,
                self.channel_handlers == old(self).channel_handlers,
                self.stats == old(self).stats,
                q == old(self).message_queue@,
            ensures
                ({
                    let n = if q.len() < self.config.batch_size { q.len() as int } else { self.config.batch_size as int };
                    &&& self.message_queue@ == q.take(q.len() - n)
                    &&& batch@ == q.skip(q.len() - n).reverse()
                }),
                self.config == old(self).config,
                self.rate_limiter == old(self).rate_limiter,
                self.deduplicator == old(self).deduplicator,
                self.channel_handlers == old(self).channel_handlers,
                self.stats == old(self).stats,
            decreases self.config.batch_size - i,
        {
            match self.message_queue.pop() {
                Some(m) => {
                    proof {
                        assert(q.skip(q.len() - (i + 1)).reverse() =~= q.skip(q.len() - i).reverse().push(m));
                        assert(q.take(q.len() - (i + 1)) =~= q.take(q.len() - i).drop_last());
                    }
                    batch.push(m);
                },
                None => {
                    break;
                },
            }
            i = i + 1;
        }
        batch
    }

    /// Puts a message back at the end of the queue.
    pub fn requeue(&mut self, message: NotificationMessage)
        ensures
            final(self).handlers() == old(self).handlers(),
            final(self).counts() == old(self).counts(),
            final(self).queue() == old(self).queue().push(message),
            final(self).dedup_enabled() == old(self).dedup_enabled(),
            final(self).retries() == old(self).retries(),
            final(self).batch_size() == old(self).batch_size(),
            final(self).limiter() == old(self).limiter(),
            final(self).dedup() == old(self).dedup(),
    {
        self.message_queue.push(message);
    }

    /// Decides at time `now` what happens to a message taken from the queue: the rate
    /// limit is checked first, then (when suppression is on) duplicates.
    pub fn admit_at(&mut self, message: &NotificationMessage, now: u64) -> (r: Admission)
        ensures
            final(self).limiter().limit() == old(self).limiter().limit(),
            final(self).limiter().window() == old(self).limiter().window(),
            final(self).limiter().requests() == limiter_after(old(self).limiter(), now),
            final(self).dedup().window() == old(self).dedup().window(),
            final(self).dedup().entries() == if recent(old(self).limiter().requests(), now, old(self).limiter().window()).len()
                < old(self).limiter().limit() && old(self).dedup_enabled() {
                dedup_after(old(self).dedup(), dedup_key(*message), now)
            } else {
                old(self).dedup().entries()
            },
            final(self).retries() == old(self).retries(),
            final(self).batch_size() == old(self).batch_size(),
            final(self).handlers() == old(self).handlers(),
            final(self).counts() == old(self).counts(),
            final(self).queue() == old(self).queue(),
            final(self).dedup_enabled() == old(self).dedup_enabled(),
            ({
                let kept = recent(old(self).limiter().requests(), now, old(self).limiter().window());
                if kept.len() >= old(self).limiter().limit() {
                    r == Admission::RateLimited
                } else if old(self).dedup_enabled() && has_key(
                    recent_keys(old(self).dedup().entries(), now, old(self).dedup().window()),
                    dedup_key(*message),
                ) {
                    r == Admission::Duplicate
                } else {
                    r == Admission::Deliver
                }
            }),
    {
        if !self.rate_limiter.can_send_at(now) {
            return Admission::RateLimited;
        }
        if self.config.enable_deduplication {
            if self.deduplicator.is_duplicate_at(message, now) {
                return Admission::Duplicate;
            }
        }
        Admission::Deliver
    }

    /// Registers `handler` for its channel; a later registration for a channel takes
    /// the place of an earlier one.
    pub fn register_handler<H: NotificationChannelHandler>(&mut self, handler: &H)
        ensures
            final(self).handlers() == old(self).handlers().push((handler.channel(), handler.enabled())),
            final(self).queue() == old(self).queue(),
            final(self).counts() == old(self).counts(),
            final(self).dedup_enabled() == old(self).dedup_enabled(),
            final(self).retries() == old(self).retries(),
            final(self).batch_size() == old(self).batch_size(),
            final(self).limiter() == old(self).limiter(),
            final(self).dedup() == old(self).dedup(),
    {
        let channel = handler.get_channel();
        let enabled = handler.is_enabled();
        self.channel_handlers.push((channel, enabled));
    }

    /// Whether an enabled handler serves `channel`.
    pub fn can_deliver(&self, channel: NotificationChannel) -> (r: bool)
        ensures
            r == (handler_state(self.handlers(), channel) == Some(true)),
    {
        let mut i: usize = self.channel_handlers.len();
        proof {
            assert(self.channel_handlers@.take(i as int) =~= self.channel_handlers@);
        }
        while i > 0
            invariant
                i <= self.channel_handlers@.len(),
                handler_state(self.channel_handlers@, channel) == handler_state(self.channel_handlers@.take(i as int),
                    channel),
            decreases i,
        {
            proof {
                let t = self.channel_handlers@.take(i as int);
                assert(t.drop_last() =~= self.channel_handlers@.take(i - 1));
                assert(t.last() == self.channel_handlers@[i - 1]);
            }
            if self.channel_handlers[i - 1].0 == channel {
                return self.channel_handlers[i - 1].1;
            }
            i = i - 1;
        }
        false
    }

    /// The delivery step of a message taken from the queue at `now` (see `admit_at`):
    /// over the rate limit it goes back to the queue and the batch stops; a duplicate
    /// is dropped; otherwise it is handed back for delivery when an enabled handler
    /// serves its channel, and dropped when none does.
    pub fn process_message(&mut self, message: NotificationMessage, now: u64) -> (r: DeliveryStep)
        ensures
            final(self).limiter().limit() == old(self).limiter().limit(),
            final(self).limiter().window() == old(self).limiter().window(),
            final(self).limiter().requests() == limiter_after(old(self).limiter(), now),
            final(self).dedup().window() == old(self).dedup().window(),
            final(self).dedup().entries() == if recent(old(self).limiter().requests(), now, old(self).limiter().window()).len()
                < old(self).limiter().limit() && old(self).dedup_enabled() {
                dedup_after(old(self).dedup(), dedup_key(message), now)
            } else {
                old(self).dedup().entries()
            },
            final(self).handlers() == old(self).handlers(),
            final(self).counts() == old(self).counts(),
            final(self).dedup_enabled() == old(self).dedup_enabled(),
            final(self).retries() == old(self).retries(),
            final(self).batch_size() == old(self).batch_size(),
            ({
                let kept = recent(old(self).limiter().requests(), now, old(self).limiter().window());
                if kept.len() >= old(self).limiter().limit() {
                    &&& r is Stop
                    &&& final(self).queue() == old(self).queue().push(message)
                } else {
                    &&& final(self).queue() == old(self).queue()
                    &&& if old(self).dedup_enabled() && has_key(
                        recent_keys(old(self).dedup().entries(), now, old(self).dedup().window()),
                        dedup_key(message),
                    ) {
                        r is Skip
                    } else if handler_state(old(self).handlers(), message.channel) == Some(true) {
                        r == DeliveryStep::Send(message)
                    } else {
                        r is Skip
                    }
                }
            }),
    {
        match self.admit_at(&message, now) {
            Admission::RateLimited => {
                self.requeue(message);
                DeliveryStep::Stop
            },
            Admission::Duplicate => DeliveryStep::Skip,
            Admission::Deliver => {
                if self.can_deliver(message.channel) {
                    DeliveryStep::Send(message)
                } else {
                    DeliveryStep::Skip
                }
            },
        }
    }

    /// Takes the outcome of delivering `message`: a delivery made is counted; a failed
    /// one is counted and, while retries are left, the message goes back to the queue
    /// with one more retry counted.
    pub fn record_delivery(&mut self, message: NotificationMessage, delivered: bool)
        ensures
            final(self).handlers() == old(self).handlers(),
            final(self).dedup_enabled() == old(self).dedup_enabled(),
            final(self).retries() == old(self).retries(),
            final(self).batch_size() == old(self).batch_size(),
            final(self).limiter() == old(self).limiter(),
            final(self).dedup() == old(self).dedup(),
            delivered ==> final(self).queue() == old(self).queue(),
            !delivered && message.retry_count < message.max_retries ==> final(self).queue() == old(self).queue().push(
                NotificationMessage { retry_count: (message.retry_count + 1) as u32, ..message },
            ),
            !delivered && message.retry_count >= message.max_retries ==> final(self).queue() == old(self).queue(),
            delivered ==> {
                &&& final(self).counts().sent() == bump(old(self).counts().sent())
                &&& final(self).counts().failed() == old(self).counts().failed()
                &&& final(self).counts().sent_by_channel() == old(self).counts().sent_by_channel().update(
                    channel_index(message.channel),
                    bump(old(self).counts().sent_by_channel()[channel_index(message.channel)]),
                )
                &&& final(self).counts().failed_by_channel() == old(self).counts().failed_by_channel()
                &&& final(self).counts().sent_by_priority() == old(self).counts().sent_by_priority().update(
                    priority_index(message.priority),
                    bump(old(self).counts().sent_by_priority()[priority_index(message.priority)]),
                )
                &&& final(self).counts().sent_by_type() == old(self).counts().sent_by_type().update(
                    type_index(message.notification_type),
                    bump(old(self).counts().sent_by_type()[type_index(message.notification_type)]),
                )
                &&& final(self).counts().last_day() == (bump(old(self).counts().last_day().0),
                    old(self).counts().last_day().1)
            },
            !delivered ==> {
                &&& final(self).counts().sent() == old(self).counts().sent()
                &&& final(self).counts().failed() == bump(old(self).counts().failed())
                &&& final(self).counts().sent_by_channel() == old(self).counts().sent_by_channel()
                &&& final(self).counts().failed_by_channel() == old(self).counts().failed_by_channel().update(
                    channel_index(message.channel),
                    bump(old(self).counts().failed_by_channel()[channel_index(message.channel)]),
                )
                &&& final(self).counts().sent_by_priority() == old(self).counts().sent_by_priority()
                &&& final(self).counts().sent_by_type() == old(self).counts().sent_by_type()
                &&& final(self).counts().last_day() == (old(self).counts().last_day().0,
                    bump(old(self).counts().last_day().1))
            },
    {
        if delivered {
            self.stats.record_sent(&message);
        } else {
            self.stats.record_failed(&message);
            if message.retry_count < message.max_retries {
                let mut retry = message;
                retry.retry_count = retry.retry_count + 1;
                self.message_queue.push(retry);
            }
        }
    }

    /// The delivery counts.
    pub fn get_stats(&self) -> (r: &NotificationCounts)
        ensures
            *r == self.counts(),
    {
        &self.stats
    }

    /// The number of queued messages.
    pub fn queue_size(&self) -> (r: usize)
        ensures
            r == self.queue().len(),
    {
        self.message_queue.len()
    }
}

/// What `recent` keeps lies inside the window.
pub proof fn lemma_recent_fresh(times: Seq<u64>, now: u64, window: u64)
    ensures
        forall|i: int| 0 <= i < recent(times, now, window).len() ==> age(now, #[trigger] recent(times, now, window)[i]) < window,
    decreases times.len(),
{
    if times.len() > 0 {
        lemma_recent_fresh(times.drop_last(), now, window);
        let rest = recent(times.drop_last(), now, window);
        let r = recent(times, now, window);
        assert forall|i: int| 0 <= i < r.len() implies age(now, #[trigger] r[i]) < window by {
            if i < rest.len() {
                assert(r[i] == rest[i]);
            }
        }
    }
}

/// The rate limit holds: when at most `limit` sends are recorded, a request at `now`
/// leaves at most `limit` recorded, and all of them inside the window (for a window of
/// at least one millisecond).
pub proof fn law_rate_limit_holds(times: Seq<u64>, now: u64, window: u64, limit: u32)
    requires
        times.len() <= limit,
    ensures
        ({
            let kept = recent(times, now, window);
            let after = if kept.len() < limit { kept.push(now) } else { kept };
            &&& after.len() <= limit
            &&& window > 0 ==> forall|i: int| 0 <= i < after.len() ==> age(now, #[trigger] after[i]) < window
        }),
{
    lemma_recent_len(times, now, window);
    lemma_recent_fresh(times, now, window);
    let kept = recent(times, now, window);
    if kept.len() < limit {
        let after = kept.push(now);
        assert forall|i: int| 0 <= i < after.len() && window > 0 implies age(now, #[trigger] after[i]) < window by {
            if i < kept.len() {
                assert(after[i] == kept[i]);
            } else {
                assert(after[i] == now);
                assert(age(now, now) == 0);
            }
        }
    }
}

/// Sends recorded less than a window ago all count against the limit: when every
/// recorded send is inside the window at `now`, none is dropped, and a request at `now`
/// is refused once `limit` of them are recorded.
pub proof fn law_sends_in_window_count(times: Seq<u64>, now: u64, window: u64, limit: u32)
    requires
        forall|i: int| 0 <= i < times.len() ==> age(now, #[trigger] times[i]) < window,
        times.len() >= limit,
    ensures
        recent(times, now, window) == times,
        !(recent(times, now, window).len() < limit),
{
    lemma_recent_all_kept(times, now, window);
}

proof fn lemma_recent_all_kept(times: Seq<u64>, now: u64, window: u64)
    requires
        forall|i: int| 0 <= i < times.len() ==> age(now, #[trigger] times[i]) < window,
    ensures
        recent(times, now, window) == times,
    decreases times.len(),
{
    if times.len() > 0 {
        let t = times.drop_last();
        assert forall|i: int| 0 <= i < t.len() implies age(now, #[trigger] t[i]) < window by {
            assert(t[i] == times[i]);
        }
        lemma_recent_all_kept(t, now, window);
        assert(age(now, times.last()) < window) by {
            assert(times.last() == times[times.len() - 1]);
        }
        assert(t.push(times.last()) =~= times);
    }
}

} // verus!

