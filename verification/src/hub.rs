//! The hub: connection registry, broadcast engine, liveness supervision, and
//! service metrics.
//!
//! All state lives in one [`WebSocketService`] value; every operation takes
//! the current time as an argument, so the whole hub is a deterministic state
//! machine that the surrounding process drives. The invariant [`wf`] ties the
//! live-connection counter to the records actually present.
//!
//! [`wf`]: WebSocketService::wf

use vstd::prelude::*;

use crate::bridge::{fresh_token, now_millis};
use crate::codec::{encode_envelope, spec_encodable, spec_encode};
use crate::json::{json_text, str_eq, JsonValue};
use crate::protocol::{
    spec_topic_string, ConnectionDetails, ConnectionId, ConnectionStats, ConnectionStatsModel,
    ConnectionSummary, ConnectionSummaryModel, DebugPayload, SubscriptionTopic,
    SubscriptionTopicModel, WsMessage, WsMessageModel,
};

verus! {

/// Counters and wire timestamps stop here: the largest value a 64-bit signed
/// wire integer carries.
pub const COUNTER_CAP: u64 = 0x7fff_ffff_ffff_ffff;

/// What can go wrong inside the hub.
#[derive(Clone, Copy, Debug, PartialEq, Eq, Structural)]
pub enum HubError {
    /// A registration was refused: the live count had reached the maximum.
    CapacityExceeded,
    /// An operation named a connection that is not registered.
    ConnectionNotFound,
    /// A delivery was refused: the target's outbound queue was full.
    QueueFull,
    /// A delivery failed outside the hub's control.
    SendFailed,
    /// An envelope could not be written out.
    SerializationError,
    /// An inbound frame was not a well-formed envelope.
    DeserializationError,
    /// An inbound frame exceeded the configured size limit.
    MessageTooLarge,
}

/// Adds counters, saturating at [`COUNTER_CAP`].
pub fn cap_add(a: u64, b: u64) -> (r: u64)
    ensures
        r == spec_cap_add(a, b),
{
    if a <= COUNTER_CAP && b <= COUNTER_CAP - a {
        a + b
    } else {
        COUNTER_CAP
    }
}

/// What [`cap_add`] returns.
pub open spec fn spec_cap_add(a: u64, b: u64) -> u64 {
    if a + b <= COUNTER_CAP {
        (a + b) as u64
    } else {
        COUNTER_CAP
    }
}

/// Subtracts, stopping at zero.
pub fn sat_sub(a: u64, b: u64) -> (r: u64)
    ensures
        r == spec_sat_sub(a, b),
{
    if a >= b {
        a - b
    } else {
        0
    }
}

/// What [`sat_sub`] returns.
pub open spec fn spec_sat_sub(a: u64, b: u64) -> u64 {
    if a >= b {
        (a - b) as u64
    } else {
        0
    }
}

// ---------------------------------------------------------------------------
// Configuration
// ---------------------------------------------------------------------------

/// How the debug trace behaves.
pub struct DebugConfig {
    pub enabled: bool,
    pub log_messages: bool,
    pub log_connections: bool,
    pub log_performance: bool,
    pub save_to_file: bool,
    pub max_log_size: usize,
}

impl Default for DebugConfig {
    /// Debugging starts off; the ring buffer keeps ten thousand entries.
    fn default() -> (r: Self)
        ensures
            !r.enabled,
            r.log_messages,
            r.log_connections,
            r.log_performance,
            !r.save_to_file,
            r.max_log_size == 10000,
    {
        DebugConfig {
            enabled: false,
            log_messages: true,
            log_connections: true,
            log_performance: true,
            save_to_file: false,
            max_log_size: 10000,
        }
    }
}

/// Everything the hub is told at construction. Times are milliseconds.
pub struct WsConfig {
    pub ping_interval_ms: u64,
    pub connection_timeout_ms: u64,
    pub max_connections: usize,
    pub buffer_size: Option<usize>,
    pub debug: DebugConfig,
    pub collect_metrics: bool,
    pub max_message_size: usize,
    pub queue_capacity: usize,
}

impl Default for WsConfig {
    /// Ping every thirty seconds, evict after five minutes without activity,
    /// a thousand connections, megabyte frames, a hundred queued envelopes.
    fn default() -> (r: Self)
        ensures
            r.ping_interval_ms == 30000,
            r.connection_timeout_ms == 300000,
            r.max_connections == 1000,
            r.buffer_size == Some(65536usize),
            !r.debug.enabled,
            r.debug.log_messages,
            r.debug.log_connections,
            r.debug.log_performance,
            !r.debug.save_to_file,
            r.debug.max_log_size == 10000,
            r.collect_metrics,
            r.max_message_size == 1048576,
            r.queue_capacity == 100,
    {
        WsConfig {
            ping_interval_ms: 30000,
            connection_timeout_ms: 300000,
            max_connections: 1000,
            buffer_size: Some(65536),
            debug: Default::default(),
            collect_metrics: true,
            max_message_size: 1048576,
            queue_capacity: 100,
        }
    }
}

// ---------------------------------------------------------------------------
// Connection records
// ---------------------------------------------------------------------------

/// One live connection as the registry sees it.
pub struct ConnectionInfo {
    pub id: ConnectionId,
    pub connected_at: u64,
    pub last_activity: u64,
    pub subscriptions: Vec<String>,
    pub remote_addr: Option<String>,
    pub user_agent: Option<String>,
    pub messages_sent: u64,
    pub messages_received: u64,
    pub bytes_sent: u64,
    pub bytes_received: u64,
    pub ping_latency_ms: Option<u64>,
}

impl ConnectionInfo {
    /// All four counters stay within [`COUNTER_CAP`].
    pub open spec fn counters_capped(&self) -> bool {
        &&& self.messages_sent <= COUNTER_CAP
        &&& self.messages_received <= COUNTER_CAP
        &&& self.bytes_sent <= COUNTER_CAP
        &&& self.bytes_received <= COUNTER_CAP
        &&& self.connected_at <= COUNTER_CAP
    }

    /// A fresh record: counters at zero, no subscriptions, both timestamps at
    /// the moment of the accept.
    pub fn new_at(id: ConnectionId, remote_addr: Option<String>, now: u64) -> (c: Self)
        ensures
            c == (ConnectionInfo {
                id,
                connected_at: now,
                last_activity: now,
                subscriptions: c.subscriptions,
                remote_addr,
                user_agent: None,
                messages_sent: 0,
                messages_received: 0,
                bytes_sent: 0,
                bytes_received: 0,
                ping_latency_ms: None,
            }),
            c.subscriptions@.len() == 0,
    {
        ConnectionInfo {
            id,
            connected_at: now,
            last_activity: now,
            subscriptions: Vec::new(),
            remote_addr,
            user_agent: None,
            messages_sent: 0,
            messages_received: 0,
            bytes_sent: 0,
            bytes_received: 0,
            ping_latency_ms: None,
        }
    }

    /// A fresh record under a random token, stamped with the clock.
    pub fn new_with_addr(remote_addr: Option<String>) -> (c: Self)
        ensures
            c.subscriptions@.len() == 0,
            c.remote_addr == remote_addr,
            c.user_agent is None,
            c.messages_sent == 0,
            c.messages_received == 0,
            c.bytes_sent == 0,
            c.bytes_received == 0,
            c.ping_latency_ms is None,
            c.last_activity == c.connected_at,
            c.connected_at <= COUNTER_CAP,
    {
        let id = fresh_token();
        let now = now_millis();
        Self::new_at(id, remote_addr, now)
    }

    /// Marks the connection active now.
    pub fn update_activity(&mut self, now: u64)
        ensures
            *final(self) == (ConnectionInfo { last_activity: now, ..*old(self) }),
    {
        self.last_activity = now;
    }

    /// Counts one outbound envelope of `bytes` bytes; this is activity.
    pub fn record_sent(&mut self, bytes: usize, now: u64)
        ensures
            *final(self) == (ConnectionInfo {
                messages_sent: spec_cap_add(old(self).messages_sent, 1),
                bytes_sent: spec_cap_add(old(self).bytes_sent, bytes as u64),
                last_activity: now,
                ..*old(self)
            }),
    {
        self.messages_sent = cap_add(self.messages_sent, 1);
        self.bytes_sent = cap_add(self.bytes_sent, bytes as u64);
        self.update_activity(now);
    }

    /// Counts one inbound frame of `bytes` bytes; this is activity.
    pub fn record_received(&mut self, bytes: usize, now: u64)
        ensures
            *final(self) == (ConnectionInfo {
                messages_received: spec_cap_add(old(self).messages_received, 1),
                bytes_received: spec_cap_add(old(self).bytes_received, bytes as u64),
                last_activity: now,
                ..*old(self)
            }),
    {
        self.messages_received = cap_add(self.messages_received, 1);
        self.bytes_received = cap_add(self.bytes_received, bytes as u64);
        self.update_activity(now);
    }

    /// Whether the connection has been silent for longer than the timeout.
    pub fn is_stale(&self, timeout_ms: u64, now: u64) -> (r: bool)
        ensures
            r == self.spec_is_stale(timeout_ms, now),
    {
        sat_sub(now, self.last_activity) > timeout_ms
    }

    /// What [`Self::is_stale`] decides: strictly more than `timeout_ms`
    /// milliseconds without observed activity.
    pub open spec fn spec_is_stale(&self, timeout_ms: u64, now: u64) -> bool {
        spec_sat_sub(now, self.last_activity) > timeout_ms
    }

    /// What the snapshot line for this record says.
    pub open spec fn spec_summary(&self, now: u64) -> ConnectionSummaryModel {
        ConnectionSummaryModel {
            id: self.id,
            ip: match self.remote_addr {
                Some(a) => a@,
                None => seq!['U', 'n', 'k', 'n', 'o', 'w', 'n'],
            },
            connected_duration: (spec_sat_sub(now, self.connected_at) / 1000) as i64,
            message_count: spec_cap_add(self.messages_sent, self.messages_received),
            bytes_sent: self.bytes_sent,
            bytes_received: self.bytes_received,
        }
    }

    /// The snapshot line: id, address, seconds connected, traffic counters.
    pub fn to_summary(&self, now: u64) -> (r: ConnectionSummary)
        ensures
            r@ == self.spec_summary(now),
    {
        let ip = match &self.remote_addr {
            Some(a) => a.clone(),
            None => {
                let s = String::from_str("Unknown");
                proof {
                    reveal_strlit("Unknown");
                    assert(s@ =~= seq!['U', 'n', 'k', 'n', 'o', 'w', 'n']);
                }
                s
            },
        };
        let duration = sat_sub(now, self.connected_at) / 1000;
        ConnectionSummary {
            id: self.id,
            ip,
            connected_duration: duration as i64,
            message_count: cap_add(self.messages_sent, self.messages_received),
            bytes_sent: self.bytes_sent,
            bytes_received: self.bytes_received,
        }
    }
}

/// A registry slot: the record, its bounded outbound queue of encoded
/// envelope texts, and when the supervisor last pinged it.
pub struct ConnectionEntry {
    pub info: ConnectionInfo,
    pub queue: Vec<String>,
    pub ping_sent_at: Option<u64>,
}

/// The texts sitting in an outbound queue, oldest first.
pub open spec fn queue_texts(q: Seq<String>) -> Seq<Seq<char>> {
    Seq::new(q.len(), |i: int| q[i]@)
}

/// Appends a text only where the queue still has room.
pub open spec fn push_if_room(q: Seq<Seq<char>>, t: Seq<char>, cap: nat) -> Seq<Seq<char>> {
    if q.len() < cap {
        q.push(t)
    } else {
        q
    }
}

/// The topic names this entry subscribed to.
pub open spec fn entry_subs(e: ConnectionEntry) -> Seq<Seq<char>> {
    e.info.subscriptions.deep_view()
}

/// Whether a broadcast on `topic` reaches this entry: the name "all" reaches
/// every connection, any other name only its subscribers.
pub open spec fn entry_eligible(e: ConnectionEntry, topic: Seq<char>) -> bool {
    topic == spec_topic_string(SubscriptionTopicModel::All) || entry_subs(e).contains(topic)
}

/// The one text an envelope puts on the wire.
pub open spec fn msg_text(m: WsMessageModel) -> Seq<char> {
    json_text(spec_encode(m))
}

// ---------------------------------------------------------------------------
// Metrics
// ---------------------------------------------------------------------------

/// Process-lifetime counters. All are monotonic but the latency average,
/// which is an exponential moving average over samples, in milliseconds.
#[derive(Clone, Copy, Debug, PartialEq, Eq, Structural)]
pub struct ServiceMetrics {
    pub total_connections: u64,
    pub total_messages_sent: u64,
    pub total_messages_received: u64,
    pub total_bytes_sent: u64,
    pub total_bytes_received: u64,
    pub avg_ping_latency_ms: u64,
    pub peak_connections: usize,
    pub errors_count: u64,
    pub started_at: u64,
}

impl ServiceMetrics {
    /// All counters at zero, the clock noted.
    pub fn new(now: u64) -> (r: Self)
        ensures
            r == (ServiceMetrics {
                total_connections: 0,
                total_messages_sent: 0,
                total_messages_received: 0,
                total_bytes_sent: 0,
                total_bytes_received: 0,
                avg_ping_latency_ms: 0,
                peak_connections: 0,
                errors_count: 0,
                started_at: now,
            }),
    {
        ServiceMetrics {
            total_connections: 0,
            total_messages_sent: 0,
            total_messages_received: 0,
            total_bytes_sent: 0,
            total_bytes_received: 0,
            avg_ping_latency_ms: 0,
            peak_connections: 0,
            errors_count: 0,
            started_at: now,
        }
    }
}

/// The moving latency average after one more sample: the first sample is
/// taken whole, later ones move the average an eighth of the way over.
pub open spec fn spec_ema(avg: u64, sample: u64) -> u64 {
    if avg == 0 {
        sample
    } else if sample >= avg {
        (avg + (sample - avg) / 8) as u64
    } else {
        (avg - (avg - sample) / 8) as u64
    }
}

/// Folds one latency sample into the average, exactly [`spec_ema`].
pub fn ema_update(avg: u64, sample: u64) -> (r: u64)
    ensures
        r == spec_ema(avg, sample),
{
    if avg == 0 {
        sample
    } else if sample >= avg {
        avg + (sample - avg) / 8
    } else {
        avg - (avg - sample) / 8
    }
}

// ---------------------------------------------------------------------------
// The hub itself
// ---------------------------------------------------------------------------

/// The connection hub: registry, broadcast engine, debug trace and metrics,
/// driven as one state machine by whatever runs the sockets and the clock.
pub struct WebSocketService {
    pub config: WsConfig,
    pub connections: Vec<ConnectionEntry>,
    pub live_count: usize,
    pub debug_enabled: bool,
    pub debug_logs: Vec<DebugPayload>,
    pub metrics: ServiceMetrics,
}

impl WebSocketService {
    /// The registered ids, in registration order.
    pub open spec fn ids(&self) -> Seq<ConnectionId> {
        Seq::new(self.connections@.len(), |i: int| self.connections@[i].info.id)
    }

    /// Whether `id` is registered.
    pub open spec fn has_conn(&self, id: ConnectionId) -> bool {
        exists|i: int| 0 <= i < self.connections@.len() && self.ids()[i] == id
    }

    /// The hub's invariant. Above all: the live counter always equals the
    /// number of records present, and no id appears twice.
    pub open spec fn wf(&self) -> bool {
        &&& self.live_count == self.connections@.len()
        &&& forall|i: int, j: int|
            0 <= i < j < self.connections@.len() ==> self.ids()[i] != self.ids()[j]
        &&& self.connections@.len() <= self.config.max_connections
        &&& self.config.max_connections <= COUNTER_CAP
        &&& forall|i: int|
            0 <= i < self.connections@.len() ==> (#[trigger] self.connections@[i]).queue@.len()
                <= self.config.queue_capacity
        &&& forall|i: int|
            0 <= i < self.connections@.len()
                ==> (#[trigger] self.connections@[i]).info.counters_capped()
        &&& self.debug_logs@.len() <= self.config.debug.max_log_size
    }

    /// A hub with no connections, counters at zero, and the given settings
    /// (or the defaults).
    pub fn new(config: Option<WsConfig>, now: u64) -> (r: Self)
        requires
            match config {
                Some(c) => c.max_connections <= COUNTER_CAP,
                None => true,
            },
        ensures
            r.wf(),
            r.connections@.len() == 0,
            r.live_count == 0,
            r.debug_logs@.len() == 0,
            r.metrics == (ServiceMetrics {
                total_connections: 0,
                total_messages_sent: 0,
                total_messages_received: 0,
                total_bytes_sent: 0,
                total_bytes_received: 0,
                avg_ping_latency_ms: 0,
                peak_connections: 0,
                errors_count: 0,
                started_at: now,
            }),
            match config {
                Some(c) => r.config == c && r.debug_enabled == c.debug.enabled,
                None => r.config.max_connections == 1000 && r.config.queue_capacity == 100
                    && r.config.connection_timeout_ms == 300000 && r.config.ping_interval_ms
                    == 30000 && r.config.max_message_size == 1048576 && !r.debug_enabled,
            },
    {
        let config = match config {
            Some(c) => c,
            None => Default::default(),
        };
        let debug_enabled = config.debug.enabled;
        WebSocketService {
            config,
            connections: Vec::new(),
            live_count: 0,
            debug_enabled,
            debug_logs: Vec::new(),
            metrics: ServiceMetrics::new(now),
        }
    }

    /// Where `id` sits in the registry, if anywhere.
    pub fn find_index(&self, id: ConnectionId) -> (r: Option<usize>)
        ensures
            match r {
                Some(i) => i < self.connections@.len() && self.connections@[i as int].info.id
                    == id,
                None => !self.has_conn(id),
            },
    {
        let len = self.connections.len();
        let mut i: usize = 0;
        while i < len
            invariant
                i <= len,
                len == self.connections@.len(),
                forall|j: int| 0 <= j < i ==> self.ids()[j] != id,
            decreases len - i,
        {
            if self.connections[i].info.id == id {
                return Some(i);
            }
            proof {
                assert(self.ids()[i as int] == self.connections@[i as int].info.id);
            }
            i = i + 1;
        }
        None
    }

    /// Whether `id` is registered, executably.
    pub fn contains(&self, id: ConnectionId) -> (r: bool)
        ensures
            r == self.has_conn(id),
    {
        match self.find_index(id) {
            Some(i) => {
                proof {
                    assert(self.ids()[i as int] == id);
                }
                true
            },
            None => false,
        }
    }

    /// The live connection count the registry maintains.
    pub fn connection_count(&self) -> (r: usize)
        requires
            self.wf(),
        ensures
            r == self.connections@.len(),
    {
        self.live_count
    }

    /// Registers a connection under a fresh id: the capacity gate, then the
    /// record. Refused, with nothing changed, exactly when the live count has
    /// reached the configured maximum.
    pub fn register(&mut self, id: ConnectionId, remote_addr: Option<String>, now: u64) -> (r:
        Result<(), HubError>)
        requires
            old(self).wf(),
            !old(self).has_conn(id),
            now <= COUNTER_CAP,
        ensures
            final(self).wf(),
            old(self).live_count >= old(self).config.max_connections <==> r == Err::<
                (),
                HubError,
            >(HubError::CapacityExceeded),
            old(self).live_count < old(self).config.max_connections ==> r == Ok::<
                (),
                HubError,
            >(()),
            r is Err ==> *final(self) == *old(self),
            r is Ok ==> {
                &&& final(self).connections@ == old(self).connections@.push(
                    ConnectionEntry {
                        info: ConnectionInfo {
                            id,
                            connected_at: now,
                            last_activity: now,
                            subscriptions: final(self).connections@.last().info.subscriptions,
                            remote_addr,
                            user_agent: None,
                            messages_sent: 0,
                            messages_received: 0,
                            bytes_sent: 0,
                            bytes_received: 0,
                            ping_latency_ms: None,
                        },
                        queue: final(self).connections@.last().queue,
                        ping_sent_at: None,
                    },
                )
                &&& final(self).connections@.last().info.subscriptions@.len() == 0
                &&& final(self).connections@.last().queue@.len() == 0
                &&& final(self).live_count == old(self).live_count + 1
                &&& final(self).metrics == (ServiceMetrics {
                    total_connections: spec_cap_add(old(self).metrics.total_connections, 1),
                    peak_connections: if old(self).live_count + 1
                        > old(self).metrics.peak_connections {
                        (old(self).live_count + 1) as usize
                    } else {
                        old(self).metrics.peak_connections
                    },
                    ..old(self).metrics
                })
                &&& final(self).config == old(self).config
                &&& final(self).debug_enabled == old(self).debug_enabled
                &&& final(self).debug_logs == old(self).debug_logs
            },
    {
        if self.live_count >= self.config.max_connections {
            return Err(HubError::CapacityExceeded);
        }
        let info = ConnectionInfo::new_at(id, remote_addr, now);
        let entry = ConnectionEntry { info, queue: Vec::new(), ping_sent_at: None };
        self.connections.push(entry);
        self.live_count = self.live_count + 1;
        self.metrics.total_connections = cap_add(self.metrics.total_connections, 1);
        if self.live_count > self.metrics.peak_connections {
            self.metrics.peak_connections = self.live_count;
        }
        proof {
            let pre = old(self);
            assert forall|i: int, j: int|
                0 <= i < j < self.connections@.len() implies self.ids()[i] != self.ids()[j] by {
                if j < pre.connections@.len() {
                    assert(pre.ids()[i] == self.ids()[i]);
                    assert(pre.ids()[j] == self.ids()[j]);
                } else {
                    assert(self.ids()[j] == id);
                    assert(pre.ids()[i] == self.ids()[i]);
                    assert(!pre.has_conn(id));
                }
            }
        }
        Ok(())
    }

    /// Draws a random token and registers under it. On success the new id
    /// comes back; any refusal leaves the hub unchanged and reports the
    /// capacity gate.
    pub fn register_new(&mut self, remote_addr: Option<String>, now: u64) -> (r: Result<
        ConnectionId,
        HubError,
    >)
        requires
            old(self).wf(),
            now <= COUNTER_CAP,
        ensures
            final(self).wf(),
            old(self).live_count >= old(self).config.max_connections ==> r == Err::<
                ConnectionId,
                HubError,
            >(HubError::CapacityExceeded),
            r is Err ==> *final(self) == *old(self) && r == Err::<ConnectionId, HubError>(
                HubError::CapacityExceeded,
            ),
            r matches Ok(id) ==> {
                &&& old(self).live_count < old(self).config.max_connections
                &&& !old(self).has_conn(id)
                &&& final(self).has_conn(id)
                &&& final(self).live_count == old(self).live_count + 1
            },
    {
        let id = fresh_token();
        if self.contains(id) {
            return Err(HubError::CapacityExceeded);
        }
        let r = self.register(id, remote_addr, now);
        match r {
            Ok(()) => {
                proof {
                    assert(self.ids().last() == id);
                    assert(self.has_conn(id));
                }
                Ok(id)
            },
            Err(e) => Err(e),
        }
    }
}

/// The registry's central invariant, on its own: in any well-formed hub the
/// live count it maintains equals the number of records present.
pub proof fn lemma_live_count_matches_records(h: &WebSocketService)
    requires
        h.wf(),
    ensures
        h.live_count == h.connections@.len(),
{
}

/// Whether one of the strings reads `s`.
pub fn contains_str(v: &Vec<String>, s: &str) -> (r: bool)
    ensures
        r == v.deep_view().contains(s@),
{
    let len = v.len();
    let mut i: usize = 0;
    while i < len
        invariant
            i <= len,
            len == v@.len(),
            forall|j: int| 0 <= j < i ==> v.deep_view()[j] != s@,
        decreases len - i,
    {
        if str_eq(v[i].as_str(), s) {
            proof {
                assert(v.deep_view()[i as int] == s@);
            }
            return true;
        }
        proof {
            assert(v.deep_view()[i as int] == v@[i as int]@);
        }
        i = i + 1;
    }
    proof {
        if v.deep_view().contains(s@) {
            let w = choose|w: int| 0 <= w < v.deep_view().len() && v.deep_view()[w] == s@;
            assert(v.deep_view()[w] != s@);
        }
    }
    false
}

/// The snapshot of a set of registry entries at one moment.
pub open spec fn spec_stats_of(entries: Seq<ConnectionEntry>, now: u64) -> ConnectionStatsModel {
    ConnectionStatsModel {
        count: entries.len() as u64,
        connections: Seq::new(entries.len(), |i: int| entries[i].info.spec_summary(now)),
    }
}

/// The text of the snapshot envelope for those entries.
pub open spec fn stats_text_of(entries: Seq<ConnectionEntry>, now: u64) -> Seq<char> {
    msg_text(WsMessageModel::ActiveConnections { payload: spec_stats_of(entries, now) })
}

impl WebSocketService {
    /// Sends one envelope to one connection: the envelope is written out once
    /// and joins the target's bounded queue. `ConnectionNotFound` names a
    /// missing target, `QueueFull` a full queue; either way nothing changes.
    pub fn send_to_connection(&mut self, id: ConnectionId, msg: &WsMessage) -> (r: Result<
        (),
        HubError,
    >)
        requires
            old(self).wf(),
            spec_encodable(msg@),
        ensures
            final(self).wf(),
            final(self).connections@.len() == old(self).connections@.len(),
            final(self).config == old(self).config,
            final(self).live_count == old(self).live_count,
            final(self).debug_enabled == old(self).debug_enabled,
            final(self).debug_logs == old(self).debug_logs,
            final(self).metrics == old(self).metrics,
            !old(self).has_conn(id) ==> r == Err::<(), HubError>(HubError::ConnectionNotFound)
                && *final(self) == *old(self),
            forall|j: int|
                0 <= j < old(self).connections@.len() && (#[trigger] old(
                    self,
                ).connections@[j]).info.id != id ==> final(self).connections@[j] == old(
                    self,
                ).connections@[j],
            forall|j: int|
                0 <= j < old(self).connections@.len() && (#[trigger] old(
                    self,
                ).connections@[j]).info.id == id ==> {
                    &&& final(self).connections@[j].info == old(self).connections@[j].info
                    &&& final(self).connections@[j].ping_sent_at == old(
                        self,
                    ).connections@[j].ping_sent_at
                    &&& queue_texts(final(self).connections@[j].queue@) == push_if_room(
                        queue_texts(old(self).connections@[j].queue@),
                        msg_text(msg@),
                        old(self).config.queue_capacity as nat,
                    )
                    &&& (old(self).connections@[j].queue@.len() < old(
                        self,
                    ).config.queue_capacity ==> r == Ok::<(), HubError>(()))
                    &&& (old(self).connections@[j].queue@.len() >= old(
                        self,
                    ).config.queue_capacity ==> r == Err::<(), HubError>(HubError::QueueFull))
                },
    {
        let i = match self.find_index(id) {
            Some(i) => i,
            None => {
                proof {
                    assert forall|j: int|
                        !(0 <= j < self.connections@.len() && (#[trigger] self.connections@[j]).info.id
                            == id) by {
                        if 0 <= j < self.connections@.len() && self.connections@[j].info.id == id {
                            assert(self.ids()[j] == id);
                        }
                    }
                }
                return Err(HubError::ConnectionNotFound);
            },
        };
        proof {
            assert(self.ids()[i as int] == id);
            assert(self.has_conn(id));
        }
        let jv = encode_envelope(msg);
        let txt = crate::json::json_to_text(&jv);
        let cap = self.config.queue_capacity;
        if self.connections[i].queue.len() >= cap {
            proof {
                assert forall|j: int|
                    0 <= j < old(self).connections@.len() && (#[trigger] old(
                        self,
                    ).connections@[j]).info.id == id implies j == i by {
                    if j != i {
                        assert(old(self).ids()[j] == old(self).ids()[i as int]);
                    }
                }
            }
            return Err(HubError::QueueFull);
        }
        let entry = &mut self.connections[i];
        entry.queue.push(txt);
        proof {
            assert forall|j: int|
                0 <= j < old(self).connections@.len() && (#[trigger] old(
                    self,
                ).connections@[j]).info.id == id implies j == i by {
                if j != i {
                    assert(old(self).ids()[j] == old(self).ids()[i as int]);
                }
            }
            assert(queue_texts(self.connections@[i as int].queue@) =~= queue_texts(
                old(self).connections@[i as int].queue@,
            ).push(msg_text(msg@)));
            assert(self.connections@[i as int].info == old(self).connections@[i as int].info);
            assert(self.connections@[i as int].ping_sent_at == old(
                self,
            ).connections@[i as int].ping_sent_at);
            assert(forall|j: int|
                0 <= j < self.connections@.len() && j != i ==> self.connections@[j] == old(
                    self,
                ).connections@[j]);
            assert(self.ids() =~= old(self).ids());
            assert(old(self).connections@[i as int].queue@.len() < old(
                self,
            ).config.queue_capacity);
        }
        Ok(())
    }

    /// Broadcasts an envelope to every connection a topic name reaches: the
    /// name `all` reaches everyone, any other name exactly its subscribers.
    /// The envelope is written out once; a full queue skips that connection
    /// and never stops the sweep.
    pub fn broadcast_to_topic_str(&mut self, topic: &str, msg: &WsMessage)
        requires
            old(self).wf(),
            spec_encodable(msg@),
        ensures
            final(self).wf(),
            final(self).connections@.len() == old(self).connections@.len(),
            final(self).config == old(self).config,
            final(self).live_count == old(self).live_count,
            final(self).debug_enabled == old(self).debug_enabled,
            final(self).debug_logs == old(self).debug_logs,
            final(self).metrics == old(self).metrics,
            forall|j: int|
                0 <= j < old(self).connections@.len() ==> {
                    &&& (#[trigger] final(self).connections@[j]).info == old(
                        self,
                    ).connections@[j].info
                    &&& final(self).connections@[j].ping_sent_at == old(
                        self,
                    ).connections@[j].ping_sent_at
                    &&& queue_texts(final(self).connections@[j].queue@) == (if entry_eligible(
                        old(self).connections@[j],
                        topic@,
                    ) {
                        push_if_room(
                            queue_texts(old(self).connections@[j].queue@),
                            msg_text(msg@),
                            old(self).config.queue_capacity as nat,
                        )
                    } else {
                        queue_texts(old(self).connections@[j].queue@)
                    })
                },
    {
        let jv = encode_envelope(msg);
        let txt = crate::json::json_to_text(&jv);
        let cap = self.config.queue_capacity;
        proof {
            reveal_strlit("all");
            assert("all"@ =~= spec_topic_string(SubscriptionTopicModel::All));
        }
        let to_everyone = str_eq(topic, "all");
        let len = self.connections.len();
        let mut i: usize = 0;
        while i < len
            invariant
                i <= len,
                len == old(self).connections@.len(),
                self.connections@.len() == len,
                self.config == old(self).config,
                self.live_count == old(self).live_count,
                self.debug_enabled == old(self).debug_enabled,
                self.debug_logs == old(self).debug_logs,
                self.metrics == old(self).metrics,
                cap == self.config.queue_capacity,
                txt@ == msg_text(msg@),
                to_everyone == (topic@ == spec_topic_string(SubscriptionTopicModel::All)),
                old(self).wf(),
                forall|j: int|
                    i <= j < len ==> (#[trigger] self.connections@[j]) == old(
                        self,
                    ).connections@[j],
                forall|j: int|
                    0 <= j < i ==> {
                        &&& (#[trigger] self.connections@[j]).info == old(
                            self,
                        ).connections@[j].info
                        &&& self.connections@[j].ping_sent_at == old(
                            self,
                        ).connections@[j].ping_sent_at
                        &&& queue_texts(self.connections@[j].queue@) == (if entry_eligible(
                            old(self).connections@[j],
                            topic@,
                        ) {
                            push_if_room(
                                queue_texts(old(self).connections@[j].queue@),
                                msg_text(msg@),
                                old(self).config.queue_capacity as nat,
                            )
                        } else {
                            queue_texts(old(self).connections@[j].queue@)
                        })
                    },
            decreases len - i,
        {
            let eligible = to_everyone || contains_str(&self.connections[i].info.subscriptions, topic);
            proof {
                assert(entry_subs(old(self).connections@[i as int])
                    == self.connections@[i as int].info.subscriptions.deep_view());
            }
            if eligible {
                let entry = &mut self.connections[i];
                if entry.queue.len() < cap {
                    let t = txt.clone();
                    entry.queue.push(t);
                    proof {
                        assert(queue_texts(self.connections@[i as int].queue@) =~= queue_texts(
                            old(self).connections@[i as int].queue@,
                        ).push(msg_text(msg@)));
                    }
                }
            }
            i = i + 1;
        }
        proof {
            assert(self.ids() =~= old(self).ids());
        }
    }

    /// Broadcasts on a structured topic, by its name.
    pub fn broadcast_to_topic(&mut self, topic: &SubscriptionTopic, msg: &WsMessage)
        requires
            old(self).wf(),
            spec_encodable(msg@),
        ensures
            final(self).wf(),
            final(self).connections@.len() == old(self).connections@.len(),
            final(self).config == old(self).config,
            final(self).live_count == old(self).live_count,
            final(self).debug_enabled == old(self).debug_enabled,
            final(self).debug_logs == old(self).debug_logs,
            final(self).metrics == old(self).metrics,
            forall|j: int|
                0 <= j < old(self).connections@.len() ==> {
                    &&& (#[trigger] final(self).connections@[j]).info == old(
                        self,
                    ).connections@[j].info
                    &&& final(self).connections@[j].ping_sent_at == old(
                        self,
                    ).connections@[j].ping_sent_at
                    &&& queue_texts(final(self).connections@[j].queue@) == (if entry_eligible(
                        old(self).connections@[j],
                        spec_topic_string(topic@),
                    ) {
                        push_if_room(
                            queue_texts(old(self).connections@[j].queue@),
                            msg_text(msg@),
                            old(self).config.queue_capacity as nat,
                        )
                    } else {
                        queue_texts(old(self).connections@[j].queue@)
                    })
                },
    {
        let name = topic.topic_string();
        self.broadcast_to_topic_str(name.as_str(), msg)
    }

    /// Broadcasts to every connection.
    pub fn broadcast_to_all(&mut self, msg: &WsMessage)
        requires
            old(self).wf(),
            spec_encodable(msg@),
        ensures
            final(self).wf(),
            final(self).connections@.len() == old(self).connections@.len(),
            final(self).config == old(self).config,
            final(self).live_count == old(self).live_count,
            final(self).debug_enabled == old(self).debug_enabled,
            final(self).debug_logs == old(self).debug_logs,
            final(self).metrics == old(self).metrics,
            forall|j: int|
                0 <= j < old(self).connections@.len() ==> {
                    &&& (#[trigger] final(self).connections@[j]).info == old(
                        self,
                    ).connections@[j].info
                    &&& final(self).connections@[j].ping_sent_at == old(
                        self,
                    ).connections@[j].ping_sent_at
                    &&& queue_texts(final(self).connections@[j].queue@) == push_if_room(
                        queue_texts(old(self).connections@[j].queue@),
                        msg_text(msg@),
                        old(self).config.queue_capacity as nat,
                    )
                },
    {
        proof {
            reveal_strlit("all");
            assert("all"@ =~= spec_topic_string(SubscriptionTopicModel::All));
        }
        self.broadcast_to_topic_str("all", msg)
    }
}

/// Subscriptions after adding each listed topic that was not already there,
/// in order, without duplicates.
pub open spec fn add_topics(subs: Seq<Seq<char>>, ts: Seq<Seq<char>>) -> Seq<Seq<char>>
    decreases ts.len(),
{
    if ts.len() == 0 {
        subs
    } else {
        add_topics(
            if subs.contains(ts[0]) {
                subs
            } else {
                subs.push(ts[0])
            },
            ts.drop_first(),
        )
    }
}

/// Subscriptions after dropping every listed topic.
pub open spec fn remove_topics(subs: Seq<Seq<char>>, ts: Seq<Seq<char>>) -> Seq<Seq<char>>
    decreases subs.len(),
{
    if subs.len() == 0 {
        Seq::empty()
    } else if ts.contains(subs[0]) {
        remove_topics(subs.drop_first(), ts)
    } else {
        seq![subs[0]] + remove_topics(subs.drop_first(), ts)
    }
}

impl WebSocketService {
    /// Broadcasts the current live-connections snapshot to everyone.
    pub fn broadcast_connection_stats(&mut self, now: u64)
        requires
            old(self).wf(),
        ensures
            final(self).wf(),
            final(self).connections@.len() == old(self).connections@.len(),
            final(self).config == old(self).config,
            final(self).live_count == old(self).live_count,
            final(self).debug_enabled == old(self).debug_enabled,
            final(self).debug_logs == old(self).debug_logs,
            final(self).metrics == old(self).metrics,
            forall|j: int|
                0 <= j < old(self).connections@.len() ==> {
                    &&& (#[trigger] final(self).connections@[j]).info == old(
                        self,
                    ).connections@[j].info
                    &&& final(self).connections@[j].ping_sent_at == old(
                        self,
                    ).connections@[j].ping_sent_at
                    &&& queue_texts(final(self).connections@[j].queue@) == push_if_room(
                        queue_texts(old(self).connections@[j].queue@),
                        stats_text_of(old(self).connections@, now),
                        old(self).config.queue_capacity as nat,
                    )
                },
    {
        let len = self.connections.len();
        let mut summaries: Vec<ConnectionSummary> = Vec::new();
        let mut i: usize = 0;
        while i < len
            invariant
                i <= len,
                len == self.connections@.len(),
                summaries@.len() == i,
                forall|j: int|
                    0 <= j < i ==> (#[trigger] summaries@[j])@ == self.connections@[
                        j
                    ].info.spec_summary(now),
            decreases len - i,
        {
            let s = self.connections[i].info.to_summary(now);
            summaries.push(s);
            i = i + 1;
        }
        let stats = ConnectionStats { count: self.live_count as u64, connections: summaries };
        let msg = WsMessage::ActiveConnections { payload: stats };
        proof {
            assert(msg@->ActiveConnections_payload.connections =~= spec_stats_of(
                self.connections@,
                now,
            ).connections);
            assert(msg@ == WsMessageModel::ActiveConnections {
                payload: spec_stats_of(self.connections@, now),
            });
            assert forall|j: int|
                0 <= j < msg@->ActiveConnections_payload.connections.len() implies {
                &&& (#[trigger] msg@->ActiveConnections_payload.connections[j]).message_count
                    <= i64::MAX
                &&& msg@->ActiveConnections_payload.connections[j].bytes_sent <= i64::MAX
                &&& msg@->ActiveConnections_payload.connections[j].bytes_received <= i64::MAX
            } by {
                assert(self.connections@[j].info.counters_capped());
            }
            assert(spec_encodable(msg@));
        }
        self.broadcast_to_all(&msg);
    }

    /// Removes a connection, if it is still there, and tells everyone the new
    /// snapshot. Removing an id a second time changes nothing: removal is
    /// idempotent, and it is the one place the live count goes down.
    pub fn cleanup_connection(&mut self, id: ConnectionId, now: u64)
        requires
            old(self).wf(),
        ensures
            final(self).wf(),
            final(self).config == old(self).config,
            final(self).debug_enabled == old(self).debug_enabled,
            final(self).debug_logs == old(self).debug_logs,
            final(self).metrics == old(self).metrics,
            !old(self).has_conn(id) ==> *final(self) == *old(self),
            !final(self).has_conn(id),
            old(self).has_conn(id) ==> final(self).live_count == old(self).live_count - 1
                && final(self).connections@.len() == old(self).connections@.len() - 1,
            forall|i: int|
                0 <= i < old(self).connections@.len() && (#[trigger] old(
                    self,
                ).connections@[i]).info.id == id ==> {
                    &&& forall|k: int|
                        0 <= k < final(self).connections@.len() ==> {
                            let survivor = old(self).connections@.remove(i)[k];
                            &&& (#[trigger] final(self).connections@[k]).info == survivor.info
                            &&& final(self).connections@[k].ping_sent_at == survivor.ping_sent_at
                            &&& queue_texts(final(self).connections@[k].queue@) == push_if_room(
                                queue_texts(survivor.queue@),
                                stats_text_of(old(self).connections@.remove(i), now),
                                old(self).config.queue_capacity as nat,
                            )
                        }
                },
    {
        let i = match self.find_index(id) {
            Some(i) => i,
            None => {
                proof {
                    assert forall|j: int|
                        !(0 <= j < self.connections@.len() && (#[trigger] self.connections@[j]).info.id
                            == id) by {
                        if 0 <= j < self.connections@.len() && self.connections@[j].info.id == id {
                            assert(self.ids()[j] == id);
                        }
                    }
                }
                return ;
            },
        };
        proof {
            assert(self.ids()[i as int] == id);
            assert(self.has_conn(id));
        }
        self.connections.remove(i);
        self.live_count = self.live_count - 1;
        proof {
            let pre = old(self);
            assert(self.connections@ == pre.connections@.remove(i as int));
            assert forall|a: int, b: int|
                0 <= a < b < self.connections@.len() implies self.ids()[a] != self.ids()[b] by {
                let a0 = if a < i {
                    a
                } else {
                    a + 1
                };
                let b0 = if b < i {
                    b
                } else {
                    b + 1
                };
                assert(self.connections@[a] == pre.connections@[a0]);
                assert(self.connections@[b] == pre.connections@[b0]);
                assert(pre.ids()[a0] != pre.ids()[b0]);
            }
            assert forall|k: int|
                0 <= k < self.connections@.len() implies self.ids()[k] != id by {
                let k0 = if k < i {
                    k
                } else {
                    k + 1
                };
                assert(self.connections@[k] == pre.connections@[k0]);
                assert(pre.ids()[k0] == pre.connections@[k0].info.id);
                if k0 != i {
                    assert(pre.ids()[k0] != pre.ids()[i as int]);
                }
            }
            assert forall|k: int|
                0 <= k < self.connections@.len() implies ((#[trigger] self.connections@[k]).queue@.len()
                    <= self.config.queue_capacity && self.connections@[k].info.counters_capped())
                by {
                let k0 = if k < i {
                    k
                } else {
                    k + 1
                };
                assert(self.connections@[k] == pre.connections@[k0]);
            }
        }
        let ghost mid = self.connections@;
        self.broadcast_connection_stats(now);
        proof {
            let pre = old(self);
            let removed = pre.connections@.remove(i as int);
            assert(mid == removed);
            assert forall|k: int|
                0 <= k < self.connections@.len() implies (#[trigger] self.connections@[k]).info.id
                    != id by {
                assert(self.connections@[k].info == removed[k].info);
                let k0 = if k < i {
                    k
                } else {
                    k + 1
                };
                assert(removed[k] == pre.connections@[k0]);
                if k0 != i {
                    assert(pre.ids()[k0] != pre.ids()[i as int]);
                    assert(pre.ids()[k0] == pre.connections@[k0].info.id);
                }
            }
            assert forall|k: int|
                !(0 <= k < self.connections@.len() && self.ids()[k] == id) by {
                if 0 <= k < self.connections@.len() {
                    assert(self.ids()[k] == self.connections@[k].info.id);
                }
            }
            assert forall|i2: int|
                0 <= i2 < pre.connections@.len() && (#[trigger] pre.connections@[i2]).info.id == id
                implies i2 == i by {
                if i2 != i {
                    assert(pre.ids()[i2] == pre.ids()[i as int]);
                }
            }
            assert forall|k: int| 0 <= k < self.connections@.len() implies {
                let survivor = removed[k];
                &&& (#[trigger] self.connections@[k]).info == survivor.info
                &&& self.connections@[k].ping_sent_at == survivor.ping_sent_at
                &&& queue_texts(self.connections@[k].queue@) == push_if_room(
                    queue_texts(survivor.queue@),
                    stats_text_of(removed, now),
                    pre.config.queue_capacity as nat,
                )
            } by {
                assert(self.connections@[k].info == mid[k].info);
            }
        }
    }

    /// Hands the oldest queued text to the caller for actual delivery and
    /// counts it as sent; nothing comes back for an unknown id or an empty
    /// queue. Texts leave the queue in the order they joined it.
    pub fn pop_outbound(&mut self, id: ConnectionId, now: u64) -> (r: Option<String>)
        requires
            old(self).wf(),
        ensures
            final(self).wf(),
            final(self).config == old(self).config,
            final(self).live_count == old(self).live_count,
            final(self).debug_enabled == old(self).debug_enabled,
            final(self).debug_logs == old(self).debug_logs,
            final(self).connections@.len() == old(self).connections@.len(),
            !old(self).has_conn(id) ==> r is None && *final(self) == *old(self),
            forall|j: int|
                0 <= j < old(self).connections@.len() && (#[trigger] old(
                    self,
                ).connections@[j]).info.id != id ==> final(self).connections@[j] == old(
                    self,
                ).connections@[j],
            forall|j: int|
                0 <= j < old(self).connections@.len() && (#[trigger] old(
                    self,
                ).connections@[j]).info.id == id ==> {
                    let pre_entry = old(self).connections@[j];
                    &&& (pre_entry.queue@.len() == 0 ==> r is None && *final(self) == *old(self))
                    &&& (pre_entry.queue@.len() > 0 ==> {
                        &&& r matches Some(s) && s@ == queue_texts(pre_entry.queue@)[0]
                        &&& queue_texts(final(self).connections@[j].queue@) == queue_texts(
                            pre_entry.queue@,
                        ).drop_first()
                        &&& final(self).connections@[j].ping_sent_at == pre_entry.ping_sent_at
                        &&& final(self).connections@[j].info == (ConnectionInfo {
                            messages_sent: spec_cap_add(pre_entry.info.messages_sent, 1),
                            bytes_sent: spec_cap_add(
                                pre_entry.info.bytes_sent,
                                queue_texts(pre_entry.queue@)[0].len() as u64,
                            ),
                            last_activity: now,
                            ..pre_entry.info
                        })
                        &&& final(self).metrics == (ServiceMetrics {
                            total_messages_sent: spec_cap_add(
                                old(self).metrics.total_messages_sent,
                                1,
                            ),
                            total_bytes_sent: spec_cap_add(
                                old(self).metrics.total_bytes_sent,
                                queue_texts(pre_entry.queue@)[0].len() as u64,
                            ),
                            ..old(self).metrics
                        })
                    })
                },
            (forall|j: int|
                0 <= j < old(self).connections@.len() ==> (#[trigger] old(
                    self,
                ).connections@[j]).info.id != id) ==> final(self).metrics == old(self).metrics,
            !old(self).has_conn(id) ==> final(self).metrics == old(self).metrics,
    {
        let i = match self.find_index(id) {
            Some(i) => i,
            None => {
                proof {
                    assert forall|j: int|
                        !(0 <= j < self.connections@.len() && (#[trigger] self.connections@[j]).info.id
                            == id) by {
                        if 0 <= j < self.connections@.len() && self.connections@[j].info.id == id {
                            assert(self.ids()[j] == id);
                        }
                    }
                }
                return None;
            },
        };
        proof {
            assert(self.ids()[i as int] == id);
            assert(self.has_conn(id));
            assert forall|j: int|
                0 <= j < old(self).connections@.len() && (#[trigger] old(
                    self,
                ).connections@[j]).info.id == id implies j == i by {
                if j != i {
                    assert(old(self).ids()[j] == old(self).ids()[i as int]);
                }
            }
        }
        if self.connections[i].queue.len() == 0 {
            return None;
        }
        let entry = &mut self.connections[i];
        let s = entry.queue.remove(0);
        let nbytes = s.as_str().unicode_len();
        proof {
            assert(s@ == queue_texts(old(self).connections@[i as int].queue@)[0]);
        }
        entry.info.record_sent(nbytes, now);
        self.metrics.total_messages_sent = cap_add(self.metrics.total_messages_sent, 1);
        self.metrics.total_bytes_sent = cap_add(self.metrics.total_bytes_sent, nbytes as u64);
        proof {
            assert(queue_texts(self.connections@[i as int].queue@) =~= queue_texts(
                old(self).connections@[i as int].queue@,
            ).drop_first());
            assert(self.ids() =~= old(self).ids());
        }
        Some(s)
    }

    /// Counts one inbound frame against the connection and the service; this
    /// is the activity that keeps a connection alive. Unknown ids change
    /// nothing.
    pub fn note_received(&mut self, id: ConnectionId, nbytes: usize, now: u64)
        requires
            old(self).wf(),
        ensures
            final(self).wf(),
            final(self).config == old(self).config,
            final(self).live_count == old(self).live_count,
            final(self).debug_enabled == old(self).debug_enabled,
            final(self).debug_logs == old(self).debug_logs,
            final(self).connections@.len() == old(self).connections@.len(),
            !old(self).has_conn(id) ==> *final(self) == *old(self),
            forall|j: int|
                0 <= j < old(self).connections@.len() && (#[trigger] old(
                    self,
                ).connections@[j]).info.id != id ==> final(self).connections@[j] == old(
                    self,
                ).connections@[j],
            forall|j: int|
                0 <= j < old(self).connections@.len() && (#[trigger] old(
                    self,
                ).connections@[j]).info.id == id ==> {
                    &&& final(self).connections@[j].queue == old(self).connections@[j].queue
                    &&& final(self).connections@[j].ping_sent_at == old(
                        self,
                    ).connections@[j].ping_sent_at
                    &&& final(self).connections@[j].info == (ConnectionInfo {
                        messages_received: spec_cap_add(
                            old(self).connections@[j].info.messages_received,
                            1,
                        ),
                        bytes_received: spec_cap_add(
                            old(self).connections@[j].info.bytes_received,
                            nbytes as u64,
                        ),
                        last_activity: now,
                        ..old(self).connections@[j].info
                    })
                    &&& final(self).metrics == (ServiceMetrics {
                        total_messages_received: spec_cap_add(
                            old(self).metrics.total_messages_received,
                            1,
                        ),
                        total_bytes_received: spec_cap_add(
                            old(self).metrics.total_bytes_received,
                            nbytes as u64,
                        ),
                        ..old(self).metrics
                    })
                },
    {
        let i = match self.find_index(id) {
            Some(i) => i,
            None => {
                proof {
                    assert forall|j: int|
                        !(0 <= j < self.connections@.len() && (#[trigger] self.connections@[j]).info.id
                            == id) by {
                        if 0 <= j < self.connections@.len() && self.connections@[j].info.id == id {
                            assert(self.ids()[j] == id);
                        }
                    }
                }
                return ;
            },
        };
        proof {
            assert(self.ids()[i as int] == id);
            assert forall|j: int|
                0 <= j < old(self).connections@.len() && (#[trigger] old(
                    self,
                ).connections@[j]).info.id == id implies j == i by {
                if j != i {
                    assert(old(self).ids()[j] == old(self).ids()[i as int]);
                }
            }
        }
        let entry = &mut self.connections[i];
        entry.info.record_received(nbytes, now);
        self.metrics.total_messages_received = cap_add(self.metrics.total_messages_received, 1);
        self.metrics.total_bytes_received = cap_add(
            self.metrics.total_bytes_received,
            nbytes as u64,
        );
        proof {
            assert(self.ids() =~= old(self).ids());
        }
    }

    /// Adds each listed topic the connection does not already have, keeping
    /// order and dropping duplicates. A late update for a connection that is
    /// already gone is silently dropped.
    pub fn handle_subscribe(&mut self, id: ConnectionId, topics: &Vec<String>) -> (r: Result<
        (),
        HubError,
    >)
        requires
            old(self).wf(),
        ensures
            final(self).wf(),
            r == Ok::<(), HubError>(()),
            final(self).config == old(self).config,
            final(self).live_count == old(self).live_count,
            final(self).debug_enabled == old(self).debug_enabled,
            final(self).debug_logs == old(self).debug_logs,
            final(self).metrics == old(self).metrics,
            final(self).connections@.len() == old(self).connections@.len(),
            !old(self).has_conn(id) ==> *final(self) == *old(self),
            forall|j: int|
                0 <= j < old(self).connections@.len() && (#[trigger] old(
                    self,
                ).connections@[j]).info.id != id ==> final(self).connections@[j] == old(
                    self,
                ).connections@[j],
            forall|j: int|
                0 <= j < old(self).connections@.len() && (#[trigger] old(
                    self,
                ).connections@[j]).info.id == id ==> {
                    &&& final(self).connections@[j].queue == old(self).connections@[j].queue
                    &&& final(self).connections@[j].ping_sent_at == old(
                        self,
                    ).connections@[j].ping_sent_at
                    &&& final(self).connections@[j].info.subscriptions.deep_view() == add_topics(
                        old(self).connections@[j].info.subscriptions.deep_view(),
                        topics.deep_view(),
                    )
                    &&& final(self).connections@[j].info == (ConnectionInfo {
                        subscriptions: final(self).connections@[j].info.subscriptions,
                        ..old(self).connections@[j].info
                    })
                },
    {
        let i = match self.find_index(id) {
            Some(i) => i,
            None => {
                proof {
                    assert forall|j: int|
                        !(0 <= j < self.connections@.len() && (#[trigger] self.connections@[j]).info.id
                            == id) by {
                        if 0 <= j < self.connections@.len() && self.connections@[j].info.id == id {
                            assert(self.ids()[j] == id);
                        }
                    }
                }
                return Ok(());
            },
        };
        proof {
            assert(self.ids()[i as int] == id);
            assert forall|j: int|
                0 <= j < old(self).connections@.len() && (#[trigger] old(
                    self,
                ).connections@[j]).info.id == id implies j == i by {
                if j != i {
                    assert(old(self).ids()[j] == old(self).ids()[i as int]);
                }
            }
        }
        let ghost orig = old(self).connections@[i as int].info.subscriptions.deep_view();
        let ghost all_ts = topics.deep_view();
        proof {
            assert(all_ts.skip(0) =~= all_ts);
        }
        let len = topics.len();
        let mut k: usize = 0;
        while k < len
            invariant
                k <= len,
                len == topics@.len(),
                all_ts == topics.deep_view(),
                0 <= i < self.connections@.len(),
                self.connections@.len() == old(self).connections@.len(),
                self.config == old(self).config,
                self.live_count == old(self).live_count,
                self.debug_enabled == old(self).debug_enabled,
                self.debug_logs == old(self).debug_logs,
                self.metrics == old(self).metrics,
                forall|j: int|
                    0 <= j < self.connections@.len() && j != i ==> self.connections@[j] == old(
                        self,
                    ).connections@[j],
                self.connections@[i as int].queue == old(self).connections@[i as int].queue,
                self.connections@[i as int].ping_sent_at == old(
                    self,
                ).connections@[i as int].ping_sent_at,
                self.connections@[i as int].info == (ConnectionInfo {
                    subscriptions: self.connections@[i as int].info.subscriptions,
                    ..old(self).connections@[i as int].info
                }),
                add_topics(
                    self.connections@[i as int].info.subscriptions.deep_view(),
                    all_ts.skip(k as int),
                ) == add_topics(orig, all_ts),
            decreases len - k,
        {
            let ghost cur = self.connections@[i as int].info.subscriptions.deep_view();
            let t = &topics[k];
            let already = contains_str(&self.connections[i].info.subscriptions, t.as_str());
            proof {
                assert(all_ts.skip(k as int)[0] == all_ts[k as int]);
                assert(all_ts[k as int] == topics@[k as int]@);
                assert(all_ts.skip(k as int).drop_first() =~= all_ts.skip(k as int + 1));
                assert(already == cur.contains(all_ts[k as int]));
            }
            if !already {
                let entry = &mut self.connections[i];
                let tc = t.clone();
                entry.info.subscriptions.push(tc);
                proof {
                    assert(self.connections@[i as int].info.subscriptions.deep_view() =~= cur.push(
                        all_ts[k as int],
                    ));
                }
            }
            k = k + 1;
        }
        proof {
            assert(all_ts.skip(len as int).len() == 0);
            assert(self.ids() =~= old(self).ids());
            assert forall|j: int|
                0 <= j < self.connections@.len() implies ((#[trigger] self.connections@[j]).queue@.len()
                    <= self.config.queue_capacity && self.connections@[j].info.counters_capped())
                by {
                if j != i {
                    assert(self.connections@[j] == old(self).connections@[j]);
                }
            }
        }
        Ok(())
    }
}

/// The models of the stored debug entries, oldest first.
pub open spec fn log_views(logs: Seq<DebugPayload>) -> Seq<crate::protocol::DebugPayloadModel> {
    Seq::new(logs.len(), |i: int| logs[i]@)
}

/// The ring buffer after one more entry: the newest always joins, the oldest
/// leaves once the capacity is exceeded.
pub open spec fn ring_push(
    logs: Seq<crate::protocol::DebugPayloadModel>,
    e: crate::protocol::DebugPayloadModel,
    cap: nat,
) -> Seq<crate::protocol::DebugPayloadModel> {
    if logs.len() < cap {
        logs.push(e)
    } else {
        logs.push(e).drop_first()
    }
}

/// The model of the debug entry `log_debug` records.
pub open spec fn spec_debug_entry(
    level: Seq<char>,
    component: Seq<char>,
    message: Seq<char>,
    data: Option<crate::json::JsonModel>,
    now: u64,
) -> crate::protocol::DebugPayloadModel {
    crate::protocol::DebugPayloadModel { level, component, message, data, timestamp: now }
}

impl WebSocketService {
    /// Drops every listed topic from the connection's subscriptions, keeping
    /// the order of the rest. A late update for a connection that is already
    /// gone is silently dropped.
    pub fn handle_unsubscribe(&mut self, id: ConnectionId, topics: &Vec<String>) -> (r: Result<
        (),
        HubError,
    >)
        requires
            old(self).wf(),
        ensures
            final(self).wf(),
            r == Ok::<(), HubError>(()),
            final(self).config == old(self).config,
            final(self).live_count == old(self).live_count,
            final(self).debug_enabled == old(self).debug_enabled,
            final(self).debug_logs == old(self).debug_logs,
            final(self).metrics == old(self).metrics,
            final(self).connections@.len() == old(self).connections@.len(),
            !old(self).has_conn(id) ==> *final(self) == *old(self),
            forall|j: int|
                0 <= j < old(self).connections@.len() && (#[trigger] old(
                    self,
                ).connections@[j]).info.id != id ==> final(self).connections@[j] == old(
                    self,
                ).connections@[j],
            forall|j: int|
                0 <= j < old(self).connections@.len() && (#[trigger] old(
                    self,
                ).connections@[j]).info.id == id ==> {
                    &&& final(self).connections@[j].queue == old(self).connections@[j].queue
                    &&& final(self).connections@[j].ping_sent_at == old(
                        self,
                    ).connections@[j].ping_sent_at
                    &&& final(self).connections@[j].info.subscriptions.deep_view()
                        == remove_topics(
                        old(self).connections@[j].info.subscriptions.deep_view(),
                        topics.deep_view(),
                    )
                    &&& final(self).connections@[j].info == (ConnectionInfo {
                        subscriptions: final(self).connections@[j].info.subscriptions,
                        ..old(self).connections@[j].info
                    })
                },
    {
        let i = match self.find_index(id) {
            Some(i) => i,
            None => {
                proof {
                    assert forall|j: int|
                        !(0 <= j < self.connections@.len() && (#[trigger] self.connections@[j]).info.id
                            == id) by {
                        if 0 <= j < self.connections@.len() && self.connections@[j].info.id == id {
                            assert(self.ids()[j] == id);
                        }
                    }
                }
                return Ok(());
            },
        };
        proof {
            assert(self.ids()[i as int] == id);
            assert forall|j: int|
                0 <= j < old(self).connections@.len() && (#[trigger] old(
                    self,
                ).connections@[j]).info.id == id implies j == i by {
                if j != i {
                    assert(old(self).ids()[j] == old(self).ids()[i as int]);
                }
            }
        }
        let ghost full = old(self).connections@[i as int].info.subscriptions.deep_view();
        let ghost ts = topics.deep_view();
        let mut kept: Vec<String> = Vec::new();
        let subs_len = self.connections[i].info.subscriptions.len();
        let mut k: usize = 0;
        proof {
            assert(full.skip(0) =~= full);
            assert(kept.deep_view() + remove_topics(full.skip(0), ts) =~= remove_topics(
                full,
                ts,
            ));
        }
        while k < subs_len
            invariant
                k <= subs_len,
                0 <= i < self.connections@.len(),
                subs_len == self.connections@[i as int].info.subscriptions@.len(),
                *self == *old(self),
                full == self.connections@[i as int].info.subscriptions.deep_view(),
                ts == topics.deep_view(),
                remove_topics(full, ts) == kept.deep_view() + remove_topics(
                    full.skip(k as int),
                    ts,
                ),
            decreases subs_len - k,
        {
            let sub = &self.connections[i].info.subscriptions[k];
            let dropped = contains_str(topics, sub.as_str());
            proof {
                assert(full.skip(k as int)[0] == full[k as int]);
                assert(full[k as int] == sub@);
                assert(full.skip(k as int).drop_first() =~= full.skip(k as int + 1));
            }
            if !dropped {
                let sc = sub.clone();
                kept.push(sc);
                proof {
                    assert(kept.deep_view() =~= kept.deep_view().drop_last().push(sub@));
                    assert(kept.deep_view().drop_last().push(sub@) + remove_topics(
                        full.skip(k as int + 1),
                        ts,
                    ) =~= kept.deep_view().drop_last() + (seq![full[k as int]] + remove_topics(
                        full.skip(k as int + 1),
                        ts,
                    )));
                }
            }
            k = k + 1;
        }
        proof {
            assert(full.skip(subs_len as int).len() == 0);
            assert(kept.deep_view() + remove_topics(full.skip(subs_len as int), ts) =~= kept.deep_view());
        }
        let entry = &mut self.connections[i];
        entry.info.subscriptions = kept;
        proof {
            assert(self.ids() =~= old(self).ids());
            assert forall|j: int|
                0 <= j < self.connections@.len() implies ((#[trigger] self.connections@[j]).queue@.len()
                    <= self.config.queue_capacity && self.connections@[j].info.counters_capped())
                by {
                if j != i {
                    assert(self.connections@[j] == old(self).connections@[j]);
                }
            }
        }
        Ok(())
    }

    /// Records one debug entry and rebroadcasts it on the `debug` topic, or
    /// does nothing at all while debug mode is off. The buffer keeps at most
    /// the configured number of entries, dropping the oldest.
    pub fn log_debug(
        &mut self,
        level: &str,
        component: &str,
        message: &str,
        data: Option<JsonValue>,
        now: u64,
    )
        requires
            old(self).wf(),
            now <= COUNTER_CAP,
        ensures
            final(self).wf(),
            !old(self).debug_enabled ==> *final(self) == *old(self),
            final(self).config == old(self).config,
            final(self).live_count == old(self).live_count,
            final(self).debug_enabled == old(self).debug_enabled,
            final(self).metrics == old(self).metrics,
            final(self).connections@.len() == old(self).connections@.len(),
            old(self).debug_enabled ==> {
                &&& log_views(final(self).debug_logs@) == ring_push(
                    log_views(old(self).debug_logs@),
                    spec_debug_entry(
                        level@,
                        component@,
                        message@,
                        match data {
                            Some(v) => Some(v@),
                            None => None,
                        },
                        now,
                    ),
                    old(self).config.debug.max_log_size as nat,
                )
                &&& forall|j: int|
                    0 <= j < old(self).connections@.len() ==> {
                        &&& (#[trigger] final(self).connections@[j]).info == old(
                            self,
                        ).connections@[j].info
                        &&& final(self).connections@[j].ping_sent_at == old(
                            self,
                        ).connections@[j].ping_sent_at
                        &&& queue_texts(final(self).connections@[j].queue@) == (if entry_eligible(
                            old(self).connections@[j],
                            spec_topic_string(SubscriptionTopicModel::Debug),
                        ) {
                            push_if_room(
                                queue_texts(old(self).connections@[j].queue@),
                                msg_text(
                                    WsMessageModel::Debug {
                                        payload: spec_debug_entry(
                                            level@,
                                            component@,
                                            message@,
                                            match data {
                                                Some(v) => Some(v@),
                                                None => None,
                                            },
                                            now,
                                        ),
                                    },
                                ),
                                old(self).config.queue_capacity as nat,
                            )
                        } else {
                            queue_texts(old(self).connections@[j].queue@)
                        })
                    }
            },
    {
        if !self.debug_enabled {
            return ;
        }
        let data_copy = match &data {
            Some(v) => Some(crate::json::json_clone(v)),
            None => None,
        };
        let entry = DebugPayload {
            level: level.to_owned(),
            component: component.to_owned(),
            message: message.to_owned(),
            data,
            timestamp: now,
        };
        let broadcast_entry = DebugPayload {
            level: level.to_owned(),
            component: component.to_owned(),
            message: message.to_owned(),
            data: data_copy,
            timestamp: now,
        };
        self.debug_logs.push(entry);
        if self.debug_logs.len() > self.config.debug.max_log_size {
            self.debug_logs.remove(0);
        }
        proof {
            assert(self.debug_logs@.len() <= self.config.debug.max_log_size);
            assert(self.connections@ == old(self).connections@);
            assert(self.ids() =~= old(self).ids());
            assert(self.wf());
            assert(log_views(self.debug_logs@) =~= ring_push(
                log_views(old(self).debug_logs@),
                spec_debug_entry(
                    level@,
                    component@,
                    message@,
                    match data {
                        Some(v) => Some(v@),
                        None => None,
                    },
                    now,
                ),
                old(self).config.debug.max_log_size as nat,
            ));
        }
        let msg = WsMessage::Debug { payload: broadcast_entry };
        proof {
            reveal_strlit("debug");
            assert("debug"@ =~= spec_topic_string(SubscriptionTopicModel::Debug));
        }
        self.broadcast_to_topic_str("debug", &msg);
    }

    /// Flips debug mode and, when it just came on, records that in the trace.
    /// Only future entries are affected either way.
    pub fn toggle_debug(&mut self, now: u64) -> (r: bool)
        requires
            old(self).wf(),
            now <= COUNTER_CAP,
        ensures
            final(self).wf(),
            r == !old(self).debug_enabled,
            final(self).debug_enabled == r,
            final(self).config == (WsConfig {
                debug: DebugConfig { enabled: r, ..old(self).config.debug },
                ..old(self).config
            }),
            final(self).live_count == old(self).live_count,
            final(self).metrics == old(self).metrics,
            final(self).connections@.len() == old(self).connections@.len(),
            !r ==> final(self).debug_logs == old(self).debug_logs && final(self).connections@
                == old(self).connections@,
    {
        let new_state = !self.debug_enabled;
        self.debug_enabled = new_state;
        self.config.debug.enabled = new_state;
        proof {
            assert(self.connections@ == old(self).connections@);
            assert(self.ids() =~= old(self).ids());
            assert(self.config.queue_capacity == old(self).config.queue_capacity);
            assert(self.wf());
        }
        if new_state {
            self.log_debug("info", "DebugToggle", "Debug mode enabled", None, now);
        } else {
            self.log_debug("info", "DebugToggle", "Debug mode disabled", None, now);
        }
        new_state
    }

    /// A copy of the stored debug entries, oldest first.
    pub fn get_debug_logs(&self) -> (r: Vec<DebugPayload>)
        ensures
            log_views(r@) == log_views(self.debug_logs@),
    {
        let mut out: Vec<DebugPayload> = Vec::new();
        let len = self.debug_logs.len();
        let mut i: usize = 0;
        while i < len
            invariant
                i <= len,
                len == self.debug_logs@.len(),
                out@.len() == i,
                forall|j: int| 0 <= j < i ==> (#[trigger] out@[j])@ == self.debug_logs@[j]@,
            decreases len - i,
        {
            let e = self.debug_logs[i].clone_entry();
            out.push(e);
            i = i + 1;
        }
        proof {
            assert(log_views(out@) =~= log_views(self.debug_logs@));
        }
        out
    }

    /// Empties the debug trace; while debug mode is on, the wipe itself is
    /// recorded as the first new entry.
    pub fn clear_debug_logs(&mut self, now: u64)
        requires
            old(self).wf(),
            now <= COUNTER_CAP,
        ensures
            final(self).wf(),
            final(self).config == old(self).config,
            final(self).debug_enabled == old(self).debug_enabled,
            final(self).metrics == old(self).metrics,
            final(self).live_count == old(self).live_count,
            final(self).connections@.len() == old(self).connections@.len(),
            !old(self).debug_enabled ==> {
                &&& final(self).debug_logs@.len() == 0
                &&& final(self).connections@ == old(self).connections@
            },
            old(self).debug_enabled ==> log_views(final(self).debug_logs@) == ring_push(
                Seq::empty(),
                spec_debug_entry(
                    seq!['i', 'n', 'f', 'o'],
                    seq!['D', 'e', 'b', 'u', 'g'],
                    seq![
                        'D',
                        'e',
                        'b',
                        'u',
                        'g',
                        ' ',
                        'l',
                        'o',
                        'g',
                        's',
                        ' ',
                        'c',
                        'l',
                        'e',
                        'a',
                        'r',
                        'e',
                        'd',
                    ],
                    None,
                    now,
                ),
                old(self).config.debug.max_log_size as nat,
            ),
    {
        self.debug_logs.clear();
        proof {
            reveal_strlit("info");
            reveal_strlit("Debug");
            reveal_strlit("Debug logs cleared");
            assert("info"@ =~= seq!['i', 'n', 'f', 'o']);
            assert("Debug"@ =~= seq!['D', 'e', 'b', 'u', 'g']);
            assert("Debug logs cleared"@ =~= seq![
                'D',
                'e',
                'b',
                'u',
                'g',
                ' ',
                'l',
                'o',
                'g',
                's',
                ' ',
                'c',
                'l',
                'e',
                'a',
                'r',
                'e',
                'd',
            ]);
            assert(log_views(self.debug_logs@) =~= Seq::<crate::protocol::DebugPayloadModel>::empty());
            assert(self.connections@ == old(self).connections@);
            assert(self.ids() =~= old(self).ids());
            assert(self.wf());
        }
        self.log_debug("info", "Debug", "Debug logs cleared", None, now);
    }
}

/// A point-in-time reading of the service: the lifetime counters beside the
/// current live count and debug state.
pub struct MetricsSnapshot {
    pub service: ServiceMetrics,
    pub active_connections: usize,
    pub debug_enabled: bool,
    pub debug_log_count: usize,
}

impl WebSocketService {
    /// The lifetime counters, the live count, and the debug state, read
    /// together.
    pub fn get_metrics(&self) -> (r: MetricsSnapshot)
        requires
            self.wf(),
        ensures
            r.service == self.metrics,
            r.active_connections == self.connections@.len(),
            r.debug_enabled == self.debug_enabled,
            r.debug_log_count == self.debug_logs@.len(),
    {
        MetricsSnapshot {
            service: self.metrics,
            active_connections: self.live_count,
            debug_enabled: self.debug_enabled,
            debug_log_count: self.debug_logs.len(),
        }
    }

    /// The read-only point-in-time view of every live connection: one summary
    /// line per record, in registration order.
    pub fn snapshot(&self, now: u64) -> (r: Vec<ConnectionSummary>)
        ensures
            r@.len() == self.connections@.len(),
            forall|j: int|
                0 <= j < r@.len() ==> (#[trigger] r@[j])@ == self.connections@[
                    j
                ].info.spec_summary(now),
    {
        let len = self.connections.len();
        let mut summaries: Vec<ConnectionSummary> = Vec::new();
        let mut i: usize = 0;
        while i < len
            invariant
                i <= len,
                len == self.connections@.len(),
                summaries@.len() == i,
                forall|j: int|
                    0 <= j < i ==> (#[trigger] summaries@[j])@ == self.connections@[
                        j
                    ].info.spec_summary(now),
            decreases len - i,
        {
            let s = self.connections[i].info.to_summary(now);
            summaries.push(s);
            i = i + 1;
        }
        summaries
    }

    /// The same reading under its older name.
    pub fn get_service_stats(&self) -> (r: MetricsSnapshot)
        requires
            self.wf(),
        ensures
            r.service == self.metrics,
            r.active_connections == self.connections@.len(),
            r.debug_enabled == self.debug_enabled,
            r.debug_log_count == self.debug_logs@.len(),
    {
        self.get_metrics()
    }
}

/// The welcome payload carved out of a registry record.
pub open spec fn spec_details_of(info: ConnectionInfo) -> crate::protocol::ConnectionDetailsModel {
    crate::protocol::ConnectionDetailsModel {
        connection_id: info.id,
        ip: match info.remote_addr {
            Some(a) => a@,
            None => seq!['U', 'n', 'k', 'n', 'o', 'w', 'n'],
        },
        connected_at: info.connected_at,
        user_agent: info.user_agent.deep_view(),
    }
}

/// The error envelope sent back for a frame whose tag names no variant.
pub open spec fn unknown_tag_error() -> WsMessageModel {
    WsMessageModel::Error {
        payload: crate::protocol::ErrorPayloadModel {
            message: seq![
                'U',
                'n',
                'k',
                'n',
                'o',
                'w',
                'n',
                ' ',
                'm',
                'e',
                's',
                's',
                'a',
                'g',
                'e',
                ' ',
                't',
                'y',
                'p',
                'e',
            ],
            code: None,
            details: None,
        },
    }
}

impl WebSocketService {
    /// Builds this connection's own welcome payload again and queues it to
    /// that connection alone.
    pub fn send_connection_info(&mut self, id: ConnectionId) -> (r: Result<(), HubError>)
        requires
            old(self).wf(),
        ensures
            final(self).wf(),
            final(self).config == old(self).config,
            final(self).live_count == old(self).live_count,
            final(self).debug_enabled == old(self).debug_enabled,
            final(self).debug_logs == old(self).debug_logs,
            final(self).metrics == old(self).metrics,
            final(self).connections@.len() == old(self).connections@.len(),
            !old(self).has_conn(id) ==> r == Err::<(), HubError>(HubError::ConnectionNotFound)
                && *final(self) == *old(self),
            forall|j: int|
                0 <= j < old(self).connections@.len() && (#[trigger] old(
                    self,
                ).connections@[j]).info.id != id ==> final(self).connections@[j] == old(
                    self,
                ).connections@[j],
            forall|j: int|
                0 <= j < old(self).connections@.len() && (#[trigger] old(
                    self,
                ).connections@[j]).info.id == id ==> {
                    &&& final(self).connections@[j].info == old(self).connections@[j].info
                    &&& final(self).connections@[j].ping_sent_at == old(
                        self,
                    ).connections@[j].ping_sent_at
                    &&& queue_texts(final(self).connections@[j].queue@) == push_if_room(
                        queue_texts(old(self).connections@[j].queue@),
                        msg_text(
                            WsMessageModel::ConnectionInfo {
                                payload: spec_details_of(old(self).connections@[j].info),
                            },
                        ),
                        old(self).config.queue_capacity as nat,
                    )
                    &&& (old(self).connections@[j].queue@.len() < old(
                        self,
                    ).config.queue_capacity ==> r == Ok::<(), HubError>(()))
                    &&& (old(self).connections@[j].queue@.len() >= old(
                        self,
                    ).config.queue_capacity ==> r == Err::<(), HubError>(HubError::QueueFull))
                },
    {
        let i = match self.find_index(id) {
            Some(i) => i,
            None => {
                proof {
                    assert forall|j: int|
                        !(0 <= j < self.connections@.len() && (#[trigger] self.connections@[j]).info.id
                            == id) by {
                        if 0 <= j < self.connections@.len() && self.connections@[j].info.id == id {
                            assert(self.ids()[j] == id);
                        }
                    }
                }
                return Err(HubError::ConnectionNotFound);
            },
        };
        proof {
            assert(self.ids()[i as int] == id);
            assert(self.has_conn(id));
            assert forall|j: int|
                0 <= j < self.connections@.len() && (#[trigger] self.connections@[j]).info.id == id
                implies j == i by {
                if j != i {
                    assert(self.ids()[j] == self.ids()[i as int]);
                }
            }
        }
        let ip = match &self.connections[i].info.remote_addr {
            Some(a) => a.clone(),
            None => {
                let s = String::from_str("Unknown");
                proof {
                    reveal_strlit("Unknown");
                    assert(s@ =~= seq!['U', 'n', 'k', 'n', 'o', 'w', 'n']);
                }
                s
            },
        };
        let user_agent = match &self.connections[i].info.user_agent {
            Some(a) => Some(a.clone()),
            None => None,
        };
        let details = ConnectionDetails {
            connection_id: id,
            ip,
            connected_at: self.connections[i].info.connected_at,
            user_agent,
        };
        let msg = WsMessage::ConnectionInfo { payload: details };
        proof {
            assert(msg@ == WsMessageModel::ConnectionInfo {
                payload: spec_details_of(self.connections@[i as int].info),
            });
            assert(self.connections@[i as int].info.counters_capped());
        }
        self.send_to_connection(id, &msg)
    }

    /// Builds the live-connections snapshot and queues it to one connection
    /// alone.
    pub fn send_active_connections(&mut self, id: ConnectionId, now: u64) -> (r: Result<
        (),
        HubError,
    >)
        requires
            old(self).wf(),
        ensures
            final(self).wf(),
            final(self).config == old(self).config,
            final(self).live_count == old(self).live_count,
            final(self).debug_enabled == old(self).debug_enabled,
            final(self).debug_logs == old(self).debug_logs,
            final(self).metrics == old(self).metrics,
            final(self).connections@.len() == old(self).connections@.len(),
            !old(self).has_conn(id) ==> r == Err::<(), HubError>(HubError::ConnectionNotFound)
                && *final(self) == *old(self),
            forall|j: int|
                0 <= j < old(self).connections@.len() && (#[trigger] old(
                    self,
                ).connections@[j]).info.id != id ==> final(self).connections@[j] == old(
                    self,
                ).connections@[j],
            forall|j: int|
                0 <= j < old(self).connections@.len() && (#[trigger] old(
                    self,
                ).connections@[j]).info.id == id ==> {
                    &&& final(self).connections@[j].info == old(self).connections@[j].info
                    &&& final(self).connections@[j].ping_sent_at == old(
                        self,
                    ).connections@[j].ping_sent_at
                    &&& queue_texts(final(self).connections@[j].queue@) == push_if_room(
                        queue_texts(old(self).connections@[j].queue@),
                        stats_text_of(old(self).connections@, now),
                        old(self).config.queue_capacity as nat,
                    )
                    &&& (old(self).connections@[j].queue@.len() < old(
                        self,
                    ).config.queue_capacity ==> r == Ok::<(), HubError>(()))
                    &&& (old(self).connections@[j].queue@.len() >= old(
                        self,
                    ).config.queue_capacity ==> r == Err::<(), HubError>(HubError::QueueFull))
                },
    {
        let len = self.connections.len();
        let mut summaries: Vec<ConnectionSummary> = Vec::new();
        let mut i: usize = 0;
        while i < len
            invariant
                i <= len,
                len == self.connections@.len(),
                summaries@.len() == i,
                forall|j: int|
                    0 <= j < i ==> (#[trigger] summaries@[j])@ == self.connections@[
                        j
                    ].info.spec_summary(now),
            decreases len - i,
        {
            let s = self.connections[i].info.to_summary(now);
            summaries.push(s);
            i = i + 1;
        }
        let stats = ConnectionStats { count: self.live_count as u64, connections: summaries };
        let msg = WsMessage::ActiveConnections { payload: stats };
        proof {
            assert(msg@->ActiveConnections_payload.connections =~= spec_stats_of(
                self.connections@,
                now,
            ).connections);
            assert(msg@ == WsMessageModel::ActiveConnections {
                payload: spec_stats_of(self.connections@, now),
            });
            assert forall|j: int|
                0 <= j < msg@->ActiveConnections_payload.connections.len() implies {
                &&& (#[trigger] msg@->ActiveConnections_payload.connections[j]).message_count
                    <= i64::MAX
                &&& msg@->ActiveConnections_payload.connections[j].bytes_sent <= i64::MAX
                &&& msg@->ActiveConnections_payload.connections[j].bytes_received <= i64::MAX
            } by {
                assert(self.connections@[j].info.counters_capped());
            }
            assert(spec_encodable(msg@));
        }
        self.send_to_connection(id, &msg)
    }
}

/// Everything an inbound frame may do to the hub, by how it decodes. This is
/// the contract of [`WebSocketService::handle_incoming_message`].
pub open spec fn spec_incoming_effect(
    pre: WebSocketService,
    post: WebSocketService,
    id: ConnectionId,
    raw_len: usize,
    pv: Option<crate::json::JsonModel>,
    r: Result<(), HubError>,
    now: u64,
) -> bool {
    if raw_len > pre.config.max_message_size {
        post == pre && r == Err::<(), HubError>(HubError::MessageTooLarge)
    } else {
        match pv {
            None => post == pre && r == Err::<(), HubError>(HubError::DeserializationError),
            Some(v) => match crate::codec::spec_decode(v) {
                Err(crate::codec::DecodeError::BadShape) => post == pre && r == Err::<
                    (),
                    HubError,
                >(HubError::DeserializationError),
                Err(crate::codec::DecodeError::UnknownTag) => r == Ok::<(), HubError>(())
                    && frame_kept(pre, post) && post.metrics == pre.metrics && queued_only_to(
                    pre,
                    post,
                    id,
                    msg_text(unknown_tag_error()),
                ),
                Ok(m) => match m {
                    WsMessageModel::Ping => frame_kept(pre, post) && post.metrics == pre.metrics
                        && queued_only_to(pre, post, id, msg_text(WsMessageModel::Pong))
                        && send_outcome(pre, id, r),
                    WsMessageModel::Pong => r == Ok::<(), HubError>(()) && frame_kept(pre, post)
                        && pong_effect(pre, post, id, now),
                    WsMessageModel::RequestConnectionInfo => frame_kept(pre, post)
                        && post.metrics == pre.metrics && (forall|j: int|
                        0 <= j < pre.connections@.len() && (#[trigger] pre.connections@[j]).info.id
                            == id ==> queued_only_to(
                            pre,
                            post,
                            id,
                            msg_text(
                                WsMessageModel::ConnectionInfo {
                                    payload: spec_details_of(pre.connections@[j].info),
                                },
                            ),
                        )) && send_outcome(pre, id, r) && (!pre.has_conn(id) ==> post == pre),
                    WsMessageModel::RequestActiveConnections => frame_kept(pre, post)
                        && post.metrics == pre.metrics && queued_only_to(
                        pre,
                        post,
                        id,
                        stats_text_of(pre.connections@, now),
                    ) && send_outcome(pre, id, r),
                    WsMessageModel::Subscribe { topics } => r == Ok::<(), HubError>(())
                        && frame_kept(pre, post) && post.metrics == pre.metrics && topics_added(
                        pre,
                        post,
                        id,
                        topics,
                    ),
                    WsMessageModel::Unsubscribe { topics } => r == Ok::<(), HubError>(())
                        && frame_kept(pre, post) && post.metrics == pre.metrics && topics_removed(
                        pre,
                        post,
                        id,
                        topics,
                    ),
                    WsMessageModel::Custom { event, payload } => r == Ok::<(), HubError>(())
                        && frame_kept(pre, post) && post.metrics == pre.metrics && (forall|j: int|
                        0 <= j < pre.connections@.len() ==> {
                            &&& (#[trigger] post.connections@[j]).info == pre.connections@[j].info
                            &&& post.connections@[j].ping_sent_at == pre.connections@[
                                j
                            ].ping_sent_at
                            &&& queue_texts(post.connections@[j].queue@) == push_if_room(
                                queue_texts(pre.connections@[j].queue@),
                                msg_text(WsMessageModel::Custom { event, payload }),
                                pre.config.queue_capacity as nat,
                            )
                        }),
                    _ => post == pre && r == Ok::<(), HubError>(()),
                },
            },
        }
    }
}

/// The parts of the hub an inbound frame never touches.
pub open spec fn frame_kept(pre: WebSocketService, post: WebSocketService) -> bool {
    &&& post.config == pre.config
    &&& post.live_count == pre.live_count
    &&& post.debug_enabled == pre.debug_enabled
    &&& post.debug_logs == pre.debug_logs
    &&& post.connections@.len() == pre.connections@.len()
}

/// Exactly one text joined `id`'s queue, room permitting; every other
/// connection is untouched, and `id`'s record is untouched besides its queue.
pub open spec fn queued_only_to(
    pre: WebSocketService,
    post: WebSocketService,
    id: ConnectionId,
    text: Seq<char>,
) -> bool {
    &&& forall|j: int|
        0 <= j < pre.connections@.len() && (#[trigger] pre.connections@[j]).info.id != id
            ==> post.connections@[j] == pre.connections@[j]
    &&& forall|j: int|
        0 <= j < pre.connections@.len() && (#[trigger] pre.connections@[j]).info.id == id ==> {
            &&& post.connections@[j].info == pre.connections@[j].info
            &&& post.connections@[j].ping_sent_at == pre.connections@[j].ping_sent_at
            &&& queue_texts(post.connections@[j].queue@) == push_if_room(
                queue_texts(pre.connections@[j].queue@),
                text,
                pre.config.queue_capacity as nat,
            )
        }
    &&& (!pre.has_conn(id) ==> post == pre)
}

/// How a delivery to `id` reports: missing target, full queue, or success.
pub open spec fn send_outcome(
    pre: WebSocketService,
    id: ConnectionId,
    r: Result<(), HubError>,
) -> bool {
    &&& (!pre.has_conn(id) ==> r == Err::<(), HubError>(HubError::ConnectionNotFound))
    &&& forall|j: int|
        0 <= j < pre.connections@.len() && (#[trigger] pre.connections@[j]).info.id == id ==> {
            &&& (pre.connections@[j].queue@.len() < pre.config.queue_capacity ==> r == Ok::<
                (),
                HubError,
            >(()))
            &&& (pre.connections@[j].queue@.len() >= pre.config.queue_capacity ==> r == Err::<
                (),
                HubError,
            >(HubError::QueueFull))
        }
}

/// A pong stamps the measured latency on the record and folds it into the
/// average, exactly when a supervisor ping was outstanding.
pub open spec fn pong_effect(
    pre: WebSocketService,
    post: WebSocketService,
    id: ConnectionId,
    now: u64,
) -> bool {
    &&& (!pre.has_conn(id) ==> post == pre)
    &&& forall|j: int|
        0 <= j < pre.connections@.len() && (#[trigger] pre.connections@[j]).info.id != id
            ==> post.connections@[j] == pre.connections@[j]
    &&& forall|j: int|
        0 <= j < pre.connections@.len() && (#[trigger] pre.connections@[j]).info.id == id ==> {
            match pre.connections@[j].ping_sent_at {
                Some(t0) => {
                    &&& post.connections@[j].queue == pre.connections@[j].queue
                    &&& post.connections@[j].ping_sent_at == pre.connections@[j].ping_sent_at
                    &&& post.connections@[j].info == (ConnectionInfo {
                        ping_latency_ms: Some(spec_sat_sub(now, t0)),
                        ..pre.connections@[j].info
                    })
                    &&& post.metrics == (ServiceMetrics {
                        avg_ping_latency_ms: spec_ema(
                            pre.metrics.avg_ping_latency_ms,
                            spec_sat_sub(now, t0),
                        ),
                        ..pre.metrics
                    })
                },
                None => post == pre,
            }
        }
}

/// `id`'s subscriptions gained these topics; everything else is untouched.
pub open spec fn topics_added(
    pre: WebSocketService,
    post: WebSocketService,
    id: ConnectionId,
    topics: Seq<Seq<char>>,
) -> bool {
    &&& (!pre.has_conn(id) ==> post == pre)
    &&& forall|j: int|
        0 <= j < pre.connections@.len() && (#[trigger] pre.connections@[j]).info.id != id
            ==> post.connections@[j] == pre.connections@[j]
    &&& forall|j: int|
        0 <= j < pre.connections@.len() && (#[trigger] pre.connections@[j]).info.id == id ==> {
            &&& post.connections@[j].queue == pre.connections@[j].queue
            &&& post.connections@[j].ping_sent_at == pre.connections@[j].ping_sent_at
            &&& post.connections@[j].info.subscriptions.deep_view() == add_topics(
                pre.connections@[j].info.subscriptions.deep_view(),
                topics,
            )
            &&& post.connections@[j].info == (ConnectionInfo {
                subscriptions: post.connections@[j].info.subscriptions,
                ..pre.connections@[j].info
            })
        }
}

/// `id`'s subscriptions lost these topics; everything else is untouched.
pub open spec fn topics_removed(
    pre: WebSocketService,
    post: WebSocketService,
    id: ConnectionId,
    topics: Seq<Seq<char>>,
) -> bool {
    &&& (!pre.has_conn(id) ==> post == pre)
    &&& forall|j: int|
        0 <= j < pre.connections@.len() && (#[trigger] pre.connections@[j]).info.id != id
            ==> post.connections@[j] == pre.connections@[j]
    &&& forall|j: int|
        0 <= j < pre.connections@.len() && (#[trigger] pre.connections@[j]).info.id == id ==> {
            &&& post.connections@[j].queue == pre.connections@[j].queue
            &&& post.connections@[j].ping_sent_at == pre.connections@[j].ping_sent_at
            &&& post.connections@[j].info.subscriptions.deep_view() == remove_topics(
                pre.connections@[j].info.subscriptions.deep_view(),
                topics,
            )
            &&& post.connections@[j].info == (ConnectionInfo {
                subscriptions: post.connections@[j].info.subscriptions,
                ..pre.connections@[j].info
            })
        }
}

impl WebSocketService {
    /// Takes one inbound frame, already parsed as JSON by the transport (or
    /// not: `None` marks unparsable text), and acts on it: size gate first,
    /// then decode, then the envelope's own meaning, as
    /// [`spec_incoming_effect`] lays out case by case. A ping is answered
    /// with exactly one pong to the same connection before anything else; a
    /// malformed frame changes nothing and is reported, never a panic.
    #[verifier::rlimit(100)]
    pub fn handle_incoming_message(
        &mut self,
        id: ConnectionId,
        raw_len: usize,
        parsed: Option<&JsonValue>,
        now: u64,
    ) -> (r: Result<(), HubError>)
        requires
            old(self).wf(),
        ensures
            final(self).wf(),
            spec_incoming_effect(
                *old(self),
                *final(self),
                id,
                raw_len,
                match parsed {
                    Some(v) => Some(v@),
                    None => None,
                },
                r,
                now,
            ),
    {
        if raw_len > self.config.max_message_size {
            return Err(HubError::MessageTooLarge);
        }
        let v = match parsed {
            Some(v) => v,
            None => {
                return Err(HubError::DeserializationError);
            },
        };
        let decoded = match crate::codec::decode_envelope(v) {
            Ok(m) => m,
            Err(crate::codec::DecodeError::BadShape) => {
                return Err(HubError::DeserializationError);
            },
            Err(crate::codec::DecodeError::UnknownTag) => {
                let reply = WsMessage::Error {
                    payload: crate::protocol::ErrorPayload {
                        message: String::from_str("Unknown message type"),
                        code: None,
                        details: None,
                    },
                };
                proof {
                    reveal_strlit("Unknown message type");
                    assert("Unknown message type"@ =~= seq![
                        'U',
                        'n',
                        'k',
                        'n',
                        'o',
                        'w',
                        'n',
                        ' ',
                        'm',
                        'e',
                        's',
                        's',
                        'a',
                        'g',
                        'e',
                        ' ',
                        't',
                        'y',
                        'p',
                        'e',
                    ]);
                    assert(reply@ == unknown_tag_error());
                }
                let _ = self.send_to_connection(id, &reply);
                proof {
                    if !old(self).has_conn(id) {
                        assert(*self == *old(self));
                    }
                }
                return Ok(());
            },
        };
        let res: Result<(), HubError> = match &decoded {
            WsMessage::Ping => {
                let r = self.send_to_connection(id, &WsMessage::Pong);
                proof {
                    if !old(self).has_conn(id) {
                        assert(*self == *old(self));
                    }
                    assert(frame_kept(*old(self), *self));
                    assert(queued_only_to(*old(self), *self, id, msg_text(WsMessageModel::Pong)));
                    assert(send_outcome(*old(self), id, r));
                    assert(spec_incoming_effect(*old(self), *self, id, raw_len, Some(v@), r, now));
                }
                r
            },
            WsMessage::Pong => {
                let i = match self.find_index(id) {
                    Some(i) => i,
                    None => {
                        proof {
                            assert forall|j: int|
                                !(0 <= j < self.connections@.len() && (#[trigger] self.connections@[j]).info.id
                                    == id) by {
                                if 0 <= j < self.connections@.len() && self.connections@[j].info.id
                                    == id {
                                    assert(self.ids()[j] == id);
                                }
                            }
                        }
                        return Ok(());
                    },
                };
                proof {
                    assert(self.ids()[i as int] == id);
                    assert forall|j: int|
                        0 <= j < self.connections@.len() && (#[trigger] self.connections@[j]).info.id
                            == id implies j == i by {
                        if j != i {
                            assert(self.ids()[j] == self.ids()[i as int]);
                        }
                    }
                }
                let sent_at = self.connections[i].ping_sent_at;
                match sent_at {
                    Some(t0) => {
                        let latency = sat_sub(now, t0);
                        let entry = &mut self.connections[i];
                        entry.info.ping_latency_ms = Some(latency);
                        self.metrics.avg_ping_latency_ms = ema_update(
                            self.metrics.avg_ping_latency_ms,
                            latency,
                        );
                        proof {
                            assert(self.ids() =~= old(self).ids());
                            assert forall|j: int|
                                0 <= j < self.connections@.len() implies ((
                                #[trigger] self.connections@[j]).queue@.len()
                                    <= self.config.queue_capacity
                                    && self.connections@[j].info.counters_capped()) by {
                                if j != i {
                                    assert(self.connections@[j] == old(self).connections@[j]);
                                }
                            }
                        }
                    },
                    None => {},
                }
                proof {
                    assert(spec_incoming_effect(*old(self), *self, id, raw_len, Some(v@), Ok(()), now));
                }
                Ok(())
            },
            WsMessage::RequestConnectionInfo => {
                let r = self.send_connection_info(id);
                proof {
                    if !old(self).has_conn(id) {
                        assert(*self == *old(self));
                    }
                    assert forall|j: int, j2: int|
                        0 <= j < old(self).connections@.len() && (#[trigger] old(
                            self,
                        ).connections@[j]).info.id == id && 0 <= j2 < old(
                            self,
                        ).connections@.len() && (#[trigger] old(self).connections@[j2]).info.id
                            == id implies j == j2 by {
                        if j != j2 {
                            assert(old(self).ids()[j] == old(self).ids()[j2]);
                        }
                    }
                    assert(spec_incoming_effect(*old(self), *self, id, raw_len, Some(v@), r, now));
                }
                r
            },
            WsMessage::RequestActiveConnections => {
                let r = self.send_active_connections(id, now);
                proof {
                    if !old(self).has_conn(id) {
                        assert(*self == *old(self));
                    }
                    assert(spec_incoming_effect(*old(self), *self, id, raw_len, Some(v@), r, now));
                }
                r
            },
            WsMessage::Subscribe { payload } => {
                let r = self.handle_subscribe(id, &payload.topics);
                proof {
                    if !old(self).has_conn(id) {
                        assert(*self == *old(self));
                    }
                    assert(r == Ok::<(), HubError>(()));
                    assert(frame_kept(*old(self), *self));
                    assert(self.metrics == old(self).metrics);
                    assert(decoded@ == WsMessageModel::Subscribe {
                        topics: payload.topics.deep_view(),
                    });
                    assert(topics_added(*old(self), *self, id, payload.topics.deep_view()));
                    assert(spec_incoming_effect(*old(self), *self, id, raw_len, Some(v@), r, now));
                }
                r
            },
            WsMessage::Unsubscribe { payload } => {
                let r = self.handle_unsubscribe(id, &payload.topics);
                proof {
                    if !old(self).has_conn(id) {
                        assert(*self == *old(self));
                    }
                    assert(r == Ok::<(), HubError>(()));
                    assert(frame_kept(*old(self), *self));
                    assert(self.metrics == old(self).metrics);
                    assert(decoded@ == WsMessageModel::Unsubscribe {
                        topics: payload.topics.deep_view(),
                    });
                    assert(topics_removed(*old(self), *self, id, payload.topics.deep_view()));
                    assert(spec_incoming_effect(*old(self), *self, id, raw_len, Some(v@), r, now));
                }
                r
            },
            WsMessage::Custom { event, payload } => {
                self.broadcast_to_all(&decoded);
                proof {
                    assert(spec_incoming_effect(*old(self), *self, id, raw_len, Some(v@), Ok(()), now));
                }
                Ok(())
            },
            _ => {
                proof {
                    assert(spec_incoming_effect(*old(self), *self, id, raw_len, Some(v@), Ok(()), now));
                }
                Ok(())
            },
        };
        res
    }
}

/// The entries that outlive a supervisor sweep at time `now`: exactly those
/// with activity inside the timeout, in their original order.
pub open spec fn keep_fresh(
    entries: Seq<ConnectionEntry>,
    timeout_ms: u64,
    now: u64,
) -> Seq<ConnectionEntry>
    decreases entries.len(),
{
    if entries.len() == 0 {
        Seq::empty()
    } else if entries[0].info.spec_is_stale(timeout_ms, now) {
        keep_fresh(entries.drop_first(), timeout_ms, now)
    } else {
        seq![entries[0]] + keep_fresh(entries.drop_first(), timeout_ms, now)
    }
}

/// Every survivor of a sweep is one of the original entries, and survivors
/// keep pairwise-distinct ids whenever the originals had them.
proof fn lemma_keep_fresh_facts(entries: Seq<ConnectionEntry>, timeout_ms: u64, now: u64)
    ensures
        keep_fresh(entries, timeout_ms, now).len() <= entries.len(),
        forall|k: int|
            0 <= k < keep_fresh(entries, timeout_ms, now).len() ==> exists|j: int|
                0 <= j < entries.len() && entries[j] == #[trigger] keep_fresh(
                    entries,
                    timeout_ms,
                    now,
                )[k] && !entries[j].info.spec_is_stale(timeout_ms, now),
        (forall|i: int, j: int|
            0 <= i < j < entries.len() ==> (#[trigger] entries[i]).info.id != (
            #[trigger] entries[j]).info.id) ==> (forall|i: int, j: int|
            0 <= i < j < keep_fresh(entries, timeout_ms, now).len() ==> (#[trigger] keep_fresh(
                entries,
                timeout_ms,
                now,
            )[i]).info.id != (#[trigger] keep_fresh(entries, timeout_ms, now)[j]).info.id),
    decreases entries.len(),
{
    if entries.len() > 0 {
        let rest = entries.drop_first();
        lemma_keep_fresh_facts(rest, timeout_ms, now);
        let kept = keep_fresh(entries, timeout_ms, now);
        let kept_rest = keep_fresh(rest, timeout_ms, now);
        assert forall|k: int|
            0 <= k < kept.len() implies exists|j: int|
            0 <= j < entries.len() && entries[j] == #[trigger] kept[k]
                && !entries[j].info.spec_is_stale(timeout_ms, now) by {
            if entries[0].info.spec_is_stale(timeout_ms, now) {
                let j0 = choose|j: int|
                    0 <= j < rest.len() && rest[j] == #[trigger] kept_rest[k]
                        && !rest[j].info.spec_is_stale(timeout_ms, now);
                assert(entries[j0 + 1] == kept[k]);
            } else {
                if k == 0 {
                    assert(entries[0] == kept[0]);
                } else {
                    let j0 = choose|j: int|
                        0 <= j < rest.len() && rest[j] == #[trigger] kept_rest[k - 1]
                            && !rest[j].info.spec_is_stale(timeout_ms, now);
                    assert(entries[j0 + 1] == kept[k]);
                }
            }
        }
        if forall|i: int, j: int|
            0 <= i < j < entries.len() ==> (#[trigger] entries[i]).info.id != (
            #[trigger] entries[j]).info.id {
            assert forall|i: int, j: int|
                0 <= i < j < rest.len() implies (#[trigger] rest[i]).info.id != (
            #[trigger] rest[j]).info.id by {
                assert(rest[i] == entries[i + 1]);
                assert(rest[j] == entries[j + 1]);
            }
            assert forall|i: int, j: int|
                0 <= i < j < kept.len() implies (#[trigger] kept[i]).info.id != (
            #[trigger] kept[j]).info.id by {
                if entries[0].info.spec_is_stale(timeout_ms, now) {
                    assert(kept[i] == kept_rest[i]);
                    assert(kept[j] == kept_rest[j]);
                } else {
                    if i == 0 {
                        assert(kept[0] == entries[0]);
                        assert(kept[j] == kept_rest[j - 1]);
                        let j0 = choose|w: int|
                            0 <= w < rest.len() && rest[w] == kept_rest[j - 1]
                                && !rest[w].info.spec_is_stale(timeout_ms, now);
                        assert(entries[j0 + 1] == kept[j]);
                        assert(entries[0].info.id != entries[j0 + 1].info.id);
                    } else {
                        assert(kept[i] == kept_rest[i - 1]);
                        assert(kept[j] == kept_rest[j - 1]);
                    }
                }
            }
        }
    }
}

impl WebSocketService {
    /// Drops every stale record, in one pass, keeping the others in order.
    fn evict_stale(&mut self, now: u64) -> (removed_any: bool)
        requires
            old(self).wf(),
        ensures
            final(self).wf(),
            final(self).config == old(self).config,
            final(self).debug_enabled == old(self).debug_enabled,
            final(self).debug_logs == old(self).debug_logs,
            final(self).metrics == old(self).metrics,
            final(self).connections@ == keep_fresh(
                old(self).connections@,
                old(self).config.connection_timeout_ms,
                now,
            ),
            final(self).live_count == final(self).connections@.len(),
            removed_any == (final(self).connections@.len() < old(self).connections@.len()),
    {
        let timeout = self.config.connection_timeout_ms;
        let cap = self.config.queue_capacity;
        let ghost pre_entries = self.connections@;
        let pre_len = self.connections.len();
        let mut kept: Vec<ConnectionEntry> = Vec::new();
        proof {
            assert(keep_fresh(pre_entries, timeout, now) =~= kept@ + keep_fresh(
                self.connections@,
                timeout,
                now,
            ));
        }
        while self.connections.len() > 0
            invariant
                self.config == old(self).config,
                self.live_count == old(self).live_count,
                self.debug_enabled == old(self).debug_enabled,
                self.debug_logs == old(self).debug_logs,
                self.metrics == old(self).metrics,
                timeout == self.config.connection_timeout_ms,
                cap == self.config.queue_capacity,
                pre_len == pre_entries.len(),
                kept@.len() + self.connections@.len() <= pre_len,
                keep_fresh(pre_entries, timeout, now) == kept@ + keep_fresh(
                    self.connections@,
                    timeout,
                    now,
                ),
                forall|j: int|
                    0 <= j < self.connections@.len() ==> (#[trigger] self.connections@[j]).queue@.len()
                        <= cap && self.connections@[j].info.counters_capped(),
                forall|j: int|
                    0 <= j < kept@.len() ==> (#[trigger] kept@[j]).queue@.len() <= cap
                        && kept@[j].info.counters_capped(),
            decreases self.connections@.len(),
        {
            let ghost before = self.connections@;
            let e = self.connections.remove(0);
            let stale = e.info.is_stale(timeout, now);
            proof {
                assert(self.connections@ =~= before.drop_first());
                assert(before[0] == e);
            }
            if !stale {
                kept.push(e);
            }
            proof {
                assert(keep_fresh(pre_entries, timeout, now) =~= kept@ + keep_fresh(
                    self.connections@,
                    timeout,
                    now,
                ));
            }
        }
        proof {
            assert(keep_fresh(self.connections@, timeout, now) =~= Seq::<ConnectionEntry>::empty());
            assert(kept@ =~= keep_fresh(pre_entries, timeout, now));
        }
        self.connections = kept;
        self.live_count = self.connections.len();
        let removed_any = self.live_count < pre_len;
        proof {
            lemma_keep_fresh_facts(pre_entries, timeout, now);
            assert forall|i: int, j: int|
                0 <= i < j < pre_entries.len() implies (#[trigger] pre_entries[i]).info.id != (
            #[trigger] pre_entries[j]).info.id by {
                assert(old(self).ids()[i] == pre_entries[i].info.id);
                assert(old(self).ids()[j] == pre_entries[j].info.id);
            }
            assert forall|a: int, b: int|
                0 <= a < b < self.connections@.len() implies self.ids()[a] != self.ids()[b] by {
                assert(self.ids()[a] == self.connections@[a].info.id);
                assert(self.ids()[b] == self.connections@[b].info.id);
            }
            assert(self.wf());
        }
        removed_any
    }

    /// Pings every connection, room permitting, and notes the moment on each
    /// record.
    fn ping_all(&mut self, now: u64)
        requires
            old(self).wf(),
        ensures
            final(self).wf(),
            final(self).config == old(self).config,
            final(self).debug_enabled == old(self).debug_enabled,
            final(self).debug_logs == old(self).debug_logs,
            final(self).metrics == old(self).metrics,
            final(self).live_count == old(self).live_count,
            final(self).connections@.len() == old(self).connections@.len(),
            forall|j: int|
                0 <= j < old(self).connections@.len() ==> {
                    &&& (#[trigger] final(self).connections@[j]).info == old(
                        self,
                    ).connections@[j].info
                    &&& final(self).connections@[j].ping_sent_at == Some(now)
                    &&& queue_texts(final(self).connections@[j].queue@) == push_if_room(
                        queue_texts(old(self).connections@[j].queue@),
                        msg_text(WsMessageModel::Ping),
                        old(self).config.queue_capacity as nat,
                    )
                },
    {
        let cap = self.config.queue_capacity;
        let jv = encode_envelope(&WsMessage::Ping);
        let ping_txt = crate::json::json_to_text(&jv);
        let ghost ids0 = self.ids();
        let len = self.connections.len();
        let mut i: usize = 0;
        while i < len
            invariant
                i <= len,
                len == old(self).connections@.len(),
                self.connections@.len() == len,
                self.config == old(self).config,
                self.live_count == old(self).live_count,
                self.debug_enabled == old(self).debug_enabled,
                self.debug_logs == old(self).debug_logs,
                self.metrics == old(self).metrics,
                cap == self.config.queue_capacity,
                ping_txt@ == msg_text(WsMessageModel::Ping),
                old(self).wf(),
                forall|j: int|
                    i <= j < len ==> (#[trigger] self.connections@[j]) == old(
                        self,
                    ).connections@[j],
                forall|j: int|
                    0 <= j < i ==> {
                        &&& (#[trigger] self.connections@[j]).info == old(
                            self,
                        ).connections@[j].info
                        &&& self.connections@[j].ping_sent_at == Some(now)
                        &&& queue_texts(self.connections@[j].queue@) == push_if_room(
                            queue_texts(old(self).connections@[j].queue@),
                            msg_text(WsMessageModel::Ping),
                            cap as nat,
                        )
                    },
            decreases len - i,
        {
            let ghost before = self.connections@;
            if self.connections[i].queue.len() < cap {
                let entry = &mut self.connections[i];
                let t = ping_txt.clone();
                entry.queue.push(t);
                proof {
                    assert(queue_texts(self.connections@[i as int].queue@) =~= queue_texts(
                        before[i as int].queue@,
                    ).push(msg_text(WsMessageModel::Ping)));
                }
            }
            let entry2 = &mut self.connections[i];
            entry2.ping_sent_at = Some(now);
            i = i + 1;
        }
        proof {
            assert(self.ids() =~= old(self).ids());
        }
    }

    /// One supervisor sweep. Every connection silent for longer than the
    /// configured timeout is evicted; every other connection is pinged, with
    /// the moment noted on its record. When anything was evicted, the new
    /// snapshot goes out to the survivors, so clients learn of the departure
    /// within the same tick.
    pub fn health_check(&mut self, now: u64)
        requires
            old(self).wf(),
        ensures
            final(self).wf(),
            final(self).config == old(self).config,
            final(self).debug_enabled == old(self).debug_enabled,
            final(self).debug_logs == old(self).debug_logs,
            final(self).metrics == old(self).metrics,
            final(self).connections@.len() == keep_fresh(
                old(self).connections@,
                old(self).config.connection_timeout_ms,
                now,
            ).len(),
            final(self).live_count == final(self).connections@.len(),
            forall|j: int|
                0 <= j < old(self).connections@.len() && (#[trigger] old(
                    self,
                ).connections@[j]).info.spec_is_stale(old(self).config.connection_timeout_ms, now)
                    ==> !final(self).has_conn(old(self).connections@[j].info.id),
            forall|k: int|
                0 <= k < final(self).connections@.len() ==> {
                    let survivor = keep_fresh(
                        old(self).connections@,
                        old(self).config.connection_timeout_ms,
                        now,
                    )[k];
                    let pinged = push_if_room(
                        queue_texts(survivor.queue@),
                        msg_text(WsMessageModel::Ping),
                        old(self).config.queue_capacity as nat,
                    );
                    &&& (#[trigger] final(self).connections@[k]).info == survivor.info
                    &&& final(self).connections@[k].ping_sent_at == Some(now)
                    &&& queue_texts(final(self).connections@[k].queue@) == (if keep_fresh(
                        old(self).connections@,
                        old(self).config.connection_timeout_ms,
                        now,
                    ).len() < old(self).connections@.len() {
                        push_if_room(
                            pinged,
                            stats_text_of(
                                keep_fresh(
                                    old(self).connections@,
                                    old(self).config.connection_timeout_ms,
                                    now,
                                ),
                                now,
                            ),
                            old(self).config.queue_capacity as nat,
                        )
                    } else {
                        pinged
                    })
                },
    {
        let ghost pre_entries = self.connections@;
        let ghost timeout = self.config.connection_timeout_ms;
        let removed_any = self.evict_stale(now);
        let ghost kept_entries = self.connections@;
        self.ping_all(now);
        let ghost mid2 = self.connections@;
        if removed_any {
            self.broadcast_connection_stats(now);
            proof {
                assert forall|k: int|
                    0 <= k < mid2.len() implies (#[trigger] spec_stats_of(mid2, now).connections[k])
                        == spec_stats_of(kept_entries, now).connections[k] by {
                    assert(mid2[k].info == kept_entries[k].info);
                }
                assert(spec_stats_of(mid2, now).connections =~= spec_stats_of(
                    kept_entries,
                    now,
                ).connections);
                assert(spec_stats_of(mid2, now) == spec_stats_of(kept_entries, now));
                assert(stats_text_of(mid2, now) == stats_text_of(kept_entries, now));
            }
        }
        proof {
            lemma_keep_fresh_facts(pre_entries, timeout, now);
            assert forall|j: int|
                0 <= j < pre_entries.len() && (#[trigger] pre_entries[j]).info.spec_is_stale(
                    timeout,
                    now,
                ) implies !self.has_conn(pre_entries[j].info.id) by {
                assert forall|i2: int, j2: int|
                    0 <= i2 < j2 < pre_entries.len() implies (#[trigger] pre_entries[i2]).info.id
                        != (#[trigger] pre_entries[j2]).info.id by {
                    assert(old(self).ids()[i2] == pre_entries[i2].info.id);
                    assert(old(self).ids()[j2] == pre_entries[j2].info.id);
                }
                if self.has_conn(pre_entries[j].info.id) {
                    let w = choose|w: int|
                        0 <= w < self.connections@.len() && self.ids()[w] == pre_entries[j].info.id;
                    assert(self.connections@[w].info == kept_entries[w].info);
                    let j0 = choose|j0: int|
                        0 <= j0 < pre_entries.len() && pre_entries[j0] == kept_entries[w]
                            && !pre_entries[j0].info.spec_is_stale(timeout, now);
                    assert(self.ids()[w] == self.connections@[w].info.id);
                    assert(pre_entries[j0].info.id == pre_entries[j].info.id);
                    if j0 != j {
                        if j0 < j {
                            assert(pre_entries[j0].info.id != pre_entries[j].info.id);
                        } else {
                            assert(pre_entries[j].info.id != pre_entries[j0].info.id);
                        }
                    }
                }
            }
            if removed_any {
                assert forall|k: int| 0 <= k < self.connections@.len() implies queue_texts(
                    (#[trigger] self.connections@[k]).queue@,
                ) == push_if_room(
                    push_if_room(
                        queue_texts(kept_entries[k].queue@),
                        msg_text(WsMessageModel::Ping),
                        old(self).config.queue_capacity as nat,
                    ),
                    stats_text_of(kept_entries, now),
                    old(self).config.queue_capacity as nat,
                ) by {
                    assert(queue_texts(self.connections@[k].queue@) == push_if_room(
                        queue_texts(mid2[k].queue@),
                        stats_text_of(mid2, now),
                        old(self).config.queue_capacity as nat,
                    ));
                    assert(queue_texts(mid2[k].queue@) == push_if_room(
                        queue_texts(kept_entries[k].queue@),
                        msg_text(WsMessageModel::Ping),
                        old(self).config.queue_capacity as nat,
                    ));
                }
            }
        }
    }
}

/// The JSON document a job event is wrapped in before broadcast.
pub open spec fn job_event_json(e: crate::models::JobEventModel) -> crate::json::JsonModel {
    crate::json::JsonModel::Obj(
        seq![
            (
                seq!['j', 'o', 'b', '_', 'i', 'd'],
                crate::json::JsonModel::Str(e.job_id),
            ),
            (seq!['d', 'e', 'v', 'i', 'c', 'e'], crate::json::JsonModel::Str(e.device)),
            (
                seq!['j', 'o', 'b', '_', 't', 'y', 'p', 'e'],
                crate::json::JsonModel::Str(e.job_type),
            ),
            (
                seq!['e', 'v', 'e', 'n', 't', '_', 't', 'y', 'p', 'e'],
                crate::json::JsonModel::Str(e.event_type),
            ),
            (seq!['s', 't', 'a', 't', 'u', 's'], crate::json::JsonModel::Str(e.status)),
            (
                seq!['t', 'i', 'm', 'e', 's', 't', 'a', 'm', 'p'],
                crate::json::JsonModel::Int(e.timestamp as int),
            ),
            (seq!['d', 'a', 't', 'a'], e.data),
            (
                seq!['e', 'r', 'r', 'o', 'r'],
                crate::codec::opt_str_json(e.error),
            ),
        ],
    )
}

/// The envelope carrying one job event: a custom event named `job_event` on
/// the wire.
pub open spec fn job_event_envelope(e: crate::models::JobEventModel) -> WsMessageModel {
    WsMessageModel::Custom {
        event: seq!['j', 'o', 'b', '_', 'e', 'v', 'e', 'n', 't'],
        payload: job_event_json(e),
    }
}

/// The topic job events go out on.
pub open spec fn job_events_topic() -> Seq<char> {
    seq!['j', 'o', 'b', '-', 'e', 'v', 'e', 'n', 't', 's']
}

impl WebSocketService {
    /// Admits one connection start to finish: the capacity gate and the
    /// record, then the welcome envelope to the newcomer, then the new
    /// snapshot to everyone. Refused, with nothing changed, exactly when the
    /// live count had already reached the configured maximum.
    pub fn admit_connection(
        &mut self,
        id: ConnectionId,
        remote_addr: Option<String>,
        now: u64,
    ) -> (r: Result<(), HubError>)
        requires
            old(self).wf(),
            !old(self).has_conn(id),
            now <= COUNTER_CAP,
        ensures
            final(self).wf(),
            old(self).live_count >= old(self).config.max_connections <==> r == Err::<
                (),
                HubError,
            >(HubError::CapacityExceeded),
            old(self).live_count < old(self).config.max_connections ==> r == Ok::<
                (),
                HubError,
            >(()),
            r is Err ==> *final(self) == *old(self),
            r is Ok ==> {
                &&& final(self).connections@.len() == old(self).connections@.len() + 1
                &&& final(self).live_count == old(self).live_count + 1
                &&& final(self).has_conn(id)
                &&& final(self).connections@.last().info == (ConnectionInfo {
                    id,
                    connected_at: now,
                    last_activity: now,
                    subscriptions: final(self).connections@.last().info.subscriptions,
                    remote_addr,
                    user_agent: None,
                    messages_sent: 0,
                    messages_received: 0,
                    bytes_sent: 0,
                    bytes_received: 0,
                    ping_latency_ms: None,
                })
                &&& final(self).connections@.last().ping_sent_at is None
                &&& final(self).metrics == (ServiceMetrics {
                    total_connections: spec_cap_add(old(self).metrics.total_connections, 1),
                    peak_connections: if old(self).live_count + 1
                        > old(self).metrics.peak_connections {
                        (old(self).live_count + 1) as usize
                    } else {
                        old(self).metrics.peak_connections
                    },
                    ..old(self).metrics
                })
                &&& final(self).connections@.last().info.subscriptions.deep_view() == Seq::<
                    Seq<char>,
                >::empty()
                &&& queue_texts(final(self).connections@.last().queue@) == push_if_room(
                    push_if_room(
                        Seq::empty(),
                        msg_text(
                            WsMessageModel::ConnectionInfo {
                                payload: spec_details_of(final(self).connections@.last().info),
                            },
                        ),
                        old(self).config.queue_capacity as nat,
                    ),
                    stats_text_of(final(self).connections@, now),
                    old(self).config.queue_capacity as nat,
                )
                &&& forall|j: int|
                    0 <= j < old(self).connections@.len() ==> {
                        &&& (#[trigger] final(self).connections@[j]).info == old(
                            self,
                        ).connections@[j].info
                        &&& final(self).connections@[j].ping_sent_at == old(
                            self,
                        ).connections@[j].ping_sent_at
                        &&& queue_texts(final(self).connections@[j].queue@) == push_if_room(
                            queue_texts(old(self).connections@[j].queue@),
                            stats_text_of(final(self).connections@, now),
                            old(self).config.queue_capacity as nat,
                        )
                    }
                &&& final(self).debug_logs == old(self).debug_logs
                &&& final(self).debug_enabled == old(self).debug_enabled
                &&& final(self).config == old(self).config
            },
    {
        let r = self.register(id, remote_addr, now);
        match r {
            Err(e) => {
                return Err(e);
            },
            Ok(()) => {},
        }
        let ghost after_register = *self;
        proof {
            assert(self.ids().last() == id);
            assert(self.has_conn(id));
        }
        let _ = self.send_connection_info(id);
        let ghost after_welcome = *self;
        proof {
            let n = after_register.connections@.len() - 1;
            assert(after_register.connections@[n].info.id == id);
            assert(after_register.connections@[n].queue@.len() == 0);
            assert forall|j: int|
                0 <= j < after_register.connections@.len() && (
                #[trigger] after_register.connections@[j]).info.id == id implies j == n by {
                if j != n {
                    assert(after_register.ids()[j] == after_register.ids()[n]);
                }
            }
            assert(queue_texts(self.connections@[n].queue@) == push_if_room(
                queue_texts(after_register.connections@[n].queue@),
                msg_text(
                    WsMessageModel::ConnectionInfo {
                        payload: spec_details_of(after_register.connections@[n].info),
                    },
                ),
                after_register.config.queue_capacity as nat,
            ));
            assert(queue_texts(after_register.connections@[n].queue@) =~= Seq::<Seq<char>>::empty());
            assert forall|j: int| 0 <= j < old(self).connections@.len() implies (
            #[trigger] after_welcome.connections@[j]) == old(self).connections@[j] by {
                assert(after_register.connections@[j] == old(self).connections@[j]);
                assert(old(self).ids()[j] == old(self).connections@[j].info.id);
                assert(after_register.connections@[j].info.id != id);
            }
        }
        self.broadcast_connection_stats(now);
        proof {
            let n = after_register.connections@.len() - 1;
            assert forall|k: int|
                0 <= k < self.connections@.len() implies (#[trigger] spec_stats_of(
                    self.connections@,
                    now,
                ).connections[k]) == spec_stats_of(after_welcome.connections@, now).connections[k] by {
                assert(self.connections@[k].info == after_welcome.connections@[k].info);
            }
            assert(spec_stats_of(self.connections@, now).connections =~= spec_stats_of(
                after_welcome.connections@,
                now,
            ).connections);
            assert(spec_stats_of(self.connections@, now) == spec_stats_of(
                after_welcome.connections@,
                now,
            ));
            assert(stats_text_of(self.connections@, now) == stats_text_of(
                after_welcome.connections@,
                now,
            ));
            assert(self.connections@.last().info == after_register.connections@[n].info);
            assert(self.ids().last() == id);
            assert(self.has_conn(id));
        }
        Ok(())
    }

    /// Accepts a connection under a fresh random token: the full admission,
    /// with the new id handed back. Any refusal leaves the hub unchanged and
    /// names the capacity gate.
    pub fn handle_connection(&mut self, remote_addr: Option<String>) -> (r: Result<
        ConnectionId,
        HubError,
    >)
        requires
            old(self).wf(),
        ensures
            final(self).wf(),
            old(self).live_count >= old(self).config.max_connections ==> r == Err::<
                ConnectionId,
                HubError,
            >(HubError::CapacityExceeded),
            r is Err ==> *final(self) == *old(self) && r == Err::<ConnectionId, HubError>(
                HubError::CapacityExceeded,
            ),
            r matches Ok(id) ==> {
                &&& old(self).live_count < old(self).config.max_connections
                &&& !old(self).has_conn(id)
                &&& final(self).has_conn(id)
                &&& final(self).live_count == old(self).live_count + 1
                &&& final(self).connections@.len() == old(self).connections@.len() + 1
                &&& final(self).connections@.last().info.id == id
                &&& final(self).connections@.last().info.messages_sent == 0
                &&& final(self).connections@.last().info.messages_received == 0
                &&& final(self).connections@.last().info.bytes_sent == 0
                &&& final(self).connections@.last().info.bytes_received == 0
                &&& {
                    let fresh = final(self).connections@.last().info;
                    fresh.last_activity == fresh.connected_at
                }
                &&& final(self).connections@.last().info.subscriptions.deep_view() == Seq::<
                    Seq<char>,
                >::empty()
                &&& final(self).metrics.total_connections == spec_cap_add(
                    old(self).metrics.total_connections,
                    1,
                )
                &&& final(self).metrics.peak_connections >= final(self).live_count
                &&& forall|j: int|
                    0 <= j < old(self).connections@.len() ==> (#[trigger] final(self).connections@[j]).info
                        == old(self).connections@[j].info
            },
    {
        let id = fresh_token();
        if self.contains(id) {
            return Err(HubError::CapacityExceeded);
        }
        let now = now_millis();
        let r = self.admit_connection(id, remote_addr, now);
        match r {
            Ok(()) => {
                proof {
                    assert(self.has_conn(id));
                }
                Ok(id)
            },
            Err(e) => Err(e),
        }
    }

    /// Bridges one external job-progress event to every connection that
    /// subscribed to the job-events topic, wrapped as a custom envelope; the
    /// event itself is not retained.
    pub fn publish_job_event(&mut self, event: &crate::models::JobEvent) -> (r: Result<
        (),
        HubError,
    >)
        requires
            old(self).wf(),
            event.timestamp <= COUNTER_CAP,
        ensures
            final(self).wf(),
            r is Ok,
            final(self).config == old(self).config,
            final(self).live_count == old(self).live_count,
            final(self).debug_enabled == old(self).debug_enabled,
            final(self).debug_logs == old(self).debug_logs,
            final(self).metrics == old(self).metrics,
            final(self).connections@.len() == old(self).connections@.len(),
            forall|j: int|
                0 <= j < old(self).connections@.len() ==> {
                    &&& (#[trigger] final(self).connections@[j]).info == old(
                        self,
                    ).connections@[j].info
                    &&& final(self).connections@[j].ping_sent_at == old(
                        self,
                    ).connections@[j].ping_sent_at
                    &&& queue_texts(final(self).connections@[j].queue@) == (if entry_subs(
                        old(self).connections@[j],
                    ).contains(job_events_topic()) {
                        push_if_room(
                            queue_texts(old(self).connections@[j].queue@),
                            msg_text(job_event_envelope(event@)),
                            old(self).config.queue_capacity as nat,
                        )
                    } else {
                        queue_texts(old(self).connections@[j].queue@)
                    })
                },
    {
        let mut members: Vec<(String, JsonValue)> = Vec::new();
        members.push((String::from_str("job_id"), JsonValue::Str(event.job_id.clone())));
        members.push((String::from_str("device"), JsonValue::Str(event.device.clone())));
        members.push((String::from_str("job_type"), JsonValue::Str(event.job_type.clone())));
        members.push((String::from_str("event_type"), JsonValue::Str(event.event_type.clone())));
        members.push((String::from_str("status"), JsonValue::Str(event.status.clone())));
        members.push((String::from_str("timestamp"), JsonValue::Int(event.timestamp as i64)));
        members.push((String::from_str("data"), crate::json::json_clone(&event.data)));
        let err_v = match &event.error {
            Some(e) => JsonValue::Str(e.clone()),
            None => JsonValue::Null,
        };
        members.push((String::from_str("error"), err_v));
        let payload = JsonValue::Obj(members);
        proof {
            crate::json::lemma_obj_model(payload->Obj_0@);
            reveal_strlit("job_id");
            reveal_strlit("device");
            reveal_strlit("job_type");
            reveal_strlit("event_type");
            reveal_strlit("status");
            reveal_strlit("timestamp");
            reveal_strlit("data");
            reveal_strlit("error");
            assert("job_id"@ =~= seq!['j', 'o', 'b', '_', 'i', 'd']);
            assert("device"@ =~= seq!['d', 'e', 'v', 'i', 'c', 'e']);
            assert("job_type"@ =~= seq!['j', 'o', 'b', '_', 't', 'y', 'p', 'e']);
            assert("event_type"@ =~= seq!['e', 'v', 'e', 'n', 't', '_', 't', 'y', 'p', 'e']);
            assert("status"@ =~= seq!['s', 't', 'a', 't', 'u', 's']);
            assert("timestamp"@ =~= seq!['t', 'i', 'm', 'e', 's', 't', 'a', 'm', 'p']);
            assert("data"@ =~= seq!['d', 'a', 't', 'a']);
            assert("error"@ =~= seq!['e', 'r', 'r', 'o', 'r']);
            assert(crate::json::obj_model(payload->Obj_0@) =~= job_event_json(event@)->Obj_0);
            assert(payload@ == job_event_json(event@));
        }
        let msg = WsMessage::Custom { event: String::from_str("job_event"), payload };
        proof {
            reveal_strlit("job_event");
            assert("job_event"@ =~= seq!['j', 'o', 'b', '_', 'e', 'v', 'e', 'n', 't']);
            assert(msg@ == job_event_envelope(event@));
            reveal_strlit("job-events");
            assert("job-events"@ =~= job_events_topic());
        }
        self.broadcast_to_topic_str("job-events", &msg);
        proof {
            assert(job_events_topic() != spec_topic_string(SubscriptionTopicModel::All));
        }
        Ok(())
    }
}

} // verus!
