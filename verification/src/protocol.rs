//! The wire vocabulary: envelopes exchanged with clients, their payloads, and
//! the topics that address broadcasts.
//!
//! Every envelope is one JSON object whose `type` member fully determines the
//! shape of the rest; encoding and decoding are verified against that shape,
//! and decoding undoes encoding exactly.

use vstd::prelude::*;

use crate::bridge::{is_folded_char, lower_of, push_char, to_lowercase};
use crate::json::{dec_digits, digit_char, str_eq, JsonModel, JsonValue};

verus! {

/// Identifies one connection for its whole life: a 128-bit token drawn at
/// accept time and never reused.
pub type ConnectionId = u128;

// ---------------------------------------------------------------------------
// Decimal text for connection ids
// ---------------------------------------------------------------------------

/// The numeric value of one decimal digit character, or a marker value
/// outside `0..=9` when the character is no digit.
pub open spec fn char_digit(c: char) -> int {
    c as int - 48
}

/// Whether every character of `s` is a decimal digit.
pub open spec fn all_digits(s: Seq<char>) -> bool {
    forall|i: int| 0 <= i < s.len() ==> 0 <= char_digit(#[trigger] s[i]) <= 9
}

/// The value of a sequence of decimal digits, most significant first.
pub open spec fn digits_value(s: Seq<char>) -> int
    decreases s.len(),
{
    if s.len() == 0 {
        0
    } else {
        digits_value(s.drop_last()) * 10 + char_digit(s.last())
    }
}

/// Reading back the decimal text of `n` gives `n` again.
pub proof fn lemma_dec_digits_value(n: nat)
    ensures
        digits_value(dec_digits(n)) == n,
        all_digits(dec_digits(n)),
        dec_digits(n).len() >= 1,
    decreases n,
{
    if n < 10 {
        let s = dec_digits(n);
        assert(s =~= seq![digit_char(n as int)]);
        assert(s.drop_last() =~= Seq::<char>::empty());
        assert(s.last() == digit_char(n as int));
        assert(digits_value(s) == digits_value(s.drop_last()) * 10 + char_digit(s.last()));
        assert(char_digit(digit_char(n as int)) == n);
        assert(char_digit(s[0]) == n);
    } else {
        lemma_dec_digits_value(n / 10);
        let s = dec_digits(n);
        let prefix = dec_digits(n / 10);
        assert(s =~= prefix.push(digit_char((n % 10) as int)));
        assert(s.drop_last() =~= prefix);
        assert(s.last() == digit_char((n % 10) as int));
        assert(char_digit(s.last()) == n % 10);
        assert(digits_value(s) == digits_value(s.drop_last()) * 10 + char_digit(s.last()));
        assert(digits_value(s.drop_last()) == n / 10);
        assert((n / 10) * 10 + n % 10 == n);
        assert forall|i: int| 0 <= i < s.len() implies 0 <= char_digit(#[trigger] s[i]) <= 9 by {
            if i < prefix.len() {
                assert(s[i] == prefix[i]);
            } else {
                assert(s[i] == s.last());
            }
        }
    }
}

/// The parse of a decimal string: its value, if it is nothing but digits and
/// the value fits in 128 bits.
pub open spec fn spec_parse_u128(s: Seq<char>) -> Option<u128> {
    if s.len() >= 1 && all_digits(s) && digits_value(s) < 0x1_0000_0000_0000_0000_0000_0000_0000_0000
     {
        Some(digits_value(s) as u128)
    } else {
        None
    }
}

/// Appends the decimal digits of a 128-bit number.
pub fn push_dec_u128(out: &mut String, n: u128)
    ensures
        final(out)@ == old(out)@ + dec_digits(n as nat),
    decreases n,
{
    if n < 10 {
        push_char(out, (48 + n as u8) as char);
        proof {
            assert(final(out)@ =~= old(out)@ + dec_digits(n as nat));
        }
    } else {
        push_dec_u128(out, n / 10);
        push_char(out, (48 + (n % 10) as u8) as char);
        proof {
            assert(final(out)@ =~= old(out)@ + dec_digits(n as nat));
        }
    }
}

/// The decimal text of a connection id.
pub fn connection_id_text(id: ConnectionId) -> (r: String)
    ensures
        r@ == dec_digits(id as nat),
{
    let mut out = String::new();
    push_dec_u128(&mut out, id);
    proof {
        assert(out@ =~= dec_digits(id as nat));
    }
    out
}

/// Parses a decimal string as a 128-bit number, exactly when
/// [`spec_parse_u128`] accepts it.
pub fn parse_u128_dec(s: &str) -> (r: Option<u128>)
    ensures
        r == spec_parse_u128(s@),
{
    let len = s.unicode_len();
    if len == 0 {
        return None;
    }
    let mut acc: u128 = 0;
    let mut i: usize = 0;
    while i < len
        invariant
            0 < len == s@.len(),
            i <= len,
            all_digits(s@.take(i as int)),
            acc == digits_value(s@.take(i as int)),
        decreases len - i,
    {
        let c = s.get_char(i);
        let code = c as u32;
        if code < 48 || code > 57 {
            proof {
                assert(!all_digits(s@));
            }
            return None;
        }
        let d: u128 = (code - 48) as u128;
        if acc > (0xffff_ffff_ffff_ffff_ffff_ffff_ffff_ffff - d) / 10 {
            proof {
                assert(s@.take(i as int + 1).drop_last() =~= s@.take(i as int));
                assert(s@.take(i as int + 1).last() == s@[i as int]);
                assert(acc * 10 + d > 0xffff_ffff_ffff_ffff_ffff_ffff_ffff_ffffu128)
                    by (nonlinear_arith)
                    requires
                        acc > (0xffff_ffff_ffff_ffff_ffff_ffff_ffff_ffffu128 - d) / 10,
                        0 <= d <= 9,
                ;
                if all_digits(s@) {
                    lemma_digits_value_monotone(s@, i as int + 1);
                    assert(digits_value(s@.take(i as int + 1)) == acc * 10 + d);
                    assert(digits_value(s@) >= acc * 10 + d);
                }
            }
            return None;
        }
        acc = acc * 10 + d;
        proof {
            assert(s@.take(i as int + 1).drop_last() =~= s@.take(i as int));
            assert(s@.take(i as int + 1).last() == s@[i as int]);
        }
        i = i + 1;
    }
    proof {
        assert(s@.take(len as int) =~= s@);
    }
    Some(acc)
}

/// From any prefix on, the value of a digit string only grows.
proof fn lemma_digits_value_monotone(s: Seq<char>, i: int)
    requires
        0 <= i <= s.len(),
        all_digits(s),
    ensures
        digits_value(s) >= digits_value(s.take(i)),
    decreases s.len() - i,
{
    if i < s.len() {
        lemma_digits_value_monotone(s, i + 1);
        assert(s.take(i + 1).drop_last() =~= s.take(i));
        assert(s.take(i + 1).last() == s[i]);
        assert(digits_value(s.take(i + 1)) == digits_value(s.take(i)) * 10 + char_digit(s[i]));
        lemma_digits_value_nonneg(s.take(i));
    } else {
        assert(s.take(i) =~= s);
    }
}

/// A digit string's value is never negative.
proof fn lemma_digits_value_nonneg(s: Seq<char>)
    requires
        all_digits(s),
    ensures
        digits_value(s) >= 0,
    decreases s.len(),
{
    if s.len() > 0 {
        assert(all_digits(s.drop_last()));
        lemma_digits_value_nonneg(s.drop_last());
    }
}

// ---------------------------------------------------------------------------
// Payloads
// ---------------------------------------------------------------------------

/// The welcome payload: who the new connection is, as the server sees it.
pub struct ConnectionDetails {
    pub connection_id: ConnectionId,
    pub ip: String,
    pub connected_at: u64,
    pub user_agent: Option<String>,
}

/// The model of a [`ConnectionDetails`].
pub struct ConnectionDetailsModel {
    pub connection_id: ConnectionId,
    pub ip: Seq<char>,
    pub connected_at: u64,
    pub user_agent: Option<Seq<char>>,
}

impl View for ConnectionDetails {
    type V = ConnectionDetailsModel;

    open spec fn view(&self) -> ConnectionDetailsModel {
        ConnectionDetailsModel {
            connection_id: self.connection_id,
            ip: self.ip@,
            connected_at: self.connected_at,
            user_agent: self.user_agent.deep_view(),
        }
    }
}

/// Topics a client asks to hear.
pub struct SubscribePayload {
    pub topics: Vec<String>,
}

impl View for SubscribePayload {
    type V = Seq<Seq<char>>;

    open spec fn view(&self) -> Seq<Seq<char>> {
        self.topics.deep_view()
    }
}

/// Topics a client asks to stop hearing.
pub struct UnsubscribePayload {
    pub topics: Vec<String>,
}

impl View for UnsubscribePayload {
    type V = Seq<Seq<char>>;

    open spec fn view(&self) -> Seq<Seq<char>> {
        self.topics.deep_view()
    }
}

/// One line of the live-connections snapshot.
pub struct ConnectionSummary {
    pub id: ConnectionId,
    pub ip: String,
    pub connected_duration: i64,
    pub message_count: u64,
    pub bytes_sent: u64,
    pub bytes_received: u64,
}

/// The model of a [`ConnectionSummary`].
pub struct ConnectionSummaryModel {
    pub id: ConnectionId,
    pub ip: Seq<char>,
    pub connected_duration: i64,
    pub message_count: u64,
    pub bytes_sent: u64,
    pub bytes_received: u64,
}

impl View for ConnectionSummary {
    type V = ConnectionSummaryModel;

    open spec fn view(&self) -> ConnectionSummaryModel {
        ConnectionSummaryModel {
            id: self.id,
            ip: self.ip@,
            connected_duration: self.connected_duration,
            message_count: self.message_count,
            bytes_sent: self.bytes_sent,
            bytes_received: self.bytes_received,
        }
    }
}

/// The live-connections snapshot a client receives.
pub struct ConnectionStats {
    pub count: u64,
    pub connections: Vec<ConnectionSummary>,
}

/// The model of a [`ConnectionStats`].
pub struct ConnectionStatsModel {
    pub count: u64,
    pub connections: Seq<ConnectionSummaryModel>,
}

impl View for ConnectionStats {
    type V = ConnectionStatsModel;

    open spec fn view(&self) -> ConnectionStatsModel {
        ConnectionStatsModel {
            count: self.count,
            connections: Seq::new(self.connections@.len(), |i: int| self.connections@[i]@),
        }
    }
}

/// Tells clients that navigation data changed.
pub struct NavigationPayload {
    pub schema: String,
    pub data: JsonValue,
}

/// The model of a [`NavigationPayload`].
pub struct NavigationPayloadModel {
    pub schema: Seq<char>,
    pub data: JsonModel,
}

impl View for NavigationPayload {
    type V = NavigationPayloadModel;

    open spec fn view(&self) -> NavigationPayloadModel {
        NavigationPayloadModel { schema: self.schema@, data: self.data@ }
    }
}

/// Tells clients that a named data source changed.
pub struct DataUpdatePayload {
    pub source: String,
    pub data: JsonValue,
    pub timestamp: u64,
}

/// The model of a [`DataUpdatePayload`].
pub struct DataUpdatePayloadModel {
    pub source: Seq<char>,
    pub data: JsonModel,
    pub timestamp: u64,
}

impl View for DataUpdatePayload {
    type V = DataUpdatePayloadModel;

    open spec fn view(&self) -> DataUpdatePayloadModel {
        DataUpdatePayloadModel {
            source: self.source@,
            data: self.data@,
            timestamp: self.timestamp,
        }
    }
}

/// One debug-trace entry, as stored and as broadcast.
pub struct DebugPayload {
    pub level: String,
    pub component: String,
    pub message: String,
    pub data: Option<JsonValue>,
    pub timestamp: u64,
}

/// The model of a [`DebugPayload`].
pub struct DebugPayloadModel {
    pub level: Seq<char>,
    pub component: Seq<char>,
    pub message: Seq<char>,
    pub data: Option<JsonModel>,
    pub timestamp: u64,
}

impl DebugPayload {
    /// A copy with the same model.
    pub fn clone_entry(&self) -> (r: DebugPayload)
        ensures
            r@ == self@,
    {
        DebugPayload {
            level: self.level.clone(),
            component: self.component.clone(),
            message: self.message.clone(),
            data: match &self.data {
                Some(v) => Some(crate::json::json_clone(v)),
                None => None,
            },
            timestamp: self.timestamp,
        }
    }
}

impl View for DebugPayload {
    type V = DebugPayloadModel;

    open spec fn view(&self) -> DebugPayloadModel {
        DebugPayloadModel {
            level: self.level@,
            component: self.component@,
            message: self.message@,
            data: match self.data {
                Some(v) => Some(v@),
                None => None,
            },
            timestamp: self.timestamp,
        }
    }
}

/// An error reported to one client.
pub struct ErrorPayload {
    pub message: String,
    pub code: Option<u16>,
    pub details: Option<String>,
}

/// The model of an [`ErrorPayload`].
pub struct ErrorPayloadModel {
    pub message: Seq<char>,
    pub code: Option<u16>,
    pub details: Option<Seq<char>>,
}

impl View for ErrorPayload {
    type V = ErrorPayloadModel;

    open spec fn view(&self) -> ErrorPayloadModel {
        ErrorPayloadModel {
            message: self.message@,
            code: self.code,
            details: self.details.deep_view(),
        }
    }
}

// ---------------------------------------------------------------------------
// The envelope
// ---------------------------------------------------------------------------

/// Every message exchanged over a realtime connection, in either direction.
/// The variant is the wire tag; the tag fully determines the payload's shape.
pub enum WsMessage {
    ConnectionInfo { payload: ConnectionDetails },
    RequestConnectionInfo,
    RequestActiveConnections,
    Ping,
    Pong,
    Subscribe { payload: SubscribePayload },
    Unsubscribe { payload: UnsubscribePayload },
    ActiveConnections { payload: ConnectionStats },
    NavigationUpdated { payload: NavigationPayload },
    DataUpdate { payload: DataUpdatePayload },
    Debug { payload: DebugPayload },
    Error { payload: ErrorPayload },
    Custom { event: String, payload: JsonValue },
}

/// The model of a [`WsMessage`].
pub enum WsMessageModel {
    ConnectionInfo { payload: ConnectionDetailsModel },
    RequestConnectionInfo,
    RequestActiveConnections,
    Ping,
    Pong,
    Subscribe { topics: Seq<Seq<char>> },
    Unsubscribe { topics: Seq<Seq<char>> },
    ActiveConnections { payload: ConnectionStatsModel },
    NavigationUpdated { payload: NavigationPayloadModel },
    DataUpdate { payload: DataUpdatePayloadModel },
    Debug { payload: DebugPayloadModel },
    Error { payload: ErrorPayloadModel },
    Custom { event: Seq<char>, payload: JsonModel },
}

impl View for WsMessage {
    type V = WsMessageModel;

    open spec fn view(&self) -> WsMessageModel {
        match self {
            WsMessage::ConnectionInfo { payload } => WsMessageModel::ConnectionInfo {
                payload: payload@,
            },
            WsMessage::RequestConnectionInfo => WsMessageModel::RequestConnectionInfo,
            WsMessage::RequestActiveConnections => WsMessageModel::RequestActiveConnections,
            WsMessage::Ping => WsMessageModel::Ping,
            WsMessage::Pong => WsMessageModel::Pong,
            WsMessage::Subscribe { payload } => WsMessageModel::Subscribe { topics: payload@ },
            WsMessage::Unsubscribe { payload } => WsMessageModel::Unsubscribe {
                topics: payload@,
            },
            WsMessage::ActiveConnections { payload } => WsMessageModel::ActiveConnections {
                payload: payload@,
            },
            WsMessage::NavigationUpdated { payload } => WsMessageModel::NavigationUpdated {
                payload: payload@,
            },
            WsMessage::DataUpdate { payload } => WsMessageModel::DataUpdate { payload: payload@ },
            WsMessage::Debug { payload } => WsMessageModel::Debug { payload: payload@ },
            WsMessage::Error { payload } => WsMessageModel::Error { payload: payload@ },
            WsMessage::Custom { event, payload } => WsMessageModel::Custom {
                event: event@,
                payload: payload@,
            },
        }
    }
}

// ---------------------------------------------------------------------------
// Topics
// ---------------------------------------------------------------------------

/// Where a broadcast is addressed: the built-in channels, per-source data
/// channels, one connection directly, or everyone.
pub enum SubscriptionTopic {
    Navigation,
    FileSystem,
    DataUpdates(String),
    Debug,
    Metrics,
    All,
    Direct(ConnectionId),
}

/// The model of a [`SubscriptionTopic`].
pub enum SubscriptionTopicModel {
    Navigation,
    FileSystem,
    DataUpdates(Seq<char>),
    Debug,
    Metrics,
    All,
    Direct(ConnectionId),
}

impl View for SubscriptionTopic {
    type V = SubscriptionTopicModel;

    open spec fn view(&self) -> SubscriptionTopicModel {
        match self {
            SubscriptionTopic::Navigation => SubscriptionTopicModel::Navigation,
            SubscriptionTopic::FileSystem => SubscriptionTopicModel::FileSystem,
            SubscriptionTopic::DataUpdates(s) => SubscriptionTopicModel::DataUpdates(s@),
            SubscriptionTopic::Debug => SubscriptionTopicModel::Debug,
            SubscriptionTopic::Metrics => SubscriptionTopicModel::Metrics,
            SubscriptionTopic::All => SubscriptionTopicModel::All,
            SubscriptionTopic::Direct(id) => SubscriptionTopicModel::Direct(*id),
        }
    }
}

/// The name under which connections subscribe to a topic.
pub open spec fn spec_topic_string(t: SubscriptionTopicModel) -> Seq<char> {
    match t {
        SubscriptionTopicModel::Navigation => seq!['n', 'a', 'v', 'i', 'g', 'a', 't', 'i', 'o', 'n'],
        SubscriptionTopicModel::FileSystem => seq!['f', 'i', 'l', 'e', 's', 'y', 's', 't', 'e', 'm'],
        SubscriptionTopicModel::DataUpdates(src) => seq!['d', 'a', 't', 'a', ':'] + src,
        SubscriptionTopicModel::Debug => seq!['d', 'e', 'b', 'u', 'g'],
        SubscriptionTopicModel::Metrics => seq!['m', 'e', 't', 'r', 'i', 'c', 's'],
        SubscriptionTopicModel::All => seq!['a', 'l', 'l'],
        SubscriptionTopicModel::Direct(id) => seq!['d', 'i', 'r', 'e', 'c', 't', ':'] + dec_digits(
            id as nat,
        ),
    }
}

/// What a topic name parses back to. Names that fit no known form address
/// everyone, as the most conservative reading.
pub open spec fn spec_parse_topic(s: Seq<char>) -> SubscriptionTopicModel {
    if s == spec_topic_string(SubscriptionTopicModel::Navigation) {
        SubscriptionTopicModel::Navigation
    } else if s == spec_topic_string(SubscriptionTopicModel::FileSystem) {
        SubscriptionTopicModel::FileSystem
    } else if s == spec_topic_string(SubscriptionTopicModel::Debug) {
        SubscriptionTopicModel::Debug
    } else if s == spec_topic_string(SubscriptionTopicModel::Metrics) {
        SubscriptionTopicModel::Metrics
    } else if s == spec_topic_string(SubscriptionTopicModel::All) {
        SubscriptionTopicModel::All
    } else if s.len() >= 5 && s.take(5) == seq!['d', 'a', 't', 'a', ':'] {
        SubscriptionTopicModel::DataUpdates(s.skip(5))
    } else if s.len() >= 7 && s.take(7) == seq!['d', 'i', 'r', 'e', 'c', 't', ':'] {
        match spec_parse_u128(s.skip(7)) {
            Some(id) => SubscriptionTopicModel::Direct(id),
            None => SubscriptionTopicModel::All,
        }
    } else {
        SubscriptionTopicModel::All
    }
}

/// Every character of a printed topic name is folded, provided the source
/// of a data topic is itself made of folded characters.
pub proof fn lemma_topic_name_folded(t: SubscriptionTopicModel)
    requires
        t matches SubscriptionTopicModel::DataUpdates(src) ==> forall|i: int|
            0 <= i < src.len() ==> is_folded_char(#[trigger] src[i]),
    ensures
        forall|i: int|
            0 <= i < spec_topic_string(t).len() ==> is_folded_char(
                #[trigger] spec_topic_string(t)[i],
            ),
{
    let name = spec_topic_string(t);
    match t {
        SubscriptionTopicModel::DataUpdates(src) => {
            assert forall|i: int| 0 <= i < name.len() implies is_folded_char(
                #[trigger] name[i],
            ) by {
                if i >= 5 {
                    assert(name[i] == src[i - 5]);
                }
            }
        },
        SubscriptionTopicModel::Direct(id) => {
            lemma_dec_digits_value(id as nat);
            assert forall|i: int| 0 <= i < name.len() implies is_folded_char(
                #[trigger] name[i],
            ) by {
                if i >= 7 {
                    assert(name[i] == dec_digits(id as nat)[i - 7]);
                    assert(0 <= char_digit(dec_digits(id as nat)[i - 7]) <= 9);
                }
            }
        },
        _ => {},
    }
}

/// Printed topic names parse back to the topic that printed them: naming is
/// lossless, before any case folding even enters.
pub proof fn lemma_topic_name_round_trip(t: SubscriptionTopicModel)
    ensures
        spec_parse_topic(spec_topic_string(t)) == t,
{
    let name = spec_topic_string(t);
    match t {
        SubscriptionTopicModel::DataUpdates(src) => {
            assert(name[0] != spec_topic_string(SubscriptionTopicModel::Navigation)[0]);
            assert(name[0] != spec_topic_string(SubscriptionTopicModel::FileSystem)[0]);
            assert(name[1] != spec_topic_string(SubscriptionTopicModel::Debug)[1]);
            assert(name[0] != spec_topic_string(SubscriptionTopicModel::Metrics)[0]);
            assert(name.len() >= 5);
            assert(name.take(5) =~= seq!['d', 'a', 't', 'a', ':']);
            assert(name.skip(5) =~= src);
        },
        SubscriptionTopicModel::Direct(id) => {
            lemma_dec_digits_value(id as nat);
            assert(name.len() >= 8);
            assert(name[0] != spec_topic_string(SubscriptionTopicModel::Navigation)[0]);
            assert(name[0] != spec_topic_string(SubscriptionTopicModel::FileSystem)[0]);
            assert(name[0] != spec_topic_string(SubscriptionTopicModel::Metrics)[0]);
            if name.len() >= 5 && name.take(5) == seq!['d', 'a', 't', 'a', ':'] {
                assert(name.take(5)[1] == name[1]);
                assert(false);
            }
            assert(name.take(7) =~= seq!['d', 'i', 'r', 'e', 'c', 't', ':']);
            assert(name.skip(7) =~= dec_digits(id as nat));
            assert(spec_parse_u128(dec_digits(id as nat)) == Some(id));
        },
        SubscriptionTopicModel::Navigation => {},
        SubscriptionTopicModel::FileSystem => {
            assert(name[0] != spec_topic_string(SubscriptionTopicModel::Navigation)[0]);
        },
        SubscriptionTopicModel::Debug => {
            assert(name[0] != spec_topic_string(SubscriptionTopicModel::Navigation)[0]);
            assert(name[0] != spec_topic_string(SubscriptionTopicModel::FileSystem)[0]);
        },
        SubscriptionTopicModel::Metrics => {
            assert(name[0] != spec_topic_string(SubscriptionTopicModel::Navigation)[0]);
            assert(name[0] != spec_topic_string(SubscriptionTopicModel::FileSystem)[0]);
        },
        SubscriptionTopicModel::All => {},
    }
}

impl SubscriptionTopic {
    /// The topic's name: what [`spec_topic_string`] says of its model.
    pub fn topic_string(&self) -> (r: String)
        ensures
            r@ == spec_topic_string(self@),
    {
        match self {
            SubscriptionTopic::Navigation => {
                let s = String::from_str("navigation");
                proof {
                    reveal_strlit("navigation");
                    assert(s@ =~= spec_topic_string(self@));
                }
                s
            },
            SubscriptionTopic::FileSystem => {
                let s = String::from_str("filesystem");
                proof {
                    reveal_strlit("filesystem");
                    assert(s@ =~= spec_topic_string(self@));
                }
                s
            },
            SubscriptionTopic::DataUpdates(src) => {
                let mut s = String::from_str("data:");
                s.append(src.as_str());
                proof {
                    reveal_strlit("data:");
                    assert(s@ =~= spec_topic_string(self@));
                }
                s
            },
            SubscriptionTopic::Debug => {
                let s = String::from_str("debug");
                proof {
                    reveal_strlit("debug");
                    assert(s@ =~= spec_topic_string(self@));
                }
                s
            },
            SubscriptionTopic::Metrics => {
                let s = String::from_str("metrics");
                proof {
                    reveal_strlit("metrics");
                    assert(s@ =~= spec_topic_string(self@));
                }
                s
            },
            SubscriptionTopic::All => {
                let s = String::from_str("all");
                proof {
                    reveal_strlit("all");
                    assert(s@ =~= spec_topic_string(self@));
                }
                s
            },
            SubscriptionTopic::Direct(id) => {
                let mut s = String::from_str("direct:");
                let digits = connection_id_text(*id);
                s.append(digits.as_str());
                proof {
                    reveal_strlit("direct:");
                    assert(s@ =~= spec_topic_string(self@));
                }
                s
            },
        }
    }

    /// Reads a topic from its name, case-insensitively: the result is what
    /// [`spec_parse_topic`] says of the lower-cased characters. A name that
    /// is already folded parses as itself.
    pub fn parse(s: &str) -> (r: SubscriptionTopic)
        ensures
            r@ == spec_parse_topic(lower_of(s@)),
            (forall|i: int| 0 <= i < s@.len() ==> is_folded_char(#[trigger] s@[i])) ==> r@
                == spec_parse_topic(s@),
    {
        let lower = to_lowercase(s);
        let l = lower.as_str();
        proof {
            reveal_strlit("navigation");
            reveal_strlit("filesystem");
            reveal_strlit("debug");
            reveal_strlit("metrics");
            reveal_strlit("all");
            reveal_strlit("data:");
            reveal_strlit("direct:");
            assert("navigation"@ =~= spec_topic_string(SubscriptionTopicModel::Navigation));
            assert("filesystem"@ =~= spec_topic_string(SubscriptionTopicModel::FileSystem));
            assert("debug"@ =~= spec_topic_string(SubscriptionTopicModel::Debug));
            assert("metrics"@ =~= spec_topic_string(SubscriptionTopicModel::Metrics));
            assert("all"@ =~= spec_topic_string(SubscriptionTopicModel::All));
            assert("data:"@ =~= seq!['d', 'a', 't', 'a', ':']);
            assert("direct:"@ =~= seq!['d', 'i', 'r', 'e', 'c', 't', ':']);
        }
        if str_eq(l, "navigation") {
            return SubscriptionTopic::Navigation;
        }
        if str_eq(l, "filesystem") {
            return SubscriptionTopic::FileSystem;
        }
        if str_eq(l, "debug") {
            return SubscriptionTopic::Debug;
        }
        if str_eq(l, "metrics") {
            return SubscriptionTopic::Metrics;
        }
        if str_eq(l, "all") {
            return SubscriptionTopic::All;
        }
        proof {
            assert(lower@ != spec_topic_string(SubscriptionTopicModel::Navigation));
            assert(lower@ != spec_topic_string(SubscriptionTopicModel::FileSystem));
            assert(lower@ != spec_topic_string(SubscriptionTopicModel::Debug));
            assert(lower@ != spec_topic_string(SubscriptionTopicModel::Metrics));
            assert(lower@ != spec_topic_string(SubscriptionTopicModel::All));
        }
        let len = l.unicode_len();
        if len >= 5 {
            let prefix = l.substring_char(0, 5);
            if str_eq(prefix, "data:") {
                let rest = l.substring_char(5, len);
                proof {
                    assert(lower@.take(5) =~= lower@.subrange(0, 5));
                    assert(rest@ =~= lower@.skip(5));
                }
                return SubscriptionTopic::DataUpdates(rest.to_owned());
            }
            proof {
                assert(lower@.subrange(0, 5) =~= lower@.take(5));
                assert(!(lower@.len() >= 5 && lower@.take(5) == seq!['d', 'a', 't', 'a', ':']));
            }
        }
        if len >= 7 {
            let prefix = l.substring_char(0, 7);
            if str_eq(prefix, "direct:") {
                let rest = l.substring_char(7, len);
                proof {
                    assert(lower@.take(7) =~= lower@.subrange(0, 7));
                    assert(rest@ =~= lower@.skip(7));
                }
                match parse_u128_dec(rest) {
                    Some(id) => {
                        return SubscriptionTopic::Direct(id);
                    },
                    None => {
                        return SubscriptionTopic::All;
                    },
                }
            }
            proof {
                assert(lower@.subrange(0, 7) =~= lower@.take(7));
                assert(!(lower@.len() >= 7 && lower@.take(7) == seq![
                    'd',
                    'i',
                    'r',
                    'e',
                    'c',
                    't',
                    ':',
                ]));
            }
        }
        proof {
            if lower@.len() >= 5 && lower@.take(5) == seq!['d', 'a', 't', 'a', ':'] {
                assert(false);
            }
            if lower@.len() >= 7 && lower@.take(7) == seq!['d', 'i', 'r', 'e', 'c', 't', ':'] {
                assert(false);
            }
        }
        SubscriptionTopic::All
    }
}

} // verus!
