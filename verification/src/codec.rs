//! Encoding and decoding of envelopes.
//!
//! An envelope becomes one JSON object whose `type` member names the variant;
//! decoding reads the tag first and then the payload, rejecting a known tag
//! with the wrong shape and reporting an unknown tag as such. Decoding undoes
//! encoding exactly: see [`lemma_envelope_round_trip`].

use vstd::prelude::*;

use crate::json::{
    arr_model, dec_digits, json_clone, lemma_arr_model, lemma_obj_model, obj_get, obj_lookup,
    obj_model, str_eq, JsonModel, JsonValue,
};
use crate::protocol::{
    lemma_dec_digits_value, parse_u128_dec, spec_parse_u128, ConnectionDetails,
    ConnectionDetailsModel, ConnectionStats, ConnectionStatsModel, ConnectionSummary,
    ConnectionSummaryModel, DataUpdatePayload, DataUpdatePayloadModel, DebugPayload,
    DebugPayloadModel, ErrorPayload, ErrorPayloadModel, NavigationPayload, NavigationPayloadModel,
    SubscribePayload, UnsubscribePayload, WsMessage, WsMessageModel,
};

verus! {

/// Why a JSON document failed to decode as an envelope.
#[derive(Clone, Copy, Debug, PartialEq, Eq, Structural)]
pub enum DecodeError {
    /// The document is no object, lacks a string `type`, or a known tag came
    /// with a payload of the wrong shape.
    BadShape,
    /// The `type` member names no known envelope variant.
    UnknownTag,
}

// ---------------------------------------------------------------------------
// Member keys and tags
// ---------------------------------------------------------------------------

pub open spec fn key_type() -> Seq<char> {
    seq!['t', 'y', 'p', 'e']
}

pub open spec fn key_payload() -> Seq<char> {
    seq!['p', 'a', 'y', 'l', 'o', 'a', 'd']
}

pub open spec fn key_topics() -> Seq<char> {
    seq!['t', 'o', 'p', 'i', 'c', 's']
}

pub open spec fn key_event() -> Seq<char> {
    seq!['e', 'v', 'e', 'n', 't']
}

pub open spec fn key_connection_id() -> Seq<char> {
    seq!['c', 'o', 'n', 'n', 'e', 'c', 't', 'i', 'o', 'n', '_', 'i', 'd']
}

pub open spec fn key_ip() -> Seq<char> {
    seq!['i', 'p']
}

pub open spec fn key_connected_at() -> Seq<char> {
    seq!['c', 'o', 'n', 'n', 'e', 'c', 't', 'e', 'd', 'A', 't']
}

pub open spec fn key_user_agent() -> Seq<char> {
    seq!['u', 's', 'e', 'r', '_', 'a', 'g', 'e', 'n', 't']
}

pub open spec fn key_count() -> Seq<char> {
    seq!['c', 'o', 'u', 'n', 't']
}

pub open spec fn key_connections() -> Seq<char> {
    seq!['c', 'o', 'n', 'n', 'e', 'c', 't', 'i', 'o', 'n', 's']
}

pub open spec fn key_id() -> Seq<char> {
    seq!['i', 'd']
}

pub open spec fn key_connected_duration() -> Seq<char> {
    seq!['c', 'o', 'n', 'n', 'e', 'c', 't', 'e', 'd', '_', 'd', 'u', 'r', 'a', 't', 'i', 'o', 'n']
}

pub open spec fn key_message_count() -> Seq<char> {
    seq!['m', 'e', 's', 's', 'a', 'g', 'e', '_', 'c', 'o', 'u', 'n', 't']
}

pub open spec fn key_bytes_sent() -> Seq<char> {
    seq!['b', 'y', 't', 'e', 's', '_', 's', 'e', 'n', 't']
}

pub open spec fn key_bytes_received() -> Seq<char> {
    seq!['b', 'y', 't', 'e', 's', '_', 'r', 'e', 'c', 'e', 'i', 'v', 'e', 'd']
}

pub open spec fn key_schema() -> Seq<char> {
    seq!['s', 'c', 'h', 'e', 'm', 'a']
}

pub open spec fn key_data() -> Seq<char> {
    seq!['d', 'a', 't', 'a']
}

pub open spec fn key_source() -> Seq<char> {
    seq!['s', 'o', 'u', 'r', 'c', 'e']
}

pub open spec fn key_timestamp() -> Seq<char> {
    seq!['t', 'i', 'm', 'e', 's', 't', 'a', 'm', 'p']
}

pub open spec fn key_level() -> Seq<char> {
    seq!['l', 'e', 'v', 'e', 'l']
}

pub open spec fn key_component() -> Seq<char> {
    seq!['c', 'o', 'm', 'p', 'o', 'n', 'e', 'n', 't']
}

pub open spec fn key_message() -> Seq<char> {
    seq!['m', 'e', 's', 's', 'a', 'g', 'e']
}

pub open spec fn key_code() -> Seq<char> {
    seq!['c', 'o', 'd', 'e']
}

pub open spec fn key_details() -> Seq<char> {
    seq!['d', 'e', 't', 'a', 'i', 'l', 's']
}

pub open spec fn tag_connection_info() -> Seq<char> {
    seq!['C', 'O', 'N', 'N', 'E', 'C', 'T', 'I', 'O', 'N', '_', 'I', 'N', 'F', 'O']
}

pub open spec fn tag_request_connection_info() -> Seq<char> {
    seq![
        'R',
        'E',
        'Q',
        'U',
        'E',
        'S',
        'T',
        '_',
        'C',
        'O',
        'N',
        'N',
        'E',
        'C',
        'T',
        'I',
        'O',
        'N',
        '_',
        'I',
        'N',
        'F',
        'O',
    ]
}

pub open spec fn tag_request_active_connections() -> Seq<char> {
    seq![
        'R',
        'E',
        'Q',
        'U',
        'E',
        'S',
        'T',
        '_',
        'A',
        'C',
        'T',
        'I',
        'V',
        'E',
        '_',
        'C',
        'O',
        'N',
        'N',
        'E',
        'C',
        'T',
        'I',
        'O',
        'N',
        'S',
    ]
}

pub open spec fn tag_ping() -> Seq<char> {
    seq!['P', 'i', 'n', 'g']
}

pub open spec fn tag_pong() -> Seq<char> {
    seq!['P', 'o', 'n', 'g']
}

pub open spec fn tag_subscribe() -> Seq<char> {
    seq!['S', 'u', 'b', 's', 'c', 'r', 'i', 'b', 'e']
}

pub open spec fn tag_unsubscribe() -> Seq<char> {
    seq!['U', 'n', 's', 'u', 'b', 's', 'c', 'r', 'i', 'b', 'e']
}

pub open spec fn tag_active_connections() -> Seq<char> {
    seq!['A', 'C', 'T', 'I', 'V', 'E', '_', 'C', 'O', 'N', 'N', 'E', 'C', 'T', 'I', 'O', 'N', 'S']
}

pub open spec fn tag_navigation_updated() -> Seq<char> {
    seq!['N', 'a', 'v', 'i', 'g', 'a', 't', 'i', 'o', 'n', 'U', 'p', 'd', 'a', 't', 'e', 'd']
}

pub open spec fn tag_data_update() -> Seq<char> {
    seq!['D', 'a', 't', 'a', 'U', 'p', 'd', 'a', 't', 'e']
}

pub open spec fn tag_debug() -> Seq<char> {
    seq!['D', 'e', 'b', 'u', 'g']
}

pub open spec fn tag_error() -> Seq<char> {
    seq!['E', 'r', 'r', 'o', 'r']
}

pub open spec fn tag_custom() -> Seq<char> {
    seq!['C', 'u', 's', 't', 'o', 'm']
}

// ---------------------------------------------------------------------------
// Encoding, stated
// ---------------------------------------------------------------------------

/// An optional string on the wire: the string, or null.
pub open spec fn opt_str_json(o: Option<Seq<char>>) -> JsonModel {
    match o {
        Some(s) => JsonModel::Str(s),
        None => JsonModel::Null,
    }
}

/// An optional error code on the wire: the number, or null.
pub open spec fn opt_u16_json(o: Option<u16>) -> JsonModel {
    match o {
        Some(n) => JsonModel::Int(n as int),
        None => JsonModel::Null,
    }
}

/// An optional document on the wire: the document, or null.
pub open spec fn opt_json(o: Option<JsonModel>) -> JsonModel {
    match o {
        Some(v) => v,
        None => JsonModel::Null,
    }
}

/// Topic names as a JSON array of strings.
pub open spec fn topics_json(ts: Seq<Seq<char>>) -> Seq<JsonModel> {
    Seq::new(ts.len(), |i: int| JsonModel::Str(ts[i]))
}

/// One connection summary as a JSON object.
pub open spec fn summary_json(c: ConnectionSummaryModel) -> JsonModel {
    JsonModel::Obj(
        seq![
            (key_id(), JsonModel::Str(dec_digits(c.id as nat))),
            (key_ip(), JsonModel::Str(c.ip)),
            (key_connected_duration(), JsonModel::Int(c.connected_duration as int)),
            (key_message_count(), JsonModel::Int(c.message_count as int)),
            (key_bytes_sent(), JsonModel::Int(c.bytes_sent as int)),
            (key_bytes_received(), JsonModel::Int(c.bytes_received as int)),
        ],
    )
}

/// Connection summaries as a JSON array.
pub open spec fn summaries_json(cs: Seq<ConnectionSummaryModel>) -> Seq<JsonModel> {
    Seq::new(cs.len(), |i: int| summary_json(cs[i]))
}

/// The JSON document an envelope encodes to.
pub open spec fn spec_encode(m: WsMessageModel) -> JsonModel {
    match m {
        WsMessageModel::ConnectionInfo { payload } => JsonModel::Obj(
            seq![
                (key_type(), JsonModel::Str(tag_connection_info())),
                (key_connection_id(), JsonModel::Str(dec_digits(payload.connection_id as nat))),
                (key_ip(), JsonModel::Str(payload.ip)),
                (key_connected_at(), JsonModel::Int(payload.connected_at as int)),
                (key_user_agent(), opt_str_json(payload.user_agent)),
            ],
        ),
        WsMessageModel::RequestConnectionInfo => JsonModel::Obj(
            seq![(key_type(), JsonModel::Str(tag_request_connection_info()))],
        ),
        WsMessageModel::RequestActiveConnections => JsonModel::Obj(
            seq![(key_type(), JsonModel::Str(tag_request_active_connections()))],
        ),
        WsMessageModel::Ping => JsonModel::Obj(seq![(key_type(), JsonModel::Str(tag_ping()))]),
        WsMessageModel::Pong => JsonModel::Obj(seq![(key_type(), JsonModel::Str(tag_pong()))]),
        WsMessageModel::Subscribe { topics } => JsonModel::Obj(
            seq![
                (key_type(), JsonModel::Str(tag_subscribe())),
                (
                    key_payload(),
                    JsonModel::Obj(seq![(key_topics(), JsonModel::Arr(topics_json(topics)))]),
                ),
            ],
        ),
        WsMessageModel::Unsubscribe { topics } => JsonModel::Obj(
            seq![
                (key_type(), JsonModel::Str(tag_unsubscribe())),
                (
                    key_payload(),
                    JsonModel::Obj(seq![(key_topics(), JsonModel::Arr(topics_json(topics)))]),
                ),
            ],
        ),
        WsMessageModel::ActiveConnections { payload } => JsonModel::Obj(
            seq![
                (key_type(), JsonModel::Str(tag_active_connections())),
                (
                    key_payload(),
                    JsonModel::Obj(
                        seq![
                            (key_count(), JsonModel::Int(payload.count as int)),
                            (
                                key_connections(),
                                JsonModel::Arr(summaries_json(payload.connections)),
                            ),
                        ],
                    ),
                ),
            ],
        ),
        WsMessageModel::NavigationUpdated { payload } => JsonModel::Obj(
            seq![
                (key_type(), JsonModel::Str(tag_navigation_updated())),
                (
                    key_payload(),
                    JsonModel::Obj(
                        seq![
                            (key_schema(), JsonModel::Str(payload.schema)),
                            (key_data(), payload.data),
                        ],
                    ),
                ),
            ],
        ),
        WsMessageModel::DataUpdate { payload } => JsonModel::Obj(
            seq![
                (key_type(), JsonModel::Str(tag_data_update())),
                (
                    key_payload(),
                    JsonModel::Obj(
                        seq![
                            (key_source(), JsonModel::Str(payload.source)),
                            (key_data(), payload.data),
                            (key_timestamp(), JsonModel::Int(payload.timestamp as int)),
                        ],
                    ),
                ),
            ],
        ),
        WsMessageModel::Debug { payload } => JsonModel::Obj(
            seq![
                (key_type(), JsonModel::Str(tag_debug())),
                (
                    key_payload(),
                    JsonModel::Obj(
                        seq![
                            (key_level(), JsonModel::Str(payload.level)),
                            (key_component(), JsonModel::Str(payload.component)),
                            (key_message(), JsonModel::Str(payload.message)),
                            (key_data(), opt_json(payload.data)),
                            (key_timestamp(), JsonModel::Int(payload.timestamp as int)),
                        ],
                    ),
                ),
            ],
        ),
        WsMessageModel::Error { payload } => JsonModel::Obj(
            seq![
                (key_type(), JsonModel::Str(tag_error())),
                (
                    key_payload(),
                    JsonModel::Obj(
                        seq![
                            (key_message(), JsonModel::Str(payload.message)),
                            (key_code(), opt_u16_json(payload.code)),
                            (key_details(), opt_str_json(payload.details)),
                        ],
                    ),
                ),
            ],
        ),
        WsMessageModel::Custom { event, payload } => JsonModel::Obj(
            seq![
                (key_type(), JsonModel::Str(tag_custom())),
                (key_event(), JsonModel::Str(event)),
                (key_payload(), payload),
            ],
        ),
    }
}

/// Whether every number in the envelope fits a 64-bit signed wire integer.
pub open spec fn spec_encodable(m: WsMessageModel) -> bool {
    match m {
        WsMessageModel::ConnectionInfo { payload } => payload.connected_at <= i64::MAX,
        WsMessageModel::ActiveConnections { payload } => payload.count <= i64::MAX
            && forall|i: int|
            0 <= i < payload.connections.len() ==> (#[trigger] payload.connections[i]).message_count
                <= i64::MAX && payload.connections[i].bytes_sent <= i64::MAX
                && payload.connections[i].bytes_received <= i64::MAX,
        WsMessageModel::DataUpdate { payload } => payload.timestamp <= i64::MAX,
        WsMessageModel::Debug { payload } => payload.timestamp <= i64::MAX,
        _ => true,
    }
}

// ---------------------------------------------------------------------------
// Encoding, executed
// ---------------------------------------------------------------------------

/// One object member under a literal key.
fn member(k: &str, v: JsonValue) -> (r: (String, JsonValue))
    ensures
        r.0@ == k@,
        r.1@ == v@,
{
    (String::from_str(k), v)
}

/// A JSON string from a borrowed slice.
fn j_str(s: &str) -> (r: JsonValue)
    ensures
        r@ == JsonModel::Str(s@),
{
    JsonValue::Str(s.to_owned())
}

/// A JSON string copied from an owned string.
fn j_string(s: &String) -> (r: JsonValue)
    ensures
        r@ == JsonModel::Str(s@),
{
    JsonValue::Str(s.clone())
}

/// A JSON integer from an unsigned counter.
fn j_u64(n: u64) -> (r: JsonValue)
    requires
        n <= i64::MAX,
    ensures
        r@ == JsonModel::Int(n as int),
{
    JsonValue::Int(n as i64)
}

/// An optional string, or null.
fn j_opt_string(o: &Option<String>) -> (r: JsonValue)
    ensures
        r@ == opt_str_json(o.deep_view()),
{
    match o {
        Some(s) => j_string(s),
        None => JsonValue::Null,
    }
}

/// The decimal-string form of a connection id.
fn j_id(id: u128) -> (r: JsonValue)
    ensures
        r@ == JsonModel::Str(dec_digits(id as nat)),
{
    JsonValue::Str(crate::protocol::connection_id_text(id))
}

/// Topic names as a JSON array of strings.
fn j_topics(topics: &Vec<String>) -> (r: JsonValue)
    ensures
        r@ == JsonModel::Arr(topics_json(topics.deep_view())),
{
    let mut elems: Vec<JsonValue> = Vec::new();
    let len = topics.len();
    let mut i: usize = 0;
    while i < len
        invariant
            i <= len,
            len == topics@.len(),
            elems@.len() == i,
            forall|j: int| 0 <= j < i ==> (#[trigger] elems@[j])@ == JsonModel::Str(topics@[j]@),
        decreases len - i,
    {
        let e = j_string(&topics[i]);
        elems.push(e);
        i = i + 1;
    }
    proof {
        lemma_arr_model(elems@);
        assert(topics.deep_view().len() == topics@.len());
        assert forall|j: int| 0 <= j < topics@.len() implies arr_model(elems@)[j] == topics_json(
            topics.deep_view(),
        )[j] by {
            assert(topics.deep_view()[j] == topics@[j]@);
        }
        assert(arr_model(elems@) =~= topics_json(topics.deep_view()));
    }
    JsonValue::Arr(elems)
}

/// One connection summary as a JSON object.
fn j_summary(c: &ConnectionSummary) -> (r: JsonValue)
    requires
        c.message_count <= i64::MAX,
        c.bytes_sent <= i64::MAX,
        c.bytes_received <= i64::MAX,
    ensures
        r@ == summary_json(c@),
{
    let mut m: Vec<(String, JsonValue)> = Vec::new();
    m.push(member("id", j_id(c.id)));
    m.push(member("ip", j_string(&c.ip)));
    m.push(member("connected_duration", JsonValue::Int(c.connected_duration)));
    m.push(member("message_count", j_u64(c.message_count)));
    m.push(member("bytes_sent", j_u64(c.bytes_sent)));
    m.push(member("bytes_received", j_u64(c.bytes_received)));
    proof {
        lemma_obj_model(m@);
        reveal_strlit("id");
        reveal_strlit("ip");
        reveal_strlit("connected_duration");
        reveal_strlit("message_count");
        reveal_strlit("bytes_sent");
        reveal_strlit("bytes_received");
        assert("id"@ =~= key_id());
        assert("ip"@ =~= key_ip());
        assert("connected_duration"@ =~= key_connected_duration());
        assert("message_count"@ =~= key_message_count());
        assert("bytes_sent"@ =~= key_bytes_sent());
        assert("bytes_received"@ =~= key_bytes_received());
        assert(obj_model(m@) =~= summary_json(c@)->Obj_0);
    }
    JsonValue::Obj(m)
}

/// Connection summaries as a JSON array.
fn j_summaries(cs: &Vec<ConnectionSummary>) -> (r: JsonValue)
    requires
        forall|i: int|
            0 <= i < cs@.len() ==> (#[trigger] cs@[i]).message_count <= i64::MAX
                && cs@[i].bytes_sent <= i64::MAX && cs@[i].bytes_received <= i64::MAX,
    ensures
        r@ == JsonModel::Arr(summaries_json(Seq::new(cs@.len(), |i: int| cs@[i]@))),
{
    let mut elems: Vec<JsonValue> = Vec::new();
    let len = cs.len();
    let mut i: usize = 0;
    while i < len
        invariant
            i <= len,
            len == cs@.len(),
            elems@.len() == i,
            forall|j: int|
                0 <= j < cs@.len() ==> (#[trigger] cs@[j]).message_count <= i64::MAX
                    && cs@[j].bytes_sent <= i64::MAX && cs@[j].bytes_received <= i64::MAX,
            forall|j: int| 0 <= j < i ==> (#[trigger] elems@[j])@ == summary_json(cs@[j]@),
        decreases len - i,
    {
        let e = j_summary(&cs[i]);
        elems.push(e);
        i = i + 1;
    }
    proof {
        lemma_arr_model(elems@);
        let views = Seq::new(cs@.len(), |i: int| cs@[i]@);
        assert forall|j: int| 0 <= j < cs@.len() implies arr_model(elems@)[j] == summaries_json(
            views,
        )[j] by {
            assert(views[j] == cs@[j]@);
        }
        assert(arr_model(elems@) =~= summaries_json(views));
    }
    JsonValue::Arr(elems)
}

/// Encodes an envelope as its JSON document: exactly [`spec_encode`].
pub fn encode_envelope(msg: &WsMessage) -> (r: JsonValue)
    requires
        spec_encodable(msg@),
    ensures
        r@ == spec_encode(msg@),
{
    proof {
        reveal_strlit("type");
        reveal_strlit("payload");
        assert("type"@ =~= key_type());
        assert("payload"@ =~= key_payload());
    }
    match msg {
        WsMessage::ConnectionInfo { payload } => {
            let mut m: Vec<(String, JsonValue)> = Vec::new();
            m.push(member("type", j_str("CONNECTION_INFO")));
            m.push(member("connection_id", j_id(payload.connection_id)));
            m.push(member("ip", j_string(&payload.ip)));
            m.push(member("connectedAt", j_u64(payload.connected_at)));
            m.push(member("user_agent", j_opt_string(&payload.user_agent)));
            proof {
                lemma_obj_model(m@);
                reveal_strlit("CONNECTION_INFO");
                reveal_strlit("connection_id");
                reveal_strlit("ip");
                reveal_strlit("connectedAt");
                reveal_strlit("user_agent");
                assert("CONNECTION_INFO"@ =~= tag_connection_info());
                assert("connection_id"@ =~= key_connection_id());
                assert("ip"@ =~= key_ip());
                assert("connectedAt"@ =~= key_connected_at());
                assert("user_agent"@ =~= key_user_agent());
                assert(obj_model(m@) =~= spec_encode(msg@)->Obj_0);
            }
            JsonValue::Obj(m)
        },
        WsMessage::RequestConnectionInfo => {
            let mut m: Vec<(String, JsonValue)> = Vec::new();
            m.push(member("type", j_str("REQUEST_CONNECTION_INFO")));
            proof {
                lemma_obj_model(m@);
                reveal_strlit("REQUEST_CONNECTION_INFO");
                assert("REQUEST_CONNECTION_INFO"@ =~= tag_request_connection_info());
                assert(obj_model(m@) =~= spec_encode(msg@)->Obj_0);
            }
            JsonValue::Obj(m)
        },
        WsMessage::RequestActiveConnections => {
            let mut m: Vec<(String, JsonValue)> = Vec::new();
            m.push(member("type", j_str("REQUEST_ACTIVE_CONNECTIONS")));
            proof {
                lemma_obj_model(m@);
                reveal_strlit("REQUEST_ACTIVE_CONNECTIONS");
                assert("REQUEST_ACTIVE_CONNECTIONS"@ =~= tag_request_active_connections());
                assert(obj_model(m@) =~= spec_encode(msg@)->Obj_0);
            }
            JsonValue::Obj(m)
        },
        WsMessage::Ping => {
            let mut m: Vec<(String, JsonValue)> = Vec::new();
            m.push(member("type", j_str("Ping")));
            proof {
                lemma_obj_model(m@);
                reveal_strlit("Ping");
                assert("Ping"@ =~= tag_ping());
                assert(obj_model(m@) =~= spec_encode(msg@)->Obj_0);
            }
            JsonValue::Obj(m)
        },
        WsMessage::Pong => {
            let mut m: Vec<(String, JsonValue)> = Vec::new();
            m.push(member("type", j_str("Pong")));
            proof {
                lemma_obj_model(m@);
                reveal_strlit("Pong");
                assert("Pong"@ =~= tag_pong());
                assert(obj_model(m@) =~= spec_encode(msg@)->Obj_0);
            }
            JsonValue::Obj(m)
        },
        WsMessage::Subscribe { payload } => {
            let mut inner: Vec<(String, JsonValue)> = Vec::new();
            inner.push(member("topics", j_topics(&payload.topics)));
            let ghost inner_view = inner@;
            let mut m: Vec<(String, JsonValue)> = Vec::new();
            m.push(member("type", j_str("Subscribe")));
            m.push(member("payload", JsonValue::Obj(inner)));
            proof {
                lemma_obj_model(m@);
                lemma_obj_model(inner_view);
                reveal_strlit("Subscribe");
                reveal_strlit("topics");
                assert("Subscribe"@ =~= tag_subscribe());
                assert("topics"@ =~= key_topics());
                assert(obj_model(inner_view) =~= seq![
                    (key_topics(), JsonModel::Arr(topics_json(payload@))),
                ]);
                assert(obj_model(m@) =~= spec_encode(msg@)->Obj_0);
            }
            JsonValue::Obj(m)
        },
        WsMessage::Unsubscribe { payload } => {
            let mut inner: Vec<(String, JsonValue)> = Vec::new();
            inner.push(member("topics", j_topics(&payload.topics)));
            let ghost inner_view = inner@;
            let mut m: Vec<(String, JsonValue)> = Vec::new();
            m.push(member("type", j_str("Unsubscribe")));
            m.push(member("payload", JsonValue::Obj(inner)));
            proof {
                lemma_obj_model(m@);
                lemma_obj_model(inner_view);
                reveal_strlit("Unsubscribe");
                reveal_strlit("topics");
                assert("Unsubscribe"@ =~= tag_unsubscribe());
                assert("topics"@ =~= key_topics());
                assert(obj_model(inner_view) =~= seq![
                    (key_topics(), JsonModel::Arr(topics_json(payload@))),
                ]);
                assert(obj_model(m@) =~= spec_encode(msg@)->Obj_0);
            }
            JsonValue::Obj(m)
        },
        WsMessage::ActiveConnections { payload } => {
            proof {
                assert forall|i: int| 0 <= i < payload.connections@.len() implies (#[trigger]
                payload.connections@[i]).message_count <= i64::MAX
                    && payload.connections@[i].bytes_sent <= i64::MAX
                    && payload.connections@[i].bytes_received <= i64::MAX by {
                    assert(payload@.connections[i] == payload.connections@[i]@);
                }
            }
            let mut inner: Vec<(String, JsonValue)> = Vec::new();
            inner.push(member("count", j_u64(payload.count)));
            inner.push(member("connections", j_summaries(&payload.connections)));
            let ghost inner_view = inner@;
            let mut m: Vec<(String, JsonValue)> = Vec::new();
            m.push(member("type", j_str("ACTIVE_CONNECTIONS")));
            m.push(member("payload", JsonValue::Obj(inner)));
            proof {
                lemma_obj_model(m@);
                lemma_obj_model(inner_view);
                reveal_strlit("ACTIVE_CONNECTIONS");
                reveal_strlit("count");
                reveal_strlit("connections");
                assert("ACTIVE_CONNECTIONS"@ =~= tag_active_connections());
                assert("count"@ =~= key_count());
                assert("connections"@ =~= key_connections());
                assert(summaries_json(payload@.connections) =~= summaries_json(
                    Seq::new(payload.connections@.len(), |i: int| payload.connections@[i]@),
                ));
                assert(obj_model(inner_view) =~= seq![
                    (key_count(), JsonModel::Int(payload.count as int)),
                    (key_connections(), JsonModel::Arr(summaries_json(payload@.connections))),
                ]);
                assert(obj_model(m@) =~= spec_encode(msg@)->Obj_0);
            }
            JsonValue::Obj(m)
        },
        WsMessage::NavigationUpdated { payload } => {
            let mut inner: Vec<(String, JsonValue)> = Vec::new();
            inner.push(member("schema", j_string(&payload.schema)));
            inner.push(member("data", json_clone(&payload.data)));
            let ghost inner_view = inner@;
            let mut m: Vec<(String, JsonValue)> = Vec::new();
            m.push(member("type", j_str("NavigationUpdated")));
            m.push(member("payload", JsonValue::Obj(inner)));
            proof {
                lemma_obj_model(m@);
                reveal_strlit("NavigationUpdated");
                reveal_strlit("schema");
                reveal_strlit("data");
                assert("NavigationUpdated"@ =~= tag_navigation_updated());
                assert("schema"@ =~= key_schema());
                assert("data"@ =~= key_data());
                lemma_obj_model(inner_view);
                assert(obj_model(inner_view) =~= seq![
                    (key_schema(), JsonModel::Str(payload.schema@)),
                    (key_data(), payload.data@),
                ]);
                assert(obj_model(m@) =~= spec_encode(msg@)->Obj_0);
            }
            JsonValue::Obj(m)
        },
        WsMessage::DataUpdate { payload } => {
            let mut inner: Vec<(String, JsonValue)> = Vec::new();
            inner.push(member("source", j_string(&payload.source)));
            inner.push(member("data", json_clone(&payload.data)));
            inner.push(member("timestamp", j_u64(payload.timestamp)));
            let ghost inner_view = inner@;
            let mut m: Vec<(String, JsonValue)> = Vec::new();
            m.push(member("type", j_str("DataUpdate")));
            m.push(member("payload", JsonValue::Obj(inner)));
            proof {
                lemma_obj_model(m@);
                reveal_strlit("DataUpdate");
                reveal_strlit("source");
                reveal_strlit("data");
                reveal_strlit("timestamp");
                assert("DataUpdate"@ =~= tag_data_update());
                assert("source"@ =~= key_source());
                assert("data"@ =~= key_data());
                assert("timestamp"@ =~= key_timestamp());
                lemma_obj_model(inner_view);
                assert(obj_model(inner_view) =~= seq![
                    (key_source(), JsonModel::Str(payload.source@)),
                    (key_data(), payload.data@),
                    (key_timestamp(), JsonModel::Int(payload.timestamp as int)),
                ]);
                assert(obj_model(m@) =~= spec_encode(msg@)->Obj_0);
            }
            JsonValue::Obj(m)
        },
        WsMessage::Debug { payload } => {
            let data = match &payload.data {
                Some(v) => json_clone(v),
                None => JsonValue::Null,
            };
            let mut inner: Vec<(String, JsonValue)> = Vec::new();
            inner.push(member("level", j_string(&payload.level)));
            inner.push(member("component", j_string(&payload.component)));
            inner.push(member("message", j_string(&payload.message)));
            inner.push(member("data", data));
            inner.push(member("timestamp", j_u64(payload.timestamp)));
            let ghost inner_view = inner@;
            let mut m: Vec<(String, JsonValue)> = Vec::new();
            m.push(member("type", j_str("Debug")));
            m.push(member("payload", JsonValue::Obj(inner)));
            proof {
                lemma_obj_model(m@);
                reveal_strlit("Debug");
                reveal_strlit("level");
                reveal_strlit("component");
                reveal_strlit("message");
                reveal_strlit("data");
                reveal_strlit("timestamp");
                assert("Debug"@ =~= tag_debug());
                assert("level"@ =~= key_level());
                assert("component"@ =~= key_component());
                assert("message"@ =~= key_message());
                assert("data"@ =~= key_data());
                assert("timestamp"@ =~= key_timestamp());
                lemma_obj_model(inner_view);
                assert(obj_model(inner_view) =~= seq![
                    (key_level(), JsonModel::Str(payload.level@)),
                    (key_component(), JsonModel::Str(payload.component@)),
                    (key_message(), JsonModel::Str(payload.message@)),
                    (key_data(), opt_json(payload@.data)),
                    (key_timestamp(), JsonModel::Int(payload.timestamp as int)),
                ]);
                assert(obj_model(m@) =~= spec_encode(msg@)->Obj_0);
            }
            JsonValue::Obj(m)
        },
        WsMessage::Error { payload } => {
            let code = match payload.code {
                Some(c) => JsonValue::Int(c as i64),
                None => JsonValue::Null,
            };
            let mut inner: Vec<(String, JsonValue)> = Vec::new();
            inner.push(member("message", j_string(&payload.message)));
            inner.push(member("code", code));
            inner.push(member("details", j_opt_string(&payload.details)));
            let ghost inner_view = inner@;
            let mut m: Vec<(String, JsonValue)> = Vec::new();
            m.push(member("type", j_str("Error")));
            m.push(member("payload", JsonValue::Obj(inner)));
            proof {
                lemma_obj_model(m@);
                reveal_strlit("Error");
                reveal_strlit("message");
                reveal_strlit("code");
                reveal_strlit("details");
                assert("Error"@ =~= tag_error());
                assert("message"@ =~= key_message());
                assert("code"@ =~= key_code());
                assert("details"@ =~= key_details());
                lemma_obj_model(inner_view);
                assert(obj_model(inner_view) =~= seq![
                    (key_message(), JsonModel::Str(payload.message@)),
                    (key_code(), opt_u16_json(payload.code)),
                    (key_details(), opt_str_json(payload.details.deep_view())),
                ]);
                assert(obj_model(m@) =~= spec_encode(msg@)->Obj_0);
            }
            JsonValue::Obj(m)
        },
        WsMessage::Custom { event, payload } => {
            let mut m: Vec<(String, JsonValue)> = Vec::new();
            m.push(member("type", j_str("Custom")));
            m.push(member("event", j_string(event)));
            m.push(member("payload", json_clone(payload)));
            proof {
                lemma_obj_model(m@);
                reveal_strlit("Custom");
                reveal_strlit("event");
                assert("Custom"@ =~= tag_custom());
                assert("event"@ =~= key_event());
                assert(obj_model(m@) =~= spec_encode(msg@)->Obj_0);
            }
            JsonValue::Obj(m)
        },
    }
}

// ---------------------------------------------------------------------------
// Decoding, stated
// ---------------------------------------------------------------------------

/// An unsigned counter read from the wire.
pub open spec fn dec_u64(v: JsonModel) -> Option<u64> {
    match v {
        JsonModel::Int(n) => if 0 <= n <= i64::MAX {
            Some(n as u64)
        } else {
            None
        },
        _ => None,
    }
}

/// An optional string read from the wire: absent and null both mean none.
pub open spec fn dec_opt_str(v: Option<JsonModel>) -> Option<Option<Seq<char>>> {
    match v {
        None => Some(None),
        Some(JsonModel::Null) => Some(None),
        Some(JsonModel::Str(s)) => Some(Some(s)),
        Some(_) => None,
    }
}

/// A connection id read from its decimal string.
pub open spec fn dec_id(v: JsonModel) -> Option<u128> {
    match v {
        JsonModel::Str(s) => spec_parse_u128(s),
        _ => None,
    }
}

/// Topic names read from a JSON array of strings.
pub open spec fn dec_topic_elems(elems: Seq<JsonModel>) -> Option<Seq<Seq<char>>>
    decreases elems.len(),
{
    if elems.len() == 0 {
        Some(Seq::empty())
    } else {
        match elems[0] {
            JsonModel::Str(s) => match dec_topic_elems(elems.drop_first()) {
                Some(rest) => Some(seq![s] + rest),
                None => None,
            },
            _ => None,
        }
    }
}

/// One connection summary read from its JSON object.
pub open spec fn dec_summary(v: JsonModel) -> Option<ConnectionSummaryModel> {
    match v {
        JsonModel::Obj(ms) => match (
            obj_lookup(ms, key_id()),
            obj_lookup(ms, key_ip()),
            obj_lookup(ms, key_connected_duration()),
        ) {
            (Some(JsonModel::Str(idtext)), Some(JsonModel::Str(ip)), Some(JsonModel::Int(d))) => {
                match (
                    spec_parse_u128(idtext),
                    obj_lookup(ms, key_message_count()),
                    obj_lookup(ms, key_bytes_sent()),
                    obj_lookup(ms, key_bytes_received()),
                ) {
                    (Some(id), Some(mc), Some(bs), Some(br)) => match (
                        dec_u64(mc),
                        dec_u64(bs),
                        dec_u64(br),
                    ) {
                        (Some(mc), Some(bs), Some(br)) => if i64::MIN <= d <= i64::MAX {
                            Some(
                                ConnectionSummaryModel {
                                    id,
                                    ip,
                                    connected_duration: d as i64,
                                    message_count: mc,
                                    bytes_sent: bs,
                                    bytes_received: br,
                                },
                            )
                        } else {
                            None
                        },
                        _ => None,
                    },
                    _ => None,
                }
            },
            _ => None,
        },
        _ => None,
    }
}

/// Connection summaries read from a JSON array.
pub open spec fn dec_summary_elems(elems: Seq<JsonModel>) -> Option<Seq<ConnectionSummaryModel>>
    decreases elems.len(),
{
    if elems.len() == 0 {
        Some(Seq::empty())
    } else {
        match dec_summary(elems[0]) {
            Some(c) => match dec_summary_elems(elems.drop_first()) {
                Some(rest) => Some(seq![c] + rest),
                None => None,
            },
            None => None,
        }
    }
}

/// The envelope a JSON document decodes to, or why it does not.
pub open spec fn spec_decode(v: JsonModel) -> Result<WsMessageModel, DecodeError> {
    match v {
        JsonModel::Obj(ms) => match obj_lookup(ms, key_type()) {
            Some(JsonModel::Str(tag)) => if tag == tag_connection_info() {
                spec_dec_connection_info(ms)
            } else if tag == tag_request_connection_info() {
                Ok(WsMessageModel::RequestConnectionInfo)
            } else if tag == tag_request_active_connections() {
                Ok(WsMessageModel::RequestActiveConnections)
            } else if tag == tag_ping() {
                Ok(WsMessageModel::Ping)
            } else if tag == tag_pong() {
                Ok(WsMessageModel::Pong)
            } else if tag == tag_subscribe() {
                match spec_dec_topics_payload(ms) {
                    Some(topics) => Ok(WsMessageModel::Subscribe { topics }),
                    None => Err(DecodeError::BadShape),
                }
            } else if tag == tag_unsubscribe() {
                match spec_dec_topics_payload(ms) {
                    Some(topics) => Ok(WsMessageModel::Unsubscribe { topics }),
                    None => Err(DecodeError::BadShape),
                }
            } else if tag == tag_active_connections() {
                spec_dec_active_connections(ms)
            } else if tag == tag_navigation_updated() {
                spec_dec_navigation_updated(ms)
            } else if tag == tag_data_update() {
                spec_dec_data_update(ms)
            } else if tag == tag_debug() {
                spec_dec_debug(ms)
            } else if tag == tag_error() {
                spec_dec_error(ms)
            } else if tag == tag_custom() {
                spec_dec_custom(ms)
            } else {
                Err(DecodeError::UnknownTag)
            },
            _ => Err(DecodeError::BadShape),
        },
        _ => Err(DecodeError::BadShape),
    }
}

/// The welcome payload, read back.
pub open spec fn spec_dec_connection_info(ms: Seq<(Seq<char>, JsonModel)>) -> Result<
    WsMessageModel,
    DecodeError,
> {
    match (
        obj_lookup(ms, key_connection_id()),
        obj_lookup(ms, key_ip()),
        obj_lookup(ms, key_connected_at()),
    ) {
        (Some(JsonModel::Str(idtext)), Some(JsonModel::Str(ip)), Some(at)) => {
            match (spec_parse_u128(idtext), dec_u64(at), dec_opt_str(
                obj_lookup(ms, key_user_agent()),
            )) {
                (Some(id), Some(t), Some(ua)) => Ok(
                    WsMessageModel::ConnectionInfo {
                        payload: ConnectionDetailsModel {
                            connection_id: id,
                            ip,
                            connected_at: t,
                            user_agent: ua,
                        },
                    },
                ),
                _ => Err(DecodeError::BadShape),
            }
        },
        _ => Err(DecodeError::BadShape),
    }
}

/// A subscribe or unsubscribe payload, read back.
pub open spec fn spec_dec_topics_payload(ms: Seq<(Seq<char>, JsonModel)>) -> Option<
    Seq<Seq<char>>,
> {
    match obj_lookup(ms, key_payload()) {
        Some(JsonModel::Obj(pms)) => match obj_lookup(pms, key_topics()) {
            Some(JsonModel::Arr(elems)) => dec_topic_elems(elems),
            _ => None,
        },
        _ => None,
    }
}

/// The live-connections snapshot, read back.
pub open spec fn spec_dec_active_connections(ms: Seq<(Seq<char>, JsonModel)>) -> Result<
    WsMessageModel,
    DecodeError,
> {
    match obj_lookup(ms, key_payload()) {
        Some(JsonModel::Obj(pms)) => match (obj_lookup(pms, key_count()), obj_lookup(
            pms,
            key_connections(),
        )) {
            (Some(cnt), Some(JsonModel::Arr(elems))) => match (dec_u64(cnt), dec_summary_elems(
                elems,
            )) {
                (Some(count), Some(connections)) => Ok(
                    WsMessageModel::ActiveConnections {
                        payload: ConnectionStatsModel { count, connections },
                    },
                ),
                _ => Err(DecodeError::BadShape),
            },
            _ => Err(DecodeError::BadShape),
        },
        _ => Err(DecodeError::BadShape),
    }
}

/// A navigation update, read back.
pub open spec fn spec_dec_navigation_updated(ms: Seq<(Seq<char>, JsonModel)>) -> Result<
    WsMessageModel,
    DecodeError,
> {
    match obj_lookup(ms, key_payload()) {
        Some(JsonModel::Obj(pms)) => match (obj_lookup(pms, key_schema()), obj_lookup(
            pms,
            key_data(),
        )) {
            (Some(JsonModel::Str(schema)), Some(data)) => Ok(
                WsMessageModel::NavigationUpdated {
                    payload: NavigationPayloadModel { schema, data },
                },
            ),
            _ => Err(DecodeError::BadShape),
        },
        _ => Err(DecodeError::BadShape),
    }
}

/// A data update, read back.
pub open spec fn spec_dec_data_update(ms: Seq<(Seq<char>, JsonModel)>) -> Result<
    WsMessageModel,
    DecodeError,
> {
    match obj_lookup(ms, key_payload()) {
        Some(JsonModel::Obj(pms)) => match (
            obj_lookup(pms, key_source()),
            obj_lookup(pms, key_data()),
            obj_lookup(pms, key_timestamp()),
        ) {
            (Some(JsonModel::Str(source)), Some(data), Some(ts)) => match dec_u64(ts) {
                Some(timestamp) => Ok(
                    WsMessageModel::DataUpdate {
                        payload: DataUpdatePayloadModel { source, data, timestamp },
                    },
                ),
                None => Err(DecodeError::BadShape),
            },
            _ => Err(DecodeError::BadShape),
        },
        _ => Err(DecodeError::BadShape),
    }
}

/// A debug-trace entry, read back. A null `data` member means none was set.
pub open spec fn spec_dec_debug(ms: Seq<(Seq<char>, JsonModel)>) -> Result<
    WsMessageModel,
    DecodeError,
> {
    match obj_lookup(ms, key_payload()) {
        Some(JsonModel::Obj(pms)) => match (
            obj_lookup(pms, key_level()),
            obj_lookup(pms, key_component()),
            obj_lookup(pms, key_message()),
        ) {
            (
                Some(JsonModel::Str(level)),
                Some(JsonModel::Str(component)),
                Some(JsonModel::Str(message)),
            ) => {
                let data = match obj_lookup(pms, key_data()) {
                    None => None,
                    Some(JsonModel::Null) => None,
                    Some(d) => Some(d),
                };
                match obj_lookup(pms, key_timestamp()) {
                    Some(ts) => match dec_u64(ts) {
                        Some(timestamp) => Ok(
                            WsMessageModel::Debug {
                                payload: DebugPayloadModel {
                                    level,
                                    component,
                                    message,
                                    data,
                                    timestamp,
                                },
                            },
                        ),
                        None => Err(DecodeError::BadShape),
                    },
                    None => Err(DecodeError::BadShape),
                }
            },
            _ => Err(DecodeError::BadShape),
        },
        _ => Err(DecodeError::BadShape),
    }
}

/// An error report, read back.
pub open spec fn spec_dec_error(ms: Seq<(Seq<char>, JsonModel)>) -> Result<
    WsMessageModel,
    DecodeError,
> {
    match obj_lookup(ms, key_payload()) {
        Some(JsonModel::Obj(pms)) => match obj_lookup(pms, key_message()) {
            Some(JsonModel::Str(message)) => {
                let code_m = match obj_lookup(pms, key_code()) {
                    None => Some(None),
                    Some(JsonModel::Null) => Some(None),
                    Some(JsonModel::Int(n)) => if 0 <= n <= u16::MAX {
                        Some(Some(n as u16))
                    } else {
                        None
                    },
                    Some(_) => None,
                };
                match (code_m, dec_opt_str(obj_lookup(pms, key_details()))) {
                    (Some(code), Some(details)) => Ok(
                        WsMessageModel::Error {
                            payload: ErrorPayloadModel { message, code, details },
                        },
                    ),
                    _ => Err(DecodeError::BadShape),
                }
            },
            _ => Err(DecodeError::BadShape),
        },
        _ => Err(DecodeError::BadShape),
    }
}

/// A custom event, read back.
pub open spec fn spec_dec_custom(ms: Seq<(Seq<char>, JsonModel)>) -> Result<
    WsMessageModel,
    DecodeError,
> {
    match (obj_lookup(ms, key_event()), obj_lookup(ms, key_payload())) {
        (Some(JsonModel::Str(event)), Some(payload)) => Ok(
            WsMessageModel::Custom { event, payload },
        ),
        _ => Err(DecodeError::BadShape),
    }
}

// ---------------------------------------------------------------------------
// Decoding, executed
// ---------------------------------------------------------------------------

/// Splits topic decoding at position `i`: the first `i` elements must be
/// strings, and the rest decides the outcome.
proof fn lemma_dec_topic_prefix(s: Seq<JsonModel>, i: int)
    requires
        0 <= i <= s.len(),
        forall|j: int| 0 <= j < i ==> (#[trigger] s[j]) is Str,
    ensures
        dec_topic_elems(s) == match dec_topic_elems(s.skip(i)) {
            Some(rest) => Some(Seq::new(i as nat, |j: int| s[j]->Str_0) + rest),
            None => None::<Seq<Seq<char>>>,
        },
    decreases i,
{
    if i == 0 {
        assert(s.skip(0) =~= s);
        match dec_topic_elems(s) {
            Some(rest) => {
                assert(Seq::new(0, |j: int| s[j]->Str_0) + rest =~= rest);
            },
            None => {},
        }
    } else {
        lemma_dec_topic_prefix(s.drop_first(), i - 1);
        assert(s.drop_first().skip(i - 1) =~= s.skip(i));
        match dec_topic_elems(s.skip(i)) {
            Some(rest) => {
                assert(seq![s[0]->Str_0] + (Seq::new((i - 1) as nat, |j: int| s.drop_first()[j]->Str_0)
                    + rest) =~= Seq::new(i as nat, |j: int| s[j]->Str_0) + rest);
            },
            None => {},
        }
    }
}

/// Splits summary decoding at position `i` in the same way.
proof fn lemma_dec_summary_prefix(s: Seq<JsonModel>, i: int)
    requires
        0 <= i <= s.len(),
        forall|j: int| 0 <= j < i ==> dec_summary(#[trigger] s[j]) is Some,
    ensures
        dec_summary_elems(s) == match dec_summary_elems(s.skip(i)) {
            Some(rest) => Some(
                Seq::new(i as nat, |j: int| dec_summary(s[j])->Some_0) + rest,
            ),
            None => None::<Seq<ConnectionSummaryModel>>,
        },
    decreases i,
{
    if i == 0 {
        assert(s.skip(0) =~= s);
        match dec_summary_elems(s) {
            Some(rest) => {
                assert(Seq::new(0, |j: int| dec_summary(s[j])->Some_0) + rest =~= rest);
            },
            None => {},
        }
    } else {
        lemma_dec_summary_prefix(s.drop_first(), i - 1);
        assert(s.drop_first().skip(i - 1) =~= s.skip(i));
        match dec_summary_elems(s.skip(i)) {
            Some(rest) => {
                assert(seq![dec_summary(s[0])->Some_0] + (Seq::new(
                    (i - 1) as nat,
                    |j: int| dec_summary(s.drop_first()[j])->Some_0,
                ) + rest) =~= Seq::new(i as nat, |j: int| dec_summary(s[j])->Some_0) + rest);
            },
            None => {},
        }
    }
}

/// Reads topic names out of a JSON array, exactly as [`dec_topic_elems`].
fn dec_topics_exec(elems: &Vec<JsonValue>) -> (r: Option<Vec<String>>)
    ensures
        match r {
            Some(ts) => dec_topic_elems(arr_model(elems@)) == Some(ts.deep_view()),
            None => dec_topic_elems(arr_model(elems@)) is None,
        },
{
    proof {
        lemma_arr_model(elems@);
    }
    let ghost models = arr_model(elems@);
    let mut out: Vec<String> = Vec::new();
    let len = elems.len();
    let mut i: usize = 0;
    while i < len
        invariant
            i <= len,
            len == elems@.len(),
            models == arr_model(elems@),
            models.len() == len,
            forall|j: int| 0 <= j < len ==> models[j] == (#[trigger] elems@[j])@,
            forall|j: int| 0 <= j < i ==> (#[trigger] models[j]) is Str,
            out@.len() == i,
            forall|j: int| 0 <= j < i ==> (#[trigger] out@[j])@ == models[j]->Str_0,
        decreases len - i,
    {
        match &elems[i] {
            JsonValue::Str(s) => {
                let c = s.clone();
                out.push(c);
            },
            _ => {
                proof {
                    lemma_dec_topic_prefix(models, i as int);
                    assert(models.skip(i as int)[0] == models[i as int]);
                }
                return None;
            },
        }
        i = i + 1;
    }
    proof {
        lemma_dec_topic_prefix(models, len as int);
        assert(models.skip(len as int).len() == 0);
        assert(Seq::new(len as nat, |j: int| models[j]->Str_0) + Seq::<Seq<char>>::empty() =~= Seq::new(
            len as nat,
            |j: int| models[j]->Str_0,
        ));
        assert(out.deep_view() =~= Seq::new(len as nat, |j: int| models[j]->Str_0));
    }
    Some(out)
}

/// Reads one connection summary out of its JSON object, exactly as
/// [`dec_summary`].
fn dec_summary_exec(v: &JsonValue) -> (r: Option<ConnectionSummary>)
    ensures
        match r {
            Some(c) => dec_summary(v@) == Some(c@),
            None => dec_summary(v@) is None,
        },
{
    proof {
        reveal_strlit("id");
        reveal_strlit("ip");
        reveal_strlit("connected_duration");
        reveal_strlit("message_count");
        reveal_strlit("bytes_sent");
        reveal_strlit("bytes_received");
        assert("id"@ =~= key_id());
        assert("ip"@ =~= key_ip());
        assert("connected_duration"@ =~= key_connected_duration());
        assert("message_count"@ =~= key_message_count());
        assert("bytes_sent"@ =~= key_bytes_sent());
        assert("bytes_received"@ =~= key_bytes_received());
    }
    let members = match v {
        JsonValue::Obj(members) => members,
        _ => {
            return None;
        },
    };
    let id = match obj_get(members, "id") {
        Some(JsonValue::Str(idtext)) => match crate::protocol::parse_u128_dec(idtext.as_str()) {
            Some(id) => id,
            None => {
                return None;
            },
        },
        _ => {
            return None;
        },
    };
    let ip = match obj_get(members, "ip") {
        Some(JsonValue::Str(ip)) => ip.clone(),
        _ => {
            return None;
        },
    };
    let connected_duration = match obj_get(members, "connected_duration") {
        Some(JsonValue::Int(d)) => *d,
        _ => {
            return None;
        },
    };
    let message_count = match obj_get(members, "message_count") {
        Some(JsonValue::Int(n)) => {
            if *n >= 0 {
                *n as u64
            } else {
                return None;
            }
        },
        _ => {
            return None;
        },
    };
    let bytes_sent = match obj_get(members, "bytes_sent") {
        Some(JsonValue::Int(n)) => {
            if *n >= 0 {
                *n as u64
            } else {
                return None;
            }
        },
        _ => {
            return None;
        },
    };
    let bytes_received = match obj_get(members, "bytes_received") {
        Some(JsonValue::Int(n)) => {
            if *n >= 0 {
                *n as u64
            } else {
                return None;
            }
        },
        _ => {
            return None;
        },
    };
    Some(
        ConnectionSummary {
            id,
            ip,
            connected_duration,
            message_count,
            bytes_sent,
            bytes_received,
        },
    )
}

/// Reads connection summaries out of a JSON array, exactly as
/// [`dec_summary_elems`].
fn dec_summaries_exec(elems: &Vec<JsonValue>) -> (r: Option<Vec<ConnectionSummary>>)
    ensures
        match r {
            Some(cs) => dec_summary_elems(arr_model(elems@)) == Some(
                Seq::new(cs@.len(), |i: int| cs@[i]@),
            ),
            None => dec_summary_elems(arr_model(elems@)) is None,
        },
{
    proof {
        lemma_arr_model(elems@);
    }
    let ghost models = arr_model(elems@);
    let mut out: Vec<ConnectionSummary> = Vec::new();
    let len = elems.len();
    let mut i: usize = 0;
    while i < len
        invariant
            i <= len,
            len == elems@.len(),
            models == arr_model(elems@),
            models.len() == len,
            forall|j: int| 0 <= j < len ==> models[j] == (#[trigger] elems@[j])@,
            forall|j: int| 0 <= j < i ==> dec_summary(#[trigger] models[j]) is Some,
            out@.len() == i,
            forall|j: int|
                0 <= j < i ==> dec_summary(models[j]) == Some((#[trigger] out@[j])@),
        decreases len - i,
    {
        match dec_summary_exec(&elems[i]) {
            Some(c) => {
                out.push(c);
            },
            None => {
                proof {
                    lemma_dec_summary_prefix(models, i as int);
                    assert(models.skip(i as int)[0] == models[i as int]);
                }
                return None;
            },
        }
        i = i + 1;
    }
    proof {
        lemma_dec_summary_prefix(models, len as int);
        assert(models.skip(len as int).len() == 0);
        assert(Seq::new(len as nat, |j: int| dec_summary(models[j])->Some_0)
            + Seq::<ConnectionSummaryModel>::empty() =~= Seq::new(
            len as nat,
            |j: int| dec_summary(models[j])->Some_0,
        ));
        assert(Seq::new(out@.len(), |i: int| out@[i]@) =~= Seq::new(
            len as nat,
            |j: int| dec_summary(models[j])->Some_0,
        ));
    }
    Some(out)
}

/// Reads an optional string member: absent and null both mean none.
fn dec_opt_str_exec(v: Option<&JsonValue>) -> (r: Option<Option<String>>)
    ensures
        match r {
            Some(o) => dec_opt_str(match v {
                Some(x) => Some(x@),
                None => None,
            }) == Some(o.deep_view()),
            None => dec_opt_str(match v {
                Some(x) => Some(x@),
                None => None,
            }) is None,
        },
{
    match v {
        None => Some(None),
        Some(JsonValue::Null) => Some(None),
        Some(JsonValue::Str(s)) => Some(Some(s.clone())),
        Some(_) => None,
    }
}

/// Decodes a JSON document as an envelope: exactly [`spec_decode`].
pub fn decode_envelope(v: &JsonValue) -> (r: Result<WsMessage, DecodeError>)
    ensures
        match r {
            Ok(m) => spec_decode(v@) == Ok::<WsMessageModel, DecodeError>(m@),
            Err(e) => spec_decode(v@) == Err::<WsMessageModel, DecodeError>(e),
        },
{
    proof {
        reveal_strlit("type");
        reveal_strlit("payload");
        reveal_strlit("topics");
        reveal_strlit("event");
        assert("type"@ =~= key_type());
        assert("payload"@ =~= key_payload());
        assert("topics"@ =~= key_topics());
        assert("event"@ =~= key_event());
        reveal_strlit("CONNECTION_INFO");
        reveal_strlit("REQUEST_CONNECTION_INFO");
        reveal_strlit("REQUEST_ACTIVE_CONNECTIONS");
        reveal_strlit("Ping");
        reveal_strlit("Pong");
        reveal_strlit("Subscribe");
        reveal_strlit("Unsubscribe");
        reveal_strlit("ACTIVE_CONNECTIONS");
        reveal_strlit("NavigationUpdated");
        reveal_strlit("DataUpdate");
        reveal_strlit("Debug");
        reveal_strlit("Error");
        reveal_strlit("Custom");
        assert("CONNECTION_INFO"@ =~= tag_connection_info());
        assert("REQUEST_CONNECTION_INFO"@ =~= tag_request_connection_info());
        assert("REQUEST_ACTIVE_CONNECTIONS"@ =~= tag_request_active_connections());
        assert("Ping"@ =~= tag_ping());
        assert("Pong"@ =~= tag_pong());
        assert("Subscribe"@ =~= tag_subscribe());
        assert("Unsubscribe"@ =~= tag_unsubscribe());
        assert("ACTIVE_CONNECTIONS"@ =~= tag_active_connections());
        assert("NavigationUpdated"@ =~= tag_navigation_updated());
        assert("DataUpdate"@ =~= tag_data_update());
        assert("Debug"@ =~= tag_debug());
        assert("Error"@ =~= tag_error());
        assert("Custom"@ =~= tag_custom());
    }
    let members = match v {
        JsonValue::Obj(members) => members,
        _ => {
            return Err(DecodeError::BadShape);
        },
    };
    let tag = match obj_get(members, "type") {
        Some(JsonValue::Str(tag)) => tag.as_str(),
        _ => {
            return Err(DecodeError::BadShape);
        },
    };
    if str_eq(tag, "CONNECTION_INFO") {
        proof {
            reveal_strlit("connection_id");
            reveal_strlit("ip");
            reveal_strlit("connectedAt");
            reveal_strlit("user_agent");
            assert("connection_id"@ =~= key_connection_id());
            assert("ip"@ =~= key_ip());
            assert("connectedAt"@ =~= key_connected_at());
            assert("user_agent"@ =~= key_user_agent());
        }
        let connection_id = match obj_get(members, "connection_id") {
            Some(JsonValue::Str(idtext)) => match crate::protocol::parse_u128_dec(
                idtext.as_str(),
            ) {
                Some(id) => id,
                None => {
                    return Err(DecodeError::BadShape);
                },
            },
            _ => {
                return Err(DecodeError::BadShape);
            },
        };
        let ip = match obj_get(members, "ip") {
            Some(JsonValue::Str(ip)) => ip.clone(),
            _ => {
                return Err(DecodeError::BadShape);
            },
        };
        let connected_at = match obj_get(members, "connectedAt") {
            Some(JsonValue::Int(t)) => {
                if *t >= 0 {
                    *t as u64
                } else {
                    return Err(DecodeError::BadShape);
                }
            },
            _ => {
                return Err(DecodeError::BadShape);
            },
        };
        let user_agent = match dec_opt_str_exec(obj_get(members, "user_agent")) {
            Some(ua) => ua,
            None => {
                return Err(DecodeError::BadShape);
            },
        };
        return Ok(
            WsMessage::ConnectionInfo {
                payload: ConnectionDetails { connection_id, ip, connected_at, user_agent },
            },
        );
    }
    if str_eq(tag, "REQUEST_CONNECTION_INFO") {
        return Ok(WsMessage::RequestConnectionInfo);
    }
    if str_eq(tag, "REQUEST_ACTIVE_CONNECTIONS") {
        return Ok(WsMessage::RequestActiveConnections);
    }
    if str_eq(tag, "Ping") {
        return Ok(WsMessage::Ping);
    }
    if str_eq(tag, "Pong") {
        return Ok(WsMessage::Pong);
    }
    if str_eq(tag, "Subscribe") {
        let topics = match dec_topics_payload_exec(members) {
            Some(topics) => topics,
            None => {
                return Err(DecodeError::BadShape);
            },
        };
        return Ok(WsMessage::Subscribe { payload: SubscribePayload { topics } });
    }
    if str_eq(tag, "Unsubscribe") {
        let topics = match dec_topics_payload_exec(members) {
            Some(topics) => topics,
            None => {
                return Err(DecodeError::BadShape);
            },
        };
        return Ok(WsMessage::Unsubscribe { payload: UnsubscribePayload { topics } });
    }
    if str_eq(tag, "ACTIVE_CONNECTIONS") {
        proof {
            reveal_strlit("count");
            reveal_strlit("connections");
            assert("count"@ =~= key_count());
            assert("connections"@ =~= key_connections());
        }
        let pms = match obj_get(members, "payload") {
            Some(JsonValue::Obj(pms)) => pms,
            _ => {
                return Err(DecodeError::BadShape);
            },
        };
        let count = match obj_get(pms, "count") {
            Some(JsonValue::Int(n)) => {
                if *n >= 0 {
                    *n as u64
                } else {
                    return Err(DecodeError::BadShape);
                }
            },
            _ => {
                return Err(DecodeError::BadShape);
            },
        };
        let connections = match obj_get(pms, "connections") {
            Some(JsonValue::Arr(elems)) => match dec_summaries_exec(elems) {
                Some(cs) => cs,
                None => {
                    return Err(DecodeError::BadShape);
                },
            },
            _ => {
                return Err(DecodeError::BadShape);
            },
        };
        return Ok(
            WsMessage::ActiveConnections { payload: ConnectionStats { count, connections } },
        );
    }
    if str_eq(tag, "NavigationUpdated") {
        proof {
            reveal_strlit("schema");
            reveal_strlit("data");
            assert("schema"@ =~= key_schema());
            assert("data"@ =~= key_data());
        }
        let pms = match obj_get(members, "payload") {
            Some(JsonValue::Obj(pms)) => pms,
            _ => {
                return Err(DecodeError::BadShape);
            },
        };
        let schema = match obj_get(pms, "schema") {
            Some(JsonValue::Str(schema)) => schema.clone(),
            _ => {
                return Err(DecodeError::BadShape);
            },
        };
        let data = match obj_get(pms, "data") {
            Some(d) => json_clone(d),
            None => {
                return Err(DecodeError::BadShape);
            },
        };
        return Ok(
            WsMessage::NavigationUpdated { payload: NavigationPayload { schema, data } },
        );
    }
    if str_eq(tag, "DataUpdate") {
        proof {
            reveal_strlit("source");
            reveal_strlit("data");
            reveal_strlit("timestamp");
            assert("source"@ =~= key_source());
            assert("data"@ =~= key_data());
            assert("timestamp"@ =~= key_timestamp());
        }
        let pms = match obj_get(members, "payload") {
            Some(JsonValue::Obj(pms)) => pms,
            _ => {
                return Err(DecodeError::BadShape);
            },
        };
        let source = match obj_get(pms, "source") {
            Some(JsonValue::Str(source)) => source.clone(),
            _ => {
                return Err(DecodeError::BadShape);
            },
        };
        let data = match obj_get(pms, "data") {
            Some(d) => json_clone(d),
            None => {
                return Err(DecodeError::BadShape);
            },
        };
        let timestamp = match obj_get(pms, "timestamp") {
            Some(JsonValue::Int(t)) => {
                if *t >= 0 {
                    *t as u64
                } else {
                    return Err(DecodeError::BadShape);
                }
            },
            _ => {
                return Err(DecodeError::BadShape);
            },
        };
        return Ok(
            WsMessage::DataUpdate { payload: DataUpdatePayload { source, data, timestamp } },
        );
    }
    if str_eq(tag, "Debug") {
        proof {
            reveal_strlit("level");
            reveal_strlit("component");
            reveal_strlit("message");
            reveal_strlit("data");
            reveal_strlit("timestamp");
            assert("level"@ =~= key_level());
            assert("component"@ =~= key_component());
            assert("message"@ =~= key_message());
            assert("data"@ =~= key_data());
            assert("timestamp"@ =~= key_timestamp());
        }
        let pms = match obj_get(members, "payload") {
            Some(JsonValue::Obj(pms)) => pms,
            _ => {
                return Err(DecodeError::BadShape);
            },
        };
        let level = match obj_get(pms, "level") {
            Some(JsonValue::Str(level)) => level.clone(),
            _ => {
                return Err(DecodeError::BadShape);
            },
        };
        let component = match obj_get(pms, "component") {
            Some(JsonValue::Str(component)) => component.clone(),
            _ => {
                return Err(DecodeError::BadShape);
            },
        };
        let message = match obj_get(pms, "message") {
            Some(JsonValue::Str(message)) => message.clone(),
            _ => {
                return Err(DecodeError::BadShape);
            },
        };
        let data = match obj_get(pms, "data") {
            None => None,
            Some(JsonValue::Null) => None,
            Some(d) => Some(json_clone(d)),
        };
        let timestamp = match obj_get(pms, "timestamp") {
            Some(JsonValue::Int(t)) => {
                if *t >= 0 {
                    *t as u64
                } else {
                    return Err(DecodeError::BadShape);
                }
            },
            _ => {
                return Err(DecodeError::BadShape);
            },
        };
        return Ok(
            WsMessage::Debug {
                payload: DebugPayload { level, component, message, data, timestamp },
            },
        );
    }
    if str_eq(tag, "Error") {
        proof {
            reveal_strlit("message");
            reveal_strlit("code");
            reveal_strlit("details");
            assert("message"@ =~= key_message());
            assert("code"@ =~= key_code());
            assert("details"@ =~= key_details());
        }
        let pms = match obj_get(members, "payload") {
            Some(JsonValue::Obj(pms)) => pms,
            _ => {
                return Err(DecodeError::BadShape);
            },
        };
        let message = match obj_get(pms, "message") {
            Some(JsonValue::Str(message)) => message.clone(),
            _ => {
                return Err(DecodeError::BadShape);
            },
        };
        let code = match obj_get(pms, "code") {
            None => None,
            Some(JsonValue::Null) => None,
            Some(JsonValue::Int(n)) => {
                if 0 <= *n && *n <= 65535 {
                    Some(*n as u16)
                } else {
                    return Err(DecodeError::BadShape);
                }
            },
            Some(_) => {
                return Err(DecodeError::BadShape);
            },
        };
        let details = match dec_opt_str_exec(obj_get(pms, "details")) {
            Some(details) => details,
            None => {
                return Err(DecodeError::BadShape);
            },
        };
        return Ok(WsMessage::Error { payload: ErrorPayload { message, code, details } });
    }
    if str_eq(tag, "Custom") {
        let event = match obj_get(members, "event") {
            Some(JsonValue::Str(event)) => event.clone(),
            _ => {
                return Err(DecodeError::BadShape);
            },
        };
        let payload = match obj_get(members, "payload") {
            Some(p) => json_clone(p),
            None => {
                return Err(DecodeError::BadShape);
            },
        };
        return Ok(WsMessage::Custom { event, payload });
    }
    Err(DecodeError::UnknownTag)
}

/// Reads the `topics` array out of a subscribe payload, exactly as
/// [`spec_dec_topics_payload`].
fn dec_topics_payload_exec(members: &Vec<(String, JsonValue)>) -> (r: Option<Vec<String>>)
    ensures
        match r {
            Some(ts) => spec_dec_topics_payload(obj_model(members@)) == Some(ts.deep_view()),
            None => spec_dec_topics_payload(obj_model(members@)) is None,
        },
{
    proof {
        reveal_strlit("payload");
        reveal_strlit("topics");
        assert("payload"@ =~= key_payload());
        assert("topics"@ =~= key_topics());
    }
    let pms = match obj_get(members, "payload") {
        Some(JsonValue::Obj(pms)) => pms,
        _ => {
            return None;
        },
    };
    match obj_get(pms, "topics") {
        Some(JsonValue::Arr(elems)) => dec_topics_exec(elems),
        _ => None,
    }
}

// ---------------------------------------------------------------------------
// Round trip: decoding undoes encoding
// ---------------------------------------------------------------------------

/// Finds the member at `j` when no earlier member has the key.
proof fn lemma_obj_lookup_at(s: Seq<(Seq<char>, JsonModel)>, key: Seq<char>, j: int)
    requires
        0 <= j < s.len(),
        s[j].0 == key,
        forall|i: int| 0 <= i < j ==> (#[trigger] s[i]).0 != key,
    ensures
        obj_lookup(s, key) == Some(s[j].1),
    decreases j,
{
    if j > 0 {
        lemma_obj_lookup_at(s.drop_first(), key, j - 1);
        assert(s.drop_first()[j - 1] == s[j]);
        assert forall|i: int| 0 <= i < j - 1 implies (#[trigger] s.drop_first()[i]).0 != key by {
            assert(s.drop_first()[i] == s[i + 1]);
        }
    }
}

/// Topic names survive the trip onto the wire and back.
proof fn lemma_topics_round_trip(ts: Seq<Seq<char>>)
    ensures
        dec_topic_elems(topics_json(ts)) == Some(ts),
    decreases ts.len(),
{
    if ts.len() == 0 {
        assert(topics_json(ts).len() == 0);
        assert(Some(Seq::<Seq<char>>::empty()) == Some(ts)) by {
            assert(Seq::<Seq<char>>::empty() =~= ts);
        }
    } else {
        lemma_topics_round_trip(ts.drop_first());
        assert(topics_json(ts).drop_first() =~= topics_json(ts.drop_first()));
        assert(topics_json(ts)[0] == JsonModel::Str(ts[0]));
        assert(seq![ts[0]] + ts.drop_first() =~= ts);
    }
}

/// One connection summary survives the trip onto the wire and back.
proof fn lemma_summary_round_trip(c: ConnectionSummaryModel)
    requires
        c.message_count <= i64::MAX,
        c.bytes_sent <= i64::MAX,
        c.bytes_received <= i64::MAX,
    ensures
        dec_summary(summary_json(c)) == Some(c),
{
    let ms = summary_json(c)->Obj_0;
    assert(key_id()[1] != key_ip()[1]);
    lemma_obj_lookup_at(ms, key_id(), 0);
    lemma_obj_lookup_at(ms, key_ip(), 1);
    lemma_obj_lookup_at(ms, key_connected_duration(), 2);
    lemma_obj_lookup_at(ms, key_message_count(), 3);
    lemma_obj_lookup_at(ms, key_bytes_sent(), 4);
    lemma_obj_lookup_at(ms, key_bytes_received(), 5);
    lemma_dec_digits_value(c.id as nat);
}

/// Connection summaries survive the trip onto the wire and back.
proof fn lemma_summaries_round_trip(cs: Seq<ConnectionSummaryModel>)
    requires
        forall|i: int|
            0 <= i < cs.len() ==> (#[trigger] cs[i]).message_count <= i64::MAX
                && cs[i].bytes_sent <= i64::MAX && cs[i].bytes_received <= i64::MAX,
    ensures
        dec_summary_elems(summaries_json(cs)) == Some(cs),
    decreases cs.len(),
{
    if cs.len() == 0 {
        assert(summaries_json(cs).len() == 0);
        assert(Seq::<ConnectionSummaryModel>::empty() =~= cs);
    } else {
        assert(forall|i: int|
            0 <= i < cs.drop_first().len() ==> (#[trigger] cs.drop_first()[i]).message_count
                <= i64::MAX && cs.drop_first()[i].bytes_sent <= i64::MAX
                && cs.drop_first()[i].bytes_received <= i64::MAX) by {
            assert(forall|i: int|
                0 <= i < cs.drop_first().len() ==> #[trigger] cs.drop_first()[i] == cs[i + 1]);
        }
        lemma_summaries_round_trip(cs.drop_first());
        assert(summaries_json(cs).drop_first() =~= summaries_json(cs.drop_first()));
        assert(summaries_json(cs)[0] == summary_json(cs[0]));
        lemma_summary_round_trip(cs[0]);
        assert(seq![cs[0]] + cs.drop_first() =~= cs);
    }
}

/// Whether an envelope's encoding carries all of it: every number fits the
/// wire integer, and a debug entry does not carry an explicit null document,
/// which the wire cannot tell from no document at all.
pub open spec fn spec_round_trippable(m: WsMessageModel) -> bool {
    &&& spec_encodable(m)
    &&& match m {
        WsMessageModel::Debug { payload } => payload.data != Some(JsonModel::Null),
        _ => true,
    }
}

/// Encoding is lossless: decoding the encoding of any envelope whose numbers
/// fit the wire gives the envelope back.
pub proof fn lemma_envelope_round_trip(m: WsMessageModel)
    requires
        spec_round_trippable(m),
    ensures
        spec_decode(spec_encode(m)) == Ok::<WsMessageModel, DecodeError>(m),
{
    let ms = spec_encode(m)->Obj_0;
    assert(tag_pong()[1] != tag_ping()[1]);
    assert(tag_error()[0] != tag_debug()[0]);
    match m {
        WsMessageModel::ConnectionInfo { payload } => {
            lemma_obj_lookup_at(ms, key_type(), 0);
            lemma_obj_lookup_at(ms, key_connection_id(), 1);
            lemma_obj_lookup_at(ms, key_ip(), 2);
            lemma_obj_lookup_at(ms, key_connected_at(), 3);
            lemma_obj_lookup_at(ms, key_user_agent(), 4);
            lemma_dec_digits_value(payload.connection_id as nat);
        },
        WsMessageModel::RequestConnectionInfo => {
            lemma_obj_lookup_at(ms, key_type(), 0);
        },
        WsMessageModel::RequestActiveConnections => {
            lemma_obj_lookup_at(ms, key_type(), 0);
        },
        WsMessageModel::Ping => {
            lemma_obj_lookup_at(ms, key_type(), 0);
        },
        WsMessageModel::Pong => {
            lemma_obj_lookup_at(ms, key_type(), 0);
        },
        WsMessageModel::Subscribe { topics } => {
            lemma_obj_lookup_at(ms, key_type(), 0);
            lemma_obj_lookup_at(ms, key_payload(), 1);
            let pms = ms[1].1->Obj_0;
            lemma_obj_lookup_at(pms, key_topics(), 0);
            lemma_topics_round_trip(topics);
        },
        WsMessageModel::Unsubscribe { topics } => {
            lemma_obj_lookup_at(ms, key_type(), 0);
            lemma_obj_lookup_at(ms, key_payload(), 1);
            let pms = ms[1].1->Obj_0;
            lemma_obj_lookup_at(pms, key_topics(), 0);
            lemma_topics_round_trip(topics);
        },
        WsMessageModel::ActiveConnections { payload } => {
            lemma_obj_lookup_at(ms, key_type(), 0);
            lemma_obj_lookup_at(ms, key_payload(), 1);
            let pms = ms[1].1->Obj_0;
            lemma_obj_lookup_at(pms, key_count(), 0);
            lemma_obj_lookup_at(pms, key_connections(), 1);
            lemma_summaries_round_trip(payload.connections);
        },
        WsMessageModel::NavigationUpdated { payload } => {
            lemma_obj_lookup_at(ms, key_type(), 0);
            lemma_obj_lookup_at(ms, key_payload(), 1);
            let pms = ms[1].1->Obj_0;
            lemma_obj_lookup_at(pms, key_schema(), 0);
            lemma_obj_lookup_at(pms, key_data(), 1);
        },
        WsMessageModel::DataUpdate { payload } => {
            lemma_obj_lookup_at(ms, key_type(), 0);
            lemma_obj_lookup_at(ms, key_payload(), 1);
            let pms = ms[1].1->Obj_0;
            lemma_obj_lookup_at(pms, key_source(), 0);
            lemma_obj_lookup_at(pms, key_data(), 1);
            lemma_obj_lookup_at(pms, key_timestamp(), 2);
        },
        WsMessageModel::Debug { payload } => {
            lemma_obj_lookup_at(ms, key_type(), 0);
            lemma_obj_lookup_at(ms, key_payload(), 1);
            let pms = ms[1].1->Obj_0;
            assert(key_component()[0] != key_timestamp()[0]);
            lemma_obj_lookup_at(pms, key_level(), 0);
            lemma_obj_lookup_at(pms, key_component(), 1);
            lemma_obj_lookup_at(pms, key_message(), 2);
            lemma_obj_lookup_at(pms, key_data(), 3);
            lemma_obj_lookup_at(pms, key_timestamp(), 4);
        },
        WsMessageModel::Error { payload } => {
            lemma_obj_lookup_at(ms, key_type(), 0);
            lemma_obj_lookup_at(ms, key_payload(), 1);
            let pms = ms[1].1->Obj_0;
            assert(key_message()[0] != key_details()[0]);
            lemma_obj_lookup_at(pms, key_message(), 0);
            lemma_obj_lookup_at(pms, key_code(), 1);
            lemma_obj_lookup_at(pms, key_details(), 2);
        },
        WsMessageModel::Custom { event, payload } => {
            lemma_obj_lookup_at(ms, key_type(), 0);
            lemma_obj_lookup_at(ms, key_event(), 1);
            lemma_obj_lookup_at(ms, key_payload(), 2);
        },
    }
}

} // verus!
