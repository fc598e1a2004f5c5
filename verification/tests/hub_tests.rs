use wshub::hub::{HubError, WebSocketService, WsConfig};
use wshub::json::JsonValue;
use wshub::models::JobEvent;
use wshub::protocol::WsMessage;

fn small_config(max_connections: usize, queue_capacity: usize) -> WsConfig {
    let mut c: WsConfig = Default::default();
    c.max_connections = max_connections;
    c.queue_capacity = queue_capacity;
    c
}

fn ping_frame() -> JsonValue {
    JsonValue::Obj(vec![("type".to_string(), JsonValue::Str("Ping".to_string()))])
}

fn subscribe_frame(topics: &[&str]) -> JsonValue {
    let list: Vec<JsonValue> = topics.iter().map(|t| JsonValue::Str(t.to_string())).collect();
    JsonValue::Obj(vec![
        ("type".to_string(), JsonValue::Str("Subscribe".to_string())),
        (
            "payload".to_string(),
            JsonValue::Obj(vec![("topics".to_string(), JsonValue::Arr(list))]),
        ),
    ])
}

fn subscribe(hub: &mut WebSocketService, id: u128, topics: &[&str], now: u64) {
    let frame = subscribe_frame(topics);
    hub.handle_incoming_message(id, 10, Some(&frame), now).expect("subscribe must succeed");
}

fn parsed_type(text: &str) -> String {
    let v: serde_json::Value = serde_json::from_str(text).expect("queued text must be JSON");
    v["type"].as_str().expect("type must be a string").to_string()
}

fn drain(hub: &mut WebSocketService, id: u128, now: u64) -> Vec<String> {
    let mut out = Vec::new();
    while let Some(t) = hub.pop_outbound(id, now) {
        out.push(t);
    }
    out
}

/// Live count always equals the number of records, over any register/remove
/// mix, including double removes.
#[test]
fn live_count_tracks_records() {
    let mut hub = WebSocketService::new(Some(small_config(10, 4)), 0);
    assert_eq!(hub.connection_count(), 0);
    hub.register(1, None, 10).unwrap();
    hub.register(2, None, 11).unwrap();
    hub.register(3, None, 12).unwrap();
    assert_eq!(hub.connection_count(), 3);
    hub.cleanup_connection(2, 13);
    assert_eq!(hub.connection_count(), 2);
    hub.cleanup_connection(2, 14); // removal is idempotent
    assert_eq!(hub.connection_count(), 2);
    hub.cleanup_connection(999, 15); // unknown ids are no-ops
    assert_eq!(hub.connection_count(), 2);
    assert!(hub.contains(1));
    assert!(!hub.contains(2));
    assert!(hub.contains(3));
}

/// Registering beyond the maximum always fails with CapacityExceeded and
/// leaves the live count alone.
#[test]
fn capacity_gate_refuses_and_counts_nothing() {
    let mut hub = WebSocketService::new(Some(small_config(2, 4)), 0);
    hub.register(1, None, 1).unwrap();
    hub.register(2, None, 2).unwrap();
    assert_eq!(hub.register(3, None, 3), Err(HubError::CapacityExceeded));
    assert_eq!(hub.connection_count(), 2);
    assert_eq!(hub.admit_connection(4, None, 4), Err(HubError::CapacityExceeded));
    assert_eq!(hub.connection_count(), 2);
    assert_eq!(hub.handle_connection(None), Err(HubError::CapacityExceeded));
    assert_eq!(hub.connection_count(), 2);
}

/// A subscriber of T hears broadcasts to T and to `all`; a non-subscriber
/// hears neither a T broadcast nor anything else.
#[test]
fn broadcast_reaches_subscribers_only() {
    let mut hub = WebSocketService::new(Some(small_config(10, 8)), 0);
    hub.register(1, None, 1).unwrap();
    hub.register(2, None, 1).unwrap();
    subscribe(&mut hub, 1, &["job-events"], 2);
    let msg = WsMessage::Custom { event: "e".to_string(), payload: JsonValue::Null };
    hub.broadcast_to_topic_str("job-events", &msg);
    assert_eq!(drain(&mut hub, 1, 3).len(), 1);
    assert_eq!(drain(&mut hub, 2, 3).len(), 0);
    hub.broadcast_to_all(&msg);
    assert_eq!(drain(&mut hub, 1, 4).len(), 1);
    assert_eq!(drain(&mut hub, 2, 4).len(), 1);
    hub.broadcast_to_topic_str("all", &msg);
    assert_eq!(drain(&mut hub, 1, 5).len(), 1);
    assert_eq!(drain(&mut hub, 2, 5).len(), 1);
}

/// An inbound ping gets exactly one pong, to the pinging connection alone.
#[test]
fn inbound_ping_answered_with_one_pong() {
    let mut hub = WebSocketService::new(Some(small_config(10, 8)), 0);
    hub.register(1, None, 1).unwrap();
    hub.register(2, None, 1).unwrap();
    let frame = ping_frame();
    hub.handle_incoming_message(1, 5, Some(&frame), 2).unwrap();
    let got = drain(&mut hub, 1, 3);
    assert_eq!(got.len(), 1);
    assert_eq!(parsed_type(&got[0]), "Pong");
    assert_eq!(drain(&mut hub, 2, 3).len(), 0);
}

/// A connection silent for longer than the timeout is evicted by the next
/// sweep, and a stats broadcast follows in the same tick.
#[test]
fn sweep_evicts_stale_and_announces() {
    let mut c = small_config(10, 8);
    c.connection_timeout_ms = 100;
    let mut hub = WebSocketService::new(Some(c), 0);
    hub.register(1, None, 0).unwrap();
    hub.register(2, None, 0).unwrap();
    // Keep 2 alive; let 1 go silent past the timeout.
    hub.note_received(2, 3, 150);
    hub.health_check(151);
    assert!(!hub.contains(1));
    assert!(hub.contains(2));
    assert_eq!(hub.connection_count(), 1);
    let got = drain(&mut hub, 2, 200);
    assert_eq!(got.len(), 2);
    assert_eq!(parsed_type(&got[0]), "Ping");
    assert_eq!(parsed_type(&got[1]), "ACTIVE_CONNECTIONS");
}

/// A sweep inside the timeout evicts nobody and pings everybody.
#[test]
fn sweep_pings_fresh_connections() {
    let mut hub = WebSocketService::new(Some(small_config(10, 8)), 0);
    hub.register(1, None, 0).unwrap();
    hub.health_check(10);
    assert!(hub.contains(1));
    let got = drain(&mut hub, 1, 20);
    assert_eq!(got.len(), 1);
    assert_eq!(parsed_type(&got[0]), "Ping");
}

/// The welcome scenario: a fresh connection gets its ConnectionInfo with its
/// own id, subscribes to `debug`, and a debug-mode log entry reaches it as a
/// Debug envelope with the right component.
#[test]
fn welcome_then_debug_trace_scenario() {
    let mut hub = WebSocketService::new(Some(small_config(10, 8)), 0);
    hub.admit_connection(77, Some("1.2.3.4".to_string()), 5).unwrap();
    let got = drain(&mut hub, 77, 6);
    assert_eq!(got.len(), 2);
    assert_eq!(parsed_type(&got[0]), "CONNECTION_INFO");
    let welcome: serde_json::Value = serde_json::from_str(&got[0]).unwrap();
    assert_eq!(welcome["connection_id"].as_str(), Some("77"));
    assert_eq!(welcome["ip"].as_str(), Some("1.2.3.4"));
    assert_eq!(parsed_type(&got[1]), "ACTIVE_CONNECTIONS");

    subscribe(&mut hub, 77, &["debug"], 7);
    assert!(hub.toggle_debug(8));
    let _ = drain(&mut hub, 77, 9); // the toggle is itself traced
    hub.log_debug("info", "X", "msg", None, 10);
    let got = drain(&mut hub, 77, 11);
    assert_eq!(got.len(), 1);
    let entry: serde_json::Value = serde_json::from_str(&got[0]).unwrap();
    assert_eq!(entry["type"].as_str(), Some("Debug"));
    assert_eq!(entry["payload"]["component"].as_str(), Some("X"));
    assert_eq!(entry["payload"]["message"].as_str(), Some("msg"));
    assert_eq!(hub.get_debug_logs().len(), 2);
}

/// The job-event scenario: a subscriber of `job-events` receives exactly one
/// envelope naming the job, and an unsubscribed connection receives none.
#[test]
fn job_event_reaches_its_subscriber_only() {
    let mut hub = WebSocketService::new(Some(small_config(10, 8)), 0);
    hub.register(1, None, 1).unwrap(); // A
    hub.register(2, None, 1).unwrap(); // B
    subscribe(&mut hub, 1, &["job-events"], 2);
    let event = JobEvent::new("42", "router-1", "backup", "started", "in_progress", JsonValue::Null, 50);
    hub.publish_job_event(&event).unwrap();
    let got_a = drain(&mut hub, 1, 60);
    assert_eq!(got_a.len(), 1);
    let v: serde_json::Value = serde_json::from_str(&got_a[0]).unwrap();
    assert_eq!(v["type"].as_str(), Some("Custom"));
    assert_eq!(v["event"].as_str(), Some("job_event"));
    assert_eq!(v["payload"]["job_id"].as_str(), Some("42"));
    assert_eq!(v["payload"]["device"].as_str(), Some("router-1"));
    assert_eq!(drain(&mut hub, 2, 60).len(), 0);
}

/// The full-queue scenario: with capacity one and a connection that never
/// drains, a second direct send reports QueueFull while a broadcast still
/// reaches a healthy connection.
#[test]
fn full_queue_isolates_the_slow_connection() {
    let mut hub = WebSocketService::new(Some(small_config(10, 1)), 0);
    hub.register(1, None, 1).unwrap(); // slow
    hub.register(2, None, 1).unwrap(); // healthy
    assert_eq!(hub.send_to_connection(1, &WsMessage::Ping), Ok(()));
    assert_eq!(hub.send_to_connection(1, &WsMessage::Ping), Err(HubError::QueueFull));
    assert_eq!(hub.send_to_connection(999, &WsMessage::Ping), Err(HubError::ConnectionNotFound));
    let msg = WsMessage::Custom { event: "e".to_string(), payload: JsonValue::Null };
    hub.broadcast_to_all(&msg);
    let got_healthy = drain(&mut hub, 2, 2);
    assert_eq!(got_healthy.len(), 1);
    assert_eq!(parsed_type(&got_healthy[0]), "Custom");
    // The slow connection still holds only its first message.
    let got_slow = drain(&mut hub, 1, 2);
    assert_eq!(got_slow.len(), 1);
    assert_eq!(parsed_type(&got_slow[0]), "Ping");
}

/// Counters move at the dequeue and inbound choke points, and a pong folds
/// its latency into the average.
#[test]
fn metrics_and_latency_flow() {
    let mut hub = WebSocketService::new(Some(small_config(10, 8)), 1000);
    hub.register(1, None, 1000).unwrap();
    hub.note_received(1, 10, 1001);
    let m = hub.get_metrics();
    assert_eq!(m.service.total_messages_received, 1);
    assert_eq!(m.service.total_bytes_received, 10);
    assert_eq!(m.service.total_connections, 1);
    assert_eq!(m.service.peak_connections, 1);
    assert_eq!(m.active_connections, 1);
    assert_eq!(m.service.started_at, 1000);

    hub.health_check(1002); // sends a ping, stamps ping_sent_at
    let sent = drain(&mut hub, 1, 1003);
    assert_eq!(sent.len(), 1);
    let m = hub.get_service_stats();
    assert_eq!(m.service.total_messages_sent, 1);
    assert_eq!(m.service.total_bytes_sent, sent[0].len() as u64);

    // Pong at 1082: latency 80ms, first sample taken whole.
    let pong = JsonValue::Obj(vec![("type".to_string(), JsonValue::Str("Pong".to_string()))]);
    hub.handle_incoming_message(1, 5, Some(&pong), 1082).unwrap();
    assert_eq!(hub.get_metrics().service.avg_ping_latency_ms, 80);
}

/// Oversized, unparsable, unknown and ignorable frames each do exactly what
/// the taxonomy says.
#[test]
fn inbound_frame_errors() {
    let mut c = small_config(10, 8);
    c.max_message_size = 16;
    let mut hub = WebSocketService::new(Some(c), 0);
    hub.register(1, None, 1).unwrap();
    let frame = ping_frame();
    assert_eq!(
        hub.handle_incoming_message(1, 17, Some(&frame), 2),
        Err(HubError::MessageTooLarge)
    );
    assert_eq!(hub.handle_incoming_message(1, 5, None, 2), Err(HubError::DeserializationError));
    let bad = JsonValue::Obj(vec![("type".to_string(), JsonValue::Str("Subscribe".to_string()))]);
    assert_eq!(
        hub.handle_incoming_message(1, 5, Some(&bad), 2),
        Err(HubError::DeserializationError)
    );
    // Unknown tags are answered with an Error envelope, not an error result.
    let unknown = JsonValue::Obj(vec![(
        "type".to_string(),
        JsonValue::Str("NO_SUCH_TAG".to_string()),
    )]);
    assert_eq!(hub.handle_incoming_message(1, 5, Some(&unknown), 2), Ok(()));
    let got = drain(&mut hub, 1, 3);
    assert_eq!(got.len(), 1);
    assert_eq!(parsed_type(&got[0]), "Error");
}

/// Unsubscribing stops delivery; subscribing twice keeps one entry.
#[test]
fn unsubscribe_stops_delivery() {
    let mut hub = WebSocketService::new(Some(small_config(10, 8)), 0);
    hub.register(1, None, 1).unwrap();
    subscribe(&mut hub, 1, &["navigation", "navigation"], 2);
    let msg = WsMessage::Custom { event: "e".to_string(), payload: JsonValue::Null };
    hub.broadcast_to_topic_str("navigation", &msg);
    assert_eq!(drain(&mut hub, 1, 3).len(), 1);
    let frame = JsonValue::Obj(vec![
        ("type".to_string(), JsonValue::Str("Unsubscribe".to_string())),
        (
            "payload".to_string(),
            JsonValue::Obj(vec![(
                "topics".to_string(),
                JsonValue::Arr(vec![JsonValue::Str("navigation".to_string())]),
            )]),
        ),
    ]);
    hub.handle_incoming_message(1, 10, Some(&frame), 4).unwrap();
    hub.broadcast_to_topic_str("navigation", &msg);
    assert_eq!(drain(&mut hub, 1, 5).len(), 0);
}

/// The snapshot request returns the requester's own view of the registry.
#[test]
fn snapshot_requests_answer_the_requester() {
    let mut hub = WebSocketService::new(Some(small_config(10, 8)), 0);
    hub.register(1, Some("9.9.9.9".to_string()), 1).unwrap();
    hub.register(2, None, 1).unwrap();
    let frame = JsonValue::Obj(vec![(
        "type".to_string(),
        JsonValue::Str("REQUEST_ACTIVE_CONNECTIONS".to_string()),
    )]);
    hub.handle_incoming_message(1, 5, Some(&frame), 2).unwrap();
    let got = drain(&mut hub, 1, 3);
    assert_eq!(got.len(), 1);
    let v: serde_json::Value = serde_json::from_str(&got[0]).unwrap();
    assert_eq!(v["payload"]["count"].as_i64(), Some(2));
    assert_eq!(drain(&mut hub, 2, 3).len(), 0);

    let frame = JsonValue::Obj(vec![(
        "type".to_string(),
        JsonValue::Str("REQUEST_CONNECTION_INFO".to_string()),
    )]);
    hub.handle_incoming_message(1, 5, Some(&frame), 4).unwrap();
    let got = drain(&mut hub, 1, 5);
    assert_eq!(got.len(), 1);
    let v: serde_json::Value = serde_json::from_str(&got[0]).unwrap();
    assert_eq!(v["ip"].as_str(), Some("9.9.9.9"));
}

/// Clearing the trace leaves only the entry that records the wipe, and
/// toggling debug off stops recording entirely.
#[test]
fn debug_trace_ring_and_toggle() {
    let mut c = small_config(10, 8);
    c.debug.enabled = true;
    c.debug.max_log_size = 2;
    let mut hub = WebSocketService::new(Some(c), 0);
    hub.log_debug("info", "A", "one", None, 1);
    hub.log_debug("info", "B", "two", None, 2);
    hub.log_debug("info", "C", "three", None, 3);
    let logs = hub.get_debug_logs();
    assert_eq!(logs.len(), 2); // the oldest was dropped
    assert_eq!(logs[0].component, "B");
    assert_eq!(logs[1].component, "C");
    hub.clear_debug_logs(4);
    let logs = hub.get_debug_logs();
    assert_eq!(logs.len(), 1);
    assert_eq!(logs[0].message, "Debug logs cleared");
    assert!(!hub.toggle_debug(5)); // switches off
    hub.log_debug("info", "D", "silent", None, 6);
    assert_eq!(hub.get_debug_logs().len(), 1);
}

/// The snapshot lists every live record with its counters.
#[test]
fn snapshot_lists_every_record() {
    let mut hub = WebSocketService::new(Some(small_config(10, 8)), 0);
    hub.register(1, Some("1.1.1.1".to_string()), 1000).unwrap();
    hub.register(2, None, 2000).unwrap();
    hub.note_received(1, 10, 3000);
    let snap = hub.snapshot(5000);
    assert_eq!(snap.len(), 2);
    assert_eq!(snap[0].id, 1);
    assert_eq!(snap[0].ip, "1.1.1.1");
    assert_eq!(snap[0].connected_duration, 4); // (5000 - 1000) / 1000
    assert_eq!(snap[0].message_count, 1);
    assert_eq!(snap[0].bytes_received, 10);
    assert_eq!(snap[1].id, 2);
    assert_eq!(snap[1].ip, "Unknown");
    assert_eq!(snap[1].connected_duration, 3);
}

/// Fresh random registrations get distinct ids and count up.
#[test]
fn random_registration_works() {
    let mut hub = WebSocketService::new(None, 0);
    let a = hub.register_new(None, 1).unwrap();
    let b = hub.register_new(None, 2).unwrap();
    assert_ne!(a, b);
    assert_eq!(hub.connection_count(), 2);
    let c = hub.handle_connection(Some("8.8.8.8".to_string())).unwrap();
    assert!(hub.contains(c));
    assert_eq!(hub.connection_count(), 3);
}
