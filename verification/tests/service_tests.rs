use wshub::hub::{cap_add, ema_update, sat_sub, ConnectionInfo, COUNTER_CAP};
use wshub::json::JsonValue;
use wshub::models::{ApiError, JobEvent, StartBackupPayload};
use wshub::runner::{Execution, ExecutionStatus, PythonRunnerService, RunnerError};
use wshub::validate::{
    has_dotdot, is_blank, is_yaml_name, resolve_yaml_file, schema_name_of_stem,
    validate_backup_payload, validate_broadcast_message, validate_script_path,
};

#[test]
fn saturating_arithmetic() {
    assert_eq!(cap_add(1, 2), 3);
    assert_eq!(cap_add(COUNTER_CAP, 1), COUNTER_CAP);
    assert_eq!(cap_add(u64::MAX, 1), COUNTER_CAP);
    assert_eq!(sat_sub(5, 3), 2);
    assert_eq!(sat_sub(3, 5), 0);
}

#[test]
fn latency_average_moves_an_eighth() {
    assert_eq!(ema_update(0, 80), 80); // first sample taken whole
    assert_eq!(ema_update(80, 160), 90); // 80 + 80/8
    assert_eq!(ema_update(80, 0), 70); // 80 - 80/8
    assert_eq!(ema_update(100, 100), 100);
}

#[test]
fn connection_records_track_activity() {
    let mut c = ConnectionInfo::new_at(5, Some("1.1.1.1".to_string()), 100);
    assert_eq!(c.connected_at, 100);
    assert_eq!(c.last_activity, 100);
    c.record_received(10, 150);
    c.record_sent(20, 200);
    assert_eq!(c.messages_received, 1);
    assert_eq!(c.bytes_received, 10);
    assert_eq!(c.messages_sent, 1);
    assert_eq!(c.bytes_sent, 20);
    assert_eq!(c.last_activity, 200);
    // Stale only strictly past the timeout.
    assert!(!c.is_stale(100, 300));
    assert!(c.is_stale(100, 301));
    let summary = c.to_summary(3200);
    assert_eq!(summary.id, 5);
    assert_eq!(summary.ip, "1.1.1.1");
    assert_eq!(summary.connected_duration, 3); // (3200 - 100) / 1000
    assert_eq!(summary.message_count, 2);
    let anon = ConnectionInfo::new_at(6, None, 0).to_summary(0);
    assert_eq!(anon.ip, "Unknown");
    let fresh = ConnectionInfo::new_with_addr(None);
    assert_eq!(fresh.messages_sent, 0);
    assert_eq!(fresh.last_activity, fresh.connected_at);
}

#[test]
fn broadcast_message_bounds() {
    assert!(validate_broadcast_message("hello").is_ok());
    assert!(validate_broadcast_message(&"x".repeat(1024)).is_ok());
    match validate_broadcast_message("") {
        Err(ApiError::WebSocketError(m)) => assert_eq!(m, "Message cannot be empty"),
        _ => panic!("empty message must be refused"),
    }
    match validate_broadcast_message(&"x".repeat(1025)) {
        Err(ApiError::WebSocketError(m)) => assert_eq!(m, "Message too long (max 1024 characters)"),
        _ => panic!("oversized message must be refused"),
    }
}

#[test]
fn backup_payload_requires_substance() {
    let good = StartBackupPayload {
        device_id: "r1".to_string(),
        hostname: None,
        inventory_file: None,
        username: "admin".to_string(),
        password: "pw".to_string(),
    };
    assert!(validate_backup_payload(&good).is_ok());
    let blank_user = StartBackupPayload { username: "   ".to_string(), ..good };
    match validate_backup_payload(&blank_user) {
        Err(ApiError::WebSocketError(m)) => assert_eq!(m, "Username cannot be empty"),
        _ => panic!("blank username must be refused"),
    }
    assert!(is_blank(" \t\r\n"));
    assert!(!is_blank(" a "));
    assert!(is_blank(""));
}

#[test]
fn script_paths_must_stay_inside() {
    assert!(validate_script_path("tools/backup.py").is_ok());
    match validate_script_path("") {
        Err(ApiError::BadRequest(m)) => assert_eq!(m, "Script path cannot be empty"),
        _ => panic!("empty path must be refused"),
    }
    match validate_script_path("../../etc/passwd") {
        Err(ApiError::BadRequest(m)) => assert_eq!(m, "Path traversal not allowed"),
        _ => panic!("traversal must be refused"),
    }
    assert!(has_dotdot("a..b"));
    assert!(!has_dotdot("a.b.c"));
    assert!(!has_dotdot("."));
}

#[test]
fn yaml_names_resolve() {
    assert_eq!(schema_name_of_stem("navigation.schema"), "navigation");
    assert_eq!(schema_name_of_stem("navigation"), "navigation");
    assert_eq!(schema_name_of_stem("short"), "short");
    assert_eq!(resolve_yaml_file("inventory", None), "inventory.yaml");
    assert_eq!(resolve_yaml_file("inventory", Some("custom/path.yaml")), "custom/path.yaml");
    assert!(is_yaml_name("a.yaml"));
    assert!(is_yaml_name("b.yml"));
    assert!(!is_yaml_name("c.json"));
    assert!(!is_yaml_name("yaml"));
}

#[test]
fn job_events_carry_their_fields() {
    let e = JobEvent::new("42", "r1", "backup", "started", "in_progress", JsonValue::Null, 7);
    assert_eq!(e.job_id, "42");
    assert_eq!(e.timestamp, 7);
    assert!(e.error.is_none());
    let f = JobEvent::with_error("42", "r1", "backup", "boom", JsonValue::Null, 8);
    assert_eq!(f.event_type, "failed");
    assert_eq!(f.status, "failed");
    assert_eq!(f.error.as_deref(), Some("boom"));
}

#[test]
fn api_errors_map_to_status_codes() {
    assert_eq!(ApiError::YamlParseError("x".to_string()).status_code(), 400);
    assert_eq!(ApiError::FileNotFound("x".to_string()).status_code(), 404);
    assert_eq!(ApiError::NotFound("x".to_string()).status_code(), 404);
    assert_eq!(ApiError::BadRequest("x".to_string()).status_code(), 400);
    assert_eq!(ApiError::IoError("x".to_string()).status_code(), 500);
    assert_eq!(ApiError::SerializationError("x".to_string()).status_code(), 500);
    assert_eq!(ApiError::DeserializationError("x".to_string()).status_code(), 400);
    assert_eq!(ApiError::WebSocketError("x".to_string()).status_code(), 500);
    assert_eq!(ApiError::ValidationError("x".to_string()).status_code(), 400);
    assert_eq!(ApiError::InternalError("x".to_string()).status_code(), 500);
    assert_eq!(ApiError::ExecutionError("x".to_string()).status_code(), 500);
    assert_eq!(ApiError::JobExecutionError("x".to_string()).status_code(), 500);
    assert_eq!(ApiError::NotFound("gone".to_string()).detail().as_str(), "gone");
}

#[test]
fn execution_ledger_lifecycle() {
    let mut svc = PythonRunnerService::new();
    let id = svc.execute_script("tools/backup.py", 100).expect("fresh token must start a run");
    assert_eq!(svc.get_execution_status(&id), Ok(ExecutionStatus::Pending));
    svc.simulate_script_execution(&id, "tools/backup.py", 150);
    assert_eq!(svc.get_execution_status(&id), Ok(ExecutionStatus::Completed));
    let rec = svc.get_execution(&id).unwrap();
    assert_eq!(rec.output.as_deref(), Some("Simulated output for tools/backup.py"));
    assert_eq!(rec.exit_code, Some(0));
    assert_eq!(rec.end_time, Some(150));
    assert_eq!(svc.get_execution_status("no-such-id"), Err(RunnerError::NotFound));
    assert_eq!(svc.cancel_execution("no-such-id", 160), Err(RunnerError::NotFound));
    // Completed runs cannot be cancelled.
    assert_eq!(svc.cancel_execution(&id, 160), Err(RunnerError::NotRunning));
}

#[test]
fn execution_listing_filters_and_orders() {
    let mut svc = PythonRunnerService::new();
    svc.start_execution("a".to_string(), "one.py", 10);
    svc.start_execution("b".to_string(), "two.py", 30);
    svc.start_execution("c".to_string(), "three.py", 20);
    svc.simulate_script_execution("b", "two.py", 40);
    let all = svc.list_executions(None, None);
    assert_eq!(all.len(), 3);
    assert_eq!(all[0].id, "b"); // newest start first
    assert_eq!(all[1].id, "c");
    assert_eq!(all[2].id, "a");
    let pending = svc.list_executions(Some(ExecutionStatus::Pending), None);
    assert_eq!(pending.len(), 2);
    let limited = svc.list_executions(None, Some(1));
    assert_eq!(limited.len(), 1);
    assert_eq!(limited[0].id, "a"); // the cut keeps arrival order, then sorts
}

#[test]
fn execution_cleanup_drops_old_runs() {
    let mut svc = PythonRunnerService::new();
    let hour_ms: u64 = 3600000;
    svc.start_execution("old".to_string(), "x.py", 0);
    svc.start_execution("new".to_string(), "y.py", 30 * hour_ms);
    svc.cleanup_old_executions(24, 30 * hour_ms); // cutoff at 6 hours
    assert_eq!(svc.get_execution_status("old"), Err(RunnerError::NotFound));
    assert_eq!(svc.get_execution_status("new"), Ok(ExecutionStatus::Pending));
}

#[test]
fn running_executions_can_be_cancelled() {
    let running = Execution {
        id: "r".to_string(),
        script_path: "x.py".to_string(),
        status: ExecutionStatus::Running,
        output: None,
        error: None,
        exit_code: None,
        start_time: Some(5),
        end_time: None,
    };
    let mut svc = PythonRunnerService { executions: vec![running] };
    assert_eq!(svc.cancel_execution("r", 9), Ok(()));
    let rec = svc.get_execution("r").unwrap();
    assert_eq!(rec.status, ExecutionStatus::Cancelled);
    assert_eq!(rec.end_time, Some(9));
    assert_eq!(rec.error.as_deref(), Some("Execution cancelled by user"));
}
