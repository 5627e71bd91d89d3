//! Telemetry: the opt-out gate, batching and sending.

use sned::services::telemetry::{
    is_telemetry_enabled, send_outcome, TelemetryError, TelemetryEventKind, TelemetryService,
};

#[test]
fn test_disable_telemetry_when_setting_is_disabled() {
    assert!(!is_telemetry_enabled("disabled", true));
}

#[test]
fn test_disable_telemetry_when_otel_disabled() {
    assert!(!is_telemetry_enabled("enabled", false));
}

#[test]
fn test_enable_telemetry_when_unset_and_otel_enabled() {
    assert!(is_telemetry_enabled("unset", true));
}

#[test]
fn test_enable_telemetry_when_enabled_and_otel_enabled() {
    assert!(is_telemetry_enabled("enabled", true));
}

#[test]
fn test_create_telemetry_service_with_disabled() {
    let service = TelemetryService::new(
        false, // disabled
        true,
        "test-machine-id".to_string(),
        "0.1.0".to_string(),
        None, // no endpoint
        None,
        60_000,
        100,
    );
    assert!(!service.is_enabled());
}

#[test]
fn test_create_telemetry_service_with_enabled() {
    let service = TelemetryService::new(
        true, // enabled
        true,
        "test-machine-id".to_string(),
        "0.1.0".to_string(),
        Some("http://localhost:4318".to_string()),
        Some("http/json".to_string()),
        60_000,
        100,
    );
    assert!(service.is_enabled());
}

fn service(enabled: bool, endpoint: Option<&str>, batch: usize) -> TelemetryService {
    TelemetryService::new(
        enabled,
        true,
        "machine".to_string(),
        "0.1.0".to_string(),
        endpoint.map(|e| e.to_string()),
        None,
        60_000,
        batch,
    )
}

#[test]
fn disabled_service_records_nothing() {
    let mut s = service(false, Some("http://x"), 1);
    assert!(s.record(TelemetryEventKind::TaskStart, None).is_none());
    assert!(s.queue.is_empty());
    assert!(s.flush().is_none());
    assert!(!s.flushes_in_background());
    assert_eq!(s.send_batch(&vec![]), Err(TelemetryError::Disabled));
}

#[test]
fn full_queues_are_handed_out() {
    let mut s = service(true, Some("http://x"), 2);
    assert!(s.record(TelemetryEventKind::TaskStart, Some("t".to_string())).is_none());
    let batch = s.record(TelemetryEventKind::TaskComplete { success: true }, None).unwrap();
    assert_eq!(batch.len(), 2);
    assert_eq!(batch[0].event_id.len(), 26);
    assert_ne!(batch[0].event_id, batch[1].event_id);
    assert!(batch[0].timestamp > 1_600_000_000);
    assert!(s.queue.is_empty());
    let _ = s.record_error(TelemetryEventKind::ContextCompaction, None);
    assert_eq!(s.flush().unwrap().len(), 1);
    assert!(s.flush().is_none());
}

#[test]
fn batches_are_sent_as_json() {
    let mut s = service(true, Some("http://x"), 100);
    s.record_at(
        TelemetryEventKind::ToolUse { tool_name: "read".to_string(), success: false },
        Some("task".to_string()),
        "id".to_string(),
        7,
    );
    let batch = s.flush().unwrap();
    let post = s.send_batch(&batch).unwrap().unwrap();
    assert_eq!(post.endpoint, "http://x");
    let body: serde_json::Value = serde_json::from_str(&post.body).unwrap();
    assert_eq!(body[0]["kind"]["type"], "tool_use");
    assert_eq!(body[0]["kind"]["tool_name"], "read");
    assert_eq!(body[0]["timestamp"], 7);
    assert_eq!(body[0]["task_id"], "task");
    assert!(body[0]["provider"].is_null());
    assert_eq!(service(true, None, 1).send_batch(&batch), Ok(None));
}

#[test]
fn answers_decide_the_outcome() {
    assert_eq!(send_outcome(Ok(204)), Ok(()));
    assert_eq!(send_outcome(Ok(500)), Err(TelemetryError::HttpError(500)));
    assert_eq!(
        send_outcome(Err("down".to_string())),
        Err(TelemetryError::NetworkError("down".to_string()))
    );
    assert_eq!(TelemetryError::HttpError(500).message(), "http error: 500");
    assert_eq!(TelemetryError::Disabled.message(), "telemetry is disabled");
    assert_eq!(
        TelemetryError::Serialization("x".to_string()).message(),
        "serialization failed: x"
    );
    assert_eq!(TelemetryError::NetworkError("x".to_string()).message(), "network error: x");
}
