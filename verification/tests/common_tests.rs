use credit_data_simulator::common::{ApiResponse, HealthStatus, ResponseMeta, SimulatorError, SimulatorStats, base_url, endpoints_for};
use credit_data_simulator::config::SimulatorConfig;
use credit_data_simulator::json::JsonValue;

#[test]
fn test_health_status_healthy() {
    let status = HealthStatus::healthy("test-service", "1.0.0", 100);
    assert_eq!(status.status, "healthy");
    assert_eq!(status.service, "test-service");
    assert_eq!(status.version, "1.0.0");
    assert_eq!(status.uptime_secs, 100);
}

#[test]
fn test_health_status_unhealthy() {
    let status = HealthStatus::unhealthy("test-service", "connection failed");
    assert_eq!(status.status, "unhealthy");
    assert!(status.details.is_some());
}

#[test]
fn test_simulator_stats_record() {
    let mut stats = SimulatorStats::default();
    stats.record_request("/api/test", true, 10);
    stats.record_request("/api/test", true, 20);
    stats.record_request("/api/other", false, 30);

    assert_eq!(stats.requests_total, 3);
    assert_eq!(stats.requests_success, 2);
    assert_eq!(stats.requests_failed, 1);
    assert_eq!(stats.endpoint_count("/api/test"), 2);
    assert_eq!(stats.endpoint_count("/api/other"), 1);
}

#[test]
fn test_api_response_success() {
    let response: ApiResponse<String> = ApiResponse::success("test data".to_string());
    assert!(response.success);
    assert_eq!(response.data, Some("test data".to_string()));
    assert!(response.error.is_none());
}

#[test]
fn test_api_response_error() {
    let response: ApiResponse<String> = ApiResponse::error("ERR001", "Something went wrong");
    assert!(!response.success);
    assert!(response.data.is_none());
    assert!(response.error.is_some());
    assert_eq!(response.error.as_ref().unwrap().code, "ERR001");
}

#[test]
fn test_response_meta_paginated() {
    let meta = ResponseMeta::paginated(1, 10, 95);
    assert_eq!(meta.page, Some(1));
    assert_eq!(meta.page_size, Some(10));
    assert_eq!(meta.total_count, Some(95));
    assert_eq!(meta.total_pages, Some(10));
}

#[test]
fn stats_sum_latency_and_count_timeouts() {
    let mut stats = SimulatorStats::default();
    stats.record_request("/a", true, 7);
    stats.record_timeout();
    stats.record_bytes(100, 40);
    assert_eq!(stats.total_latency_ms, 7);
    assert_eq!(stats.requests_timeout, 1);
    assert_eq!(stats.bytes_sent, 100);
    assert_eq!(stats.bytes_received, 40);
    assert_eq!(stats.endpoint_count("/b"), 0);
}

#[test]
fn details_replace_an_existing_key() {
    let h = HealthStatus::healthy("svc", "1", 0)
        .with_details("count", JsonValue::from_u64(1))
        .with_details("count", JsonValue::from_u64(2));
    let d = h.details.unwrap();
    assert_eq!(d.len(), 1);
    assert_eq!(d[0].1.as_u64(), Some(2));
}

#[test]
fn meta_timing_and_extra() {
    let meta = ResponseMeta::paginated(2, 0, 5).with_timing(12).with_extra("next_cursor", JsonValue::Null);
    assert_eq!(meta.total_pages, Some(0));
    assert_eq!(meta.processing_time_ms, Some(12));
    assert!(meta.extra.is_some());
}

#[test]
fn endpoints_follow_enabled_services() {
    let mut config = SimulatorConfig::default();
    config.mapping_service.enabled = false;
    let e = endpoints_for(&config);
    assert_eq!(e.core_banking, Some("http://127.0.0.1:18081".to_string()));
    assert_eq!(e.mapping_service, None);
    assert_eq!(base_url(18084), "http://127.0.0.1:18084");
}

#[test]
fn test_simulator_error_messages() {
    assert_eq!(SimulatorError::BindError("port in use".to_string()).to_string(), "Bind error: port in use");
    assert_eq!(SimulatorError::StartError("x".to_string()).to_string(), "Start error: x");
    assert_eq!(SimulatorError::ConfigError("bad".to_string()).to_string(), "Config error: bad");
    assert_eq!(SimulatorError::InternalError("oops".to_string()).to_string(), "Internal error: oops");
    assert_eq!(SimulatorError::NotFound("v9".to_string()).to_string(), "Not found: v9");
    assert_eq!(SimulatorError::Timeout.to_string(), "Timeout");
    assert_eq!(SimulatorError::ServiceUnavailable.to_string(), "Service unavailable");
}
