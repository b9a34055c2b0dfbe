use credit_data_simulator::clock::Timestamp;
use credit_data_simulator::config::{OffPeakConfig, Ratio, RegulatorEndpointConfig, RegulatorMode};
use credit_data_simulator::json::{JsonDocument, JsonValue};
use credit_data_simulator::regulator_endpoint::{
    ListSubmissionsParams, RecordRejection, RegulatorEndpointState, StoredSubmission, SubmissionEnv,
    SubmissionRequest, SubmissionStatus,
};

fn id_record(id: &str) -> JsonDocument {
    JsonDocument::Object(vec![("id".to_string(), JsonValue::from_str(id))])
}

fn request(id: Option<&str>, records: Vec<JsonDocument>) -> SubmissionRequest {
    SubmissionRequest {
        submission_id: id.map(|s| s.to_string()),
        reporting_period: "202401".to_string(),
        bank_code: "BANKXYZ".to_string(),
        records,
        metadata: None,
    }
}

fn env(secs: i64, hour: u32, draws: Vec<(u64, u64)>) -> SubmissionEnv {
    SubmissionEnv {
        now: Timestamp { secs, nanos: 0 },
        utc_hour: hour,
        generated_id: "generated-id".to_string(),
        fail_draw: 0,
        record_draws: draws,
    }
}

#[test]
fn test_submission_request() {
    let request = request(Some("test-123"), vec![id_record("1")]);
    assert_eq!(request.submission_id, Some("test-123".to_string()));
    assert_eq!(request.records.len(), 1);
}

#[test]
fn test_state_generate_reference_number() {
    let config = RegulatorEndpointConfig::default();
    let mut state = RegulatorEndpointState::new(config);

    let ref1 = state.generate_reference_number();
    let ref2 = state.generate_reference_number();

    assert!(ref1.starts_with("OJK-SLIK-"));
    assert!(ref2.starts_with("OJK-SLIK-"));
    assert_ne!(ref1, ref2);
}

#[test]
fn test_state_accept_submission() {
    let config = RegulatorEndpointConfig::default();
    let mut state = RegulatorEndpointState::new(config);
    let request = request(None, vec![id_record("1"), id_record("2")]);

    let result = state.process_submission(&request, Some("key-1".to_string()));
    assert!(result.is_ok());

    let response = result.unwrap();
    assert_eq!(response.status, SubmissionStatus::Accepted);
    assert_eq!(response.accepted_count, 2);
    assert_eq!(response.rejected_count, 0);
}

#[test]
fn test_state_idempotency() {
    let config = RegulatorEndpointConfig::default();
    let mut state = RegulatorEndpointState::new(config);
    let request = request(Some("sub-123"), vec![id_record("1")]);

    let result1 = state.process_submission(&request, Some("idem-key-1".to_string()));
    assert!(result1.is_ok());
    let response1 = result1.unwrap();

    let result2 = state.process_submission(&request, Some("idem-key-1".to_string()));
    assert!(result2.is_ok());
    let response2 = result2.unwrap();

    assert_eq!(response1.submission_id, response2.submission_id);
    assert_eq!(response1.reference_number, response2.reference_number);
    assert!(response2.details.as_ref().unwrap().iter().any(|(k, _)| k == "idempotent"));
}

#[test]
fn test_state_reject_mode() {
    let mut config = RegulatorEndpointConfig::default();
    config.mode = RegulatorMode::Reject {
        error_code: "INVALID_DATA".to_string(),
        error_message: "Data validation failed".to_string(),
    };
    let mut state = RegulatorEndpointState::new(config);
    let request = request(None, vec![id_record("1")]);

    let result = state.process_submission(&request, None);
    assert!(result.is_err());

    let (status, error) = result.unwrap_err();
    assert_eq!(status, 400);
    assert_eq!(error.error_code, "INVALID_DATA");
}

#[test]
fn test_state_service_unavailable_mode() {
    let mut config = RegulatorEndpointConfig::default();
    config.mode = RegulatorMode::ServiceUnavailable;
    let mut state = RegulatorEndpointState::new(config);
    let request = request(None, vec![id_record("1")]);

    let result = state.process_submission(&request, None);
    assert!(result.is_err());

    let (status, _) = result.unwrap_err();
    assert_eq!(status, 503);
}

#[test]
fn test_state_rate_limited_mode() {
    let mut config = RegulatorEndpointConfig::default();
    config.mode = RegulatorMode::RateLimited;
    let mut state = RegulatorEndpointState::new(config);
    let request = request(None, vec![id_record("1")]);

    let result = state.process_submission(&request, None);
    assert!(result.is_err());

    let (status, error) = result.unwrap_err();
    assert_eq!(status, 429);
    assert_eq!(error.error_code, "RATE_LIMITED");
}

#[test]
fn test_state_queued_mode() {
    let mut config = RegulatorEndpointConfig::default();
    config.mode = RegulatorMode::Queued { queue_delay_ms: 5000 };
    let mut state = RegulatorEndpointState::new(config);
    let request = request(None, vec![id_record("1")]);

    let result = state.process_submission(&request, None);
    assert!(result.is_ok());

    let response = result.unwrap();
    assert_eq!(response.status, SubmissionStatus::Queued);
    assert!(response.estimated_processing_time_secs.is_some());
}

#[test]
fn test_state_partial_reject_mode() {
    let mut config = RegulatorEndpointConfig::default();
    config.mode = RegulatorMode::PartialReject { reject_ratio: Ratio { threshold: u64::MAX / 2 } };
    let mut state = RegulatorEndpointState::new(config);
    let records = (0..100u64).map(|i| JsonDocument::Object(vec![("id".to_string(), JsonValue::from_u64(i))])).collect();
    let request = request(None, records);

    let result = state.process_submission(&request, None);
    assert!(result.is_ok());

    let response = result.unwrap();
    assert!(response.accepted_count > 0 || response.rejected_count > 0);
    assert_eq!(response.accepted_count + response.rejected_count, 100);
}

#[test]
fn test_record_rejection() {
    let rejection = RecordRejection {
        record_index: 5,
        record_id: Some("CR0005".to_string()),
        error_code: "INVALID_NIK".to_string(),
        message: "NIK format is invalid".to_string(),
        field: Some("debtor_nik".to_string()),
    };

    assert_eq!(rejection.record_index, 5);
    assert_eq!(rejection.error_code, "INVALID_NIK");
}

#[test]
fn test_stored_submission() {
    let submission = StoredSubmission {
        submission_id: "sub-123".to_string(),
        reference_number: "OJK-SLIK-20240101120000-000001".to_string(),
        bank_code: "BANKXYZ".to_string(),
        reporting_period: "202401".to_string(),
        status: SubmissionStatus::Accepted,
        record_count: 100,
        accepted_count: 100,
        rejected_count: 0,
        rejections: Vec::new(),
        submitted_at: Timestamp { secs: 1_704_110_400, nanos: 0 },
        processed_at: Some(Timestamp { secs: 1_704_110_400, nanos: 0 }),
        idempotency_key: Some("idem-123".to_string()),
        attempt_count: 1,
    };

    assert_eq!(submission.status, SubmissionStatus::Accepted);
    assert_eq!(submission.record_count, 100);
}

#[test]
fn reference_numbers_count_up() {
    let mut state = RegulatorEndpointState::new(RegulatorEndpointConfig::default());
    let t = Timestamp { secs: 1_704_110_400, nanos: 0 };
    assert_eq!(state.reference_number_at(t), "OJK-SLIK-20240101120000-000001");
    assert_eq!(state.reference_number_at(t), "OJK-SLIK-20240101120000-000002");
    assert_eq!(state.submission_counter, 2);
}

#[test]
fn partial_rejections_follow_the_draws() {
    let mut config = RegulatorEndpointConfig::default();
    config.mode = RegulatorMode::PartialReject { reject_ratio: Ratio { threshold: 100 } };
    let mut state = RegulatorEndpointState::new(config);
    let request = request(Some("s1"), vec![id_record("a"), id_record("b"), id_record("c")]);
    // Record 0 and 2 fall under the threshold; their second draws pick the reasons.
    let e = env(1_704_110_400, 3, vec![(5, 0), (500, 0), (99, 6)]);
    let resp = state.process_submission_with(&request, None, &e).unwrap();
    assert_eq!(resp.status, SubmissionStatus::PartiallyAccepted);
    assert_eq!(resp.rejected_count, 2);
    assert_eq!(resp.accepted_count, 1);
    assert_eq!(resp.rejections[0].record_index, 0);
    assert_eq!(resp.rejections[0].record_id, Some("a".to_string()));
    assert_eq!(resp.rejections[0].error_code, "INVALID_NIK");
    assert_eq!(resp.rejections[1].record_index, 2);
    assert_eq!(resp.rejections[1].error_code, "DUPLICATE_RECORD");
    assert_eq!(resp.submitted_at, "2024-01-01T12:00:00+00:00");
}

#[test]
fn outside_the_window_is_refused_and_changes_nothing() {
    let mut config = RegulatorEndpointConfig::default();
    config.off_peak_config = OffPeakConfig {
        enabled: true,
        start_hour: 22,
        end_hour: 6,
        timezone_offset: 0,
        reject_outside_window: true,
    };
    let mut state = RegulatorEndpointState::new(config);
    let request = request(None, vec![id_record("1")]);
    let (status, error) = state.process_submission_with(&request, None, &env(0, 12, vec![])).unwrap_err();
    assert_eq!(status, 503);
    assert_eq!(error.error_code, "OUTSIDE_SUBMISSION_WINDOW");
    assert!(state.submissions.is_empty());
    assert_eq!(state.submission_counter, 0);
    assert!(state.process_submission_with(&request, None, &env(0, 23, vec![])).is_ok());
}

#[test]
fn listing_is_latest_first_and_paged() {
    let mut state = RegulatorEndpointState::new(RegulatorEndpointConfig::default());
    for (i, secs) in [(0u64, 100i64), (1, 300), (2, 200)] {
        let r = request(Some(&format!("s{}", i)), vec![]);
        state.process_submission_with(&r, None, &env(secs, 3, vec![])).unwrap();
    }
    let params = ListSubmissionsParams { bank_code: None, reporting_period: None, status: None, page: None, page_size: Some(2) };
    assert_eq!(state.count_submissions(&params), 3);
    let page = state.list_submissions(&params);
    assert_eq!(page.total_count, 3);
    let ids: Vec<&str> = page.items.iter().map(|s| s.submission_id.as_str()).collect();
    assert_eq!(ids, vec!["s1", "s2"]);
    let params2 = ListSubmissionsParams { bank_code: Some("OTHER".to_string()), reporting_period: None, status: None, page: None, page_size: None };
    assert_eq!(state.list_submissions(&params2).items.len(), 0);
    assert_eq!(state.submission_counts(), (3, 3, 0));
}

#[test]
fn deleting_forgets_id_and_key() {
    let mut state = RegulatorEndpointState::new(RegulatorEndpointConfig::default());
    let r = request(Some("s1"), vec![id_record("1")]);
    state.process_submission(&r, Some("k1".to_string())).unwrap();
    assert!(state.check_idempotency("k1").is_some());
    assert!(state.delete_submission("s1"));
    assert!(state.get_submission("s1").is_none());
    assert!(state.check_idempotency("k1").is_none());
    assert!(!state.delete_submission("s1"));
    assert!(state.submission_response("s1").is_none());
}

#[test]
fn reset_goes_back_to_accepting() {
    let mut config = RegulatorEndpointConfig::default();
    config.mode = RegulatorMode::ServiceUnavailable;
    let mut state = RegulatorEndpointState::new(config);
    state.set_mode(RegulatorMode::RateLimited);
    assert!(matches!(state.mode(), RegulatorMode::RateLimited));
    state.reset();
    assert!(matches!(state.mode(), RegulatorMode::Accept));
    assert_eq!(state.submission_counter, 0);
}

#[test]
fn test_answered_submission_is_found_by_status() {
    let config = RegulatorEndpointConfig::default().with_mode(RegulatorMode::PartialReject { reject_ratio: Ratio { threshold: u64::MAX } });
    let mut state = RegulatorEndpointState::new(config);
    let request = request(Some("sub-found"), vec![id_record("1"), id_record("2"), id_record("3")]);

    let answer = state
        .process_submission_with(&request, None, &env(1_704_103_200, 12, vec![(0, 0), (0, 1), (0, 2)]))
        .unwrap();
    let looked_up = state.submission_response("sub-found").unwrap();

    assert_eq!(looked_up.submission_id, answer.submission_id);
    assert_eq!(looked_up.reference_number, answer.reference_number);
    assert_eq!(looked_up.status, answer.status);
    assert_eq!(looked_up.accepted_count, answer.accepted_count);
    assert_eq!(looked_up.rejected_count, answer.rejected_count);
    assert_eq!(looked_up.rejections.len(), answer.rejections.len());
    assert_eq!(answer.accepted_count + answer.rejected_count, 3);
}

#[test]
fn queued_submissions_are_answered_with_202() {
    let mut config = RegulatorEndpointConfig::default();
    config.mode = RegulatorMode::Queued { queue_delay_ms: 5000 };
    let mut state = RegulatorEndpointState::new(config);
    let queued = state.process_submission(&request(None, vec![id_record("1")]), None).unwrap();
    assert_eq!(queued.http_status(), 202);
    let mut accepting = RegulatorEndpointState::new(RegulatorEndpointConfig::default());
    let accepted = accepting.process_submission(&request(None, vec![id_record("1")]), None).unwrap();
    assert_eq!(accepted.http_status(), 200);
}

#[test]
fn successive_reference_numbers_differ() {
    let mut state = RegulatorEndpointState::new(RegulatorEndpointConfig::default());
    let a = state.generate_reference_number();
    let b = state.generate_reference_number();
    assert_ne!(a, b);
    assert!(a.starts_with("OJK-SLIK-") && b.ends_with("-000002"));
}

#[test]
fn refusal_needs_no_room_in_the_counter() {
    let mut config = RegulatorEndpointConfig::default();
    config.mode = RegulatorMode::Reject { error_code: "E".to_string(), error_message: "m".to_string() };
    let mut state = RegulatorEndpointState::new(config);
    state.submission_counter = u64::MAX;
    let result = state.process_submission_with(&request(None, vec![id_record("1")]), None, &env(1_700_000_000, 3, vec![]));
    assert_eq!(result.unwrap_err().0, 400);
    assert_eq!(state.submission_counter, u64::MAX);
    assert!(state.submissions.is_empty());
}

fn stored(id: &str, key: Option<&str>) -> StoredSubmission {
    StoredSubmission {
        submission_id: id.to_string(),
        reference_number: format!("REF-{}", id),
        bank_code: "BANKXYZ".to_string(),
        reporting_period: "202401".to_string(),
        status: SubmissionStatus::Accepted,
        record_count: 1,
        accepted_count: 1,
        rejected_count: 0,
        rejections: Vec::new(),
        submitted_at: Timestamp { secs: 1_704_110_400, nanos: 0 },
        processed_at: None,
        idempotency_key: key.map(|k| k.to_string()),
        attempt_count: 1,
    }
}

#[test]
fn stored_keys_survive_cache_eviction() {
    let mut config = RegulatorEndpointConfig::default();
    config.max_idempotency_entries = 3;
    let mut state = RegulatorEndpointState::new(config);
    for i in 0..10 {
        let id = format!("s{}", i);
        let key = format!("k{}", i);
        state.store_submission(stored(&id, Some(&key)));
        assert!(state.idempotency_cache.len() <= 3);
        assert_eq!(state.check_idempotency(&key).unwrap().submission_id, id);
    }
    assert_eq!(state.submissions.len(), 10);
    assert_eq!(state.get_submission("s4").unwrap().reference_number, "REF-s4");
}
