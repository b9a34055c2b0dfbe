use credit_data_simulator::clock::Timestamp;
use credit_data_simulator::engine::{
    AttemptOutcome, AttemptStatus, EngineState, RetryPolicy, RetryRun, RunDecision, SubmissionOptions,
    SubmissionRequest, SubmissionResponse, SubmissionStatus, artifact_at, audit_events_at, default_initial_delay,
    default_max_attempts, default_max_delay, default_send_to_dlq, evidence_pack_at, regulator_request, short_id_of,
    debug_attempts, debug_contents, EvidenceContents, SubmissionAttempt,
};

fn request() -> SubmissionRequest {
    SubmissionRequest {
        submission_id: "SUB-1".to_string(),
        locked_dataset_version: "v42".to_string(),
        artifact_format: "XML".to_string(),
        options: SubmissionOptions {
            retry_policy: RetryPolicy::default(),
            off_peak_window: None,
            batch_size: None,
            include_evidence_pack: true,
        },
    }
}

#[test]
fn test_default_retry_policy() {
    let policy = RetryPolicy::default();
    assert_eq!(policy.max_attempts, 3);
    assert_eq!(policy.initial_backoff_ms, 1000);
}

#[test]
fn defaults_of_a_retry_policy() {
    assert_eq!(default_max_attempts(), 3);
    assert_eq!(default_initial_delay(), 1000);
    assert_eq!(default_max_delay(), 30000);
    assert!(default_send_to_dlq());
    assert_eq!(f64::from_bits(RetryPolicy::default().backoff_multiplier_bits), 2.0);
}

#[test]
fn a_run_retries_errors_then_escalates() {
    let mut run = RetryRun::new(2);
    assert_eq!(run.next_attempt_number(), Some(1));
    let d = run.record(
        AttemptOutcome::Responded { status_code: 500, body: "boom".to_string() },
        "t1".to_string(),
        "c1".to_string(),
        5,
    );
    assert!(matches!(d, RunDecision::Continue));
    let d = run.record(
        AttemptOutcome::Failed { timeout: true, connect: false, error: "x".to_string() },
        "t2".to_string(),
        "c2".to_string(),
        6,
    );
    assert!(matches!(d, RunDecision::Continue));
    assert_eq!(run.next_attempt_number(), None);
    assert_eq!(run.attempts[1].status, AttemptStatus::Timeout);
    let (status, err) = run.give_up();
    assert_eq!(status, SubmissionStatus::Escalated);
    assert_eq!(err, Some("Request timeout".to_string()));
}

#[test]
fn a_rejection_stops_the_run() {
    let mut run = RetryRun::new(3);
    let d = run.record(
        AttemptOutcome::Responded { status_code: 422, body: "bad".to_string() },
        "t".to_string(),
        "c".to_string(),
        1,
    );
    match d {
        RunDecision::Finished(s, e) => {
            assert_eq!(s, SubmissionStatus::Rejected);
            assert_eq!(e, Some("bad".to_string()));
        }
        _ => panic!("expected the run to finish"),
    }
    assert_eq!(run.next_attempt_number(), None);
    let mut ok = RetryRun::new(3);
    let d = ok.record(AttemptOutcome::Responded { status_code: 202, body: String::new() }, "t".to_string(), "c".to_string(), 1);
    assert!(matches!(d, RunDecision::Finished(SubmissionStatus::Acknowledged, None)));
    let mut conn = RetryRun::new(1);
    conn.record(AttemptOutcome::Failed { timeout: false, connect: true, error: String::new() }, "t".to_string(), "c".to_string(), 1);
    assert_eq!(conn.give_up().1, Some("Connection failed".to_string()));
}

#[test]
fn artifacts_and_evidence_are_built_from_the_request() {
    let req = request();
    let t = Timestamp { secs: 1_704_110_400, nanos: 0 };
    let a = artifact_at(&req, "abcdef12-0000-4000-8000-000000000000", t, t);
    assert_eq!(a.artifact_id, "ART-ABCDEF12");
    assert_eq!(a.artifact_hash.len(), 32);
    assert_eq!(a.row_count, 1000);
    assert_eq!(a.file_size, 51200);
    assert_eq!(a.created_at, "2024-01-01T12:00:00+00:00");
    assert_eq!(a.precheck_result.as_ref().unwrap().checks.len(), 3);
    let a2 = artifact_at(&req, "abcdef12-0000-4000-8000-000000000000", t, t);
    assert_eq!(a.artifact_hash, a2.artifact_hash);
    let e = evidence_pack_at(&req, &a, &vec![], "0123abcd-0000-4000-8000-000000000000", t);
    assert_eq!(e.pack_id, "EVP-0123ABCD");
    assert_eq!(e.contents.run_id, "SUB-1");
    assert_eq!(e.hash.len(), 32);
    let body = regulator_request(&req, &a);
    assert_eq!(body.records.len(), 10);
    assert_eq!(body.bank_code, "BANK001");
    assert_eq!(short_id_of("EXEC-", "00ff00ff-1"), "EXEC-00FF00FF");
}

#[test]
fn audit_trail_frames_the_attempts() {
    let mut run = RetryRun::new(1);
    run.record(AttemptOutcome::Responded { status_code: 200, body: String::new() }, "t1".to_string(), "c1".to_string(), 3);
    let ev = audit_events_at("SUB-1", SubmissionStatus::Acknowledged, &run.attempts, &"a".to_string(), &"b".to_string(), &"c".to_string());
    let types: Vec<&str> = ev.iter().map(|e| e.event_type.as_str()).collect();
    assert_eq!(types, vec!["submission_started", "artifact_generated", "attempt_success", "submission_success"]);
    let ev2 = audit_events_at("S", SubmissionStatus::PendingRetry, &vec![], &"a".to_string(), &"b".to_string(), &"c".to_string());
    assert_eq!(ev2[2].event_type, "submission_pendingretry");
}

#[test]
fn failed_submissions_go_to_the_dead_letter_queue() {
    let mut state = EngineState::new();
    let resp = SubmissionResponse {
        execution_id: "EXEC-1".to_string(),
        submission_id: "SUB-1".to_string(),
        status: SubmissionStatus::Escalated,
        artifact: None,
        attempts: vec![],
        evidence_pack: None,
        audit_events: vec![],
        duration_ms: 0,
    };
    state.complete_submission(resp, None, "now".to_string());
    assert_eq!(state.metrics(), (1, 1));
    assert_eq!(state.dlq[0].reason, "Unknown");
    assert_eq!(state.dlq[0].last_error, "No error");
    assert!(state.get_submission("SUB-1").is_some());
    assert!(state.retry_dlq_entry("SUB-1"));
    assert!(!state.retry_dlq_entry("SUB-1"));
    assert_eq!(state.metrics(), (1, 0));
}

#[test]
fn completed_submission_is_found_by_id() {
    let mut state = EngineState::new();
    let make = |id: &str, exec: &str, status: SubmissionStatus| SubmissionResponse {
        execution_id: exec.to_string(),
        submission_id: id.to_string(),
        status,
        artifact: None,
        attempts: vec![],
        evidence_pack: None,
        audit_events: vec![],
        duration_ms: 5,
    };
    state.complete_submission(make("SUB-A", "EXEC-1", SubmissionStatus::Acknowledged), None, "t1".to_string());
    state.complete_submission(make("SUB-B", "EXEC-2", SubmissionStatus::Rejected), None, "t2".to_string());
    state.complete_submission(make("SUB-A", "EXEC-3", SubmissionStatus::Acknowledged), None, "t3".to_string());

    assert_eq!(state.metrics(), (2, 0));
    assert_eq!(state.get_submission("SUB-A").unwrap().execution_id, "EXEC-3");
    assert_eq!(state.get_submission("SUB-B").unwrap().execution_id, "EXEC-2");
    assert!(state.get_submission("SUB-C").is_none());
}

fn attempt(n: u32, status: AttemptStatus, code: Option<u16>, message: Option<&str>, id: &str) -> SubmissionAttempt {
    SubmissionAttempt {
        attempt_number: n,
        timestamp: "2024-01-01T10:00:00Z".to_string(),
        status,
        response_code: code,
        response_message: message.map(|m| m.to_string()),
        correlation_id: id.to_string(),
        duration_ms: 1234,
    }
}

#[test]
fn debug_text_of_attempts_matches_derived_debug() {
    let attempts = vec![
        attempt(1, AttemptStatus::Timeout, None, None, "c-1"),
        attempt(2, AttemptStatus::Rejected, Some(422), Some("bad \"nik\" \\ line\nnext\ttab\r\u{0}\u{1}\u{7f} 'q'"), "c-2"),
        attempt(3, AttemptStatus::Success, Some(200), Some("caf\u{e9} e\u{301} \u{200b} \u{1F600}"), "c-3"),
        attempt(4, AttemptStatus::Error, Some(65535), Some(""), ""),
    ];
    assert_eq!(debug_attempts(&attempts), format!("{:?}", attempts));
    assert_eq!(debug_attempts(&vec![]), "[]");
    assert_eq!(
        debug_attempts(&vec![attempt(1, AttemptStatus::Success, Some(200), None, "x")]),
        "[SubmissionAttempt { attempt_number: 1, timestamp: \"2024-01-01T10:00:00Z\", status: Success, \
         response_code: Some(200), response_message: None, correlation_id: \"x\", duration_ms: 1234 }]"
    );
}

#[test]
fn debug_text_of_contents_matches_derived_debug() {
    let contents = EvidenceContents {
        run_id: "SUB-1".to_string(),
        dataset_version: "v\"42\"".to_string(),
        artifact_hash: "abc".to_string(),
        submission_attempts: vec![attempt(1, AttemptStatus::Success, Some(200), Some("ok"), "c")],
        audit_log_hash: "def".to_string(),
        approval_trail: None,
    };
    assert_eq!(debug_contents(&contents), format!("{:?}", contents));
}
