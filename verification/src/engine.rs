//! The workflow engine simulator: a submission is turned into an artifact,
//! sent to the regulator with retries, and recorded with its audit trail,
//! its evidence and, when it fails, an entry in the dead-letter queue.

use vstd::prelude::*;
use crate::clock::{
    Timestamp, valid_timestamp, rfc3339_text, utc_display_text, is_uuid_char, now, to_rfc3339, to_display_text,
    new_uuid,
};
use crate::json::{JsonDocument, JsonNumber, JsonValue, entries_view, u64_number};
use crate::regulator_endpoint::SubmissionRequest as RegulatorSubmission;
use crate::text::{
    opt_view, owned, push_char, push_str, str_eq, decimal, decimal_string, zero_pad, zero_padded, position_of,
    lemma_position_of, debug_text, push_debug_text,
};

verus! {

// ============================================================================
// Requests and policies
// ============================================================================

/// The number of attempts a retry policy allows by default.
pub fn default_max_attempts() -> (r: u32)
    ensures
        r == 3,
{
    3
}

/// The first backoff of a retry policy by default, in milliseconds.
pub fn default_initial_delay() -> (r: u64)
    ensures
        r == 1000,
{
    1000
}

/// The longest backoff of a retry policy by default, in milliseconds.
pub fn default_max_delay() -> (r: u64)
    ensures
        r == 30000,
{
    30000
}

/// Whether a failed submission goes to the dead-letter queue by default.
pub fn default_send_to_dlq() -> (r: bool)
    ensures
        r,
{
    true
}

/// How a submission is retried. The backoff multiplier is a double, held
/// by its bit pattern.
#[derive(Debug)]
pub struct RetryPolicy {
    pub max_attempts: u32,
    pub initial_backoff_ms: u64,
    pub max_backoff_ms: u64,
    pub backoff_multiplier_bits: u64,
    pub send_to_dlq: bool,
}

/// The bit pattern of the double 2.0.
pub open spec fn two_bits() -> u64 {
    0x4000_0000_0000_0000
}

impl RetryPolicy {
    /// Three attempts, backoff from one second doubling up to thirty, failed
    /// submissions sent to the dead-letter queue.
    pub fn default() -> (r: Self)
        ensures
            r.max_attempts == 3,
            r.initial_backoff_ms == 1000,
            r.max_backoff_ms == 30000,
            r.backoff_multiplier_bits == two_bits(),
            r.send_to_dlq,
    {
        RetryPolicy {
            max_attempts: default_max_attempts(),
            initial_backoff_ms: default_initial_delay(),
            max_backoff_ms: default_max_delay(),
            backoff_multiplier_bits: 0x4000_0000_0000_0000,
            send_to_dlq: default_send_to_dlq(),
        }
    }
}

/// An off-peak window of a submission.
#[derive(Debug)]
pub struct OffPeakWindow {
    pub start_hour: u8,
    pub end_hour: u8,
    pub timezone: String,
}

/// Options of a submission.
#[derive(Debug)]
pub struct SubmissionOptions {
    pub retry_policy: RetryPolicy,
    pub off_peak_window: Option<OffPeakWindow>,
    pub batch_size: Option<u64>,
    pub include_evidence_pack: bool,
}

/// A submission handed to the engine.
#[derive(Debug)]
pub struct SubmissionRequest {
    pub submission_id: String,
    pub locked_dataset_version: String,
    pub artifact_format: String,
    pub options: SubmissionOptions,
}

/// The status of a submission.
#[derive(Clone, Copy, Debug, PartialEq, Eq, Structural)]
pub enum SubmissionStatus {
    Pending,
    Generating,
    Submitting,
    Submitted,
    Acknowledged,
    Rejected,
    PendingRetry,
    Failed,
    Escalated,
}

/// The status of one attempt.
#[derive(Clone, Copy, Debug, PartialEq, Eq, Structural)]
pub enum AttemptStatus {
    Success,
    Timeout,
    Rejected,
    Error,
}

/// One attempt to hand a submission to the regulator.
#[derive(Debug)]
pub struct SubmissionAttempt {
    pub attempt_number: u32,
    pub timestamp: String,
    pub status: AttemptStatus,
    pub response_code: Option<u16>,
    pub response_message: Option<String>,
    pub correlation_id: String,
    pub duration_ms: u64,
}

/// An attempt with its texts taken by their characters.
pub struct AttemptView {
    pub attempt_number: u32,
    pub timestamp: Seq<char>,
    pub status: AttemptStatus,
    pub response_code: Option<u16>,
    pub response_message: Option<Seq<char>>,
    pub correlation_id: Seq<char>,
    pub duration_ms: u64,
}

impl View for SubmissionAttempt {
    type V = AttemptView;

    open spec fn view(&self) -> AttemptView {
        AttemptView {
            attempt_number: self.attempt_number,
            timestamp: self.timestamp@,
            status: self.status,
            response_code: self.response_code,
            response_message: opt_view(self.response_message),
            correlation_id: self.correlation_id@,
            duration_ms: self.duration_ms,
        }
    }
}

impl Clone for SubmissionAttempt {
    fn clone(&self) -> (r: Self)
        ensures
            r@ == self@,
    {
        SubmissionAttempt {
            attempt_number: self.attempt_number,
            timestamp: self.timestamp.clone(),
            status: self.status,
            response_code: self.response_code,
            response_message: match &self.response_message {
                Some(m) => Some(m.clone()),
                None => None,
            },
            correlation_id: self.correlation_id.clone(),
            duration_ms: self.duration_ms,
        }
    }
}

/// The views of a list of attempts.
pub open spec fn attempts_view(v: Seq<SubmissionAttempt>) -> Seq<AttemptView> {
    v.map_values(|a: SubmissionAttempt| a@)
}

/// A copy of a list of attempts.
pub fn clone_attempts(v: &Vec<SubmissionAttempt>) -> (r: Vec<SubmissionAttempt>)
    ensures
        attempts_view(r@) == attempts_view(v@),
{
    let mut out: Vec<SubmissionAttempt> = Vec::new();
    let mut i: usize = 0;
    while i < v.len()
        invariant
            i <= v.len(),
            out@.len() == i,
            forall|j: int| 0 <= j < i ==> (#[trigger] out@[j])@ == v@[j]@,
        decreases v.len() - i,
    {
        out.push(v[i].clone());
        i = i + 1;
    }
    assert(attempts_view(out@) =~= attempts_view(v@));
    out
}

// ============================================================================
// Attempts and retries
// ============================================================================

/// What came of sending a submission once.
#[derive(Debug)]
pub enum AttemptOutcome {
    /// The regulator answered with a status code and a body.
    Responded { status_code: u16, body: String },
    /// The request failed: timed out, could not connect, or failed otherwise
    /// with the error's text.
    Failed { timeout: bool, connect: bool, error: String },
}

/// The status an outcome gives an attempt: success for a 2xx answer, a
/// rejection for 400 and 422, a timeout for a timed-out request, an error
/// otherwise.
pub open spec fn attempt_status(o: AttemptOutcome) -> AttemptStatus {
    match o {
        AttemptOutcome::Responded { status_code, .. } => if 200 <= status_code <= 299 {
            AttemptStatus::Success
        } else if status_code == 400 || status_code == 422 {
            AttemptStatus::Rejected
        } else {
            AttemptStatus::Error
        },
        AttemptOutcome::Failed { timeout, .. } => if timeout {
            AttemptStatus::Timeout
        } else {
            AttemptStatus::Error
        },
    }
}

/// How an answer or a failure classifies an attempt: a 2xx answer
/// succeeds with no message; a 400 (bad request) or 422 (unprocessable)
/// answer is a rejection, and any other answer an error, each carrying the
/// answer's body; a timed-out request is a timeout, any other failed request
/// an error.
pub proof fn law_answers_classify_attempts(status_code: u16, body: String, timeout: bool, connect: bool, error: String)
    ensures
        ({
            let answer = AttemptOutcome::Responded { status_code, body };
            &&& 200 <= status_code <= 299 ==> attempt_status(answer) == AttemptStatus::Success && attempt_message(
                answer,
            ) is None
            &&& (status_code == 400 || status_code == 422) ==> attempt_status(answer) == AttemptStatus::Rejected
                && attempt_message(answer) == Some(body@)
            &&& !(200 <= status_code <= 299) && status_code != 400 && status_code != 422 ==> attempt_status(answer)
                == AttemptStatus::Error && attempt_message(answer) == Some(body@)
        }),
        ({
            let failure = AttemptOutcome::Failed { timeout, connect, error };
            &&& timeout ==> attempt_status(failure) == AttemptStatus::Timeout
            &&& !timeout ==> attempt_status(failure) == AttemptStatus::Error
            &&& attempt_message(failure) is Some
        }),
{
}

/// The message an attempt records: none on success, the body of any other
/// answer, and for a failed request `Request timeout`, `Connection failed`
/// or `Request error: ` and the error.
pub open spec fn attempt_message(o: AttemptOutcome) -> Option<Seq<char>> {
    match o {
        AttemptOutcome::Responded { status_code, body } => if 200 <= status_code <= 299 {
            None
        } else {
            Some(body@)
        },
        AttemptOutcome::Failed { timeout, connect, error } => if timeout {
            Some("Request timeout"@)
        } else if connect {
            Some("Connection failed"@)
        } else {
            Some("Request error: "@ + error@)
        },
    }
}

/// The status code an attempt records: the answer's, none for a failed request.
pub open spec fn attempt_code(o: AttemptOutcome) -> Option<u16> {
    match o {
        AttemptOutcome::Responded { status_code, .. } => Some(status_code),
        AttemptOutcome::Failed { .. } => None,
    }
}

/// How a run of attempts goes on after one.
#[derive(Debug)]
pub enum RunDecision {
    /// The run is over with this status and, for a rejection, its reason.
    Finished(SubmissionStatus, Option<String>),
    /// Another attempt may follow (after a backoff when attempts remain).
    Continue,
}

/// A run of attempts to hand a submission to the regulator, at most
/// `max_attempts` of them.
#[derive(Debug)]
pub struct RetryRun {
    pub max_attempts: u32,
    pub attempts: Vec<SubmissionAttempt>,
    pub last_error: Option<String>,
    pub finished: bool,
}

/// Whether a run is consistent: its attempts are numbered from 1, no more
/// of them than allowed, and every attempt but a final one was retryable.
pub open spec fn run_wf(r: RetryRun) -> bool {
    let a = attempts_view(r.attempts@);
    &&& a.len() <= r.max_attempts
    &&& forall|i: int| 0 <= i < a.len() ==> (#[trigger] a[i]).attempt_number == i + 1
    &&& forall|i: int|
        0 <= i < a.len() - 1 ==> (#[trigger] a[i]).status != AttemptStatus::Success && a[i].status
            != AttemptStatus::Rejected
    &&& (!r.finished && a.len() > 0) ==> a.last().status != AttemptStatus::Success && a.last().status
        != AttemptStatus::Rejected
}

impl RetryRun {
    /// A run that has made no attempt yet.
    pub fn new(max_attempts: u32) -> (r: Self)
        ensures
            r.max_attempts == max_attempts,
            r.attempts@.len() == 0,
            r.last_error is None,
            !r.finished,
            run_wf(r),
    {
        RetryRun { max_attempts, attempts: Vec::new(), last_error: None, finished: false }
    }

    /// The number of the next attempt, while the run goes on and attempts remain.
    pub fn next_attempt_number(&self) -> (r: Option<u32>)
        requires
            run_wf(*self),
        ensures
            r is Some <==> !self.finished && self.attempts@.len() < self.max_attempts,
            r matches Some(n) ==> n == self.attempts@.len() + 1,
    {
        if !self.finished && self.attempts.len() < self.max_attempts as usize {
            Some(self.attempts.len() as u32 + 1)
        } else {
            None
        }
    }

    /// Records the outcome of the next attempt, made at `timestamp` under
    /// `correlation_id` and lasting `duration_ms`: a success finishes the
    /// run as acknowledged, a rejection finishes it as rejected with the
    /// body as its reason, anything else is kept as the last error.
    pub fn record(
        &mut self,
        outcome: AttemptOutcome,
        timestamp: String,
        correlation_id: String,
        duration_ms: u64,
    ) -> (r: RunDecision)
        requires
            run_wf(*old(self)),
            !old(self).finished,
            old(self).attempts@.len() < old(self).max_attempts,
        ensures
            run_wf(*final(self)),
            attempts_view(final(self).attempts@) == attempts_view(old(self).attempts@).push(
                AttemptView {
                    attempt_number: (old(self).attempts@.len() + 1) as u32,
                    timestamp: timestamp@,
                    status: attempt_status(outcome),
                    response_code: attempt_code(outcome),
                    response_message: attempt_message(outcome),
                    correlation_id: correlation_id@,
                    duration_ms,
                },
            ),
            final(self).max_attempts == old(self).max_attempts,
            attempt_status(outcome) == AttemptStatus::Success ==> final(self).finished && (r matches RunDecision::Finished(
                s,
                e,
            ) && s == SubmissionStatus::Acknowledged && e is None),
            attempt_status(outcome) == AttemptStatus::Rejected ==> final(self).finished && (r matches RunDecision::Finished(
                s,
                e,
            ) && s == SubmissionStatus::Rejected && opt_view(e) == attempt_message(outcome)),
            attempt_status(outcome) != AttemptStatus::Success && attempt_status(outcome) != AttemptStatus::Rejected
                ==> !final(self).finished && r is Continue && opt_view(final(self).last_error) == attempt_message(
                outcome,
            ),
            outcome matches AttemptOutcome::Responded { status_code, body } ==> ((status_code == 400 || status_code
                == 422) ==> final(self).finished && (r matches RunDecision::Finished(s, e)
                && s == SubmissionStatus::Rejected && opt_view(e) == Some(body@))),
            outcome matches AttemptOutcome::Responded { status_code, body } ==> (200 <= status_code <= 299
                ==> final(self).finished && (r matches RunDecision::Finished(s, e)
                && s == SubmissionStatus::Acknowledged && e is None)),
            outcome matches AttemptOutcome::Responded { status_code, body } ==> (!(200 <= status_code <= 299)
                && status_code != 400 && status_code != 422 ==> !final(self).finished && r is Continue && opt_view(
                final(self).last_error,
            ) == Some(body@)),
    {
        let number = self.attempts.len() as u32 + 1;
        let ghost before = attempts_view(self.attempts@);
        let (status, code, message): (AttemptStatus, Option<u16>, Option<String>) = match &outcome {
            AttemptOutcome::Responded { status_code, body } => {
                if 200 <= *status_code && *status_code <= 299 {
                    (AttemptStatus::Success, Some(*status_code), None)
                } else if *status_code == 400 || *status_code == 422 {
                    (AttemptStatus::Rejected, Some(*status_code), Some(body.clone()))
                } else {
                    (AttemptStatus::Error, Some(*status_code), Some(body.clone()))
                }
            },
            AttemptOutcome::Failed { timeout, connect, error } => {
                if *timeout {
                    (AttemptStatus::Timeout, None, Some(owned("Request timeout")))
                } else if *connect {
                    (AttemptStatus::Error, None, Some(owned("Connection failed")))
                } else {
                    let mut m = owned("Request error: ");
                    push_str(&mut m, error.as_str());
                    (AttemptStatus::Error, None, Some(m))
                }
            },
        };
        let reason = match &message {
            Some(m) => Some(m.clone()),
            None => None,
        };
        self.attempts.push(
            SubmissionAttempt {
                attempt_number: number,
                timestamp,
                status,
                response_code: code,
                response_message: message,
                correlation_id,
                duration_ms,
            },
        );
        assert(attempts_view(self.attempts@) =~= before.push(self.attempts@.last()@));
        match status {
            AttemptStatus::Success => {
                self.finished = true;
                RunDecision::Finished(SubmissionStatus::Acknowledged, None)
            },
            AttemptStatus::Rejected => {
                self.finished = true;
                RunDecision::Finished(SubmissionStatus::Rejected, reason)
            },
            _ => {
                self.last_error = reason;
                RunDecision::Continue
            },
        }
    }

    /// The status of a run whose attempts all failed: escalated once every
    /// allowed attempt was made, failed otherwise; with the last error.
    pub fn give_up(&self) -> (r: (SubmissionStatus, Option<String>))
        ensures
            r.0 == (if self.attempts@.len() >= self.max_attempts {
                SubmissionStatus::Escalated
            } else {
                SubmissionStatus::Failed
            }),
            opt_view(r.1) == opt_view(self.last_error),
    {
        let e = match &self.last_error {
            Some(m) => Some(m.clone()),
            None => None,
        };
        if self.attempts.len() as u64 >= self.max_attempts as u64 {
            (SubmissionStatus::Escalated, e)
        } else {
            (SubmissionStatus::Failed, e)
        }
    }
}

/// A run that is not finished after its last allowed attempt is escalated;
/// a run never makes more attempts than allowed, and only its last attempt
/// can be a success or a rejection.
pub proof fn law_exhausted_run_escalates(run: RetryRun)
    requires
        run_wf(run),
        !run.finished,
        run.attempts@.len() == run.max_attempts,
    ensures
        forall|i: int|
            0 <= i < run.attempts@.len() ==> (#[trigger] attempts_view(run.attempts@)[i]).status
                != AttemptStatus::Success && attempts_view(run.attempts@)[i].status != AttemptStatus::Rejected,
        (if run.attempts@.len() >= run.max_attempts {
            SubmissionStatus::Escalated
        } else {
            SubmissionStatus::Failed
        }) == SubmissionStatus::Escalated,
{
    let a = attempts_view(run.attempts@);
    assert forall|i: int| 0 <= i < a.len() implies (#[trigger] a[i]).status != AttemptStatus::Success && a[i].status
        != AttemptStatus::Rejected by {
        if i < a.len() - 1 {
        } else {
            assert(a[i] == a.last());
        }
    }
}


// ============================================================================
// Identifiers and digests
// ============================================================================

/// The upper-case form of an ASCII letter; other characters stay.
pub open spec fn upper_char(c: char) -> char {
    if 'a' <= c <= 'z' {
        ((c as u32) - 32) as char
    } else {
        c
    }
}

/// A prefix followed by the first eight characters of an identifier in
/// upper case (`format!("{prefix}{}", uuid[..8].to_uppercase())`).
pub open spec fn short_id(prefix: Seq<char>, uuid: Seq<char>) -> Seq<char> {
    prefix + uuid.take(8).map_values(|c: char| upper_char(c))
}

/// A prefix followed by the first eight characters of a UUID text in upper
/// case.
pub fn short_id_of(prefix: &str, uuid: &str) -> (r: String)
    requires
        uuid@.len() >= 8,
        forall|i: int| 0 <= i < 8 ==> is_uuid_char(#[trigger] uuid@[i]),
    ensures
        r@ == short_id(prefix@, uuid@),
{
    let mut s = owned(prefix);
    let mut i: usize = 0;
    while i < 8
        invariant
            i <= 8,
            uuid@.len() >= 8,
            forall|k: int| 0 <= k < 8 ==> is_uuid_char(#[trigger] uuid@[k]),
            s@ == prefix@ + uuid@.take(i as int).map_values(|c: char| upper_char(c)),
        decreases 8 - i,
    {
        let c = uuid.get_char(i);
        let u = if 'a' <= c && c <= 'z' {
            ((c as u8) - 32) as char
        } else {
            c
        };
        assert(u == upper_char(c));
        push_char(&mut s, u);
        assert(uuid@.take(i + 1).map_values(|c: char| upper_char(c)) =~= uuid@.take(i as int).map_values(
            |c: char| upper_char(c),
        ).push(upper_char(c)));
        i = i + 1;
    }
    s
}

/// A fresh identifier: a prefix and the first eight characters of a new
/// UUID in upper case.
pub fn fresh_short_id(prefix: &str) -> (r: String)
    ensures
        exists|u: Seq<char>| u.len() == 36 && r@ == short_id(prefix@, u),
{
    let u = new_uuid();
    short_id_of(prefix, u.as_str())
}

/// The MD5 digest of some bytes in lower-case hexadecimal.
pub uninterp spec fn md5_hex(bytes: Seq<u8>) -> Seq<char>;

/// `format!("{:x}", md5::compute(s.as_bytes()))`: the MD5 digest of the
/// text's UTF-8 bytes, as 32 lower-case hexadecimal digits.
#[verifier::external_body]
fn md5_hex_of(s: &str) -> (r: String)
    ensures
        r@ == md5_hex(vstd::utf8::encode_utf8(s@)),
        r@.len() == 32,
{
    format!("{:x}", md5::compute(s.as_bytes()))
}

// ============================================================================
// Artifacts
// ============================================================================

/// A check run on an artifact before it is sent.
#[derive(Debug)]
pub struct PrecheckItem {
    pub check_name: String,
    pub passed: bool,
    pub message: Option<String>,
}

/// The prechecks of an artifact.
#[derive(Debug)]
pub struct PrecheckResult {
    pub passed: bool,
    pub checks: Vec<PrecheckItem>,
}

/// The artifact made of a submission.
#[derive(Debug)]
pub struct Artifact {
    pub artifact_id: String,
    pub artifact_hash: String,
    pub format: String,
    pub row_count: u64,
    pub file_size: u64,
    pub locked_dataset_version: String,
    pub created_at: String,
    pub precheck_result: Option<PrecheckResult>,
}

/// The text an artifact's hash is taken of: the submission id, the dataset
/// version and the instant, separated by colons.
pub open spec fn artifact_content(req: SubmissionRequest, stamp: Timestamp) -> Seq<char> {
    req.submission_id@ + ":"@ + req.locked_dataset_version@ + ":"@ + utc_display_text(stamp.secs, stamp.nanos)
}

/// Whether a check passed with this name and no message.
pub open spec fn passed_check(c: PrecheckItem, name: Seq<char>) -> bool {
    c.check_name@ == name && c.passed && c.message is None
}

/// Whether `a` is the artifact of `req` named from the UUID `uuid`, hashed
/// at `stamp` and created at `created`: a thousand rows, fifty kilobytes,
/// and the schema, hash and size prechecks passed.
pub open spec fn artifact_of(a: Artifact, req: SubmissionRequest, uuid: Seq<char>, stamp: Timestamp, created: Timestamp) -> bool {
    &&& a.artifact_id@ == short_id("ART-"@, uuid)
    &&& a.artifact_hash@ == md5_hex(vstd::utf8::encode_utf8(artifact_content(req, stamp)))
    &&& a.format@ == req.artifact_format@
    &&& a.row_count == 1000
    &&& a.file_size == 51200
    &&& a.locked_dataset_version@ == req.locked_dataset_version@
    &&& a.created_at@ == rfc3339_text(created.secs, created.nanos)
    &&& a.precheck_result matches Some(p) && p.passed && p.checks@.len() == 3 && passed_check(
        p.checks@[0],
        "schema_validation"@,
    ) && passed_check(p.checks@[1], "hash_verification"@) && passed_check(p.checks@[2], "size_limit"@)
}

/// A passed check.
fn passed(name: &str) -> (r: PrecheckItem)
    ensures
        passed_check(r, name@),
{
    PrecheckItem { check_name: owned(name), passed: true, message: None }
}

/// The artifact of a submission, named from `uuid`, hashed at `stamp` and
/// created at `created`.
pub fn artifact_at(request: &SubmissionRequest, uuid: &str, stamp: Timestamp, created: Timestamp) -> (r: Artifact)
    requires
        uuid@.len() >= 8,
        forall|i: int| 0 <= i < 8 ==> is_uuid_char(#[trigger] uuid@[i]),
        valid_timestamp(stamp),
        valid_timestamp(created),
    ensures
        artifact_of(r, *request, uuid@, stamp, created),
{
    let artifact_id = short_id_of("ART-", uuid);
    let mut content = request.submission_id.clone();
    push_str(&mut content, ":");
    push_str(&mut content, request.locked_dataset_version.as_str());
    push_str(&mut content, ":");
    let shown = to_display_text(stamp);
    push_str(&mut content, shown.as_str());
    let artifact_hash = md5_hex_of(content.as_str());
    let mut checks: Vec<PrecheckItem> = Vec::new();
    checks.push(passed("schema_validation"));
    checks.push(passed("hash_verification"));
    checks.push(passed("size_limit"));
    Artifact {
        artifact_id,
        artifact_hash,
        format: request.artifact_format.clone(),
        row_count: 1000,
        file_size: 1024 * 50,
        locked_dataset_version: request.locked_dataset_version.clone(),
        created_at: to_rfc3339(created),
        precheck_result: Some(PrecheckResult { passed: true, checks }),
    }
}

/// The artifact of a submission, with a fresh identifier, hashed with the
/// current time and stamped with the time after.
pub fn generate_artifact(request: &SubmissionRequest) -> (r: Artifact)
    ensures
        exists|uuid: Seq<char>, stamp: Timestamp, created: Timestamp|
            uuid.len() == 36 && valid_timestamp(stamp) && valid_timestamp(created) && artifact_of(
                r,
                *request,
                uuid,
                stamp,
                created,
            ),
{
    let uuid = new_uuid();
    let stamp = now();
    let created = now();
    artifact_at(request, uuid.as_str(), stamp, created)
}


// ============================================================================
// Audit trail and evidence
// ============================================================================

/// An entry of the audit trail.
#[derive(Debug)]
pub struct AuditEvent {
    pub event_type: String,
    pub timestamp: String,
    pub actor: String,
    pub details: JsonDocument,
}

/// The evidence gathered for a run.
#[derive(Debug)]
pub struct EvidenceContents {
    pub run_id: String,
    pub dataset_version: String,
    pub artifact_hash: String,
    pub submission_attempts: Vec<SubmissionAttempt>,
    pub audit_log_hash: String,
    pub approval_trail: Option<JsonDocument>,
}

/// An evidence pack.
#[derive(Debug)]
pub struct EvidencePack {
    pub pack_id: String,
    pub created_at: String,
    pub contents: EvidenceContents,
    pub hash: String,
}

/// The name `Debug` gives a submission status.
pub open spec fn status_name(s: SubmissionStatus) -> Seq<char> {
    match s {
        SubmissionStatus::Pending => "Pending"@,
        SubmissionStatus::Generating => "Generating"@,
        SubmissionStatus::Submitting => "Submitting"@,
        SubmissionStatus::Submitted => "Submitted"@,
        SubmissionStatus::Acknowledged => "Acknowledged"@,
        SubmissionStatus::Rejected => "Rejected"@,
        SubmissionStatus::PendingRetry => "PendingRetry"@,
        SubmissionStatus::Failed => "Failed"@,
        SubmissionStatus::Escalated => "Escalated"@,
    }
}

/// The event type that closes an audit trail.
pub open spec fn final_event_type(s: SubmissionStatus) -> Seq<char> {
    match s {
        SubmissionStatus::Acknowledged | SubmissionStatus::Submitted => "submission_success"@,
        SubmissionStatus::Rejected => "submission_rejected"@,
        SubmissionStatus::Escalated => "submission_escalated"@,
        SubmissionStatus::Failed => "submission_failed"@,
        SubmissionStatus::Pending => "submission_pending"@,
        SubmissionStatus::Generating => "submission_generating"@,
        SubmissionStatus::Submitting => "submission_submitting"@,
        SubmissionStatus::PendingRetry => "submission_pendingretry"@,
    }
}

/// The event type of an attempt.
pub open spec fn attempt_event_type(s: AttemptStatus) -> Seq<char> {
    match s {
        AttemptStatus::Success => "attempt_success"@,
        AttemptStatus::Timeout => "attempt_timeout"@,
        AttemptStatus::Rejected => "attempt_rejected"@,
        AttemptStatus::Error => "attempt_error"@,
    }
}

/// The entries of an object document.
pub open spec fn object_entries(d: JsonDocument) -> Option<Seq<(Seq<char>, JsonValue)>> {
    match d {
        JsonDocument::Object(v) => Some(entries_view(v@)),
        _ => None,
    }
}

/// Whether an entry holds the string `text` under `key`.
pub open spec fn str_entry(e: (Seq<char>, JsonValue), key: Seq<char>, text: Seq<char>) -> bool {
    e.0 == key && e.1.spec_as_str() == Some(text)
}

/// Whether an event has this type, time and details, by the engine.
pub open spec fn event_is(e: AuditEvent, event_type: Seq<char>, time: Seq<char>) -> bool {
    e.event_type@ == event_type && e.timestamp@ == time && e.actor@ == "engine"@
}

/// Whether `e` records the attempt `a`: its number, duration, status code
/// (or null) and correlation id.
pub open spec fn attempt_event(e: AuditEvent, a: AttemptView) -> bool {
    &&& event_is(e, attempt_event_type(a.status), a.timestamp)
    &&& object_entries(e.details) matches Some(d) && d.len() == 4 && d[0] == (
        "attempt"@,
        JsonValue::Number(u64_number(a.attempt_number as u64)),
    ) && d[1] == ("duration_ms"@, JsonValue::Number(u64_number(a.duration_ms))) && d[2] == (
        "response_code"@,
        match a.response_code {
            Some(c) => JsonValue::Number(u64_number(c as u64)),
            None => JsonValue::Null,
        },
    ) && str_entry(d[3], "correlation_id"@, a.correlation_id)
}

/// Whether `events` is the audit trail of a submission: started at
/// `started`, its artifact made at `made`, one event per attempt, and the
/// final status at `ended`.
pub open spec fn audit_trail(
    events: Seq<AuditEvent>,
    submission_id: Seq<char>,
    status: SubmissionStatus,
    attempts: Seq<AttemptView>,
    started: Seq<char>,
    made: Seq<char>,
    ended: Seq<char>,
) -> bool {
    &&& events.len() == attempts.len() + 3
    &&& event_is(events[0], "submission_started"@, started)
    &&& object_entries(events[0].details) matches Some(d) && d.len() == 1 && str_entry(
        d[0],
        "submission_id"@,
        submission_id,
    )
    &&& event_is(events[1], "artifact_generated"@, made)
    &&& object_entries(events[1].details) matches Some(d) && d.len() == 2 && str_entry(
        d[0],
        "submission_id"@,
        submission_id,
    ) && str_entry(d[1], "format"@, "XML"@)
    &&& forall|i: int| 0 <= i < attempts.len() ==> attempt_event(#[trigger] events[i + 2], attempts[i])
    &&& event_is(events[attempts.len() + 2int], final_event_type(status), ended)
    &&& object_entries(events[attempts.len() + 2int].details) matches Some(d) && d.len() == 2 && str_entry(
        d[0],
        "final_status"@,
        status_name(status),
    ) && d[1] == ("total_attempts"@, JsonValue::Number(u64_number(attempts.len() as u64)))
}

/// The name `Debug` gives a submission status.
fn status_text(s: SubmissionStatus) -> (r: &'static str)
    ensures
        r@ == status_name(s),
{
    match s {
        SubmissionStatus::Pending => "Pending",
        SubmissionStatus::Generating => "Generating",
        SubmissionStatus::Submitting => "Submitting",
        SubmissionStatus::Submitted => "Submitted",
        SubmissionStatus::Acknowledged => "Acknowledged",
        SubmissionStatus::Rejected => "Rejected",
        SubmissionStatus::PendingRetry => "PendingRetry",
        SubmissionStatus::Failed => "Failed",
        SubmissionStatus::Escalated => "Escalated",
    }
}

/// The event type that closes an audit trail.
fn final_type(s: SubmissionStatus) -> (r: &'static str)
    ensures
        r@ == final_event_type(s),
{
    match s {
        SubmissionStatus::Acknowledged | SubmissionStatus::Submitted => "submission_success",
        SubmissionStatus::Rejected => "submission_rejected",
        SubmissionStatus::Escalated => "submission_escalated",
        SubmissionStatus::Failed => "submission_failed",
        SubmissionStatus::Pending => "submission_pending",
        SubmissionStatus::Generating => "submission_generating",
        SubmissionStatus::Submitting => "submission_submitting",
        SubmissionStatus::PendingRetry => "submission_pendingretry",
    }
}

/// The event type of an attempt.
fn attempt_type(s: AttemptStatus) -> (r: &'static str)
    ensures
        r@ == attempt_event_type(s),
{
    match s {
        AttemptStatus::Success => "attempt_success",
        AttemptStatus::Timeout => "attempt_timeout",
        AttemptStatus::Rejected => "attempt_rejected",
        AttemptStatus::Error => "attempt_error",
    }
}

/// An event by the engine.
fn engine_event(event_type: &str, timestamp: &String, details: Vec<(String, JsonValue)>) -> (r: AuditEvent)
    ensures
        event_is(r, event_type@, timestamp@),
        object_entries(r.details) == Some(entries_view(details@)),
{
    AuditEvent {
        event_type: owned(event_type),
        timestamp: timestamp.clone(),
        actor: owned("engine"),
        details: JsonDocument::Object(details),
    }
}

/// The audit trail of a submission with these attempts, its events stamped
/// `started`, `made` and `ended`.
pub fn audit_events_at(
    submission_id: &str,
    status: SubmissionStatus,
    attempts: &Vec<SubmissionAttempt>,
    started: &String,
    made: &String,
    ended: &String,
) -> (r: Vec<AuditEvent>)
    ensures
        audit_trail(r@, submission_id@, status, attempts_view(attempts@), started@, made@, ended@),
{
    let mut events: Vec<AuditEvent> = Vec::new();
    let mut d0: Vec<(String, JsonValue)> = Vec::new();
    d0.push((owned("submission_id"), JsonValue::from_str(submission_id)));
    events.push(engine_event("submission_started", started, d0));
    let mut d1: Vec<(String, JsonValue)> = Vec::new();
    d1.push((owned("submission_id"), JsonValue::from_str(submission_id)));
    d1.push((owned("format"), JsonValue::from_str("XML")));
    events.push(engine_event("artifact_generated", made, d1));
    let ghost av = attempts_view(attempts@);
    let mut i: usize = 0;
    while i < attempts.len()
        invariant
            i <= attempts.len(),
            av == attempts_view(attempts@),
            events@.len() == i + 2,
            event_is(events@[0], "submission_started"@, started@),
            object_entries(events@[0].details) matches Some(d) && d.len() == 1 && str_entry(
                d[0],
                "submission_id"@,
                submission_id@,
            ),
            event_is(events@[1], "artifact_generated"@, made@),
            object_entries(events@[1].details) matches Some(d) && d.len() == 2 && str_entry(
                d[0],
                "submission_id"@,
                submission_id@,
            ) && str_entry(d[1], "format"@, "XML"@),
            forall|k: int| 0 <= k < i ==> attempt_event(#[trigger] events@[k + 2], av[k]),
        decreases attempts.len() - i,
    {
        let a = &attempts[i];
        assert(av[i as int] == a@);
        let mut d: Vec<(String, JsonValue)> = Vec::new();
        d.push((owned("attempt"), JsonValue::from_u64(a.attempt_number as u64)));
        d.push((owned("duration_ms"), JsonValue::from_u64(a.duration_ms)));
        let code = match a.response_code {
            Some(c) => JsonValue::from_u64(c as u64),
            None => JsonValue::Null,
        };
        d.push((owned("response_code"), code));
        d.push((owned("correlation_id"), JsonValue::from_str(a.correlation_id.as_str())));
        events.push(engine_event(attempt_type(a.status), &a.timestamp, d));
        i = i + 1;
    }
    let mut dn: Vec<(String, JsonValue)> = Vec::new();
    dn.push((owned("final_status"), JsonValue::from_str(status_text(status))));
    dn.push((owned("total_attempts"), JsonValue::from_u64(attempts.len() as u64)));
    events.push(engine_event(final_type(status), ended, dn));
    events
}

/// The audit trail of a submission with these attempts, its events stamped
/// with the current time.
pub fn generate_audit_events(submission_id: &str, status: SubmissionStatus, attempts: &Vec<SubmissionAttempt>) -> (r: Vec<
    AuditEvent,
>)
    ensures
        exists|a: Timestamp, b: Timestamp, c: Timestamp|
            audit_trail(
                r@,
                submission_id@,
                status,
                attempts_view(attempts@),
                rfc3339_text(a.secs, a.nanos),
                rfc3339_text(b.secs, b.nanos),
                rfc3339_text(c.secs, c.nanos),
            ),
{
    let a = now();
    let started = to_rfc3339(a);
    let b = now();
    let made = to_rfc3339(b);
    let c = now();
    let ended = to_rfc3339(c);
    audit_events_at(submission_id, status, attempts, &started, &made, &ended)
}

/// The name `Debug` gives an attempt status.
pub open spec fn attempt_status_debug(s: AttemptStatus) -> Seq<char> {
    match s {
        AttemptStatus::Success => "Success"@,
        AttemptStatus::Timeout => "Timeout"@,
        AttemptStatus::Rejected => "Rejected"@,
        AttemptStatus::Error => "Error"@,
    }
}

/// The text `Debug` gives an optional response code.
pub open spec fn code_debug(c: Option<u16>) -> Seq<char> {
    match c {
        Some(v) => "Some("@ + decimal(v as nat) + ")"@,
        None => "None"@,
    }
}

/// The text `Debug` gives an optional text.
pub open spec fn opt_text_debug(t: Option<Seq<char>>) -> Seq<char> {
    match t {
        Some(s) => "Some("@ + debug_text(s) + ")"@,
        None => "None"@,
    }
}

/// The text the derived `Debug` gives an attempt: the struct's name and
/// each field in order, numbers in decimal, texts quoted and escaped.
pub open spec fn attempt_debug_text(a: AttemptView) -> Seq<char> {
    "SubmissionAttempt { attempt_number: "@ + decimal(a.attempt_number as nat) + ", timestamp: "@ + debug_text(
        a.timestamp,
    ) + ", status: "@ + attempt_status_debug(a.status) + ", response_code: "@ + code_debug(a.response_code)
        + ", response_message: "@ + opt_text_debug(a.response_message) + ", correlation_id: "@ + debug_text(
        a.correlation_id,
    ) + ", duration_ms: "@ + decimal(a.duration_ms as nat) + " }"@
}

/// The first `n` attempts as `Debug` lists them, separated by `, `.
pub open spec fn attempts_listed(attempts: Seq<AttemptView>, n: nat) -> Seq<char>
    decreases n,
{
    if n == 0 {
        Seq::empty()
    } else if n == 1 {
        attempt_debug_text(attempts[0])
    } else {
        attempts_listed(attempts, (n - 1) as nat) + ", "@ + attempt_debug_text(attempts[n - 1])
    }
}

/// The text `Debug` gives a list of attempts: `[`, the attempts separated
/// by `, `, and `]`.
pub open spec fn attempts_debug_text(attempts: Seq<AttemptView>) -> Seq<char> {
    "["@ + attempts_listed(attempts, attempts.len()) + "]"@
}

/// The text the derived `Debug` gives evidence contents without an
/// approval trail.
pub open spec fn contents_debug_text(
    run_id: Seq<char>,
    dataset_version: Seq<char>,
    artifact_hash: Seq<char>,
    attempts: Seq<AttemptView>,
    audit_log_hash: Seq<char>,
) -> Seq<char> {
    "EvidenceContents { run_id: "@ + debug_text(run_id) + ", dataset_version: "@ + debug_text(dataset_version)
        + ", artifact_hash: "@ + debug_text(artifact_hash) + ", submission_attempts: "@ + attempts_debug_text(attempts)
        + ", audit_log_hash: "@ + debug_text(audit_log_hash) + ", approval_trail: None }"@
}

/// Appends a number in decimal.
fn push_decimal(out: &mut String, n: u64)
    ensures
        final(out)@ == old(out)@ + decimal(n as nat),
{
    let d = decimal_string(n);
    push_str(out, d.as_str());
}

/// Appends the name `Debug` gives an attempt status.
fn push_status_debug(out: &mut String, s: AttemptStatus)
    ensures
        final(out)@ == old(out)@ + attempt_status_debug(s),
{
    match s {
        AttemptStatus::Success => push_str(out, "Success"),
        AttemptStatus::Timeout => push_str(out, "Timeout"),
        AttemptStatus::Rejected => push_str(out, "Rejected"),
        AttemptStatus::Error => push_str(out, "Error"),
    }
}

/// Appends the text `Debug` gives an optional response code.
fn push_code_debug(out: &mut String, c: Option<u16>)
    ensures
        final(out)@ == old(out)@ + code_debug(c),
{
    match c {
        Some(v) => {
            let ghost start = out@;
            push_str(out, "Some(");
            push_decimal(out, v as u64);
            push_str(out, ")");
            assert(out@ =~= start + code_debug(c));
        },
        None => push_str(out, "None"),
    }
}

/// Appends the text `Debug` gives an optional text.
fn push_opt_text_debug(out: &mut String, t: &Option<String>)
    ensures
        final(out)@ == old(out)@ + opt_text_debug(opt_view(*t)),
{
    match t {
        Some(m) => {
            let ghost start = out@;
            push_str(out, "Some(");
            push_debug_text(out, m.as_str());
            push_str(out, ")");
            assert(out@ =~= start + opt_text_debug(opt_view(*t)));
        },
        None => push_str(out, "None"),
    }
}

/// Appends the text `Debug` gives an attempt.
#[verifier::rlimit(40)]
fn push_attempt_debug(out: &mut String, a: &SubmissionAttempt)
    ensures
        final(out)@ == old(out)@ + attempt_debug_text(a@),
{
    let ghost start = out@;
    push_str(out, "SubmissionAttempt { attempt_number: ");
    push_decimal(out, a.attempt_number as u64);
    push_str(out, ", timestamp: ");
    push_debug_text(out, a.timestamp.as_str());
    push_str(out, ", status: ");
    push_status_debug(out, a.status);
    push_str(out, ", response_code: ");
    push_code_debug(out, a.response_code);
    push_str(out, ", response_message: ");
    push_opt_text_debug(out, &a.response_message);
    push_str(out, ", correlation_id: ");
    push_debug_text(out, a.correlation_id.as_str());
    push_str(out, ", duration_ms: ");
    push_decimal(out, a.duration_ms);
    push_str(out, " }");
    assert(out@ =~= start + attempt_debug_text(a@));
}

/// Appends the text `Debug` gives a list of attempts.
fn push_attempts_debug(out: &mut String, attempts: &Vec<SubmissionAttempt>)
    ensures
        final(out)@ == old(out)@ + attempts_debug_text(attempts_view(attempts@)),
{
    let ghost start = out@;
    let ghost av = attempts_view(attempts@);
    push_str(out, "[");
    let ghost head = out@;
    let mut i: usize = 0;
    assert(head + attempts_listed(av, 0) =~= head);
    while i < attempts.len()
        invariant
            i <= attempts.len(),
            av == attempts_view(attempts@),
            head == start + "["@,
            out@ == head + attempts_listed(av, i as nat),
        decreases attempts.len() - i,
    {
        let ghost before = out@;
        if i > 0 {
            push_str(out, ", ");
        }
        push_attempt_debug(out, &attempts[i]);
        assert(av[i as int] == attempts@[i as int]@);
        if i == 0 {
            assert(out@ =~= head + attempts_listed(av, 1));
        } else {
            assert(out@ =~= head + attempts_listed(av, (i + 1) as nat));
        }
        i = i + 1;
    }
    push_str(out, "]");
    assert(out@ =~= start + attempts_debug_text(av));
}

/// `format!("{:?}", attempts)`: the text the derived `Debug` gives a list
/// of attempts.
pub fn debug_attempts(attempts: &Vec<SubmissionAttempt>) -> (r: String)
    ensures
        r@ == attempts_debug_text(attempts_view(attempts@)),
{
    let mut out = String::new();
    push_attempts_debug(&mut out, attempts);
    assert(out@ =~= attempts_debug_text(attempts_view(attempts@)));
    out
}

/// `format!("{:?}", contents)`: the text the derived `Debug` gives evidence
/// contents without an approval trail.
pub fn debug_contents(contents: &EvidenceContents) -> (r: String)
    requires
        contents.approval_trail is None,
    ensures
        r@ == contents_debug_text(
            contents.run_id@,
            contents.dataset_version@,
            contents.artifact_hash@,
            attempts_view(contents.submission_attempts@),
            contents.audit_log_hash@,
        ),
{
    let mut out = String::new();
    let ghost start = out@;
    push_str(&mut out, "EvidenceContents { run_id: ");
    push_debug_text(&mut out, contents.run_id.as_str());
    push_str(&mut out, ", dataset_version: ");
    push_debug_text(&mut out, contents.dataset_version.as_str());
    push_str(&mut out, ", artifact_hash: ");
    push_debug_text(&mut out, contents.artifact_hash.as_str());
    push_str(&mut out, ", submission_attempts: ");
    push_attempts_debug(&mut out, &contents.submission_attempts);
    push_str(&mut out, ", audit_log_hash: ");
    push_debug_text(&mut out, contents.audit_log_hash.as_str());
    push_str(&mut out, ", approval_trail: None }");
    assert(start =~= Seq::<char>::empty());
    assert(out@ =~= contents_debug_text(
        contents.run_id@,
        contents.dataset_version@,
        contents.artifact_hash@,
        attempts_view(contents.submission_attempts@),
        contents.audit_log_hash@,
    ));
    out
}

/// Whether `p` is the evidence pack of a run: named from `uuid`, made at
/// `created`, holding the run's id, dataset version, artifact hash and
/// attempts, with digests of the attempts and of the whole contents.
pub open spec fn evidence_of(
    p: EvidencePack,
    req: SubmissionRequest,
    artifact_hash: Seq<char>,
    attempts: Seq<AttemptView>,
    uuid: Seq<char>,
    created: Timestamp,
) -> bool {
    let log_hash = md5_hex(vstd::utf8::encode_utf8(attempts_debug_text(attempts)));
    &&& p.pack_id@ == short_id("EVP-"@, uuid)
    &&& p.created_at@ == rfc3339_text(created.secs, created.nanos)
    &&& p.contents.run_id@ == req.submission_id@
    &&& p.contents.dataset_version@ == req.locked_dataset_version@
    &&& p.contents.artifact_hash@ == artifact_hash
    &&& attempts_view(p.contents.submission_attempts@) == attempts
    &&& p.contents.audit_log_hash@ == log_hash
    &&& p.contents.approval_trail is None
    &&& p.hash@ == md5_hex(
        vstd::utf8::encode_utf8(
            contents_debug_text(req.submission_id@, req.locked_dataset_version@, artifact_hash, attempts, log_hash),
        ),
    )
}

/// The evidence pack of a run, named from `uuid` and made at `created`.
pub fn evidence_pack_at(
    request: &SubmissionRequest,
    artifact: &Artifact,
    attempts: &Vec<SubmissionAttempt>,
    uuid: &str,
    created: Timestamp,
) -> (r: EvidencePack)
    requires
        uuid@.len() >= 8,
        forall|i: int| 0 <= i < 8 ==> is_uuid_char(#[trigger] uuid@[i]),
        valid_timestamp(created),
    ensures
        evidence_of(r, *request, artifact.artifact_hash@, attempts_view(attempts@), uuid@, created),
{
    let pack_id = short_id_of("EVP-", uuid);
    let log_text = debug_attempts(attempts);
    let contents = EvidenceContents {
        run_id: request.submission_id.clone(),
        dataset_version: request.locked_dataset_version.clone(),
        artifact_hash: artifact.artifact_hash.clone(),
        submission_attempts: clone_attempts(attempts),
        audit_log_hash: md5_hex_of(log_text.as_str()),
        approval_trail: None,
    };
    let contents_text = debug_contents(&contents);
    let hash = md5_hex_of(contents_text.as_str());
    EvidencePack { pack_id, created_at: to_rfc3339(created), contents, hash }
}

/// The evidence pack of a run, with a fresh identifier, made now.
pub fn generate_evidence_pack(request: &SubmissionRequest, artifact: &Artifact, attempts: &Vec<SubmissionAttempt>) -> (r:
    EvidencePack)
    ensures
        exists|uuid: Seq<char>, created: Timestamp|
            uuid.len() == 36 && valid_timestamp(created) && evidence_of(
                r,
                *request,
                artifact.artifact_hash@,
                attempts_view(attempts@),
                uuid,
                created,
            ),
{
    let uuid = new_uuid();
    let created = now();
    evidence_pack_at(request, artifact, attempts, uuid.as_str(), created)
}


// ============================================================================
// The regulator submission
// ============================================================================

/// The double 12.5, the interest rate of the sample records.
pub open spec fn sample_rate() -> JsonNumber {
    JsonNumber { order_key: 0x4029_0000_0000_0000, unsigned: None, signed: None }
}

/// Whether a document is the `i`-th sample record sent to the regulator.
pub open spec fn sample_record(doc: JsonDocument, i: nat) -> bool {
    &&& object_entries(doc) matches Some(d) && d.len() == 11 && str_entry(
        d[0],
        "id"@,
        "REC-"@ + zero_pad(decimal(i), 6),
    ) && str_entry(d[1], "nik"@, "32050219900"@ + zero_pad(decimal(i), 5)) && str_entry(
        d[2],
        "nama_lengkap"@,
        "Test User "@ + decimal(i),
    ) && str_entry(d[3], "jenis_fasilitas"@, "KMK"@) && d[4] == (
        "jumlah_kredit"@,
        JsonValue::Number(u64_number(10000000)),
    ) && str_entry(d[5], "mata_uang"@, "IDR"@) && d[6] == ("suku_bunga"@, JsonValue::Number(sample_rate()))
        && str_entry(d[7], "tanggal_mulai"@, "2024-01-01"@) && str_entry(d[8], "tanggal_jatuh_tempo"@, "2025-01-01"@)
        && d[9] == ("saldo_outstanding"@, JsonValue::Number(u64_number(8000000))) && d[10] == (
        "kolektabilitas"@,
        JsonValue::Number(u64_number(1)),
    )
}

/// A prefix followed by a number zero-padded to `width` digits.
fn padded(prefix: &str, n: u64, width: usize) -> (r: String)
    ensures
        r@ == prefix@ + zero_pad(decimal(n as nat), width as nat),
{
    let mut s = owned(prefix);
    let digits = zero_padded(n, width);
    push_str(&mut s, digits.as_str());
    s
}

/// The `i`-th sample record sent to the regulator.
fn sample(i: u64) -> (r: JsonDocument)
    ensures
        sample_record(r, i as nat),
{
    let mut d: Vec<(String, JsonValue)> = Vec::new();
    d.push((owned("id"), JsonValue::Str(padded("REC-", i, 6))));
    d.push((owned("nik"), JsonValue::Str(padded("32050219900", i, 5))));
    let mut name = owned("Test User ");
    let digits = decimal_string(i);
    push_str(&mut name, digits.as_str());
    d.push((owned("nama_lengkap"), JsonValue::Str(name)));
    d.push((owned("jenis_fasilitas"), JsonValue::from_str("KMK")));
    d.push((owned("jumlah_kredit"), JsonValue::from_u64(10000000)));
    d.push((owned("mata_uang"), JsonValue::from_str("IDR")));
    d.push(
        (
            owned("suku_bunga"),
            JsonValue::Number(JsonNumber { order_key: 0x4029_0000_0000_0000, unsigned: None, signed: None }),
        ),
    );
    d.push((owned("tanggal_mulai"), JsonValue::from_str("2024-01-01")));
    d.push((owned("tanggal_jatuh_tempo"), JsonValue::from_str("2025-01-01")));
    d.push((owned("saldo_outstanding"), JsonValue::from_u64(8000000)));
    d.push((owned("kolektabilitas"), JsonValue::from_u64(1)));
    JsonDocument::Object(d)
}

/// The body sent to the regulator for a submission and its artifact: the
/// submission id, the period `202501`, the bank `BANK001`, up to ten sample
/// records, and the artifact's hash and format and the dataset version as
/// metadata.
pub fn regulator_request(request: &SubmissionRequest, artifact: &Artifact) -> (r: RegulatorSubmission)
    ensures
        r.submission_id matches Some(id) && id@ == request.submission_id@,
        r.reporting_period@ == "202501"@,
        r.bank_code@ == "BANK001"@,
        r.records@.len() == (if artifact.row_count <= 10 {
            artifact.row_count
        } else {
            10
        }),
        forall|i: int| 0 <= i < r.records@.len() ==> sample_record(#[trigger] r.records@[i], i as nat),
        r.metadata matches Some(m) && entries_view(m@).len() == 3 && str_entry(
            entries_view(m@)[0],
            "artifact_hash"@,
            artifact.artifact_hash@,
        ) && str_entry(entries_view(m@)[1], "format"@, artifact.format@) && str_entry(
            entries_view(m@)[2],
            "dataset_version"@,
            request.locked_dataset_version@,
        ),
{
    let n: u64 = if artifact.row_count <= 10 {
        artifact.row_count
    } else {
        10
    };
    let mut records: Vec<JsonDocument> = Vec::new();
    let mut i: u64 = 0;
    while i < n
        invariant
            i <= n <= 10,
            records@.len() == i,
            forall|k: int| 0 <= k < i ==> sample_record(#[trigger] records@[k], k as nat),
        decreases n - i,
    {
        records.push(sample(i));
        i = i + 1;
    }
    let mut m: Vec<(String, JsonValue)> = Vec::new();
    m.push((owned("artifact_hash"), JsonValue::from_str(artifact.artifact_hash.as_str())));
    m.push((owned("format"), JsonValue::from_str(artifact.format.as_str())));
    m.push((owned("dataset_version"), JsonValue::from_str(request.locked_dataset_version.as_str())));
    RegulatorSubmission {
        submission_id: Some(request.submission_id.clone()),
        reporting_period: owned("202501"),
        bank_code: owned("BANK001"),
        records,
        metadata: Some(m),
    }
}

// ============================================================================
// Engine state
// ============================================================================

/// The answer to a webhook submission.
#[derive(Debug)]
pub struct SubmissionResponse {
    pub execution_id: String,
    pub submission_id: String,
    pub status: SubmissionStatus,
    pub artifact: Option<Artifact>,
    pub attempts: Vec<SubmissionAttempt>,
    pub evidence_pack: Option<EvidencePack>,
    pub audit_events: Vec<AuditEvent>,
    pub duration_ms: u64,
}

/// A failed submission waiting in the dead-letter queue.
#[derive(Debug)]
pub struct DlqEntry {
    pub submission_id: String,
    pub reason: String,
    pub timestamp: String,
    pub attempts: u32,
    pub last_error: String,
}

/// The engine's record of submissions and of its dead-letter queue.
#[derive(Debug)]
pub struct EngineState {
    /// The submissions, in the order their ids first came in
    pub submissions: Vec<SubmissionResponse>,
    pub dlq: Vec<DlqEntry>,
}

/// The ids of a list of submissions.
pub open spec fn response_ids(v: Seq<SubmissionResponse>) -> Seq<Seq<char>> {
    v.map_values(|r: SubmissionResponse| r.submission_id@)
}

/// The ids of the dead-letter entries.
pub open spec fn dlq_ids(v: Seq<DlqEntry>) -> Seq<Seq<char>> {
    v.map_values(|e: DlqEntry| e.submission_id@)
}

/// Whether a submission in this status goes to the dead-letter queue.
pub open spec fn goes_to_dlq(s: SubmissionStatus) -> bool {
    s == SubmissionStatus::Escalated || s == SubmissionStatus::Failed
}

/// Whether `e` is the dead-letter entry of a response: the reason given (or
/// `Unknown`), the time, the number of attempts, and the last attempt's
/// message (or `No error`).
pub open spec fn dlq_entry_of(e: DlqEntry, resp: SubmissionResponse, reason: Option<Seq<char>>, time: Seq<char>) -> bool {
    let a = attempts_view(resp.attempts@);
    &&& e.submission_id@ == resp.submission_id@
    &&& e.reason@ == match reason {
        Some(r) => r,
        None => "Unknown"@,
    }
    &&& e.timestamp@ == time
    &&& e.attempts == a.len() as u32
    &&& e.last_error@ == (if a.len() > 0 && a.last().response_message is Some {
        a.last().response_message->0
    } else {
        "No error"@
    })
}

/// The submission a status lookup of `id` finds: the first one with that id.
pub open spec fn lookup_submission(subs: Seq<SubmissionResponse>, id: Seq<char>) -> Option<SubmissionResponse> {
    match position_of(response_ids(subs), id) {
        Some(i) => Some(subs[i]),
        None => None,
    }
}

/// Read after write: a completed submission, stored in place of the one
/// with its id or after the others, is what a status lookup of its id finds
/// afterwards, and a lookup of any other id finds what it found before.
pub proof fn law_completed_submission_is_found(
    pre: Seq<SubmissionResponse>,
    post: Seq<SubmissionResponse>,
    response: SubmissionResponse,
    other: Seq<char>,
)
    requires
        match position_of(response_ids(pre), response.submission_id@) {
            Some(i) => post == pre.update(i, response),
            None => post == pre.push(response),
        },
        other != response.submission_id@,
    ensures
        lookup_submission(post, response.submission_id@) == Some(response),
        lookup_submission(post, other) == lookup_submission(pre, other),
{
    let id = response.submission_id@;
    let ids = response_ids(pre);
    let pids = response_ids(post);
    lemma_position_of(ids, id);
    lemma_position_of(ids, other);
    match position_of(ids, id) {
        Some(i) => {
            assert(pids =~= ids.update(i, id));
            assert(pids =~= ids);
        },
        None => {
            assert(pids =~= ids.push(id));
            lemma_position_of(pids, id);
            assert(pids[ids.len() as int] == id);
            lemma_position_of(pids, other);
            match position_of(ids, other) {
                Some(k) => {
                    assert(pids[k] == ids[k]);
                },
                None => {},
            }
            match position_of(pids, other) {
                Some(k) => {
                    assert(k < ids.len());
                    assert(pids[k] == ids[k]);
                },
                None => {},
            }
        },
    }
}

impl EngineState {
    /// An engine with no submissions.
    pub fn new() -> (r: Self)
        ensures
            r.submissions@.len() == 0,
            r.dlq@.len() == 0,
    {
        EngineState { submissions: Vec::new(), dlq: Vec::new() }
    }

    /// The position of the submission with id `id`.
    fn index_of(&self, id: &str) -> (r: Option<usize>)
        ensures
            r matches Some(i) ==> position_of(response_ids(self.submissions@), id@) == Some(i as int) && i
                < self.submissions@.len(),
            r is None ==> position_of(response_ids(self.submissions@), id@) is None,
    {
        let ghost ids = response_ids(self.submissions@);
        proof {
            lemma_position_of(ids, id@);
        }
        let mut i: usize = 0;
        assert(ids.skip(0) =~= ids);
        while i < self.submissions.len()
            invariant
                i <= self.submissions.len(),
                ids == response_ids(self.submissions@),
                position_of(ids, id@) == (match position_of(ids.skip(i as int), id@) {
                    Some(j) => Some(j + i),
                    None => None::<int>,
                }),
            decreases self.submissions.len() - i,
        {
            assert(ids.skip(i as int)[0] == ids[i as int]);
            assert(ids.skip(i as int).drop_first() =~= ids.skip(i + 1));
            if str_eq(self.submissions[i].submission_id.as_str(), id) {
                return Some(i);
            }
            i = i + 1;
        }
        None
    }

    /// The submission with id `id`.
    pub fn get_submission(&self, id: &str) -> (r: Option<&SubmissionResponse>)
        ensures
            r matches Some(s) ==> position_of(response_ids(self.submissions@), id@) matches Some(i) && *s
                == self.submissions@[i],
            r is None ==> position_of(response_ids(self.submissions@), id@) is None,
            r matches Some(s) ==> lookup_submission(self.submissions@, id@) == Some(*s),
            r is None ==> lookup_submission(self.submissions@, id@) is None,
    {
        match self.index_of(id) {
            Some(i) => Some(&self.submissions[i]),
            None => None,
        }
    }

    /// Records a finished submission: it replaces the one with the same id
    /// or comes after the others, and when it escalated or failed an entry
    /// for it joins the dead-letter queue.
    pub fn complete_submission(&mut self, response: SubmissionResponse, error_reason: Option<String>, timestamp: String)
        ensures
            ({
                let ids = response_ids(old(self).submissions@);
                match position_of(ids, response.submission_id@) {
                    Some(i) => final(self).submissions@ == old(self).submissions@.update(i, response),
                    None => final(self).submissions@ == old(self).submissions@.push(response),
                }
            }),
            goes_to_dlq(response.status) ==> final(self).dlq@.len() == old(self).dlq@.len() + 1
                && final(self).dlq@.take(old(self).dlq@.len() as int) == old(self).dlq@ && dlq_entry_of(
                final(self).dlq@.last(),
                response,
                opt_view(error_reason),
                timestamp@,
            ),
            !goes_to_dlq(response.status) ==> final(self).dlq@ == old(self).dlq@,
    {
        let ghost old_subs = self.submissions@;
        let ghost resp = response;
        let entry = if response.status == SubmissionStatus::Escalated || response.status == SubmissionStatus::Failed {
            let reason = match error_reason {
                Some(r) => r,
                None => owned("Unknown"),
            };
            let n = response.attempts.len();
            let last_error = if n > 0 {
                match &response.attempts[n - 1].response_message {
                    Some(m) => m.clone(),
                    None => owned("No error"),
                }
            } else {
                owned("No error")
            };
            proof {
                if n > 0 {
                    assert(attempts_view(response.attempts@).last() == response.attempts@[n - 1]@);
                }
            }
            Some(
                DlqEntry {
                    submission_id: response.submission_id.clone(),
                    reason,
                    timestamp,
                    attempts: n as u32,
                    last_error,
                },
            )
        } else {
            None
        };
        match self.index_of(response.submission_id.as_str()) {
            Some(i) => {
                self.submissions.set(i, response);
            },
            None => {
                self.submissions.push(response);
            },
        }
        if let Some(e) = entry {
            let ghost old_dlq = self.dlq@;
            self.dlq.push(e);
            assert(self.dlq@.take(old_dlq.len() as int) =~= old_dlq);
        }
    }

    /// Takes the entry of a submission out of the dead-letter queue to retry
    /// it; answers whether there was one.
    pub fn retry_dlq_entry(&mut self, submission_id: &str) -> (r: bool)
        ensures
            r == (position_of(dlq_ids(old(self).dlq@), submission_id@) is Some),
            position_of(dlq_ids(old(self).dlq@), submission_id@) matches Some(i) ==> final(self).dlq@ == old(
                self,
            ).dlq@.remove(i),
            position_of(dlq_ids(old(self).dlq@), submission_id@) is None ==> final(self).dlq@ == old(self).dlq@,
            final(self).submissions == old(self).submissions,
    {
        let ghost ids = dlq_ids(self.dlq@);
        proof {
            lemma_position_of(ids, submission_id@);
        }
        let mut i: usize = 0;
        assert(ids.skip(0) =~= ids);
        while i < self.dlq.len()
            invariant
                i <= self.dlq.len(),
                ids == dlq_ids(self.dlq@),
                self.dlq@ == old(self).dlq@,
                self.submissions == old(self).submissions,
                position_of(ids, submission_id@) == (match position_of(ids.skip(i as int), submission_id@) {
                    Some(j) => Some(j + i),
                    None => None::<int>,
                }),
            decreases self.dlq.len() - i,
        {
            assert(ids.skip(i as int)[0] == ids[i as int]);
            assert(ids.skip(i as int).drop_first() =~= ids.skip(i + 1));
            if str_eq(self.dlq[i].submission_id.as_str(), submission_id) {
                self.dlq.remove(i);
                return true;
            }
            i = i + 1;
        }
        false
    }

    /// The number of submissions and of dead-letter entries.
    pub fn metrics(&self) -> (r: (usize, usize))
        ensures
            r.0 == self.submissions@.len(),
            r.1 == self.dlq@.len(),
    {
        (self.submissions.len(), self.dlq.len())
    }
}

} // verus!
