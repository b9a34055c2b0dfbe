//! The regulator (OJK/SLIK) submission endpoint: response modes,
//! idempotency, reference numbers and the submission store.

use vstd::prelude::*;
use crate::clock::{
    Timestamp, valid_timestamp, later_than, rfc3339_text, compact_datetime_text, now, utc_hour,
    to_rfc3339, to_compact_datetime, random_u64, new_uuid,
};
use crate::common::{FailureReply, SimulatorStats, failure_reply};
use crate::config::{FailureType, OffPeakConfig, Ratio, RegulatorEndpointConfig, RegulatorMode};
use crate::json::{JsonDocument, JsonValue, entries_view, u64_number, opt_entries};
use crate::text::{opt_view, decimal, zero_pad, owned, push_str, str_eq, zero_padded, lemma_zero_pad_decimal_injective};

verus! {

// ============================================================================
// Data models
// ============================================================================

/// Submission status.
#[derive(Clone, Copy, Debug, PartialEq, Eq, Structural)]
pub enum SubmissionStatus {
    /// Submission accepted and processed
    Accepted,
    /// Submission partially accepted (some records rejected)
    PartiallyAccepted,
    /// Submission rejected
    Rejected,
    /// Submission queued for processing
    Queued,
    /// Submission is being processed
    Processing,
    /// Submission failed
    Failed,
}

/// Record rejection details.
#[derive(Debug)]
pub struct RecordRejection {
    /// Record index in the submission
    pub record_index: usize,
    /// Record ID if available
    pub record_id: Option<String>,
    /// Rejection error code
    pub error_code: String,
    /// Rejection message
    pub message: String,
    /// Field that caused the rejection
    pub field: Option<String>,
}

/// A record rejection with its texts taken by their characters.
pub struct RecordRejectionView {
    pub record_index: usize,
    pub record_id: Option<Seq<char>>,
    pub error_code: Seq<char>,
    pub message: Seq<char>,
    pub field: Option<Seq<char>>,
}

impl View for RecordRejection {
    type V = RecordRejectionView;

    open spec fn view(&self) -> RecordRejectionView {
        RecordRejectionView {
            record_index: self.record_index,
            record_id: opt_view(self.record_id),
            error_code: self.error_code@,
            message: self.message@,
            field: opt_view(self.field),
        }
    }
}

/// A copy of an optional string.
pub fn clone_opt(s: &Option<String>) -> (r: Option<String>)
    ensures
        r == *s,
{
    match s {
        Some(t) => Some(t.clone()),
        None => None,
    }
}

impl Clone for RecordRejection {
    fn clone(&self) -> (r: Self)
        ensures
            r == *self,
    {
        RecordRejection {
            record_index: self.record_index,
            record_id: clone_opt(&self.record_id),
            error_code: self.error_code.clone(),
            message: self.message.clone(),
            field: clone_opt(&self.field),
        }
    }
}

/// The views of a list of rejections.
pub open spec fn rejections_view(v: Seq<RecordRejection>) -> Seq<RecordRejectionView> {
    v.map_values(|r: RecordRejection| r@)
}

/// A copy of a list of rejections.
pub fn clone_rejections(v: &Vec<RecordRejection>) -> (r: Vec<RecordRejection>)
    ensures
        r@ == v@,
{
    let mut out: Vec<RecordRejection> = Vec::new();
    let mut i: usize = 0;
    while i < v.len()
        invariant
            i <= v.len(),
            out@ == v@.take(i as int),
        decreases v.len() - i,
    {
        out.push(v[i].clone());
        i = i + 1;
        assert(out@ =~= v@.take(i as int));
    }
    assert(v@.take(i as int) =~= v@);
    out
}

/// Submission request from clients.
#[derive(Debug)]
pub struct SubmissionRequest {
    /// Client-provided submission ID for idempotency
    pub submission_id: Option<String>,
    /// Reporting period (YYYYMM)
    pub reporting_period: String,
    /// Bank code
    pub bank_code: String,
    /// Credit records to submit
    pub records: Vec<JsonDocument>,
    /// Metadata
    pub metadata: Option<Vec<(String, JsonValue)>>,
}

/// Submission response.
#[derive(Debug)]
pub struct SubmissionResponse {
    /// Submission ID (generated or provided)
    pub submission_id: String,
    /// Regulator reference number
    pub reference_number: String,
    /// Submission status
    pub status: SubmissionStatus,
    /// Number of records accepted
    pub accepted_count: usize,
    /// Number of records rejected
    pub rejected_count: usize,
    /// Rejected record details
    pub rejections: Vec<RecordRejection>,
    /// Submission timestamp
    pub submitted_at: String,
    /// Processing timestamp (if completed)
    pub processed_at: Option<String>,
    /// Estimated processing time (for queued submissions)
    pub estimated_processing_time_secs: Option<u64>,
    /// Additional details
    pub details: Option<Vec<(String, JsonValue)>>,
}

impl SubmissionResponse {
    /// The HTTP status an answered submission is sent with: 202 (accepted,
    /// to be polled later) for a queued one, 200 otherwise.
    pub fn http_status(&self) -> (r: u16)
        ensures
            r == (if self.status == SubmissionStatus::Queued {
                202u16
            } else {
                200u16
            }),
    {
        match self.status {
            SubmissionStatus::Queued => 202,
            _ => 200,
        }
    }
}

/// Stored submission record.
#[derive(Debug)]
pub struct StoredSubmission {
    pub submission_id: String,
    pub reference_number: String,
    pub bank_code: String,
    pub reporting_period: String,
    pub status: SubmissionStatus,
    pub record_count: usize,
    pub accepted_count: usize,
    pub rejected_count: usize,
    pub rejections: Vec<RecordRejection>,
    pub submitted_at: Timestamp,
    pub processed_at: Option<Timestamp>,
    pub idempotency_key: Option<String>,
    pub attempt_count: u32,
}

/// A stored submission with its texts taken by their characters.
pub struct StoredView {
    pub submission_id: Seq<char>,
    pub reference_number: Seq<char>,
    pub bank_code: Seq<char>,
    pub reporting_period: Seq<char>,
    pub status: SubmissionStatus,
    pub record_count: usize,
    pub accepted_count: usize,
    pub rejected_count: usize,
    pub rejections: Seq<RecordRejectionView>,
    pub submitted_at: Timestamp,
    pub processed_at: Option<Timestamp>,
    pub idempotency_key: Option<Seq<char>>,
    pub attempt_count: u32,
}

impl View for StoredSubmission {
    type V = StoredView;

    open spec fn view(&self) -> StoredView {
        StoredView {
            submission_id: self.submission_id@,
            reference_number: self.reference_number@,
            bank_code: self.bank_code@,
            reporting_period: self.reporting_period@,
            status: self.status,
            record_count: self.record_count,
            accepted_count: self.accepted_count,
            rejected_count: self.rejected_count,
            rejections: rejections_view(self.rejections@),
            submitted_at: self.submitted_at,
            processed_at: self.processed_at,
            idempotency_key: opt_view(self.idempotency_key),
            attempt_count: self.attempt_count,
        }
    }
}

impl Clone for StoredSubmission {
    fn clone(&self) -> (r: Self)
        ensures
            r@ == self@,
    {
        StoredSubmission {
            submission_id: self.submission_id.clone(),
            reference_number: self.reference_number.clone(),
            bank_code: self.bank_code.clone(),
            reporting_period: self.reporting_period.clone(),
            status: self.status,
            record_count: self.record_count,
            accepted_count: self.accepted_count,
            rejected_count: self.rejected_count,
            rejections: clone_rejections(&self.rejections),
            submitted_at: self.submitted_at,
            processed_at: self.processed_at,
            idempotency_key: clone_opt(&self.idempotency_key),
            attempt_count: self.attempt_count,
        }
    }
}

/// Rejection error response.
#[derive(Debug)]
pub struct RejectionError {
    pub error_code: String,
    pub error_message: String,
    pub details: Option<Vec<(String, JsonValue)>>,
}

/// Query parameters for listing submissions.
#[derive(Debug)]
pub struct ListSubmissionsParams {
    pub bank_code: Option<String>,
    pub reporting_period: Option<String>,
    pub status: Option<SubmissionStatus>,
    pub page: Option<u32>,
    pub page_size: Option<u32>,
}

/// Request to change the response mode.
#[derive(Debug)]
pub struct ChangeModeRequest {
    pub mode: RegulatorMode,
}

/// Summary of a submission for listing.
#[derive(Debug)]
pub struct SubmissionSummary {
    pub submission_id: String,
    pub reference_number: String,
    pub bank_code: String,
    pub reporting_period: String,
    pub status: SubmissionStatus,
    pub record_count: usize,
    pub accepted_count: usize,
    pub rejected_count: usize,
    pub submitted_at: String,
}

// ============================================================================
// Store model
// ============================================================================

/// The views of a list of stored submissions.
pub open spec fn stored_view(v: Seq<StoredSubmission>) -> Seq<StoredView> {
    v.map_values(|s: StoredSubmission| s@)
}

/// The idempotency cache (key, submission id), oldest first, by characters.
pub open spec fn cache_view(v: Seq<(String, String)>) -> Seq<(Seq<char>, Seq<char>)> {
    v.map_values(|e: (String, String)| (e.0@, e.1@))
}

/// The position of the first submission with id `id`.
pub open spec fn position_of_id(subs: Seq<StoredView>, id: Seq<char>) -> Option<int>
    decreases subs.len(),
{
    if subs.len() == 0 {
        None
    } else if subs[0].submission_id == id {
        Some(0)
    } else {
        match position_of_id(subs.drop_first(), id) {
            Some(i) => Some(i + 1),
            None => None,
        }
    }
}

/// A found position is in range and holds the id; a missing one means no
/// submission has the id.
pub proof fn lemma_position_of_id(subs: Seq<StoredView>, id: Seq<char>)
    ensures
        position_of_id(subs, id) matches Some(i) ==> 0 <= i < subs.len() && subs[i].submission_id == id
            && forall|j: int| 0 <= j < i ==> (#[trigger] subs[j]).submission_id != id,
        position_of_id(subs, id) is None ==> forall|j: int|
            0 <= j < subs.len() ==> (#[trigger] subs[j]).submission_id != id,
    decreases subs.len(),
{
    if subs.len() > 0 {
        let rest = subs.drop_first();
        lemma_position_of_id(rest, id);
        if subs[0].submission_id != id {
            match position_of_id(rest, id) {
                Some(k) => {
                    assert(subs[k + 1] == rest[k]);
                    assert forall|j: int| 0 <= j < k + 1 implies (#[trigger] subs[j]).submission_id
                        != id by {
                        if j > 0 {
                            assert(subs[j] == rest[j - 1]);
                        }
                    }
                },
                None => {
                    assert forall|j: int| 0 <= j < subs.len() implies (#[trigger] subs[j]).submission_id
                        != id by {
                        if j > 0 {
                            assert(subs[j] == rest[j - 1]);
                        }
                    }
                },
            }
        }
    }
}

/// The submission with id `id`, if one is stored.
pub open spec fn find_submission(subs: Seq<StoredView>, id: Seq<char>) -> Option<StoredView> {
    match position_of_id(subs, id) {
        Some(i) => Some(subs[i]),
        None => None,
    }
}

/// The submission id cached for an idempotency key (the first entry for it).
pub open spec fn cache_target(cache: Seq<(Seq<char>, Seq<char>)>, key: Seq<char>) -> Option<Seq<char>>
    decreases cache.len(),
{
    if cache.len() == 0 {
        None
    } else if cache[0].0 == key {
        Some(cache[0].1)
    } else {
        cache_target(cache.drop_first(), key)
    }
}

/// The cache after `key` is mapped to `id`: its entry is updated in place,
/// or a new entry is added at the end.
pub open spec fn cache_insert(cache: Seq<(Seq<char>, Seq<char>)>, key: Seq<char>, id: Seq<char>) -> Seq<
    (Seq<char>, Seq<char>),
>
    decreases cache.len(),
{
    if cache.len() == 0 {
        seq![(key, id)]
    } else if cache[0].0 == key {
        seq![(key, id)] + cache.drop_first()
    } else {
        seq![cache[0]] + cache_insert(cache.drop_first(), key, id)
    }
}

/// The store after `sub` is put in: a submission with the same id is
/// replaced in place, otherwise `sub` is added at the end.
pub open spec fn store_upsert(subs: Seq<StoredView>, sub: StoredView) -> Seq<StoredView> {
    match position_of_id(subs, sub.submission_id) {
        Some(i) => subs.update(i, sub),
        None => subs.push(sub),
    }
}

/// The cache after a store: the key (if any) is mapped to the new
/// submission, then when the cache holds more than `max` entries its older
/// half is dropped.
pub open spec fn cache_after_store(cache: Seq<(Seq<char>, Seq<char>)>, max: usize, sub: StoredView) -> Seq<
    (Seq<char>, Seq<char>),
> {
    let c1 = match sub.idempotency_key {
        Some(k) => cache_insert(cache, k, sub.submission_id),
        None => cache,
    };
    if c1.len() > max {
        c1.skip((c1.len() / 2) as int)
    } else {
        c1
    }
}

/// The reference number a submission gets: `OJK-SLIK-`, the UTC date and
/// time, `-`, and the counter padded to six digits.
pub open spec fn reference_text(t: Timestamp, counter: nat) -> Seq<char> {
    "OJK-SLIK-"@ + compact_datetime_text(t.secs, t.nanos) + "-"@ + zero_pad(decimal(counter), 6)
}

/// Mapping a key that is present updates its first entry in place.
pub proof fn lemma_cache_insert_at(cache: Seq<(Seq<char>, Seq<char>)>, key: Seq<char>, id: Seq<char>, i: int)
    requires
        0 <= i < cache.len(),
        cache[i].0 == key,
        forall|j: int| 0 <= j < i ==> (#[trigger] cache[j]).0 != key,
    ensures
        cache_insert(cache, key, id) == cache.update(i, (key, id)),
    decreases cache.len(),
{
    if i == 0 {
        assert(seq![(key, id)] + cache.drop_first() =~= cache.update(0, (key, id)));
    } else {
        lemma_cache_insert_at(cache.drop_first(), key, id, i - 1);
        assert(seq![cache[0]] + cache.drop_first().update(i - 1, (key, id)) =~= cache.update(
            i,
            (key, id),
        ));
    }
}

/// Mapping a key that is absent adds an entry at the end.
pub proof fn lemma_cache_insert_absent(cache: Seq<(Seq<char>, Seq<char>)>, key: Seq<char>, id: Seq<char>)
    requires
        forall|j: int| 0 <= j < cache.len() ==> (#[trigger] cache[j]).0 != key,
    ensures
        cache_insert(cache, key, id) == cache.push((key, id)),
    decreases cache.len(),
{
    if cache.len() > 0 {
        lemma_cache_insert_absent(cache.drop_first(), key, id);
        assert(seq![cache[0]] + cache.drop_first().push((key, id)) =~= cache.push((key, id)));
    } else {
        assert(seq![(key, id)] =~= cache.push((key, id)));
    }
}

/// No two stored submissions share an id.
pub open spec fn ids_unique(subs: Seq<StoredView>) -> bool {
    forall|i: int, j: int|
        0 <= i < j < subs.len() ==> (#[trigger] subs[i]).submission_id != (#[trigger] subs[j]).submission_id
}

/// No two cache entries share a key.
pub open spec fn keys_unique(cache: Seq<(Seq<char>, Seq<char>)>) -> bool {
    forall|i: int, j: int| 0 <= i < j < cache.len() ==> (#[trigger] cache[i]).0 != (#[trigger] cache[j]).0
}

/// Putting a submission in keeps the ids distinct.
pub proof fn lemma_upsert_ids_unique(subs: Seq<StoredView>, sub: StoredView)
    requires
        ids_unique(subs),
    ensures
        ids_unique(store_upsert(subs, sub)),
{
    lemma_position_of_id(subs, sub.submission_id);
    let post = store_upsert(subs, sub);
    match position_of_id(subs, sub.submission_id) {
        Some(k) => {
            assert forall|i: int, j: int| 0 <= i < j < post.len() implies (#[trigger] post[i]).submission_id
                != (#[trigger] post[j]).submission_id by {
                if i == k {
                    assert(subs[k].submission_id != subs[j].submission_id);
                } else if j == k {
                    assert(subs[i].submission_id != subs[k].submission_id);
                } else {
                    assert(post[i] == subs[i] && post[j] == subs[j]);
                }
            }
        },
        None => {
            assert forall|i: int, j: int| 0 <= i < j < post.len() implies (#[trigger] post[i]).submission_id
                != (#[trigger] post[j]).submission_id by {
                if j < subs.len() {
                    assert(post[i] == subs[i] && post[j] == subs[j]);
                } else {
                    assert(post[i] == subs[i]);
                }
            }
        },
    }
}

/// Mapping a key keeps the keys already there in their places, and adds an
/// entry for it at the end only when it was absent; so distinct keys stay
/// distinct.
pub proof fn lemma_cache_insert_keys(cache: Seq<(Seq<char>, Seq<char>)>, key: Seq<char>, id: Seq<char>)
    ensures
        cache_insert(cache, key, id).len() == cache.len() || cache_insert(cache, key, id).len() == cache.len()
            + 1,
        forall|m: int| 0 <= m < cache.len() ==> (#[trigger] cache_insert(cache, key, id)[m]).0 == cache[m].0,
        cache_insert(cache, key, id).len() == cache.len() + 1 ==> cache_insert(cache, key, id)[cache.len() as int].0
            == key && forall|j: int| 0 <= j < cache.len() ==> (#[trigger] cache[j]).0 != key,
        keys_unique(cache) ==> keys_unique(cache_insert(cache, key, id)),
    decreases cache.len(),
{
    let ci = cache_insert(cache, key, id);
    if cache.len() == 0 {
    } else if cache[0].0 == key {
        assert forall|m: int| 0 <= m < cache.len() implies (#[trigger] ci[m]).0 == cache[m].0 by {
            if m > 0 {
                assert(ci[m] == cache[m]);
            }
        }
    } else {
        let rest = cache.drop_first();
        lemma_cache_insert_keys(rest, key, id);
        let cr = cache_insert(rest, key, id);
        assert(ci == seq![cache[0]] + cr);
        assert forall|m: int| 0 <= m < cache.len() implies (#[trigger] ci[m]).0 == cache[m].0 by {
            if m > 0 {
                assert(ci[m] == cr[m - 1]);
                assert(rest[m - 1] == cache[m]);
            }
        }
        if ci.len() == cache.len() + 1 {
            assert(ci[cache.len() as int] == cr[rest.len() as int]);
            assert forall|j: int| 0 <= j < cache.len() implies (#[trigger] cache[j]).0 != key by {
                if j > 0 {
                    assert(rest[j - 1] == cache[j]);
                }
            }
        }
        if keys_unique(cache) {
            assert forall|i: int, j: int| 0 <= i < j < ci.len() implies (#[trigger] ci[i]).0 != (
            #[trigger] ci[j]).0 by {
                if j < cache.len() {
                    assert(ci[i].0 == cache[i].0 && ci[j].0 == cache[j].0);
                } else {
                    assert(ci[i].0 == cache[i].0);
                }
            }
        }
    }
}

/// A store keeps the cache keys distinct.
pub proof fn lemma_cache_after_store_unique(cache: Seq<(Seq<char>, Seq<char>)>, max: usize, sub: StoredView)
    requires
        keys_unique(cache),
    ensures
        keys_unique(cache_after_store(cache, max, sub)),
{
    let c1 = match sub.idempotency_key {
        Some(k) => cache_insert(cache, k, sub.submission_id),
        None => cache,
    };
    if let Some(k) = sub.idempotency_key {
        lemma_cache_insert_keys(cache, k, sub.submission_id);
    }
    if c1.len() > max {
        let c2 = c1.skip((c1.len() / 2) as int);
        assert forall|i: int, j: int| 0 <= i < j < c2.len() implies (#[trigger] c2[i]).0 != (
        #[trigger] c2[j]).0 by {
            assert(c2[i] == c1[i + c1.len() / 2] && c2[j] == c1[j + c1.len() / 2]);
        }
    }
}

/// Maps `key` to `id` in the idempotency cache.
fn cache_set(cache: &mut Vec<(String, String)>, key: &String, id: &String)
    ensures
        cache_view(final(cache)@) == cache_insert(cache_view(old(cache)@), key@, id@),
{
    let ghost original = cache_view(cache@);
    let mut i: usize = 0;
    while i < cache.len()
        invariant
            i <= cache.len(),
            cache_view(cache@) == original,
            original == cache_view(old(cache)@),
            forall|j: int| 0 <= j < i ==> (#[trigger] original[j]).0 != key@,
        decreases cache.len() - i,
    {
        if str_eq(cache[i].0.as_str(), key.as_str()) {
            cache.set(i, (key.clone(), id.clone()));
            proof {
                lemma_cache_insert_at(original, key@, id@, i as int);
                assert(cache_view(cache@) =~= original.update(i as int, (key@, id@)));
            }
            return;
        }
        i = i + 1;
    }
    cache.push((key.clone(), id.clone()));
    proof {
        lemma_cache_insert_absent(original, key@, id@);
        assert(cache_view(cache@) =~= original.push((key@, id@)));
    }
}

// ============================================================================
// Submission decisions
// ============================================================================

/// What a submission depends on besides the state and the request: the
/// clock reading, the UTC hour at that time, an id for a submission that
/// brings none, the draw that decides an intermittent failure, and for each
/// record the draws that decide whether and why it is rejected.
#[derive(Debug)]
pub struct SubmissionEnv {
    pub now: Timestamp,
    pub utc_hour: u32,
    pub generated_id: String,
    pub fail_draw: u64,
    pub record_draws: Vec<(u64, u64)>,
}

/// The rejection code picked by a draw taken modulo four.
pub open spec fn rejection_code(k: nat) -> Seq<char> {
    if k == 0 {
        "INVALID_NIK"@
    } else if k == 1 {
        "INVALID_AMOUNT"@
    } else if k == 2 {
        "DUPLICATE_RECORD"@
    } else {
        "MISSING_FIELD"@
    }
}

/// The rejection message that goes with `rejection_code(k)`.
pub open spec fn rejection_message(k: nat) -> Seq<char> {
    if k == 0 {
        "NIK format is invalid"@
    } else if k == 1 {
        "Credit amount is invalid"@
    } else if k == 2 {
        "Duplicate record detected"@
    } else {
        "Required field is missing"@
    }
}

/// The `id` of a record when it is a string.
pub open spec fn record_id_of(doc: JsonDocument) -> Option<Seq<char>> {
    match doc.spec_get("id"@) {
        Some(v) => v.spec_as_str(),
        None => None,
    }
}

/// The rejections among the first `n` records: record `i` is rejected when
/// its first draw falls under the reject ratio, for the reason its second
/// draw picks.
pub open spec fn partial_rejections(
    records: Seq<JsonDocument>,
    draws: Seq<(u64, u64)>,
    ratio: Ratio,
    n: nat,
) -> Seq<RecordRejectionView>
    decreases n,
{
    if n == 0 {
        Seq::empty()
    } else {
        let prev = partial_rejections(records, draws, ratio, (n - 1) as nat);
        let i = n - 1;
        if ratio.spec_happens(draws[i].0) {
            prev.push(
                RecordRejectionView {
                    record_index: i as usize,
                    record_id: record_id_of(records[i]),
                    error_code: rejection_code((draws[i].1 % 4) as nat),
                    message: rejection_message((draws[i].1 % 4) as nat),
                    field: None,
                },
            )
        } else {
            prev
        }
    }
}

/// The HTTP status of a custom mode: the code itself when it is a valid
/// status code (100 to 999), else 500.
pub open spec fn custom_status(code: u16) -> u16 {
    if 100 <= code <= 999 {
        code
    } else {
        500
    }
}

/// Whether an HTTP status is a success (2xx).
pub open spec fn is_success_status(code: u16) -> bool {
    200 <= code <= 299
}

/// The outcome a submission is decided to have.
pub enum Decision {
    /// The key was seen before: the stored submission is answered again.
    Replay(StoredView),
    /// The submission is refused with a status code and an error.
    Refuse {
        http_status: u16,
        code: Seq<char>,
        message: Seq<char>,
        details: Option<Seq<(Seq<char>, JsonValue)>>,
    },
    /// The submission is stored with this status and these rejections;
    /// `queued` when it waits for processing.
    Store { status: SubmissionStatus, rejections: Seq<RecordRejectionView>, queued: bool },
}

/// A refusal with no details.
pub open spec fn refuse(status: u16, code: Seq<char>, message: Seq<char>) -> Decision {
    Decision::Refuse { http_status: status, code, message, details: None }
}

/// The status of a partly rejected submission of `n` records.
pub open spec fn partial_status(n: nat, rejected: nat) -> SubmissionStatus {
    if rejected == 0 {
        SubmissionStatus::Accepted
    } else if n - rejected == 0 {
        SubmissionStatus::Rejected
    } else {
        SubmissionStatus::PartiallyAccepted
    }
}

/// An accepted submission with no rejections.
pub open spec fn store_accepted() -> Decision {
    Decision::Store { status: SubmissionStatus::Accepted, rejections: Seq::empty(), queued: false }
}

/// Whether the off-peak window turns submissions away at the UTC hour.
pub open spec fn outside_window(c: OffPeakConfig, utc_hour: u32) -> bool {
    c.enabled && c.reject_outside_window && !c.spec_is_off_peak_at(utc_hour as int)
}

/// What a submission with `key` comes to in the state `pre` under `env`.
pub open spec fn decide(pre: RegulatorEndpointState, req: SubmissionRequest, key: Option<String>, env: SubmissionEnv) -> Decision {
    let replay = match key {
        Some(k) => if pre.config.enforce_idempotency {
            pre.spec_lookup(k@)
        } else {
            None
        },
        None => None,
    };
    if replay is Some {
        Decision::Replay(replay->0)
    } else if outside_window(pre.config.off_peak_config, env.utc_hour) {
        Decision::Refuse {
            http_status: 503,
            code: "OUTSIDE_SUBMISSION_WINDOW"@,
            message: "Submissions are only accepted during off-peak hours"@,
            details: Some(
                seq![
                    ("off_peak_start"@, JsonValue::Number(u64_number(pre.config.off_peak_config.start_hour as u64))),
                    ("off_peak_end"@, JsonValue::Number(u64_number(pre.config.off_peak_config.end_hour as u64))),
                ],
            ),
        }
    } else {
        decide_mode(pre, req, env)
    }
}

/// What the response mode makes of a submission that is neither a repeat
/// nor outside the window.
pub open spec fn decide_mode(pre: RegulatorEndpointState, req: SubmissionRequest, env: SubmissionEnv) -> Decision {
        match pre.config.mode {
            RegulatorMode::Accept => store_accepted(),
            RegulatorMode::Reject { error_code, error_message } => refuse(
                400,
                error_code@,
                error_message@,
            ),
            RegulatorMode::Timeout { delay_ms } => Decision::Refuse {
                http_status: 504,
                code: "TIMEOUT"@,
                message: "Request timed out"@,
                details: Some(seq![("timeout_ms"@, JsonValue::Number(u64_number(delay_ms)))]),
            },
            RegulatorMode::ServiceUnavailable => refuse(
                503,
                "SERVICE_UNAVAILABLE"@,
                "The service is temporarily unavailable"@,
            ),
            RegulatorMode::RateLimited => Decision::Refuse {
                http_status: 429,
                code: "RATE_LIMITED"@,
                message: "Too many requests. Please retry later."@,
                details: Some(
                    seq![("retry_after_secs"@, JsonValue::Number(u64_number(pre.config.retry_after_secs as u64)))],
                ),
            },
            RegulatorMode::Intermittent { failure_rate } => if failure_rate.spec_happens(env.fail_draw) {
                refuse(500, "INTERNAL_ERROR"@, "An internal error occurred"@)
            } else {
                store_accepted()
            },
            RegulatorMode::PartialReject { reject_ratio } => {
                let rej = partial_rejections(
                    req.records@,
                    env.record_draws@,
                    reject_ratio,
                    req.records@.len(),
                );
                Decision::Store {
                    status: partial_status(req.records@.len(), rej.len()),
                    rejections: rej,
                    queued: false,
                }
            },
            RegulatorMode::Queued { queue_delay_ms } => Decision::Store {
                status: SubmissionStatus::Queued,
                rejections: Seq::empty(),
                queued: true,
            },
            RegulatorMode::Custom { status_code, body, headers } => if is_success_status(
                custom_status(status_code),
            ) {
                store_accepted()
            } else {
                refuse(custom_status(status_code), "CUSTOM_ERROR"@, body@)
            },
        }
}

/// The submission stored when a submission is decided to be stored.
pub open spec fn new_submission(
    pre: RegulatorEndpointState,
    req: SubmissionRequest,
    key: Option<String>,
    env: SubmissionEnv,
    status: SubmissionStatus,
    rejections: Seq<RecordRejectionView>,
    queued: bool,
) -> StoredView {
    StoredView {
        submission_id: match req.submission_id {
            Some(id) => id@,
            None => env.generated_id@,
        },
        reference_number: reference_text(env.now, (pre.submission_counter + 1) as nat),
        bank_code: req.bank_code@,
        reporting_period: req.reporting_period@,
        status,
        record_count: req.records@.len() as usize,
        accepted_count: if queued {
            0
        } else {
            (req.records@.len() - rejections.len()) as usize
        },
        rejected_count: if queued {
            0
        } else {
            rejections.len() as usize
        },
        rejections,
        submitted_at: env.now,
        processed_at: if queued {
            None
        } else {
            Some(env.now)
        },
        idempotency_key: opt_view(key),
        attempt_count: 1,
    }
}

/// The RFC 3339 text of an optional instant.
pub open spec fn opt_rfc3339(t: Option<Timestamp>) -> Option<Seq<char>> {
    match t {
        Some(u) => Some(rfc3339_text(u.secs, u.nanos)),
        None => None,
    }
}

/// Whether `resp` answers with the stored submission `s`, carrying the
/// estimated time and details given.
pub open spec fn response_of(
    resp: SubmissionResponse,
    s: StoredView,
    estimated: Option<u64>,
    details: Option<Seq<(Seq<char>, JsonValue)>>,
) -> bool {
    &&& resp.submission_id@ == s.submission_id
    &&& resp.reference_number@ == s.reference_number
    &&& resp.status == s.status
    &&& resp.accepted_count == s.accepted_count
    &&& resp.rejected_count == s.rejected_count
    &&& rejections_view(resp.rejections@) == s.rejections
    &&& resp.submitted_at@ == rfc3339_text(s.submitted_at.secs, s.submitted_at.nanos)
    &&& opt_view(resp.processed_at) == opt_rfc3339(s.processed_at)
    &&& resp.estimated_processing_time_secs == estimated
    &&& opt_entries(resp.details) == details
}

/// The details of an answer given again for a repeated idempotency key.
pub open spec fn replay_details() -> Seq<(Seq<char>, JsonValue)> {
    seq![("idempotent"@, JsonValue::Bool(true)), ("original_submission"@, JsonValue::Bool(true))]
}

/// The relation between the state before and after a submission, the
/// request, its idempotency key, its environment and the answer.
pub open spec fn process_post(
    pre: RegulatorEndpointState,
    req: SubmissionRequest,
    key: Option<String>,
    env: SubmissionEnv,
    post: RegulatorEndpointState,
    r: Result<SubmissionResponse, (u16, RejectionError)>,
) -> bool {
    match decide(pre, req, key, env) {
        Decision::Replay(s) => {
            &&& post == pre
            &&& r matches Ok(resp) && response_of(resp, s, None, Some(replay_details()))
        },
        Decision::Refuse { http_status, code, message, details } => {
            &&& post == pre
            &&& r matches Err(e) && e.0 == http_status && e.1.error_code@ == code && e.1.error_message@
                == message && opt_entries(e.1.details) == details
        },
        Decision::Store { status, rejections, queued } => {
            let sub = new_submission(pre, req, key, env, status, rejections, queued);
            &&& stored_view(post.submissions@) == store_upsert(stored_view(pre.submissions@), sub)
            &&& cache_view(post.idempotency_cache@) == cache_after_store(
                cache_view(pre.idempotency_cache@),
                pre.config.max_idempotency_entries,
                sub,
            )
            &&& post.submission_counter == pre.submission_counter + 1
            &&& post.config == pre.config
            &&& post.stats == pre.stats
            &&& post.ready == pre.ready
            &&& r matches Ok(resp) && response_of(
                resp,
                sub,
                if queued {
                    Some(queue_delay_secs(pre.config.mode))
                } else {
                    None
                },
                if queued {
                    Some(
                        seq![("queue_position"@, JsonValue::Number(u64_number(post.submissions@.len() as u64)))],
                    )
                } else {
                    None
                },
            )
        },
    }
}

/// The estimated processing time of the queued mode, in whole seconds.
pub open spec fn queue_delay_secs(mode: RegulatorMode) -> u64 {
    match mode {
        RegulatorMode::Queued { queue_delay_ms } => queue_delay_ms / 1000,
        _ => 0,
    }
}

/// What the environment of a submission must satisfy.
pub open spec fn env_fits(pre: RegulatorEndpointState, req: SubmissionRequest, env: SubmissionEnv) -> bool {
    &&& valid_timestamp(env.now)
    &&& env.utc_hour < 24
    &&& (pre.config.mode is PartialReject ==> env.record_draws@.len() >= req.records@.len())
}

/// What the state must satisfy for a submission to go through without
/// overflow: room in the counter, and an offset that keeps the window check
/// in range.
pub open spec fn can_process(pre: RegulatorEndpointState) -> bool {
    &&& pre.submission_counter < u64::MAX
    &&& (pre.config.off_peak_config.enabled && pre.config.off_peak_config.reject_outside_window
        ==> pre.config.off_peak_config.timezone_offset <= 104)
}

/// The reason a draw picks for a rejected record.
fn rejection_reason(k: u64) -> (r: (&'static str, &'static str))
    requires
        k < 4,
    ensures
        r.0@ == rejection_code(k as nat),
        r.1@ == rejection_message(k as nat),
{
    if k == 0 {
        ("INVALID_NIK", "NIK format is invalid")
    } else if k == 1 {
        ("INVALID_AMOUNT", "Credit amount is invalid")
    } else if k == 2 {
        ("DUPLICATE_RECORD", "Duplicate record detected")
    } else {
        ("MISSING_FIELD", "Required field is missing")
    }
}

/// The `id` of a record when it is a string, copied.
fn record_id(doc: &JsonDocument) -> (r: Option<String>)
    ensures
        opt_view(r) == record_id_of(*doc),
{
    match doc.get("id") {
        Some(v) => match v.as_str() {
            Some(s) => Some(owned(s)),
            None => None,
        },
        None => None,
    }
}

/// The rejections picked among `records` by the draws and the ratio.
pub fn pick_rejections(records: &Vec<JsonDocument>, draws: &Vec<(u64, u64)>, ratio: Ratio) -> (r: Vec<
    RecordRejection,
>)
    requires
        draws@.len() >= records@.len(),
    ensures
        rejections_view(r@) == partial_rejections(records@, draws@, ratio, records@.len()),
        r@.len() <= records@.len(),
{
    let mut out: Vec<RecordRejection> = Vec::new();
    let mut i: usize = 0;
    while i < records.len()
        invariant
            i <= records.len(),
            draws@.len() >= records@.len(),
            rejections_view(out@) == partial_rejections(records@, draws@, ratio, i as nat),
            out@.len() <= i,
        decreases records.len() - i,
    {
        let (fail_draw, reason_draw) = draws[i];
        if ratio.happens(fail_draw) {
            let (code, message) = rejection_reason(reason_draw % 4);
            let rej = RecordRejection {
                record_index: i,
                record_id: record_id(&records[i]),
                error_code: owned(code),
                message: owned(message),
                field: None,
            };
            out.push(rej);
        }
        proof {
            assert(rejections_view(out@) =~= partial_rejections(records@, draws@, ratio, (i + 1) as nat));
        }
        i = i + 1;
    }
    out
}

/// An empty list of rejections.
fn no_rejections() -> (r: Vec<RecordRejection>)
    ensures
        r@.len() == 0,
        rejections_view(r@) == Seq::<RecordRejectionView>::empty(),
{
    let r: Vec<RecordRejection> = Vec::new();
    assert(rejections_view(r@) =~= Seq::<RecordRejectionView>::empty());
    r
}

/// A refusal answer.
fn refusal(status: u16, code: &str, message: &str, details: Option<Vec<(String, JsonValue)>>) -> (r: (
    u16,
    RejectionError,
))
    ensures
        r.0 == status,
        r.1.error_code@ == code@,
        r.1.error_message@ == message@,
        r.1.details == details,
{
    (status, RejectionError { error_code: owned(code), error_message: owned(message), details })
}

/// A details object with one number.
fn one_number(key: &str, v: u64) -> (r: Option<Vec<(String, JsonValue)>>)
    ensures
        opt_entries(r) == Some(seq![(key@, JsonValue::Number(u64_number(v)))]),
{
    let mut d: Vec<(String, JsonValue)> = Vec::new();
    d.push((owned(key), JsonValue::from_u64(v)));
    assert(entries_view(d@) =~= seq![(key@, JsonValue::Number(u64_number(v)))]);
    Some(d)
}

/// The decision of the response mode, as the submission code acts on it.
pub enum ModeStep {
    Refuse(u16, RejectionError),
    Store(SubmissionStatus, Vec<RecordRejection>, bool),
}

/// Whether a mode step carries out a decision.
pub open spec fn step_matches(step: ModeStep, d: Decision) -> bool {
    match step {
        ModeStep::Refuse(status, e) => d matches Decision::Refuse { http_status: s2, code, message, details }
            && status == s2 && e.error_code@ == code && e.error_message@ == message && opt_entries(
            e.details,
        ) == details,
        ModeStep::Store(status, rej, queued) => d matches Decision::Store {
            status: s2,
            rejections,
            queued: q2,
        } && status == s2 && rejections_view(rej@) == rejections && queued == q2,
    }
}

// ============================================================================
// Simulator state
// ============================================================================

/// Internal state for the Regulator Endpoint simulator.
#[derive(Debug)]
pub struct RegulatorEndpointState {
    pub config: RegulatorEndpointConfig,
    /// Stored submissions, oldest first
    pub submissions: Vec<StoredSubmission>,
    /// Idempotency key and submission id, oldest first
    pub idempotency_cache: Vec<(String, String)>,
    pub stats: SimulatorStats,
    pub ready: bool,
    pub submission_counter: u64,
}

/// Whether the instants of a stored submission are in range.
pub open spec fn times_valid(s: StoredView) -> bool {
    &&& valid_timestamp(s.submitted_at)
    &&& (s.processed_at matches Some(t) ==> valid_timestamp(t))
}

impl RegulatorEndpointState {
    /// Well-formedness: every stored submission has instants in range, no
    /// two share an id, and no two cache entries share a key.
    pub open spec fn wf(self) -> bool {
        &&& forall|i: int| 0 <= i < self.submissions@.len() ==> times_valid(#[trigger] self.submissions@[i]@)
        &&& ids_unique(stored_view(self.submissions@))
        &&& keys_unique(cache_view(self.idempotency_cache@))
    }

    /// The submission stored for an idempotency key, if any.
    pub open spec fn spec_lookup(self, key: Seq<char>) -> Option<StoredView> {
        match cache_target(cache_view(self.idempotency_cache@), key) {
            Some(id) => find_submission(stored_view(self.submissions@), id),
            None => None,
        }
    }

    /// A fresh state with no submissions.
    pub fn new(config: RegulatorEndpointConfig) -> (r: Self)
        ensures
            r.config == config,
            r.submissions@.len() == 0,
            r.idempotency_cache@.len() == 0,
            r.submission_counter == 0,
            !r.ready,
            r.stats.is_zero(),
            r.wf(),
    {
        RegulatorEndpointState {
            config,
            submissions: Vec::new(),
            idempotency_cache: Vec::new(),
            stats: SimulatorStats::default(),
            ready: false,
            submission_counter: 0,
        }
    }

    /// The position of the submission with id `id`.
    fn index_of(&self, id: &str) -> (r: Option<usize>)
        ensures
            r matches Some(i) ==> position_of_id(stored_view(self.submissions@), id@) == Some(i as int),
            r is None ==> position_of_id(stored_view(self.submissions@), id@) is None,
    {
        let ghost subs = stored_view(self.submissions@);
        let mut i: usize = 0;
        assert(subs.skip(0) =~= subs);
        while i < self.submissions.len()
            invariant
                i <= self.submissions.len(),
                subs == stored_view(self.submissions@),
                position_of_id(subs, id@) == (match position_of_id(subs.skip(i as int), id@) {
                    Some(j) => Some(j + i),
                    None => None::<int>,
                }),
            decreases self.submissions.len() - i,
        {
            assert(subs.skip(i as int)[0] == subs[i as int]);
            assert(subs.skip(i as int).drop_first() =~= subs.skip(i + 1));
            if str_eq(self.submissions[i].submission_id.as_str(), id) {
                return Some(i);
            }
            i = i + 1;
        }
        None
    }

    /// The submission with id `id`.
    pub fn get_submission(&self, id: &str) -> (r: Option<&StoredSubmission>)
        ensures
            r matches Some(s) ==> find_submission(stored_view(self.submissions@), id@) == Some(s@),
            r is None ==> find_submission(stored_view(self.submissions@), id@) is None,
    {
        proof {
            lemma_position_of_id(stored_view(self.submissions@), id@);
        }
        match self.index_of(id) {
            Some(i) => Some(&self.submissions[i]),
            None => None,
        }
    }

    /// The submission id cached for `key`.
    fn cached_id(&self, key: &str) -> (r: Option<&String>)
        ensures
            r matches Some(id) ==> cache_target(cache_view(self.idempotency_cache@), key@) == Some(
                id@,
            ),
            r is None ==> cache_target(cache_view(self.idempotency_cache@), key@) is None,
    {
        let ghost c = cache_view(self.idempotency_cache@);
        let mut i: usize = 0;
        assert(c.skip(0) =~= c);
        while i < self.idempotency_cache.len()
            invariant
                i <= self.idempotency_cache.len(),
                c == cache_view(self.idempotency_cache@),
                cache_target(c, key@) == cache_target(c.skip(i as int), key@),
            decreases self.idempotency_cache.len() - i,
        {
            assert(c.skip(i as int)[0] == c[i as int]);
            assert(c.skip(i as int).drop_first() =~= c.skip(i + 1));
            if str_eq(self.idempotency_cache[i].0.as_str(), key) {
                return Some(&self.idempotency_cache[i].1);
            }
            i = i + 1;
        }
        None
    }

    /// Check if submission is a duplicate (idempotency): the submission
    /// stored for `key`, if any.
    pub fn check_idempotency(&self, key: &str) -> (r: Option<&StoredSubmission>)
        ensures
            r matches Some(s) ==> self.spec_lookup(key@) == Some(s@),
            r is None ==> self.spec_lookup(key@) is None,
    {
        match self.cached_id(key) {
            Some(id) => self.get_submission(id.as_str()),
            None => None,
        }
    }

    /// Store a submission: its idempotency key (if any) is mapped to it, it
    /// replaces a stored submission with the same id or is added at the end,
    /// and when the cache outgrows its limit the older half of it is dropped.
    pub fn store_submission(&mut self, submission: StoredSubmission)
        ensures
            stored_view(final(self).submissions@) == store_upsert(
                stored_view(old(self).submissions@),
                submission@,
            ),
            cache_view(final(self).idempotency_cache@) == cache_after_store(
                cache_view(old(self).idempotency_cache@),
                old(self).config.max_idempotency_entries,
                submission@,
            ),
            final(self).config == old(self).config,
            final(self).stats == old(self).stats,
            final(self).ready == old(self).ready,
            final(self).submission_counter == old(self).submission_counter,
    {
        match &submission.idempotency_key {
            Some(key) => {
                cache_set(&mut self.idempotency_cache, key, &submission.submission_id);
            },
            None => {},
        }
        let ghost subs = stored_view(self.submissions@);
        proof {
            lemma_position_of_id(subs, submission@.submission_id);
        }
        match self.index_of(submission.submission_id.as_str()) {
            Some(i) => {
                self.submissions.set(i, submission);
                assert(stored_view(self.submissions@) =~= subs.update(i as int, submission@));
            },
            None => {
                self.submissions.push(submission);
                assert(stored_view(self.submissions@) =~= subs.push(submission@));
            },
        }
        let len = self.idempotency_cache.len();
        if len > self.config.max_idempotency_entries {
            let ghost before = cache_view(self.idempotency_cache@);
            let kept = self.idempotency_cache.split_off(len / 2);
            self.idempotency_cache = kept;
            assert(cache_view(self.idempotency_cache@) =~= before.skip((len / 2) as int));
        }
    }

    /// What the response mode makes of a submission.
    fn mode_step(&self, request: &SubmissionRequest, env: &SubmissionEnv) -> (r: ModeStep)
        requires
            env_fits(*self, *request, *env),
        ensures
            step_matches(r, decide_mode(*self, *request, *env)),
            r matches ModeStep::Store(_, rej, _) ==> rej@.len() <= request.records@.len(),
    {
        match &self.config.mode {
            RegulatorMode::Accept => ModeStep::Store(SubmissionStatus::Accepted, no_rejections(), false),
            RegulatorMode::Reject { error_code, error_message } => {
                let (st, e) = refusal(400, error_code.as_str(), error_message.as_str(), None);
                ModeStep::Refuse(st, e)
            },
            RegulatorMode::Timeout { delay_ms } => {
                let (st, e) = refusal(
                    504,
                    "TIMEOUT",
                    "Request timed out",
                    one_number("timeout_ms", *delay_ms),
                );
                ModeStep::Refuse(st, e)
            },
            RegulatorMode::ServiceUnavailable => {
                let (st, e) = refusal(
                    503,
                    "SERVICE_UNAVAILABLE",
                    "The service is temporarily unavailable",
                    None,
                );
                ModeStep::Refuse(st, e)
            },
            RegulatorMode::RateLimited => {
                let (st, e) = refusal(
                    429,
                    "RATE_LIMITED",
                    "Too many requests. Please retry later.",
                    one_number("retry_after_secs", self.config.retry_after_secs as u64),
                );
                ModeStep::Refuse(st, e)
            },
            RegulatorMode::Intermittent { failure_rate } => {
                if failure_rate.happens(env.fail_draw) {
                    let (st, e) = refusal(500, "INTERNAL_ERROR", "An internal error occurred", None);
                    ModeStep::Refuse(st, e)
                } else {
                    ModeStep::Store(SubmissionStatus::Accepted, no_rejections(), false)
                }
            },
            RegulatorMode::PartialReject { reject_ratio } => {
                let rej = pick_rejections(&request.records, &env.record_draws, *reject_ratio);
                let n = request.records.len();
                let status = if rej.len() == 0 {
                    SubmissionStatus::Accepted
                } else if n - rej.len() == 0 {
                    SubmissionStatus::Rejected
                } else {
                    SubmissionStatus::PartiallyAccepted
                };
                ModeStep::Store(status, rej, false)
            },
            RegulatorMode::Queued { queue_delay_ms } => ModeStep::Store(
                SubmissionStatus::Queued,
                no_rejections(),
                true,
            ),
            RegulatorMode::Custom { status_code, body, headers } => {
                let status: u16 = if 100 <= *status_code && *status_code <= 999 {
                    *status_code
                } else {
                    500
                };
                if 200 <= status && status <= 299 {
                    ModeStep::Store(SubmissionStatus::Accepted, no_rejections(), false)
                } else {
                    let (st, e) = refusal(status, "CUSTOM_ERROR", body.as_str(), None);
                    ModeStep::Refuse(st, e)
                }
            },
        }
    }

    /// The answer for a repeated idempotency key.
    fn replay_response(existing: &StoredSubmission) -> (r: SubmissionResponse)
        requires
            valid_timestamp(existing.submitted_at),
            existing.processed_at matches Some(t) ==> valid_timestamp(t),
        ensures
            response_of(r, existing@, None, Some(replay_details())),
    {
        let mut details: Vec<(String, JsonValue)> = Vec::new();
        details.push((owned("idempotent"), JsonValue::Bool(true)));
        details.push((owned("original_submission"), JsonValue::Bool(true)));
        assert(entries_view(details@) =~= replay_details());
        let processed_at = match existing.processed_at {
            Some(t) => Some(to_rfc3339(t)),
            None => None,
        };
        SubmissionResponse {
            submission_id: existing.submission_id.clone(),
            reference_number: existing.reference_number.clone(),
            status: existing.status,
            accepted_count: existing.accepted_count,
            rejected_count: existing.rejected_count,
            rejections: clone_rejections(&existing.rejections),
            submitted_at: to_rfc3339(existing.submitted_at),
            processed_at,
            estimated_processing_time_secs: None,
            details: Some(details),
        }
    }

    /// Stores a new submission decided with `status`, `rejections` and
    /// `queued`, and answers with it.
    fn store_new(
        &mut self,
        request: &SubmissionRequest,
        key: Option<String>,
        env: &SubmissionEnv,
        status: SubmissionStatus,
        rejections: Vec<RecordRejection>,
        queued: bool,
    ) -> (r: SubmissionResponse)
        requires
            old(self).submission_counter < u64::MAX,
            old(self).wf(),
            valid_timestamp(env.now),
            rejections@.len() <= request.records@.len(),
        ensures
            ({
                let sub = new_submission(
                    *old(self),
                    *request,
                    key,
                    *env,
                    status,
                    rejections_view(rejections@),
                    queued,
                );
                &&& stored_view(final(self).submissions@) == store_upsert(
                    stored_view(old(self).submissions@),
                    sub,
                )
                &&& cache_view(final(self).idempotency_cache@) == cache_after_store(
                    cache_view(old(self).idempotency_cache@),
                    old(self).config.max_idempotency_entries,
                    sub,
                )
                &&& response_of(
                    r,
                    sub,
                    if queued {
                        Some(queue_delay_secs(old(self).config.mode))
                    } else {
                        None
                    },
                    if queued {
                        Some(
                            seq![("queue_position"@, JsonValue::Number(u64_number(final(self).submissions@.len() as u64)))],
                        )
                    } else {
                        None
                    },
                )
            }),
            final(self).submission_counter == old(self).submission_counter + 1,
            final(self).config == old(self).config,
            final(self).stats == old(self).stats,
            final(self).ready == old(self).ready,
            final(self).wf(),
    {
        let ghost pre = *self;
        let submission_id = match &request.submission_id {
            Some(id) => id.clone(),
            None => env.generated_id.clone(),
        };
        let reference_number = self.reference_number_at(env.now);
        let n = request.records.len();
        let rc = rejections.len();
        let accepted_count: usize = if queued {
            0
        } else {
            n - rc
        };
        let rejected_count: usize = if queued {
            0
        } else {
            rc
        };
        let response_rejections = clone_rejections(&rejections);
        let processed_at = if queued {
            None
        } else {
            Some(env.now)
        };
        let stored = StoredSubmission {
            submission_id: submission_id.clone(),
            reference_number: reference_number.clone(),
            bank_code: request.bank_code.clone(),
            reporting_period: request.reporting_period.clone(),
            status,
            record_count: n,
            accepted_count,
            rejected_count,
            rejections,
            submitted_at: env.now,
            processed_at,
            idempotency_key: key,
            attempt_count: 1,
        };
        let ghost sub = stored@;
        assert(sub == new_submission(pre, *request, key, *env, status, sub.rejections, queued));
        self.store_submission(stored);
        proof {
            let subs = stored_view(pre.submissions@);
            lemma_position_of_id(subs, sub.submission_id);
            assert forall|j: int| 0 <= j < subs.len() implies times_valid(#[trigger] subs[j]) by {
                assert(subs[j] == pre.submissions@[j]@);
            }
            let post = stored_view(self.submissions@);
            assert(times_valid(sub));
            assert forall|i: int| 0 <= i < post.len() implies times_valid(#[trigger] post[i]) by {
                match position_of_id(subs, sub.submission_id) {
                    Some(k) => {
                        assert(post == subs.update(k, sub));
                        if i != k {
                            assert(post[i] == subs[i]);
                        }
                    },
                    None => {
                        assert(post == subs.push(sub));
                        if i < subs.len() {
                            assert(post[i] == subs[i]);
                        }
                    },
                }
            }
            assert forall|i: int| 0 <= i < self.submissions@.len() implies times_valid(
                #[trigger] self.submissions@[i]@,
            ) by {
                assert(post[i] == self.submissions@[i]@);
            }
            lemma_upsert_ids_unique(subs, sub);
            lemma_cache_after_store_unique(cache_view(pre.idempotency_cache@), pre.config.max_idempotency_entries, sub);
        }
        let details = if queued {
            one_number("queue_position", self.submissions.len() as u64)
        } else {
            None
        };
        let estimated = if queued {
            match &self.config.mode {
                RegulatorMode::Queued { queue_delay_ms } => Some(*queue_delay_ms / 1000),
                _ => Some(0),
            }
        } else {
            None
        };
        let processed_text = if queued {
            None
        } else {
            Some(to_rfc3339(env.now))
        };
        SubmissionResponse {
            submission_id,
            reference_number,
            status,
            accepted_count,
            rejected_count,
            rejections: response_rejections,
            submitted_at: to_rfc3339(env.now),
            processed_at: processed_text,
            estimated_processing_time_secs: estimated,
            details,
        }
    }

    /// Process a submission under the environment `env`: a repeated
    /// idempotency key is answered with the stored submission; outside the
    /// off-peak window (when it is enforced) the submission is refused;
    /// otherwise the response mode decides. Only a submission that is stored
    /// needs room in the counter.
    pub fn process_submission_with(
        &mut self,
        request: &SubmissionRequest,
        idempotency_key: Option<String>,
        env: &SubmissionEnv,
    ) -> (r: Result<SubmissionResponse, (u16, RejectionError)>)
        requires
            old(self).wf(),
            old(self).config.off_peak_config.enabled && old(self).config.off_peak_config.reject_outside_window
                ==> old(self).config.off_peak_config.timezone_offset <= 104,
            decide(*old(self), *request, idempotency_key, *env) is Store ==> old(self).submission_counter < u64::MAX,
            env_fits(*old(self), *request, *env),
        ensures
            process_post(*old(self), *request, idempotency_key, *env, *final(self), r),
            final(self).wf(),
    {
        match &idempotency_key {
            Some(k) => {
                if self.config.enforce_idempotency {
                    match self.check_idempotency(k.as_str()) {
                        Some(existing) => {
                            proof {
                                let subs = stored_view(self.submissions@);
                                let id = cache_target(cache_view(self.idempotency_cache@), k@)->0;
                                lemma_position_of_id(subs, id);
                                let i = position_of_id(subs, id)->0;
                                assert(subs[i] == self.submissions@[i]@);
                            }
                            return Ok(Self::replay_response(existing));
                        },
                        None => {},
                    }
                }
            },
            None => {},
        }
        let window = self.config.off_peak_config;
        if window.enabled && window.reject_outside_window && !window.is_off_peak_at(env.utc_hour) {
            let mut d: Vec<(String, JsonValue)> = Vec::new();
            d.push((owned("off_peak_start"), JsonValue::from_u64(window.start_hour as u64)));
            d.push((owned("off_peak_end"), JsonValue::from_u64(window.end_hour as u64)));
            assert(entries_view(d@) =~= seq![
                ("off_peak_start"@, JsonValue::Number(u64_number(window.start_hour as u64))),
                ("off_peak_end"@, JsonValue::Number(u64_number(window.end_hour as u64))),
            ]);
            return Err(
                refusal(
                    503,
                    "OUTSIDE_SUBMISSION_WINDOW",
                    "Submissions are only accepted during off-peak hours",
                    Some(d),
                ),
            );
        }
        match self.mode_step(request, env) {
            ModeStep::Refuse(status, e) => Err((status, e)),
            ModeStep::Store(status, rejections, queued) => {
                Ok(self.store_new(request, idempotency_key, env, status, rejections, queued))
            },
        }
    }

    /// Process a submission based on the current mode, reading the clock
    /// and drawing the random numbers the mode needs.
    pub fn process_submission(&mut self, request: &SubmissionRequest, idempotency_key: Option<String>) -> (r: Result<
        SubmissionResponse,
        (u16, RejectionError),
    >)
        requires
            old(self).wf(),
            can_process(*old(self)),
        ensures
            exists|env: SubmissionEnv|
                env_fits(*old(self), *request, env) && process_post(
                    *old(self),
                    *request,
                    idempotency_key,
                    env,
                    *final(self),
                    r,
                ),
            final(self).wf(),
    {
        let t = now();
        let hour = utc_hour(t);
        let generated_id = new_uuid();
        let fail_draw = random_u64();
        let mut record_draws: Vec<(u64, u64)> = Vec::new();
        let partial = match &self.config.mode {
            RegulatorMode::PartialReject { .. } => true,
            _ => false,
        };
        if partial {
            let mut i: usize = 0;
            while i < request.records.len()
                invariant
                    i <= request.records.len(),
                    record_draws@.len() == i,
                decreases request.records.len() - i,
            {
                let a = random_u64();
                let b = random_u64();
                record_draws.push((a, b));
                i = i + 1;
            }
        }
        let env = SubmissionEnv { now: t, utc_hour: hour, generated_id, fail_draw, record_draws };
        proof {
            assert(t.secs as int % 86400 / 3600 < 24);
        }
        let ghost pre = *self;
        let ghost key = idempotency_key;
        let r = self.process_submission_with(request, idempotency_key, &env);
        assert(env_fits(pre, *request, env) && process_post(pre, *request, key, env, *self, r));
        r
    }

    /// The next reference number at the instant `t`: the counter goes up by
    /// one and is written into the number.
    pub fn reference_number_at(&mut self, t: Timestamp) -> (r: String)
        requires
            old(self).submission_counter < u64::MAX,
            valid_timestamp(t),
        ensures
            final(self).submission_counter == old(self).submission_counter + 1,
            r@ == reference_text(t, final(self).submission_counter as nat),
            final(self).config == old(self).config,
            final(self).submissions == old(self).submissions,
            final(self).idempotency_cache == old(self).idempotency_cache,
            final(self).stats == old(self).stats,
            final(self).ready == old(self).ready,
    {
        self.submission_counter = self.submission_counter + 1;
        let mut s = owned("OJK-SLIK-");
        let stamp = to_compact_datetime(t);
        push_str(&mut s, stamp.as_str());
        push_str(&mut s, "-");
        let n = zero_padded(self.submission_counter, 6);
        push_str(&mut s, n.as_str());
        s
    }

    /// Generate a new reference number at the current time.
    pub fn generate_reference_number(&mut self) -> (r: String)
        requires
            old(self).submission_counter < u64::MAX,
        ensures
            final(self).submission_counter == old(self).submission_counter + 1,
            exists|t: Timestamp| valid_timestamp(t) && r@ == reference_text(t, final(self).submission_counter as nat),
            final(self).submissions == old(self).submissions,
            final(self).idempotency_cache == old(self).idempotency_cache,
    {
        let t = now();
        self.reference_number_at(t)
    }
}


// ============================================================================
// Listing, lookup and removal
// ============================================================================

/// Whether a stored submission passes the listing filters.
pub open spec fn listed(s: StoredView, params: ListSubmissionsParams) -> bool {
    &&& (params.bank_code matches Some(b) ==> s.bank_code == b@)
    &&& (params.reporting_period matches Some(p) ==> s.reporting_period == p@)
    &&& (params.status matches Some(st) ==> s.status == st)
}

/// How many of the first `n` submissions pass the listing filters.
pub open spec fn count_listed(subs: Seq<StoredView>, params: ListSubmissionsParams, n: nat) -> nat
    decreases n,
{
    if n == 0 {
        0
    } else if listed(subs[n - 1], params) {
        count_listed(subs, params, (n - 1) as nat) + 1
    } else {
        count_listed(subs, params, (n - 1) as nat)
    }
}

/// The page a listing asks for: at least 1, the first by default.
pub open spec fn requested_page(params: ListSubmissionsParams) -> u32 {
    match params.page {
        Some(p) => if p >= 1 {
            p
        } else {
            1
        },
        None => 1,
    }
}

/// The page size a listing asks for: at most 100, twenty by default.
pub open spec fn requested_page_size(params: ListSubmissionsParams) -> u32 {
    match params.page_size {
        Some(s) => if s <= 100 {
            s
        } else {
            100
        },
        None => 20,
    }
}

/// The position in the listing at which the requested page starts.
pub open spec fn page_start(params: ListSubmissionsParams) -> int {
    (requested_page(params) - 1) * requested_page_size(params)
}

/// Whether `order` lists the positions of the submissions that pass the
/// filters, each once, latest submission first.
pub open spec fn listing_order(subs: Seq<StoredView>, params: ListSubmissionsParams, order: Seq<int>) -> bool {
    &&& forall|k: int| 0 <= k < order.len() ==> 0 <= #[trigger] order[k] < subs.len() && listed(subs[order[k]], params)
    &&& forall|i: int| 0 <= i < subs.len() && listed(#[trigger] subs[i], params) ==> order.contains(i)
    &&& order.no_duplicates()
    &&& forall|a: int, b: int|
        0 <= a < b < order.len() ==> !later_than(
            (#[trigger] subs[order[b]]).submitted_at,
            (#[trigger] subs[order[a]]).submitted_at,
        )
}

/// Whether `r` summarises the stored submission `s`.
pub open spec fn summary_of(r: SubmissionSummary, s: StoredView) -> bool {
    &&& r.submission_id@ == s.submission_id
    &&& r.reference_number@ == s.reference_number
    &&& r.bank_code@ == s.bank_code
    &&& r.reporting_period@ == s.reporting_period
    &&& r.status == s.status
    &&& r.record_count == s.record_count
    &&& r.accepted_count == s.accepted_count
    &&& r.rejected_count == s.rejected_count
    &&& r.submitted_at@ == rfc3339_text(s.submitted_at.secs, s.submitted_at.nanos)
}

/// One page of a submission listing.
#[derive(Debug)]
pub struct SubmissionPage {
    pub items: Vec<SubmissionSummary>,
    pub page: u32,
    pub page_size: u32,
    pub total_count: u64,
}

/// The position of the first cache entry for `key`.
pub open spec fn key_position(cache: Seq<(Seq<char>, Seq<char>)>, key: Seq<char>) -> Option<int>
    decreases cache.len(),
{
    if cache.len() == 0 {
        None
    } else if cache[0].0 == key {
        Some(0)
    } else {
        match key_position(cache.drop_first(), key) {
            Some(i) => Some(i + 1),
            None => None,
        }
    }
}

/// A found key position is in range and holds the key, with none before
/// it; a missing one means no entry has the key.
pub proof fn lemma_key_position(cache: Seq<(Seq<char>, Seq<char>)>, key: Seq<char>)
    ensures
        key_position(cache, key) matches Some(i) ==> 0 <= i < cache.len() && cache[i].0 == key,
        key_position(cache, key) is None ==> forall|j: int| 0 <= j < cache.len() ==> (#[trigger] cache[j]).0 != key,
        key_position(cache, key) is None <==> cache_target(cache, key) is None,
    decreases cache.len(),
{
    if cache.len() > 0 {
        let rest = cache.drop_first();
        lemma_key_position(rest, key);
        if cache[0].0 != key {
            assert forall|j: int| 0 < j < cache.len() implies (#[trigger] cache[j]) == rest[j - 1] by {}
        }
    }
}

/// The cache without the entry for `key`.
pub open spec fn cache_without(cache: Seq<(Seq<char>, Seq<char>)>, key: Seq<char>) -> Seq<(Seq<char>, Seq<char>)> {
    match key_position(cache, key) {
        Some(i) => cache.remove(i),
        None => cache,
    }
}

/// How many of the first `n` submissions have status `st`.
pub open spec fn count_status(subs: Seq<StoredView>, st: SubmissionStatus, n: nat) -> nat
    decreases n,
{
    if n == 0 {
        0
    } else if subs[n - 1].status == st {
        count_status(subs, st, (n - 1) as nat) + 1
    } else {
        count_status(subs, st, (n - 1) as nat)
    }
}

/// Counts never exceed the number of submissions counted.
pub proof fn lemma_count_status_bound(subs: Seq<StoredView>, st: SubmissionStatus, n: nat)
    ensures
        count_status(subs, st, n) <= n,
    decreases n,
{
    if n > 0 {
        lemma_count_status_bound(subs, st, (n - 1) as nat);
    }
}

/// Whether two optional strings hold the same characters.
fn opt_matches(filter: &Option<String>, value: &String) -> (r: bool)
    ensures
        r == (filter matches Some(f) ==> value@ == f@),
{
    match filter {
        Some(f) => str_eq(f.as_str(), value.as_str()),
        None => true,
    }
}

/// Whether `a` is later than `b`.
fn is_later(a: Timestamp, b: Timestamp) -> (r: bool)
    ensures
        r == later_than(a, b),
{
    a.secs > b.secs || (a.secs == b.secs && a.nanos > b.nanos)
}

impl RegulatorEndpointState {
    /// The stored submission answered by a status lookup.
    pub fn submission_response(&self, id: &str) -> (r: Option<SubmissionResponse>)
        requires
            self.wf(),
        ensures
            r matches Some(resp) ==> find_submission(stored_view(self.submissions@), id@) matches Some(s)
                && response_of(resp, s, None, None),
            r is None ==> find_submission(stored_view(self.submissions@), id@) is None,
    {
        proof {
            lemma_position_of_id(stored_view(self.submissions@), id@);
        }
        match self.index_of(id) {
            Some(i) => {
                let s = &self.submissions[i];
                assert(stored_view(self.submissions@)[i as int] == s@);
                assert(times_valid(self.submissions@[i as int]@));
                let processed_at = match s.processed_at {
                    Some(t) => Some(to_rfc3339(t)),
                    None => None,
                };
                Some(
                    SubmissionResponse {
                        submission_id: s.submission_id.clone(),
                        reference_number: s.reference_number.clone(),
                        status: s.status,
                        accepted_count: s.accepted_count,
                        rejected_count: s.rejected_count,
                        rejections: clone_rejections(&s.rejections),
                        submitted_at: to_rfc3339(s.submitted_at),
                        processed_at,
                        estimated_processing_time_secs: None,
                        details: None,
                    },
                )
            },
            None => None,
        }
    }

    /// Whether the submission at position `i` passes the listing filters.
    fn passes(&self, i: usize, params: &ListSubmissionsParams) -> (r: bool)
        requires
            i < self.submissions@.len(),
        ensures
            r == listed(self.submissions@[i as int]@, *params),
    {
        let s = &self.submissions[i];
        let status_ok = match params.status {
            Some(st) => st == s.status,
            None => true,
        };
        opt_matches(&params.bank_code, &s.bank_code) && opt_matches(&params.reporting_period, &s.reporting_period)
            && status_ok
    }

    /// How many stored submissions pass the listing filters.
    pub fn count_submissions(&self, params: &ListSubmissionsParams) -> (r: usize)
        ensures
            r == count_listed(stored_view(self.submissions@), *params, self.submissions@.len() as nat),
    {
        let ghost subs = stored_view(self.submissions@);
        let mut n: usize = 0;
        let mut i: usize = 0;
        while i < self.submissions.len()
            invariant
                i <= self.submissions.len(),
                subs == stored_view(self.submissions@),
                n == count_listed(subs, *params, i as nat),
                n <= i,
            decreases self.submissions.len() - i,
        {
            if self.passes(i, params) {
                n = n + 1;
            }
            i = i + 1;
        }
        n
    }

    /// The positions of the submissions that pass the filters, latest
    /// submission first (among equal instants, in the order stored).
    #[verifier::rlimit(60)]
    fn listing_positions(&self, params: &ListSubmissionsParams) -> (r: Vec<usize>)
        ensures
            listing_order(stored_view(self.submissions@), *params, r@.map_values(|p: usize| p as int)),
            r@.len() == count_listed(stored_view(self.submissions@), *params, self.submissions@.len() as nat),
    {
        let ghost subs = stored_view(self.submissions@);
        let mut order: Vec<usize> = Vec::new();
        let mut i: usize = 0;
        while i < self.submissions.len()
            invariant
                i <= self.submissions.len(),
                subs == stored_view(self.submissions@),
                order@.len() == count_listed(subs, *params, i as nat),
                order@.len() <= i,
                forall|k: int| 0 <= k < order@.len() ==> (#[trigger] order@[k]) < i && listed(subs[order@[k] as int], *params),
                forall|j: int| 0 <= j < i && listed(#[trigger] subs[j], *params) ==> exists|k: int| 0 <= k < order@.len() && order@[k] == j,
                forall|a: int, b: int| 0 <= a < b < order@.len() ==> (#[trigger] order@[a]) != (#[trigger] order@[b]),
                forall|a: int, b: int|
                    0 <= a < b < order@.len() ==> !later_than(
                        subs[(#[trigger] order@[b]) as int].submitted_at,
                        subs[(#[trigger] order@[a]) as int].submitted_at,
                    ),
            decreases self.submissions.len() - i,
        {
            if self.passes(i, params) {
                let t = self.submissions[i].submitted_at;
                assert(subs[i as int].submitted_at == t);
                let mut q: usize = 0;
                while q < order.len()
                    invariant
                        q <= order@.len(),
                        i < self.submissions@.len(),
                        subs == stored_view(self.submissions@),
                        subs[i as int].submitted_at == t,
                        forall|k: int| 0 <= k < order@.len() ==> (#[trigger] order@[k]) < i,
                        forall|a: int| 0 <= a < q ==> !later_than(t, subs[(#[trigger] order@[a]) as int].submitted_at),
                    ensures
                        q <= order@.len(),
                        forall|a: int| 0 <= a < q ==> !later_than(t, subs[(#[trigger] order@[a]) as int].submitted_at),
                        q < order@.len() ==> later_than(t, subs[order@[q as int] as int].submitted_at),
                    decreases order@.len() - q,
                {
                    let p = order[q];
                    assert(subs[p as int] == self.submissions@[p as int]@);
                    if is_later(t, self.submissions[p].submitted_at) {
                        break;
                    }
                    q = q + 1;
                }
                let ghost old_order = order@;
                order.insert(q, i);
                proof {
                    assert(order@ == old_order.insert(q as int, i));
                    assert forall|k: int| 0 <= k < order@.len() implies (#[trigger] order@[k]) < i + 1 && listed(
                        subs[order@[k] as int],
                        *params,
                    ) by {
                        if k < q {
                            assert(order@[k] == old_order[k]);
                        } else if k > q {
                            assert(order@[k] == old_order[k - 1]);
                        }
                    }
                    assert forall|j: int| 0 <= j < i + 1 && listed(#[trigger] subs[j], *params) implies exists|
                        k: int,
                    | 0 <= k < order@.len() && order@[k] == j by {
                        if j == i {
                            assert(order@[q as int] == i);
                        } else {
                            let k0 = choose|k: int| 0 <= k < old_order.len() && old_order[k] == j;
                            if k0 < q {
                                assert(order@[k0] == j);
                            } else {
                                assert(order@[k0 + 1] == j);
                            }
                        }
                    }
                    assert forall|a: int, b: int| 0 <= a < b < order@.len() implies (#[trigger] order@[a]) != (
                    #[trigger] order@[b]) by {
                        if a < q && b < q {
                            assert(order@[a] == old_order[a] && order@[b] == old_order[b]);
                        } else if a < q && b == q {
                            assert(order@[a] == old_order[a]);
                        } else if a < q {
                            assert(order@[a] == old_order[a] && order@[b] == old_order[b - 1]);
                        } else if a == q {
                            assert(order@[b] == old_order[b - 1]);
                        } else {
                            assert(order@[a] == old_order[a - 1] && order@[b] == old_order[b - 1]);
                        }
                    }
                    assert forall|a: int, b: int| 0 <= a < b < order@.len() implies !later_than(
                        subs[(#[trigger] order@[b]) as int].submitted_at,
                        subs[(#[trigger] order@[a]) as int].submitted_at,
                    ) by {
                        if q < old_order.len() {
                            assert(later_than(t, subs[old_order[q as int] as int].submitted_at));
                        }
                        if a < q && b < q {
                            assert(order@[a] == old_order[a] && order@[b] == old_order[b]);
                        } else if a < q && b == q {
                            assert(order@[a] == old_order[a]);
                        } else if a < q {
                            assert(order@[a] == old_order[a] && order@[b] == old_order[b - 1]);
                            assert(!later_than(
                                subs[old_order[b - 1] as int].submitted_at,
                                subs[old_order[a] as int].submitted_at,
                            ));
                        } else if a == q {
                            assert(order@[b] == old_order[b - 1]);
                            if b - 1 > q {
                                assert(!later_than(
                                    subs[old_order[b - 1] as int].submitted_at,
                                    subs[old_order[q as int] as int].submitted_at,
                                ));
                            }
                        } else {
                            assert(order@[a] == old_order[a - 1] && order@[b] == old_order[b - 1]);
                        }
                    }
                }
            }
            i = i + 1;
        }
        proof {
            let ord = order@.map_values(|p: usize| p as int);
            assert forall|k: int| 0 <= k < ord.len() implies 0 <= #[trigger] ord[k] < subs.len() && listed(
                subs[ord[k]],
                *params,
            ) by {
                assert(ord[k] == order@[k] as int);
            }
            assert forall|j: int| 0 <= j < subs.len() && listed(#[trigger] subs[j], *params) implies ord.contains(j) by {
                let k = choose|k: int| 0 <= k < order@.len() && order@[k] == j;
                assert(ord[k] == j);
            }
            assert forall|a: int, b: int| 0 <= a < b < ord.len() implies ord[a] != ord[b] by {
                assert(order@[a] != order@[b]);
            }
            assert forall|a: int, b: int| 0 <= a < b < ord.len() implies !later_than(
                (#[trigger] subs[ord[b]]).submitted_at,
                (#[trigger] subs[ord[a]]).submitted_at,
            ) by {
                assert(ord[a] == order@[a] as int && ord[b] == order@[b] as int);
                assert(!later_than(subs[order@[b] as int].submitted_at, subs[order@[a] as int].submitted_at));
            }
        }
        order
    }
}

/// The position in a listing of `total` items at which the requested page
/// ends.
pub open spec fn page_end(params: ListSubmissionsParams, total: nat) -> int {
    if page_start(params) + requested_page_size(params) <= total {
        page_start(params) + requested_page_size(params)
    } else {
        total as int
    }
}

/// Whether `items` is the requested page of the listing in `order`.
pub open spec fn page_of(
    items: Seq<SubmissionSummary>,
    subs: Seq<StoredView>,
    params: ListSubmissionsParams,
    order: Seq<int>,
) -> bool {
    &&& items.len() == page_end(params, order.len()) - page_start(params)
    &&& forall|k: int| 0 <= k < items.len() ==> summary_of(#[trigger] items[k], subs[order[page_start(params) + k]])
}

impl RegulatorEndpointState {
    /// Lists the stored submissions that pass the filters, latest first,
    /// one page of them.
    pub fn list_submissions(&self, params: &ListSubmissionsParams) -> (r: SubmissionPage)
        requires
            self.wf(),
            page_start(*params) <= u32::MAX,
            page_start(*params) <= count_listed(
                stored_view(self.submissions@),
                *params,
                self.submissions@.len() as nat,
            ),
        ensures
            r.page == requested_page(*params),
            r.page_size == requested_page_size(*params),
            r.total_count == count_listed(stored_view(self.submissions@), *params, self.submissions@.len() as nat),
            exists|order: Seq<int>|
                listing_order(stored_view(self.submissions@), *params, order) && order.len() == r.total_count
                    && page_of(r.items@, stored_view(self.submissions@), *params, order),
    {
        let ghost subs = stored_view(self.submissions@);
        let page: u32 = match params.page {
            Some(p) => if p >= 1 {
                p
            } else {
                1
            },
            None => 1,
        };
        let page_size: u32 = match params.page_size {
            Some(s) => if s <= 100 {
                s
            } else {
                100
            },
            None => 20,
        };
        let positions = self.listing_positions(params);
        let ghost order = positions@.map_values(|p: usize| p as int);
        let total = positions.len();
        proof {
            assert(page_start(*params) == (page - 1) * page_size);
        }
        let start: usize = ((page - 1) as u64 * page_size as u64) as usize;
        let end: usize = if (total - start) as u64 >= page_size as u64 {
            start + page_size as usize
        } else {
            total
        };
        let mut items: Vec<SubmissionSummary> = Vec::new();
        let mut k: usize = start;
        while k < end
            invariant
                start <= k <= end <= total,
                total == positions@.len(),
                start == page_start(*params),
                end == page_end(*params, total as nat),
                subs == stored_view(self.submissions@),
                self.wf(),
                order == positions@.map_values(|p: usize| p as int),
                listing_order(subs, *params, order),
                items@.len() == k - start,
                forall|m: int| 0 <= m < items@.len() ==> summary_of(#[trigger] items@[m], subs[order[start + m]]),
            decreases end - k,
        {
            let p = positions[k];
            assert(order[k as int] == p as int);
            let s = &self.submissions[p];
            assert(subs[p as int] == s@);
            assert(times_valid(self.submissions@[p as int]@));
            let summary = SubmissionSummary {
                submission_id: s.submission_id.clone(),
                reference_number: s.reference_number.clone(),
                bank_code: s.bank_code.clone(),
                reporting_period: s.reporting_period.clone(),
                status: s.status,
                record_count: s.record_count,
                accepted_count: s.accepted_count,
                rejected_count: s.rejected_count,
                submitted_at: to_rfc3339(s.submitted_at),
            };
            items.push(summary);
            k = k + 1;
        }
        assert(order.len() == total);
        assert(page_of(items@, subs, *params, order));
        SubmissionPage { items, page, page_size, total_count: total as u64 }
    }

    /// The position of the first cache entry for `key`.
    fn cache_index(&self, key: &str) -> (r: Option<usize>)
        ensures
            r matches Some(i) ==> key_position(cache_view(self.idempotency_cache@), key@) == Some(i as int),
            r is None ==> key_position(cache_view(self.idempotency_cache@), key@) is None,
    {
        let ghost c = cache_view(self.idempotency_cache@);
        let mut i: usize = 0;
        assert(c.skip(0) =~= c);
        while i < self.idempotency_cache.len()
            invariant
                i <= self.idempotency_cache.len(),
                c == cache_view(self.idempotency_cache@),
                key_position(c, key@) == (match key_position(c.skip(i as int), key@) {
                    Some(j) => Some(j + i),
                    None => None::<int>,
                }),
            decreases self.idempotency_cache.len() - i,
        {
            assert(c.skip(i as int)[0] == c[i as int]);
            assert(c.skip(i as int).drop_first() =~= c.skip(i + 1));
            if str_eq(self.idempotency_cache[i].0.as_str(), key) {
                return Some(i);
            }
            i = i + 1;
        }
        None
    }

    /// Delete a submission (for testing): it leaves the store, and its
    /// idempotency key leaves the cache. Answers whether it was there.
    pub fn delete_submission(&mut self, id: &str) -> (r: bool)
        requires
            old(self).wf(),
        ensures
            r == (find_submission(stored_view(old(self).submissions@), id@) is Some),
            match position_of_id(stored_view(old(self).submissions@), id@) {
                Some(i) => {
                    &&& stored_view(final(self).submissions@) == stored_view(old(self).submissions@).remove(i)
                    &&& cache_view(final(self).idempotency_cache@) == match old(self).submissions@[i]@.idempotency_key {
                        Some(k) => cache_without(cache_view(old(self).idempotency_cache@), k),
                        None => cache_view(old(self).idempotency_cache@),
                    }
                },
                None => final(self).submissions@ == old(self).submissions@ && final(self).idempotency_cache@
                    == old(self).idempotency_cache@,
            },
            find_submission(stored_view(final(self).submissions@), id@) is None,
            position_of_id(stored_view(old(self).submissions@), id@) matches Some(i) ==> (old(
                self,
            ).submissions@[i]@.idempotency_key matches Some(k) ==> final(self).spec_lookup(k) is None),
            final(self).config == old(self).config,
            final(self).stats == old(self).stats,
            final(self).ready == old(self).ready,
            final(self).submission_counter == old(self).submission_counter,
            final(self).wf(),
    {
        let ghost subs = stored_view(self.submissions@);
        let ghost cache = cache_view(self.idempotency_cache@);
        proof {
            lemma_position_of_id(subs, id@);
        }
        match self.index_of(id) {
            Some(i) => {
                let removed = self.submissions.remove(i);
                assert(removed@ == subs[i as int]);
                assert(stored_view(self.submissions@) =~= subs.remove(i as int));
                let ghost post = stored_view(self.submissions@);
                proof {
                    assert forall|j: int| 0 <= j < post.len() implies (#[trigger] post[j]).submission_id != id@ by {
                        if j < i {
                            assert(post[j] == subs[j]);
                        } else {
                            assert(post[j] == subs[j + 1]);
                        }
                    }
                    lemma_position_of_id(post, id@);
                    assert forall|a: int, b: int| 0 <= a < b < post.len() implies (#[trigger] post[a]).submission_id
                        != (#[trigger] post[b]).submission_id by {
                        let a0 = if a < i { a } else { a + 1 };
                        let b0 = if b < i { b } else { b + 1 };
                        assert(post[a] == subs[a0] && post[b] == subs[b0]);
                    }
                    assert forall|j: int| 0 <= j < self.submissions@.len() implies times_valid(
                        #[trigger] self.submissions@[j]@,
                    ) by {
                        if j < i {
                            assert(self.submissions@[j] == old(self).submissions@[j]);
                        } else {
                            assert(self.submissions@[j] == old(self).submissions@[j + 1]);
                        }
                    }
                }
                match &removed.idempotency_key {
                    Some(key) => {
                        proof {
                            lemma_key_position(cache, key@);
                        }
                        match self.cache_index(key.as_str()) {
                            Some(ci) => {
                                self.idempotency_cache.remove(ci);
                                let ghost c2 = cache_view(self.idempotency_cache@);
                                assert(c2 =~= cache.remove(ci as int));
                                proof {
                                    assert forall|j: int| 0 <= j < c2.len() implies (#[trigger] c2[j]).0 != key@ by {
                                        if j < ci {
                                            assert(c2[j] == cache[j]);
                                        } else {
                                            assert(c2[j] == cache[j + 1]);
                                        }
                                    }
                                    lemma_key_position(c2, key@);
                                    assert forall|a: int, b: int| 0 <= a < b < c2.len() implies (#[trigger] c2[a]).0
                                        != (#[trigger] c2[b]).0 by {
                                        let a0 = if a < ci { a } else { a + 1 };
                                        let b0 = if b < ci { b } else { b + 1 };
                                        assert(c2[a] == cache[a0] && c2[b] == cache[b0]);
                                    }
                                }
                            },
                            None => {
                                proof {
                                    lemma_key_position(cache, key@);
                                }
                            },
                        }
                    },
                    None => {},
                }
                true
            },
            None => false,
        }
    }

    /// Clear all submissions and idempotency keys.
    pub fn clear_submissions(&mut self)
        ensures
            final(self).submissions@.len() == 0,
            final(self).idempotency_cache@.len() == 0,
            final(self).config == old(self).config,
            final(self).stats == old(self).stats,
            final(self).ready == old(self).ready,
            final(self).submission_counter == old(self).submission_counter,
            final(self).wf(),
    {
        self.submissions.clear();
        self.idempotency_cache.clear();
    }

    /// Reset: statistics, submissions, keys and the counter start over,
    /// and the mode goes back to accepting.
    pub fn reset(&mut self)
        ensures
            final(self).stats.is_zero(),
            final(self).submissions@.len() == 0,
            final(self).idempotency_cache@.len() == 0,
            final(self).submission_counter == 0,
            final(self).config == (RegulatorEndpointConfig { mode: RegulatorMode::Accept, ..old(self).config }),
            final(self).ready == old(self).ready,
            final(self).wf(),
    {
        self.stats = SimulatorStats::default();
        self.submissions.clear();
        self.idempotency_cache.clear();
        self.submission_counter = 0;
        self.config.mode = RegulatorMode::Accept;
    }

    /// Set the response mode.
    pub fn set_mode(&mut self, mode: RegulatorMode)
        ensures
            final(self).config == (RegulatorEndpointConfig { mode: mode, ..old(self).config }),
            final(self).submissions == old(self).submissions,
            final(self).idempotency_cache == old(self).idempotency_cache,
            final(self).stats == old(self).stats,
            final(self).ready == old(self).ready,
            final(self).submission_counter == old(self).submission_counter,
    {
        self.config.mode = mode;
    }

    /// The current response mode.
    pub fn mode(&self) -> (r: &RegulatorMode)
        ensures
            *r == self.config.mode,
    {
        &self.config.mode
    }

    /// The number of stored submissions, of accepted ones and of rejected ones.
    pub fn submission_counts(&self) -> (r: (u64, u64, u64))
        ensures
            r.0 == self.submissions@.len(),
            r.1 == count_status(stored_view(self.submissions@), SubmissionStatus::Accepted, self.submissions@.len() as nat),
            r.2 == count_status(stored_view(self.submissions@), SubmissionStatus::Rejected, self.submissions@.len() as nat),
    {
        let ghost subs = stored_view(self.submissions@);
        let mut accepted: u64 = 0;
        let mut rejected: u64 = 0;
        let mut i: usize = 0;
        while i < self.submissions.len()
            invariant
                i <= self.submissions.len(),
                subs == stored_view(self.submissions@),
                accepted == count_status(subs, SubmissionStatus::Accepted, i as nat),
                rejected == count_status(subs, SubmissionStatus::Rejected, i as nat),
            decreases self.submissions.len() - i,
        {
            proof {
                lemma_count_status_bound(subs, SubmissionStatus::Accepted, i as nat);
                lemma_count_status_bound(subs, SubmissionStatus::Rejected, i as nat);
            }
            assert(subs[i as int].status == self.submissions@[i as int].status);
            match self.submissions[i].status {
                SubmissionStatus::Accepted => {
                    accepted = accepted + 1;
                },
                SubmissionStatus::Rejected => {
                    rejected = rejected + 1;
                },
                _ => {},
            }
            i = i + 1;
        }
        (self.submissions.len() as u64, accepted, rejected)
    }
}


// ============================================================================
// Laws
// ============================================================================

/// There are never more rejections than records.
pub proof fn lemma_partial_rejections_len(
    records: Seq<JsonDocument>,
    draws: Seq<(u64, u64)>,
    ratio: Ratio,
    n: nat,
)
    ensures
        partial_rejections(records, draws, ratio, n).len() <= n,
    decreases n,
{
    if n > 0 {
        lemma_partial_rejections_len(records, draws, ratio, (n - 1) as nat);
    }
}

/// Looking up a key whose only entry is the last one finds that entry.
pub proof fn lemma_cache_target_last(cache: Seq<(Seq<char>, Seq<char>)>, key: Seq<char>)
    requires
        cache.len() > 0,
        cache.last().0 == key,
        forall|j: int| 0 <= j < cache.len() - 1 ==> (#[trigger] cache[j]).0 != key,
    ensures
        cache_target(cache, key) == Some(cache.last().1),
    decreases cache.len(),
{
    if cache.len() > 1 {
        let rest = cache.drop_first();
        assert forall|j: int| 0 <= j < rest.len() - 1 implies (#[trigger] rest[j]).0 != key by {
            assert(rest[j] == cache[j + 1]);
        }
        lemma_cache_target_last(rest, key);
    }
}

/// After a submission is put in, looking its id up finds it.
pub proof fn lemma_upsert_find(subs: Seq<StoredView>, sub: StoredView)
    ensures
        find_submission(store_upsert(subs, sub), sub.submission_id) == Some(sub),
{
    let id = sub.submission_id;
    lemma_position_of_id(subs, id);
    let post = store_upsert(subs, sub);
    lemma_position_of_id(post, id);
    let k = match position_of_id(subs, id) {
        Some(i) => i,
        None => subs.len() as int,
    };
    assert(post[k] == sub);
    assert forall|j: int| 0 <= j < k implies (#[trigger] post[j]).submission_id != id by {
        assert(post[j] == subs[j]);
    }
    match position_of_id(post, id) {
        Some(i) => {
            assert(i == k);
        },
        None => {
            assert(post[k].submission_id == id);
        },
    }
}

/// Mapping a key makes a lookup of it find the id it was mapped to.
proof fn lemma_cache_target_insert(cache: Seq<(Seq<char>, Seq<char>)>, key: Seq<char>, id: Seq<char>)
    ensures
        cache_target(cache_insert(cache, key, id), key) == Some(id),
    decreases cache.len(),
{
    if cache.len() > 0 && cache[0].0 != key {
        let rest = cache.drop_first();
        lemma_cache_target_insert(rest, key, id);
        let ci = cache_insert(cache, key, id);
        assert(ci == seq![cache[0]] + cache_insert(rest, key, id));
        assert(ci.drop_first() =~= cache_insert(rest, key, id));
    }
}

/// Putting a submission in leaves every other id finding what it found.
proof fn lemma_upsert_find_other(subs: Seq<StoredView>, sub: StoredView, other: Seq<char>)
    requires
        other != sub.submission_id,
    ensures
        find_submission(store_upsert(subs, sub), other) == find_submission(subs, other),
{
    let post = store_upsert(subs, sub);
    lemma_position_of_id(subs, other);
    lemma_position_of_id(post, other);
    lemma_position_of_id(subs, sub.submission_id);
    assert forall|j: int| 0 <= j < subs.len() implies (#[trigger] post[j]).submission_id == other
        <==> subs[j].submission_id == other by {
        if position_of_id(subs, sub.submission_id) == Some(j) {
            assert(post[j] == sub);
        } else {
            assert(post[j] == subs[j]);
        }
    }
    if post.len() > subs.len() {
        assert(post[subs.len() as int] == sub);
    }
    match (position_of_id(subs, other), position_of_id(post, other)) {
        (Some(p), Some(q)) => {
            if p < q {
                assert(post[p].submission_id == other);
            } else if q < p {
                assert(subs[q].submission_id == other);
            }
            assert(post[p] == subs[p]) by {
                if position_of_id(subs, sub.submission_id) == Some(p) {
                    assert(subs[p].submission_id == sub.submission_id);
                }
            }
        },
        (Some(p), None) => {
            assert(post[p].submission_id == other);
        },
        (None, Some(q)) => {
            assert(q < subs.len());
            assert(subs[q].submission_id == other);
        },
        (None, None) => {},
    }
}

/// Storing a submission: it is found under its id and every other stored
/// submission is found as before; a cache within its limit (of at least
/// one entry) stays within it, only older entries being dropped, so the
/// submission's idempotency key, if it has one, maps to its id.
pub proof fn law_store_keeps_cache_bounded(
    subs: Seq<StoredView>,
    cache: Seq<(Seq<char>, Seq<char>)>,
    max: usize,
    sub: StoredView,
    other: Seq<char>,
)
    requires
        keys_unique(cache),
        cache.len() <= max,
        max >= 1,
        other != sub.submission_id,
    ensures
        find_submission(store_upsert(subs, sub), sub.submission_id) == Some(sub),
        find_submission(store_upsert(subs, sub), other) == find_submission(subs, other),
        cache_after_store(cache, max, sub).len() <= max,
        sub.idempotency_key matches Some(k) ==> cache_target(cache_after_store(cache, max, sub), k) == Some(
            sub.submission_id,
        ),
{
    lemma_upsert_find(subs, sub);
    lemma_upsert_find_other(subs, sub, other);
    match sub.idempotency_key {
        Some(k) => {
            let id = sub.submission_id;
            lemma_cache_insert_keys(cache, k, id);
            let c1 = cache_insert(cache, k, id);
            if c1.len() > max {
                assert(c1.len() == cache.len() + 1);
                lemma_cache_insert_absent(cache, k, id);
                assert(c1 == cache.push((k, id)));
                let h = (c1.len() / 2) as int;
                let c2 = c1.skip(h);
                assert(c2.len() <= max);
                assert(c2.last() == (k, id));
                assert forall|j: int| 0 <= j < c2.len() - 1 implies (#[trigger] c2[j]).0 != k by {
                    assert(c2[j] == cache[j + h]);
                }
                lemma_cache_target_last(c2, k);
            } else {
                lemma_cache_target_insert(cache, k, id);
            }
        },
        None => {},
    }
}

/// Idempotency: a submission stored under a key not seen before, sent again
/// with the same key, is answered with the same submission id and reference
/// number, and the second call changes nothing.
pub proof fn law_idempotent_resubmission(
    s0: RegulatorEndpointState,
    req1: SubmissionRequest,
    key1: String,
    env1: SubmissionEnv,
    s1: RegulatorEndpointState,
    r1: Result<SubmissionResponse, (u16, RejectionError)>,
    req2: SubmissionRequest,
    key2: String,
    env2: SubmissionEnv,
    s2: RegulatorEndpointState,
    r2: Result<SubmissionResponse, (u16, RejectionError)>,
)
    requires
        s0.config.enforce_idempotency,
        cache_target(cache_view(s0.idempotency_cache@), key1@) is None,
        key2@ == key1@,
        process_post(s0, req1, Some(key1), env1, s1, r1),
        r1 is Ok,
        process_post(s1, req2, Some(key2), env2, s2, r2),
    ensures
        s2 == s1,
        r1 matches Ok(a) && r2 matches Ok(b) && b.submission_id@ == a.submission_id@ && b.reference_number@
            == a.reference_number@ && b.status == a.status,
{
    let c0 = cache_view(s0.idempotency_cache@);
    let d = decide(s0, req1, Some(key1), env1);
    assert(d is Store);
    let (status, rejections, queued) = match d {
        Decision::Store { status, rejections, queued } => (status, rejections, queued),
        _ => arbitrary(),
    };
    let sub = new_submission(s0, req1, Some(key1), env1, status, rejections, queued);
    lemma_key_position(c0, key1@);
    lemma_cache_insert_absent(c0, key1@, sub.submission_id);
    let c1 = c0.push((key1@, sub.submission_id));
    let c2 = cache_view(s1.idempotency_cache@);
    if c1.len() > s0.config.max_idempotency_entries {
        let h = (c1.len() / 2) as int;
        assert(c2 == c1.skip(h));
        assert forall|j: int| 0 <= j < c2.len() - 1 implies (#[trigger] c2[j]).0 != key1@ by {
            assert(c2[j] == c1[j + h]);
        }
        assert(c2.last() == c1.last());
    } else {
        assert(c2 == c1);
        assert forall|j: int| 0 <= j < c2.len() - 1 implies (#[trigger] c2[j]).0 != key1@ by {
            assert(c2[j] == c0[j]);
        }
    }
    lemma_cache_target_last(c2, key1@);
    lemma_upsert_find(stored_view(s0.submissions@), sub);
    assert(s1.spec_lookup(key2@) == Some(sub));
}

/// A refused submission changes nothing in the state.
pub proof fn law_refusal_changes_nothing(
    pre: RegulatorEndpointState,
    req: SubmissionRequest,
    key: Option<String>,
    env: SubmissionEnv,
    post: RegulatorEndpointState,
    r: Result<SubmissionResponse, (u16, RejectionError)>,
)
    requires
        process_post(pre, req, key, env, post, r),
        r is Err,
    ensures
        post == pre,
{
}

/// A submission that is processed (not answered from the idempotency cache)
/// and not queued accounts for every record: accepted plus rejected is the
/// number of records, and one reference number is used up.
pub proof fn law_record_counts_add_up(
    pre: RegulatorEndpointState,
    req: SubmissionRequest,
    key: Option<String>,
    env: SubmissionEnv,
    post: RegulatorEndpointState,
    r: Result<SubmissionResponse, (u16, RejectionError)>,
)
    requires
        process_post(pre, req, key, env, post, r),
        !(decide(pre, req, key, env) is Replay),
        r matches Ok(resp) && resp.status != SubmissionStatus::Queued,
    ensures
        r matches Ok(resp) && resp.accepted_count + resp.rejected_count == req.records@.len(),
        post.submission_counter == pre.submission_counter + 1,
{
    assert(req.records.len() == req.records@.len());
    match decide(pre, req, key, env) {
        Decision::Store { status, rejections, queued } => {
            if let RegulatorMode::PartialReject { reject_ratio } = pre.config.mode {
                lemma_partial_rejections_len(req.records@, env.record_draws@, reject_ratio, req.records@.len());
            }
            assert(rejections.len() <= req.records@.len());
            assert(!queued);
        },
        _ => {},
    }
}

/// The status a stored submission is answered with agrees with its counts:
/// a submission of at least one record of which none is accepted is
/// rejected; a partly accepted one has records both accepted and rejected;
/// one with no rejected record is accepted.
pub proof fn law_status_agrees_with_counts(
    pre: RegulatorEndpointState,
    req: SubmissionRequest,
    key: Option<String>,
    env: SubmissionEnv,
    post: RegulatorEndpointState,
    r: Result<SubmissionResponse, (u16, RejectionError)>,
)
    requires
        process_post(pre, req, key, env, post, r),
        !(decide(pre, req, key, env) is Replay),
        r matches Ok(resp) && resp.status != SubmissionStatus::Queued,
    ensures
        r matches Ok(resp) && {
            &&& req.records@.len() > 0 && resp.accepted_count == 0 ==> resp.status == SubmissionStatus::Rejected
            &&& resp.status == SubmissionStatus::PartiallyAccepted ==> resp.accepted_count > 0 && resp.rejected_count
                > 0
            &&& resp.rejected_count == 0 ==> resp.status == SubmissionStatus::Accepted
            &&& resp.accepted_count + resp.rejected_count == req.records@.len()
        },
{
    match decide(pre, req, key, env) {
        Decision::Store { status, rejections, queued } => {
            if let RegulatorMode::PartialReject { reject_ratio } = pre.config.mode {
                lemma_partial_rejections_len(req.records@, env.record_draws@, reject_ratio, req.records@.len());
            }
            assert(rejections.len() <= req.records@.len());
            assert(!queued);
            let n = req.records@.len();
            assert(req.records.len() == n);
            let sub = new_submission(pre, req, key, env, status, rejections, queued);
            assert(sub.accepted_count == n - rejections.len());
            assert(sub.rejected_count == rejections.len());
            match pre.config.mode {
                RegulatorMode::PartialReject { reject_ratio } => {
                    assert(status == partial_status(n, rejections.len()));
                },
                _ => {
                    assert(status == SubmissionStatus::Accepted && rejections.len() == 0);
                },
            }
        },
        _ => {},
    }
}

/// Every item of a page of a submission listing passes the filters asked
/// for: it has the bank code, the reporting period and the status the
/// listing names.
pub proof fn law_listing_respects_filters(
    items: Seq<SubmissionSummary>,
    subs: Seq<StoredView>,
    params: ListSubmissionsParams,
    order: Seq<int>,
)
    requires
        listing_order(subs, params, order),
        page_of(items, subs, params, order),
    ensures
        forall|k: int|
            0 <= k < items.len() ==> {
                &&& (params.bank_code matches Some(b) ==> (#[trigger] items[k]).bank_code@ == b@)
                &&& (params.reporting_period matches Some(p) ==> items[k].reporting_period@ == p@)
                &&& (params.status matches Some(st) ==> items[k].status == st)
            },
{
    let start = page_start(params);
    assert(start >= 0) by (nonlinear_arith)
        requires
            start == (requested_page(params) - 1) * requested_page_size(params),
            requested_page(params) >= 1,
    ;
    assert forall|k: int| 0 <= k < items.len() implies {
        &&& (params.bank_code matches Some(b) ==> (#[trigger] items[k]).bank_code@ == b@)
        &&& (params.reporting_period matches Some(p) ==> items[k].reporting_period@ == p@)
        &&& (params.status matches Some(st) ==> items[k].status == st)
    } by {
        assert(start + k < order.len());
        let i = order[start + k];
        assert(0 <= i < subs.len() && listed(subs[i], params));
        assert(summary_of(items[k], subs[i]));
    }
}

/// A listing filtered by a reporting period that no stored submission has
/// counts none of them.
pub proof fn law_unknown_period_counts_none(subs: Seq<StoredView>, params: ListSubmissionsParams, n: nat)
    requires
        n <= subs.len(),
        params.reporting_period matches Some(p) && forall|i: int| 0 <= i < n ==> (#[trigger] subs[i]).reporting_period
            != p@,
    ensures
        count_listed(subs, params, n) == 0,
    decreases n,
{
    if n > 0 {
        law_unknown_period_counts_none(subs, params, (n - 1) as nat);
        assert(subs[n - 1].reporting_period != params.reporting_period->0@);
    }
}

/// Two submissions stored one after the other get different reference
/// numbers.
pub proof fn law_reference_numbers_differ(
    s0: RegulatorEndpointState,
    req1: SubmissionRequest,
    key1: Option<String>,
    env1: SubmissionEnv,
    s1: RegulatorEndpointState,
    r1: Result<SubmissionResponse, (u16, RejectionError)>,
    req2: SubmissionRequest,
    key2: Option<String>,
    env2: SubmissionEnv,
    s2: RegulatorEndpointState,
    r2: Result<SubmissionResponse, (u16, RejectionError)>,
)
    requires
        process_post(s0, req1, key1, env1, s1, r1),
        decide(s0, req1, key1, env1) is Store,
        process_post(s1, req2, key2, env2, s2, r2),
        decide(s1, req2, key2, env2) is Store,
    ensures
        r1 matches Ok(a) && r2 matches Ok(b) && a.reference_number@ != b.reference_number@,
{
    let c1 = (s0.submission_counter + 1) as nat;
    let c2 = (s1.submission_counter + 1) as nat;
    lemma_zero_pad_decimal_injective(c1, c2, 6);
    lemma_reference_counters_differ(env1.now, c1, env2.now, c2);
}

/// Reference texts with different counters differ: the counter, all
/// digits, follows the last `-`, so equal texts would have equal counters.
#[verifier::spinoff_prover]
proof fn lemma_reference_counters_differ(t1: Timestamp, c1: nat, t2: Timestamp, c2: nat)
    requires
        zero_pad(decimal(c1), 6) != zero_pad(decimal(c2), 6),
    ensures
        reference_text(t1, c1) != reference_text(t2, c2),
{
    let ref1 = reference_text(t1, c1);
    let ref2 = reference_text(t2, c2);
    let z1 = zero_pad(decimal(c1), 6);
    let z2 = zero_pad(decimal(c2), 6);
    let p1 = "OJK-SLIK-"@ + compact_datetime_text(t1.secs, t1.nanos) + "-"@;
    let p2 = "OJK-SLIK-"@ + compact_datetime_text(t2.secs, t2.nanos) + "-"@;
    crate::text::lemma_decimal_digits(c1);
    crate::text::lemma_decimal_digits(c2);
    crate::text::lemma_zero_pad_value(decimal(c1), 6);
    crate::text::lemma_zero_pad_value(decimal(c2), 6);
    reveal_strlit("-");
    assert(ref1 == p1 + z1);
    assert(ref2 == p2 + z2);
    assert(p1.len() >= 1 && p1[p1.len() - 1] == '-');
    assert(p2.len() >= 1 && p2[p2.len() - 1] == '-');
    if ref1 == ref2 {
        if p1.len() < p2.len() {
            let k: int = p2.len() - 1;
            assert(ref2[k] == '-');
            assert(ref1.len() == p1.len() + z1.len());
            assert(p1.len() <= k < ref1.len());
            assert(ref1[k] == (p1 + z1)[k]);
            assert((p1 + z1)[k] == z1[k - p1.len()]);
            assert(crate::text::all_digits(z1));
            assert(crate::text::is_digit(z1[k - p1.len()]));
        } else if p2.len() < p1.len() {
            let k: int = p1.len() - 1;
            assert(ref1[k] == '-');
            assert(ref2.len() == p2.len() + z2.len());
            assert(p2.len() <= k < ref2.len());
            assert(ref2[k] == (p2 + z2)[k]);
            assert((p2 + z2)[k] == z2[k - p2.len()]);
            assert(crate::text::all_digits(z2));
            assert(crate::text::is_digit(z2[k - p2.len()]));
        } else {
            assert(z1 =~= ref1.subrange(p1.len() as int, ref1.len() as int));
            assert(z2 =~= ref2.subrange(p2.len() as int, ref2.len() as int));
        }
    }
}

/// Deleting a stored submission makes it unknown both by id and by its
/// idempotency key.
pub proof fn law_deleted_submission_is_gone(
    pre: RegulatorEndpointState,
    id: Seq<char>,
    post: RegulatorEndpointState,
)
    requires
        pre.wf(),
        post.wf(),
        position_of_id(stored_view(pre.submissions@), id) matches Some(i) && stored_view(post.submissions@)
            == stored_view(pre.submissions@).remove(i),
    ensures
        find_submission(stored_view(post.submissions@), id) is None,
{
    let subs = stored_view(pre.submissions@);
    let ps = stored_view(post.submissions@);
    lemma_position_of_id(subs, id);
    lemma_position_of_id(ps, id);
    let i = position_of_id(subs, id)->0;
    if let Some(j) = position_of_id(ps, id) {
        if j < i {
            assert(ps[j] == subs[j]);
        } else {
            assert(ps[j] == subs[j + 1]);
        }
    }
}


/// Read after write: a submission the endpoint answers with success, stored
/// now or earlier under the same idempotency key, is what a status lookup of
/// its id finds afterwards, with the answer's reference number, status,
/// counts and rejections.
pub proof fn law_answered_submission_is_found(
    pre: RegulatorEndpointState,
    req: SubmissionRequest,
    key: Option<String>,
    env: SubmissionEnv,
    post: RegulatorEndpointState,
    r: Result<SubmissionResponse, (u16, RejectionError)>,
)
    requires
        process_post(pre, req, key, env, post, r),
        r is Ok,
    ensures
        r matches Ok(resp) && find_submission(stored_view(post.submissions@), resp.submission_id@) matches Some(s)
            && s.reference_number == resp.reference_number@ && s.status == resp.status && s.accepted_count
            == resp.accepted_count && s.rejected_count == resp.rejected_count && s.rejections == rejections_view(
            resp.rejections@,
        ),
{
    match decide(pre, req, key, env) {
        Decision::Replay(s) => {
            let subs = stored_view(pre.submissions@);
            let id = cache_target(cache_view(pre.idempotency_cache@), key->0@)->0;
            lemma_position_of_id(subs, id);
            assert(find_submission(subs, id) == Some(s));
        },
        Decision::Refuse { .. } => {},
        Decision::Store { status, rejections, queued } => {
            let sub = new_submission(pre, req, key, env, status, rejections, queued);
            lemma_upsert_find(stored_view(pre.submissions@), sub);
        },
    }
}

/// How a submission answers an injected failure: 500, 503, a gateway
/// timeout after thirty seconds, or 429.
pub fn submit_failure_reply(f: FailureType) -> (r: FailureReply)
    ensures
        f == FailureType::ServiceUnavailable ==> r.delay_ms == 0 && r.status == 503 && r.code@ == "ERR503"@
            && r.message@ == "Service unavailable"@,
        f == FailureType::Timeout ==> r.delay_ms == 30000 && r.status == 504 && r.code@ == "ERR504"@ && r.message@
            == "Gateway timeout"@,
        f == FailureType::RateLimited ==> r.delay_ms == 0 && r.status == 429 && r.code@ == "ERR429"@ && r.message@
            == "Rate limited"@,
        f != FailureType::ServiceUnavailable && f != FailureType::Timeout && f != FailureType::RateLimited ==> r.delay_ms
            == 0 && r.status == 500 && r.code@ == "ERR500"@ && r.message@ == "Internal server error"@,
{
    match f {
        FailureType::ServiceUnavailable => failure_reply(0, 503, "ERR503", "Service unavailable"),
        FailureType::Timeout => failure_reply(30000, 504, "ERR504", "Gateway timeout"),
        FailureType::RateLimited => failure_reply(0, 429, "ERR429", "Rate limited"),
        _ => failure_reply(0, 500, "ERR500", "Internal server error"),
    }
}

} // verus!
