//! Types shared by all simulators: errors, health reports, statistics and
//! the JSON response envelope.

use vstd::prelude::*;
use crate::json::{JsonDocument, JsonValue, entries_view, entries_insert, entries_set};
use crate::text::{owned, push_str, str_eq};

verus! {

/// Errors that can occur in simulators.
#[derive(Debug, Clone)]
pub enum SimulatorError {
    /// Server failed to bind to address
    BindError(String),
    /// Server failed to start
    StartError(String),
    /// Configuration error
    ConfigError(String),
    /// Internal error
    InternalError(String),
    /// Simulator not found
    NotFound(String),
    /// Timeout occurred
    Timeout,
    /// Service unavailable (simulated)
    ServiceUnavailable,
}

/// The message an error is shown with.
pub open spec fn error_text(e: SimulatorError) -> Seq<char> {
    match e {
        SimulatorError::BindError(m) => "Bind error: "@ + m@,
        SimulatorError::StartError(m) => "Start error: "@ + m@,
        SimulatorError::ConfigError(m) => "Config error: "@ + m@,
        SimulatorError::InternalError(m) => "Internal error: "@ + m@,
        SimulatorError::NotFound(m) => "Not found: "@ + m@,
        SimulatorError::Timeout => "Timeout"@,
        SimulatorError::ServiceUnavailable => "Service unavailable"@,
    }
}

/// `prefix` followed by `message`.
fn prefixed(prefix: &str, message: &String) -> (r: String)
    ensures
        r@ == prefix@ + message@,
{
    let mut s = owned(prefix);
    push_str(&mut s, message.as_str());
    s
}

impl SimulatorError {
    /// The message the error is shown with.
    pub fn to_string(&self) -> (r: String)
        ensures
            r@ == error_text(*self),
    {
        match self {
            SimulatorError::BindError(m) => prefixed("Bind error: ", m),
            SimulatorError::StartError(m) => prefixed("Start error: ", m),
            SimulatorError::ConfigError(m) => prefixed("Config error: ", m),
            SimulatorError::InternalError(m) => prefixed("Internal error: ", m),
            SimulatorError::NotFound(m) => prefixed("Not found: ", m),
            SimulatorError::Timeout => owned("Timeout"),
            SimulatorError::ServiceUnavailable => owned("Service unavailable"),
        }
    }
}

/// Result type for simulator operations.
pub type SimulatorResult<T> = Result<T, SimulatorError>;

/// Health status of a simulator.
#[derive(Debug)]
pub struct HealthStatus {
    pub service: String,
    pub status: String,
    pub version: String,
    pub uptime_secs: u64,
    pub details: Option<Vec<(String, JsonValue)>>,
}

impl HealthStatus {
    /// A healthy report for `service` at `version`.
    pub fn healthy(service: &str, version: &str, uptime_secs: u64) -> (r: Self)
        ensures
            r.service@ == service@,
            r.status@ == "healthy"@,
            r.version@ == version@,
            r.uptime_secs == uptime_secs,
            r.details is None,
    {
        HealthStatus {
            service: owned(service),
            status: owned("healthy"),
            version: owned(version),
            uptime_secs,
            details: None,
        }
    }

    /// An unhealthy report for `service`, giving `reason` under the detail
    /// key `reason`.
    pub fn unhealthy(service: &str, reason: &str) -> (r: Self)
        ensures
            r.service@ == service@,
            r.status@ == "unhealthy"@,
            r.version@ == "unknown"@,
            r.uptime_secs == 0,
            r.details matches Some(d) && d@.len() == 1 && d@[0].0@ == "reason"@
                && d@[0].1 is Str && d@[0].1->Str_0@ == reason@,
    {
        let mut details: Vec<(String, JsonValue)> = Vec::new();
        details.push((owned("reason"), JsonValue::Str(owned(reason))));
        HealthStatus {
            service: owned(service),
            status: owned("unhealthy"),
            version: owned("unknown"),
            uptime_secs: 0,
            details: Some(details),
        }
    }

    /// The report with the detail `key` set to `value` (details are created
    /// when there were none).
    pub fn with_details(self, key: &str, value: JsonValue) -> (r: Self)
        ensures
            r.service == self.service,
            r.status == self.status,
            r.version == self.version,
            r.uptime_secs == self.uptime_secs,
            r.details matches Some(d) && entries_view(d@) == entries_insert(
                match self.details {
                    Some(old) => entries_view(old@),
                    None => Seq::empty(),
                },
                key@,
                value,
            ),
    {
        let mut details = match self.details {
            Some(d) => d,
            None => {
                let d: Vec<(String, JsonValue)> = Vec::new();
                assert(entries_view(d@) =~= Seq::empty());
                d
            },
        };
        entries_set(&mut details, key, value);
        HealthStatus {
            service: self.service,
            status: self.status,
            version: self.version,
            uptime_secs: self.uptime_secs,
            details: Some(details),
        }
    }
}

/// API error details.
#[derive(Debug)]
pub struct ApiError {
    pub code: String,
    pub message: String,
    pub details: Option<JsonDocument>,
}

/// Response metadata for pagination, timing, etc.
#[derive(Debug)]
pub struct ResponseMeta {
    pub page: Option<u32>,
    pub page_size: Option<u32>,
    pub total_count: Option<u64>,
    pub total_pages: Option<u32>,
    pub processing_time_ms: Option<u64>,
    pub extra: Option<Vec<(String, JsonValue)>>,
}

/// The number of pages of `page_size` items that `total_count` items fill
/// (zero for an empty page size), as the 32-bit page count holds it.
pub open spec fn page_count(page_size: u32, total_count: u64) -> u32 {
    if page_size == 0 {
        0
    } else {
        ((total_count + page_size - 1) / (page_size as int)) as u32
    }
}

impl ResponseMeta {
    /// Metadata for one page of a paginated listing.
    pub fn paginated(page: u32, page_size: u32, total_count: u64) -> (r: Self)
        requires
            total_count + page_size - 1 <= u64::MAX,
        ensures
            r.page == Some(page),
            r.page_size == Some(page_size),
            r.total_count == Some(total_count),
            r.total_pages == Some(page_count(page_size, total_count)),
            r.processing_time_ms is None,
            r.extra is None,
    {
        let total_pages: u32 = if page_size == 0 {
            0
        } else {
            let pages: u64 = (total_count + (page_size as u64 - 1)) / page_size as u64;
            (#[verifier::truncate] (pages as u32))
        };
        ResponseMeta {
            page: Some(page),
            page_size: Some(page_size),
            total_count: Some(total_count),
            total_pages: Some(total_pages),
            processing_time_ms: None,
            extra: None,
        }
    }

    /// Metadata carrying only a total count and a processing time.
    pub fn counted(total_count: u64, processing_time_ms: u64) -> (r: Self)
        ensures
            r.page is None && r.page_size is None && r.total_pages is None,
            r.total_count == Some(total_count),
            r.processing_time_ms == Some(processing_time_ms),
            r.extra is None,
    {
        ResponseMeta {
            page: None,
            page_size: None,
            total_count: Some(total_count),
            total_pages: None,
            processing_time_ms: Some(processing_time_ms),
            extra: None,
        }
    }

    /// The metadata with its processing time set.
    pub fn with_timing(self, ms: u64) -> (r: Self)
        ensures
            r.processing_time_ms == Some(ms),
            r.page == self.page && r.page_size == self.page_size,
            r.total_count == self.total_count && r.total_pages == self.total_pages,
            r.extra == self.extra,
    {
        let mut m = self;
        m.processing_time_ms = Some(ms);
        m
    }

    /// The metadata with the extra field `key` set to `value`.
    pub fn with_extra(self, key: &str, value: JsonValue) -> (r: Self)
        ensures
            r.page == self.page && r.page_size == self.page_size,
            r.total_count == self.total_count && r.total_pages == self.total_pages,
            r.processing_time_ms == self.processing_time_ms,
            r.extra matches Some(x) && entries_view(x@) == entries_insert(
                match self.extra {
                    Some(old) => entries_view(old@),
                    None => Seq::empty(),
                },
                key@,
                value,
            ),
    {
        let ResponseMeta { page, page_size, total_count, total_pages, processing_time_ms, extra } =
            self;
        let mut entries = match extra {
            Some(x) => x,
            None => {
                let x: Vec<(String, JsonValue)> = Vec::new();
                assert(entries_view(x@) =~= Seq::empty());
                x
            },
        };
        entries_set(&mut entries, key, value);
        ResponseMeta { page, page_size, total_count, total_pages, processing_time_ms, extra: Some(entries) }
    }
}

/// Standard JSON response wrapper.
#[derive(Debug)]
pub struct ApiResponse<T> {
    pub success: bool,
    pub data: Option<T>,
    pub error: Option<ApiError>,
    pub meta: Option<ResponseMeta>,
}

impl<T> ApiResponse<T> {
    /// A successful response carrying `data`.
    pub fn success(data: T) -> (r: Self)
        ensures
            r.success,
            r.data == Some(data),
            r.error is None,
            r.meta is None,
    {
        ApiResponse { success: true, data: Some(data), error: None, meta: None }
    }

    /// A successful response carrying `data` and metadata.
    pub fn success_with_meta(data: T, meta: ResponseMeta) -> (r: Self)
        ensures
            r.success,
            r.data == Some(data),
            r.error is None,
            r.meta == Some(meta),
    {
        ApiResponse { success: true, data: Some(data), error: None, meta: Some(meta) }
    }

    /// A failed response with an error code and message.
    pub fn error(code: &str, message: &str) -> (r: Self)
        ensures
            !r.success,
            r.data is None,
            r.error matches Some(e) && e.code@ == code@ && e.message@ == message@ && e.details is None,
            r.meta is None,
    {
        ApiResponse {
            success: false,
            data: None,
            error: Some(ApiError { code: owned(code), message: owned(message), details: None }),
            meta: None,
        }
    }
}

/// Endpoint URLs for all simulators.
#[derive(Debug)]
pub struct SimulatorEndpoints {
    pub core_banking: Option<String>,
    pub mapping_service: Option<String>,
    pub rulepack_service: Option<String>,
    pub regulator_endpoint: Option<String>,
}

/// `http://127.0.0.1:port`, the base URL of a simulator.
pub open spec fn base_url_text(port: u16) -> Seq<char> {
    "http://127.0.0.1:"@ + crate::text::decimal(port as nat)
}

/// The base URL of a simulator listening on `port`.
pub fn base_url(port: u16) -> (r: String)
    ensures
        r@ == base_url_text(port),
{
    let mut s = owned("http://127.0.0.1:");
    let p = crate::text::decimal_string(port as u64);
    crate::text::push_str(&mut s, p.as_str());
    s
}

/// The count recorded for `key` in a list of per-endpoint counters (the
/// first entry with that key; zero when there is none).
pub open spec fn count_of(entries: Seq<(String, u64)>, key: Seq<char>) -> nat
    decreases entries.len(),
{
    if entries.len() == 0 {
        0
    } else if entries[0].0@ == key {
        entries[0].1 as nat
    } else {
        count_of(entries.drop_first(), key)
    }
}

/// Statistics tracked by simulators. Latency is summed in whole milliseconds.
#[derive(Debug)]
pub struct SimulatorStats {
    pub requests_total: u64,
    pub requests_success: u64,
    pub requests_failed: u64,
    pub requests_timeout: u64,
    pub bytes_sent: u64,
    pub bytes_received: u64,
    pub total_latency_ms: u64,
    pub endpoint_counts: Vec<(String, u64)>,
}

impl Clone for SimulatorStats {
    fn clone(&self) -> (r: Self)
        ensures
            r.requests_total == self.requests_total,
            r.requests_success == self.requests_success,
            r.requests_failed == self.requests_failed,
            r.requests_timeout == self.requests_timeout,
            r.bytes_sent == self.bytes_sent,
            r.bytes_received == self.bytes_received,
            r.total_latency_ms == self.total_latency_ms,
            r.endpoint_counts@ == self.endpoint_counts@,
    {
        let mut counts: Vec<(String, u64)> = Vec::new();
        let mut i: usize = 0;
        while i < self.endpoint_counts.len()
            invariant
                i <= self.endpoint_counts.len(),
                counts@ == self.endpoint_counts@.take(i as int),
            decreases self.endpoint_counts.len() - i,
        {
            let k = self.endpoint_counts[i].0.clone();
            counts.push((k, self.endpoint_counts[i].1));
            i = i + 1;
            assert(counts@ =~= self.endpoint_counts@.take(i as int));
        }
        assert(self.endpoint_counts@.take(i as int) =~= self.endpoint_counts@);
        SimulatorStats {
            requests_total: self.requests_total,
            requests_success: self.requests_success,
            requests_failed: self.requests_failed,
            requests_timeout: self.requests_timeout,
            bytes_sent: self.bytes_sent,
            bytes_received: self.bytes_received,
            total_latency_ms: self.total_latency_ms,
            endpoint_counts: counts,
        }
    }
}

impl SimulatorStats {
    /// Whether every counter is at zero and no endpoint has been counted.
    pub open spec fn is_zero(self) -> bool {
        &&& self.requests_total == 0 && self.requests_success == 0 && self.requests_failed == 0
        &&& self.requests_timeout == 0 && self.bytes_sent == 0 && self.bytes_received == 0
        &&& self.total_latency_ms == 0
        &&& self.endpoint_counts@.len() == 0
    }

    /// All counters at zero.
    pub fn default() -> (r: Self)
        ensures
            r.is_zero(),
    {
        SimulatorStats {
            requests_total: 0,
            requests_success: 0,
            requests_failed: 0,
            requests_timeout: 0,
            bytes_sent: 0,
            bytes_received: 0,
            total_latency_ms: 0,
            endpoint_counts: Vec::new(),
        }
    }

    /// Records a request to `endpoint`: one more request, counted as a
    /// success or a failure, its latency added, and one more for the endpoint.
    pub fn record_request(&mut self, endpoint: &str, success: bool, latency_ms: u64)
        requires
            old(self).requests_total < u64::MAX,
            success ==> old(self).requests_success < u64::MAX,
            !success ==> old(self).requests_failed < u64::MAX,
            old(self).total_latency_ms + latency_ms <= u64::MAX,
            count_of(old(self).endpoint_counts@, endpoint@) < u64::MAX,
        ensures
            final(self).requests_total == old(self).requests_total + 1,
            final(self).requests_success == old(self).requests_success + (if success { 1int } else { 0 }),
            final(self).requests_failed == old(self).requests_failed + (if success { 0int } else { 1 }),
            final(self).requests_timeout == old(self).requests_timeout,
            final(self).bytes_sent == old(self).bytes_sent,
            final(self).bytes_received == old(self).bytes_received,
            final(self).total_latency_ms == old(self).total_latency_ms + latency_ms,
            forall|k: Seq<char>| #[trigger] count_of(final(self).endpoint_counts@, k) == count_of(
                old(self).endpoint_counts@,
                k,
            ) + (if k == endpoint@ { 1int } else { 0 }),
    {
        self.requests_total = self.requests_total + 1;
        if success {
            self.requests_success = self.requests_success + 1;
        } else {
            self.requests_failed = self.requests_failed + 1;
        }
        self.total_latency_ms = self.total_latency_ms + latency_ms;
        bump_count(&mut self.endpoint_counts, endpoint);
    }

    /// Records a request that timed out.
    pub fn record_timeout(&mut self)
        requires
            old(self).requests_total < u64::MAX,
            old(self).requests_timeout < u64::MAX,
        ensures
            final(self).requests_total == old(self).requests_total + 1,
            final(self).requests_timeout == old(self).requests_timeout + 1,
            final(self).requests_success == old(self).requests_success,
            final(self).requests_failed == old(self).requests_failed,
            final(self).bytes_sent == old(self).bytes_sent,
            final(self).bytes_received == old(self).bytes_received,
            final(self).total_latency_ms == old(self).total_latency_ms,
            final(self).endpoint_counts@ == old(self).endpoint_counts@,
    {
        self.requests_total = self.requests_total + 1;
        self.requests_timeout = self.requests_timeout + 1;
    }

    /// Records bytes sent and received.
    pub fn record_bytes(&mut self, sent: u64, received: u64)
        requires
            old(self).bytes_sent + sent <= u64::MAX,
            old(self).bytes_received + received <= u64::MAX,
        ensures
            final(self).bytes_sent == old(self).bytes_sent + sent,
            final(self).bytes_received == old(self).bytes_received + received,
            final(self).requests_total == old(self).requests_total,
            final(self).requests_success == old(self).requests_success,
            final(self).requests_failed == old(self).requests_failed,
            final(self).requests_timeout == old(self).requests_timeout,
            final(self).total_latency_ms == old(self).total_latency_ms,
            final(self).endpoint_counts@ == old(self).endpoint_counts@,
    {
        self.bytes_sent = self.bytes_sent + sent;
        self.bytes_received = self.bytes_received + received;
    }

    /// The count recorded for `endpoint`.
    pub fn endpoint_count(&self, endpoint: &str) -> (r: u64)
        ensures
            r as nat == count_of(self.endpoint_counts@, endpoint@),
    {
        let mut i: usize = 0;
        assert(self.endpoint_counts@.skip(0) =~= self.endpoint_counts@);
        while i < self.endpoint_counts.len()
            invariant
                i <= self.endpoint_counts.len(),
                count_of(self.endpoint_counts@, endpoint@) == count_of(
                    self.endpoint_counts@.skip(i as int),
                    endpoint@,
                ),
            decreases self.endpoint_counts.len() - i,
        {
            assert(self.endpoint_counts@.skip(i as int)[0] == self.endpoint_counts@[i as int]);
            assert(self.endpoint_counts@.skip(i as int).drop_first() =~= self.endpoint_counts@.skip(
                i + 1,
            ));
            if str_eq(self.endpoint_counts[i].0.as_str(), endpoint) {
                return self.endpoint_counts[i].1;
            }
            i = i + 1;
        }
        0
    }
}

/// Adds one to the counter of `key`, creating it at one when absent.
fn bump_count(entries: &mut Vec<(String, u64)>, key: &str)
    requires
        count_of(old(entries)@, key@) < u64::MAX,
    ensures
        forall|k: Seq<char>| #[trigger] count_of(final(entries)@, k) == count_of(old(entries)@, k) + (
        if k == key@ {
            1int
        } else {
            0
        }),
{
    let ghost original = entries@;
    let mut i: usize = 0;
    while i < entries.len()
        invariant
            i <= entries.len(),
            entries@ == original,
            original == old(entries)@,
            count_of(original, key@) < u64::MAX,
            forall|j: int| 0 <= j < i ==> (#[trigger] original[j]).0@ != key@,
        decreases entries.len() - i,
    {
        if str_eq(entries[i].0.as_str(), key) {
            proof {
                lemma_count_of_at(original, key@, i as int);
            }
            let k = entries[i].0.clone();
            let c = entries[i].1;
            entries.set(i, (k, c + 1));
            proof {
                assert forall|q: Seq<char>| #[trigger] count_of(entries@, q) == count_of(original, q) + (
                if q == key@ {
                    1int
                } else {
                    0
                }) by {
                    lemma_count_of_update(original, key@, i as int, (c + 1) as u64, q);
                }
            }
            return;
        }
        i = i + 1;
    }
    let e = (owned(key), 1u64);
    entries.push(e);
    proof {
        assert forall|q: Seq<char>| #[trigger] count_of(entries@, q) == count_of(original, q) + (
        if q == key@ {
            1int
        } else {
            0
        }) by {
            lemma_count_of_push(original, e, q);
        }
    }
}

proof fn lemma_count_of_at(entries: Seq<(String, u64)>, key: Seq<char>, i: int)
    requires
        0 <= i < entries.len(),
        entries[i].0@ == key,
        forall|j: int| 0 <= j < i ==> (#[trigger] entries[j]).0@ != key,
    ensures
        count_of(entries, key) == entries[i].1,
    decreases i,
{
    if i > 0 {
        lemma_count_of_at(entries.drop_first(), key, i - 1);
    }
}

proof fn lemma_count_of_update(entries: Seq<(String, u64)>, key: Seq<char>, i: int, v: u64, q: Seq<char>)
    requires
        0 <= i < entries.len(),
        entries[i].0@ == key,
        forall|j: int| 0 <= j < i ==> (#[trigger] entries[j]).0@ != key,
    ensures
        count_of(entries.update(i, (entries[i].0, v)), q) == (if q == key {
            v as nat
        } else {
            count_of(entries, q)
        }),
    decreases i,
{
    let u = entries.update(i, (entries[i].0, v));
    if i > 0 {
        lemma_count_of_update(entries.drop_first(), key, i - 1, v, q);
        assert(u.drop_first() =~= entries.drop_first().update(i - 1, (entries[i].0, v)));
        if q == key {
            assert(entries[0].0@ != key);
        }
    } else {
        assert(u.drop_first() =~= entries.drop_first());
    }
}

proof fn lemma_count_of_push(entries: Seq<(String, u64)>, e: (String, u64), q: Seq<char>)
    requires
        forall|j: int| 0 <= j < entries.len() ==> (#[trigger] entries[j]).0@ != e.0@,
    ensures
        count_of(entries.push(e), q) == count_of(entries, q) + (if q == e.0@ {
            e.1 as int
        } else {
            0
        }),
    decreases entries.len(),
{
    let p = entries.push(e);
    if entries.len() == 0 {
        assert(p[0] == e);
        assert(p.drop_first() =~= Seq::<(String, u64)>::empty());
        assert(count_of(p.drop_first(), q) == 0);
    } else {
        assert(p[0] == entries[0]);
        assert(p.drop_first() =~= entries.drop_first().push(e));
        lemma_count_of_push(entries.drop_first(), e, q);
        if entries[0].0@ == q {
            assert(q != e.0@);
        }
    }
}


/// How a simulator answers an injected failure: after waiting `delay_ms`,
/// with this status code, error code and message.
#[derive(Debug)]
pub struct FailureReply {
    pub delay_ms: u64,
    pub status: u16,
    pub code: &'static str,
    pub message: &'static str,
}

/// A failure reply.
pub fn failure_reply(delay_ms: u64, status: u16, code: &'static str, message: &'static str) -> (r: FailureReply)
    ensures
        r.delay_ms == delay_ms && r.status == status && r.code@ == code@ && r.message@ == message@,
{
    FailureReply { delay_ms, status, code, message }
}

/// The endpoints of the simulators a configuration enables, each at
/// `http://127.0.0.1:` and its port.
pub fn endpoints_for(config: &crate::config::SimulatorConfig) -> (r: SimulatorEndpoints)
    ensures
        r.core_banking is Some <==> config.core_banking.enabled,
        r.core_banking matches Some(u) ==> u@ == base_url_text(config.core_banking.port),
        r.mapping_service is Some <==> config.mapping_service.enabled,
        r.mapping_service matches Some(u) ==> u@ == base_url_text(config.mapping_service.port),
        r.rulepack_service is Some <==> config.rulepack_service.enabled,
        r.rulepack_service matches Some(u) ==> u@ == base_url_text(config.rulepack_service.port),
        r.regulator_endpoint is Some <==> config.regulator_endpoint.enabled,
        r.regulator_endpoint matches Some(u) ==> u@ == base_url_text(config.regulator_endpoint.port),
{
    SimulatorEndpoints {
        core_banking: if config.core_banking.enabled {
            Some(base_url(config.core_banking.port))
        } else {
            None
        },
        mapping_service: if config.mapping_service.enabled {
            Some(base_url(config.mapping_service.port))
        } else {
            None
        },
        rulepack_service: if config.rulepack_service.enabled {
            Some(base_url(config.rulepack_service.port))
        } else {
            None
        },
        regulator_endpoint: if config.regulator_endpoint.enabled {
            Some(base_url(config.regulator_endpoint.port))
        } else {
            None
        },
    }
}

} // verus!
