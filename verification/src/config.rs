//! Configuration for all simulators, with the defaults and presets the
//! services start from.

use vstd::prelude::*;
use crate::clock::{Timestamp, valid_timestamp, now, utc_hour, random_u64};
use crate::text::{decimal, decimal_string, owned, push_char, push_str};

verus! {

// ============================================================================
// Ratios
// ============================================================================

/// A probability, held as a threshold on uniform 64-bit draws: a ratio `p`
/// in `[0, 1]` is held as `p * u64::MAX` rounded down, and an event of this
/// probability happens when a draw falls below the threshold. The largest
/// threshold stands for certainty.
#[derive(Clone, Copy, Debug, PartialEq, Eq)]
pub struct Ratio {
    pub threshold: u64,
}

impl Ratio {
    /// Whether an event of this probability happens for the uniform draw `draw`.
    pub open spec fn spec_happens(self, draw: u64) -> bool {
        self.threshold == u64::MAX || draw < self.threshold
    }

    /// Whether an event of this probability happens for the uniform draw `draw`.
    pub fn happens(&self, draw: u64) -> (r: bool)
        ensures
            r == self.spec_happens(draw),
    {
        self.threshold == u64::MAX || draw < self.threshold
    }

    /// The impossible event.
    pub fn never() -> (r: Ratio)
        ensures
            r.threshold == 0,
    {
        Ratio { threshold: 0 }
    }

    /// The certain event.
    pub fn always() -> (r: Ratio)
        ensures
            r.threshold == u64::MAX,
    {
        Ratio { threshold: u64::MAX }
    }

    /// Whether the probability is above zero.
    pub fn is_positive(&self) -> (r: bool)
        ensures
            r == (self.threshold > 0),
    {
        self.threshold > 0
    }
}

/// `host:port`, the address a service binds to.
pub open spec fn socket_addr_text(host: Seq<char>, port: u16) -> Seq<char> {
    host.push(':') + decimal(port as nat)
}

/// Renders `host:port`.
pub fn socket_addr_of(host: &str, port: u16) -> (r: String)
    ensures
        r@ == socket_addr_text(host@, port),
{
    let mut s = owned(host);
    push_char(&mut s, ':');
    let p = decimal_string(port as u64);
    push_str(&mut s, p.as_str());
    s
}

// ============================================================================
// Latency
// ============================================================================

/// Latency percentiles.
#[derive(Clone, Copy, Debug, PartialEq, Eq)]
pub struct LatencyPercentiles {
    pub p50_ms: u64,
    pub p90_ms: u64,
    pub p99_ms: u64,
}

/// Latency simulation configuration.
#[derive(Clone, Copy, Debug, PartialEq, Eq)]
pub struct LatencyConfig {
    /// Whether latency simulation is enabled
    pub enabled: bool,
    /// Base latency in milliseconds
    pub base_ms: u64,
    /// Random jitter range (+/- ms)
    pub jitter_ms: u64,
    /// Percentile latencies (p50, p90, p99)
    pub percentiles: Option<LatencyPercentiles>,
}

impl LatencyConfig {
    /// Whether latency simulation is switched off, with no delay configured.
    pub open spec fn is_off(self) -> bool {
        self == LatencyConfig { enabled: false, base_ms: 0, jitter_ms: 0, percentiles: None }
    }

    /// Latency simulation switched off.
    pub fn default() -> (r: Self)
        ensures
            r.is_off(),
    {
        LatencyConfig { enabled: false, base_ms: 0, jitter_ms: 0, percentiles: None }
    }

    /// No latency (for fast tests).
    pub fn none() -> (r: Self)
        ensures
            r.is_off(),
    {
        Self::default()
    }

    /// Minimal latency (1-5ms).
    pub fn minimal() -> (r: Self)
        ensures
            r.enabled,
            r.base_ms == 1,
            r.jitter_ms == 2,
            r.percentiles is None,
    {
        LatencyConfig { enabled: true, base_ms: 1, jitter_ms: 2, percentiles: None }
    }

    /// Realistic latency (10-50ms with occasional spikes).
    pub fn realistic() -> (r: Self)
        ensures
            r.enabled,
            r.base_ms == 20,
            r.jitter_ms == 15,
            r.percentiles == Some((LatencyPercentiles { p50_ms: 20, p90_ms: 50, p99_ms: 150 })),
    {
        LatencyConfig {
            enabled: true,
            base_ms: 20,
            jitter_ms: 15,
            percentiles: Some(LatencyPercentiles { p50_ms: 20, p90_ms: 50, p99_ms: 150 }),
        }
    }

    /// High latency (for timeout testing): jitter is a tenth of the base.
    pub fn high(base_ms: u64) -> (r: Self)
        ensures
            r.enabled,
            r.base_ms == base_ms,
            r.jitter_ms == base_ms / 10,
            r.percentiles is None,
    {
        LatencyConfig { enabled: true, base_ms, jitter_ms: base_ms / 10, percentiles: None }
    }

    /// The latency configuration set by a runtime update to `latency_ms`:
    /// enabled when positive, with a tenth of it as jitter.
    pub fn from_update(latency_ms: u64) -> (r: Self)
        ensures
            r.enabled == (latency_ms > 0),
            r.base_ms == latency_ms,
            r.jitter_ms == latency_ms / 10,
            r.percentiles is None,
    {
        LatencyConfig {
            enabled: latency_ms > 0,
            base_ms: latency_ms,
            jitter_ms: latency_ms / 10,
            percentiles: None,
        }
    }
}

// ============================================================================
// Failure injection
// ============================================================================

/// Types of failures that can be injected.
#[derive(Clone, Copy, Debug, PartialEq, Eq)]
pub enum FailureType {
    /// HTTP 500 Internal Server Error
    InternalError,
    /// Request timeout
    Timeout,
    /// HTTP 503 Service Unavailable
    ServiceUnavailable,
    /// Connection reset
    ConnectionReset,
    /// HTTP 429 Too Many Requests
    RateLimited,
    /// Malformed response
    MalformedResponse,
    /// Partial response
    PartialResponse,
}

/// Failure injection configuration.
#[derive(Clone, Debug)]
pub struct FailureInjectionConfig {
    /// Whether failure injection is enabled
    pub enabled: bool,
    /// Probability of failure
    pub failure_rate: Ratio,
    /// Types of failures to inject
    pub failure_types: Vec<FailureType>,
}

impl FailureInjectionConfig {
    /// Whether failure injection is switched off at a zero rate, with
    /// internal errors as the one type.
    pub open spec fn is_default(self) -> bool {
        &&& !self.enabled
        &&& self.failure_rate.threshold == 0
        &&& self.failure_types@ == seq![FailureType::InternalError]
    }

    /// Failure injection switched off, with internal errors as the one type.
    pub fn default() -> (r: Self)
        ensures
            r.is_default(),
    {
        let mut types: Vec<FailureType> = Vec::new();
        types.push(FailureType::InternalError);
        FailureInjectionConfig { enabled: false, failure_rate: Ratio::never(), failure_types: types }
    }

    /// No failures.
    pub fn none() -> (r: Self)
        ensures
            r.is_default(),
    {
        Self::default()
    }

    /// Low failure rate (1%).
    pub fn low() -> (r: Self)
        ensures
            r.enabled,
            r.failure_rate == rate_percent(1),
            r.failure_types@ == seq![FailureType::InternalError, FailureType::Timeout],
    {
        let mut types: Vec<FailureType> = Vec::new();
        types.push(FailureType::InternalError);
        types.push(FailureType::Timeout);
        FailureInjectionConfig { enabled: true, failure_rate: percent(1), failure_types: types }
    }

    /// Medium failure rate (5%).
    pub fn medium() -> (r: Self)
        ensures
            r.enabled,
            r.failure_rate == rate_percent(5),
            r.failure_types@ == seq![
                FailureType::InternalError,
                FailureType::Timeout,
                FailureType::ServiceUnavailable,
            ],
    {
        let mut types: Vec<FailureType> = Vec::new();
        types.push(FailureType::InternalError);
        types.push(FailureType::Timeout);
        types.push(FailureType::ServiceUnavailable);
        FailureInjectionConfig { enabled: true, failure_rate: percent(5), failure_types: types }
    }

    /// High failure rate (20%) - for chaos testing.
    pub fn high() -> (r: Self)
        ensures
            r.enabled,
            r.failure_rate == rate_percent(20),
            r.failure_types@ == seq![
                FailureType::InternalError,
                FailureType::Timeout,
                FailureType::ServiceUnavailable,
                FailureType::ConnectionReset,
            ],
    {
        let mut types: Vec<FailureType> = Vec::new();
        types.push(FailureType::InternalError);
        types.push(FailureType::Timeout);
        types.push(FailureType::ServiceUnavailable);
        types.push(FailureType::ConnectionReset);
        FailureInjectionConfig { enabled: true, failure_rate: percent(20), failure_types: types }
    }

    /// Whether a failure is injected, given the uniform draw `draw`.
    pub open spec fn spec_fails_with(self, draw: u64) -> bool {
        self.enabled && self.failure_rate.spec_happens(draw)
    }

    /// Whether a failure is injected, given the uniform draw `draw`.
    pub fn should_fail_with(&self, draw: u64) -> (r: bool)
        ensures
            r == self.spec_fails_with(draw),
    {
        self.enabled && self.failure_rate.happens(draw)
    }

    /// The failure injected, given the draw that decides whether one is and
    /// the draw that picks its type.
    pub open spec fn spec_failure_with(self, fail_draw: u64, pick_draw: u64) -> Option<FailureType> {
        if self.spec_fails_with(fail_draw) && self.failure_types@.len() > 0 {
            Some(self.failure_types@[(pick_draw % (self.failure_types@.len() as u64)) as int])
        } else {
            None
        }
    }

    /// The failure injected, given the draw that decides whether one is and
    /// the draw that picks its type (taken modulo the number of types).
    pub fn random_failure_with(&self, fail_draw: u64, pick_draw: u64) -> (r: Option<&FailureType>)
        ensures
            r matches Some(f) ==> self.spec_failure_with(fail_draw, pick_draw) == Some(*f),
            r is None ==> self.spec_failure_with(fail_draw, pick_draw) is None,
    {
        if self.should_fail_with(fail_draw) && self.failure_types.len() > 0 {
            let idx = (pick_draw % (self.failure_types.len() as u64)) as usize;
            Some(&self.failure_types[idx])
        } else {
            None
        }
    }
}

/// A whole percentage as a ratio.
pub open spec fn rate_percent(p: u64) -> Ratio {
    Ratio { threshold: (u64::MAX / 100 * p) as u64 }
}

/// A whole percentage (at most 100) as a ratio.
pub fn percent(p: u64) -> (r: Ratio)
    requires
        p <= 100,
    ensures
        r == rate_percent(p),
{
    assert((u64::MAX / 100) * p <= u64::MAX) by (nonlinear_arith)
        requires
            p <= 100,
    ;
    Ratio { threshold: u64::MAX / 100 * p }
}

// ============================================================================
// Off-peak window
// ============================================================================

/// Off-peak hours configuration.
#[derive(Clone, Copy, Debug, PartialEq, Eq)]
pub struct OffPeakConfig {
    /// Whether off-peak restrictions are enabled
    pub enabled: bool,
    /// Off-peak start hour (0-23)
    pub start_hour: u8,
    /// Off-peak end hour (0-23)
    pub end_hour: u8,
    /// Timezone offset from UTC (hours)
    pub timezone_offset: i8,
    /// Whether to reject submissions outside off-peak hours
    pub reject_outside_window: bool,
}

/// The local hour (0 to 23) for a UTC hour and a timezone offset: their
/// sum taken modulo 24.
pub open spec fn local_hour(utc_hour: int, offset: int) -> int {
    (utc_hour + offset) % 24
}

impl OffPeakConfig {
    /// Off-peak restrictions off; a 22:00-06:00 window at UTC+7.
    pub fn default() -> (r: Self)
        ensures
            !r.enabled,
            r.start_hour == 22,
            r.end_hour == 6,
            r.timezone_offset == 7,
            !r.reject_outside_window,
    {
        OffPeakConfig {
            enabled: false,
            start_hour: 22,
            end_hour: 6,
            timezone_offset: 7,
            reject_outside_window: false,
        }
    }

    /// Whether the local hour falls in the window; a window whose start is
    /// after its end crosses midnight.
    pub open spec fn spec_in_window(self, local: int) -> bool {
        if self.start_hour > self.end_hour {
            local >= self.start_hour || local < self.end_hour
        } else {
            local >= self.start_hour && local < self.end_hour
        }
    }

    /// Whether submissions are allowed at the UTC hour `utc_hour`: always when
    /// the restriction is off, else when the local hour is in the window.
    pub open spec fn spec_is_off_peak_at(self, utc_hour: int) -> bool {
        !self.enabled || self.spec_in_window(local_hour(utc_hour, self.timezone_offset as int))
    }

    /// Whether submissions are allowed at the UTC hour `utc_hour`.
    pub fn is_off_peak_at(&self, utc_hour: u32) -> (r: bool)
        requires
            utc_hour < 24,
            self.enabled ==> utc_hour + self.timezone_offset <= 127,
        ensures
            r == self.spec_is_off_peak_at(utc_hour as int),
    {
        if !self.enabled {
            return true;
        }
        let sum: i16 = (utc_hour as i16) + (self.timezone_offset as i16);
        let local: i16 = if sum >= 0 {
            sum % 24
        } else {
            let back: i16 = (-sum) % 24;
            if back == 0 {
                0
            } else {
                24 - back
            }
        };
        assert(local == local_hour(utc_hour as int, self.timezone_offset as int)) by (nonlinear_arith)
            requires
                sum == utc_hour + self.timezone_offset,
                sum >= 0 ==> local == sum % 24,
                sum < 0 ==> ((-sum) % 24 == 0 ==> local == 0) && ((-sum) % 24 != 0 ==> local == 24 - (-sum) % 24),
        ;
        let start = self.start_hour as i16;
        let end = self.end_hour as i16;
        if start > end {
            local >= start || local < end
        } else {
            local >= start && local < end
        }
    }
}

// ============================================================================
// Regulator modes
// ============================================================================

/// Regulator response modes.
#[derive(Clone, Debug)]
pub enum RegulatorMode {
    /// Accept all submissions
    Accept,
    /// Reject all submissions with specified error
    Reject { error_code: String, error_message: String },
    /// Timeout on all submissions (simulate slow response)
    Timeout { delay_ms: u64 },
    /// Return 503 Service Unavailable
    ServiceUnavailable,
    /// Return 429 Too Many Requests (rate limiting)
    RateLimited,
    /// Intermittent failures (random based on rate)
    Intermittent { failure_rate: Ratio },
    /// Partial rejection (accept some records, reject others)
    PartialReject { reject_ratio: Ratio },
    /// Queue mode (accept but return pending status)
    Queued { queue_delay_ms: u64 },
    /// Custom response
    Custom { status_code: u16, body: String, headers: Vec<(String, String)> },
}

impl RegulatorMode {
    /// Accepting every submission.
    pub fn default() -> (r: Self)
        ensures
            r == RegulatorMode::Accept,
    {
        RegulatorMode::Accept
    }
}

// ============================================================================
// Per-service configuration
// ============================================================================

/// Configuration for data generation.
#[derive(Clone, Debug)]
pub struct DataGenerationConfig {
    /// Error types to inject and their weights (in basis points)
    pub error_types: Vec<(String, u32)>,
    /// Whether to generate realistic-looking data
    pub realistic_data: bool,
    /// Date range for generated data (days back from now)
    pub date_range_days: u32,
    /// Currency to use
    pub currency: String,
    /// Minimum credit amount (rupiah)
    pub min_credit_amount: i64,
    /// Maximum credit amount (rupiah)
    pub max_credit_amount: i64,
}

impl DataGenerationConfig {
    /// Whether this is the default error mix and amount range.
    pub open spec fn is_default(self) -> bool {
        &&& self.error_types@.len() == 6
        &&& self.error_types@[0].0@ == "invalid_nik"@ && self.error_types@[0].1 == 3000
        &&& self.error_types@[1].0@ == "negative_amount"@ && self.error_types@[1].1 == 2000
        &&& self.error_types@[2].0@ == "invalid_date"@ && self.error_types@[2].1 == 2000
        &&& self.error_types@[3].0@ == "missing_field"@ && self.error_types@[3].1 == 1500
        &&& self.error_types@[4].0@ == "invalid_currency"@ && self.error_types@[4].1 == 1000
        &&& self.error_types@[5].0@ == "duplicate_record"@ && self.error_types@[5].1 == 500
        &&& self.realistic_data
        &&& self.date_range_days == 365
        &&& self.currency@ == "IDR"@
        &&& self.min_credit_amount == 1_000_000
        &&& self.max_credit_amount == 10_000_000_000
    }

    /// The default error mix and amount range.
    pub fn default() -> (r: Self)
        ensures
            r.is_default(),
    {
        let mut error_types: Vec<(String, u32)> = Vec::new();
        error_types.push((owned("invalid_nik"), 3000));
        error_types.push((owned("negative_amount"), 2000));
        error_types.push((owned("invalid_date"), 2000));
        error_types.push((owned("missing_field"), 1500));
        error_types.push((owned("invalid_currency"), 1000));
        error_types.push((owned("duplicate_record"), 500));
        DataGenerationConfig {
            error_types,
            realistic_data: true,
            date_range_days: 365,
            currency: owned("IDR"),
            min_credit_amount: 1_000_000,
            max_credit_amount: 10_000_000_000,
        }
    }
}

/// Configuration for the Core Banking simulator.
#[derive(Clone, Debug)]
pub struct CoreBankingConfig {
    pub enabled: bool,
    pub port: u16,
    pub host: String,
    /// Default number of records to generate
    pub default_record_count: u32,
    /// Maximum records per request
    pub max_records_per_request: u32,
    /// Dirty data ratio
    pub default_dirty_ratio: Ratio,
    /// Random seed for deterministic generation (None = random)
    pub seed: Option<u64>,
    pub latency: LatencyConfig,
    pub failure_injection: FailureInjectionConfig,
    pub data_generation: DataGenerationConfig,
}

impl CoreBankingConfig {
    /// Whether every setting but the latency has its default value.
    pub open spec fn is_default_but_latency(self) -> bool {
        &&& self.enabled
        &&& self.port == 18081
        &&& self.host@ == "127.0.0.1"@
        &&& self.default_record_count == 100_000
        &&& self.max_records_per_request == 50_000_000
        &&& self.default_dirty_ratio.threshold == 0
        &&& self.seed is None
        &&& self.failure_injection.is_default()
        &&& self.data_generation.is_default()
    }

    /// Whether every setting has its default value.
    pub open spec fn is_default(self) -> bool {
        self.is_default_but_latency() && self.latency.is_off()
    }

    /// Port 18081 on the loopback address, 100,000 clean records, no seed.
    pub fn default() -> (r: Self)
        ensures
            r.is_default(),
    {
        CoreBankingConfig {
            enabled: true,
            port: 18081,
            host: owned("127.0.0.1"),
            default_record_count: 100_000,
            max_records_per_request: 50_000_000,
            default_dirty_ratio: Ratio::never(),
            seed: None,
            latency: LatencyConfig::default(),
            failure_injection: FailureInjectionConfig::default(),
            data_generation: DataGenerationConfig::default(),
        }
    }

    /// The address the service binds to.
    pub fn socket_addr(&self) -> (r: String)
        ensures
            r@ == socket_addr_text(self.host@, self.port),
    {
        socket_addr_of(self.host.as_str(), self.port)
    }

    /// The configuration with another default dirty ratio.
    pub fn with_dirty_ratio(self, ratio: Ratio) -> (r: Self)
        ensures
            r == (CoreBankingConfig { default_dirty_ratio: ratio, ..self }),
    {
        let mut c = self;
        c.default_dirty_ratio = ratio;
        c
    }

    /// The configuration with a fixed seed.
    pub fn with_seed(self, seed: u64) -> (r: Self)
        ensures
            r == (CoreBankingConfig { seed: Some(seed), ..self }),
    {
        let mut c = self;
        c.seed = Some(seed);
        c
    }

    /// The configuration with another latency setting.
    pub fn with_latency(self, latency: LatencyConfig) -> (r: Self)
        ensures
            r == (CoreBankingConfig { latency, ..self }),
    {
        let mut c = self;
        c.latency = latency;
        c
    }
}

/// Configuration for the Mapping Service simulator.
#[derive(Clone, Debug)]
pub struct MappingServiceConfig {
    pub enabled: bool,
    pub port: u16,
    pub host: String,
    /// Available mapping versions
    pub available_versions: Vec<String>,
    /// Default version to return
    pub default_version: String,
    pub latency: LatencyConfig,
    pub failure_injection: FailureInjectionConfig,
    /// Whether to cache mappings in memory
    pub cache_enabled: bool,
}

impl MappingServiceConfig {
    /// Whether every setting but the latency has its default value.
    pub open spec fn is_default_but_latency(self) -> bool {
        &&& self.enabled
        &&& self.port == 18082
        &&& self.host@ == "127.0.0.1"@
        &&& self.available_versions@.len() == 3
        &&& self.available_versions@[0]@ == "v1"@
        &&& self.available_versions@[1]@ == "v2"@
        &&& self.available_versions@[2]@ == "v3"@
        &&& self.default_version@ == "v2"@
        &&& self.failure_injection.is_default()
        &&& self.cache_enabled
    }

    /// Whether every setting has its default value.
    pub open spec fn is_default(self) -> bool {
        self.is_default_but_latency() && self.latency.is_off()
    }

    /// Port 18082, versions v1, v2 and v3, v2 by default.
    pub fn default() -> (r: Self)
        ensures
            r.is_default(),
    {
        let mut versions: Vec<String> = Vec::new();
        versions.push(owned("v1"));
        versions.push(owned("v2"));
        versions.push(owned("v3"));
        MappingServiceConfig {
            enabled: true,
            port: 18082,
            host: owned("127.0.0.1"),
            available_versions: versions,
            default_version: owned("v2"),
            latency: LatencyConfig::default(),
            failure_injection: FailureInjectionConfig::default(),
            cache_enabled: true,
        }
    }

    /// The address the service binds to.
    pub fn socket_addr(&self) -> (r: String)
        ensures
            r@ == socket_addr_text(self.host@, self.port),
    {
        socket_addr_of(self.host.as_str(), self.port)
    }

    /// The configuration with another list of versions.
    pub fn with_versions(self, versions: Vec<String>) -> (r: Self)
        ensures
            r == (MappingServiceConfig { available_versions: versions, ..self }),
    {
        let mut c = self;
        c.available_versions = versions;
        c
    }

    /// The configuration with another default version.
    pub fn with_default_version(self, version: &str) -> (r: Self)
        ensures
            r.default_version@ == version@,
            r == (MappingServiceConfig { default_version: r.default_version, ..self }),
    {
        let mut c = self;
        c.default_version = owned(version);
        c
    }
}

/// Configuration for the Rulepack Service simulator.
#[derive(Clone, Debug)]
pub struct RulepackServiceConfig {
    pub enabled: bool,
    pub port: u16,
    pub host: String,
    /// Available rulepack versions
    pub available_versions: Vec<String>,
    /// Default version to return
    pub default_version: String,
    pub latency: LatencyConfig,
    pub failure_injection: FailureInjectionConfig,
    /// Whether to include cross-field rules
    pub include_cross_field_rules: bool,
}

impl RulepackServiceConfig {
    /// Whether every setting but the latency has its default value.
    pub open spec fn is_default_but_latency(self) -> bool {
        &&& self.enabled
        &&& self.port == 18083
        &&& self.host@ == "127.0.0.1"@
        &&& self.available_versions@.len() == 2
        &&& self.available_versions@[0]@ == "v1"@
        &&& self.available_versions@[1]@ == "v2"@
        &&& self.default_version@ == "v1"@
        &&& self.failure_injection.is_default()
        &&& self.include_cross_field_rules
    }

    /// Whether every setting has its default value.
    pub open spec fn is_default(self) -> bool {
        self.is_default_but_latency() && self.latency.is_off()
    }

    /// Port 18083, versions v1 and v2, v1 by default.
    pub fn default() -> (r: Self)
        ensures
            r.is_default(),
    {
        let mut versions: Vec<String> = Vec::new();
        versions.push(owned("v1"));
        versions.push(owned("v2"));
        RulepackServiceConfig {
            enabled: true,
            port: 18083,
            host: owned("127.0.0.1"),
            available_versions: versions,
            default_version: owned("v1"),
            latency: LatencyConfig::default(),
            failure_injection: FailureInjectionConfig::default(),
            include_cross_field_rules: true,
        }
    }

    /// The address the service binds to.
    pub fn socket_addr(&self) -> (r: String)
        ensures
            r@ == socket_addr_text(self.host@, self.port),
    {
        socket_addr_of(self.host.as_str(), self.port)
    }

    /// The configuration with another list of versions.
    pub fn with_versions(self, versions: Vec<String>) -> (r: Self)
        ensures
            r == (RulepackServiceConfig { available_versions: versions, ..self }),
    {
        let mut c = self;
        c.available_versions = versions;
        c
    }
}

/// Configuration for the Regulator Endpoint simulator.
#[derive(Clone, Debug)]
pub struct RegulatorEndpointConfig {
    pub enabled: bool,
    pub port: u16,
    pub host: String,
    /// Response mode
    pub mode: RegulatorMode,
    pub latency: LatencyConfig,
    pub failure_injection: FailureInjectionConfig,
    /// Whether to enforce idempotency
    pub enforce_idempotency: bool,
    /// Maximum submissions to track for idempotency
    pub max_idempotency_entries: usize,
    /// Idempotency entry TTL in seconds
    pub idempotency_ttl_secs: u64,
    /// Retry-After header value in seconds (for rate limiting)
    pub retry_after_secs: u32,
    /// Off-peak hours configuration
    pub off_peak_config: OffPeakConfig,
}

impl RegulatorEndpointConfig {
    /// Whether every setting but the latency has its default value.
    pub open spec fn is_default_but_latency(self) -> bool {
        &&& self.enabled
        &&& self.port == 18084
        &&& self.host@ == "127.0.0.1"@
        &&& self.mode == RegulatorMode::Accept
        &&& self.failure_injection.is_default()
        &&& self.enforce_idempotency
        &&& self.max_idempotency_entries == 10_000
        &&& self.idempotency_ttl_secs == 86400
        &&& self.retry_after_secs == 60
        &&& self.off_peak_config == OffPeakConfig {
            enabled: false,
            start_hour: 22,
            end_hour: 6,
            timezone_offset: 7,
            reject_outside_window: false,
        }
    }

    /// Whether every setting has its default value.
    pub open spec fn is_default(self) -> bool {
        self.is_default_but_latency() && self.latency.is_off()
    }

    /// Port 18084, accepting everything, idempotency enforced over 10,000 keys.
    pub fn default() -> (r: Self)
        ensures
            r.is_default(),
    {
        RegulatorEndpointConfig {
            enabled: true,
            port: 18084,
            host: owned("127.0.0.1"),
            mode: RegulatorMode::Accept,
            latency: LatencyConfig::default(),
            failure_injection: FailureInjectionConfig::default(),
            enforce_idempotency: true,
            max_idempotency_entries: 10_000,
            idempotency_ttl_secs: 86400,
            retry_after_secs: 60,
            off_peak_config: OffPeakConfig::default(),
        }
    }

    /// The address the service binds to.
    pub fn socket_addr(&self) -> (r: String)
        ensures
            r@ == socket_addr_text(self.host@, self.port),
    {
        socket_addr_of(self.host.as_str(), self.port)
    }

    /// The configuration with another response mode.
    pub fn with_mode(self, mode: RegulatorMode) -> (r: Self)
        ensures
            r == (RegulatorEndpointConfig { mode, ..self }),
    {
        let mut c = self;
        c.mode = mode;
        c
    }

    /// Configure for timeout simulation.
    pub fn timeout_mode(self, timeout_ms: u64) -> (r: Self)
        ensures
            r == (RegulatorEndpointConfig { mode: RegulatorMode::Timeout { delay_ms: timeout_ms }, ..self }),
    {
        self.with_mode(RegulatorMode::Timeout { delay_ms: timeout_ms })
    }

    /// Configure for rejection simulation.
    pub fn reject_mode(self, code: &str, message: &str) -> (r: Self)
        ensures
            r.mode matches RegulatorMode::Reject { error_code, error_message } && error_code@
                == code@ && error_message@ == message@,
            r == (RegulatorEndpointConfig { mode: r.mode, ..self }),
    {
        self.with_mode(RegulatorMode::Reject { error_code: owned(code), error_message: owned(message) })
    }

    /// Configure for intermittent failures.
    pub fn intermittent_mode(self, failure_rate: Ratio) -> (r: Self)
        ensures
            r == (RegulatorEndpointConfig { mode: RegulatorMode::Intermittent { failure_rate }, ..self }),
    {
        self.with_mode(RegulatorMode::Intermittent { failure_rate })
    }
}

// ============================================================================
// Main configuration
// ============================================================================

/// Configuration for all simulators.
#[derive(Clone, Debug)]
pub struct SimulatorConfig {
    pub core_banking: CoreBankingConfig,
    pub mapping_service: MappingServiceConfig,
    pub rulepack_service: RulepackServiceConfig,
    pub regulator_endpoint: RegulatorEndpointConfig,
}

impl SimulatorConfig {
    /// Whether every service has its default configuration.
    pub open spec fn is_default(self) -> bool {
        &&& self.core_banking.is_default()
        &&& self.mapping_service.is_default()
        &&& self.rulepack_service.is_default()
        &&& self.regulator_endpoint.is_default()
    }
    /// Every service with its default configuration.
    pub fn default() -> (r: Self)
        ensures
            r.is_default(),
    {
        SimulatorConfig {
            core_banking: CoreBankingConfig::default(),
            mapping_service: MappingServiceConfig::default(),
            rulepack_service: RulepackServiceConfig::default(),
            regulator_endpoint: RegulatorEndpointConfig::default(),
        }
    }

    /// Create a new configuration builder.
    pub fn builder() -> (r: SimulatorConfigBuilder)
        ensures
            r.config.is_default(),
    {
        SimulatorConfigBuilder { config: Self::default() }
    }

    /// Create configuration for CI environment (no delays).
    pub fn for_ci() -> (r: Self)
        ensures
            r.is_default(),
    {
        Self::with_latency_everywhere(LatencyConfig::none())
    }

    /// Create configuration for load testing (realistic latencies).
    pub fn for_load_test() -> (r: Self)
        ensures
            r.core_banking.latency == (LatencyConfig {
                enabled: true,
                base_ms: 20,
                jitter_ms: 15,
                percentiles: Some(LatencyPercentiles { p50_ms: 20, p90_ms: 50, p99_ms: 150 }),
            }),
            r.mapping_service.latency == r.core_banking.latency,
            r.rulepack_service.latency == r.core_banking.latency,
            r.regulator_endpoint.latency == r.core_banking.latency,
            r.core_banking.is_default_but_latency() && r.mapping_service.is_default_but_latency(),
            r.rulepack_service.is_default_but_latency() && r.regulator_endpoint.is_default_but_latency(),
    {
        Self::with_latency_everywhere(LatencyConfig::realistic())
    }

    /// The default configuration with one latency setting for every service.
    fn with_latency_everywhere(latency: LatencyConfig) -> (r: Self)
        ensures
            r.core_banking.latency == latency,
            r.mapping_service.latency == latency,
            r.rulepack_service.latency == latency,
            r.regulator_endpoint.latency == latency,
            r.core_banking.is_default_but_latency() && r.mapping_service.is_default_but_latency(),
            r.rulepack_service.is_default_but_latency() && r.regulator_endpoint.is_default_but_latency(),
    {
        let mut c = Self::default();
        c.core_banking.latency = latency;
        c.mapping_service.latency = latency;
        c.rulepack_service.latency = latency;
        c.regulator_endpoint.latency = latency;
        c
    }
}

/// Builder for SimulatorConfig.
#[derive(Debug)]
pub struct SimulatorConfigBuilder {
    pub config: SimulatorConfig,
}

impl SimulatorConfigBuilder {
    /// Sets the Core Banking configuration.
    pub fn core_banking(self, config: CoreBankingConfig) -> (r: Self)
        ensures
            r.config.core_banking == config,
            r.config.mapping_service == self.config.mapping_service,
            r.config.rulepack_service == self.config.rulepack_service,
            r.config.regulator_endpoint == self.config.regulator_endpoint,
    {
        let mut b = self;
        b.config.core_banking = config;
        b
    }

    /// Sets the Mapping Service configuration.
    pub fn mapping_service(self, config: MappingServiceConfig) -> (r: Self)
        ensures
            r.config.mapping_service == config,
            r.config.core_banking == self.config.core_banking,
            r.config.rulepack_service == self.config.rulepack_service,
            r.config.regulator_endpoint == self.config.regulator_endpoint,
    {
        let mut b = self;
        b.config.mapping_service = config;
        b
    }

    /// Sets the Rulepack Service configuration.
    pub fn rulepack_service(self, config: RulepackServiceConfig) -> (r: Self)
        ensures
            r.config.rulepack_service == config,
            r.config.core_banking == self.config.core_banking,
            r.config.mapping_service == self.config.mapping_service,
            r.config.regulator_endpoint == self.config.regulator_endpoint,
    {
        let mut b = self;
        b.config.rulepack_service = config;
        b
    }

    /// Sets the Regulator Endpoint configuration.
    pub fn regulator_endpoint(self, config: RegulatorEndpointConfig) -> (r: Self)
        ensures
            r.config.regulator_endpoint == config,
            r.config.core_banking == self.config.core_banking,
            r.config.mapping_service == self.config.mapping_service,
            r.config.rulepack_service == self.config.rulepack_service,
    {
        let mut b = self;
        b.config.regulator_endpoint = config;
        b
    }

    /// The configuration built.
    pub fn build(self) -> (r: SimulatorConfig)
        ensures
            r == self.config,
    {
        self.config
    }
}


impl FailureInjectionConfig {
    /// Whether a failure is injected now, on a fresh random draw.
    pub fn should_fail(&self) -> (r: bool)
        ensures
            exists|draw: u64| r == self.spec_fails_with(draw),
            !self.enabled ==> !r,
    {
        let draw = random_u64();
        self.should_fail_with(draw)
    }

    /// The failure injected now, if any, on fresh random draws.
    pub fn random_failure(&self) -> (r: Option<&FailureType>)
        ensures
            exists|fail_draw: u64, pick_draw: u64|
                {
                    &&& (r matches Some(f) ==> self.spec_failure_with(fail_draw, pick_draw) == Some(*f))
                    &&& (r is None ==> self.spec_failure_with(fail_draw, pick_draw) is None)
                },
            !self.enabled ==> r is None,
    {
        let fail_draw = random_u64();
        let pick_draw = random_u64();
        self.random_failure_with(fail_draw, pick_draw)
    }
}

impl OffPeakConfig {
    /// Whether submissions are allowed at the current UTC hour.
    pub fn is_off_peak_now(&self) -> (r: bool)
        requires
            self.enabled ==> self.timezone_offset <= 104,
        ensures
            exists|t: Timestamp|
                valid_timestamp(t) && r == self.spec_is_off_peak_at((t.secs as int % 86400) / 3600),
            !self.enabled ==> r,
    {
        let t = now();
        let hour = utc_hour(t);
        assert(t.secs as int % 86400 / 3600 < 24);
        self.is_off_peak_at(hour)
    }
}

} // verus!
