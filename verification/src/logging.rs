//! Data of the logging layer: correlation ids that tie related operations
//! together, security events for audit logs, performance measurements and
//! the logging configurations for production and development.

use crate::collections::{key_position, StringMap};
use crate::platform::{is_uuid_v4, random_uuid_v4};
use crate::text::{uuid_hyphenated, uuid_text};
use vstd::prelude::*;
use vstd::string::*;

verus! {

/// Correlation id for tracking related operations across the system: a
/// UUID, held as its 128-bit value.
#[derive(Debug, Clone, Copy, PartialEq, Eq, Hash, Structural)]
pub struct CorrelationId(u128);

impl View for CorrelationId {
    type V = u128;

    closed spec fn view(&self) -> u128 {
        self.0
    }
}

impl CorrelationId {
    /// A new random (version 4) correlation id.
    pub fn new() -> (c: Self)
        ensures
            is_uuid_v4(c@),
    {
        CorrelationId(random_uuid_v4())
    }

    /// The correlation id with UUID value `uuid`.
    pub fn from_uuid(uuid: u128) -> (c: Self)
        ensures
            c@ == uuid,
    {
        CorrelationId(uuid)
    }

    /// The UUID value.
    pub fn uuid(&self) -> (u: u128)
        ensures
            u == self@,
    {
        self.0
    }

    /// The first eight characters of the hyphenated form, for logs.
    pub fn short(&self) -> (s: String)
        ensures
            s@ == uuid_hyphenated(self@).take(8),
    {
        let full = uuid_text(self.0);
        let head = full.as_str().substring_char(0, 8);
        let s = String::from_str(head);
        assert(uuid_hyphenated(self@).subrange(0, 8) =~= uuid_hyphenated(self@).take(8));
        s
    }

    /// The hyphenated lower-case form.
    pub fn to_text(&self) -> (s: String)
        ensures
            s@ == uuid_hyphenated(self@),
    {
        uuid_text(self.0)
    }
}

impl Default for CorrelationId {
    /// A new random correlation id.
    fn default() -> (c: Self)
        ensures
            is_uuid_v4(c@),
    {
        Self::new()
    }
}

/// Security event types for audit logging.
#[derive(Debug, Clone)]
pub enum SecurityEvent {
    /// Authentication attempt.
    AuthAttempt { node_id: String, success: bool, method: String },
    /// Message signature verification.
    SignatureVerification { message_id: String, node_id: String, success: bool, algorithm: String },
    /// Peer connection security validation.
    PeerValidation { peer_id: String, success: bool, reason: Option<String> },
    /// Rate limiting triggered.
    RateLimitTriggered { peer_id: String, operation: String, limit: u32 },
    /// Suspicious activity detected.
    SuspiciousActivity { peer_id: String, activity_type: String, details: StringMap },
    /// Configuration change.
    ConfigChange { component: String, old_value: Option<String>, new_value: String, changed_by: String },
}

/// Performance measurement of one operation.
#[derive(Debug, Clone)]
pub struct PerformanceMetrics {
    /// Operation name.
    pub operation: String,
    /// Duration in milliseconds.
    pub duration_ms: u64,
    /// Additional context.
    pub metadata: StringMap,
}

/// Log configuration.
#[derive(Debug, Clone)]
pub struct LogConfig {
    /// Log level filter.
    pub level: String,
    /// Structured JSON output.
    pub json: bool,
    /// ANSI colours.
    pub colors: bool,
    /// File and line numbers.
    pub include_location: bool,
    /// Thread names.
    pub include_thread: bool,
    /// Span information.
    pub include_spans: bool,
    /// Levels of particular log targets.
    pub targets: StringMap,
}

impl Default for LogConfig {
    /// Level "info", plain coloured output with locations, threads and
    /// spans, no per-target levels.
    fn default() -> (c: Self)
        ensures
            c.level@ == "info"@,
            !c.json,
            c.colors,
            c.include_location,
            c.include_thread,
            c.include_spans,
            c.targets@.len() == 0,
    {
        LogConfig {
            level: String::from_str("info"),
            json: false,
            colors: true,
            include_location: true,
            include_thread: true,
            include_spans: true,
            targets: StringMap::new(),
        }
    }
}

/// Logging for production: level "info", JSON without colours or
/// locations, thread names but no spans; the crate at "info", its security
/// target at "warn" and its performance target at "info".
pub fn production_config() -> (c: LogConfig)
    ensures
        c.level@ == "info"@,
        c.json,
        !c.colors,
        !c.include_location,
        c.include_thread,
        !c.include_spans,
        c.targets@ == seq![
            ("somasync"@, "info"@),
            ("somasync::security"@, "warn"@),
            ("somasync::performance"@, "info"@),
        ],
{
    let mut targets = StringMap::new();
    proof {
        reveal_strlit("somasync");
        reveal_strlit("somasync::security");
        reveal_strlit("somasync::performance");
    }
    targets.insert(String::from_str("somasync"), String::from_str("info"));
    assert(targets@ =~= seq![("somasync"@, "info"@)]);
    assert(key_position(targets@.drop_last(), "somasync::security"@) == -1);
    assert("somasync"@ != "somasync::security"@) by {
        reveal_strlit("somasync");
        reveal_strlit("somasync::security");
        assert("somasync"@.len() != "somasync::security"@.len());
    }
    targets.insert(String::from_str("somasync::security"), String::from_str("warn"));
    assert(targets@ =~= seq![("somasync"@, "info"@), ("somasync::security"@, "warn"@)]);
    assert("somasync::security"@ != "somasync::performance"@) by {
        reveal_strlit("somasync::security");
        reveal_strlit("somasync::performance");
        assert("somasync::security"@.len() != "somasync::performance"@.len());
    }
    assert("somasync"@ != "somasync::performance"@) by {
        reveal_strlit("somasync");
        reveal_strlit("somasync::performance");
        assert("somasync"@.len() != "somasync::performance"@.len());
    }
    assert(key_position(targets@.drop_last().drop_last(), "somasync::performance"@) == -1);
    assert(key_position(targets@.drop_last(), "somasync::performance"@) == -1);
    targets.insert(String::from_str("somasync::performance"), String::from_str("info"));
    LogConfig {
        level: String::from_str("info"),
        json: true,
        colors: false,
        include_location: false,
        include_thread: true,
        include_spans: false,
        targets,
    }
}

/// Logging for development: level "debug", coloured plain output with
/// locations, threads and spans; the crate at "debug", tokio and hyper at
/// "info".
pub fn development_config() -> (c: LogConfig)
    ensures
        c.level@ == "debug"@,
        !c.json,
        c.colors,
        c.include_location,
        c.include_thread,
        c.include_spans,
        c.targets@ == seq![("somasync"@, "debug"@), ("tokio"@, "info"@), ("hyper"@, "info"@)],
{
    let mut targets = StringMap::new();
    proof {
        reveal_strlit("somasync");
        reveal_strlit("tokio");
        reveal_strlit("hyper");
    }
    targets.insert(String::from_str("somasync"), String::from_str("debug"));
    assert(targets@ =~= seq![("somasync"@, "debug"@)]);
    assert("somasync"@ != "tokio"@) by {
        reveal_strlit("somasync");
        reveal_strlit("tokio");
        assert("somasync"@.len() != "tokio"@.len());
    }
    assert(key_position(targets@.drop_last(), "tokio"@) == -1);
    targets.insert(String::from_str("tokio"), String::from_str("info"));
    assert(targets@ =~= seq![("somasync"@, "debug"@), ("tokio"@, "info"@)]);
    assert("somasync"@ != "hyper"@) by {
        reveal_strlit("somasync");
        reveal_strlit("hyper");
        assert("somasync"@.len() != "hyper"@.len());
    }
    assert("tokio"@ != "hyper"@) by {
        reveal_strlit("tokio");
        reveal_strlit("hyper");
        assert("tokio"@[0] != "hyper"@[0]);
    }
    assert(key_position(targets@.drop_last().drop_last(), "hyper"@) == -1);
    assert(key_position(targets@.drop_last(), "hyper"@) == -1);
    targets.insert(String::from_str("hyper"), String::from_str("info"));
    LogConfig {
        level: String::from_str("debug"),
        json: false,
        colors: true,
        include_location: true,
        include_thread: true,
        include_spans: true,
        targets,
    }
}

/// Monotonic clock reading of `std::time::Instant`.
#[verifier::external_type_specification]
#[verifier::external_body]
pub struct ExInstant(std::time::Instant);

/// `Instant::now()`: the current monotonic clock reading. Nothing is
/// stated of the value.
#[verifier::external_body]
fn instant_now() -> (t: std::time::Instant) {
    std::time::Instant::now()
}

/// `Instant::elapsed()` in whole milliseconds (`Duration::as_millis`).
/// Nothing is stated of the value: it depends on the clock.
#[verifier::external_body]
fn elapsed_millis(start: &std::time::Instant) -> (ms: u128) {
    start.elapsed().as_millis()
}

/// Measures the duration of an operation.
#[derive(Debug)]
pub struct PerformanceTimer {
    operation: String,
    start: std::time::Instant,
    metadata: StringMap,
}

impl PerformanceTimer {
    /// The operation being timed.
    pub closed spec fn operation_name(&self) -> Seq<char> {
        self.operation@
    }

    /// The metadata recorded so far.
    pub closed spec fn recorded(&self) -> Seq<(Seq<char>, Seq<char>)> {
        self.metadata@
    }

    /// Start timing `operation`, with no metadata.
    pub fn new(operation: String) -> (t: Self)
        ensures
            t.operation_name() == operation@,
            t.recorded().len() == 0,
    {
        PerformanceTimer { operation, start: instant_now(), metadata: StringMap::new() }
    }

    /// Record `value` under `key` in the metadata.
    pub fn with_metadata(self, key: String, value: String) -> (t: Self)
        ensures
            t.operation_name() == self.operation_name(),
            t.recorded() == crate::collections::map_insert(self.recorded(), key@, value@),
    {
        let mut t = self;
        t.metadata.insert(key, value);
        t
    }

    /// Stop timing: the operation, the elapsed milliseconds (truncated to
    /// 64 bits) and the metadata.
    pub fn finish(self) -> (m: PerformanceMetrics)
        ensures
            m.operation@ == self.operation_name(),
            m.metadata@ == self.recorded(),
    {
        let ms = elapsed_millis(&self.start);
        PerformanceMetrics { operation: self.operation, duration_ms: ms as u64, metadata: self.metadata }
    }
}

} // verus!
