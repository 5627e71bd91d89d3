//! Telemetry service for sending usage and error events to the analytics endpoint.
//!
//! Enforces the user-visible opt-out gate: when the telemetry setting is `disabled` or
//! OpenTelemetry is switched off, all telemetry sends are suppressed.

use crate::json;
use crate::json::{Json, Tree};
use crate::providers::chat_format;
use crate::text;
use vstd::prelude::*;

verus! {

// ---------------------------------------------------------------------------
// Event types
// ---------------------------------------------------------------------------

/// The kind of telemetry event being recorded.
#[derive(Debug, Clone, PartialEq)]
pub enum TelemetryEventKind {
    /// A new task was started.
    TaskStart,
    /// A task completed (success or failure).
    TaskComplete { success: bool },
    /// A tool was used.
    ToolUse { tool_name: String, success: bool },
    /// An error occurred.
    Error { error_type: String, message: String },
    /// A panic/crash occurred.
    Crash { panic_message: String, backtrace: String },
    /// A provider request was made.
    ProviderRequest { provider: String, success: bool, duration_ms: u64 },
    /// A context compaction occurred.
    ContextCompaction,
    /// A hook was triggered.
    HookTrigger { hook_name: String, success: bool },
}

/// A telemetry event envelope.
#[derive(Debug, PartialEq)]
pub struct TelemetryEvent {
    /// Unique event ID (ULID).
    pub event_id: String,
    /// Machine ID.
    pub machine_id: String,
    /// Event kind.
    pub kind: TelemetryEventKind,
    /// Timestamp (Unix epoch seconds).
    pub timestamp: u64,
    /// Task ID (when applicable).
    pub task_id: Option<String>,
    /// Provider/model info.
    pub provider: Option<String>,
    pub model: Option<String>,
    /// Additional free-form metadata.
    pub metadata: Option<Json>,
}

/// The kind of an event as JSON: its name under `type`, and what it holds.
pub open spec fn kind_tree(k: TelemetryEventKind) -> Tree {
    let e = json::empty_obj();
    match k {
        TelemetryEventKind::TaskStart => e.put("type"@, Tree::Str("task_start"@)),
        TelemetryEventKind::TaskComplete { success } => e.put(
            "type"@,
            Tree::Str("task_complete"@),
        ).put("success"@, Tree::Bool(success)),
        TelemetryEventKind::ToolUse { tool_name, success } => e.put(
            "type"@,
            Tree::Str("tool_use"@),
        ).put("tool_name"@, Tree::Str(tool_name@)).put("success"@, Tree::Bool(success)),
        TelemetryEventKind::Error { error_type, message } => e.put(
            "type"@,
            Tree::Str("error"@),
        ).put("error_type"@, Tree::Str(error_type@)).put("message"@, Tree::Str(message@)),
        TelemetryEventKind::Crash { panic_message, backtrace } => e.put(
            "type"@,
            Tree::Str("crash"@),
        ).put("panic_message"@, Tree::Str(panic_message@)).put(
            "backtrace"@,
            Tree::Str(backtrace@),
        ),
        TelemetryEventKind::ProviderRequest { provider, success, duration_ms } => e.put(
            "type"@,
            Tree::Str("provider_request"@),
        ).put("provider"@, Tree::Str(provider@)).put("success"@, Tree::Bool(success)).put(
            "duration_ms"@,
            Tree::Int(duration_ms as int),
        ),
        TelemetryEventKind::ContextCompaction => e.put(
            "type"@,
            Tree::Str("context_compaction"@),
        ),
        TelemetryEventKind::HookTrigger { hook_name, success } => e.put(
            "type"@,
            Tree::Str("hook_trigger"@),
        ).put("hook_name"@, Tree::Str(hook_name@)).put("success"@, Tree::Bool(success)),
    }
}

/// An optional text as JSON.
pub open spec fn text_or_null(t: Option<String>) -> Tree {
    match t {
        Some(s) => Tree::Str(s@),
        None => Tree::Null,
    }
}

/// An event as JSON.
pub open spec fn event_tree(e: TelemetryEvent) -> Tree {
    json::empty_obj().put("event_id"@, Tree::Str(e.event_id@)).put(
        "machine_id"@,
        Tree::Str(e.machine_id@),
    ).put("kind"@, kind_tree(e.kind)).put("timestamp"@, Tree::Int(e.timestamp as int)).put(
        "task_id"@,
        text_or_null(e.task_id),
    ).put("provider"@, text_or_null(e.provider)).put("model"@, text_or_null(e.model)).put(
        "metadata"@,
        match e.metadata {
            Some(m) => m@,
            None => Tree::Null,
        },
    )
}

/// A batch of events as JSON.
pub open spec fn batch_tree(v: Seq<TelemetryEvent>) -> Tree {
    Tree::Arr(v.map_values(|e: TelemetryEvent| event_tree(e)))
}

fn typed(name: &str) -> (r: Json)
    ensures
        r@ == json::empty_obj().put("type"@, Tree::Str(name@)),
{
    let mut m = Json::object();
    m.put("type", Json::str(name));
    m
}

fn make_kind(k: &TelemetryEventKind) -> (r: Json)
    ensures
        r@ == kind_tree(*k),
{
    match k {
        TelemetryEventKind::TaskStart => typed("task_start"),
        TelemetryEventKind::TaskComplete { success } => {
            let mut m = typed("task_complete");
            m.put("success", Json::Bool(*success));
            m
        },
        TelemetryEventKind::ToolUse { tool_name, success } => {
            let mut m = typed("tool_use");
            m.put("tool_name", Json::str(tool_name.as_str()));
            m.put("success", Json::Bool(*success));
            m
        },
        TelemetryEventKind::Error { error_type, message } => {
            let mut m = typed("error");
            m.put("error_type", Json::str(error_type.as_str()));
            m.put("message", Json::str(message.as_str()));
            m
        },
        TelemetryEventKind::Crash { panic_message, backtrace } => {
            let mut m = typed("crash");
            m.put("panic_message", Json::str(panic_message.as_str()));
            m.put("backtrace", Json::str(backtrace.as_str()));
            m
        },
        TelemetryEventKind::ProviderRequest { provider, success, duration_ms } => {
            let mut m = typed("provider_request");
            m.put("provider", Json::str(provider.as_str()));
            m.put("success", Json::Bool(*success));
            m.put("duration_ms", Json::Int(*duration_ms as i128));
            m
        },
        TelemetryEventKind::ContextCompaction => typed("context_compaction"),
        TelemetryEventKind::HookTrigger { hook_name, success } => {
            let mut m = typed("hook_trigger");
            m.put("hook_name", Json::str(hook_name.as_str()));
            m.put("success", Json::Bool(*success));
            m
        },
    }
}

fn make_text_or_null(t: &Option<String>) -> (r: Json)
    ensures
        r@ == text_or_null(*t),
{
    match t {
        Some(s) => Json::str(s.as_str()),
        None => Json::Null,
    }
}

fn make_event(e: &TelemetryEvent) -> (r: Json)
    ensures
        r@ == event_tree(*e),
{
    let mut m = Json::object();
    m.put("event_id", Json::str(e.event_id.as_str()));
    m.put("machine_id", Json::str(e.machine_id.as_str()));
    m.put("kind", make_kind(&e.kind));
    m.put("timestamp", Json::Int(e.timestamp as i128));
    m.put("task_id", make_text_or_null(&e.task_id));
    m.put("provider", make_text_or_null(&e.provider));
    m.put("model", make_text_or_null(&e.model));
    m.put(
        "metadata",
        match &e.metadata {
            Some(j) => j.copy(),
            None => Json::Null,
        },
    );
    m
}

/// A batch of events as JSON.
pub fn make_batch(v: &Vec<TelemetryEvent>) -> (r: Json)
    ensures
        r@ == batch_tree(v@),
{
    let mut out = chat_format::no_json();
    let ghost ts = v@.map_values(|e: TelemetryEvent| event_tree(e));
    let mut i: usize = 0;
    while i < v.len()
        invariant
            i <= v@.len(),
            ts == v@.map_values(|e: TelemetryEvent| event_tree(e)),
            json::trees(out@) =~= ts.take(i as int),
        decreases v@.len() - i,
    {
        let e = make_event(&v[i]);
        assert(ts[i as int] == e@);
        chat_format::push_json(&mut out, e);
        i = i + 1;
    }
    assert(ts.take(i as int) =~= ts);
    Json::array(out)
}

// ---------------------------------------------------------------------------
// Telemetry service
// ---------------------------------------------------------------------------

/// Calls `ulid::Ulid::new` and writes the identifier in its canonical form, which is 26
/// characters long. It is made from the time and from chance.
#[verifier::external_body]
fn new_event_id() -> (r: String)
    ensures
        r@.len() == 26,
{
    ulid::Ulid::new().to_string()
}

/// Calls `SystemTime::duration_since` with the Unix epoch: the seconds since then, or zero
/// before it. Nothing is promised of the value.
#[verifier::external_body]
fn seconds_since_epoch(t: std::time::SystemTime) -> (r: u64) {
    t.duration_since(std::time::UNIX_EPOCH).unwrap_or_default().as_secs()
}

/// Telemetry service that collects and batches events for sending.
#[derive(Debug)]
pub struct TelemetryService {
    /// Whether telemetry is enabled (opt-out gate).
    pub enabled: bool,
    /// Whether OpenTelemetry is enabled.
    pub otel_enabled: bool,
    /// OTLP endpoint URL.
    pub otlp_endpoint: Option<String>,
    /// OTLP protocol.
    pub otlp_protocol: Option<String>,
    /// Machine ID.
    pub machine_id: String,
    /// Version string.
    pub version: String,
    /// Batching queue (in-memory).
    pub queue: Vec<TelemetryEvent>,
    /// Send interval, in milliseconds.
    pub send_interval_ms: u64,
    /// Max batch size before forcing send.
    pub max_batch_size: usize,
}

/// Errors that can occur during telemetry collection/sending.
#[derive(Debug, Clone, PartialEq)]
pub enum TelemetryError {
    Disabled,
    Serialization(String),
    HttpError(u16),
    NetworkError(String),
}

impl TelemetryError {
    /// What the error says.
    pub fn message(&self) -> (r: String)
        ensures
            r@ == (match *self {
                TelemetryError::Disabled => "telemetry is disabled"@,
                TelemetryError::Serialization(m) => "serialization failed: "@ + m@,
                TelemetryError::HttpError(s) => "http error: "@ + text::decimal(s as nat),
                TelemetryError::NetworkError(m) => "network error: "@ + m@,
            }),
    {
        match self {
            TelemetryError::Disabled => "telemetry is disabled".to_owned(),
            TelemetryError::Serialization(m) => {
                let mut r = "serialization failed: ".to_owned();
                text::push_text(&mut r, m.as_str());
                r
            },
            TelemetryError::HttpError(s) => {
                let mut r = "http error: ".to_owned();
                let n = text::number_text(*s as u64);
                text::push_text(&mut r, n.as_str());
                r
            },
            TelemetryError::NetworkError(m) => {
                let mut r = "network error: ".to_owned();
                text::push_text(&mut r, m.as_str());
                r
            },
        }
    }
}

/// A batch that is to be sent: where to, and its text.
#[derive(Debug, Clone, PartialEq)]
pub struct TelemetryPost {
    pub endpoint: String,
    pub body: String,
}

impl TelemetryService {
    /// Everything but the queue is the same.
    pub open spec fn same_settings(&self, other: &TelemetryService) -> bool {
        &&& self.enabled == other.enabled
        &&& self.otel_enabled == other.otel_enabled
        &&& self.otlp_endpoint == other.otlp_endpoint
        &&& self.otlp_protocol == other.otlp_protocol
        &&& self.machine_id == other.machine_id
        &&& self.version == other.version
        &&& self.send_interval_ms == other.send_interval_ms
        &&& self.max_batch_size == other.max_batch_size
    }

    /// An event is what is recorded of a kind and a task.
    pub open spec fn is_event(
        &self,
        e: TelemetryEvent,
        kind: TelemetryEventKind,
        task_id: Option<String>,
    ) -> bool {
        &&& e.machine_id@ == self.machine_id@
        &&& e.kind == kind
        &&& e.task_id == task_id
        &&& e.provider is None
        &&& e.model is None
        &&& e.metadata is None
    }

    /// What recording an event does to the queue and hands out to be sent: the event is
    /// added, and a queue that has reached the size of a batch is handed out whole.
    pub open spec fn recorded(
        &self,
        before: &TelemetryService,
        out: Option<Vec<TelemetryEvent>>,
        kind: TelemetryEventKind,
        task_id: Option<String>,
    ) -> bool {
        if !before.enabled {
            *self == *before && out is None
        } else if before.queue@.len() + 1 >= before.max_batch_size {
            &&& self.queue@.len() == 0
            &&& out matches Some(v) && v@.len() == before.queue@.len() + 1 && v@.drop_last()
                == before.queue@ && before.is_event(v@.last(), kind, task_id)
        } else {
            &&& out is None
            &&& self.queue@.len() == before.queue@.len() + 1
            &&& self.queue@.drop_last() == before.queue@
            &&& before.is_event(self.queue@.last(), kind, task_id)
        }
    }

    /// Create a new telemetry service.
    ///
    /// If `enabled` is `false` (user disabled telemetry), all events are silently
    /// dropped and no HTTP requests are made.
    pub fn new(
        enabled: bool,
        otel_enabled: bool,
        machine_id: String,
        version: String,
        otlp_endpoint: Option<String>,
        otlp_protocol: Option<String>,
        send_interval_ms: u64,
        max_batch_size: usize,
    ) -> (r: TelemetryService)
        ensures
            r.enabled == enabled,
            r.otel_enabled == otel_enabled,
            r.machine_id == machine_id,
            r.version == version,
            r.otlp_endpoint == otlp_endpoint,
            r.otlp_protocol == otlp_protocol,
            r.send_interval_ms == send_interval_ms,
            r.max_batch_size == max_batch_size,
            r.queue@.len() == 0,
    {
        TelemetryService {
            enabled,
            otel_enabled,
            otlp_endpoint,
            otlp_protocol,
            machine_id,
            version,
            queue: Vec::new(),
            send_interval_ms,
            max_batch_size,
        }
    }

    /// Check if telemetry is enabled (opt-out gate).
    pub fn is_enabled(&self) -> (r: bool)
        ensures
            r == self.enabled,
    {
        self.enabled
    }

    /// Record a telemetry event with its identifier and time. Gives the batch that is to be
    /// sent now, where there is one. If telemetry is disabled, the event is silently
    /// dropped.
    pub fn record_at(
        &mut self,
        kind: TelemetryEventKind,
        task_id: Option<String>,
        event_id: String,
        timestamp: u64,
    ) -> (out: Option<Vec<TelemetryEvent>>)
        ensures
            final(self).same_settings(old(self)),
            final(self).recorded(old(self), out, kind, task_id),
            out matches Some(v) ==> v@.last().event_id == event_id && v@.last().timestamp
                == timestamp,
            old(self).enabled && out is None ==> final(self).queue@.last().event_id == event_id
                && final(self).queue@.last().timestamp == timestamp,
    {
        if !self.enabled {
            return None;
        }
        let ghost before = self.queue@;
        let event = TelemetryEvent {
            event_id,
            machine_id: self.machine_id.clone(),
            kind,
            timestamp,
            task_id,
            provider: None,
            model: None,
            metadata: None,
        };
        self.queue.push(event);
        assert(self.queue@.drop_last() =~= before);
        if self.queue.len() >= self.max_batch_size {
            let mut batch: Vec<TelemetryEvent> = Vec::new();
            std::mem::swap(&mut self.queue, &mut batch);
            Some(batch)
        } else {
            None
        }
    }

    /// Record a telemetry event with a new identifier and the time of day. Gives the batch
    /// that is to be sent now, where there is one. If telemetry is disabled, the event is
    /// silently dropped.
    pub fn record(&mut self, kind: TelemetryEventKind, task_id: Option<String>) -> (out: Option<
        Vec<TelemetryEvent>,
    >)
        ensures
            final(self).same_settings(old(self)),
            final(self).recorded(old(self), out, kind, task_id),
            out matches Some(v) ==> v@.last().event_id@.len() == 26,
            old(self).enabled && out is None ==> final(self).queue@.last().event_id@.len() == 26,
    {
        if !self.enabled {
            return None;
        }
        let id = new_event_id();
        let now = seconds_since_epoch(std::time::SystemTime::now());
        self.record_at(kind, task_id, id, now)
    }

    /// Record an error event.
    pub fn record_error(&mut self, kind: TelemetryEventKind, task_id: Option<String>) -> (out:
        Option<Vec<TelemetryEvent>>)
        ensures
            final(self).same_settings(old(self)),
            final(self).recorded(old(self), out, kind, task_id),
            out matches Some(v) ==> v@.last().event_id@.len() == 26,
            old(self).enabled && out is None ==> final(self).queue@.last().event_id@.len() == 26,
    {
        self.record(kind, task_id)
    }

    /// Flush the queue immediately (for shutdown): gives the batch that is to be sent. A
    /// disabled service and an empty queue have none.
    pub fn flush(&mut self) -> (out: Option<Vec<TelemetryEvent>>)
        ensures
            final(self).same_settings(old(self)),
            out is Some <==> old(self).enabled && old(self).queue@.len() > 0,
            out matches Some(v) ==> v@ == old(self).queue@ && final(self).queue@.len() == 0,
            out is None ==> *final(self) == *old(self),
    {
        if !self.enabled || self.queue.len() == 0 {
            return None;
        }
        let mut batch: Vec<TelemetryEvent> = Vec::new();
        std::mem::swap(&mut self.queue, &mut batch);
        Some(batch)
    }

    /// What is to be sent for a batch: an error where telemetry is disabled or the batch is
    /// empty, nothing where there is no endpoint, the batch as JSON else.
    pub fn send_batch(&self, batch: &Vec<TelemetryEvent>) -> (r: Result<
        Option<TelemetryPost>,
        TelemetryError,
    >)
        ensures
            r is Err <==> !self.enabled || batch@.len() == 0,
            r matches Err(e) ==> e is Disabled,
            r matches Ok(p) ==> (p is Some <==> self.otlp_endpoint is Some),
            r matches Ok(Some(p)) ==> p.endpoint@ == (self.otlp_endpoint->0)@ && p.body@
                == json::printed(batch_tree(batch@)),
    {
        if !self.enabled || batch.len() == 0 {
            return Err(TelemetryError::Disabled);
        }
        match &self.otlp_endpoint {
            None => Ok(None),
            Some(url) => {
                let payload = make_batch(batch);
                Ok(Some(TelemetryPost { endpoint: url.clone(), body: json::print(&payload) }))
            },
        }
    }

    /// Whether the queue is to be flushed from time to time.
    pub fn flushes_in_background(&self) -> (r: bool)
        ensures
            r == self.enabled,
    {
        self.enabled
    }
}

/// What the answer to a batch means: its status, or the message of a transfer that failed.
pub fn send_outcome(answer: Result<u16, String>) -> (r: Result<(), TelemetryError>)
    ensures
        r == (match answer {
            Ok(status) => if 200 <= status < 300 {
                Ok::<(), TelemetryError>(())
            } else {
                Err(TelemetryError::HttpError(status))
            },
            Err(m) => Err(TelemetryError::NetworkError(m)),
        }),
{
    match answer {
        Ok(status) => {
            if 200 <= status && status < 300 {
                Ok(())
            } else {
                Err(TelemetryError::HttpError(status))
            }
        },
        Err(m) => Err(TelemetryError::NetworkError(m)),
    }
}

/// Check if telemetry should be enabled: unless it is switched off by its own setting or
/// with OpenTelemetry.
pub fn is_telemetry_enabled(telemetry_setting: &str, open_telemetry_enabled: bool) -> (r: bool)
    ensures
        r == (telemetry_setting@ != "disabled"@ && open_telemetry_enabled),
{
    if text::same(telemetry_setting, "disabled") {
        return false;
    }
    open_telemetry_enabled
}

/// A service that is disabled neither keeps nor hands out an event.
pub proof fn law_disabled_service_records_nothing(
    before: TelemetryService,
    after: TelemetryService,
    out: Option<Vec<TelemetryEvent>>,
    kind: TelemetryEventKind,
    task_id: Option<String>,
)
    requires
        !before.enabled,
        after.recorded(&before, out, kind, task_id),
    ensures
        after == before,
        out is None,
{
}

/// A queue stays smaller than a batch, as long as a batch holds an event.
pub proof fn law_queue_stays_below_batch(
    before: TelemetryService,
    after: TelemetryService,
    out: Option<Vec<TelemetryEvent>>,
    kind: TelemetryEventKind,
    task_id: Option<String>,
)
    requires
        before.max_batch_size > 0,
        before.queue@.len() < before.max_batch_size,
        after.recorded(&before, out, kind, task_id),
    ensures
        after.queue@.len() < before.max_batch_size,
{
}

} // verus!
