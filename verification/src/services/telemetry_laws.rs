//! What telemetry is for: every event that is recorded is sent once, with what it holds.

use crate::json;
use crate::json::Tree;
use crate::providers::body_laws;
use crate::services::telemetry;
use crate::services::telemetry::{TelemetryEvent, TelemetryEventKind, TelemetryService};
use vstd::prelude::*;

verus! {

/// Recording loses nothing and adds one event: what is in the queue afterwards, or is handed
/// out to be sent, is what was in the queue and then the event, with its kind, its task and
/// the machine.
pub proof fn law_recording_adds_one_event(
    before: TelemetryService,
    after: TelemetryService,
    out: Option<Vec<TelemetryEvent>>,
    kind: TelemetryEventKind,
    task_id: Option<String>,
)
    requires
        before.enabled,
        after.recorded(&before, out, kind, task_id),
    ensures
        ({
            let all = if out is Some {
                (out->0)@ + after.queue@
            } else {
                after.queue@
            };
            &&& all.len() == before.queue@.len() + 1
            &&& all.take(before.queue@.len() as int) == before.queue@
            &&& all.last().kind == kind
            &&& all.last().task_id == task_id
            &&& all.last().machine_id@ == before.machine_id@
            &&& out is Some <==> before.queue@.len() + 1 >= before.max_batch_size
        }),
{
    let all = if out is Some {
        (out->0)@ + after.queue@
    } else {
        after.queue@
    };
    if let Some(v) = out {
        assert(all =~= v@);
        assert(v@.drop_last() =~= all.take(before.queue@.len() as int));
    } else {
        assert(after.queue@.drop_last() =~= all.take(before.queue@.len() as int));
    }
}

/// The keys of an event differ.
proof fn lemma_keys()
    ensures
        "event_id"@.len() == 8 && "event_id"@[0] == 'e',
        "machine_id"@.len() == 10,
        "kind"@.len() == 4 && "kind"@[0] == 'k',
        "timestamp"@.len() == 9 && "timestamp"@[0] == 't',
        "task_id"@.len() == 7,
        "provider"@.len() == 8 && "provider"@[0] == 'p',
        "model"@.len() == 5,
        "metadata"@.len() == 8 && "metadata"@[0] == 'm',
        "type"@.len() == 4 && "type"@[0] == 't',
        "success"@.len() == 7,
        "tool_name"@.len() == 9 && "tool_name"@[0] == 't',
        "error_type"@.len() == 10,
        "message"@.len() == 7,
        "panic_message"@.len() == 13,
        "backtrace"@.len() == 9,
        "duration_ms"@.len() == 11,
        "hook_name"@.len() == 9,
{
    reveal_strlit("event_id");
    reveal_strlit("machine_id");
    reveal_strlit("kind");
    reveal_strlit("timestamp");
    reveal_strlit("task_id");
    reveal_strlit("provider");
    reveal_strlit("model");
    reveal_strlit("metadata");
    reveal_strlit("type");
    reveal_strlit("success");
    reveal_strlit("tool_name");
    reveal_strlit("error_type");
    reveal_strlit("message");
    reveal_strlit("panic_message");
    reveal_strlit("backtrace");
    reveal_strlit("duration_ms");
    reveal_strlit("hook_name");
}

/// Every event of a batch is sent, in order, under its own identifier and with all that it
/// holds.
pub proof fn law_events_are_sent_whole(v: Seq<TelemetryEvent>, i: int)
    requires
        0 <= i < v.len(),
    ensures
        ({
            let b = telemetry::batch_tree(v);
            let t = b->Arr_0[i];
            let e = v[i];
            &&& b is Arr && (b->Arr_0).len() == v.len()
            &&& t.get("event_id"@) == Some(Tree::Str(e.event_id@))
            &&& t.get("machine_id"@) == Some(Tree::Str(e.machine_id@))
            &&& t.get("kind"@) == Some(telemetry::kind_tree(e.kind))
            &&& t.get("timestamp"@) == Some(Tree::Int(e.timestamp as int))
            &&& e.task_id is Some ==> t.get("task_id"@) == Some(Tree::Str(e.task_id->0@))
            &&& e.task_id is None ==> t.get("task_id"@) == Some(Tree::Null)
            &&& e.provider is Some ==> t.get("provider"@) == Some(Tree::Str(e.provider->0@))
            &&& e.model is Some ==> t.get("model"@) == Some(Tree::Str(e.model->0@))
            &&& e.metadata is Some ==> t.get("metadata"@) == Some(e.metadata->0@)
        }),
{
    lemma_keys();
    let e = v[i];
    let o = json::empty_obj();
    let a = o.put("event_id"@, Tree::Str(e.event_id@));
    body_laws::lemma_put(o, "event_id"@, Tree::Str(e.event_id@));
    let b = a.put("machine_id"@, Tree::Str(e.machine_id@));
    body_laws::lemma_put(a, "machine_id"@, Tree::Str(e.machine_id@));
    let c = b.put("kind"@, telemetry::kind_tree(e.kind));
    body_laws::lemma_put(b, "kind"@, telemetry::kind_tree(e.kind));
    let d = c.put("timestamp"@, Tree::Int(e.timestamp as int));
    body_laws::lemma_put(c, "timestamp"@, Tree::Int(e.timestamp as int));
    let f = d.put("task_id"@, telemetry::text_or_null(e.task_id));
    body_laws::lemma_put(d, "task_id"@, telemetry::text_or_null(e.task_id));
    let g = f.put("provider"@, telemetry::text_or_null(e.provider));
    body_laws::lemma_put(f, "provider"@, telemetry::text_or_null(e.provider));
    let h = g.put("model"@, telemetry::text_or_null(e.model));
    body_laws::lemma_put(g, "model"@, telemetry::text_or_null(e.model));
    let data = match e.metadata {
        Some(m) => m@,
        None => Tree::Null,
    };
    body_laws::lemma_put(h, "metadata"@, data);
}

/// The kind of an event is told by its type, with all that it holds.
pub proof fn law_kinds_are_told(k: TelemetryEventKind)
    ensures
        ({
            let t = telemetry::kind_tree(k);
            match k {
                TelemetryEventKind::TaskStart => t.get("type"@) == Some(Tree::Str("task_start"@)),
                TelemetryEventKind::TaskComplete { success } => t.get("type"@) == Some(
                    Tree::Str("task_complete"@),
                ) && t.get("success"@) == Some(Tree::Bool(success)),
                TelemetryEventKind::ToolUse { tool_name, success } => t.get("type"@) == Some(
                    Tree::Str("tool_use"@),
                ) && t.get("tool_name"@) == Some(Tree::Str(tool_name@)) && t.get("success"@)
                    == Some(Tree::Bool(success)),
                TelemetryEventKind::Error { error_type, message } => t.get("type"@) == Some(
                    Tree::Str("error"@),
                ) && t.get("error_type"@) == Some(Tree::Str(error_type@)) && t.get("message"@)
                    == Some(Tree::Str(message@)),
                TelemetryEventKind::Crash { panic_message, backtrace } => t.get("type"@) == Some(
                    Tree::Str("crash"@),
                ) && t.get("panic_message"@) == Some(Tree::Str(panic_message@)) && t.get(
                    "backtrace"@,
                ) == Some(Tree::Str(backtrace@)),
                TelemetryEventKind::ProviderRequest { provider, success, duration_ms } => t.get(
                    "type"@,
                ) == Some(Tree::Str("provider_request"@)) && t.get("provider"@) == Some(
                    Tree::Str(provider@),
                ) && t.get("success"@) == Some(Tree::Bool(success)) && t.get("duration_ms"@)
                    == Some(Tree::Int(duration_ms as int)),
                TelemetryEventKind::ContextCompaction => t.get("type"@) == Some(
                    Tree::Str("context_compaction"@),
                ),
                TelemetryEventKind::HookTrigger { hook_name, success } => t.get("type"@) == Some(
                    Tree::Str("hook_trigger"@),
                ) && t.get("hook_name"@) == Some(Tree::Str(hook_name@)) && t.get("success"@)
                    == Some(Tree::Bool(success)),
            }
        }),
{
    lemma_keys();
    let o = json::empty_obj();
    match k {
        TelemetryEventKind::TaskStart => {
            body_laws::lemma_put(o, "type"@, Tree::Str("task_start"@));
        },
        TelemetryEventKind::TaskComplete { success } => {
            let a = o.put("type"@, Tree::Str("task_complete"@));
            body_laws::lemma_put(o, "type"@, Tree::Str("task_complete"@));
            body_laws::lemma_put(a, "success"@, Tree::Bool(success));
        },
        TelemetryEventKind::ToolUse { tool_name, success } => {
            let a = o.put("type"@, Tree::Str("tool_use"@));
            body_laws::lemma_put(o, "type"@, Tree::Str("tool_use"@));
            let b = a.put("tool_name"@, Tree::Str(tool_name@));
            body_laws::lemma_put(a, "tool_name"@, Tree::Str(tool_name@));
            body_laws::lemma_put(b, "success"@, Tree::Bool(success));
        },
        TelemetryEventKind::Error { error_type, message } => {
            let a = o.put("type"@, Tree::Str("error"@));
            body_laws::lemma_put(o, "type"@, Tree::Str("error"@));
            let b = a.put("error_type"@, Tree::Str(error_type@));
            body_laws::lemma_put(a, "error_type"@, Tree::Str(error_type@));
            body_laws::lemma_put(b, "message"@, Tree::Str(message@));
        },
        TelemetryEventKind::Crash { panic_message, backtrace } => {
            let a = o.put("type"@, Tree::Str("crash"@));
            body_laws::lemma_put(o, "type"@, Tree::Str("crash"@));
            let b = a.put("panic_message"@, Tree::Str(panic_message@));
            body_laws::lemma_put(a, "panic_message"@, Tree::Str(panic_message@));
            body_laws::lemma_put(b, "backtrace"@, Tree::Str(backtrace@));
        },
        TelemetryEventKind::ProviderRequest { provider, success, duration_ms } => {
            let a = o.put("type"@, Tree::Str("provider_request"@));
            body_laws::lemma_put(o, "type"@, Tree::Str("provider_request"@));
            let b = a.put("provider"@, Tree::Str(provider@));
            body_laws::lemma_put(a, "provider"@, Tree::Str(provider@));
            let c = b.put("success"@, Tree::Bool(success));
            body_laws::lemma_put(b, "success"@, Tree::Bool(success));
            body_laws::lemma_put(c, "duration_ms"@, Tree::Int(duration_ms as int));
        },
        TelemetryEventKind::ContextCompaction => {
            body_laws::lemma_put(o, "type"@, Tree::Str("context_compaction"@));
        },
        TelemetryEventKind::HookTrigger { hook_name, success } => {
            let a = o.put("type"@, Tree::Str("hook_trigger"@));
            body_laws::lemma_put(o, "type"@, Tree::Str("hook_trigger"@));
            let b = a.put("hook_name"@, Tree::Str(hook_name@));
            body_laws::lemma_put(a, "hook_name"@, Tree::Str(hook_name@));
            body_laws::lemma_put(b, "success"@, Tree::Bool(success));
        },
    }
}

} // verus!
