//! The tool trace of a session: every tool call with its input and output,
//! how often each tool was called, and the errors seen.
//!
//! The trace is built here from the session's events in order; the
//! `events` module decodes recorded events into them.

use vstd::prelude::*;
use crate::ids::{utc_now, Timestamp};
use crate::keyed::{KeyedList};
use crate::text::{
    char_count_for_bytes, chars_of, cut_bytes, cut_text, is_boundary, opt_chars, utf8_len,
    utf8_len_at_most,
};

verus! {

/// The byte length above which a tool's output is cut.
pub const MAX_OUTPUT_BYTES: usize = 10_240;

// ============================================================================
// Cutting long outputs
// ============================================================================

/// A tool's output as the trace keeps it: past 10 240 bytes, the first
/// 10 240 bytes and `...[truncated]`.
pub open spec fn clipped_output(s: Seq<char>) -> Seq<char> {
    cut_text(s, MAX_OUTPUT_BYTES as nat, "...[truncated]"@)
}

/// A tool's output, cut past 10 240 bytes.
pub fn clip_output(s: &str) -> (r: String)
    requires
        utf8_len(s@) > MAX_OUTPUT_BYTES ==> is_boundary(s@, MAX_OUTPUT_BYTES as nat),
    ensures
        r@ == clipped_output(s@),
{
    cut_bytes(s, MAX_OUTPUT_BYTES, "...[truncated]")
}

// ============================================================================
// Events and the trace
// ============================================================================

/// A recorded chat event, with what the trace reads of its JSON data.
#[derive(Debug, Clone)]
pub enum ToolEvent {
    /// A tool was called.
    ToolUse {
        /// The event's sequence number.
        sequence: i64,
        /// `tool`, where it is a string.
        tool: Option<String>,
        /// `input.action`, where it is a string.
        action: Option<String>,
        /// `input` written as JSON, where there is one.
        input: Option<String>,
        /// `id`, where it is a string.
        id: Option<String>,
    },
    /// A tool returned.
    ToolResult {
        /// `id`, where it is a string.
        id: Option<String>,
        /// `is_error`, where it is a boolean.
        is_error: Option<bool>,
        /// `result` written as JSON, where there is one.
        result: Option<String>,
        /// `result` itself, where it is a string.
        result_text: Option<String>,
    },
    /// Any other event, or one whose data is not JSON.
    Other,
}

/// A recorded chat event as plain data.
pub ghost enum ToolEventView {
    ToolUse {
        sequence: i64,
        tool: Option<Seq<char>>,
        action: Option<Seq<char>>,
        input: Option<Seq<char>>,
        id: Option<Seq<char>>,
    },
    ToolResult {
        id: Option<Seq<char>>,
        is_error: Option<bool>,
        result: Option<Seq<char>>,
        result_text: Option<Seq<char>>,
    },
    Other,
}

/// An event as plain data.
pub open spec fn event_view(e: ToolEvent) -> ToolEventView {
    match e {
        ToolEvent::ToolUse { sequence, tool, action, input, id } => ToolEventView::ToolUse {
            sequence,
            tool: opt_chars(tool),
            action: opt_chars(action),
            input: opt_chars(input),
            id: opt_chars(id),
        },
        ToolEvent::ToolResult { id, is_error, result, result_text } => ToolEventView::ToolResult {
            id: opt_chars(id),
            is_error,
            result: opt_chars(result),
            result_text: opt_chars(result_text),
        },
        ToolEvent::Other => ToolEventView::Other,
    }
}

/// Events as plain data.
pub open spec fn events_view(es: Seq<ToolEvent>) -> Seq<ToolEventView> {
    es.map_values(|e: ToolEvent| event_view(e))
}

/// One tool call.
#[derive(Debug, Clone)]
pub struct ToolCallEntry {
    /// The sequence number of the event that called the tool.
    pub sequence: i64,
    /// The tool's name (`unknown` where the event gives none).
    pub tool_name: String,
    /// The `action` of the input, if any.
    pub action: Option<String>,
    /// The input as JSON (empty where there is none).
    pub input_json: String,
    /// The output as JSON, cut past 10 240 bytes, once the tool returned.
    pub output_json: Option<String>,
    /// Whether the tool returned an error.
    pub is_error: bool,
    /// When the call was recorded in the trace.
    pub timestamp: Timestamp,
}

/// The tool calls of a session.
#[derive(Debug)]
pub struct ToolTrace {
    /// Every call, in order.
    pub tool_calls: Vec<ToolCallEntry>,
    /// The number of calls.
    pub tool_call_count: usize,
    /// The number of calls of each tool.
    pub tool_call_breakdown: KeyedList<usize>,
    /// The number of calls that returned an error.
    pub error_count: usize,
    /// The last error returned, if any.
    pub last_error: Option<String>,
}

/// A tool call as plain data (its timestamp left out).
pub ghost struct CallView {
    pub sequence: i64,
    pub tool: Seq<char>,
    pub action: Option<Seq<char>>,
    pub input: Seq<char>,
    pub output: Option<Seq<char>>,
    pub is_error: bool,
}

/// A trace as plain data, with the calls still waiting for their result
/// (by tool-use id, the position of the call).
pub ghost struct TraceView {
    pub calls: Seq<CallView>,
    pub count: nat,
    pub breakdown: Map<Seq<char>, usize>,
    pub errors: nat,
    pub last_error: Option<Seq<char>>,
    pub pending: Map<Seq<char>, usize>,
}

/// The text of an optional string, or `d`.
pub open spec fn text_or(v: Option<String>, d: Seq<char>) -> Seq<char> {
    match v {
        Some(s) => s@,
        None => d,
    }
}

/// An optional text, or `d`.
pub open spec fn seq_or(v: Option<Seq<char>>, d: Seq<char>) -> Seq<char> {
    match v {
        Some(s) => s,
        None => d,
    }
}

/// A call as plain data.
pub open spec fn call_view(e: ToolCallEntry) -> CallView {
    CallView {
        sequence: e.sequence,
        tool: e.tool_name@,
        action: opt_chars(e.action),
        input: e.input_json@,
        output: opt_chars(e.output_json),
        is_error: e.is_error,
    }
}

/// A trace as plain data, with the calls still waiting for their result.
pub open spec fn trace_view(t: ToolTrace, pending: Map<Seq<char>, usize>) -> TraceView {
    TraceView {
        calls: t.tool_calls@.map_values(|e: ToolCallEntry| call_view(e)),
        count: t.tool_call_count as nat,
        breakdown: t.tool_call_breakdown@,
        errors: t.error_count as nat,
        last_error: opt_chars(t.last_error),
        pending,
    }
}

/// The empty trace.
pub open spec fn empty_trace() -> TraceView {
    TraceView {
        calls: seq![],
        count: 0,
        breakdown: Map::empty(),
        errors: 0,
        last_error: None,
        pending: Map::empty(),
    }
}

/// What one event does to the trace. A tool use adds a call (to the tool
/// named, or `unknown`), counts it, and waits for its result under its id if
/// it has a non-empty one. A tool result gives the waiting call its output,
/// cut to 10 240 bytes, and its error flag; an error is counted and becomes
/// the last error (the result itself where it is a string, else its JSON).
pub open spec fn trace_step(t: TraceView, e: ToolEventView) -> TraceView {
    match e {
        ToolEventView::ToolUse { sequence, tool, action, input, id } => {
            let name = seq_or(tool, "unknown"@);
            let call = CallView {
                sequence,
                tool: name,
                action: action,
                input: seq_or(input, seq![]),
                output: None,
                is_error: false,
            };
            let key = seq_or(id, seq![]);
            TraceView {
                calls: t.calls.push(call),
                count: t.count + 1,
                breakdown: t.breakdown.insert(
                    name,
                    (if t.breakdown.dom().contains(name) {
                        t.breakdown[name] + 1
                    } else {
                        1
                    }) as usize,
                ),
                pending: if key.len() > 0 {
                    t.pending.insert(key, t.calls.len() as usize)
                } else {
                    t.pending
                },
                ..t
            }
        },
        ToolEventView::ToolResult { id, is_error, result, result_text } => {
            let key = seq_or(id, seq![]);
            let err = match is_error {
                Some(b) => b,
                None => false,
            };
            let output = clipped_output(seq_or(result, seq![]));
            let calls = if t.pending.dom().contains(key) && t.pending[key] < t.calls.len() {
                let i = t.pending[key] as int;
                t.calls.update(i, CallView { output: Some(output), is_error: err, ..t.calls[i] })
            } else {
                t.calls
            };
            TraceView {
                calls,
                errors: if err {
                    t.errors + 1
                } else {
                    t.errors
                },
                last_error: if err {
                    match result_text {
                        Some(s) => Some(s),
                        None => result,
                    }
                } else {
                    t.last_error
                },
                ..t
            }
        },
        ToolEventView::Other => t,
    }
}

/// The trace of a sequence of events.
pub open spec fn trace_of(es: Seq<ToolEventView>) -> TraceView
    decreases es.len(),
{
    if es.len() == 0 {
        empty_trace()
    } else {
        trace_step(trace_of(es.drop_last()), es.last())
    }
}

/// The tool results whose output can be cut: none is longer than 10 240
/// bytes unless 10 240 falls on a character boundary of it.
pub open spec fn results_cuttable(es: Seq<ToolEventView>) -> bool {
    forall|i: int|
        0 <= i < es.len() ==> (#[trigger] es[i] matches ToolEventView::ToolResult {
            result: Some(r),
            ..
        } ==> output_cuttable(r))
}

/// An output that can be cut: at most 10 240 bytes, or 10 240 bytes fall on
/// a character boundary of it.
pub open spec fn output_cuttable(r: Seq<char>) -> bool {
    utf8_len(r) > MAX_OUTPUT_BYTES ==> is_boundary(r, MAX_OUTPUT_BYTES as nat)
}

/// Whether an output can be cut.
pub fn can_cut_output(r: &str) -> (b: bool)
    ensures
        b == output_cuttable(r@),
{
    let cs = chars_of(r);
    if utf8_len_at_most(cs.as_slice(), MAX_OUTPUT_BYTES) {
        true
    } else {
        match char_count_for_bytes(cs.as_slice(), MAX_OUTPUT_BYTES) {
            Some(_) => true,
            None => false,
        }
    }
}

impl ToolTrace {
    /// The empty trace.
    pub fn default() -> (t: ToolTrace)
        ensures
            t.tool_calls@.len() == 0,
            t.tool_call_count == 0,
            t.tool_call_breakdown.wf(),
            t.tool_call_breakdown.entries().len() == 0,
            t.error_count == 0,
            t.last_error is None,
            trace_view(t, Map::empty()) == empty_trace(),
    {
        let t = ToolTrace {
            tool_calls: Vec::new(),
            tool_call_count: 0,
            tool_call_breakdown: KeyedList::new(),
            error_count: 0,
            last_error: None,
        };
        assert(t.tool_calls@.map_values(|e: ToolCallEntry| call_view(e)) =~= Seq::<CallView>::empty());
        assert(trace_view(t, Map::empty()) == empty_trace());
        t
    }
}


fn opt_string(v: &Option<String>) -> (r: Option<String>)
    ensures
        opt_chars(r) == opt_chars(*v),
{
    match v {
        Some(s) => Some(s.clone()),
        None => None,
    }
}

fn string_or(v: &Option<String>, d: &str) -> (r: String)
    ensures
        r@ == text_or(*v, d@),
{
    match v {
        Some(s) => s.clone(),
        None => d.to_string(),
    }
}

/// The calls of a trace as plain data.
pub open spec fn calls_view(v: Seq<ToolCallEntry>) -> Seq<CallView> {
    v.map_values(|e: ToolCallEntry| call_view(e))
}

/// The tool trace of a session, built from its events in order.
pub fn collect_tool_trace(events: &[ToolEvent]) -> (t: ToolTrace)
    requires
        results_cuttable(events_view(events@)),
    ensures
        trace_view(t, trace_of(events_view(events@)).pending) == trace_of(events_view(events@)),
        t.tool_call_breakdown.wf(),
{
    let mut t = ToolTrace::default();
    let mut pending: KeyedList<usize> = KeyedList::new();
    let mut i: usize = 0;
    proof {
        assert(events@.take(0) =~= Seq::<ToolEvent>::empty());
    }
    while i < events.len()
        invariant
            0 <= i <= events@.len(),
            results_cuttable(events_view(events@)),
            trace_view(t, pending@) == trace_of(events_view(events@.take(i as int))),
            t.tool_call_breakdown.wf(),
            pending.wf(),
            t.tool_call_count <= i,
            t.error_count <= i,
            forall|k: Seq<char>| #[trigger] t.tool_call_breakdown@.dom().contains(k)
                ==> t.tool_call_breakdown@[k] <= t.tool_call_count,
            t.tool_calls@.len() == t.tool_call_count,
        decreases events@.len() - i,
    {
        let ghost before = trace_view(t, pending@);
        proof {
            assert(events@.take(i + 1).drop_last() =~= events@.take(i as int));
            assert(events@.take(i + 1).last() == events@[i as int]);
            assert(events_view(events@.take(i + 1)).drop_last() =~= events_view(events@.take(i as int)));
            assert(events_view(events@.take(i + 1)).last() == event_view(events@[i as int]));
        }
        match &events[i] {
            ToolEvent::ToolUse { sequence, tool, action, input, id } => {
                let name = string_or(tool, "unknown");
                let entry = ToolCallEntry {
                    sequence: *sequence,
                    tool_name: name.clone(),
                    action: opt_string(action),
                    input_json: string_or(input, ""),
                    output_json: None,
                    is_error: false,
                    timestamp: utc_now(),
                };
                let idx = t.tool_calls.len();
                t.tool_calls.push(entry);
                t.tool_call_count = t.tool_call_count + 1;
                let n: usize = match t.tool_call_breakdown.get(name.as_str()) {
                    Some(c) => *c + 1,
                    None => 1,
                };
                t.tool_call_breakdown.set(name.as_str(), n);
                let key = string_or(id, "");
                let key_chars = chars_of(key.as_str());
                if key_chars.len() > 0 {
                    pending.set(key.as_str(), idx);
                }
                proof {
                    reveal_strlit("");
                    assert(""@ =~= Seq::<char>::empty());
                    assert(calls_view(t.tool_calls@) =~= before.calls.push(call_view(entry)));
                    assert forall|k: Seq<char>| #[trigger] t.tool_call_breakdown@.dom().contains(k)
                        implies t.tool_call_breakdown@[k] <= t.tool_call_count by {
                        if k != name@ {
                            assert(before.breakdown.dom().contains(k));
                        }
                    }
                    let after = trace_step(before, event_view(events@[i as int]));
                    assert(before.calls.len() == idx);
                    assert(trace_view(t, pending@).calls == after.calls);
                    assert(trace_view(t, pending@).count == after.count);
                    assert(trace_view(t, pending@).breakdown == after.breakdown);
                    assert(trace_view(t, pending@).pending == after.pending);
                    assert(trace_view(t, pending@).errors == after.errors);
                    assert(trace_view(t, pending@).last_error == after.last_error);
                    assert(trace_view(t, pending@) == after);
                }
            },
            ToolEvent::ToolResult { id, is_error, result, result_text } => {
                let key = string_or(id, "");
                let err = match is_error {
                    Some(b) => *b,
                    None => false,
                };
                let raw = string_or(result, "");
                proof {
                    reveal_strlit("");
                    assert(""@ =~= Seq::<char>::empty());
                    assert(events_view(events@)[i as int] == event_view(events@[i as int]));
                    assert(event_view(events@[i as int]) matches ToolEventView::ToolResult {
                        result: Some(r),
                        ..
                    } ==> output_cuttable(r));
                    if raw@.len() == 0 {
                        assert(raw@ =~= Seq::<char>::empty());
                        assert(vstd::utf8::encode_utf8(raw@) =~= Seq::<u8>::empty());
                    }
                }
                let output = clip_output(raw.as_str());
                match pending.get(key.as_str()) {
                    Some(idx) => {
                        let idx = *idx;
                        if idx < t.tool_calls.len() {
                            let old_entry = &t.tool_calls[idx];
                            let updated = ToolCallEntry {
                                sequence: old_entry.sequence,
                                tool_name: old_entry.tool_name.clone(),
                                action: opt_string(&old_entry.action),
                                input_json: old_entry.input_json.clone(),
                                output_json: Some(output),
                                is_error: err,
                                timestamp: old_entry.timestamp,
                            };
                            t.tool_calls.set(idx, updated);
                            proof {
                                assert(calls_view(t.tool_calls@) =~= before.calls.update(
                                    idx as int,
                                    CallView {
                                        output: Some(clipped_output(text_or(*result, seq![]))),
                                        is_error: err,
                                        ..before.calls[idx as int]
                                    },
                                ));
                            }
                        }
                    },
                    None => {},
                }
                if err {
                    t.error_count = t.error_count + 1;
                    t.last_error = match result_text {
                        Some(s) => Some(s.clone()),
                        None => opt_string(result),
                    };
                }
                proof {
                    assert(trace_view(t, pending@) == trace_step(before, event_view(events@[i as int])));
                }
            },
            ToolEvent::Other => {},
        }
        i = i + 1;
    }
    proof {
        assert(events@.take(i as int) =~= events@);
    }
    t
}

/// The number of tool uses among the events.
pub open spec fn tool_uses(es: Seq<ToolEventView>) -> nat
    decreases es.len(),
{
    if es.len() == 0 {
        0
    } else {
        tool_uses(es.drop_last()) + if es.last() is ToolUse {
            1nat
        } else {
            0nat
        }
    }
}

/// The number of tool results flagged as errors among the events.
pub open spec fn error_results(es: Seq<ToolEventView>) -> nat
    decreases es.len(),
{
    if es.len() == 0 {
        0
    } else {
        error_results(es.drop_last()) + if es.last() matches ToolEventView::ToolResult {
            is_error: Some(true),
            ..
        } {
            1nat
        } else {
            0nat
        }
    }
}

/// Every tool use adds one call and nothing else does; every result flagged
/// as an error, and nothing else, counts as an error; results only fill in
/// calls, so every call waiting for a result is among the calls made.
pub proof fn lemma_trace_counts(es: Seq<ToolEventView>)
    ensures
        trace_of(es).calls.len() == trace_of(es).count,
        trace_of(es).count == tool_uses(es),
        trace_of(es).errors == error_results(es),
        forall|k: Seq<char>| #[trigger] trace_of(es).pending.dom().contains(k)
            ==> trace_of(es).pending[k] < trace_of(es).calls.len(),
    decreases es.len(),
{
    if es.len() > 0 {
        lemma_trace_counts(es.drop_last());
    }
}

} // verus!
