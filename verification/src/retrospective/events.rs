//! Recorded chat events, decoded into what the tool trace reads: the event
//! type, its sequence number, and the fields of its JSON data.

use vstd::prelude::*;
use crate::retrospective::trace::{
    collect_tool_trace, event_view, events_view, output_cuttable, results_cuttable, can_cut_output,
    trace_of, trace_view, ToolEvent, ToolEventView, ToolTrace,
};
use crate::text::{eq_str, opt_chars};

verus! {

/// What the trace reads of an event's JSON data. A field is present only
/// where the data has it with the kind the trace reads.
#[derive(Debug, Clone)]
pub struct EventFields {
    /// `tool`, where it is a string.
    pub tool: Option<String>,
    /// `input.action`, where it is a string.
    pub action: Option<String>,
    /// `input`, written back as JSON, where there is one.
    pub input: Option<String>,
    /// `id`, where it is a string.
    pub id: Option<String>,
    /// `is_error`, where it is a boolean.
    pub is_error: Option<bool>,
    /// `result`, written back as JSON, where there is one.
    pub result: Option<String>,
    /// `result`, where it is a string.
    pub result_text: Option<String>,
}

/// The fields of an event's data as plain data.
pub ghost struct EventFieldsView {
    pub tool: Option<Seq<char>>,
    pub action: Option<Seq<char>>,
    pub input: Option<Seq<char>>,
    pub id: Option<Seq<char>>,
    pub is_error: Option<bool>,
    pub result: Option<Seq<char>>,
    pub result_text: Option<Seq<char>>,
}

/// The fields as plain data.
pub open spec fn fields_view(f: EventFields) -> EventFieldsView {
    EventFieldsView {
        tool: opt_chars(f.tool),
        action: opt_chars(f.action),
        input: opt_chars(f.input),
        id: opt_chars(f.id),
        is_error: f.is_error,
        result: opt_chars(f.result),
        result_text: opt_chars(f.result_text),
    }
}

/// Optional fields as plain data.
pub open spec fn opt_fields_view(o: Option<EventFields>) -> Option<EventFieldsView> {
    match o {
        Some(f) => Some(fields_view(f)),
        None => None,
    }
}

/// What `serde_json` reads of an event's data: nothing where the text is
/// not JSON; otherwise the fields `tool`, `input.action`, `id` and `result`
/// where they are strings, `is_error` where it is a boolean, and `input` and
/// `result` written back as JSON text.
pub uninterp spec fn json_event_fields(data: Seq<char>) -> Option<EventFieldsView>;

/// `serde_json::from_str` into a `serde_json::Value`, and the fields the
/// trace reads picked from it: the result is the name `json_event_fields`
/// of the text.
#[verifier::external_body]
fn parse_event_fields(data: &str) -> (r: Option<EventFields>)
    ensures
        opt_fields_view(r) == json_event_fields(data@),
{
    let v: serde_json::Value = serde_json::from_str(data).ok()?;
    let text = |x: Option<&serde_json::Value>| x.and_then(|y| y.as_str()).map(String::from);
    let input = v.get("input");
    Some(EventFields {
        tool: text(v.get("tool")),
        action: text(input.and_then(|i| i.get("action"))),
        input: input.map(|x| x.to_string()),
        id: text(v.get("id")),
        is_error: v.get("is_error").and_then(|x| x.as_bool()),
        result: v.get("result").map(|x| x.to_string()),
        result_text: text(v.get("result")),
    })
}

/// The event a record makes: a tool use or a tool result by its type, with
/// the fields of its data; any other type, or data that is not JSON, makes
/// an event the trace ignores.
pub open spec fn event_of(event_type: Seq<char>, seq: i64, fields: Option<EventFieldsView>) -> ToolEventView {
    match fields {
        None => ToolEventView::Other,
        Some(f) => if event_type == "ToolUse"@ {
            ToolEventView::ToolUse {
                sequence: seq,
                tool: f.tool,
                action: f.action,
                input: f.input,
                id: f.id,
            }
        } else if event_type == "ToolResult"@ {
            ToolEventView::ToolResult {
                id: f.id,
                is_error: f.is_error,
                result: f.result,
                result_text: f.result_text,
            }
        } else {
            ToolEventView::Other
        },
    }
}

/// Decodes one recorded event from its type, sequence number and data.
pub fn decode_event(event_type: &str, seq: i64, data: &str) -> (e: ToolEvent)
    ensures
        event_view(e) == event_of(event_type@, seq, json_event_fields(data@)),
{
    match parse_event_fields(data) {
        None => ToolEvent::Other,
        Some(f) => {
            if eq_str(event_type, "ToolUse") {
                ToolEvent::ToolUse {
                    sequence: seq,
                    tool: f.tool,
                    action: f.action,
                    input: f.input,
                    id: f.id,
                }
            } else if eq_str(event_type, "ToolResult") {
                ToolEvent::ToolResult {
                    id: f.id,
                    is_error: f.is_error,
                    result: f.result,
                    result_text: f.result_text,
                }
            } else {
                ToolEvent::Other
            }
        },
    }
}

/// The events that recorded `(type, sequence, data)` triples make.
pub open spec fn record_events(records: Seq<(String, i64, String)>) -> Seq<ToolEventView> {
    records.map_values(|r: (String, i64, String)| event_of(r.0@, r.1, json_event_fields(r.2@)))
}

/// The tool trace of a session's recorded events, in order. `None` where a
/// tool's output longer than 10 240 bytes has no character boundary there,
/// so that it cannot be cut.
pub fn collect_tool_trace_records(records: &[(String, i64, String)]) -> (r: Option<ToolTrace>)
    ensures
        results_cuttable(record_events(records@)) <==> r is Some,
        r matches Some(t) ==> trace_view(t, trace_of(record_events(records@)).pending) == trace_of(
            record_events(records@),
        ) && t.tool_call_breakdown.wf(),
{
    let ghost rv = record_events(records@);
    let mut events: Vec<ToolEvent> = Vec::new();
    let mut ok = true;
    let mut i: usize = 0;
    while i < records.len()
        invariant
            0 <= i <= records@.len(),
            rv == record_events(records@),
            events_view(events@) == rv.take(i as int),
            ok == results_cuttable(rv.take(i as int)),
        decreases records@.len() - i,
    {
        let (t, s, d) = &records[i];
        let e = decode_event(t.as_str(), *s, d.as_str());
        let good = match &e {
            ToolEvent::ToolResult { result: Some(out), .. } => can_cut_output(out.as_str()),
            _ => true,
        };
        let ghost before = events_view(events@);
        events.push(e);
        proof {
            assert(rv[i as int] == event_view(e));
            assert(events_view(events@) =~= before.push(event_view(e)));
            assert(rv.take(i + 1) =~= rv.take(i as int).push(rv[i as int]));
            let t1 = rv.take(i + 1);
            if ok && good {
                assert forall|j: int| 0 <= j < t1.len() implies (#[trigger] t1[j] matches ToolEventView::ToolResult {
                    result: Some(r),
                    ..
                } ==> output_cuttable(r)) by {
                    if j < i {
                        assert(t1[j] == rv.take(i as int)[j]);
                    }
                }
            }
            if !good {
                assert(!(t1[i as int] matches ToolEventView::ToolResult { result: Some(r), .. } ==> output_cuttable(r)));
            }
            if !ok {
                let j = choose|j: int| 0 <= j < i && !(#[trigger] rv.take(i as int)[j] matches ToolEventView::ToolResult {
                    result: Some(r),
                    ..
                } ==> output_cuttable(r));
                assert(t1[j] == rv.take(i as int)[j]);
            }
        }
        ok = ok && good;
        i = i + 1;
    }
    proof {
        assert(rv.take(i as int) =~= rv);
    }
    if ok {
        Some(collect_tool_trace(events.as_slice()))
    } else {
        None
    }
}

} // verus!
