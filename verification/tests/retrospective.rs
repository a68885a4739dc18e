use knowloop::retrospective::events::{collect_tool_trace_records, decode_event};
use knowloop::retrospective::insights::ListRetrospectivesResponse;
use knowloop::retrospective::insights::{insight_counts, RetroFacts};
use knowloop::retrospective::trace::{collect_tool_trace, ToolEvent, ToolTrace};

#[test]
fn test_empty_trace() {
    let trace = ToolTrace::default();
    assert_eq!(trace.tool_call_count, 0);
    assert_eq!(trace.error_count, 0);
    assert!(trace.tool_calls.is_empty());
}

fn tool_use(sequence: i64, tool: &str, id: &str) -> ToolEvent {
    ToolEvent::ToolUse {
        sequence,
        tool: Some(tool.to_string()),
        action: Some("search".to_string()),
        input: Some("{\"action\":\"search\"}".to_string()),
        id: Some(id.to_string()),
    }
}

fn tool_result(id: &str, is_error: bool, text: &str) -> ToolEvent {
    ToolEvent::ToolResult {
        id: Some(id.to_string()),
        is_error: Some(is_error),
        result: Some(format!("\"{}\"", text)),
        result_text: Some(text.to_string()),
    }
}

#[test]
fn trace_pairs_results_with_calls() {
    let events = vec![
        tool_use(1, "code", "t1"),
        ToolEvent::Other,
        tool_use(2, "note", "t2"),
        tool_result("t1", false, "found"),
        tool_use(3, "code", ""),
        tool_result("t2", true, "boom"),
        tool_result("nobody", true, "lost"),
    ];
    let t = collect_tool_trace(&events);
    assert_eq!(t.tool_call_count, 3);
    assert_eq!(t.tool_calls.len(), 3);
    assert_eq!(t.tool_calls[0].output_json, Some("\"found\"".to_string()));
    assert!(!t.tool_calls[0].is_error);
    assert_eq!(t.tool_calls[1].output_json, Some("\"boom\"".to_string()));
    assert!(t.tool_calls[1].is_error);
    assert_eq!(t.tool_calls[2].output_json, None);
    assert_eq!(t.tool_call_breakdown.get("code"), Some(&2));
    assert_eq!(t.tool_call_breakdown.get("note"), Some(&1));
    assert_eq!(t.error_count, 2);
    assert_eq!(t.last_error, Some("lost".to_string()));
}

#[test]
fn trace_defaults_for_missing_fields() {
    let events = vec![
        ToolEvent::ToolUse { sequence: 7, tool: None, action: None, input: None, id: None },
        ToolEvent::ToolResult { id: None, is_error: Some(true), result: Some("{\"code\":1}".to_string()), result_text: None },
    ];
    let t = collect_tool_trace(&events);
    assert_eq!(t.tool_calls[0].tool_name, "unknown");
    assert_eq!(t.tool_calls[0].input_json, "");
    assert_eq!(t.tool_calls[0].output_json, None);
    assert_eq!(t.error_count, 1);
    assert_eq!(t.last_error, Some("{\"code\":1}".to_string()));
}

#[test]
fn long_outputs_are_cut() {
    let long = "x".repeat(10_300);
    let events = vec![
        tool_use(1, "code", "t1"),
        ToolEvent::ToolResult { id: Some("t1".to_string()), is_error: None, result: Some(long), result_text: None },
    ];
    let t = collect_tool_trace(&events);
    let out = t.tool_calls[0].output_json.clone().unwrap();
    assert_eq!(out.len(), 10_240 + "...[truncated]".len());
    assert!(out.ends_with("...[truncated]"));
}

fn retro(ok: bool, files: &[&str], err: Option<&str>) -> RetroFacts {
    RetroFacts {
        is_success: ok,
        files_modified: files.iter().map(|s| s.to_string()).collect(),
        last_error: err.map(|s| s.to_string()),
    }
}

#[test]
fn insights_rank_risky_files_and_errors() {
    let rs = vec![
        retro(false, &["a.rs", "b.rs"], Some("timeout")),
        retro(true, &["a.rs", "c.rs"], None),
        retro(false, &["b.rs", "c.rs"], Some("timeout")),
        retro(true, &["c.rs"], Some("flaky")),
    ];
    let r = insight_counts(&rs);
    assert_eq!(r.total_retrospectives, 4);
    assert_eq!(r.successes, 2);
    // b.rs: 2 of 2 failing; a.rs: 1 of 2; c.rs: 1 of 3
    let files: Vec<(String, usize, usize)> =
        r.risky_files.iter().map(|f| (f.path.clone(), f.failures, f.occurrences)).collect();
    assert_eq!(
        files,
        vec![
            ("b.rs".to_string(), 2, 2),
            ("a.rs".to_string(), 1, 2),
            ("c.rs".to_string(), 1, 3)
        ]
    );
    assert_eq!(r.common_errors[0].error, "timeout");
    assert_eq!(r.common_errors[0].count, 2);
    assert_eq!(r.common_errors[1].error, "flaky");
    assert_eq!(r.common_errors.len(), 2);
}

#[test]
fn insights_keep_ten_and_group_long_errors() {
    let mut rs = Vec::new();
    for i in 0..12 {
        let f = format!("f{}.rs", i);
        rs.push(retro(false, &[f.as_str()], None));
        rs.push(retro(i % 2 == 0, &[f.as_str()], None));
    }
    let long_a = format!("{}A", "e".repeat(100));
    let long_b = format!("{}B", "e".repeat(100));
    rs.push(retro(false, &[], Some(long_a.as_str())));
    rs.push(retro(false, &[], Some(long_b.as_str())));
    let r = insight_counts(&rs);
    assert_eq!(r.risky_files.len(), 10);
    // files failing twice out of two rank first
    assert_eq!(r.risky_files[0].failures, 2);
    assert_eq!(r.common_errors.len(), 1);
    assert_eq!(r.common_errors[0].count, 2);
    assert_eq!(r.common_errors[0].error, format!("{}...", "e".repeat(100)));
}

#[test]
fn insights_of_nothing() {
    let r = insight_counts(&[]);
    assert_eq!(r.total_retrospectives, 0);
    assert!(r.risky_files.is_empty());
    assert!(r.common_errors.is_empty());
}

#[test]
fn retrospective_listing_counts_items() {
    let r = ListRetrospectivesResponse::new(vec![1, 2, 3]);
    assert_eq!(r.total, 3);
    assert_eq!(r.items, vec![1, 2, 3]);
}

#[test]
fn error_keys_count_characters() {
    let sixty = "é".repeat(60);
    let long = "é".repeat(101);
    let rs = vec![
        retro(false, &[], Some(sixty.as_str())),
        retro(false, &[], Some(long.as_str())),
    ];
    let r = insight_counts(&rs);
    let errors: Vec<String> = r.common_errors.iter().map(|e| e.error.clone()).collect();
    assert!(errors.contains(&sixty));
    assert!(errors.contains(&format!("{}...", "é".repeat(100))));
}

#[test]
fn decode_reads_tool_use_and_result() {
    let e = decode_event(
        "ToolUse",
        4,
        r#"{"tool":"Edit","id":"t1","input":{"action":"write","path":"a.rs"}}"#,
    );
    match e {
        ToolEvent::ToolUse { sequence, tool, action, input, id } => {
            assert_eq!(sequence, 4);
            assert_eq!(tool.as_deref(), Some("Edit"));
            assert_eq!(action.as_deref(), Some("write"));
            assert_eq!(id.as_deref(), Some("t1"));
            assert!(input.unwrap().contains("\"path\":\"a.rs\""));
        }
        _ => panic!("not a tool use"),
    }
    match decode_event("ToolResult", 5, r#"{"id":"t1","is_error":true,"result":"boom"}"#) {
        ToolEvent::ToolResult { id, is_error, result, result_text } => {
            assert_eq!(id.as_deref(), Some("t1"));
            assert_eq!(is_error, Some(true));
            assert_eq!(result.as_deref(), Some("\"boom\""));
            assert_eq!(result_text.as_deref(), Some("boom"));
        }
        _ => panic!("not a tool result"),
    }
    assert!(matches!(decode_event("ToolUse", 1, "not json"), ToolEvent::Other));
    assert!(matches!(decode_event("Text", 1, "{}"), ToolEvent::Other));
}

#[test]
fn trace_of_recorded_events() {
    let records = vec![
        ("ToolUse".to_string(), 1, r#"{"tool":"Bash","id":"a","input":{}}"#.to_string()),
        ("ToolResult".to_string(), 2, r#"{"id":"a","is_error":true,"result":"failed"}"#.to_string()),
        ("Text".to_string(), 3, "{}".to_string()),
    ];
    let t = collect_tool_trace_records(&records).unwrap();
    assert_eq!(t.tool_call_count, 1);
    assert_eq!(t.error_count, 1);
    assert_eq!(t.last_error.as_deref(), Some("failed"));
    assert!(t.tool_calls[0].is_error);
    assert_eq!(t.tool_calls[0].output_json.as_deref(), Some("\"failed\""));
}

#[test]
fn trace_refuses_an_output_it_cannot_cut() {
    let long = format!("{}é", "a".repeat(10_238));
    let data = format!("{{\"id\":\"a\",\"result\":\"{}\"}}", long);
    let records = vec![
        ("ToolUse".to_string(), 1, r#"{"tool":"Read","id":"a"}"#.to_string()),
        ("ToolResult".to_string(), 2, data),
    ];
    assert!(collect_tool_trace_records(&records).is_none());
}
