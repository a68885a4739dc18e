use knowloop::chat::prompt_compiler::RefineOutcome;
use knowloop::chat::prompt_compiler::extract_reply;
use knowloop::chat::prompt_compiler::{
    persona_plan, persona_prompt, prompt_after_creation, PersonaPlan, PersonaStatus,
    DEFAULT_COMPILER_PROMPT,
};
use knowloop::retrospective::notes::NoteType;
use knowloop::chat::prompt_compiler::{
    detect_clarification, detect_reformulation, truncate, CompilerFeedback, PromptCompiler,
    RefineContext, SessionCompilerState, MAX_RECENT_REFINEMENTS,
};

fn context(conversation_type: &str, is_tool_continuation: bool, fork_type: Option<&str>) -> RefineContext {
    RefineContext {
        project_slug: "test".into(),
        session_id: "abc".into(),
        primary_language: "rust".into(),
        conversation_type: conversation_type.into(),
        persona: None,
        parent_session: None,
        is_tool_continuation,
        fork_type: fork_type.map(|s| s.to_string()),
    }
}

#[test]
fn test_should_compile_short_input() {
    let ctx = context("general", false, None);

    // Short input: skipped
    assert!(!PromptCompiler::should_compile("oui", &ctx));
    assert!(!PromptCompiler::should_compile("git status", &ctx));

    // Long enough: compiled
    assert!(PromptCompiler::should_compile(
        "fix the regression in the chat pipeline that causes messages to be dropped when the enrichment stage times out",
        &ctx
    ));
}

#[test]
fn test_should_compile_tool_continuation() {
    let ctx = context("general", true, None);
    assert!(!PromptCompiler::should_compile(
        "some long prompt that would normally be compiled by the system",
        &ctx
    ));
}

#[test]
fn test_should_compile_plan_run() {
    let ctx = context("general", false, Some("plan_run"));
    assert!(!PromptCompiler::should_compile(
        "implement the feature according to the task description and acceptance criteria",
        &ctx
    ));
}

#[test]
fn test_session_state_push_exchange() {
    let ctx = context("debug", false, None);

    let mut state = SessionCompilerState::new(&ctx);
    for i in 0..7 {
        state.push_exchange(&format!("input {}", i), &format!("output {}", i));
    }
    // Only MAX_RECENT_REFINEMENTS are kept
    assert_eq!(state.last_refinements.len(), MAX_RECENT_REFINEMENTS);
    // The oldest are evicted
    assert_eq!(state.last_refinements.front().unwrap().0, "input 2");
}

#[test]
fn test_format_recent() {
    let ctx = context("debug", false, None);

    let mut state = SessionCompilerState::new(&ctx);
    state.push_exchange("fix le truc", "Fix the regression in stream_response");
    state.push_exchange("continue", "Continue fixing stream_response");

    let formatted = state.format_recent(3);
    assert!(formatted.contains("fix le truc"));
    assert!(formatted.contains("Continue fixing"));
}

#[test]
fn test_truncate() {
    assert_eq!(truncate("hello", 10), "hello");
    assert_eq!(truncate("hello world foo bar", 11), "hello world...");
}

#[test]
fn test_compiler_feedback_format() {
    let fb = CompilerFeedback::Success {
        session_id: "abc12345-def".into(),
        project_slug: "knowloop".into(),
    };
    let msg = fb.to_message();
    assert!(msg.contains("project=knowloop"));
    assert!(msg.contains("session=abc12345"));
    assert!(msg.contains("✓"));
}

#[test]
fn test_detect_clarification_english() {
    assert_eq!(
        detect_clarification(
            "Could you clarify what you mean by 'the pipeline'? There are several pipelines in the codebase."
        ),
        Some(true)
    );
    assert_eq!(
        detect_clarification(
            "Before I proceed, I want to make sure I understand the requirement correctly."
        ),
        Some(true)
    );
    assert_eq!(
        detect_clarification("Which file are you referring to? There are multiple candidates."),
        Some(true)
    );
}

#[test]
fn test_detect_clarification_french() {
    assert_eq!(
        detect_clarification("Peux-tu préciser ce que tu veux dire par 'le truc' ?"),
        Some(true)
    );
    assert_eq!(
        detect_clarification("Avant de commencer, je voudrais confirmer l'approche."),
        Some(true)
    );
}

#[test]
fn test_detect_clarification_negative() {
    assert_eq!(
        detect_clarification(
            "I'll fix the bug in stream_response. The issue is in the retry loop."
        ),
        Some(false)
    );
    assert_eq!(
        detect_clarification("Here's the implementation for the new feature."),
        Some(false)
    );
}

#[test]
fn test_detect_reformulation_overlap() {
    assert!(detect_reformulation(
        "fix the bug in the chat pipeline where messages are dropped",
        "the chat pipeline drops messages when enrichment times out, please fix it",
    ));
    assert!(!detect_reformulation(
        "fix the bug in the chat pipeline",
        "add a new API endpoint for user profiles",
    ));
    assert!(!detect_reformulation(
        "fix the bug in the chat pipeline",
        "fix the bug in the chat pipeline please",
    ));
}

#[test]
fn test_detect_reformulation_short_inputs() {
    assert!(!detect_reformulation("go", "ok"));
    assert!(!detect_reformulation("", "fix bug"));
}

#[test]
fn clarification_undecided_when_byte_500_splits_a_character() {
    // 499 ASCII bytes then a two-byte character: byte 500 falls inside it.
    let text = format!("{}é and more", "a".repeat(499));
    assert_eq!(detect_clarification(&text), None);
}

#[test]
fn truncate_appends_dots_only_when_too_long() {
    assert_eq!(truncate("abc", 3), "abc");
    assert_eq!(truncate("abcd", 3), "abc...");
    assert_eq!(truncate("", 0), "");
}

#[test]
fn reformulation_feedback_message_names_both_inputs() {
    let fb = CompilerFeedback::Reformulation {
        session_id: "abc12345-def".into(),
        project_slug: "knowloop".into(),
        original: "fix it".into(),
        reformulated: "fix the chat".into(),
    };
    let msg = fb.to_message();
    assert!(msg.contains("project=knowloop"));
    assert!(msg.contains("fix it"));
    assert!(msg.contains("fix the chat"));
}

#[test]
fn compiler_counts_refinements_and_bypasses() {
    let ctx = context("debug", false, None);
    let mut c = PromptCompiler::new();
    assert_eq!(c.stats(), (0, 0));
    c.record_refinement("fix the bug", &ctx, "Fix the bug in the parser");
    c.record_bypass();
    c.record_bypass();
    assert_eq!(c.stats(), (1, 2));
    assert_eq!(c.get_previous_input("test", "abc"), None);
    c.record_refinement("and the lexer", &ctx, "Fix the lexer too");
    assert_eq!(
        c.get_previous_input("test", "abc"),
        Some("fix the bug".to_string())
    );
    assert_eq!(c.get_previous_input("test", "other"), None);
}

#[test]
fn refine_counts_and_remembers() {
    let ctx = context("debug", false, None);
    let mut c = PromptCompiler::new();
    assert_eq!(c.refine("raw", &ctx, RefineOutcome::Contended), "raw");
    assert_eq!(c.refine("raw", &ctx, RefineOutcome::Failed), "raw");
    assert_eq!(
        c.refine("raw", &ctx, RefineOutcome::Refined("Refined".to_string())),
        "Refined"
    );
    assert_eq!(c.stats(), (1, 2));
}

#[test]
fn compiler_reply_extraction() {
    assert_eq!(
        extract_reply(&vec!["  Hello ".to_string(), "world\n".to_string()]),
        Ok("Hello world".to_string())
    );
    assert_eq!(
        extract_reply(&vec![]),
        Err("Empty response from compiler".to_string())
    );
}

#[test]
fn persona_prompt_lookup() {
    let ps = vec![
        ("other".to_string(), Some("x".to_string())),
        ("prompt-compiler".to_string(), None),
        ("prompt-compiler".to_string(), Some("late".to_string())),
    ];
    assert_eq!(persona_prompt(&ps), Some(DEFAULT_COMPILER_PROMPT.to_string()));
    let ps = vec![("prompt-compiler".to_string(), Some("custom".to_string()))];
    assert_eq!(persona_prompt(&ps), Some("custom".to_string()));
    assert_eq!(persona_prompt(&vec![]), None);
}

#[test]
fn truncate_counts_characters() {
    assert_eq!(truncate("ééé", 3), "ééé");
    assert_eq!(truncate("éééé", 3), "ééé...");
}

#[test]
fn persona_is_created_when_missing() {
    match persona_plan(&vec![("other".to_string(), None)]) {
        PersonaPlan::Create(c) => {
            assert_eq!(c.project_id, None);
            assert_eq!(c.name, "prompt-compiler");
            assert_eq!(c.status, PersonaStatus::Active);
            assert_eq!(c.model_preference.as_deref(), Some("haiku"));
            assert_eq!(c.system_prompt_override.as_deref(), Some(DEFAULT_COMPILER_PROMPT));
        }
        PersonaPlan::Use(_) => panic!("no persona exists"),
    }
    match persona_plan(&vec![("prompt-compiler".to_string(), Some("mine".to_string()))]) {
        PersonaPlan::Use(p) => assert_eq!(p, "mine"),
        PersonaPlan::Create(_) => panic!("the persona exists"),
    }
    assert_eq!(prompt_after_creation::<String>(Ok(())), Ok(DEFAULT_COMPILER_PROMPT.to_string()));
    assert_eq!(prompt_after_creation::<String>(Err("down".into())), Err("down".to_string()));
}

#[test]
fn hints_note_numbers_each_hint_once() {
    let mut c = PromptCompiler::new();
    assert!(c.hints_note_to_persist().is_none());
    let ctx = context("general", false, None);
    c.record_refinement("fix the bug", &ctx, "Fix the bug");
    c.add_hint("test", "abc", "be specific".to_string());
    c.add_hint("test", "abc", "name the file".to_string());
    c.add_hint("test", "abc", "be specific".to_string());
    let n = c.hints_note_to_persist().unwrap();
    assert_eq!(n.project_id, None);
    assert_eq!(n.note_type, NoteType::Pattern);
    assert_eq!(n.tags, vec!["prompt-compiler".to_string(), "auto-generated".to_string()]);
    assert_eq!(n.created_by, "prompt-compiler");
    assert_eq!(
        n.content,
        "## Prompt Compiler — Learned Patterns\n\n1. be specific\n2. name the file\n\n_Auto-generated from feedback signals._"
    );
}
