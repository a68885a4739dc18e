use knowloop::retrospective::notes::{
    generate_learning_notes, CohortFacts, LearningFacts, NoteImportance, NoteScope, NoteStatus,
    NoteType,
    RiskSignalFacts,
};
use knowloop::retrospective::queries::{
    cohort_query, file_failure_rates_query, get_retrospective_query, link_note_query,
    list_retrospectives_query, retrospective_for_task_query, retrospective_page,
};

const TASK: u128 = 0x11111111_2222_3333_4444_555555555555;

fn signal(path: &str, above: bool, exists: bool) -> RiskSignalFacts {
    RiskSignalFacts {
        file_path: path.to_string(),
        above_half: above,
        percent: "75".to_string(),
        note_exists: exists,
    }
}

fn facts(success: bool, errors: u32, cohort: Option<CohortFacts>) -> LearningFacts {
    LearningFacts {
        task_id: TASK,
        project_id: Some(7),
        success,
        failure_reason: if success { None } else { Some("tests failed".to_string()) },
        error_count: errors,
        last_error: None,
        files_modified: vec!["a.rs".to_string(), "b.rs".to_string()],
        error_note_exists: false,
        cohort,
    }
}

#[test]
fn failure_notes_in_rule_order_capped_at_three() {
    let cohort = CohortFacts {
        cohort_size: 7,
        risk_signals: vec![
            signal("a.rs", true, false),
            signal("b.rs", false, false),
            signal("c.rs", true, true),
            signal("d.rs", true, false),
        ],
        fast_note: Some("fast".to_string()),
        cost_note: Some("costly".to_string()),
    };
    let notes = generate_learning_notes(&facts(false, 5, Some(cohort)));
    assert_eq!(notes.len(), 3);
    assert_eq!(
        notes[0].content,
        "File `a.rs` has a 75% task failure rate. Last failure: tests failed. Consider extra review when modifying this file."
    );
    assert_eq!(notes[0].note_type, NoteType::Gotcha);
    assert_eq!(notes[0].importance, NoteImportance::High);
    assert_eq!(
        notes[0].tags,
        vec![
            "auto-retrospective".to_string(),
            "task:11111111-2222-3333-4444-555555555555".to_string(),
            "file-risk:a.rs".to_string()
        ]
    );
    assert!(notes[1].content.starts_with("File `d.rs`"));
    assert_eq!(
        notes[2].content,
        "Task failed with 5 errors (cohort size: 7). Error: tests failed. Files: [a.rs, b.rs]."
    );
    assert_eq!(notes[2].tags[2], "error-pattern:11111111-2222-3333-4444-555555555555");
}

#[test]
fn success_notes() {
    let cohort = CohortFacts {
        cohort_size: 7,
        risk_signals: vec![signal("a.rs", true, false)],
        fast_note: Some("fast".to_string()),
        cost_note: Some("costly".to_string()),
    };
    let notes = generate_learning_notes(&facts(true, 9, Some(cohort)));
    assert_eq!(notes.len(), 2);
    assert_eq!(notes[0].note_type, NoteType::Pattern);
    assert_eq!(notes[0].tags[2], "fast-execution");
    assert_eq!(notes[1].note_type, NoteType::Observation);
    assert_eq!(notes[1].tags[2], "cost-alert");
}

#[test]
fn no_cohort_no_notes() {
    assert!(generate_learning_notes(&facts(false, 10, None)).is_empty());
}

#[test]
fn retrospective_listing_query() {
    let q = list_retrospectives_query(Some(TASK), Some("failure"), 50, 0);
    assert_eq!(
        q.text,
        "MATCH (r:TaskRetrospective) WHERE true AND r.project_id = $project_id AND r.outcome = $outcome RETURN r ORDER BY r.created_at DESC SKIP $offset LIMIT $limit"
    );
    let names: Vec<String> = q.params.iter().map(|p| p.name.clone()).collect();
    assert_eq!(names, vec!["limit", "offset", "project_id", "outcome"]);
    let q = list_retrospectives_query(None, None, 10, 5);
    assert_eq!(
        q.text,
        "MATCH (r:TaskRetrospective) WHERE true RETURN r ORDER BY r.created_at DESC SKIP $offset LIMIT $limit"
    );
    assert_eq!(retrospective_page(None, None), (50, 0));
    assert_eq!(retrospective_page(Some(500), Some(20)), (100, 20));
    assert_eq!(retrospective_page(Some(7), None), (7, 0));
}

#[test]
fn retrospective_lookup_queries() {
    let q = get_retrospective_query(TASK);
    assert!(q.text.contains("MATCH (r:TaskRetrospective {id: $id})"));
    let q = retrospective_for_task_query(TASK);
    assert!(q.text.contains("LIMIT 1"));
    assert!(file_failure_rates_query(TASK, &vec![]).is_none());
    let q = file_failure_rates_query(TASK, &vec!["a.rs".to_string()]).unwrap();
    assert_eq!(q.params.len(), 2);
    let q = cohort_query(TASK, &vec![], &vec!["a.rs".to_string()], 100);
    assert_eq!(q.params.len(), 4);
    let q = link_note_query(TASK, 1);
    assert_eq!(q.params[1].name, "note_id");
}

#[test]
fn notes_carry_project_status_and_creator() {
    let cohort = CohortFacts {
        cohort_size: 6,
        risk_signals: vec![],
        fast_note: None,
        cost_note: Some("costly".to_string()),
    };
    let notes = generate_learning_notes(&facts(true, 0, Some(cohort)));
    assert_eq!(notes.len(), 1);
    assert_eq!(notes[0].project_id, Some(7));
    assert_eq!(notes[0].status, NoteStatus::Active);
    assert_eq!(notes[0].scope, NoteScope::Project);
    assert_eq!(notes[0].created_by, "retrospective-engine");
}
