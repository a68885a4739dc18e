use knowloop::retrospective::run::{retrospective_step, RetroAction, RetroEvent, RetroState};

fn run(events: &[RetroEvent]) -> Vec<RetroAction> {
    let mut state = RetroState::Start;
    let mut actions = Vec::new();
    for e in events {
        let (s, a) = retrospective_step(state, *e);
        state = s;
        actions.push(a);
    }
    actions
}

#[test]
fn full_run_with_session_project_and_two_notes() {
    let actions = run(&[
        RetroEvent::Begin { has_session: true, has_project: true },
        RetroEvent::TraceCollected { ok: true },
        RetroEvent::Built,
        RetroEvent::CohortBuilt,
        RetroEvent::NotesGenerated { count: 2 },
        RetroEvent::Persisted { ok: true },
        RetroEvent::NoteCreated { ok: true },
        RetroEvent::NoteLinked,
        RetroEvent::NoteAttached,
        RetroEvent::NoteCreated { ok: false },
    ]);
    assert_eq!(
        actions,
        vec![
            RetroAction::CollectTrace,
            RetroAction::BuildRetro { empty_trace: false },
            RetroAction::BuildCohort,
            RetroAction::GenerateNotes,
            RetroAction::Persist,
            RetroAction::CreateNote { index: 0 },
            RetroAction::LinkNote { index: 0 },
            RetroAction::AttachNote { index: 0 },
            RetroAction::CreateNote { index: 1 },
            RetroAction::Finish,
        ]
    );
}

#[test]
fn no_session_no_project_and_failed_trace() {
    assert_eq!(
        run(&[
            RetroEvent::Begin { has_session: false, has_project: false },
            RetroEvent::Built,
            RetroEvent::NotesGenerated { count: 0 },
            RetroEvent::Persisted { ok: true },
        ]),
        vec![
            RetroAction::BuildRetro { empty_trace: true },
            RetroAction::GenerateNotes,
            RetroAction::Persist,
            RetroAction::Finish,
        ]
    );
    assert_eq!(
        run(&[
            RetroEvent::Begin { has_session: true, has_project: false },
            RetroEvent::TraceCollected { ok: false },
        ]),
        vec![RetroAction::CollectTrace, RetroAction::BuildRetro { empty_trace: true }]
    );
}

#[test]
fn failed_persist_fails_the_run() {
    let actions = run(&[
        RetroEvent::Begin { has_session: false, has_project: false },
        RetroEvent::Built,
        RetroEvent::NotesGenerated { count: 3 },
        RetroEvent::Persisted { ok: false },
    ]);
    assert_eq!(actions.last(), Some(&RetroAction::Fail));
}
