//! The course of a retrospective after a task completes: collect the tool
//! trace (from the session, if there is one), build the retrospective, compare
//! it with its cohort (where the task has a project), generate the learning
//! notes, persist the retrospective, and then create each note, link it to
//! the retrospective and attach it to the task.
//!
//! The caller performs each action against the graph and hands back what
//! came of it; which step comes next is decided here.

use vstd::prelude::*;

verus! {

/// Where a retrospective run stands.
#[derive(Debug, Clone, Copy, PartialEq, Eq, Structural)]
pub enum RetroState {
    /// Nothing done yet.
    Start,
    /// Waiting for the session's tool trace.
    AwaitTrace { has_project: bool },
    /// Waiting for the retrospective to be built from the trace.
    AwaitBuilt { has_project: bool },
    /// Waiting for the cohort comparison.
    AwaitCohort,
    /// Waiting for the learning notes.
    AwaitNotes,
    /// Waiting for the retrospective to be stored; `count` notes follow.
    AwaitPersist { count: usize },
    /// Waiting for note `index` of `count` to be created.
    AwaitNoteCreated { index: usize, count: usize },
    /// Waiting for note `index` to be linked to the retrospective.
    AwaitNoteLinked { index: usize, count: usize },
    /// Waiting for note `index` to be attached to the task.
    AwaitNoteAttached { index: usize, count: usize },
    /// The retrospective is stored and its notes handled.
    Done,
    /// Storing the retrospective failed.
    Failed,
}

/// What came of an action.
#[derive(Debug, Clone, Copy, PartialEq, Eq, Structural)]
pub enum RetroEvent {
    /// The run starts, for a task with or without a session and a project.
    Begin { has_session: bool, has_project: bool },
    /// Collecting the trace succeeded or failed.
    TraceCollected { ok: bool },
    /// The retrospective was built.
    Built,
    /// The cohort comparison was made (or could not be, and is absent).
    CohortBuilt,
    /// This many notes were generated.
    NotesGenerated { count: usize },
    /// Storing the retrospective succeeded or failed.
    Persisted { ok: bool },
    /// Creating the current note succeeded or failed.
    NoteCreated { ok: bool },
    /// Linking the current note to the retrospective was tried.
    NoteLinked,
    /// Attaching the current note to the task was tried.
    NoteAttached,
}

/// What to do next.
#[derive(Debug, Clone, Copy, PartialEq, Eq, Structural)]
pub enum RetroAction {
    /// Collect the session's tool trace.
    CollectTrace,
    /// Build the retrospective, from an empty trace where `empty_trace`.
    BuildRetro { empty_trace: bool },
    /// Compare the retrospective with its project's cohort.
    BuildCohort,
    /// Generate the learning notes.
    GenerateNotes,
    /// Store the retrospective.
    Persist,
    /// Create note `index`.
    CreateNote { index: usize },
    /// Link note `index` to the retrospective.
    LinkNote { index: usize },
    /// Attach note `index` to the task.
    AttachNote { index: usize },
    /// The run succeeded: return the retrospective.
    Finish,
    /// The run failed: return the storage error.
    Fail,
}

/// The next note to create after the note before `index`, or the end.
pub open spec fn next_note(index: nat, count: usize) -> (RetroState, RetroAction) {
    if index < count {
        (
            RetroState::AwaitNoteCreated { index: index as usize, count },
            RetroAction::CreateNote { index: index as usize },
        )
    } else {
        (RetroState::Done, RetroAction::Finish)
    }
}

/// The step of a retrospective run. A task without a session, or whose
/// trace cannot be collected, is built from an empty trace; the cohort is
/// compared only where the task has a project; a retrospective that cannot
/// be stored fails the run; a note that cannot be created is skipped, and
/// linking and attaching a note are tried once each, whatever comes of
/// them. An event that does not belong to the state fails the run.
pub open spec fn retro_transition(state: RetroState, event: RetroEvent) -> (RetroState, RetroAction) {
    match (state, event) {
        (RetroState::Start, RetroEvent::Begin { has_session, has_project }) => if has_session {
            (RetroState::AwaitTrace { has_project }, RetroAction::CollectTrace)
        } else {
            (RetroState::AwaitBuilt { has_project }, RetroAction::BuildRetro { empty_trace: true })
        },
        (RetroState::AwaitTrace { has_project }, RetroEvent::TraceCollected { ok }) => (
            RetroState::AwaitBuilt { has_project },
            RetroAction::BuildRetro { empty_trace: !ok },
        ),
        (RetroState::AwaitBuilt { has_project }, RetroEvent::Built) => if has_project {
            (RetroState::AwaitCohort, RetroAction::BuildCohort)
        } else {
            (RetroState::AwaitNotes, RetroAction::GenerateNotes)
        },
        (RetroState::AwaitCohort, RetroEvent::CohortBuilt) => (
            RetroState::AwaitNotes,
            RetroAction::GenerateNotes,
        ),
        (RetroState::AwaitNotes, RetroEvent::NotesGenerated { count }) => (
            RetroState::AwaitPersist { count },
            RetroAction::Persist,
        ),
        (RetroState::AwaitPersist { count }, RetroEvent::Persisted { ok }) => if ok {
            next_note(0nat, count)
        } else {
            (RetroState::Failed, RetroAction::Fail)
        },
        (RetroState::AwaitNoteCreated { index, count }, RetroEvent::NoteCreated { ok }) => if ok {
            (RetroState::AwaitNoteLinked { index, count }, RetroAction::LinkNote { index })
        } else {
            next_note((index + 1) as nat, count)
        },
        (RetroState::AwaitNoteLinked { index, count }, RetroEvent::NoteLinked) => (
            RetroState::AwaitNoteAttached { index, count },
            RetroAction::AttachNote { index },
        ),
        (RetroState::AwaitNoteAttached { index, count }, RetroEvent::NoteAttached) => next_note(
            (index + 1) as nat,
            count,
        ),
        _ => (RetroState::Failed, RetroAction::Fail),
    }
}

/// The next note, or the end, as the step takes it.
fn next_note_step(index: usize, count: usize) -> (r: (RetroState, RetroAction))
    requires
        index <= count,
    ensures
        r == next_note(index as nat, count),
{
    if index < count {
        (RetroState::AwaitNoteCreated { index, count }, RetroAction::CreateNote { index })
    } else {
        (RetroState::Done, RetroAction::Finish)
    }
}

/// Note positions never pass the number of notes.
pub open spec fn retro_state_wf(state: RetroState) -> bool {
    match state {
        RetroState::AwaitNoteCreated { index, count } => index < count,
        RetroState::AwaitNoteLinked { index, count } => index < count,
        RetroState::AwaitNoteAttached { index, count } => index < count,
        _ => true,
    }
}

/// The next state and action of a retrospective run.
pub fn retrospective_step(state: RetroState, event: RetroEvent) -> (r: (RetroState, RetroAction))
    requires
        retro_state_wf(state),
    ensures
        r == retro_transition(state, event),
        retro_state_wf(r.0),
{
    match (state, event) {
        (RetroState::Start, RetroEvent::Begin { has_session, has_project }) => if has_session {
            (RetroState::AwaitTrace { has_project }, RetroAction::CollectTrace)
        } else {
            (RetroState::AwaitBuilt { has_project }, RetroAction::BuildRetro { empty_trace: true })
        },
        (RetroState::AwaitTrace { has_project }, RetroEvent::TraceCollected { ok }) => (
            RetroState::AwaitBuilt { has_project },
            RetroAction::BuildRetro { empty_trace: !ok },
        ),
        (RetroState::AwaitBuilt { has_project }, RetroEvent::Built) => if has_project {
            (RetroState::AwaitCohort, RetroAction::BuildCohort)
        } else {
            (RetroState::AwaitNotes, RetroAction::GenerateNotes)
        },
        (RetroState::AwaitCohort, RetroEvent::CohortBuilt) => (
            RetroState::AwaitNotes,
            RetroAction::GenerateNotes,
        ),
        (RetroState::AwaitNotes, RetroEvent::NotesGenerated { count }) => (
            RetroState::AwaitPersist { count },
            RetroAction::Persist,
        ),
        (RetroState::AwaitPersist { count }, RetroEvent::Persisted { ok }) => if ok {
            next_note_step(0, count)
        } else {
            (RetroState::Failed, RetroAction::Fail)
        },
        (RetroState::AwaitNoteCreated { index, count }, RetroEvent::NoteCreated { ok }) => if ok {
            (RetroState::AwaitNoteLinked { index, count }, RetroAction::LinkNote { index })
        } else {
            next_note_step(index + 1, count)
        },
        (RetroState::AwaitNoteLinked { index, count }, RetroEvent::NoteLinked) => (
            RetroState::AwaitNoteAttached { index, count },
            RetroAction::AttachNote { index },
        ),
        (RetroState::AwaitNoteAttached { index, count }, RetroEvent::NoteAttached) => next_note_step(
            index + 1,
            count,
        ),
        _ => (RetroState::Failed, RetroAction::Fail),
    }
}

/// A task without a session is built from an empty trace, and one whose
/// trace could not be collected too; a task without a project is never
/// compared with a cohort; a retrospective that cannot be stored fails the
/// run before any note is created; a note that could not be created is
/// neither linked nor attached.
pub proof fn lemma_retro_decisions(has_project: bool, count: usize, index: usize)
    requires
        index < count,
    ensures
        (retro_transition(RetroState::Start, RetroEvent::Begin { has_session: false, has_project }).1
            == RetroAction::BuildRetro { empty_trace: true }),
        (retro_transition(RetroState::AwaitTrace { has_project }, RetroEvent::TraceCollected { ok: false }).1
            == RetroAction::BuildRetro { empty_trace: true }),
        (retro_transition(RetroState::AwaitBuilt { has_project: false }, RetroEvent::Built).1
            == RetroAction::GenerateNotes),
        (retro_transition(RetroState::AwaitPersist { count }, RetroEvent::Persisted { ok: false })
            == (RetroState::Failed, RetroAction::Fail)),
        (retro_transition(RetroState::AwaitNoteCreated { index, count }, RetroEvent::NoteCreated { ok: false }).1
            != RetroAction::LinkNote { index }),
        (retro_transition(RetroState::AwaitNoteCreated { index, count }, RetroEvent::NoteCreated { ok: false }).1
            != RetroAction::AttachNote { index }),
{
}

} // verus!
