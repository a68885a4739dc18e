//! The learning notes a retrospective generates: gotchas for files that
//! fail often and for error-heavy failures, a pattern for unusually fast
//! successes, an observation for unusually costly tasks; at most three.
//!
//! The statistical tests (failure rates above one half, z-scores) are
//! floating-point and made by the caller, which also looks up which notes
//! exist already and writes the texts that show floating-point numbers;
//! which notes are made, in which order, with which tags and the remaining
//! texts is decided here.

use vstd::prelude::*;
use crate::ids::{uuid_text, uuid_to_string};
use crate::text::{decimal, decimal_of, extend_chars, extend_str, join, string_of};

verus! {

/// The most notes one retrospective generates.
pub const MAX_NOTES_PER_RETRO: usize = 3;

/// The kind of a note.
#[derive(Debug, Clone, Copy, PartialEq, Eq, Structural)]
pub enum NoteType {
    Gotcha,
    Pattern,
    Observation,
}

/// How important a note is.
#[derive(Debug, Clone, Copy, PartialEq, Eq, Structural)]
pub enum NoteImportance {
    High,
    Medium,
}

/// The status a generated note is created with.
#[derive(Debug, Clone, Copy, PartialEq, Eq, Structural)]
pub enum NoteStatus {
    Active,
}

/// The scope a generated note is created with.
#[derive(Debug, Clone, Copy, PartialEq, Eq, Structural)]
pub enum NoteScope {
    Project,
}

/// Who creates the generated notes.
pub const NOTE_CREATOR: &'static str = "retrospective-engine";

/// A note to create.
#[derive(Debug, Clone)]
pub struct PlannedNote {
    /// The project of the task, if any.
    pub project_id: Option<u128>,
    pub note_type: NoteType,
    pub status: NoteStatus,
    pub importance: NoteImportance,
    pub scope: NoteScope,
    pub content: String,
    pub tags: Vec<String>,
    pub created_by: String,
}

/// A file the cohort links to failures.
#[derive(Debug, Clone)]
pub struct RiskSignalFacts {
    /// The file.
    pub file_path: String,
    /// Whether its failure rate is above one half.
    pub above_half: bool,
    /// Its failure rate in percent, written without decimals.
    pub percent: String,
    /// Whether a note tagged for this file exists already.
    pub note_exists: bool,
}

/// What the cohort comparison found.
#[derive(Debug, Clone)]
pub struct CohortFacts {
    /// The number of retrospectives compared with.
    pub cohort_size: usize,
    /// The files linked to failures.
    pub risk_signals: Vec<RiskSignalFacts>,
    /// The text of the fast-execution pattern, where the duration's z-score
    /// is below -1.5.
    pub fast_note: Option<String>,
    /// The text of the cost observation, where the cost's z-score is
    /// above 2.
    pub cost_note: Option<String>,
}

/// What the notes read of a retrospective.
#[derive(Debug, Clone)]
pub struct LearningFacts {
    pub task_id: u128,
    /// The project of the task, if any.
    pub project_id: Option<u128>,
    pub success: bool,
    /// The reason, where the outcome is a failure.
    pub failure_reason: Option<String>,
    pub error_count: u32,
    pub last_error: Option<String>,
    pub files_modified: Vec<String>,
    /// Whether the graph holds the error-pattern note of the task already.
    pub error_note_exists: bool,
    pub cohort: Option<CohortFacts>,
}

/// A note as plain data.
pub ghost struct NoteView {
    pub project_id: Option<u128>,
    pub note_type: NoteType,
    pub status: NoteStatus,
    pub importance: NoteImportance,
    pub scope: NoteScope,
    pub content: Seq<char>,
    pub tags: Seq<Seq<char>>,
    pub created_by: Seq<char>,
}

/// A note of the task's project, active, project-scoped and created by the
/// retrospective engine, with the given kind, importance, text and tags.
pub open spec fn note_of(
    f: LearningFacts,
    note_type: NoteType,
    importance: NoteImportance,
    content: Seq<char>,
    tags: Seq<Seq<char>>,
) -> NoteView {
    NoteView {
        project_id: f.project_id,
        note_type,
        status: NoteStatus::Active,
        importance,
        scope: NoteScope::Project,
        content,
        tags,
        created_by: "retrospective-engine"@,
    }
}

/// The tags every note of a task carries.
pub open spec fn base_tags(task_id: u128) -> Seq<Seq<char>> {
    seq!["auto-retrospective"@, "task:"@ + uuid_text(task_id)]
}

/// The failure reason as notes state it.
pub open spec fn reason_text(f: LearningFacts) -> Seq<char> {
    match f.failure_reason {
        Some(r) => r@,
        None => "unknown"@,
    }
}

/// The gotcha for a file that fails often.
pub open spec fn file_risk_note(f: LearningFacts, s: RiskSignalFacts) -> NoteView {
    note_of(
        f,
        NoteType::Gotcha,
        NoteImportance::High,
        "File `"@ + s.file_path@ + "` has a "@ + s.percent@ + "% task failure rate. Last failure: "@
            + reason_text(f) + ". Consider extra review when modifying this file."@,
        base_tags(f.task_id).push("file-risk:"@ + s.file_path@),
    )
}

/// The files of a task, joined with commas.
pub open spec fn files_text(f: LearningFacts) -> Seq<char> {
    join(f.files_modified@.map_values(|s: String| s@), ", "@)
}

/// The gotcha for a failure with many errors.
pub open spec fn error_pattern_note(f: LearningFacts, cohort_size: usize) -> NoteView {
    note_of(
        f,
        NoteType::Gotcha,
        NoteImportance::High,
        "Task failed with "@ + decimal(f.error_count as nat) + " errors (cohort size: "@ + decimal(
            cohort_size as nat,
        ) + "). Error: "@ + (match f.last_error {
            Some(e) => e@,
            None => reason_text(f),
        }) + ". Files: ["@ + files_text(f) + "]."@,
        base_tags(f.task_id).push("error-pattern:"@ + uuid_text(f.task_id)),
    )
}

/// The file gotchas of a failure, one per signal above one half whose note
/// does not exist yet.
pub open spec fn risk_notes(f: LearningFacts, signals: Seq<RiskSignalFacts>) -> Seq<NoteView>
    decreases signals.len(),
{
    if signals.len() == 0 {
        seq![]
    } else {
        let rest = risk_notes(f, signals.drop_last());
        let s = signals.last();
        if s.above_half && !s.note_exists {
            rest.push(file_risk_note(f, s))
        } else {
            rest
        }
    }
}

/// Every note the rules call for, in rule order: file gotchas of a failure,
/// the fast-execution pattern of a success, the error gotcha of a failure
/// with more than three errors, the cost observation; notes that exist
/// already left out.
pub open spec fn candidate_notes(f: LearningFacts) -> Seq<NoteView> {
    match f.cohort {
        None => seq![],
        Some(c) => {
            let r1 = if !f.success {
                risk_notes(f, c.risk_signals@)
            } else {
                seq![]
            };
            let r2 = match c.fast_note {
                Some(t) => if f.success {
                    seq![
                        note_of(
                            f,
                            NoteType::Pattern,
                            NoteImportance::Medium,
                            t@,
                            base_tags(f.task_id).push("fast-execution"@),
                        ),
                    ]
                } else {
                    seq![]
                },
                None => seq![],
            };
            let r3 = if !f.success && f.error_count > 3 && !f.error_note_exists {
                seq![error_pattern_note(f, c.cohort_size)]
            } else {
                seq![]
            };
            let r4 = match c.cost_note {
                Some(t) => seq![
                    note_of(
                        f,
                        NoteType::Observation,
                        NoteImportance::Medium,
                        t@,
                        base_tags(f.task_id).push("cost-alert"@),
                    ),
                ],
                None => seq![],
            };
            r1 + r2 + r3 + r4
        },
    }
}

/// The notes a retrospective generates: the first three the rules call for.
pub open spec fn learning_notes(f: LearningFacts) -> Seq<NoteView> {
    let c = candidate_notes(f);
    if c.len() > MAX_NOTES_PER_RETRO {
        c.take(MAX_NOTES_PER_RETRO as int)
    } else {
        c
    }
}

/// A note as plain data.
pub open spec fn note_view(n: PlannedNote) -> NoteView {
    NoteView {
        project_id: n.project_id,
        note_type: n.note_type,
        status: n.status,
        importance: n.importance,
        scope: n.scope,
        content: n.content@,
        tags: n.tags@.map_values(|s: String| s@),
        created_by: n.created_by@,
    }
}

/// The notes as plain data.
pub open spec fn notes_view(v: Seq<PlannedNote>) -> Seq<NoteView> {
    v.map_values(|n: PlannedNote| note_view(n))
}

/// The tags of a task's note with one more tag.
fn tags_with(task_id: u128, last: String) -> (r: Vec<String>)
    ensures
        r@.map_values(|s: String| s@) == base_tags(task_id).push(last@),
{
    let mut t: Vec<String> = Vec::new();
    t.push("auto-retrospective".to_string());
    let mut v: Vec<char> = Vec::new();
    extend_str(&mut v, "task:");
    let id = uuid_to_string(task_id);
    extend_str(&mut v, id.as_str());
    t.push(string_of(v.as_slice()));
    t.push(last);
    proof {
        assert(t@.map_values(|s: String| s@) =~= base_tags(task_id).push(last@));
    }
    t
}

/// A note of the task's project, active, project-scoped and created by the
/// retrospective engine.
fn make_note(
    f: &LearningFacts,
    note_type: NoteType,
    importance: NoteImportance,
    content: String,
    tags: Vec<String>,
) -> (n: PlannedNote)
    ensures
        note_view(n) == note_of(
            *f,
            note_type,
            importance,
            content@,
            tags@.map_values(|s: String| s@),
        ),
{
    proof {
        reveal_strlit("retrospective-engine");
    }
    PlannedNote {
        project_id: f.project_id,
        note_type,
        status: NoteStatus::Active,
        importance,
        scope: NoteScope::Project,
        content,
        tags,
        created_by: NOTE_CREATOR.to_string(),
    }
}

fn prefixed(prefix: &str, s: &str) -> (r: String)
    ensures
        r@ == prefix@ + s@,
{
    let mut v: Vec<char> = Vec::new();
    extend_str(&mut v, prefix);
    extend_str(&mut v, s);
    string_of(v.as_slice())
}

fn reason_of(f: &LearningFacts) -> (r: String)
    ensures
        r@ == reason_text(*f),
{
    match &f.failure_reason {
        Some(r) => r.clone(),
        None => "unknown".to_string(),
    }
}

fn file_risk_planned(f: &LearningFacts, s: &RiskSignalFacts) -> (n: PlannedNote)
    ensures
        note_view(n) == file_risk_note(*f, *s),
{
    let reason = reason_of(f);
    let mut v: Vec<char> = Vec::new();
    extend_str(&mut v, "File `");
    extend_str(&mut v, s.file_path.as_str());
    extend_str(&mut v, "` has a ");
    extend_str(&mut v, s.percent.as_str());
    extend_str(&mut v, "% task failure rate. Last failure: ");
    extend_str(&mut v, reason.as_str());
    extend_str(&mut v, ". Consider extra review when modifying this file.");
    let tag = prefixed("file-risk:", s.file_path.as_str());
    let tags = tags_with(f.task_id, tag);
    proof {
        assert(v@ =~= file_risk_note(*f, *s).content);
    }
    make_note(f, NoteType::Gotcha, NoteImportance::High, string_of(v.as_slice()), tags)
}

fn files_joined(f: &LearningFacts) -> (r: Vec<char>)
    ensures
        r@ == files_text(*f),
{
    let mut parts: Vec<Vec<char>> = Vec::new();
    let mut i: usize = 0;
    let ghost fs = f.files_modified@.map_values(|s: String| s@);
    while i < f.files_modified.len()
        invariant
            0 <= i <= f.files_modified@.len(),
            fs == f.files_modified@.map_values(|s: String| s@),
            crate::text::views(parts@) == fs.take(i as int),
        decreases f.files_modified@.len() - i,
    {
        let ghost before = crate::text::views(parts@);
        parts.push(crate::text::chars_of(f.files_modified[i].as_str()));
        proof {
            assert(crate::text::views(parts@) =~= before.push(fs[i as int]));
            assert(fs.take(i + 1) =~= fs.take(i as int).push(fs[i as int]));
        }
        i = i + 1;
    }
    proof {
        assert(fs.take(i as int) =~= fs);
    }
    let sep = crate::text::chars_of(", ");
    crate::text::join_chars(&parts, sep.as_slice())
}

fn error_pattern_planned(f: &LearningFacts, cohort_size: usize) -> (n: PlannedNote)
    ensures
        note_view(n) == error_pattern_note(*f, cohort_size),
{
    let mut v: Vec<char> = Vec::new();
    extend_str(&mut v, "Task failed with ");
    let ec = decimal_of(f.error_count as u64);
    extend_chars(&mut v, ec.as_slice());
    extend_str(&mut v, " errors (cohort size: ");
    let cs = decimal_of(cohort_size as u64);
    extend_chars(&mut v, cs.as_slice());
    extend_str(&mut v, "). Error: ");
    let err = match &f.last_error {
        Some(e) => e.clone(),
        None => reason_of(f),
    };
    extend_str(&mut v, err.as_str());
    extend_str(&mut v, ". Files: [");
    let files = files_joined(f);
    extend_chars(&mut v, files.as_slice());
    extend_str(&mut v, "].");
    let id = uuid_to_string(f.task_id);
    let tag = prefixed("error-pattern:", id.as_str());
    let tags = tags_with(f.task_id, tag);
    proof {
        assert(v@ =~= error_pattern_note(*f, cohort_size).content);
    }
    make_note(f, NoteType::Gotcha, NoteImportance::High, string_of(v.as_slice()), tags)
}

/// The notes a retrospective generates, in rule order, at most three.
pub fn generate_learning_notes(f: &LearningFacts) -> (r: Vec<PlannedNote>)
    ensures
        notes_view(r@) == learning_notes(*f),
{
    let mut out: Vec<PlannedNote> = Vec::new();
    match &f.cohort {
        None => {
            proof {
                assert(notes_view(out@) =~= candidate_notes(*f));
            }
        },
        Some(c) => {
            if !f.success {
                let mut i: usize = 0;
                proof {
                    assert(c.risk_signals@.take(0) =~= Seq::<RiskSignalFacts>::empty());
                    assert(notes_view(out@) =~= Seq::<NoteView>::empty());
                }
                while i < c.risk_signals.len()
                    invariant
                        0 <= i <= c.risk_signals@.len(),
                        notes_view(out@) == risk_notes(*f, c.risk_signals@.take(i as int)),
                    decreases c.risk_signals@.len() - i,
                {
                    let s = &c.risk_signals[i];
                    proof {
                        assert(c.risk_signals@.take(i + 1).drop_last() =~= c.risk_signals@.take(i as int));
                    }
                    if s.above_half && !s.note_exists {
                        let ghost before = notes_view(out@);
                        let n = file_risk_planned(f, s);
                        out.push(n);
                        proof {
                            assert(notes_view(out@) =~= before.push(note_view(n)));
                        }
                    }
                    i = i + 1;
                }
                proof {
                    assert(c.risk_signals@.take(i as int) =~= c.risk_signals@);
                }
            } else {
                proof {
                    assert(notes_view(out@) =~= Seq::<NoteView>::empty());
                }
            }
            match &c.fast_note {
                Some(t) => {
                    if f.success {
                        let tags = tags_with(f.task_id, "fast-execution".to_string());
                        let n = make_note(f, NoteType::Pattern, NoteImportance::Medium, t.clone(), tags);
                        out.push(n);
                    }
                },
                None => {},
            }
            if !f.success && f.error_count > 3 && !f.error_note_exists {
                let n = error_pattern_planned(f, c.cohort_size);
                out.push(n);
            }
            match &c.cost_note {
                Some(t) => {
                    let tags = tags_with(f.task_id, "cost-alert".to_string());
                    let n = make_note(f, NoteType::Observation, NoteImportance::Medium, t.clone(), tags);
                    out.push(n);
                },
                None => {},
            }
            proof {
                reveal_strlit("fast-execution");
                reveal_strlit("cost-alert");
                assert(notes_view(out@) =~= candidate_notes(*f));
            }
        },
    }
    if out.len() > MAX_NOTES_PER_RETRO {
        out.truncate(MAX_NOTES_PER_RETRO);
        proof {
            assert(notes_view(out@) =~= candidate_notes(*f).take(MAX_NOTES_PER_RETRO as int));
        }
    }
    out
}

/// A retrospective generates at most three notes.
pub proof fn lemma_notes_capped(f: LearningFacts)
    ensures
        learning_notes(f).len() <= MAX_NOTES_PER_RETRO,
{
}

/// A successful task gets no gotcha, and a failed one no pattern; every
/// note belongs to the task's project, is active and created by the
/// retrospective engine, and is tagged as an automatic retrospective note
/// of its task.
pub proof fn lemma_note_kinds(f: LearningFacts)
    ensures
        forall|i: int|
            0 <= i < learning_notes(f).len() ==> {
                let n = #[trigger] learning_notes(f)[i];
                &&& f.success ==> n.note_type != NoteType::Gotcha
                &&& !f.success ==> n.note_type != NoteType::Pattern
                &&& n.project_id == f.project_id
                &&& n.status == NoteStatus::Active
                &&& n.created_by == "retrospective-engine"@
                &&& n.tags.len() == 3
                &&& n.tags[0] == "auto-retrospective"@
                &&& n.tags[1] == "task:"@ + uuid_text(f.task_id)
            },
{
    let c = candidate_notes(f);
    assert forall|i: int| 0 <= i < c.len() implies {
        let n = #[trigger] c[i];
        &&& f.success ==> n.note_type != NoteType::Gotcha
        &&& !f.success ==> n.note_type != NoteType::Pattern
        &&& n.project_id == f.project_id
        &&& n.status == NoteStatus::Active
        &&& n.created_by == "retrospective-engine"@
        &&& n.tags.len() == 3
        &&& n.tags[0] == "auto-retrospective"@
        &&& n.tags[1] == "task:"@ + uuid_text(f.task_id)
    } by {
        match f.cohort {
            None => {},
            Some(co) => {
                lemma_risk_notes_tagged(f, co.risk_signals@);
            },
        }
    }
}

proof fn lemma_risk_notes_tagged(f: LearningFacts, signals: Seq<RiskSignalFacts>)
    ensures
        forall|i: int|
            0 <= i < risk_notes(f, signals).len() ==> {
                let n = #[trigger] risk_notes(f, signals)[i];
                &&& n.note_type == NoteType::Gotcha
                &&& n.project_id == f.project_id
                &&& n.status == NoteStatus::Active
                &&& n.created_by == "retrospective-engine"@
                &&& n.tags.len() == 3
                &&& n.tags[0] == "auto-retrospective"@
                &&& n.tags[1] == "task:"@ + uuid_text(f.task_id)
            },
    decreases signals.len(),
{
    if signals.len() > 0 {
        lemma_risk_notes_tagged(f, signals.drop_last());
    }
}

} // verus!
