//! Periodic heartbeat checks: their names and schedules, and the decisions
//! they take on what the outside commands report.
//!
//! Running `git`, reading the graph and emitting events is left to the
//! caller; the checks here say what an outcome means.

use vstd::prelude::*;
use crate::keyed::{distinct_keys, lemma_keyed_domain, KeyedList};
use crate::text::{decimal, decimal_of, extend_chars, extend_str, lines, lines_of, string_of};

verus! {

/// Seconds a project's `git fetch` and `git log` may take together.
pub const PER_PROJECT_TIMEOUT_SECS: u64 = 10;

/// The pain score below which a project is dormant and left uncorrected, in
/// thousandths (a score below 0.1).
pub const DORMANCY_THRESHOLD_PER_MILLE: u64 = 100;

/// Detects when local branches are behind their remote (every 10 minutes).
#[derive(Debug, Clone, Copy)]
pub struct GitDriftCheck;

/// Runs homeostasis evaluation and correction on all projects (every 2
/// hours), leaving dormant projects alone.
#[derive(Debug, Clone, Copy)]
pub struct HomeostasisCheck;

impl GitDriftCheck {
    /// The check's name.
    pub fn name(&self) -> (r: &'static str)
        ensures
            r@ == "git_drift"@,
    {
        "git_drift"
    }

    /// Seconds between runs.
    pub fn interval(&self) -> (r: u64)
        ensures
            r == 10 * 60,
    {
        10 * 60
    }

    /// Seconds the whole check may take, enough for the concurrent fetch of
    /// several projects.
    pub fn timeout_override(&self) -> (r: Option<u64>)
        ensures
            r == Some(30u64),
    {
        Some(30)
    }
}

impl HomeostasisCheck {
    /// The check's name.
    pub fn name(&self) -> (r: &'static str)
        ensures
            r@ == "homeostasis"@,
    {
        "homeostasis"
    }

    /// Seconds between runs.
    pub fn interval(&self) -> (r: u64)
        ensures
            r == 2 * 60 * 60,
    {
        2 * 60 * 60
    }
}

/// The number of commits `git log --oneline HEAD..origin/main` listed: one
/// per line of its output.
pub open spec fn commits_behind(log_output: Seq<char>) -> nat {
    lines(log_output).len()
}

/// The text of a drift alert.
pub open spec fn drift_message(project: Seq<char>, commits: nat) -> Seq<char> {
    "Project '"@ + project + "' is "@ + decimal(commits) + " commit(s) behind origin/main"@
}

/// The alert a project's `git log` output calls for: none where the project
/// is up to date, else the number of commits behind and the alert text.
pub fn drift_alert(project: &str, log_output: &str) -> (r: Option<(u64, String)>)
    ensures
        commits_behind(log_output@) == 0 <==> r is None,
        r matches Some((n, msg)) ==> n == commits_behind(log_output@) && msg@ == drift_message(
            project@,
            n as nat,
        ),
{
    let cs = crate::text::chars_of(log_output);
    let ls = lines_of(cs.as_slice());
    proof {
        assert(ls@.len() == crate::text::views(ls@).len());
    }
    let n = ls.len() as u64;
    if n == 0 {
        return None;
    }
    let mut v: Vec<char> = Vec::new();
    extend_str(&mut v, "Project '");
    extend_str(&mut v, project);
    extend_str(&mut v, "' is ");
    let digits = decimal_of(n);
    extend_chars(&mut v, digits.as_slice());
    extend_str(&mut v, " commit(s) behind origin/main");
    proof {
        assert(v@ =~= drift_message(project@, n as nat));
    }
    Some((n, string_of(v.as_slice())))
}

/// The error told to the clients of a chat session whose command-line
/// process exited.
pub open spec fn dead_cli_text(was_streaming: bool) -> Seq<char> {
    "CLI subprocess exited unexpectedly"@ + (if was_streaming {
        " while streaming"@
    } else {
        ""@
    }) + ". Send a new message to reconnect."@
}

/// The error message for a session whose command-line process exited.
pub fn dead_cli_message(was_streaming: bool) -> (r: String)
    ensures
        r@ == dead_cli_text(was_streaming),
{
    let mut v: Vec<char> = Vec::new();
    extend_str(&mut v, "CLI subprocess exited unexpectedly");
    if was_streaming {
        extend_str(&mut v, " while streaming");
    }
    extend_str(&mut v, ". Send a new message to reconnect.");
    proof {
        reveal_strlit("");
        assert(v@ =~= dead_cli_text(was_streaming));
    }
    string_of(v.as_slice())
}

/// What the CLI health check reads of a chat session: whether its input
/// channel is closed (`None` where the session has no channel yet, being set
/// up) and whether it is streaming.
#[derive(Debug, Clone, Copy, PartialEq, Eq, Structural)]
pub struct SessionState {
    pub stdin_closed: Option<bool>,
    pub is_streaming: bool,
}

/// A session is dead when its command-line process exited: its input channel
/// exists and is closed.
pub open spec fn session_dead(s: SessionState) -> bool {
    s.stdin_closed == Some(true)
}

/// What the clients of a dead session are told: the session, the error
/// text, and whether streaming is to be reported as stopped.
#[derive(Debug, Clone)]
pub struct DeadSessionNotice {
    pub session_id: String,
    pub message: String,
    pub stop_streaming: bool,
}

impl DeadSessionNotice {
    /// The notice as plain values.
    pub open spec fn view(&self) -> (Seq<char>, Seq<char>, bool) {
        (self.session_id@, self.message@, self.stop_streaming)
    }
}

/// The notice for a dead session entry.
pub open spec fn notice_of(e: (Seq<char>, SessionState)) -> (Seq<char>, Seq<char>, bool) {
    (e.0, dead_cli_text(e.1.is_streaming), e.1.is_streaming)
}

/// Watches the chat sessions for command-line processes that died (every 30
/// seconds), removing them so that the next message starts a fresh one.
#[derive(Debug)]
pub struct CliHealthCheck {
    pub active_sessions: KeyedList<SessionState>,
}

impl CliHealthCheck {
    /// A check over the given sessions, keyed by session id.
    pub fn new(active_sessions: KeyedList<SessionState>) -> (r: CliHealthCheck)
        ensures
            r.active_sessions == active_sessions,
    {
        CliHealthCheck { active_sessions }
    }

    /// The check's name.
    pub fn name(&self) -> (r: &'static str)
        ensures
            r@ == "cli_health"@,
    {
        "cli_health"
    }

    /// Seconds between runs.
    pub fn interval(&self) -> (r: u64)
        ensures
            r == 30,
    {
        30
    }

    /// One run: the dead sessions leave the active ones, and each gets its
    /// notice, in the order of the sessions. The live sessions stay, in
    /// their order.
    pub fn run(&mut self) -> (notices: Vec<DeadSessionNotice>)
        ensures
            final(self).active_sessions.wf(),
            final(self).active_sessions.entries() == old(self).active_sessions.entries().filter(
                |e: (Seq<char>, SessionState)| !session_dead(e.1),
            ),
            notices@.map_values(|n: DeadSessionNotice| n.view()) == old(
                self,
            ).active_sessions.entries().filter(|e: (Seq<char>, SessionState)| session_dead(e.1)).map_values(
                |e: (Seq<char>, SessionState)| notice_of(e),
            ),
    {
        let ghost es = self.active_sessions.entries();
        let ghost alive = |e: (Seq<char>, SessionState)| !session_dead(e.1);
        let ghost dead = |e: (Seq<char>, SessionState)| session_dead(e.1);
        let mut kept: KeyedList<SessionState> = KeyedList::new();
        let mut notices: Vec<DeadSessionNotice> = Vec::new();
        let n = self.active_sessions.len();
        let mut i: usize = 0;
        while i < n
            invariant
                n == es.len(),
                alive == (|e: (Seq<char>, SessionState)| !session_dead(e.1)),
                dead == (|e: (Seq<char>, SessionState)| session_dead(e.1)),
                self.active_sessions.entries() == es,
                distinct_keys(es),
                0 <= i <= n,
                kept.wf(),
                kept.entries() == es.take(i as int).filter(alive),
                notices@.map_values(|m: DeadSessionNotice| m.view()) == es.take(i as int).filter(
                    dead,
                ).map_values(|e: (Seq<char>, SessionState)| notice_of(e)),
            decreases n - i,
        {
            let (id, st) = self.active_sessions.entry(i);
            let st: SessionState = *st;
            let ghost before_n = notices@.map_values(|m: DeadSessionNotice| m.view());
            let ghost before_k = kept.entries();
            proof {
                assert(es.take(i + 1).drop_last() =~= es.take(i as int));
                assert(es.take(i + 1).last() == es[i as int]);
                reveal(Seq::filter);
            }
            let is_dead = match st.stdin_closed {
                Some(closed) => closed,
                None => false,
            };
            if is_dead {
                let message = dead_cli_message(st.is_streaming);
                notices.push(
                    DeadSessionNotice {
                        session_id: id.clone(),
                        message,
                        stop_streaming: st.is_streaming,
                    },
                );
                proof {
                    assert(dead(es[i as int]));
                    assert(es.take(i + 1).filter(dead) == es.take(i as int).filter(dead).push(
                        es[i as int],
                    ));
                    assert(es.take(i + 1).filter(alive) == es.take(i as int).filter(alive));
                    assert(notices@.map_values(|m: DeadSessionNotice| m.view()) =~= before_n.push(
                        notice_of(es[i as int]),
                    ));
                }
            } else {
                proof {
                    assert forall|j: int| 0 <= j < before_k.len() implies #[trigger] before_k[j].0
                        != es[i as int].0 by {
                        let t = es.take(i as int);
                        assert(t.filter(alive).contains(before_k[j]));
                        t.lemma_filter_contains_rev(alive, before_k[j]);
                        let k = choose|k: int| 0 <= k < t.len() && t[k] == before_k[j];
                        assert(es[k] == before_k[j]);
                    }
                    lemma_keyed_domain(before_k, es[i as int].0);
                }
                kept.set(id.as_str(), st);
                proof {
                    assert(alive(es[i as int]));
                    assert(es.take(i + 1).filter(alive) == es.take(i as int).filter(alive).push(
                        es[i as int],
                    ));
                    assert(es.take(i + 1).filter(dead) == es.take(i as int).filter(dead));
                }
            }
            i = i + 1;
        }
        proof {
            assert(es.take(n as int) =~= es);
        }
        self.active_sessions = kept;
        notices
    }
}

/// After a run no session is dead, so a second run sends no notice and
/// keeps every session: the live sessions filtered again are the same, and
/// none of them is dead.
pub proof fn lemma_cli_health_settles(es: Seq<(Seq<char>, SessionState)>)
    ensures
        es.filter(|e: (Seq<char>, SessionState)| !session_dead(e.1)).filter(
            |e: (Seq<char>, SessionState)| !session_dead(e.1),
        ) == es.filter(|e: (Seq<char>, SessionState)| !session_dead(e.1)),
        es.filter(|e: (Seq<char>, SessionState)| !session_dead(e.1)).filter(
            |e: (Seq<char>, SessionState)| session_dead(e.1),
        ).len() == 0,
    decreases es.len(),
{
    let alive = |e: (Seq<char>, SessionState)| !session_dead(e.1);
    let dead = |e: (Seq<char>, SessionState)| session_dead(e.1);
    reveal(Seq::filter);
    if es.len() > 0 {
        lemma_cli_health_settles(es.drop_last());
        let f = es.drop_last().filter(alive);
        if alive(es.last()) {
            assert(es.filter(alive) == f.push(es.last()));
            assert(f.push(es.last()).drop_last() =~= f);
            assert(f.push(es.last()).filter(alive) == f.filter(alive).push(es.last()));
            assert(f.push(es.last()).filter(dead) == f.filter(dead));
        } else {
            assert(es.filter(alive) == f);
        }
    } else {
        assert(es.filter(alive) =~= Seq::<(Seq<char>, SessionState)>::empty());
        assert(es.filter(alive).filter(alive) =~= Seq::<(Seq<char>, SessionState)>::empty());
        assert(es.filter(alive).filter(dead) =~= Seq::<(Seq<char>, SessionState)>::empty());
    }
}

// ============================================================================
// Homeostasis check, per project
// ============================================================================

/// Where the homeostasis check of one project stands.
#[derive(Debug, Clone, Copy, PartialEq, Eq, Structural)]
pub enum HomeostasisStage {
    /// Waiting for the project's homeostasis report.
    AwaitReport,
    /// Waiting for the project's neural metrics.
    AwaitMetrics,
    /// Waiting for the corrective actions to run.
    AwaitExecution,
    /// Finished with the project.
    Done,
}

/// What came back from the outside work of a stage.
#[derive(Debug, Clone, Copy, PartialEq, Eq, Structural)]
pub enum HomeostasisEvent {
    /// The report could not be computed.
    ReportFailed,
    /// The report, and whether its pain score is below the dormancy
    /// threshold.
    Report { dormant: bool },
    /// The neural metrics could not be read.
    MetricsFailed,
    /// The metrics were read and evaluated into this many corrective
    /// actions.
    Evaluated { actions: usize },
    /// The actions ran; this many took effect.
    Executed { count: usize },
    /// Running the actions failed.
    ExecutionFailed,
}

/// What to do next.
#[derive(Debug, Clone, Copy, PartialEq, Eq, Structural)]
pub enum HomeostasisAction {
    /// Read the neural metrics and evaluate them.
    FetchMetrics,
    /// Run the corrective actions.
    Execute,
    /// Emit a correction alert; the project is done.
    Alert,
    /// Nothing more for this project.
    Finish,
}

/// The next stage and action. A failed step, a dormant project, no
/// corrective action or no action taking effect end the project's check;
/// actions that took effect are announced by an alert. An event that does
/// not belong to the stage ends the check.
pub open spec fn homeostasis_next(stage: HomeostasisStage, event: HomeostasisEvent) -> (
    HomeostasisStage,
    HomeostasisAction,
) {
    match (stage, event) {
        (HomeostasisStage::AwaitReport, HomeostasisEvent::Report { dormant }) => if dormant {
            (HomeostasisStage::Done, HomeostasisAction::Finish)
        } else {
            (HomeostasisStage::AwaitMetrics, HomeostasisAction::FetchMetrics)
        },
        (HomeostasisStage::AwaitMetrics, HomeostasisEvent::Evaluated { actions }) => if actions == 0 {
            (HomeostasisStage::Done, HomeostasisAction::Finish)
        } else {
            (HomeostasisStage::AwaitExecution, HomeostasisAction::Execute)
        },
        (HomeostasisStage::AwaitExecution, HomeostasisEvent::Executed { count }) => if count > 0 {
            (HomeostasisStage::Done, HomeostasisAction::Alert)
        } else {
            (HomeostasisStage::Done, HomeostasisAction::Finish)
        },
        _ => (HomeostasisStage::Done, HomeostasisAction::Finish),
    }
}

/// The next stage and action of a project's homeostasis check.
pub fn homeostasis_step(stage: HomeostasisStage, event: HomeostasisEvent) -> (r: (
    HomeostasisStage,
    HomeostasisAction,
))
    ensures
        r == homeostasis_next(stage, event),
{
    match (stage, event) {
        (HomeostasisStage::AwaitReport, HomeostasisEvent::Report { dormant }) => if dormant {
            (HomeostasisStage::Done, HomeostasisAction::Finish)
        } else {
            (HomeostasisStage::AwaitMetrics, HomeostasisAction::FetchMetrics)
        },
        (HomeostasisStage::AwaitMetrics, HomeostasisEvent::Evaluated { actions }) => if actions == 0 {
            (HomeostasisStage::Done, HomeostasisAction::Finish)
        } else {
            (HomeostasisStage::AwaitExecution, HomeostasisAction::Execute)
        },
        (HomeostasisStage::AwaitExecution, HomeostasisEvent::Executed { count }) => if count > 0 {
            (HomeostasisStage::Done, HomeostasisAction::Alert)
        } else {
            (HomeostasisStage::Done, HomeostasisAction::Finish)
        },
        _ => (HomeostasisStage::Done, HomeostasisAction::Finish),
    }
}

/// A dormant project is never corrected: its report ends its check, and
/// nothing after the end runs an action.
pub proof fn lemma_dormant_untouched(later: HomeostasisEvent)
    ensures
        homeostasis_next(HomeostasisStage::AwaitReport, HomeostasisEvent::Report { dormant: true })
            == (HomeostasisStage::Done, HomeostasisAction::Finish),
        homeostasis_next(HomeostasisStage::Done, later) == (
            HomeostasisStage::Done,
            HomeostasisAction::Finish,
        ),
{
}

/// The value of the first ratio with the given name, if any.
pub fn find_ratio<V: Copy>(ratios: &Vec<(String, V)>, name: &str) -> (r: Option<V>)
    ensures
        match r {
            Some(v) => exists|i: int|
                0 <= i < ratios@.len() && ratios@[i].0@ == name@ && ratios@[i].1 == v && forall|j: int|
                    0 <= j < i ==> #[trigger] ratios@[j].0@ != name@,
            None => forall|i: int| 0 <= i < ratios@.len() ==> #[trigger] ratios@[i].0@ != name@,
        },
{
    let mut i: usize = 0;
    while i < ratios.len()
        invariant
            0 <= i <= ratios@.len(),
            forall|j: int| 0 <= j < i ==> #[trigger] ratios@[j].0@ != name@,
        decreases ratios@.len() - i,
    {
        if crate::text::eq_str(ratios[i].0.as_str(), name) {
            return Some(ratios[i].1);
        }
        i = i + 1;
    }
    None
}

} // verus!
