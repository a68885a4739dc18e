//! Buffering of routing decisions by session, and the batches in which the
//! finished trajectories are flushed.
//!
//! The caller receives the events (a decision, the end of a session, the
//! shutdown), builds each trajectory from its decisions and writes the
//! batches to the store; which decisions belong together and when a batch
//! is due is decided here. A decision is any value `R`; what the end of a
//! session carries (its reward) is any value `E`.

use vstd::prelude::*;
use crate::keyed::{
    distinct_keys, keyed_map, lemma_keyed_domain, lemma_keyed_push, lemma_keyed_remove,
    lemma_keyed_update, lemma_keyed_value,
};
use crate::neural_routing::{step_delta, step_deltas};
use crate::text::eq_str;

verus! {

/// The open sessions and the finished trajectories waiting for a flush.
pub struct CollectorBuffers<R, E> {
    sessions: Vec<(String, Vec<R>)>,
    pending: Vec<(String, Vec<R>, E)>,
    buffer_size: usize,
}

/// A finished trajectory as plain data: its session, decisions and what
/// the end of the session carried.
pub open spec fn batch_view<R, E>(v: Seq<(String, Vec<R>, E)>) -> Seq<(Seq<char>, Seq<R>, E)> {
    v.map_values(|p: (String, Vec<R>, E)| (p.0@, p.1@, p.2))
}

/// The position of a session among the open ones, where it is open.
pub open spec fn session_at<R>(os: Seq<(Seq<char>, Seq<R>)>, s: Seq<char>) -> Option<int> {
    if exists|i: int| 0 <= i < os.len() && #[trigger] os[i].0 == s {
        Some(choose|i: int| 0 <= i < os.len() && #[trigger] os[i].0 == s)
    } else {
        None
    }
}

/// The open sessions after a decision of session `s`: appended to the
/// session where it is open, else a new session with it comes last.
pub open spec fn record_step<R>(os: Seq<(Seq<char>, Seq<R>)>, s: Seq<char>, d: R) -> Seq<
    (Seq<char>, Seq<R>),
> {
    match session_at(os, s) {
        Some(i) => os.update(i, (s, os[i].1.push(d))),
        None => os.push((s, seq![d])),
    }
}

/// The open sessions, the waiting trajectories and the batch flushed after
/// the end of session `s`: an open session joins the waiting ones, which
/// are all flushed once they make a batch; an unknown one changes nothing.
pub open spec fn end_step<R, E>(
    os: Seq<(Seq<char>, Seq<R>)>,
    pending: Seq<(Seq<char>, Seq<R>, E)>,
    batch_size: usize,
    s: Seq<char>,
    x: E,
) -> (Seq<(Seq<char>, Seq<R>)>, Seq<(Seq<char>, Seq<R>, E)>, Seq<(Seq<char>, Seq<R>, E)>) {
    match session_at(os, s) {
        Some(i) => {
            let waiting = pending.push((s, os[i].1, x));
            if waiting.len() >= batch_size {
                (os.remove(i), seq![], waiting)
            } else {
                (os.remove(i), waiting, seq![])
            }
        },
        None => (os, pending, seq![]),
    }
}

impl<R, E> CollectorBuffers<R, E> {
    /// The open sessions, in the order they opened, with their decisions.
    pub closed spec fn open_sessions(&self) -> Seq<(Seq<char>, Seq<R>)> {
        self.sessions@.map_values(|p: (String, Vec<R>)| (p.0@, p.1@))
    }

    /// The decisions of each open session.
    pub open spec fn sessions(&self) -> Map<Seq<char>, Seq<R>> {
        keyed_map(self.open_sessions())
    }

    /// The finished trajectories waiting for a flush, in order.
    pub closed spec fn pending(&self) -> Seq<(Seq<char>, Seq<R>, E)> {
        batch_view(self.pending@)
    }

    /// How many finished trajectories make a batch.
    pub closed spec fn batch_size(&self) -> usize {
        self.buffer_size
    }

    /// No session is open twice, and fewer trajectories wait than make a
    /// batch.
    pub closed spec fn wf(&self) -> bool {
        &&& distinct_keys(self.open_sessions())
        &&& (self.buffer_size > 0 ==> self.pending().len() < self.buffer_size)
    }

    /// The buffers stay well formed.
    #[verifier::type_invariant]
    spec fn buffers_ok(&self) -> bool {
        self.wf()
    }

    /// Empty buffers flushing by `buffer_size`.
    pub fn new(buffer_size: usize) -> (b: CollectorBuffers<R, E>)
        ensures
            b.wf(),
            b.batch_size() == buffer_size,
            b.open_sessions().len() == 0,
            b.pending().len() == 0,
    {
        let b = CollectorBuffers { sessions: Vec::new(), pending: Vec::new(), buffer_size };
        assert(b.open_sessions() =~= Seq::<(Seq<char>, Seq<R>)>::empty());
        assert(b.pending() =~= Seq::<(Seq<char>, Seq<R>, E)>::empty());
        b
    }

    /// How many finished trajectories make a batch.
    pub fn buffer_size(&self) -> (n: usize)
        ensures
            n == self.batch_size(),
    {
        self.buffer_size
    }

    /// The position of a session among the open ones.
    fn find(&self, session_id: &str) -> (r: Option<usize>)
        ensures
            r matches Some(i) ==> i < self.open_sessions().len() && self.open_sessions()[i as int].0
                == session_id@,
            r is None ==> forall|i: int|
                0 <= i < self.open_sessions().len() ==> #[trigger] self.open_sessions()[i].0
                    != session_id@,
    {
        let mut i: usize = 0;
        while i < self.sessions.len()
            invariant
                0 <= i <= self.open_sessions().len(),
                forall|j: int| 0 <= j < i ==> #[trigger] self.open_sessions()[j].0 != session_id@,
            decreases self.open_sessions().len() - i,
        {
            if eq_str(self.sessions[i].0.as_str(), session_id) {
                return Some(i);
            }
            i = i + 1;
        }
        None
    }

    /// Adds a decision to its session, opening the session where needed.
    pub fn record(&mut self, session_id: &str, decision: R)
        ensures
            final(self).wf(),
            final(self).batch_size() == old(self).batch_size(),
            final(self).pending() == old(self).pending(),
            final(self).open_sessions() == record_step(old(self).open_sessions(), session_id@, decision),
            final(self).sessions() == old(self).sessions().insert(
                session_id@,
                (if old(self).sessions().dom().contains(session_id@) {
                    old(self).sessions()[session_id@]
                } else {
                    Seq::empty()
                }).push(decision),
            ),
    {
        proof {
            use_type_invariant(&*self);
        }
        let ghost es = self.open_sessions();
        proof {
            lemma_keyed_domain(es, session_id@);
        }
        let found = self.find(session_id);
        let mut ss: Vec<(String, Vec<R>)> = Vec::new();
        std::mem::swap(&mut ss, &mut self.sessions);
        proof {
            assert(ss@.map_values(|p: (String, Vec<R>)| (p.0@, p.1@)) == es);
        }
        match found {
            Some(i) => {
                proof {
                    lemma_keyed_value(es, i as int);
                }
                let (k, mut v) = ss.remove(i);
                v.push(decision);
                let ghost nv = v@;
                ss.insert(i, (k, v));
                proof {
                    assert(ss@.map_values(|p: (String, Vec<R>)| (p.0@, p.1@)) =~= es.update(
                        i as int,
                        (es[i as int].0, nv),
                    ));
                    lemma_keyed_update(es, i as int, nv);
                }
            },
            None => {
                let mut v: Vec<R> = Vec::new();
                v.push(decision);
                let ghost nv = v@;
                ss.push((session_id.to_string(), v));
                proof {
                    assert(nv =~= Seq::<R>::empty().push(decision));
                    assert(ss@.map_values(|p: (String, Vec<R>)| (p.0@, p.1@)) =~= es.push(
                        (session_id@, nv),
                    ));
                    lemma_keyed_push(es, session_id@, nv);
                }
            },
        }
        self.sessions = ss;
    }

    /// Ends a session: its decisions, with what the end carries, join the
    /// waiting trajectories, and when these make a batch they are all
    /// returned to be flushed. An unknown session changes nothing.
    pub fn end_session(&mut self, session_id: &str, extra: E) -> (batch: Vec<(String, Vec<R>, E)>)
        ensures
            final(self).wf(),
            final(self).batch_size() == old(self).batch_size(),
            (final(self).open_sessions(), final(self).pending(), batch_view(batch@)) == end_step(
                old(self).open_sessions(),
                old(self).pending(),
                old(self).batch_size(),
                session_id@,
                extra,
            ),
            !old(self).sessions().dom().contains(session_id@) ==> final(self).sessions() == old(self).sessions() && final(self).pending() == old(self).pending() && batch@.len() == 0,
            old(self).sessions().dom().contains(session_id@) ==> {
                let waiting = old(self).pending().push(
                    (session_id@, old(self).sessions()[session_id@], extra),
                );
                &&& final(self).sessions() == old(self).sessions().remove(session_id@)
                &&& waiting.len() >= old(self).batch_size() ==> batch_view(batch@) == waiting
                    && final(self).pending().len() == 0
                &&& waiting.len() < old(self).batch_size() ==> batch@.len() == 0 && final(self).pending() == waiting
            },
    {
        proof {
            use_type_invariant(&*self);
        }
        let ghost es = self.open_sessions();
        proof {
            lemma_keyed_domain(es, session_id@);
        }
        match self.find(session_id) {
            Some(i) => {
                proof {
                    lemma_keyed_value(es, i as int);
                    lemma_keyed_remove(es, i as int);
                }
                let mut ss: Vec<(String, Vec<R>)> = Vec::new();
                std::mem::swap(&mut ss, &mut self.sessions);
                let mut ps: Vec<(String, Vec<R>, E)> = Vec::new();
                std::mem::swap(&mut ps, &mut self.pending);
                let ghost before = batch_view(ps@);
                proof {
                    assert(ss@.map_values(|p: (String, Vec<R>)| (p.0@, p.1@)) == es);
                    assert(before == old(self).pending());
                }
                let (k, v) = ss.remove(i);
                proof {
                    assert(ss@.map_values(|p: (String, Vec<R>)| (p.0@, p.1@)) =~= es.remove(i as int));
                }
                ps.push((k, v, extra));
                proof {
                    assert(batch_view(ps@) =~= before.push((es[i as int].0, es[i as int].1, extra)));
                }
                self.sessions = ss;
                if ps.len() >= self.buffer_size {
                    proof {
                        assert(self.pending() =~= Seq::<(Seq<char>, Seq<R>, E)>::empty());
                    }
                    ps
                } else {
                    self.pending = ps;
                    Vec::new()
                }
            },
            None => Vec::new(),
        }
    }

    /// Shuts down: every open session ends with `extra`, and all waiting
    /// trajectories, those of the open sessions after them, are returned to
    /// be flushed; the buffers are left empty.
    pub fn shutdown(&mut self, extra: E) -> (batch: Vec<(String, Vec<R>, E)>)
        where E: Copy,
        ensures
            final(self).wf(),
            final(self).batch_size() == old(self).batch_size(),
            final(self).open_sessions().len() == 0,
            final(self).pending().len() == 0,
            batch_view(batch@) == old(self).pending() + old(self).open_sessions().map_values(
                |p: (Seq<char>, Seq<R>)| (p.0, p.1, extra),
            ),
    {
        proof {
            use_type_invariant(&*self);
            assert(batch_view(Seq::<(String, Vec<R>, E)>::empty()) =~= Seq::<(Seq<char>, Seq<R>, E)>::empty());
        }
        let mut batch: Vec<(String, Vec<R>, E)> = Vec::new();
        std::mem::swap(&mut batch, &mut self.pending);
        let mut open: Vec<(String, Vec<R>)> = Vec::new();
        std::mem::swap(&mut open, &mut self.sessions);
        let ghost start = batch_view(batch@);
        let ghost os = open@.map_values(|p: (String, Vec<R>)| (p.0@, p.1@));
        proof {
            assert(start == old(self).pending());
            assert(os == old(self).open_sessions());
        }
        let n = open.len();
        let mut j: usize = 0;
        while j < n
            invariant
                0 <= j <= n,
                open@.len() == n - j,
                os.len() == n,
                forall|m: int| 0 <= m < open@.len() ==> (#[trigger] open@[m]).0@ == os[m + j as int].0
                    && open@[m].1@ == os[m + j as int].1,
                batch_view(batch@) == start + os.take(j as int).map_values(
                    |p: (Seq<char>, Seq<R>)| (p.0, p.1, extra),
                ),
            decreases n - j,
        {
            let (k, v) = open.remove(0);
            let ghost before = batch_view(batch@);
            batch.push((k, v, extra));
            proof {
                assert(os.take(j + 1) =~= os.take(j as int).push(os[j as int]));
                assert(batch_view(batch@) =~= before.push((os[j as int].0, os[j as int].1, extra)));
                assert(start + os.take(j + 1).map_values(|p: (Seq<char>, Seq<R>)| (p.0, p.1, extra))
                    =~= (start + os.take(j as int).map_values(
                    |p: (Seq<char>, Seq<R>)| (p.0, p.1, extra),
                )).push((os[j as int].0, os[j as int].1, extra)));
            }
            j = j + 1;
        }
        proof {
            assert(os.take(n as int) =~= os);
            assert(self.open_sessions() =~= Seq::<(Seq<char>, Seq<R>)>::empty());
            assert(self.pending() =~= Seq::<(Seq<char>, Seq<R>, E)>::empty());
        }
        batch
    }
}


/// What the collector receives: a decision of a session, the end of a
/// session with what it carries, or the shutdown with what the open
/// sessions are ended with.
#[derive(Debug, Clone)]
pub enum CollectorInput<R, E> {
    Decision(String, R),
    EndSession(String, E),
    Shutdown(E),
}

/// The open sessions, the waiting trajectories, the batch flushed and
/// whether the collector stops, after one input.
pub open spec fn collector_step<R, E>(
    os: Seq<(Seq<char>, Seq<R>)>,
    pending: Seq<(Seq<char>, Seq<R>, E)>,
    batch_size: usize,
    input: CollectorInput<R, E>,
) -> (Seq<(Seq<char>, Seq<R>)>, Seq<(Seq<char>, Seq<R>, E)>, Seq<(Seq<char>, Seq<R>, E)>, bool) {
    match input {
        CollectorInput::Decision(s, d) => (record_step(os, s@, d), pending, seq![], false),
        CollectorInput::EndSession(s, x) => {
            let r = end_step(os, pending, batch_size, s@, x);
            (r.0, r.1, r.2, false)
        },
        CollectorInput::Shutdown(x) => (
            seq![],
            seq![],
            pending + os.map_values(|p: (Seq<char>, Seq<R>)| (p.0, p.1, x)),
            true,
        ),
    }
}

/// A run of inputs, in order, until the shutdown: the open sessions and
/// waiting trajectories at its end, everything flushed, in order, and
/// whether it stopped. Inputs after the shutdown are not read.
pub open spec fn collector_run<R, E>(
    os: Seq<(Seq<char>, Seq<R>)>,
    pending: Seq<(Seq<char>, Seq<R>, E)>,
    batch_size: usize,
    inputs: Seq<CollectorInput<R, E>>,
) -> (Seq<(Seq<char>, Seq<R>)>, Seq<(Seq<char>, Seq<R>, E)>, Seq<(Seq<char>, Seq<R>, E)>, bool)
    decreases inputs.len(),
{
    if inputs.len() == 0 {
        (os, pending, seq![], false)
    } else {
        let first = collector_step(os, pending, batch_size, inputs[0]);
        if first.3 {
            first
        } else {
            let rest = collector_run(first.0, first.1, batch_size, inputs.drop_first());
            (rest.0, rest.1, first.2 + rest.2, rest.3)
        }
    }
}

/// A run that reaches a shutdown stops there with nothing open and nothing
/// waiting; a run without a shutdown never stops.
pub proof fn lemma_run_shutdown<R, E>(
    os: Seq<(Seq<char>, Seq<R>)>,
    pending: Seq<(Seq<char>, Seq<R>, E)>,
    batch_size: usize,
    inputs: Seq<CollectorInput<R, E>>,
)
    ensures
        (exists|i: int| 0 <= i < inputs.len() && #[trigger] inputs[i] is Shutdown) ==> {
            let r = collector_run(os, pending, batch_size, inputs);
            &&& r.3
            &&& r.0.len() == 0
            &&& r.1.len() == 0
        },
        (forall|i: int| 0 <= i < inputs.len() ==> !(#[trigger] inputs[i] is Shutdown)) ==> !collector_run(
            os,
            pending,
            batch_size,
            inputs,
        ).3,
    decreases inputs.len(),
{
    if inputs.len() > 0 {
        let first = collector_step(os, pending, batch_size, inputs[0]);
        lemma_run_shutdown(first.0, first.1, batch_size, inputs.drop_first());
        if exists|i: int| 0 <= i < inputs.len() && #[trigger] inputs[i] is Shutdown {
            if !(inputs[0] is Shutdown) {
                let i = choose|i: int| 0 <= i < inputs.len() && #[trigger] inputs[i] is Shutdown;
                assert(inputs.drop_first()[i - 1] is Shutdown);
            }
        }
        if forall|i: int| 0 <= i < inputs.len() ==> !(#[trigger] inputs[i] is Shutdown) {
            assert(!(inputs[0] is Shutdown));
            assert forall|i: int| 0 <= i < inputs.len() - 1 implies !(#[trigger] inputs.drop_first()[i] is Shutdown) by {
                assert(inputs.drop_first()[i] == inputs[i + 1]);
            }
        }
    }
}

impl<R, E: Copy> CollectorBuffers<R, E> {
    /// Handles one input: a decision is recorded, the end of a session is
    /// handled by `end_session`, and the shutdown by `shutdown`. The batch
    /// to flush, and whether the collector stops (only on shutdown).
    pub fn handle(&mut self, input: CollectorInput<R, E>) -> (r: (Vec<(String, Vec<R>, E)>, bool))
        ensures
            final(self).wf(),
            final(self).batch_size() == old(self).batch_size(),
            (final(self).open_sessions(), final(self).pending(), batch_view(r.0@), r.1)
                == collector_step(old(self).open_sessions(), old(self).pending(), old(self).batch_size(), input),
    {
        match input {
            CollectorInput::Decision(s, d) => {
                self.record(s.as_str(), d);
                proof {
                    assert(batch_view(Seq::<(String, Vec<R>, E)>::empty()) =~= Seq::<(Seq<char>, Seq<R>, E)>::empty());
                }
                (Vec::new(), false)
            },
            CollectorInput::EndSession(s, x) => (self.end_session(s.as_str(), x), false),
            CollectorInput::Shutdown(x) => {
                let b = self.shutdown(x);
                proof {
                    assert(self.open_sessions() =~= Seq::<(Seq<char>, Seq<R>)>::empty());
                    assert(self.pending() =~= Seq::<(Seq<char>, Seq<R>, E)>::empty());
                }
                (b, true)
            },
        }
    }

    /// Handles the inputs in order until the shutdown: everything flushed,
    /// in order, and whether the shutdown came. The whole run is the fold
    /// `collector_run` of the single steps.
    pub fn run_inputs(&mut self, inputs: Vec<CollectorInput<R, E>>) -> (r: (Vec<(String, Vec<R>, E)>, bool))
        ensures
            final(self).wf(),
            final(self).batch_size() == old(self).batch_size(),
            (final(self).open_sessions(), final(self).pending(), batch_view(r.0@), r.1) == collector_run(
                old(self).open_sessions(),
                old(self).pending(),
                old(self).batch_size(),
                inputs@,
            ),
    {
        proof {
            use_type_invariant(&*self);
        }
        let ghost all = inputs@;
        let ghost whole = collector_run(self.open_sessions(), self.pending(), self.batch_size(), all);
        let mut rest = inputs;
        let mut flushed: Vec<(String, Vec<R>, E)> = Vec::new();
        let mut stopped = false;
        let n = rest.len();
        let mut i: usize = 0;
        proof {
            assert(all.skip(0) =~= all);
            assert(batch_view(flushed@) =~= Seq::<(Seq<char>, Seq<R>, E)>::empty());
            let r = collector_run(self.open_sessions(), self.pending(), self.batch_size(), all.skip(0));
            assert(Seq::<(Seq<char>, Seq<R>, E)>::empty() + r.2 =~= r.2);
        }
        while i < n && !stopped
            invariant
                n == all.len(),
                0 <= i <= n,
                rest@ == all.skip(i as int),
                self.wf(),
                self.batch_size() == old(self).batch_size(),
                whole == collector_run(old(self).open_sessions(), old(self).pending(), old(self).batch_size(), all),
                stopped ==> whole == (self.open_sessions(), self.pending(), batch_view(flushed@), true),
                !stopped ==> {
                    let r = collector_run(self.open_sessions(), self.pending(), self.batch_size(), all.skip(i as int));
                    whole == (r.0, r.1, batch_view(flushed@) + r.2, r.3)
                },
            decreases n - i,
        {
            let ghost cur = (self.open_sessions(), self.pending());
            let ghost tail = all.skip(i as int);
            proof {
                assert(rest@[0] == all[i as int]);
                assert(tail[0] == all[i as int]);
                assert(tail.drop_first() =~= all.skip(i + 1));
            }
            let input = rest.remove(0);
            proof {
                assert(rest@ =~= all.skip(i + 1));
            }
            let ghost before_flushed = batch_view(flushed@);
            let (batch, stop) = self.handle(input);
            let ghost bv = batch_view(batch@);
            let mut batch = batch;
            flushed.append(&mut batch);
            proof {
                assert(batch_view(flushed@) =~= before_flushed + bv);
                let first = collector_step(cur.0, cur.1, self.batch_size(), tail[0]);
                if !stop {
                    let r2 = collector_run(self.open_sessions(), self.pending(), self.batch_size(), all.skip(i + 1));
                    assert(before_flushed + (bv + r2.2) =~= (before_flushed + bv) + r2.2);
                }
            }
            stopped = stop;
            i = i + 1;
        }
        proof {
            if !stopped {
                assert(all.skip(i as int).len() == 0);
                let r = collector_run(self.open_sessions(), self.pending(), self.batch_size(), all.skip(i as int));
                assert(batch_view(flushed@) + r.2 =~= batch_view(flushed@));
            }
        }
        (flushed, stopped)
    }
}

/// One decision of a trajectory as it is stored: its position, the
/// milliseconds since the decision before it, and the decision.
#[derive(Debug, Clone)]
pub struct TrajectoryStep<D> {
    pub order: usize,
    pub delta_ms: u64,
    pub decision: D,
}

/// The times of decisions, in milliseconds since the session started.
pub open spec fn step_times<D>(decisions: Seq<(u64, D)>) -> Seq<u64> {
    decisions.map_values(|d: (u64, D)| d.0)
}

/// The steps of a trajectory from its decisions with their times, in
/// order: each at its position, with the time since the decision before
/// it (its own time for the first; never negative). The number of steps is
/// the number of decisions.
pub fn trajectory_steps<D>(decisions: Vec<(u64, D)>) -> (r: Vec<TrajectoryStep<D>>)
    ensures
        r@.len() == decisions@.len(),
        forall|i: int|
            0 <= i < r@.len() ==> {
                &&& (#[trigger] r@[i]).order == i
                &&& r@[i].delta_ms == step_delta(step_times(decisions@), i)
                &&& r@[i].decision == decisions@[i].1
            },
{
    let ghost ds = decisions@;
    let mut times: Vec<u64> = Vec::new();
    let mut k: usize = 0;
    while k < decisions.len()
        invariant
            0 <= k <= decisions@.len(),
            decisions@ == ds,
            times@ == step_times(ds).take(k as int),
        decreases decisions@.len() - k,
    {
        times.push(decisions[k].0);
        proof {
            assert(times@ =~= step_times(ds).take(k + 1));
        }
        k = k + 1;
    }
    proof {
        assert(times@ =~= step_times(ds));
    }
    let deltas = step_deltas(times.as_slice());
    let mut rest = decisions;
    let mut r: Vec<TrajectoryStep<D>> = Vec::new();
    let n = rest.len();
    let mut i: usize = 0;
    while i < n
        invariant
            n == ds.len(),
            0 <= i <= n,
            deltas@.len() == n,
            forall|j: int| 0 <= j < n ==> #[trigger] deltas@[j] == step_delta(step_times(ds), j),
            rest@ == ds.skip(i as int),
            r@.len() == i,
            forall|j: int|
                0 <= j < i ==> {
                    &&& (#[trigger] r@[j]).order == j
                    &&& r@[j].delta_ms == step_delta(step_times(ds), j)
                    &&& r@[j].decision == ds[j].1
                },
        decreases n - i,
    {
        proof {
            assert(rest@[0] == ds[i as int]);
        }
        let (_, decision) = rest.remove(0);
        proof {
            assert(rest@ =~= ds.skip(i + 1));
        }
        r.push(TrajectoryStep { order: i, delta_ms: deltas[i], decision });
        i = i + 1;
    }
    r
}

} // verus!
