//! The cohort a finished task is compared with, and the counts behind
//! tool-usage anomalies: for each tool that the current task or its cohort
//! used, how often the current task called it, and for each cohort task
//! with calls, how often that task called it out of all its calls.
//!
//! The metric comparisons, the shares, their mean and spread and the
//! z-score that flags an anomaly are floating-point and left to the caller.

use vstd::prelude::*;
use crate::ids::{uuid_text, uuid_to_string};
use crate::keyed::KeyedList;
use crate::text::{eq_str, extend_str, string_of, string_views};

verus! {

/// The fewest other retrospectives a comparison needs.
pub const MIN_COHORT_SIZE: usize = 5;

/// The candidates other than the current retrospective, in order.
pub open spec fn others<T>(candidates: Seq<(u128, T)>, current_id: u128) -> Seq<T> {
    candidates.filter(|c: (u128, T)| c.0 != current_id).map_values(|c: (u128, T)| c.1)
}

/// The cohort of a retrospective among candidates given with their ids:
/// those that are not the retrospective itself, in order, where there are
/// at least `MIN_COHORT_SIZE` of them; otherwise no comparison is made.
pub fn cohort_of<T>(candidates: Vec<(u128, T)>, current_id: u128) -> (r: Option<Vec<T>>)
    ensures
        others(candidates@, current_id).len() >= MIN_COHORT_SIZE ==> (r matches Some(v) && v@
            == others(candidates@, current_id)),
        others(candidates@, current_id).len() < MIN_COHORT_SIZE ==> r is None,
{
    let ghost cs = candidates@;
    let mut rest = candidates;
    let mut kept: Vec<T> = Vec::new();
    let n = rest.len();
    let mut i: usize = 0;
    while i < n
        invariant
            n == cs.len(),
            0 <= i <= n,
            rest@ == cs.skip(i as int),
            kept@ == others(cs.take(i as int), current_id),
        decreases n - i,
    {
        proof {
            assert(cs.take(i + 1).drop_last() =~= cs.take(i as int));
            assert(cs.take(i + 1).last() == cs[i as int]);
            assert(rest@[0] == cs[i as int]);
            reveal(Seq::filter);
        }
        let (id, item) = rest.remove(0);
        proof {
            assert(rest@ =~= cs.skip(i + 1));
        }
        if id != current_id {
            kept.push(item);
            proof {
                assert(kept@ =~= others(cs.take(i + 1), current_id));
            }
        } else {
            proof {
                assert(kept@ =~= others(cs.take(i + 1), current_id));
            }
        }
        i = i + 1;
    }
    proof {
        assert(cs.take(n as int) =~= cs);
    }
    if kept.len() >= MIN_COHORT_SIZE {
        Some(kept)
    } else {
        None
    }
}

/// How the cohort of a project's task was chosen.
pub open spec fn criteria_text(project_id: u128) -> Seq<char> {
    "project:"@ + uuid_text(project_id) + ", file_overlap"@
}

/// How the cohort of a project's task was chosen.
pub fn cohort_criteria(project_id: u128) -> (r: String)
    ensures
        r@ == criteria_text(project_id),
{
    let mut v: Vec<char> = Vec::new();
    extend_str(&mut v, "project:");
    let id = uuid_to_string(project_id);
    extend_str(&mut v, id.as_str());
    extend_str(&mut v, ", file_overlap");
    proof {
        assert(v@ =~= criteria_text(project_id));
    }
    string_of(v.as_slice())
}

/// What anomaly detection reads of a retrospective: its number of tool calls
/// and the calls of each tool.
#[derive(Debug)]
pub struct ToolUsage {
    pub tool_call_count: u32,
    pub tool_call_breakdown: KeyedList<u32>,
}

/// The counts for one tool.
#[derive(Debug, Clone)]
pub struct ToolShareInputs {
    /// The tool.
    pub tool_name: String,
    /// The current task's calls of the tool.
    pub current_calls: u32,
    /// For each cohort task with calls, in order: its calls of the tool and
    /// its calls in all.
    pub cohort: Vec<(u32, u32)>,
}

/// The tools of a retrospective's breakdown, in its order.
pub open spec fn usage_keys(u: ToolUsage) -> Seq<Seq<char>> {
    u.tool_call_breakdown.entries().map_values(|e: (Seq<char>, u32)| e.0)
}

/// The calls of a tool in a retrospective: none where it is not listed.
pub open spec fn calls_of(u: ToolUsage, tool: Seq<char>) -> u32 {
    if u.tool_call_breakdown@.dom().contains(tool) {
        u.tool_call_breakdown@[tool]
    } else {
        0
    }
}

/// The tools of all the cohort's breakdowns, one after the other.
pub open spec fn cohort_keys(cohort: Seq<ToolUsage>) -> Seq<Seq<char>>
    decreases cohort.len(),
{
    if cohort.len() == 0 {
        Seq::empty()
    } else {
        cohort_keys(cohort.drop_last()) + usage_keys(cohort.last())
    }
}

/// Each name once, at its first occurrence.
pub open spec fn first_occurrences(s: Seq<Seq<char>>) -> Seq<Seq<char>>
    decreases s.len(),
{
    if s.len() == 0 {
        Seq::empty()
    } else {
        let d = first_occurrences(s.drop_last());
        if d.contains(s.last()) {
            d
        } else {
            d.push(s.last())
        }
    }
}

/// The tools that the current task or its cohort used, each once: the
/// current task's first, then the cohort's, in the order they first come.
pub open spec fn all_tools(current: ToolUsage, cohort: Seq<ToolUsage>) -> Seq<Seq<char>> {
    first_occurrences(usage_keys(current) + cohort_keys(cohort))
}

/// For each cohort task with calls: its calls of the tool and in all.
pub open spec fn cohort_shares(cohort: Seq<ToolUsage>, tool: Seq<char>) -> Seq<(u32, u32)> {
    cohort.filter(|u: ToolUsage| u.tool_call_count > 0).map_values(
        |u: ToolUsage| (calls_of(u, tool), u.tool_call_count),
    )
}

/// Appends the tools of a breakdown to `keys`.
fn push_keys(keys: &mut Vec<String>, u: &ToolUsage)
    ensures
        string_views(final(keys)@) == string_views(old(keys)@) + usage_keys(*u),
{
    let n = u.tool_call_breakdown.len();
    let ghost start = string_views(keys@);
    let mut j: usize = 0;
    while j < n
        invariant
            n == u.tool_call_breakdown.entries().len(),
            0 <= j <= n,
            string_views(keys@) == start + usage_keys(*u).take(j as int),
        decreases n - j,
    {
        let (k, _) = u.tool_call_breakdown.entry(j);
        let ghost before = string_views(keys@);
        keys.push(k.clone());
        proof {
            assert(string_views(keys@) =~= before.push(k@));
            assert(usage_keys(*u)[j as int] == k@);
            assert(usage_keys(*u).take(j + 1) =~= usage_keys(*u).take(j as int).push(k@));
            assert(string_views(keys@) =~= start + usage_keys(*u).take(j + 1));
        }
        j = j + 1;
    }
    proof {
        assert(usage_keys(*u).take(n as int) =~= usage_keys(*u));
    }
}

/// Whether `name` is among `names`.
fn listed(names: &Vec<String>, name: &str) -> (b: bool)
    ensures
        b == string_views(names@).contains(name@),
{
    let mut i: usize = 0;
    while i < names.len()
        invariant
            0 <= i <= names@.len(),
            forall|j: int| 0 <= j < i ==> #[trigger] names@[j]@ != name@,
        decreases names@.len() - i,
    {
        if eq_str(names[i].as_str(), name) {
            proof {
                assert(string_views(names@)[i as int] == name@);
            }
            return true;
        }
        i = i + 1;
    }
    proof {
        if string_views(names@).contains(name@) {
            let j = choose|j: int| 0 <= j < names@.len() && string_views(names@)[j] == name@;
            assert(names@[j]@ == name@);
        }
    }
    false
}

/// The calls of `tool` in a retrospective.
fn calls_in(u: &ToolUsage, tool: &str) -> (r: u32)
    ensures
        r == calls_of(*u, tool@),
{
    match u.tool_call_breakdown.get(tool) {
        Some(c) => *c,
        None => 0,
    }
}

/// The counts of one tool over the cohort's tasks with calls.
fn shares_in(cohort: &[ToolUsage], tool: &str) -> (r: Vec<(u32, u32)>)
    ensures
        r@ == cohort_shares(cohort@, tool@),
{
    let ghost with_calls = |u: ToolUsage| u.tool_call_count > 0;
    let ghost pair = |u: ToolUsage| (calls_of(u, tool@), u.tool_call_count);
    let mut r: Vec<(u32, u32)> = Vec::new();
    let mut i: usize = 0;
    while i < cohort.len()
        invariant
            0 <= i <= cohort@.len(),
            with_calls == (|u: ToolUsage| u.tool_call_count > 0),
            pair == (|u: ToolUsage| (calls_of(u, tool@), u.tool_call_count)),
            r@ == cohort@.take(i as int).filter(with_calls).map_values(pair),
        decreases cohort@.len() - i,
    {
        let ghost before = r@;
        proof {
            assert(cohort@.take(i + 1).drop_last() =~= cohort@.take(i as int));
            assert(cohort@.take(i + 1).last() == cohort@[i as int]);
            reveal(Seq::filter);
        }
        let u = &cohort[i];
        if u.tool_call_count > 0 {
            let c = calls_in(u, tool);
            r.push((c, u.tool_call_count));
            proof {
                assert(cohort@.take(i + 1).filter(with_calls) == cohort@.take(i as int).filter(
                    with_calls,
                ).push(cohort@[i as int]));
                assert(r@ =~= cohort@.take(i + 1).filter(with_calls).map_values(pair));
            }
        } else {
            proof {
                assert(cohort@.take(i + 1).filter(with_calls) == cohort@.take(i as int).filter(
                    with_calls,
                ));
            }
        }
        i = i + 1;
    }
    proof {
        assert(cohort@.take(i as int) =~= cohort@);
    }
    r
}

/// The counts behind the anomaly check of the current task against its
/// cohort: nothing where the current task made no call; otherwise one entry
/// per tool that the task or the cohort used, in the order of
/// `all_tools`, with the task's calls of it and the cohort's shares.
pub fn tool_share_inputs(current: &ToolUsage, cohort: &[ToolUsage]) -> (r: Vec<ToolShareInputs>)
    ensures
        current.tool_call_count == 0 ==> r@.len() == 0,
        current.tool_call_count > 0 ==> {
            let tools = all_tools(*current, cohort@);
            &&& r@.len() == tools.len()
            &&& forall|j: int|
                0 <= j < tools.len() ==> {
                    &&& (#[trigger] r@[j]).tool_name@ == tools[j]
                    &&& r@[j].current_calls == calls_of(*current, tools[j])
                    &&& r@[j].cohort@ == cohort_shares(cohort@, tools[j])
                }
        },
{
    if current.tool_call_count == 0 {
        return Vec::new();
    }
    let mut keys: Vec<String> = Vec::new();
    push_keys(&mut keys, current);
    let mut i: usize = 0;
    while i < cohort.len()
        invariant
            0 <= i <= cohort@.len(),
            string_views(keys@) == usage_keys(*current) + cohort_keys(cohort@.take(i as int)),
        decreases cohort@.len() - i,
    {
        proof {
            assert(cohort@.take(i + 1).drop_last() =~= cohort@.take(i as int));
            assert(cohort@.take(i + 1).last() == cohort@[i as int]);
        }
        push_keys(&mut keys, &cohort[i]);
        proof {
            assert(string_views(keys@) =~= usage_keys(*current) + cohort_keys(cohort@.take(i + 1)));
        }
        i = i + 1;
    }
    proof {
        assert(cohort@.take(i as int) =~= cohort@);
    }
    let ghost ks = string_views(keys@);
    let mut names: Vec<String> = Vec::new();
    let mut k: usize = 0;
    while k < keys.len()
        invariant
            0 <= k <= keys@.len(),
            ks == string_views(keys@),
            string_views(names@) == first_occurrences(ks.take(k as int)),
        decreases keys@.len() - k,
    {
        proof {
            assert(ks.take(k + 1).drop_last() =~= ks.take(k as int));
            assert(ks.take(k + 1).last() == ks[k as int]);
        }
        if !listed(&names, keys[k].as_str()) {
            names.push(keys[k].clone());
            proof {
                assert(string_views(names@) =~= first_occurrences(ks.take(k as int)).push(ks[k as int]));
            }
        }
        k = k + 1;
    }
    proof {
        assert(ks.take(k as int) =~= ks);
    }
    let ghost tools = all_tools(*current, cohort@);
    let mut r: Vec<ToolShareInputs> = Vec::new();
    let mut t: usize = 0;
    while t < names.len()
        invariant
            0 <= t <= names@.len(),
            string_views(names@) == tools,
            tools == all_tools(*current, cohort@),
            r@.len() == t,
            forall|j: int|
                0 <= j < t ==> {
                    &&& (#[trigger] r@[j]).tool_name@ == tools[j]
                    &&& r@[j].current_calls == calls_of(*current, tools[j])
                    &&& r@[j].cohort@ == cohort_shares(cohort@, tools[j])
                },
        decreases names@.len() - t,
    {
        let name = names[t].as_str();
        proof {
            assert(tools[t as int] == name@);
        }
        let current_calls = calls_in(current, name);
        let shares = shares_in(cohort, name);
        r.push(ToolShareInputs { tool_name: names[t].clone(), current_calls, cohort: shares });
        t = t + 1;
    }
    r
}

} // verus!
