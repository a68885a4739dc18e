//! The heuristic reward proxy used during tree-search simulation: the prior
//! of each action type, the bonus of the trajectory phase, and the
//! reproducible noise bucket of an action type.
//!
//! The proxy's reward is a product of these with floating-point rewards; the
//! integer parts are kept here exactly (priors in hundredths, multipliers in
//! tenths), and the caller multiplies.

use vstd::prelude::*;
use crate::text::{chars_of, contains, contains_str, eq_str};

verus! {

/// Where a decision stands in its trajectory.
#[derive(Debug, Clone, Copy, PartialEq, Eq, Structural)]
pub enum TrajectoryPhase {
    /// More than half of the steps remain.
    Early,
    /// More than a quarter, and at most half, of the steps remain.
    Mid,
    /// At most a quarter of the steps remain.
    Late,
}

/// The phase of a decision with `remaining` steps after it: the share of
/// steps that remain is `remaining / (remaining + 1)`, compared with one
/// half and one quarter.
pub open spec fn phase_of(remaining: nat) -> TrajectoryPhase {
    if 2 * remaining > remaining + 1 {
        TrajectoryPhase::Early
    } else if 4 * remaining > remaining + 1 {
        TrajectoryPhase::Mid
    } else {
        TrajectoryPhase::Late
    }
}

/// The phase of a decision with `remaining_steps` steps after it.
pub fn trajectory_phase(remaining_steps: usize) -> (p: TrajectoryPhase)
    ensures
        p == phase_of(remaining_steps as nat),
{
    if remaining_steps >= 2 {
        TrajectoryPhase::Early
    } else if remaining_steps == 1 {
        TrajectoryPhase::Mid
    } else {
        TrajectoryPhase::Late
    }
}

/// The prior reward weight of an action type, in hundredths: high for the
/// exploration, context and analysis tools, 40 for an unknown action.
pub open spec fn action_prior(a: Seq<char>) -> nat {
    if a == "code.search"@ || a == "code.search_project"@ {
        70
    } else if a == "code.find_references"@ {
        65
    } else if a == "code.get_call_graph"@ {
        60
    } else if a == "note.get_context"@ || a == "note.get_propagated"@ {
        75
    } else if a == "note.search_semantic"@ {
        70
    } else if a == "decision.search_semantic"@ {
        65
    } else if a == "code.analyze_impact"@ {
        80
    } else if a == "code.get_health"@ {
        55
    } else if a == "code.get_architecture"@ {
        50
    } else if a == "skill.activate"@ {
        60
    } else if a == "protocol.route"@ {
        55
    } else if a == "code.get_file_symbols"@ {
        45
    } else if a == "code.get_file_dependencies"@ {
        50
    } else {
        40
    }
}

/// The prior reward weight of an action type, in hundredths.
pub fn action_prior_percent(action_type: &str) -> (r: u64)
    ensures
        r == action_prior(action_type@),
{
    if eq_str(action_type, "code.search") || eq_str(action_type, "code.search_project") {
        70
    } else if eq_str(action_type, "code.find_references") {
        65
    } else if eq_str(action_type, "code.get_call_graph") {
        60
    } else if eq_str(action_type, "note.get_context") || eq_str(action_type, "note.get_propagated") {
        75
    } else if eq_str(action_type, "note.search_semantic") {
        70
    } else if eq_str(action_type, "decision.search_semantic") {
        65
    } else if eq_str(action_type, "code.analyze_impact") {
        80
    } else if eq_str(action_type, "code.get_health") {
        55
    } else if eq_str(action_type, "code.get_architecture") {
        50
    } else if eq_str(action_type, "skill.activate") {
        60
    } else if eq_str(action_type, "protocol.route") {
        55
    } else if eq_str(action_type, "code.get_file_symbols") {
        45
    } else if eq_str(action_type, "code.get_file_dependencies") {
        50
    } else {
        40
    }
}

/// An exploration action: a search, a reference lookup or the architecture.
pub open spec fn is_exploration(a: Seq<char>) -> bool {
    contains(a, "search"@) || contains(a, "find_references"@) || contains(a, "get_architecture"@)
}

/// A context action: a note context, a propagation or an activation.
pub open spec fn is_context(a: Seq<char>) -> bool {
    contains(a, "get_context"@) || contains(a, "get_propagated"@) || contains(a, "activate"@)
}

/// An impact action: an impact analysis, a health report or a call graph.
pub open spec fn is_impact(a: Seq<char>) -> bool {
    contains(a, "analyze_impact"@) || contains(a, "get_health"@) || contains(a, "get_call_graph"@)
}

/// The phase bonus of an action, in tenths, between 7 and 14: early on
/// exploration gains, in the middle context, and late impact analysis.
pub open spec fn phase_bonus(a: Seq<char>, phase: TrajectoryPhase) -> nat {
    match phase {
        TrajectoryPhase::Early => if is_exploration(a) {
            13
        } else if is_context(a) {
            10
        } else {
            8
        },
        TrajectoryPhase::Mid => if is_context(a) {
            13
        } else if is_exploration(a) {
            10
        } else if is_impact(a) {
            11
        } else {
            9
        },
        TrajectoryPhase::Late => if is_impact(a) {
            14
        } else if is_context(a) {
            11
        } else {
            7
        },
    }
}

/// The phase bonus of an action, in tenths.
pub fn phase_multiplier_tenths(action_type: &str, phase: TrajectoryPhase) -> (r: u64)
    ensures
        r == phase_bonus(action_type@, phase),
        7 <= r <= 14,
        phase is Late && (contains(action_type@, "analyze_impact"@) || contains(
            action_type@,
            "get_health"@,
        ) || contains(action_type@, "get_call_graph"@)) ==> r == 14,
{
    let a = chars_of(action_type);
    let s = a.as_slice();
    let exploration = contains_str(s, "search") || contains_str(s, "find_references")
        || contains_str(s, "get_architecture");
    let context = contains_str(s, "get_context") || contains_str(s, "get_propagated")
        || contains_str(s, "activate");
    let impact = contains_str(s, "analyze_impact") || contains_str(s, "get_health")
        || contains_str(s, "get_call_graph");
    match phase {
        TrajectoryPhase::Early => if exploration {
            13
        } else if context {
            10
        } else {
            8
        },
        TrajectoryPhase::Mid => if context {
            13
        } else if exploration {
            10
        } else if impact {
            11
        } else {
            9
        },
        TrajectoryPhase::Late => if impact {
            14
        } else if context {
            11
        } else {
            7
        },
    }
}

/// How the phase bonus ranks the kinds of action. Early on, an exploration
/// (`search`, `find_references`, `get_architecture`) gets 13, else a context
/// action (`get_context`, `get_propagated`, `activate`) 10, else 8. In the
/// middle, a context action gets 13, else an exploration 10, else an impact
/// action (`analyze_impact`, `get_health`, `get_call_graph`) 11, else 9.
/// Late, an impact action gets 14, else a context action 11, else 7.
pub proof fn lemma_phase_bonus_by_kind(a: Seq<char>)
    ensures
        ({
            let exploration = contains(a, "search"@) || contains(a, "find_references"@) || contains(
                a,
                "get_architecture"@,
            );
            let context = contains(a, "get_context"@) || contains(a, "get_propagated"@) || contains(
                a,
                "activate"@,
            );
            let impact = contains(a, "analyze_impact"@) || contains(a, "get_health"@) || contains(
                a,
                "get_call_graph"@,
            );
            &&& phase_bonus(a, TrajectoryPhase::Early) == if exploration {
                13nat
            } else if context {
                10nat
            } else {
                8nat
            }
            &&& phase_bonus(a, TrajectoryPhase::Mid) == if context {
                13nat
            } else if exploration {
                10nat
            } else if impact {
                11nat
            } else {
                9nat
            }
            &&& phase_bonus(a, TrajectoryPhase::Late) == if impact {
                14nat
            } else if context {
                11nat
            } else {
                7nat
            }
        }),
{
}

/// A call-graph action is an impact action: late it gets the impact bonus
/// 14, and in the middle, unless it is also a context action or an
/// exploration, the impact bonus 11.
pub proof fn lemma_call_graph_is_impact(a: Seq<char>)
    requires
        contains(a, "get_call_graph"@),
    ensures
        phase_bonus(a, TrajectoryPhase::Late) == 14,
        !is_context(a) && !is_exploration(a) ==> phase_bonus(a, TrajectoryPhase::Mid) == 11,
{
}

/// The hash of a byte string: each byte added to 31 times the hash so far,
/// both wrapping at 64 bits, from 0.
pub open spec fn action_hash(bytes: Seq<u8>) -> u64
    decreases bytes.len(),
{
    if bytes.len() == 0 {
        0
    } else {
        vstd::wrapping::u64_specs::wrapping_add(
            vstd::wrapping::u64_specs::wrapping_mul(action_hash(bytes.drop_last()), 31),
            bytes.last() as u64,
        )
    }
}

/// The noise bucket of an action type, in `0..1000`: the hash of its UTF-8
/// bytes modulo 1000. The same action type always falls in the same bucket.
pub fn noise_bucket(action_type: &str) -> (r: u64)
    ensures
        r == action_hash(vstd::utf8::encode_utf8(action_type@)) % 1000,
        r < 1000,
{
    let bytes = action_type.as_bytes();
    let mut hash: u64 = 0;
    let mut i: usize = 0;
    while i < bytes.len()
        invariant
            0 <= i <= bytes@.len(),
            bytes@ == vstd::utf8::encode_utf8(action_type@),
            hash == action_hash(bytes@.take(i as int)),
        decreases bytes@.len() - i,
    {
        proof {
            assert(bytes@.take(i + 1).drop_last() =~= bytes@.take(i as int));
        }
        hash = hash.wrapping_mul(31).wrapping_add(bytes[i] as u64);
        i = i + 1;
    }
    proof {
        assert(bytes@.take(i as int) =~= bytes@);
    }
    hash % 1000
}

} // verus!
