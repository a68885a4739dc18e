use knowloop::keyed::KeyedList;
use knowloop::retrospective::cohort::{
    cohort_criteria, cohort_of, tool_share_inputs, ToolUsage, MIN_COHORT_SIZE,
};

fn usage(total: u32, calls: &[(&str, u32)]) -> ToolUsage {
    let mut breakdown = KeyedList::new();
    for (tool, n) in calls {
        breakdown.set(tool, *n);
    }
    ToolUsage { tool_call_count: total, tool_call_breakdown: breakdown }
}

#[test]
fn no_calls_no_inputs() {
    let current = usage(0, &[("Edit", 3)]);
    let cohort = vec![usage(4, &[("Edit", 4)])];
    assert!(tool_share_inputs(&current, &cohort).is_empty());
}

#[test]
fn tools_of_task_then_cohort_each_once() {
    let current = usage(10, &[("Edit", 5), ("Read", 5)]);
    let cohort = vec![
        usage(4, &[("Read", 1), ("Bash", 3)]),
        usage(0, &[("Grep", 0)]),
        usage(8, &[("Edit", 8)]),
    ];
    let r = tool_share_inputs(&current, &cohort);
    let names: Vec<&str> = r.iter().map(|x| x.tool_name.as_str()).collect();
    assert_eq!(names, vec!["Edit", "Read", "Bash", "Grep"]);
    // Edit: 5 calls now; cohort tasks with calls: (0 of 4), (8 of 8).
    assert_eq!(r[0].current_calls, 5);
    assert_eq!(r[0].cohort, vec![(0, 4), (8, 8)]);
    assert_eq!(r[1].current_calls, 5);
    assert_eq!(r[1].cohort, vec![(1, 4), (0, 8)]);
    assert_eq!(r[2].current_calls, 0);
    assert_eq!(r[2].cohort, vec![(3, 4), (0, 8)]);
    // A tool only the call-less cohort task lists still appears.
    assert_eq!(r[3].current_calls, 0);
    assert_eq!(r[3].cohort, vec![(0, 4), (0, 8)]);
}

#[test]
fn empty_cohort_gives_empty_shares() {
    let current = usage(2, &[("Edit", 2)]);
    let r = tool_share_inputs(&current, &[]);
    assert_eq!(r.len(), 1);
    assert_eq!(r[0].tool_name, "Edit");
    assert!(r[0].cohort.is_empty());
}

#[test]
fn cohort_excludes_the_current_task() {
    let candidates: Vec<(u128, &str)> =
        vec![(1, "a"), (7, "self"), (2, "b"), (3, "c"), (4, "d"), (5, "e")];
    assert_eq!(cohort_of(candidates, 7), Some(vec!["a", "b", "c", "d", "e"]));
}

#[test]
fn cohort_too_small_is_no_comparison() {
    assert_eq!(MIN_COHORT_SIZE, 5);
    let candidates: Vec<(u128, u32)> = vec![(1, 10), (2, 20), (3, 30), (4, 40), (9, 90)];
    assert_eq!(cohort_of(candidates, 9), None);
    let empty: Vec<(u128, u32)> = Vec::new();
    assert_eq!(cohort_of(empty, 1), None);
}

#[test]
fn cohort_criteria_names_the_project() {
    assert_eq!(
        cohort_criteria(0x0123_4567_89ab_cdef_0123_4567_89ab_cdef),
        "project:01234567-89ab-cdef-0123-456789abcdef, file_overlap"
    );
}
