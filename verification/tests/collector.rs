use knowloop::collector::{trajectory_steps, CollectorBuffers, CollectorInput};

#[test]
fn sessions_flush_in_batches() {
    let mut b: CollectorBuffers<u32, i64> = CollectorBuffers::new(2);
    b.record("s1", 1);
    b.record("s2", 10);
    b.record("s1", 2);
    assert!(b.end_session("unknown", 0).is_empty());
    assert!(b.end_session("s1", 5).is_empty());
    let batch = b.end_session("s2", 7);
    assert_eq!(batch.len(), 2);
    assert_eq!(batch[0], ("s1".to_string(), vec![1, 2], 5));
    assert_eq!(batch[1], ("s2".to_string(), vec![10], 7));
    assert_eq!(b.buffer_size(), 2);
}

#[test]
fn shutdown_ends_open_sessions() {
    let mut b: CollectorBuffers<u32, i64> = CollectorBuffers::new(10);
    b.record("a", 1);
    assert!(b.end_session("a", 3).is_empty());
    b.record("b", 2);
    b.record("c", 3);
    let batch = b.shutdown(0);
    assert_eq!(
        batch,
        vec![
            ("a".to_string(), vec![1], 3),
            ("b".to_string(), vec![2], 0),
            ("c".to_string(), vec![3], 0)
        ]
    );
    assert!(b.shutdown(0).is_empty());
}

#[test]
fn test_build_trajectory() {
    let steps = trajectory_steps(vec![(0u64, "code.search"), (50, "note.get_context"), (150, "code.analyze_impact")]);
    assert_eq!(steps.len(), 3);
    assert_eq!(steps[0].order, 0);
    assert_eq!(steps[1].order, 1);
    assert_eq!(steps[2].order, 2);
    assert_eq!(steps[0].delta_ms, 0);
    assert_eq!(steps[1].delta_ms, 50);
    assert_eq!(steps[2].delta_ms, 100);
    assert_eq!(steps[0].decision, "code.search");
}

#[test]
fn test_build_trajectory_empty() {
    let steps = trajectory_steps::<&str>(vec![]);
    assert_eq!(steps.len(), 0);
}

#[test]
fn trajectory_steps_order_and_deltas() {
    let steps = trajectory_steps(vec![(0u64, "search"), (50, "context"), (150, "impact"), (120, "late")]);
    assert_eq!(steps.len(), 4);
    let orders: Vec<usize> = steps.iter().map(|s| s.order).collect();
    let deltas: Vec<u64> = steps.iter().map(|s| s.delta_ms).collect();
    assert_eq!(orders, vec![0, 1, 2, 3]);
    assert_eq!(deltas, vec![0, 50, 100, 0]);
    assert_eq!(steps[2].decision, "impact");
    assert!(trajectory_steps::<u8>(Vec::new()).is_empty());
}

#[test]
fn a_run_flushes_everything_by_shutdown() {
    let mut b: CollectorBuffers<u32, i64> = CollectorBuffers::new(2);
    let inputs = vec![
        CollectorInput::Decision("s1".to_string(), 1),
        CollectorInput::Decision("s2".to_string(), 2),
        CollectorInput::Decision("s1".to_string(), 3),
        CollectorInput::EndSession("s1".to_string(), 10),
        CollectorInput::EndSession("nope".to_string(), 99),
        CollectorInput::Shutdown(0),
        CollectorInput::Decision("late".to_string(), 4),
    ];
    let (flushed, stopped) = b.run_inputs(inputs);
    assert!(stopped);
    assert_eq!(flushed.len(), 2);
    assert_eq!(flushed[0], ("s1".to_string(), vec![1, 3], 10));
    assert_eq!(flushed[1], ("s2".to_string(), vec![2], 0));
    let (again, stopped) = b.run_inputs(vec![]);
    assert!(again.is_empty() && !stopped);
}
