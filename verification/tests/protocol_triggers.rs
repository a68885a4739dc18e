use knowloop::ids::Timestamp;
use knowloop::protocol::{
    mark_triggered, protocols_to_trigger, should_trigger_protocol, triggered_by, ProtocolTrigger,
    TriggerMode,
};

fn protocol(mode: TriggerMode, events: &[&str], last: Option<i64>) -> ProtocolTrigger {
    ProtocolTrigger {
        trigger_mode: mode,
        events: Some(events.iter().map(|s| s.to_string()).collect()),
        last_triggered_at: last.map(|secs| Timestamp { secs, nanos: 0 }),
    }
}

fn at(secs: i64) -> Timestamp {
    Timestamp { secs, nanos: 0 }
}

#[test]
fn event_and_auto_modes_listen() {
    assert!(should_trigger_protocol(&protocol(TriggerMode::Event, &["post_sync"], None), "post_sync", at(1000)));
    assert!(should_trigger_protocol(&protocol(TriggerMode::Auto, &["post_sync", "post_import"], None), "post_sync", at(1000)));
    assert!(!should_trigger_protocol(&protocol(TriggerMode::Manual, &["post_sync"], None), "post_sync", at(1000)));
    assert!(!should_trigger_protocol(&protocol(TriggerMode::Scheduled, &["post_sync"], None), "post_sync", at(1000)));
}

#[test]
fn wrong_event_is_ignored() {
    assert!(!should_trigger_protocol(&protocol(TriggerMode::Event, &["post_import"], None), "post_sync", at(1000)));
    let none = ProtocolTrigger { trigger_mode: TriggerMode::Event, events: None, last_triggered_at: None };
    assert!(!should_trigger_protocol(&none, "post_sync", at(1000)));
}

#[test]
fn debounce_window() {
    // one minute ago: debounced
    assert!(!should_trigger_protocol(&protocol(TriggerMode::Event, &["post_sync"], Some(940)), "post_sync", at(1000)));
    // ten minutes ago: triggers
    assert!(should_trigger_protocol(&protocol(TriggerMode::Event, &["post_sync"], Some(400)), "post_sync", at(1000)));
    // exactly five minutes: triggers
    assert!(should_trigger_protocol(&protocol(TriggerMode::Event, &["post_sync"], Some(700)), "post_sync", at(1000)));
    // just under five minutes, by nanoseconds
    let p = ProtocolTrigger {
        trigger_mode: TriggerMode::Event,
        events: Some(vec!["post_sync".to_string()]),
        last_triggered_at: Some(Timestamp { secs: 700, nanos: 1 }),
    };
    assert!(!should_trigger_protocol(&p, "post_sync", at(1000)));
}

#[test]
fn marking_debounces_and_selection() {
    let mut p = protocol(TriggerMode::Event, &["post_sync"], None);
    mark_triggered(&mut p, at(1000));
    assert!(!should_trigger_protocol(&p, "post_sync", at(1000)));
    let ps = vec![
        protocol(TriggerMode::Event, &["post_sync"], None),
        protocol(TriggerMode::Manual, &["post_sync"], None),
        protocol(TriggerMode::Auto, &["post_sync"], Some(10)),
        p,
    ];
    assert_eq!(protocols_to_trigger(&ps, "post_sync", at(1000)), vec![0, 2]);
    assert!(protocols_to_trigger(&[], "post_sync", at(1000)).is_empty());
    assert_eq!(triggered_by("post_sync"), "event:post_sync");
}
