use knowloop::heartbeat::{
    find_ratio, homeostasis_step, HomeostasisAction, HomeostasisEvent, HomeostasisStage,
    dead_cli_message, drift_alert, CliHealthCheck, GitDriftCheck, HomeostasisCheck,
    SessionState, DORMANCY_THRESHOLD_PER_MILLE,
};
use knowloop::keyed::KeyedList;
use std::time::Duration;

#[test]
fn test_git_drift_check_name() {
    let check = GitDriftCheck;
    assert_eq!(check.name(), "git_drift");
}

#[test]
fn test_git_drift_check_interval() {
    let check = GitDriftCheck;
    assert_eq!(Duration::from_secs(check.interval()), Duration::from_secs(600));
}

#[test]
fn test_git_drift_check_timeout_override() {
    let check = GitDriftCheck;
    assert_eq!(
        check.timeout_override().map(Duration::from_secs),
        Some(Duration::from_secs(30))
    );
}

#[test]
fn test_homeostasis_check_name() {
    let check = HomeostasisCheck;
    assert_eq!(check.name(), "homeostasis");
}

#[test]
fn test_homeostasis_check_interval_2h() {
    let check = HomeostasisCheck;
    assert_eq!(Duration::from_secs(check.interval()), Duration::from_secs(2 * 3600));
}

#[test]
fn test_dormancy_threshold_is_reasonable() {
    let threshold = DORMANCY_THRESHOLD_PER_MILLE as f64 / 1000.0;
    assert!(threshold > 0.0);
    assert!(threshold <= 0.15);
}

#[test]
fn drift_alert_counts_log_lines() {
    assert_eq!(drift_alert("web", ""), None);
    let (n, msg) = drift_alert("web", "abc123 fix\ndef456 feat\n").unwrap();
    assert_eq!(n, 2);
    assert_eq!(msg, "Project 'web' is 2 commit(s) behind origin/main");
    let (n, _) = drift_alert("api", "a1 one").unwrap();
    assert_eq!(n, 1);
}

#[test]
fn dead_cli_messages() {
    assert_eq!(
        dead_cli_message(true),
        "CLI subprocess exited unexpectedly while streaming. Send a new message to reconnect."
    );
    assert_eq!(
        dead_cli_message(false),
        "CLI subprocess exited unexpectedly. Send a new message to reconnect."
    );
}

#[test]
fn test_cli_health_check_name() {
    let sessions = KeyedList::new();
    let check = CliHealthCheck::new(sessions);
    assert_eq!(check.name(), "cli_health");
}

#[test]
fn test_cli_health_check_interval() {
    let sessions = KeyedList::new();
    let check = CliHealthCheck::new(sessions);
    assert_eq!(Duration::from_secs(check.interval()), Duration::from_secs(30));
}

#[test]
fn cli_health_removes_the_dead_sessions() {
    let mut sessions = KeyedList::new();
    sessions.set("a", SessionState { stdin_closed: Some(true), is_streaming: true });
    sessions.set("b", SessionState { stdin_closed: Some(false), is_streaming: true });
    sessions.set("c", SessionState { stdin_closed: None, is_streaming: false });
    sessions.set("d", SessionState { stdin_closed: Some(true), is_streaming: false });
    let mut check = CliHealthCheck::new(sessions);
    let notices = check.run();
    assert_eq!(notices.len(), 2);
    assert_eq!(notices[0].session_id, "a");
    assert_eq!(
        notices[0].message,
        "CLI subprocess exited unexpectedly while streaming. Send a new message to reconnect."
    );
    assert!(notices[0].stop_streaming);
    assert_eq!(notices[1].session_id, "d");
    assert_eq!(
        notices[1].message,
        "CLI subprocess exited unexpectedly. Send a new message to reconnect."
    );
    assert!(!notices[1].stop_streaming);
    assert_eq!(check.active_sessions.len(), 2);
    assert!(check.active_sessions.get("a").is_none());
    assert!(check.active_sessions.get("b").is_some());
    assert!(check.active_sessions.get("c").is_some());
    assert!(check.active_sessions.get("d").is_none());
    assert!(check.run().is_empty());
}

#[test]
fn homeostasis_steps() {
    assert_eq!(homeostasis_step(HomeostasisStage::AwaitReport, HomeostasisEvent::Report { dormant: true }), (HomeostasisStage::Done, HomeostasisAction::Finish));
    assert_eq!(
        homeostasis_step(HomeostasisStage::AwaitReport, HomeostasisEvent::Report { dormant: false }),
        (HomeostasisStage::AwaitMetrics, HomeostasisAction::FetchMetrics)
    );
    assert_eq!(homeostasis_step(HomeostasisStage::AwaitReport, HomeostasisEvent::ReportFailed), (HomeostasisStage::Done, HomeostasisAction::Finish));
    assert_eq!(homeostasis_step(HomeostasisStage::AwaitMetrics, HomeostasisEvent::Evaluated { actions: 0 }), (HomeostasisStage::Done, HomeostasisAction::Finish));
    assert_eq!(
        homeostasis_step(HomeostasisStage::AwaitMetrics, HomeostasisEvent::Evaluated { actions: 2 }),
        (HomeostasisStage::AwaitExecution, HomeostasisAction::Execute)
    );
    assert_eq!(homeostasis_step(HomeostasisStage::AwaitExecution, HomeostasisEvent::Executed { count: 1 }), (HomeostasisStage::Done, HomeostasisAction::Alert));
    assert_eq!(homeostasis_step(HomeostasisStage::AwaitExecution, HomeostasisEvent::Executed { count: 0 }), (HomeostasisStage::Done, HomeostasisAction::Finish));
    assert_eq!(homeostasis_step(HomeostasisStage::AwaitExecution, HomeostasisEvent::ExecutionFailed), (HomeostasisStage::Done, HomeostasisAction::Finish));
}

#[test]
fn ratio_lookup_takes_the_first() {
    let ratios = vec![
        ("synapse_health".to_string(), 0.5),
        ("note_density".to_string(), 0.25),
        ("synapse_health".to_string(), 0.9),
    ];
    assert_eq!(find_ratio(&ratios, "synapse_health"), Some(0.5));
    assert_eq!(find_ratio(&ratios, "scar_load"), None);
}
