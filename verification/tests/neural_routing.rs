use knowloop::neural_routing::check_vector_dimension;
use knowloop::neural_routing::{cpu_guard_step, GuardTransition};
use knowloop::neural_routing::{status_response, TrajectoryListResponse};
use knowloop::neural_routing::{check_embedding_dim, get_store, similar_top_k, trajectory_page_limit};
use knowloop::neural_routing::{apply_update, RoutingSettings, SettingsUpdate};
use knowloop::neural_routing::{route_plan, step_deltas, RoutePlan};
use knowloop::neural_routing::{
    default_buffer_size, default_mode, default_poll_interval_secs, default_timeout_ms,
    default_true, parse_mode, set_mode, toggle_response, CollectionConfig, InferenceConfig,
    NeuralRoutingError, RoutingMode, SetModeRequest,
};

#[test]
fn defaults() {
    let inference = InferenceConfig::default();
    assert_eq!(inference.timeout_ms, 15);
    assert!(inference.nn_fallback);
    let collection = CollectionConfig::default();
    assert!(collection.enabled);
    assert_eq!(collection.buffer_size, 50);
    assert!(default_true());
    assert_eq!(default_mode(), RoutingMode::NN);
    assert_eq!(default_timeout_ms(), 15);
    assert_eq!(default_buffer_size(), 50);
    assert_eq!(default_poll_interval_secs(), 2);
}

#[test]
fn mode_names() {
    assert_eq!(parse_mode("nn"), Ok(RoutingMode::NN));
    assert_eq!(parse_mode("full"), Ok(RoutingMode::Full));
    assert_eq!(
        parse_mode("NN"),
        Err("Invalid mode 'NN': expected 'nn' or 'full'".to_string())
    );
    let (m, r) = set_mode(&SetModeRequest { mode: "full".to_string() }).unwrap();
    assert_eq!(m, RoutingMode::Full);
    assert!(r.ok);
    assert_eq!(r.message, "Neural routing mode set to 'full'");
    assert!(set_mode(&SetModeRequest { mode: "fast".to_string() }).is_err());
}

#[test]
fn toggles_and_errors() {
    assert_eq!(toggle_response(true).message, "Neural routing enabled");
    assert_eq!(toggle_response(false).message, "Neural routing disabled");
    assert_eq!(
        NeuralRoutingError::TrajectoryNotFound("t1".to_string()).message(),
        "Trajectory not found: t1"
    );
    assert_eq!(
        NeuralRoutingError::Config("bad".to_string()).message(),
        "Configuration error: bad"
    );
}

#[test]
fn routing_plans_and_deltas() {
    let inf = InferenceConfig::default();
    assert_eq!(route_plan(false, RoutingMode::Full, &inf), RoutePlan::Disabled);
    assert_eq!(route_plan(true, RoutingMode::NN, &inf), RoutePlan::NearestNeighbour);
    assert_eq!(route_plan(true, RoutingMode::Full, &inf), RoutePlan::NearestNeighbourWithin(15));
    assert_eq!(step_deltas(&[100, 150, 140, 300]), vec![100, 50, 0, 160]);
    assert!(step_deltas(&[]).is_empty());
}

fn settings() -> RoutingSettings {
    RoutingSettings {
        enabled: true,
        mode: RoutingMode::NN,
        inference: InferenceConfig::default(),
        collection: CollectionConfig::default(),
        nn_top_k: 5,
        nn_max_route_age_days: 30,
    }
}

fn no_change() -> SettingsUpdate {
    SettingsUpdate {
        enabled: None,
        mode: None,
        inference_timeout_ms: None,
        nn_fallback: None,
        collection_enabled: None,
        collection_buffer_size: None,
        nn_top_k: None,
        nn_max_route_age_days: None,
    }
}

#[test]
fn partial_updates() {
    let mut s = settings();
    let mut u = no_change();
    u.mode = Some("full".to_string());
    u.nn_top_k = Some(10);
    u.collection_buffer_size = Some(100);
    let r = apply_update(&mut s, &u).unwrap();
    assert!(r.ok);
    assert_eq!(r.message, "Neural routing configuration updated");
    assert_eq!(s.mode, RoutingMode::Full);
    assert_eq!(s.nn_top_k, 10);
    assert_eq!(s.collection.buffer_size, 100);
    assert_eq!(s.inference.timeout_ms, 15);
    assert!(s.enabled);
}

#[test]
fn invalid_mode_changes_nothing() {
    let mut s = settings();
    let mut u = no_change();
    u.enabled = Some(false);
    u.mode = Some("turbo".to_string());
    let e = apply_update(&mut s, &u).unwrap_err();
    assert_eq!(e, "Invalid mode 'turbo': expected 'nn' or 'full'");
    assert!(s.enabled);
    assert_eq!(s.mode, RoutingMode::NN);
}

#[test]
fn trajectory_endpoint_rules() {
    assert_eq!(get_store(Some(3)), Ok(3));
    assert_eq!(
        get_store::<u8>(None),
        Err("Trajectory store not available (neural routing may be disabled)".to_string())
    );
    assert_eq!(trajectory_page_limit(None), 50);
    assert_eq!(trajectory_page_limit(Some(500)), 200);
    assert_eq!(similar_top_k(None), 10);
    assert_eq!(similar_top_k(Some(7)), 7);
    assert_eq!(similar_top_k(Some(1000)), 100);
    assert_eq!(check_embedding_dim(256), Ok(()));
    assert_eq!(check_embedding_dim(3), Err("Embedding must be 256d, got 3d".to_string()));
}

#[test]
fn status_and_listing_replies() {
    let r = status_response(&settings(), true, 42u8);
    assert!(r.enabled);
    assert_eq!(r.mode, "nn");
    assert!(r.cpu_guard_paused);
    assert_eq!(r.metrics, 42);
    let l = TrajectoryListResponse::new(vec!["a", "b"]);
    assert_eq!(l.count, 2);
}

#[test]
fn cpu_guard_pauses_and_resumes_with_hysteresis() {
    // Running, usage above the pause threshold: pause.
    assert_eq!(cpu_guard_step(false, true, false), (true, GuardTransition::Pause));
    // Paused, usage between the thresholds: stay paused.
    assert_eq!(cpu_guard_step(true, false, false), (true, GuardTransition::Stay));
    // Paused, still above the pause threshold: stay paused.
    assert_eq!(cpu_guard_step(true, true, false), (true, GuardTransition::Stay));
    // Paused, usage below the resume threshold: resume.
    assert_eq!(cpu_guard_step(true, false, true), (false, GuardTransition::Resume));
    // Running, usage low: stay running.
    assert_eq!(cpu_guard_step(false, false, true), (false, GuardTransition::Stay));
    assert_eq!(cpu_guard_step(false, false, false), (false, GuardTransition::Stay));
}

#[test]
fn vector_dimension_is_checked() {
    assert!(check_vector_dimension(256).is_ok());
    match check_vector_dimension(128) {
        Err(NeuralRoutingError::InvalidVector(m)) => {
            assert_eq!(m, "expected 256 dimensions, got 128")
        }
        other => panic!("unexpected {:?}", other),
    }
    match check_vector_dimension(0) {
        Err(e) => assert_eq!(e.message(), "Invalid decision vector: expected 256 dimensions, got 0"),
        Ok(()) => panic!("an empty vector passed"),
    }
}
