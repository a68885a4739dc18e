use knowloop::reward_proxy::{
    action_prior_percent, noise_bucket, phase_multiplier_tenths, trajectory_phase,
    TrajectoryPhase,
};

#[test]
fn phase_follows_the_remaining_share() {
    assert_eq!(trajectory_phase(8), TrajectoryPhase::Early);
    assert_eq!(trajectory_phase(2), TrajectoryPhase::Early);
    assert_eq!(trajectory_phase(1), TrajectoryPhase::Mid);
    assert_eq!(trajectory_phase(0), TrajectoryPhase::Late);
    assert_eq!(trajectory_phase(usize::MAX), TrajectoryPhase::Early);
}

#[test]
fn priors_of_known_and_unknown_actions() {
    assert_eq!(action_prior_percent("code.search"), 70);
    assert_eq!(action_prior_percent("code.search_project"), 70);
    assert_eq!(action_prior_percent("note.get_propagated"), 75);
    assert_eq!(action_prior_percent("code.analyze_impact"), 80);
    assert_eq!(action_prior_percent("code.get_file_symbols"), 45);
    assert_eq!(action_prior_percent("unknown.action"), 40);
    assert_eq!(action_prior_percent(""), 40);
    assert!(action_prior_percent("code.analyze_impact") > action_prior_percent("code.get_file_symbols"));
}

#[test]
fn phase_bonus_by_kind() {
    assert_eq!(phase_multiplier_tenths("code.search", TrajectoryPhase::Early), 13);
    assert_eq!(phase_multiplier_tenths("code.analyze_impact", TrajectoryPhase::Early), 8);
    assert_eq!(phase_multiplier_tenths("skill.activate", TrajectoryPhase::Early), 10);
    assert_eq!(phase_multiplier_tenths("note.get_context", TrajectoryPhase::Mid), 13);
    assert_eq!(phase_multiplier_tenths("code.search", TrajectoryPhase::Mid), 10);
    assert_eq!(phase_multiplier_tenths("code.analyze_impact", TrajectoryPhase::Mid), 11);
    assert_eq!(phase_multiplier_tenths("protocol.route", TrajectoryPhase::Mid), 9);
    assert_eq!(phase_multiplier_tenths("code.get_health", TrajectoryPhase::Late), 14);
    assert_eq!(phase_multiplier_tenths("note.get_context", TrajectoryPhase::Late), 11);
    assert_eq!(phase_multiplier_tenths("code.search", TrajectoryPhase::Late), 7);
}

#[test]
fn search_gains_early_and_impact_late() {
    let ratio = |remaining: usize| {
        let p = trajectory_phase(remaining);
        let search = action_prior_percent("code.search") as f64
            * phase_multiplier_tenths("code.search", p) as f64;
        let impact = action_prior_percent("code.analyze_impact") as f64
            * phase_multiplier_tenths("code.analyze_impact", p) as f64;
        search / impact
    };
    assert!(ratio(8) > ratio(1));
}

#[test]
fn noise_bucket_is_reproducible() {
    assert_eq!(noise_bucket("code.search"), 857);
    assert_eq!(noise_bucket("code.search"), noise_bucket("code.search"));
    assert_eq!(noise_bucket("code.analyze_impact"), 170);
    assert_eq!(noise_bucket(""), 0);
    assert_eq!(noise_bucket("é"), 214);
}
