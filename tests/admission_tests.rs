use moral_ledger::admission::{
    evaluate, evaluate_and_commit, AdmissionDecision, CandidateAction, Denied, XRActionKind,
};
use moral_ledger::budget::{BudgetConfig, BudgetSpec, EquityClassSpec, RouteEnvelope};
use moral_ledger::usage::{ResourceAmounts, UsageTracker};

fn spec_with(require_class: bool) -> BudgetSpec {
    BudgetSpec::load(BudgetConfig {
        global_ceiling: 300_000,
        require_equity_class: require_class,
        classes: vec![
            EquityClassSpec { name: "host".to_string(), min_share: 100_000, max_share: 600_000 },
            EquityClassSpec {
                name: "local_congregation".to_string(),
                min_share: 100_000,
                max_share: 900_000,
            },
        ],
        node_routes: vec![
            RouteEnvelope {
                route: "XR".to_string(),
                max_power: 100,
                max_cumulative_energy: 1_000,
                max_compute_fraction: 1_000_000,
            },
            RouteEnvelope {
                route: "DRONE".to_string(),
                max_power: 1_000,
                max_cumulative_energy: 50,
                max_compute_fraction: 100_000,
            },
        ],
    })
    .unwrap()
}

fn action(route: &str, class: Option<&str>, power: u64, energy: u64, compute: u64) -> CandidateAction {
    CandidateAction {
        kind: XRActionKind::XRRouteStep,
        subject_id: "subject-1".to_string(),
        route: route.to_string(),
        equity_class: class.map(|c| c.to_string()),
        resource_demand: ResourceAmounts { power, energy, compute_fraction: compute },
        risk_before: 200_000,
        risk_after_estimate: 150_000,
    }
}

#[test]
fn power_over_route_cap_is_denied_without_usage_change() {
    let spec = spec_with(true);
    let mut usage = UsageTracker::new();
    let a = action("XR", Some("host"), 150, 10, 10_000);
    let d = evaluate_and_commit(&a, &spec, &mut usage);
    assert_eq!(d, AdmissionDecision::Deny(Denied::PowerExceeded));
    assert_eq!(usage.route_totals("XR"), ResourceAmounts { power: 0, energy: 0, compute_fraction: 0 });
    assert_eq!(usage.share_of("host"), 0);
}

#[test]
fn class_share_over_ceiling_is_denied() {
    let spec = spec_with(true);
    let mut usage = UsageTracker::new();
    usage.commit("DRONE", Some("host"), ResourceAmounts { power: 0, energy: 0, compute_fraction: 500_000 });
    assert_eq!(usage.share_of("host"), 500_000);
    let a = action("XR", Some("host"), 10, 10, 200_000);
    assert_eq!(evaluate(&a, &spec, &usage), AdmissionDecision::Deny(Denied::EquityMaxExceeded));
}

#[test]
fn rising_risk_is_denied_regardless_of_envelopes() {
    let spec = spec_with(true);
    let usage = UsageTracker::new();
    let mut a = action("XR", Some("host"), 1, 1, 1);
    a.risk_before = 200_000;
    a.risk_after_estimate = 250_000;
    assert_eq!(evaluate(&a, &spec, &usage), AdmissionDecision::Deny(Denied::RiskMonotonicity));
}

#[test]
fn risk_over_ceiling_is_denied() {
    let spec = spec_with(true);
    let usage = UsageTracker::new();
    let mut a = action("XR", Some("host"), 1, 1, 1);
    a.risk_before = 400_000;
    a.risk_after_estimate = 350_000;
    assert_eq!(evaluate(&a, &spec, &usage), AdmissionDecision::Deny(Denied::RiskCeiling));
}

#[test]
fn unknown_route_is_denied_by_default() {
    let spec = spec_with(true);
    let usage = UsageTracker::new();
    let a = action("AUTO_CHURCH_LIVE", Some("host"), 1, 1, 1);
    assert_eq!(evaluate(&a, &spec, &usage), AdmissionDecision::Deny(Denied::NoRouteEnvelope));
}

#[test]
fn energy_and_compute_caps_are_enforced() {
    let spec = spec_with(true);
    let usage = UsageTracker::new();
    let a = action("DRONE", Some("host"), 10, 51, 1);
    assert_eq!(evaluate(&a, &spec, &usage), AdmissionDecision::Deny(Denied::EnergyExceeded));
    let a = action("DRONE", Some("host"), 10, 10, 100_001);
    assert_eq!(evaluate(&a, &spec, &usage), AdmissionDecision::Deny(Denied::ComputeExceeded));
}

#[test]
fn first_failing_check_wins() {
    let spec = spec_with(true);
    let usage = UsageTracker::new();
    let mut a = action("DRONE", None, 2_000, 100, 200_000);
    a.risk_after_estimate = 900_000;
    assert_eq!(evaluate(&a, &spec, &usage), AdmissionDecision::Deny(Denied::PowerExceeded));
}

#[test]
fn class_presence_is_checked() {
    let spec = spec_with(true);
    let usage = UsageTracker::new();
    let a = action("XR", None, 1, 1, 1);
    assert_eq!(evaluate(&a, &spec, &usage), AdmissionDecision::Deny(Denied::MissingEquityClass));
    let a = action("XR", Some("research_only"), 1, 1, 1);
    assert_eq!(evaluate(&a, &spec, &usage), AdmissionDecision::Deny(Denied::UnknownEquityClass));
    let relaxed = spec_with(false);
    let a = action("XR", None, 1, 1, 1);
    assert_eq!(evaluate(&a, &relaxed, &usage), AdmissionDecision::Admit);
}

#[test]
fn admission_commits_exactly_the_demand() {
    let spec = spec_with(true);
    let mut usage = UsageTracker::new();
    let a = action("XR", Some("host"), 30, 200, 100_000);
    assert_eq!(evaluate_and_commit(&a, &spec, &mut usage), AdmissionDecision::Admit);
    assert_eq!(
        usage.route_totals("XR"),
        ResourceAmounts { power: 30, energy: 200, compute_fraction: 100_000 }
    );
    assert_eq!(usage.share_of("host"), 100_000);
    assert_eq!(usage.route_totals("DRONE"), ResourceAmounts { power: 0, energy: 0, compute_fraction: 0 });
    assert_eq!(usage.share_of("local_congregation"), 0);
}

#[test]
fn repeated_admissions_accumulate_without_loss() {
    let spec = spec_with(true);
    let mut usage = UsageTracker::new();
    let n: u64 = 5;
    for _ in 0..n {
        let a = action("XR", Some("host"), 20, 100, 50_000);
        assert_eq!(evaluate_and_commit(&a, &spec, &mut usage), AdmissionDecision::Admit);
    }
    assert_eq!(
        usage.route_totals("XR"),
        ResourceAmounts { power: n * 20, energy: n * 100, compute_fraction: n * 50_000 }
    );
    assert_eq!(usage.share_of("host"), n * 50_000);
    let a = action("XR", Some("host"), 1, 1, 1);
    assert_eq!(
        evaluate_and_commit(&a, &spec, &mut usage),
        AdmissionDecision::Deny(Denied::PowerExceeded)
    );
    assert_eq!(usage.route_totals("XR").power, 100);
}

#[test]
fn projection_does_not_commit() {
    let mut usage = UsageTracker::new();
    usage.commit("XR", None, ResourceAmounts { power: 5, energy: 6, compute_fraction: 7 });
    let p = usage.projected_usage("XR", Some("host"), ResourceAmounts { power: 1, energy: 2, compute_fraction: 3 });
    assert_eq!((p.power, p.energy, p.compute_fraction, p.class_share), (6, 8, 10, Some(3)));
    assert_eq!(usage.route_totals("XR"), ResourceAmounts { power: 5, energy: 6, compute_fraction: 7 });
    let p = usage.projected_usage("XR", None, ResourceAmounts { power: u64::MAX, energy: 0, compute_fraction: 0 });
    assert_eq!(p.power, u64::MAX as u128 + 5);
    assert_eq!(p.class_share, None);
}
