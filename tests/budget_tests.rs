use moral_ledger::budget::{
    BudgetConfig, BudgetSpec, ConfigError, EquityBounds, EquityClassSpec, RouteEnvelope,
    SHARE_EPSILON, SHARE_SCALE,
};

fn class(name: &str, min_share: u64, max_share: u64) -> EquityClassSpec {
    EquityClassSpec { name: name.to_string(), min_share, max_share }
}

fn route(name: &str, max_power: u64, max_energy: u64, max_compute: u64) -> RouteEnvelope {
    RouteEnvelope {
        route: name.to_string(),
        max_power,
        max_cumulative_energy: max_energy,
        max_compute_fraction: max_compute,
    }
}

fn config(classes: Vec<EquityClassSpec>, routes: Vec<RouteEnvelope>) -> BudgetConfig {
    BudgetConfig {
        global_ceiling: 300_000,
        require_equity_class: true,
        classes,
        node_routes: routes,
    }
}

#[test]
fn valid_spec_loads_and_answers_lookups() {
    let spec = BudgetSpec::load(config(
        vec![class("host", 200_000, 600_000), class("local_congregation", 300_000, 800_000)],
        vec![route("XR", 100, 1_000, 500_000)],
    ))
    .unwrap();
    assert_eq!(spec.global_ceiling(), 300_000);
    assert!(spec.require_equity_class());
    assert_eq!(spec.equity_bounds("host"), Some(EquityBounds { min_share: 200_000, max_share: 600_000 }));
    assert_eq!(spec.equity_bounds("research_only"), None);
    let env = spec.route_envelope("XR").unwrap();
    assert_eq!(env.max_power, 100);
    assert_eq!(env.max_cumulative_energy, 1_000);
    assert!(spec.route_envelope("DRONE").is_none());
}

#[test]
fn floors_summing_to_one_plus_tolerance_are_accepted() {
    let spec = BudgetSpec::load(config(
        vec![class("a", 500_000, 600_000), class("b", 500_000 + SHARE_EPSILON, 600_000)],
        vec![],
    ));
    assert!(spec.is_ok());
}

#[test]
fn floors_summing_past_tolerance_are_refused() {
    let r = BudgetSpec::load(config(
        vec![class("a", 600_000, 700_000), class("b", 400_000 + SHARE_EPSILON + 1, 700_000)],
        vec![],
    ));
    assert_eq!(r.unwrap_err(), ConfigError::MinShareSumExceeded);
}

#[test]
fn empty_class_set_is_refused() {
    let r = BudgetSpec::load(config(vec![], vec![route("XR", 1, 1, 1)]));
    assert_eq!(r.unwrap_err(), ConfigError::EmptyClassSet);
}

#[test]
fn out_of_range_floor_is_refused() {
    let r = BudgetSpec::load(config(vec![class("host", SHARE_SCALE + 1, SHARE_SCALE)], vec![]));
    assert_eq!(r.unwrap_err(), ConfigError::MinShareOutOfRange { class: "host".to_string() });
}

#[test]
fn out_of_range_ceiling_is_refused() {
    let r = BudgetSpec::load(config(vec![class("host", 0, SHARE_SCALE + 1)], vec![]));
    assert_eq!(r.unwrap_err(), ConfigError::MaxShareOutOfRange { class: "host".to_string() });
}

#[test]
fn floor_above_ceiling_is_refused() {
    let r = BudgetSpec::load(config(
        vec![class("ok", 0, 10), class("host", 700_000, 600_000)],
        vec![],
    ));
    assert_eq!(r.unwrap_err(), ConfigError::MinAboveMax { class: "host".to_string() });
}

#[test]
fn duplicate_class_is_refused() {
    let r = BudgetSpec::load(config(
        vec![class("host", 0, 10), class("other", 0, 10), class("host", 0, 20)],
        vec![],
    ));
    assert_eq!(r.unwrap_err(), ConfigError::DuplicateClass { class: "host".to_string() });
}

#[test]
fn first_faulty_class_is_reported() {
    let r = BudgetSpec::load(config(
        vec![class("a", 5, 1), class("b", SHARE_SCALE + 1, SHARE_SCALE + 1)],
        vec![],
    ));
    assert_eq!(r.unwrap_err(), ConfigError::MinAboveMax { class: "a".to_string() });
}

#[test]
fn malformed_route_envelope_is_refused() {
    let r = BudgetSpec::load(config(
        vec![class("host", 0, 10)],
        vec![route("XR", 1, 1, 1), route("DRONE", 1, 1, SHARE_SCALE + 1)],
    ));
    assert_eq!(r.unwrap_err(), ConfigError::MalformedRouteEnvelope { route: "DRONE".to_string() });
}

#[test]
fn empty_route_name_is_accepted() {
    let spec = BudgetSpec::load(config(vec![class("host", 0, 10)], vec![route("", 1, 1, 1)])).unwrap();
    assert_eq!(spec.route_envelope("").unwrap().max_power, 1);
}

#[test]
fn repeated_route_keeps_the_last_envelope() {
    let spec = BudgetSpec::load(config(
        vec![class("host", 0, 10)],
        vec![route("XR", 1, 1, 1), route("DRONE", 7, 7, 7), route("XR", 2, 3, 4)],
    ))
    .unwrap();
    let env = spec.route_envelope("XR").unwrap();
    assert_eq!((env.max_power, env.max_cumulative_energy, env.max_compute_fraction), (2, 3, 4));
    assert_eq!(spec.route_envelope("DRONE").unwrap().max_power, 7);
}

#[test]
fn global_ceiling_out_of_range_is_refused() {
    let mut c = config(vec![class("host", 0, 10)], vec![]);
    c.global_ceiling = SHARE_SCALE + 1;
    assert_eq!(BudgetSpec::load(c).unwrap_err(), ConfigError::GlobalCeilingOutOfRange);
}
