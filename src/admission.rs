//! The admission kernel: decides whether a candidate action may proceed and,
//! on admission only, commits its demand to the usage counters.

use vstd::prelude::*;

use crate::budget::BudgetSpec;
use crate::usage::{ResourceAmounts, UsageTracker, lemma_equal_commits_accumulate};

verus! {

/// What a candidate action does.
#[derive(Clone, Copy, Debug, PartialEq, Eq, Structural)]
pub enum XRActionKind {
    ReadNeuralShard,
    WriteNeuralShard,
    ProposeEvolve,
    ApplyOta,
    XRRouteStep,
    ScheduleJob,
    ReadKeys,
    SignTransaction,
}

/// An action submitted for admission. The kernel never changes it.
#[derive(Clone, Debug)]
pub struct CandidateAction {
    pub kind: XRActionKind,
    pub subject_id: String,
    pub route: String,
    pub equity_class: Option<String>,
    pub resource_demand: ResourceAmounts,
    /// Risk before the action, in parts per million.
    pub risk_before: u64,
    /// Estimated risk after the action, in parts per million.
    pub risk_after_estimate: u64,
}

/// Why an action was refused.
#[derive(Clone, Copy, Debug, PartialEq, Eq, Structural)]
pub enum Denied {
    NoRouteEnvelope,
    PowerExceeded,
    EnergyExceeded,
    ComputeExceeded,
    MissingEquityClass,
    UnknownEquityClass,
    EquityMaxExceeded,
    RiskMonotonicity,
    RiskCeiling,
}

/// The kernel's verdict on one action.
#[derive(Clone, Copy, Debug, PartialEq, Eq, Structural)]
pub enum AdmissionDecision {
    Admit,
    Deny(Denied),
}

impl CandidateAction {
    /// The class the action names, as a sequence of characters.
    pub open spec fn class_view(&self) -> Option<Seq<char>> {
        match self.equity_class {
            Some(c) => Some(c@),
            None => None,
        }
    }
}

/// The safety checks: risk may not grow, and may not pass the ceiling.
pub open spec fn risk_decision(action: CandidateAction, spec: BudgetSpec) -> AdmissionDecision {
    if action.risk_after_estimate > action.risk_before {
        AdmissionDecision::Deny(Denied::RiskMonotonicity)
    } else if action.risk_after_estimate > spec.spec_global_ceiling() {
        AdmissionDecision::Deny(Denied::RiskCeiling)
    } else {
        AdmissionDecision::Admit
    }
}

/// The equity checks, then the safety checks.
pub open spec fn equity_decision(
    action: CandidateAction,
    spec: BudgetSpec,
    usage: UsageTracker,
) -> AdmissionDecision {
    match action.equity_class {
        None => if spec.spec_require_equity_class() {
            AdmissionDecision::Deny(Denied::MissingEquityClass)
        } else {
            risk_decision(action, spec)
        },
        Some(c) => match spec.spec_equity_bounds(c@) {
            None => AdmissionDecision::Deny(Denied::UnknownEquityClass),
            Some(b) => if usage.class_share(c@) + action.resource_demand.compute_fraction
                > b.max_share {
                AdmissionDecision::Deny(Denied::EquityMaxExceeded)
            } else {
                risk_decision(action, spec)
            },
        },
    }
}

/// The verdict on `action`: the checks in their fixed order, the first that
/// fails giving the reason. The route must have an envelope; the projected
/// power, energy and compute must stay within it; the class, where required
/// or named, must be known and stay within its ceiling; risk must not grow
/// and must stay within the global ceiling.
pub open spec fn decision(
    action: CandidateAction,
    spec: BudgetSpec,
    usage: UsageTracker,
) -> AdmissionDecision {
    match spec.spec_route_envelope(action.route@) {
        None => AdmissionDecision::Deny(Denied::NoRouteEnvelope),
        Some(env) => {
            let p = usage.spec_projected(action.route@, action.class_view(), action.resource_demand);
            if p.power > env.max_power {
                AdmissionDecision::Deny(Denied::PowerExceeded)
            } else if p.energy > env.max_cumulative_energy {
                AdmissionDecision::Deny(Denied::EnergyExceeded)
            } else if p.compute_fraction > env.max_compute_fraction {
                AdmissionDecision::Deny(Denied::ComputeExceeded)
            } else {
                equity_decision(action, spec, usage)
            }
        },
    }
}

/// Decides on `action` against `spec` and the current `usage`, changing
/// nothing.
pub fn evaluate(action: &CandidateAction, spec: &BudgetSpec, usage: &UsageTracker) -> (r:
    AdmissionDecision)
    ensures
        r == decision(*action, *spec, *usage),
{
    let env = match spec.route_envelope(action.route.as_str()) {
        None => {
            return AdmissionDecision::Deny(Denied::NoRouteEnvelope);
        },
        Some(env) => env,
    };
    let class: Option<&str> = match &action.equity_class {
        Some(c) => Some(c.as_str()),
        None => None,
    };
    let p = usage.projected_usage(action.route.as_str(), class, action.resource_demand);
    if p.power > env.max_power as u128 {
        return AdmissionDecision::Deny(Denied::PowerExceeded);
    }
    if p.energy > env.max_cumulative_energy as u128 {
        return AdmissionDecision::Deny(Denied::EnergyExceeded);
    }
    if p.compute_fraction > env.max_compute_fraction as u128 {
        return AdmissionDecision::Deny(Denied::ComputeExceeded);
    }
    match &action.equity_class {
        None => {
            if spec.require_equity_class() {
                return AdmissionDecision::Deny(Denied::MissingEquityClass);
            }
        },
        Some(c) => {
            match spec.equity_bounds(c.as_str()) {
                None => {
                    return AdmissionDecision::Deny(Denied::UnknownEquityClass);
                },
                Some(b) => {
                    let share = usage.share_of(c.as_str());
                    if share as u128 + action.resource_demand.compute_fraction as u128
                        > b.max_share as u128 {
                        return AdmissionDecision::Deny(Denied::EquityMaxExceeded);
                    }
                },
            }
        },
    }
    if action.risk_after_estimate > action.risk_before {
        return AdmissionDecision::Deny(Denied::RiskMonotonicity);
    }
    if action.risk_after_estimate > spec.global_ceiling() {
        return AdmissionDecision::Deny(Denied::RiskCeiling);
    }
    AdmissionDecision::Admit
}

/// Decides on `action` and, if it is admitted, commits its demand to the
/// route and to its class. A denied action leaves `usage` unchanged.
pub fn evaluate_and_commit(action: &CandidateAction, spec: &BudgetSpec, usage: &mut UsageTracker) -> (r:
    AdmissionDecision)
    ensures
        r == decision(*action, *spec, *old(usage)),
        r is Admit ==> old(usage).can_commit(
            action.route@,
            action.class_view(),
            action.resource_demand,
        ),
        r is Admit ==> old(usage).commits_to(
            final(usage),
            action.route@,
            action.class_view(),
            action.resource_demand,
        ),
        r is Deny ==> *final(usage) == *old(usage),
{
    let r = evaluate(action, spec, usage);
    if r == AdmissionDecision::Admit {
        let class: Option<&str> = match &action.equity_class {
            Some(c) => Some(c.as_str()),
            None => None,
        };
        usage.commit(action.route.as_str(), class, action.resource_demand);
    }
    r
}

/// An admitted demand fits the counters it is committed to.
pub proof fn lemma_admitted_demand_fits(action: CandidateAction, spec: BudgetSpec, usage: UsageTracker)
    requires
        decision(action, spec, usage) == AdmissionDecision::Admit,
    ensures
        usage.can_commit(action.route@, action.class_view(), action.resource_demand),
{
}

/// No admission is lost: after `n` admissions of the same action, each
/// committed by `evaluate_and_commit` (`usages[i + 1]` is `usages[i]` after
/// the `i`-th), the route's totals and the class's share have grown by
/// exactly `n` times the demand.
pub proof fn lemma_admissions_accumulate(
    action: CandidateAction,
    spec: BudgetSpec,
    usages: Seq<UsageTracker>,
)
    requires
        usages.len() >= 1,
        forall|i: int|
            0 <= i < usages.len() - 1 ==> #[trigger] decision(action, spec, usages[i])
                == AdmissionDecision::Admit && usages[i].commits_to(
                &usages[i + 1],
                action.route@,
                action.class_view(),
                action.resource_demand,
            ),
    ensures
        usages.last().route_usage(action.route@).power == usages[0].route_usage(action.route@).power
            + (usages.len() - 1) * action.resource_demand.power,
        usages.last().route_usage(action.route@).energy == usages[0].route_usage(
            action.route@,
        ).energy + (usages.len() - 1) * action.resource_demand.energy,
        usages.last().route_usage(action.route@).compute_fraction == usages[0].route_usage(
            action.route@,
        ).compute_fraction + (usages.len() - 1) * action.resource_demand.compute_fraction,
        match action.equity_class {
            Some(c) => usages.last().class_share(c@) == usages[0].class_share(c@) + (usages.len()
                - 1) * action.resource_demand.compute_fraction,
            None => true,
        },
{
    assert forall|i: int| 0 <= i < usages.len() - 1 implies #[trigger] usages[i].can_commit(
        action.route@,
        action.class_view(),
        action.resource_demand,
    ) && usages[i].commits_to(
        &usages[i + 1],
        action.route@,
        action.class_view(),
        action.resource_demand,
    ) by {
        assert(decision(action, spec, usages[i]) == AdmissionDecision::Admit);
        lemma_admitted_demand_fits(action, spec, usages[i]);
    }
    lemma_equal_commits_accumulate(usages, action.route@, action.class_view(), action.resource_demand);
}

} // verus!
