//! Autonomy tiers and the outcome of a settlement request.

use vstd::prelude::*;

verus! {

/// How far a behaviour may act; each step up needs more evidence.
#[derive(Clone, Copy, Debug, PartialEq, Eq, Structural)]
pub enum AutonomyTier {
    /// Simulation only; nothing is actuated.
    SimulationOnly,
    /// Acts on the host alone.
    HostLocal,
    /// Acts within proven-safe corridors, in one jurisdiction.
    CorridorBound,
    /// Actuates shared infrastructure.
    EcoNode,
    /// Reaches systems across regions.
    GlobalNet,
}

/// Whether a behaviour still needs a runtime rollback path.
#[derive(Clone, Copy, Debug, PartialEq, Eq, Structural)]
pub enum NonRollbackStatus {
    /// Full rollback required.
    Experimental,
    /// Rollback expected; field tests passed.
    Provisional,
    /// Safe without routine rollback; emergency stops remain.
    Settled,
}

/// The verdict on a settlement request.
#[derive(Clone, Debug, PartialEq, Eq)]
pub struct SettlementDecision {
    pub approved: bool,
    pub reason: Option<String>,
    pub new_tier: AutonomyTier,
    pub new_nonrollback: NonRollbackStatus,
}

impl SettlementDecision {
    /// A refusal for `reason`, which falls back to the most restricted tier
    /// and status.
    pub fn denied(reason: &str) -> (r: SettlementDecision)
        ensures
            !r.approved,
            r.reason is Some && r.reason.unwrap()@ == reason@,
            r.new_tier == AutonomyTier::SimulationOnly,
            r.new_nonrollback == NonRollbackStatus::Experimental,
    {
        SettlementDecision {
            approved: false,
            reason: Some(reason.to_owned()),
            new_tier: AutonomyTier::SimulationOnly,
            new_nonrollback: NonRollbackStatus::Experimental,
        }
    }

    /// An approval of `tier` and `nonrollback`.
    pub fn approved(tier: AutonomyTier, nonrollback: NonRollbackStatus) -> (r: SettlementDecision)
        ensures
            r.approved,
            r.reason is None,
            r.new_tier == tier,
            r.new_nonrollback == nonrollback,
    {
        SettlementDecision {
            approved: true,
            reason: None,
            new_tier: tier,
            new_nonrollback: nonrollback,
        }
    }
}

} // verus!
