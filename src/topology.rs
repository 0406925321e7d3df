//! Branches of the service topology, their safety policy and health.

use vstd::prelude::*;

verus! {

#[derive(Clone, Copy, Debug, PartialEq, Eq, Structural)]
pub enum BranchKind {
    Regex,
    Codex,
    System,
    Language,
    Devops,
}

/// A named branch of the topology.
#[derive(Clone, Debug, PartialEq, Eq)]
pub struct Branch {
    pub name: String,
    pub kind: BranchKind,
    pub description: String,
}

impl Branch {
    pub fn new(name: &str, kind: BranchKind, description: &str) -> (r: Branch)
        ensures
            r.name@ == name@,
            r.kind == kind,
            r.description@ == description@,
    {
        Branch { name: name.to_owned(), kind, description: description.to_owned() }
    }
}

/// The safety rules a branch runs under.
#[derive(Clone, Copy, Debug, PartialEq, Eq, Structural)]
pub struct SafetyPolicy {
    pub no_harm_to_life: bool,
    pub eco_priority: bool,
    pub transparency_required: bool,
}

impl Default for SafetyPolicy {
    /// Every rule on.
    fn default() -> (r: SafetyPolicy)
        ensures
            r.no_harm_to_life && r.eco_priority && r.transparency_required,
    {
        SafetyPolicy { no_harm_to_life: true, eco_priority: true, transparency_required: true }
    }
}

/// The health a service reports.
#[derive(Clone, Debug, PartialEq, Eq)]
pub struct HealthStatus {
    pub ok: bool,
    pub message: String,
}

impl HealthStatus {
    /// Healthy, with `msg`.
    pub fn ok(msg: &str) -> (r: HealthStatus)
        ensures
            r.ok,
            r.message@ == msg@,
    {
        HealthStatus { ok: true, message: msg.to_owned() }
    }

    /// Degraded, with `msg`.
    pub fn degraded(msg: &str) -> (r: HealthStatus)
        ensures
            !r.ok,
            r.message@ == msg@,
    {
        HealthStatus { ok: false, message: msg.to_owned() }
    }
}

} // verus!
