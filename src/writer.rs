//! The ledger writer: asks the admission kernel, then records the outcome.

use vstd::prelude::*;

use crate::admission::{AdmissionDecision, CandidateAction, Denied, decision, evaluate_and_commit};
use crate::budget::BudgetSpec;
use crate::ledger::{MoralLedger, next_record};
use crate::record::{AdmissionOutcome, LedgerRecord};
use crate::usage::UsageTracker;

verus! {

/// Owns the budget, the live usage and the ledger, and is the one path by
/// which actions are admitted and recorded.
#[derive(Debug)]
pub struct LedgerWriter {
    spec: BudgetSpec,
    usage: UsageTracker,
    ledger: MoralLedger,
    log_denials: bool,
}

impl LedgerWriter {
    pub closed spec fn spec_budget(&self) -> BudgetSpec {
        self.spec
    }

    pub closed spec fn spec_usage(&self) -> UsageTracker {
        self.usage
    }

    pub closed spec fn spec_ledger(&self) -> MoralLedger {
        self.ledger
    }

    pub closed spec fn spec_log_denials(&self) -> bool {
        self.log_denials
    }

    pub open spec fn wf(&self) -> bool {
        self.spec_ledger().wf()
    }

    /// What `submit` owes on `action`, `payload` and `timestamp`: `after` and
    /// `r` are what it leaves and returns, starting from `self`.
    pub open spec fn submitted(
        &self,
        after: &LedgerWriter,
        action: CandidateAction,
        payload: Seq<u8>,
        timestamp: i64,
        r: Result<LedgerRecord, Denied>,
    ) -> bool {
        let before_records = self.spec_ledger().spec_records();
        &&& after.wf()
        &&& after.spec_budget() == self.spec_budget()
        &&& after.spec_log_denials() == self.spec_log_denials()
        &&& match decision(action, self.spec_budget(), self.spec_usage()) {
            AdmissionDecision::Admit => {
                let rec = next_record(
                    before_records,
                    action.subject_id@,
                    payload,
                    timestamp,
                    AdmissionOutcome::Admitted,
                );
                &&& r is Ok
                &&& r.unwrap()@ == rec
                &&& after.spec_ledger().spec_records() == before_records.push(rec)
                &&& self.spec_usage().can_commit(
                    action.route@,
                    action.class_view(),
                    action.resource_demand,
                )
                &&& self.spec_usage().commits_to(
                    &after.spec_usage(),
                    action.route@,
                    action.class_view(),
                    action.resource_demand,
                )
            },
            AdmissionDecision::Deny(reason) => {
                &&& r == Err::<LedgerRecord, Denied>(reason)
                &&& after.spec_usage() == self.spec_usage()
                &&& after.spec_ledger().spec_records() == if self.spec_log_denials() {
                    before_records.push(
                        next_record(
                            before_records,
                            action.subject_id@,
                            payload,
                            timestamp,
                            AdmissionOutcome::Denied(reason),
                        ),
                    )
                } else {
                    before_records
                }
            },
        }
    }

    /// A writer over `ledger` with no usage yet. With `log_denials`, refused
    /// actions are recorded too, marked as refused.
    pub fn new(spec: BudgetSpec, ledger: MoralLedger, log_denials: bool) -> (r: LedgerWriter)
        requires
            ledger.wf(),
        ensures
            r.wf(),
            r.spec_budget() == spec,
            r.spec_ledger() == ledger,
            r.spec_log_denials() == log_denials,
            forall|route: Seq<char>| #[trigger]
                r.spec_usage().route_usage(route) == crate::usage::no_amounts(),
            forall|class: Seq<char>| #[trigger] r.spec_usage().class_share(class) == 0,
    {
        LedgerWriter { spec, usage: UsageTracker::new(), ledger, log_denials }
    }

    /// Submits `action` with `payload`, stamped `timestamp`. Admitted: its
    /// demand is committed and a record of it appended and returned. Refused:
    /// the reason is returned, usage is untouched, and the refusal is
    /// recorded only where the writer logs refusals.
    pub fn submit(&mut self, action: &CandidateAction, payload: Vec<u8>, timestamp: i64) -> (r:
        Result<LedgerRecord, Denied>)
        requires
            old(self).wf(),
        ensures
            old(self).submitted(final(self), *action, payload@, timestamp, r),
    {
        let d = evaluate_and_commit(action, &self.spec, &mut self.usage);
        match d {
            AdmissionDecision::Admit => {
                let rec = self.ledger.append(
                    action.subject_id.clone(),
                    payload,
                    timestamp,
                    AdmissionOutcome::Admitted,
                );
                Ok(rec)
            },
            AdmissionDecision::Deny(reason) => {
                if self.log_denials {
                    let _logged = self.ledger.append(
                        action.subject_id.clone(),
                        payload,
                        timestamp,
                        AdmissionOutcome::Denied(reason),
                    );
                }
                Err(reason)
            },
        }
    }

    /// The budget specification.
    pub fn spec(&self) -> (r: &BudgetSpec)
        ensures
            *r == self.spec_budget(),
    {
        &self.spec
    }

    /// The live usage counters.
    pub fn usage(&self) -> (r: &UsageTracker)
        ensures
            *r == self.spec_usage(),
    {
        &self.usage
    }

    /// The ledger.
    pub fn ledger(&self) -> (r: &MoralLedger)
        ensures
            *r == self.spec_ledger(),
    {
        &self.ledger
    }
}

} // verus!
