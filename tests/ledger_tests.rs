use moral_ledger::admission::{CandidateAction, Denied, XRActionKind};
use moral_ledger::budget::{BudgetConfig, BudgetSpec, EquityClassSpec, RouteEnvelope};
use moral_ledger::ledger::{verify_chain, ChainError, MoralLedger};
use moral_ledger::record::{genesis, AdmissionOutcome, LedgerRecord, HASH_LEN};
use moral_ledger::usage::ResourceAmounts;
use moral_ledger::writer::LedgerWriter;
use sha2::Digest;

fn three_records() -> (MoralLedger, Vec<LedgerRecord>) {
    let mut ledger = MoralLedger::new();
    let mut out = Vec::new();
    for i in 0..3u8 {
        out.push(ledger.append(
            format!("actor-{i}"),
            vec![i, i + 1, i + 2],
            1_700_000_000 + i as i64,
            AdmissionOutcome::Admitted,
        ));
    }
    (ledger, out)
}

#[test]
fn test_ledger_append_and_hash() {
    let mut ledger = MoralLedger::new();
    let deed = ledger.append("test".to_string(), b"{}".to_vec(), 0, AdmissionOutcome::Admitted);
    assert_eq!(ledger.last_hash(), &deed.self_hash);
}

#[test]
fn empty_ledger_starts_at_genesis() {
    let ledger = MoralLedger::new();
    assert_eq!(ledger.len(), 0);
    assert_eq!(ledger.last_hash(), &vec![0u8; HASH_LEN]);
    assert_eq!(genesis(), vec![0u8; 32]);
}

#[test]
fn appended_records_link_in_order() {
    let (ledger, r) = three_records();
    assert_eq!(r[0].prev_hash, genesis());
    assert_eq!(r[1].prev_hash, r[0].self_hash);
    assert_eq!(r[2].prev_hash, r[1].self_hash);
    assert_eq!((r[0].sequence_id, r[1].sequence_id, r[2].sequence_id), (0, 1, 2));
    assert_eq!(ledger.last_hash(), &r[2].self_hash);
    assert!(verify_chain(ledger.records()));
    assert_eq!(ledger.record(1).unwrap(), &r[1]);
    assert!(ledger.record(3).is_none());
}

#[test]
fn self_hash_is_sha256_of_canonical_form() {
    let (_, r) = three_records();
    for rec in &r {
        let canonical = rec.canonical_form();
        assert_ne!(canonical, rec.self_hash);
        assert_eq!(rec.self_hash, sha2::Sha256::digest(&canonical).to_vec());
        assert_eq!(rec.self_hash.len(), 32);
        assert!(rec.is_sealed());
    }
}

#[test]
fn canonical_form_layout() {
    let rec = LedgerRecord {
        sequence_id: 1,
        timestamp: 2,
        prev_hash: vec![9],
        self_hash: vec![],
        actor_id: "ab".to_string(),
        payload: vec![7, 8],
        admission_outcome: AdmissionOutcome::Denied(Denied::RiskCeiling),
    };
    let mut expected = vec![0, 0, 0, 0, 0, 0, 0, 1, 0, 0, 0, 0, 0, 0, 0, 2];
    expected.extend_from_slice(&[0, 0, 0, 0, 0, 0, 0, 1, 9]);
    expected.extend_from_slice(&[0, 0, 0, 0, 0, 0, 0, 2, b'a', b'b']);
    expected.extend_from_slice(&[0, 0, 0, 0, 0, 0, 0, 2, 7, 8]);
    expected.extend_from_slice(&[1, 8]);
    assert_eq!(rec.canonical_form(), expected);
}

#[test]
fn tampered_payload_breaks_chain_from_that_point() {
    let (ledger, _) = three_records();
    let mut recs: Vec<LedgerRecord> = ledger.records().clone();
    recs[1].payload = b"forged".to_vec();
    // Left unsealed, the chain links but replay catches the digest.
    assert!(verify_chain(&recs));
    assert_eq!(
        MoralLedger::open_or_create(recs.clone()).unwrap_err(),
        ChainError::HashMismatch { position: 1 }
    );
    // Resealed, the next record no longer links to it.
    let old_hash = recs[1].self_hash.clone();
    recs[1].self_hash = recs[1].compute_self_hash();
    assert_ne!(recs[1].self_hash, old_hash);
    assert!(!verify_chain(&recs));
    assert!(!verify_chain(&recs[1..]));
    assert!(verify_chain(&recs[..2]));
    assert_eq!(
        MoralLedger::open_or_create(recs).unwrap_err(),
        ChainError::BrokenLink { position: 2 }
    );
}

#[test]
fn reopening_twice_yields_the_same_head() {
    let (ledger, _) = three_records();
    let first = MoralLedger::open_or_create(ledger.records().clone()).unwrap();
    let second = MoralLedger::open_or_create(first.records().clone()).unwrap();
    assert_eq!(first.last_hash(), ledger.last_hash());
    assert_eq!(second.last_hash(), ledger.last_hash());
    let empty = MoralLedger::open_or_create(Vec::new()).unwrap();
    assert_eq!(empty.last_hash(), &genesis());
}

#[test]
fn replay_refuses_gaps_and_bad_links() {
    let (ledger, _) = three_records();
    let mut recs = ledger.records().clone();
    recs.remove(1);
    assert_eq!(
        MoralLedger::open_or_create(recs).unwrap_err(),
        ChainError::SequenceGap { position: 1 }
    );
    let mut recs = ledger.records().clone();
    recs[0].prev_hash = vec![1; 32];
    assert_eq!(
        MoralLedger::open_or_create(recs).unwrap_err(),
        ChainError::BrokenLink { position: 0 }
    );
}

#[test]
fn reopened_ledger_continues_the_chain() {
    let (ledger, r) = three_records();
    let mut reopened = MoralLedger::open_or_create(ledger.records().clone()).unwrap();
    let next = reopened.append("late".to_string(), vec![], 5, AdmissionOutcome::Admitted);
    assert_eq!(next.sequence_id, 3);
    assert_eq!(next.prev_hash, r[2].self_hash);
    assert!(verify_chain(reopened.records()));
}

fn writer(log_denials: bool) -> LedgerWriter {
    let spec = BudgetSpec::load(BudgetConfig {
        global_ceiling: 300_000,
        require_equity_class: false,
        classes: vec![EquityClassSpec { name: "host".to_string(), min_share: 0, max_share: 1_000_000 }],
        node_routes: vec![RouteEnvelope {
            route: "XR".to_string(),
            max_power: 100,
            max_cumulative_energy: 1_000,
            max_compute_fraction: 1_000_000,
        }],
    })
    .unwrap();
    LedgerWriter::new(spec, MoralLedger::new(), log_denials)
}

fn step(power: u64) -> CandidateAction {
    CandidateAction {
        kind: XRActionKind::ScheduleJob,
        subject_id: "user:alice".to_string(),
        route: "XR".to_string(),
        equity_class: Some("host".to_string()),
        resource_demand: ResourceAmounts { power, energy: 1, compute_fraction: 1 },
        risk_before: 100_000,
        risk_after_estimate: 100_000,
    }
}

#[test]
fn three_sequential_admits_form_a_chain() {
    let mut w = writer(false);
    let r0 = w.submit(&step(10), b"a".to_vec(), 1).unwrap();
    let r1 = w.submit(&step(10), b"b".to_vec(), 2).unwrap();
    let r2 = w.submit(&step(10), b"c".to_vec(), 3).unwrap();
    assert_eq!(r0.prev_hash, genesis());
    assert_eq!(r1.prev_hash, r0.self_hash);
    assert_eq!(r2.prev_hash, r1.self_hash);
    assert_eq!(r2.admission_outcome, AdmissionOutcome::Admitted);
    assert_eq!(r2.actor_id, "user:alice");
    assert_eq!(w.ledger().len(), 3);
    assert_eq!(w.usage().route_totals("XR").power, 30);
}

#[test]
fn denials_are_logged_only_when_asked() {
    let mut quiet = writer(false);
    assert_eq!(quiet.submit(&step(150), vec![], 1).unwrap_err(), Denied::PowerExceeded);
    assert_eq!(quiet.ledger().len(), 0);
    let mut audited = writer(true);
    assert_eq!(audited.submit(&step(150), vec![], 1).unwrap_err(), Denied::PowerExceeded);
    assert_eq!(audited.ledger().len(), 1);
    let logged = audited.ledger().record(0).unwrap();
    assert_eq!(logged.admission_outcome, AdmissionOutcome::Denied(Denied::PowerExceeded));
    assert_eq!(audited.usage().route_totals("XR").power, 0);
    assert!(audited.submit(&step(10), vec![1], 2).is_ok());
    assert_eq!(audited.ledger().len(), 2);
    assert!(verify_chain(audited.ledger().records()));
}
