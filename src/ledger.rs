//! The hash-chained, append-only ledger.

use vstd::prelude::*;

use crate::record::{
    AdmissionOutcome,
    LedgerRecord,
    RecordView,
    bytes_equal,
    copy_bytes,
    genesis,
    canonical_bytes,
    genesis_hash,
    sealed,
    framed,
    outcome_bytes,
    sha256_of,
    u64_be,
    views,
};
use vstd::utf8::encode_utf8;

verus! {

/// Why a run of records cannot be taken up as a ledger.
#[derive(Clone, Copy, Debug, PartialEq, Eq, Structural)]
pub enum ChainError {
    /// The record at `position` carries another sequence number.
    SequenceGap { position: usize },
    /// The record at `position` does not link to its predecessor.
    BrokenLink { position: usize },
    /// The record at `position` does not carry the digest of its own content.
    HashMismatch { position: usize },
}

/// The digest record `i` must link to.
pub open spec fn expected_prev(rs: Seq<RecordView>, i: int) -> Seq<u8> {
    if i == 0 {
        genesis_hash()
    } else {
        rs[i - 1].self_hash
    }
}

/// What is wrong with record `i` of `rs`, checked in this order: its
/// sequence number, its link, its own digest.
pub open spec fn record_fault(rs: Seq<RecordView>, i: int) -> Option<ChainError> {
    if rs[i].sequence_id != i {
        Some(ChainError::SequenceGap { position: i as usize })
    } else if rs[i].prev_hash != expected_prev(rs, i) {
        Some(ChainError::BrokenLink { position: i as usize })
    } else if !sealed(rs[i]) {
        Some(ChainError::HashMismatch { position: i as usize })
    } else {
        None
    }
}

/// The first fault at or after position `i`.
pub open spec fn replay_fault(rs: Seq<RecordView>, i: int) -> Option<ChainError>
    decreases rs.len() - i,
{
    if i < 0 || i >= rs.len() {
        None
    } else if record_fault(rs, i).is_some() {
        record_fault(rs, i)
    } else {
        replay_fault(rs, i + 1)
    }
}

/// Every record is numbered by its position, linked to its predecessor (the
/// first to the all-zero digest) and sealed with its own digest.
pub open spec fn intact(rs: Seq<RecordView>) -> bool {
    forall|i: int| 0 <= i < rs.len() ==> #[trigger] record_fault(rs, i).is_none()
}

/// Each record links to the one before it.
pub open spec fn chain_linked(rs: Seq<RecordView>) -> bool {
    forall|i: int| 0 < i < rs.len() ==> #[trigger] rs[i].prev_hash == rs[i - 1].self_hash
}

/// The digest the next record will link to.
pub open spec fn head_hash(rs: Seq<RecordView>) -> Seq<u8> {
    if rs.len() == 0 {
        genesis_hash()
    } else {
        rs.last().self_hash
    }
}

/// The record that appending `actor_id`, `payload`, `timestamp` and `outcome`
/// to `rs` creates: numbered by its position, linked to the head, sealed.
pub open spec fn next_record(
    rs: Seq<RecordView>,
    actor_id: Seq<char>,
    payload: Seq<u8>,
    timestamp: i64,
    outcome: AdmissionOutcome,
) -> RecordView {
    let unsealed = RecordView {
        sequence_id: rs.len() as u64,
        timestamp,
        prev_hash: head_hash(rs),
        self_hash: Seq::empty(),
        actor_id,
        payload,
        admission_outcome: outcome,
    };
    RecordView { self_hash: sha256_of(canonical_bytes(unsealed)), ..unsealed }
}

/// An append-only, hash-chained sequence of records.
#[derive(Debug)]
pub struct MoralLedger {
    records: Vec<LedgerRecord>,
    last_hash: Vec<u8>,
}

impl MoralLedger {
    /// The records, in order.
    pub closed spec fn spec_records(&self) -> Seq<RecordView> {
        views(self.records@)
    }

    /// The digest the next record will link to.
    pub closed spec fn spec_last_hash(&self) -> Seq<u8> {
        self.last_hash@
    }

    /// The chain is intact and its head is the last record's digest.
    pub open spec fn wf(&self) -> bool {
        &&& intact(self.spec_records())
        &&& self.spec_last_hash() == head_hash(self.spec_records())
    }

    /// An empty ledger, linked to the all-zero digest.
    pub fn new() -> (r: MoralLedger)
        ensures
            r.wf(),
            r.spec_records().len() == 0,
            r.spec_last_hash() == genesis_hash(),
    {
        let r = MoralLedger { records: Vec::new(), last_hash: genesis() };
        assert(r.spec_records() =~= Seq::<RecordView>::empty());
        r
    }

    /// Takes up the records of an existing ledger, checking each in turn, and
    /// recovers the digest the next record will link to. Refuses a run with
    /// a gap, a broken link or a record whose digest does not match its
    /// content, naming the first such record.
    pub fn open_or_create(records: Vec<LedgerRecord>) -> (r: Result<MoralLedger, ChainError>)
        ensures
            match r {
                Ok(l) => {
                    &&& replay_fault(views(records@), 0).is_none()
                    &&& l.wf()
                    &&& l.spec_records() == views(records@)
                    &&& l.spec_last_hash() == head_hash(views(records@))
                },
                Err(e) => replay_fault(views(records@), 0) == Some(e),
            },
    {
        let ghost rs = views(records@);
        let mut last_hash = genesis();
        let mut i: usize = 0;
        while i < records.len()
            invariant
                i <= records.len(),
                rs == views(records@),
                replay_fault(rs, 0) == replay_fault(rs, i as int),
                forall|k: int| 0 <= k < i ==> #[trigger] record_fault(rs, k).is_none(),
                last_hash@ == head_hash(rs.take(i as int)),
            decreases records.len() - i,
        {
            let rec = &records[i];
            assert(rec@ == rs[i as int]);
            if rec.sequence_id != i as u64 {
                return Err(ChainError::SequenceGap { position: i });
            }
            if !bytes_equal(rec.prev_hash.as_slice(), last_hash.as_slice()) {
                assert(i > 0 ==> rs.take(i as int).last() == rs[i - 1]);
                return Err(ChainError::BrokenLink { position: i });
            }
            if !rec.is_sealed() {
                return Err(ChainError::HashMismatch { position: i });
            }
            assert(i > 0 ==> rs.take(i as int).last() == rs[i - 1]);
            assert(record_fault(rs, i as int).is_none());
            last_hash = copy_bytes(&rec.self_hash);
            i = i + 1;
            assert(rs.take(i as int).last() == rs[i - 1]);
        }
        assert(rs.take(i as int) =~= rs);
        Ok(MoralLedger { records, last_hash })
    }

    /// Builds the next record from `actor_id`, `payload`, `timestamp` and
    /// `outcome`, links it to the current head, seals it with its digest and
    /// appends it; the record's digest becomes the new head. Past records are
    /// never changed.
    pub fn append(
        &mut self,
        actor_id: String,
        payload: Vec<u8>,
        timestamp: i64,
        outcome: AdmissionOutcome,
    ) -> (r: LedgerRecord)
        requires
            old(self).wf(),
        ensures
            final(self).wf(),
            final(self).spec_records() == old(self).spec_records().push(r@),
            final(self).spec_last_hash() == r@.self_hash,
            r@ == next_record(old(self).spec_records(), actor_id@, payload@, timestamp, outcome),
    {
        let ghost before = self.spec_records();
        let mut rec = LedgerRecord {
            sequence_id: self.records.len() as u64,
            timestamp,
            prev_hash: copy_bytes(&self.last_hash),
            self_hash: Vec::new(),
            actor_id,
            payload,
            admission_outcome: outcome,
        };
        rec.self_hash = rec.compute_self_hash();
        let out = rec.duplicate();
        self.last_hash = copy_bytes(&rec.self_hash);
        self.records.push(rec);
        proof {
            let rs = self.spec_records();
            assert(rs =~= before.push(out@));
            assert(canonical_bytes(out@) == canonical_bytes(
                next_record(before, out@.actor_id, out@.payload, timestamp, outcome),
            ));
            assert forall|i: int| 0 <= i < rs.len() implies #[trigger] record_fault(rs, i).is_none() by {
                if i < before.len() {
                    assert(rs[i] == before[i]);
                    assert(record_fault(before, i).is_none());
                    if i > 0 {
                        assert(rs[i - 1] == before[i - 1]);
                    }
                } else {
                    if i > 0 {
                        assert(rs[i - 1] == before.last());
                    }
                }
            }
        }
        out
    }

    /// The digest the next record will link to.
    pub fn last_hash(&self) -> (r: &Vec<u8>)
        ensures
            r@ == self.spec_last_hash(),
    {
        &self.last_hash
    }

    /// The number of records.
    pub fn len(&self) -> (r: usize)
        ensures
            r == self.spec_records().len(),
    {
        self.records.len()
    }

    /// All records, in order.
    pub fn records(&self) -> (r: &Vec<LedgerRecord>)
        ensures
            views(r@) == self.spec_records(),
    {
        &self.records
    }

    /// The record at `position`, if there is one.
    pub fn record(&self, position: usize) -> (r: Option<&LedgerRecord>)
        ensures
            match r {
                Some(rec) => position < self.spec_records().len() && rec@ == self.spec_records()[
                    position as int
                ],
                None => position >= self.spec_records().len(),
            },
    {
        if position < self.records.len() {
            Some(&self.records[position])
        } else {
            None
        }
    }
}

/// Whether `next` links to `prev`.
pub fn link_holds(prev: &LedgerRecord, next: &LedgerRecord) -> (r: bool)
    ensures
        r == (next@.prev_hash == prev@.self_hash),
{
    bytes_equal(next.prev_hash.as_slice(), prev.self_hash.as_slice())
}

/// Relies on `rayon`'s `par_windows` and `ParallelIterator::all`: every
/// adjacent pair is tested, in parallel, with the verified `link_holds`, and
/// the result is true exactly when every test passed.
#[verifier::external_body]
fn all_pairs_linked(records: &[LedgerRecord]) -> (r: bool)
    ensures
        r == chain_linked(views(records@)),
{
    rayon::iter::ParallelIterator::all(
        rayon::slice::ParallelSlice::par_windows(records, 2),
        |w: &[LedgerRecord]| link_holds(&w[0], &w[1]),
    )
}

/// Whether each record links to the one before it. The pairs are
/// independent and are checked in parallel.
pub fn verify_chain(records: &[LedgerRecord]) -> (r: bool)
    ensures
        r == chain_linked(views(records@)),
{
    all_pairs_linked(records)
}

/// A chain built by `append` passes `verify_chain`.
pub proof fn lemma_appended_chain_verifies(l: MoralLedger)
    requires
        l.wf(),
    ensures
        chain_linked(l.spec_records()),
{
    let rs = l.spec_records();
    assert forall|i: int| 0 < i < rs.len() implies #[trigger] rs[i].prev_hash == rs[i - 1].self_hash by {
        assert(record_fault(rs, i).is_none());
    }
}

/// Replay finds no fault in a run whose records are all sound from `j` on.
proof fn lemma_replay_skips_sound(rs: Seq<RecordView>, j: int, i: int)
    requires
        0 <= j <= i,
        forall|m: int| j <= m < i && m < rs.len() ==> #[trigger] record_fault(rs, m).is_none(),
    ensures
        replay_fault(rs, j) == replay_fault(rs, i),
    decreases i - j,
{
    if j < i && j < rs.len() {
        assert(record_fault(rs, j).is_none());
        lemma_replay_skips_sound(rs, j + 1, i);
    } else if j < i {
        lemma_replay_past_end(rs, i);
        lemma_replay_past_end(rs, j);
    }
}

proof fn lemma_replay_past_end(rs: Seq<RecordView>, i: int)
    requires
        i >= rs.len(),
    ensures
        replay_fault(rs, i).is_none(),
{
}

/// Reopening is stable: the records of a ledger replay without fault and
/// recover its head, so replaying them any number of times yields the same
/// `last_hash`.
pub proof fn lemma_reopen_recovers_head(l: MoralLedger)
    requires
        l.wf(),
    ensures
        replay_fault(l.spec_records(), 0).is_none(),
        head_hash(l.spec_records()) == l.spec_last_hash(),
{
    let rs = l.spec_records();
    lemma_replay_skips_sound(rs, 0, rs.len() as int);
    lemma_replay_past_end(rs, rs.len() as int);
}

/// `r` with its payload replaced, digest left as it was.
pub open spec fn with_payload(r: RecordView, payload: Seq<u8>) -> RecordView {
    RecordView { payload, ..r }
}

/// `r` with its payload replaced and its digest recomputed.
pub open spec fn resealed_with_payload(r: RecordView, payload: Seq<u8>) -> RecordView {
    RecordView { self_hash: sha256_of(canonical_bytes(with_payload(r, payload))), ..with_payload(r, payload) }
}

/// Changing a record's payload changes its canonical form, the bytes its
/// digest is taken over.
pub proof fn lemma_payload_change_alters_canonical_form(r: RecordView, payload: Seq<u8>)
    requires
        payload != r.payload,
        payload.len() <= u64::MAX,
        r.payload.len() <= u64::MAX,
    ensures
        canonical_bytes(with_payload(r, payload)) != canonical_bytes(r),
{
    let t = with_payload(r, payload);
    let head = u64_be(r.sequence_id) + u64_be(r.timestamp as u64) + framed(r.prev_hash) + framed(
        encode_utf8(r.actor_id),
    );
    let tail = outcome_bytes(r.admission_outcome);
    let a = framed(r.payload);
    let b = framed(payload);
    assert(canonical_bytes(r) == head + a + tail);
    assert(canonical_bytes(t) == head + b + tail);
    if payload.len() != r.payload.len() {
        assert((head + b + tail).len() != (head + a + tail).len());
    } else {
        assert(!(payload =~= r.payload));
        let j = choose|j: int| 0 <= j < payload.len() && payload[j] != r.payload[j];
        assert(a[8 + j] == r.payload[j]);
        assert(b[8 + j] == payload[j]);
        assert((head + a)[head.len() + 8 + j] == r.payload[j]);
        assert((head + b)[head.len() + 8 + j] == payload[j]);
        assert((head + a + tail)[head.len() + 8 + j] == r.payload[j]);
        assert((head + b + tail)[head.len() + 8 + j] == payload[j]);
    }
}

/// Rewriting the payload of any record but the last, and resealing it with
/// a new digest, makes `verify_chain` fail on every stretch that starts at
/// or before that record and runs to the end; the next record still links
/// to the old digest. (A new digest equal to the old one would be a SHA-256
/// collision; that case is left out.)
pub proof fn lemma_tampering_breaks_chain(rs: Seq<RecordView>, i: int, payload: Seq<u8>, k: int)
    requires
        intact(rs),
        0 <= k <= i,
        i + 1 < rs.len(),
        resealed_with_payload(rs[i], payload).self_hash != rs[i].self_hash,
    ensures
        !chain_linked(rs.update(i, resealed_with_payload(rs[i], payload)).subrange(k, rs.len() as int)),
{
    let t = rs.update(i, resealed_with_payload(rs[i], payload));
    let s = t.subrange(k, rs.len() as int);
    assert(record_fault(rs, i + 1).is_none());
    assert(s[i + 1 - k] == rs[i + 1]);
    assert(s[i - k] == resealed_with_payload(rs[i], payload));
    assert(!(s[i + 1 - k].prev_hash == s[i + 1 - k - 1].self_hash));
}

/// Rewriting the payload of a record without resealing it is caught on
/// replay: taking the records up fails at that record with `HashMismatch`,
/// unless the new content happened to have the old digest.
pub proof fn lemma_tampering_detected_on_replay(rs: Seq<RecordView>, i: int, payload: Seq<u8>)
    requires
        intact(rs),
        0 <= i < rs.len(),
        sha256_of(canonical_bytes(with_payload(rs[i], payload))) != rs[i].self_hash,
    ensures
        replay_fault(rs.update(i, with_payload(rs[i], payload)), 0) == Some(
            ChainError::HashMismatch { position: i as usize },
        ),
{
    let t = rs.update(i, with_payload(rs[i], payload));
    assert forall|m: int| 0 <= m < i && m < t.len() implies #[trigger] record_fault(t, m).is_none() by {
        assert(record_fault(rs, m).is_none());
        assert(t[m] == rs[m]);
        if m > 0 {
            assert(t[m - 1] == rs[m - 1]);
        }
    }
    lemma_replay_skips_sound(t, 0, i);
    assert(record_fault(rs, i).is_none());
    if i > 0 {
        assert(t[i - 1] == rs[i - 1]);
    }
}

} // verus!
