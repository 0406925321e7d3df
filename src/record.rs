//! Ledger records, their canonical byte form and their digest.

use vstd::prelude::*;

use vstd::utf8::encode_utf8;

use crate::admission::Denied;

verus! {

/// Length of a record digest in bytes.
pub const HASH_LEN: usize = 32;

/// What became of the action a record stands for.
#[derive(Clone, Copy, Debug, PartialEq, Eq, Structural)]
pub enum AdmissionOutcome {
    Admitted,
    /// Logged for audit only; the action was refused.
    Denied(Denied),
}

/// One link of the hash chain. Created once, never changed afterwards.
#[derive(Clone, Debug, PartialEq, Eq)]
pub struct LedgerRecord {
    /// Position in the ledger, from zero.
    pub sequence_id: u64,
    /// Seconds since the Unix epoch.
    pub timestamp: i64,
    /// Digest of the previous record; all zero for the first.
    pub prev_hash: Vec<u8>,
    /// Digest of this record's canonical form.
    pub self_hash: Vec<u8>,
    pub actor_id: String,
    /// Opaque to the chain.
    pub payload: Vec<u8>,
    pub admission_outcome: AdmissionOutcome,
}

/// A record as mathematical values.
pub struct RecordView {
    pub sequence_id: u64,
    pub timestamp: i64,
    pub prev_hash: Seq<u8>,
    pub self_hash: Seq<u8>,
    pub actor_id: Seq<char>,
    pub payload: Seq<u8>,
    pub admission_outcome: AdmissionOutcome,
}

impl View for LedgerRecord {
    type V = RecordView;

    open spec fn view(&self) -> RecordView {
        RecordView {
            sequence_id: self.sequence_id,
            timestamp: self.timestamp,
            prev_hash: self.prev_hash@,
            self_hash: self.self_hash@,
            actor_id: self.actor_id@,
            payload: self.payload@,
            admission_outcome: self.admission_outcome,
        }
    }
}

/// The views of a run of records.
pub open spec fn views(rs: Seq<LedgerRecord>) -> Seq<RecordView> {
    rs.map_values(|r: LedgerRecord| r@)
}

/// The SHA-256 digest of a byte sequence.
pub uninterp spec fn sha256_of(data: Seq<u8>) -> Seq<u8>;

/// Relies on `sha2::Sha256::digest`: the SHA-256 digest of `data`, which
/// depends on the bytes alone and is 32 bytes long.
#[verifier::external_body]
fn sha256(data: &[u8]) -> (r: Vec<u8>)
    ensures
        r@ == sha256_of(data@),
        r@.len() == HASH_LEN,
{
    <sha2::Sha256 as sha2::Digest>::digest(data).to_vec()
}

/// The digest that the first record links to: all zero.
pub open spec fn genesis_hash() -> Seq<u8> {
    Seq::new(HASH_LEN as nat, |i: int| 0u8)
}

/// The all-zero digest that the first record links to.
pub fn genesis() -> (r: Vec<u8>)
    ensures
        r@ == genesis_hash(),
{
    let mut v: Vec<u8> = Vec::new();
    let mut i: usize = 0;
    while i < HASH_LEN
        invariant
            i <= HASH_LEN,
            v@ == Seq::new(i as nat, |k: int| 0u8),
        decreases HASH_LEN - i,
    {
        v.push(0u8);
        i = i + 1;
    }
    v
}

/// Eight bytes, most significant first.
pub open spec fn u64_be(x: u64) -> Seq<u8> {
    seq![
        (x / 0x100000000000000) as u8,
        ((x / 0x1000000000000) % 256) as u8,
        ((x / 0x10000000000) % 256) as u8,
        ((x / 0x100000000) % 256) as u8,
        ((x / 0x1000000) % 256) as u8,
        ((x / 0x10000) % 256) as u8,
        ((x / 0x100) % 256) as u8,
        (x % 256) as u8,
    ]
}

/// A byte string preceded by its length.
pub open spec fn framed(b: Seq<u8>) -> Seq<u8> {
    u64_be(b.len() as u64) + b
}

/// The outcome as one tag byte, and the reason's code after a refusal.
pub open spec fn outcome_bytes(o: AdmissionOutcome) -> Seq<u8> {
    match o {
        AdmissionOutcome::Admitted => seq![0u8],
        AdmissionOutcome::Denied(d) => seq![1u8, denied_code(d)],
    }
}

/// A stable code for each reason of refusal.
pub open spec fn denied_code(d: Denied) -> u8 {
    match d {
        Denied::NoRouteEnvelope => 0,
        Denied::PowerExceeded => 1,
        Denied::EnergyExceeded => 2,
        Denied::ComputeExceeded => 3,
        Denied::MissingEquityClass => 4,
        Denied::UnknownEquityClass => 5,
        Denied::EquityMaxExceeded => 6,
        Denied::RiskMonotonicity => 7,
        Denied::RiskCeiling => 8,
    }
}

/// The canonical form of a record, which its digest is taken over: every
/// field but the digest itself, in a fixed order, integers big-endian and
/// byte strings preceded by their length.
pub open spec fn canonical_bytes(r: RecordView) -> Seq<u8> {
    u64_be(r.sequence_id) + u64_be(r.timestamp as u64) + framed(r.prev_hash) + framed(
        encode_utf8(r.actor_id),
    ) + framed(r.payload) + outcome_bytes(r.admission_outcome)
}

/// The record carries the digest of its own canonical form.
pub open spec fn sealed(r: RecordView) -> bool {
    r.self_hash == sha256_of(canonical_bytes(r))
}

fn push_u64_be(out: &mut Vec<u8>, x: u64)
    ensures
        final(out)@ == old(out)@ + u64_be(x),
{
    out.push((x / 0x100000000000000) as u8);
    out.push(((x / 0x1000000000000) % 256) as u8);
    out.push(((x / 0x10000000000) % 256) as u8);
    out.push(((x / 0x100000000) % 256) as u8);
    out.push(((x / 0x1000000) % 256) as u8);
    out.push(((x / 0x10000) % 256) as u8);
    out.push(((x / 0x100) % 256) as u8);
    out.push((x % 256) as u8);
    assert(final(out)@ =~= old(out)@ + u64_be(x));
}

fn push_bytes(out: &mut Vec<u8>, b: &[u8])
    ensures
        final(out)@ == old(out)@ + b@,
{
    let ghost start = out@;
    let mut i: usize = 0;
    while i < b.len()
        invariant
            i <= b.len(),
            out@ == start + b@.take(i as int),
        decreases b.len() - i,
    {
        out.push(b[i]);
        i = i + 1;
        assert(out@ =~= start + b@.take(i as int));
    }
    assert(b@.take(b.len() as int) =~= b@);
}

fn push_framed(out: &mut Vec<u8>, b: &[u8])
    ensures
        final(out)@ == old(out)@ + framed(b@),
{
    push_u64_be(out, b.len() as u64);
    push_bytes(out, b);
    assert(final(out)@ =~= old(out)@ + framed(b@));
}

/// The code of a reason of refusal.
pub fn denied_code_of(d: Denied) -> (r: u8)
    ensures
        r == denied_code(d),
{
    match d {
        Denied::NoRouteEnvelope => 0,
        Denied::PowerExceeded => 1,
        Denied::EnergyExceeded => 2,
        Denied::ComputeExceeded => 3,
        Denied::MissingEquityClass => 4,
        Denied::UnknownEquityClass => 5,
        Denied::EquityMaxExceeded => 6,
        Denied::RiskMonotonicity => 7,
        Denied::RiskCeiling => 8,
    }
}

/// Whether two byte strings are equal.
pub fn bytes_equal(a: &[u8], b: &[u8]) -> (r: bool)
    ensures
        r == (a@ == b@),
{
    if a.len() != b.len() {
        return false;
    }
    let mut i: usize = 0;
    while i < a.len()
        invariant
            a.len() == b.len(),
            i <= a.len(),
            forall|k: int| 0 <= k < i ==> a@[k] == b@[k],
        decreases a.len() - i,
    {
        if a[i] != b[i] {
            return false;
        }
        i = i + 1;
    }
    assert(a@ =~= b@);
    true
}

impl LedgerRecord {
    /// The canonical form of this record.
    pub fn canonical_form(&self) -> (r: Vec<u8>)
        ensures
            r@ == canonical_bytes(self@),
    {
        let mut out: Vec<u8> = Vec::new();
        push_u64_be(&mut out, self.sequence_id);
        push_u64_be(&mut out, self.timestamp as u64);
        push_framed(&mut out, self.prev_hash.as_slice());
        push_framed(&mut out, self.actor_id.as_str().as_bytes());
        push_framed(&mut out, self.payload.as_slice());
        match self.admission_outcome {
            AdmissionOutcome::Admitted => {
                out.push(0u8);
            },
            AdmissionOutcome::Denied(d) => {
                out.push(1u8);
                out.push(denied_code_of(d));
            },
        }
        assert(out@ =~= canonical_bytes(self@));
        out
    }

    /// The digest of this record's canonical form.
    pub fn compute_self_hash(&self) -> (r: Vec<u8>)
        ensures
            r@ == sha256_of(canonical_bytes(self@)),
            r@.len() == HASH_LEN,
    {
        let bytes = self.canonical_form();
        sha256(bytes.as_slice())
    }

    /// Whether the stored digest is the digest of the record's canonical form.
    pub fn is_sealed(&self) -> (r: bool)
        ensures
            r == sealed(self@),
    {
        let h = self.compute_self_hash();
        bytes_equal(h.as_slice(), self.self_hash.as_slice())
    }

    /// A field-for-field copy.
    pub fn duplicate(&self) -> (r: LedgerRecord)
        ensures
            r@ == self@,
    {
        LedgerRecord {
            sequence_id: self.sequence_id,
            timestamp: self.timestamp,
            prev_hash: copy_bytes(&self.prev_hash),
            self_hash: copy_bytes(&self.self_hash),
            actor_id: self.actor_id.clone(),
            payload: copy_bytes(&self.payload),
            admission_outcome: self.admission_outcome,
        }
    }
}

/// A copy of a byte vector.
pub fn copy_bytes(b: &Vec<u8>) -> (r: Vec<u8>)
    ensures
        r@ == b@,
{
    let mut out: Vec<u8> = Vec::new();
    push_bytes(&mut out, b.as_slice());
    out
}

} // verus!
