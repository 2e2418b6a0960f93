//! The end of a gate run: which records failed, the receipt chain, the
//! pass verdict and the run receipt that commits to everything.
use vstd::prelude::*;
use crate::text::{chars_of, push_all, push_str, string_of};
use crate::json::{json_array, json_array_of, json_str, json_views, key, push_json_string, push_key, JsonRecord};
use crate::digest::{digest_of, digest_of_bytes, sha256_bytes, sha256_text};
use crate::models::{
    action_name, status_name, ClaimAction, ClaimStatus, GatePolicy, OutputArtifacts,
    OutputArtifactsView, RunCounts, RunReceipt, RunReceiptView, VerificationRecord,
    VerificationRecordView, json_run_receipt,
};
use crate::verify::{count_status, counts, counts_spec, statuses};
use crate::emit::record_views;

verus! {

/// One link of the receipt chain: what became of one citation.
#[derive(Debug, Clone)]
pub struct ReceiptLink {
    pub action: ClaimAction,
    pub claim_id: String,
    pub raw: String,
    pub receipt_digest: String,
    pub status: ClaimStatus,
}

/// The mathematical value of a [`ReceiptLink`].
pub struct ReceiptLinkView {
    pub action: ClaimAction,
    pub claim_id: Seq<char>,
    pub raw: Seq<char>,
    pub receipt_digest: Seq<char>,
    pub status: ClaimStatus,
}

impl View for ReceiptLink {
    type V = ReceiptLinkView;

    open spec fn view(&self) -> ReceiptLinkView {
        ReceiptLinkView {
            action: self.action,
            claim_id: self.claim_id@,
            raw: self.raw@,
            receipt_digest: self.receipt_digest@,
            status: self.status,
        }
    }
}

/// The JSON text of a receipt chain link (keys in alphabetical order).
pub open spec fn json_receipt_link(v: ReceiptLinkView) -> Seq<char> {
    "{"@ + key("action"@) + json_str(action_name(v.action))
        + ","@ + key("claim_id"@) + json_str(v.claim_id)
        + ","@ + key("raw"@) + json_str(v.raw)
        + ","@ + key("receipt_digest"@) + json_str(v.receipt_digest)
        + ","@ + key("status"@) + json_str(status_name(v.status))
        + "}"@
}

impl JsonRecord for ReceiptLink {
    open spec fn json_view(&self) -> Seq<char> {
        json_receipt_link(self@)
    }

    fn to_json(&self) -> (r: Vec<char>) {
        let mut out = chars_of("{");
        push_key(&mut out, "action");
        self.action.push_json(&mut out);
        push_str(&mut out, ",");
        push_key(&mut out, "claim_id");
        push_json_string(&mut out, &self.claim_id);
        push_str(&mut out, ",");
        push_key(&mut out, "raw");
        push_json_string(&mut out, &self.raw);
        push_str(&mut out, ",");
        push_key(&mut out, "receipt_digest");
        push_json_string(&mut out, &self.receipt_digest);
        push_str(&mut out, ",");
        push_key(&mut out, "status");
        self.status.push_json(&mut out);
        push_str(&mut out, "}");
        out
    }
}

/// Whether a status fails the run (blocked or ambiguous).
pub open spec fn is_failed(st: ClaimStatus) -> bool {
    st == ClaimStatus::Blocked || st == ClaimStatus::Ambiguous
}

/// The records that failed, in order.
pub open spec fn failed_spec(s: Seq<VerificationRecordView>) -> Seq<VerificationRecordView>
    decreases s.len(),
{
    if s.len() == 0 {
        seq![]
    } else {
        failed_spec(s.drop_last()) + if is_failed(s.last().status) {
            seq![s.last()]
        } else {
            seq![]
        }
    }
}

/// The receipt chain link of a record.
pub open spec fn link_of(r: VerificationRecordView) -> ReceiptLinkView {
    ReceiptLinkView {
        action: r.action,
        claim_id: r.claim.claim_id,
        raw: r.claim.raw,
        receipt_digest: r.receipt_digest,
        status: r.status,
    }
}

/// Whether a run passes: no citation was blocked and none is ambiguous.
pub open spec fn run_passed(c: RunCounts) -> bool {
    c.blocked == 0 && c.ambiguous == 0
}

/// The run receipt before its digest is computed.
#[verifier::opaque]
pub open spec fn run_receipt_body(
    records: Seq<VerificationRecord>,
    input_path: Seq<char>,
    input: Seq<u8>,
    created_at: Seq<char>,
    version: Seq<char>,
    policy: GatePolicy,
    artifacts: OutputArtifactsView,
) -> RunReceiptView {
    let c = counts_spec(statuses(records));
    RunReceiptView {
        run_id: digest_of(json_array(json_views(records))),
        tool: "Cite Right"@,
        version: version,
        created_at: created_at,
        input_path: input_path,
        input_digest: digest_of_bytes(input),
        policy: policy@,
        counts: c@,
        artifacts: artifacts,
        verified: run_passed(c),
        receipt_digest: "pending"@,
    }
}

/// The run receipt: the run identifier commits to the records, and the
/// receipt digest to the receipt written with digest `pending`.
pub open spec fn run_receipt_spec(
    records: Seq<VerificationRecord>,
    input_path: Seq<char>,
    input: Seq<u8>,
    created_at: Seq<char>,
    version: Seq<char>,
    policy: GatePolicy,
    artifacts: OutputArtifactsView,
) -> RunReceiptView {
    let body = run_receipt_body(records, input_path, input, created_at, version, policy, artifacts);
    RunReceiptView { receipt_digest: digest_of(json_run_receipt(body)), ..body }
}

/// The records that were blocked or left ambiguous, in order.
pub fn failed_records(records: &[VerificationRecord]) -> (r: Vec<VerificationRecord>)
    ensures
        record_views(r@) == failed_spec(record_views(records@)),
{
    let ghost rv = record_views(records@);
    let mut out: Vec<VerificationRecord> = Vec::new();
    for i in 0..records.len()
        invariant
            rv == record_views(records@),
            record_views(out@) == failed_spec(rv.take(i as int)),
    {
        assert(rv.take(i + 1).drop_last() =~= rv.take(i as int));
        assert(rv.take(i + 1).last() == records@[i as int]@);
        let ghost before = out@;
        let st = records[i].status;
        if st == ClaimStatus::Blocked || st == ClaimStatus::Ambiguous {
            let c = records[i].duplicate();
            out.push(c);
            assert(record_views(out@) =~= record_views(before).push(c@));
        }
        assert(record_views(out@) =~= failed_spec(rv.take(i + 1)));
    }
    assert(rv.take(records@.len() as int) =~= rv);
    out
}

/// The receipt chain: one link per record, in order.
pub fn receipt_chain(records: &[VerificationRecord]) -> (r: Vec<ReceiptLink>)
    ensures
        r@.len() == records@.len(),
        forall|i: int| 0 <= i < r@.len() ==> #[trigger] r@[i]@ == link_of(records@[i]@),
{
    let mut out: Vec<ReceiptLink> = Vec::new();
    for i in 0..records.len()
        invariant
            out@.len() == i,
            forall|j: int| 0 <= j < i ==> #[trigger] out@[j]@ == link_of(records@[j]@),
    {
        let r = &records[i];
        out.push(
            ReceiptLink {
                action: r.action,
                claim_id: r.claim.claim_id.clone(),
                raw: r.claim.raw.clone(),
                receipt_digest: r.receipt_digest.clone(),
                status: r.status,
            },
        );
    }
    out
}

/// The policy of a run: the two switches given, every other rule on.
pub fn run_policy(block_unverified: bool, heal_unique_normalized: bool) -> (r: GatePolicy)
    ensures
        r.block_unverified == block_unverified,
        r.heal_unique_normalized == heal_unique_normalized,
        r.require_single_cluster,
        r.require_quote_match_when_present,
{
    let d = GatePolicy::default();
    GatePolicy { block_unverified, heal_unique_normalized, ..d }
}

/// Whether a run passes: nothing blocked and nothing ambiguous.
pub fn run_verified(c: &RunCounts) -> (r: bool)
    ensures
        r == run_passed(*c),
{
    c.blocked == 0 && c.ambiguous == 0
}

/// The exit status of a run: 1 when the policy blocks unverified citations
/// and the run did not pass, 0 otherwise.
pub fn run_exit_code(policy: &GatePolicy, c: &RunCounts) -> (r: i32)
    ensures
        r == (if policy.block_unverified && !run_passed(*c) {
            1i32
        } else {
            0i32
        }),
{
    if policy.block_unverified && !run_verified(c) {
        1
    } else {
        0
    }
}

/// The run receipt body, with digest `pending`.
fn run_body(
    records: &[VerificationRecord],
    input_path: &str,
    input: &[u8],
    created_at: &str,
    version: &str,
    policy: GatePolicy,
    artifacts: OutputArtifacts,
) -> (r: RunReceipt)
    ensures
        r@ == run_receipt_body(
            records@,
            input_path@,
            input@,
            created_at@,
            version@,
            policy,
            artifacts@,
        ),
{
    let c = counts(records);
    let verified = run_verified(&c);
    let r = RunReceipt {
        run_id: sha256_text(&json_array_of(records)),
        tool: string_of(&chars_of("Cite Right")),
        version: string_of(&chars_of(version)),
        created_at: string_of(&chars_of(created_at)),
        input_path: string_of(&chars_of(input_path)),
        input_digest: sha256_bytes(input),
        policy: policy,
        counts: c,
        artifacts: artifacts,
        verified: verified,
        receipt_digest: string_of(&chars_of("pending")),
    };
    proof {
        reveal(run_receipt_body);
    }
    r
}

/// Builds the run receipt: the run identifier is the digest of the JSON
/// array of the records, the counts and the pass verdict come from the
/// records' statuses, the input digest from the input bytes, and the
/// receipt digest commits to the receipt written with digest `pending`.
pub fn build_run_receipt(
    records: &[VerificationRecord],
    input_path: &str,
    input: &[u8],
    created_at: &str,
    version: &str,
    policy: GatePolicy,
    artifacts: OutputArtifacts,
) -> (r: RunReceipt)
    ensures
        r@ == run_receipt_spec(
            records@,
            input_path@,
            input@,
            created_at@,
            version@,
            policy,
            artifacts@,
        ),
{
    let mut r = run_body(records, input_path, input, created_at, version, policy, artifacts);
    let json = r.to_json();
    r.receipt_digest = sha256_text(&json);
    r
}

/// A run passes exactly when no record was blocked or left ambiguous.
pub proof fn law_run_passes_iff_nothing_failed(s: Seq<VerificationRecord>)
    requires
        s.len() <= usize::MAX,
    ensures
        run_passed(counts_spec(statuses(s))) <==> failed_spec(record_views(s)).len() == 0,
{
    lemma_failed_count(s);
}

proof fn lemma_failed_count(s: Seq<VerificationRecord>)
    ensures
        failed_spec(record_views(s)).len() == count_status(statuses(s), ClaimStatus::Blocked)
            + count_status(statuses(s), ClaimStatus::Ambiguous),
        count_status(statuses(s), ClaimStatus::Blocked) <= s.len(),
        count_status(statuses(s), ClaimStatus::Ambiguous) <= s.len(),
    decreases s.len(),
{
    if s.len() > 0 {
        let d = s.drop_last();
        lemma_failed_count(d);
        assert(record_views(s).drop_last() =~= record_views(d));
        assert(statuses(s).drop_last() =~= statuses(d));
    }
}

} // verus!
