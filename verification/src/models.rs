//! Shared records: citation claims, lookup results, verification records
//! and the policy a verification run applies.
use vstd::prelude::*;
use crate::text::{chars_of, push_all, push_str};
use crate::json::{
    decimal, json_array, json_bool, json_opt_int, json_opt_str, json_str, json_str_array, key,
    opt_int, opt_u16, opt_view, push_bool, push_decimal, push_json_lit, push_json_string, push_key,
    push_opt_int, push_opt_string, push_opt_u16, push_str_array, str_views, json_array_of,
    copy_opt_string, copy_strings, JsonRecord,
};

verus! {

/// The rules a verification run applies. Classification requires exactly
/// one canonical cluster whatever `require_single_cluster` says; that switch
/// and `require_quote_match_when_present` are recorded with the run.
#[derive(Debug, Clone, Copy, PartialEq, Eq, Structural)]
pub struct GatePolicy {
    pub block_unverified: bool,
    pub heal_unique_normalized: bool,
    pub require_single_cluster: bool,
    pub require_quote_match_when_present: bool,
}

impl Default for GatePolicy {
    /// Every rule switched on.
    fn default() -> (p: Self)
        ensures
            p.block_unverified,
            p.heal_unique_normalized,
            p.require_single_cluster,
            p.require_quote_match_when_present,
    {
        GatePolicy {
            block_unverified: true,
            heal_unique_normalized: true,
            require_single_cluster: true,
            require_quote_match_when_present: true,
        }
    }
}

/// How many claims of each status a run produced.
#[derive(Debug, Clone, Copy, PartialEq, Eq, Structural)]
pub struct RunCounts {
    pub extracted_citations: usize,
    pub verified: usize,
    pub healed: usize,
    pub ambiguous: usize,
    pub blocked: usize,
}

/// Paths of the files a verification run writes.
#[derive(Debug, Clone)]
pub struct OutputArtifacts {
    pub verified_brief_md: String,
    pub failed_claims_json: String,
    pub citations_json: String,
    pub receipt_chain_json: String,
    pub run_receipt_json: String,
}

/// A citation found in a document, with its byte span and context.
#[derive(Debug, Clone)]
pub struct CitationClaim {
    pub claim_id: String,
    pub raw: String,
    pub normalized_guess: String,
    pub start_index: usize,
    pub end_index: usize,
    pub context_before: String,
    pub context_after: String,
    pub quoted_text: Option<String>,
}

/// A claim with the lookup result it was judged on and the verdict.
#[derive(Debug, Clone)]
pub struct VerificationRecord {
    pub claim: CitationClaim,
    pub lookup: LookupRecord,
    pub status: ClaimStatus,
    pub reason: String,
    pub action: ClaimAction,
    pub receipt_digest: String,
}

/// The verdict on one citation.
#[derive(Debug, Clone, Copy, PartialEq, Eq, Structural)]
pub enum ClaimStatus {
    Verified,
    Healed,
    Ambiguous,
    Blocked,
}

/// What the emitted document does with a citation.
#[derive(Debug, Clone, Copy, PartialEq, Eq, Structural)]
pub enum ClaimAction {
    Keep,
    ReplaceWithNormalized,
    BlockOrRedact,
}

/// Why a citation could not be verified.
#[derive(Debug, Clone, Copy, PartialEq, Eq, Structural)]
pub enum UnverifiedReason {
    NotFound,
    Ambiguous,
    ApiError,
    DigestMismatch,
}

/// Whether a case artifact stands for a verified citation.
#[derive(Debug, Clone, Copy, PartialEq, Eq, Structural)]
pub enum VerificationStatus {
    Verified,
    Unverified { reason: UnverifiedReason },
}

/// The answer of the lookup source for one citation.
#[derive(Debug, Clone)]
pub struct LookupRecord {
    pub source: String,
    pub request_digest: String,
    pub http_status: Option<u16>,
    pub api_status: Option<u16>,
    pub raw_citation: String,
    pub normalized_citations: Vec<String>,
    pub clusters: Vec<CanonicalCluster>,
    pub error_message: String,
    pub raw_response_digest: String,
}

/// A case (opinion cluster) that a citation resolved to.
#[derive(Debug, Clone)]
pub struct CanonicalCluster {
    pub id: Option<i64>,
    pub case_name: Option<String>,
    pub absolute_url: Option<String>,
    pub date_filed: Option<String>,
    pub citations: Vec<ClusterCitation>,
}

/// One reporter citation of a cluster.
#[derive(Debug, Clone)]
pub struct ClusterCitation {
    pub volume: Option<i64>,
    pub reporter: Option<String>,
    pub page: Option<String>,
    pub citation_type: Option<i64>,
}

/// The record of one verification run.
#[derive(Debug, Clone)]
pub struct RunReceipt {
    pub run_id: String,
    pub tool: String,
    pub version: String,
    pub created_at: String,
    pub input_path: String,
    pub input_digest: String,
    pub policy: GatePolicy,
    pub counts: RunCounts,
    pub artifacts: OutputArtifacts,
    pub verified: bool,
    pub receipt_digest: String,
}

/// The JSON text of a verification status: the unit variant as a string,
/// the other as an object keyed by the variant.
pub open spec fn json_verification_status(s: VerificationStatus) -> Seq<char> {
    match s {
        VerificationStatus::Verified => json_str("VERIFIED"@),
        VerificationStatus::Unverified { reason } => "{"@ + key("UNVERIFIED"@) + "{"@ + key(
            "reason"@,
        ) + json_str(reason_name(reason)) + "}"@ + "}"@,
    }
}

impl VerificationStatus {
    /// Appends the JSON text of this status.
    pub fn push_json(&self, out: &mut Vec<char>)
        ensures
            final(out)@ == old(out)@ + json_verification_status(*self),
    {
        match self {
            VerificationStatus::Verified => push_json_lit(out, "VERIFIED"),
            VerificationStatus::Unverified { reason } => {
                push_str(out, "{");
                push_key(out, "UNVERIFIED");
                push_str(out, "{");
                push_key(out, "reason");
                reason.push_json(out);
                push_str(out, "}");
                push_str(out, "}");
            },
        }
    }
}

impl ClusterCitation {
    /// A copy of this citation.
    pub fn duplicate(&self) -> (r: Self)
        ensures
            r@ == self@,
    {
        ClusterCitation {
            volume: self.volume,
            reporter: copy_opt_string(&self.reporter),
            page: copy_opt_string(&self.page),
            citation_type: self.citation_type,
        }
    }
}

impl CanonicalCluster {
    /// A copy of this cluster.
    pub fn duplicate(&self) -> (r: Self)
        ensures
            r@ == self@,
    {
        let mut cs: Vec<ClusterCitation> = Vec::new();
        for i in 0..self.citations.len()
            invariant
                cs@.len() == i,
                forall|j: int| 0 <= j < i ==> #[trigger] cs@[j]@ == self.citations@[j]@,
        {
            cs.push(self.citations[i].duplicate());
        }
        let r = CanonicalCluster {
            id: self.id,
            case_name: copy_opt_string(&self.case_name),
            absolute_url: copy_opt_string(&self.absolute_url),
            date_filed: copy_opt_string(&self.date_filed),
            citations: cs,
        };
        assert(r@.citations =~= self@.citations);
        r
    }
}

/// A copy of a vector of clusters.
pub fn copy_clusters(v: &Vec<CanonicalCluster>) -> (r: Vec<CanonicalCluster>)
    ensures
        r@.map_values(|x: CanonicalCluster| x@) == v@.map_values(|x: CanonicalCluster| x@),
{
    let mut r: Vec<CanonicalCluster> = Vec::new();
    for i in 0..v.len()
        invariant
            r@.len() == i,
            forall|j: int| 0 <= j < i ==> #[trigger] r@[j]@ == v@[j]@,
    {
        r.push(v[i].duplicate());
    }
    assert(r@.map_values(|x: CanonicalCluster| x@) =~= v@.map_values(|x: CanonicalCluster| x@));
    r
}

impl LookupRecord {
    /// A copy of this record.
    pub fn duplicate(&self) -> (r: Self)
        ensures
            r@ == self@,
    {
        LookupRecord {
            source: self.source.clone(),
            request_digest: self.request_digest.clone(),
            http_status: self.http_status,
            api_status: self.api_status,
            raw_citation: self.raw_citation.clone(),
            normalized_citations: copy_strings(&self.normalized_citations),
            clusters: copy_clusters(&self.clusters),
            error_message: self.error_message.clone(),
            raw_response_digest: self.raw_response_digest.clone(),
        }
    }
}

impl VerificationRecord {
    /// A copy of this record.
    pub fn duplicate(&self) -> (r: Self)
        ensures
            r@ == self@,
    {
        VerificationRecord {
            claim: self.claim.duplicate(),
            lookup: self.lookup.duplicate(),
            status: self.status,
            reason: self.reason.clone(),
            action: self.action,
            receipt_digest: self.receipt_digest.clone(),
        }
    }
}

impl CitationClaim {
    /// A copy of this claim.
    pub fn duplicate(&self) -> (r: Self)
        ensures
            r@ == self@,
    {
        CitationClaim {
            claim_id: self.claim_id.clone(),
            raw: self.raw.clone(),
            normalized_guess: self.normalized_guess.clone(),
            start_index: self.start_index,
            end_index: self.end_index,
            context_before: self.context_before.clone(),
            context_after: self.context_after.clone(),
            quoted_text: copy_opt_string(&self.quoted_text),
        }
    }
}

/// The serialized name of a claim status.
pub open spec fn status_name(x: ClaimStatus) -> Seq<char> {
    match x {
        ClaimStatus::Verified => "VERIFIED"@,
        ClaimStatus::Healed => "HEALED"@,
        ClaimStatus::Ambiguous => "AMBIGUOUS"@,
        ClaimStatus::Blocked => "BLOCKED"@,
    }
}

impl ClaimStatus {
    /// Appends the JSON string that names this variant.
    pub fn push_json(&self, out: &mut Vec<char>)
        ensures
            final(out)@ == old(out)@ + json_str(status_name(*self)),
    {
        match self {
            ClaimStatus::Verified => push_json_lit(out, "VERIFIED"),
            ClaimStatus::Healed => push_json_lit(out, "HEALED"),
            ClaimStatus::Ambiguous => push_json_lit(out, "AMBIGUOUS"),
            ClaimStatus::Blocked => push_json_lit(out, "BLOCKED"),
        }
    }
}

/// The serialized name of a claim action.
pub open spec fn action_name(x: ClaimAction) -> Seq<char> {
    match x {
        ClaimAction::Keep => "KEEP"@,
        ClaimAction::ReplaceWithNormalized => "REPLACE_WITH_NORMALIZED"@,
        ClaimAction::BlockOrRedact => "BLOCK_OR_REDACT"@,
    }
}

impl ClaimAction {
    /// Appends the JSON string that names this variant.
    pub fn push_json(&self, out: &mut Vec<char>)
        ensures
            final(out)@ == old(out)@ + json_str(action_name(*self)),
    {
        match self {
            ClaimAction::Keep => push_json_lit(out, "KEEP"),
            ClaimAction::ReplaceWithNormalized => push_json_lit(out, "REPLACE_WITH_NORMALIZED"),
            ClaimAction::BlockOrRedact => push_json_lit(out, "BLOCK_OR_REDACT"),
        }
    }
}

/// The serialized name of an unverified reason.
pub open spec fn reason_name(x: UnverifiedReason) -> Seq<char> {
    match x {
        UnverifiedReason::NotFound => "NOT_FOUND"@,
        UnverifiedReason::Ambiguous => "AMBIGUOUS"@,
        UnverifiedReason::ApiError => "API_ERROR"@,
        UnverifiedReason::DigestMismatch => "DIGEST_MISMATCH"@,
    }
}

impl UnverifiedReason {
    /// Appends the JSON string that names this variant.
    pub fn push_json(&self, out: &mut Vec<char>)
        ensures
            final(out)@ == old(out)@ + json_str(reason_name(*self)),
    {
        match self {
            UnverifiedReason::NotFound => push_json_lit(out, "NOT_FOUND"),
            UnverifiedReason::Ambiguous => push_json_lit(out, "AMBIGUOUS"),
            UnverifiedReason::ApiError => push_json_lit(out, "API_ERROR"),
            UnverifiedReason::DigestMismatch => push_json_lit(out, "DIGEST_MISMATCH"),
        }
    }
}

/// The mathematical value of a [`GatePolicy`].
pub struct GatePolicyView {
    pub block_unverified: bool,
    pub heal_unique_normalized: bool,
    pub require_single_cluster: bool,
    pub require_quote_match_when_present: bool,
}

impl View for GatePolicy {
    type V = GatePolicyView;

    open spec fn view(&self) -> GatePolicyView {
        GatePolicyView {
            block_unverified: self.block_unverified,
            heal_unique_normalized: self.heal_unique_normalized,
            require_single_cluster: self.require_single_cluster,
            require_quote_match_when_present: self.require_quote_match_when_present,
        }
    }
}

/// The JSON text of a gate policy.
pub open spec fn json_gate_policy(v: GatePolicyView) -> Seq<char> {
    "{"@ + key("block_unverified"@) + json_bool(v.block_unverified)
        + ","@ + key("heal_unique_normalized"@) + json_bool(v.heal_unique_normalized)
        + ","@ + key("require_single_cluster"@) + json_bool(v.require_single_cluster)
        + ","@ + key("require_quote_match_when_present"@) + json_bool(v.require_quote_match_when_present)
        + "}"@
}

impl JsonRecord for GatePolicy {
    open spec fn json_view(&self) -> Seq<char> {
        json_gate_policy(self@)
    }

    fn to_json(&self) -> (r: Vec<char>) {
        let mut out = chars_of("{");
        push_key(&mut out, "block_unverified");
        push_bool(&mut out, self.block_unverified);
        push_str(&mut out, ",");
        push_key(&mut out, "heal_unique_normalized");
        push_bool(&mut out, self.heal_unique_normalized);
        push_str(&mut out, ",");
        push_key(&mut out, "require_single_cluster");
        push_bool(&mut out, self.require_single_cluster);
        push_str(&mut out, ",");
        push_key(&mut out, "require_quote_match_when_present");
        push_bool(&mut out, self.require_quote_match_when_present);
        push_str(&mut out, "}");
        out
    }
}

/// The mathematical value of a [`RunCounts`].
pub struct RunCountsView {
    pub extracted_citations: nat,
    pub verified: nat,
    pub healed: nat,
    pub ambiguous: nat,
    pub blocked: nat,
}

impl View for RunCounts {
    type V = RunCountsView;

    open spec fn view(&self) -> RunCountsView {
        RunCountsView {
            extracted_citations: self.extracted_citations as nat,
            verified: self.verified as nat,
            healed: self.healed as nat,
            ambiguous: self.ambiguous as nat,
            blocked: self.blocked as nat,
        }
    }
}

/// The JSON text of run counts.
pub open spec fn json_run_counts(v: RunCountsView) -> Seq<char> {
    "{"@ + key("extracted_citations"@) + decimal(v.extracted_citations)
        + ","@ + key("verified"@) + decimal(v.verified)
        + ","@ + key("healed"@) + decimal(v.healed)
        + ","@ + key("ambiguous"@) + decimal(v.ambiguous)
        + ","@ + key("blocked"@) + decimal(v.blocked)
        + "}"@
}

impl JsonRecord for RunCounts {
    open spec fn json_view(&self) -> Seq<char> {
        json_run_counts(self@)
    }

    fn to_json(&self) -> (r: Vec<char>) {
        let mut out = chars_of("{");
        push_key(&mut out, "extracted_citations");
        push_decimal(&mut out, self.extracted_citations as u64);
        push_str(&mut out, ",");
        push_key(&mut out, "verified");
        push_decimal(&mut out, self.verified as u64);
        push_str(&mut out, ",");
        push_key(&mut out, "healed");
        push_decimal(&mut out, self.healed as u64);
        push_str(&mut out, ",");
        push_key(&mut out, "ambiguous");
        push_decimal(&mut out, self.ambiguous as u64);
        push_str(&mut out, ",");
        push_key(&mut out, "blocked");
        push_decimal(&mut out, self.blocked as u64);
        push_str(&mut out, "}");
        out
    }
}

/// The mathematical value of a [`OutputArtifacts`].
pub struct OutputArtifactsView {
    pub verified_brief_md: Seq<char>,
    pub failed_claims_json: Seq<char>,
    pub citations_json: Seq<char>,
    pub receipt_chain_json: Seq<char>,
    pub run_receipt_json: Seq<char>,
}

impl View for OutputArtifacts {
    type V = OutputArtifactsView;

    open spec fn view(&self) -> OutputArtifactsView {
        OutputArtifactsView {
            verified_brief_md: self.verified_brief_md@,
            failed_claims_json: self.failed_claims_json@,
            citations_json: self.citations_json@,
            receipt_chain_json: self.receipt_chain_json@,
            run_receipt_json: self.run_receipt_json@,
        }
    }
}

/// The JSON text of the output artifact paths.
pub open spec fn json_output_artifacts(v: OutputArtifactsView) -> Seq<char> {
    "{"@ + key("verified_brief_md"@) + json_str(v.verified_brief_md)
        + ","@ + key("failed_claims_json"@) + json_str(v.failed_claims_json)
        + ","@ + key("citations_json"@) + json_str(v.citations_json)
        + ","@ + key("receipt_chain_json"@) + json_str(v.receipt_chain_json)
        + ","@ + key("run_receipt_json"@) + json_str(v.run_receipt_json)
        + "}"@
}

impl JsonRecord for OutputArtifacts {
    open spec fn json_view(&self) -> Seq<char> {
        json_output_artifacts(self@)
    }

    fn to_json(&self) -> (r: Vec<char>) {
        let mut out = chars_of("{");
        push_key(&mut out, "verified_brief_md");
        push_json_string(&mut out, &self.verified_brief_md);
        push_str(&mut out, ",");
        push_key(&mut out, "failed_claims_json");
        push_json_string(&mut out, &self.failed_claims_json);
        push_str(&mut out, ",");
        push_key(&mut out, "citations_json");
        push_json_string(&mut out, &self.citations_json);
        push_str(&mut out, ",");
        push_key(&mut out, "receipt_chain_json");
        push_json_string(&mut out, &self.receipt_chain_json);
        push_str(&mut out, ",");
        push_key(&mut out, "run_receipt_json");
        push_json_string(&mut out, &self.run_receipt_json);
        push_str(&mut out, "}");
        out
    }
}

/// The mathematical value of a [`CitationClaim`].
pub struct CitationClaimView {
    pub claim_id: Seq<char>,
    pub raw: Seq<char>,
    pub normalized_guess: Seq<char>,
    pub start_index: nat,
    pub end_index: nat,
    pub context_before: Seq<char>,
    pub context_after: Seq<char>,
    pub quoted_text: Option<Seq<char>>,
}

impl View for CitationClaim {
    type V = CitationClaimView;

    open spec fn view(&self) -> CitationClaimView {
        CitationClaimView {
            claim_id: self.claim_id@,
            raw: self.raw@,
            normalized_guess: self.normalized_guess@,
            start_index: self.start_index as nat,
            end_index: self.end_index as nat,
            context_before: self.context_before@,
            context_after: self.context_after@,
            quoted_text: opt_view(self.quoted_text),
        }
    }
}

/// The JSON text of a citation claim.
pub open spec fn json_citation_claim(v: CitationClaimView) -> Seq<char> {
    "{"@ + key("claim_id"@) + json_str(v.claim_id)
        + ","@ + key("raw"@) + json_str(v.raw)
        + ","@ + key("normalized_guess"@) + json_str(v.normalized_guess)
        + ","@ + key("start_index"@) + decimal(v.start_index)
        + ","@ + key("end_index"@) + decimal(v.end_index)
        + ","@ + key("context_before"@) + json_str(v.context_before)
        + ","@ + key("context_after"@) + json_str(v.context_after)
        + ","@ + key("quoted_text"@) + json_opt_str(v.quoted_text)
        + "}"@
}

impl JsonRecord for CitationClaim {
    open spec fn json_view(&self) -> Seq<char> {
        json_citation_claim(self@)
    }

    fn to_json(&self) -> (r: Vec<char>) {
        let mut out = chars_of("{");
        push_key(&mut out, "claim_id");
        push_json_string(&mut out, &self.claim_id);
        push_str(&mut out, ",");
        push_key(&mut out, "raw");
        push_json_string(&mut out, &self.raw);
        push_str(&mut out, ",");
        push_key(&mut out, "normalized_guess");
        push_json_string(&mut out, &self.normalized_guess);
        push_str(&mut out, ",");
        push_key(&mut out, "start_index");
        push_decimal(&mut out, self.start_index as u64);
        push_str(&mut out, ",");
        push_key(&mut out, "end_index");
        push_decimal(&mut out, self.end_index as u64);
        push_str(&mut out, ",");
        push_key(&mut out, "context_before");
        push_json_string(&mut out, &self.context_before);
        push_str(&mut out, ",");
        push_key(&mut out, "context_after");
        push_json_string(&mut out, &self.context_after);
        push_str(&mut out, ",");
        push_key(&mut out, "quoted_text");
        push_opt_string(&mut out, &self.quoted_text);
        push_str(&mut out, "}");
        out
    }
}

/// The mathematical value of a [`ClusterCitation`].
pub struct ClusterCitationView {
    pub volume: Option<int>,
    pub reporter: Option<Seq<char>>,
    pub page: Option<Seq<char>>,
    pub citation_type: Option<int>,
}

impl View for ClusterCitation {
    type V = ClusterCitationView;

    open spec fn view(&self) -> ClusterCitationView {
        ClusterCitationView {
            volume: opt_int(self.volume),
            reporter: opt_view(self.reporter),
            page: opt_view(self.page),
            citation_type: opt_int(self.citation_type),
        }
    }
}

/// The JSON text of a cluster citation (the type field is written `type`).
pub open spec fn json_cluster_citation(v: ClusterCitationView) -> Seq<char> {
    "{"@ + key("volume"@) + json_opt_int(v.volume)
        + ","@ + key("reporter"@) + json_opt_str(v.reporter)
        + ","@ + key("page"@) + json_opt_str(v.page)
        + ","@ + key("type"@) + json_opt_int(v.citation_type)
        + "}"@
}

impl JsonRecord for ClusterCitation {
    open spec fn json_view(&self) -> Seq<char> {
        json_cluster_citation(self@)
    }

    fn to_json(&self) -> (r: Vec<char>) {
        let mut out = chars_of("{");
        push_key(&mut out, "volume");
        push_opt_int(&mut out, self.volume);
        push_str(&mut out, ",");
        push_key(&mut out, "reporter");
        push_opt_string(&mut out, &self.reporter);
        push_str(&mut out, ",");
        push_key(&mut out, "page");
        push_opt_string(&mut out, &self.page);
        push_str(&mut out, ",");
        push_key(&mut out, "type");
        push_opt_int(&mut out, self.citation_type);
        push_str(&mut out, "}");
        out
    }
}

/// The mathematical value of a [`CanonicalCluster`].
pub struct CanonicalClusterView {
    pub id: Option<int>,
    pub case_name: Option<Seq<char>>,
    pub absolute_url: Option<Seq<char>>,
    pub date_filed: Option<Seq<char>>,
    pub citations: Seq<ClusterCitationView>,
}

impl View for CanonicalCluster {
    type V = CanonicalClusterView;

    open spec fn view(&self) -> CanonicalClusterView {
        CanonicalClusterView {
            id: opt_int(self.id),
            case_name: opt_view(self.case_name),
            absolute_url: opt_view(self.absolute_url),
            date_filed: opt_view(self.date_filed),
            citations: self.citations@.map_values(|x: ClusterCitation| x@),
        }
    }
}

/// The JSON text of a canonical cluster.
pub open spec fn json_cluster(v: CanonicalClusterView) -> Seq<char> {
    "{"@ + key("id"@) + json_opt_int(v.id)
        + ","@ + key("case_name"@) + json_opt_str(v.case_name)
        + ","@ + key("absolute_url"@) + json_opt_str(v.absolute_url)
        + ","@ + key("date_filed"@) + json_opt_str(v.date_filed)
        + ","@ + key("citations"@) + json_array(v.citations.map_values(|x: ClusterCitationView| json_cluster_citation(x)))
        + "}"@
}

impl JsonRecord for CanonicalCluster {
    open spec fn json_view(&self) -> Seq<char> {
        json_cluster(self@)
    }

    fn to_json(&self) -> (r: Vec<char>) {
        let mut out = chars_of("{");
        push_key(&mut out, "id");
        push_opt_int(&mut out, self.id);
        push_str(&mut out, ",");
        push_key(&mut out, "case_name");
        push_opt_string(&mut out, &self.case_name);
        push_str(&mut out, ",");
        push_key(&mut out, "absolute_url");
        push_opt_string(&mut out, &self.absolute_url);
        push_str(&mut out, ",");
        push_key(&mut out, "date_filed");
        push_opt_string(&mut out, &self.date_filed);
        push_str(&mut out, ",");
        push_key(&mut out, "citations");
        let j = json_array_of(&self.citations);
        assert(self.citations@.map_values(|x: ClusterCitation| x.json_view()) =~= self@.citations.map_values(|x: ClusterCitationView| json_cluster_citation(x)));
        push_all(&mut out, &j);
        push_str(&mut out, "}");
        out
    }
}

/// The mathematical value of a [`LookupRecord`].
pub struct LookupRecordView {
    pub source: Seq<char>,
    pub request_digest: Seq<char>,
    pub http_status: Option<int>,
    pub api_status: Option<int>,
    pub raw_citation: Seq<char>,
    pub normalized_citations: Seq<Seq<char>>,
    pub clusters: Seq<CanonicalClusterView>,
    pub error_message: Seq<char>,
    pub raw_response_digest: Seq<char>,
}

impl View for LookupRecord {
    type V = LookupRecordView;

    open spec fn view(&self) -> LookupRecordView {
        LookupRecordView {
            source: self.source@,
            request_digest: self.request_digest@,
            http_status: opt_u16(self.http_status),
            api_status: opt_u16(self.api_status),
            raw_citation: self.raw_citation@,
            normalized_citations: str_views(self.normalized_citations@),
            clusters: self.clusters@.map_values(|x: CanonicalCluster| x@),
            error_message: self.error_message@,
            raw_response_digest: self.raw_response_digest@,
        }
    }
}

/// The JSON text of a lookup record.
pub open spec fn json_lookup(v: LookupRecordView) -> Seq<char> {
    "{"@ + key("source"@) + json_str(v.source)
        + ","@ + key("request_digest"@) + json_str(v.request_digest)
        + ","@ + key("http_status"@) + json_opt_int(v.http_status)
        + ","@ + key("api_status"@) + json_opt_int(v.api_status)
        + ","@ + key("raw_citation"@) + json_str(v.raw_citation)
        + ","@ + key("normalized_citations"@) + json_str_array(v.normalized_citations)
        + ","@ + key("clusters"@) + json_array(v.clusters.map_values(|x: CanonicalClusterView| json_cluster(x)))
        + ","@ + key("error_message"@) + json_str(v.error_message)
        + ","@ + key("raw_response_digest"@) + json_str(v.raw_response_digest)
        + "}"@
}

impl JsonRecord for LookupRecord {
    open spec fn json_view(&self) -> Seq<char> {
        json_lookup(self@)
    }

    fn to_json(&self) -> (r: Vec<char>) {
        let mut out = chars_of("{");
        push_key(&mut out, "source");
        push_json_string(&mut out, &self.source);
        push_str(&mut out, ",");
        push_key(&mut out, "request_digest");
        push_json_string(&mut out, &self.request_digest);
        push_str(&mut out, ",");
        push_key(&mut out, "http_status");
        push_opt_u16(&mut out, self.http_status);
        push_str(&mut out, ",");
        push_key(&mut out, "api_status");
        push_opt_u16(&mut out, self.api_status);
        push_str(&mut out, ",");
        push_key(&mut out, "raw_citation");
        push_json_string(&mut out, &self.raw_citation);
        push_str(&mut out, ",");
        push_key(&mut out, "normalized_citations");
        push_str_array(&mut out, &self.normalized_citations);
        push_str(&mut out, ",");
        push_key(&mut out, "clusters");
        let j = json_array_of(&self.clusters);
        assert(self.clusters@.map_values(|x: CanonicalCluster| x.json_view()) =~= self@.clusters.map_values(|x: CanonicalClusterView| json_cluster(x)));
        push_all(&mut out, &j);
        push_str(&mut out, ",");
        push_key(&mut out, "error_message");
        push_json_string(&mut out, &self.error_message);
        push_str(&mut out, ",");
        push_key(&mut out, "raw_response_digest");
        push_json_string(&mut out, &self.raw_response_digest);
        push_str(&mut out, "}");
        out
    }
}

/// The mathematical value of a [`VerificationRecord`].
pub struct VerificationRecordView {
    pub claim: CitationClaimView,
    pub lookup: LookupRecordView,
    pub status: ClaimStatus,
    pub reason: Seq<char>,
    pub action: ClaimAction,
    pub receipt_digest: Seq<char>,
}

impl View for VerificationRecord {
    type V = VerificationRecordView;

    open spec fn view(&self) -> VerificationRecordView {
        VerificationRecordView {
            claim: self.claim@,
            lookup: self.lookup@,
            status: self.status,
            reason: self.reason@,
            action: self.action,
            receipt_digest: self.receipt_digest@,
        }
    }
}

/// The JSON text of a verification record.
pub open spec fn json_verification_record(v: VerificationRecordView) -> Seq<char> {
    "{"@ + key("claim"@) + json_citation_claim(v.claim)
        + ","@ + key("lookup"@) + json_lookup(v.lookup)
        + ","@ + key("status"@) + json_str(status_name(v.status))
        + ","@ + key("reason"@) + json_str(v.reason)
        + ","@ + key("action"@) + json_str(action_name(v.action))
        + ","@ + key("receipt_digest"@) + json_str(v.receipt_digest)
        + "}"@
}

impl JsonRecord for VerificationRecord {
    open spec fn json_view(&self) -> Seq<char> {
        json_verification_record(self@)
    }

    fn to_json(&self) -> (r: Vec<char>) {
        let mut out = chars_of("{");
        push_key(&mut out, "claim");
        let j = self.claim.to_json();
        push_all(&mut out, &j);
        push_str(&mut out, ",");
        push_key(&mut out, "lookup");
        let j = self.lookup.to_json();
        push_all(&mut out, &j);
        push_str(&mut out, ",");
        push_key(&mut out, "status");
        self.status.push_json(&mut out);
        push_str(&mut out, ",");
        push_key(&mut out, "reason");
        push_json_string(&mut out, &self.reason);
        push_str(&mut out, ",");
        push_key(&mut out, "action");
        self.action.push_json(&mut out);
        push_str(&mut out, ",");
        push_key(&mut out, "receipt_digest");
        push_json_string(&mut out, &self.receipt_digest);
        push_str(&mut out, "}");
        out
    }
}

/// The mathematical value of a [`RunReceipt`].
pub struct RunReceiptView {
    pub run_id: Seq<char>,
    pub tool: Seq<char>,
    pub version: Seq<char>,
    pub created_at: Seq<char>,
    pub input_path: Seq<char>,
    pub input_digest: Seq<char>,
    pub policy: GatePolicyView,
    pub counts: RunCountsView,
    pub artifacts: OutputArtifactsView,
    pub verified: bool,
    pub receipt_digest: Seq<char>,
}

impl View for RunReceipt {
    type V = RunReceiptView;

    open spec fn view(&self) -> RunReceiptView {
        RunReceiptView {
            run_id: self.run_id@,
            tool: self.tool@,
            version: self.version@,
            created_at: self.created_at@,
            input_path: self.input_path@,
            input_digest: self.input_digest@,
            policy: self.policy@,
            counts: self.counts@,
            artifacts: self.artifacts@,
            verified: self.verified,
            receipt_digest: self.receipt_digest@,
        }
    }
}

/// The JSON text of a run receipt.
pub open spec fn json_run_receipt(v: RunReceiptView) -> Seq<char> {
    "{"@ + key("run_id"@) + json_str(v.run_id)
        + ","@ + key("tool"@) + json_str(v.tool)
        + ","@ + key("version"@) + json_str(v.version)
        + ","@ + key("created_at"@) + json_str(v.created_at)
        + ","@ + key("input_path"@) + json_str(v.input_path)
        + ","@ + key("input_digest"@) + json_str(v.input_digest)
        + ","@ + key("policy"@) + json_gate_policy(v.policy)
        + ","@ + key("counts"@) + json_run_counts(v.counts)
        + ","@ + key("artifacts"@) + json_output_artifacts(v.artifacts)
        + ","@ + key("verified"@) + json_bool(v.verified)
        + ","@ + key("receipt_digest"@) + json_str(v.receipt_digest)
        + "}"@
}

impl JsonRecord for RunReceipt {
    open spec fn json_view(&self) -> Seq<char> {
        json_run_receipt(self@)
    }

    fn to_json(&self) -> (r: Vec<char>) {
        let mut out = chars_of("{");
        push_key(&mut out, "run_id");
        push_json_string(&mut out, &self.run_id);
        push_str(&mut out, ",");
        push_key(&mut out, "tool");
        push_json_string(&mut out, &self.tool);
        push_str(&mut out, ",");
        push_key(&mut out, "version");
        push_json_string(&mut out, &self.version);
        push_str(&mut out, ",");
        push_key(&mut out, "created_at");
        push_json_string(&mut out, &self.created_at);
        push_str(&mut out, ",");
        push_key(&mut out, "input_path");
        push_json_string(&mut out, &self.input_path);
        push_str(&mut out, ",");
        push_key(&mut out, "input_digest");
        push_json_string(&mut out, &self.input_digest);
        push_str(&mut out, ",");
        push_key(&mut out, "policy");
        let j = self.policy.to_json();
        push_all(&mut out, &j);
        push_str(&mut out, ",");
        push_key(&mut out, "counts");
        let j = self.counts.to_json();
        push_all(&mut out, &j);
        push_str(&mut out, ",");
        push_key(&mut out, "artifacts");
        let j = self.artifacts.to_json();
        push_all(&mut out, &j);
        push_str(&mut out, ",");
        push_key(&mut out, "verified");
        push_bool(&mut out, self.verified);
        push_str(&mut out, ",");
        push_key(&mut out, "receipt_digest");
        push_json_string(&mut out, &self.receipt_digest);
        push_str(&mut out, "}");
        out
    }
}
} // verus!
