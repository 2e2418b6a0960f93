//! The AI audit receipt: counts and SHA-256 commitments to every stage of
//! the claim pipeline (claims, needs, candidates, resolutions,
//! selections), the attorney's attestation, and a digest over the whole.
use vstd::prelude::*;
use crate::text::{chars_of, chars_of_string, push_all, push_str, string_of};
use crate::json::{
    copy_opt_string, decimal, json_array, json_array_of, json_opt_str, json_str, json_views, key,
    opt_view, push_decimal, push_json_string, push_key, push_opt_string, JsonRecord,
};
use crate::digest::{digest_of, digest_of_bytes, sha256_bytes, sha256_text};
use crate::claims::LegalClaim;
use crate::planner::CitationNeed;
use crate::candidates::CitationCandidate;
use crate::resolver::CandidateResolution;
use crate::selector::{selection_views, SelectedCitation, SelectedCitationView};

verus! {

/// What an attorney attests about a verified document.
#[derive(Debug, Clone)]
pub struct AttorneyAttestation {
    pub attorney_name: Option<String>,
    pub bar_number: Option<String>,
    pub jurisdiction: Option<String>,
    /// The attestation time, as an RFC 3339 timestamp.
    pub attestation_date: String,
    pub attestation_text: String,
}

/// The receipt of an AI audit run.
#[derive(Debug, Clone)]
pub struct AiAuditReceipt {
    pub audit_id: String,
    pub tool: String,
    /// The creation time, as an RFC 3339 timestamp.
    pub created_at: String,
    pub input_path: String,
    pub input_digest: String,
    pub claims_count: usize,
    pub needs_count: usize,
    pub candidates_count: usize,
    pub resolutions_count: usize,
    pub selections_count: usize,
    pub selected_count: usize,
    pub unresolved_count: usize,
    pub verified_count: usize,
    pub unverified_count: usize,
    pub claims_digest: String,
    pub needs_digest: String,
    pub candidates_digest: String,
    pub resolutions_digest: String,
    pub selections_digest: String,
    pub attestation: AttorneyAttestation,
    pub receipt_digest: String,
}

/// Who attests, and the verification counts they attest to.
#[derive(Debug, Clone)]
pub struct AttestationParams {
    pub attorney_name: Option<String>,
    pub bar_number: Option<String>,
    pub jurisdiction: Option<String>,
    pub verified_count: usize,
    pub unverified_count: usize,
}

/// When an audit was made: the instant as an RFC 3339 timestamp and as the
/// text `YYYY-MM-DD HH:MM:SS UTC` the attestation quotes.
#[derive(Debug, Clone)]
pub struct AuditTime {
    pub timestamp: String,
    pub display: String,
}

/// The mathematical value of a [`AttorneyAttestation`].
pub struct AttorneyAttestationView {
    pub attorney_name: Option<Seq<char>>,
    pub bar_number: Option<Seq<char>>,
    pub jurisdiction: Option<Seq<char>>,
    pub attestation_date: Seq<char>,
    pub attestation_text: Seq<char>,
}

impl View for AttorneyAttestation {
    type V = AttorneyAttestationView;

    open spec fn view(&self) -> AttorneyAttestationView {
        AttorneyAttestationView {
            attorney_name: opt_view(self.attorney_name),
            bar_number: opt_view(self.bar_number),
            jurisdiction: opt_view(self.jurisdiction),
            attestation_date: self.attestation_date@,
            attestation_text: self.attestation_text@,
        }
    }
}

/// The JSON text of an attorney attestation.
pub open spec fn json_attestation(v: AttorneyAttestationView) -> Seq<char> {
    "{"@ + key("attorney_name"@) + json_opt_str(v.attorney_name)
        + ","@ + key("bar_number"@) + json_opt_str(v.bar_number)
        + ","@ + key("jurisdiction"@) + json_opt_str(v.jurisdiction)
        + ","@ + key("attestation_date"@) + json_str(v.attestation_date)
        + ","@ + key("attestation_text"@) + json_str(v.attestation_text)
        + "}"@
}

impl JsonRecord for AttorneyAttestation {
    open spec fn json_view(&self) -> Seq<char> {
        json_attestation(self@)
    }

    fn to_json(&self) -> (r: Vec<char>) {
        let mut out = chars_of("{");
        push_key(&mut out, "attorney_name");
        push_opt_string(&mut out, &self.attorney_name);
        push_str(&mut out, ",");
        push_key(&mut out, "bar_number");
        push_opt_string(&mut out, &self.bar_number);
        push_str(&mut out, ",");
        push_key(&mut out, "jurisdiction");
        push_opt_string(&mut out, &self.jurisdiction);
        push_str(&mut out, ",");
        push_key(&mut out, "attestation_date");
        push_json_string(&mut out, &self.attestation_date);
        push_str(&mut out, ",");
        push_key(&mut out, "attestation_text");
        push_json_string(&mut out, &self.attestation_text);
        push_str(&mut out, "}");
        out
    }
}

/// The mathematical value of a [`AiAuditReceipt`].
pub struct AiAuditReceiptView {
    pub audit_id: Seq<char>,
    pub tool: Seq<char>,
    pub created_at: Seq<char>,
    pub input_path: Seq<char>,
    pub input_digest: Seq<char>,
    pub claims_count: nat,
    pub needs_count: nat,
    pub candidates_count: nat,
    pub resolutions_count: nat,
    pub selections_count: nat,
    pub selected_count: nat,
    pub unresolved_count: nat,
    pub verified_count: nat,
    pub unverified_count: nat,
    pub claims_digest: Seq<char>,
    pub needs_digest: Seq<char>,
    pub candidates_digest: Seq<char>,
    pub resolutions_digest: Seq<char>,
    pub selections_digest: Seq<char>,
    pub attestation: AttorneyAttestationView,
    pub receipt_digest: Seq<char>,
}

impl View for AiAuditReceipt {
    type V = AiAuditReceiptView;

    open spec fn view(&self) -> AiAuditReceiptView {
        AiAuditReceiptView {
            audit_id: self.audit_id@,
            tool: self.tool@,
            created_at: self.created_at@,
            input_path: self.input_path@,
            input_digest: self.input_digest@,
            claims_count: self.claims_count as nat,
            needs_count: self.needs_count as nat,
            candidates_count: self.candidates_count as nat,
            resolutions_count: self.resolutions_count as nat,
            selections_count: self.selections_count as nat,
            selected_count: self.selected_count as nat,
            unresolved_count: self.unresolved_count as nat,
            verified_count: self.verified_count as nat,
            unverified_count: self.unverified_count as nat,
            claims_digest: self.claims_digest@,
            needs_digest: self.needs_digest@,
            candidates_digest: self.candidates_digest@,
            resolutions_digest: self.resolutions_digest@,
            selections_digest: self.selections_digest@,
            attestation: self.attestation@,
            receipt_digest: self.receipt_digest@,
        }
    }
}

/// The JSON text of an audit receipt.
pub open spec fn json_audit_receipt(v: AiAuditReceiptView) -> Seq<char> {
    "{"@ + key("audit_id"@) + json_str(v.audit_id)
        + ","@ + key("tool"@) + json_str(v.tool)
        + ","@ + key("created_at"@) + json_str(v.created_at)
        + ","@ + key("input_path"@) + json_str(v.input_path)
        + ","@ + key("input_digest"@) + json_str(v.input_digest)
        + ","@ + key("claims_count"@) + decimal(v.claims_count)
        + ","@ + key("needs_count"@) + decimal(v.needs_count)
        + ","@ + key("candidates_count"@) + decimal(v.candidates_count)
        + ","@ + key("resolutions_count"@) + decimal(v.resolutions_count)
        + ","@ + key("selections_count"@) + decimal(v.selections_count)
        + ","@ + key("selected_count"@) + decimal(v.selected_count)
        + ","@ + key("unresolved_count"@) + decimal(v.unresolved_count)
        + ","@ + key("verified_count"@) + decimal(v.verified_count)
        + ","@ + key("unverified_count"@) + decimal(v.unverified_count)
        + ","@ + key("claims_digest"@) + json_str(v.claims_digest)
        + ","@ + key("needs_digest"@) + json_str(v.needs_digest)
        + ","@ + key("candidates_digest"@) + json_str(v.candidates_digest)
        + ","@ + key("resolutions_digest"@) + json_str(v.resolutions_digest)
        + ","@ + key("selections_digest"@) + json_str(v.selections_digest)
        + ","@ + key("attestation"@) + json_attestation(v.attestation)
        + ","@ + key("receipt_digest"@) + json_str(v.receipt_digest)
        + "}"@
}

impl JsonRecord for AiAuditReceipt {
    open spec fn json_view(&self) -> Seq<char> {
        json_audit_receipt(self@)
    }

    fn to_json(&self) -> (r: Vec<char>) {
        let mut out = chars_of("{");
        push_key(&mut out, "audit_id");
        push_json_string(&mut out, &self.audit_id);
        push_str(&mut out, ",");
        push_key(&mut out, "tool");
        push_json_string(&mut out, &self.tool);
        push_str(&mut out, ",");
        push_key(&mut out, "created_at");
        push_json_string(&mut out, &self.created_at);
        push_str(&mut out, ",");
        push_key(&mut out, "input_path");
        push_json_string(&mut out, &self.input_path);
        push_str(&mut out, ",");
        push_key(&mut out, "input_digest");
        push_json_string(&mut out, &self.input_digest);
        push_str(&mut out, ",");
        push_key(&mut out, "claims_count");
        push_decimal(&mut out, self.claims_count as u64);
        push_str(&mut out, ",");
        push_key(&mut out, "needs_count");
        push_decimal(&mut out, self.needs_count as u64);
        push_str(&mut out, ",");
        push_key(&mut out, "candidates_count");
        push_decimal(&mut out, self.candidates_count as u64);
        push_str(&mut out, ",");
        push_key(&mut out, "resolutions_count");
        push_decimal(&mut out, self.resolutions_count as u64);
        push_str(&mut out, ",");
        push_key(&mut out, "selections_count");
        push_decimal(&mut out, self.selections_count as u64);
        push_str(&mut out, ",");
        push_key(&mut out, "selected_count");
        push_decimal(&mut out, self.selected_count as u64);
        push_str(&mut out, ",");
        push_key(&mut out, "unresolved_count");
        push_decimal(&mut out, self.unresolved_count as u64);
        push_str(&mut out, ",");
        push_key(&mut out, "verified_count");
        push_decimal(&mut out, self.verified_count as u64);
        push_str(&mut out, ",");
        push_key(&mut out, "unverified_count");
        push_decimal(&mut out, self.unverified_count as u64);
        push_str(&mut out, ",");
        push_key(&mut out, "claims_digest");
        push_json_string(&mut out, &self.claims_digest);
        push_str(&mut out, ",");
        push_key(&mut out, "needs_digest");
        push_json_string(&mut out, &self.needs_digest);
        push_str(&mut out, ",");
        push_key(&mut out, "candidates_digest");
        push_json_string(&mut out, &self.candidates_digest);
        push_str(&mut out, ",");
        push_key(&mut out, "resolutions_digest");
        push_json_string(&mut out, &self.resolutions_digest);
        push_str(&mut out, ",");
        push_key(&mut out, "selections_digest");
        push_json_string(&mut out, &self.selections_digest);
        push_str(&mut out, ",");
        push_key(&mut out, "attestation");
        let j = self.attestation.to_json();
        push_all(&mut out, &j);
        push_str(&mut out, ",");
        push_key(&mut out, "receipt_digest");
        push_json_string(&mut out, &self.receipt_digest);
        push_str(&mut out, "}");
        out
    }
}

/// An optional text, or a placeholder when it is absent.
pub open spec fn or_placeholder(o: Option<Seq<char>>, placeholder: Seq<char>) -> Seq<char> {
    match o {
        Some(s) => s,
        None => placeholder,
    }
}

/// The attestation sentence.
pub open spec fn attestation_text_spec(
    p: AttestationParams,
    path: Seq<char>,
    digest: Seq<char>,
    when: Seq<char>,
) -> Seq<char> {
    "I, "@ + or_placeholder(opt_view(p.attorney_name), "[ATTORNEY NAME]"@) + ", Bar No. "@
        + or_placeholder(opt_view(p.bar_number), "[BAR NUMBER]"@) + ", "@ + or_placeholder(
        opt_view(p.jurisdiction),
        "[JURISDICTION]"@,
    ) + ", hereby attest that the citations in document "@ + path + " (sha256 digest: "@ + digest
        + ") were verified using CiteRight on "@ + when + ". Verified: "@ + decimal(
        p.verified_count as nat,
    ) + ". Unverified: "@ + decimal(p.unverified_count as nat) + "."@
}

/// How many selections selected a candidate.
pub open spec fn count_selected(s: Seq<SelectedCitationView>) -> nat
    decreases s.len(),
{
    if s.len() == 0 {
        0
    } else {
        count_selected(s.drop_last()) + if s.last().selected {
            1nat
        } else {
            0nat
        }
    }
}

/// The audit identifier: the digest of the JSON array of the five stage
/// digests and the input digest.
pub open spec fn audit_id_spec(r: AiAuditReceiptView) -> Seq<char> {
    digest_of(
        json_array(
            seq![
                json_str(r.claims_digest),
                json_str(r.needs_digest),
                json_str(r.candidates_digest),
                json_str(r.resolutions_digest),
                json_str(r.selections_digest),
                json_str(r.input_digest),
            ],
        ),
    )
}

/// The receipt before its two identifiers are computed.
#[verifier::opaque]
pub open spec fn receipt_body(
    input_path: Seq<char>,
    input: Seq<u8>,
    time: AuditTime,
    claims: Seq<LegalClaim>,
    needs: Seq<CitationNeed>,
    candidates: Seq<CitationCandidate>,
    resolutions: Seq<CandidateResolution>,
    selections: Seq<SelectedCitation>,
    p: AttestationParams,
) -> AiAuditReceiptView {
    let input_digest = digest_of_bytes(input);
    let sv = selection_views(selections);
    AiAuditReceiptView {
        audit_id: "pending"@,
        tool: "Cite Right AI Audit"@,
        created_at: time.timestamp@,
        input_path: input_path,
        input_digest: input_digest,
        claims_count: claims.len(),
        needs_count: needs.len(),
        candidates_count: candidates.len(),
        resolutions_count: resolutions.len(),
        selections_count: selections.len(),
        selected_count: count_selected(sv),
        unresolved_count: (selections.len() - count_selected(sv)) as nat,
        verified_count: p.verified_count as nat,
        unverified_count: p.unverified_count as nat,
        claims_digest: digest_of(json_array(json_views(claims))),
        needs_digest: digest_of(json_array(json_views(needs))),
        candidates_digest: digest_of(json_array(json_views(candidates))),
        resolutions_digest: digest_of(json_array(json_views(resolutions))),
        selections_digest: digest_of(json_array(json_views(selections))),
        attestation: AttorneyAttestationView {
            attorney_name: opt_view(p.attorney_name),
            bar_number: opt_view(p.bar_number),
            jurisdiction: opt_view(p.jurisdiction),
            attestation_date: time.timestamp@,
            attestation_text: attestation_text_spec(p, input_path, input_digest, time.display@),
        },
        receipt_digest: "pending"@,
    }
}

/// The audit receipt: the body with its audit identifier, and a receipt
/// digest committing to the receipt written with digest `pending`.
pub open spec fn audit_receipt_spec(
    input_path: Seq<char>,
    input: Seq<u8>,
    time: AuditTime,
    claims: Seq<LegalClaim>,
    needs: Seq<CitationNeed>,
    candidates: Seq<CitationCandidate>,
    resolutions: Seq<CandidateResolution>,
    selections: Seq<SelectedCitation>,
    p: AttestationParams,
) -> AiAuditReceiptView {
    let body = receipt_body(
        input_path,
        input,
        time,
        claims,
        needs,
        candidates,
        resolutions,
        selections,
        p,
    );
    let with_id = AiAuditReceiptView { audit_id: audit_id_spec(body), ..body };
    AiAuditReceiptView { receipt_digest: digest_of(json_audit_receipt(with_id)), ..with_id }
}

/// Counts the selections that selected a candidate.
fn selected_count_of(selections: &[SelectedCitation]) -> (r: usize)
    ensures
        r == count_selected(selection_views(selections@)),
        r <= selections@.len(),
{
    let ghost sv = selection_views(selections@);
    let mut n: usize = 0;
    for i in 0..selections.len()
        invariant
            sv == selection_views(selections@),
            n == count_selected(sv.take(i as int)),
            n <= i,
    {
        assert(sv.take(i + 1).drop_last() =~= sv.take(i as int));
        assert(sv.take(i + 1).last() == selections@[i as int]@);
        if selections[i].selected {
            n = n + 1;
        }
    }
    assert(sv.take(selections@.len() as int) =~= sv);
    n
}

/// Appends an optional text, or the placeholder when it is absent.
fn push_or_placeholder(out: &mut Vec<char>, o: &Option<String>, placeholder: &str)
    ensures
        final(out)@ == old(out)@ + or_placeholder(opt_view(*o), placeholder@),
{
    match o {
        Some(s) => push_all(out, &chars_of_string(s)),
        None => push_str(out, placeholder),
    }
}

/// Writes the attestation sentence.
fn attestation_text(p: &AttestationParams, path: &str, digest: &String, when: &String) -> (r: String)
    ensures
        r@ == attestation_text_spec(*p, path@, digest@, when@),
{
    let mut t = chars_of("I, ");
    push_or_placeholder(&mut t, &p.attorney_name, "[ATTORNEY NAME]");
    push_str(&mut t, ", Bar No. ");
    push_or_placeholder(&mut t, &p.bar_number, "[BAR NUMBER]");
    push_str(&mut t, ", ");
    push_or_placeholder(&mut t, &p.jurisdiction, "[JURISDICTION]");
    push_str(&mut t, ", hereby attest that the citations in document ");
    push_all(&mut t, &chars_of(path));
    push_str(&mut t, " (sha256 digest: ");
    push_all(&mut t, &chars_of_string(digest));
    push_str(&mut t, ") were verified using CiteRight on ");
    push_all(&mut t, &chars_of_string(when));
    push_str(&mut t, ". Verified: ");
    push_decimal(&mut t, p.verified_count as u64);
    push_str(&mut t, ". Unverified: ");
    push_decimal(&mut t, p.unverified_count as u64);
    push_str(&mut t, ".");
    string_of(&t)
}

/// The receipt body, with identifiers `pending`.
#[verifier::rlimit(40)]
fn build_body(
    input_path: &str,
    input: &[u8],
    time: &AuditTime,
    claims: &[LegalClaim],
    needs: &[CitationNeed],
    candidates: &[CitationCandidate],
    resolutions: &[CandidateResolution],
    selections: &[SelectedCitation],
    p: &AttestationParams,
) -> (r: AiAuditReceipt)
    ensures
        r@ == receipt_body(
            input_path@,
            input@,
            *time,
            claims@,
            needs@,
            candidates@,
            resolutions@,
            selections@,
            *p,
        ),
{
    let input_digest = sha256_bytes(input);
    let selected = selected_count_of(selections);
    let text = attestation_text(p, input_path, &input_digest, &time.display);
    let r = AiAuditReceipt {
        audit_id: string_of(&chars_of("pending")),
        tool: string_of(&chars_of("Cite Right AI Audit")),
        created_at: time.timestamp.clone(),
        input_path: string_of(&chars_of(input_path)),
        input_digest: input_digest,
        claims_count: claims.len(),
        needs_count: needs.len(),
        candidates_count: candidates.len(),
        resolutions_count: resolutions.len(),
        selections_count: selections.len(),
        selected_count: selected,
        unresolved_count: selections.len() - selected,
        verified_count: p.verified_count,
        unverified_count: p.unverified_count,
        claims_digest: sha256_text(&json_array_of(claims)),
        needs_digest: sha256_text(&json_array_of(needs)),
        candidates_digest: sha256_text(&json_array_of(candidates)),
        resolutions_digest: sha256_text(&json_array_of(resolutions)),
        selections_digest: sha256_text(&json_array_of(selections)),
        attestation: AttorneyAttestation {
            attorney_name: copy_opt_string(&p.attorney_name),
            bar_number: copy_opt_string(&p.bar_number),
            jurisdiction: copy_opt_string(&p.jurisdiction),
            attestation_date: time.timestamp.clone(),
            attestation_text: text,
        },
        receipt_digest: string_of(&chars_of("pending")),
    };
    proof {
        reveal(receipt_body);
    }
    r
}

/// Builds the audit receipt of a run: the stage counts, the number of
/// selections that did and did not select a candidate, a digest of the
/// JSON array of each stage, the input digest, the attestation sentence,
/// the audit identifier over the stage and input digests, and the receipt
/// digest over the receipt written with digest `pending`.
pub fn build_ai_audit_receipt(
    input_path: &str,
    input: &[u8],
    time: &AuditTime,
    claims: &[LegalClaim],
    needs: &[CitationNeed],
    candidates: &[CitationCandidate],
    resolutions: &[CandidateResolution],
    selections: &[SelectedCitation],
    params: &AttestationParams,
) -> (r: AiAuditReceipt)
    ensures
        r@ == audit_receipt_spec(
            input_path@,
            input@,
            *time,
            claims@,
            needs@,
            candidates@,
            resolutions@,
            selections@,
            *params,
        ),
{
    let mut r = build_body(
        input_path,
        input,
        time,
        claims,
        needs,
        candidates,
        resolutions,
        selections,
        params,
    );
    let mut ids: Vec<Vec<char>> = Vec::new();
    ids.push(json_string_of(&r.claims_digest));
    ids.push(json_string_of(&r.needs_digest));
    ids.push(json_string_of(&r.candidates_digest));
    ids.push(json_string_of(&r.resolutions_digest));
    ids.push(json_string_of(&r.selections_digest));
    ids.push(json_string_of(&r.input_digest));
    let mut arr: Vec<char> = Vec::new();
    crate::json::push_array(&mut arr, &ids);
    proof {
        assert(crate::text::views(ids@) =~= seq![
            json_str(r@.claims_digest),
            json_str(r@.needs_digest),
            json_str(r@.candidates_digest),
            json_str(r@.resolutions_digest),
            json_str(r@.selections_digest),
            json_str(r@.input_digest),
        ]);
    }
    r.audit_id = sha256_text(&arr);
    let json = r.to_json();
    r.receipt_digest = sha256_text(&json);
    r
}

/// The JSON string literal of a text.
fn json_string_of(s: &String) -> (r: Vec<char>)
    ensures
        r@ == json_str(s@),
{
    let mut out: Vec<char> = Vec::new();
    push_json_string(&mut out, s);
    out
}

} // verus!
