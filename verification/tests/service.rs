use citeright::artifact::CaseArtifact;
use citeright::audit::{build_ai_audit_receipt, AttestationParams, AuditTime};
use citeright::candidates::CitationCandidate;
use citeright::claims::LegalClaim;
use citeright::courtlistener::{
    check_http_status, lookup_endpoint, pick_case_name, record_from_answer, request_digest,
    CitationAnswer,
};
use citeright::digest::sha256_bytes;
use citeright::document::{docx_text, document_kind, pdf_text, DocumentKind, DocxEvent};
use citeright::json::JsonRecord;
use citeright::models::{ClusterCitation, UnverifiedReason, VerificationStatus};
use citeright::planner::CitationNeed;
use citeright::resolver::CandidateResolution;
use citeright::selector::SelectedCitation;
use citeright::upload::{accept_file_field, accept_text_field, artifact_status_counts, new_upload_form};
use citeright::CiteError;

#[test]
fn sha256_commitments_match_known_digests() {
    assert_eq!(sha256_bytes(b""), "sha256:e3b0c44298fc1c149afbf4c8996fb92427ae41e4649b934ca495991b7852b855");
    assert_eq!(sha256_bytes(b"abc"), "sha256:ba7816bf8f01cfea414140de5dae2223b00361a396177a9cb410ff61f20015ad");
}

#[test]
fn json_text_matches_compact_serialization() {
    let c = ClusterCitation { volume: Some(576), reporter: Some("U.\"S.\"\n".to_string()), page: None, citation_type: Some(-1) };
    let j: String = c.to_json().into_iter().collect();
    assert_eq!(j, "{\"volume\":576,\"reporter\":\"U.\\\"S.\\\"\\n\",\"page\":null,\"type\":-1}");
    let s = VerificationStatus::Unverified { reason: UnverifiedReason::NotFound };
    let mut out = Vec::new();
    s.push_json(&mut out);
    assert_eq!(out.into_iter().collect::<String>(), "{\"UNVERIFIED\":{\"reason\":\"NOT_FOUND\"}}");
}

#[test]
fn audit_receipt_counts_and_attests() {
    let sels = vec![
        SelectedCitation {
            selection_id: "s1".to_string(),
            need_id: "n1".to_string(),
            candidate_id: "c".to_string(),
            resolution_id: "r".to_string(),
            canonical_ids: vec![],
            selected: true,
            reason: "x".to_string(),
            deterministic_basis: "t".to_string(),
        },
        SelectedCitation {
            selection_id: "s2".to_string(),
            need_id: "n2".to_string(),
            candidate_id: "none".to_string(),
            resolution_id: "none".to_string(),
            canonical_ids: vec![],
            selected: false,
            reason: "y".to_string(),
            deterministic_basis: "t".to_string(),
        },
    ];
    let claims: Vec<LegalClaim> = vec![];
    let needs: Vec<CitationNeed> = vec![];
    let cands: Vec<CitationCandidate> = vec![];
    let res: Vec<CandidateResolution> = vec![];
    let time = AuditTime { timestamp: "2024-01-02T03:04:05Z".to_string(), display: "2024-01-02 03:04:05 UTC".to_string() };
    let params = AttestationParams {
        attorney_name: Some("Jane Roe".to_string()),
        bar_number: None,
        jurisdiction: Some("CA".to_string()),
        verified_count: 3,
        unverified_count: 1,
    };
    let r = build_ai_audit_receipt("brief.md", b"abc", &time, &claims, &needs, &cands, &res, &sels, &params);
    assert_eq!(r.tool, "Cite Right AI Audit");
    assert_eq!(r.selections_count, 2);
    assert_eq!(r.selected_count, 1);
    assert_eq!(r.unresolved_count, 1);
    assert_eq!(r.claims_count, 0);
    assert_eq!(r.claims_digest, sha256_bytes(b"[]"));
    assert_eq!(r.input_digest, sha256_bytes(b"abc"));
    assert_eq!(
        r.attestation.attestation_text,
        "I, Jane Roe, Bar No. [BAR NUMBER], CA, hereby attest that the citations in document brief.md (sha256 digest: sha256:ba7816bf8f01cfea414140de5dae2223b00361a396177a9cb410ff61f20015ad) were verified using CiteRight on 2024-01-02 03:04:05 UTC. Verified: 3. Unverified: 1."
    );
    let e = sha256_bytes(b"[]");
    let ids = format!("[\"{e}\",\"{e}\",\"{e}\",\"{e}\",\"{}\",\"{}\"]", r.selections_digest, r.input_digest);
    assert_eq!(r.audit_id, sha256_bytes(ids.as_bytes()));
    assert!(r.receipt_digest.starts_with("sha256:"));
}

#[test]
fn upload_form_fields() {
    let mut f = new_upload_form();
    assert_eq!(f.filename, "document");
    accept_text_field(&mut f, "live", " true ");
    assert!(f.live);
    accept_text_field(&mut f, "live", "yes");
    assert!(!f.live);
    accept_text_field(&mut f, "live", "1");
    assert!(f.live);
    accept_text_field(&mut f, "token", "");
    assert_eq!(f.token, None);
    accept_text_field(&mut f, "token", "abc");
    assert_eq!(f.token, Some("abc".to_string()));
    accept_text_field(&mut f, "bar_number", "12345");
    accept_text_field(&mut f, "unknown", "zzz");
    assert_eq!(f.bar_number, Some("12345".to_string()));
    accept_file_field(&mut f, None, vec![1, 2, 3]);
    assert_eq!(f.filename, "document");
    assert_eq!(f.file_bytes, Some(vec![1, 2, 3]));
    accept_file_field(&mut f, Some("brief.docx".to_string()), vec![]);
    assert_eq!(f.filename, "brief.docx");
}

#[test]
fn artifacts_are_counted_by_status() {
    let a = |s: VerificationStatus| CaseArtifact {
        artifact_id: "a".to_string(),
        canonical_id: "cluster:1".to_string(),
        case_name: "n".to_string(),
        citations: vec![],
        date_filed: None,
        absolute_url: None,
        source: "s".to_string(),
        source_digest: "d".to_string(),
        verification_status: s,
    };
    let arts = vec![
        a(VerificationStatus::Verified),
        a(VerificationStatus::Unverified { reason: UnverifiedReason::ApiError }),
        a(VerificationStatus::Verified),
    ];
    assert_eq!(artifact_status_counts(&arts), (2, 1));
}

#[test]
fn document_readers_by_extension() {
    assert_eq!(document_kind("MD").unwrap(), DocumentKind::Text);
    assert_eq!(document_kind("txt").unwrap(), DocumentKind::Text);
    assert_eq!(document_kind("Docx").unwrap(), DocumentKind::Docx);
    assert_eq!(document_kind("pdf").unwrap(), DocumentKind::Pdf);
    match document_kind("RTF") {
        Err(CiteError::UnsupportedInput(m)) => assert_eq!(m, "unsupported input extension 'rtf'; supported: txt, md, docx, pdf"),
        _ => panic!("expected an error"),
    }
}

#[test]
fn word_and_pdf_text() {
    let events = vec![
        DocxEvent::Start("w:p".to_string()),
        DocxEvent::Text("Hello".to_string()),
        DocxEvent::Start("w:r".to_string()),
        DocxEvent::Other,
        DocxEvent::Start("w:p".to_string()),
        DocxEvent::Text("World".to_string()),
        DocxEvent::End,
        DocxEvent::Text("ignored".to_string()),
    ];
    assert_eq!(docx_text(&events), "\nHello\nWorld");
    let pages = vec![(1u32, Ok("one".to_string())), (2u32, Err("bad font".to_string()))];
    assert_eq!(pdf_text(&pages), "one\n\n[page 2: text extraction failed: bad font]\n");
}

#[test]
fn live_lookup_pieces() {
    assert_eq!(lookup_endpoint(None), "https://www.courtlistener.com/api/rest/v4/citation-lookup/");
    assert_eq!(lookup_endpoint(Some("http://x/".to_string())), "http://x/");
    assert_eq!(
        request_digest("https://example.test/lookup/", "576 U.S. 644"),
        sha256_bytes(b"POST:https://example.test/lookup/:576 U.S. 644")
    );
    assert!(check_http_status(204, "").is_ok());
    match check_http_status(429, "slow down") {
        Err(CiteError::Lookup(m)) => assert_eq!(m, "CourtListener HTTP 429: slow down"),
        _ => panic!("expected an error"),
    }
    assert_eq!(pick_case_name(Some(None), Some("Full".to_string())), None);
    assert_eq!(pick_case_name(None, Some("Full".to_string())), Some("Full".to_string()));
    assert_eq!(pick_case_name(Some(Some("Short".to_string())), None), Some("Short".to_string()));
    let r = record_from_answer(
        CitationAnswer {
            citation: "576 U.S. 644".to_string(),
            normalized_citations: vec!["576 U.S. 644".to_string()],
            status: Some(200),
            error_message: String::new(),
            clusters: vec![],
        },
        "sha256:req".to_string(),
        Some(200),
        "sha256:body".to_string(),
    );
    assert_eq!(r.source, "courtlistener:v4:citation-lookup");
    assert_eq!(r.api_status, Some(200));
    assert_eq!(r.raw_citation, "576 U.S. 644");
}
