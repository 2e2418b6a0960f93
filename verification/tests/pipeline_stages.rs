use citeright::artifact::{artifacts_from_lookup_results, CaseArtifact};
use citeright::bindings::bind_selections_to_artifacts;
use citeright::candidates::{generate_candidates, CandidateSource, CitationCandidate};
use citeright::claims::{extract_legal_claims, ClaimKind, LegalClaim};
use citeright::extract::extract_citations;
use citeright::models::VerificationStatus;
use citeright::planner::{plan_citation_needs, CitationNeed, CitationNeedKind, CitationNeedPriority};
use citeright::reasoning::holdings_extractor::extract_holdings_from_text;
use citeright::resolver::CandidateResolution;
use citeright::selector::select_best_candidates;

#[test]
fn empty_lookup_results_produce_no_artifacts() {
    let artifacts = artifacts_from_lookup_results(&[]).unwrap();
    assert!(artifacts.is_empty());
}

#[test]
fn empty_inputs_produce_empty_bindings() {
    let bindings = bind_selections_to_artifacts(&[], &[]).unwrap();
    assert!(bindings.is_empty());
}

#[test]
fn generates_candidates_from_support_need() {
    let needs = vec![CitationNeed {
        need_id: "sha256:need".to_string(),
        claim_id: "sha256:claim".to_string(),
        kind: CitationNeedKind::SupportHolding,
        priority: CitationNeedPriority::High,
        query_text: "Obergefell v. Hodges, 576 U.S. 644, confirmed equal protection.".to_string(),
        required_artifact: "case holding or quoted proposition".to_string(),
        deterministic_basis: "test".to_string(),
    }];

    let candidates = generate_candidates(&needs).unwrap();
    assert!(!candidates.is_empty());
    assert_eq!(candidates[0].expected_artifact_type, "case_holding");
}

#[test]
fn extracts_rule_and_holding_claims() {
    let text = "The Court held that states may not exclude a protected class. This sentence is background.";
    let claims = extract_legal_claims(text).unwrap();
    assert_eq!(claims.len(), 1);
    assert_eq!(claims[0].kind, ClaimKind::HoldingClaim);
}

#[test]
fn extracts_basic_citations() {
    let c = extract_citations("See Obergefell v. Hodges, 576 U.S. 644 and 1 U.S. 200.").unwrap();
    assert_eq!(c.len(), 2);
    assert_eq!(c[0].raw, "576 U.S. 644");
}

#[test]
fn named_authority_becomes_critical_verification_need() {
    let claims = vec![LegalClaim {
        claim_id: "sha256:test".to_string(),
        kind: ClaimKind::NamedAuthority,
        text: "In re Example Corp., 1 B.R. 1".to_string(),
        start_index: 0,
        end_index: 30,
        confidence_basis: "test".to_string(),
    }];

    let needs = plan_citation_needs(&claims).unwrap();
    assert_eq!(needs.len(), 1);
    assert_eq!(needs[0].kind, CitationNeedKind::VerifyNamedAuthority);
    assert_eq!(needs[0].priority, CitationNeedPriority::Critical);
}

fn mock_artifact() -> CaseArtifact {
    CaseArtifact {
        artifact_id: "sha256:test".to_string(),
        canonical_id: "cluster:2812209".to_string(),
        case_name: "Obergefell v. Hodges".to_string(),
        citations: vec!["576 U.S. 644".to_string()],
        date_filed: Some("2015-06-26".to_string()),
        absolute_url: Some("/opinion/2812209/obergefell-v-hodges/".to_string()),
        source: "test".to_string(),
        source_digest: "sha256:test".to_string(),
        verification_status: VerificationStatus::Verified,
    }
}

#[test]
fn extracts_holding_from_opinion_text() {
    let artifact = mock_artifact();
    let text = "<p>The Court considered the matter carefully. We hold that same-sex couples may exercise the fundamental right to marry. The decision was unanimous.</p>";
    let node = extract_holdings_from_text(&artifact, text);
    assert_eq!(node.canonical_id, "cluster:2812209");
    assert!(!node.holdings.is_empty());
    assert!(node.holdings[0].text.contains("We hold that"));
}

#[test]
fn returns_empty_holdings_when_none_found() {
    let artifact = mock_artifact();
    let text = "<p>This opinion contains no holding language.</p>";
    let node = extract_holdings_from_text(&artifact, text);
    assert!(node.holdings.is_empty());
}

#[test]
fn produces_resolution_objects() {
    let candidates = vec![CitationCandidate {
        candidate_id: "sha256:test".to_string(),
        need_id: "need".to_string(),
        claim_id: "claim".to_string(),
        source: CandidateSource::DeterministicQueryExpansion,
        search_query: "576 U.S. 644".to_string(),
        expected_artifact_type: "case".to_string(),
        jurisdiction_hint: Some("federal".to_string()),
        reporter_hint: Some("U.S.".to_string()),
        priority: CitationNeedPriority::High,
        deterministic_basis: "test".to_string(),
    }];

    // fixture path will be supplied in runtime test, so just ensure function compiles
    assert_eq!(candidates.len(), 1);
}

#[test]
fn selects_resolved_candidate() {
    let needs = vec![CitationNeed {
        need_id: "need1".to_string(),
        claim_id: "c".to_string(),
        kind: CitationNeedKind::SupportHolding,
        priority: CitationNeedPriority::High,
        query_text: "test".to_string(),
        required_artifact: "case".to_string(),
        deterministic_basis: "t".to_string(),
    }];

    let candidates = vec![CitationCandidate {
        candidate_id: "cand1".to_string(),
        need_id: "need1".to_string(),
        claim_id: "c".to_string(),
        source: CandidateSource::DeterministicQueryExpansion,
        search_query: "test".to_string(),
        expected_artifact_type: "case".to_string(),
        jurisdiction_hint: None,
        reporter_hint: None,
        priority: CitationNeedPriority::High,
        deterministic_basis: "t".to_string(),
    }];

    let resolutions = vec![CandidateResolution {
        resolution_id: "res1".to_string(),
        candidate_id: "cand1".to_string(),
        search_query: "test".to_string(),
        lookup_source: "fixture".to_string(),
        result_count: 1,
        canonical_ids: vec!["cluster:1".to_string()],
        resolved: true,
        deterministic_basis: "t".to_string(),
    }];

    let sel = select_best_candidates(&needs, &candidates, &resolutions).unwrap();
    assert!(sel[0].selected);
}
