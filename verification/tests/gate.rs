use citeright::emit::{emit_is_defined, emit_verified_markdown};
use citeright::models::{
    CanonicalCluster, CitationClaim, ClaimAction, ClaimStatus, GatePolicy, LookupRecord,
    OutputArtifacts, VerificationRecord,
};
use citeright::models::RunCounts;
use citeright::run::{build_run_receipt, failed_records, receipt_chain, run_exit_code, run_policy, run_verified};
use citeright::verify::{classify, counts, missing_lookup, verify_claims};

fn claim(raw: &str, start: usize, end: usize) -> CitationClaim {
    CitationClaim {
        claim_id: format!("id:{}", raw),
        raw: raw.to_string(),
        normalized_guess: raw.to_string(),
        start_index: start,
        end_index: end,
        context_before: String::new(),
        context_after: String::new(),
        quoted_text: None,
    }
}

fn cluster(id: i64) -> CanonicalCluster {
    CanonicalCluster {
        id: Some(id),
        case_name: Some("Case".to_string()),
        absolute_url: None,
        date_filed: None,
        citations: vec![],
    }
}

fn lookup(raw: &str, status: Option<u16>, normalized: Vec<&str>, clusters: Vec<CanonicalCluster>) -> LookupRecord {
    LookupRecord {
        source: "fixture".to_string(),
        request_digest: "sha256:req".to_string(),
        http_status: Some(200),
        api_status: status,
        raw_citation: raw.to_string(),
        normalized_citations: normalized.into_iter().map(|s| s.to_string()).collect(),
        clusters,
        error_message: String::new(),
        raw_response_digest: "sha256:resp".to_string(),
    }
}

#[test]
fn single_cluster_citation_is_verified_and_kept() {
    let c = claim("576 U.S. 644", 0, 12);
    let l = lookup("576 U.S. 644", Some(200), vec!["576 U.S. 644"], vec![cluster(1)]);
    let (status, action, reason) = classify(&c, &l, &GatePolicy::default());
    assert_eq!(status, ClaimStatus::Verified);
    assert_eq!(action, ClaimAction::Keep);
    assert_eq!(reason, "canonical citation found");
}

#[test]
fn unique_different_normalization_heals() {
    let c = claim("576 US 644", 0, 10);
    let l = lookup("576 US 644", Some(200), vec!["576 U.S. 644"], vec![cluster(1)]);
    let (status, action, reason) = classify(&c, &l, &GatePolicy::default());
    assert_eq!(status, ClaimStatus::Healed);
    assert_eq!(action, ClaimAction::ReplaceWithNormalized);
    assert_eq!(reason, "unique normalized citation found");
}

#[test]
fn two_clusters_are_ambiguous_under_single_cluster_rule() {
    let c = claim("1 U.S. 1", 0, 8);
    let l = lookup("1 U.S. 1", Some(200), vec!["1 U.S. 1"], vec![cluster(1), cluster(2)]);
    let (status, action, reason) = classify(&c, &l, &GatePolicy::default());
    assert_eq!(status, ClaimStatus::Ambiguous);
    assert_eq!(action, ClaimAction::BlockOrRedact);
    assert_eq!(reason, "expected exactly one canonical cluster; got 2");
}

#[test]
fn lookup_statuses_map_to_blocking_reasons() {
    let c = claim("1 U.S. 1", 0, 8);
    let p = GatePolicy::default();
    let cases = [
        (Some(300), ClaimStatus::Ambiguous, "multiple canonical candidates"),
        (Some(400), ClaimStatus::Blocked, "invalid reporter or malformed citation"),
        (Some(404), ClaimStatus::Blocked, "no canonical source found"),
        (Some(429), ClaimStatus::Blocked, "lookup throttled or too many citations"),
        (Some(500), ClaimStatus::Blocked, "unresolved lookup status 500"),
        (None, ClaimStatus::Blocked, "unresolved lookup status 0"),
    ];
    for (code, st, reason) in cases {
        let l = lookup("1 U.S. 1", code, vec![], vec![]);
        let (status, action, r) = classify(&c, &l, &p);
        assert_eq!(status, st);
        assert_eq!(action, ClaimAction::BlockOrRedact);
        assert_eq!(r, reason);
    }
}

#[test]
fn citation_missing_from_lookups_is_blocked() {
    let claims = vec![claim("9 U.S. 9", 0, 8)];
    let records = verify_claims(claims, vec![], &GatePolicy::default()).unwrap();
    assert_eq!(records.len(), 1);
    assert_eq!(records[0].status, ClaimStatus::Blocked);
    assert_eq!(records[0].lookup.source, "local:missing");
    assert_eq!(records[0].reason, "no canonical source found");
    assert!(records[0].receipt_digest.starts_with("sha256:"));
    assert_eq!(records[0].receipt_digest.len(), 7 + 64);
    let m = missing_lookup(&"9 U.S. 9".to_string());
    assert_eq!(m.normalized_citations, vec!["9 U.S. 9".to_string()]);
    assert_eq!(m.api_status, Some(404));
}

#[test]
fn repeated_citation_only_uses_lookup_once() {
    let claims = vec![claim("1 U.S. 1", 0, 8), claim("1 U.S. 1", 20, 28)];
    let lookups = vec![lookup("1 U.S. 1", Some(200), vec!["1 U.S. 1"], vec![cluster(7)])];
    let records = verify_claims(claims, lookups, &GatePolicy::default()).unwrap();
    assert_eq!(records[0].status, ClaimStatus::Verified);
    assert_eq!(records[1].status, ClaimStatus::Blocked);
    assert_eq!(records[1].lookup.source, "local:missing");
}

#[test]
fn counts_add_up_to_the_records() {
    let claims = vec![claim("1 U.S. 1", 0, 8), claim("2 U.S. 2", 10, 18), claim("3 U.S. 3", 20, 28)];
    let lookups = vec![
        lookup("1 U.S. 1", Some(200), vec!["1 U.S. 1"], vec![cluster(1)]),
        lookup("2 U.S. 2", Some(300), vec![], vec![]),
    ];
    let records = verify_claims(claims, lookups, &GatePolicy::default()).unwrap();
    let c = counts(&records);
    assert_eq!(c.extracted_citations, 3);
    assert_eq!(c.verified, 1);
    assert_eq!(c.ambiguous, 1);
    assert_eq!(c.blocked, 1);
    assert_eq!(c.verified + c.healed + c.ambiguous + c.blocked, c.extracted_citations);
    assert!(!run_verified(&c));
    let failed = failed_records(&records);
    assert_eq!(failed.len(), 2);
    assert_eq!(failed[0].claim.raw, "2 U.S. 2");
    assert_eq!(failed[1].claim.raw, "3 U.S. 3");
}

fn record(raw: &str, start: usize, end: usize, action: ClaimAction, status: ClaimStatus, normalized: Vec<&str>, reason: &str) -> VerificationRecord {
    VerificationRecord {
        claim: claim(raw, start, end),
        lookup: lookup(raw, Some(200), normalized, vec![cluster(1)]),
        status,
        reason: reason.to_string(),
        action,
        receipt_digest: "sha256:r".to_string(),
    }
}

#[test]
fn brief_annotates_verified_healed_and_blocked_citations() {
    let text = "A 1 U.S. 1 B 2 US 2 C 3 X 3 D";
    let records = vec![
        record("3 X 3", 22, 27, ClaimAction::BlockOrRedact, ClaimStatus::Blocked, vec![], "no canonical source found"),
        record("1 U.S. 1", 2, 10, ClaimAction::Keep, ClaimStatus::Verified, vec!["1 U.S. 1"], "canonical citation found"),
        record("2 US 2", 13, 19, ClaimAction::ReplaceWithNormalized, ClaimStatus::Healed, vec!["2 U.S. 2"], "unique normalized citation found"),
    ];
    assert!(emit_is_defined(text, &records));
    let out = emit_verified_markdown(text, &records);
    assert_eq!(
        out,
        "A 1 U.S. 1<!-- CITE_RIGHT: VERIFIED sha256:r --> B 2 U.S. 2<!-- CITE_RIGHT: HEALED from '2 US 2' sha256:r --> C [CITATION BLOCKED: 3 X 3 | no canonical source found] D"
    );
}

#[test]
fn brief_without_records_is_the_original() {
    let text = "Nothing cited here.";
    assert!(emit_is_defined(text, &[]));
    assert_eq!(emit_verified_markdown(text, &[]), text);
}

#[test]
fn offsets_inside_a_character_cannot_be_emitted() {
    let text = "é 1 U.S. 1";
    let records = vec![record("1 U.S. 1", 1, 11, ClaimAction::Keep, ClaimStatus::Verified, vec![], "x")];
    assert!(!emit_is_defined(text, &records));
}

#[test]
fn run_receipt_commits_to_records() {
    let records = vec![record("1 U.S. 1", 2, 10, ClaimAction::Keep, ClaimStatus::Verified, vec!["1 U.S. 1"], "canonical citation found")];
    let chain = receipt_chain(&records);
    assert_eq!(chain.len(), 1);
    assert_eq!(chain[0].raw, "1 U.S. 1");
    assert_eq!(chain[0].status, ClaimStatus::Verified);
    let policy = run_policy(true, false);
    assert!(policy.block_unverified && !policy.heal_unique_normalized && policy.require_single_cluster);
    let artifacts = OutputArtifacts {
        verified_brief_md: "out/verified_brief.md".to_string(),
        failed_claims_json: "out/failed_claims.json".to_string(),
        citations_json: "out/citations.json".to_string(),
        receipt_chain_json: "out/receipt_chain.json".to_string(),
        run_receipt_json: "out/run_receipt.json".to_string(),
    };
    let r = build_run_receipt(&records, "brief.md", b"abc", "2024-01-01T00:00:00Z", "0.1.0", policy, artifacts);
    assert_eq!(r.tool, "Cite Right");
    assert!(r.verified);
    assert_eq!(r.counts.verified, 1);
    assert_eq!(r.input_digest, "sha256:ba7816bf8f01cfea414140de5dae2223b00361a396177a9cb410ff61f20015ad");
    assert!(r.run_id.starts_with("sha256:") && r.receipt_digest.starts_with("sha256:"));
    assert_ne!(r.run_id, r.receipt_digest);
}

#[test]
fn one_cluster_is_needed_whatever_the_policy_says() {
    let mut p = GatePolicy::default();
    p.require_single_cluster = false;
    let c = claim("576 US 644", 0, 10);
    let none = lookup("576 US 644", Some(200), vec!["576 U.S. 644"], vec![]);
    let (status, action, reason) = classify(&c, &none, &p);
    assert_eq!(status, ClaimStatus::Ambiguous);
    assert_eq!(action, ClaimAction::BlockOrRedact);
    assert_eq!(reason, "expected exactly one canonical cluster; got 0");
    let one = lookup("576 US 644", Some(200), vec!["576 U.S. 644"], vec![cluster(1)]);
    let (status, action, _) = classify(&c, &one, &p);
    assert_eq!(status, ClaimStatus::Healed);
    assert_eq!(action, ClaimAction::ReplaceWithNormalized);
}

#[test]
fn blocking_policy_fails_a_run_with_unverified_citations() {
    let failed = RunCounts { extracted_citations: 2, verified: 1, healed: 0, ambiguous: 1, blocked: 0 };
    let passed = RunCounts { extracted_citations: 2, verified: 1, healed: 1, ambiguous: 0, blocked: 0 };
    assert_eq!(run_exit_code(&run_policy(true, true), &failed), 1);
    assert_eq!(run_exit_code(&run_policy(false, true), &failed), 0);
    assert_eq!(run_exit_code(&run_policy(true, true), &passed), 0);
}
