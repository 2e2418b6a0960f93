use citeright::artifact::{artifacts_from_lookup_results, dedup_artifacts};
use citeright::bindings::bind_selections_to_artifacts;
use citeright::candidates::{CandidateSource, CitationCandidate};
use citeright::courtlistener::{CitationLookup, FixtureLookup};
use citeright::models::{CanonicalCluster, ClusterCitation, LookupRecord, UnverifiedReason, VerificationStatus};
use citeright::planner::{CitationNeed, CitationNeedKind, CitationNeedPriority};
use citeright::resolver::{resolve_candidates_with_fixtures, CandidateResolution};
use citeright::selector::{select_best_candidates, SelectedCitation};
use citeright::snapshot::{fetch_live_snapshot, normalize_lookup_records, snapshot_from_records};
use citeright::verify_selected::selected_to_claims;

fn cl(id: Option<i64>, name: Option<&str>, cites: Vec<ClusterCitation>) -> CanonicalCluster {
    CanonicalCluster {
        id,
        case_name: name.map(|s| s.to_string()),
        absolute_url: Some("/opinion/x/".to_string()),
        date_filed: Some("2015-06-26".to_string()),
        citations: cites,
    }
}

fn cite(v: Option<i64>, r: Option<&str>, p: Option<&str>) -> ClusterCitation {
    ClusterCitation { volume: v, reporter: r.map(|s| s.to_string()), page: p.map(|s| s.to_string()), citation_type: Some(1) }
}

fn rec(raw: &str, status: u16, clusters: Vec<CanonicalCluster>) -> LookupRecord {
    LookupRecord {
        source: "fixture".to_string(),
        request_digest: "sha256:req".to_string(),
        http_status: Some(200),
        api_status: Some(status),
        raw_citation: raw.to_string(),
        normalized_citations: vec![raw.to_string()],
        clusters,
        error_message: String::new(),
        raw_response_digest: format!("sha256:{}", raw.len()),
    }
}

fn candidate(id: &str, need: &str, query: &str) -> CitationCandidate {
    CitationCandidate {
        candidate_id: id.to_string(),
        need_id: need.to_string(),
        claim_id: "c".to_string(),
        source: CandidateSource::DeterministicQueryExpansion,
        search_query: query.to_string(),
        expected_artifact_type: "case".to_string(),
        jurisdiction_hint: None,
        reporter_hint: None,
        priority: CitationNeedPriority::High,
        deterministic_basis: "t".to_string(),
    }
}

fn need(id: &str) -> CitationNeed {
    CitationNeed {
        need_id: id.to_string(),
        claim_id: "c".to_string(),
        kind: CitationNeedKind::SupportHolding,
        priority: CitationNeedPriority::High,
        query_text: "q".to_string(),
        required_artifact: "case".to_string(),
        deterministic_basis: "t".to_string(),
    }
}

fn resolution(cid: &str, count: usize, ids: Vec<&str>, resolved: bool) -> CandidateResolution {
    CandidateResolution {
        resolution_id: format!("res:{}:{}", cid, count),
        candidate_id: cid.to_string(),
        search_query: "q".to_string(),
        lookup_source: "fixture".to_string(),
        result_count: count,
        canonical_ids: ids.into_iter().map(|s| s.to_string()).collect(),
        resolved,
        deterministic_basis: "t".to_string(),
    }
}

fn fixture() -> FixtureLookup {
    FixtureLookup::from_records(vec![
        rec("576 U.S. 644", 200, vec![cl(Some(1), Some("Old"), vec![])]),
        rec("1 U.S. 200", 200, vec![cl(Some(3), Some("A"), vec![]), cl(None, Some("B"), vec![])]),
        rec("576 U.S. 644", 200, vec![cl(Some(2812209), Some("Obergefell v. Hodges"), vec![])]),
    ])
}

#[test]
fn fixture_answers_with_the_last_record_per_citation_in_citation_order() {
    let f = fixture();
    let found = f.lookup("See 576 U.S. 644 and 1 U.S. 200.");
    assert_eq!(found.len(), 2);
    assert_eq!(found[0].raw_citation, "1 U.S. 200");
    assert_eq!(found[1].raw_citation, "576 U.S. 644");
    assert_eq!(found[1].clusters[0].id, Some(2812209));
    assert!(f.lookup("no citations").is_empty());
    let via_trait = f.lookup_text("576 U.S. 644").unwrap();
    assert_eq!(via_trait.len(), 1);
}

#[test]
fn candidates_resolve_to_canonical_cluster_ids() {
    let f = fixture();
    let cands = vec![candidate("c1", "n", "576 U.S. 644"), candidate("c2", "n", "1 U.S. 200"), candidate("c3", "n", "nothing")];
    let r = resolve_candidates_with_fixtures(&cands, &f).unwrap();
    assert_eq!(r.len(), 3);
    assert_eq!(r[0].canonical_ids, vec!["cluster:2812209".to_string()]);
    assert_eq!(r[0].lookup_source, "fixture:courtlistener");
    assert_eq!(r[0].deterministic_basis, "candidate_resolution_v0");
    assert!(r[0].resolved);
    assert_eq!(r[1].canonical_ids, vec!["cluster:3".to_string()]);
    assert_eq!(r[1].result_count, 1);
    assert!(!r[2].resolved);
    assert_eq!(r[2].result_count, 0);
    assert!(r[2].resolution_id.starts_with("sha256:"));
    assert_ne!(r[0].resolution_id, r[1].resolution_id);
}

#[test]
fn first_candidate_with_fewest_matches_is_selected() {
    let needs = vec![need("n1"), need("n2")];
    let cands = vec![candidate("a", "n1", "q"), candidate("b", "n1", "q"), candidate("c", "n1", "q"), candidate("d", "n2", "q")];
    let res = vec![
        resolution("a", 2, vec!["cluster:1", "cluster:2"], true),
        resolution("b", 1, vec!["cluster:3"], true),
        resolution("c", 1, vec!["cluster:4"], true),
        resolution("d", 1, vec!["cluster:5"], true),
        resolution("d", 0, vec![], false),
    ];
    let sel = select_best_candidates(&needs, &cands, &res).unwrap();
    assert!(sel[0].selected);
    assert_eq!(sel[0].candidate_id, "b");
    assert_eq!(sel[0].canonical_ids, vec!["cluster:3".to_string()]);
    assert_eq!(sel[0].reason, "unique or minimal match");
    assert!(!sel[1].selected);
    assert_eq!(sel[1].candidate_id, "none");
    assert_eq!(sel[1].resolution_id, "none");
    assert_eq!(sel[1].reason, "no resolved candidate");
    assert_eq!(sel[1].deterministic_basis, "selection_v0_min_result_count");
}

#[test]
fn artifacts_keep_the_first_of_each_cluster() {
    let results = vec![
        rec("576 U.S. 644", 200, vec![
            cl(Some(5), None, vec![cite(Some(576), Some("U.S."), Some("644")), cite(None, Some("L.Ed."), Some("1"))]),
            cl(None, Some("skipped"), vec![]),
        ]),
        rec("1 U.S. 1", 300, vec![cl(Some(5), Some("Later"), vec![]), cl(Some(-7), Some("Neg"), vec![])]),
    ];
    let a = artifacts_from_lookup_results(&results).unwrap();
    assert_eq!(a.len(), 2);
    assert_eq!(a[0].canonical_id, "cluster:5");
    assert_eq!(a[0].case_name, "UNKNOWN_CASE");
    assert_eq!(a[0].citations, vec!["576 U.S. 644".to_string()]);
    assert_eq!(a[0].source_digest, "sha256:12");
    assert_eq!(a[0].verification_status, VerificationStatus::Verified);
    assert_eq!(a[1].canonical_id, "cluster:-7");
    assert_eq!(a[1].verification_status, VerificationStatus::Unverified { reason: UnverifiedReason::Ambiguous });
    let again = dedup_artifacts(vec![a[1].clone(), a[0].clone(), a[1].clone()]);
    assert_eq!(again.len(), 2);
    assert_eq!(again[0].canonical_id, "cluster:-7");
}

fn selection(need: &str, selected: bool, ids: Vec<&str>) -> SelectedCitation {
    SelectedCitation {
        selection_id: format!("sel:{}", need),
        need_id: need.to_string(),
        candidate_id: "c".to_string(),
        resolution_id: "r".to_string(),
        canonical_ids: ids.into_iter().map(|s| s.to_string()).collect(),
        selected,
        reason: "x".to_string(),
        deterministic_basis: "t".to_string(),
    }
}

#[test]
fn selected_identifiers_are_bound_or_marked_not_found() {
    let arts = artifacts_from_lookup_results(&[rec("576 U.S. 644", 200, vec![cl(Some(5), Some("Obergefell"), vec![])])]).unwrap();
    let sels = vec![selection("n1", true, vec!["cluster:5", "cluster:9"]), selection("n2", false, vec!["cluster:5"])];
    let b = bind_selections_to_artifacts(&sels, &arts).unwrap();
    assert_eq!(b.len(), 2);
    assert!(b[0].bound);
    assert_eq!(b[0].case_name, "Obergefell");
    assert_eq!(b[0].artifact_id, arts[0].artifact_id);
    assert_eq!(b[0].reason, "canonical artifact found");
    assert!(!b[1].bound);
    assert_eq!(b[1].case_name, "UNBOUND");
    assert_eq!(b[1].artifact_id, "none");
    assert_eq!(b[1].verification_status, VerificationStatus::Unverified { reason: UnverifiedReason::NotFound });
    assert_eq!(b[1].reason, "selected canonical id has no artifact");
    assert_eq!(b[1].deterministic_basis, "selection_artifact_binding_v0");
}

#[test]
fn selected_citations_become_one_claim_per_identifier() {
    let sels = vec![selection("n1", true, vec!["cluster:5", "cluster:9"]), selection("n2", false, vec!["cluster:5"])];
    let c = selected_to_claims(&sels).unwrap();
    assert_eq!(c.len(), 2);
    assert_eq!(c[0].claim_id, "n1");
    assert_eq!(c[1].canonical_id, "cluster:9");
    assert_eq!(c[1].source, "selection");
}

#[test]
fn snapshots_mark_records_as_normalized() {
    let raw = vec![rec("576 U.S. 644", 200, vec![])];
    let n = normalize_lookup_records(&raw);
    assert_eq!(n[0].source, "live_normalized");
    assert_eq!(n[0].raw_citation, "576 U.S. 644");
    let s = snapshot_from_records("576 U.S. 644", &raw);
    assert_eq!(s.source, "courtlistener:live");
    assert_eq!(s.deterministic_basis, "snapshot_v0");
    assert_eq!(s.records[0].source, "live_normalized");
    assert!(s.snapshot_id.starts_with("sha256:"));
    let live = fetch_live_snapshot("576 U.S. 644", &fixture()).unwrap();
    assert_eq!(live.records.len(), 1);
    assert_eq!(live.query, "576 U.S. 644");
}
