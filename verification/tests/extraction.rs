use citeright::candidates::{
    generate_candidates, infer_jurisdiction_hint, jurisdiction_from_lowered, infer_reporter_hint, normalize_query,
    strip_citation_noise,
};
use citeright::claims::{extract_legal_claims, kind_of, split_sentences, ClaimKind, LegalClaim};
use citeright::extract::{claims_from_spans, dedup_claims, extract_citations, nearest_quote, safe_window};
use citeright::planner::{plan_citation_needs, CitationNeed, CitationNeedKind, CitationNeedPriority};

fn chars(s: &str) -> Vec<char> {
    s.chars().collect()
}

fn text(v: &[char]) -> String {
    v.iter().collect()
}

#[test]
fn citation_claim_records_offsets_context_and_identifier() {
    let t = "See Obergefell v. Hodges, 576 U.S. 644 and 1 U.S. 200.";
    let c = extract_citations(t).unwrap();
    assert_eq!(c[0].start_index, 26);
    assert_eq!(c[0].end_index, 38);
    assert_eq!(c[0].normalized_guess, "576 U.S. 644");
    assert_eq!(c[0].context_before, "See Obergefell v. Hodges, ");
    assert_eq!(c[0].context_after, " and 1 U.S. 200.");
    assert_eq!(c[0].quoted_text, None);
    let expected = format!("26:38:{}", "576 U.S. 644");
    assert_eq!(c[0].claim_id, citeright::digest::sha256_bytes(expected.as_bytes()));
    assert_eq!(c[1].raw, "1 U.S. 200");
}

#[test]
fn nearby_quotation_is_captured() {
    let t = "\"The right to marry is fundamental\" 576 U.S. 644";
    let c = extract_citations(t).unwrap();
    assert_eq!(c.len(), 1);
    assert_eq!(c[0].quoted_text, Some("The right to marry is fundamental".to_string()));
    assert_eq!(nearest_quote("x \u{201c}  quoted words here  \u{201d} y", ""), Some("quoted words here".to_string()));
    assert_eq!(nearest_quote("\"short\"", ""), None);
}

#[test]
fn text_without_citations_yields_no_claims() {
    assert!(extract_citations("No reporter citation in this sentence.").unwrap().is_empty());
}

#[test]
fn windows_off_character_boundaries_are_empty() {
    assert_eq!(safe_window("hello", 1, 3), "el");
    assert_eq!(safe_window("hello", 3, 1), "");
    assert_eq!(safe_window("h\u{e9}llo", 0, 2), "");
    assert_eq!(safe_window("h\u{e9}llo", 0, 3), "h\u{e9}");
    assert_eq!(safe_window("hello", 2, 9), "");
}

#[test]
fn duplicate_claims_are_dropped() {
    let t = "576 U.S. 644";
    let c = extract_citations(t).unwrap();
    let mut twice = c.clone();
    twice.push(c[0].clone());
    let d = dedup_claims(twice);
    assert_eq!(d.len(), 1);
    assert_eq!(d[0].raw, "576 U.S. 644");
}

#[test]
fn sentence_kinds_follow_the_lexical_rules() {
    let t = "Under In re Smith the debtor wins. The statute requires notice. Counsel lacks authority here. The sky is blue.";
    let claims = extract_legal_claims(t).unwrap();
    let kinds: Vec<ClaimKind> = claims.iter().map(|c| c.kind).collect();
    assert_eq!(kinds, vec![ClaimKind::NamedAuthority, ClaimKind::RuleStatement, ClaimKind::NeedsAuthority]);
    assert_eq!(claims[1].text, "The statute requires notice.");
    assert_eq!(claims[1].start_index, 35);
    assert_eq!(claims[1].end_index, 63);
}

#[test]
fn upper_case_holding_language_is_recognized() {
    let claims = extract_legal_claims("THE COURT HELD THAT notice was due.").unwrap();
    assert_eq!(claims.len(), 1);
    assert_eq!(claims[0].kind, ClaimKind::HoldingClaim);
}

#[test]
fn reporter_abbreviations_do_not_end_sentences() {
    let claims = extract_legal_claims("The rule in 576 U.S. 644 requires notice. Next.").unwrap();
    assert_eq!(claims.len(), 1);
    assert_eq!(claims[0].text, "The rule in 576 U.S. 644 requires notice.");
}

#[test]
fn claim_identifier_commits_to_the_pending_record() {
    let claims = extract_legal_claims("The Court held that states may not exclude a protected class.").unwrap();
    assert_eq!(claims[0].end_index, 61);
    assert_eq!(claims[0].claim_id, "sha256:2f3c4b37c12a8b66c114cacb9f4f1800bff89b8ecdd54e3f99ce3bb6052d27f4");
}

#[test]
fn need_identifier_commits_to_the_pending_need() {
    let claims = vec![LegalClaim {
        claim_id: "sha256:test".to_string(),
        kind: ClaimKind::NamedAuthority,
        text: "In re Example Corp., 1 B.R. 1".to_string(),
        start_index: 0,
        end_index: 30,
        confidence_basis: "test".to_string(),
    }];
    let needs = plan_citation_needs(&claims).unwrap();
    assert_eq!(needs[0].required_artifact, "canonical case artifact");
    assert_eq!(needs[0].need_id, "sha256:cf1f2ad3d340841b535a3b81effd04a032de7e51188b5b6f94c4c1baf902c46a");
}

#[test]
fn every_claim_kind_gets_its_need() {
    let kinds = [
        (ClaimKind::HoldingClaim, CitationNeedKind::SupportHolding, CitationNeedPriority::High),
        (ClaimKind::RuleStatement, CitationNeedKind::SupportRule, CitationNeedPriority::High),
        (ClaimKind::FactualAssertion, CitationNeedKind::SupportFactualAssertion, CitationNeedPriority::Medium),
        (ClaimKind::NeedsAuthority, CitationNeedKind::ReviewOnly, CitationNeedPriority::Low),
    ];
    for (k, nk, p) in kinds {
        let claims = vec![LegalClaim {
            claim_id: "c".to_string(),
            kind: k,
            text: "t".to_string(),
            start_index: 0,
            end_index: 1,
            confidence_basis: "b".to_string(),
        }];
        let needs = plan_citation_needs(&claims).unwrap();
        assert_eq!(needs[0].kind, nk);
        assert_eq!(needs[0].priority, p);
        assert_eq!(needs[0].query_text, "t");
    }
}

#[test]
fn queries_are_normalized_and_stripped() {
    let q = chars("  Obergefell v. Hodges,  576 U.S. 644 (2015);  equal  ");
    assert_eq!(text(&normalize_query(&q)), "Obergefell v. Hodges, 576 U.S. 644 (2015); equal");
    assert_eq!(text(&strip_citation_noise(&q)), "Obergefell v. Hodges equal");
    assert_eq!(infer_jurisdiction_hint(&chars("a Supreme Court case")), Some("federal".to_string()));
    assert_eq!(infer_jurisdiction_hint(&chars("In re Debtor, 1 b.r. 2")), Some("federal_bankruptcy".to_string()));
    assert_eq!(infer_jurisdiction_hint(&chars("state court")), None);
    assert_eq!(infer_reporter_hint(&chars("cited at 5 US 137")), Some("U.S.".to_string()));
    assert_eq!(infer_reporter_hint(&chars("1 B.R. 1")), Some("B.R.".to_string()));
    assert_eq!(infer_reporter_hint(&chars("1 b.r. 1")), None);
}

#[test]
fn holding_need_gets_normalized_and_stripped_candidates() {
    let needs = vec![CitationNeed {
        need_id: "sha256:need".to_string(),
        claim_id: "sha256:claim".to_string(),
        kind: CitationNeedKind::SupportHolding,
        priority: CitationNeedPriority::High,
        query_text: "Obergefell v. Hodges, 576 U.S. 644, confirmed equal protection.".to_string(),
        required_artifact: "case holding or quoted proposition".to_string(),
        deterministic_basis: "test".to_string(),
    }];
    let c = generate_candidates(&needs).unwrap();
    assert_eq!(c.len(), 2);
    assert_eq!(c[0].search_query, "Obergefell v. Hodges, 576 U.S. 644, confirmed equal protection.");
    assert_eq!(c[1].search_query, "Obergefell v. Hodges confirmed equal protection.");
    assert_eq!(c[1].jurisdiction_hint, Some("federal".to_string()));
    assert_eq!(c[1].reporter_hint, Some("U.S.".to_string()));
    assert_eq!(c[1].candidate_id, "sha256:c1b7f3354d6eb70dbe56280561eab6669203de90e8a430685a8f0a8bbd4d2c65");
}

#[test]
fn repeated_needs_give_each_candidate_once() {
    let need = CitationNeed {
        need_id: "n".to_string(),
        claim_id: "c".to_string(),
        kind: CitationNeedKind::VerifyNamedAuthority,
        priority: CitationNeedPriority::Critical,
        query_text: "Smith v. Jones".to_string(),
        required_artifact: "canonical case artifact".to_string(),
        deterministic_basis: "b".to_string(),
    };
    let c = generate_candidates(&[need.clone(), need]).unwrap();
    assert_eq!(c.len(), 1);
    assert_eq!(c[0].expected_artifact_type, "case");
}

#[test]
fn lowered_text_rules() {
    assert_eq!(kind_of(&chars("the court held that x.")), Some(ClaimKind::HoldingClaim));
    assert_eq!(kind_of(&chars("smith v. jones applies.")), Some(ClaimKind::NamedAuthority));
    assert_eq!(kind_of(&chars("nothing here.")), None);
    assert_eq!(jurisdiction_from_lowered(&chars("bankruptcy court")), Some("federal_bankruptcy".to_string()));
    assert_eq!(jurisdiction_from_lowered(&chars("SUPREME COURT")), None);
    assert_eq!(jurisdiction_from_lowered(&chars("supreme court")), Some("federal".to_string()));
}

#[test]
fn sentences_are_ordered_and_cover_the_text() {
    let t: Vec<char> = "  First one. Second!  \n Third".chars().collect();
    let spans = split_sentences(&t);
    assert_eq!(spans, vec![(0, 12), (13, 20), (24, 29)]);
    for w in spans.windows(2) {
        assert!(w[0].1 <= w[1].0);
    }
}

#[test]
fn claims_from_given_spans() {
    let text = "See 576 U.S. 644 and 576 U.S. 644 again.";
    let claims = claims_from_spans(text, &vec![(4, 16), (4, 16), (21, 33)]);
    assert_eq!(claims.len(), 2);
    assert_eq!(claims[0].raw, "576 U.S. 644");
    assert_eq!((claims[1].start_index, claims[1].end_index), (21, 33));
}
