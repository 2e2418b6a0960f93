use citeright::artifact::CaseArtifact;
use citeright::models::VerificationStatus;
use citeright::reasoning::analyzer::{
    analysis_result, assessment_from_reply, assessment_prompt, assessment_request_body,
    choose_opinion_text, cluster_number, holdings_summary, opinion_holdings, opinions_url,
    support_level_of, unavailable_assessment, OpinionText, SupportLevel,
};
use citeright::reasoning::applicability::{
    concept_overlap_counts, filed_year, keyword_overlap_counts, parse_i32, rule_match_counts, tokenize,
};
use citeright::reasoning::argument_graph::{
    cases_supporting_claim, conflicting_cases, node_from_holding, ArgumentClaim, EdgeType,
};
use citeright::reasoning::holdings_extractor::{
    extract_holdings_from_text, extract_sentences, holdings_extraction_defined, strip_html,
    ExtractedHolding, HoldingConfidence, HoldingNode,
};
use citeright::reasoning::validation::{
    build_summary, claim_validity_rule, conflict_record, flagged_claims, determine_overall_validity, llm_support_signal,
    ClaimValidity, OverallValidity, ValidityRule,
};
use citeright::CiteError;

fn artifact() -> CaseArtifact {
    CaseArtifact {
        artifact_id: "sha256:a".to_string(),
        canonical_id: "cluster:42".to_string(),
        case_name: "A v. B".to_string(),
        citations: vec![],
        date_filed: None,
        absolute_url: Some("/opinion/42/".to_string()),
        source: "s".to_string(),
        source_digest: "sha256:s".to_string(),
        verification_status: VerificationStatus::Verified,
    }
}

fn holding(text: &str) -> ExtractedHolding {
    ExtractedHolding { text: text.to_string(), trigger: "We hold that".to_string(), confidence: HoldingConfidence::High }
}

#[test]
fn markup_is_removed_and_spaces_collapsed() {
    assert_eq!(strip_html("<p>Hello <b>big</b>\n  world</p>"), "Hello big world");
    assert_eq!(strip_html("  a > b < c  "), "a b");
}

#[test]
fn holding_sentence_starts_after_the_previous_period() {
    let node = extract_holdings_from_text(&artifact(), "Background. The Court holds that X applies to all such cases here.");
    assert_eq!(node.holdings.len(), 1);
    assert_eq!(node.holdings[0].text, "The Court holds that X applies to all such cases here.");
    assert_eq!(node.holdings[0].trigger, "The Court holds");
    assert!(matches!(node.holdings[0].confidence, HoldingConfidence::Low));
    assert_eq!(node.opinion_url, Some("/opinion/42/".to_string()));
    assert_eq!(node.extraction_method, "pattern_v1");
}

#[test]
fn overlapping_phrases_give_one_holding() {
    let node = extract_holdings_from_text(&artifact(), "We hold that X is true for everyone.");
    assert_eq!(node.holdings.len(), 1);
    assert_eq!(node.holdings[0].trigger, "We hold that");
}

#[test]
fn sentence_without_period_ends_three_hundred_bytes_on() {
    let text = format!("We hold that {}", "a".repeat(400));
    assert!(holdings_extraction_defined(&text));
    let node = extract_holdings_from_text(&artifact(), &text);
    assert_eq!(node.holdings.len(), 1);
    assert_eq!(node.holdings[0].text.len(), 300);
}

#[test]
fn fallback_inside_a_character_is_not_extractable() {
    let text = format!("We hold that {}", "\u{e9}".repeat(200));
    assert!(!holdings_extraction_defined(&text));
}

#[test]
fn short_sentences_are_not_holdings() {
    let mut out = Vec::new();
    extract_sentences("We hold X. Then more.", "We hold ", HoldingConfidence::High, &mut out);
    assert!(out.is_empty());
    extract_sentences("Intro. we find that the lease was valid and binding.", "we find that", HoldingConfidence::Low, &mut out);
    assert_eq!(out.len(), 1);
    assert_eq!(out[0].text, "we find that the lease was valid and binding.");
}

#[test]
fn cluster_identifiers_and_opinion_addresses() {
    assert_eq!(cluster_number("cluster:2812209").unwrap(), "2812209");
    match cluster_number("opinion:1") {
        Err(CiteError::NotClusterId(id)) => assert_eq!(id, "opinion:1"),
        _ => panic!("expected an error"),
    }
    assert_eq!(opinions_url("42"), "https://www.courtlistener.com/api/rest/v4/opinions/?cluster=42");
}

#[test]
fn first_result_with_text_is_chosen() {
    let results = vec![
        OpinionText { html_with_citations: Some(String::new()), plain_text: None },
        OpinionText { html_with_citations: None, plain_text: Some("plain".to_string()) },
        OpinionText { html_with_citations: Some("<p>html</p>".to_string()), plain_text: None },
    ];
    assert_eq!(choose_opinion_text(&results), Some("plain".to_string()));
    assert_eq!(choose_opinion_text(&[]), None);
    match opinion_holdings(&artifact(), "42", &[]) {
        Err(CiteError::NoOpinionText(c)) => assert_eq!(c, "42"),
        _ => panic!("expected an error"),
    }
    let node = opinion_holdings(&artifact(), "42", &results).unwrap();
    assert!(node.holdings.is_empty());
}

#[test]
fn summary_lists_at_most_five_holdings() {
    let mut node = HoldingNode {
        canonical_id: "cluster:42".to_string(),
        case_name: "A v. B".to_string(),
        holdings: vec![],
        opinion_url: None,
        extraction_method: "pattern_v1".to_string(),
    };
    assert_eq!(holdings_summary(&node), "No explicit holding language found in majority opinion.");
    node.holdings = (1..=6).map(|i| holding(&format!("h{}", i))).collect();
    assert_eq!(holdings_summary(&node), "[High] h1\n[High] h2\n[High] h3\n[High] h4\n[High] h5");
}

#[test]
fn assessment_request_and_reply() {
    let p = assessment_prompt("A v. B", "H", "C");
    assert!(p.starts_with("You are a legal citation analyst."));
    assert!(p.contains("\n\nCase: A v. B\n\nExtracted holdings from majority opinion:\nH\n\nClaim made in brief:\nC\n\n"));
    assert!(p.ends_with("\"confidence\": \"High or Medium or Low\"}"));
    assert_eq!(
        assessment_request_body("say \"hi\"\n"),
        "{\"max_tokens\":512,\"messages\":[{\"content\":\"say \\\"hi\\\"\\n\",\"role\":\"user\"}],\"model\":\"gpt-4o\"}"
    );
    assert_eq!(support_level_of(&Some("PartiallySupported".to_string())), SupportLevel::PartiallySupported);
    assert_eq!(support_level_of(&Some("supported".to_string())), SupportLevel::Indeterminate);
    assert_eq!(support_level_of(&None), SupportLevel::Indeterminate);
    let a = assessment_from_reply(&Some("Supported".to_string()), &None, &None);
    assert_eq!(a.supported, SupportLevel::Supported);
    assert_eq!(a.explanation, "No explanation provided");
    assert_eq!(a.confidence, "Low");
    let u = unavailable_assessment("503 Service Unavailable");
    assert_eq!(u.explanation, "OpenAI API unavailable: 503 Service Unavailable");
    assert_eq!(u.supported, SupportLevel::Indeterminate);
    let node = node_holdings();
    let r = analysis_result(&artifact(), "claim", node, u);
    assert_eq!(r.canonical_id, "cluster:42");
    assert_eq!(r.claim_text, "claim");
}

fn node_holdings() -> HoldingNode {
    HoldingNode {
        canonical_id: "cluster:42".to_string(),
        case_name: "A v. B".to_string(),
        holdings: vec![holding("We hold that X."), holding("We hold that Y.")],
        opinion_url: None,
        extraction_method: "pattern_v1".to_string(),
    }
}

#[test]
fn tokens_are_lower_case_alphabetic_runs_longer_than_three_bytes() {
    let mut t = tokenize("The Court's decision: equal-protection RIGHTS! equal");
    t.sort();
    assert_eq!(t, vec!["court", "decision", "equal", "protection", "rights"]);
    assert_eq!(tokenize("\u{c9}clair \u{e9}clair"), vec!["\u{e9}clair".to_string()]);
    assert!(tokenize("a an the 42").is_empty());
}

#[test]
fn overlap_counts() {
    let holdings = vec!["fundamental right to marry".to_string(), "due process".to_string()];
    assert_eq!(keyword_overlap_counts(&holdings, "fundamental liberty and due process"), (2, 4));
    assert_eq!(keyword_overlap_counts(&[], "anything"), (0, 0));
    let h = vec!["due process and equal protection".to_string()];
    assert_eq!(concept_overlap_counts(&h, "Constitutional due process"), (1, 2));
    assert_eq!(rule_match_counts(&Some("We hold X applies".to_string()), "X applies here"), Some((1, 2)));
    assert_eq!(rule_match_counts(&None, "X"), None);
}

#[test]
fn filing_years_and_integers() {
    assert_eq!(filed_year(&Some("2015-06-26".to_string())), Some(2015));
    assert_eq!(filed_year(&Some("undated".to_string())), Some(1900));
    assert_eq!(filed_year(&Some("-5".to_string())), Some(1900));
    assert_eq!(filed_year(&None), None);
    let p = |s: &str| parse_i32(&s.chars().collect());
    assert_eq!(p("+7"), Some(7));
    assert_eq!(p("007"), Some(7));
    assert_eq!(p("-2147483648"), Some(i32::MIN));
    assert_eq!(p("2147483647"), Some(i32::MAX));
    assert_eq!(p("2147483648"), None);
    assert_eq!(p(""), None);
    assert_eq!(p("-"), None);
    assert_eq!(p("12a"), None);
}

#[test]
fn overall_validity_cases() {
    assert_eq!(determine_overall_validity(&[], 0), OverallValidity::Indeterminate);
    assert_eq!(determine_overall_validity(&[ClaimValidity::Supported, ClaimValidity::Supported], 0), OverallValidity::Valid);
    assert_eq!(determine_overall_validity(&[ClaimValidity::Supported, ClaimValidity::Unsupported], 0), OverallValidity::PartiallyValid);
    assert_eq!(determine_overall_validity(&[ClaimValidity::Unsupported], 0), OverallValidity::Invalid);
    assert_eq!(determine_overall_validity(&[ClaimValidity::Supported], 1), OverallValidity::PartiallyValid);
    assert_eq!(determine_overall_validity(&[ClaimValidity::Unsupported, ClaimValidity::Unsupported], 3), OverallValidity::Invalid);
    assert_eq!(determine_overall_validity(&[ClaimValidity::PartiallySupported], 0), OverallValidity::PartiallyValid);
}

#[test]
fn validation_summary_and_signals() {
    let s = build_summary(
        OverallValidity::PartiallyValid,
        &[ClaimValidity::Supported, ClaimValidity::Unsupported],
        &["c2".to_string()],
        1,
    );
    assert_eq!(
        s,
        "Overall validity: PartiallyValid. 1/2 claims supported by verified authority. 1 claim(s) unsupported: c2. 1 conflicting authority relationship(s) detected"
    );
    assert_eq!(build_summary(OverallValidity::Indeterminate, &[], &[], 0), "Overall validity: Indeterminate. 0/0 claims supported by verified authority");
    assert_eq!(llm_support_signal(&Some("Supported: claim accurately reflects holding".to_string())), Some(2));
    assert_eq!(llm_support_signal(&Some("UNSUPPORTED: no".to_string())), Some(0));
    assert_eq!(llm_support_signal(&Some("Partially supported".to_string())), Some(1));
    assert_eq!(llm_support_signal(&Some("unclear".to_string())), Some(-1));
    assert_eq!(llm_support_signal(&None), None);
    let c = conflict_record("claim:1", "cluster:1", "cluster:2");
    assert_eq!(c.explanation, "cluster:1 may conflict with cluster:2 on this point");
}

#[test]
fn argument_graph_lookups() {
    let n1 = node_from_holding(&node_holdings());
    assert_eq!(n1.holdings, vec!["We hold that X.".to_string(), "We hold that Y.".to_string()]);
    assert_eq!(n1.rule_extracted, Some("We hold that X.".to_string()));
    assert_eq!(n1.date_filed, None);
    let mut n2 = n1.clone();
    n2.canonical_id = "cluster:2".to_string();
    let nodes = vec![n1.clone(), n2];
    let claims = vec![ArgumentClaim {
        claim_id: "claim:1".to_string(),
        text: "X applies.".to_string(),
        cited_case_ids: vec!["cluster:42".to_string(), "cluster:9".to_string()],
        assessment: None,
    }];
    let s = cases_supporting_claim(&nodes, &claims, "claim:1");
    assert_eq!(s.len(), 1);
    assert_eq!(s[0].canonical_id, "cluster:42");
    assert!(cases_supporting_claim(&nodes, &claims, "claim:2").is_empty());
    let edges = vec![
        ("cluster:42".to_string(), "cluster:2".to_string(), EdgeType::Contradicts),
        ("cluster:42".to_string(), "cluster:2".to_string(), EdgeType::Supports),
    ];
    let c = conflicting_cases(&nodes, &edges, "cluster:42");
    assert_eq!(c.len(), 1);
    assert_eq!(c[0].canonical_id, "cluster:2");
}

fn mock_holding(id: &str, name: &str, holding_text: &str) -> HoldingNode {
    HoldingNode {
        canonical_id: id.to_string(),
        case_name: name.to_string(),
        holdings: vec![holding(holding_text)],
        opinion_url: None,
        extraction_method: "pattern_v1".to_string(),
    }
}

#[test]
fn builds_graph_from_holding_nodes() {
    let h = mock_holding("cluster:1", "Test v. Case", "We hold that X applies.");
    let node = node_from_holding(&h);
    assert_eq!(node.canonical_id, "cluster:1");
    assert_eq!(node.case_name, "Test v. Case");
}

#[test]
fn tracks_claims_and_cited_cases() {
    let h = mock_holding("cluster:1", "Test v. Case", "We hold that X applies.");
    let nodes = vec![node_from_holding(&h)];
    let claims = vec![ArgumentClaim {
        claim_id: "claim:1".to_string(),
        text: "X applies to these facts.".to_string(),
        cited_case_ids: vec!["cluster:1".to_string()],
        assessment: None,
    }];
    let supporting = cases_supporting_claim(&nodes, &claims, "claim:1");
    assert_eq!(supporting.len(), 1);
    assert_eq!(supporting[0].case_name, "Test v. Case");
}

#[test]
fn finds_conflicting_cases() {
    let h1 = mock_holding("cluster:1", "Case A", "We hold X.");
    let h2 = mock_holding("cluster:2", "Case B", "We hold not X.");
    let nodes = vec![node_from_holding(&h1), node_from_holding(&h2)];
    let edges = vec![("cluster:1".to_string(), "cluster:2".to_string(), EdgeType::Contradicts)];
    let conflicts = conflicting_cases(&nodes, &edges, "cluster:1");
    assert_eq!(conflicts.len(), 1);
    assert_eq!(conflicts[0].canonical_id, "cluster:2");
}

#[test]
fn claim_validity_decision_table() {
    assert_eq!(claim_validity_rule(0, Some(2), true, true, true), (ClaimValidity::Unsupported, ValidityRule::NoSupportingCases));
    assert_eq!(claim_validity_rule(1, Some(2), true, true, false), (ClaimValidity::Supported, ValidityRule::ConfirmedApplicable));
    assert_eq!(claim_validity_rule(1, Some(2), true, false, false), (ClaimValidity::PartiallySupported, ValidityRule::ConfirmedLowApplicability));
    assert_eq!(claim_validity_rule(1, Some(1), false, false, false), (ClaimValidity::PartiallySupported, ValidityRule::PartialSupport));
    assert_eq!(claim_validity_rule(1, Some(0), true, true, true), (ClaimValidity::Unsupported, ValidityRule::NotSupported));
    assert_eq!(claim_validity_rule(1, None, true, true, true), (ClaimValidity::PartiallySupported, ValidityRule::RelevantWithoutAssessment));
    assert_eq!(claim_validity_rule(1, None, true, false, false), (ClaimValidity::PartiallySupported, ValidityRule::WeakWithoutAssessment));
    assert_eq!(claim_validity_rule(1, None, false, false, false), (ClaimValidity::Unverifiable, ValidityRule::InsufficientSignal));
    assert_eq!(claim_validity_rule(2, Some(-1), true, true, true), (ClaimValidity::Unverifiable, ValidityRule::InsufficientSignal));
}

#[test]
fn flagged_claims_in_order() {
    let ids = vec!["a".to_string(), "b".to_string(), "c".to_string(), "d".to_string()];
    let vs = vec![
        ClaimValidity::Unsupported,
        ClaimValidity::Supported,
        ClaimValidity::PartiallySupported,
        ClaimValidity::Unsupported,
    ];
    let (u, w) = flagged_claims(&ids, &vs);
    assert_eq!(u, vec!["a".to_string(), "d".to_string()]);
    assert_eq!(w, vec!["c".to_string()]);
}
