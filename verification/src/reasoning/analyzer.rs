//! Assessment of a claim against the opinion of the case it cites: the
//! opinion text is chosen from the lookup answer, its holdings extracted
//! and summarized, the assessment request written, and the reply read
//! back into a support level.
use vstd::prelude::*;
use crate::text::{chars_of, chars_of_string, join, join_chars, occurs_at, push_all, push_str, slice_chars, string_of, views, matches_at};
use crate::json::{json_str, key, opt_view, push_json_lit, push_json_string, push_key, JsonRecord};
use crate::artifact::{CaseArtifact, CaseArtifactView};
use crate::reasoning::holdings_extractor::{
    confidence_name, extract_holdings_from_text, holding_node_spec, holdings_defined,
    ExtractedHolding, ExtractedHoldingView, HoldingNode, HoldingNodeView, json_holding_node,
};
use crate::CiteError;

verus! {

/// How well the cited case supports a claim.
#[derive(Debug, Clone, Copy, PartialEq, Eq, Structural)]
pub enum SupportLevel {
    Supported,
    PartiallySupported,
    Unsupported,
    Indeterminate,
}

/// The assessment of one claim.
#[derive(Debug, Clone)]
pub struct ClaimAssessment {
    pub supported: SupportLevel,
    pub explanation: String,
    pub confidence: String,
}

/// A claim, the case it cites, the holdings of that case and the
/// assessment.
#[derive(Debug, Clone)]
pub struct AnalysisResult {
    pub canonical_id: String,
    pub case_name: String,
    pub holding_node: HoldingNode,
    pub claim_text: String,
    pub assessment: ClaimAssessment,
}

/// The two texts an opinion search result may carry.
#[derive(Debug, Clone)]
pub struct OpinionText {
    pub html_with_citations: Option<String>,
    pub plain_text: Option<String>,
}

/// The mathematical value of an [`OpinionText`].
pub struct OpinionTextView {
    pub html_with_citations: Option<Seq<char>>,
    pub plain_text: Option<Seq<char>>,
}

impl View for OpinionText {
    type V = OpinionTextView;

    open spec fn view(&self) -> OpinionTextView {
        OpinionTextView {
            html_with_citations: opt_view(self.html_with_citations),
            plain_text: opt_view(self.plain_text),
        }
    }
}

/// The serialized name of a support level.
pub open spec fn support_name(x: SupportLevel) -> Seq<char> {
    match x {
        SupportLevel::Supported => "Supported"@,
        SupportLevel::PartiallySupported => "PartiallySupported"@,
        SupportLevel::Unsupported => "Unsupported"@,
        SupportLevel::Indeterminate => "Indeterminate"@,
    }
}

impl SupportLevel {
    /// Appends the JSON string that names this variant.
    pub fn push_json(&self, out: &mut Vec<char>)
        ensures
            final(out)@ == old(out)@ + json_str(support_name(*self)),
    {
        match self {
            SupportLevel::Supported => push_json_lit(out, "Supported"),
            SupportLevel::PartiallySupported => push_json_lit(out, "PartiallySupported"),
            SupportLevel::Unsupported => push_json_lit(out, "Unsupported"),
            SupportLevel::Indeterminate => push_json_lit(out, "Indeterminate"),
        }
    }
}

/// The mathematical value of a [`ClaimAssessment`].
pub struct ClaimAssessmentView {
    pub supported: SupportLevel,
    pub explanation: Seq<char>,
    pub confidence: Seq<char>,
}

impl View for ClaimAssessment {
    type V = ClaimAssessmentView;

    open spec fn view(&self) -> ClaimAssessmentView {
        ClaimAssessmentView {
            supported: self.supported,
            explanation: self.explanation@,
            confidence: self.confidence@,
        }
    }
}

/// The JSON text of a claim assessment.
pub open spec fn json_claim_assessment(v: ClaimAssessmentView) -> Seq<char> {
    "{"@ + key("supported"@) + json_str(support_name(v.supported))
        + ","@ + key("explanation"@) + json_str(v.explanation)
        + ","@ + key("confidence"@) + json_str(v.confidence)
        + "}"@
}

impl JsonRecord for ClaimAssessment {
    open spec fn json_view(&self) -> Seq<char> {
        json_claim_assessment(self@)
    }

    fn to_json(&self) -> (r: Vec<char>) {
        let mut out = chars_of("{");
        push_key(&mut out, "supported");
        self.supported.push_json(&mut out);
        push_str(&mut out, ",");
        push_key(&mut out, "explanation");
        push_json_string(&mut out, &self.explanation);
        push_str(&mut out, ",");
        push_key(&mut out, "confidence");
        push_json_string(&mut out, &self.confidence);
        push_str(&mut out, "}");
        out
    }
}

/// The mathematical value of a [`AnalysisResult`].
pub struct AnalysisResultView {
    pub canonical_id: Seq<char>,
    pub case_name: Seq<char>,
    pub holding_node: HoldingNodeView,
    pub claim_text: Seq<char>,
    pub assessment: ClaimAssessmentView,
}

impl View for AnalysisResult {
    type V = AnalysisResultView;

    open spec fn view(&self) -> AnalysisResultView {
        AnalysisResultView {
            canonical_id: self.canonical_id@,
            case_name: self.case_name@,
            holding_node: self.holding_node@,
            claim_text: self.claim_text@,
            assessment: self.assessment@,
        }
    }
}

/// The JSON text of an analysis result.
pub open spec fn json_analysis_result(v: AnalysisResultView) -> Seq<char> {
    "{"@ + key("canonical_id"@) + json_str(v.canonical_id)
        + ","@ + key("case_name"@) + json_str(v.case_name)
        + ","@ + key("holding_node"@) + json_holding_node(v.holding_node)
        + ","@ + key("claim_text"@) + json_str(v.claim_text)
        + ","@ + key("assessment"@) + json_claim_assessment(v.assessment)
        + "}"@
}

impl JsonRecord for AnalysisResult {
    open spec fn json_view(&self) -> Seq<char> {
        json_analysis_result(self@)
    }

    fn to_json(&self) -> (r: Vec<char>) {
        let mut out = chars_of("{");
        push_key(&mut out, "canonical_id");
        push_json_string(&mut out, &self.canonical_id);
        push_str(&mut out, ",");
        push_key(&mut out, "case_name");
        push_json_string(&mut out, &self.case_name);
        push_str(&mut out, ",");
        push_key(&mut out, "holding_node");
        let j = self.holding_node.to_json();
        push_all(&mut out, &j);
        push_str(&mut out, ",");
        push_key(&mut out, "claim_text");
        push_json_string(&mut out, &self.claim_text);
        push_str(&mut out, ",");
        push_key(&mut out, "assessment");
        let j = self.assessment.to_json();
        push_all(&mut out, &j);
        push_str(&mut out, "}");
        out
    }
}

/// The cluster number of a canonical identifier `cluster:<n>`.
pub open spec fn cluster_number_spec(id: Seq<char>) -> Option<Seq<char>> {
    if matches_at(id, "cluster:"@, 0) {
        Some(id.skip("cluster:"@.len() as int))
    } else {
        None
    }
}

/// The opinion search address for a cluster.
pub open spec fn opinions_url_spec(cluster: Seq<char>) -> Seq<char> {
    "https://www.courtlistener.com/api/rest/v4/opinions/?cluster="@ + cluster
}

/// The text of one search result: its HTML with citations when non-empty,
/// else its plain text when non-empty.
pub open spec fn text_of_result(r: OpinionTextView) -> Option<Seq<char>> {
    if r.html_with_citations is Some && r.html_with_citations->0.len() > 0 {
        r.html_with_citations
    } else if r.plain_text is Some && r.plain_text->0.len() > 0 {
        r.plain_text
    } else {
        None
    }
}

/// The text of the first search result that has one.
pub open spec fn opinion_text_spec(rs: Seq<OpinionTextView>) -> Option<Seq<char>>
    decreases rs.len(),
{
    if rs.len() == 0 {
        None
    } else {
        match text_of_result(rs[0]) {
            Some(t) => Some(t),
            None => opinion_text_spec(rs.drop_first()),
        }
    }
}

/// One line of the holdings summary: `[confidence] text`.
pub open spec fn summary_line(h: ExtractedHoldingView) -> Seq<char> {
    "["@ + confidence_name(h.confidence) + "] "@ + h.text
}

/// The holdings summary: the first five holdings, one per line, or a
/// sentence saying that none was found.
pub open spec fn holdings_summary_spec(hs: Seq<ExtractedHoldingView>) -> Seq<char> {
    if hs.len() == 0 {
        "No explicit holding language found in majority opinion."@
    } else {
        let k = if hs.len() < 5 { hs.len() as int } else { 5 };
        join(hs.take(k).map_values(|h: ExtractedHoldingView| summary_line(h)), "\n"@)
    }
}

/// The lines of the assessment request.
pub open spec fn prompt_lines(case_name: Seq<char>, holdings: Seq<char>, claim: Seq<char>) -> Seq<Seq<char>> {
    seq![
        "You are a legal citation analyst. Assess whether the following legal claim correctly characterizes the holding of the cited case."@,
        ""@,
        "Case: "@ + case_name,
        ""@,
        "Extracted holdings from majority opinion:"@,
        holdings,
        ""@,
        "Claim made in brief:"@,
        claim,
        ""@,
        "Respond in JSON only, no markdown, no backticks, with this exact structure:"@,
        r#"{"supported": "Supported or PartiallySupported or Unsupported or Indeterminate", "explanation": "one or two sentence explanation", "confidence": "High or Medium or Low"}"#@,
    ]
}

/// The assessment request: its lines joined by newlines.
pub open spec fn assessment_prompt_spec(case_name: Seq<char>, holdings: Seq<char>, claim: Seq<char>) -> Seq<char> {
    join(prompt_lines(case_name, holdings, claim), "\n"@)
}

/// The JSON body of the chat request carrying a prompt (keys in order).
pub open spec fn request_body_spec(prompt: Seq<char>) -> Seq<char> {
    "{\"max_tokens\":512,\"messages\":[{\"content\":"@ + json_str(prompt)
        + ",\"role\":\"user\"}],\"model\":\"gpt-4o\"}"@
}

/// The support level a reply names; anything else, or nothing, is
/// indeterminate.
pub open spec fn support_spec(label: Option<Seq<char>>) -> SupportLevel {
    match label {
        Some(l) => if l == "Supported"@ {
            SupportLevel::Supported
        } else if l == "PartiallySupported"@ {
            SupportLevel::PartiallySupported
        } else if l == "Unsupported"@ {
            SupportLevel::Unsupported
        } else {
            SupportLevel::Indeterminate
        },
        None => SupportLevel::Indeterminate,
    }
}

/// The assessment read from the three fields of a reply, with defaults for
/// missing fields.
pub open spec fn assessment_spec(
    supported: Option<Seq<char>>,
    explanation: Option<Seq<char>>,
    confidence: Option<Seq<char>>,
) -> ClaimAssessmentView {
    ClaimAssessmentView {
        supported: support_spec(supported),
        explanation: match explanation {
            Some(e) => e,
            None => "No explanation provided"@,
        },
        confidence: match confidence {
            Some(c) => c,
            None => "Low"@,
        },
    }
}

/// The cluster number of a canonical identifier; an error when it is not
/// of the form `cluster:<n>`.
pub fn cluster_number(canonical_id: &str) -> (r: Result<String, CiteError>)
    ensures
        match cluster_number_spec(canonical_id@) {
            Some(n) => r matches Ok(s) && s@ == n,
            None => r matches Err(e) && e matches CiteError::NotClusterId(id) && id@ == canonical_id@,
        },
{
    let t = chars_of(canonical_id);
    let p = chars_of("cluster:");
    if occurs_at(&t, &p, 0) {
        Ok(string_of(&slice_chars(&t, p.len(), t.len())))
    } else {
        Err(CiteError::NotClusterId(string_of(&t)))
    }
}

/// The opinion search address for a cluster.
pub fn opinions_url(cluster: &str) -> (r: String)
    ensures
        r@ == opinions_url_spec(cluster@),
{
    let mut t = chars_of("https://www.courtlistener.com/api/rest/v4/opinions/?cluster=");
    push_all(&mut t, &chars_of(cluster));
    string_of(&t)
}

/// The text of one search result.
fn text_of(r: &OpinionText) -> (t: Option<String>)
    ensures
        opt_view(t) == text_of_result(r@),
{
    match &r.html_with_citations {
        Some(h) => if chars_of_string(h).len() > 0 {
            return Some(h.clone());
        },
        None => {},
    }
    match &r.plain_text {
        Some(p) => if chars_of_string(p).len() > 0 {
            return Some(p.clone());
        },
        None => {},
    }
    None
}

/// The opinion text of the first search result that has one.
pub fn choose_opinion_text(results: &[OpinionText]) -> (r: Option<String>)
    ensures
        opt_view(r) == opinion_text_spec(results@.map_values(|x: OpinionText| x@)),
{
    let ghost v = results@.map_values(|x: OpinionText| x@);
    assert(v.skip(0) =~= v);
    for i in 0..results.len()
        invariant
            v == results@.map_values(|x: OpinionText| x@),
            opinion_text_spec(v) == opinion_text_spec(v.skip(i as int)),
    {
        assert(v.skip(i as int)[0] == results@[i as int]@);
        assert(v.skip(i as int).drop_first() =~= v.skip(i + 1));
        match text_of(&results[i]) {
            Some(t) => {
                return Some(t);
            },
            None => {},
        }
    }
    assert(v.skip(results@.len() as int) =~= Seq::<OpinionTextView>::empty());
    None
}

/// The summary of the holdings handed to the assessment.
pub fn holdings_summary(node: &HoldingNode) -> (r: String)
    ensures
        r@ == holdings_summary_spec(node@.holdings),
{
    let hs = &node.holdings;
    if hs.len() == 0 {
        return string_of(&chars_of("No explicit holding language found in majority opinion."));
    }
    let k = if hs.len() < 5 {
        hs.len()
    } else {
        5
    };
    let ghost hv = node@.holdings;
    let mut lines: Vec<Vec<char>> = Vec::new();
    for i in 0..k
        invariant
            k <= hs@.len(),
            hv == hs@.map_values(|h: ExtractedHolding| h@),
            views(lines@) == hv.take(i as int).map_values(|h: ExtractedHoldingView| summary_line(h)),
    {
        let h = &hs[i];
        let mut line = chars_of("[");
        match h.confidence {
            crate::reasoning::holdings_extractor::HoldingConfidence::High => push_str(&mut line, "High"),
            crate::reasoning::holdings_extractor::HoldingConfidence::Medium => push_str(&mut line, "Medium"),
            crate::reasoning::holdings_extractor::HoldingConfidence::Low => push_str(&mut line, "Low"),
        }
        push_str(&mut line, "] ");
        push_all(&mut line, &chars_of_string(&h.text));
        let ghost before = lines@;
        lines.push(line);
        assert(hv[i as int] == h@);
        assert(views(lines@) =~= views(before).push(line@));
        assert(hv.take(i + 1).map_values(|h: ExtractedHoldingView| summary_line(h)) =~= hv.take(
            i as int,
        ).map_values(|h: ExtractedHoldingView| summary_line(h)).push(summary_line(hv[i as int])));
    }
    string_of(&join_chars(&lines, &chars_of("\n")))
}

/// The assessment request for a claim about a case.
pub fn assessment_prompt(case_name: &str, holdings_text: &str, claim_text: &str) -> (r: String)
    ensures
        r@ == assessment_prompt_spec(case_name@, holdings_text@, claim_text@),
{
    let mut lines: Vec<Vec<char>> = Vec::new();
    lines.push(chars_of("You are a legal citation analyst. Assess whether the following legal claim correctly characterizes the holding of the cited case."));
    lines.push(chars_of(""));
    let mut case_line = chars_of("Case: ");
    push_all(&mut case_line, &chars_of(case_name));
    lines.push(case_line);
    lines.push(chars_of(""));
    lines.push(chars_of("Extracted holdings from majority opinion:"));
    lines.push(chars_of(holdings_text));
    lines.push(chars_of(""));
    lines.push(chars_of("Claim made in brief:"));
    lines.push(chars_of(claim_text));
    lines.push(chars_of(""));
    lines.push(chars_of("Respond in JSON only, no markdown, no backticks, with this exact structure:"));
    lines.push(chars_of(r#"{"supported": "Supported or PartiallySupported or Unsupported or Indeterminate", "explanation": "one or two sentence explanation", "confidence": "High or Medium or Low"}"#));
    assert(views(lines@) =~= prompt_lines(case_name@, holdings_text@, claim_text@));
    string_of(&join_chars(&lines, &chars_of("\n")))
}

/// The JSON body of the chat request carrying a prompt.
pub fn assessment_request_body(prompt: &str) -> (r: String)
    ensures
        r@ == request_body_spec(prompt@),
{
    let mut t = chars_of("{\"max_tokens\":512,\"messages\":[{\"content\":");
    crate::json::push_json_str(&mut t, &chars_of(prompt));
    push_str(&mut t, ",\"role\":\"user\"}],\"model\":\"gpt-4o\"}");
    string_of(&t)
}

/// The support level a reply names.
pub fn support_level_of(label: &Option<String>) -> (r: SupportLevel)
    ensures
        r == support_spec(opt_view(*label)),
{
    match label {
        Some(l) => {
            let t = chars_of_string(l);
            if crate::text::chars_eq(&t, &chars_of("Supported")) {
                SupportLevel::Supported
            } else if crate::text::chars_eq(&t, &chars_of("PartiallySupported")) {
                SupportLevel::PartiallySupported
            } else if crate::text::chars_eq(&t, &chars_of("Unsupported")) {
                SupportLevel::Unsupported
            } else {
                SupportLevel::Indeterminate
            }
        },
        None => SupportLevel::Indeterminate,
    }
}

/// The assessment read from the fields of a reply.
pub fn assessment_from_reply(
    supported: &Option<String>,
    explanation: &Option<String>,
    confidence: &Option<String>,
) -> (r: ClaimAssessment)
    ensures
        r@ == assessment_spec(opt_view(*supported), opt_view(*explanation), opt_view(*confidence)),
{
    ClaimAssessment {
        supported: support_level_of(supported),
        explanation: match explanation {
            Some(e) => e.clone(),
            None => string_of(&chars_of("No explanation provided")),
        },
        confidence: match confidence {
            Some(c) => c.clone(),
            None => string_of(&chars_of("Low")),
        },
    }
}

/// The assessment when the assessment service answered with an error
/// status.
pub fn unavailable_assessment(status: &str) -> (r: ClaimAssessment)
    ensures
        r@ == (ClaimAssessmentView {
            supported: SupportLevel::Indeterminate,
            explanation: "OpenAI API unavailable: "@ + status@,
            confidence: "Low"@,
        }),
{
    let mut e = chars_of("OpenAI API unavailable: ");
    push_all(&mut e, &chars_of(status));
    ClaimAssessment {
        supported: SupportLevel::Indeterminate,
        explanation: string_of(&e),
        confidence: string_of(&chars_of("Low")),
    }
}

/// The holdings of the opinion a search answered for a cluster: the text
/// of the first result that has one, with its holdings extracted; an
/// error naming the cluster when no result has a text.
pub fn opinion_holdings(artifact: &CaseArtifact, cluster: &str, results: &[OpinionText]) -> (r:
    Result<HoldingNode, CiteError>)
    requires
        opinion_text_spec(results@.map_values(|x: OpinionText| x@)) matches Some(t) ==> holdings_defined(t),
    ensures
        match opinion_text_spec(results@.map_values(|x: OpinionText| x@)) {
            Some(t) => r matches Ok(n) && n@ == holding_node_spec(artifact@, t),
            None => r matches Err(e) && e matches CiteError::NoOpinionText(c) && c@ == cluster@,
        },
{
    match choose_opinion_text(results) {
        Some(t) => Ok(extract_holdings_from_text(artifact, t.as_str())),
        None => Err(CiteError::NoOpinionText(string_of(&chars_of(cluster)))),
    }
}

/// The analysis of a claim: the case, its holdings, the claim and the
/// assessment.
pub fn analysis_result(
    artifact: &CaseArtifact,
    claim_text: &str,
    holding_node: HoldingNode,
    assessment: ClaimAssessment,
) -> (r: AnalysisResult)
    ensures
        r@ == (AnalysisResultView {
            canonical_id: artifact@.canonical_id,
            case_name: artifact@.case_name,
            holding_node: holding_node@,
            claim_text: claim_text@,
            assessment: assessment@,
        }),
{
    AnalysisResult {
        canonical_id: artifact.canonical_id.clone(),
        case_name: artifact.case_name.clone(),
        holding_node,
        claim_text: string_of(&chars_of(claim_text)),
        assessment,
    }
}


/// The content of the first choice's message in a chat completion body:
/// none when the body is not JSON; `Some(None)` when that content is
/// missing or not a string.
pub uninterp spec fn reply_content_of(body: Seq<char>) -> Option<Option<Seq<char>>>;

/// Reads the message content of a chat completion body.
///
/// Trusted: calls `serde_json::from_str` into a `serde_json::Value` and
/// reads `choices[0].message.content` as a string. Claims the result is
/// [`reply_content_of`] the body; nothing is claimed of an error's message.
#[verifier::external_body]
fn chat_reply_content(body: &str) -> (r: Result<Option<String>, String>)
    ensures
        match r {
            Ok(c) => reply_content_of(body@) == Some(opt_view(c)),
            Err(_) => reply_content_of(body@) is None,
        },
{
    let v: serde_json::Value = serde_json::from_str(body).map_err(|e| e.to_string())?;
    Ok(v["choices"][0]["message"]["content"].as_str().map(String::from))
}

/// The string under key `name` of the JSON object a text holds; none when
/// the text is not JSON, or the key is missing or holds no string.
pub uninterp spec fn json_str_field_of(json: Seq<char>, name: Seq<char>) -> Option<Seq<char>>;

/// Reads one string field of a JSON object text.
///
/// Trusted: calls `serde_json::from_str` into a `serde_json::Value`
/// (`Null` when the text is not JSON) and reads key `name` as a string.
/// Claims the result is [`json_str_field_of`] the text and the name.
#[verifier::external_body]
fn json_str_field(json: &str, name: &str) -> (r: Option<String>)
    ensures
        opt_view(r) == json_str_field_of(json@, name@),
{
    let v: serde_json::Value = serde_json::from_str(json).unwrap_or_default();
    v[name].as_str().map(String::from)
}

/// The fields of an assessment reply: `supported`, `explanation` and
/// `confidence`.
pub open spec fn reply_fields_of(content: Seq<char>) -> (Option<Seq<char>>, Option<Seq<char>>, Option<Seq<char>>) {
    (
        json_str_field_of(content, "supported"@),
        json_str_field_of(content, "explanation"@),
        json_str_field_of(content, "confidence"@),
    )
}

/// Reads the `supported`, `explanation` and `confidence` strings of an
/// assessment reply.
pub fn assessment_reply_fields(content: &str) -> (r: (Option<String>, Option<String>, Option<String>))
    ensures
        (opt_view(r.0), opt_view(r.1), opt_view(r.2)) == reply_fields_of(content@),
{
    (
        json_str_field(content, "supported"),
        json_str_field(content, "explanation"),
        json_str_field(content, "confidence"),
    )
}

/// The assessment a reply's message content gives; a missing content
/// reads as the empty object `{}`.
pub open spec fn content_assessment_spec(content: Option<Seq<char>>) -> ClaimAssessmentView {
    let c = match content {
        Some(c) => c,
        None => "{}"@,
    };
    let f = reply_fields_of(c);
    assessment_spec(f.0, f.1, f.2)
}

/// The assessment read from a reply's message content.
pub fn assessment_from_content(content: &Option<String>) -> (r: ClaimAssessment)
    ensures
        r@ == content_assessment_spec(opt_view(*content)),
{
    let fields = match content {
        Some(c) => assessment_reply_fields(c.as_str()),
        None => assessment_reply_fields("{}"),
    };
    assessment_from_reply(&fields.0, &fields.1, &fields.2)
}

/// The assessment read from a chat completion body. Fails with a response
/// error exactly when the body is not JSON.
pub fn assessment_from_body(body: &str) -> (r: Result<ClaimAssessment, CiteError>)
    ensures
        match reply_content_of(body@) {
            None => r matches Err(e) && e is Response,
            Some(c) => r matches Ok(a) && a@ == content_assessment_spec(c),
        },
{
    match chat_reply_content(body) {
        Ok(c) => Ok(assessment_from_content(&c)),
        Err(m) => {
            let mut t = chars_of("assessment response: ");
            push_all(&mut t, &chars_of_string(&m));
            Err(CiteError::Response(string_of(&t)))
        },
    }
}

/// The opinion search results of a response body: none when the body is
/// not JSON; `Some(None)` when it has no `results` array; otherwise, for
/// each result, its `html_with_citations` and `plain_text` where they are
/// strings.
pub uninterp spec fn opinion_results_of(body: Seq<char>) -> Option<Option<Seq<OpinionTextView>>>;

/// Reads the opinion search results of a response body.
///
/// Trusted: calls `serde_json::from_str` into a `serde_json::Value`, takes
/// `results` as an array, and reads each result's `html_with_citations`
/// and `plain_text` as strings into an [`OpinionText`]. Claims the result
/// is [`opinion_results_of`] the body; nothing is claimed of an error's
/// message.
#[verifier::external_body]
fn opinion_results(body: &str) -> (r: Result<Option<Vec<OpinionText>>, String>)
    ensures
        match r {
            Ok(Some(v)) => opinion_results_of(body@) == Some(Some(v@.map_values(|x: OpinionText| x@))),
            Ok(None) => opinion_results_of(body@) == Some(None::<Seq<OpinionTextView>>),
            Err(_) => opinion_results_of(body@) is None,
        },
{
    let v: serde_json::Value = serde_json::from_str(body).map_err(|e| e.to_string())?;
    Ok(v["results"].as_array().map(|rs| rs.iter().map(|x| OpinionText {
        html_with_citations: x["html_with_citations"].as_str().map(String::from),
        plain_text: x["plain_text"].as_str().map(String::from),
    }).collect()))
}

/// The opinion search results of a response body. Fails with a response
/// error exactly when the body is not JSON or has no `results` array.
pub fn opinions_from_body(body: &str) -> (r: Result<Vec<OpinionText>, CiteError>)
    ensures
        match opinion_results_of(body@) {
            Some(Some(v)) => r matches Ok(o) && o@.map_values(|x: OpinionText| x@) == v,
            Some(None) => r matches Err(e) && e matches CiteError::Response(m) && m@
                == "no results in opinion response"@,
            None => r matches Err(e) && e is Response,
        },
{
    match opinion_results(body) {
        Ok(Some(v)) => Ok(v),
        Ok(None) => Err(CiteError::Response(string_of(&chars_of("no results in opinion response")))),
        Err(m) => {
            let mut t = chars_of("opinion response: ");
            push_all(&mut t, &chars_of_string(&m));
            Err(CiteError::Response(string_of(&t)))
        },
    }
}

} // verus!
