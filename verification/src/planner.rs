//! Citation needs: what kind of authority each legal claim calls for.
use vstd::prelude::*;
use crate::text::{chars_of, push_all, push_str, string_of};
use crate::json::{decimal, json_str, key, push_json_lit, push_json_string, push_key, JsonRecord};
use crate::digest::{digest_of, sha256_text};
use crate::claims::{ClaimKind, LegalClaim, LegalClaimView};

verus! {

/// The authority a claim calls for.
#[derive(Debug, Clone, Copy, PartialEq, Eq, Structural)]
pub enum CitationNeedKind {
    VerifyNamedAuthority,
    SupportHolding,
    SupportRule,
    SupportFactualAssertion,
    ReviewOnly,
}

/// How urgently a need must be met.
#[derive(Debug, Clone, Copy, PartialEq, Eq, Structural)]
pub enum CitationNeedPriority {
    Critical,
    High,
    Medium,
    Low,
}

/// The authority one legal claim needs.
#[derive(Debug, Clone)]
pub struct CitationNeed {
    pub need_id: String,
    pub claim_id: String,
    pub kind: CitationNeedKind,
    pub priority: CitationNeedPriority,
    pub query_text: String,
    pub required_artifact: String,
    pub deterministic_basis: String,
}

/// The need kind, priority and required artifact for a claim kind.
pub open spec fn need_rule(kind: ClaimKind) -> (CitationNeedKind, CitationNeedPriority, Seq<char>) {
    match kind {
        ClaimKind::NamedAuthority => (
            CitationNeedKind::VerifyNamedAuthority,
            CitationNeedPriority::Critical,
            "canonical case artifact"@,
        ),
        ClaimKind::HoldingClaim => (
            CitationNeedKind::SupportHolding,
            CitationNeedPriority::High,
            "case holding or quoted proposition"@,
        ),
        ClaimKind::RuleStatement => (
            CitationNeedKind::SupportRule,
            CitationNeedPriority::High,
            "binding or persuasive authority"@,
        ),
        ClaimKind::FactualAssertion => (
            CitationNeedKind::SupportFactualAssertion,
            CitationNeedPriority::Medium,
            "record cite, exhibit, statute, regulation, or public source"@,
        ),
        ClaimKind::NeedsAuthority => (
            CitationNeedKind::ReviewOnly,
            CitationNeedPriority::Low,
            "human review or optional authority"@,
        ),
    }
}

/// The need planned for a claim: the rule for its kind, its text as query,
/// and an identifier committing to the need written with id `pending`.
pub open spec fn need_for(c: LegalClaimView) -> CitationNeedView {
    let rule = need_rule(c.kind);
    let pending = CitationNeedView {
        need_id: "pending"@,
        claim_id: c.claim_id,
        kind: rule.0,
        priority: rule.1,
        query_text: c.text,
        required_artifact: rule.2,
        deterministic_basis: "claim_kind_to_citation_need_v0"@,
    };
    CitationNeedView {
        need_id: digest_of(json_citation_need(pending)),
        claim_id: c.claim_id,
        kind: rule.0,
        priority: rule.1,
        query_text: c.text,
        required_artifact: rule.2,
        deterministic_basis: "claim_kind_to_citation_need_v0"@,
    }
}

/// Plans the need of one claim.
pub fn plan_need(claim: &LegalClaim) -> (r: CitationNeed)
    ensures
        r@ == need_for(claim@),
{
    let (kind, priority, required) = match claim.kind {
        ClaimKind::NamedAuthority => (
            CitationNeedKind::VerifyNamedAuthority,
            CitationNeedPriority::Critical,
            "canonical case artifact",
        ),
        ClaimKind::HoldingClaim => (
            CitationNeedKind::SupportHolding,
            CitationNeedPriority::High,
            "case holding or quoted proposition",
        ),
        ClaimKind::RuleStatement => (
            CitationNeedKind::SupportRule,
            CitationNeedPriority::High,
            "binding or persuasive authority",
        ),
        ClaimKind::FactualAssertion => (
            CitationNeedKind::SupportFactualAssertion,
            CitationNeedPriority::Medium,
            "record cite, exhibit, statute, regulation, or public source",
        ),
        ClaimKind::NeedsAuthority => (
            CitationNeedKind::ReviewOnly,
            CitationNeedPriority::Low,
            "human review or optional authority",
        ),
    };
    let mut need = CitationNeed {
        need_id: string_of(&chars_of("pending")),
        claim_id: claim.claim_id.clone(),
        kind,
        priority,
        query_text: claim.text.clone(),
        required_artifact: string_of(&chars_of(required)),
        deterministic_basis: string_of(&chars_of("claim_kind_to_citation_need_v0")),
    };
    let json = need.to_json();
    need.need_id = sha256_text(&json);
    need
}

/// Plans one citation need per legal claim, in order.
pub fn plan_citation_needs(claims: &[LegalClaim]) -> (r: Result<Vec<CitationNeed>, crate::CiteError>)
    ensures
        r is Ok,
        r matches Ok(v) ==> v@.len() == claims@.len() && forall|i: int|
            0 <= i < claims@.len() ==> #[trigger] v@[i]@ == need_for(claims@[i]@),
{
    let mut out: Vec<CitationNeed> = Vec::new();
    for i in 0..claims.len()
        invariant
            out@.len() == i,
            forall|k: int| 0 <= k < i ==> #[trigger] out@[k]@ == need_for(claims@[k]@),
    {
        out.push(plan_need(&claims[i]));
    }
    Ok(out)
}

/// The serialized name of a need kind.
pub open spec fn need_kind_name(x: CitationNeedKind) -> Seq<char> {
    match x {
        CitationNeedKind::VerifyNamedAuthority => "VerifyNamedAuthority"@,
        CitationNeedKind::SupportHolding => "SupportHolding"@,
        CitationNeedKind::SupportRule => "SupportRule"@,
        CitationNeedKind::SupportFactualAssertion => "SupportFactualAssertion"@,
        CitationNeedKind::ReviewOnly => "ReviewOnly"@,
    }
}

impl CitationNeedKind {
    /// Appends the JSON string that names this variant.
    pub fn push_json(&self, out: &mut Vec<char>)
        ensures
            final(out)@ == old(out)@ + json_str(need_kind_name(*self)),
    {
        match self {
            CitationNeedKind::VerifyNamedAuthority => push_json_lit(out, "VerifyNamedAuthority"),
            CitationNeedKind::SupportHolding => push_json_lit(out, "SupportHolding"),
            CitationNeedKind::SupportRule => push_json_lit(out, "SupportRule"),
            CitationNeedKind::SupportFactualAssertion => push_json_lit(out, "SupportFactualAssertion"),
            CitationNeedKind::ReviewOnly => push_json_lit(out, "ReviewOnly"),
        }
    }
}

/// The serialized name of a need priority.
pub open spec fn priority_name(x: CitationNeedPriority) -> Seq<char> {
    match x {
        CitationNeedPriority::Critical => "Critical"@,
        CitationNeedPriority::High => "High"@,
        CitationNeedPriority::Medium => "Medium"@,
        CitationNeedPriority::Low => "Low"@,
    }
}

impl CitationNeedPriority {
    /// Appends the JSON string that names this variant.
    pub fn push_json(&self, out: &mut Vec<char>)
        ensures
            final(out)@ == old(out)@ + json_str(priority_name(*self)),
    {
        match self {
            CitationNeedPriority::Critical => push_json_lit(out, "Critical"),
            CitationNeedPriority::High => push_json_lit(out, "High"),
            CitationNeedPriority::Medium => push_json_lit(out, "Medium"),
            CitationNeedPriority::Low => push_json_lit(out, "Low"),
        }
    }
}

/// The mathematical value of a [`CitationNeed`].
pub struct CitationNeedView {
    pub need_id: Seq<char>,
    pub claim_id: Seq<char>,
    pub kind: CitationNeedKind,
    pub priority: CitationNeedPriority,
    pub query_text: Seq<char>,
    pub required_artifact: Seq<char>,
    pub deterministic_basis: Seq<char>,
}

impl View for CitationNeed {
    type V = CitationNeedView;

    open spec fn view(&self) -> CitationNeedView {
        CitationNeedView {
            need_id: self.need_id@,
            claim_id: self.claim_id@,
            kind: self.kind,
            priority: self.priority,
            query_text: self.query_text@,
            required_artifact: self.required_artifact@,
            deterministic_basis: self.deterministic_basis@,
        }
    }
}

/// The JSON text of a citation need.
pub open spec fn json_citation_need(v: CitationNeedView) -> Seq<char> {
    "{"@ + key("need_id"@) + json_str(v.need_id)
        + ","@ + key("claim_id"@) + json_str(v.claim_id)
        + ","@ + key("kind"@) + json_str(need_kind_name(v.kind))
        + ","@ + key("priority"@) + json_str(priority_name(v.priority))
        + ","@ + key("query_text"@) + json_str(v.query_text)
        + ","@ + key("required_artifact"@) + json_str(v.required_artifact)
        + ","@ + key("deterministic_basis"@) + json_str(v.deterministic_basis)
        + "}"@
}

impl JsonRecord for CitationNeed {
    open spec fn json_view(&self) -> Seq<char> {
        json_citation_need(self@)
    }

    fn to_json(&self) -> (r: Vec<char>) {
        let mut out = chars_of("{");
        push_key(&mut out, "need_id");
        push_json_string(&mut out, &self.need_id);
        push_str(&mut out, ",");
        push_key(&mut out, "claim_id");
        push_json_string(&mut out, &self.claim_id);
        push_str(&mut out, ",");
        push_key(&mut out, "kind");
        self.kind.push_json(&mut out);
        push_str(&mut out, ",");
        push_key(&mut out, "priority");
        self.priority.push_json(&mut out);
        push_str(&mut out, ",");
        push_key(&mut out, "query_text");
        push_json_string(&mut out, &self.query_text);
        push_str(&mut out, ",");
        push_key(&mut out, "required_artifact");
        push_json_string(&mut out, &self.required_artifact);
        push_str(&mut out, ",");
        push_key(&mut out, "deterministic_basis");
        push_json_string(&mut out, &self.deterministic_basis);
        push_str(&mut out, "}");
        out
    }
}
} // verus!
