//! Validation of an argument: the overall verdict over the claims'
//! validities and the conflicts found, the summary sentence, the reading
//! of an assessment text, and the record of a conflict.
use vstd::prelude::*;
use crate::text::{chars_of, chars_of_string, contains, contains_chars, join, join_chars, lowercase, push_all, push_str, string_of, to_lowercase, views};
use crate::json::{decimal, json_str, key, opt_view, push_decimal, push_json_lit, push_json_string, push_key, str_views, JsonRecord};

verus! {

/// The verdict on a whole argument.
#[derive(Debug, Clone, Copy, PartialEq, Eq, Structural)]
pub enum OverallValidity {
    Valid,
    PartiallyValid,
    Invalid,
    Indeterminate,
}

/// The verdict on one claim.
#[derive(Debug, Clone, Copy, PartialEq, Eq, Structural)]
pub enum ClaimValidity {
    Supported,
    PartiallySupported,
    Unsupported,
    Unverifiable,
}

/// A claim's authority and a case that contradicts it.
#[derive(Debug, Clone)]
pub struct ConflictingAuthority {
    pub claim_id: String,
    pub supporting_case: String,
    pub conflicting_case: String,
    pub explanation: String,
}

/// The serialized name of an overall validity.
pub open spec fn overall_name(x: OverallValidity) -> Seq<char> {
    match x {
        OverallValidity::Valid => "VALID"@,
        OverallValidity::PartiallyValid => "PARTIALLY_VALID"@,
        OverallValidity::Invalid => "INVALID"@,
        OverallValidity::Indeterminate => "INDETERMINATE"@,
    }
}

impl OverallValidity {
    /// Appends the JSON string that names this variant.
    pub fn push_json(&self, out: &mut Vec<char>)
        ensures
            final(out)@ == old(out)@ + json_str(overall_name(*self)),
    {
        match self {
            OverallValidity::Valid => push_json_lit(out, "VALID"),
            OverallValidity::PartiallyValid => push_json_lit(out, "PARTIALLY_VALID"),
            OverallValidity::Invalid => push_json_lit(out, "INVALID"),
            OverallValidity::Indeterminate => push_json_lit(out, "INDETERMINATE"),
        }
    }
}

/// The serialized name of a claim validity.
pub open spec fn validity_name(x: ClaimValidity) -> Seq<char> {
    match x {
        ClaimValidity::Supported => "SUPPORTED"@,
        ClaimValidity::PartiallySupported => "PARTIALLY_SUPPORTED"@,
        ClaimValidity::Unsupported => "UNSUPPORTED"@,
        ClaimValidity::Unverifiable => "UNVERIFIABLE"@,
    }
}

impl ClaimValidity {
    /// Appends the JSON string that names this variant.
    pub fn push_json(&self, out: &mut Vec<char>)
        ensures
            final(out)@ == old(out)@ + json_str(validity_name(*self)),
    {
        match self {
            ClaimValidity::Supported => push_json_lit(out, "SUPPORTED"),
            ClaimValidity::PartiallySupported => push_json_lit(out, "PARTIALLY_SUPPORTED"),
            ClaimValidity::Unsupported => push_json_lit(out, "UNSUPPORTED"),
            ClaimValidity::Unverifiable => push_json_lit(out, "UNVERIFIABLE"),
        }
    }
}

/// The mathematical value of a [`ConflictingAuthority`].
pub struct ConflictingAuthorityView {
    pub claim_id: Seq<char>,
    pub supporting_case: Seq<char>,
    pub conflicting_case: Seq<char>,
    pub explanation: Seq<char>,
}

impl View for ConflictingAuthority {
    type V = ConflictingAuthorityView;

    open spec fn view(&self) -> ConflictingAuthorityView {
        ConflictingAuthorityView {
            claim_id: self.claim_id@,
            supporting_case: self.supporting_case@,
            conflicting_case: self.conflicting_case@,
            explanation: self.explanation@,
        }
    }
}

/// The JSON text of a conflicting authority.
pub open spec fn json_conflicting_authority(v: ConflictingAuthorityView) -> Seq<char> {
    "{"@ + key("claim_id"@) + json_str(v.claim_id)
        + ","@ + key("supporting_case"@) + json_str(v.supporting_case)
        + ","@ + key("conflicting_case"@) + json_str(v.conflicting_case)
        + ","@ + key("explanation"@) + json_str(v.explanation)
        + "}"@
}

impl JsonRecord for ConflictingAuthority {
    open spec fn json_view(&self) -> Seq<char> {
        json_conflicting_authority(self@)
    }

    fn to_json(&self) -> (r: Vec<char>) {
        let mut out = chars_of("{");
        push_key(&mut out, "claim_id");
        push_json_string(&mut out, &self.claim_id);
        push_str(&mut out, ",");
        push_key(&mut out, "supporting_case");
        push_json_string(&mut out, &self.supporting_case);
        push_str(&mut out, ",");
        push_key(&mut out, "conflicting_case");
        push_json_string(&mut out, &self.conflicting_case);
        push_str(&mut out, ",");
        push_key(&mut out, "explanation");
        push_json_string(&mut out, &self.explanation);
        push_str(&mut out, "}");
        out
    }
}

/// What an assessment text says of support: 0 when it mentions
/// "unsupported", else 1 for "partially", else 2 for "supported", else -1
/// (compared in lower case); none without an assessment.
pub open spec fn support_signal_spec(a: Option<Seq<char>>) -> Option<int> {
    match a {
        None => None,
        Some(t) => {
            let l = lowercase(t);
            Some(
                if contains(l, "unsupported"@) {
                    0
                } else if contains(l, "partially"@) {
                    1
                } else if contains(l, "supported"@) {
                    2
                } else {
                    -1
                },
            )
        },
    }
}

/// How many claims have validity `v`.
pub open spec fn count_validity(s: Seq<ClaimValidity>, v: ClaimValidity) -> nat
    decreases s.len(),
{
    if s.len() == 0 {
        0
    } else {
        count_validity(s.drop_last(), v) + if s.last() == v {
            1nat
        } else {
            0nat
        }
    }
}

/// The validity of a whole argument: indeterminate without claims; with a conflict or
/// an unsupported claim, invalid when every claim is unsupported and
/// partially valid otherwise; valid when every claim is supported;
/// partially valid otherwise.
pub open spec fn overall_spec(vs: Seq<ClaimValidity>, conflicts: nat) -> OverallValidity {
    let u = count_validity(vs, ClaimValidity::Unsupported);
    if vs.len() == 0 {
        OverallValidity::Indeterminate
    } else if conflicts > 0 || u > 0 {
        if u == vs.len() {
            OverallValidity::Invalid
        } else {
            OverallValidity::PartiallyValid
        }
    } else if count_validity(vs, ClaimValidity::Supported) == vs.len() {
        OverallValidity::Valid
    } else {
        OverallValidity::PartiallyValid
    }
}

/// The name the summary gives an overall verdict.
pub open spec fn overall_label(o: OverallValidity) -> Seq<char> {
    match o {
        OverallValidity::Valid => "Valid"@,
        OverallValidity::PartiallyValid => "PartiallyValid"@,
        OverallValidity::Invalid => "Invalid"@,
        OverallValidity::Indeterminate => "Indeterminate"@,
    }
}

/// The parts of the summary sentence.
pub open spec fn summary_parts(
    o: OverallValidity,
    vs: Seq<ClaimValidity>,
    unsupported: Seq<Seq<char>>,
    conflicts: nat,
) -> Seq<Seq<char>> {
    let p0 = seq![
        "Overall validity: "@ + overall_label(o),
        decimal(count_validity(vs, ClaimValidity::Supported)) + "/"@ + decimal(vs.len())
            + " claims supported by verified authority"@,
    ];
    let p1 = if unsupported.len() > 0 {
        p0.push(decimal(unsupported.len()) + " claim(s) unsupported: "@ + join(unsupported, ", "@))
    } else {
        p0
    };
    if conflicts > 0 {
        p1.push(decimal(conflicts) + " conflicting authority relationship(s) detected"@)
    } else {
        p1
    }
}

/// The summary sentence: its parts joined by `. `.
pub open spec fn summary_spec(
    o: OverallValidity,
    vs: Seq<ClaimValidity>,
    unsupported: Seq<Seq<char>>,
    conflicts: nat,
) -> Seq<char> {
    join(summary_parts(o, vs, unsupported, conflicts), ". "@)
}

/// The rule that decides a claim's verdict.
#[derive(Debug, Clone, Copy, PartialEq, Eq, Structural)]
pub enum ValidityRule {
    /// No verified case supports the claim.
    NoSupportingCases,
    /// The assessment confirms support and applicability is at least 0.3.
    ConfirmedApplicable,
    /// The assessment confirms support but applicability is below 0.3.
    ConfirmedLowApplicability,
    /// The assessment indicates partial support.
    PartialSupport,
    /// The assessment indicates no support.
    NotSupported,
    /// No assessment; applicability is at least 0.5.
    RelevantWithoutAssessment,
    /// No assessment; applicability is at least 0.2 but below 0.5.
    WeakWithoutAssessment,
    /// Nothing else decides.
    InsufficientSignal,
}

/// The deciding rule for a claim with `supporting` verified cases, the
/// assessment signal `signal` (see [`support_signal_spec`]), and whether
/// its best applicability reaches 0.2, 0.3 and 0.5.
pub open spec fn validity_rule_spec(
    supporting: nat,
    signal: Option<int>,
    reaches_two_tenths: bool,
    reaches_three_tenths: bool,
    reaches_half: bool,
) -> ValidityRule {
    if supporting == 0 {
        ValidityRule::NoSupportingCases
    } else {
        match signal {
            Some(v) => if v == 2 {
                if reaches_three_tenths {
                    ValidityRule::ConfirmedApplicable
                } else {
                    ValidityRule::ConfirmedLowApplicability
                }
            } else if v == 1 {
                ValidityRule::PartialSupport
            } else if v == 0 {
                ValidityRule::NotSupported
            } else {
                ValidityRule::InsufficientSignal
            },
            None => if reaches_half {
                ValidityRule::RelevantWithoutAssessment
            } else if reaches_two_tenths {
                ValidityRule::WeakWithoutAssessment
            } else {
                ValidityRule::InsufficientSignal
            },
        }
    }
}

/// The verdict a rule gives.
pub open spec fn rule_validity(r: ValidityRule) -> ClaimValidity {
    match r {
        ValidityRule::ConfirmedApplicable => ClaimValidity::Supported,
        ValidityRule::ConfirmedLowApplicability => ClaimValidity::PartiallySupported,
        ValidityRule::PartialSupport => ClaimValidity::PartiallySupported,
        ValidityRule::RelevantWithoutAssessment => ClaimValidity::PartiallySupported,
        ValidityRule::WeakWithoutAssessment => ClaimValidity::PartiallySupported,
        ValidityRule::NoSupportingCases => ClaimValidity::Unsupported,
        ValidityRule::NotSupported => ClaimValidity::Unsupported,
        ValidityRule::InsufficientSignal => ClaimValidity::Unverifiable,
    }
}

/// Decides a claim's verdict and the rule that gave it, from the number of
/// verified cases supporting it, its assessment signal, and whether its
/// best applicability reaches 0.2, 0.3 and 0.5.
pub fn claim_validity_rule(
    supporting: usize,
    signal: Option<i32>,
    reaches_two_tenths: bool,
    reaches_three_tenths: bool,
    reaches_half: bool,
) -> (r: (ClaimValidity, ValidityRule))
    ensures
        r.1 == validity_rule_spec(
            supporting as nat,
            match signal {
                Some(v) => Some(v as int),
                None => None,
            },
            reaches_two_tenths,
            reaches_three_tenths,
            reaches_half,
        ),
        r.0 == rule_validity(r.1),
{
    let rule = if supporting == 0 {
        ValidityRule::NoSupportingCases
    } else {
        match signal {
            Some(2) => if reaches_three_tenths {
                ValidityRule::ConfirmedApplicable
            } else {
                ValidityRule::ConfirmedLowApplicability
            },
            Some(1) => ValidityRule::PartialSupport,
            Some(0) => ValidityRule::NotSupported,
            None => if reaches_half {
                ValidityRule::RelevantWithoutAssessment
            } else if reaches_two_tenths {
                ValidityRule::WeakWithoutAssessment
            } else {
                ValidityRule::InsufficientSignal
            },
            Some(_) => ValidityRule::InsufficientSignal,
        }
    };
    let v = match rule {
        ValidityRule::ConfirmedApplicable => ClaimValidity::Supported,
        ValidityRule::ConfirmedLowApplicability => ClaimValidity::PartiallySupported,
        ValidityRule::PartialSupport => ClaimValidity::PartiallySupported,
        ValidityRule::RelevantWithoutAssessment => ClaimValidity::PartiallySupported,
        ValidityRule::WeakWithoutAssessment => ClaimValidity::PartiallySupported,
        ValidityRule::NoSupportingCases => ClaimValidity::Unsupported,
        ValidityRule::NotSupported => ClaimValidity::Unsupported,
        ValidityRule::InsufficientSignal => ClaimValidity::Unverifiable,
    };
    (v, rule)
}

/// Reads what an assessment text says of support.
pub fn llm_support_signal(assessment: &Option<String>) -> (r: Option<i32>)
    ensures
        match r {
            Some(v) => support_signal_spec(opt_view(*assessment)) == Some(v as int),
            None => support_signal_spec(opt_view(*assessment)) is None,
        },
{
    match assessment {
        None => None,
        Some(a) => {
            let l = to_lowercase(&chars_of_string(a));
            if contains_chars(&l, &chars_of("unsupported")) {
                Some(0)
            } else if contains_chars(&l, &chars_of("partially")) {
                Some(1)
            } else if contains_chars(&l, &chars_of("supported")) {
                Some(2)
            } else {
                Some(-1)
            }
        },
    }
}

/// Counts the claims of one validity.
fn count_of(vs: &[ClaimValidity], v: ClaimValidity) -> (r: usize)
    ensures
        r == count_validity(vs@, v),
        r <= vs@.len(),
{
    let mut n: usize = 0;
    for i in 0..vs.len()
        invariant
            n == count_validity(vs@.take(i as int), v),
            n <= i,
    {
        assert(vs@.take(i + 1).drop_last() =~= vs@.take(i as int));
        if vs[i] == v {
            n = n + 1;
        }
    }
    assert(vs@.take(vs@.len() as int) =~= vs@);
    n
}

/// The overall verdict over the claims' validities and the number of
/// conflicts found.
pub fn determine_overall_validity(validities: &[ClaimValidity], conflict_count: usize) -> (r:
    OverallValidity)
    ensures
        r == overall_spec(validities@, conflict_count as nat),
{
    if validities.len() == 0 {
        return OverallValidity::Indeterminate;
    }
    let total = validities.len();
    let supported = count_of(validities, ClaimValidity::Supported);
    let unsupported = count_of(validities, ClaimValidity::Unsupported);
    if conflict_count > 0 || unsupported > 0 {
        if unsupported == total {
            OverallValidity::Invalid
        } else {
            OverallValidity::PartiallyValid
        }
    } else if supported == total {
        OverallValidity::Valid
    } else {
        OverallValidity::PartiallyValid
    }
}

/// The summary sentence of a validation.
pub fn build_summary(
    overall: OverallValidity,
    validities: &[ClaimValidity],
    unsupported: &[String],
    conflict_count: usize,
) -> (r: String)
    ensures
        r@ == summary_spec(overall, validities@, str_views(unsupported@), conflict_count as nat),
{
    let mut parts: Vec<Vec<char>> = Vec::new();
    let mut first = chars_of("Overall validity: ");
    match overall {
        OverallValidity::Valid => push_str(&mut first, "Valid"),
        OverallValidity::PartiallyValid => push_str(&mut first, "PartiallyValid"),
        OverallValidity::Invalid => push_str(&mut first, "Invalid"),
        OverallValidity::Indeterminate => push_str(&mut first, "Indeterminate"),
    }
    parts.push(first);
    let supported = count_of(validities, ClaimValidity::Supported);
    let mut second: Vec<char> = Vec::new();
    push_decimal(&mut second, supported as u64);
    push_str(&mut second, "/");
    push_decimal(&mut second, validities.len() as u64);
    push_str(&mut second, " claims supported by verified authority");
    parts.push(second);
    let ghost p0 = views(parts@);
    if unsupported.len() > 0 {
        let mut ids: Vec<Vec<char>> = Vec::new();
        for i in 0..unsupported.len()
            invariant
                views(ids@) == str_views(unsupported@.take(i as int)),
        {
            let ghost before = ids@;
            ids.push(chars_of_string(&unsupported[i]));
            assert(views(ids@) =~= views(before).push(unsupported@[i as int]@));
            assert(str_views(unsupported@.take(i + 1)) =~= str_views(unsupported@.take(i as int)).push(
                unsupported@[i as int]@,
            ));
        }
        assert(unsupported@.take(unsupported@.len() as int) =~= unsupported@);
        let mut third: Vec<char> = Vec::new();
        push_decimal(&mut third, unsupported.len() as u64);
        push_str(&mut third, " claim(s) unsupported: ");
        push_all(&mut third, &join_chars(&ids, &chars_of(", ")));
        let ghost before = parts@;
        parts.push(third);
        assert(views(parts@) =~= views(before).push(third@));
    }
    let ghost p1 = views(parts@);
    if conflict_count > 0 {
        let mut fourth: Vec<char> = Vec::new();
        push_decimal(&mut fourth, conflict_count as u64);
        push_str(&mut fourth, " conflicting authority relationship(s) detected");
        let ghost before = parts@;
        parts.push(fourth);
        assert(views(parts@) =~= views(before).push(fourth@));
    }
    assert(views(parts@) =~= summary_parts(
        overall,
        validities@,
        str_views(unsupported@),
        conflict_count as nat,
    ));
    string_of(&join_chars(&parts, &chars_of(". ")))
}

/// The record of a case that may contradict a claim's authority.
pub fn conflict_record(claim_id: &str, supporting_case: &str, conflicting_case: &str) -> (r:
    ConflictingAuthority)
    ensures
        r@ == (ConflictingAuthorityView {
            claim_id: claim_id@,
            supporting_case: supporting_case@,
            conflicting_case: conflicting_case@,
            explanation: supporting_case@ + " may conflict with "@ + conflicting_case@
                + " on this point"@,
        }),
{
    let mut e = chars_of(supporting_case);
    push_str(&mut e, " may conflict with ");
    push_all(&mut e, &chars_of(conflicting_case));
    push_str(&mut e, " on this point");
    ConflictingAuthority {
        claim_id: string_of(&chars_of(claim_id)),
        supporting_case: string_of(&chars_of(supporting_case)),
        conflicting_case: string_of(&chars_of(conflicting_case)),
        explanation: string_of(&e),
    }
}

proof fn lemma_count_all(s: Seq<ClaimValidity>, v: ClaimValidity)
    ensures
        count_validity(s, v) <= s.len(),
        count_validity(s, v) == s.len() <==> forall|i: int| 0 <= i < s.len() ==> s[i] == v,
        count_validity(s, v) == 0 <==> forall|i: int| 0 <= i < s.len() ==> s[i] != v,
    decreases s.len(),
{
    if s.len() > 0 {
        let d = s.drop_last();
        lemma_count_all(d, v);
        assert forall|i: int| 0 <= i < d.len() implies d[i] == s[i] by {}
        if count_validity(s, v) == s.len() {
            assert forall|i: int| 0 <= i < s.len() implies s[i] == v by {
                if i < d.len() {
                    assert(d[i] == s[i]);
                }
            }
        }
        if forall|i: int| 0 <= i < s.len() ==> s[i] == v {
            assert(s.last() == s[s.len() - 1]);
            assert forall|i: int| 0 <= i < d.len() implies d[i] == v by {
                assert(d[i] == s[i]);
            }
        }
        if forall|i: int| 0 <= i < s.len() ==> s[i] != v {
            assert(s.last() == s[s.len() - 1]);
            assert forall|i: int| 0 <= i < d.len() implies d[i] != v by {
                assert(d[i] == s[i]);
            }
        }
        if count_validity(s, v) == 0 {
            assert forall|i: int| 0 <= i < s.len() implies s[i] != v by {
                if i < d.len() {
                    assert(d[i] == s[i]);
                }
            }
        }
    }
}

/// The overall verdict in words: valid exactly when there are claims, no
/// conflict, and every claim is supported; invalid exactly when there are
/// claims and every one is unsupported; indeterminate exactly when there
/// are no claims.
pub proof fn law_overall_validity(vs: Seq<ClaimValidity>, conflicts: nat)
    ensures
        overall_spec(vs, conflicts) == OverallValidity::Valid <==> (vs.len() > 0 && conflicts == 0
            && forall|i: int| 0 <= i < vs.len() ==> vs[i] == ClaimValidity::Supported),
        overall_spec(vs, conflicts) == OverallValidity::Invalid <==> (vs.len() > 0 && forall|i: int|
            0 <= i < vs.len() ==> vs[i] == ClaimValidity::Unsupported),
        overall_spec(vs, conflicts) == OverallValidity::Indeterminate <==> vs.len() == 0,
{
    lemma_count_all(vs, ClaimValidity::Supported);
    lemma_count_all(vs, ClaimValidity::Unsupported);
    if vs.len() > 0 && (forall|i: int| 0 <= i < vs.len() ==> vs[i] == ClaimValidity::Supported) {
        assert(vs[0] != ClaimValidity::Unsupported);
    }
    if vs.len() > 0 && (forall|i: int| 0 <= i < vs.len() ==> vs[i] == ClaimValidity::Unsupported) {
        assert(vs[0] == ClaimValidity::Unsupported);
    }
}


/// The identifiers, among the first `n`, of the claims whose verdict is
/// `v`, in order.
pub open spec fn ids_with(ids: Seq<Seq<char>>, vs: Seq<ClaimValidity>, v: ClaimValidity, n: int) -> Seq<Seq<char>>
    decreases n,
{
    if n <= 0 {
        seq![]
    } else {
        let rest = ids_with(ids, vs, v, n - 1);
        if vs[n - 1] == v {
            rest.push(ids[n - 1])
        } else {
            rest
        }
    }
}

/// The claims to flag, given each claim's identifier and validity (the
/// unsupported ones, and the partially supported ones), each in order.
pub fn flagged_claims(ids: &[String], validities: &[ClaimValidity]) -> (r: (Vec<String>, Vec<String>))
    requires
        ids@.len() == validities@.len(),
    ensures
        str_views(r.0@) == ids_with(str_views(ids@), validities@, ClaimValidity::Unsupported, ids@.len() as int),
        str_views(r.1@) == ids_with(str_views(ids@), validities@, ClaimValidity::PartiallySupported, ids@.len() as int),
{
    let mut unsupported: Vec<String> = Vec::new();
    let mut weak: Vec<String> = Vec::new();
    for i in 0..ids.len()
        invariant
            ids@.len() == validities@.len(),
            str_views(unsupported@) == ids_with(str_views(ids@), validities@, ClaimValidity::Unsupported, i as int),
            str_views(weak@) == ids_with(str_views(ids@), validities@, ClaimValidity::PartiallySupported, i as int),
    {
        let ghost u0 = unsupported@;
        let ghost w0 = weak@;
        assert(str_views(ids@)[i as int] == ids@[i as int]@);
        match validities[i] {
            ClaimValidity::Unsupported => {
                unsupported.push(ids[i].clone());
                assert(str_views(unsupported@) =~= str_views(u0).push(ids@[i as int]@));
            },
            ClaimValidity::PartiallySupported => {
                weak.push(ids[i].clone());
                assert(str_views(weak@) =~= str_views(w0).push(ids@[i as int]@));
            },
            _ => {},
        }
    }
    (unsupported, weak)
}


/// What an assessment says of support, read from its lower-cased text:
/// "unsupported" means none (0); otherwise "partially" means partial
/// support (1); otherwise "supported" means full support (2); any other
/// text says nothing (-1); no assessment gives no signal.
pub proof fn law_support_signal(a: Seq<char>)
    ensures
        support_signal_spec(None) is None,
        ({
            let l = lowercase(a);
            &&& contains(l, "unsupported"@) ==> support_signal_spec(Some(a)) == Some(0int)
            &&& !contains(l, "unsupported"@) && contains(l, "partially"@) ==> support_signal_spec(
                Some(a),
            ) == Some(1int)
            &&& !contains(l, "unsupported"@) && !contains(l, "partially"@) && contains(l, "supported"@)
                ==> support_signal_spec(Some(a)) == Some(2int)
            &&& !contains(l, "unsupported"@) && !contains(l, "partially"@) && !contains(
                l,
                "supported"@,
            ) ==> support_signal_spec(Some(a)) == Some(-1int)
        }),
{
}

/// A claim with a supporting case, an assessment that reads as full
/// support and an applicability of at least 0.3 is supported; with the
/// same assessment but lower applicability it is partially supported.
pub proof fn law_confirmed_support_is_supported(
    a: Seq<char>,
    supporting: nat,
    reaches_two_tenths: bool,
    reaches_three_tenths: bool,
    reaches_half: bool,
)
    requires
        supporting > 0,
        !contains(lowercase(a), "unsupported"@),
        !contains(lowercase(a), "partially"@),
        contains(lowercase(a), "supported"@),
    ensures
        reaches_three_tenths ==> rule_validity(
            validity_rule_spec(
                supporting,
                support_signal_spec(Some(a)),
                reaches_two_tenths,
                reaches_three_tenths,
                reaches_half,
            ),
        ) == ClaimValidity::Supported,
        !reaches_three_tenths ==> rule_validity(
            validity_rule_spec(
                supporting,
                support_signal_spec(Some(a)),
                reaches_two_tenths,
                reaches_three_tenths,
                reaches_half,
            ),
        ) == ClaimValidity::PartiallySupported,
{
    law_support_signal(a);
}

} // verus!
