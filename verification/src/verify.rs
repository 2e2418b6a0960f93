//! The citation gate: each extracted citation is judged on the lookup
//! result for its raw text and classified VERIFIED, HEALED, AMBIGUOUS or
//! BLOCKED.
use vstd::prelude::*;
use crate::text::{chars_of, chars_of_string, push_str, string_of, push_all};
use crate::json::{decimal, push_decimal, str_views, JsonRecord};
use crate::digest::{digest_of, sha256_text};
use crate::models::{
    json_verification_record, CitationClaim, CitationClaimView, ClaimAction, ClaimStatus,
    GatePolicy, LookupRecord, LookupRecordView, RunCounts, VerificationRecord,
    VerificationRecordView,
};

verus! {

/// The status code a lookup reported, 0 when it reported none.
pub open spec fn api_code(l: LookupRecordView) -> int {
    match l.api_status {
        Some(s) => s,
        None => 0,
    }
}

/// The verdict, the action and the reason for a citation whose raw text is
/// `raw`, judged on lookup `l` under `policy`. A citation passes only when
/// its lookup answered 200 with exactly one canonical cluster, whatever the
/// policy says; the policy decides only whether a unique normalized
/// citation heals it.
pub open spec fn classify_spec(raw: Seq<char>, l: LookupRecordView, policy: GatePolicy) -> (
    ClaimStatus,
    ClaimAction,
    Seq<char>,
) {
    let code = api_code(l);
    if code == 200 {
        if l.clusters.len() != 1 {
            (
                ClaimStatus::Ambiguous,
                ClaimAction::BlockOrRedact,
                "expected exactly one canonical cluster; got "@ + decimal(l.clusters.len()),
            )
        } else if policy.heal_unique_normalized && l.normalized_citations.len() == 1
            && l.normalized_citations[0] != raw {
            (ClaimStatus::Healed, ClaimAction::ReplaceWithNormalized, "unique normalized citation found"@)
        } else {
            (ClaimStatus::Verified, ClaimAction::Keep, "canonical citation found"@)
        }
    } else if code == 300 {
        (ClaimStatus::Ambiguous, ClaimAction::BlockOrRedact, "multiple canonical candidates"@)
    } else if code == 400 {
        (ClaimStatus::Blocked, ClaimAction::BlockOrRedact, "invalid reporter or malformed citation"@)
    } else if code == 404 {
        (ClaimStatus::Blocked, ClaimAction::BlockOrRedact, "no canonical source found"@)
    } else if code == 429 {
        (ClaimStatus::Blocked, ClaimAction::BlockOrRedact, "lookup throttled or too many citations"@)
    } else {
        (
            ClaimStatus::Blocked,
            ClaimAction::BlockOrRedact,
            "unresolved lookup status "@ + decimal(code as nat),
        )
    }
}

/// Classifies one citation on its lookup result.
pub fn classify(claim: &CitationClaim, lookup: &LookupRecord, policy: &GatePolicy) -> (r: (
    ClaimStatus,
    ClaimAction,
    String,
))
    ensures
        (r.0, r.1, r.2@) == classify_spec(claim.raw@, lookup@, *policy),
{
    let code: u16 = match lookup.api_status {
        Some(s) => s,
        None => 0,
    };
    if code == 200 {
        if lookup.clusters.len() != 1 {
            let mut m = chars_of("expected exactly one canonical cluster; got ");
            push_decimal(&mut m, lookup.clusters.len() as u64);
            return (ClaimStatus::Ambiguous, ClaimAction::BlockOrRedact, string_of(&m));
        }
        if policy.heal_unique_normalized && lookup.normalized_citations.len() == 1 {
            let differs = lookup.normalized_citations[0] != claim.raw;
            assert(str_views(lookup.normalized_citations@)[0] == lookup.normalized_citations@[0]@);
            if differs {
                return (
                    ClaimStatus::Healed,
                    ClaimAction::ReplaceWithNormalized,
                    string_of(&chars_of("unique normalized citation found")),
                );
            }
        }
        (ClaimStatus::Verified, ClaimAction::Keep, string_of(&chars_of("canonical citation found")))
    } else if code == 300 {
        (
            ClaimStatus::Ambiguous,
            ClaimAction::BlockOrRedact,
            string_of(&chars_of("multiple canonical candidates")),
        )
    } else if code == 400 {
        (
            ClaimStatus::Blocked,
            ClaimAction::BlockOrRedact,
            string_of(&chars_of("invalid reporter or malformed citation")),
        )
    } else if code == 404 {
        (
            ClaimStatus::Blocked,
            ClaimAction::BlockOrRedact,
            string_of(&chars_of("no canonical source found")),
        )
    } else if code == 429 {
        (
            ClaimStatus::Blocked,
            ClaimAction::BlockOrRedact,
            string_of(&chars_of("lookup throttled or too many citations")),
        )
    } else {
        let mut m = chars_of("unresolved lookup status ");
        push_decimal(&mut m, code as u64);
        (ClaimStatus::Blocked, ClaimAction::BlockOrRedact, string_of(&m))
    }
}

/// The stand-in lookup for a citation the lookup source did not return.
pub open spec fn missing_lookup_spec(raw: Seq<char>) -> LookupRecordView {
    LookupRecordView {
        source: "local:missing"@,
        request_digest: "sha256:missing"@,
        http_status: None,
        api_status: Some(404),
        raw_citation: raw,
        normalized_citations: seq![raw],
        clusters: seq![],
        error_message: "citation not returned by lookup source"@,
        raw_response_digest: "sha256:missing"@,
    }
}

/// Builds the stand-in lookup for a citation with no lookup result.
pub fn missing_lookup(raw: &String) -> (r: LookupRecord)
    ensures
        r@ == missing_lookup_spec(raw@),
{
    let mut normalized: Vec<String> = Vec::new();
    normalized.push(raw.clone());
    let r = LookupRecord {
        source: string_of(&chars_of("local:missing")),
        request_digest: string_of(&chars_of("sha256:missing")),
        http_status: None,
        api_status: Some(404),
        raw_citation: raw.clone(),
        normalized_citations: normalized,
        clusters: Vec::new(),
        error_message: string_of(&chars_of("citation not returned by lookup source")),
        raw_response_digest: string_of(&chars_of("sha256:missing")),
    };
    assert(r@.normalized_citations =~= seq![raw@]);
    assert(r@.clusters =~= Seq::empty());
    r
}

/// The last lookup result for raw citation `raw`, if any.
pub open spec fn last_lookup_for(lookups: Seq<LookupRecordView>, raw: Seq<char>) -> Option<
    LookupRecordView,
>
    decreases lookups.len(),
{
    if lookups.len() == 0 {
        None
    } else if lookups.last().raw_citation == raw {
        Some(lookups.last())
    } else {
        last_lookup_for(lookups.drop_last(), raw)
    }
}

/// Whether a claim before position `i` has the same raw text as claim `i`.
pub open spec fn raw_seen_before(claims: Seq<CitationClaimView>, i: int) -> bool {
    exists|j: int| 0 <= j < i && #[trigger] claims[j].raw == claims[i].raw
}

/// The lookup a claim is judged on: the last lookup result for its raw text,
/// which only the first claim with that raw text receives; otherwise the
/// stand-in for a missing lookup.
pub open spec fn lookup_for_claim(
    claims: Seq<CitationClaimView>,
    lookups: Seq<LookupRecordView>,
    i: int,
) -> LookupRecordView {
    if raw_seen_before(claims, i) {
        missing_lookup_spec(claims[i].raw)
    } else {
        match last_lookup_for(lookups, claims[i].raw) {
            Some(l) => l,
            None => missing_lookup_spec(claims[i].raw),
        }
    }
}

/// The verification record for a claim judged on a lookup: the verdict of
/// [`classify_spec`], with a receipt digest committing to the record
/// written with an empty digest.
#[verifier::opaque]
pub open spec fn record_spec(
    c: CitationClaimView,
    l: LookupRecordView,
    policy: GatePolicy,
) -> VerificationRecordView {
    let verdict = classify_spec(c.raw, l, policy);
    let pending = VerificationRecordView {
        claim: c,
        lookup: l,
        status: verdict.0,
        reason: verdict.2,
        action: verdict.1,
        receipt_digest: seq![],
    };
    VerificationRecordView {
        claim: c,
        lookup: l,
        status: verdict.0,
        reason: verdict.2,
        action: verdict.1,
        receipt_digest: digest_of(json_verification_record(pending)),
    }
}

/// The fields of a verification record other than its digest: the claim,
/// the lookup, and the verdict of [`classify_spec`].
pub proof fn lemma_record_fields(c: CitationClaimView, l: LookupRecordView, policy: GatePolicy)
    ensures
        record_spec(c, l, policy).claim == c,
        record_spec(c, l, policy).lookup == l,
        record_spec(c, l, policy).status == classify_spec(c.raw, l, policy).0,
        record_spec(c, l, policy).action == classify_spec(c.raw, l, policy).1,
        record_spec(c, l, policy).reason == classify_spec(c.raw, l, policy).2,
{
    reveal(record_spec);
}

/// Views of a vector of claims.
pub open spec fn claim_views(v: Seq<CitationClaim>) -> Seq<CitationClaimView> {
    v.map_values(|c: CitationClaim| c@)
}

/// Views of a vector of lookup records.
pub open spec fn lookup_views(v: Seq<LookupRecord>) -> Seq<LookupRecordView> {
    v.map_values(|l: LookupRecord| l@)
}

/// Finds the last lookup result for a raw citation.
fn find_last_lookup(lookups: &Vec<LookupRecord>, raw: &String) -> (r: Option<usize>)
    ensures
        r matches Some(k) ==> k < lookups@.len() && last_lookup_for(lookup_views(lookups@), raw@)
            == Some(lookups@[k as int]@),
        r is None ==> last_lookup_for(lookup_views(lookups@), raw@) is None,
{
    let mut k = lookups.len();
    assert(lookups@.take(k as int) =~= lookups@);
    while k > 0
        invariant
            k <= lookups@.len(),
            last_lookup_for(lookup_views(lookups@), raw@) == last_lookup_for(
                lookup_views(lookups@.take(k as int)),
                raw@,
            ),
        decreases k,
    {
        let ghost pre = lookup_views(lookups@.take(k as int));
        assert(pre.drop_last() =~= lookup_views(lookups@.take(k - 1)));
        assert(pre.last() == lookups@[k - 1]@);
        if lookups[k - 1].raw_citation == *raw {
            return Some(k - 1);
        }
        k = k - 1;
    }
    None
}

/// Whether some claim before position `i` has the raw text of claim `i`.
fn seen_before(claims: &Vec<CitationClaim>, i: usize) -> (r: bool)
    requires
        i < claims@.len(),
    ensures
        r == raw_seen_before(claim_views(claims@), i as int),
{
    let ghost cv = claim_views(claims@);
    for j in 0..i
        invariant
            i < claims@.len(),
            cv == claim_views(claims@),
            forall|k: int| 0 <= k < j ==> cv[k].raw != cv[i as int].raw,
    {
        if claims[j].raw == claims[i].raw {
            assert(cv[j as int].raw == cv[i as int].raw);
            return true;
        }
    }
    false
}

/// The lookup claim `i` is judged on.
fn lookup_of_claim(claims: &Vec<CitationClaim>, lookups: &Vec<LookupRecord>, i: usize) -> (r:
    LookupRecord)
    requires
        i < claims@.len(),
    ensures
        r@ == lookup_for_claim(claim_views(claims@), lookup_views(lookups@), i as int),
{
    assert(claim_views(claims@)[i as int] == claims@[i as int]@);
    if seen_before(claims, i) {
        missing_lookup(&claims[i].raw)
    } else {
        match find_last_lookup(lookups, &claims[i].raw) {
            Some(k) => lookups[k].duplicate(),
            None => missing_lookup(&claims[i].raw),
        }
    }
}

/// The verification record of a claim judged on a lookup.
pub fn make_record(claim: CitationClaim, lookup: LookupRecord, policy: &GatePolicy) -> (r:
    VerificationRecord)
    ensures
        r@ == record_spec(claim@, lookup@, *policy),
{
    let (status, action, reason) = classify(&claim, &lookup, policy);
    let mut rec = VerificationRecord {
        claim,
        lookup,
        status,
        action,
        reason,
        receipt_digest: String::new(),
    };
    let json = rec.to_json();
    rec.receipt_digest = sha256_text(&json);
    proof {
        reveal(record_spec);
    }
    rec
}

/// Judges every claim on the lookup result for its raw citation.
///
/// Each claim gets one record, in order; the lookup for a raw citation is
/// the last one the source returned for it, and goes to the first claim
/// with that raw text only.
pub fn verify_claims(
    claims: Vec<CitationClaim>,
    lookups: Vec<LookupRecord>,
    policy: &GatePolicy,
) -> (r: Result<Vec<VerificationRecord>, crate::CiteError>)
    ensures
        r is Ok,
        r matches Ok(v) ==> v@.len() == claims@.len() && forall|i: int|
            0 <= i < claims@.len() ==> #[trigger] v@[i]@ == record_spec(
                claims@[i]@,
                lookup_for_claim(claim_views(claims@), lookup_views(lookups@), i),
                *policy,
            ),
{
    let mut out: Vec<VerificationRecord> = Vec::new();
    for i in 0..claims.len()
        invariant
            out@.len() == i,
            forall|k: int|
                0 <= k < i ==> #[trigger] out@[k]@ == record_spec(
                    claims@[k]@,
                    lookup_for_claim(claim_views(claims@), lookup_views(lookups@), k),
                    *policy,
                ),
    {
        let lookup = lookup_of_claim(&claims, &lookups, i);
        let claim = claims[i].duplicate();
        let rec = make_record(claim, lookup, policy);
        out.push(rec);
    }
    Ok(out)
}

/// How many of `s` equal `st`.
pub open spec fn count_status(s: Seq<ClaimStatus>, st: ClaimStatus) -> nat
    decreases s.len(),
{
    if s.len() == 0 {
        0
    } else {
        count_status(s.drop_last(), st) + if s.last() == st {
            1nat
        } else {
            0nat
        }
    }
}

/// The statuses of a sequence of records.
pub open spec fn statuses(v: Seq<VerificationRecord>) -> Seq<ClaimStatus> {
    v.map_values(|r: VerificationRecord| r.status)
}

/// The counts a run reports for its records.
pub open spec fn counts_spec(s: Seq<ClaimStatus>) -> RunCounts {
    RunCounts {
        extracted_citations: s.len() as usize,
        verified: count_status(s, ClaimStatus::Verified) as usize,
        healed: count_status(s, ClaimStatus::Healed) as usize,
        ambiguous: count_status(s, ClaimStatus::Ambiguous) as usize,
        blocked: count_status(s, ClaimStatus::Blocked) as usize,
    }
}

/// A count never exceeds the length.
proof fn lemma_count_le(s: Seq<ClaimStatus>, st: ClaimStatus)
    ensures
        count_status(s, st) <= s.len(),
    decreases s.len(),
{
    if s.len() > 0 {
        lemma_count_le(s.drop_last(), st);
    }
}

/// Counts the records of each status.
pub fn counts(records: &[VerificationRecord]) -> (r: RunCounts)
    ensures
        r == counts_spec(statuses(records@)),
{
    let mut verified: usize = 0;
    let mut healed: usize = 0;
    let mut ambiguous: usize = 0;
    let mut blocked: usize = 0;
    let n = records.len();
    for i in 0..n
        invariant
            n == records@.len(),
            verified == count_status(statuses(records@.take(i as int)), ClaimStatus::Verified),
            healed == count_status(statuses(records@.take(i as int)), ClaimStatus::Healed),
            ambiguous == count_status(statuses(records@.take(i as int)), ClaimStatus::Ambiguous),
            blocked == count_status(statuses(records@.take(i as int)), ClaimStatus::Blocked),
    {
        let ghost pre = statuses(records@.take(i as int));
        let ghost next = statuses(records@.take(i + 1));
        proof {
            assert(next.drop_last() =~= pre);
            assert(next.last() == records@[i as int].status);
            lemma_count_le(next, ClaimStatus::Verified);
            lemma_count_le(next, ClaimStatus::Healed);
            lemma_count_le(next, ClaimStatus::Ambiguous);
            lemma_count_le(next, ClaimStatus::Blocked);
        }
        match records[i].status {
            ClaimStatus::Verified => verified = verified + 1,
            ClaimStatus::Healed => healed = healed + 1,
            ClaimStatus::Ambiguous => ambiguous = ambiguous + 1,
            ClaimStatus::Blocked => blocked = blocked + 1,
        }
    }
    assert(records@.take(n as int) =~= records@);
    RunCounts { extracted_citations: n, verified, healed, ambiguous, blocked }
}

} // verus!

verus! {

/// A citation is healed only when the lookup answered 200 with exactly one
/// cluster and exactly one normalized citation, and that citation differs
/// from the raw text; when healing is switched on, every such citation is
/// healed.
pub proof fn law_healing_needs_unique_resolution(
    raw: Seq<char>,
    l: LookupRecordView,
    policy: GatePolicy,
)
    ensures
        classify_spec(raw, l, policy).0 == ClaimStatus::Healed ==> l.api_status == Some(200int)
            && l.clusters.len() == 1 && l.normalized_citations.len() == 1
            && l.normalized_citations[0] != raw,
        policy.heal_unique_normalized ==> (classify_spec(raw, l, policy).0 == ClaimStatus::Healed
            <==> l.api_status == Some(200int) && l.clusters.len() == 1
            && l.normalized_citations.len() == 1 && l.normalized_citations[0] != raw),
{
}

/// No citation is verified or healed unless its lookup answered 200 and
/// resolved to exactly one canonical cluster, under every policy.
pub proof fn law_only_resolved_citations_pass(raw: Seq<char>, l: LookupRecordView, policy: GatePolicy)
    ensures
        ({
            let st = classify_spec(raw, l, policy).0;
            (st == ClaimStatus::Verified || st == ClaimStatus::Healed) <==> l.api_status == Some(
                200int,
            ) && l.clusters.len() == 1
        }),
{
}

/// The action follows the status: verified citations are kept, healed ones
/// replaced by the normalized citation, and every other one blocked.
pub proof fn law_action_follows_status(raw: Seq<char>, l: LookupRecordView, policy: GatePolicy)
    ensures
        ({
            let (st, act, _) = classify_spec(raw, l, policy);
            &&& (st == ClaimStatus::Verified <==> act == ClaimAction::Keep)
            &&& (st == ClaimStatus::Healed <==> act == ClaimAction::ReplaceWithNormalized)
            &&& (st == ClaimStatus::Ambiguous || st == ClaimStatus::Blocked <==> act
                == ClaimAction::BlockOrRedact)
        }),
{
}

/// A citation that the lookup source did not return is blocked.
pub proof fn law_missing_citation_blocked(raw: Seq<char>, policy: GatePolicy)
    ensures
        classify_spec(raw, missing_lookup_spec(raw), policy).0 == ClaimStatus::Blocked,
{
}

/// Every claim is judged on a lookup for its own raw citation.
pub proof fn law_claim_judged_on_own_citation(
    claims: Seq<CitationClaimView>,
    lookups: Seq<LookupRecordView>,
    i: int,
)
    requires
        0 <= i < claims.len(),
    ensures
        lookup_for_claim(claims, lookups, i).raw_citation == claims[i].raw,
{
    lemma_last_lookup_raw(lookups, claims[i].raw);
}

/// The last lookup for a raw citation carries that raw citation.
proof fn lemma_last_lookup_raw(lookups: Seq<LookupRecordView>, raw: Seq<char>)
    ensures
        last_lookup_for(lookups, raw) matches Some(l) ==> l.raw_citation == raw,
    decreases lookups.len(),
{
    if lookups.len() > 0 && lookups.last().raw_citation != raw {
        lemma_last_lookup_raw(lookups.drop_last(), raw);
    }
}

/// The four status counts add up to the number of records.
pub proof fn law_counts_partition(s: Seq<ClaimStatus>)
    ensures
        count_status(s, ClaimStatus::Verified) + count_status(s, ClaimStatus::Healed)
            + count_status(s, ClaimStatus::Ambiguous) + count_status(s, ClaimStatus::Blocked)
            == s.len(),
    decreases s.len(),
{
    if s.len() > 0 {
        law_counts_partition(s.drop_last());
    }
}

} // verus!
