//! Search candidates: the queries that may resolve a citation need.
use vstd::prelude::*;
use crate::text::{
    chars_eq, chars_of, chars_of_string, contains, contains_str, is_blank, is_whitespace, is_ws,
    join, join_chars, lemma_join_push, lowercase, normalize_spaces, normalize_ws, push_all,
    push_str, split_words, string_of, to_lowercase, views, words,
};
use crate::json::{
    json_opt_str, json_str, key, opt_view, push_json_lit, push_json_string, push_key,
    push_opt_string, JsonRecord,
};
use crate::digest::{digest_of, sha256_text};
use crate::planner::{
    priority_name, CitationNeed, CitationNeedKind, CitationNeedPriority, CitationNeedView,
};

verus! {

/// Where a candidate query came from.
#[derive(Debug, Clone, Copy, PartialEq, Eq, Structural)]
pub enum CandidateSource {
    DeterministicQueryExpansion,
    AiProposed,
    UserProvided,
    CanonicalLookup,
}

/// A query that may resolve a citation need.
#[derive(Debug, Clone)]
pub struct CitationCandidate {
    pub candidate_id: String,
    pub need_id: String,
    pub claim_id: String,
    pub source: CandidateSource,
    pub search_query: String,
    pub expected_artifact_type: String,
    pub jurisdiction_hint: Option<String>,
    pub reporter_hint: Option<String>,
    pub priority: CitationNeedPriority,
    pub deterministic_basis: String,
}

/// The serialized name of a candidate source.
pub open spec fn candidate_source_name(x: CandidateSource) -> Seq<char> {
    match x {
        CandidateSource::DeterministicQueryExpansion => "DeterministicQueryExpansion"@,
        CandidateSource::AiProposed => "AiProposed"@,
        CandidateSource::UserProvided => "UserProvided"@,
        CandidateSource::CanonicalLookup => "CanonicalLookup"@,
    }
}

impl CandidateSource {
    /// Appends the JSON string that names this variant.
    pub fn push_json(&self, out: &mut Vec<char>)
        ensures
            final(out)@ == old(out)@ + json_str(candidate_source_name(*self)),
    {
        match self {
            CandidateSource::DeterministicQueryExpansion => push_json_lit(out, "DeterministicQueryExpansion"),
            CandidateSource::AiProposed => push_json_lit(out, "AiProposed"),
            CandidateSource::UserProvided => push_json_lit(out, "UserProvided"),
            CandidateSource::CanonicalLookup => push_json_lit(out, "CanonicalLookup"),
        }
    }
}

/// The mathematical value of a [`CitationCandidate`].
pub struct CitationCandidateView {
    pub candidate_id: Seq<char>,
    pub need_id: Seq<char>,
    pub claim_id: Seq<char>,
    pub source: CandidateSource,
    pub search_query: Seq<char>,
    pub expected_artifact_type: Seq<char>,
    pub jurisdiction_hint: Option<Seq<char>>,
    pub reporter_hint: Option<Seq<char>>,
    pub priority: CitationNeedPriority,
    pub deterministic_basis: Seq<char>,
}

impl View for CitationCandidate {
    type V = CitationCandidateView;

    open spec fn view(&self) -> CitationCandidateView {
        CitationCandidateView {
            candidate_id: self.candidate_id@,
            need_id: self.need_id@,
            claim_id: self.claim_id@,
            source: self.source,
            search_query: self.search_query@,
            expected_artifact_type: self.expected_artifact_type@,
            jurisdiction_hint: opt_view(self.jurisdiction_hint),
            reporter_hint: opt_view(self.reporter_hint),
            priority: self.priority,
            deterministic_basis: self.deterministic_basis@,
        }
    }
}

/// The JSON text of a citation candidate.
pub open spec fn json_citation_candidate(v: CitationCandidateView) -> Seq<char> {
    "{"@ + key("candidate_id"@) + json_str(v.candidate_id)
        + ","@ + key("need_id"@) + json_str(v.need_id)
        + ","@ + key("claim_id"@) + json_str(v.claim_id)
        + ","@ + key("source"@) + json_str(candidate_source_name(v.source))
        + ","@ + key("search_query"@) + json_str(v.search_query)
        + ","@ + key("expected_artifact_type"@) + json_str(v.expected_artifact_type)
        + ","@ + key("jurisdiction_hint"@) + json_opt_str(v.jurisdiction_hint)
        + ","@ + key("reporter_hint"@) + json_opt_str(v.reporter_hint)
        + ","@ + key("priority"@) + json_str(priority_name(v.priority))
        + ","@ + key("deterministic_basis"@) + json_str(v.deterministic_basis)
        + "}"@
}

impl JsonRecord for CitationCandidate {
    open spec fn json_view(&self) -> Seq<char> {
        json_citation_candidate(self@)
    }

    fn to_json(&self) -> (r: Vec<char>) {
        let mut out = chars_of("{");
        push_key(&mut out, "candidate_id");
        push_json_string(&mut out, &self.candidate_id);
        push_str(&mut out, ",");
        push_key(&mut out, "need_id");
        push_json_string(&mut out, &self.need_id);
        push_str(&mut out, ",");
        push_key(&mut out, "claim_id");
        push_json_string(&mut out, &self.claim_id);
        push_str(&mut out, ",");
        push_key(&mut out, "source");
        self.source.push_json(&mut out);
        push_str(&mut out, ",");
        push_key(&mut out, "search_query");
        push_json_string(&mut out, &self.search_query);
        push_str(&mut out, ",");
        push_key(&mut out, "expected_artifact_type");
        push_json_string(&mut out, &self.expected_artifact_type);
        push_str(&mut out, ",");
        push_key(&mut out, "jurisdiction_hint");
        push_opt_string(&mut out, &self.jurisdiction_hint);
        push_str(&mut out, ",");
        push_key(&mut out, "reporter_hint");
        push_opt_string(&mut out, &self.reporter_hint);
        push_str(&mut out, ",");
        push_key(&mut out, "priority");
        self.priority.push_json(&mut out);
        push_str(&mut out, ",");
        push_key(&mut out, "deterministic_basis");
        push_json_string(&mut out, &self.deterministic_basis);
        push_str(&mut out, "}");
        out
    }
}

/// The artifact type a need kind expects.
pub open spec fn expected_artifact(kind: CitationNeedKind) -> Seq<char> {
    match kind {
        CitationNeedKind::VerifyNamedAuthority => "case"@,
        CitationNeedKind::SupportHolding => "case_holding"@,
        CitationNeedKind::SupportRule => "case_or_statute"@,
        CitationNeedKind::SupportFactualAssertion => "record_or_public_source"@,
        CitationNeedKind::ReviewOnly => "review_note"@,
    }
}

/// Punctuation that citation noise stripping trims from tokens.
pub open spec fn is_noise_punct(c: char) -> bool {
    c == ',' || c == ';' || c == '(' || c == ')'
}

/// `s` without leading noise punctuation.
pub open spec fn trim_punct_start(s: Seq<char>) -> Seq<char>
    decreases s.len(),
{
    if s.len() > 0 && is_noise_punct(s[0]) {
        trim_punct_start(s.drop_first())
    } else {
        s
    }
}

/// `s` without trailing noise punctuation.
pub open spec fn trim_punct_end(s: Seq<char>) -> Seq<char>
    decreases s.len(),
{
    if s.len() > 0 && is_noise_punct(s.last()) {
        trim_punct_end(s.drop_last())
    } else {
        s
    }
}

/// `s` with noise punctuation trimmed from both ends.
pub open spec fn trim_punct(s: Seq<char>) -> Seq<char> {
    trim_punct_end(trim_punct_start(s))
}

/// Whether every character is an ASCII digit (true of the empty token).
pub open spec fn all_digits(s: Seq<char>) -> bool {
    forall|i: int| 0 <= i < s.len() ==> '0' <= #[trigger] s[i] <= '9'
}

/// Whether a token is a bare reporter abbreviation.
pub open spec fn is_reporter_token(t: Seq<char>) -> bool {
    t == "U.S."@ || t == "US"@ || t == "S.Ct."@ || t == "L.Ed."@ || t == "F.2d"@ || t == "F.3d"@
        || t == "F.Supp."@ || t == "B.R."@
}

/// The trimmed tokens kept from `ws`: neither numeric nor a reporter.
pub open spec fn kept_tokens(ws: Seq<Seq<char>>) -> Seq<Seq<char>>
    decreases ws.len(),
{
    if ws.len() == 0 {
        seq![]
    } else {
        let prev = kept_tokens(ws.drop_last());
        let t = trim_punct(ws.last());
        if !all_digits(t) && !is_reporter_token(t) {
            prev.push(t)
        } else {
            prev
        }
    }
}

/// A query with volume numbers, page numbers and reporter abbreviations removed.
pub open spec fn strip_noise(s: Seq<char>) -> Seq<char> {
    join(kept_tokens(words(s)), seq![' '])
}

/// The jurisdiction a query suggests.
pub open spec fn jurisdiction_hint(s: Seq<char>) -> Option<Seq<char>> {
    jurisdiction_of_lowered(lowercase(s))
}

/// The jurisdiction a query suggests, given its lower-cased form.
pub open spec fn jurisdiction_of_lowered(lower: Seq<char>) -> Option<Seq<char>> {
    if contains(lower, "u.s."@) || contains(lower, "supreme court"@) || contains(
        lower,
        "constitutional"@,
    ) {
        Some("federal"@)
    } else if contains(lower, "bankruptcy"@) || contains(lower, "b.r."@) {
        Some("federal_bankruptcy"@)
    } else {
        None
    }
}

/// The reporter a query suggests.
pub open spec fn reporter_hint(s: Seq<char>) -> Option<Seq<char>> {
    if contains(s, "U.S."@) || contains(s, " US "@) {
        Some("U.S."@)
    } else if contains(s, "B.R."@) {
        Some("B.R."@)
    } else {
        None
    }
}

/// The candidate for a need and one of its queries, with an identifier
/// committing to it written with id `pending`.
#[verifier::opaque]
pub open spec fn candidate_for(n: CitationNeedView, q: Seq<char>) -> CitationCandidateView {
    let pending = CitationCandidateView {
        candidate_id: "pending"@,
        need_id: n.need_id,
        claim_id: n.claim_id,
        source: CandidateSource::DeterministicQueryExpansion,
        search_query: q,
        expected_artifact_type: expected_artifact(n.kind),
        jurisdiction_hint: jurisdiction_hint(n.query_text),
        reporter_hint: reporter_hint(n.query_text),
        priority: n.priority,
        deterministic_basis: "citation_candidate_expansion_v0"@,
    };
    CitationCandidateView {
        candidate_id: digest_of(json_citation_candidate(pending)),
        need_id: n.need_id,
        claim_id: n.claim_id,
        source: CandidateSource::DeterministicQueryExpansion,
        search_query: q,
        expected_artifact_type: expected_artifact(n.kind),
        jurisdiction_hint: jurisdiction_hint(n.query_text),
        reporter_hint: reporter_hint(n.query_text),
        priority: n.priority,
        deterministic_basis: "citation_candidate_expansion_v0"@,
    }
}

/// Whether a need kind also gets a query stripped of citation noise.
pub open spec fn wants_stripped_query(kind: CitationNeedKind) -> bool {
    kind == CitationNeedKind::SupportHolding || kind == CitationNeedKind::SupportRule
}

/// The candidates of one need: the normalized query, and for holdings and
/// rules the noise-stripped query, each kept unless blank.
#[verifier::opaque]
pub open spec fn candidates_for_need(n: CitationNeedView) -> Seq<CitationCandidateView> {
    let q1 = normalize_ws(n.query_text);
    let q2 = strip_noise(n.query_text);
    let c1 = if !is_blank(q1) {
        seq![candidate_for(n, q1)]
    } else {
        seq![]
    };
    let c2 = if wants_stripped_query(n.kind) && !is_blank(q2) {
        seq![candidate_for(n, q2)]
    } else {
        seq![]
    };
    c1 + c2
}

/// The candidates of all needs, in order, before duplicates are removed.
pub open spec fn all_candidates(needs: Seq<CitationNeedView>) -> Seq<CitationCandidateView>
    decreases needs.len(),
{
    if needs.len() == 0 {
        seq![]
    } else {
        all_candidates(needs.drop_last()) + candidates_for_need(needs.last())
    }
}

/// The key that identifies duplicate candidates.
pub open spec fn candidate_key(c: CitationCandidateView) -> Seq<char> {
    c.need_id + "|"@ + c.search_query + "|"@ + c.expected_artifact_type
}

/// Whether a candidate with key `k` occurs in `s`.
pub open spec fn has_key(s: Seq<CitationCandidateView>, k: Seq<char>) -> bool {
    exists|i: int| 0 <= i < s.len() && candidate_key(#[trigger] s[i]) == k
}

/// The first candidate of each key, in order.
pub open spec fn dedup_candidates_spec(s: Seq<CitationCandidateView>) -> Seq<CitationCandidateView>
    decreases s.len(),
{
    if s.len() == 0 {
        seq![]
    } else {
        let prev = dedup_candidates_spec(s.drop_last());
        if has_key(s.drop_last(), candidate_key(s.last())) {
            prev
        } else {
            prev.push(s.last())
        }
    }
}

/// The candidates generated for a list of needs.
pub open spec fn generate_candidates_spec(needs: Seq<CitationNeedView>) -> Seq<CitationCandidateView> {
    dedup_candidates_spec(all_candidates(needs))
}

/// Views of a vector of candidates.
pub open spec fn candidate_views(v: Seq<CitationCandidate>) -> Seq<CitationCandidateView> {
    v.map_values(|c: CitationCandidate| c@)
}

/// Whether `c` is noise punctuation.
fn noise_punct(c: char) -> (r: bool)
    ensures
        r == is_noise_punct(c),
{
    c == ',' || c == ';' || c == '(' || c == ')'
}

/// `trim_punct_start` drops a prefix of noise punctuation.
proof fn lemma_trim_punct_start_skip(s: Seq<char>, i: int)
    requires
        0 <= i <= s.len(),
        forall|j: int| 0 <= j < i ==> is_noise_punct(s[j]),
    ensures
        trim_punct_start(s) == trim_punct_start(s.skip(i)),
    decreases i,
{
    if i > 0 {
        lemma_trim_punct_start_skip(s.drop_first(), i - 1);
        assert(s.drop_first().skip(i - 1) =~= s.skip(i));
    } else {
        assert(s.skip(0) =~= s);
    }
}

/// `trim_punct_end` drops a suffix of noise punctuation.
proof fn lemma_trim_punct_end_take(s: Seq<char>, i: int)
    requires
        0 <= i <= s.len(),
        forall|j: int| i <= j < s.len() ==> is_noise_punct(s[j]),
    ensures
        trim_punct_end(s) == trim_punct_end(s.take(i)),
    decreases s.len() - i,
{
    if i < s.len() {
        lemma_trim_punct_end_take(s.drop_last(), i);
        assert(s.drop_last().take(i) =~= s.take(i));
    } else {
        assert(s.take(i) =~= s);
    }
}

/// Trims noise punctuation from both ends of a token.
fn trim_punct_chars(s: &Vec<char>) -> (r: Vec<char>)
    ensures
        r@ == trim_punct(s@),
{
    let mut a: usize = 0;
    while a < s.len() && noise_punct(s[a])
        invariant
            a <= s@.len(),
            forall|j: int| 0 <= j < a ==> is_noise_punct(s@[j]),
        decreases s@.len() - a,
    {
        a = a + 1;
    }
    proof {
        lemma_trim_punct_start_skip(s@, a as int);
    }
    let ghost t = s@.skip(a as int);
    assert(trim_punct_start(t) == t) by {
        if t.len() > 0 {
            assert(t[0] == s@[a as int]);
        }
    }
    let mut b: usize = s.len();
    while b > a && noise_punct(s[b - 1])
        invariant
            a <= b <= s@.len(),
            forall|j: int| b <= j < s@.len() ==> is_noise_punct(s@[j]),
        decreases b,
    {
        b = b - 1;
    }
    proof {
        lemma_trim_punct_end_take(t, b - a);
        let u = t.take(b - a);
        if u.len() > 0 {
            assert(u.last() == s@[b - 1]);
        }
    }
    let r = crate::text::slice_chars(s, a, b);
    assert(r@ =~= t.take(b - a));
    r
}

/// Whether every character is an ASCII digit.
fn all_digit_chars(s: &Vec<char>) -> (r: bool)
    ensures
        r == all_digits(s@),
{
    for i in 0..s.len()
        invariant
            forall|j: int| 0 <= j < i ==> '0' <= #[trigger] s@[j] <= '9',
    {
        if !('0' <= s[i] && s[i] <= '9') {
            return false;
        }
    }
    true
}

/// Whether a token equals a string slice.
fn token_is(t: &Vec<char>, s: &str) -> (r: bool)
    ensures
        r == (t@ == s@),
{
    let v = chars_of(s);
    chars_eq(t, &v)
}

/// Whether a token is a bare reporter abbreviation.
fn reporter_token(t: &Vec<char>) -> (r: bool)
    ensures
        r == is_reporter_token(t@),
{
    token_is(t, "U.S.") || token_is(t, "US") || token_is(t, "S.Ct.") || token_is(t, "L.Ed.")
        || token_is(t, "F.2d") || token_is(t, "F.3d") || token_is(t, "F.Supp.") || token_is(
        t,
        "B.R.",
    )
}

/// The query with whitespace collapsed.
pub fn normalize_query(text: &Vec<char>) -> (r: Vec<char>)
    ensures
        r@ == normalize_ws(text@),
{
    normalize_spaces(text)
}

/// The query with volume numbers, page numbers and reporter abbreviations
/// removed, tokens trimmed of `,;()`.
pub fn strip_citation_noise(text: &Vec<char>) -> (r: Vec<char>)
    ensures
        r@ == strip_noise(text@),
{
    let ws = split_words(text);
    let mut kept: Vec<Vec<char>> = Vec::new();
    for i in 0..ws.len()
        invariant
            views(ws@) == words(text@),
            views(kept@) == kept_tokens(views(ws@).take(i as int)),
    {
        let ghost before = kept@;
        let t = trim_punct_chars(&ws[i]);
        proof {
            assert(views(ws@).take(i + 1).drop_last() =~= views(ws@).take(i as int));
            assert(views(ws@).take(i + 1).last() == ws@[i as int]@);
        }
        if !all_digit_chars(&t) && !reporter_token(&t) {
            kept.push(t);
            assert(views(kept@) =~= views(before).push(t@));
        }
    }
    assert(views(ws@).take(ws@.len() as int) =~= views(ws@));
    let sep = vec![' '];
    assert(sep@ =~= seq![' ']);
    join_chars(&kept, &sep)
}

/// The jurisdiction a query suggests.
pub fn infer_jurisdiction_hint(text: &Vec<char>) -> (r: Option<String>)
    ensures
        opt_view(r) == jurisdiction_hint(text@),
{
    jurisdiction_from_lowered(&to_lowercase(text))
}

/// The jurisdiction a query suggests, given its lower-cased form.
pub fn jurisdiction_from_lowered(lower: &Vec<char>) -> (r: Option<String>)
    ensures
        opt_view(r) == jurisdiction_of_lowered(lower@),
{
    if contains_str(lower, "u.s.") || contains_str(lower, "supreme court") || contains_str(
        lower,
        "constitutional",
    ) {
        Some(string_of(&chars_of("federal")))
    } else if contains_str(lower, "bankruptcy") || contains_str(lower, "b.r.") {
        Some(string_of(&chars_of("federal_bankruptcy")))
    } else {
        None
    }
}

/// The reporter a query suggests.
pub fn infer_reporter_hint(text: &Vec<char>) -> (r: Option<String>)
    ensures
        opt_view(r) == reporter_hint(text@),
{
    if contains_str(text, "U.S.") || contains_str(text, " US ") {
        Some(string_of(&chars_of("U.S.")))
    } else if contains_str(text, "B.R.") {
        Some(string_of(&chars_of("B.R.")))
    } else {
        None
    }
}

/// Whether every character is white space.
fn blank(s: &Vec<char>) -> (r: bool)
    ensures
        r == is_blank(s@),
{
    for i in 0..s.len()
        invariant
            forall|j: int| 0 <= j < i ==> is_ws(#[trigger] s@[j]),
    {
        if !is_whitespace(s[i]) {
            return false;
        }
    }
    true
}

/// The candidate for a need and one of its queries.
fn make_candidate(need: &CitationNeed, query: &Vec<char>, text: &Vec<char>) -> (r: CitationCandidate)
    requires
        text@ == need.query_text@,
    ensures
        r@ == candidate_for(need@, query@),
{
    let expected = match need.kind {
        CitationNeedKind::VerifyNamedAuthority => "case",
        CitationNeedKind::SupportHolding => "case_holding",
        CitationNeedKind::SupportRule => "case_or_statute",
        CitationNeedKind::SupportFactualAssertion => "record_or_public_source",
        CitationNeedKind::ReviewOnly => "review_note",
    };
    let mut c = CitationCandidate {
        candidate_id: string_of(&chars_of("pending")),
        need_id: need.need_id.clone(),
        claim_id: need.claim_id.clone(),
        source: CandidateSource::DeterministicQueryExpansion,
        search_query: string_of(query),
        expected_artifact_type: string_of(&chars_of(expected)),
        jurisdiction_hint: infer_jurisdiction_hint(text),
        reporter_hint: infer_reporter_hint(text),
        priority: need.priority,
        deterministic_basis: string_of(&chars_of("citation_candidate_expansion_v0")),
    };
    let json = c.to_json();
    c.candidate_id = sha256_text(&json);
    proof {
        reveal(candidate_for);
    }
    c
}

/// The candidates of one need.
fn candidates_of_need(need: &CitationNeed) -> (r: Vec<CitationCandidate>)
    ensures
        candidate_views(r@) == candidates_for_need(need@),
{
    let text = chars_of_string(&need.query_text);
    let mut out: Vec<CitationCandidate> = Vec::new();
    let q1 = normalize_query(&text);
    if !blank(&q1) {
        out.push(make_candidate(need, &q1, &text));
    }
    let ghost first = candidate_views(out@);
    let wants = match need.kind {
        CitationNeedKind::SupportHolding => true,
        CitationNeedKind::SupportRule => true,
        _ => false,
    };
    if wants {
        let q2 = strip_citation_noise(&text);
        if !blank(&q2) {
            out.push(make_candidate(need, &q2, &text));
        }
    }
    proof {
        reveal(candidates_for_need);
    }
    assert(candidate_views(out@) =~= candidates_for_need(need@));
    out
}

/// The duplicate key of a candidate.
fn key_of(c: &CitationCandidate) -> (r: Vec<char>)
    ensures
        r@ == candidate_key(c@),
{
    let mut k = chars_of_string(&c.need_id);
    push_str(&mut k, "|");
    let q = chars_of_string(&c.search_query);
    push_all(&mut k, &q);
    push_str(&mut k, "|");
    let e = chars_of_string(&c.expected_artifact_type);
    push_all(&mut k, &e);
    k
}

/// Extending a prefix by one candidate adds that candidate's key.
proof fn lemma_has_key_take(s: Seq<CitationCandidateView>, j: int, k: Seq<char>)
    requires
        0 <= j < s.len(),
    ensures
        has_key(s.take(j + 1), k) == (has_key(s.take(j), k) || candidate_key(s[j]) == k),
{
    if has_key(s.take(j), k) {
        let w = choose|w: int| 0 <= w < j && candidate_key(#[trigger] s.take(j)[w]) == k;
        assert(s.take(j + 1)[w] == s.take(j)[w]);
    }
    if candidate_key(s[j]) == k {
        assert(s.take(j + 1)[j] == s[j]);
    }
    if has_key(s.take(j + 1), k) {
        let w = choose|w: int| 0 <= w < j + 1 && candidate_key(#[trigger] s.take(j + 1)[w]) == k;
        if w < j {
            assert(s.take(j)[w] == s.take(j + 1)[w]);
        }
    }
}

/// Keeps the first candidate of each key.
fn dedup_candidates(cands: Vec<CitationCandidate>) -> (r: Vec<CitationCandidate>)
    ensures
        candidate_views(r@) == dedup_candidates_spec(candidate_views(cands@)),
{
    let ghost cv = candidate_views(cands@);
    let mut keys: Vec<Vec<char>> = Vec::new();
    for i in 0..cands.len()
        invariant
            cv == candidate_views(cands@),
            keys@.len() == i,
            forall|j: int| 0 <= j < i ==> (#[trigger] keys@[j])@ == candidate_key(cv[j]),
    {
        keys.push(key_of(&cands[i]));
    }
    let mut out: Vec<CitationCandidate> = Vec::new();
    let mut i: usize = 0;
    let n = cands.len();
    let mut rest = cands;
    // `rest` is consumed front to back through an index to keep ownership simple.
    while i < n
        invariant
            n == cv.len(),
            i <= n,
            cv == candidate_views(rest@),
            keys@.len() == n,
            forall|j: int| 0 <= j < n ==> (#[trigger] keys@[j])@ == candidate_key(cv[j]),
            candidate_views(out@) == dedup_candidates_spec(cv.take(i as int)),
        decreases n - i,
    {
        let mut seen = false;
        let mut j: usize = 0;
        while j < i
            invariant
                i < n,
                n == cv.len(),
                j <= i,
                keys@.len() == n,
                forall|m: int| 0 <= m < n ==> (#[trigger] keys@[m])@ == candidate_key(cv[m]),
                seen == has_key(cv.take(j as int), candidate_key(cv[i as int])),
            decreases i - j,
        {
            proof {
                lemma_has_key_take(cv, j as int, candidate_key(cv[i as int]));
            }
            if chars_eq(&keys[j], &keys[i]) {
                seen = true;
            }
            j = j + 1;
        }
        let ghost before = out@;
        proof {
            assert(cv.take(i + 1).drop_last() =~= cv.take(i as int));
            assert(cv.take(i + 1).last() == cv[i as int]);
        }
        if !seen {
            let c = rest[i].duplicate();
            out.push(c);
            assert(candidate_views(out@) =~= candidate_views(before).push(cv[i as int]));
        }
        i = i + 1;
    }
    assert(cv.take(n as int) =~= cv);
    out
}

impl CitationCandidate {
    /// A copy of this candidate.
    pub fn duplicate(&self) -> (r: Self)
        ensures
            r@ == self@,
    {
        CitationCandidate {
            candidate_id: self.candidate_id.clone(),
            need_id: self.need_id.clone(),
            claim_id: self.claim_id.clone(),
            source: self.source,
            search_query: self.search_query.clone(),
            expected_artifact_type: self.expected_artifact_type.clone(),
            jurisdiction_hint: crate::json::copy_opt_string(&self.jurisdiction_hint),
            reporter_hint: crate::json::copy_opt_string(&self.reporter_hint),
            priority: self.priority,
            deterministic_basis: self.deterministic_basis.clone(),
        }
    }
}

/// Generates the search candidates of a list of needs: for each need its
/// whitespace-normalized query, and for holding and rule needs also the
/// query stripped of citation noise; blank queries are dropped, and of
/// candidates with the same need, query and artifact type only the first
/// is kept.
pub fn generate_candidates(needs: &[CitationNeed]) -> (r: Result<Vec<CitationCandidate>, crate::CiteError>)
    ensures
        r is Ok,
        r matches Ok(v) ==> candidate_views(v@) == generate_candidates_spec(
            needs@.map_values(|n: CitationNeed| n@),
        ),
{
    let ghost nv = needs@.map_values(|n: CitationNeed| n@);
    let mut all: Vec<CitationCandidate> = Vec::new();
    for i in 0..needs.len()
        invariant
            nv == needs@.map_values(|n: CitationNeed| n@),
            candidate_views(all@) == all_candidates(nv.take(i as int)),
    {
        let ghost before = all@;
        let cs = candidates_of_need(&needs[i]);
        for k in 0..cs.len()
            invariant
                candidate_views(all@) == candidate_views(before) + candidate_views(cs@).take(k as int),
        {
            let ghost prev = all@;
            all.push(cs[k].duplicate());
            assert(candidate_views(cs@)[k as int] == cs@[k as int]@);
            assert(candidate_views(all@) =~= candidate_views(prev).push(cs@[k as int]@));
            assert(candidate_views(cs@).take(k + 1) =~= candidate_views(cs@).take(k as int).push(cs@[k as int]@));
            assert(candidate_views(all@) =~= candidate_views(before) + candidate_views(cs@).take(k + 1));
        }
        proof {
            assert(candidate_views(cs@).take(cs@.len() as int) =~= candidate_views(cs@));
            assert(nv.take(i + 1).drop_last() =~= nv.take(i as int));
            assert(nv.take(i + 1).last() == needs@[i as int]@);
        }
    }
    assert(nv.take(needs@.len() as int) =~= nv);
    Ok(dedup_candidates(all))
}


/// Each candidate of the needs comes from one of them and has a query
/// that holds something besides white space.
proof fn lemma_all_candidates_sources(needs: Seq<CitationNeedView>)
    ensures
        forall|i: int|
            0 <= i < all_candidates(needs).len() ==> !is_blank(
                (#[trigger] all_candidates(needs)[i]).search_query,
            ) && exists|n: int| 0 <= n < needs.len() && all_candidates(needs)[i].need_id == needs[n].need_id,
    decreases needs.len(),
{
    if needs.len() > 0 {
        let d = needs.drop_last();
        lemma_all_candidates_sources(d);
        let prev = all_candidates(d);
        let mine = candidates_for_need(needs.last());
        let all = all_candidates(needs);
        assert(all == prev + mine);
        reveal(candidates_for_need);
        reveal(candidate_for);
        assert forall|i: int| 0 <= i < all.len() implies !is_blank((#[trigger] all[i]).search_query)
            && exists|n: int| 0 <= n < needs.len() && all[i].need_id == needs[n].need_id by {
            if i < prev.len() {
                assert(all[i] == prev[i]);
                let n = choose|n: int| 0 <= n < d.len() && prev[i].need_id == d[n].need_id;
                assert(d[n] == needs[n]);
            } else {
                assert(all[i] == mine[i - prev.len()]);
                assert(all[i].need_id == needs[needs.len() - 1].need_id);
            }
        }
    }
}

/// Each candidate kept by deduplication is one of the given candidates.
proof fn lemma_dedup_sources(s: Seq<CitationCandidateView>)
    ensures
        forall|k: int|
            0 <= k < dedup_candidates_spec(s).len() ==> exists|i: int|
                0 <= i < s.len() && #[trigger] dedup_candidates_spec(s)[k] == s[i],
    decreases s.len(),
{
    if s.len() > 0 {
        let d = s.drop_last();
        lemma_dedup_sources(d);
        let prev = dedup_candidates_spec(d);
        let r = dedup_candidates_spec(s);
        assert forall|k: int| 0 <= k < r.len() implies exists|i: int| 0 <= i < s.len() && #[trigger] r[k] == s[i] by {
            if k < prev.len() {
                assert(r[k] == prev[k]);
                let i = choose|i: int| 0 <= i < d.len() && prev[k] == d[i];
                assert(d[i] == s[i]);
            } else {
                assert(r[k] == s[s.len() - 1]);
            }
        }
    }
}

/// Deduplication keeps no two candidates with the same key, and keeps a
/// candidate of every key given.
proof fn lemma_dedup_keys(s: Seq<CitationCandidateView>)
    ensures
        forall|a: int, b: int|
            0 <= a < b < dedup_candidates_spec(s).len() ==> candidate_key(
                #[trigger] dedup_candidates_spec(s)[a],
            ) != candidate_key(#[trigger] dedup_candidates_spec(s)[b]),
        forall|i: int| 0 <= i < s.len() ==> has_key(dedup_candidates_spec(s), candidate_key(#[trigger] s[i])),
    decreases s.len(),
{
    if s.len() > 0 {
        let d = s.drop_last();
        lemma_dedup_keys(d);
        lemma_dedup_sources(d);
        let prev = dedup_candidates_spec(d);
        let r = dedup_candidates_spec(s);
        let x = s.last();
        assert(s[s.len() - 1] == x);
        if has_key(d, candidate_key(x)) {
            assert(r == prev);
            assert forall|i: int| 0 <= i < s.len() implies has_key(r, candidate_key(#[trigger] s[i])) by {
                if i < d.len() {
                    assert(d[i] == s[i]);
                } else {
                    let j = choose|j: int| 0 <= j < d.len() && candidate_key(#[trigger] d[j]) == candidate_key(x);
                    assert(has_key(prev, candidate_key(d[j])));
                }
            }
        } else {
            assert(r == prev.push(x));
            assert forall|a: int, b: int| 0 <= a < b < r.len() implies candidate_key(#[trigger] r[a])
                != candidate_key(#[trigger] r[b]) by {
                assert(r[a] == prev[a]);
                if b < prev.len() {
                    assert(r[b] == prev[b]);
                } else {
                    let i = choose|i: int| 0 <= i < d.len() && #[trigger] prev[a] == d[i];
                    if candidate_key(r[a]) == candidate_key(r[b]) {
                        assert(candidate_key(d[i]) == candidate_key(x));
                        assert(has_key(d, candidate_key(x)));
                    }
                }
            }
            assert forall|i: int| 0 <= i < s.len() implies has_key(r, candidate_key(#[trigger] s[i])) by {
                if i < d.len() {
                    assert(d[i] == s[i]);
                    let j = choose|j: int| 0 <= j < prev.len() && candidate_key(#[trigger] prev[j]) == candidate_key(d[i]);
                    assert(r[j] == prev[j]);
                } else {
                    assert(r[prev.len() as int] == x);
                }
            }
        }
    }
}

/// The candidates generated for a list of needs: each is a candidate of
/// one of the needs, with a query that holds something besides white
/// space; no two share a key (need, query and expected artifact); and a
/// candidate is kept for every key the needs' candidates have.
pub proof fn law_generated_candidates(needs: Seq<CitationNeedView>)
    ensures
        forall|k: int|
            0 <= k < generate_candidates_spec(needs).len() ==> !is_blank(
                (#[trigger] generate_candidates_spec(needs)[k]).search_query,
            ) && exists|n: int|
                0 <= n < needs.len() && generate_candidates_spec(needs)[k].need_id == needs[n].need_id,
        forall|k: int|
            0 <= k < generate_candidates_spec(needs).len() ==> exists|i: int|
                0 <= i < all_candidates(needs).len() && #[trigger] generate_candidates_spec(needs)[k]
                    == all_candidates(needs)[i],
        forall|a: int, b: int|
            0 <= a < b < generate_candidates_spec(needs).len() ==> candidate_key(
                #[trigger] generate_candidates_spec(needs)[a],
            ) != candidate_key(#[trigger] generate_candidates_spec(needs)[b]),
        forall|i: int|
            0 <= i < all_candidates(needs).len() ==> has_key(
                generate_candidates_spec(needs),
                candidate_key(#[trigger] all_candidates(needs)[i]),
            ),
{
    let all = all_candidates(needs);
    let r = generate_candidates_spec(needs);
    lemma_all_candidates_sources(needs);
    lemma_dedup_sources(all);
    lemma_dedup_keys(all);
    assert forall|k: int| 0 <= k < r.len() implies !is_blank((#[trigger] r[k]).search_query) && exists|n: int|
        0 <= n < needs.len() && r[k].need_id == needs[n].need_id by {
        let i = choose|i: int| 0 <= i < all.len() && #[trigger] r[k] == all[i];
        assert(!is_blank(all[i].search_query));
    }
}


/// Every candidate of each need is among the candidates of all needs, and
/// each of those is a candidate of some need.
/// The need that gives the `i`-th candidate of all needs.
pub open spec fn need_of(needs: Seq<CitationNeedView>, i: int) -> int
    decreases needs.len(),
{
    if needs.len() == 0 {
        0
    } else if i < all_candidates(needs.drop_last()).len() {
        need_of(needs.drop_last(), i)
    } else {
        needs.len() - 1
    }
}

/// The place, among its need's candidates, of the `i`-th candidate of all
/// needs.
pub open spec fn slot_of(needs: Seq<CitationNeedView>, i: int) -> int
    decreases needs.len(),
{
    if needs.len() == 0 {
        0
    } else if i < all_candidates(needs.drop_last()).len() {
        slot_of(needs.drop_last(), i)
    } else {
        i - all_candidates(needs.drop_last()).len()
    }
}

/// The place, among the candidates of all needs, of the `c`-th candidate
/// of need `n`.
pub open spec fn place_of(needs: Seq<CitationNeedView>, n: int, c: int) -> int
    decreases needs.len(),
{
    if needs.len() == 0 || n >= needs.len() - 1 {
        all_candidates(needs.drop_last()).len() + c
    } else {
        place_of(needs.drop_last(), n, c)
    }
}

proof fn lemma_place_of(needs: Seq<CitationNeedView>, n: int, c: int)
    requires
        0 <= n < needs.len(),
        0 <= c < candidates_for_need(needs[n]).len(),
    ensures
        0 <= place_of(needs, n, c) < all_candidates(needs).len(),
        all_candidates(needs)[place_of(needs, n, c)] == candidates_for_need(needs[n])[c],
    decreases needs.len(),
{
    let d = needs.drop_last();
    assert(all_candidates(needs) == all_candidates(d) + candidates_for_need(needs.last()));
    if n < needs.len() - 1 {
        assert(d[n] == needs[n]);
        lemma_place_of(d, n, c);
    } else {
        assert(needs[n] == needs.last());
    }
}

proof fn lemma_need_of(needs: Seq<CitationNeedView>, i: int)
    requires
        0 <= i < all_candidates(needs).len(),
    ensures
        0 <= need_of(needs, i) < needs.len(),
        0 <= slot_of(needs, i) < candidates_for_need(needs[need_of(needs, i)]).len(),
        all_candidates(needs)[i] == candidates_for_need(needs[need_of(needs, i)])[slot_of(needs, i)],
    decreases needs.len(),
{
    let d = needs.drop_last();
    assert(all_candidates(needs) == all_candidates(d) + candidates_for_need(needs.last()));
    if i < all_candidates(d).len() {
        lemma_need_of(d, i);
        assert(d[need_of(d, i)] == needs[need_of(d, i)]);
    } else {
        assert(needs[needs.len() - 1] == needs.last());
    }
}

/// The candidates generated for needs search the right queries. Every need
/// whose whitespace-normalized query is not blank gets a candidate of that
/// query; a need for a holding or a rule whose query stripped of citation
/// noise is not blank also gets a candidate of the stripped query (each
/// kept once per need, query and expected artifact). Every candidate
/// searches one of these queries of its need.
#[verifier::rlimit(60)]
pub proof fn law_candidate_queries(needs: Seq<CitationNeedView>)
    ensures
        forall|n: int|
            0 <= n < needs.len() && !is_blank(normalize_ws(#[trigger] needs[n].query_text)) ==> has_key(
                generate_candidates_spec(needs),
                needs[n].need_id + "|"@ + normalize_ws(needs[n].query_text) + "|"@ + expected_artifact(
                    needs[n].kind,
                ),
            ),
        forall|n: int|
            0 <= n < needs.len() && (needs[n].kind == CitationNeedKind::SupportHolding || needs[n].kind
                == CitationNeedKind::SupportRule) && !is_blank(strip_noise(#[trigger] needs[n].query_text))
                ==> has_key(
                generate_candidates_spec(needs),
                needs[n].need_id + "|"@ + strip_noise(needs[n].query_text) + "|"@ + expected_artifact(
                    needs[n].kind,
                ),
            ),
        forall|k: int|
            0 <= k < generate_candidates_spec(needs).len() ==> exists|n: int|
                0 <= n < needs.len() && (#[trigger] generate_candidates_spec(needs)[k]).need_id
                    == needs[n].need_id && (generate_candidates_spec(needs)[k].search_query == normalize_ws(
                    needs[n].query_text,
                ) || ((needs[n].kind == CitationNeedKind::SupportHolding || needs[n].kind
                    == CitationNeedKind::SupportRule) && generate_candidates_spec(needs)[k].search_query
                    == strip_noise(needs[n].query_text))),
{
    let all = all_candidates(needs);
    let r = generate_candidates_spec(needs);
    lemma_dedup_sources(all);
    lemma_dedup_keys(all);
    reveal(candidates_for_need);
    reveal(candidate_for);
    assert forall|n: int| 0 <= n < needs.len() && !is_blank(normalize_ws(#[trigger] needs[n].query_text))
        implies has_key(
        r,
        needs[n].need_id + "|"@ + normalize_ws(needs[n].query_text) + "|"@ + expected_artifact(needs[n].kind),
    ) by {
        let cs = candidates_for_need(needs[n]);
        assert(cs[0] == candidate_for(needs[n], normalize_ws(needs[n].query_text)));
        let i = place_of(needs, n, 0);
        lemma_place_of(needs, n, 0);
        assert(has_key(r, candidate_key(all[i])));
    }
    assert forall|n: int|
        0 <= n < needs.len() && (needs[n].kind == CitationNeedKind::SupportHolding || needs[n].kind
            == CitationNeedKind::SupportRule) && !is_blank(strip_noise(#[trigger] needs[n].query_text))
            implies has_key(
        r,
        needs[n].need_id + "|"@ + strip_noise(needs[n].query_text) + "|"@ + expected_artifact(needs[n].kind),
    ) by {
        let cs = candidates_for_need(needs[n]);
        let c = cs.len() - 1;
        assert(cs[c] == candidate_for(needs[n], strip_noise(needs[n].query_text)));
        let i = place_of(needs, n, c);
        lemma_place_of(needs, n, c);
        assert(has_key(r, candidate_key(all[i])));
    }
    assert forall|k: int| 0 <= k < r.len() implies exists|n: int|
        0 <= n < needs.len() && (#[trigger] r[k]).need_id == needs[n].need_id && (r[k].search_query
            == normalize_ws(needs[n].query_text) || ((needs[n].kind == CitationNeedKind::SupportHolding
            || needs[n].kind == CitationNeedKind::SupportRule) && r[k].search_query == strip_noise(
            needs[n].query_text))) by {
        let i = choose|i: int| 0 <= i < all.len() && #[trigger] r[k] == all[i];
        let n = need_of(needs, i);
        lemma_need_of(needs, i);
        assert(r[k].need_id == needs[n].need_id);
    }
}

} // verus!
