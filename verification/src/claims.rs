//! Legal claims: the sentences of a brief that assert law and so need
//! authority, classified by lexical rules.
use vstd::prelude::*;
use crate::text::{
    byte_len, byte_offsets, chars_of, contains, contains_str, is_blank, is_whitespace, is_ws,
    lemma_utf8_len_take, lemma_utf8_len_take_strict, lowercase, push_all, push_str, slice_chars,
    string_of, to_lowercase, trim, trim_chars, trim_end, trim_start, utf8_len,
};
use crate::json::{decimal, json_str, key, push_decimal, push_json_lit, push_json_string, push_key, JsonRecord};
use crate::digest::{digest_of, sha256_text};

verus! {

/// How a sentence asserts law.
#[derive(Debug, Clone, Copy, PartialEq, Eq, Structural)]
pub enum ClaimKind {
    NeedsAuthority,
    NamedAuthority,
    HoldingClaim,
    RuleStatement,
    FactualAssertion,
}

/// A sentence of the brief that asserts law, with its byte span.
#[derive(Debug, Clone)]
pub struct LegalClaim {
    pub claim_id: String,
    pub kind: ClaimKind,
    pub text: String,
    pub start_index: usize,
    pub end_index: usize,
    pub confidence_basis: String,
}

/// The serialized name of a claim kind.
pub open spec fn claim_kind_name(x: ClaimKind) -> Seq<char> {
    match x {
        ClaimKind::NeedsAuthority => "NeedsAuthority"@,
        ClaimKind::NamedAuthority => "NamedAuthority"@,
        ClaimKind::HoldingClaim => "HoldingClaim"@,
        ClaimKind::RuleStatement => "RuleStatement"@,
        ClaimKind::FactualAssertion => "FactualAssertion"@,
    }
}

impl ClaimKind {
    /// Appends the JSON string that names this variant.
    pub fn push_json(&self, out: &mut Vec<char>)
        ensures
            final(out)@ == old(out)@ + json_str(claim_kind_name(*self)),
    {
        match self {
            ClaimKind::NeedsAuthority => push_json_lit(out, "NeedsAuthority"),
            ClaimKind::NamedAuthority => push_json_lit(out, "NamedAuthority"),
            ClaimKind::HoldingClaim => push_json_lit(out, "HoldingClaim"),
            ClaimKind::RuleStatement => push_json_lit(out, "RuleStatement"),
            ClaimKind::FactualAssertion => push_json_lit(out, "FactualAssertion"),
        }
    }
}

/// The mathematical value of a [`LegalClaim`].
pub struct LegalClaimView {
    pub claim_id: Seq<char>,
    pub kind: ClaimKind,
    pub text: Seq<char>,
    pub start_index: nat,
    pub end_index: nat,
    pub confidence_basis: Seq<char>,
}

impl View for LegalClaim {
    type V = LegalClaimView;

    open spec fn view(&self) -> LegalClaimView {
        LegalClaimView {
            claim_id: self.claim_id@,
            kind: self.kind,
            text: self.text@,
            start_index: self.start_index as nat,
            end_index: self.end_index as nat,
            confidence_basis: self.confidence_basis@,
        }
    }
}

/// The JSON text of a legal claim.
pub open spec fn json_legal_claim(v: LegalClaimView) -> Seq<char> {
    "{"@ + key("claim_id"@) + json_str(v.claim_id)
        + ","@ + key("kind"@) + json_str(claim_kind_name(v.kind))
        + ","@ + key("text"@) + json_str(v.text)
        + ","@ + key("start_index"@) + decimal(v.start_index)
        + ","@ + key("end_index"@) + decimal(v.end_index)
        + ","@ + key("confidence_basis"@) + json_str(v.confidence_basis)
        + "}"@
}

impl JsonRecord for LegalClaim {
    open spec fn json_view(&self) -> Seq<char> {
        json_legal_claim(self@)
    }

    fn to_json(&self) -> (r: Vec<char>) {
        let mut out = chars_of("{");
        push_key(&mut out, "claim_id");
        push_json_string(&mut out, &self.claim_id);
        push_str(&mut out, ",");
        push_key(&mut out, "kind");
        self.kind.push_json(&mut out);
        push_str(&mut out, ",");
        push_key(&mut out, "text");
        push_json_string(&mut out, &self.text);
        push_str(&mut out, ",");
        push_key(&mut out, "start_index");
        push_decimal(&mut out, self.start_index as u64);
        push_str(&mut out, ",");
        push_key(&mut out, "end_index");
        push_decimal(&mut out, self.end_index as u64);
        push_str(&mut out, ",");
        push_key(&mut out, "confidence_basis");
        push_json_string(&mut out, &self.confidence_basis);
        push_str(&mut out, "}");
        out
    }
}

/// Whether a window of text holds a reporter abbreviation whose periods do
/// not end a sentence.
pub open spec fn has_protected_abbreviation(w: Seq<char>) -> bool {
    contains(w, "U.S."@) || contains(w, "S.Ct."@) || contains(w, "L.Ed."@) || contains(w, "F.2d"@)
        || contains(w, "F.3d"@) || contains(w, "F.Supp."@) || contains(w, "B.R."@) || contains(
        w,
        "N.E."@,
    ) || contains(w, "N.W."@) || contains(w, "S.E."@) || contains(w, "S.W."@) || contains(
        w,
        "A.2d"@,
    ) || contains(w, "A.3d"@)
}

/// The window around position `i`: up to twelve characters before it and
/// twelve from it on.
pub open spec fn window_around(t: Seq<char>, i: int) -> Seq<char> {
    let lo = if i >= 12 {
        i - 12
    } else {
        0
    };
    let hi = if i + 12 <= t.len() {
        i + 12
    } else {
        t.len() as int
    };
    t.subrange(lo, hi)
}

/// Whether the character at `i` ends a sentence: `!` and `?` always do; `.`
/// does unless a protected reporter abbreviation stands within twelve
/// characters of it.
pub open spec fn is_boundary(t: Seq<char>, i: int) -> bool {
    let ch = t[i];
    if ch == '!' || ch == '?' {
        true
    } else if ch != '.' {
        false
    } else {
        !has_protected_abbreviation(window_around(t, i))
    }
}

/// The first position at or after `j` that is not white space (or the end).
pub open spec fn skip_ws(t: Seq<char>, j: int) -> int
    decreases t.len() - j,
{
    if 0 <= j < t.len() && is_ws(t[j]) {
        skip_ws(t, j + 1)
    } else {
        j
    }
}

/// The sentence spans (character positions) found from position `i` on, the
/// current sentence having started at `start`. A span is kept only when it
/// holds something besides white space; after a sentence end the next
/// sentence starts past the white space that follows.
pub open spec fn spans_from(t: Seq<char>, i: int, start: int) -> Seq<(int, int)>
    decreases t.len() - i,
{
    if i < 0 || i >= t.len() {
        if start < t.len() && !is_blank(t.subrange(start, t.len() as int)) {
            seq![(start, t.len() as int)]
        } else {
            seq![]
        }
    } else if is_boundary(t, i) {
        let end = i + 1;
        let first = if !is_blank(t.subrange(start, end)) {
            seq![(start, end)]
        } else {
            seq![]
        };
        first + spans_from(t, i + 1, skip_ws(t, end))
    } else {
        spans_from(t, i + 1, start)
    }
}

/// The sentence spans of a text.
pub open spec fn sentence_spans(t: Seq<char>) -> Seq<(int, int)> {
    spans_from(t, 0, 0)
}

/// Views of exec spans.
pub open spec fn span_views(v: Seq<(usize, usize)>) -> Seq<(int, int)> {
    v.map_values(|p: (usize, usize)| (p.0 as int, p.1 as int))
}

/// Whether the window around `i` holds a protected abbreviation.
fn protected_near(t: &Vec<char>, i: usize) -> (r: bool)
    requires
        i < t@.len(),
    ensures
        r == has_protected_abbreviation(window_around(t@, i as int)),
{
    let lo = if i >= 12 {
        i - 12
    } else {
        0
    };
    let hi = if t.len() >= 12 && i <= t.len() - 12 {
        i + 12
    } else {
        t.len()
    };
    assert(hi == if i + 12 <= t@.len() {
        i + 12
    } else {
        t@.len() as int
    });
    let w = slice_chars(t, lo, hi);
    contains_str(&w, "U.S.") || contains_str(&w, "S.Ct.") || contains_str(&w, "L.Ed.")
        || contains_str(&w, "F.2d") || contains_str(&w, "F.3d") || contains_str(&w, "F.Supp.")
        || contains_str(&w, "B.R.") || contains_str(&w, "N.E.") || contains_str(&w, "N.W.")
        || contains_str(&w, "S.E.") || contains_str(&w, "S.W.") || contains_str(&w, "A.2d")
        || contains_str(&w, "A.3d")
}

/// Whether the character at `i` ends a sentence.
pub fn is_sentence_boundary(t: &Vec<char>, i: usize) -> (r: bool)
    requires
        i < t@.len(),
    ensures
        r == is_boundary(t@, i as int),
{
    let ch = t[i];
    if ch == '!' || ch == '?' {
        return true;
    }
    if ch != '.' {
        return false;
    }
    !protected_near(t, i)
}

/// Skips the white space from `j` on.
fn skip_whitespace(t: &Vec<char>, j: usize) -> (r: usize)
    requires
        j <= t@.len(),
    ensures
        r == skip_ws(t@, j as int),
        j <= r <= t@.len(),
        forall|k: int| j <= k < r ==> is_ws(t@[k]),
{
    let mut k = j;
    while k < t.len() && is_whitespace(t[k])
        invariant
            j <= k <= t@.len(),
            skip_ws(t@, j as int) == skip_ws(t@, k as int),
            forall|m: int| j <= m < k ==> is_ws(t@[m]),
        decreases t@.len() - k,
    {
        k = k + 1;
    }
    k
}

/// Whether the characters from `a` up to `b` are all white space.
fn blank_between(t: &Vec<char>, a: usize, b: usize) -> (r: bool)
    requires
        a <= b <= t@.len(),
    ensures
        r == is_blank(t@.subrange(a as int, b as int)),
{
    let mut k = a;
    while k < b
        invariant
            a <= k <= b <= t@.len(),
            forall|m: int| a <= m < k ==> is_ws(t@[m]),
        decreases b - k,
    {
        if !is_whitespace(t[k]) {
            assert(!is_ws(t@.subrange(a as int, b as int)[k - a]));
            return false;
        }
        k = k + 1;
    }
    assert forall|m: int| 0 <= m < b - a implies is_ws(#[trigger] t@.subrange(a as int, b as int)[m]) by {
        assert(t@.subrange(a as int, b as int)[m] == t@[a + m]);
    }
    true
}

/// Splits a text into sentence spans (character positions).
pub fn split_sentences(t: &Vec<char>) -> (r: Vec<(usize, usize)>)
    ensures
        span_views(r@) == sentence_spans(t@),
        forall|k: int| 0 <= k < r@.len() ==> (#[trigger] r@[k]).0 <= r@[k].1 <= t@.len(),
{
    let mut out: Vec<(usize, usize)> = Vec::new();
    let mut start: usize = 0;
    let n = t.len();
    for i in 0..n
        invariant
            n == t@.len(),
            start <= n,
            start <= i || forall|k: int| i <= k < start ==> is_ws(t@[k]),
            span_views(out@) + spans_from(t@, i as int, start as int) == sentence_spans(t@),
            forall|k: int| 0 <= k < out@.len() ==> (#[trigger] out@[k]).0 <= out@[k].1 <= t@.len(),
    {
        let ghost s0 = start as int;
        let ghost before = out@;
        if is_sentence_boundary(t, i) {
            assert(!is_ws(t@[i as int]));
            let end = i + 1;
            let ghost first = if !is_blank(t@.subrange(s0, end as int)) {
                seq![(s0, end as int)]
            } else {
                Seq::<(int, int)>::empty()
            };
            if !blank_between(t, start, end) {
                out.push((start, end));
            }
            assert(span_views(out@) =~= span_views(before) + first);
            start = skip_whitespace(t, end);
            assert(spans_from(t@, i as int, s0) == first + spans_from(t@, i + 1, start as int));
            assert(span_views(out@) + spans_from(t@, i + 1, start as int) =~= span_views(before)
                + spans_from(t@, i as int, s0));
        } else {
            assert(spans_from(t@, i as int, s0) == spans_from(t@, i + 1, s0));
        }
    }
    let ghost before = out@;
    if start < n && !blank_between(t, start, n) {
        out.push((start, n));
        assert(span_views(out@) =~= span_views(before) + seq![(start as int, n as int)]);
    } else {
        assert(span_views(out@) =~= span_views(before) + Seq::<(int, int)>::empty());
    }
    assert(spans_from(t@, n as int, start as int) == if start < n && !is_blank(
        t@.subrange(start as int, n as int),
    ) {
        seq![(start as int, n as int)]
    } else {
        Seq::<(int, int)>::empty()
    });
    out
}


/// The kind of claim a lower-cased sentence makes, if any: a named case
/// (" v. ", " in re "), a statement of a holding, a rule, or a sentence that
/// mentions authority.
pub open spec fn claim_kind_of(lower: Seq<char>) -> Option<ClaimKind> {
    if contains(lower, " v. "@) || contains(lower, " in re "@) {
        Some(ClaimKind::NamedAuthority)
    } else if contains(lower, "held that"@) || contains(lower, "the court held"@) || contains(
        lower,
        "confirmed that"@,
    ) {
        Some(ClaimKind::HoldingClaim)
    } else if contains(lower, "must "@) || contains(lower, "may not "@) || contains(
        lower,
        "shall "@,
    ) || contains(lower, "requires "@) {
        Some(ClaimKind::RuleStatement)
    } else if contains(lower, "authority"@) || contains(lower, "citation"@) || contains(
        lower,
        "case law"@,
    ) {
        Some(ClaimKind::NeedsAuthority)
    } else {
        None
    }
}

/// The claim made by the sentence at characters `s..e`: its trimmed text,
/// its byte span, and an identifier committing to the claim written with
/// the identifier `pending`.
pub open spec fn legal_claim_at(t: Seq<char>, s: int, e: int, kind: ClaimKind) -> LegalClaimView {
    let pending = LegalClaimView {
        claim_id: "pending"@,
        kind: kind,
        text: trim(t.subrange(s, e)),
        start_index: utf8_len(t.take(s)),
        end_index: utf8_len(t.take(e)),
        confidence_basis: "deterministic lexical rule v0"@,
    };
    LegalClaimView {
        claim_id: digest_of(json_legal_claim(pending)),
        kind: kind,
        text: trim(t.subrange(s, e)),
        start_index: utf8_len(t.take(s)),
        end_index: utf8_len(t.take(e)),
        confidence_basis: "deterministic lexical rule v0"@,
    }
}

/// The claims made by the sentences at `spans`, in order.
pub open spec fn claims_of_spans(t: Seq<char>, spans: Seq<(int, int)>) -> Seq<LegalClaimView>
    decreases spans.len(),
{
    if spans.len() == 0 {
        seq![]
    } else {
        let prev = claims_of_spans(t, spans.drop_last());
        let sp = spans.last();
        match claim_kind_of(lowercase(t.subrange(sp.0, sp.1))) {
            Some(k) => prev.push(legal_claim_at(t, sp.0, sp.1, k)),
            None => prev,
        }
    }
}

/// The legal claims of a text: one per sentence whose lower-cased form
/// matches a claim rule, in document order.
pub open spec fn legal_claims_spec(t: Seq<char>) -> Seq<LegalClaimView> {
    claims_of_spans(t, sentence_spans(t))
}

/// Views of a vector of legal claims.
pub open spec fn legal_claim_views(v: Seq<LegalClaim>) -> Seq<LegalClaimView> {
    v.map_values(|c: LegalClaim| c@)
}

/// The kind of claim a sentence makes, given its lower-cased form.
pub fn kind_of(lower: &Vec<char>) -> (r: Option<ClaimKind>)
    ensures
        r == claim_kind_of(lower@),
{
    if contains_str(lower, " v. ") || contains_str(lower, " in re ") {
        Some(ClaimKind::NamedAuthority)
    } else if contains_str(lower, "held that") || contains_str(lower, "the court held")
        || contains_str(lower, "confirmed that") {
        Some(ClaimKind::HoldingClaim)
    } else if contains_str(lower, "must ") || contains_str(lower, "may not ") || contains_str(
        lower,
        "shall ",
    ) || contains_str(lower, "requires ") {
        Some(ClaimKind::RuleStatement)
    } else if contains_str(lower, "authority") || contains_str(lower, "citation")
        || contains_str(lower, "case law") {
        Some(ClaimKind::NeedsAuthority)
    } else {
        None
    }
}

/// The claim made by one sentence, if it makes one.
fn claim_from_span(t: &Vec<char>, offs: &Vec<usize>, s: usize, e: usize) -> (r: Option<LegalClaim>)
    requires
        s <= e <= t@.len(),
        offs@.len() == t@.len() + 1,
        forall|i: int| 0 <= i <= t@.len() ==> offs@[i] == utf8_len(#[trigger] t@.take(i)),
    ensures
        r matches Some(c) ==> claim_kind_of(lowercase(t@.subrange(s as int, e as int))) == Some(
            c.kind,
        ) && c@ == legal_claim_at(t@, s as int, e as int, c.kind),
        r is None ==> claim_kind_of(lowercase(t@.subrange(s as int, e as int))) is None,
{
    let sentence = slice_chars(t, s, e);
    let lower = to_lowercase(&sentence);
    match kind_of(&lower) {
        None => None,
        Some(kind) => {
            let text = trim_chars(&sentence);
            let mut claim = LegalClaim {
                claim_id: string_of(&chars_of("pending")),
                kind,
                text: string_of(&text),
                start_index: offs[s],
                end_index: offs[e],
                confidence_basis: string_of(&chars_of("deterministic lexical rule v0")),
            };
            let json = claim.to_json();
            claim.claim_id = sha256_text(&json);
            Some(claim)
        },
    }
}

/// Extracts the legal claims of a text.
///
/// The text is split into sentences at `!`, `?` and at `.` away from
/// reporter abbreviations; each sentence whose lower-cased form matches a
/// claim rule becomes a claim, with its trimmed text and byte span.
pub fn extract_legal_claims(text: &str) -> (r: Result<Vec<LegalClaim>, crate::CiteError>)
    ensures
        r is Ok,
        r matches Ok(v) ==> legal_claim_views(v@) == legal_claims_spec(text@),
{
    let n = byte_len(text);
    let t = chars_of(text);
    let offs = byte_offsets(&t);
    let spans = split_sentences(&t);
    let ghost sv = span_views(spans@);
    let mut out: Vec<LegalClaim> = Vec::new();
    for k in 0..spans.len()
        invariant
            sv == span_views(spans@),
            sv == sentence_spans(t@),
            t@ == text@,
            offs@.len() == t@.len() + 1,
            forall|i: int| 0 <= i <= t@.len() ==> offs@[i] == utf8_len(#[trigger] t@.take(i)),
            forall|j: int| 0 <= j < spans@.len() ==> (#[trigger] spans@[j]).0 <= spans@[j].1 <= t@.len(),
            legal_claim_views(out@) == claims_of_spans(t@, sv.take(k as int)),
    {
        let (s, e) = spans[k];
        let ghost before = out@;
        proof {
            assert(sv.take(k + 1).drop_last() =~= sv.take(k as int));
            assert(sv.take(k + 1).last() == (s as int, e as int));
        }
        match claim_from_span(&t, &offs, s, e) {
            Some(c) => {
                out.push(c);
                assert(legal_claim_views(out@) =~= legal_claim_views(before).push(c@));
            },
            None => {},
        }
    }
    assert(sv.take(spans@.len() as int) =~= sv);
    Ok(out)
}


/// Spans that each hold something besides white space and lie within the
/// text, from `from` on.
pub open spec fn spans_well_placed(t: Seq<char>, sp: Seq<(int, int)>, from: int) -> bool {
    forall|k: int|
        0 <= k < sp.len() ==> from <= (#[trigger] sp[k]).0 < sp[k].1 <= t.len() && !is_blank(
            t.subrange(sp[k].0, sp[k].1),
        )
}

/// Spans in document order: each ends no later than any later one starts.
pub open spec fn spans_ordered(sp: Seq<(int, int)>) -> bool {
    forall|a: int, b: int| 0 <= a < b < sp.len() ==> (#[trigger] sp[a]).1 <= (#[trigger] sp[b]).0
}

/// Whether position `j` lies in one of the spans.
pub open spec fn in_some_span(sp: Seq<(int, int)>, j: int) -> bool {
    exists|k: int| 0 <= k < sp.len() && (#[trigger] sp[k]).0 <= j < sp[k].1
}

/// Every character from `from` on that is not white space lies in a span.
pub open spec fn spans_cover(t: Seq<char>, sp: Seq<(int, int)>, from: int) -> bool {
    forall|j: int| from <= j < t.len() && !is_ws(#[trigger] t[j]) ==> in_some_span(sp, j)
}

proof fn lemma_skip_ws(t: Seq<char>, j: int)
    requires
        0 <= j <= t.len(),
    ensures
        j <= skip_ws(t, j) <= t.len(),
        forall|q: int| j <= q < skip_ws(t, j) ==> is_ws(#[trigger] t[q]),
    decreases t.len() - j,
{
    if j < t.len() && is_ws(t[j]) {
        lemma_skip_ws(t, j + 1);
    }
}

proof fn lemma_spans_from(t: Seq<char>, i: int, start: int)
    requires
        0 <= i <= t.len(),
        0 <= start <= t.len(),
        forall|q: int| i <= q < start ==> is_ws(#[trigger] t[q]),
    ensures
        spans_well_placed(t, spans_from(t, i, start), start),
        spans_ordered(spans_from(t, i, start)),
        spans_cover(t, spans_from(t, i, start), start),
    decreases t.len() - i,
{
    let r = spans_from(t, i, start);
    if i >= t.len() {
        if start < t.len() && !is_blank(t.subrange(start, t.len() as int)) {
            assert(r[0] == (start, t.len() as int));
            assert forall|j: int| start <= j < t.len() && !is_ws(#[trigger] t[j]) implies in_some_span(r, j) by {
                assert(r[0].0 <= j < r[0].1);
            }
        } else {
            assert forall|j: int| start <= j < t.len() && !is_ws(#[trigger] t[j]) implies in_some_span(r, j) by {
                assert(t.subrange(start, t.len() as int)[j - start] == t[j]);
            }
        }
    } else if is_boundary(t, i) {
        assert(!is_ws(t[i]));
        assert(start <= i);
        let end = i + 1;
        let nxt = skip_ws(t, end);
        lemma_skip_ws(t, end);
        lemma_spans_from(t, i + 1, nxt);
        let rest = spans_from(t, i + 1, nxt);
        let first = if !is_blank(t.subrange(start, end)) {
            seq![(start, end)]
        } else {
            seq![]
        };
        assert(r == first + rest);
        assert forall|k: int| 0 <= k < r.len() implies start <= (#[trigger] r[k]).0 < r[k].1 <= t.len()
            && !is_blank(t.subrange(r[k].0, r[k].1)) by {
            if k >= first.len() {
                assert(r[k] == rest[k - first.len()]);
            }
        }
        assert forall|a: int, b: int| 0 <= a < b < r.len() implies (#[trigger] r[a]).1 <= (#[trigger] r[b]).0 by {
            if a >= first.len() {
                assert(r[a] == rest[a - first.len()]);
                assert(r[b] == rest[b - first.len()]);
            } else {
                assert(r[b] == rest[b - first.len()]);
            }
        }
        assert forall|j: int| start <= j < t.len() && !is_ws(#[trigger] t[j]) implies in_some_span(r, j) by {
            if j < end {
                assert(t.subrange(start, end)[j - start] == t[j]);
                assert(r[0] == (start, end));
            } else {
                assert(j >= nxt);
                let k = choose|k: int| 0 <= k < rest.len() && (#[trigger] rest[k]).0 <= j < rest[k].1;
                assert(r[k + first.len()] == rest[k]);
            }
        }
    } else {
        lemma_spans_from(t, i + 1, start);
    }
}

/// The sentence spans of a text are in document order, each holds
/// something besides white space and lies within the text, and every
/// character that is not white space lies in one of them.
pub proof fn law_sentence_spans(t: Seq<char>)
    ensures
        spans_well_placed(t, sentence_spans(t), 0),
        spans_ordered(sentence_spans(t)),
        spans_cover(t, sentence_spans(t), 0),
{
    lemma_spans_from(t, 0, 0);
}


proof fn lemma_trim_start_keeps_nonblank(s: Seq<char>)
    requires
        !is_blank(s),
    ensures
        !is_blank(trim_start(s)),
    decreases s.len(),
{
    if s.len() > 0 && is_ws(s[0]) {
        let j = choose|j: int| 0 <= j < s.len() && !is_ws(#[trigger] s[j]);
        assert(s.drop_first()[j - 1] == s[j]);
        lemma_trim_start_keeps_nonblank(s.drop_first());
    }
}

proof fn lemma_trim_end_keeps_nonblank(s: Seq<char>)
    requires
        !is_blank(s),
    ensures
        !is_blank(trim_end(s)),
    decreases s.len(),
{
    if s.len() > 0 && is_ws(s.last()) {
        let j = choose|j: int| 0 <= j < s.len() && !is_ws(#[trigger] s[j]);
        assert(s.drop_last()[j] == s[j]);
        lemma_trim_end_keeps_nonblank(s.drop_last());
    }
}

/// Whether claim `c` is the claim the sentence at span `sp` makes.
pub open spec fn claim_of_sentence(t: Seq<char>, c: LegalClaimView, sp: (int, int)) -> bool {
    claim_kind_of(lowercase(t.subrange(sp.0, sp.1))) == Some(c.kind) && c == legal_claim_at(
        t,
        sp.0,
        sp.1,
        c.kind,
    )
}

proof fn lemma_drop_last_placed(t: Seq<char>, sp: Seq<(int, int)>)
    requires
        sp.len() > 0,
        spans_well_placed(t, sp, 0),
        spans_ordered(sp),
    ensures
        spans_well_placed(t, sp.drop_last(), 0),
        spans_ordered(sp.drop_last()),
        forall|k: int| 0 <= k < sp.len() - 1 ==> (#[trigger] sp.drop_last()[k]).1 <= sp.last().0,
{
    let d = sp.drop_last();
    assert forall|k: int| 0 <= k < d.len() implies 0 <= (#[trigger] d[k]).0 < d[k].1 <= t.len()
        && !is_blank(t.subrange(d[k].0, d[k].1)) by {
        assert(d[k] == sp[k]);
    }
    assert forall|a: int, b: int| 0 <= a < b < d.len() implies (#[trigger] d[a]).1 <= (#[trigger] d[b]).0 by {
        assert(d[a] == sp[a] && d[b] == sp[b]);
    }
    assert forall|k: int| 0 <= k < sp.len() - 1 implies (#[trigger] sp.drop_last()[k]).1 <= sp.last().0 by {
        assert(d[k] == sp[k]);
        assert(sp[sp.len() - 1] == sp.last());
    }
}

/// Each claim of the sentences at `sp` is the claim of one of them.
proof fn lemma_claims_sources(t: Seq<char>, sp: Seq<(int, int)>)
    ensures
        forall|k: int|
            0 <= k < claims_of_spans(t, sp).len() ==> exists|m: int|
                0 <= m < sp.len() && claim_of_sentence(t, #[trigger] claims_of_spans(t, sp)[k], sp[m]),
    decreases sp.len(),
{
    if sp.len() > 0 {
        let d = sp.drop_last();
        lemma_claims_sources(t, d);
        let prev = claims_of_spans(t, d);
        let r = claims_of_spans(t, sp);
        assert forall|k: int| 0 <= k < r.len() implies exists|m: int|
            0 <= m < sp.len() && claim_of_sentence(t, #[trigger] r[k], sp[m]) by {
            if k < prev.len() {
                assert(r[k] == prev[k]);
                let m = choose|m: int| 0 <= m < d.len() && claim_of_sentence(t, prev[k], d[m]);
                assert(d[m] == sp[m]);
            } else {
                assert(sp[sp.len() - 1] == sp.last());
                assert(claim_of_sentence(t, r[k], sp[sp.len() - 1]));
            }
        }
    }
}

/// Every sentence at `sp` that makes a claim gives one.
proof fn lemma_claims_complete(t: Seq<char>, sp: Seq<(int, int)>)
    ensures
        forall|m: int|
            0 <= m < sp.len() && (#[trigger] claim_kind_of(lowercase(t.subrange(sp[m].0, sp[m].1))))
                is Some ==> exists|k: int|
                0 <= k < claims_of_spans(t, sp).len() && claim_of_sentence(
                    t,
                    claims_of_spans(t, sp)[k],
                    #[trigger] sp[m],
                ),
    decreases sp.len(),
{
    if sp.len() > 0 {
        let d = sp.drop_last();
        lemma_claims_complete(t, d);
        let prev = claims_of_spans(t, d);
        let r = claims_of_spans(t, sp);
        assert(prev.len() <= r.len() && forall|k: int| 0 <= k < prev.len() ==> r[k] == prev[k]);
        assert forall|m: int|
            0 <= m < sp.len() && (#[trigger] claim_kind_of(lowercase(t.subrange(sp[m].0, sp[m].1))))
                is Some implies exists|k: int|
            0 <= k < r.len() && claim_of_sentence(t, r[k], #[trigger] sp[m]) by {
            if m < d.len() {
                assert(d[m] == sp[m]);
                assert(claim_kind_of(lowercase(t.subrange(d[m].0, d[m].1))) is Some);
                let k = choose|k: int| 0 <= k < prev.len() && claim_of_sentence(t, prev[k], #[trigger] d[m]);
                assert(r[k] == prev[k]);
            } else {
                assert(sp[m] == sp.last());
                assert(r[prev.len() as int] == legal_claim_at(t, sp[m].0, sp[m].1, r[prev.len() as int].kind));
            }
        }
    }
}

/// The claim of a sentence that holds something besides white space spans
/// a nonempty byte range of the text and has a nonempty trimmed text.
proof fn lemma_claim_shape(t: Seq<char>, c: LegalClaimView, sp: (int, int))
    requires
        claim_of_sentence(t, c, sp),
        0 <= sp.0 < sp.1 <= t.len(),
        !is_blank(t.subrange(sp.0, sp.1)),
    ensures
        c.start_index < c.end_index <= utf8_len(t),
        c.text.len() > 0,
{
    lemma_utf8_len_take(t, sp.1);
    lemma_utf8_len_take_strict(t, sp.0, sp.1);
    lemma_trim_start_keeps_nonblank(t.subrange(sp.0, sp.1));
    lemma_trim_end_keeps_nonblank(trim_start(t.subrange(sp.0, sp.1)));
}

/// The claims of ordered sentences are ordered.
proof fn lemma_claims_ordered(t: Seq<char>, sp: Seq<(int, int)>)
    requires
        spans_well_placed(t, sp, 0),
        spans_ordered(sp),
    ensures
        forall|a: int, b: int|
            0 <= a < b < claims_of_spans(t, sp).len() ==> (#[trigger] claims_of_spans(t, sp)[a]).end_index
                <= (#[trigger] claims_of_spans(t, sp)[b]).start_index,
    decreases sp.len(),
{
    if sp.len() > 0 {
        let d = sp.drop_last();
        lemma_drop_last_placed(t, sp);
        lemma_claims_ordered(t, d);
        lemma_claims_sources(t, d);
        let prev = claims_of_spans(t, d);
        let r = claims_of_spans(t, sp);
        let last = sp.last();
        assert(sp[sp.len() - 1] == last);
        assert forall|k: int| 0 <= k < prev.len() implies (#[trigger] prev[k]).end_index <= utf8_len(
            t.take(last.0),
        ) by {
            let m = choose|m: int| 0 <= m < d.len() && claim_of_sentence(t, prev[k], d[m]);
            assert(d[m].1 <= last.0);
            if d[m].1 < last.0 {
                lemma_utf8_len_take_strict(t, d[m].1, last.0);
            }
        }
        assert forall|a: int, b: int| 0 <= a < b < r.len() implies (#[trigger] r[a]).end_index
            <= (#[trigger] r[b]).start_index by {
            assert(r[a] == prev[a]);
            if b < prev.len() {
                assert(r[b] == prev[b]);
            }
        }
    }
}

/// The legal claims of a text are in document order, each spans a
/// nonempty byte range of the text and has a nonempty trimmed text; each
/// is the claim one sentence makes, and every sentence that makes a claim
/// gives one.
pub proof fn law_legal_claims(t: Seq<char>)
    ensures
        forall|a: int, b: int|
            0 <= a < b < legal_claims_spec(t).len() ==> (#[trigger] legal_claims_spec(t)[a]).end_index
                <= (#[trigger] legal_claims_spec(t)[b]).start_index,
        forall|k: int|
            0 <= k < legal_claims_spec(t).len() ==> (#[trigger] legal_claims_spec(t)[k]).start_index
                < legal_claims_spec(t)[k].end_index <= utf8_len(t) && legal_claims_spec(t)[k].text.len() > 0,
        forall|k: int|
            0 <= k < legal_claims_spec(t).len() ==> exists|m: int|
                0 <= m < sentence_spans(t).len() && claim_of_sentence(
                    t,
                    #[trigger] legal_claims_spec(t)[k],
                    sentence_spans(t)[m],
                ),
        forall|m: int|
            0 <= m < sentence_spans(t).len() && (#[trigger] claim_kind_of(
                lowercase(t.subrange(sentence_spans(t)[m].0, sentence_spans(t)[m].1)),
            )) is Some ==> exists|k: int|
                0 <= k < legal_claims_spec(t).len() && claim_of_sentence(
                    t,
                    legal_claims_spec(t)[k],
                    #[trigger] sentence_spans(t)[m],
                ),
{
    let r = legal_claims_spec(t);
    let sp = sentence_spans(t);
    law_sentence_spans(t);
    lemma_claims_ordered(t, sp);
    lemma_claims_sources(t, sp);
    lemma_claims_complete(t, sp);
    assert forall|k: int| 0 <= k < r.len() implies (#[trigger] r[k]).start_index < r[k].end_index
        <= utf8_len(t) && r[k].text.len() > 0 by {
        let m = choose|m: int| 0 <= m < sp.len() && claim_of_sentence(t, r[k], sp[m]);
        lemma_claim_shape(t, r[k], sp[m]);
    }
}


/// The kind of claim a sentence makes, read from its lower-cased text: a
/// sentence naming a case (" v. " or " in re ") names authority; otherwise
/// one reporting a holding ("held that", "the court held", "confirmed
/// that") is a holding claim; otherwise one with "must ", "may not ",
/// "shall " or "requires " states a rule; otherwise one speaking of
/// "authority", "citation" or "case law" needs authority; any other
/// sentence makes no claim.
pub proof fn law_claim_kinds(lower: Seq<char>)
    ensures
        ({
            let named = contains(lower, " v. "@) || contains(lower, " in re "@);
            let holding = contains(lower, "held that"@) || contains(lower, "the court held"@)
                || contains(lower, "confirmed that"@);
            let rule = contains(lower, "must "@) || contains(lower, "may not "@) || contains(
                lower,
                "shall "@,
            ) || contains(lower, "requires "@);
            let needs = contains(lower, "authority"@) || contains(lower, "citation"@) || contains(
                lower,
                "case law"@,
            );
            &&& named ==> claim_kind_of(lower) == Some(ClaimKind::NamedAuthority)
            &&& !named && holding ==> claim_kind_of(lower) == Some(ClaimKind::HoldingClaim)
            &&& !named && !holding && rule ==> claim_kind_of(lower) == Some(ClaimKind::RuleStatement)
            &&& !named && !holding && !rule && needs ==> claim_kind_of(lower) == Some(
                ClaimKind::NeedsAuthority,
            )
            &&& !named && !holding && !rule && !needs ==> claim_kind_of(lower) is None
        }),
{
}

/// A sentence of a text whose lower-cased form states a rule ("must ",
/// "may not ", "shall " or "requires ") and neither names a case nor
/// reports a holding gives a legal claim of kind rule statement, with that
/// sentence's trimmed text.
pub proof fn law_rule_sentences_are_claims(t: Seq<char>, m: int)
    requires
        0 <= m < sentence_spans(t).len(),
        ({
            let lower = lowercase(t.subrange(sentence_spans(t)[m].0, sentence_spans(t)[m].1));
            &&& !contains(lower, " v. "@) && !contains(lower, " in re "@)
            &&& !contains(lower, "held that"@) && !contains(lower, "the court held"@) && !contains(
                lower,
                "confirmed that"@,
            )
            &&& contains(lower, "must "@) || contains(lower, "may not "@) || contains(lower, "shall "@)
                || contains(lower, "requires "@)
        }),
    ensures
        exists|k: int|
            0 <= k < legal_claims_spec(t).len() && (#[trigger] legal_claims_spec(t)[k]).kind
                == ClaimKind::RuleStatement && legal_claims_spec(t)[k].text == trim(
                t.subrange(sentence_spans(t)[m].0, sentence_spans(t)[m].1),
            ),
{
    let sp = sentence_spans(t);
    let lower = lowercase(t.subrange(sp[m].0, sp[m].1));
    law_claim_kinds(lower);
    law_legal_claims(t);
    assert(claim_kind_of(lower) is Some);
    let k = choose|k: int|
        0 <= k < legal_claims_spec(t).len() && claim_of_sentence(t, legal_claims_spec(t)[k], #[trigger] sp[m]);
    assert(legal_claims_spec(t)[k].kind == ClaimKind::RuleStatement);
}

} // verus!
