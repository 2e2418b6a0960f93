//! Citation extraction: reporter citations (`576 U.S. 644`) are found in
//! the text with a regular expression; each becomes a claim with its byte
//! offsets, the text around it, the nearest quotation and an identifier
//! committing to its position and text.
use vstd::prelude::*;
use crate::text::{
    at_boundary, boundary_index, byte_len, byte_offsets, byte_slice, byte_slice_of, chars_of,
    chars_of_string, lemma_char_pos_monotone, normalize_spaces, normalize_ws, push_all, push_str,
    string_of, trim, trim_chars, utf8_len,
};
use crate::json::{decimal, opt_view, push_decimal};
use crate::digest::{digest_of, sha256_text};
use crate::models::{CitationClaim, CitationClaimView};
use crate::verify::claim_views;
use crate::CiteError;

verus! {

/// The compiled pattern type of the `regex` crate.
#[verifier::external_type_specification]
#[verifier::external_body]
pub struct ExRegex(regex::Regex);

/// The error the `regex` crate reports for a pattern it cannot compile.
#[verifier::external_type_specification]
#[verifier::external_body]
pub struct ExRegexError(regex::Error);

/// A regular expression together with the pattern it was compiled from.
pub struct CompiledPattern {
    source: String,
    re: regex::Regex,
}

impl CompiledPattern {
    /// The pattern this expression was compiled from.
    pub closed spec fn pattern(&self) -> Seq<char> {
        self.source@
    }
}

/// Whether the `regex` crate compiles a pattern (its syntax is valid and
/// the compiled program stays within the default size limit); this depends
/// on the pattern alone.
pub uninterp spec fn regex_compiles(pattern: Seq<char>) -> bool;

/// The byte spans (start, end) of the successive non-overlapping matches
/// that the `regex` crate finds for a pattern in a text.
pub uninterp spec fn regex_matches(pattern: Seq<char>, text: Seq<char>) -> Seq<(int, int)>;

/// The byte span of capture group 1 in the first match that the `regex`
/// crate finds for a pattern in a text; `None` when there is no match or
/// the group took no part in it.
pub uninterp spec fn regex_first_group(pattern: Seq<char>, text: Seq<char>) -> Option<(int, int)>;

/// Integer views of byte spans.
pub open spec fn span_views(v: Seq<(usize, usize)>) -> Seq<(int, int)> {
    v.map_values(|p: (usize, usize)| (p.0 as int, p.1 as int))
}

/// Integer view of an optional byte span.
pub open spec fn opt_span(o: Option<(usize, usize)>) -> Option<(int, int)> {
    match o {
        Some(p) => Some((p.0 as int, p.1 as int)),
        None => None,
    }
}

/// Compiles a pattern.
///
/// Trusted: calls `regex::Regex::new`. Claims that compilation succeeds
/// exactly when [`regex_compiles`] holds of the pattern, and that the
/// compiled expression records the pattern it came from.
#[verifier::external_body]
fn compile(pattern: &str) -> (r: Result<CompiledPattern, regex::Error>)
    ensures
        r is Ok <==> regex_compiles(pattern@),
        r matches Ok(p) ==> p.pattern() == pattern@,
{
    match regex::Regex::new(pattern) {
        Ok(re) => Ok(CompiledPattern { source: pattern.to_string(), re }),
        Err(e) => Err(e),
    }
}

/// The message of a compilation error.
///
/// Trusted: calls `Display::to_string` on `regex::Error`; nothing is
/// claimed of the text.
#[verifier::external_body]
fn regex_error_message(e: &regex::Error) -> String {
    e.to_string()
}

/// The byte spans of all matches in a text.
///
/// Trusted: calls `regex::Regex::find_iter` and reads `Match::start` and
/// `Match::end` of each match. Claims the spans are [`regex_matches`] of
/// the pattern and the text, and, as the crate documents for every match,
/// that each starts no later than it ends and that both ends fall on
/// character boundaries of the text.
#[verifier::external_body]
fn find_spans(p: &CompiledPattern, text: &str) -> (r: Vec<(usize, usize)>)
    ensures
        span_views(r@) == regex_matches(p.pattern(), text@),
        forall|i: int|
            0 <= i < r@.len() ==> (#[trigger] r@[i]).0 <= r@[i].1 && at_boundary(
                text@,
                r@[i].0 as int,
            ) && at_boundary(text@, r@[i].1 as int),
{
    p.re.find_iter(text).map(|m| (m.start(), m.end())).collect()
}

/// The byte span of capture group 1 of the first match in a text.
///
/// Trusted: calls `regex::Regex::captures` and `Captures::get(1)`. Claims
/// the span is [`regex_first_group`] of the pattern and the text, and, as
/// the crate documents for every match, that it starts no later than it
/// ends and that both ends fall on character boundaries of the text.
#[verifier::external_body]
fn first_group(p: &CompiledPattern, text: &str) -> (r: Option<(usize, usize)>)
    ensures
        opt_span(r) == regex_first_group(p.pattern(), text@),
        r matches Some(g) ==> g.0 <= g.1 && at_boundary(text@, g.0 as int) && at_boundary(
            text@,
            g.1 as int,
        ),
{
    match p.re.captures(text) {
        Some(c) => c.get(1).map(|m| (m.start(), m.end())),
        None => None,
    }
}

/// The reporter citation pattern: a volume of up to four digits, a
/// reporter abbreviation, and a page of up to five digits.
pub open spec fn citation_pattern() -> Seq<char> {
    r"(?x)\b(?P<vol>\d{1,4})\s+(?P<rep>(?:[A-Z][A-Za-z.]*|B\.R\.|F\.\s?Supp\.?\s?\d?d?|F\.\s?\d?d?|U\.S\.|S\.\s?Ct\.|L\.\s?Ed\.\s?\d?d?)(?:\s?[A-Za-z.]+)*)\s+(?P<page>\d{1,5})\b"@
}

/// The quotation pattern: 8 to 240 characters between straight or curly
/// double quotes.
pub open spec fn quote_pattern() -> Seq<char> {
    r#"[“\"]([^”\"]{8,240})[”\"]"#@
}

/// The text between byte offsets `a` and `b` when that range lies on
/// character boundaries of the text, else the empty text (`str::get`).
pub open spec fn safe_window_spec(t: Seq<char>, a: int, b: int) -> Seq<char> {
    if a <= b && at_boundary(t, a) && at_boundary(t, b) {
        byte_slice(t, a, b)
    } else {
        seq![]
    }
}

/// The first quotation in the text around a citation, trimmed; none when
/// there is none or the quotation pattern does not compile.
pub open spec fn nearest_quote_spec(before: Seq<char>, after: Seq<char>) -> Option<Seq<char>> {
    let joined = before + after;
    if regex_compiles(quote_pattern()) {
        match regex_first_group(quote_pattern(), joined) {
            Some(g) => Some(trim(byte_slice(joined, g.0, g.1))),
            None => None,
        }
    } else {
        None
    }
}

/// The claim for a match spanning bytes `s..e` of text `t`: the trimmed
/// match, 160 bytes of context on each side (empty when the window does not
/// fall on character boundaries), the nearest quotation, and an identifier
/// committing to `start:end:raw`.
pub open spec fn claim_at(t: Seq<char>, s: int, e: int) -> CitationClaimView {
    let raw = trim(byte_slice(t, s, e));
    let before = safe_window_spec(t, if s >= 160 { s - 160 } else { 0 }, s);
    let after = safe_window_spec(t, e, if utf8_len(t) < e + 160 { utf8_len(t) as int } else { e + 160 });
    CitationClaimView {
        claim_id: digest_of(decimal(s as nat) + ":"@ + decimal(e as nat) + ":"@ + raw),
        raw: raw,
        normalized_guess: normalize_ws(raw),
        start_index: s as nat,
        end_index: e as nat,
        context_before: before,
        context_after: after,
        quoted_text: nearest_quote_spec(before, after),
    }
}

/// Whether a claim with the same offsets and raw text as `c` occurs in `s`.
pub open spec fn has_claim_key(s: Seq<CitationClaimView>, c: CitationClaimView) -> bool {
    exists|i: int|
        0 <= i < s.len() && (#[trigger] s[i]).start_index == c.start_index && s[i].end_index
            == c.end_index && s[i].raw == c.raw
}

/// The first claim of each (start, end, raw text), in order.
pub open spec fn dedup_claims_spec(s: Seq<CitationClaimView>) -> Seq<CitationClaimView>
    decreases s.len(),
{
    if s.len() == 0 {
        seq![]
    } else {
        let prev = dedup_claims_spec(s.drop_last());
        if has_claim_key(s.drop_last(), s.last()) {
            prev
        } else {
            prev.push(s.last())
        }
    }
}

/// The citation claims of a text: one per match of the citation pattern,
/// in order, the first of each (start, end, raw text) kept.
pub open spec fn extract_spec(t: Seq<char>) -> Seq<CitationClaimView> {
    claims_of_spans_spec(t, regex_matches(citation_pattern(), t))
}

/// The claims of the byte spans of citations in a text: one per span, in
/// order, without repeated claims.
pub open spec fn claims_of_spans_spec(t: Seq<char>, spans: Seq<(int, int)>) -> Seq<CitationClaimView> {
    dedup_claims_spec(Seq::new(spans.len(), |i: int| claim_at(t, spans[i].0, spans[i].1)))
}

/// Whether every span starts no later than it ends and both its ends fall
/// on character boundaries of the text.
pub open spec fn spans_in_text(t: Seq<char>, spans: Seq<(usize, usize)>) -> bool {
    forall|k: int|
        0 <= k < spans.len() ==> (#[trigger] spans[k]).0 <= spans[k].1 && at_boundary(
            t,
            spans[k].0 as int,
        ) && at_boundary(t, spans[k].1 as int)
}

/// The text between two byte offsets when they are boundaries in order,
/// else the empty text.
fn window(t: &Vec<char>, offs: &Vec<usize>, a: usize, b: usize) -> (r: Vec<char>)
    requires
        offs@.len() == t@.len() + 1,
        forall|i: int| 0 <= i <= t@.len() ==> offs@[i] == utf8_len(#[trigger] t@.take(i)),
    ensures
        r@ == safe_window_spec(t@, a as int, b as int),
{
    if a > b {
        return Vec::new();
    }
    match (boundary_index(t, offs, a), boundary_index(t, offs, b)) {
        (Some(_), Some(_)) => byte_slice_of(t, offs, a, b),
        _ => Vec::new(),
    }
}

/// The text between byte offsets `start` and `end`, or the empty text when
/// that range is out of order or not on character boundaries.
pub fn safe_window(text: &str, start: usize, end: usize) -> (r: String)
    ensures
        r@ == safe_window_spec(text@, start as int, end as int),
{
    let t = chars_of(text);
    let n = byte_len(text);
    let offs = byte_offsets(&t);
    string_of(&window(&t, &offs, start, end))
}

/// The first quotation (8 to 240 characters in double quotes) in the
/// context around a citation, trimmed.
pub fn nearest_quote(before: &str, after: &str) -> (r: Option<String>)
    ensures
        opt_view(r) == nearest_quote_spec(before@, after@),
{
    let mut j = chars_of(before);
    push_all(&mut j, &chars_of(after));
    let joined = string_of(&j);
    match compile(r#"[“\"]([^”\"]{8,240})[”\"]"#) {
        Ok(q) => match first_group(&q, joined.as_str()) {
            Some(g) => {
                let jt = chars_of(joined.as_str());
                let n = byte_len(joined.as_str());
                let offs = byte_offsets(&jt);
                let inner = byte_slice_of(&jt, &offs, g.0, g.1);
                Some(string_of(&trim_chars(&inner)))
            },
            None => None,
        },
        Err(_) => None,
    }
}

/// The claim for the match spanning bytes `s..e`.
fn claim_for_span(text: &str, t: &Vec<char>, offs: &Vec<usize>, total: usize, s: usize, e: usize) -> (r:
    CitationClaim)
    requires
        t@ == text@,
        total == utf8_len(t@),
        offs@.len() == t@.len() + 1,
        forall|i: int| 0 <= i <= t@.len() ==> offs@[i] == utf8_len(#[trigger] t@.take(i)),
        s <= e,
        at_boundary(t@, s as int),
        at_boundary(t@, e as int),
    ensures
        r@ == claim_at(t@, s as int, e as int),
{
    proof {
        lemma_char_pos_monotone(t@, s as int, e as int);
    }
    let piece = byte_slice_of(t, offs, s, e);
    let raw = trim_chars(&piece);
    let a = if s >= 160 {
        s - 160
    } else {
        0
    };
    let before = window(t, offs, a, s);
    let b = if total - e < 160 {
        total
    } else {
        e + 160
    };
    let after = window(t, offs, e, b);
    let before_s = string_of(&before);
    let after_s = string_of(&after);
    let quoted = nearest_quote(before_s.as_str(), after_s.as_str());
    let mut material: Vec<char> = Vec::new();
    push_decimal(&mut material, s as u64);
    push_str(&mut material, ":");
    push_decimal(&mut material, e as u64);
    push_str(&mut material, ":");
    push_all(&mut material, &raw);
    CitationClaim {
        claim_id: sha256_text(&material),
        raw: string_of(&raw),
        normalized_guess: string_of(&normalize_spaces(&raw)),
        start_index: s,
        end_index: e,
        context_before: before_s,
        context_after: after_s,
        quoted_text: quoted,
    }
}

proof fn lemma_has_claim_key_take(s: Seq<CitationClaimView>, j: int, c: CitationClaimView)
    requires
        0 <= j < s.len(),
    ensures
        has_claim_key(s.take(j + 1), c) == (has_claim_key(s.take(j), c) || (s[j].start_index
            == c.start_index && s[j].end_index == c.end_index && s[j].raw == c.raw)),
{
    if has_claim_key(s.take(j), c) {
        let w = choose|w: int|
            0 <= w < j && (#[trigger] s.take(j)[w]).start_index == c.start_index && s.take(
                j,
            )[w].end_index == c.end_index && s.take(j)[w].raw == c.raw;
        assert(s.take(j + 1)[w] == s.take(j)[w]);
    }
    if s[j].start_index == c.start_index && s[j].end_index == c.end_index && s[j].raw == c.raw {
        assert(s.take(j + 1)[j] == s[j]);
    }
    if has_claim_key(s.take(j + 1), c) {
        let w = choose|w: int|
            0 <= w < j + 1 && (#[trigger] s.take(j + 1)[w]).start_index == c.start_index
                && s.take(j + 1)[w].end_index == c.end_index && s.take(j + 1)[w].raw == c.raw;
        if w < j {
            assert(s.take(j)[w] == s.take(j + 1)[w]);
        }
    }
}

/// Keeps the first claim of each (start, end, raw text), in order.
pub fn dedup_claims(claims: Vec<CitationClaim>) -> (r: Vec<CitationClaim>)
    ensures
        claim_views(r@) == dedup_claims_spec(claim_views(claims@)),
{
    let ghost cv = claim_views(claims@);
    let n = claims.len();
    let mut out: Vec<CitationClaim> = Vec::new();
    for i in 0..n
        invariant
            n == cv.len(),
            cv == claim_views(claims@),
            claim_views(out@) == dedup_claims_spec(cv.take(i as int)),
    {
        let mut seen = false;
        for j in 0..i
            invariant
                i < n,
                n == cv.len(),
                cv == claim_views(claims@),
                seen == has_claim_key(cv.take(j as int), cv[i as int]),
        {
            proof {
                lemma_has_claim_key_take(cv, j as int, cv[i as int]);
            }
            if claims[j].start_index == claims[i].start_index && claims[j].end_index
                == claims[i].end_index && claims[j].raw == claims[i].raw {
                seen = true;
            }
        }
        let ghost before = out@;
        proof {
            assert(cv.take(i + 1).drop_last() =~= cv.take(i as int));
            assert(cv.take(i + 1).last() == cv[i as int]);
        }
        if !seen {
            let c = claims[i].duplicate();
            out.push(c);
            assert(claim_views(out@) =~= claim_views(before).push(cv[i as int]));
        }
    }
    assert(cv.take(n as int) =~= cv);
    out
}

/// Extracts the reporter citations of a text, in order, as claims. Fails
/// only when the citation pattern does not compile.
pub fn extract_citations(text: &str) -> (r: Result<Vec<CitationClaim>, CiteError>)
    ensures
        r is Ok <==> regex_compiles(citation_pattern()),
        r matches Ok(v) ==> claim_views(v@) == extract_spec(text@),
        r matches Err(e) ==> e is Pattern,
{
    let re = match compile(
        r"(?x)\b(?P<vol>\d{1,4})\s+(?P<rep>(?:[A-Z][A-Za-z.]*|B\.R\.|F\.\s?Supp\.?\s?\d?d?|F\.\s?\d?d?|U\.S\.|S\.\s?Ct\.|L\.\s?Ed\.\s?\d?d?)(?:\s?[A-Za-z.]+)*)\s+(?P<page>\d{1,5})\b",
    ) {
        Ok(p) => p,
        Err(e) => {
            return Err(CiteError::Pattern(regex_error_message(&e)));
        },
    };
    let spans = find_spans(&re, text);
    Ok(claims_from_spans(text, &spans))
}

/// The claims of the byte spans of citations in a text: for each span, in
/// order, the trimmed citation, its context windows, the quotation near it
/// and its identifier; repeated claims are dropped.
pub fn claims_from_spans(text: &str, spans: &Vec<(usize, usize)>) -> (r: Vec<CitationClaim>)
    requires
        spans_in_text(text@, spans@),
    ensures
        claim_views(r@) == claims_of_spans_spec(text@, span_views(spans@)),
{
    let t = chars_of(text);
    let total = byte_len(text);
    let offs = byte_offsets(&t);
    let ghost sp = span_views(spans@);
    let ghost all = Seq::new(sp.len(), |i: int| claim_at(text@, sp[i].0, sp[i].1));
    let mut claims: Vec<CitationClaim> = Vec::new();
    for i in 0..spans.len()
        invariant
            t@ == text@,
            total == utf8_len(t@),
            offs@.len() == t@.len() + 1,
            forall|k: int| 0 <= k <= t@.len() ==> offs@[k] == utf8_len(#[trigger] t@.take(k)),
            span_views(spans@) == sp,
            all == Seq::new(sp.len(), |k: int| claim_at(text@, sp[k].0, sp[k].1)),
            spans_in_text(text@, spans@),
            claim_views(claims@) == all.take(i as int),
    {
        let (s, e) = spans[i];
        assert(spans@[i as int].0 <= spans@[i as int].1);
        let c = claim_for_span(text, &t, &offs, total, s, e);
        let ghost before = claims@;
        claims.push(c);
        assert(claim_views(claims@) =~= claim_views(before).push(c@));
        assert(all.take(i + 1) =~= all.take(i as int).push(all[i as int]));
    }
    assert(all.take(spans@.len() as int) =~= all);
    dedup_claims(claims)
}

} // verus!
