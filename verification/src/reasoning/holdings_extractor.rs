//! Holding extraction from opinion text: the text is stripped of markup,
//! and every sentence around a holding phrase ("We hold that", "we
//! conclude that", "held that", ...) of a reasonable length is kept with
//! the confidence of its phrase.
use vstd::prelude::*;
use crate::text::{
    at_boundary, boundary_index, byte_len, byte_offsets, char_pos, chars_of, lemma_char_pos,
    lemma_char_pos_monotone, lemma_utf8_len_take, matches_at, normalize_spaces, normalize_ws,
    occurs_at, push_all, push_str, slice_chars, string_of, trim, trim_chars, utf8_len,
};
use crate::json::{
    json_array, json_opt_str, json_str, key, opt_view, push_json_lit, push_json_string, push_key,
    push_opt_string, JsonRecord, json_array_of,
};
use crate::artifact::{CaseArtifact, CaseArtifactView};

verus! {

/// How strongly a phrase marks a holding.
#[derive(Debug, Clone, Copy, PartialEq, Eq, Structural)]
pub enum HoldingConfidence {
    /// "We hold that".
    High,
    /// "we conclude", "we affirm", "we reverse", "we vacate".
    Medium,
    /// "the Court holds", "held that", "we find that".
    Low,
}

/// One sentence of an opinion that states a holding.
#[derive(Debug, Clone)]
pub struct ExtractedHolding {
    pub text: String,
    pub trigger: String,
    pub confidence: HoldingConfidence,
}

/// The holdings found in the opinion of one case.
#[derive(Debug, Clone)]
pub struct HoldingNode {
    pub canonical_id: String,
    pub case_name: String,
    pub holdings: Vec<ExtractedHolding>,
    pub opinion_url: Option<String>,
    pub extraction_method: String,
}

/// The serialized name of a holding confidence.
pub open spec fn confidence_name(x: HoldingConfidence) -> Seq<char> {
    match x {
        HoldingConfidence::High => "High"@,
        HoldingConfidence::Medium => "Medium"@,
        HoldingConfidence::Low => "Low"@,
    }
}

impl HoldingConfidence {
    /// Appends the JSON string that names this variant.
    pub fn push_json(&self, out: &mut Vec<char>)
        ensures
            final(out)@ == old(out)@ + json_str(confidence_name(*self)),
    {
        match self {
            HoldingConfidence::High => push_json_lit(out, "High"),
            HoldingConfidence::Medium => push_json_lit(out, "Medium"),
            HoldingConfidence::Low => push_json_lit(out, "Low"),
        }
    }
}

/// The mathematical value of a [`ExtractedHolding`].
pub struct ExtractedHoldingView {
    pub text: Seq<char>,
    pub trigger: Seq<char>,
    pub confidence: HoldingConfidence,
}

impl View for ExtractedHolding {
    type V = ExtractedHoldingView;

    open spec fn view(&self) -> ExtractedHoldingView {
        ExtractedHoldingView {
            text: self.text@,
            trigger: self.trigger@,
            confidence: self.confidence,
        }
    }
}

/// The JSON text of an extracted holding.
pub open spec fn json_extracted_holding(v: ExtractedHoldingView) -> Seq<char> {
    "{"@ + key("text"@) + json_str(v.text)
        + ","@ + key("trigger"@) + json_str(v.trigger)
        + ","@ + key("confidence"@) + json_str(confidence_name(v.confidence))
        + "}"@
}

impl JsonRecord for ExtractedHolding {
    open spec fn json_view(&self) -> Seq<char> {
        json_extracted_holding(self@)
    }

    fn to_json(&self) -> (r: Vec<char>) {
        let mut out = chars_of("{");
        push_key(&mut out, "text");
        push_json_string(&mut out, &self.text);
        push_str(&mut out, ",");
        push_key(&mut out, "trigger");
        push_json_string(&mut out, &self.trigger);
        push_str(&mut out, ",");
        push_key(&mut out, "confidence");
        self.confidence.push_json(&mut out);
        push_str(&mut out, "}");
        out
    }
}

/// The mathematical value of a [`HoldingNode`].
pub struct HoldingNodeView {
    pub canonical_id: Seq<char>,
    pub case_name: Seq<char>,
    pub holdings: Seq<ExtractedHoldingView>,
    pub opinion_url: Option<Seq<char>>,
    pub extraction_method: Seq<char>,
}

impl View for HoldingNode {
    type V = HoldingNodeView;

    open spec fn view(&self) -> HoldingNodeView {
        HoldingNodeView {
            canonical_id: self.canonical_id@,
            case_name: self.case_name@,
            holdings: self.holdings@.map_values(|x: ExtractedHolding| x@),
            opinion_url: opt_view(self.opinion_url),
            extraction_method: self.extraction_method@,
        }
    }
}

/// The JSON text of a holding node.
pub open spec fn json_holding_node(v: HoldingNodeView) -> Seq<char> {
    "{"@ + key("canonical_id"@) + json_str(v.canonical_id)
        + ","@ + key("case_name"@) + json_str(v.case_name)
        + ","@ + key("holdings"@) + json_array(v.holdings.map_values(|x: ExtractedHoldingView| json_extracted_holding(x)))
        + ","@ + key("opinion_url"@) + json_opt_str(v.opinion_url)
        + ","@ + key("extraction_method"@) + json_str(v.extraction_method)
        + "}"@
}

impl JsonRecord for HoldingNode {
    open spec fn json_view(&self) -> Seq<char> {
        json_holding_node(self@)
    }

    fn to_json(&self) -> (r: Vec<char>) {
        let mut out = chars_of("{");
        push_key(&mut out, "canonical_id");
        push_json_string(&mut out, &self.canonical_id);
        push_str(&mut out, ",");
        push_key(&mut out, "case_name");
        push_json_string(&mut out, &self.case_name);
        push_str(&mut out, ",");
        push_key(&mut out, "holdings");
        let j = json_array_of(&self.holdings);
        assert(self.holdings@.map_values(|x: ExtractedHolding| x.json_view()) =~= self@.holdings.map_values(|x: ExtractedHoldingView| json_extracted_holding(x)));
        push_all(&mut out, &j);
        push_str(&mut out, ",");
        push_key(&mut out, "opinion_url");
        push_opt_string(&mut out, &self.opinion_url);
        push_str(&mut out, ",");
        push_key(&mut out, "extraction_method");
        push_json_string(&mut out, &self.extraction_method);
        push_str(&mut out, "}");
        out
    }
}

/// The characters outside markup tags, scanning with the flag `in_tag`:
/// `<` opens a tag, `>` closes one, and neither is kept.
pub open spec fn untagged_from(s: Seq<char>, in_tag: bool) -> Seq<char>
    decreases s.len(),
{
    if s.len() == 0 {
        seq![]
    } else if s[0] == '<' {
        untagged_from(s.drop_first(), true)
    } else if s[0] == '>' {
        untagged_from(s.drop_first(), false)
    } else if in_tag {
        untagged_from(s.drop_first(), true)
    } else {
        seq![s[0]] + untagged_from(s.drop_first(), false)
    }
}

/// The plain text of an opinion: its untagged characters with white space
/// runs collapsed to single spaces and trimmed.
pub open spec fn strip_html_spec(s: Seq<char>) -> Seq<char> {
    normalize_ws(untagged_from(s, false))
}

/// Removes markup tags and normalizes white space.
pub fn strip_html(html: &str) -> (r: String)
    ensures
        r@ == strip_html_spec(html@),
{
    let s = chars_of(html);
    let mut out: Vec<char> = Vec::new();
    let mut in_tag = false;
    assert(s@.skip(0) =~= s@);
    assert(out@ + untagged_from(s@, false) =~= untagged_from(s@, false));
    for i in 0..s.len()
        invariant
            s@ == html@,
            out@ + untagged_from(s@.skip(i as int), in_tag) == untagged_from(s@, false),
    {
        let ghost rest = s@.skip(i as int);
        assert(rest[0] == s@[i as int]);
        assert(rest.drop_first() =~= s@.skip(i + 1));
        let c = s[i];
        if c == '<' {
            in_tag = true;
        } else if c == '>' {
            in_tag = false;
        } else if !in_tag {
            let ghost before = out@;
            out.push(c);
            assert(before + (seq![c] + untagged_from(s@.skip(i + 1), false)) =~= out@
                + untagged_from(s@.skip(i + 1), false));
        }
    }
    assert(s@.skip(s@.len() as int) =~= Seq::<char>::empty());
    assert(out@ + Seq::<char>::empty() =~= out@);
    string_of(&normalize_spaces(&out))
}

/// Whether `c` ends a sentence for the backward search (period or newline).
pub open spec fn is_stop(c: char) -> bool {
    c == '.' || c == '\n'
}

/// Where the sentence around position `pos` starts: just after the last
/// period or newline before `pos`, or at the start of the text.
pub open spec fn sentence_start(t: Seq<char>, pos: int) -> int
    decreases pos,
{
    if pos <= 0 {
        0
    } else if is_stop(t[pos - 1]) {
        pos
    } else {
        sentence_start(t, pos - 1)
    }
}

/// The first period at or after position `pos`.
pub open spec fn next_period(t: Seq<char>, pos: int) -> Option<int>
    decreases t.len() - pos,
{
    if pos >= t.len() {
        None
    } else if t[pos] == '.' {
        Some(pos)
    } else {
        next_period(t, pos + 1)
    }
}

/// The byte offset where a sentence with no closing period ends: 300 bytes
/// past the phrase, or the end of the text.
pub open spec fn fallback_end(t: Seq<char>, pos: int) -> int {
    let b: int = utf8_len(t.take(pos)) as int + 300;
    if utf8_len(t) < b {
        utf8_len(t) as int
    } else {
        b
    }
}

/// Where the sentence around position `pos` ends: just after the next
/// period, else at the fallback offset.
pub open spec fn sentence_end(t: Seq<char>, pos: int) -> int {
    match next_period(t, pos) {
        Some(e) => e + 1,
        None => char_pos(t, fallback_end(t, pos)),
    }
}

/// Whether the sentence around `pos` can be cut out: a period follows, or
/// the fallback offset falls on a character boundary.
pub open spec fn sentence_defined(t: Seq<char>, pos: int) -> bool {
    next_period(t, pos) is Some || at_boundary(t, fallback_end(t, pos))
}

/// The trimmed sentence around position `pos`.
pub open spec fn sentence_at(t: Seq<char>, pos: int) -> Seq<char> {
    trim(t.subrange(sentence_start(t, pos), sentence_end(t, pos)))
}

/// The holding for a phrase found at `pos`, kept when the sentence is
/// longer than 20 bytes and shorter than 800.
pub open spec fn holding_at(
    t: Seq<char>,
    tr: Seq<char>,
    conf: HoldingConfidence,
    pos: int,
) -> Seq<ExtractedHoldingView> {
    let s = sentence_at(t, pos);
    if 20 < utf8_len(s) && utf8_len(s) < 800 {
        seq![ExtractedHoldingView { text: s, trigger: tr, confidence: conf }]
    } else {
        seq![]
    }
}

/// The holdings for phrase `tr` from position `k` on: each occurrence in
/// turn, the search resuming after it, until the text ends.
pub open spec fn scan_holdings(
    t: Seq<char>,
    tr: Seq<char>,
    conf: HoldingConfidence,
    k: int,
) -> Seq<ExtractedHoldingView>
    decreases t.len() - k,
{
    if tr.len() == 0 || k < 0 || k >= t.len() {
        seq![]
    } else if matches_at(t, tr, k) {
        let next = k + tr.len();
        holding_at(t, tr, conf, k) + if next >= t.len() {
            seq![]
        } else {
            scan_holdings(t, tr, conf, next)
        }
    } else {
        scan_holdings(t, tr, conf, k + 1)
    }
}

/// Whether every sentence the scan for phrase `tr` from `k` cuts out is
/// defined.
pub open spec fn scan_defined(t: Seq<char>, tr: Seq<char>, k: int) -> bool
    decreases t.len() - k,
{
    if tr.len() == 0 || k < 0 || k >= t.len() {
        true
    } else if matches_at(t, tr, k) {
        let next = k + tr.len();
        sentence_defined(t, k) && (next >= t.len() || scan_defined(t, tr, next))
    } else {
        scan_defined(t, tr, k + 1)
    }
}

/// The holding phrases, by decreasing confidence, in the order they are
/// searched.
pub open spec fn trigger_table() -> Seq<(Seq<char>, HoldingConfidence)> {
    seq![
        ("We hold that"@, HoldingConfidence::High),
        ("We hold "@, HoldingConfidence::High),
        ("we hold that"@, HoldingConfidence::High),
        ("we hold "@, HoldingConfidence::High),
        ("We conclude that"@, HoldingConfidence::Medium),
        ("we conclude that"@, HoldingConfidence::Medium),
        ("We affirm "@, HoldingConfidence::Medium),
        ("we affirm "@, HoldingConfidence::Medium),
        ("We reverse "@, HoldingConfidence::Medium),
        ("we reverse "@, HoldingConfidence::Medium),
        ("We vacate "@, HoldingConfidence::Medium),
        ("we vacate "@, HoldingConfidence::Medium),
        ("the Court holds"@, HoldingConfidence::Low),
        ("The Court holds"@, HoldingConfidence::Low),
        ("held that"@, HoldingConfidence::Low),
        ("Court held"@, HoldingConfidence::Low),
        ("we find that"@, HoldingConfidence::Low),
        ("We find that"@, HoldingConfidence::Low),
    ]
}

/// The holdings of the first `k` phrases of the table, phrase by phrase.
pub open spec fn table_holdings(t: Seq<char>, k: int) -> Seq<ExtractedHoldingView>
    decreases k,
{
    if k <= 0 {
        seq![]
    } else {
        table_holdings(t, k - 1) + scan_holdings(t, trigger_table()[k - 1].0, trigger_table()[k
            - 1].1, 0)
    }
}

/// Whether every phrase's scan of the plain text of `text` is defined.
pub open spec fn holdings_defined(text: Seq<char>) -> bool {
    forall|k: int|
        0 <= k < trigger_table().len() ==> scan_defined(
            strip_html_spec(text),
            #[trigger] trigger_table()[k].0,
            0,
        )
}

/// Keeps the first of each run of holdings with the same text.
pub open spec fn dedup_runs(s: Seq<ExtractedHoldingView>) -> Seq<ExtractedHoldingView>
    decreases s.len(),
{
    if s.len() == 0 {
        seq![]
    } else {
        let prev = dedup_runs(s.drop_last());
        if prev.len() > 0 && prev.last().text == s.last().text {
            prev
        } else {
            prev.push(s.last())
        }
    }
}

/// The holding node of an artifact and its opinion text.
pub open spec fn holding_node_spec(a: CaseArtifactView, text: Seq<char>) -> HoldingNodeView {
    HoldingNodeView {
        canonical_id: a.canonical_id,
        case_name: a.case_name,
        holdings: dedup_runs(table_holdings(strip_html_spec(text), trigger_table().len() as int)),
        opinion_url: a.absolute_url,
        extraction_method: "pattern_v1"@,
    }
}

/// Views of a vector of holdings.
pub open spec fn holding_views(v: Seq<ExtractedHolding>) -> Seq<ExtractedHoldingView> {
    v.map_values(|h: ExtractedHolding| h@)
}

proof fn lemma_sentence_start_le(t: Seq<char>, pos: int)
    ensures
        pos > 0 ==> 0 <= sentence_start(t, pos) <= pos,
        pos <= 0 ==> sentence_start(t, pos) == 0,
    decreases pos,
{
    if pos > 0 {
        lemma_sentence_start_le(t, pos - 1);
    }
}

proof fn lemma_next_period(t: Seq<char>, pos: int)
    requires
        0 <= pos,
    ensures
        next_period(t, pos) matches Some(e) ==> pos <= e < t.len() && t[e] == '.',
    decreases t.len() - pos,
{
    if pos < t.len() && t[pos] != '.' {
        lemma_next_period(t, pos + 1);
    }
}

/// The start and end positions of the sentence around `pos`.
fn sentence_bounds(t: &Vec<char>, offs: &Vec<usize>, total: usize, pos: usize) -> (r: (
    usize,
    usize,
))
    requires
        pos < t@.len(),
        sentence_defined(t@, pos as int),
        total == utf8_len(t@),
        offs@.len() == t@.len() + 1,
        forall|i: int| 0 <= i <= t@.len() ==> offs@[i] == utf8_len(#[trigger] t@.take(i)),
    ensures
        r.0 == sentence_start(t@, pos as int),
        r.1 == sentence_end(t@, pos as int),
        r.0 <= pos < r.1 <= t@.len() || (r.0 <= pos == r.1 <= t@.len()),
{
    let mut j = pos;
    while j > 0 && !(t[j - 1] == '.' || t[j - 1] == '\n')
        invariant
            j <= pos < t@.len(),
            sentence_defined(t@, pos as int),
            total == utf8_len(t@),
            offs@.len() == t@.len() + 1,
            forall|i: int| 0 <= i <= t@.len() ==> offs@[i] == utf8_len(#[trigger] t@.take(i)),
            sentence_start(t@, pos as int) == sentence_start(t@, j as int),
        decreases j,
    {
        j = j - 1;
    }
    proof {
        lemma_sentence_start_le(t@, j as int);
    }
    let mut e = pos;
    while e < t.len() && t[e] != '.'
        invariant
            pos <= e <= t@.len(),
            pos < t@.len(),
            next_period(t@, pos as int) == next_period(t@, e as int),
            sentence_start(t@, pos as int) == j,
            j <= pos,
            sentence_defined(t@, pos as int),
            total == utf8_len(t@),
            offs@.len() == t@.len() + 1,
            forall|i: int| 0 <= i <= t@.len() ==> offs@[i] == utf8_len(#[trigger] t@.take(i)),
        decreases t@.len() - e,
    {
        e = e + 1;
    }
    if e < t.len() {
        (j, e + 1)
    } else {
        let here = offs[pos];
        proof {
            lemma_utf8_len_take(t@, pos as int);
        }
        let b = if total - here < 300 {
            total
        } else {
            here + 300
        };
        proof {
            lemma_char_pos(t@, pos as int);
            assert(b == fallback_end(t@, pos as int));
            lemma_char_pos_monotone(t@, here as int, b as int);
        }
        match boundary_index(t, offs, b) {
            Some(k) => (j, k),
            None => (j, pos),
        }
    }
}

/// The holding for a phrase occurrence at `pos`, if its sentence has a
/// reasonable length.
fn holding_here(
    t: &Vec<char>,
    offs: &Vec<usize>,
    total: usize,
    trigger: &str,
    conf: HoldingConfidence,
    pos: usize,
) -> (r: Option<ExtractedHolding>)
    requires
        pos < t@.len(),
        sentence_defined(t@, pos as int),
        total == utf8_len(t@),
        offs@.len() == t@.len() + 1,
        forall|i: int| 0 <= i <= t@.len() ==> offs@[i] == utf8_len(#[trigger] t@.take(i)),
    ensures
        match r {
            Some(h) => holding_at(t@, trigger@, conf, pos as int) == seq![h@],
            None => holding_at(t@, trigger@, conf, pos as int) == Seq::<ExtractedHoldingView>::empty(),
        },
{
    let (a, b) = sentence_bounds(t, offs, total, pos);
    let piece = slice_chars(t, a, b);
    let sentence = trim_chars(&piece);
    let s = string_of(&sentence);
    let len = byte_len(s.as_str());
    if 20 < len && len < 800 {
        Some(ExtractedHolding { text: s, trigger: string_of(&chars_of(trigger)), confidence: conf })
    } else {
        None
    }
}

/// Appends the holdings found for one phrase, scanning the text from the
/// start: at each occurrence the surrounding sentence (from after the
/// last period or newline before it to the next period, or 300 bytes on)
/// is trimmed and kept when longer than 20 and shorter than 800 bytes, and
/// the search resumes after the phrase.
pub fn extract_sentences(
    text: &str,
    trigger: &str,
    confidence: HoldingConfidence,
    out: &mut Vec<ExtractedHolding>,
)
    requires
        trigger@.len() > 0,
        scan_defined(text@, trigger@, 0),
    ensures
        holding_views(final(out)@) == holding_views(old(out)@) + scan_holdings(
            text@,
            trigger@,
            confidence,
            0,
        ),
{
    let t = chars_of(text);
    let tr = chars_of(trigger);
    let n = t.len();
    let total = byte_len(text);
    let offs = byte_offsets(&t);
    let ghost start = holding_views(out@);
    let mut k: usize = 0;
    while k < n
        invariant
            t@ == text@,
            tr@ == trigger@,
            tr@.len() > 0,
            n == t@.len(),
            k <= n,
            total == utf8_len(t@),
            offs@.len() == t@.len() + 1,
            forall|i: int| 0 <= i <= t@.len() ==> offs@[i] == utf8_len(#[trigger] t@.take(i)),
            scan_defined(t@, tr@, k as int),
            start + scan_holdings(t@, tr@, confidence, 0) == holding_views(out@) + scan_holdings(
                t@,
                tr@,
                confidence,
                k as int,
            ),
        decreases n - k,
    {
        let ghost before = holding_views(out@);
        if occurs_at(&t, &tr, k) {
            let next = k + tr.len();
            match holding_here(&t, &offs, total, trigger, confidence, k) {
                Some(h) => {
                    out.push(h);
                    assert(holding_views(out@) =~= before + seq![h@]);
                },
                None => {},
            }
            if next >= n {
                assert(scan_holdings(t@, tr@, confidence, n as int) =~= Seq::empty());
                k = n;
            } else {
                k = next;
            }
        } else {
            k = k + 1;
        }
    }
    assert(scan_holdings(t@, tr@, confidence, k as int) =~= Seq::empty());
}

/// Whether every sentence the scan for `trigger` would cut out is defined.
pub fn scan_is_defined(text: &str, trigger: &str) -> (r: bool)
    ensures
        r == scan_defined(text@, trigger@, 0),
{
    let t = chars_of(text);
    let tr = chars_of(trigger);
    let n = t.len();
    if tr.len() == 0 {
        return true;
    }
    let total = byte_len(text);
    let offs = byte_offsets(&t);
    let mut k: usize = 0;
    while k < n
        invariant
            t@ == text@,
            tr@ == trigger@,
            tr@.len() > 0,
            n == t@.len(),
            k <= n,
            total == utf8_len(t@),
            offs@.len() == t@.len() + 1,
            forall|i: int| 0 <= i <= t@.len() ==> offs@[i] == utf8_len(#[trigger] t@.take(i)),
            scan_defined(t@, tr@, 0) == scan_defined(t@, tr@, k as int),
        decreases n - k,
    {
        if occurs_at(&t, &tr, k) {
            let mut e = k;
            while e < n && t[e] != '.'
                invariant
                    k <= e <= n,
                    k < n,
                    n == t@.len(),
                    t@ == text@,
                    tr@ == trigger@,
                    tr@.len() > 0,
                    total == utf8_len(t@),
                    offs@.len() == t@.len() + 1,
                    forall|i: int| 0 <= i <= t@.len() ==> offs@[i] == utf8_len(#[trigger] t@.take(i)),
                    scan_defined(t@, tr@, 0) == scan_defined(t@, tr@, k as int),
                    matches_at(t@, tr@, k as int),
                    next_period(t@, k as int) == next_period(t@, e as int),
                decreases n - e,
            {
                e = e + 1;
            }
            if e >= n {
                let here = offs[k];
                proof {
                    lemma_utf8_len_take(t@, k as int);
                }
                let b = if total - here < 300 {
                    total
                } else {
                    here + 300
                };
                assert(b == fallback_end(t@, k as int));
                if boundary_index(&t, &offs, b).is_none() {
                    return false;
                }
            }
            let next = k + tr.len();
            if next >= n {
                return true;
            }
            k = next;
        } else {
            k = k + 1;
        }
    }
    true
}

/// Every phrase of the table is non-empty.
proof fn lemma_trigger_table()
    ensures
        trigger_table().len() == 18,
        forall|k: int| 0 <= k < 18 ==> (#[trigger] trigger_table()[k]).0.len() > 0,
{
    reveal_strlit("We hold that");
    reveal_strlit("We hold ");
    reveal_strlit("we hold that");
    reveal_strlit("we hold ");
    reveal_strlit("We conclude that");
    reveal_strlit("we conclude that");
    reveal_strlit("We affirm ");
    reveal_strlit("we affirm ");
    reveal_strlit("We reverse ");
    reveal_strlit("we reverse ");
    reveal_strlit("We vacate ");
    reveal_strlit("we vacate ");
    reveal_strlit("the Court holds");
    reveal_strlit("The Court holds");
    reveal_strlit("held that");
    reveal_strlit("Court held");
    reveal_strlit("we find that");
    reveal_strlit("We find that");
    assert("We hold that"@.len() == 12);
    assert("We hold "@.len() == 8);
    assert("we hold that"@.len() == 12);
    assert("we hold "@.len() == 8);
    assert("We conclude that"@.len() == 16);
    assert("we conclude that"@.len() == 16);
    assert("We affirm "@.len() == 10);
    assert("we affirm "@.len() == 10);
    assert("We reverse "@.len() == 11);
    assert("we reverse "@.len() == 11);
    assert("We vacate "@.len() == 10);
    assert("we vacate "@.len() == 10);
    assert("the Court holds"@.len() == 15);
    assert("The Court holds"@.len() == 15);
    assert("held that"@.len() == 9);
    assert("Court held"@.len() == 10);
    assert("we find that"@.len() == 12);
    assert("We find that"@.len() == 12);
    assert("We hold that"@[0] != "we find that"@[0]);
    assert("We hold that"@[3] != "We find that"@[3]);
    assert("we hold that"@[3] != "we find that"@[3]);
    assert("we hold that"@[0] != "We find that"@[0]);
    assert("We affirm "@[0] != "Court held"@[0]);
    assert("we affirm "@[0] != "Court held"@[0]);
    assert("We vacate "@[0] != "Court held"@[0]);
    assert("we vacate "@[0] != "Court held"@[0]);
}

/// The phrase and confidence of row `k` of the table.
fn trigger_row(k: usize) -> (r: (&'static str, HoldingConfidence))
    requires
        k < 18,
    ensures
        r.0@ == trigger_table()[k as int].0,
        r.1 == trigger_table()[k as int].1,
{
    if k == 0 {
        ("We hold that", HoldingConfidence::High)
    } else if k == 1 {
        ("We hold ", HoldingConfidence::High)
    } else if k == 2 {
        ("we hold that", HoldingConfidence::High)
    } else if k == 3 {
        ("we hold ", HoldingConfidence::High)
    } else if k == 4 {
        ("We conclude that", HoldingConfidence::Medium)
    } else if k == 5 {
        ("we conclude that", HoldingConfidence::Medium)
    } else if k == 6 {
        ("We affirm ", HoldingConfidence::Medium)
    } else if k == 7 {
        ("we affirm ", HoldingConfidence::Medium)
    } else if k == 8 {
        ("We reverse ", HoldingConfidence::Medium)
    } else if k == 9 {
        ("we reverse ", HoldingConfidence::Medium)
    } else if k == 10 {
        ("We vacate ", HoldingConfidence::Medium)
    } else if k == 11 {
        ("we vacate ", HoldingConfidence::Medium)
    } else if k == 12 {
        ("the Court holds", HoldingConfidence::Low)
    } else if k == 13 {
        ("The Court holds", HoldingConfidence::Low)
    } else if k == 14 {
        ("held that", HoldingConfidence::Low)
    } else if k == 15 {
        ("Court held", HoldingConfidence::Low)
    } else if k == 16 {
        ("we find that", HoldingConfidence::Low)
    } else {
        ("We find that", HoldingConfidence::Low)
    }
}

/// Whether holdings can be extracted from an opinion text: every sentence
/// that a phrase search would cut out falls on character boundaries.
pub fn holdings_extraction_defined(opinion_text: &str) -> (r: bool)
    ensures
        r == holdings_defined(opinion_text@),
{
    let plain = strip_html(opinion_text);
    proof {
        lemma_trigger_table();
    }
    for k in 0..18
        invariant
            plain@ == strip_html_spec(opinion_text@),
            trigger_table().len() == 18,
            forall|j: int|
                0 <= j < k ==> scan_defined(plain@, #[trigger] trigger_table()[j].0, 0),
    {
        let (tr, _) = trigger_row(k);
        if !scan_is_defined(plain.as_str(), tr) {
            return false;
        }
    }
    true
}

/// Keeps the first of each run of holdings with the same text.
fn dedup_holdings(v: Vec<ExtractedHolding>) -> (r: Vec<ExtractedHolding>)
    ensures
        holding_views(r@) == dedup_runs(holding_views(v@)),
{
    let ghost hv = holding_views(v@);
    let mut out: Vec<ExtractedHolding> = Vec::new();
    for i in 0..v.len()
        invariant
            hv == holding_views(v@),
            holding_views(out@) == dedup_runs(hv.take(i as int)),
    {
        assert(hv.take(i + 1).drop_last() =~= hv.take(i as int));
        assert(hv.take(i + 1).last() == v@[i as int]@);
        let ghost before = out@;
        let keep = if out.len() > 0 {
            assert(holding_views(out@).last() == out@[out@.len() - 1]@);
            out[out.len() - 1].text != v[i].text
        } else {
            true
        };
        if keep {
            let h = ExtractedHolding {
                text: v[i].text.clone(),
                trigger: v[i].trigger.clone(),
                confidence: v[i].confidence,
            };
            out.push(h);
            assert(holding_views(out@) =~= holding_views(before).push(h@));
        }
    }
    assert(hv.take(v@.len() as int) =~= hv);
    out
}

/// Extracts the holdings of an opinion: the opinion is stripped of markup,
/// every phrase of the table is searched in turn, and of consecutive
/// holdings with the same text only the first is kept.
pub fn extract_holdings_from_text(artifact: &CaseArtifact, opinion_text: &str) -> (r: HoldingNode)
    requires
        holdings_defined(opinion_text@),
    ensures
        r@ == holding_node_spec(artifact@, opinion_text@),
{
    let plain = strip_html(opinion_text);
    let mut holdings: Vec<ExtractedHolding> = Vec::new();
    proof {
        lemma_trigger_table();
    }
    for k in 0..18
        invariant
            plain@ == strip_html_spec(opinion_text@),
            holdings_defined(opinion_text@),
            trigger_table().len() == 18,
            forall|j: int| 0 <= j < 18 ==> (#[trigger] trigger_table()[j]).0.len() > 0,
            holding_views(holdings@) == table_holdings(plain@, k as int),
    {
        let (tr, conf) = trigger_row(k);
        assert(scan_defined(plain@, trigger_table()[k as int].0, 0));
        extract_sentences(plain.as_str(), tr, conf, &mut holdings);
    }
    let deduped = dedup_holdings(holdings);
    let node = HoldingNode {
        canonical_id: artifact.canonical_id.clone(),
        case_name: artifact.case_name.clone(),
        holdings: deduped,
        opinion_url: crate::json::copy_opt_string(&artifact.absolute_url),
        extraction_method: string_of(&chars_of("pattern_v1")),
    };
    assert(node@.holdings =~= holding_views(deduped@));
    node
}


/// The phrases that announce a holding outright.
pub open spec fn high_phrase(tr: Seq<char>) -> bool {
    tr == "We hold that"@ || tr == "We hold "@ || tr == "we hold that"@ || tr == "we hold "@
}

/// The phrases that announce a conclusion or a disposition.
pub open spec fn medium_phrase(tr: Seq<char>) -> bool {
    tr == "We conclude that"@ || tr == "we conclude that"@ || tr == "We affirm "@ || tr == "we affirm "@
        || tr == "We reverse "@ || tr == "we reverse "@ || tr == "We vacate "@ || tr == "we vacate "@
}

/// The phrases that report a holding or a finding.
pub open spec fn low_phrase(tr: Seq<char>) -> bool {
    tr == "the Court holds"@ || tr == "The Court holds"@ || tr == "held that"@ || tr == "Court held"@
        || tr == "we find that"@ || tr == "We find that"@
}

/// Whether a phrase and a confidence go together.
pub open spec fn phrase_fits(tr: Seq<char>, conf: HoldingConfidence) -> bool {
    ||| high_phrase(tr) && conf == HoldingConfidence::High
    ||| medium_phrase(tr) && conf == HoldingConfidence::Medium
    ||| low_phrase(tr) && conf == HoldingConfidence::Low
}

/// Whether a holding's phrase and confidence go together.
pub open spec fn confidence_fits(h: ExtractedHoldingView) -> bool {
    phrase_fits(h.trigger, h.confidence)
}

proof fn lemma_scan_fits(t: Seq<char>, tr: Seq<char>, conf: HoldingConfidence, k: int)
    requires
        phrase_fits(tr, conf),
    ensures
        forall|i: int| 0 <= i < scan_holdings(t, tr, conf, k).len() ==> confidence_fits(
            #[trigger] scan_holdings(t, tr, conf, k)[i],
        ),
    decreases t.len() - k,
{
    if tr.len() == 0 || k < 0 || k >= t.len() {
        assert(scan_holdings(t, tr, conf, k).len() == 0);
    } else if matches_at(t, tr, k) {
        let next = k + tr.len();
        let h = holding_at(t, tr, conf, k);
        if next < t.len() {
            lemma_scan_fits(t, tr, conf, next);
        }
        let rest = if next >= t.len() {
            Seq::<ExtractedHoldingView>::empty()
        } else {
            scan_holdings(t, tr, conf, next)
        };
        assert(scan_holdings(t, tr, conf, k) == h + rest);
        assert forall|i: int| 0 <= i < scan_holdings(t, tr, conf, k).len() implies confidence_fits(
            #[trigger] scan_holdings(t, tr, conf, k)[i],
        ) by {
            if i < h.len() {
                assert(scan_holdings(t, tr, conf, k)[i] == h[i]);
                assert(h[i].trigger == tr && h[i].confidence == conf);
            } else {
                assert(scan_holdings(t, tr, conf, k)[i] == rest[i - h.len()]);
            }
        }
    } else {
        lemma_scan_fits(t, tr, conf, k + 1);
        assert(scan_holdings(t, tr, conf, k) == scan_holdings(t, tr, conf, k + 1));
    }
}

proof fn lemma_table_fits(t: Seq<char>, k: int)
    requires
        k <= trigger_table().len(),
    ensures
        forall|i: int| 0 <= i < table_holdings(t, k).len() ==> confidence_fits(#[trigger] table_holdings(t, k)[i]),
    decreases k,
{
    if k > 0 {
        lemma_table_fits(t, k - 1);
        let row = trigger_table()[k - 1];
        assert(phrase_fits(row.0, row.1)) by {
            let tab = trigger_table();
            assert(tab[0] == ("We hold that"@, HoldingConfidence::High));
            assert(tab[1] == ("We hold "@, HoldingConfidence::High));
            assert(tab[2] == ("we hold that"@, HoldingConfidence::High));
            assert(tab[3] == ("we hold "@, HoldingConfidence::High));
            assert(tab[4] == ("We conclude that"@, HoldingConfidence::Medium));
            assert(tab[5] == ("we conclude that"@, HoldingConfidence::Medium));
            assert(tab[6] == ("We affirm "@, HoldingConfidence::Medium));
            assert(tab[7] == ("we affirm "@, HoldingConfidence::Medium));
            assert(tab[8] == ("We reverse "@, HoldingConfidence::Medium));
            assert(tab[9] == ("we reverse "@, HoldingConfidence::Medium));
            assert(tab[10] == ("We vacate "@, HoldingConfidence::Medium));
            assert(tab[11] == ("we vacate "@, HoldingConfidence::Medium));
            assert(tab[12] == ("the Court holds"@, HoldingConfidence::Low));
            assert(tab[13] == ("The Court holds"@, HoldingConfidence::Low));
            assert(tab[14] == ("held that"@, HoldingConfidence::Low));
            assert(tab[15] == ("Court held"@, HoldingConfidence::Low));
            assert(tab[16] == ("we find that"@, HoldingConfidence::Low));
            assert(tab[17] == ("We find that"@, HoldingConfidence::Low));
        }
        lemma_scan_fits(t, row.0, row.1, 0);
        let prev = table_holdings(t, k - 1);
        let more = scan_holdings(t, row.0, row.1, 0);
        assert(table_holdings(t, k) == prev + more);
        assert forall|i: int| 0 <= i < table_holdings(t, k).len() implies confidence_fits(
            #[trigger] table_holdings(t, k)[i],
        ) by {
            if i < prev.len() {
                assert(table_holdings(t, k)[i] == prev[i]);
            } else {
                assert(table_holdings(t, k)[i] == more[i - prev.len()]);
            }
        }
    }
}

proof fn lemma_dedup_runs_fits(s: Seq<ExtractedHoldingView>)
    requires
        forall|i: int| 0 <= i < s.len() ==> confidence_fits(#[trigger] s[i]),
    ensures
        forall|i: int| 0 <= i < dedup_runs(s).len() ==> confidence_fits(#[trigger] dedup_runs(s)[i]),
    decreases s.len(),
{
    if s.len() > 0 {
        let d = s.drop_last();
        assert forall|i: int| 0 <= i < d.len() implies confidence_fits(#[trigger] d[i]) by {
            assert(d[i] == s[i]);
        }
        lemma_dedup_runs_fits(d);
        let prev = dedup_runs(d);
        assert(confidence_fits(s[s.len() - 1]));
        assert forall|i: int| 0 <= i < dedup_runs(s).len() implies confidence_fits(#[trigger] dedup_runs(s)[i]) by {
            if i < prev.len() {
                assert(dedup_runs(s)[i] == prev[i]);
            } else {
                assert(dedup_runs(s)[i] == s.last());
            }
        }
    }
}

/// No phrase belongs to two groups: the phrases differ in length or in a
/// character.
proof fn lemma_phrase_groups(tr: Seq<char>)
    ensures
        high_phrase(tr) ==> !medium_phrase(tr) && !low_phrase(tr),
        medium_phrase(tr) ==> !low_phrase(tr),
{
    reveal_strlit("We hold that");
    reveal_strlit("We hold ");
    reveal_strlit("we hold that");
    reveal_strlit("we hold ");
    reveal_strlit("We conclude that");
    reveal_strlit("we conclude that");
    reveal_strlit("We affirm ");
    reveal_strlit("we affirm ");
    reveal_strlit("We reverse ");
    reveal_strlit("we reverse ");
    reveal_strlit("We vacate ");
    reveal_strlit("we vacate ");
    reveal_strlit("the Court holds");
    reveal_strlit("The Court holds");
    reveal_strlit("held that");
    reveal_strlit("Court held");
    reveal_strlit("we find that");
    reveal_strlit("We find that");
    assert("We hold that"@.len() == 12);
    assert("We hold "@.len() == 8);
    assert("we hold that"@.len() == 12);
    assert("we hold "@.len() == 8);
    assert("We conclude that"@.len() == 16);
    assert("we conclude that"@.len() == 16);
    assert("We affirm "@.len() == 10);
    assert("we affirm "@.len() == 10);
    assert("We reverse "@.len() == 11);
    assert("we reverse "@.len() == 11);
    assert("We vacate "@.len() == 10);
    assert("we vacate "@.len() == 10);
    assert("the Court holds"@.len() == 15);
    assert("The Court holds"@.len() == 15);
    assert("held that"@.len() == 9);
    assert("Court held"@.len() == 10);
    assert("we find that"@.len() == 12);
    assert("We find that"@.len() == 12);
    assert("We hold that"@[0] != "we find that"@[0]);
    assert("We hold that"@[3] != "We find that"@[3]);
    assert("we hold that"@[3] != "we find that"@[3]);
    assert("we hold that"@[0] != "We find that"@[0]);
    assert("We affirm "@[0] != "Court held"@[0]);
    assert("we affirm "@[0] != "Court held"@[0]);
    assert("We vacate "@[0] != "Court held"@[0]);
    assert("we vacate "@[0] != "Court held"@[0]);
}

/// A holding's confidence follows the phrase that announced it: "We hold
/// that", "We hold " and their lower-case forms give high confidence; "We
/// conclude that", "We affirm ", "We reverse ", "We vacate " and their
/// lower-case forms give medium confidence; "the Court holds", "The Court
/// holds", "held that", "Court held", "we find that" and "We find that"
/// give low confidence. Every holding was announced by one of these.
pub proof fn law_holding_confidence(a: CaseArtifactView, text: Seq<char>)
    ensures
        forall|k: int|
            0 <= k < holding_node_spec(a, text).holdings.len() ==> {
                let h = #[trigger] holding_node_spec(a, text).holdings[k];
                &&& high_phrase(h.trigger) ==> h.confidence == HoldingConfidence::High
                &&& medium_phrase(h.trigger) ==> h.confidence == HoldingConfidence::Medium
                &&& low_phrase(h.trigger) ==> h.confidence == HoldingConfidence::Low
                &&& high_phrase(h.trigger) || medium_phrase(h.trigger) || low_phrase(h.trigger)
            },
{
    let t = strip_html_spec(text);
    let hs = holding_node_spec(a, text).holdings;
    lemma_table_fits(t, trigger_table().len() as int);
    lemma_dedup_runs_fits(table_holdings(t, trigger_table().len() as int));
    assert forall|k: int| 0 <= k < hs.len() implies {
        let h = #[trigger] hs[k];
        &&& high_phrase(h.trigger) ==> h.confidence == HoldingConfidence::High
        &&& medium_phrase(h.trigger) ==> h.confidence == HoldingConfidence::Medium
        &&& low_phrase(h.trigger) ==> h.confidence == HoldingConfidence::Low
        &&& high_phrase(h.trigger) || medium_phrase(h.trigger) || low_phrase(h.trigger)
    } by {
        assert(confidence_fits(hs[k]));
        lemma_phrase_groups(hs[k].trigger);
    }
}

} // verus!
