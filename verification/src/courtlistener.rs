//! Citation lookup sources. The offline fixture holds one lookup record per
//! raw citation, ordered by the citation text, and answers a query with the
//! records whose citation occurs in the query text.
use vstd::prelude::*;
use crate::text::{chars_eq, chars_of, chars_of_string, contains, contains_chars, push_all, push_str, string_of};
use crate::json::{decimal, opt_u16, opt_view, push_decimal, str_views};
use crate::digest::{digest_of, sha256_text};
use crate::models::{CanonicalCluster, CanonicalClusterView, LookupRecord, LookupRecordView};
use crate::verify::{last_lookup_for, lookup_views};

verus! {

/// A source that answers a text with the lookup records of the citations in it.
pub trait CitationLookup {
    /// Whether `answer` is an answer this source may give to `text`. A live
    /// source may answer the same text differently from call to call, so by
    /// default any answer is possible; a source that knows better says so.
    open spec fn answers(&self, text: Seq<char>, answer: Result<Vec<LookupRecord>, crate::CiteError>) -> bool {
        true
    }

    /// The lookup records for the citations in `text`.
    fn lookup_text(&self, text: &str) -> (r: Result<Vec<LookupRecord>, crate::CiteError>)
        ensures
            self.answers(text@, r),
    ;
}

/// Lexicographic order of character sequences by code point, the order of
/// `String`'s `Ord`.
pub open spec fn lex_lt(a: Seq<char>, b: Seq<char>) -> bool
    decreases a.len(),
{
    if a.len() == 0 {
        b.len() > 0
    } else if b.len() == 0 {
        false
    } else if a[0] < b[0] {
        true
    } else if a[0] > b[0] {
        false
    } else {
        lex_lt(a.drop_first(), b.drop_first())
    }
}

/// `lex_lt` is irreflexive.
pub proof fn lemma_lex_irreflexive(a: Seq<char>)
    ensures
        !lex_lt(a, a),
    decreases a.len(),
{
    if a.len() > 0 {
        lemma_lex_irreflexive(a.drop_first());
    }
}

/// `lex_lt` is transitive.
pub proof fn lemma_lex_transitive(a: Seq<char>, b: Seq<char>, c: Seq<char>)
    requires
        lex_lt(a, b),
        lex_lt(b, c),
    ensures
        lex_lt(a, c),
    decreases a.len(),
{
    if a.len() > 0 && b.len() > 0 && c.len() > 0 {
        if a[0] == b[0] && b[0] == c[0] {
            lemma_lex_transitive(a.drop_first(), b.drop_first(), c.drop_first());
        }
    }
}

/// Two different sequences are ordered one way or the other.
pub proof fn lemma_lex_total(a: Seq<char>, b: Seq<char>)
    requires
        a != b,
    ensures
        lex_lt(a, b) || lex_lt(b, a),
    decreases a.len(),
{
    if a.len() == 0 {
        assert(b.len() > 0) by {
            if b.len() == 0 {
                assert(a =~= b);
            }
        }
    } else if b.len() > 0 {
        if a[0] == b[0] {
            if a.drop_first() == b.drop_first() {
                assert(a =~= seq![a[0]] + a.drop_first());
                assert(b =~= seq![b[0]] + b.drop_first());
            }
            lemma_lex_total(a.drop_first(), b.drop_first());
        }
    }
}

/// Whether `a` comes before `b`.
pub fn precedes(a: &Vec<char>, b: &Vec<char>) -> (r: bool)
    ensures
        r == lex_lt(a@, b@),
{
    let mut i: usize = 0;
    assert(a@.skip(0) =~= a@);
    assert(b@.skip(0) =~= b@);
    while i < a.len() && i < b.len() && a[i] == b[i]
        invariant
            i <= a@.len(),
            i <= b@.len(),
            lex_lt(a@, b@) == lex_lt(a@.skip(i as int), b@.skip(i as int)),
        decreases a@.len() - i,
    {
        proof {
            assert(a@.skip(i as int).drop_first() =~= a@.skip(i + 1));
            assert(b@.skip(i as int).drop_first() =~= b@.skip(i + 1));
        }
        i = i + 1;
    }
    let ghost sa = a@.skip(i as int);
    let ghost sb = b@.skip(i as int);
    assert(sa.len() == a@.len() - i);
    assert(sb.len() == b@.len() - i);
    if i == a.len() {
        i < b.len()
    } else if i == b.len() {
        false
    } else {
        assert(sa[0] == a@[i as int] && sb[0] == b@[i as int]);
        a[i] < b[i]
    }
}

/// Whether the keys of `s` are strictly increasing.
pub open spec fn sorted_by_citation(s: Seq<LookupRecordView>) -> bool {
    forall|i: int, j: int|
        0 <= i < j < s.len() ==> lex_lt(#[trigger] s[i].raw_citation, #[trigger] s[j].raw_citation)
}

/// The record of `s` whose citation is `k`, if any.
pub open spec fn entry_for(s: Seq<LookupRecordView>, k: Seq<char>) -> Option<LookupRecordView>
    decreases s.len(),
{
    if s.len() == 0 {
        None
    } else if s.last().raw_citation == k {
        Some(s.last())
    } else {
        entry_for(s.drop_last(), k)
    }
}

/// The records whose citation occurs in `text`, in order.
pub open spec fn records_in_text(s: Seq<LookupRecordView>, text: Seq<char>) -> Seq<LookupRecordView>
    decreases s.len(),
{
    if s.len() == 0 {
        seq![]
    } else if contains(text, s.last().raw_citation) {
        records_in_text(s.drop_last(), text).push(s.last())
    } else {
        records_in_text(s.drop_last(), text)
    }
}

/// Offline lookup records, one per raw citation, ordered by citation.
pub struct FixtureLookup {
    records: Vec<LookupRecord>,
}

impl View for FixtureLookup {
    type V = Seq<LookupRecordView>;

    closed spec fn view(&self) -> Seq<LookupRecordView> {
        lookup_views(self.records@)
    }
}

impl FixtureLookup {
    /// The fixture is ordered strictly by citation.
    pub closed spec fn well_formed(&self) -> bool {
        sorted_by_citation(self@)
    }

    /// Builds the fixture from lookup records as loaded: one entry per raw
    /// citation, holding the last record given for it, ordered by citation.
    pub fn from_records(records: Vec<LookupRecord>) -> (r: FixtureLookup)
        ensures
            r.well_formed(),
            sorted_by_citation(r@),
            forall|k: Seq<char>| #[trigger]
                entry_for(r@, k) == last_lookup_for(lookup_views(records@), k),
    {
        let ghost input = lookup_views(records@);
        let mut entries: Vec<LookupRecord> = Vec::new();
        for i in 0..records.len()
            invariant
                input == lookup_views(records@),
                sorted_by_citation(lookup_views(entries@)),
                forall|k: Seq<char>| #[trigger]
                    entry_for(lookup_views(entries@), k) == last_lookup_for(input.take(i as int), k),
        {
            proof {
                assert(input.take(i + 1).drop_last() =~= input.take(i as int));
                assert(input.take(i + 1).last() == records@[i as int]@);
            }
            let rec = records[i].duplicate();
            insert_entry(&mut entries, rec);
        }
        assert(input.take(records@.len() as int) =~= input);
        FixtureLookup { records: entries }
    }

    /// The records whose raw citation occurs in `text`, in citation order.
    pub fn lookup(&self, text: &str) -> (r: Vec<LookupRecord>)
        ensures
            lookup_views(r@) == records_in_text(self@, text@),
    {
        let t = chars_of(text);
        let mut out: Vec<LookupRecord> = Vec::new();
        for i in 0..self.records.len()
            invariant
                t@ == text@,
                lookup_views(out@) == records_in_text(lookup_views(self.records@).take(i as int), text@),
        {
            let ghost s = lookup_views(self.records@);
            let ghost before = out@;
            proof {
                assert(s.take(i + 1).drop_last() =~= s.take(i as int));
                assert(s.take(i + 1).last() == self.records@[i as int]@);
            }
            let key = chars_of_string(&self.records[i].raw_citation);
            if contains_chars(&t, &key) {
                out.push(self.records[i].duplicate());
                assert(lookup_views(out@) =~= lookup_views(before).push(self.records@[i as int]@));
            }
        }
        assert(lookup_views(self.records@).take(self.records@.len() as int) =~= lookup_views(
            self.records@,
        ));
        out
    }
}

impl CitationLookup for FixtureLookup {
    /// The fixture always answers with its entries whose citation occurs
    /// in the text.
    open spec fn answers(&self, text: Seq<char>, answer: Result<Vec<LookupRecord>, crate::CiteError>) -> bool {
        answer matches Ok(v) && lookup_views(v@) == records_in_text(self@, text)
    }

    fn lookup_text(&self, text: &str) -> (r: Result<Vec<LookupRecord>, crate::CiteError>)
        ensures
            r matches Ok(v) && lookup_views(v@) == records_in_text(self@, text@),
    {
        Ok(self.lookup(text))
    }
}

/// In a sorted sequence the entry for a key is the unique record with it.
proof fn lemma_entry_sorted(s: Seq<LookupRecordView>, k: Seq<char>)
    requires
        sorted_by_citation(s),
    ensures
        entry_for(s, k) matches Some(e) ==> e.raw_citation == k && exists|p: int|
            0 <= p < s.len() && s[p] == e,
        entry_for(s, k) is None ==> forall|p: int| 0 <= p < s.len() ==> s[p].raw_citation != k,
        forall|p: int| 0 <= p < s.len() && s[p].raw_citation == k ==> entry_for(s, k) == Some(s[p]),
    decreases s.len(),
{
    if s.len() > 0 {
        let d = s.drop_last();
        assert(sorted_by_citation(d)) by {
            assert forall|i: int, j: int| 0 <= i < j < d.len() implies lex_lt(
                #[trigger] d[i].raw_citation,
                #[trigger] d[j].raw_citation,
            ) by {
                assert(d[i] == s[i] && d[j] == s[j]);
            }
        }
        lemma_entry_sorted(d, k);
        assert forall|p: int| 0 <= p < s.len() && s[p].raw_citation == k implies entry_for(s, k)
            == Some(s[p]) by {
            if p < s.len() - 1 {
                assert(d[p] == s[p]);
                if s.last().raw_citation == k {
                    assert(lex_lt(s[p].raw_citation, s[s.len() - 1].raw_citation));
                    lemma_lex_irreflexive(k);
                }
            }
        }
        if entry_for(s, k) is Some && s.last().raw_citation != k {
            let p = choose|p: int| 0 <= p < d.len() && d[p] == entry_for(d, k).unwrap();
            assert(s[p] == d[p]);
        }
    }
}

/// Puts `rec` into the sorted entries, replacing the entry with the same
/// citation if there is one.
fn insert_entry(entries: &mut Vec<LookupRecord>, rec: LookupRecord)
    requires
        sorted_by_citation(lookup_views(old(entries)@)),
    ensures
        sorted_by_citation(lookup_views(final(entries)@)),
        forall|k: Seq<char>| #[trigger]
            entry_for(lookup_views(final(entries)@), k) == if k == rec.raw_citation@ {
                Some(rec@)
            } else {
                entry_for(lookup_views(old(entries)@), k)
            },
{
    let ghost s0 = lookup_views(entries@);
    let key = chars_of_string(&rec.raw_citation);
    let mut p: usize = 0;
    while p < entries.len() && precedes(&chars_of_string(&entries[p].raw_citation), &key)
        invariant
            s0 == lookup_views(entries@),
            p <= entries@.len(),
            key@ == rec.raw_citation@,
            forall|q: int| 0 <= q < p ==> lex_lt(#[trigger] s0[q].raw_citation, key@),
        decreases entries@.len() - p,
    {
        p = p + 1;
    }
    proof {
        lemma_entry_sorted(s0, key@);
    }
    if p < entries.len() && chars_eq(&chars_of_string(&entries[p].raw_citation), &key) {
        entries.set(p, rec);
        let ghost s1 = lookup_views(entries@);
        assert(s1 =~= s0.update(p as int, rec@));
        assert(sorted_by_citation(s1)) by {
            assert forall|i: int, j: int| 0 <= i < j < s1.len() implies lex_lt(
                #[trigger] s1[i].raw_citation,
                #[trigger] s1[j].raw_citation,
            ) by {
                assert(s0[i] == s1[i] || i == p);
                assert(s0[j] == s1[j] || j == p);
            }
        }
        proof {
            assert forall|k: Seq<char>| #[trigger] entry_for(s1, k) == if k == key@ {
                Some(rec@)
            } else {
                entry_for(s0, k)
            } by {
                lemma_entry_sorted(s1, k);
                lemma_entry_sorted(s0, k);
                if k == key@ {
                    assert(s1[p as int] == rec@);
                } else {
                    if entry_for(s0, k) is Some {
                        let q = choose|q: int| 0 <= q < s0.len() && s0[q] == entry_for(s0, k).unwrap();
                        assert(q != p);
                        assert(s1[q] == s0[q]);
                    }
                    if entry_for(s1, k) is Some {
                        let q = choose|q: int| 0 <= q < s1.len() && s1[q] == entry_for(s1, k).unwrap();
                        assert(q != p);
                        assert(s1[q] == s0[q]);
                    }
                }
            }
        }
    } else {
        proof {
            if p < s0.len() {
                lemma_lex_total(s0[p as int].raw_citation, key@);
            }
        }
        entries.insert(p, rec);
        let ghost s1 = lookup_views(entries@);
        assert(s1 =~= s0.insert(p as int, rec@));
        assert(sorted_by_citation(s1)) by {
            assert forall|i: int, j: int| 0 <= i < j < s1.len() implies lex_lt(
                #[trigger] s1[i].raw_citation,
                #[trigger] s1[j].raw_citation,
            ) by {
                if i < p && j == p {
                } else if i < p && j > p {
                    assert(s1[j] == s0[j - 1]);
                    if j - 1 >= p {
                        if j - 1 > p {
                            assert(lex_lt(s0[p as int].raw_citation, s0[j - 1].raw_citation));
                            lemma_lex_transitive(key@, s0[p as int].raw_citation, s0[j - 1].raw_citation);
                        }
                        lemma_lex_transitive(s0[i].raw_citation, key@, s0[j - 1].raw_citation);
                    }
                } else if i == p {
                    assert(s1[j] == s0[j - 1]);
                    if j - 1 > p {
                        assert(lex_lt(s0[p as int].raw_citation, s0[j - 1].raw_citation));
                        lemma_lex_transitive(key@, s0[p as int].raw_citation, s0[j - 1].raw_citation);
                    }
                } else if i > p {
                    assert(s1[i] == s0[i - 1]);
                    assert(s1[j] == s0[j - 1]);
                } else {
                    assert(s1[i] == s0[i]);
                    assert(s1[j] == s0[j]);
                }
            }
        }
        proof {
            assert forall|k: Seq<char>| #[trigger] entry_for(s1, k) == if k == key@ {
                Some(rec@)
            } else {
                entry_for(s0, k)
            } by {
                lemma_entry_sorted(s1, k);
                lemma_entry_sorted(s0, k);
                if k == key@ {
                    assert(s1[p as int] == rec@);
                } else {
                    if entry_for(s0, k) is Some {
                        let q = choose|q: int| 0 <= q < s0.len() && s0[q] == entry_for(s0, k).unwrap();
                        if q < p {
                            assert(s1[q] == s0[q]);
                        } else {
                            assert(s1[q + 1] == s0[q]);
                        }
                    }
                    if entry_for(s1, k) is Some {
                        let q = choose|q: int| 0 <= q < s1.len() && s1[q] == entry_for(s1, k).unwrap();
                        assert(q != p);
                        if q < p {
                            assert(s1[q] == s0[q]);
                        } else {
                            assert(s1[q] == s0[q - 1]);
                        }
                    }
                }
            }
        }
    }
}

/// The fixture answers a text with exactly its entries whose citation
/// occurs in the text: the entry for every citation in the text is
/// returned, and everything returned is an entry whose citation is in the
/// text. With [`FixtureLookup::from_records`], the entry for a citation is
/// the last record loaded for it.
pub proof fn law_fixture_answers_loaded_records(s: Seq<LookupRecordView>, text: Seq<char>)
    ensures
        forall|k: Seq<char>|
            contains(text, k) && #[trigger] entry_for(s, k) is Some ==> records_in_text(
                s,
                text,
            ).contains(entry_for(s, k)->0),
        forall|i: int|
            0 <= i < records_in_text(s, text).len() ==> s.contains(
                #[trigger] records_in_text(s, text)[i],
            ) && contains(text, records_in_text(s, text)[i].raw_citation),
    decreases s.len(),
{
    if s.len() > 0 {
        let d = s.drop_last();
        let l = s.last();
        law_fixture_answers_loaded_records(d, text);
        let rd = records_in_text(d, text);
        let rs = records_in_text(s, text);
        assert forall|k: Seq<char>|
            contains(text, k) && #[trigger] entry_for(s, k) is Some implies rs.contains(
                entry_for(s, k)->0,
            ) by {
            if l.raw_citation == k {
                assert(rs[rs.len() - 1] == l);
            } else {
                let e = entry_for(d, k)->0;
                let j = choose|j: int| 0 <= j < rd.len() && rd[j] == e;
                if contains(text, l.raw_citation) {
                    assert(rs[j] == rd[j]);
                } else {
                    assert(rs[j] == e);
                }
            }
        }
        assert forall|i: int| 0 <= i < rs.len() implies s.contains(#[trigger] rs[i]) && contains(
            text,
            rs[i].raw_citation,
        ) by {
            if i < rd.len() {
                assert(rs[i] == rd[i]);
                let j = choose|j: int| 0 <= j < d.len() && d[j] == rd[i];
                assert(s[j] == d[j]);
            } else {
                assert(rs[i] == l);
                assert(s[s.len() - 1] == l);
            }
        }
    }
}

/// The default citation lookup endpoint.
pub open spec fn default_endpoint() -> Seq<char> {
    "https://www.courtlistener.com/api/rest/v4/citation-lookup/"@
}

/// The endpoint a client posts to: the one given, or the default.
pub fn lookup_endpoint(endpoint: Option<String>) -> (r: String)
    ensures
        r@ == match opt_view(endpoint) {
            Some(e) => e,
            None => default_endpoint(),
        },
{
    match endpoint {
        Some(e) => e,
        None => string_of(&chars_of("https://www.courtlistener.com/api/rest/v4/citation-lookup/")),
    }
}

/// The commitment to a lookup request: the digest of `POST:<endpoint>:<text>`.
pub fn request_digest(endpoint: &str, text: &str) -> (r: String)
    ensures
        r@ == digest_of("POST:"@ + endpoint@ + ":"@ + text@),
{
    let mut m = chars_of("POST:");
    push_all(&mut m, &chars_of(endpoint));
    push_str(&mut m, ":");
    push_all(&mut m, &chars_of(text));
    sha256_text(&m)
}

/// Accepts a 2xx answer; any other status is a lookup error quoting the
/// status and the body.
pub fn check_http_status(status: u16, body: &str) -> (r: Result<(), crate::CiteError>)
    ensures
        r is Ok <==> 200 <= status < 300,
        r matches Err(e) ==> e matches crate::CiteError::Lookup(m) && m@ == "CourtListener HTTP "@
            + decimal(status as nat) + ": "@ + body@,
{
    if 200 <= status && status < 300 {
        Ok(())
    } else {
        let mut m = chars_of("CourtListener HTTP ");
        push_decimal(&mut m, status as u64);
        push_str(&mut m, ": ");
        push_all(&mut m, &chars_of(body));
        Err(crate::CiteError::Lookup(string_of(&m)))
    }
}

/// The case name of a cluster answer: the `case_name` field when the
/// answer has that field (its text, if it is one), else `case_name_full`.
pub fn pick_case_name(case_name: Option<Option<String>>, case_name_full: Option<String>) -> (r:
    Option<String>)
    ensures
        opt_view(r) == match case_name {
            Some(v) => opt_view(v),
            None => opt_view(case_name_full),
        },
{
    match case_name {
        Some(v) => v,
        None => case_name_full,
    }
}

/// One citation of a live lookup answer, its clusters already read.
#[derive(Debug, Clone)]
pub struct CitationAnswer {
    pub citation: String,
    pub normalized_citations: Vec<String>,
    pub status: Option<u16>,
    pub error_message: String,
    pub clusters: Vec<CanonicalCluster>,
}

/// The lookup record of one citation of a live answer.
pub fn record_from_answer(
    answer: CitationAnswer,
    request_digest: String,
    http_status: Option<u16>,
    raw_response_digest: String,
) -> (r: LookupRecord)
    ensures
        r@ == (LookupRecordView {
            source: "courtlistener:v4:citation-lookup"@,
            request_digest: request_digest@,
            http_status: opt_u16(http_status),
            api_status: opt_u16(answer.status),
            raw_citation: answer.citation@,
            normalized_citations: str_views(answer.normalized_citations@),
            clusters: answer.clusters@.map_values(|c: CanonicalCluster| c@),
            error_message: answer.error_message@,
            raw_response_digest: raw_response_digest@,
        }),
{
    LookupRecord {
        source: string_of(&chars_of("courtlistener:v4:citation-lookup")),
        request_digest,
        http_status,
        api_status: answer.status,
        raw_citation: answer.citation,
        normalized_citations: answer.normalized_citations,
        clusters: answer.clusters,
        error_message: answer.error_message,
        raw_response_digest,
    }
}

} // verus!
