//! The verified brief: the original text with every citation annotated as
//! verified or healed, or replaced by a blocked marker.
use vstd::prelude::*;
use crate::text::{
    at_boundary, boundary_index, byte_len, char_pos, byte_offsets, byte_slice, byte_slice_of, chars_of,
    chars_of_string, lemma_char_pos_monotone, push_all, push_str, string_of, utf8_len,
};
use crate::models::{
    CitationClaimView, ClaimAction, ClaimStatus, GatePolicy, LookupRecordView, VerificationRecord,
    VerificationRecordView,
};
use crate::verify::{classify_spec, record_spec};

verus! {

broadcast use vstd::seq_lib::group_to_multiset_ensures;

/// Views of a slice of verification records.
pub open spec fn record_views(v: Seq<VerificationRecord>) -> Seq<VerificationRecordView> {
    v.map_values(|r: VerificationRecord| r@)
}

/// Inserts `r` after every record of `s` that starts no later than it
/// (from the back, so that records with equal starts keep their order).
pub open spec fn insert_by_start(s: Seq<VerificationRecordView>, r: VerificationRecordView) -> Seq<
    VerificationRecordView,
>
    decreases s.len(),
{
    if s.len() == 0 {
        seq![r]
    } else if s.last().claim.start_index <= r.claim.start_index {
        s.push(r)
    } else {
        insert_by_start(s.drop_last(), r).push(s.last())
    }
}

/// The records in order of their start offset, records with equal starts
/// in their original order (a stable sort).
pub open spec fn sort_by_start(s: Seq<VerificationRecordView>) -> Seq<VerificationRecordView>
    decreases s.len(),
{
    if s.len() == 0 {
        seq![]
    } else {
        insert_by_start(sort_by_start(s.drop_last()), s.last())
    }
}

/// Whether records are ordered by start offset.
pub open spec fn sorted_by_start(s: Seq<VerificationRecordView>) -> bool {
    forall|i: int, j: int|
        0 <= i < j < s.len() ==> (#[trigger] s[i]).claim.start_index <= (#[trigger] s[j]).claim.start_index
}

/// The text that stands in the brief for one citation: the raw citation
/// with a verified note, the normalized citation with a healed note, or a
/// blocked marker with the reason.
pub open spec fn record_text(r: VerificationRecordView) -> Seq<char> {
    match r.action {
        ClaimAction::Keep => r.claim.raw + "<!-- CITE_RIGHT: VERIFIED "@ + r.receipt_digest
            + " -->"@,
        ClaimAction::ReplaceWithNormalized => {
            let replacement = if r.lookup.normalized_citations.len() > 0 {
                r.lookup.normalized_citations[0]
            } else {
                r.claim.raw
            };
            replacement + "<!-- CITE_RIGHT: HEALED from '"@ + r.claim.raw + "' "@ + r.receipt_digest
                + " -->"@
        },
        ClaimAction::BlockOrRedact => "[CITATION BLOCKED: "@ + r.claim.raw + " | "@ + r.reason
            + "]"@,
    }
}

/// The text emitted and the byte cursor reached after the records `rs`, in
/// the order given: before each record, the original text from the cursor
/// up to the record's start (when the start lies in the text and not
/// before the cursor), then the record's text; the cursor moves to the
/// record's end.
pub open spec fn emit_steps(text: Seq<char>, rs: Seq<VerificationRecordView>) -> (Seq<char>, nat)
    decreases rs.len(),
{
    if rs.len() == 0 {
        (seq![], 0)
    } else {
        let prev = emit_steps(text, rs.drop_last());
        let r = rs.last();
        let gap = if r.claim.start_index <= utf8_len(text) && prev.1 <= r.claim.start_index {
            byte_slice(text, prev.1 as int, r.claim.start_index as int)
        } else {
            seq![]
        };
        (prev.0 + gap + record_text(r), r.claim.end_index)
    }
}

/// Whether every original text slice taken while emitting `rs` starts and
/// ends on character boundaries.
pub open spec fn steps_defined(text: Seq<char>, rs: Seq<VerificationRecordView>) -> bool
    decreases rs.len(),
{
    if rs.len() == 0 {
        true
    } else {
        let cursor = emit_steps(text, rs.drop_last()).1;
        let start = rs.last().claim.start_index;
        &&& steps_defined(text, rs.drop_last())
        &&& (start <= utf8_len(text) && cursor <= start) ==> at_boundary(text, cursor as int)
            && at_boundary(text, start as int)
    }
}

/// The inputs on which the brief can be emitted: every slice of the
/// original text falls on character boundaries, the final one too.
pub open spec fn emit_defined(text: Seq<char>, recs: Seq<VerificationRecordView>) -> bool {
    let s = sort_by_start(recs);
    steps_defined(text, s) && at_boundary(text, emit_steps(text, s).1 as int)
}

/// The verified brief: the records applied in order of their start, then
/// the rest of the original text after the last cursor.
pub open spec fn emit_spec(text: Seq<char>, recs: Seq<VerificationRecordView>) -> Seq<char> {
    let st = emit_steps(text, sort_by_start(recs));
    st.0 + byte_slice(text, st.1 as int, utf8_len(text) as int)
}

proof fn lemma_steps_defined_take(text: Seq<char>, rs: Seq<VerificationRecordView>, k: int)
    requires
        steps_defined(text, rs),
        0 <= k <= rs.len(),
    ensures
        steps_defined(text, rs.take(k)),
    decreases rs.len(),
{
    if k == rs.len() {
        assert(rs.take(k) =~= rs);
    } else {
        assert(rs.drop_last().take(k) =~= rs.take(k));
        lemma_steps_defined_take(text, rs.drop_last(), k);
    }
}

proof fn lemma_insert_split(s: Seq<VerificationRecordView>, x: VerificationRecordView, p: int)
    requires
        0 <= p <= s.len(),
        forall|j: int| p <= j < s.len() ==> (#[trigger] s[j]).claim.start_index > x.claim.start_index,
    ensures
        insert_by_start(s, x) == insert_by_start(s.take(p), x) + s.skip(p),
    decreases s.len() - p,
{
    if p == s.len() {
        assert(s.take(p) =~= s);
        assert(s.skip(p) =~= Seq::<VerificationRecordView>::empty());
        assert(insert_by_start(s, x) + Seq::<VerificationRecordView>::empty() =~= insert_by_start(
            s,
            x,
        ));
    } else {
        let d = s.drop_last();
        assert(s.last() == s[s.len() - 1]);
        assert forall|j: int| p <= j < d.len() implies (#[trigger] d[j]).claim.start_index
            > x.claim.start_index by {
            assert(d[j] == s[j]);
        }
        lemma_insert_split(d, x, p);
        assert(d.take(p) =~= s.take(p));
        assert(d.skip(p).push(s.last()) =~= s.skip(p));
        assert(insert_by_start(d.take(p), x) + d.skip(p).push(s.last()) =~= (insert_by_start(
            d.take(p),
            x,
        ) + d.skip(p)).push(s.last()));
    }
}

/// Inserts a record into a vector sorted by start, after every record that
/// starts no later.
fn insert_sorted(out: &mut Vec<VerificationRecord>, r: VerificationRecord)
    ensures
        record_views(final(out)@) == insert_by_start(record_views(old(out)@), r@),
{
    let ghost s = record_views(out@);
    let mut p = out.len();
    while p > 0 && out[p - 1].claim.start_index > r.claim.start_index
        invariant
            p <= out@.len(),
            s == record_views(out@),
            forall|j: int| p <= j < s.len() ==> (#[trigger] s[j]).claim.start_index
                > r.claim.start_index,
        decreases p,
    {
        p = p - 1;
    }
    proof {
        lemma_insert_split(s, r@, p as int);
        if p > 0 {
            let t = s.take(p as int);
            assert(t.last() == s[p - 1]);
            assert(t.drop_last() =~= s.take(p - 1));
        } else {
            assert(s.take(0) =~= Seq::<VerificationRecordView>::empty());
            assert(insert_by_start(Seq::<VerificationRecordView>::empty(), r@) == seq![r@]);
        }
    }
    let ghost rv = r@;
    out.insert(p, r);
    assert(record_views(out@) =~= s.take(p as int).push(rv) + s.skip(p as int));
}

/// The records sorted stably by start offset.
fn sort_records(records: &[VerificationRecord]) -> (r: Vec<VerificationRecord>)
    ensures
        record_views(r@) == sort_by_start(record_views(records@)),
{
    let ghost rv = record_views(records@);
    let mut out: Vec<VerificationRecord> = Vec::new();
    for i in 0..records.len()
        invariant
            rv == record_views(records@),
            record_views(out@) == sort_by_start(rv.take(i as int)),
    {
        assert(rv.take(i + 1).drop_last() =~= rv.take(i as int));
        assert(rv.take(i + 1).last() == records@[i as int]@);
        insert_sorted(&mut out, records[i].duplicate());
    }
    assert(rv.take(records@.len() as int) =~= rv);
    out
}

/// Appends the text that stands in the brief for one record.
fn push_record_text(out: &mut Vec<char>, r: &VerificationRecord)
    ensures
        final(out)@ == old(out)@ + record_text(r@),
{
    let raw = chars_of_string(&r.claim.raw);
    let digest = chars_of_string(&r.receipt_digest);
    match r.action {
        ClaimAction::Keep => {
            push_all(out, &raw);
            push_str(out, "<!-- CITE_RIGHT: VERIFIED ");
            push_all(out, &digest);
            push_str(out, " -->");
        },
        ClaimAction::ReplaceWithNormalized => {
            let replacement = if r.lookup.normalized_citations.len() > 0 {
                assert(r@.lookup.normalized_citations[0] == r.lookup.normalized_citations@[0]@);
                chars_of_string(&r.lookup.normalized_citations[0])
            } else {
                chars_of_string(&r.claim.raw)
            };
            push_all(out, &replacement);
            push_str(out, "<!-- CITE_RIGHT: HEALED from '");
            push_all(out, &raw);
            push_str(out, "' ");
            push_all(out, &digest);
            push_str(out, " -->");
        },
        ClaimAction::BlockOrRedact => {
            push_str(out, "[CITATION BLOCKED: ");
            push_all(out, &raw);
            push_str(out, " | ");
            push_all(out, &chars_of_string(&r.reason));
            push_str(out, "]");
        },
    }
}

/// Whether the brief can be emitted: every slice of the original text that
/// emission takes starts and ends on a character boundary.
pub fn emit_is_defined(original: &str, records: &[VerificationRecord]) -> (r: bool)
    ensures
        r == emit_defined(original@, record_views(records@)),
{
    let text = chars_of(original);
    let n = byte_len(original);
    let offs = byte_offsets(&text);
    let sorted = sort_records(records);
    let ghost sv = record_views(sorted@);
    let mut ok = true;
    let mut cursor: usize = 0;
    for i in 0..sorted.len()
        invariant
            sv == record_views(sorted@),
            text@ == original@,
            n == utf8_len(text@),
            offs@.len() == text@.len() + 1,
            forall|j: int| 0 <= j <= text@.len() ==> offs@[j] == utf8_len(#[trigger] text@.take(j)),
            ok == steps_defined(text@, sv.take(i as int)),
            cursor == emit_steps(text@, sv.take(i as int)).1,
    {
        assert(sv.take(i + 1).drop_last() =~= sv.take(i as int));
        assert(sv.take(i + 1).last() == sorted@[i as int]@);
        let start = sorted[i].claim.start_index;
        if start <= n && cursor <= start {
            let a = boundary_index(&text, &offs, cursor);
            let b = boundary_index(&text, &offs, start);
            if a.is_none() || b.is_none() {
                ok = false;
            }
        }
        cursor = sorted[i].claim.end_index;
    }
    assert(sv.take(sorted@.len() as int) =~= sv);
    let last = boundary_index(&text, &offs, cursor);
    ok && last.is_some()
}

/// Writes the verified brief: the records are applied in order of their
/// start offset; before each, the original text from the cursor to its
/// start is copied when the start lies in the text and not before the
/// cursor; each citation is replaced by its verified, healed or blocked
/// text; the rest of the original follows the last citation.
pub fn emit_verified_markdown(original: &str, records: &[VerificationRecord]) -> (r: String)
    requires
        emit_defined(original@, record_views(records@)),
    ensures
        r@ == emit_spec(original@, record_views(records@)),
{
    let text = chars_of(original);
    let n = byte_len(original);
    let offs = byte_offsets(&text);
    let sorted = sort_records(records);
    let ghost sv = record_views(sorted@);
    let mut out: Vec<char> = Vec::new();
    let mut cursor: usize = 0;
    for i in 0..sorted.len()
        invariant
            sv == record_views(sorted@),
            steps_defined(text@, sv),
            text@ == original@,
            n == utf8_len(text@),
            offs@.len() == text@.len() + 1,
            forall|j: int| 0 <= j <= text@.len() ==> offs@[j] == utf8_len(#[trigger] text@.take(j)),
            (out@, cursor as nat) == emit_steps(text@, sv.take(i as int)),
    {
        proof {
            assert(sv.take(i + 1).drop_last() =~= sv.take(i as int));
            assert(sv.take(i + 1).last() == sorted@[i as int]@);
            lemma_steps_defined_take(text@, sv, i + 1);
        }
        let r = &sorted[i];
        let ghost before = out@;
        if r.claim.start_index <= n && cursor <= r.claim.start_index {
            let piece = byte_slice_of(&text, &offs, cursor, r.claim.start_index);
            push_all(&mut out, &piece);
        } else {
            assert(before + Seq::<char>::empty() =~= before);
        }
        push_record_text(&mut out, r);
        cursor = r.claim.end_index;
    }
    assert(sv.take(sorted@.len() as int) =~= sv);
    proof {
        assert(text@.take(text@.len() as int) =~= text@);
        crate::text::lemma_char_pos(text@, text@.len() as int);
        assert(at_boundary(text@, cursor as int));
        crate::text::lemma_utf8_len_take(text@, char_pos(text@, cursor as int));
    }
    let tail = byte_slice_of(&text, &offs, cursor, n);
    push_all(&mut out, &tail);
    string_of(&out)
}

/// Stable ordering: the records are emitted in order of their start offset,
/// and every record is emitted exactly once.
pub proof fn law_sort_by_start(s: Seq<VerificationRecordView>)
    ensures
        sorted_by_start(sort_by_start(s)),
        sort_by_start(s).to_multiset() == s.to_multiset(),
    decreases s.len(),
{
    if s.len() > 0 {
        law_sort_by_start(s.drop_last());
        lemma_insert_sorted(sort_by_start(s.drop_last()), s.last());
        assert(s.drop_last().push(s.last()) =~= s);
    }
}

proof fn lemma_insert_sorted(s: Seq<VerificationRecordView>, x: VerificationRecordView)
    requires
        sorted_by_start(s),
    ensures
        sorted_by_start(insert_by_start(s, x)),
        insert_by_start(s, x).to_multiset() == s.to_multiset().insert(x),
        insert_by_start(s, x).len() == s.len() + 1,
        forall|i: int| 0 <= i < insert_by_start(s, x).len() ==> (#[trigger] insert_by_start(s, x)[i] == x
            || s.contains(insert_by_start(s, x)[i])),
    decreases s.len(),
{
    if s.len() > 0 && s.last().claim.start_index > x.claim.start_index {
        let d = s.drop_last();
        assert(sorted_by_start(d)) by {
            assert forall|i: int, j: int| 0 <= i < j < d.len() implies (#[trigger] d[i]).claim.start_index
                <= (#[trigger] d[j]).claim.start_index by {
                assert(d[i] == s[i] && d[j] == s[j]);
            }
        }
        lemma_insert_sorted(d, x);
        let t = insert_by_start(d, x);
        assert forall|i: int| 0 <= i < t.len() implies (#[trigger] t[i]).claim.start_index
            <= s.last().claim.start_index by {
            if t[i] != x {
                let k = choose|k: int| 0 <= k < d.len() && d[k] == t[i];
                assert(s[k] == d[k]);
                assert(s[s.len() - 1] == s.last());
            }
        }
        assert forall|i: int| 0 <= i < t.push(s.last()).len() implies (#[trigger] t.push(
            s.last(),
        )[i] == x || s.contains(t.push(s.last())[i])) by {
            if i < t.len() && t[i] != x {
                let k = choose|k: int| 0 <= k < d.len() && d[k] == t[i];
                assert(s[k] == d[k]);
            } else if i == t.len() {
                assert(s[s.len() - 1] == s.last());
            }
        }
        assert(d.push(s.last()) =~= s);
        assert(t.push(s.last()).to_multiset() =~= s.to_multiset().insert(x));
    } else if s.len() > 0 {
        assert forall|i: int| 0 <= i < s.push(x).len() implies (#[trigger] s.push(x)[i] == x
            || s.contains(s.push(x)[i])) by {
            if i < s.len() {
                assert(s.push(x)[i] == s[i]);
            }
        }
    } else {
        assert(seq![x].to_multiset() =~= Seq::<VerificationRecordView>::empty().push(x).to_multiset()) by {
            assert(seq![x] =~= Seq::<VerificationRecordView>::empty().push(x));
        }
    }
}

/// No citation enters the brief unmarked unless it resolved: a record is
/// written without the blocked marker exactly when its lookup answered 200
/// and named exactly one cluster; every other record is written as the
/// blocked marker with its reason.
pub proof fn law_unresolved_citations_are_blocked(
    c: CitationClaimView,
    l: LookupRecordView,
    policy: GatePolicy,
)
    ensures
        ({
            let r = record_spec(c, l, policy);
            &&& r.action != ClaimAction::BlockOrRedact <==> l.api_status == Some(200int)
                && l.clusters.len() == 1
            &&& r.action == ClaimAction::BlockOrRedact ==> record_text(r) == "[CITATION BLOCKED: "@
                + c.raw + " | "@ + r.reason + "]"@
            &&& r.action == ClaimAction::BlockOrRedact <==> (r.status == ClaimStatus::Ambiguous
                || r.status == ClaimStatus::Blocked)
        }),
{
    crate::verify::lemma_record_fields(c, l, policy);
}

} // verus!
