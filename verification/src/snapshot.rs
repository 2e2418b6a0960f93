//! Snapshots of live lookups: the records a live source answered, marked
//! as normalized and committed to under a content-addressed identifier so
//! that they can be replayed like fixtures.
use vstd::prelude::*;
use crate::text::{chars_of, push_all, push_str, string_of};
use crate::json::{json_array, json_str, key, push_json_string, push_key, JsonRecord, json_array_of};
use crate::digest::{digest_of, sha256_text};
use crate::models::{json_lookup, LookupRecord, LookupRecordView};
use crate::courtlistener::CitationLookup;
use crate::verify::lookup_views;

verus! {

/// A replayable record of what a live lookup answered for a query.
#[derive(Debug, Clone)]
pub struct Snapshot {
    pub snapshot_id: String,
    pub query: String,
    pub records: Vec<LookupRecord>,
    pub source: String,
    pub deterministic_basis: String,
}

/// The mathematical value of a [`Snapshot`].
pub struct SnapshotView {
    pub snapshot_id: Seq<char>,
    pub query: Seq<char>,
    pub records: Seq<LookupRecordView>,
    pub source: Seq<char>,
    pub deterministic_basis: Seq<char>,
}

impl View for Snapshot {
    type V = SnapshotView;

    open spec fn view(&self) -> SnapshotView {
        SnapshotView {
            snapshot_id: self.snapshot_id@,
            query: self.query@,
            records: self.records@.map_values(|x: LookupRecord| x@),
            source: self.source@,
            deterministic_basis: self.deterministic_basis@,
        }
    }
}

/// The JSON text of a snapshot.
pub open spec fn json_snapshot(v: SnapshotView) -> Seq<char> {
    "{"@ + key("snapshot_id"@) + json_str(v.snapshot_id)
        + ","@ + key("query"@) + json_str(v.query)
        + ","@ + key("records"@) + json_array(v.records.map_values(|x: LookupRecordView| json_lookup(x)))
        + ","@ + key("source"@) + json_str(v.source)
        + ","@ + key("deterministic_basis"@) + json_str(v.deterministic_basis)
        + "}"@
}

impl JsonRecord for Snapshot {
    open spec fn json_view(&self) -> Seq<char> {
        json_snapshot(self@)
    }

    fn to_json(&self) -> (r: Vec<char>) {
        let mut out = chars_of("{");
        push_key(&mut out, "snapshot_id");
        push_json_string(&mut out, &self.snapshot_id);
        push_str(&mut out, ",");
        push_key(&mut out, "query");
        push_json_string(&mut out, &self.query);
        push_str(&mut out, ",");
        push_key(&mut out, "records");
        let j = json_array_of(&self.records);
        assert(self.records@.map_values(|x: LookupRecord| x.json_view()) =~= self@.records.map_values(|x: LookupRecordView| json_lookup(x)));
        push_all(&mut out, &j);
        push_str(&mut out, ",");
        push_key(&mut out, "source");
        push_json_string(&mut out, &self.source);
        push_str(&mut out, ",");
        push_key(&mut out, "deterministic_basis");
        push_json_string(&mut out, &self.deterministic_basis);
        push_str(&mut out, "}");
        out
    }
}

/// A live record in snapshot form: the same record with source
/// `live_normalized`.
pub open spec fn normalized_record(r: LookupRecordView) -> LookupRecordView {
    LookupRecordView { source: "live_normalized"@, ..r }
}

/// The snapshot of the records `raw` answered for `query`; its identifier
/// commits to the snapshot written with id `pending`.
#[verifier::opaque]
pub open spec fn snapshot_for(query: Seq<char>, raw: Seq<LookupRecordView>) -> SnapshotView {
    let pending = SnapshotView {
        snapshot_id: "pending"@,
        query: query,
        records: raw.map_values(|r: LookupRecordView| normalized_record(r)),
        source: "courtlistener:live"@,
        deterministic_basis: "snapshot_v0"@,
    };
    SnapshotView { snapshot_id: digest_of(json_snapshot(pending)), ..pending }
}

/// Marks live lookup records as normalized, keeping everything else.
pub fn normalize_lookup_records(raw: &[LookupRecord]) -> (r: Vec<LookupRecord>)
    ensures
        lookup_views(r@) == lookup_views(raw@).map_values(
            |x: LookupRecordView| normalized_record(x),
        ),
{
    let mut out: Vec<LookupRecord> = Vec::new();
    for i in 0..raw.len()
        invariant
            out@.len() == i,
            forall|j: int| 0 <= j < i ==> #[trigger] out@[j]@ == normalized_record(raw@[j]@),
    {
        let mut rec = raw[i].duplicate();
        rec.source = string_of(&chars_of("live_normalized"));
        out.push(rec);
    }
    assert(lookup_views(out@) =~= lookup_views(raw@).map_values(
        |x: LookupRecordView| normalized_record(x),
    ));
    out
}

/// The snapshot of the records a live source answered for `query`.
pub fn snapshot_from_records(query: &str, raw: &[LookupRecord]) -> (r: Snapshot)
    ensures
        r@ == snapshot_for(query@, lookup_views(raw@)),
{
    let records = normalize_lookup_records(raw);
    let mut snap = Snapshot {
        snapshot_id: string_of(&chars_of("pending")),
        query: string_of(&chars_of(query)),
        records,
        source: string_of(&chars_of("courtlistener:live")),
        deterministic_basis: string_of(&chars_of("snapshot_v0")),
    };
    let json = snap.to_json();
    snap.snapshot_id = sha256_text(&json);
    proof {
        reveal(snapshot_for);
        assert(snap@.records =~= lookup_views(raw@).map_values(
            |x: LookupRecordView| normalized_record(x),
        ));
    }
    snap
}

/// Asks a live source for `query` and snapshots its answer. What the source
/// answers is its own affair: when it answers with records, the result is
/// the snapshot of exactly those records for `query`; when it fails, its
/// error is returned unchanged.
pub fn fetch_live_snapshot<L: CitationLookup>(query: &str, client: &L) -> (r: Result<
    Snapshot,
    crate::CiteError,
>)
    ensures
        exists|answer: Result<Vec<LookupRecord>, crate::CiteError>|
            #[trigger] client.answers(query@, answer) && match answer {
                Ok(raw) => r matches Ok(s) && s@ == snapshot_for(query@, lookup_views(raw@)),
                Err(e) => r == Err::<Snapshot, crate::CiteError>(e),
            },
{
    let answer = client.lookup_text(query);
    let ghost given = answer;
    match answer {
        Ok(raw) => {
            let s = snapshot_from_records(query, raw.as_slice());
            assert(client.answers(query@, given));
            Ok(s)
        },
        Err(e) => {
            assert(client.answers(query@, given));
            Err(e)
        },
    }
}

} // verus!
