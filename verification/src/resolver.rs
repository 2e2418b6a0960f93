//! Resolution of citation candidates: each candidate's search query is
//! answered by the lookup source, and the canonical cluster identifiers of
//! the answer are recorded with a content-addressed resolution identifier.
use vstd::prelude::*;
use crate::text::{chars_of, chars_of_string, push_all, push_str, string_of};
use crate::json::{
    decimal, json_bool, json_int, json_str, json_str_array, key, push_bool, push_decimal,
    push_int, push_json_string, push_key, push_str_array, str_views, JsonRecord,
};
use crate::digest::{digest_of, sha256_text};
use crate::models::{CanonicalCluster, CanonicalClusterView, LookupRecord, LookupRecordView};
use crate::candidates::{CitationCandidate, CitationCandidateView};
use crate::courtlistener::{records_in_text, FixtureLookup};
use crate::verify::lookup_views;

verus! {

/// The outcome of looking up one candidate.
#[derive(Debug, Clone)]
pub struct CandidateResolution {
    pub resolution_id: String,
    pub candidate_id: String,
    pub search_query: String,
    pub lookup_source: String,
    pub result_count: usize,
    pub canonical_ids: Vec<String>,
    pub resolved: bool,
    pub deterministic_basis: String,
}

/// The mathematical value of a [`CandidateResolution`].
pub struct CandidateResolutionView {
    pub resolution_id: Seq<char>,
    pub candidate_id: Seq<char>,
    pub search_query: Seq<char>,
    pub lookup_source: Seq<char>,
    pub result_count: nat,
    pub canonical_ids: Seq<Seq<char>>,
    pub resolved: bool,
    pub deterministic_basis: Seq<char>,
}

impl View for CandidateResolution {
    type V = CandidateResolutionView;

    open spec fn view(&self) -> CandidateResolutionView {
        CandidateResolutionView {
            resolution_id: self.resolution_id@,
            candidate_id: self.candidate_id@,
            search_query: self.search_query@,
            lookup_source: self.lookup_source@,
            result_count: self.result_count as nat,
            canonical_ids: str_views(self.canonical_ids@),
            resolved: self.resolved,
            deterministic_basis: self.deterministic_basis@,
        }
    }
}

/// The JSON text of a candidate resolution.
pub open spec fn json_candidate_resolution(v: CandidateResolutionView) -> Seq<char> {
    "{"@ + key("resolution_id"@) + json_str(v.resolution_id)
        + ","@ + key("candidate_id"@) + json_str(v.candidate_id)
        + ","@ + key("search_query"@) + json_str(v.search_query)
        + ","@ + key("lookup_source"@) + json_str(v.lookup_source)
        + ","@ + key("result_count"@) + decimal(v.result_count)
        + ","@ + key("canonical_ids"@) + json_str_array(v.canonical_ids)
        + ","@ + key("resolved"@) + json_bool(v.resolved)
        + ","@ + key("deterministic_basis"@) + json_str(v.deterministic_basis)
        + "}"@
}

impl JsonRecord for CandidateResolution {
    open spec fn json_view(&self) -> Seq<char> {
        json_candidate_resolution(self@)
    }

    fn to_json(&self) -> (r: Vec<char>) {
        let mut out = chars_of("{");
        push_key(&mut out, "resolution_id");
        push_json_string(&mut out, &self.resolution_id);
        push_str(&mut out, ",");
        push_key(&mut out, "candidate_id");
        push_json_string(&mut out, &self.candidate_id);
        push_str(&mut out, ",");
        push_key(&mut out, "search_query");
        push_json_string(&mut out, &self.search_query);
        push_str(&mut out, ",");
        push_key(&mut out, "lookup_source");
        push_json_string(&mut out, &self.lookup_source);
        push_str(&mut out, ",");
        push_key(&mut out, "result_count");
        push_decimal(&mut out, self.result_count as u64);
        push_str(&mut out, ",");
        push_key(&mut out, "canonical_ids");
        push_str_array(&mut out, &self.canonical_ids);
        push_str(&mut out, ",");
        push_key(&mut out, "resolved");
        push_bool(&mut out, self.resolved);
        push_str(&mut out, ",");
        push_key(&mut out, "deterministic_basis");
        push_json_string(&mut out, &self.deterministic_basis);
        push_str(&mut out, "}");
        out
    }
}

/// The canonical identifier of a cluster with a numeric id: `cluster:<id>`.
pub open spec fn cluster_key(id: int) -> Seq<char> {
    "cluster:"@ + json_int(id)
}

/// The canonical identifiers of the clusters that carry an id, in order.
pub open spec fn cluster_ids(cs: Seq<CanonicalClusterView>) -> Seq<Seq<char>>
    decreases cs.len(),
{
    if cs.len() == 0 {
        seq![]
    } else {
        cluster_ids(cs.drop_last()) + match cs.last().id {
            Some(id) => seq![cluster_key(id)],
            None => seq![],
        }
    }
}

/// The canonical identifiers of every cluster of every record, in order.
pub open spec fn canonical_ids(rs: Seq<LookupRecordView>) -> Seq<Seq<char>>
    decreases rs.len(),
{
    if rs.len() == 0 {
        seq![]
    } else {
        canonical_ids(rs.drop_last()) + cluster_ids(rs.last().clusters)
    }
}

/// The resolution of candidate `c` from the lookup records `records`
/// answered for its query; its identifier commits to the record written
/// with id `pending`.
#[verifier::opaque]
pub open spec fn resolution_for(
    c: CitationCandidateView,
    records: Seq<LookupRecordView>,
) -> CandidateResolutionView {
    let ids = canonical_ids(records);
    let pending = CandidateResolutionView {
        resolution_id: "pending"@,
        candidate_id: c.candidate_id,
        search_query: c.search_query,
        lookup_source: "fixture:courtlistener"@,
        result_count: ids.len(),
        canonical_ids: ids,
        resolved: ids.len() > 0,
        deterministic_basis: "candidate_resolution_v0"@,
    };
    CandidateResolutionView { resolution_id: digest_of(json_candidate_resolution(pending)), ..pending }
}

/// Views of a vector of resolutions.
pub open spec fn resolution_views(v: Seq<CandidateResolution>) -> Seq<CandidateResolutionView> {
    v.map_values(|r: CandidateResolution| r@)
}

/// The canonical identifiers of a cluster list.
fn push_cluster_ids(out: &mut Vec<String>, cs: &Vec<CanonicalCluster>)
    ensures
        str_views(final(out)@) == str_views(old(out)@) + cluster_ids(
            cs@.map_values(|x: CanonicalCluster| x@),
        ),
{
    let ghost views = cs@.map_values(|x: CanonicalCluster| x@);
    let ghost start = str_views(out@);
    for i in 0..cs.len()
        invariant
            views == cs@.map_values(|x: CanonicalCluster| x@),
            str_views(out@) == start + cluster_ids(views.take(i as int)),
    {
        assert(views.take(i + 1).drop_last() =~= views.take(i as int));
        match cs[i].id {
            Some(id) => {
                let mut k = chars_of("cluster:");
                push_int(&mut k, id);
                let ghost before = out@;
                out.push(string_of(&k));
                assert(str_views(out@) =~= str_views(before).push(k@));
            },
            None => {},
        }
        assert(str_views(out@) =~= start + cluster_ids(views.take(i + 1)));
    }
    assert(views.take(cs@.len() as int) =~= views);
}

/// The canonical identifiers of every cluster of every record.
pub fn collect_canonical_ids(records: &Vec<LookupRecord>) -> (r: Vec<String>)
    ensures
        str_views(r@) == canonical_ids(lookup_views(records@)),
{
    let ghost views = lookup_views(records@);
    let mut out: Vec<String> = Vec::new();
    for i in 0..records.len()
        invariant
            views == lookup_views(records@),
            str_views(out@) == canonical_ids(views.take(i as int)),
    {
        assert(views.take(i + 1).drop_last() =~= views.take(i as int));
        push_cluster_ids(&mut out, &records[i].clusters);
        assert(str_views(out@) =~= canonical_ids(views.take(i + 1)));
    }
    assert(views.take(records@.len() as int) =~= views);
    out
}

/// Resolves one candidate from the lookup records answered for its query.
pub fn resolve_candidate(c: &CitationCandidate, records: &Vec<LookupRecord>) -> (r:
    CandidateResolution)
    ensures
        r@ == resolution_for(c@, lookup_views(records@)),
{
    let ids = collect_canonical_ids(records);
    let n = ids.len();
    proof {
        assert(str_views(ids@).len() == ids@.len());
    }
    let mut res = CandidateResolution {
        resolution_id: string_of(&chars_of("pending")),
        candidate_id: c.candidate_id.clone(),
        search_query: c.search_query.clone(),
        lookup_source: string_of(&chars_of("fixture:courtlistener")),
        result_count: n,
        canonical_ids: ids,
        resolved: n > 0,
        deterministic_basis: string_of(&chars_of("candidate_resolution_v0")),
    };
    let json = res.to_json();
    res.resolution_id = sha256_text(&json);
    proof {
        reveal(resolution_for);
    }
    res
}

/// Resolves every candidate against the offline fixture, in order.
pub fn resolve_candidates_with_fixtures(
    candidates: &Vec<CitationCandidate>,
    lookup: &FixtureLookup,
) -> (r: Result<Vec<CandidateResolution>, crate::CiteError>)
    ensures
        r matches Ok(v) && v@.len() == candidates@.len() && forall|i: int|
            0 <= i < v@.len() ==> #[trigger] v@[i]@ == resolution_for(
                candidates@[i]@,
                records_in_text(lookup@, candidates@[i].search_query@),
            ),
{
    let mut out: Vec<CandidateResolution> = Vec::new();
    for i in 0..candidates.len()
        invariant
            out@.len() == i,
            forall|j: int|
                0 <= j < i ==> #[trigger] out@[j]@ == resolution_for(
                    candidates@[j]@,
                    records_in_text(lookup@, candidates@[j].search_query@),
                ),
    {
        let found = lookup.lookup(candidates[i].search_query.as_str());
        out.push(resolve_candidate(&candidates[i], &found));
    }
    Ok(out)
}

} // verus!
