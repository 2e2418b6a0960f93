//! Canonical case artifacts: one per cluster with an identifier in the
//! lookup results, keeping the first artifact of each canonical identifier.
use vstd::prelude::*;
use crate::text::{chars_of, push_all, push_str, string_of};
use crate::json::{
    copy_opt_string, copy_strings, json_int, json_opt_str, json_str, json_str_array, key,
    opt_view, push_int, push_json_string, push_key, push_opt_string, push_str_array, str_views,
    JsonRecord,
};
use crate::digest::{digest_of, sha256_text};
use crate::models::{
    json_verification_status, CanonicalCluster, CanonicalClusterView, ClusterCitation,
    ClusterCitationView, LookupRecord, LookupRecordView, UnverifiedReason, VerificationStatus,
};
use crate::resolver::cluster_key;
use crate::verify::lookup_views;

verus! {

/// A case that a lookup identified, with the citations it is reported under.
#[derive(Debug, Clone)]
pub struct CaseArtifact {
    pub artifact_id: String,
    pub canonical_id: String,
    pub case_name: String,
    pub citations: Vec<String>,
    pub date_filed: Option<String>,
    pub absolute_url: Option<String>,
    pub source: String,
    pub source_digest: String,
    pub verification_status: VerificationStatus,
}

/// The mathematical value of a [`CaseArtifact`].
pub struct CaseArtifactView {
    pub artifact_id: Seq<char>,
    pub canonical_id: Seq<char>,
    pub case_name: Seq<char>,
    pub citations: Seq<Seq<char>>,
    pub date_filed: Option<Seq<char>>,
    pub absolute_url: Option<Seq<char>>,
    pub source: Seq<char>,
    pub source_digest: Seq<char>,
    pub verification_status: VerificationStatus,
}

impl View for CaseArtifact {
    type V = CaseArtifactView;

    open spec fn view(&self) -> CaseArtifactView {
        CaseArtifactView {
            artifact_id: self.artifact_id@,
            canonical_id: self.canonical_id@,
            case_name: self.case_name@,
            citations: str_views(self.citations@),
            date_filed: opt_view(self.date_filed),
            absolute_url: opt_view(self.absolute_url),
            source: self.source@,
            source_digest: self.source_digest@,
            verification_status: self.verification_status,
        }
    }
}

/// The JSON text of a case artifact.
pub open spec fn json_case_artifact(v: CaseArtifactView) -> Seq<char> {
    "{"@ + key("artifact_id"@) + json_str(v.artifact_id)
        + ","@ + key("canonical_id"@) + json_str(v.canonical_id)
        + ","@ + key("case_name"@) + json_str(v.case_name)
        + ","@ + key("citations"@) + json_str_array(v.citations)
        + ","@ + key("date_filed"@) + json_opt_str(v.date_filed)
        + ","@ + key("absolute_url"@) + json_opt_str(v.absolute_url)
        + ","@ + key("source"@) + json_str(v.source)
        + ","@ + key("source_digest"@) + json_str(v.source_digest)
        + ","@ + key("verification_status"@) + json_verification_status(v.verification_status)
        + "}"@
}

impl JsonRecord for CaseArtifact {
    open spec fn json_view(&self) -> Seq<char> {
        json_case_artifact(self@)
    }

    fn to_json(&self) -> (r: Vec<char>) {
        let mut out = chars_of("{");
        push_key(&mut out, "artifact_id");
        push_json_string(&mut out, &self.artifact_id);
        push_str(&mut out, ",");
        push_key(&mut out, "canonical_id");
        push_json_string(&mut out, &self.canonical_id);
        push_str(&mut out, ",");
        push_key(&mut out, "case_name");
        push_json_string(&mut out, &self.case_name);
        push_str(&mut out, ",");
        push_key(&mut out, "citations");
        push_str_array(&mut out, &self.citations);
        push_str(&mut out, ",");
        push_key(&mut out, "date_filed");
        push_opt_string(&mut out, &self.date_filed);
        push_str(&mut out, ",");
        push_key(&mut out, "absolute_url");
        push_opt_string(&mut out, &self.absolute_url);
        push_str(&mut out, ",");
        push_key(&mut out, "source");
        push_json_string(&mut out, &self.source);
        push_str(&mut out, ",");
        push_key(&mut out, "source_digest");
        push_json_string(&mut out, &self.source_digest);
        push_str(&mut out, ",");
        push_key(&mut out, "verification_status");
        self.verification_status.push_json(&mut out);
        push_str(&mut out, "}");
        out
    }
}

/// The text `volume reporter page` of a cluster citation, when it has all three.
pub open spec fn citation_text(c: ClusterCitationView) -> Option<Seq<char>> {
    match (c.volume, c.reporter, c.page) {
        (Some(v), Some(r), Some(p)) => Some(json_int(v) + " "@ + r + " "@ + p),
        _ => None,
    }
}

/// The texts of the complete citations of a cluster, in order.
pub open spec fn citation_texts(cs: Seq<ClusterCitationView>) -> Seq<Seq<char>>
    decreases cs.len(),
{
    if cs.len() == 0 {
        seq![]
    } else {
        citation_texts(cs.drop_last()) + match citation_text(cs.last()) {
            Some(t) => seq![t],
            None => seq![],
        }
    }
}

/// The status of the artifacts of a lookup: verified when the lookup found
/// the citation (200); otherwise unverified, as ambiguous (300), not found
/// (404), or an API error.
pub open spec fn artifact_status(l: LookupRecordView) -> VerificationStatus {
    match l.api_status {
        Some(s) => if s == 200 {
            VerificationStatus::Verified
        } else if s == 300 {
            VerificationStatus::Unverified { reason: UnverifiedReason::Ambiguous }
        } else if s == 404 {
            VerificationStatus::Unverified { reason: UnverifiedReason::NotFound }
        } else {
            VerificationStatus::Unverified { reason: UnverifiedReason::ApiError }
        },
        None => VerificationStatus::Unverified { reason: UnverifiedReason::ApiError },
    }
}

/// The artifact of cluster `cl` (whose id is `id`) of lookup `l`, written
/// with id `pending`.
#[verifier::opaque]
pub open spec fn pending_artifact(
    l: LookupRecordView,
    cl: CanonicalClusterView,
    id: int,
) -> CaseArtifactView {
    CaseArtifactView {
        artifact_id: "pending"@,
        canonical_id: cluster_key(id),
        case_name: match cl.case_name {
            Some(n) => n,
            None => "UNKNOWN_CASE"@,
        },
        citations: citation_texts(cl.citations),
        date_filed: cl.date_filed,
        absolute_url: cl.absolute_url,
        source: l.source,
        source_digest: l.raw_response_digest,
        verification_status: artifact_status(l),
    }
}

/// The artifact of cluster `cl` of lookup `l`; its identifier commits to
/// the record written with id `pending`.
pub open spec fn artifact_for(
    l: LookupRecordView,
    cl: CanonicalClusterView,
    id: int,
) -> CaseArtifactView {
    let p = pending_artifact(l, cl, id);
    CaseArtifactView { artifact_id: digest_of(json_case_artifact(p)), ..p }
}

/// The artifacts of the clusters with an id among `cs`, all from lookup `l`.
pub open spec fn cluster_artifacts(l: LookupRecordView, cs: Seq<CanonicalClusterView>) -> Seq<
    CaseArtifactView,
>
    decreases cs.len(),
{
    if cs.len() == 0 {
        seq![]
    } else {
        cluster_artifacts(l, cs.drop_last()) + match cs.last().id {
            Some(id) => seq![artifact_for(l, cs.last(), id)],
            None => seq![],
        }
    }
}

/// The artifacts of every record, in order.
pub open spec fn record_artifacts(rs: Seq<LookupRecordView>) -> Seq<CaseArtifactView>
    decreases rs.len(),
{
    if rs.len() == 0 {
        seq![]
    } else {
        record_artifacts(rs.drop_last()) + cluster_artifacts(rs.last(), rs.last().clusters)
    }
}

/// Whether an artifact with canonical identifier `id` occurs in `s`.
pub open spec fn has_canonical(s: Seq<CaseArtifactView>, id: Seq<char>) -> bool {
    exists|i: int| 0 <= i < s.len() && (#[trigger] s[i]).canonical_id == id
}

/// The first artifact of each canonical identifier, in order.
pub open spec fn dedup_artifacts_spec(s: Seq<CaseArtifactView>) -> Seq<CaseArtifactView>
    decreases s.len(),
{
    if s.len() == 0 {
        seq![]
    } else {
        let prev = dedup_artifacts_spec(s.drop_last());
        if has_canonical(s.drop_last(), s.last().canonical_id) {
            prev
        } else {
            prev.push(s.last())
        }
    }
}

/// Views of a vector of artifacts.
pub open spec fn artifact_views(v: Seq<CaseArtifact>) -> Seq<CaseArtifactView> {
    v.map_values(|a: CaseArtifact| a@)
}

impl CaseArtifact {
    /// A copy of this artifact.
    pub fn duplicate(&self) -> (r: Self)
        ensures
            r@ == self@,
    {
        CaseArtifact {
            artifact_id: self.artifact_id.clone(),
            canonical_id: self.canonical_id.clone(),
            case_name: self.case_name.clone(),
            citations: copy_strings(&self.citations),
            date_filed: copy_opt_string(&self.date_filed),
            absolute_url: copy_opt_string(&self.absolute_url),
            source: self.source.clone(),
            source_digest: self.source_digest.clone(),
            verification_status: self.verification_status,
        }
    }
}

/// The `volume reporter page` text of a citation with all three parts.
fn citation_text_of(c: &ClusterCitation) -> (r: Option<String>)
    ensures
        opt_view(r) == citation_text(c@),
{
    match (&c.volume, &c.reporter, &c.page) {
        (Some(v), Some(r), Some(p)) => {
            let mut t: Vec<char> = Vec::new();
            push_int(&mut t, *v);
            push_str(&mut t, " ");
            push_all(&mut t, &crate::text::chars_of_string(r));
            push_str(&mut t, " ");
            push_all(&mut t, &crate::text::chars_of_string(p));
            Some(string_of(&t))
        },
        _ => None,
    }
}

/// The texts of the complete citations of a cluster.
fn citations_of(cs: &Vec<ClusterCitation>) -> (r: Vec<String>)
    ensures
        str_views(r@) == citation_texts(cs@.map_values(|x: ClusterCitation| x@)),
{
    let ghost views = cs@.map_values(|x: ClusterCitation| x@);
    let mut out: Vec<String> = Vec::new();
    for i in 0..cs.len()
        invariant
            views == cs@.map_values(|x: ClusterCitation| x@),
            str_views(out@) == citation_texts(views.take(i as int)),
    {
        assert(views.take(i + 1).drop_last() =~= views.take(i as int));
        let ghost before = out@;
        match citation_text_of(&cs[i]) {
            Some(t) => {
                out.push(t);
                assert(str_views(out@) =~= str_views(before).push(t@));
            },
            None => {},
        }
        assert(str_views(out@) =~= citation_texts(views.take(i + 1)));
    }
    assert(views.take(cs@.len() as int) =~= views);
    out
}

/// The status of the artifacts of a lookup.
fn status_of(l: &LookupRecord) -> (r: VerificationStatus)
    ensures
        r == artifact_status(l@),
{
    match l.api_status {
        Some(s) => if s == 200 {
            VerificationStatus::Verified
        } else if s == 300 {
            VerificationStatus::Unverified { reason: UnverifiedReason::Ambiguous }
        } else if s == 404 {
            VerificationStatus::Unverified { reason: UnverifiedReason::NotFound }
        } else {
            VerificationStatus::Unverified { reason: UnverifiedReason::ApiError }
        },
        None => VerificationStatus::Unverified { reason: UnverifiedReason::ApiError },
    }
}

/// The artifact of a cluster, written with id `pending`.
fn pending_artifact_of(l: &LookupRecord, cl: &CanonicalCluster, id: i64) -> (r: CaseArtifact)
    requires
        cl.id == Some(id),
    ensures
        r@ == pending_artifact(l@, cl@, id as int),
{
    proof {
        reveal(pending_artifact);
    }
    let mut key: Vec<char> = chars_of("cluster:");
    push_int(&mut key, id);
    let name = match &cl.case_name {
        Some(n) => n.clone(),
        None => string_of(&chars_of("UNKNOWN_CASE")),
    };
    CaseArtifact {
        artifact_id: string_of(&chars_of("pending")),
        canonical_id: string_of(&key),
        case_name: name,
        citations: citations_of(&cl.citations),
        date_filed: copy_opt_string(&cl.date_filed),
        absolute_url: copy_opt_string(&cl.absolute_url),
        source: l.source.clone(),
        source_digest: l.raw_response_digest.clone(),
        verification_status: status_of(l),
    }
}

/// The artifact of a cluster.
fn make_artifact(l: &LookupRecord, cl: &CanonicalCluster, id: i64) -> (r: CaseArtifact)
    requires
        cl.id == Some(id),
    ensures
        r@ == artifact_for(l@, cl@, id as int),
{
    let mut a = pending_artifact_of(l, cl, id);
    let json = a.to_json();
    a.artifact_id = sha256_text(&json);
    a
}

/// Appends the artifacts of the clusters of one lookup.
fn push_record_artifacts(out: &mut Vec<CaseArtifact>, l: &LookupRecord)
    ensures
        artifact_views(final(out)@) == artifact_views(old(out)@) + cluster_artifacts(
            l@,
            l@.clusters,
        ),
{
    let ghost views = l@.clusters;
    let ghost start = artifact_views(out@);
    for i in 0..l.clusters.len()
        invariant
            views == l@.clusters,
            views == l.clusters@.map_values(|x: CanonicalCluster| x@),
            artifact_views(out@) == start + cluster_artifacts(l@, views.take(i as int)),
    {
        assert(views.take(i + 1).drop_last() =~= views.take(i as int));
        assert(views.take(i + 1).last() == l.clusters@[i as int]@);
        let ghost before = out@;
        match l.clusters[i].id {
            Some(id) => {
                let a = make_artifact(l, &l.clusters[i], id);
                out.push(a);
                assert(artifact_views(out@) =~= artifact_views(before).push(a@));
            },
            None => {},
        }
        assert(artifact_views(out@) =~= start + cluster_artifacts(l@, views.take(i + 1)));
    }
    assert(views.take(l.clusters@.len() as int) =~= views);
}

proof fn lemma_has_canonical_take(s: Seq<CaseArtifactView>, j: int, id: Seq<char>)
    requires
        0 <= j < s.len(),
    ensures
        has_canonical(s.take(j + 1), id) == (has_canonical(s.take(j), id) || s[j].canonical_id
            == id),
{
    if has_canonical(s.take(j), id) {
        let w = choose|w: int| 0 <= w < j && (#[trigger] s.take(j)[w]).canonical_id == id;
        assert(s.take(j + 1)[w] == s.take(j)[w]);
    }
    if s[j].canonical_id == id {
        assert(s.take(j + 1)[j] == s[j]);
    }
    if has_canonical(s.take(j + 1), id) {
        let w = choose|w: int| 0 <= w < j + 1 && (#[trigger] s.take(j + 1)[w]).canonical_id == id;
        if w < j {
            assert(s.take(j)[w] == s.take(j + 1)[w]);
        }
    }
}

/// Keeps the first artifact of each canonical identifier, in order.
pub fn dedup_artifacts(artifacts: Vec<CaseArtifact>) -> (r: Vec<CaseArtifact>)
    ensures
        artifact_views(r@) == dedup_artifacts_spec(artifact_views(artifacts@)),
{
    let ghost av = artifact_views(artifacts@);
    let n = artifacts.len();
    let mut out: Vec<CaseArtifact> = Vec::new();
    for i in 0..n
        invariant
            n == av.len(),
            av == artifact_views(artifacts@),
            artifact_views(out@) == dedup_artifacts_spec(av.take(i as int)),
    {
        let mut seen = false;
        for j in 0..i
            invariant
                i < n,
                n == av.len(),
                av == artifact_views(artifacts@),
                seen == has_canonical(av.take(j as int), av[i as int].canonical_id),
        {
            proof {
                lemma_has_canonical_take(av, j as int, av[i as int].canonical_id);
            }
            if artifacts[j].canonical_id == artifacts[i].canonical_id {
                seen = true;
            }
        }
        let ghost before = out@;
        proof {
            assert(av.take(i + 1).drop_last() =~= av.take(i as int));
            assert(av.take(i + 1).last() == av[i as int]);
        }
        if !seen {
            let a = artifacts[i].duplicate();
            out.push(a);
            assert(artifact_views(out@) =~= artifact_views(before).push(av[i as int]));
        }
    }
    assert(av.take(n as int) =~= av);
    out
}

/// Builds the case artifacts of a list of lookup results: one per cluster
/// with an identifier, the first of each canonical identifier kept.
pub fn artifacts_from_lookup_results(results: &[LookupRecord]) -> (r: Result<
    Vec<CaseArtifact>,
    crate::CiteError,
>)
    ensures
        r matches Ok(v) && artifact_views(v@) == dedup_artifacts_spec(
            record_artifacts(lookup_views(results@)),
        ),
{
    let ghost views = lookup_views(results@);
    let mut out: Vec<CaseArtifact> = Vec::new();
    for i in 0..results.len()
        invariant
            views == lookup_views(results@),
            artifact_views(out@) == record_artifacts(views.take(i as int)),
    {
        assert(views.take(i + 1).drop_last() =~= views.take(i as int));
        assert(views.take(i + 1).last() == results@[i as int]@);
        push_record_artifacts(&mut out, &results[i]);
    }
    assert(views.take(results@.len() as int) =~= views);
    Ok(dedup_artifacts(out))
}

/// Distinct canonical identifiers: after deduplication no two artifacts
/// share a canonical identifier, every identifier of the input is still
/// present, and nothing else is.
pub proof fn law_artifacts_unique(s: Seq<CaseArtifactView>)
    ensures
        forall|i: int, j: int|
            0 <= i < j < dedup_artifacts_spec(s).len() ==> (#[trigger] dedup_artifacts_spec(s)[i]).canonical_id
                != (#[trigger] dedup_artifacts_spec(s)[j]).canonical_id,
        forall|id: Seq<char>| #[trigger] has_canonical(dedup_artifacts_spec(s), id) == has_canonical(s, id),
    decreases s.len(),
{
    if s.len() > 0 {
        let pre = s.drop_last();
        law_artifacts_unique(pre);
        let d = dedup_artifacts_spec(pre);
        assert forall|id: Seq<char>| has_canonical(s, id) == (has_canonical(pre, id) || s.last().canonical_id == id) by {
            lemma_has_canonical_take(s, s.len() - 1, id);
            assert(s.take(s.len() - 1) =~= pre);
            assert(s.take(s.len() as int) =~= s);
        }
        if !has_canonical(pre, s.last().canonical_id) {
            let e = d.push(s.last());
            assert forall|id: Seq<char>| has_canonical(e, id) == (has_canonical(d, id) || s.last().canonical_id == id) by {
                lemma_has_canonical_take(e, d.len() as int, id);
                assert(e.take(d.len() as int) =~= d);
                assert(e.take(e.len() as int) =~= e);
            }
            assert forall|i: int| 0 <= i < d.len() implies (#[trigger] d[i]).canonical_id != s.last().canonical_id by {
                assert(has_canonical(d, d[i].canonical_id));
            }
        }
    }
}

} // verus!
