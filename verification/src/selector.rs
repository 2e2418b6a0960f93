//! Selection of one candidate per citation need: among the candidates of
//! the need whose resolution resolved, the first with the fewest canonical
//! matches.
use vstd::prelude::*;
use crate::text::{chars_of, push_all, push_str, string_of};
use crate::json::{
    copy_strings, json_bool, json_str, json_str_array, key, push_bool, push_json_string, push_key,
    push_str_array, str_views, JsonRecord,
};
use crate::digest::{digest_of, sha256_text};
use crate::planner::{CitationNeed, CitationNeedView};
use crate::candidates::{candidate_views, CitationCandidate, CitationCandidateView};
use crate::resolver::{resolution_views, CandidateResolution, CandidateResolutionView};

verus! {

/// The candidate chosen for one citation need, or the record that none was.
#[derive(Debug, Clone)]
pub struct SelectedCitation {
    pub selection_id: String,
    pub need_id: String,
    pub candidate_id: String,
    pub resolution_id: String,
    pub canonical_ids: Vec<String>,
    pub selected: bool,
    pub reason: String,
    pub deterministic_basis: String,
}

/// The mathematical value of a [`SelectedCitation`].
pub struct SelectedCitationView {
    pub selection_id: Seq<char>,
    pub need_id: Seq<char>,
    pub candidate_id: Seq<char>,
    pub resolution_id: Seq<char>,
    pub canonical_ids: Seq<Seq<char>>,
    pub selected: bool,
    pub reason: Seq<char>,
    pub deterministic_basis: Seq<char>,
}

impl View for SelectedCitation {
    type V = SelectedCitationView;

    open spec fn view(&self) -> SelectedCitationView {
        SelectedCitationView {
            selection_id: self.selection_id@,
            need_id: self.need_id@,
            candidate_id: self.candidate_id@,
            resolution_id: self.resolution_id@,
            canonical_ids: str_views(self.canonical_ids@),
            selected: self.selected,
            reason: self.reason@,
            deterministic_basis: self.deterministic_basis@,
        }
    }
}

/// The JSON text of a selected citation.
pub open spec fn json_selected_citation(v: SelectedCitationView) -> Seq<char> {
    "{"@ + key("selection_id"@) + json_str(v.selection_id)
        + ","@ + key("need_id"@) + json_str(v.need_id)
        + ","@ + key("candidate_id"@) + json_str(v.candidate_id)
        + ","@ + key("resolution_id"@) + json_str(v.resolution_id)
        + ","@ + key("canonical_ids"@) + json_str_array(v.canonical_ids)
        + ","@ + key("selected"@) + json_bool(v.selected)
        + ","@ + key("reason"@) + json_str(v.reason)
        + ","@ + key("deterministic_basis"@) + json_str(v.deterministic_basis)
        + "}"@
}

impl JsonRecord for SelectedCitation {
    open spec fn json_view(&self) -> Seq<char> {
        json_selected_citation(self@)
    }

    fn to_json(&self) -> (r: Vec<char>) {
        let mut out = chars_of("{");
        push_key(&mut out, "selection_id");
        push_json_string(&mut out, &self.selection_id);
        push_str(&mut out, ",");
        push_key(&mut out, "need_id");
        push_json_string(&mut out, &self.need_id);
        push_str(&mut out, ",");
        push_key(&mut out, "candidate_id");
        push_json_string(&mut out, &self.candidate_id);
        push_str(&mut out, ",");
        push_key(&mut out, "resolution_id");
        push_json_string(&mut out, &self.resolution_id);
        push_str(&mut out, ",");
        push_key(&mut out, "canonical_ids");
        push_str_array(&mut out, &self.canonical_ids);
        push_str(&mut out, ",");
        push_key(&mut out, "selected");
        push_bool(&mut out, self.selected);
        push_str(&mut out, ",");
        push_key(&mut out, "reason");
        push_json_string(&mut out, &self.reason);
        push_str(&mut out, ",");
        push_key(&mut out, "deterministic_basis");
        push_json_string(&mut out, &self.deterministic_basis);
        push_str(&mut out, "}");
        out
    }
}

/// The resolution that stands for candidate `cid`: the last one recorded
/// for it.
pub open spec fn last_resolution_for(
    rs: Seq<CandidateResolutionView>,
    cid: Seq<char>,
) -> Option<CandidateResolutionView>
    decreases rs.len(),
{
    if rs.len() == 0 {
        None
    } else if rs.last().candidate_id == cid {
        Some(rs.last())
    } else {
        last_resolution_for(rs.drop_last(), cid)
    }
}

/// The resolved resolution of candidate `c` when it belongs to need
/// `need_id`; `None` when it belongs to another need, has no resolution or
/// did not resolve.
pub open spec fn usable(
    c: CitationCandidateView,
    need_id: Seq<char>,
    rs: Seq<CandidateResolutionView>,
) -> Option<CandidateResolutionView> {
    if c.need_id == need_id {
        match last_resolution_for(rs, c.candidate_id) {
            Some(r) => if r.resolved {
                Some(r)
            } else {
                None
            },
            None => None,
        }
    } else {
        None
    }
}

/// The position of the chosen candidate for need `need_id` and its
/// resolution: scanning in order, a usable candidate replaces the current
/// choice only when its result count is strictly smaller.
pub open spec fn best_for(
    need_id: Seq<char>,
    cs: Seq<CitationCandidateView>,
    rs: Seq<CandidateResolutionView>,
) -> Option<(int, CandidateResolutionView)>
    decreases cs.len(),
{
    if cs.len() == 0 {
        None
    } else {
        let prev = best_for(need_id, cs.drop_last(), rs);
        match usable(cs.last(), need_id, rs) {
            Some(r) => match prev {
                None => Some((cs.len() - 1, r)),
                Some(b) => if r.result_count < b.1.result_count {
                    Some((cs.len() - 1, r))
                } else {
                    prev
                },
            },
            None => prev,
        }
    }
}

/// The selection record for need `n` written with id `pending`.
#[verifier::opaque]
pub open spec fn pending_selection(
    n: CitationNeedView,
    cs: Seq<CitationCandidateView>,
    rs: Seq<CandidateResolutionView>,
) -> SelectedCitationView {
    match best_for(n.need_id, cs, rs) {
        Some(b) => SelectedCitationView {
            selection_id: "pending"@,
            need_id: n.need_id,
            candidate_id: cs[b.0].candidate_id,
            resolution_id: b.1.resolution_id,
            canonical_ids: b.1.canonical_ids,
            selected: true,
            reason: "unique or minimal match"@,
            deterministic_basis: "selection_v0_min_result_count"@,
        },
        None => SelectedCitationView {
            selection_id: "pending"@,
            need_id: n.need_id,
            candidate_id: "none"@,
            resolution_id: "none"@,
            canonical_ids: seq![],
            selected: false,
            reason: "no resolved candidate"@,
            deterministic_basis: "selection_v0_min_result_count"@,
        },
    }
}

/// The selection record for need `n`; its identifier commits to the record
/// written with id `pending`.
pub open spec fn selection_for(
    n: CitationNeedView,
    cs: Seq<CitationCandidateView>,
    rs: Seq<CandidateResolutionView>,
) -> SelectedCitationView {
    let pending = pending_selection(n, cs, rs);
    SelectedCitationView { selection_id: digest_of(json_selected_citation(pending)), ..pending }
}

/// Views of a vector of selections.
pub open spec fn selection_views(v: Seq<SelectedCitation>) -> Seq<SelectedCitationView> {
    v.map_values(|s: SelectedCitation| s@)
}

/// The position of the last resolution recorded for candidate `cid`.
fn find_last_resolution(rs: &Vec<CandidateResolution>, cid: &String) -> (r: Option<usize>)
    ensures
        r matches Some(k) ==> k < rs@.len() && last_resolution_for(resolution_views(rs@), cid@)
            == Some(rs@[k as int]@),
        r is None ==> last_resolution_for(resolution_views(rs@), cid@) is None,
{
    let mut k = rs.len();
    assert(rs@.take(k as int) =~= rs@);
    while k > 0
        invariant
            k <= rs@.len(),
            last_resolution_for(resolution_views(rs@), cid@) == last_resolution_for(
                resolution_views(rs@.take(k as int)),
                cid@,
            ),
        decreases k,
    {
        let ghost pre = resolution_views(rs@.take(k as int));
        assert(pre.drop_last() =~= resolution_views(rs@.take(k - 1)));
        assert(pre.last() == rs@[k - 1]@);
        if rs[k - 1].candidate_id == *cid {
            return Some(k - 1);
        }
        k = k - 1;
    }
    None
}

/// The chosen candidate position and resolution position for a need.
fn best_candidate(
    need_id: &String,
    cs: &Vec<CitationCandidate>,
    rs: &Vec<CandidateResolution>,
) -> (r: Option<(usize, usize)>)
    ensures
        match best_for(need_id@, candidate_views(cs@), resolution_views(rs@)) {
            None => r is None,
            Some(b) => r matches Some(p) && p.0 == b.0 && p.0 < cs@.len() && p.1 < rs@.len()
                && rs@[p.1 as int]@ == b.1,
        },
{
    let ghost cv = candidate_views(cs@);
    let ghost rv = resolution_views(rs@);
    let mut best: Option<(usize, usize)> = None;
    for i in 0..cs.len()
        invariant
            cv == candidate_views(cs@),
            rv == resolution_views(rs@),
            match best_for(need_id@, cv.take(i as int), rv) {
                None => best is None,
                Some(b) => best matches Some(p) && p.0 == b.0 && p.0 < i && p.1 < rs@.len()
                    && rs@[p.1 as int]@ == b.1,
            },
    {
        assert(cv.take(i + 1).drop_last() =~= cv.take(i as int));
        assert(cv.take(i + 1).last() == cs@[i as int]@);
        if cs[i].need_id == *need_id {
            match find_last_resolution(rs, &cs[i].candidate_id) {
                Some(k) => {
                    if rs[k].resolved {
                        match best {
                            None => {
                                best = Some((i, k));
                            },
                            Some(p) => {
                                if rs[k].result_count < rs[p.1].result_count {
                                    best = Some((i, k));
                                }
                            },
                        }
                    }
                },
                None => {},
            }
        }
    }
    assert(cv.take(cs@.len() as int) =~= cv);
    best
}

/// The selection record for one need, written with id `pending`.
fn pending_record(
    need: &CitationNeed,
    cs: &Vec<CitationCandidate>,
    rs: &Vec<CandidateResolution>,
) -> (r: SelectedCitation)
    ensures
        r@ == pending_selection(need@, candidate_views(cs@), resolution_views(rs@)),
{
    proof {
        reveal(pending_selection);
        assert(str_views(Seq::<String>::empty()) =~= Seq::<Seq<char>>::empty());
    }
    match best_candidate(&need.need_id, cs, rs) {
        Some(p) => SelectedCitation {
            selection_id: string_of(&chars_of("pending")),
            need_id: need.need_id.clone(),
            candidate_id: cs[p.0].candidate_id.clone(),
            resolution_id: rs[p.1].resolution_id.clone(),
            canonical_ids: copy_strings(&rs[p.1].canonical_ids),
            selected: true,
            reason: string_of(&chars_of("unique or minimal match")),
            deterministic_basis: string_of(&chars_of("selection_v0_min_result_count")),
        },
        None => SelectedCitation {
            selection_id: string_of(&chars_of("pending")),
            need_id: need.need_id.clone(),
            candidate_id: string_of(&chars_of("none")),
            resolution_id: string_of(&chars_of("none")),
            canonical_ids: Vec::new(),
            selected: false,
            reason: string_of(&chars_of("no resolved candidate")),
            deterministic_basis: string_of(&chars_of("selection_v0_min_result_count")),
        },
    }
}

/// The selection record for one need.
fn select_for_need(
    need: &CitationNeed,
    cs: &Vec<CitationCandidate>,
    rs: &Vec<CandidateResolution>,
) -> (r: SelectedCitation)
    ensures
        r@ == selection_for(need@, candidate_views(cs@), resolution_views(rs@)),
{
    let mut sel = pending_record(need, cs, rs);
    let json = sel.to_json();
    sel.selection_id = sha256_text(&json);
    sel
}

/// Selects, for every need in order, the best resolved candidate.
pub fn select_best_candidates(
    needs: &Vec<CitationNeed>,
    candidates: &Vec<CitationCandidate>,
    resolutions: &Vec<CandidateResolution>,
) -> (r: Result<Vec<SelectedCitation>, crate::CiteError>)
    ensures
        r matches Ok(v) && v@.len() == needs@.len() && forall|i: int|
            0 <= i < v@.len() ==> #[trigger] v@[i]@ == selection_for(
                needs@[i]@,
                candidate_views(candidates@),
                resolution_views(resolutions@),
            ),
{
    let mut out: Vec<SelectedCitation> = Vec::new();
    for i in 0..needs.len()
        invariant
            out@.len() == i,
            forall|j: int|
                0 <= j < i ==> #[trigger] out@[j]@ == selection_for(
                    needs@[j]@,
                    candidate_views(candidates@),
                    resolution_views(resolutions@),
                ),
    {
        out.push(select_for_need(&needs[i], candidates, resolutions));
    }
    Ok(out)
}

/// Minimal selection: for a need, nothing is chosen exactly when none of
/// its candidates has a resolved resolution; otherwise the chosen
/// candidate belongs to the need, its resolution resolved, no candidate of
/// the need has fewer matches, and every earlier candidate of the need has
/// strictly more.
pub proof fn law_selection_is_first_minimal(
    need_id: Seq<char>,
    cs: Seq<CitationCandidateView>,
    rs: Seq<CandidateResolutionView>,
)
    ensures
        best_for(need_id, cs, rs) is None <==> forall|i: int|
            0 <= i < cs.len() ==> #[trigger] usable(cs[i], need_id, rs) is None,
        best_for(need_id, cs, rs) matches Some(b) ==> {
            &&& 0 <= b.0 < cs.len()
            &&& cs[b.0].need_id == need_id
            &&& usable(cs[b.0], need_id, rs) == Some(b.1)
            &&& b.1.resolved
            &&& forall|j: int|
                0 <= j < cs.len() && #[trigger] usable(cs[j], need_id, rs) is Some ==> b.1.result_count
                    <= usable(cs[j], need_id, rs)->0.result_count
            &&& forall|j: int|
                0 <= j < b.0 && #[trigger] usable(cs[j], need_id, rs) is Some ==> b.1.result_count
                    < usable(cs[j], need_id, rs)->0.result_count
        },
    decreases cs.len(),
{
    if cs.len() > 0 {
        let pre = cs.drop_last();
        let k = cs.len() - 1;
        law_selection_is_first_minimal(need_id, pre, rs);
        assert(cs.last() == cs[k]);
        assert forall|i: int| 0 <= i < pre.len() implies #[trigger] usable(pre[i], need_id, rs)
            == usable(cs[i], need_id, rs) by {
            assert(pre[i] == cs[i]);
        }
        assert forall|i: int| 0 <= i < pre.len() implies #[trigger] usable(cs[i], need_id, rs)
            == usable(pre[i], need_id, rs) by {
            assert(pre[i] == cs[i]);
        }
    }
}

/// A selection is made exactly when the need has a usable candidate, and
/// then it carries that candidate's identifier and its resolution's
/// identifier and canonical identifiers; otherwise it names none.
pub proof fn law_selection_record(
    n: CitationNeedView,
    cs: Seq<CitationCandidateView>,
    rs: Seq<CandidateResolutionView>,
)
    ensures
        selection_for(n, cs, rs).need_id == n.need_id,
        selection_for(n, cs, rs).selected == best_for(n.need_id, cs, rs) is Some,
        best_for(n.need_id, cs, rs) matches Some(b) ==> {
            &&& selection_for(n, cs, rs).candidate_id == cs[b.0].candidate_id
            &&& selection_for(n, cs, rs).resolution_id == b.1.resolution_id
            &&& selection_for(n, cs, rs).canonical_ids == b.1.canonical_ids
        },
        best_for(n.need_id, cs, rs) is None ==> {
            &&& selection_for(n, cs, rs).candidate_id == "none"@
            &&& selection_for(n, cs, rs).canonical_ids.len() == 0
        },
{
    reveal(pending_selection);
}

} // verus!
