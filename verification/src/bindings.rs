//! Binding of selected citations to case artifacts: every canonical
//! identifier of a selected citation becomes a binding, bound to the
//! artifact of that identifier when there is one.
use vstd::prelude::*;
use crate::text::{chars_of, push_all, push_str, string_of};
use crate::json::{
    copy_opt_string, copy_strings, json_bool, json_opt_str, json_str, json_str_array, key,
    push_bool, push_json_string, push_key, push_opt_string, push_str_array, str_views,
    JsonRecord, opt_view,
};
use crate::digest::{digest_of, sha256_text};
use crate::models::{json_verification_status, UnverifiedReason, VerificationStatus};
use crate::artifact::{artifact_views, CaseArtifact, CaseArtifactView};
use crate::selector::{selection_views, SelectedCitation, SelectedCitationView};

verus! {

/// One canonical identifier of a selected citation and the artifact it is
/// bound to.
#[derive(Debug, Clone)]
pub struct SelectedArtifactBinding {
    pub binding_id: String,
    pub selection_id: String,
    pub need_id: String,
    pub canonical_id: String,
    pub artifact_id: String,
    pub case_name: String,
    pub citations: Vec<String>,
    pub date_filed: Option<String>,
    pub absolute_url: Option<String>,
    pub bound: bool,
    pub verification_status: VerificationStatus,
    pub reason: String,
    pub deterministic_basis: String,
}

/// The mathematical value of a [`SelectedArtifactBinding`].
pub struct SelectedArtifactBindingView {
    pub binding_id: Seq<char>,
    pub selection_id: Seq<char>,
    pub need_id: Seq<char>,
    pub canonical_id: Seq<char>,
    pub artifact_id: Seq<char>,
    pub case_name: Seq<char>,
    pub citations: Seq<Seq<char>>,
    pub date_filed: Option<Seq<char>>,
    pub absolute_url: Option<Seq<char>>,
    pub bound: bool,
    pub verification_status: VerificationStatus,
    pub reason: Seq<char>,
    pub deterministic_basis: Seq<char>,
}

impl View for SelectedArtifactBinding {
    type V = SelectedArtifactBindingView;

    open spec fn view(&self) -> SelectedArtifactBindingView {
        SelectedArtifactBindingView {
            binding_id: self.binding_id@,
            selection_id: self.selection_id@,
            need_id: self.need_id@,
            canonical_id: self.canonical_id@,
            artifact_id: self.artifact_id@,
            case_name: self.case_name@,
            citations: str_views(self.citations@),
            date_filed: opt_view(self.date_filed),
            absolute_url: opt_view(self.absolute_url),
            bound: self.bound,
            verification_status: self.verification_status,
            reason: self.reason@,
            deterministic_basis: self.deterministic_basis@,
        }
    }
}

/// The JSON text of a selection-artifact binding.
pub open spec fn json_binding(v: SelectedArtifactBindingView) -> Seq<char> {
    "{"@ + key("binding_id"@) + json_str(v.binding_id)
        + ","@ + key("selection_id"@) + json_str(v.selection_id)
        + ","@ + key("need_id"@) + json_str(v.need_id)
        + ","@ + key("canonical_id"@) + json_str(v.canonical_id)
        + ","@ + key("artifact_id"@) + json_str(v.artifact_id)
        + ","@ + key("case_name"@) + json_str(v.case_name)
        + ","@ + key("citations"@) + json_str_array(v.citations)
        + ","@ + key("date_filed"@) + json_opt_str(v.date_filed)
        + ","@ + key("absolute_url"@) + json_opt_str(v.absolute_url)
        + ","@ + key("bound"@) + json_bool(v.bound)
        + ","@ + key("verification_status"@) + json_verification_status(v.verification_status)
        + ","@ + key("reason"@) + json_str(v.reason)
        + ","@ + key("deterministic_basis"@) + json_str(v.deterministic_basis)
        + "}"@
}

impl JsonRecord for SelectedArtifactBinding {
    open spec fn json_view(&self) -> Seq<char> {
        json_binding(self@)
    }

    fn to_json(&self) -> (r: Vec<char>) {
        let mut out = chars_of("{");
        push_key(&mut out, "binding_id");
        push_json_string(&mut out, &self.binding_id);
        push_str(&mut out, ",");
        push_key(&mut out, "selection_id");
        push_json_string(&mut out, &self.selection_id);
        push_str(&mut out, ",");
        push_key(&mut out, "need_id");
        push_json_string(&mut out, &self.need_id);
        push_str(&mut out, ",");
        push_key(&mut out, "canonical_id");
        push_json_string(&mut out, &self.canonical_id);
        push_str(&mut out, ",");
        push_key(&mut out, "artifact_id");
        push_json_string(&mut out, &self.artifact_id);
        push_str(&mut out, ",");
        push_key(&mut out, "case_name");
        push_json_string(&mut out, &self.case_name);
        push_str(&mut out, ",");
        push_key(&mut out, "citations");
        push_str_array(&mut out, &self.citations);
        push_str(&mut out, ",");
        push_key(&mut out, "date_filed");
        push_opt_string(&mut out, &self.date_filed);
        push_str(&mut out, ",");
        push_key(&mut out, "absolute_url");
        push_opt_string(&mut out, &self.absolute_url);
        push_str(&mut out, ",");
        push_key(&mut out, "bound");
        push_bool(&mut out, self.bound);
        push_str(&mut out, ",");
        push_key(&mut out, "verification_status");
        self.verification_status.push_json(&mut out);
        push_str(&mut out, ",");
        push_key(&mut out, "reason");
        push_json_string(&mut out, &self.reason);
        push_str(&mut out, ",");
        push_key(&mut out, "deterministic_basis");
        push_json_string(&mut out, &self.deterministic_basis);
        push_str(&mut out, "}");
        out
    }
}

/// The artifact that stands for canonical identifier `id`: the last one
/// with that identifier.
pub open spec fn last_artifact_for(arts: Seq<CaseArtifactView>, id: Seq<char>) -> Option<
    CaseArtifactView,
>
    decreases arts.len(),
{
    if arts.len() == 0 {
        None
    } else if arts.last().canonical_id == id {
        Some(arts.last())
    } else {
        last_artifact_for(arts.drop_last(), id)
    }
}

/// The binding of identifier `id` of selection `s`, written with id `pending`.
#[verifier::opaque]
pub open spec fn pending_binding(
    s: SelectedCitationView,
    id: Seq<char>,
    arts: Seq<CaseArtifactView>,
) -> SelectedArtifactBindingView {
    match last_artifact_for(arts, id) {
        Some(a) => SelectedArtifactBindingView {
            binding_id: "pending"@,
            selection_id: s.selection_id,
            need_id: s.need_id,
            canonical_id: id,
            artifact_id: a.artifact_id,
            case_name: a.case_name,
            citations: a.citations,
            date_filed: a.date_filed,
            absolute_url: a.absolute_url,
            bound: true,
            verification_status: a.verification_status,
            reason: "canonical artifact found"@,
            deterministic_basis: "selection_artifact_binding_v0"@,
        },
        None => SelectedArtifactBindingView {
            binding_id: "pending"@,
            selection_id: s.selection_id,
            need_id: s.need_id,
            canonical_id: id,
            artifact_id: "none"@,
            case_name: "UNBOUND"@,
            citations: seq![],
            date_filed: None,
            absolute_url: None,
            bound: false,
            verification_status: VerificationStatus::Unverified {
                reason: UnverifiedReason::NotFound,
            },
            reason: "selected canonical id has no artifact"@,
            deterministic_basis: "selection_artifact_binding_v0"@,
        },
    }
}

/// The binding of identifier `id` of selection `s`; its identifier commits
/// to the record written with id `pending`.
pub open spec fn binding_for(
    s: SelectedCitationView,
    id: Seq<char>,
    arts: Seq<CaseArtifactView>,
) -> SelectedArtifactBindingView {
    let p = pending_binding(s, id, arts);
    SelectedArtifactBindingView { binding_id: digest_of(json_binding(p)), ..p }
}

/// The bindings of the first `k` identifiers of selection `s`.
pub open spec fn bindings_upto(
    s: SelectedCitationView,
    k: int,
    arts: Seq<CaseArtifactView>,
) -> Seq<SelectedArtifactBindingView> {
    Seq::new(k as nat, |j: int| binding_for(s, s.canonical_ids[j], arts))
}

/// The bindings of one selection: none when it selected nothing, else one
/// per canonical identifier, in order.
pub open spec fn selection_bindings(
    s: SelectedCitationView,
    arts: Seq<CaseArtifactView>,
) -> Seq<SelectedArtifactBindingView> {
    if s.selected {
        bindings_upto(s, s.canonical_ids.len() as int, arts)
    } else {
        seq![]
    }
}

/// The bindings of every selection, in order.
pub open spec fn all_bindings(
    sels: Seq<SelectedCitationView>,
    arts: Seq<CaseArtifactView>,
) -> Seq<SelectedArtifactBindingView>
    decreases sels.len(),
{
    if sels.len() == 0 {
        seq![]
    } else {
        all_bindings(sels.drop_last(), arts) + selection_bindings(sels.last(), arts)
    }
}

/// Views of a vector of bindings.
pub open spec fn binding_views(v: Seq<SelectedArtifactBinding>) -> Seq<SelectedArtifactBindingView> {
    v.map_values(|b: SelectedArtifactBinding| b@)
}

/// The position of the last artifact with canonical identifier `id`.
fn find_last_artifact(arts: &[CaseArtifact], id: &String) -> (r: Option<usize>)
    ensures
        r matches Some(k) ==> k < arts@.len() && last_artifact_for(artifact_views(arts@), id@)
            == Some(arts@[k as int]@),
        r is None ==> last_artifact_for(artifact_views(arts@), id@) is None,
{
    let mut k = arts.len();
    assert(arts@.take(k as int) =~= arts@);
    while k > 0
        invariant
            k <= arts@.len(),
            last_artifact_for(artifact_views(arts@), id@) == last_artifact_for(
                artifact_views(arts@.take(k as int)),
                id@,
            ),
        decreases k,
    {
        let ghost pre = artifact_views(arts@.take(k as int));
        assert(pre.drop_last() =~= artifact_views(arts@.take(k - 1)));
        assert(pre.last() == arts@[k - 1]@);
        if arts[k - 1].canonical_id == *id {
            return Some(k - 1);
        }
        k = k - 1;
    }
    None
}

/// The binding of one canonical identifier, written with id `pending`.
fn pending_binding_of(s: &SelectedCitation, id: &String, arts: &[CaseArtifact]) -> (r:
    SelectedArtifactBinding)
    ensures
        r@ == pending_binding(s@, id@, artifact_views(arts@)),
{
    proof {
        reveal(pending_binding);
        assert(str_views(Seq::<String>::empty()) =~= Seq::<Seq<char>>::empty());
    }
    match find_last_artifact(arts, id) {
        Some(k) => SelectedArtifactBinding {
            binding_id: string_of(&chars_of("pending")),
            selection_id: s.selection_id.clone(),
            need_id: s.need_id.clone(),
            canonical_id: id.clone(),
            artifact_id: arts[k].artifact_id.clone(),
            case_name: arts[k].case_name.clone(),
            citations: copy_strings(&arts[k].citations),
            date_filed: copy_opt_string(&arts[k].date_filed),
            absolute_url: copy_opt_string(&arts[k].absolute_url),
            bound: true,
            verification_status: arts[k].verification_status,
            reason: string_of(&chars_of("canonical artifact found")),
            deterministic_basis: string_of(&chars_of("selection_artifact_binding_v0")),
        },
        None => SelectedArtifactBinding {
            binding_id: string_of(&chars_of("pending")),
            selection_id: s.selection_id.clone(),
            need_id: s.need_id.clone(),
            canonical_id: id.clone(),
            artifact_id: string_of(&chars_of("none")),
            case_name: string_of(&chars_of("UNBOUND")),
            citations: Vec::new(),
            date_filed: None,
            absolute_url: None,
            bound: false,
            verification_status: VerificationStatus::Unverified {
                reason: UnverifiedReason::NotFound,
            },
            reason: string_of(&chars_of("selected canonical id has no artifact")),
            deterministic_basis: string_of(&chars_of("selection_artifact_binding_v0")),
        },
    }
}

/// The binding of one canonical identifier.
fn make_binding(s: &SelectedCitation, id: &String, arts: &[CaseArtifact]) -> (r:
    SelectedArtifactBinding)
    ensures
        r@ == binding_for(s@, id@, artifact_views(arts@)),
{
    let mut b = pending_binding_of(s, id, arts);
    let json = b.to_json();
    b.binding_id = sha256_text(&json);
    b
}

/// Binds every canonical identifier of every selected citation to its case
/// artifact; identifiers without an artifact give unbound bindings marked
/// not found.
pub fn bind_selections_to_artifacts(
    selections: &[SelectedCitation],
    artifacts: &[CaseArtifact],
) -> (r: Result<Vec<SelectedArtifactBinding>, crate::CiteError>)
    ensures
        r matches Ok(v) && binding_views(v@) == all_bindings(
            selection_views(selections@),
            artifact_views(artifacts@),
        ),
{
    let ghost sv = selection_views(selections@);
    let ghost av = artifact_views(artifacts@);
    let mut out: Vec<SelectedArtifactBinding> = Vec::new();
    for i in 0..selections.len()
        invariant
            sv == selection_views(selections@),
            av == artifact_views(artifacts@),
            binding_views(out@) == all_bindings(sv.take(i as int), av),
    {
        assert(sv.take(i + 1).drop_last() =~= sv.take(i as int));
        assert(sv.take(i + 1).last() == selections@[i as int]@);
        let ghost start = binding_views(out@);
        let sel = &selections[i];
        if sel.selected {
            let ghost ids = sel@.canonical_ids;
            for k in 0..sel.canonical_ids.len()
                invariant
                    av == artifact_views(artifacts@),
                    ids == sel@.canonical_ids,
                    ids == str_views(sel.canonical_ids@),
                    binding_views(out@) == start + bindings_upto(sel@, k as int, av),
            {
                let ghost before = out@;
                let b = make_binding(sel, &sel.canonical_ids[k], artifacts);
                out.push(b);
                assert(binding_views(out@) =~= binding_views(before).push(b@));
                assert(bindings_upto(sel@, k + 1, av) =~= bindings_upto(sel@, k as int, av).push(
                    b@,
                ));
            }
        } else {
            assert(binding_views(out@) =~= start + seq![]);
        }
        assert(binding_views(out@) =~= all_bindings(sv.take(i + 1), av));
    }
    assert(sv.take(selections@.len() as int) =~= sv);
    Ok(out)
}

/// A binding is bound exactly when an artifact carries its canonical
/// identifier; a bound binding carries that artifact's identifier, name
/// and status, and an unbound one is marked not found.
pub proof fn law_binding_bound_iff_artifact(
    s: SelectedCitationView,
    id: Seq<char>,
    arts: Seq<CaseArtifactView>,
)
    ensures
        binding_for(s, id, arts).bound == last_artifact_for(arts, id) is Some,
        binding_for(s, id, arts).canonical_id == id,
        binding_for(s, id, arts).need_id == s.need_id,
        last_artifact_for(arts, id) matches Some(a) ==> {
            &&& binding_for(s, id, arts).artifact_id == a.artifact_id
            &&& binding_for(s, id, arts).case_name == a.case_name
            &&& binding_for(s, id, arts).verification_status == a.verification_status
        },
        last_artifact_for(arts, id) is None ==> binding_for(s, id, arts).verification_status
            == (VerificationStatus::Unverified { reason: UnverifiedReason::NotFound }),
{
    reveal(pending_binding);
}

/// Only selected citations are bound: a selection that selected nothing
/// contributes no binding, and a selected one contributes one binding per
/// canonical identifier.
pub proof fn law_bindings_per_selection(s: SelectedCitationView, arts: Seq<CaseArtifactView>)
    ensures
        selection_bindings(s, arts).len() == if s.selected {
            s.canonical_ids.len()
        } else {
            0
        },
        forall|k: int|
            0 <= k < selection_bindings(s, arts).len() ==> #[trigger] selection_bindings(
                s,
                arts,
            )[k] == binding_for(s, s.canonical_ids[k], arts),
{
}

} // verus!
