//! The claims a selection stands for: one per canonical identifier of each
//! selected citation.
use vstd::prelude::*;
use crate::text::{chars_of, push_all, push_str, string_of};
use crate::json::{json_str, key, push_json_string, push_key, str_views, JsonRecord};
use crate::selector::{selection_views, SelectedCitation, SelectedCitationView};

verus! {

/// A claim that a selected citation stands for a canonical case.
#[derive(Debug, Clone)]
pub struct SelectedClaim {
    pub claim_id: String,
    pub canonical_id: String,
    pub source: String,
}

/// The mathematical value of a [`SelectedClaim`].
pub struct SelectedClaimView {
    pub claim_id: Seq<char>,
    pub canonical_id: Seq<char>,
    pub source: Seq<char>,
}

impl View for SelectedClaim {
    type V = SelectedClaimView;

    open spec fn view(&self) -> SelectedClaimView {
        SelectedClaimView {
            claim_id: self.claim_id@,
            canonical_id: self.canonical_id@,
            source: self.source@,
        }
    }
}

/// The JSON text of a selected claim.
pub open spec fn json_selected_claim(v: SelectedClaimView) -> Seq<char> {
    "{"@ + key("claim_id"@) + json_str(v.claim_id)
        + ","@ + key("canonical_id"@) + json_str(v.canonical_id)
        + ","@ + key("source"@) + json_str(v.source)
        + "}"@
}

impl JsonRecord for SelectedClaim {
    open spec fn json_view(&self) -> Seq<char> {
        json_selected_claim(self@)
    }

    fn to_json(&self) -> (r: Vec<char>) {
        let mut out = chars_of("{");
        push_key(&mut out, "claim_id");
        push_json_string(&mut out, &self.claim_id);
        push_str(&mut out, ",");
        push_key(&mut out, "canonical_id");
        push_json_string(&mut out, &self.canonical_id);
        push_str(&mut out, ",");
        push_key(&mut out, "source");
        push_json_string(&mut out, &self.source);
        push_str(&mut out, "}");
        out
    }
}

/// The claims of one selection: one per canonical identifier when it
/// selected a candidate, none otherwise.
pub open spec fn claims_of_selection(s: SelectedCitationView) -> Seq<SelectedClaimView> {
    if s.selected {
        Seq::new(
            s.canonical_ids.len(),
            |k: int|
                SelectedClaimView {
                    claim_id: s.need_id,
                    canonical_id: s.canonical_ids[k],
                    source: "selection"@,
                },
        )
    } else {
        seq![]
    }
}

/// The claims of every selection, in order.
pub open spec fn selected_claims(sels: Seq<SelectedCitationView>) -> Seq<SelectedClaimView>
    decreases sels.len(),
{
    if sels.len() == 0 {
        seq![]
    } else {
        selected_claims(sels.drop_last()) + claims_of_selection(sels.last())
    }
}

/// Views of a vector of selected claims.
pub open spec fn selected_claim_views(v: Seq<SelectedClaim>) -> Seq<SelectedClaimView> {
    v.map_values(|c: SelectedClaim| c@)
}

/// Turns the selected citations into claims, one per canonical identifier.
pub fn selected_to_claims(selections: &[SelectedCitation]) -> (r: Result<
    Vec<SelectedClaim>,
    crate::CiteError,
>)
    ensures
        r matches Ok(v) && selected_claim_views(v@) == selected_claims(
            selection_views(selections@),
        ),
{
    let ghost sv = selection_views(selections@);
    let mut out: Vec<SelectedClaim> = Vec::new();
    for i in 0..selections.len()
        invariant
            sv == selection_views(selections@),
            selected_claim_views(out@) == selected_claims(sv.take(i as int)),
    {
        assert(sv.take(i + 1).drop_last() =~= sv.take(i as int));
        assert(sv.take(i + 1).last() == selections@[i as int]@);
        let ghost start = selected_claim_views(out@);
        let s = &selections[i];
        if s.selected {
            let ghost ids = s@.canonical_ids;
            for k in 0..s.canonical_ids.len()
                invariant
                    s.selected,
                    ids == s@.canonical_ids,
                    ids == str_views(s.canonical_ids@),
                    selected_claim_views(out@) == start + claims_of_selection(s@).take(k as int),
            {
                let ghost before = out@;
                let c = SelectedClaim {
                    claim_id: s.need_id.clone(),
                    canonical_id: s.canonical_ids[k].clone(),
                    source: string_of(&chars_of("selection")),
                };
                out.push(c);
                assert(selected_claim_views(out@) =~= selected_claim_views(before).push(c@));
                assert(claims_of_selection(s@).take(k + 1) =~= claims_of_selection(s@).take(
                    k as int,
                ).push(c@));
            }
            assert(claims_of_selection(s@).take(ids.len() as int) =~= claims_of_selection(s@));
        }
        assert(selected_claim_views(out@) =~= selected_claims(sv.take(i + 1)));
    }
    assert(sv.take(selections@.len() as int) =~= sv);
    Ok(out)
}

} // verus!
