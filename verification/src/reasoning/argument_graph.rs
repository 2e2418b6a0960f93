//! The pieces of an argument graph: case nodes built from holdings, the
//! claims of a brief with the cases they cite, and the lookups over them
//! (the cases a claim cites, the cases a case is contradicted by).
use vstd::prelude::*;
use crate::text::{chars_of, push_all, push_str, string_of};
use crate::json::{
    copy_opt_string, copy_strings, json_opt_str, json_str, json_str_array, key, opt_view,
    push_json_lit, push_json_string, push_key, push_opt_string, push_str_array, str_views,
    JsonRecord,
};
use crate::reasoning::holdings_extractor::{ExtractedHolding, ExtractedHoldingView, HoldingNode, HoldingNodeView};

verus! {

/// A case in the argument graph.
#[derive(Debug, Clone)]
pub struct CaseNode {
    pub canonical_id: String,
    pub case_name: String,
    pub date_filed: Option<String>,
    pub holdings: Vec<String>,
    pub rule_extracted: Option<String>,
    pub jurisdiction: Option<String>,
}

/// How one case relates to another.
#[derive(Debug, Clone, Copy, PartialEq, Eq, Structural)]
pub enum EdgeType {
    Supports,
    Contradicts,
    Distinguishes,
    Cites,
}

/// A claim of the brief and the cases it cites.
#[derive(Debug, Clone)]
pub struct ArgumentClaim {
    pub claim_id: String,
    pub text: String,
    pub cited_case_ids: Vec<String>,
    pub assessment: Option<String>,
}

/// The serialized name of an edge type.
pub open spec fn edge_type_name(x: EdgeType) -> Seq<char> {
    match x {
        EdgeType::Supports => "SUPPORTS"@,
        EdgeType::Contradicts => "CONTRADICTS"@,
        EdgeType::Distinguishes => "DISTINGUISHES"@,
        EdgeType::Cites => "CITES"@,
    }
}

impl EdgeType {
    /// Appends the JSON string that names this variant.
    pub fn push_json(&self, out: &mut Vec<char>)
        ensures
            final(out)@ == old(out)@ + json_str(edge_type_name(*self)),
    {
        match self {
            EdgeType::Supports => push_json_lit(out, "SUPPORTS"),
            EdgeType::Contradicts => push_json_lit(out, "CONTRADICTS"),
            EdgeType::Distinguishes => push_json_lit(out, "DISTINGUISHES"),
            EdgeType::Cites => push_json_lit(out, "CITES"),
        }
    }
}

/// The mathematical value of a [`CaseNode`].
pub struct CaseNodeView {
    pub canonical_id: Seq<char>,
    pub case_name: Seq<char>,
    pub date_filed: Option<Seq<char>>,
    pub holdings: Seq<Seq<char>>,
    pub rule_extracted: Option<Seq<char>>,
    pub jurisdiction: Option<Seq<char>>,
}

impl View for CaseNode {
    type V = CaseNodeView;

    open spec fn view(&self) -> CaseNodeView {
        CaseNodeView {
            canonical_id: self.canonical_id@,
            case_name: self.case_name@,
            date_filed: opt_view(self.date_filed),
            holdings: str_views(self.holdings@),
            rule_extracted: opt_view(self.rule_extracted),
            jurisdiction: opt_view(self.jurisdiction),
        }
    }
}

/// The JSON text of a case node.
pub open spec fn json_case_node(v: CaseNodeView) -> Seq<char> {
    "{"@ + key("canonical_id"@) + json_str(v.canonical_id)
        + ","@ + key("case_name"@) + json_str(v.case_name)
        + ","@ + key("date_filed"@) + json_opt_str(v.date_filed)
        + ","@ + key("holdings"@) + json_str_array(v.holdings)
        + ","@ + key("rule_extracted"@) + json_opt_str(v.rule_extracted)
        + ","@ + key("jurisdiction"@) + json_opt_str(v.jurisdiction)
        + "}"@
}

impl JsonRecord for CaseNode {
    open spec fn json_view(&self) -> Seq<char> {
        json_case_node(self@)
    }

    fn to_json(&self) -> (r: Vec<char>) {
        let mut out = chars_of("{");
        push_key(&mut out, "canonical_id");
        push_json_string(&mut out, &self.canonical_id);
        push_str(&mut out, ",");
        push_key(&mut out, "case_name");
        push_json_string(&mut out, &self.case_name);
        push_str(&mut out, ",");
        push_key(&mut out, "date_filed");
        push_opt_string(&mut out, &self.date_filed);
        push_str(&mut out, ",");
        push_key(&mut out, "holdings");
        push_str_array(&mut out, &self.holdings);
        push_str(&mut out, ",");
        push_key(&mut out, "rule_extracted");
        push_opt_string(&mut out, &self.rule_extracted);
        push_str(&mut out, ",");
        push_key(&mut out, "jurisdiction");
        push_opt_string(&mut out, &self.jurisdiction);
        push_str(&mut out, "}");
        out
    }
}

/// The mathematical value of a [`ArgumentClaim`].
pub struct ArgumentClaimView {
    pub claim_id: Seq<char>,
    pub text: Seq<char>,
    pub cited_case_ids: Seq<Seq<char>>,
    pub assessment: Option<Seq<char>>,
}

impl View for ArgumentClaim {
    type V = ArgumentClaimView;

    open spec fn view(&self) -> ArgumentClaimView {
        ArgumentClaimView {
            claim_id: self.claim_id@,
            text: self.text@,
            cited_case_ids: str_views(self.cited_case_ids@),
            assessment: opt_view(self.assessment),
        }
    }
}

/// The JSON text of an argument claim.
pub open spec fn json_argument_claim(v: ArgumentClaimView) -> Seq<char> {
    "{"@ + key("claim_id"@) + json_str(v.claim_id)
        + ","@ + key("text"@) + json_str(v.text)
        + ","@ + key("cited_case_ids"@) + json_str_array(v.cited_case_ids)
        + ","@ + key("assessment"@) + json_opt_str(v.assessment)
        + "}"@
}

impl JsonRecord for ArgumentClaim {
    open spec fn json_view(&self) -> Seq<char> {
        json_argument_claim(self@)
    }

    fn to_json(&self) -> (r: Vec<char>) {
        let mut out = chars_of("{");
        push_key(&mut out, "claim_id");
        push_json_string(&mut out, &self.claim_id);
        push_str(&mut out, ",");
        push_key(&mut out, "text");
        push_json_string(&mut out, &self.text);
        push_str(&mut out, ",");
        push_key(&mut out, "cited_case_ids");
        push_str_array(&mut out, &self.cited_case_ids);
        push_str(&mut out, ",");
        push_key(&mut out, "assessment");
        push_opt_string(&mut out, &self.assessment);
        push_str(&mut out, "}");
        out
    }
}

/// The case node of a holding node: its holdings' texts, the first of them
/// as the extracted rule, no filing date and no jurisdiction.
pub open spec fn node_spec(h: HoldingNodeView) -> CaseNodeView {
    let texts = h.holdings.map_values(|x: ExtractedHoldingView| x.text);
    CaseNodeView {
        canonical_id: h.canonical_id,
        case_name: h.case_name,
        date_filed: None,
        holdings: texts,
        rule_extracted: if texts.len() > 0 {
            Some(texts[0])
        } else {
            None
        },
        jurisdiction: None,
    }
}

/// The first claim with identifier `id`.
pub open spec fn first_claim(claims: Seq<ArgumentClaimView>, id: Seq<char>) -> Option<ArgumentClaimView>
    decreases claims.len(),
{
    if claims.len() == 0 {
        None
    } else if claims[0].claim_id == id {
        Some(claims[0])
    } else {
        first_claim(claims.drop_first(), id)
    }
}

/// The node with canonical identifier `id`: the last one added.
pub open spec fn node_for(nodes: Seq<CaseNodeView>, id: Seq<char>) -> Option<CaseNodeView>
    decreases nodes.len(),
{
    if nodes.len() == 0 {
        None
    } else if nodes.last().canonical_id == id {
        Some(nodes.last())
    } else {
        node_for(nodes.drop_last(), id)
    }
}

/// The nodes of a list of identifiers, in order, skipping identifiers
/// without a node.
pub open spec fn nodes_for(nodes: Seq<CaseNodeView>, ids: Seq<Seq<char>>) -> Seq<CaseNodeView>
    decreases ids.len(),
{
    if ids.len() == 0 {
        seq![]
    } else {
        nodes_for(nodes, ids.drop_last()) + match node_for(nodes, ids.last()) {
            Some(n) => seq![n],
            None => seq![],
        }
    }
}

/// The cases a claim cites that are in the graph; none for an unknown claim.
pub open spec fn supporting_spec(
    nodes: Seq<CaseNodeView>,
    claims: Seq<ArgumentClaimView>,
    claim_id: Seq<char>,
) -> Seq<CaseNodeView> {
    match first_claim(claims, claim_id) {
        Some(c) => nodes_for(nodes, c.cited_case_ids),
        None => seq![],
    }
}

/// The targets of the edges from `id` that contradict it, in order.
pub open spec fn contradicted_by(edges: Seq<(Seq<char>, Seq<char>, EdgeType)>, id: Seq<char>) -> Seq<Seq<char>>
    decreases edges.len(),
{
    if edges.len() == 0 {
        seq![]
    } else {
        contradicted_by(edges.drop_last(), id) + if edges.last().0 == id && edges.last().2
            == EdgeType::Contradicts {
            seq![edges.last().1]
        } else {
            seq![]
        }
    }
}

/// Views of case nodes.
pub open spec fn node_views(v: Seq<CaseNode>) -> Seq<CaseNodeView> {
    v.map_values(|n: CaseNode| n@)
}

/// Views of argument claims.
pub open spec fn argument_claim_views(v: Seq<ArgumentClaim>) -> Seq<ArgumentClaimView> {
    v.map_values(|c: ArgumentClaim| c@)
}

/// Views of edges given by their ends and type.
pub open spec fn edge_views(v: Seq<(String, String, EdgeType)>) -> Seq<(Seq<char>, Seq<char>, EdgeType)> {
    v.map_values(|e: (String, String, EdgeType)| (e.0@, e.1@, e.2))
}

impl CaseNode {
    /// A copy of this node.
    pub fn duplicate(&self) -> (r: Self)
        ensures
            r@ == self@,
    {
        CaseNode {
            canonical_id: self.canonical_id.clone(),
            case_name: self.case_name.clone(),
            date_filed: copy_opt_string(&self.date_filed),
            holdings: copy_strings(&self.holdings),
            rule_extracted: copy_opt_string(&self.rule_extracted),
            jurisdiction: copy_opt_string(&self.jurisdiction),
        }
    }
}

/// The case node of a holding node.
pub fn node_from_holding(holding: &HoldingNode) -> (r: CaseNode)
    ensures
        r@ == node_spec(holding@),
{
    let ghost hv = holding@.holdings;
    let mut texts: Vec<String> = Vec::new();
    for i in 0..holding.holdings.len()
        invariant
            hv == holding.holdings@.map_values(|x: ExtractedHolding| x@),
            str_views(texts@) == hv.take(i as int).map_values(|x: ExtractedHoldingView| x.text),
    {
        let ghost before = texts@;
        texts.push(holding.holdings[i].text.clone());
        assert(str_views(texts@) =~= str_views(before).push(hv[i as int].text));
        assert(hv.take(i + 1).map_values(|x: ExtractedHoldingView| x.text) =~= hv.take(
            i as int,
        ).map_values(|x: ExtractedHoldingView| x.text).push(hv[i as int].text));
    }
    assert(hv.take(hv.len() as int) =~= hv);
    let rule = if texts.len() > 0 {
        assert(str_views(texts@)[0] == texts@[0]@);
        Some(texts[0].clone())
    } else {
        None
    };
    CaseNode {
        canonical_id: holding.canonical_id.clone(),
        case_name: holding.case_name.clone(),
        date_filed: None,
        holdings: texts,
        rule_extracted: rule,
        jurisdiction: None,
    }
}

/// The position of the node with canonical identifier `id`.
fn find_node(nodes: &[CaseNode], id: &String) -> (r: Option<usize>)
    ensures
        r matches Some(k) ==> k < nodes@.len() && node_for(node_views(nodes@), id@) == Some(nodes@[k as int]@),
        r is None ==> node_for(node_views(nodes@), id@) is None,
{
    let mut k = nodes.len();
    assert(nodes@.take(k as int) =~= nodes@);
    while k > 0
        invariant
            k <= nodes@.len(),
            node_for(node_views(nodes@), id@) == node_for(node_views(nodes@.take(k as int)), id@),
        decreases k,
    {
        let ghost pre = node_views(nodes@.take(k as int));
        assert(pre.drop_last() =~= node_views(nodes@.take(k - 1)));
        assert(pre.last() == nodes@[k - 1]@);
        if nodes[k - 1].canonical_id == *id {
            return Some(k - 1);
        }
        k = k - 1;
    }
    None
}

/// The nodes of a list of identifiers, skipping those without a node.
fn nodes_of(nodes: &[CaseNode], ids: &Vec<String>) -> (r: Vec<CaseNode>)
    ensures
        node_views(r@) == nodes_for(node_views(nodes@), str_views(ids@)),
{
    let ghost iv = str_views(ids@);
    let ghost nv = node_views(nodes@);
    let mut out: Vec<CaseNode> = Vec::new();
    for i in 0..ids.len()
        invariant
            iv == str_views(ids@),
            nv == node_views(nodes@),
            node_views(out@) == nodes_for(nv, iv.take(i as int)),
    {
        assert(iv.take(i + 1).drop_last() =~= iv.take(i as int));
        assert(iv.take(i + 1).last() == ids@[i as int]@);
        let ghost before = out@;
        match find_node(nodes, &ids[i]) {
            Some(k) => {
                let n = nodes[k].duplicate();
                out.push(n);
                assert(node_views(out@) =~= node_views(before).push(n@));
            },
            None => {},
        }
        assert(node_views(out@) =~= nodes_for(nv, iv.take(i + 1)));
    }
    assert(iv.take(ids@.len() as int) =~= iv);
    out
}

/// The cases a claim cites that are in the graph, in the order cited.
pub fn cases_supporting_claim(nodes: &[CaseNode], claims: &[ArgumentClaim], claim_id: &str) -> (r:
    Vec<CaseNode>)
    ensures
        node_views(r@) == supporting_spec(node_views(nodes@), argument_claim_views(claims@), claim_id@),
{
    let ghost cv = argument_claim_views(claims@);
    let id = string_of(&chars_of(claim_id));
    assert(cv.skip(0) =~= cv);
    for i in 0..claims.len()
        invariant
            cv == argument_claim_views(claims@),
            id@ == claim_id@,
            first_claim(cv, claim_id@) == first_claim(cv.skip(i as int), claim_id@),
    {
        assert(cv.skip(i as int)[0] == claims@[i as int]@);
        assert(cv.skip(i as int).drop_first() =~= cv.skip(i + 1));
        if claims[i].claim_id == id {
            return nodes_of(nodes, &claims[i].cited_case_ids);
        }
    }
    assert(cv.skip(claims@.len() as int) =~= Seq::<ArgumentClaimView>::empty());
    Vec::new()
}

/// The cases that contradict a case, by the contradiction edges from it,
/// in order.
pub fn conflicting_cases(
    nodes: &[CaseNode],
    edges: &[(String, String, EdgeType)],
    canonical_id: &str,
) -> (r: Vec<CaseNode>)
    ensures
        node_views(r@) == nodes_for(node_views(nodes@), contradicted_by(edge_views(edges@), canonical_id@)),
{
    let ghost ev = edge_views(edges@);
    let id = string_of(&chars_of(canonical_id));
    let mut targets: Vec<String> = Vec::new();
    for i in 0..edges.len()
        invariant
            ev == edge_views(edges@),
            id@ == canonical_id@,
            str_views(targets@) == contradicted_by(ev.take(i as int), canonical_id@),
    {
        assert(ev.take(i + 1).drop_last() =~= ev.take(i as int));
        assert(ev.take(i + 1).last() == (edges@[i as int].0@, edges@[i as int].1@, edges@[i as int].2));
        let ghost before = targets@;
        if edges[i].0 == id && edges[i].2 == EdgeType::Contradicts {
            targets.push(edges[i].1.clone());
            assert(str_views(targets@) =~= str_views(before).push(edges@[i as int].1@));
        }
        assert(str_views(targets@) =~= contradicted_by(ev.take(i + 1), canonical_id@));
    }
    assert(ev.take(edges@.len() as int) =~= ev);
    nodes_of(nodes, &targets)
}


proof fn lemma_node_for(nodes: Seq<CaseNodeView>, id: Seq<char>)
    ensures
        node_for(nodes, id) matches Some(n) ==> n.canonical_id == id && exists|i: int|
            0 <= i < nodes.len() && nodes[i] == n,
        (exists|i: int| 0 <= i < nodes.len() && (#[trigger] nodes[i]).canonical_id == id) ==> node_for(
            nodes,
            id,
        ) is Some,
    decreases nodes.len(),
{
    if nodes.len() > 0 {
        let d = nodes.drop_last();
        lemma_node_for(d, id);
        if nodes.last().canonical_id != id {
            if node_for(d, id) is Some {
                let i = choose|i: int| 0 <= i < d.len() && d[i] == node_for(d, id)->0;
                assert(nodes[i] == d[i]);
            }
            if exists|i: int| 0 <= i < nodes.len() && (#[trigger] nodes[i]).canonical_id == id {
                let i = choose|i: int| 0 <= i < nodes.len() && (#[trigger] nodes[i]).canonical_id == id;
                assert(i < d.len());
                assert(d[i] == nodes[i]);
            }
        } else {
            assert(nodes[nodes.len() - 1] == nodes.last());
        }
    }
}

/// Whether edge `j` goes from `id` to `target` and is of type contradicts.
pub open spec fn contradicting_edge(
    edges: Seq<(Seq<char>, Seq<char>, EdgeType)>,
    id: Seq<char>,
    j: int,
    target: Seq<char>,
) -> bool {
    0 <= j < edges.len() && edges[j].0 == id && edges[j].2 == EdgeType::Contradicts && edges[j].1 == target
}

/// The index of the edge that gives the `k`-th target of
/// [`contradicted_by`].
pub open spec fn source_edge(edges: Seq<(Seq<char>, Seq<char>, EdgeType)>, id: Seq<char>, k: int) -> int
    decreases edges.len(),
{
    if edges.len() == 0 {
        0
    } else if k < contradicted_by(edges.drop_last(), id).len() {
        source_edge(edges.drop_last(), id, k)
    } else {
        edges.len() - 1
    }
}

proof fn lemma_contradicted_by(edges: Seq<(Seq<char>, Seq<char>, EdgeType)>, id: Seq<char>)
    ensures
        forall|k: int|
            0 <= k < contradicted_by(edges, id).len() ==> contradicting_edge(
                edges,
                id,
                source_edge(edges, id, k),
                #[trigger] contradicted_by(edges, id)[k],
            ),
        forall|j: int, x: Seq<char>|
            #[trigger] contradicting_edge(edges, id, j, x) ==> exists|k: int|
                0 <= k < contradicted_by(edges, id).len() && #[trigger] contradicted_by(edges, id)[k] == x,
    decreases edges.len(),
{
    if edges.len() > 0 {
        let d = edges.drop_last();
        lemma_contradicted_by(d, id);
        let prev = contradicted_by(d, id);
        let last = edges.last();
        let tail = if last.0 == id && last.2 == EdgeType::Contradicts {
            seq![last.1]
        } else {
            Seq::<Seq<char>>::empty()
        };
        assert(contradicted_by(edges, id) == prev + tail);
        assert(edges[edges.len() - 1] == last);
        assert forall|k: int| 0 <= k < contradicted_by(edges, id).len() implies contradicting_edge(
            edges,
            id,
            source_edge(edges, id, k),
            #[trigger] contradicted_by(edges, id)[k],
        ) by {
            if k < prev.len() {
                let j = source_edge(d, id, k);
                assert(contradicting_edge(d, id, j, prev[k]));
                assert(d[j] == edges[j]);
            } else {
                assert(contradicted_by(edges, id)[k] == tail[k - prev.len()]);
            }
        }
        assert forall|j: int, x: Seq<char>| #[trigger] contradicting_edge(edges, id, j, x) implies exists|k: int|
            0 <= k < contradicted_by(edges, id).len() && #[trigger] contradicted_by(edges, id)[k] == x by {
            if j < d.len() {
                assert(d[j] == edges[j]);
                assert(contradicting_edge(d, id, j, x));
                let k = choose|k: int| 0 <= k < prev.len() && #[trigger] prev[k] == x;
                assert(contradicted_by(edges, id)[k] == prev[k]);
            } else {
                assert(tail.len() == 1);
                assert(contradicted_by(edges, id)[prev.len() as int] == tail[0]);
            }
        }
    }
}

proof fn lemma_nodes_for(nodes: Seq<CaseNodeView>, ids: Seq<Seq<char>>)
    ensures
        forall|k: int|
            0 <= k < nodes_for(nodes, ids).len() ==> exists|m: int|
                0 <= m < ids.len() && ids[m] == (#[trigger] nodes_for(nodes, ids)[k]).canonical_id,
        forall|k: int|
            0 <= k < nodes_for(nodes, ids).len() ==> exists|i: int|
                0 <= i < nodes.len() && nodes[i] == #[trigger] nodes_for(nodes, ids)[k],
        forall|m: int|
            0 <= m < ids.len() && (exists|i: int| 0 <= i < nodes.len() && nodes[i].canonical_id == #[trigger] ids[m])
                ==> exists|k: int| 0 <= k < nodes_for(nodes, ids).len() && nodes_for(nodes, ids)[k].canonical_id
                == ids[m],
    decreases ids.len(),
{
    if ids.len() > 0 {
        let d = ids.drop_last();
        lemma_nodes_for(nodes, d);
        lemma_node_for(nodes, ids.last());
        let prev = nodes_for(nodes, d);
        let r = nodes_for(nodes, ids);
        assert(ids[ids.len() - 1] == ids.last());
        assert forall|k: int| 0 <= k < r.len() implies exists|m: int|
            0 <= m < ids.len() && ids[m] == (#[trigger] r[k]).canonical_id by {
            if k < prev.len() {
                assert(r[k] == prev[k]);
                let m = choose|m: int| 0 <= m < d.len() && d[m] == prev[k].canonical_id;
                assert(d[m] == ids[m]);
            } else {
                assert(r[k] == node_for(nodes, ids.last())->0);
            }
        }
        assert forall|k: int| 0 <= k < r.len() implies exists|i: int| 0 <= i < nodes.len() && nodes[i]
            == #[trigger] r[k] by {
            if k < prev.len() {
                assert(r[k] == prev[k]);
            } else {
                assert(r[k] == node_for(nodes, ids.last())->0);
            }
        }
        assert forall|m: int|
            0 <= m < ids.len() && (exists|i: int| 0 <= i < nodes.len() && nodes[i].canonical_id == #[trigger] ids[m])
                implies exists|k: int| 0 <= k < r.len() && r[k].canonical_id == ids[m] by {
            if m < d.len() {
                assert(d[m] == ids[m]);
                let k = choose|k: int| 0 <= k < prev.len() && prev[k].canonical_id == d[m];
                assert(r[k] == prev[k]);
            } else {
                let i = choose|i: int| 0 <= i < nodes.len() && nodes[i].canonical_id == ids[m];
                assert(nodes[i].canonical_id == ids.last());
                assert(r[prev.len() as int] == node_for(nodes, ids.last())->0);
            }
        }
    }
}

/// The cases in conflict with case `id` are the graph's cases that an edge
/// from `id` of type contradicts points to: every case returned is in the
/// graph and is the target of such an edge, and every such target that is
/// in the graph is returned. Edges of any other type (supports,
/// distinguishes, cites) give no conflict.
#[verifier::rlimit(40)]
pub proof fn law_conflicting_cases(
    nodes: Seq<CaseNodeView>,
    edges: Seq<(Seq<char>, Seq<char>, EdgeType)>,
    id: Seq<char>,
)
    ensures
        forall|k: int|
            #![trigger nodes_for(nodes, contradicted_by(edges, id))[k]]
            0 <= k < nodes_for(nodes, contradicted_by(edges, id)).len() ==> exists|j: int|
                #[trigger] contradicting_edge(
                    edges,
                    id,
                    j,
                    nodes_for(nodes, contradicted_by(edges, id))[k].canonical_id,
                ),
        forall|k: int|
            0 <= k < nodes_for(nodes, contradicted_by(edges, id)).len() ==> exists|i: int|
                0 <= i < nodes.len() && nodes[i] == #[trigger] nodes_for(nodes, contradicted_by(edges, id))[k],
        forall|j: int, i: int|
            0 <= i < nodes.len() && #[trigger] contradicting_edge(edges, id, j, (#[trigger] nodes[i]).canonical_id)
                ==> exists|k: int|
                0 <= k < nodes_for(nodes, contradicted_by(edges, id)).len() && nodes_for(
                    nodes,
                    contradicted_by(edges, id),
                )[k].canonical_id == nodes[i].canonical_id,
{
    let ids = contradicted_by(edges, id);
    let r = nodes_for(nodes, ids);
    lemma_contradicted_by(edges, id);
    lemma_nodes_for(nodes, ids);
    assert forall|k: int| #![trigger r[k]] 0 <= k < r.len() implies exists|j: int|
        #[trigger] contradicting_edge(edges, id, j, r[k].canonical_id) by {
        let m = choose|m: int| 0 <= m < ids.len() && ids[m] == (#[trigger] r[k]).canonical_id;
        let j = source_edge(edges, id, m);
        assert(contradicting_edge(edges, id, j, ids[m]));
        assert(contradicting_edge(edges, id, j, r[k].canonical_id));
    }
    assert forall|j: int, i: int|
        0 <= i < nodes.len() && #[trigger] contradicting_edge(edges, id, j, (#[trigger] nodes[i]).canonical_id)
            implies exists|k: int| 0 <= k < r.len() && r[k].canonical_id == nodes[i].canonical_id by {
        let m = choose|m: int| 0 <= m < ids.len() && #[trigger] ids[m] == nodes[i].canonical_id;
        assert(exists|q: int| 0 <= q < nodes.len() && nodes[q].canonical_id == #[trigger] ids[m]);
    }
}

} // verus!
