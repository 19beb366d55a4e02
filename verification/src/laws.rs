//! The library's general guarantees, stated and proved once over the
//! mathematical model that the builders' and renderer's contracts use.

use vstd::prelude::*;

use crate::graph::{Kind, Entity};
use crate::model::{
    attrs_wf, attrs_has_key, attrs_value, attrs_upsert, AttrsV, DefaultsV, GraphV, EdgeV,
    lemma_attrs_upsert, lemma_attrs_extend_present,
};
use crate::render::render_doc;

verus! {

/// Ids are issued in strictly increasing order, whichever builder asks:
/// every construction operation registers exactly one entity, whose id is
/// one more than the highest id issued before, so it exceeds the id of
/// every entity registered so far.
pub proof fn lemma_ids_strictly_increase(g: GraphV, k: Kind, d: DefaultsV)
    requires
        g.wf(),
        g.kinds.len() < usize::MAX,
    ensures
        g.next_entity(k).id() == g.latest() + 1,
        forall|e: Entity| g.registered(e) ==> e.id() < g.next_entity(k).id(),
        g.register_g(k, d).latest() == g.latest() + 1,
        forall|label: Seq<char>| (#[trigger] g.new_node_g(label, d)).latest() == g.latest() + 1,
        forall|label: Seq<char>| (#[trigger] g.new_cluster_g(label, d)).latest() == g.latest()
            + 1,
        forall|h: Entity, t: Entity| (#[trigger] g.new_edge_g(h, t, d)).latest() == g.latest()
            + 1,
{
}

/// Ids are unique across the whole graph: two registered entities with the
/// same id are the same entity.
pub proof fn lemma_ids_unique(g: GraphV, e1: Entity, e2: Entity)
    requires
        g.wf(),
        g.registered(e1),
        g.registered(e2),
        e1.id() == e2.id(),
    ensures
        e1 == e2,
{
}

/// Later defaults never retroact: the attributes an entity was seeded with
/// at registration stay untouched when a further entity is registered under
/// different defaults.
pub proof fn lemma_defaults_do_not_retroact(g: GraphV, k1: Kind, d1: DefaultsV, k2: Kind, d2: DefaultsV)
    requires
        g.wf(),
        g.kinds.len() < usize::MAX,
    ensures
        ({
            let e = g.next_entity(k1);
            let g1 = g.register_g(k1, d1);
            &&& g1.attrs[e.id()] == d1.seeded(k1)
            &&& g1.register_g(k2, d2).attrs[e.id()] == d1.seeded(k1)
        }),
{
}

/// Edge chaining: an edge whose endpoints are edges runs from the head
/// edge's tail side to the tail edge's head side. In particular, with edges
/// `ab` from `a` to `b` and `cd` from `c` to `d`, a new edge from `ab` to
/// `cd` resolves its endpoints to exactly (`b`, `c`).
pub proof fn lemma_edge_chaining(
    g: GraphV,
    ab: Entity,
    cd: Entity,
    a: Entity,
    b: Entity,
    c: Entity,
    d: Entity,
)
    requires
        g.wf(),
        g.registered(ab),
        ab.kind() == Kind::Edge,
        g.registered(cd),
        cd.kind() == Kind::Edge,
        (g.edges[ab.id()] == Some(
            EdgeV { head_node: a, tail_node: b, head_subgraph: None, tail_subgraph: None },
        )),
        (g.edges[cd.id()] == Some(
            EdgeV { head_node: c, tail_node: d, head_subgraph: None, tail_subgraph: None },
        )),
    ensures
        (g.new_edge_info(ab, cd) == EdgeV {
            head_node: b,
            tail_node: c,
            head_subgraph: None::<Entity>,
            tail_subgraph: None::<Entity>,
        }),
{
}

/// Compound edge: an edge whose head is a cluster holding node `x` first
/// resolves its head to `x`, retains the cluster for `lhead` rendering, and
/// sets the root graph's `compound` attribute to `"true"`.
pub proof fn lemma_compound_edge(g: GraphV, cl: Entity, x: Entity, y: Entity, d: DefaultsV)
    requires
        g.wf(),
        g.registered(cl),
        cl.kind() == Kind::Cluster,
        g.registered(y),
        y.kind() == Kind::Node,
        (g.subs[cl.id()] matches Some(s) && s.nodes.len() > 0 && s.nodes[0] == x),
    ensures
        (g.new_edge_info(cl, y) == EdgeV {
            head_node: x,
            tail_node: y,
            head_subgraph: Some(cl),
            tail_subgraph: None::<Entity>,
        }),
        attrs_has_key(g.new_edge_g(cl, y, d).attrs[0], "compound"@),
        attrs_value(g.new_edge_g(cl, y, d).attrs[0], "compound"@) == "true"@,
{
    assert(g.locate(cl) == Some(x));
    assert(attrs_wf(g.attrs[0]));
    lemma_attrs_upsert(g.attrs[0], "compound"@, "true"@);
    let g1 = g.resolve_g(cl).resolve_g(y);
    assert(g1.attrs[0] == attrs_upsert(g.attrs[0], "compound"@, "true"@));
    let g2 = g1.register_g(Kind::Edge, d);
    assert(g2.attrs[0] == g1.attrs[0]);
    assert(g.new_edge_g(cl, y, d).attrs[0] == g2.attrs[0]);
}

/// Attribute override: an attribute supplied at creation time wins over any
/// default for the same key. `new_node_with` yields an attribute set where
/// every key of the supplied map carries the supplied value.
pub proof fn lemma_attribute_override(
    g: GraphV,
    label: Seq<char>,
    d: DefaultsV,
    extra: AttrsV,
    key: Seq<char>,
)
    requires
        g.wf(),
        d.wf(),
        g.kinds.len() < usize::MAX,
        attrs_wf(extra),
        attrs_has_key(extra, key),
    ensures
        ({
            let e = g.next_entity(Kind::Node);
            let g2 = g.new_node_g(label, d).merge_attrs_g(e.id(), extra);
            &&& attrs_has_key(g2.attrs[e.id()], key)
            &&& attrs_value(g2.attrs[e.id()], key) == attrs_value(extra, key)
        }),
{
    let e = g.next_entity(Kind::Node);
    let g1 = g.new_node_g(label, d);
    assert(attrs_wf(d.seeded(Kind::Node))) by {
        if d.of(Kind::Node) is Some {
            assert(d.of(Kind::Node) matches Some(a) ==> attrs_wf(a));
        }
    }
    lemma_attrs_upsert(d.seeded(Kind::Node), "label"@, label);
    assert(g1.attrs[e.id()] == attrs_upsert(d.seeded(Kind::Node), "label"@, label));
    lemma_attrs_extend_present(g1.attrs[e.id()], extra, key);
}

/// Rendering is a pure function of the finished graph: the same graph,
/// keyword and arrow always yield the same text, so rendering one graph
/// twice gives byte-identical output.
pub proof fn lemma_render_deterministic(
    g1: GraphV,
    g2: GraphV,
    keyword: Seq<char>,
    arrow: Seq<char>,
    r1: Seq<char>,
    r2: Seq<char>,
)
    requires
        g1 == g2,
        r1 == render_doc(g1, keyword, arrow),
        r2 == render_doc(g2, keyword, arrow),
    ensures
        r1 == r2,
{
}

} // verus!
