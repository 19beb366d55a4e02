//! Mathematical model of the store: attribute lists as sequences of
//! key/value pairs, per-kind default tables, subgraph membership, edge
//! metadata, and the graph-level operations, all stated over `Seq`.

use vstd::prelude::*;

use crate::graph::{Kind, Entity};

verus! {

/// Model of an attribute map: key/value pairs in insertion order.
pub type AttrsV = Seq<(Seq<char>, Seq<char>)>;

/// The keys are pairwise distinct.
pub open spec fn attrs_wf(a: AttrsV) -> bool {
    forall|i: int, j: int| 0 <= i < j < a.len() ==> a[i].0 != a[j].0
}

/// Some pair carries the key `k`.
pub open spec fn attrs_has_key(a: AttrsV, k: Seq<char>) -> bool {
    exists|i: int| 0 <= i < a.len() && a[i].0 == k
}

/// Index of the first pair carrying the key `k`, or -1 if there is none.
pub open spec fn attrs_index_of(a: AttrsV, k: Seq<char>) -> int
    decreases a.len(),
{
    if a.len() == 0 {
        -1
    } else if a[0].0 == k {
        0
    } else {
        let r = attrs_index_of(a.drop_first(), k);
        if r == -1 {
            -1
        } else {
            r + 1
        }
    }
}

/// The value stored for key `k` (meaningful only when the key is present).
pub open spec fn attrs_value(a: AttrsV, k: Seq<char>) -> Seq<char> {
    a[attrs_index_of(a, k)].1
}

/// Insert-or-replace: a present key keeps its position and gets the new
/// value, an absent key is appended.
pub open spec fn attrs_upsert(a: AttrsV, k: Seq<char>, v: Seq<char>) -> AttrsV {
    if attrs_has_key(a, k) {
        a.update(attrs_index_of(a, k), (k, v))
    } else {
        a.push((k, v))
    }
}

/// Upserts every pair of `b` into `a`, in order.
pub open spec fn attrs_extend(a: AttrsV, b: AttrsV) -> AttrsV
    decreases b.len(),
{
    if b.len() == 0 {
        a
    } else {
        attrs_extend(attrs_upsert(a, b[0].0, b[0].1), b.drop_first())
    }
}

/// `attrs_index_of` finds the first occurrence of a key, and -1 exactly
/// when the key is absent.
pub proof fn lemma_attrs_index_of(a: AttrsV, k: Seq<char>)
    ensures
        attrs_has_key(a, k) ==> {
            let i = attrs_index_of(a, k);
            &&& 0 <= i < a.len()
            &&& a[i].0 == k
            &&& forall|j: int| 0 <= j < i ==> a[j].0 != k
        },
        !attrs_has_key(a, k) ==> attrs_index_of(a, k) == -1,
    decreases a.len(),
{
    if a.len() != 0 && a[0].0 != k {
        lemma_attrs_index_of(a.drop_first(), k);
        assert(forall|j: int| 0 < j < a.len() ==> a[j] == a.drop_first()[j - 1]);
        if attrs_has_key(a, k) {
            let w = choose|w: int| 0 <= w < a.len() && a[w].0 == k;
            assert(a.drop_first()[w - 1].0 == k);
            assert(attrs_has_key(a.drop_first(), k));
        }
        if attrs_has_key(a.drop_first(), k) {
            let w = choose|w: int| 0 <= w < a.drop_first().len() && a.drop_first()[w].0 == k;
            assert(a[w + 1].0 == k);
            assert(attrs_has_key(a, k));
        }
    }
}

/// Effect of `attrs_upsert` on well-formedness, key membership and values.
pub proof fn lemma_attrs_upsert(a: AttrsV, k: Seq<char>, v: Seq<char>)
    requires
        attrs_wf(a),
    ensures
        attrs_wf(attrs_upsert(a, k, v)),
        attrs_has_key(attrs_upsert(a, k, v), k),
        attrs_value(attrs_upsert(a, k, v), k) == v,
        forall|k2: Seq<char>| k2 != k ==> attrs_has_key(attrs_upsert(a, k, v), k2)
            == attrs_has_key(a, k2),
        forall|k2: Seq<char>| k2 != k && attrs_has_key(a, k2)
            ==> attrs_value(attrs_upsert(a, k, v), k2) == attrs_value(a, k2),
{
    lemma_attrs_index_of(a, k);
    let u = attrs_upsert(a, k, v);
    if attrs_has_key(a, k) {
        let i = attrs_index_of(a, k);
        assert(u == a.update(i, (k, v)));
        assert forall|i2: int, j2: int| 0 <= i2 < j2 < u.len() implies u[i2].0 != u[j2].0 by {
            assert(a[i2].0 != a[j2].0);
        }
        lemma_attrs_index_of(u, k);
        assert(u[i].0 == k);
        assert(attrs_has_key(u, k));
        assert(attrs_index_of(u, k) == i) by {
            let i3 = attrs_index_of(u, k);
            if i3 < i {
                assert(a[i3].0 != k);
                assert(u[i3].0 == a[i3].0);
            }
            if i3 > i {
                assert(u[i].0 == k);
                assert(forall|j: int| 0 <= j < i3 ==> u[j].0 != k);
            }
        }
        assert forall|k2: Seq<char>| k2 != k implies attrs_has_key(u, k2) == attrs_has_key(a, k2) by {
            lemma_upsert_other_key(a, u, i, k, k2);
        }
        assert forall|k2: Seq<char>| k2 != k && attrs_has_key(a, k2) implies attrs_value(u, k2)
            == attrs_value(a, k2) by {
            lemma_upsert_other_key(a, u, i, k, k2);
            lemma_attrs_index_of(a, k2);
            lemma_attrs_index_of(u, k2);
            let ia = attrs_index_of(a, k2);
            let iu = attrs_index_of(u, k2);
            assert(u[ia].0 == a[ia].0);
            if iu < ia {
                assert(a[iu].0 == u[iu].0);
            }
            if iu > ia {
                assert(forall|j: int| 0 <= j < iu ==> u[j].0 != k2);
            }
            assert(iu == ia);
            assert(u[ia].1 == a[ia].1);
        }
    } else {
        assert(u == a.push((k, v)));
        assert forall|i2: int, j2: int| 0 <= i2 < j2 < u.len() implies u[i2].0 != u[j2].0 by {
            if j2 < a.len() {
                assert(a[i2].0 != a[j2].0);
            } else {
                assert(u[j2].0 == k);
                assert(u[i2].0 == a[i2].0);
                assert(!(exists|w: int| 0 <= w < a.len() && a[w].0 == k));
            }
        }
        lemma_attrs_index_of(u, k);
        assert(u[a.len() as int].0 == k);
        assert(attrs_has_key(u, k));
        assert(attrs_index_of(u, k) == a.len()) by {
            let i3 = attrs_index_of(u, k);
            if i3 < a.len() {
                assert(u[i3].0 == a[i3].0);
                assert(attrs_has_key(a, k));
            }
        }
        assert forall|k2: Seq<char>| k2 != k implies attrs_has_key(u, k2) == attrs_has_key(a, k2) by {
            if attrs_has_key(a, k2) {
                let w = choose|w: int| 0 <= w < a.len() && a[w].0 == k2;
                assert(u[w].0 == k2);
            }
            if attrs_has_key(u, k2) {
                let w = choose|w: int| 0 <= w < u.len() && u[w].0 == k2;
                assert(w < a.len());
                assert(a[w].0 == k2);
            }
        }
        assert forall|k2: Seq<char>| k2 != k && attrs_has_key(a, k2) implies attrs_value(u, k2)
            == attrs_value(a, k2) by {
            lemma_attrs_index_of(a, k2);
            lemma_attrs_index_of(u, k2);
            let ia = attrs_index_of(a, k2);
            let iu = attrs_index_of(u, k2);
            assert(u[ia].0 == a[ia].0);
            if iu < ia {
                assert(a[iu].0 == u[iu].0);
            }
            assert(iu == ia);
        }
    }
}

proof fn lemma_upsert_other_key(a: AttrsV, u: AttrsV, i: int, k: Seq<char>, k2: Seq<char>)
    requires
        0 <= i < a.len(),
        u.len() == a.len(),
        forall|j: int| 0 <= j < a.len() && j != i ==> u[j] == a[j],
        a[i].0 == k,
        u[i].0 == k,
        k2 != k,
    ensures
        attrs_has_key(u, k2) == attrs_has_key(a, k2),
{
    if attrs_has_key(a, k2) {
        let w = choose|w: int| 0 <= w < a.len() && a[w].0 == k2;
        assert(w != i);
        assert(u[w].0 == k2);
    }
    if attrs_has_key(u, k2) {
        let w = choose|w: int| 0 <= w < u.len() && u[w].0 == k2;
        assert(w != i);
        assert(a[w].0 == k2);
    }
}

/// Whether a kind is subgraph-like (a cluster or a plain subgraph).
pub open spec fn is_group(k: Kind) -> bool {
    k == Kind::Cluster || k == Kind::Subgraph
}

/// Model of the membership lists of one subgraph-like entity: child nodes,
/// child edges and child subgraphs, each in creation order.
#[verifier::ext_equal]
pub ghost struct SubV {
    pub nodes: Seq<Entity>,
    pub edges: Seq<Entity>,
    pub subgraphs: Seq<Entity>,
}

impl SubV {
    pub open spec fn empty() -> SubV {
        SubV { nodes: Seq::empty(), edges: Seq::empty(), subgraphs: Seq::empty() }
    }

    pub open spec fn push_node(self, e: Entity) -> SubV {
        SubV { nodes: self.nodes.push(e), ..self }
    }

    pub open spec fn push_edge(self, e: Entity) -> SubV {
        SubV { edges: self.edges.push(e), ..self }
    }

    pub open spec fn push_subgraph(self, e: Entity) -> SubV {
        SubV { subgraphs: self.subgraphs.push(e), ..self }
    }
}

/// Model of the metadata of one edge: the two node-level endpoints used for
/// rendering, and the cluster/subgraph each side referred to, if it was a
/// compound endpoint.
#[verifier::ext_equal]
pub ghost struct EdgeV {
    pub head_node: Entity,
    pub tail_node: Entity,
    pub head_subgraph: Option<Entity>,
    pub tail_subgraph: Option<Entity>,
}

/// Model of a per-kind table of default attributes.
#[verifier::ext_equal]
pub ghost struct DefaultsV {
    pub node: Option<AttrsV>,
    pub edge: Option<AttrsV>,
    pub cluster: Option<AttrsV>,
    pub subgraph: Option<AttrsV>,
}

impl DefaultsV {
    pub open spec fn empty() -> DefaultsV {
        DefaultsV { node: None, edge: None, cluster: None, subgraph: None }
    }

    /// The defaults stored for a kind, if any were ever set.
    pub open spec fn of(self, k: Kind) -> Option<AttrsV> {
        match k {
            Kind::Node => self.node,
            Kind::Edge => self.edge,
            Kind::Cluster => self.cluster,
            Kind::Subgraph => self.subgraph,
        }
    }

    pub open spec fn set(self, k: Kind, a: AttrsV) -> DefaultsV {
        match k {
            Kind::Node => DefaultsV { node: Some(a), ..self },
            Kind::Edge => DefaultsV { edge: Some(a), ..self },
            Kind::Cluster => DefaultsV { cluster: Some(a), ..self },
            Kind::Subgraph => DefaultsV { subgraph: Some(a), ..self },
        }
    }

    /// The attribute set a newly registered entity of kind `k` starts from.
    pub open spec fn seeded(self, k: Kind) -> AttrsV {
        match self.of(k) {
            Some(a) => a,
            None => Seq::empty(),
        }
    }

    pub open spec fn wf(self) -> bool {
        forall|k: Kind| (#[trigger] self.of(k)) matches Some(a) ==> attrs_wf(a)
    }
}

/// Model of the whole graph store. Entity ids index every table; the root
/// subgraph always occupies id 0.
#[verifier::ext_equal]
pub ghost struct GraphV {
    pub kinds: Seq<Kind>,
    pub attrs: Seq<AttrsV>,
    pub subs: Seq<Option<SubV>>,
    pub edges: Seq<Option<EdgeV>>,
}

impl GraphV {
    /// The highest id issued so far.
    pub open spec fn latest(self) -> int {
        self.kinds.len() - 1
    }

    /// The entity was issued by this store: its id is in range and its kind
    /// agrees with the store's record.
    pub open spec fn registered(self, e: Entity) -> bool {
        0 <= e.id() < self.kinds.len() && self.kinds[e.id()] == e.kind()
    }

    /// A member recorded in the lists of the subgraph-like entity with id
    /// `i`: it is registered and was issued after `i`.
    pub open spec fn member_ok(self, i: int, e: Entity) -> bool {
        self.registered(e) && e.id() > i
    }

    pub open spec fn sub_ok(self, i: int, s: SubV) -> bool {
        &&& forall|j: int| 0 <= j < s.nodes.len() ==> self.member_ok(i, #[trigger] s.nodes[j])
            && s.nodes[j].kind() == Kind::Node
        &&& forall|j: int| 0 <= j < s.edges.len() ==> self.member_ok(i, #[trigger] s.edges[j])
            && s.edges[j].kind() == Kind::Edge
        &&& forall|j: int| 0 <= j < s.subgraphs.len() ==> self.member_ok(
            i,
            #[trigger] s.subgraphs[j],
        ) && is_group(s.subgraphs[j].kind())
    }

    pub open spec fn edge_ok(self, ev: EdgeV) -> bool {
        &&& self.registered(ev.head_node)
        &&& self.registered(ev.tail_node)
        &&& (ev.head_subgraph matches Some(s) ==> self.registered(s) && is_group(s.kind()))
        &&& (ev.tail_subgraph matches Some(s) ==> self.registered(s) && is_group(s.kind()))
    }

    /// Well-formedness of the store: the tables are parallel, the root
    /// subgraph is registered at id 0, membership and edge metadata exist
    /// exactly for the subgraph-like and edge entities, and their contents
    /// are registered entities of the right kinds.
    pub open spec fn wf(self) -> bool {
        &&& 1 <= self.kinds.len() <= usize::MAX

        &&& self.attrs.len() == self.kinds.len()
        &&& self.subs.len() == self.kinds.len()
        &&& self.edges.len() == self.kinds.len()
        &&& self.kinds[0] == Kind::Subgraph
        &&& forall|i: int| 0 <= i < self.kinds.len() ==> ((#[trigger] self.subs[i]) is Some
            <==> is_group(self.kinds[i]))
        &&& forall|i: int| 0 <= i < self.kinds.len() ==> ((#[trigger] self.edges[i]) is Some
            <==> self.kinds[i] == Kind::Edge)
        &&& forall|i: int| 0 <= i < self.kinds.len() ==> ((#[trigger] self.subs[i]) matches Some(s)
            ==> self.sub_ok(i, s))
        &&& forall|i: int| 0 <= i < self.kinds.len() ==> ((#[trigger] self.edges[i]) matches Some(
            ev,
        ) ==> self.edge_ok(ev))
        &&& forall|i: int| 0 <= i < self.kinds.len() ==> attrs_wf(#[trigger] self.attrs[i])
    }

    /// The entity that the next registration will return.
    pub open(crate) spec fn next_entity(self, k: Kind) -> Entity {
        Entity { kind: k, id: self.kinds.len() as usize }
    }

    /// Registration: issues the next id, seeds the attribute entry from the
    /// defaults for the kind, and creates empty membership lists for a
    /// subgraph-like entity.
    pub open spec fn register_g(self, k: Kind, d: DefaultsV) -> GraphV {
        GraphV {
            kinds: self.kinds.push(k),
            attrs: self.attrs.push(d.seeded(k)),
            subs: self.subs.push(if is_group(k) { Some(SubV::empty()) } else { None }),
            edges: self.edges.push(None),
        }
    }

    /// Insert-or-replace one attribute of the entity with id `i`.
    pub open spec fn upd_attr(self, i: int, k: Seq<char>, v: Seq<char>) -> GraphV {
        GraphV { attrs: self.attrs.update(i, attrs_upsert(self.attrs[i], k, v)), ..self }
    }

    /// Replace the whole attribute entry of the entity with id `i`.
    pub open spec fn set_attrs_at(self, i: int, a: AttrsV) -> GraphV {
        GraphV { attrs: self.attrs.update(i, a), ..self }
    }

    /// Effect of `new_node`: register a node, then set its `label`.
    pub open spec fn new_node_g(self, label: Seq<char>, d: DefaultsV) -> GraphV {
        self.register_g(Kind::Node, d).upd_attr(self.kinds.len() as int, "label"@, label)
    }

    /// Effect of `new_cluster`: register a cluster, then set its `label`.
    pub open spec fn new_cluster_g(self, label: Seq<char>, d: DefaultsV) -> GraphV {
        self.register_g(Kind::Cluster, d).upd_attr(self.kinds.len() as int, "label"@, label)
    }

    /// Effect of the `_with` variants: the caller-supplied attributes are
    /// merged into the entry of the entity with id `i`.
    pub open spec fn merge_attrs_g(self, i: int, b: AttrsV) -> GraphV {
        self.set_attrs_at(i, attrs_extend(self.attrs[i], b))
    }

    /// First node of the subgraph-like entity `e`, walking the node list
    /// first and then every child subgraph depth-first in creation order.
    pub open spec fn locate(self, e: Entity) -> Option<Entity>
        decreases self.kinds.len() - e.id(), 1int, 0int,
            when self.wf() && self.registered(e)
    {
        match self.subs[e.id()] {
            None => None,
            Some(s) => if s.nodes.len() > 0 {
                Some(s.nodes[0])
            } else {
                self.locate_list(s.subgraphs, e.id())
            },
        }
    }

    /// First node found by `locate` in any entity of `list`, all of which
    /// were issued after id `lo`.
    pub open spec fn locate_list(self, list: Seq<Entity>, lo: int) -> Option<Entity>
        decreases self.kinds.len() - lo, 0int, list.len(),
            when self.wf() && 0 <= lo
                && forall|j: int| 0 <= j < list.len() ==> self.member_ok(lo, #[trigger] list[j])
                    && is_group(list[j].kind())
    {
        if list.len() == 0 {
            None
        } else {
            match self.locate(list[0]) {
                Some(n) => Some(n),
                None => self.locate_list(list.drop_first(), lo),
            }
        }
    }

    /// Sets the root graph's `compound` attribute, marking that some edge
    /// ends at a cluster or subgraph.
    pub open spec fn set_compound(self) -> GraphV {
        self.upd_attr(0, "compound"@, "true"@)
    }

    /// Attribute side effect of resolving one edge endpoint: a compound
    /// endpoint turns the root's `compound` attribute on.
    pub open spec fn resolve_g(self, e: Entity) -> GraphV {
        if is_group(e.kind()) {
            self.set_compound()
        } else {
            self
        }
    }

    /// Resolution of one edge endpoint to a (node, optional group) pair.
    ///
    /// A node stands for itself. An edge endpoint chains: the head side of
    /// the new edge continues from the referenced edge's tail side, and the
    /// tail side from its head side. A cluster or subgraph endpoint stands
    /// for its first node (or for itself, if its whole subtree holds no
    /// node) and is retained for `lhead`/`ltail` rendering.
    pub open spec fn resolve_pair(self, e: Entity, head_side: bool) -> (Entity, Option<Entity>) {
        match e.kind() {
            Kind::Node => (e, None),
            Kind::Edge => match self.edges[e.id()] {
                Some(info) => if head_side {
                    (info.tail_node, info.tail_subgraph)
                } else {
                    (info.head_node, info.head_subgraph)
                },
                None => (e, None),
            },
            _ => (
                match self.locate(e) {
                    Some(n) => n,
                    None => e,
                },
                Some(e),
            ),
        }
    }

    /// The edge metadata `new_edge` records for endpoints `h` and `t`.
    pub open spec fn new_edge_info(self, h: Entity, t: Entity) -> EdgeV {
        EdgeV {
            head_node: self.resolve_pair(h, true).0,
            tail_node: self.resolve_pair(t, false).0,
            head_subgraph: self.resolve_pair(h, true).1,
            tail_subgraph: self.resolve_pair(t, false).1,
        }
    }

    /// Effect of `new_edge`: resolve both endpoints (setting the root's
    /// `compound` attribute for compound endpoints), register an edge
    /// entity, and record its metadata.
    pub open spec fn new_edge_g(self, h: Entity, t: Entity, d: DefaultsV) -> GraphV {
        let g1 = self.resolve_g(h).resolve_g(t).register_g(Kind::Edge, d);
        GraphV {
            edges: g1.edges.update(self.kinds.len() as int, Some(self.new_edge_info(h, t))),
            ..g1
        }
    }

    /// Effect of finalizing a builder: its accumulated membership lists are
    /// committed under its entity's id.
    pub open spec fn commit(self, e: Entity, s: SubV) -> GraphV {
        GraphV { subs: self.subs.update(e.id(), Some(s)), ..self }
    }

    /// The store a fresh root builder starts from: only the root subgraph,
    /// with no attributes and empty membership.
    pub open spec fn initial() -> GraphV {
        GraphV {
            kinds: seq![Kind::Subgraph],
            attrs: seq![Seq::<(Seq<char>, Seq<char>)>::empty()],
            subs: seq![Some(SubV::empty())],
            edges: seq![None],
        }
    }
}

/// Registration preserves well-formedness, extends the id space by one,
/// and keeps every previously registered entity registered.
pub proof fn lemma_register_wf(g: GraphV, k: Kind, d: DefaultsV)
    requires
        g.wf(),
        d.wf(),
        g.kinds.len() < usize::MAX,
    ensures
        k != Kind::Edge ==> g.register_g(k, d).wf(),
        g.register_g(k, d).latest() == g.latest() + 1,
        g.register_g(k, d).registered(g.next_entity(k)),
        g.next_entity(k).kind() == k,
        g.next_entity(k).id() == g.latest() + 1,
        forall|e: Entity| g.registered(e) ==> #[trigger] g.register_g(k, d).registered(e),
{
    let g2 = g.register_g(k, d);
    let n = g.kinds.len() as int;
    assert(attrs_wf(d.seeded(k))) by {
        if d.of(k) is Some {
            assert(d.of(k) matches Some(a) ==> attrs_wf(a));
        }
    }
    assert(g2.kinds.len() == n + 1);
    assert forall|i: int| 0 <= i < g2.kinds.len() implies ((#[trigger] g2.subs[i]) is Some
        <==> is_group(g2.kinds[i])) by {
        if i < n {
            assert(g2.subs[i] == g.subs[i]);
            assert(g2.kinds[i] == g.kinds[i]);
        }
    }
    assert forall|i: int| 0 <= i < g2.kinds.len() && k != Kind::Edge implies ((
    #[trigger] g2.edges[i]) is Some <==> g2.kinds[i] == Kind::Edge) by {
        if i < n {
            assert(g2.edges[i] == g.edges[i]);
            assert(g2.kinds[i] == g.kinds[i]);
        }
    }
    assert forall|i: int| 0 <= i < g2.kinds.len() implies attrs_wf(#[trigger] g2.attrs[i]) by {
        if i < n {
            assert(g2.attrs[i] == g.attrs[i]);
        } else {
            assert(g2.attrs[i] == d.seeded(k));
        }
    }
    assert forall|i: int| 0 <= i < g2.kinds.len() implies ((#[trigger] g2.subs[i]) matches Some(s)
        ==> g2.sub_ok(i, s)) by {
        if i < n {
            assert(g2.subs[i] == g.subs[i]);
            if g.subs[i] is Some {
                let s = g.subs[i]->Some_0;
                assert(g.sub_ok(i, s));
                assert forall|j: int| 0 <= j < s.nodes.len() implies g2.member_ok(
                    i,
                    #[trigger] s.nodes[j],
                ) && s.nodes[j].kind() == Kind::Node by {
                    assert(g.member_ok(i, s.nodes[j]));
                }
                assert forall|j: int| 0 <= j < s.edges.len() implies g2.member_ok(
                    i,
                    #[trigger] s.edges[j],
                ) && s.edges[j].kind() == Kind::Edge by {
                    assert(g.member_ok(i, s.edges[j]));
                }
                assert forall|j: int| 0 <= j < s.subgraphs.len() implies g2.member_ok(
                    i,
                    #[trigger] s.subgraphs[j],
                ) && is_group(s.subgraphs[j].kind()) by {
                    assert(g.member_ok(i, s.subgraphs[j]));
                }
            }
        }
    }
    assert forall|i: int| 0 <= i < g2.kinds.len() implies ((#[trigger] g2.edges[i]) matches Some(
        ev,
    ) ==> g2.edge_ok(ev)) by {
        if i < n {
            assert(g2.edges[i] == g.edges[i]);
            if g.edges[i] is Some {
                assert(g.edge_ok(g.edges[i]->Some_0));
            }
        }
    }
}

/// Updating one attribute entry preserves well-formedness as long as the
/// new entry has distinct keys, and changes nothing else.
pub proof fn lemma_set_attrs_wf(g: GraphV, i: int, a: AttrsV)
    requires
        g.wf(),
        0 <= i < g.kinds.len(),
        attrs_wf(a),
    ensures
        g.set_attrs_at(i, a).wf(),
        forall|e: Entity| g.registered(e) <==> #[trigger] g.set_attrs_at(i, a).registered(e),
        g.set_attrs_at(i, a).latest() == g.latest(),
{
    let g2 = g.set_attrs_at(i, a);
    assert(g2.kinds == g.kinds && g2.subs == g.subs && g2.edges == g.edges);
    assert forall|w: int| 0 <= w < g2.kinds.len() implies ((#[trigger] g2.subs[w]) matches Some(s)
        ==> g2.sub_ok(w, s)) by {
        if g2.subs[w] is Some {
            assert(g.sub_ok(w, g.subs[w]->Some_0));
        }
    }
    assert forall|w: int| 0 <= w < g2.kinds.len() implies ((#[trigger] g2.edges[w]) matches Some(
        ev,
    ) ==> g2.edge_ok(ev)) by {
        if g2.edges[w] is Some {
            assert(g.edge_ok(g.edges[w]->Some_0));
        }
    }
}

/// Insert-or-replace of one attribute preserves well-formedness.
pub proof fn lemma_upd_attr_wf(g: GraphV, i: int, k: Seq<char>, v: Seq<char>)
    requires
        g.wf(),
        0 <= i < g.kinds.len(),
    ensures
        g.upd_attr(i, k, v).wf(),
        forall|e: Entity| g.registered(e) <==> #[trigger] g.upd_attr(i, k, v).registered(e),
        g.upd_attr(i, k, v).latest() == g.latest(),
{
    lemma_attrs_upsert(g.attrs[i], k, v);
    lemma_set_attrs_wf(g, i, attrs_upsert(g.attrs[i], k, v));
    assert(g.upd_attr(i, k, v) == g.set_attrs_at(i, attrs_upsert(g.attrs[i], k, v)));
}

/// What `locate` returns is a registered node entity.
pub proof fn lemma_locate_ok(g: GraphV, e: Entity)
    requires
        g.wf(),
        g.registered(e),
    ensures
        g.locate(e) matches Some(n) ==> g.registered(n) && n.kind() == Kind::Node,
    decreases g.kinds.len() - e.id(), 1int, 0int,
{
    match g.subs[e.id()] {
        None => {},
        Some(s) => {
            if s.nodes.len() > 0 {
                assert(g.member_ok(e.id(), s.nodes[0]));
            } else {
                lemma_locate_list_ok(g, s.subgraphs, e.id());
            }
        },
    }
}

/// What `locate_list` returns is a registered node entity.
pub proof fn lemma_locate_list_ok(g: GraphV, list: Seq<Entity>, lo: int)
    requires
        g.wf(),
        0 <= lo,
        forall|j: int| 0 <= j < list.len() ==> g.member_ok(lo, #[trigger] list[j]) && is_group(
            list[j].kind(),
        ),
    ensures
        g.locate_list(list, lo) matches Some(n) ==> g.registered(n) && n.kind() == Kind::Node,
    decreases g.kinds.len() - lo, 0int, list.len(),
{
    if list.len() > 0 {
        lemma_locate_ok(g, list[0]);
        if g.locate(list[0]) is None {
            assert forall|j: int| 0 <= j < list.drop_first().len() implies g.member_ok(
                lo,
                #[trigger] list.drop_first()[j],
            ) && is_group(list.drop_first()[j].kind()) by {
                assert(list.drop_first()[j] == list[j + 1]);
            }
            lemma_locate_list_ok(g, list.drop_first(), lo);
        }
    }
}

/// `locate` reads only the kind and membership tables, so graphs that agree
/// on those agree on `locate`.
pub proof fn lemma_locate_same(g1: GraphV, g2: GraphV, e: Entity)
    requires
        g1.wf(),
        g2.wf(),
        g1.registered(e),
        g1.kinds == g2.kinds,
        g1.subs == g2.subs,
    ensures
        g1.locate(e) == g2.locate(e),
    decreases g1.kinds.len() - e.id(), 1int, 0int,
{
    assert(g2.registered(e));
    match g1.subs[e.id()] {
        None => {},
        Some(s) => {
            if s.nodes.len() == 0 {
                assert(g1.sub_ok(e.id(), s));
                lemma_locate_list_same(g1, g2, s.subgraphs, e.id());
            }
        },
    }
}

/// List version of `lemma_locate_same`.
pub proof fn lemma_locate_list_same(g1: GraphV, g2: GraphV, list: Seq<Entity>, lo: int)
    requires
        g1.wf(),
        g2.wf(),
        0 <= lo,
        forall|j: int| 0 <= j < list.len() ==> g1.member_ok(lo, #[trigger] list[j]) && is_group(
            list[j].kind(),
        ),
        g1.kinds == g2.kinds,
        g1.subs == g2.subs,
    ensures
        g1.locate_list(list, lo) == g2.locate_list(list, lo),
    decreases g1.kinds.len() - lo, 0int, list.len(),
{
    assert forall|j: int| 0 <= j < list.len() implies g2.member_ok(lo, #[trigger] list[j])
        && is_group(list[j].kind()) by {
        assert(g1.member_ok(lo, list[j]));
    }
    if list.len() > 0 {
        lemma_locate_same(g1, g2, list[0]);
        if g1.locate(list[0]) is None {
            assert forall|j: int| 0 <= j < list.drop_first().len() implies g1.member_ok(
                lo,
                #[trigger] list.drop_first()[j],
            ) && is_group(list.drop_first()[j].kind()) by {
                assert(list.drop_first()[j] == list[j + 1]);
            }
            lemma_locate_list_same(g1, g2, list.drop_first(), lo);
        }
    }
}

/// Endpoint resolution yields a registered entity, and a registered
/// subgraph-like entity on the compound side.
pub proof fn lemma_resolve_pair_ok(g: GraphV, e: Entity, head_side: bool)
    requires
        g.wf(),
        g.registered(e),
    ensures
        g.registered(g.resolve_pair(e, head_side).0),
        g.resolve_pair(e, head_side).1 matches Some(s) ==> g.registered(s) && is_group(s.kind()),
{
    match e.kind() {
        Kind::Node => {},
        Kind::Edge => {
            assert(g.edges[e.id()] is Some);
            assert(g.edge_ok(g.edges[e.id()]->Some_0));
        },
        _ => {
            lemma_locate_ok(g, e);
        },
    }
}

/// `resolve_pair` reads only the kind, membership and edge tables.
pub proof fn lemma_resolve_pair_same(g1: GraphV, g2: GraphV, e: Entity, head_side: bool)
    requires
        g1.wf(),
        g2.wf(),
        g1.registered(e),
        g1.kinds == g2.kinds,
        g1.subs == g2.subs,
        g1.edges == g2.edges,
    ensures
        g1.resolve_pair(e, head_side) == g2.resolve_pair(e, head_side),
{
    if is_group(e.kind()) {
        lemma_locate_same(g1, g2, e);
    }
}

/// Creating an edge preserves well-formedness and registers one new edge
/// entity carrying the resolved metadata.
pub proof fn lemma_new_edge_wf(g: GraphV, h: Entity, t: Entity, d: DefaultsV)
    requires
        g.wf(),
        d.wf(),
        g.kinds.len() < usize::MAX,
        g.registered(h),
        g.registered(t),
    ensures
        g.new_edge_g(h, t, d).wf(),
        g.new_edge_g(h, t, d).latest() == g.latest() + 1,
        g.new_edge_g(h, t, d).registered(g.next_entity(Kind::Edge)),
        g.new_edge_g(h, t, d).edges[g.latest() + 1] == Some(g.new_edge_info(h, t)),
        forall|e: Entity| g.registered(e) ==> #[trigger] g.new_edge_g(h, t, d).registered(e),
{
    let ga = g.resolve_g(h);
    let gb = ga.resolve_g(t);
    if is_group(h.kind()) {
        lemma_upd_attr_wf(g, 0, "compound"@, "true"@);
    }
    if is_group(t.kind()) {
        lemma_upd_attr_wf(ga, 0, "compound"@, "true"@);
    }
    assert(gb.wf());
    lemma_register_wf(gb, Kind::Edge, d);
    let gc = gb.register_g(Kind::Edge, d);
    let g2 = g.new_edge_g(h, t, d);
    let n = g.kinds.len() as int;
    assert(g2.kinds == gc.kinds && g2.attrs == gc.attrs && g2.subs == gc.subs);
    lemma_resolve_pair_ok(g, h, true);
    lemma_resolve_pair_ok(g, t, false);
    let info = g.new_edge_info(h, t);
    assert(g2.edge_ok(info)) by {
        assert(g2.kinds.len() == n + 1);
        assert(forall|e: Entity| g.registered(e) ==> #[trigger] g2.registered(e));
    }
    assert forall|i: int| 0 <= i < g2.kinds.len() implies ((#[trigger] g2.subs[i]) matches Some(s)
        ==> g2.sub_ok(i, s)) by {
        if g2.subs[i] is Some {
            assert(gc.sub_ok(i, gc.subs[i]->Some_0));
        }
    }
    assert forall|i: int| 0 <= i < g2.kinds.len() implies ((#[trigger] g2.edges[i]) matches Some(
        ev,
    ) ==> g2.edge_ok(ev)) by {
        if i < n {
            assert(g2.edges[i] == gc.edges[i]);
            if g2.edges[i] is Some {
                assert(gc.edge_ok(gc.edges[i]->Some_0));
                assert(gc.kinds == g2.kinds);
            }
        } else if i == n {
            assert(g2.edges[i] == Some(info));
        }
    }
    assert(g2.wf());
}

/// Committing membership lists preserves well-formedness when the lists
/// hold registered members issued after the committed entity.
pub proof fn lemma_commit_wf(g: GraphV, e: Entity, s: SubV)
    requires
        g.wf(),
        g.registered(e),
        is_group(e.kind()),
        g.sub_ok(e.id(), s),
    ensures
        g.commit(e, s).wf(),
        g.commit(e, s).latest() == g.latest(),
        forall|e2: Entity| g.registered(e2) <==> #[trigger] g.commit(e, s).registered(e2),
{
    let g2 = g.commit(e, s);
    assert(g2.kinds == g.kinds && g2.attrs == g.attrs && g2.edges == g.edges);
    assert forall|i: int| 0 <= i < g2.kinds.len() implies ((#[trigger] g2.subs[i]) is Some
        <==> is_group(g2.kinds[i])) by {
        if i != e.id() {
            assert(g2.subs[i] == g.subs[i]);
        }
    }
    assert forall|i: int| 0 <= i < g2.kinds.len() implies ((#[trigger] g2.subs[i]) matches Some(
        s2,
    ) ==> g2.sub_ok(i, s2)) by {
        if i == e.id() {
            assert(g2.subs[i] == Some(s));
            assert(g.sub_ok(i, s));
        } else {
            assert(g2.subs[i] == g.subs[i]);
            if g.subs[i] is Some {
                assert(g.sub_ok(i, g.subs[i]->Some_0));
            }
        }
    }
    assert forall|i: int| 0 <= i < g2.kinds.len() implies ((#[trigger] g2.edges[i]) matches Some(
        ev,
    ) ==> g2.edge_ok(ev)) by {
        if g.edges[i] is Some {
            assert(g.edge_ok(g.edges[i]->Some_0));
        }
    }
}

/// The fresh store is well-formed.
pub proof fn lemma_initial_wf()
    ensures
        GraphV::initial().wf(),
        GraphV::initial().latest() == 0,
{
    let g = GraphV::initial();
    assert(attrs_wf(g.attrs[0]));
    assert(g.subs[0] matches Some(s) ==> g.sub_ok(0, s));
}

/// Upserting every pair of `b` preserves distinct keys.
pub proof fn lemma_attrs_extend_wf(a: AttrsV, b: AttrsV)
    requires
        attrs_wf(a),
    ensures
        attrs_wf(attrs_extend(a, b)),
    decreases b.len(),
{
    if b.len() > 0 {
        lemma_attrs_upsert(a, b[0].0, b[0].1);
        lemma_attrs_extend_wf(attrs_upsert(a, b[0].0, b[0].1), b.drop_first());
    }
}

/// Membership lists stay valid when the graph's kind table is extended and
/// its prefix kept.
pub proof fn lemma_sub_ok_mono(g1: GraphV, g2: GraphV, i: int, s: SubV)
    requires
        g1.kinds.len() <= g2.kinds.len(),
        forall|w: int| 0 <= w < g1.kinds.len() ==> g1.kinds[w] == g2.kinds[w],
        g1.sub_ok(i, s),
    ensures
        g2.sub_ok(i, s),
{
    assert forall|j: int| 0 <= j < s.nodes.len() implies g2.member_ok(i, #[trigger] s.nodes[j])
        && s.nodes[j].kind() == Kind::Node by {
        assert(g1.member_ok(i, s.nodes[j]));
    }
    assert forall|j: int| 0 <= j < s.edges.len() implies g2.member_ok(i, #[trigger] s.edges[j])
        && s.edges[j].kind() == Kind::Edge by {
        assert(g1.member_ok(i, s.edges[j]));
    }
    assert forall|j: int| 0 <= j < s.subgraphs.len() implies g2.member_ok(
        i,
        #[trigger] s.subgraphs[j],
    ) && is_group(s.subgraphs[j].kind()) by {
        assert(g1.member_ok(i, s.subgraphs[j]));
    }
}

/// Replacing one kind's defaults with a well-formed attribute list keeps
/// the whole table well-formed.
pub proof fn lemma_defaults_set_wf(d: DefaultsV, k: Kind, a: AttrsV)
    requires
        d.wf(),
        attrs_wf(a),
    ensures
        d.set(k, a).wf(),
{
    assert forall|k2: Kind| ((#[trigger] d.set(k, a).of(k2)) matches Some(x) ==> attrs_wf(x)) by {
        if k2 != k {
            assert(d.set(k, a).of(k2) == d.of(k2));
            assert(d.of(k2) matches Some(y) ==> attrs_wf(y));
        }
    }
}

/// A key absent from the extension keeps its presence and value.
pub proof fn lemma_attrs_extend_absent(a: AttrsV, b: AttrsV, k: Seq<char>)
    requires
        attrs_wf(a),
        !attrs_has_key(b, k),
    ensures
        attrs_has_key(attrs_extend(a, b), k) == attrs_has_key(a, k),
        attrs_has_key(a, k) ==> attrs_value(attrs_extend(a, b), k) == attrs_value(a, k),
    decreases b.len(),
{
    if b.len() > 0 {
        assert(b[0].0 != k);
        lemma_attrs_upsert(a, b[0].0, b[0].1);
        assert forall|j: int| 0 <= j < b.drop_first().len() implies (#[trigger] b.drop_first()[j]).0
            != k by {
            assert(b.drop_first()[j] == b[j + 1]);
        }
        assert(!attrs_has_key(b.drop_first(), k));
        lemma_attrs_extend_absent(attrs_upsert(a, b[0].0, b[0].1), b.drop_first(), k);
    }
}

/// A key present in the extension ends up with the extension's value.
pub proof fn lemma_attrs_extend_present(a: AttrsV, b: AttrsV, k: Seq<char>)
    requires
        attrs_wf(a),
        attrs_wf(b),
        attrs_has_key(b, k),
    ensures
        attrs_has_key(attrs_extend(a, b), k),
        attrs_value(attrs_extend(a, b), k) == attrs_value(b, k),
    decreases b.len(),
{
    lemma_attrs_index_of(b, k);
    lemma_attrs_upsert(a, b[0].0, b[0].1);
    let a1 = attrs_upsert(a, b[0].0, b[0].1);
    let b1 = b.drop_first();
    assert forall|i2: int, j2: int| 0 <= i2 < j2 < b1.len() implies b1[i2].0 != b1[j2].0 by {
        assert(b1[i2] == b[i2 + 1] && b1[j2] == b[j2 + 1]);
    }
    if b[0].0 == k {
        assert(attrs_index_of(b, k) == 0);
        assert(attrs_value(b, k) == b[0].1);
        assert(attrs_has_key(a1, k) && attrs_value(a1, k) == b[0].1);
        assert forall|j: int| 0 <= j < b1.len() implies (#[trigger] b1[j]).0 != k by {
            assert(b1[j] == b[j + 1]);
        }
        assert(!attrs_has_key(b1, k));
        lemma_attrs_extend_absent(a1, b1, k);
    } else {
        let w = choose|w: int| 0 <= w < b.len() && b[w].0 == k;
        assert(w != 0);
        assert(b1[w - 1].0 == k);
        assert(attrs_has_key(b1, k));
        lemma_attrs_extend_present(a1, b1, k);
        lemma_attrs_index_of(b1, k);
        assert(attrs_value(b1, k) == attrs_value(b, k)) by {
            let i1 = attrs_index_of(b1, k);
            assert(b1[i1].0 == k);
            assert(b[i1 + 1].0 == k);
            lemma_attrs_index_of(b, k);
            let i0 = attrs_index_of(b, k);
            assert(i0 != 0);
            assert(b1[i0 - 1].0 == k);
            assert(i0 - 1 == i1) by {
                if i1 < i0 - 1 {
                    assert(b[i1 + 1].0 == k);
                    assert(forall|j: int| 0 <= j < i0 ==> b[j].0 != k);
                }
                if i1 > i0 - 1 {
                    assert(b1[i0 - 1].0 == k);
                    assert(forall|j: int| 0 <= j < i1 ==> b1[j].0 != k);
                }
            }
            assert(b1[i1] == b[i0]);
        }
    }
}

} // verus!
