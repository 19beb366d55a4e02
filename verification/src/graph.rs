//! The graph store: entities, their attributes, subgraph membership and
//! edge metadata, all held flat in arena-style tables indexed by entity id.

use vstd::prelude::*;
use vstd::pervasive::unreached;

use crate::model::{
    attrs_wf, attrs_upsert, attrs_has_key, attrs_index_of, attrs_extend, AttrsV,
    lemma_attrs_index_of, lemma_attrs_upsert, DefaultsV, SubV, EdgeV, GraphV, is_group,
    lemma_register_wf, lemma_upd_attr_wf, lemma_set_attrs_wf, lemma_locate_same,
    lemma_new_edge_wf, lemma_resolve_pair_same,
};

verus! {

/// The four kinds of entities.
///
/// Clusters and subgraphs are kept distinct so that each can carry its own
/// default attributes (see `Builder::defaults`), although only clusters are
/// rendered with a `cluster` name prefix.
#[derive(Debug, Clone, Copy, PartialEq, Eq, Structural)]
pub enum Kind {
    Node,
    Edge,
    Cluster,
    Subgraph,
}

/// Unique identifier for a graph entity.
///
/// This opaque and lightweight identifier can be copied freely and doesn't
/// hold a reference to the graph.
#[derive(Debug, Clone, Copy, PartialEq, Eq, Structural)]
pub struct Entity {
    pub(crate) kind: Kind,
    pub(crate) id: usize,
}

impl Entity {
    /// The kind of this entity.
    pub open(crate) spec fn kind(self) -> Kind {
        self.kind
    }

    /// The numeric id of this entity.
    pub open(crate) spec fn id(self) -> int {
        self.id as int
    }
}

/// Attributes of an entity: a mapping from attribute-key strings to string
/// values, with unique keys, kept in insertion order.
#[derive(Debug)]
pub struct Attributes {
    pub(crate) pairs: Vec<(String, String)>,
}

impl View for Attributes {
    type V = AttrsV;

    open(crate) spec fn view(&self) -> AttrsV {
        self.pairs@.map_values(|p: (String, String)| (p.0@, p.1@))
    }
}

impl Clone for Attributes {
    fn clone(&self) -> (r: Self)
        ensures
            r@ == self@,
    {
        let mut pairs: Vec<(String, String)> = Vec::new();
        let mut i: usize = 0;
        while i < self.pairs.len()
            invariant
                0 <= i <= self.pairs@.len(),
                pairs@.len() == i,
                forall|j: int| 0 <= j < i ==> pairs@[j].0@ == self.pairs@[j].0@
                    && pairs@[j].1@ == self.pairs@[j].1@,
            decreases self.pairs@.len() - i,
        {
            let p = &self.pairs[i];
            pairs.push((p.0.clone(), p.1.clone()));
            i = i + 1;
        }
        let r = Attributes { pairs };
        proof {
            assert(r@ =~= self@);
        }
        r
    }
}

impl Attributes {
    /// Whether the keys are pairwise distinct.
    pub open spec fn wf(&self) -> bool {
        attrs_wf(self@)
    }

    /// Creates an empty attribute map.
    pub fn new() -> (r: Attributes)
        ensures
            r@ == Seq::<(Seq<char>, Seq<char>)>::empty(),
            r.wf(),
    {
        let r = Attributes { pairs: Vec::new() };
        proof {
            assert(r@ =~= Seq::<(Seq<char>, Seq<char>)>::empty());
        }
        r
    }

    /// The number of attributes.
    pub fn len(&self) -> (n: usize)
        ensures
            n == self@.len(),
    {
        self.pairs.len()
    }

    /// Inserts or replaces the value for `key`. A new key is appended; an
    /// existing key keeps its position and gets the new value.
    pub fn insert(&mut self, key: &str, value: &str)
        requires
            old(self).wf(),
        ensures
            final(self).wf(),
            final(self)@ == attrs_upsert(old(self)@, key@, value@),
    {
        let k: String = key.to_owned();
        let v: String = value.to_owned();
        let ghost orig = self@;
        let mut i: usize = 0;
        #[verifier::loop_isolation(false)]
        while i < self.pairs.len()
            invariant
                0 <= i <= self.pairs@.len(),
                self@ == orig,
                attrs_wf(orig),
                k@ == key@,
                v@ == value@,
                forall|j: int| 0 <= j < i ==> orig[j].0 != key@,
            decreases self.pairs@.len() - i,
        {
            if self.pairs[i].0.eq(&k) {
                proof {
                    assert(orig[i as int].0 == key@);
                    assert(attrs_has_key(orig, key@));
                    lemma_attrs_index_of(orig, key@);
                    assert(attrs_index_of(orig, key@) == i);
                    lemma_attrs_upsert(orig, key@, value@);
                }
                let entry = &mut self.pairs[i];
                entry.1 = v;
                proof {
                    assert(self@ =~= orig.update(i as int, (key@, value@)));
                }
                return ;
            }
            i = i + 1;
        }
        proof {
            assert(!attrs_has_key(orig, key@));
            lemma_attrs_upsert(orig, key@, value@);
        }
        self.pairs.push((k, v));
        proof {
            assert(self@ =~= orig.push((key@, value@)));
        }
    }

    /// Looks up the value stored for `key`, if any.
    pub fn get(&self, key: &str) -> (r: Option<&String>)
        requires
            self.wf(),
        ensures
            attrs_has_key(self@, key@) ==> (r matches Some(v)
                && v@ == self@[attrs_index_of(self@, key@)].1),
            !attrs_has_key(self@, key@) ==> r is None,
    {
        let k: String = key.to_owned();
        let mut i: usize = 0;
        while i < self.pairs.len()
            invariant
                0 <= i <= self.pairs@.len(),
                self.wf(),
                k@ == key@,
                forall|j: int| 0 <= j < i ==> self@[j].0 != key@,
            decreases self.pairs@.len() - i,
        {
            if self.pairs[i].0.eq(&k) {
                proof {
                    assert(self@[i as int].0 == key@);
                    assert(attrs_has_key(self@, key@));
                    lemma_attrs_index_of(self@, key@);
                    assert(attrs_index_of(self@, key@) == i);
                }
                return Some(&self.pairs[i].1);
            }
            i = i + 1;
        }
        proof {
            assert(!attrs_has_key(self@, key@));
        }
        None
    }

    /// Merges `other` into `self`: every pair of `other` is inserted in
    /// order, overriding existing values for equal keys.
    pub fn extend(&mut self, other: Attributes)
        requires
            old(self).wf(),
        ensures
            final(self).wf(),
            final(self)@ == attrs_extend(old(self)@, other@),
    {
        proof {
            assert(other@.skip(0) =~= other@);
        }
        let mut i: usize = 0;
        while i < other.pairs.len()
            invariant
                0 <= i <= other.pairs@.len(),
                self.wf(),
                attrs_extend(self@, other@.skip(i as int))
                    == attrs_extend(old(self)@, other@),
            decreases other.pairs@.len() - i,
        {
            proof {
                assert(other@.skip(i as int).drop_first() =~= other@.skip(i + 1));
                assert(other@.skip(i as int)[0] == other@[i as int]);
                assert(other@[i as int].0 == other.pairs@[i as int].0@);
            }
            self.insert(other.pairs[i].0.as_str(), other.pairs[i].1.as_str());
            i = i + 1;
        }
        proof {
            assert(other@.skip(other@.len() as int) =~= Seq::<(Seq<char>, Seq<char>)>::empty());
        }
    }
}

/// Per-kind default attribute tables, scoped to one builder.
#[derive(Debug)]
pub struct Defaults {
    pub(crate) node: Option<Attributes>,
    pub(crate) edge: Option<Attributes>,
    pub(crate) cluster: Option<Attributes>,
    pub(crate) subgraph: Option<Attributes>,
}

impl View for Defaults {
    type V = DefaultsV;

    open(crate) spec fn view(&self) -> DefaultsV {
        DefaultsV {
            node: match self.node {
                Some(a) => Some(a@),
                None => None,
            },
            edge: match self.edge {
                Some(a) => Some(a@),
                None => None,
            },
            cluster: match self.cluster {
                Some(a) => Some(a@),
                None => None,
            },
            subgraph: match self.subgraph {
                Some(a) => Some(a@),
                None => None,
            },
        }
    }
}

impl Clone for Defaults {
    fn clone(&self) -> (r: Self)
        ensures
            r@ == self@,
    {
        let r = Defaults {
            node: match &self.node {
                Some(a) => Some(a.clone()),
                None => None,
            },
            edge: match &self.edge {
                Some(a) => Some(a.clone()),
                None => None,
            },
            cluster: match &self.cluster {
                Some(a) => Some(a.clone()),
                None => None,
            },
            subgraph: match &self.subgraph {
                Some(a) => Some(a.clone()),
                None => None,
            },
        };
        proof {
            assert(r@ =~= self@);
        }
        r
    }
}

impl Defaults {
    /// Creates an empty table: no defaults set for any kind.
    pub fn new() -> (r: Defaults)
        ensures
            r@ == DefaultsV::empty(),
    {
        let r = Defaults { node: None, edge: None, cluster: None, subgraph: None };
        proof {
            assert(r@ =~= DefaultsV::empty());
        }
        r
    }

    /// The defaults stored for `kind`, if any were ever set.
    pub(crate) fn get_ref(&self, kind: Kind) -> (r: Option<&Attributes>)
        ensures
            r is Some <==> self@.of(kind) is Some,
            r matches Some(a) ==> a@ == self@.of(kind)->Some_0,
    {
        match kind {
            Kind::Node => self.node.as_ref(),
            Kind::Edge => self.edge.as_ref(),
            Kind::Cluster => self.cluster.as_ref(),
            Kind::Subgraph => self.subgraph.as_ref(),
        }
    }

    /// Exclusive access to the defaults for `kind`, created empty on first
    /// access.
    pub(crate) fn slot_mut(&mut self, kind: Kind) -> (r: &mut Attributes)
        ensures
            (*r)@ == old(self)@.seeded(kind),
            final(self)@ == old(self)@.set(kind, (*final(r))@),
    {
        match kind {
            Kind::Node => {
                if self.node.is_none() {
                    self.node = Some(Attributes::new());
                }
                proof {
                    assert(old(self)@.set(Kind::Node, old(self)@.seeded(Kind::Node)) =~= DefaultsV {
                        node: Some(self@.seeded(Kind::Node)),
                        ..old(self)@
                    });
                }
                match &mut self.node {
                    Some(a) => a,
                    None => unreached(),
                }
            },
            Kind::Edge => {
                if self.edge.is_none() {
                    self.edge = Some(Attributes::new());
                }
                match &mut self.edge {
                    Some(a) => a,
                    None => unreached(),
                }
            },
            Kind::Cluster => {
                if self.cluster.is_none() {
                    self.cluster = Some(Attributes::new());
                }
                match &mut self.cluster {
                    Some(a) => a,
                    None => unreached(),
                }
            },
            Kind::Subgraph => {
                if self.subgraph.is_none() {
                    self.subgraph = Some(Attributes::new());
                }
                match &mut self.subgraph {
                    Some(a) => a,
                    None => unreached(),
                }
            },
        }
    }
}

/// Membership lists of one subgraph-like entity.
#[derive(Debug)]
pub(crate) struct SubgraphInfo {
    pub(crate) nodes: Vec<Entity>,
    pub(crate) edges: Vec<Entity>,
    pub(crate) subgraphs: Vec<Entity>,
}

impl View for SubgraphInfo {
    type V = SubV;

    open(crate) spec fn view(&self) -> SubV {
        SubV { nodes: self.nodes@, edges: self.edges@, subgraphs: self.subgraphs@ }
    }
}

impl SubgraphInfo {
    pub(crate) fn new() -> (r: SubgraphInfo)
        ensures
            r@ == SubV::empty(),
    {
        let r = SubgraphInfo { nodes: Vec::new(), edges: Vec::new(), subgraphs: Vec::new() };
        proof {
            assert(r@ =~= SubV::empty());
        }
        r
    }
}

/// Metadata of one edge: resolved node-level endpoints, plus the
/// cluster/subgraph a compound endpoint referred to.
#[derive(Debug, Clone, Copy)]
pub(crate) struct EdgeInfo {
    pub(crate) head_node: Entity,
    pub(crate) tail_node: Entity,
    pub(crate) head_subgraph: Option<Entity>,
    pub(crate) tail_subgraph: Option<Entity>,
}

impl View for EdgeInfo {
    type V = EdgeV;

    open(crate) spec fn view(&self) -> EdgeV {
        EdgeV {
            head_node: self.head_node,
            tail_node: self.tail_node,
            head_subgraph: self.head_subgraph,
            tail_subgraph: self.tail_subgraph,
        }
    }
}

/// The graph store.
///
/// A graph is not created directly: `Graph::new_builder` creates a
/// `RootBuilder`, and `RootBuilder::build` consumes the builder and returns
/// the finished graph, which the rendering functions turn into text.
#[derive(Debug)]
pub struct Graph {
    pub(crate) kinds: Vec<Kind>,
    pub(crate) attributes: Vec<Attributes>,
    pub(crate) subgraphs: Vec<Option<SubgraphInfo>>,
    pub(crate) edges: Vec<Option<EdgeInfo>>,
    pub(crate) latest: usize,
}

impl View for Graph {
    type V = GraphV;

    open(crate) spec fn view(&self) -> GraphV {
        GraphV {
            kinds: self.kinds@,
            attrs: self.attributes@.map_values(|a: Attributes| a@),
            subs: self.subgraphs@.map_values(
                |o: Option<SubgraphInfo>|
                    match o {
                        Some(s) => Some(s@),
                        None => None,
                    },
            ),
            edges: self.edges@.map_values(
                |o: Option<EdgeInfo>|
                    match o {
                        Some(x) => Some(x@),
                        None => None,
                    },
            ),
        }
    }
}

impl Graph {
    /// The store is well-formed and its id counter is in step with its
    /// tables.
    pub open(crate) spec fn wf(&self) -> bool {
        self@.wf() && self.latest as int == self@.latest()
    }

    /// Registers a new entity: issues the next id and creates its attribute
    /// entry, seeded from the defaults for its kind. A subgraph-like entity
    /// also gets empty membership lists.
    pub(crate) fn register(&mut self, kind: Kind, defaults: &Defaults) -> (e: Entity)
        requires
            old(self).wf(),
            defaults@.wf(),
        ensures
            kind != Kind::Edge ==> final(self).wf(),
            final(self)@ == old(self)@.register_g(kind, defaults@),
            final(self).latest as int == final(self)@.latest(),
            e == old(self)@.next_entity(kind),
            final(self)@.registered(e),
            e.kind() == kind,
            forall|e2: Entity| old(self)@.registered(e2) ==> final(self)@.registered(e2),
    {
        self.latest = self.latest + 1;
        let entity = Entity { kind, id: self.latest };
        let seeded = match defaults.get_ref(kind) {
            Some(a) => a.clone(),
            None => Attributes::new(),
        };
        self.kinds.push(kind);
        self.attributes.push(seeded);
        self.subgraphs.push(
            match kind {
                Kind::Cluster | Kind::Subgraph => Some(SubgraphInfo::new()),
                _ => None,
            },
        );
        self.edges.push(None);
        proof {
            assert(self.kinds@.len() <= usize::MAX) by {
                assert(self.kinds.len() == self.kinds@.len());
            }
            assert(self@ =~= old(self)@.register_g(kind, defaults@));
            lemma_register_wf(old(self)@, kind, defaults@);
        }
        entity
    }

    /// First node inside the subgraph-like entity `entity`: the head of its
    /// node list, or the first node found in its child subgraphs,
    /// depth-first in creation order.
    pub(crate) fn locate(&self, entity: Entity) -> (r: Option<Entity>)
        requires
            self.wf(),
            self@.registered(entity),
        ensures
            r == self@.locate(entity),
        decreases self.kinds@.len() - entity.id(),
    {
        match &self.subgraphs[entity.id] {
            None => None,
            Some(info) => {
                if info.nodes.len() > 0 {
                    Some(info.nodes[0])
                } else {
                    let ghost s = self@.subs[entity.id()]->Some_0;
                    proof {
                        assert(self@.subs[entity.id()] == Some(info@));
                        assert(self@.sub_ok(entity.id(), s));
                        assert(s.subgraphs.skip(0) =~= s.subgraphs);
                        assert(self@.locate(entity) == self@.locate_list(
                            s.subgraphs,
                            entity.id(),
                        ));
                    }
                    let mut j: usize = 0;
                    #[verifier::loop_isolation(false)]
                    while j < info.subgraphs.len()
                        invariant
                            0 <= j <= info.subgraphs@.len(),
                            self@.locate_list(s.subgraphs.skip(j as int), entity.id())
                                == self@.locate(entity),
                        decreases info.subgraphs@.len() - j,
                    {
                        proof {
                            assert forall|j2: int| 0 <= j2 < s.subgraphs.skip(j as int).len()
                                implies self@.member_ok(
                                entity.id(),
                                #[trigger] s.subgraphs.skip(j as int)[j2],
                            ) && is_group(s.subgraphs.skip(j as int)[j2].kind()) by {
                                assert(s.subgraphs.skip(j as int)[j2] == s.subgraphs[j + j2]);
                            }
                            assert(s.subgraphs.skip(j as int)[0] == s.subgraphs[j as int]);
                            assert(self@.member_ok(entity.id(), s.subgraphs[j as int]));
                        }
                        let r = self.locate(info.subgraphs[j]);
                        if r.is_some() {
                            proof {
                                assert(self@.locate_list(s.subgraphs.skip(j as int), entity.id())
                                    == r);
                            }
                            return r;
                        }
                        proof {
                            assert(s.subgraphs.skip(j as int).drop_first()
                                =~= s.subgraphs.skip(j + 1));
                        }
                        j = j + 1;
                    }
                    proof {
                        assert(s.subgraphs.skip(s.subgraphs.len() as int)
                            =~= Seq::<Entity>::empty());
                    }
                    None
                }
            },
        }
    }

    /// Resolves one edge endpoint to a node-level endpoint and an optional
    /// compound (cluster/subgraph) entity, setting the root graph's
    /// `compound` attribute when the endpoint is compound.
    pub(crate) fn resolve(&mut self, entity: Entity, head_side: bool) -> (r: (Entity, Option<
        Entity,
    >))
        requires
            old(self).wf(),
            old(self)@.registered(entity),
        ensures
            final(self).wf(),
            final(self)@ == old(self)@.resolve_g(entity),
            r == old(self)@.resolve_pair(entity, head_side),
    {
        match entity.kind {
            Kind::Node => (entity, None),
            Kind::Edge => {
                proof {
                    assert(self@.edges[entity.id()] is Some);
                }
                match &self.edges[entity.id] {
                    Some(info) => {
                        proof {
                            assert(self@.edges[entity.id()] == Some(info@));
                        }
                        if head_side {
                            (info.tail_node, info.tail_subgraph)
                        } else {
                            (info.head_node, info.head_subgraph)
                        }
                    },
                    None => {
                        proof {
                            assert(false);
                        }
                        unreached()
                    },
                }
            },
            Kind::Cluster | Kind::Subgraph => {
                proof {
                    assert(attrs_wf(old(self)@.attrs[0]));
                }
                let root_attrs = &mut self.attributes[0];
                root_attrs.insert("compound", "true");
                proof {
                    assert(self@ =~= old(self)@.set_compound());
                    lemma_upd_attr_wf(old(self)@, 0, "compound"@, "true"@);
                }
                let located = self.locate(entity);
                let node = match located {
                    Some(n) => n,
                    None => entity,
                };
                proof {
                    lemma_locate_same(self@, old(self)@, entity);
                }
                (node, Some(entity))
            },
        }
    }

    /// Registers a node and sets its `label` attribute, overriding any
    /// default label.
    pub(crate) fn new_node(&mut self, label: &str, defaults: &Defaults) -> (e: Entity)
        requires
            old(self).wf(),
            defaults@.wf(),
        ensures
            final(self).wf(),
            final(self)@ == old(self)@.new_node_g(label@, defaults@),
            e == old(self)@.next_entity(Kind::Node),
            final(self)@.registered(e),
            e.kind() == Kind::Node,
            forall|e2: Entity| old(self)@.registered(e2) ==> final(self)@.registered(e2),
    {
        let entity = self.register(Kind::Node, defaults);
        proof {
            lemma_register_wf(old(self)@, Kind::Node, defaults@);
        }
        let a = self.attributes_mut(entity);
        a.insert("label", label);
        proof {
            let g1 = old(self)@.register_g(Kind::Node, defaults@);
            assert(self@ =~= old(self)@.new_node_g(label@, defaults@));
            lemma_upd_attr_wf(g1, entity.id(), "label"@, label@);
        }
        entity
    }

    /// Resolves both endpoints, registers an edge entity seeded from the
    /// defaults, and records the resolved metadata.
    ///
    /// A cluster or subgraph endpoint whose whole subtree holds no node
    /// stands for itself in the recorded metadata.
    pub(crate) fn new_edge(&mut self, head: Entity, tail: Entity, defaults: &Defaults) -> (e:
        Entity)
        requires
            old(self).wf(),
            defaults@.wf(),
            old(self)@.registered(head),
            old(self)@.registered(tail),
        ensures
            final(self).wf(),
            final(self)@ == old(self)@.new_edge_g(head, tail, defaults@),
            e == old(self)@.next_entity(Kind::Edge),
            final(self)@.registered(e),
            e.kind() == Kind::Edge,
            forall|e2: Entity| old(self)@.registered(e2) ==> final(self)@.registered(e2),
    {
        let ghost g0 = old(self)@;
        let (head_node, head_subgraph) = self.resolve(head, true);
        let ghost g1 = self@;
        proof {
            assert(g0.registered(tail));
        }
        proof {
            assert(self@.registered(tail));
        }
        let (tail_node, tail_subgraph) = self.resolve(tail, false);
        proof {
            lemma_resolve_pair_same(g1, g0, tail, false);
        }
        let info = EdgeInfo { head_node, tail_node, head_subgraph, tail_subgraph };
        let entity = self.register(Kind::Edge, defaults);
        proof {
            assert(self.kinds@.len() <= usize::MAX) by {
                assert(self.kinds.len() == self.kinds@.len());
            }
            assert(g0.kinds.len() < usize::MAX);
            assert(self@.edges.len() == self@.kinds.len());
            assert(self.edges@.len() == self@.edges.len());
            assert(entity.id() == g0.kinds.len());
            assert(entity.id() < self.edges@.len());
        }
        let slot = &mut self.edges[entity.id];
        *slot = Some(info);
        proof {
            assert(self@ =~= g0.new_edge_g(head, tail, defaults@));
            lemma_new_edge_wf(g0, head, tail, defaults@);
        }
        entity
    }

    /// Shared access to the attributes of a registered entity.
    pub(crate) fn attributes(&self, entity: Entity) -> (r: &Attributes)
        requires
            self.wf(),
            self@.registered(entity),
        ensures
            r@ == self@.attrs[entity.id()],
            r.wf(),
    {
        proof {
            assert(attrs_wf(self@.attrs[entity.id()]));
        }
        &self.attributes[entity.id]
    }

    /// Exclusive access to the attributes of a registered entity.
    pub(crate) fn attributes_mut(&mut self, entity: Entity) -> (r: &mut Attributes)
        requires
            old(self).wf(),
            old(self)@.registered(entity),
        ensures
            (*r)@ == old(self)@.attrs[entity.id()],
            (*r).wf(),
            final(self)@ == old(self)@.set_attrs_at(entity.id(), (*final(r))@),
            attrs_wf((*final(r))@) ==> final(self).wf(),
    {
        proof {
            assert(attrs_wf(old(self)@.attrs[entity.id()]));
            assert forall|a: AttrsV| attrs_wf(a) implies old(self)@.set_attrs_at(
                entity.id(),
                a,
            ).wf() by {
                lemma_set_attrs_wf(old(self)@, entity.id(), a);
            }
        }
        let r = &mut self.attributes[entity.id];
        r
    }
}

} // verus!
