//! Builders: the scoped construction API over the shared graph store.
//!
//! Only one builder may write to the store at any instant: creating a
//! nested builder exclusively borrows the store, and the parent becomes
//! usable again once the nested builder has been finalized with `build`.

use vstd::prelude::*;

use crate::graph::{Kind, Entity, Attributes, Defaults, Graph, SubgraphInfo};
use crate::model::{
    attrs_wf, AttrsV, GraphV, SubV, DefaultsV, is_group, lemma_register_wf, lemma_upd_attr_wf,
    lemma_sub_ok_mono, lemma_commit_wf, lemma_initial_wf, lemma_new_edge_wf,
    lemma_attrs_extend_wf, lemma_attrs_upsert, lemma_defaults_set_wf,
};

verus! {

/// Builder for the root graph.
///
/// This can only be constructed by `Graph::new_builder`, and implements the
/// `Builder` trait. `build` finalizes it into the finished `Graph`.
#[derive(Debug)]
pub struct RootBuilder {
    pub(crate) graph: Graph,
    pub(crate) current: SubgraphInfo,
    pub(crate) defaults: Defaults,
}

/// Builder for a nested subgraph or cluster.
///
/// Constructed by calling `new_subgraph` or `new_cluster` on any builder.
/// The new builder holds the exclusive reference to the whole graph, so its
/// parent can only be used again once this builder is finalized with
/// `build`. Always finalize with an explicit `build` call: a nested builder
/// that is merely dropped leaves its subgraph registered but empty.
#[derive(Debug)]
pub struct SubgraphBuilder<'a> {
    pub(crate) graph: &'a mut Graph,
    pub(crate) entity: Entity,
    pub(crate) current: SubgraphInfo,
    pub(crate) defaults: Defaults,
}

/// The reserved root subgraph entity, id 0.
pub open(crate) spec fn root_entity() -> Entity {
    Entity { kind: Kind::Subgraph, id: 0 }
}

/// A builder scope is valid in graph `g`: its entity is a registered
/// cluster/subgraph, and its accumulated members are registered entities of
/// the right kinds, issued after the scope's entity.
pub open spec fn scope_inv(g: GraphV, ent: Entity, s: SubV) -> bool {
    &&& g.registered(ent)
    &&& is_group(ent.kind())
    &&& g.sub_ok(ent.id(), s)
}

impl RootBuilder {
    /// The owned graph store.
    pub open(crate) spec fn graph_at(&self) -> Graph {
        self.graph
    }

    /// The graph store as built so far.
    pub open(crate) spec fn gv_now(&self) -> GraphV {
        self.graph@
    }

    /// The members created in the root scope so far.
    pub open(crate) spec fn scope_now(&self) -> SubV {
        self.current@
    }

    /// The root builder's default attributes.
    pub open(crate) spec fn dv_now(&self) -> DefaultsV {
        self.defaults@
    }

    /// Validity of the root builder.
    pub open(crate) spec fn inv_now(&self) -> bool {
        &&& self.graph.wf()
        &&& self.dv_now().wf()
        &&& scope_inv(self.graph@, root_entity(), self.current@)
    }

    /// Creates a fresh root builder over a store holding only the root
    /// subgraph.
    pub(crate) fn new() -> (r: RootBuilder)
        ensures
            r.inv_now(),
            r.gv_now() == GraphV::initial(),
            r.scope_now() == SubV::empty(),
            r.dv_now() == DefaultsV::empty(),
    {
        let mut kinds: Vec<Kind> = Vec::new();
        kinds.push(Kind::Subgraph);
        let mut attributes: Vec<Attributes> = Vec::new();
        attributes.push(Attributes::new());
        let mut subgraphs: Vec<Option<SubgraphInfo>> = Vec::new();
        subgraphs.push(Some(SubgraphInfo::new()));
        let mut edges: Vec<Option<crate::graph::EdgeInfo>> = Vec::new();
        edges.push(None);
        let graph = Graph { kinds, attributes, subgraphs, edges, latest: 0 };
        let r = RootBuilder {
            graph,
            current: SubgraphInfo::new(),
            defaults: Defaults::new(),
        };
        proof {
            assert(r.graph@ =~= GraphV::initial());
            lemma_initial_wf();
        }
        r
    }

    /// Finalizes the build: commits the root scope's membership and returns
    /// the finished graph.
    pub fn build(self) -> (g: Graph)
        requires
            self.inv_now(),
        ensures
            g.wf(),
            g@ == self.gv_now().commit(root_entity(), self.scope_now()),
    {
        let RootBuilder { mut graph, current, defaults: _ } = self;
        proof {
            lemma_commit_wf(graph@, root_entity(), current@);
            assert(graph@.subs.len() == graph@.kinds.len());
            assert(graph.subgraphs@.len() == graph@.subs.len());
        }
        let slot = &mut graph.subgraphs[0];
        *slot = Some(current);
        proof {
            assert(graph@ =~= self.gv_now().commit(root_entity(), self.scope_now()));
        }
        graph
    }

    /// Creates a nested builder scoped to `entity`, inheriting a copy of
    /// this builder's defaults.
    fn new_builder<'b>(&'b mut self, entity: Entity) -> (c: SubgraphBuilder<'b>)
        requires
            old(self).inv_now(),
            old(self).gv_now().registered(entity),
            is_group(entity.kind()),
        ensures
            c.inv_now(),
            c.gv_now() == old(self).gv_now(),
            c.entity_now() == entity,
            c.scope_now() == SubV::empty(),
            c.dv_now() == old(self).dv_now(),
            final(self).graph_at() == *final(c.graph_ref()),
            final(self).scope_now() == old(self).scope_now(),
            final(self).dv_now() == old(self).dv_now(),
    {
        SubgraphBuilder {
            graph: &mut self.graph,
            entity,
            current: SubgraphInfo::new(),
            defaults: self.defaults.clone(),
        }
    }
}

impl<'a> SubgraphBuilder<'a> {
    /// The exclusive reference this builder holds on the graph store.
    pub open(crate) spec fn graph_ref(self) -> &'a mut Graph {
        self.graph
    }

    /// The graph store as built so far.
    pub open(crate) spec fn gv_now(&self) -> GraphV {
        (*self.graph)@
    }

    /// The entity this builder is scoped to.
    pub open(crate) spec fn entity_now(&self) -> Entity {
        self.entity
    }

    /// The members created in this builder's scope so far.
    pub open(crate) spec fn scope_now(&self) -> SubV {
        self.current@
    }

    /// This builder's default attributes.
    pub open(crate) spec fn dv_now(&self) -> DefaultsV {
        self.defaults@
    }

    /// Validity of a nested builder.
    pub open(crate) spec fn inv_now(&self) -> bool {
        &&& (*self.graph).wf()
        &&& self.dv_now().wf()
        &&& scope_inv((*self.graph)@, self.entity, self.current@)
    }

    /// Finalizes this scope: commits the accumulated membership under this
    /// builder's entity, releases the hold on the graph, and returns the
    /// entity so the parent can refer to the finished subgraph or cluster.
    pub fn build(self) -> (e: Entity)
        requires
            self.inv_now(),
        ensures
            e == self.entity_now(),
            (*final(self.graph_ref())).wf(),
            (*final(self.graph_ref()))@ == self.gv_now().commit(
                self.entity_now(),
                self.scope_now(),
            ),
            forall|e2: Entity| self.gv_now().registered(e2)
                ==> (*final(self.graph_ref()))@.registered(e2),
    {
        let SubgraphBuilder { graph, entity, current, defaults: _ } = self;
        proof {
            lemma_commit_wf((*graph)@, entity, current@);
            assert((*graph)@.subs.len() == (*graph)@.kinds.len());
            assert(graph.subgraphs@.len() == (*graph)@.subs.len());
        }
        let slot = &mut graph.subgraphs[entity.id];
        *slot = Some(current);
        proof {
            assert((*graph)@ =~= self.gv_now().commit(self.entity_now(), self.scope_now()));
        }
        entity
    }

    /// Creates a nested builder scoped to `entity`, inheriting a copy of
    /// this builder's defaults.
    fn new_builder<'b>(&'b mut self, entity: Entity) -> (c: SubgraphBuilder<'b>)
        requires
            old(self).inv_now(),
            old(self).gv_now().registered(entity),
            is_group(entity.kind()),
        ensures
            c.inv_now(),
            c.gv_now() == old(self).gv_now(),
            c.entity_now() == entity,
            c.scope_now() == SubV::empty(),
            c.dv_now() == old(self).dv_now(),
            *final(self).graph_ref() == *final(c.graph_ref()),
            *final(final(self).graph_ref()) == *final(old(self).graph_ref()),
            final(self).entity_now() == old(self).entity_now(),
            final(self).scope_now() == old(self).scope_now(),
            final(self).dv_now() == old(self).dv_now(),
    {
        SubgraphBuilder {
            graph: &mut *self.graph,
            entity,
            current: SubgraphInfo::new(),
            defaults: self.defaults.clone(),
        }
    }
}

/// The construction capabilities shared by the root builder and nested
/// builders.
pub trait Builder: Sized {
    /// The graph store as built so far.
    spec fn gv(&self) -> GraphV;

    /// The members created in this builder's scope so far.
    spec fn scope(&self) -> SubV;

    /// This builder's default attributes.
    spec fn dv(&self) -> DefaultsV;

    /// The subgraph-like entity this builder's scope belongs to.
    spec fn scope_entity(&self) -> Entity;

    /// Validity of the builder.
    spec fn inv(&self) -> bool;

    /// What validity of a builder gives: a well-formed store, well-formed
    /// defaults, and a valid scope.
    proof fn inv_facts(&self)
        requires
            self.inv(),
        ensures
            self.gv().wf(),
            self.dv().wf(),
            scope_inv(self.gv(), self.scope_entity(), self.scope()),
    ;

    /// Creates a new node with the given label within the current scope,
    /// seeded from this builder's defaults for nodes, with the `label`
    /// attribute set to `label`. Returns the new node's entity.
    fn new_node(&mut self, label: &str) -> (e: Entity)
        requires
            old(self).inv(),
        ensures
            final(self).inv(),
            e == old(self).gv().next_entity(Kind::Node),
            final(self).gv() == old(self).gv().new_node_g(label@, old(self).dv()),
            final(self).gv().registered(e),
            forall|e2: Entity| old(self).gv().registered(e2) ==> final(self).gv().registered(e2),
            final(self).scope() == old(self).scope().push_node(e),
            final(self).dv() == old(self).dv(),
            final(self).scope_entity() == old(self).scope_entity(),
    ;

    /// Creates a new edge between the two provided entities.
    ///
    /// If an endpoint is an edge, the new edge chains from it: the head
    /// side continues from that edge's tail side, and the tail side from
    /// its head side. If an endpoint is a subgraph or cluster, the graph's
    /// `compound` attribute is set to `"true"` and the endpoint stands for
    /// the first node inside it (or for itself, if it holds none anywhere),
    /// with the subgraph retained for `lhead`/`ltail` rendering.
    fn new_edge(&mut self, head: Entity, tail: Entity) -> (e: Entity)
        requires
            old(self).inv(),
            old(self).gv().registered(head),
            old(self).gv().registered(tail),
        ensures
            final(self).inv(),
            e == old(self).gv().next_entity(Kind::Edge),
            final(self).gv() == old(self).gv().new_edge_g(head, tail, old(self).dv()),
            final(self).gv().registered(e),
            forall|e2: Entity| old(self).gv().registered(e2) ==> final(self).gv().registered(e2),
            final(self).scope() == old(self).scope().push_edge(e),
            final(self).dv() == old(self).dv(),
            final(self).scope_entity() == old(self).scope_entity(),
    ;

    /// Creates a new subgraph within the current scope and returns a
    /// builder for it, which inherits a copy of this builder's defaults.
    /// This builder is unusable until the returned one is finalized with
    /// `build`.
    fn new_subgraph<'b>(&'b mut self) -> (c: SubgraphBuilder<'b>)
        requires
            old(self).inv(),
        ensures
            c.inv_now(),
            c.gv_now() == old(self).gv().register_g(Kind::Subgraph, old(self).dv()),
            c.entity_now() == old(self).gv().next_entity(Kind::Subgraph),
            c.gv_now().registered(c.entity_now()),
            forall|e2: Entity| old(self).gv().registered(e2) ==> c.gv_now().registered(e2),
            c.scope_now() == SubV::empty(),
            c.dv_now() == old(self).dv(),
            final(self).gv() == (*final(c.graph_ref()))@,
            final(self).scope() == old(self).scope().push_subgraph(c.entity_now()),
            final(self).dv() == old(self).dv(),
            final(self).scope_entity() == old(self).scope_entity(),
    ;

    /// Creates a new cluster with the given label within the current scope
    /// and returns a builder for it, as `new_subgraph` does.
    fn new_cluster<'b>(&'b mut self, label: &str) -> (c: SubgraphBuilder<'b>)
        requires
            old(self).inv(),
        ensures
            c.inv_now(),
            c.gv_now() == old(self).gv().new_cluster_g(label@, old(self).dv()),
            c.entity_now() == old(self).gv().next_entity(Kind::Cluster),
            c.gv_now().registered(c.entity_now()),
            forall|e2: Entity| old(self).gv().registered(e2) ==> c.gv_now().registered(e2),
            c.scope_now() == SubV::empty(),
            c.dv_now() == old(self).dv(),
            final(self).gv() == (*final(c.graph_ref()))@,
            final(self).scope() == old(self).scope().push_subgraph(c.entity_now()),
            final(self).dv() == old(self).dv(),
            final(self).scope_entity() == old(self).scope_entity(),
    ;

    /// Like `new_node`, but merges the given attributes into the new
    /// node's attributes, overriding any default.
    fn new_node_with(&mut self, label: &str, attribs: Attributes) -> (e: Entity)
        requires
            old(self).inv(),
        ensures
            final(self).inv(),
            e == old(self).gv().next_entity(Kind::Node),
            final(self).gv() == old(self).gv().new_node_g(label@, old(self).dv()).merge_attrs_g(
                e.id(),
                attribs@,
            ),
            final(self).scope() == old(self).scope().push_node(e),
            final(self).dv() == old(self).dv(),
            final(self).scope_entity() == old(self).scope_entity(),
    {
        let entity = self.new_node(label);
        proof {
            old(self).inv_facts();
            self.inv_facts();
            lemma_builder_new_entity(old(self).gv(), Kind::Node, old(self).dv());
        }
        let a = self.attributes_mut(entity);
        a.extend(attribs);
        proof {
            lemma_attrs_extend_wf(
                old(self).gv().new_node_g(label@, old(self).dv()).attrs[entity.id()],
                attribs@,
            );
        }
        entity
    }

    /// Like `new_edge`, but merges the given attributes into the new
    /// edge's attributes, overriding any default.
    fn new_edge_with(&mut self, head: Entity, tail: Entity, attribs: Attributes) -> (e: Entity)
        requires
            old(self).inv(),
            old(self).gv().registered(head),
            old(self).gv().registered(tail),
        ensures
            final(self).inv(),
            e == old(self).gv().next_entity(Kind::Edge),
            final(self).gv() == old(self).gv().new_edge_g(
                head,
                tail,
                old(self).dv(),
            ).merge_attrs_g(e.id(), attribs@),
            final(self).scope() == old(self).scope().push_edge(e),
            final(self).dv() == old(self).dv(),
            final(self).scope_entity() == old(self).scope_entity(),
    {
        let entity = self.new_edge(head, tail);
        proof {
            old(self).inv_facts();
            self.inv_facts();
            lemma_new_edge_wf(old(self).gv(), head, tail, old(self).dv());
        }
        let a = self.attributes_mut(entity);
        a.extend(attribs);
        proof {
            lemma_attrs_extend_wf(
                old(self).gv().new_edge_g(head, tail, old(self).dv()).attrs[entity.id()],
                attribs@,
            );
        }
        entity
    }

    /// Like `new_subgraph`, but merges the given attributes into the new
    /// subgraph's attributes, overriding any default.
    fn new_subgraph_with<'b>(&'b mut self, attribs: Attributes) -> (c: SubgraphBuilder<'b>)
        requires
            old(self).inv(),
        ensures
            c.inv_now(),
            c.gv_now() == old(self).gv().register_g(
                Kind::Subgraph,
                old(self).dv(),
            ).merge_attrs_g(c.entity_now().id(), attribs@),
            c.entity_now() == old(self).gv().next_entity(Kind::Subgraph),
            c.scope_now() == SubV::empty(),
            c.dv_now() == old(self).dv(),
            final(self).gv() == (*final(c.graph_ref()))@,
            final(self).scope() == old(self).scope().push_subgraph(c.entity_now()),
            final(self).dv() == old(self).dv(),
            final(self).scope_entity() == old(self).scope_entity(),
    {
        let mut result = self.new_subgraph();
        proof {
            old(self).inv_facts();
            lemma_builder_new_entity(old(self).gv(), Kind::Subgraph, old(self).dv());
        }
        let entity = result.entity;
        let a = result.graph.attributes_mut(entity);
        a.extend(attribs);
        proof {
            lemma_attrs_extend_wf(
                old(self).gv().register_g(Kind::Subgraph, old(self).dv()).attrs[entity.id()],
                attribs@,
            );
        }
        result
    }

    /// Like `new_cluster`, but merges the given attributes into the new
    /// cluster's attributes, overriding any default.
    fn new_cluster_with<'b>(&'b mut self, label: &str, attribs: Attributes) -> (c:
        SubgraphBuilder<'b>)
        requires
            old(self).inv(),
        ensures
            c.inv_now(),
            c.gv_now() == old(self).gv().new_cluster_g(label@, old(self).dv()).merge_attrs_g(
                c.entity_now().id(),
                attribs@,
            ),
            c.entity_now() == old(self).gv().next_entity(Kind::Cluster),
            c.scope_now() == SubV::empty(),
            c.dv_now() == old(self).dv(),
            final(self).gv() == (*final(c.graph_ref()))@,
            final(self).scope() == old(self).scope().push_subgraph(c.entity_now()),
            final(self).dv() == old(self).dv(),
            final(self).scope_entity() == old(self).scope_entity(),
    {
        let mut result = self.new_cluster(label);
        proof {
            old(self).inv_facts();
            lemma_builder_new_entity(old(self).gv(), Kind::Cluster, old(self).dv());
        }
        let entity = result.entity;
        let a = result.graph.attributes_mut(entity);
        a.extend(attribs);
        proof {
            lemma_attrs_extend_wf(
                old(self).gv().new_cluster_g(label@, old(self).dv()).attrs[entity.id()],
                attribs@,
            );
        }
        result
    }

    /// The defaults for the given kind of entity, if any were set.
    ///
    /// When an entity is created, its attributes are seeded from the
    /// defaults of its kind. Defaults are scoped: changes made to the
    /// defaults of a builder are never forwarded back to its parent, and a
    /// nested builder starts with a copy of its parent's defaults.
    fn defaults(&self, kind: Kind) -> (r: Option<&Attributes>)
        ensures
            r is Some <==> self.dv().of(kind) is Some,
            r matches Some(a) ==> a@ == self.dv().of(kind)->Some_0,
    ;

    /// Exclusive access to the defaults for the given kind, created empty
    /// on first access.
    fn defaults_mut<'b>(&'b mut self, kind: Kind) -> (r: &'b mut Attributes)
        requires
            old(self).inv(),
        ensures
            (*r)@ == old(self).dv().seeded(kind),
            final(self).dv() == old(self).dv().set(kind, (*final(r))@),
            final(self).gv() == old(self).gv(),
            final(self).scope() == old(self).scope(),
            final(self).scope_entity() == old(self).scope_entity(),
            attrs_wf((*final(r))@) ==> final(self).inv(),
    ;

    /// The attributes of the given entity.
    ///
    /// Attributes are unscoped: any builder can read or change the
    /// attributes of any entity of the shared store, whichever builder
    /// created it.
    fn attributes(&self, entity: Entity) -> (r: &Attributes)
        requires
            self.inv(),
            self.gv().registered(entity),
        ensures
            r@ == self.gv().attrs[entity.id()],
            r.wf(),
    ;

    /// Exclusive access to the attributes of the given entity.
    fn attributes_mut<'b>(&'b mut self, entity: Entity) -> (r: &'b mut Attributes)
        requires
            old(self).inv(),
            old(self).gv().registered(entity),
        ensures
            (*r)@ == old(self).gv().attrs[entity.id()],
            (*r).wf(),
            final(self).gv() == old(self).gv().set_attrs_at(entity.id(), (*final(r))@),
            final(self).scope() == old(self).scope(),
            final(self).dv() == old(self).dv(),
            final(self).scope_entity() == old(self).scope_entity(),
            attrs_wf((*final(r))@) ==> final(self).inv(),
    ;
}

/// A freshly issued entity is registered in the store that issued it, and
/// everything registered before stays registered.
pub proof fn lemma_builder_new_entity(g: GraphV, k: Kind, d: DefaultsV)
    requires
        g.wf(),
        d.wf(),
        g.kinds.len() < usize::MAX,
    ensures
        ({
            let g2 = g.register_g(k, d);
            let e = g.next_entity(k);
            &&& g2.registered(e)
            &&& g2.upd_attr(e.id(), "label"@, "x"@).registered(e)
        }),
{
    lemma_register_wf(g, k, d);
}

impl Builder for RootBuilder {
    open(crate) spec fn gv(&self) -> GraphV {
        self.gv_now()
    }

    open(crate) spec fn scope(&self) -> SubV {
        self.scope_now()
    }

    open(crate) spec fn dv(&self) -> DefaultsV {
        self.dv_now()
    }

    open(crate) spec fn scope_entity(&self) -> Entity {
        root_entity()
    }

    open(crate) spec fn inv(&self) -> bool {
        self.inv_now()
    }

    proof fn inv_facts(&self) {
    }

    fn new_node(&mut self, label: &str) -> (e: Entity) {
        let entity = self.graph.new_node(label, &self.defaults);
        self.current.nodes.push(entity);
        proof {
            lemma_sub_ok_mono(old(self).gv_now(), self.graph@, 0, old(self).current@);
            assert(self.current@ =~= old(self).current@.push_node(entity));
        }
        entity
    }

    fn new_edge(&mut self, head: Entity, tail: Entity) -> (e: Entity) {
        let entity = self.graph.new_edge(head, tail, &self.defaults);
        self.current.edges.push(entity);
        proof {
            lemma_sub_ok_mono(old(self).gv_now(), self.graph@, 0, old(self).current@);
            assert(self.current@ =~= old(self).current@.push_edge(entity));
        }
        entity
    }

    fn new_subgraph<'b>(&'b mut self) -> (c: SubgraphBuilder<'b>)
        ensures
            final(self).graph_at() == *final(c.graph_ref()),
    {
        let entity = self.graph.register(Kind::Subgraph, &self.defaults);
        self.current.subgraphs.push(entity);
        proof {
            lemma_sub_ok_mono(old(self).gv_now(), self.graph@, 0, old(self).current@);
            assert(self.current@ =~= old(self).current@.push_subgraph(entity));
        }
        self.new_builder(entity)
    }

    fn new_cluster<'b>(&'b mut self, label: &str) -> (c: SubgraphBuilder<'b>)
        ensures
            final(self).graph_at() == *final(c.graph_ref()),
    {
        let entity = self.graph.register(Kind::Cluster, &self.defaults);
        self.current.subgraphs.push(entity);
        let a = self.graph.attributes_mut(entity);
        a.insert("label", label);
        proof {
            let g1 = old(self).gv_now().register_g(Kind::Cluster, old(self).dv_now());
            assert(self.graph@ =~= old(self).gv_now().new_cluster_g(label@, old(self).dv_now()));
            lemma_upd_attr_wf(g1, entity.id(), "label"@, label@);
            lemma_sub_ok_mono(old(self).gv_now(), self.graph@, 0, old(self).current@);
            assert(self.current@ =~= old(self).current@.push_subgraph(entity));
        }
        self.new_builder(entity)
    }

    fn defaults(&self, kind: Kind) -> (r: Option<&Attributes>) {
        self.defaults.get_ref(kind)
    }

    fn defaults_mut<'b>(&'b mut self, kind: Kind) -> (r: &'b mut Attributes) {
        proof {
            assert forall|a: AttrsV| attrs_wf(a) implies old(self).dv_now().set(kind, a).wf() by {
                lemma_defaults_set_wf(old(self).dv_now(), kind, a);
            }
        }
        self.defaults.slot_mut(kind)
    }

    fn attributes(&self, entity: Entity) -> (r: &Attributes) {
        self.graph.attributes(entity)
    }

    fn attributes_mut<'b>(&'b mut self, entity: Entity) -> (r: &'b mut Attributes) {
        self.graph.attributes_mut(entity)
    }
}

impl<'a> Builder for SubgraphBuilder<'a> {
    open(crate) spec fn gv(&self) -> GraphV {
        self.gv_now()
    }

    open(crate) spec fn scope(&self) -> SubV {
        self.scope_now()
    }

    open(crate) spec fn dv(&self) -> DefaultsV {
        self.dv_now()
    }

    open(crate) spec fn scope_entity(&self) -> Entity {
        self.entity
    }

    open(crate) spec fn inv(&self) -> bool {
        self.inv_now()
    }

    proof fn inv_facts(&self) {
    }

    fn new_node(&mut self, label: &str) -> (e: Entity)
        ensures
            *final(final(self).graph_ref()) == *final(old(self).graph_ref()),
    {
        let entity = self.graph.new_node(label, &self.defaults);
        self.current.nodes.push(entity);
        proof {
            lemma_sub_ok_mono(old(self).gv_now(), (*self.graph)@, old(self).entity.id(), old(self).current@);
            assert(self.current@ =~= old(self).current@.push_node(entity));
        }
        entity
    }

    fn new_edge(&mut self, head: Entity, tail: Entity) -> (e: Entity)
        ensures
            *final(final(self).graph_ref()) == *final(old(self).graph_ref()),
    {
        let entity = self.graph.new_edge(head, tail, &self.defaults);
        self.current.edges.push(entity);
        proof {
            lemma_sub_ok_mono(old(self).gv_now(), (*self.graph)@, old(self).entity.id(), old(self).current@);
            assert(self.current@ =~= old(self).current@.push_edge(entity));
        }
        entity
    }

    fn new_subgraph<'b>(&'b mut self) -> (c: SubgraphBuilder<'b>)
        ensures
            *final(self).graph_ref() == *final(c.graph_ref()),
            *final(final(self).graph_ref()) == *final(old(self).graph_ref()),
    {
        let entity = self.graph.register(Kind::Subgraph, &self.defaults);
        self.current.subgraphs.push(entity);
        proof {
            lemma_sub_ok_mono(old(self).gv_now(), (*self.graph)@, old(self).entity.id(), old(self).current@);
            assert(self.current@ =~= old(self).current@.push_subgraph(entity));
        }
        self.new_builder(entity)
    }

    fn new_cluster<'b>(&'b mut self, label: &str) -> (c: SubgraphBuilder<'b>)
        ensures
            *final(self).graph_ref() == *final(c.graph_ref()),
            *final(final(self).graph_ref()) == *final(old(self).graph_ref()),
    {
        let entity = self.graph.register(Kind::Cluster, &self.defaults);
        self.current.subgraphs.push(entity);
        let a = self.graph.attributes_mut(entity);
        a.insert("label", label);
        proof {
            let g1 = old(self).gv_now().register_g(Kind::Cluster, old(self).dv_now());
            assert((*self.graph)@ =~= old(self).gv_now().new_cluster_g(
                label@,
                old(self).dv_now(),
            ));
            lemma_upd_attr_wf(g1, entity.id(), "label"@, label@);
            lemma_sub_ok_mono(old(self).gv_now(), (*self.graph)@, old(self).entity.id(), old(self).current@);
            assert(self.current@ =~= old(self).current@.push_subgraph(entity));
        }
        self.new_builder(entity)
    }

    fn defaults(&self, kind: Kind) -> (r: Option<&Attributes>) {
        self.defaults.get_ref(kind)
    }

    fn defaults_mut<'b>(&'b mut self, kind: Kind) -> (r: &'b mut Attributes)
        ensures
            *final(final(self).graph_ref()) == *final(old(self).graph_ref()),
    {
        proof {
            assert forall|a: AttrsV| attrs_wf(a) implies old(self).dv_now().set(kind, a).wf() by {
                lemma_defaults_set_wf(old(self).dv_now(), kind, a);
            }
        }
        self.defaults.slot_mut(kind)
    }

    fn attributes(&self, entity: Entity) -> (r: &Attributes) {
        self.graph.attributes(entity)
    }

    fn attributes_mut<'b>(&'b mut self, entity: Entity) -> (r: &'b mut Attributes)
        ensures
            *final(final(self).graph_ref()) == *final(old(self).graph_ref()),
    {
        self.graph.attributes_mut(entity)
    }
}

impl Graph {
    /// Creates a new `RootBuilder` over a fresh store.
    pub fn new_builder() -> (r: RootBuilder)
        ensures
            r.inv_now(),
            r.gv_now() == GraphV::initial(),
            r.scope_now() == SubV::empty(),
            r.dv_now() == DefaultsV::empty(),
    {
        RootBuilder::new()
    }
}

} // verus!
