use graphwiz::{
    Attributes, Builder, Graph, Kind, render_digraph, render_graph, render_strict_digraph,
    render_strict_graph,
};

#[test]
fn unique_increasing_ids() {
    let mut root = Graph::new_builder();
    let a = root.new_node("a");
    let b = root.new_node("b");
    let ab = root.new_edge(a, b);
    let mut cluster = root.new_cluster("k");
    let c = cluster.new_node("c");
    let ce = cluster.build();
    assert_ne!(a, b);
    assert_ne!(a, ab);
    assert_ne!(b, ab);
    assert_ne!(c, a);
    assert_ne!(c, b);
    assert_ne!(ce, c);
    let copy = a;
    assert_eq!(copy, a);
    // The names carry the ids: they come out in creation order, 1 to 5.
    let text = render_digraph(&root.build());
    assert!(text.contains("node_1 [label=\"a\"]"));
    assert!(text.contains("node_2 [label=\"b\"]"));
    assert!(text.contains("node_1 -> node_2 []"));
    assert!(text.contains("subgraph cluster_4 {"));
    assert!(text.contains("node_5 [label=\"c\"]"));
}

#[test]
fn default_scoping() {
    let mut root = Graph::new_builder();
    root.defaults_mut(Kind::Node).insert("fillcolor", "green");
    let a = root.new_node("a");
    assert_eq!(root.attributes(a).get("fillcolor").unwrap(), "green");

    let mut sub1 = root.new_cluster("c1");
    sub1.defaults_mut(Kind::Node).insert("fillcolor", "blue");
    let b = sub1.new_node("b");
    assert_eq!(sub1.attributes(b).get("fillcolor").unwrap(), "blue");

    let mut sub2 = sub1.new_cluster("c2");
    let c = sub2.new_node("c");
    assert_eq!(sub2.attributes(c).get("fillcolor").unwrap(), "blue");
    sub2.build();
    sub1.build();

    // The child's default never shows through the parent.
    assert_eq!(root.defaults(Kind::Node).unwrap().get("fillcolor").unwrap(), "green");
    let d = root.new_node("d");
    assert_eq!(root.attributes(d).get("fillcolor").unwrap(), "green");
    // A later change to the parent's defaults never retroacts on the
    // child's entities.
    root.defaults_mut(Kind::Node).insert("fillcolor", "red");
    assert_eq!(root.attributes(b).get("fillcolor").unwrap(), "blue");
    assert_eq!(root.attributes(c).get("fillcolor").unwrap(), "blue");
}

#[test]
fn edge_chaining() {
    let mut root = Graph::new_builder();
    let a = root.new_node("a");
    let b = root.new_node("b");
    let c = root.new_node("c");
    let d = root.new_node("d");
    let ab = root.new_edge(a, b);
    let cd = root.new_edge(c, d);
    root.new_edge(ab, cd);
    let text = render_digraph(&root.build());
    let expected = [
        "graph {",
        "    node_1 [label=\"a\"]",
        "    node_2 [label=\"b\"]",
        "    node_3 [label=\"c\"]",
        "    node_4 [label=\"d\"]",
        "    node_1 -> node_2 []",
        "    node_3 -> node_4 []",
        "    node_2 -> node_3 []",
        "}",
    ]
    .join("\n");
    assert_eq!(text, expected);
}

#[test]
fn compound_edge() {
    let mut root = Graph::new_builder();
    let mut cluster = root.new_cluster("box");
    cluster.new_node("x");
    let ce = cluster.build();
    let y = root.new_node("y");
    root.new_edge(ce, y);
    let text = render_digraph(&root.build());
    let expected = [
        "graph {",
        "    compound=\"true\"",
        "    node_3 [label=\"y\"]",
        "    node_2 -> node_3 [lhead=\"cluster_1\"]",
        "    subgraph cluster_1 {",
        "        label=\"box\"",
        "        node_2 [label=\"x\"]",
        "    }",
        "}",
    ]
    .join("\n");
    assert_eq!(text, expected);
}

#[test]
fn compound_edge_nested_representative() {
    let mut root = Graph::new_builder();
    let mut outer = root.new_cluster("o");
    let mut inner = outer.new_cluster("i");
    inner.new_node("x");
    inner.build();
    let oe = outer.build();
    let y = root.new_node("y");
    root.new_edge(oe, y);
    let text = render_digraph(&root.build());
    let expected = [
        "graph {",
        "    compound=\"true\"",
        "    node_4 [label=\"y\"]",
        "    node_3 -> node_4 [lhead=\"cluster_1\"]",
        "    subgraph cluster_1 {",
        "        label=\"o\"",
        "        subgraph cluster_2 {",
        "            label=\"i\"",
        "            node_3 [label=\"x\"]",
        "        }",
        "    }",
        "}",
    ]
    .join("\n");
    assert_eq!(text, expected);
}

#[test]
fn compound_edge_without_representative() {
    // A cluster holding no node anywhere stands for itself in the edge.
    let mut root = Graph::new_builder();
    let cluster = root.new_cluster("empty");
    let ce = cluster.build();
    let y = root.new_node("y");
    root.new_edge(ce, y);
    let text = render_digraph(&root.build());
    assert!(text.contains("cluster_1 -> node_2 [lhead=\"cluster_1\"]"));
}

#[test]
fn compound_edge_tail_side() {
    let mut root = Graph::new_builder();
    let y = root.new_node("y");
    let mut cluster = root.new_cluster("box");
    cluster.new_node("x");
    let ce = cluster.build();
    root.new_edge(y, ce);
    let text = render_digraph(&root.build());
    assert!(text.contains("compound=\"true\""));
    assert!(text.contains("node_1 -> node_3 [ltail=\"cluster_2\"]"));
}

#[test]
fn attribute_override() {
    let mut root = Graph::new_builder();
    root.defaults_mut(Kind::Node).insert("color", "blue");
    let mut extra = Attributes::new();
    extra.insert("color", "red");
    let a = root.new_node_with("a", extra);
    assert_eq!(root.attributes(a).get("color").unwrap(), "red");
    let b = root.new_node("b");
    assert_eq!(root.attributes(b).get("color").unwrap(), "blue");
}

#[test]
fn round_trip() {
    let mut root = Graph::new_builder();
    let a = root.new_node("a");
    let b = root.new_node("b");
    root.new_edge(a, b);
    let mut cluster = root.new_cluster("box");
    let c = cluster.new_node("c");
    cluster.new_edge(c, a);
    cluster.build();
    let graph = root.build();
    let expected = [
        "graph {",
        "    node_1 [label=\"a\"]",
        "    node_2 [label=\"b\"]",
        "    node_1 -> node_2 []",
        "    subgraph cluster_4 {",
        "        label=\"box\"",
        "        node_5 [label=\"c\"]",
        "        node_5 -> node_1 []",
        "    }",
        "}",
    ]
    .join("\n");
    assert_eq!(render_digraph(&graph), expected);
}

#[test]
fn render_idempotent() {
    let mut root = Graph::new_builder();
    let a = root.new_node("a");
    let b = root.new_node("b");
    root.new_edge(a, b);
    let graph = root.build();
    let first = render_digraph(&graph);
    let second = render_digraph(&graph);
    assert_eq!(first, second);
    assert_eq!(render_graph(&graph), render_graph(&graph));
}

#[test]
fn strict_variants_render_like_the_plain_ones() {
    let mut root = Graph::new_builder();
    let a = root.new_node("a");
    let b = root.new_node("b");
    root.new_edge(a, b);
    let graph = root.build();
    assert_eq!(render_strict_digraph(&graph), render_digraph(&graph));
    assert_eq!(render_strict_graph(&graph), render_graph(&graph));
}

#[test]
fn undirected_arrow() {
    let mut root = Graph::new_builder();
    let a = root.new_node("a");
    let b = root.new_node("b");
    root.new_edge(a, b);
    let text = render_graph(&root.build());
    assert!(text.contains("node_1 -- node_2 []"));
}

#[test]
fn empty_graph() {
    let root = Graph::new_builder();
    let graph = root.build();
    assert_eq!(render_digraph(&graph), "graph {\n}");
}

#[test]
fn attributes_insert_keeps_position() {
    let mut attrs = Attributes::new();
    attrs.insert("color", "blue");
    attrs.insert("shape", "oval");
    attrs.insert("color", "red");
    assert_eq!(attrs.len(), 2);
    assert_eq!(attrs.get("color").unwrap(), "red");
    assert_eq!(attrs.get("shape").unwrap(), "oval");
    assert!(attrs.get("missing").is_none());
}

#[test]
fn defaults_empty_until_touched() {
    let mut root = Graph::new_builder();
    assert!(root.defaults(Kind::Node).is_none());
    assert_eq!(root.defaults_mut(Kind::Edge).len(), 0);
    assert!(root.defaults(Kind::Edge).is_some());
    assert!(root.defaults(Kind::Cluster).is_none());
}

#[test]
fn with_variants_merge_attributes() {
    let mut root = Graph::new_builder();
    let mut sub_attrs = Attributes::new();
    sub_attrs.insert("rank", "same");
    let sub = root.new_subgraph_with(sub_attrs);
    let se = sub.build();
    assert_eq!(root.attributes(se).get("rank").unwrap(), "same");

    let mut cl_attrs = Attributes::new();
    cl_attrs.insert("label", "renamed");
    let cluster = root.new_cluster_with("first", cl_attrs);
    let ce = cluster.build();
    assert_eq!(root.attributes(ce).get("label").unwrap(), "renamed");

    let a = root.new_node("a");
    let b = root.new_node("b");
    let mut e_attrs = Attributes::new();
    e_attrs.insert("weight", "2");
    let e = root.new_edge_with(a, b, e_attrs);
    assert_eq!(root.attributes(e).get("weight").unwrap(), "2");
}

#[test]
fn edge_defaults_seed_edges() {
    let mut root = Graph::new_builder();
    root.defaults_mut(Kind::Edge).insert("color", "gray");
    let a = root.new_node("a");
    let b = root.new_node("b");
    let e = root.new_edge(a, b);
    assert_eq!(root.attributes(e).get("color").unwrap(), "gray");
    let text = render_digraph(&root.build());
    assert!(text.contains("node_1 -> node_2 [color=\"gray\"]"));
}

#[test]
fn attribute_name_constants() {
    assert_eq!(graphwiz::attributes::LABEL, "label");
    assert_eq!(graphwiz::attributes::COMPOUND, "compound");
    assert_eq!(graphwiz::attributes::LHEAD, "lhead");
    assert_eq!(graphwiz::attributes::LTAIL, "ltail");
    assert_eq!(graphwiz::attributes::FILLCOLOR, "fillcolor");
    let mut root = Graph::new_builder();
    root.defaults_mut(Kind::Node).insert(graphwiz::attributes::STYLE, "filled");
    let a = root.new_node("a");
    assert_eq!(root.attributes(a).get("style").unwrap(), "filled");
}
