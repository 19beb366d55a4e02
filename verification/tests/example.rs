use graphwiz::{Attributes, Builder, Graph, Kind, render_digraph};

#[test]
fn example() {
    let mut root = Graph::new_builder();
    let mut node_defaults = Attributes::new();
    node_defaults.insert("fillcolor", "lavender");
    node_defaults.insert("style", "filled");
    root.defaults_mut(Kind::Node).extend(node_defaults);

    let a = root.new_node("a");
    let b = root.new_node("b");
    let ab = root.new_edge(a, b);
    root.attributes_mut(ab).insert("style", "dotted");

    let mut cluster = root.new_cluster("box");
    let mut c_attrs = Attributes::new();
    c_attrs.insert("shape", "circle");
    c_attrs.insert("fillcolor", "cornflowerblue");
    let c = cluster.new_node_with("c", c_attrs);
    cluster.build();

    root.new_edge(c, a);
    root.new_edge(c, b);
    let graph = root.build();

    let expected = [
        "graph {",
        "    node_1 [fillcolor=\"lavender\", style=\"filled\", label=\"a\"]",
        "    node_2 [fillcolor=\"lavender\", style=\"filled\", label=\"b\"]",
        "    node_1 -> node_2 [style=\"dotted\"]",
        "    node_5 -> node_1 []",
        "    node_5 -> node_2 []",
        "    subgraph cluster_4 {",
        "        label=\"box\"",
        "        node_5 [fillcolor=\"cornflowerblue\", style=\"filled\", label=\"c\", shape=\"circle\"]",
        "    }",
        "}",
    ]
    .join("\n");
    assert_eq!(render_digraph(&graph), expected);
}
