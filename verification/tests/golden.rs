use graphwiz::{Attributes, Builder, Graph, Kind, render_digraph};

// A small labeled tree, built by calls, used to drive the builders the way
// a caller with a recursive data structure would.
struct Tree {
    data: u32,
    children: Vec<Tree>,
}

fn tr(data: u32) -> Tree {
    Tree { data, children: Vec::new() }
}

fn with(mut t: Tree, child: Tree) -> Tree {
    t.children.push(child);
    t
}

fn visit_node<B: Builder>(builder: &mut B, tree_node: &Tree) -> graphwiz::Entity {
    let entity = builder.new_node(&tree_node.data.to_string());
    for child in tree_node.children.iter() {
        let child_node = visit_node(builder, child);
        builder.new_edge(entity, child_node);
    }
    entity
}

#[test]
fn forest_simple() {
    let forest = vec![
        with(
            with(tr(0), with(with(tr(1), tr(2)), tr(3))),
            with(with(tr(4), tr(5)), tr(6)),
        ),
        with(with(tr(10), tr(20)), tr(30)),
        with(tr(10), with(tr(20), tr(30))),
    ];

    let mut builder = Graph::new_builder();
    for node in forest.iter() {
        let mut sub = builder.new_subgraph();
        visit_node(&mut sub, node);
        sub.build();
    }
    let text = render_digraph(&builder.build());

    let expected = [
        "graph {",
        "    subgraph subgraph_01 {",
        "        node_02 [label=\"0\"]",
        "        node_03 [label=\"1\"]",
        "        node_04 [label=\"2\"]",
        "        node_06 [label=\"3\"]",
        "        node_09 [label=\"4\"]",
        "        node_10 [label=\"5\"]",
        "        node_12 [label=\"6\"]",
        "        node_03 -> node_04 []",
        "        node_03 -> node_06 []",
        "        node_02 -> node_03 []",
        "        node_09 -> node_10 []",
        "        node_09 -> node_12 []",
        "        node_02 -> node_09 []",
        "    }",
        "    subgraph subgraph_15 {",
        "        node_16 [label=\"10\"]",
        "        node_17 [label=\"20\"]",
        "        node_19 [label=\"30\"]",
        "        node_16 -> node_17 []",
        "        node_16 -> node_19 []",
        "    }",
        "    subgraph subgraph_21 {",
        "        node_22 [label=\"10\"]",
        "        node_23 [label=\"20\"]",
        "        node_24 [label=\"30\"]",
        "        node_23 -> node_24 []",
        "        node_22 -> node_23 []",
        "    }",
        "}",
    ]
    .join("\n");
    assert_eq!(text, expected);
}

#[test]
fn original_hs() {
    let mut builder = Graph::new_builder();
    builder.defaults_mut(Kind::Node).insert("style", "filled");

    let mut front = builder.new_cluster("front end");
    let mut code_attrs = Attributes::new();
    code_attrs.insert("fillcolor", "#c3ffd8");
    let code = front.new_node_with("source code", code_attrs);
    let mut ast_attrs = Attributes::new();
    ast_attrs.insert("fillcolor", "yellow");
    let ast = front.new_node_with("AST", ast_attrs);
    let mut parse_attrs = Attributes::new();
    parse_attrs.insert("label", "parsing");
    front.new_edge_with(code, ast, parse_attrs);
    front.build();

    let mut middle = builder.new_cluster("middle end");
    let mut ir_attrs = Attributes::new();
    ir_attrs.insert("fillcolor", "salmon");
    ir_attrs.insert("shape", "diamond");
    let ir = middle.new_node_with("IR", ir_attrs);
    let mut lower_attrs = Attributes::new();
    lower_attrs.insert("label", "lowering");
    lower_attrs.insert("style", "dotted");
    middle.new_edge_with(ast, ir, lower_attrs);
    middle.build();

    let text = render_digraph(&builder.build());

    let expected = [
        "graph {",
        "    subgraph cluster_1 {",
        "        label=\"front end\"",
        "        node_2 [style=\"filled\", label=\"source code\", fillcolor=\"#c3ffd8\"]",
        "        node_3 [style=\"filled\", label=\"AST\", fillcolor=\"yellow\"]",
        "        node_2 -> node_3 [label=\"parsing\"]",
        "    }",
        "    subgraph cluster_5 {",
        "        label=\"middle end\"",
        "        node_6 [style=\"filled\", label=\"IR\", fillcolor=\"salmon\", shape=\"diamond\"]",
        "        node_3 -> node_6 [label=\"lowering\", style=\"dotted\"]",
        "    }",
        "}",
    ]
    .join("\n");
    assert_eq!(text, expected);
}
