//! The renderer: a pure, recursive traversal of a finished graph that
//! produces its DOT-like textual form, specified line by line over `Seq`.

use vstd::prelude::*;
use vstd::string::StringExecFns;

use crate::graph::{Kind, Entity, Attributes, Graph, SubgraphInfo};
use crate::model::{AttrsV, GraphV, SubV, is_group};

verus! {

/// The number of decimal digits of `n`.
pub open spec fn digits(n: nat) -> nat
    decreases n,
{
    if n < 10 {
        1
    } else {
        1 + digits(n / 10)
    }
}

/// The decimal digit `d` as a character.
pub open spec fn digit_char(d: nat) -> char {
    if d == 0 {
        '0'
    } else if d == 1 {
        '1'
    } else if d == 2 {
        '2'
    } else if d == 3 {
        '3'
    } else if d == 4 {
        '4'
    } else if d == 5 {
        '5'
    } else if d == 6 {
        '6'
    } else if d == 7 {
        '7'
    } else if d == 8 {
        '8'
    } else {
        '9'
    }
}

/// The decimal form of `n`.
pub open spec fn dec_str(n: nat) -> Seq<char>
    decreases n,
{
    if n < 10 {
        seq![digit_char(n)]
    } else {
        dec_str(n / 10).push(digit_char(n % 10))
    }
}

/// `n` zero characters.
pub open spec fn zeros(n: nat) -> Seq<char>
    decreases n,
{
    if n == 0 {
        Seq::empty()
    } else {
        zeros((n - 1) as nat).push('0')
    }
}

/// The decimal form of `n`, left-padded with zeros to width `w`.
pub open spec fn padded(n: nat, w: nat) -> Seq<char> {
    if digits(n) >= w {
        dec_str(n)
    } else {
        zeros((w - digits(n)) as nat) + dec_str(n)
    }
}

/// The name prefix of each kind of entity.
pub open spec fn kind_prefix(k: Kind) -> Seq<char> {
    match k {
        Kind::Node => "node"@,
        Kind::Edge => "edge"@,
        Kind::Cluster => "cluster"@,
        Kind::Subgraph => "subgraph"@,
    }
}

/// The textual name of an entity: its kind's prefix and its id, zero-padded
/// to the width of the highest id the graph ever issued.
pub open spec fn entity_name(g: GraphV, e: Entity) -> Seq<char> {
    kind_prefix(e.kind()) + "_"@ + padded(e.id() as nat, digits(g.latest() as nat))
}

/// One attribute as `key="value"` (values are not escaped).
pub open spec fn attr_text(k: Seq<char>, v: Seq<char>) -> Seq<char> {
    k + "=\""@ + v + "\""@
}

/// The attribute texts of a whole attribute list, in stored order.
pub open spec fn attr_texts(a: AttrsV) -> Seq<Seq<char>> {
    a.map_values(|p: (Seq<char>, Seq<char>)| attr_text(p.0, p.1))
}

/// The given texts joined by `sep`.
pub open spec fn join_texts(lines: Seq<Seq<char>>, sep: Seq<char>) -> Seq<char>
    decreases lines.len(),
{
    if lines.len() == 0 {
        Seq::empty()
    } else if lines.len() == 1 {
        lines[0]
    } else {
        lines[0] + sep + join_texts(lines.drop_first(), sep)
    }
}

/// Each line shifted right by one indentation level.
pub open spec fn indented(lines: Seq<Seq<char>>) -> Seq<Seq<char>> {
    lines.map_values(|l: Seq<char>| "    "@ + l)
}

/// The statement line of one node: its name and its attributes.
pub open spec fn node_line(g: GraphV, e: Entity) -> Seq<char> {
    entity_name(g, e) + " ["@ + join_texts(attr_texts(g.attrs[e.id()]), ", "@) + "]"@
}

/// The attribute texts of one edge: its own attributes, then `lhead` and
/// `ltail` entries when the edge has compound endpoints.
pub open spec fn edge_attr_texts(g: GraphV, e: Entity) -> Seq<Seq<char>> {
    match g.edges[e.id()] {
        Some(info) => {
            let base = attr_texts(g.attrs[e.id()]);
            let with_head = match info.head_subgraph {
                Some(s) => base.push(attr_text("lhead"@, entity_name(g, s))),
                None => base,
            };
            match info.tail_subgraph {
                Some(s) => with_head.push(attr_text("ltail"@, entity_name(g, s))),
                None => with_head,
            }
        },
        None => Seq::empty(),
    }
}

/// The statement line of one edge: its resolved endpoints' names around the
/// arrow token, and its attributes.
pub open spec fn edge_line(g: GraphV, arrow: Seq<char>, e: Entity) -> Seq<char> {
    match g.edges[e.id()] {
        Some(info) => entity_name(g, info.head_node) + " "@ + arrow + " "@ + entity_name(
            g,
            info.tail_node,
        ) + " ["@ + join_texts(edge_attr_texts(g, e), ", "@) + "]"@,
        None => Seq::empty(),
    }
}

/// The lines of one block: a header, the scope's own attributes, its nodes,
/// its edges, its child subgraphs rendered recursively, and a closing
/// brace, each inner part indented one level.
pub open spec fn group_lines(
    g: GraphV,
    arrow: Seq<char>,
    header: Seq<char>,
    s: SubV,
    a: AttrsV,
    lo: int,
) -> Seq<Seq<char>>
    decreases g.kinds.len() - lo, 2int, 0int,
        when g.wf() && 0 <= lo && g.sub_ok(lo, s)
{
    seq![header] + indented(attr_texts(a)) + indented(
        s.nodes.map_values(|n: Entity| node_line(g, n)),
    ) + indented(s.edges.map_values(|d: Entity| edge_line(g, arrow, d))) + indented(
        subgraph_list_lines(g, arrow, s.subgraphs, lo),
    ) + seq!["}"@]
}

/// The lines of one nested subgraph or cluster.
pub open spec fn subgraph_lines(g: GraphV, arrow: Seq<char>, e: Entity) -> Seq<Seq<char>>
    decreases g.kinds.len() - e.id(), 3int, 0int,
        when g.wf() && g.registered(e) && is_group(e.kind())
{
    match g.subs[e.id()] {
        Some(s) => group_lines(
            g,
            arrow,
            "subgraph "@ + entity_name(g, e) + " {"@,
            s,
            g.attrs[e.id()],
            e.id(),
        ),
        None => Seq::empty(),
    }
}

/// The concatenated lines of a list of subgraphs, in creation order.
pub open spec fn subgraph_list_lines(
    g: GraphV,
    arrow: Seq<char>,
    list: Seq<Entity>,
    lo: int,
) -> Seq<Seq<char>>
    decreases g.kinds.len() - lo, 0int, list.len(),
        when g.wf() && 0 <= lo
            && forall|j: int| 0 <= j < list.len() ==> g.member_ok(lo, #[trigger] list[j])
                && is_group(list[j].kind())
{
    if list.len() == 0 {
        Seq::empty()
    } else {
        subgraph_lines(g, arrow, list[0]) + subgraph_list_lines(g, arrow, list.drop_first(), lo)
    }
}

/// The whole document: the root block under the `<keyword> {` header,
/// joined with newlines.
pub open spec fn render_doc(g: GraphV, keyword: Seq<char>, arrow: Seq<char>) -> Seq<char> {
    match g.subs[0] {
        Some(s) => join_texts(
            group_lines(g, arrow, keyword + " {"@, s, g.attrs[0], 0),
            "\n"@,
        ),
        None => Seq::empty(),
    }
}

/// The views of a sequence of strings.
pub open spec fn lines_view(v: Seq<String>) -> Seq<Seq<char>> {
    v.map_values(|s: String| s@)
}

/// A decimal representation never has more digits than the number itself.
proof fn lemma_digits_bound(n: nat)
    ensures
        n >= 10 ==> digits(n) <= n,
        digits(n) <= n + 1,
    decreases n,
{
    if n >= 10 {
        lemma_digits_bound(n / 10);
    }
}

/// Every number has at least one digit, and dividing by ten removes one.
proof fn lemma_digits_pos(n: nat)
    ensures
        digits(n) >= 1,
        n >= 10 ==> digits(n) >= 2,
{
    if n >= 10 {
        assert(digits(n) == 1 + digits(n / 10));
        assert(digits(n / 10) >= 1);
    }
}

/// Joining after appending one more line.
proof fn lemma_join_snoc(lines: Seq<Seq<char>>, sep: Seq<char>, x: Seq<char>)
    ensures
        lines.len() == 0 ==> join_texts(lines.push(x), sep) == x,
        lines.len() > 0 ==> join_texts(lines.push(x), sep) == join_texts(lines, sep) + sep + x,
    decreases lines.len(),
{
    let l2 = lines.push(x);
    if lines.len() == 0 {
        assert(l2.len() == 1);
        assert(l2[0] == x);
    } else {
        lemma_join_snoc(lines.drop_first(), sep, x);
        assert(l2.drop_first() =~= lines.drop_first().push(x));
        if lines.len() == 1 {
            assert(join_texts(l2, sep) == l2[0] + sep + join_texts(l2.drop_first(), sep));
            assert(join_texts(l2.drop_first(), sep) == x);
        } else {
            assert(join_texts(l2, sep) == l2[0] + sep + join_texts(l2.drop_first(), sep));
            assert(join_texts(l2.drop_first(), sep) == join_texts(lines.drop_first(), sep) + sep
                + x);
            assert(join_texts(lines, sep) == lines[0] + sep + join_texts(lines.drop_first(), sep));
            assert(l2[0] + sep + (join_texts(lines.drop_first(), sep) + sep + x) =~= (lines[0]
                + sep + join_texts(lines.drop_first(), sep)) + sep + x);
        }
    }
}

/// One decimal digit as text.
fn digit_str(d: usize) -> (r: &'static str)
    requires
        d < 10,
    ensures
        r@ == seq![digit_char(d as nat)],
{
    proof {
        reveal_strlit("0");
        reveal_strlit("1");
        reveal_strlit("2");
        reveal_strlit("3");
        reveal_strlit("4");
        reveal_strlit("5");
        reveal_strlit("6");
        reveal_strlit("7");
        reveal_strlit("8");
        reveal_strlit("9");
        assert("0"@ =~= seq![digit_char(0)]);
        assert("1"@ =~= seq![digit_char(1)]);
        assert("2"@ =~= seq![digit_char(2)]);
        assert("3"@ =~= seq![digit_char(3)]);
        assert("4"@ =~= seq![digit_char(4)]);
        assert("5"@ =~= seq![digit_char(5)]);
        assert("6"@ =~= seq![digit_char(6)]);
        assert("7"@ =~= seq![digit_char(7)]);
        assert("8"@ =~= seq![digit_char(8)]);
        assert("9"@ =~= seq![digit_char(9)]);
    }
    match d {
        0 => "0",
        1 => "1",
        2 => "2",
        3 => "3",
        4 => "4",
        5 => "5",
        6 => "6",
        7 => "7",
        8 => "8",
        _ => "9",
    }
}

/// The decimal form of `n`.
fn dec_string(n: usize) -> (s: String)
    ensures
        s@ == dec_str(n as nat),
    decreases n,
{
    if n < 10 {
        digit_str(n).to_owned()
    } else {
        let mut s = dec_string(n / 10);
        s.append(digit_str(n % 10));
        proof {
            assert(s@ =~= dec_str(n as nat));
        }
        s
    }
}

/// The number of decimal digits of `n`.
fn width_of(n: usize) -> (w: usize)
    ensures
        w == digits(n as nat),
{
    let mut m = n;
    let mut w: usize = 1;
    #[verifier::loop_isolation(false)]
    while m >= 10
        invariant
            1 <= w,
            w - 1 + digits(m as nat) == digits(n as nat),
        decreases m,
    {
        proof {
            lemma_digits_bound(n as nat);
            lemma_digits_pos(m as nat);
            assert(w + 1 <= digits(n as nat));
        }
        m = m / 10;
        w = w + 1;
    }
    w
}

/// The decimal form of `n`, left-padded with zeros to `width`.
fn pad_number(n: usize, width: usize) -> (s: String)
    ensures
        s@ == padded(n as nat, width as nat),
{
    let d = width_of(n);
    let num = dec_string(n);
    if d >= width {
        num
    } else {
        let mut p = String::new();
        let mut i: usize = 0;
        proof {
            reveal_strlit("0");
            assert("0"@ =~= seq!['0']);
        }
        #[verifier::loop_isolation(false)]
        while i < width - d
            invariant
                0 <= i <= width - d,
                p@ == zeros(i as nat),
            decreases width - d - i,
        {
            p.append("0");
            proof {
                assert(p@ =~= zeros((i + 1) as nat));
            }
            i = i + 1;
        }
        p.append(num.as_str());
        p
    }
}

/// The textual name of an entity.
fn render_entity(graph: &Graph, entity: Entity) -> (r: String)
    requires
        graph.wf(),
        graph@.registered(entity),
    ensures
        r@ == entity_name(graph@, entity),
{
    let width = width_of(graph.latest);
    let mut s: String = match entity.kind {
        Kind::Node => "node".to_owned(),
        Kind::Edge => "edge".to_owned(),
        Kind::Cluster => "cluster".to_owned(),
        Kind::Subgraph => "subgraph".to_owned(),
    };
    s.append("_");
    s.append(pad_number(entity.id, width).as_str());
    s
}

/// One attribute as `key="value"`.
fn render_attribute(key: &str, value: &str) -> (r: String)
    ensures
        r@ == attr_text(key@, value@),
{
    let mut s = key.to_owned();
    s.append("=\"");
    s.append(value);
    s.append("\"");
    s
}

/// One line per attribute, in stored order.
fn render_attributes(attributes: &Attributes) -> (r: Vec<String>)
    ensures
        lines_view(r@) == attr_texts(attributes@),
{
    let mut out: Vec<String> = Vec::new();
    let mut i: usize = 0;
    #[verifier::loop_isolation(false)]
    while i < attributes.pairs.len()
        invariant
            0 <= i <= attributes.pairs@.len(),
            lines_view(out@) =~= attr_texts(attributes@.take(i as int)),
        decreases attributes.pairs@.len() - i,
    {
        let p = &attributes.pairs[i];
        proof {
            assert(attributes@[i as int] == (p.0@, p.1@));
        }
        let line = render_attribute(p.0.as_str(), p.1.as_str());
        proof {
            assert(line@ == attr_text(attributes@[i as int].0, attributes@[i as int].1));
        }
        out.push(line);
        proof {
            let pre = attr_texts(attributes@.take(i as int + 1));
            assert(lines_view(out@).len() == pre.len());
            assert forall|j: int| 0 <= j < pre.len() implies lines_view(out@)[j] == pre[j] by {
                assert(attributes@.take(i as int + 1)[j] == attributes@[j]);
                assert(pre[j] == attr_text(attributes@[j].0, attributes@[j].1));
                if j < i {
                    assert(lines_view(out@)[j] == attr_texts(attributes@.take(i as int))[j]);
                    assert(attributes@.take(i as int)[j] == attributes@[j]);
                } else {
                    assert(out@[j] == line);
                }
            }
            assert(lines_view(out@) =~= pre);
        }
        i = i + 1;
    }
    proof {
        assert(attributes@.take(attributes@.len() as int) =~= attributes@);
        assert(lines_view(out@) =~= attr_texts(attributes@));
    }
    out
}

/// The given lines joined by `sep`.
fn join_strings(lines: &Vec<String>, sep: &str) -> (r: String)
    ensures
        r@ == join_texts(lines_view(lines@), sep@),
{
    let mut s = String::new();
    let mut i: usize = 0;
    proof {
        assert(lines_view(lines@).take(0) =~= Seq::<Seq<char>>::empty());
    }
    #[verifier::loop_isolation(false)]
    while i < lines.len()
        invariant
            0 <= i <= lines@.len(),
            s@ == join_texts(lines_view(lines@).take(i as int), sep@),
        decreases lines@.len() - i,
    {
        if i > 0 {
            s.append(sep);
        }
        s.append(lines[i].as_str());
        proof {
            lemma_join_snoc(lines_view(lines@).take(i as int), sep@, lines@[i as int]@);
            assert(lines_view(lines@).take(i + 1) =~= lines_view(lines@).take(i as int).push(
                lines@[i as int]@,
            ));
        }
        i = i + 1;
    }
    proof {
        assert(lines_view(lines@).take(lines@.len() as int) =~= lines_view(lines@));
    }
    s
}

/// Each line shifted right by one indentation level.
fn indent(lines: Vec<String>) -> (r: Vec<String>)
    ensures
        lines_view(r@) == indented(lines_view(lines@)),
{
    let ghost orig = lines@;
    let mut lines = lines;
    let mut i: usize = 0;
    #[verifier::loop_isolation(false)]
    while i < lines.len()
        invariant
            0 <= i <= lines@.len(),
            lines@.len() == orig.len(),
            forall|j: int| 0 <= j < i ==> lines@[j]@ == "    "@ + orig[j]@,
            forall|j: int| i <= j < orig.len() ==> lines@[j] == orig[j],
        decreases lines@.len() - i,
    {
        let mut p = "    ".to_owned();
        p.append(lines[i].as_str());
        let slot = &mut lines[i];
        *slot = p;
        i = i + 1;
    }
    proof {
        assert(lines_view(lines@) =~= indented(lines_view(orig)));
    }
    lines
}

/// The view of a string sequence after a push.
proof fn lemma_view_push(v: Seq<String>, x: String)
    ensures
        lines_view(v.push(x)) == lines_view(v).push(x@),
{
    let a = lines_view(v.push(x));
    let b = lines_view(v).push(x@);
    assert(a.len() == b.len());
    assert forall|j: int| 0 <= j < a.len() implies a[j] == b[j] by {
        if j < v.len() {
            assert(v.push(x)[j] == v[j]);
        } else {
            assert(v.push(x)[j] == x);
        }
    }
    assert(a =~= b);
}

/// Mapping over one more element of a prefix.
proof fn lemma_map_take_snoc(entities: Seq<Entity>, i: int, f: spec_fn(Entity) -> Seq<char>)
    requires
        0 <= i < entities.len(),
    ensures
        entities.take(i + 1).map_values(f) == entities.take(i).map_values(f).push(f(entities[i])),
{
    let a = entities.take(i + 1).map_values(f);
    let b = entities.take(i).map_values(f).push(f(entities[i]));
    assert(a.len() == b.len());
    assert forall|j: int| 0 <= j < a.len() implies a[j] == b[j] by {
        assert(entities.take(i + 1)[j] == entities[j]);
        if j < i {
            assert(entities.take(i)[j] == entities[j]);
        }
    }
    assert(a =~= b);
}

/// The statement line of one node.
fn render_node(graph: &Graph, entity: Entity) -> (r: String)
    requires
        graph.wf(),
        graph@.registered(entity),
    ensures
        r@ == node_line(graph@, entity),
{
    let mut s = render_entity(graph, entity);
    s.append(" [");
    let attrs = render_attributes(graph.attributes(entity));
    s.append(join_strings(&attrs, ", ").as_str());
    s.append("]");
    s
}

/// The statement line of one edge.
fn render_edge(graph: &Graph, arrow: &str, entity: Entity) -> (r: String)
    requires
        graph.wf(),
        graph@.registered(entity),
        entity.kind() == Kind::Edge,
    ensures
        r@ == edge_line(graph@, arrow@, entity),
{
    proof {
        assert(graph@.edges[entity.id()] is Some);
    }
    match &graph.edges[entity.id] {
        Some(info) => {
            proof {
                assert(graph@.edges[entity.id()] == Some(info@));
                assert(graph@.edge_ok(info@));
            }
            let head = render_entity(graph, info.head_node);
            let tail = render_entity(graph, info.tail_node);
            let mut attrs = render_attributes(graph.attributes(entity));
            let ghost base = lines_view(attrs@);
            match &info.head_subgraph {
                Some(hs) => {
                    let name = render_entity(graph, *hs);
                    attrs.push(render_attribute("lhead", name.as_str()));
                },
                None => {},
            }
            let ghost with_head = lines_view(attrs@);
            match &info.tail_subgraph {
                Some(ts) => {
                    let name = render_entity(graph, *ts);
                    attrs.push(render_attribute("ltail", name.as_str()));
                },
                None => {},
            }
            proof {
                assert(lines_view(attrs@) =~= edge_attr_texts(graph@, entity));
            }
            let mut s = head;
            s.append(" ");
            s.append(arrow);
            s.append(" ");
            s.append(tail.as_str());
            s.append(" [");
            s.append(join_strings(&attrs, ", ").as_str());
            s.append("]");
            s
        },
        None => {
            proof {
                assert(false);
            }
            vstd::pervasive::unreached()
        },
    }
}

/// The lines of one block: header, own attributes, nodes, edges, nested
/// subgraphs, closing brace.
fn render_group(
    graph: &Graph,
    arrow: &str,
    header: String,
    subgraph: &SubgraphInfo,
    attributes: &Attributes,
    Ghost(lo): Ghost<int>,
) -> (r: Vec<String>)
    requires
        graph.wf(),
        0 <= lo,
        graph@.sub_ok(lo, subgraph@),
    ensures
        lines_view(r@) == group_lines(graph@, arrow@, header@, subgraph@, attributes@, lo),
    decreases graph.kinds@.len() - lo, 2int, 0int,
{
    let ghost spec_lines = group_lines(graph@, arrow@, header@, subgraph@, attributes@, lo);
    let mut out: Vec<String> = Vec::new();
    out.push(header);
    let mut attr_part = indent(render_attributes(attributes));
    out.append(&mut attr_part);

    let mut nodes: Vec<String> = Vec::new();
    let mut i: usize = 0;
    #[verifier::loop_isolation(false)]
    while i < subgraph.nodes.len()
        invariant
            0 <= i <= subgraph.nodes@.len(),
            lines_view(nodes@) =~= subgraph@.nodes.take(i as int).map_values(
                |n: Entity| node_line(graph@, n),
            ),
        decreases subgraph.nodes@.len() - i,
    {
        proof {
            assert(graph@.member_ok(lo, subgraph@.nodes[i as int]));
        }
        let line = render_node(graph, subgraph.nodes[i]);
        proof {
            lemma_view_push(nodes@, line);
            lemma_map_take_snoc(subgraph@.nodes, i as int, |n: Entity| node_line(graph@, n));
        }
        nodes.push(line);
        i = i + 1;
    }
    proof {
        assert(subgraph@.nodes.take(subgraph@.nodes.len() as int) =~= subgraph@.nodes);
    }
    let mut nodes = indent(nodes);
    out.append(&mut nodes);

    let mut edges: Vec<String> = Vec::new();
    let mut i: usize = 0;
    #[verifier::loop_isolation(false)]
    while i < subgraph.edges.len()
        invariant
            0 <= i <= subgraph.edges@.len(),
            lines_view(edges@) =~= subgraph@.edges.take(i as int).map_values(
                |d: Entity| edge_line(graph@, arrow@, d),
            ),
        decreases subgraph.edges@.len() - i,
    {
        proof {
            assert(graph@.member_ok(lo, subgraph@.edges[i as int]));
        }
        let line = render_edge(graph, arrow, subgraph.edges[i]);
        proof {
            lemma_view_push(edges@, line);
            lemma_map_take_snoc(subgraph@.edges, i as int, |d: Entity| edge_line(graph@, arrow@, d));
        }
        edges.push(line);
        i = i + 1;
    }
    proof {
        assert(subgraph@.edges.take(subgraph@.edges.len() as int) =~= subgraph@.edges);
    }
    let mut edges = indent(edges);
    out.append(&mut edges);

    let mut subs: Vec<String> = Vec::new();
    let mut i: usize = 0;
    #[verifier::loop_isolation(false)]
    while i < subgraph.subgraphs.len()
        invariant
            0 <= i <= subgraph.subgraphs@.len(),
            lines_view(subs@) =~= subgraph_list_lines(
                graph@,
                arrow@,
                subgraph@.subgraphs.take(i as int),
                lo,
            ),
        decreases subgraph.subgraphs@.len() - i,
    {
        proof {
            assert(graph@.member_ok(lo, subgraph@.subgraphs[i as int]));
            assert forall|j: int| 0 <= j < subgraph@.subgraphs.take(i as int + 1).len()
                implies graph@.member_ok(
                lo,
                #[trigger] subgraph@.subgraphs.take(i as int + 1)[j],
            ) && is_group(subgraph@.subgraphs.take(i as int + 1)[j].kind()) by {
                assert(subgraph@.subgraphs.take(i as int + 1)[j] == subgraph@.subgraphs[j]);
            }
        }
        let mut part = render_subgraph(graph, arrow, subgraph.subgraphs[i]);
        subs.append(&mut part);
        proof {
            lemma_subgraph_list_snoc(graph@, arrow@, subgraph@.subgraphs.take(i as int), lo,
                subgraph@.subgraphs[i as int]);
            assert(subgraph@.subgraphs.take(i as int).push(subgraph@.subgraphs[i as int])
                =~= subgraph@.subgraphs.take(i as int + 1));
            assert(lines_view(subs@) =~= subgraph_list_lines(
                graph@,
                arrow@,
                subgraph@.subgraphs.take(i as int + 1),
                lo,
            ));
        }
        i = i + 1;
    }
    proof {
        assert(subgraph@.subgraphs.take(subgraph@.subgraphs.len() as int) =~= subgraph@.subgraphs);
    }
    let mut subs = indent(subs);
    out.append(&mut subs);
    out.push("}".to_owned());
    proof {
        assert(lines_view(out@) =~= spec_lines);
    }
    out
}

/// The lines of one nested subgraph or cluster.
fn render_subgraph(graph: &Graph, arrow: &str, entity: Entity) -> (r: Vec<String>)
    requires
        graph.wf(),
        graph@.registered(entity),
        is_group(entity.kind()),
    ensures
        lines_view(r@) == subgraph_lines(graph@, arrow@, entity),
    decreases graph.kinds@.len() - entity.id(), 3int, 0int,
{
    let mut header = "subgraph ".to_owned();
    header.append(render_entity(graph, entity).as_str());
    header.append(" {");
    proof {
        assert(graph@.subs[entity.id()] is Some);
    }
    match &graph.subgraphs[entity.id] {
        Some(info) => {
            proof {
                assert(graph@.subs[entity.id()] == Some(info@));
                assert(graph@.sub_ok(entity.id(), info@));
            }
            render_group(
                graph,
                arrow,
                header,
                info,
                graph.attributes(entity),
                Ghost(entity.id()),
            )
        },
        None => {
            proof {
                assert(false);
            }
            vstd::pervasive::unreached()
        },
    }
}

/// Appending one subgraph's lines to a rendered list.
proof fn lemma_subgraph_list_snoc(
    g: GraphV,
    arrow: Seq<char>,
    list: Seq<Entity>,
    lo: int,
    x: Entity,
)
    requires
        g.wf(),
        0 <= lo,
        forall|j: int| 0 <= j < list.len() ==> g.member_ok(lo, #[trigger] list[j]) && is_group(
            list[j].kind(),
        ),
        g.member_ok(lo, x),
        is_group(x.kind()),
    ensures
        subgraph_list_lines(g, arrow, list.push(x), lo) == subgraph_list_lines(g, arrow, list, lo)
            + subgraph_lines(g, arrow, x),
    decreases list.len(),
{
    let l2 = list.push(x);
    assert forall|j: int| 0 <= j < l2.len() implies g.member_ok(lo, #[trigger] l2[j]) && is_group(
        l2[j].kind(),
    ) by {
        if j < list.len() {
            assert(l2[j] == list[j]);
        } else {
            assert(l2[j] == x);
        }
    }
    if list.len() == 0 {
        assert(l2.len() == 1);
        assert(l2[0] == x);
        assert(l2.drop_first() =~= Seq::<Entity>::empty());
        assert(subgraph_list_lines(g, arrow, l2.drop_first(), lo) =~= Seq::<Seq<char>>::empty());
        assert(subgraph_list_lines(g, arrow, list, lo) =~= Seq::<Seq<char>>::empty());
        assert(subgraph_list_lines(g, arrow, l2, lo) == subgraph_lines(g, arrow, x)
            + subgraph_list_lines(g, arrow, l2.drop_first(), lo));
        assert(subgraph_lines(g, arrow, x) + Seq::<Seq<char>>::empty() =~= subgraph_lines(
            g,
            arrow,
            x,
        ));
        assert(Seq::<Seq<char>>::empty() + subgraph_lines(g, arrow, x) =~= subgraph_lines(
            g,
            arrow,
            x,
        ));
    } else {
        assert(l2.drop_first() =~= list.drop_first().push(x));
        assert forall|j: int| 0 <= j < list.drop_first().len() implies g.member_ok(
            lo,
            #[trigger] list.drop_first()[j],
        ) && is_group(list.drop_first()[j].kind()) by {
            assert(list.drop_first()[j] == list[j + 1]);
        }
        lemma_subgraph_list_snoc(g, arrow, list.drop_first(), lo, x);
        assert(l2[0] == list[0]);
        assert(subgraph_list_lines(g, arrow, l2, lo) == subgraph_lines(g, arrow, list[0])
            + subgraph_list_lines(g, arrow, list.drop_first().push(x), lo));
        assert(subgraph_lines(g, arrow, list[0]) + (subgraph_list_lines(
            g,
            arrow,
            list.drop_first(),
            lo,
        ) + subgraph_lines(g, arrow, x)) =~= (subgraph_lines(g, arrow, list[0])
            + subgraph_list_lines(g, arrow, list.drop_first(), lo)) + subgraph_lines(g, arrow, x));
    }
}

/// The whole document under the given keyword and arrow token.
fn render_root(graph: &Graph, kind: &str, arrow: &str) -> (r: String)
    requires
        graph.wf(),
    ensures
        r@ == render_doc(graph@, kind@, arrow@),
{
    let mut header = kind.to_owned();
    header.append(" {");
    proof {
        assert(graph@.subs[0] is Some);
    }
    match &graph.subgraphs[0] {
        Some(info) => {
            proof {
                assert(graph@.subs[0] == Some(info@));
                assert(graph@.sub_ok(0, info@));
            }
            let root = Entity { kind: Kind::Subgraph, id: 0 };
            let lines = render_group(
                graph,
                arrow,
                header,
                info,
                graph.attributes(root),
                Ghost(0int),
            );
            join_strings(&lines, "\n")
        },
        None => {
            proof {
                assert(false);
            }
            vstd::pervasive::unreached()
        },
    }
}

/// Renders the graph as an undirected graph.
pub fn render_graph(graph: &Graph) -> (r: String)
    requires
        graph.wf(),
    ensures
        r@ == render_doc(graph@, "graph"@, "--"@),
{
    render_root(graph, "graph", "--")
}

/// Renders the graph as a directed graph.
pub fn render_digraph(graph: &Graph) -> (r: String)
    requires
        graph.wf(),
    ensures
        r@ == render_doc(graph@, "graph"@, "->"@),
{
    render_root(graph, "graph", "->")
}

/// Renders the graph as a strict undirected graph.
///
/// The output is currently identical to `render_graph`: no `strict` keyword
/// is emitted. The entrypoint is kept separate so callers can already
/// select the strict form.
pub fn render_strict_graph(graph: &Graph) -> (r: String)
    requires
        graph.wf(),
    ensures
        r@ == render_doc(graph@, "graph"@, "--"@),
{
    render_root(graph, "graph", "--")
}

/// Renders the graph as a strict directed graph.
///
/// The output is currently identical to `render_digraph`: no `strict`
/// keyword is emitted. The entrypoint is kept separate so callers can
/// already select the strict form.
pub fn render_strict_digraph(graph: &Graph) -> (r: String)
    requires
        graph.wf(),
    ensures
        r@ == render_doc(graph@, "graph"@, "->"@),
{
    render_root(graph, "graph", "->")
}

} // verus!
