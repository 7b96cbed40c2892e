use open_hypergraphs_dot::document::{Attr, Document, Endpoint, Stmt};
use open_hypergraphs_dot::hypergraph::Hypergraph;
use open_hypergraphs_dot::{
    dark_theme, generate_dot, generate_dot_with, light_theme, Options, Orientation,
};

fn strings(labels: &[&str]) -> Vec<String> {
    labels.iter().map(|l| l.to_string()).collect()
}

fn empty_graph() -> Hypergraph {
    Hypergraph {
        node_labels: Vec::new(),
        edge_labels: Vec::new(),
        edge_sources: Vec::new(),
        edge_targets: Vec::new(),
        sources: Vec::new(),
        targets: Vec::new(),
        quotient_left: Vec::new(),
        quotient_right: Vec::new(),
    }
}

fn attr(key: &str, value: &str) -> Attr {
    Attr { key: key.to_string(), value: value.to_string() }
}

fn plain_end(vertex: &str) -> Endpoint {
    Endpoint { vertex: vertex.to_string(), port: None }
}

fn port_end(vertex: &str, port: &str) -> Endpoint {
    Endpoint { vertex: vertex.to_string(), port: Some(port.to_string()) }
}

fn vertex_stmt<'a>(doc: &'a Document, index: usize) -> (&'a String, &'a Vec<Attr>) {
    match &doc.stmts[index] {
        Stmt::Vertex { name, attrs } => (name, attrs),
        other => panic!("expected a vertex statement, found {:?}", other),
    }
}

#[test]
fn rendering_is_deterministic() {
    let g = Hypergraph {
        node_labels: strings(&["A", "B", "B"]),
        edge_labels: strings(&["Copy"]),
        edge_sources: vec![vec![0]],
        edge_targets: vec![vec![1, 2]],
        sources: vec![0],
        targets: vec![1, 2],
        quotient_left: vec![1],
        quotient_right: vec![2],
    };
    let opts = Options { orientation: Orientation::LR, theme: light_theme() };
    let first = generate_dot_with(&g, &opts);
    let second = generate_dot_with(&g, &opts);
    assert_eq!(first, second);
}

#[test]
fn preamble_sets_orientation_background_and_defaults() {
    let g = empty_graph();
    let opts = Options { orientation: Orientation::LR, theme: light_theme() };
    let doc = generate_dot_with(&g, &opts);
    assert_eq!(doc.stmts.len(), 4);
    assert_eq!(doc.stmts[0], Stmt::GraphAttr(attr("rankdir", "LR")));
    assert_eq!(doc.stmts[1], Stmt::GraphAttr(attr("bgcolor", "\"white\"")));
    let (name, attrs) = vertex_stmt(&doc, 2);
    assert_eq!(name, "node");
    assert_eq!(
        attrs,
        &vec![
            attr("shape", "record"),
            attr("style", "rounded"),
            attr("fontcolor", "\"black\""),
            attr("color", "\"black\""),
        ]
    );
    let (name, attrs) = vertex_stmt(&doc, 3);
    assert_eq!(name, "edge");
    assert_eq!(
        attrs,
        &vec![
            attr("fontcolor", "\"black\""),
            attr("color", "\"black\""),
            attr("arrowhead", "none"),
        ]
    );
}

#[test]
fn default_options_use_dark_theme_top_to_bottom() {
    let g = empty_graph();
    let doc = generate_dot(&g);
    assert_eq!(doc.stmts[0], Stmt::GraphAttr(attr("rankdir", "TB")));
    assert_eq!(doc.stmts[1], Stmt::GraphAttr(attr("bgcolor", "\"#4a4a4a\"")));
    let theme = dark_theme();
    assert_eq!(theme.bgcolor, "#4a4a4a");
    assert_eq!(theme.fontcolor, "white");
    assert_eq!(theme.color, "white");
    assert_eq!(theme.quotient_style, "dotted");
    let light = light_theme();
    assert_eq!(light.bgcolor, "white");
    assert_eq!(light.fontcolor, "black");
    assert_eq!(light.color, "black");
    let opts = Options::default();
    assert_eq!(opts.orientation, Orientation::TB);
    assert_eq!(opts.theme, dark_theme());
}

#[test]
fn node_vertices_are_points_with_escaped_external_labels() {
    let mut g = empty_graph();
    g.node_labels = strings(&["plain", "a|b"]);
    let doc = generate_dot(&g);
    assert_eq!(doc.stmts.len(), 6);
    let (name, attrs) = vertex_stmt(&doc, 4);
    assert_eq!(name, "n_0");
    assert_eq!(attrs, &vec![attr("shape", "point"), attr("xlabel", "\"plain\"")]);
    let (name, attrs) = vertex_stmt(&doc, 5);
    assert_eq!(name, "n_1");
    assert_eq!(attrs, &vec![attr("shape", "point"), attr("xlabel", "\"a\\|b\"")]);
}

#[test]
fn record_with_no_sources_omits_left_cell() {
    let mut g = empty_graph();
    g.node_labels = strings(&["B", "B"]);
    g.edge_labels = strings(&["F"]);
    g.edge_sources = vec![vec![]];
    g.edge_targets = vec![vec![0, 1]];
    let doc = generate_dot(&g);
    let (name, attrs) = vertex_stmt(&doc, 6);
    assert_eq!(name, "e_0");
    assert_eq!(
        attrs,
        &vec![attr("label", "\"{ F | { <t_0> | <t_1> } }\""), attr("shape", "record")]
    );
}

#[test]
fn record_with_no_targets_omits_right_cell() {
    let mut g = empty_graph();
    g.node_labels = strings(&["B"]);
    g.edge_labels = strings(&["H"]);
    g.edge_sources = vec![vec![0]];
    g.edge_targets = vec![vec![]];
    let doc = generate_dot(&g);
    let (_, attrs) = vertex_stmt(&doc, 5);
    assert_eq!(
        attrs,
        &vec![attr("label", "\"{ { <s_0> } | H }\""), attr("shape", "record")]
    );
}

#[test]
fn record_with_no_ports_degenerates_to_bare_label() {
    let mut g = empty_graph();
    g.edge_labels = strings(&["G"]);
    g.edge_sources = vec![vec![]];
    g.edge_targets = vec![vec![]];
    let doc = generate_dot(&g);
    let (name, attrs) = vertex_stmt(&doc, 4);
    assert_eq!(name, "e_0");
    assert_eq!(attrs, &vec![attr("label", "\"G\""), attr("shape", "record")]);
}

#[test]
fn record_label_escapes_operation_text() {
    let mut g = empty_graph();
    g.edge_labels = strings(&["{odd}"]);
    g.edge_sources = vec![vec![]];
    g.edge_targets = vec![vec![]];
    let doc = generate_dot(&g);
    let (_, attrs) = vertex_stmt(&doc, 4);
    assert_eq!(attrs[0], attr("label", "\"\\{odd\\}\""));
}

#[test]
fn quotient_pairs_deduplicate_across_orientation() {
    let mut g = empty_graph();
    g.node_labels = strings(&["x", "x", "x", "x"]);
    g.quotient_left = vec![0, 1, 2];
    g.quotient_right = vec![1, 0, 3];
    let doc = generate_dot(&g);
    assert_eq!(doc.stmts.len(), 10);
    let quotient_attrs = vec![
        attr("style", "dotted"),
        attr("dir", "none"),
        attr("constraint", "false"),
    ];
    assert_eq!(
        doc.stmts[8],
        Stmt::Edge {
            from: plain_end("n_0"),
            to: plain_end("n_1"),
            attrs: quotient_attrs.clone(),
        }
    );
    assert_eq!(
        doc.stmts[9],
        Stmt::Edge {
            from: plain_end("n_2"),
            to: plain_end("n_3"),
            attrs: quotient_attrs,
        }
    );
}

#[test]
fn interface_ports_follow_interface_order_not_index_order() {
    let mut g = empty_graph();
    g.node_labels = strings(&["a", "b", "c", "d"]);
    g.sources = vec![3, 1];
    let doc = generate_dot(&g);
    assert_eq!(doc.stmts.len(), 11);
    let (name, attrs) = vertex_stmt(&doc, 8);
    assert_eq!(name, "sources");
    assert_eq!(
        attrs,
        &vec![
            attr("label", "\"{ {} | { <p_0> | <p_1> } }\""),
            attr("shape", "record"),
            attr("style", "invisible"),
            attr("rank", "source"),
        ]
    );
    let dashed = vec![attr("style", "dashed")];
    assert_eq!(
        doc.stmts[9],
        Stmt::Edge {
            from: port_end("sources", "p_0"),
            to: plain_end("n_3"),
            attrs: dashed.clone(),
        }
    );
    assert_eq!(
        doc.stmts[10],
        Stmt::Edge { from: port_end("sources", "p_1"), to: plain_end("n_1"), attrs: dashed }
    );
}

#[test]
fn target_interface_ranks_to_sink() {
    let mut g = empty_graph();
    g.node_labels = strings(&["a", "b"]);
    g.targets = vec![0, 1];
    let doc = generate_dot(&g);
    assert_eq!(doc.stmts.len(), 9);
    let (name, attrs) = vertex_stmt(&doc, 6);
    assert_eq!(name, "targets");
    assert_eq!(
        attrs,
        &vec![
            attr("label", "\"{ { <p_0> | <p_1> } | {} }\""),
            attr("shape", "record"),
            attr("style", "invisible"),
            attr("rank", "sink"),
        ]
    );
    let dashed = vec![attr("style", "dashed")];
    assert_eq!(
        doc.stmts[7],
        Stmt::Edge {
            from: plain_end("n_0"),
            to: port_end("targets", "p_0"),
            attrs: dashed.clone(),
        }
    );
    assert_eq!(
        doc.stmts[8],
        Stmt::Edge { from: plain_end("n_1"), to: port_end("targets", "p_1"), attrs: dashed }
    );
}

#[test]
fn copy_operation_renders_end_to_end() {
    let g = Hypergraph {
        node_labels: strings(&["A", "B", "B"]),
        edge_labels: strings(&["Copy"]),
        edge_sources: vec![vec![0]],
        edge_targets: vec![vec![1, 2]],
        sources: Vec::new(),
        targets: Vec::new(),
        quotient_left: Vec::new(),
        quotient_right: Vec::new(),
    };
    let doc = generate_dot(&g);
    assert_eq!(doc.stmts.len(), 11);
    assert_eq!(vertex_stmt(&doc, 4).0, "n_0");
    assert_eq!(vertex_stmt(&doc, 5).0, "n_1");
    assert_eq!(vertex_stmt(&doc, 6).0, "n_2");
    let (name, attrs) = vertex_stmt(&doc, 7);
    assert_eq!(name, "e_0");
    assert_eq!(
        attrs,
        &vec![
            attr("label", "\"{ { <s_0> } | Copy | { <t_0> | <t_1> } }\""),
            attr("shape", "record"),
        ]
    );
    assert_eq!(
        doc.stmts[8],
        Stmt::Edge { from: plain_end("n_0"), to: port_end("e_0", "s_0"), attrs: Vec::new() }
    );
    assert_eq!(
        doc.stmts[9],
        Stmt::Edge { from: port_end("e_0", "t_0"), to: plain_end("n_1"), attrs: Vec::new() }
    );
    assert_eq!(
        doc.stmts[10],
        Stmt::Edge { from: port_end("e_0", "t_1"), to: plain_end("n_2"), attrs: Vec::new() }
    );
}

#[test]
fn unified_outputs_add_exactly_two_quotient_connections() {
    // A Copy operation feeding a Mul operation, their middle wires unified
    // pairwise, as a circuit builder would produce it.
    let g = Hypergraph {
        node_labels: strings(&["A", "B", "B", "B", "B", "A"]),
        edge_labels: strings(&["Copy", "Mul"]),
        edge_sources: vec![vec![0], vec![3, 4]],
        edge_targets: vec![vec![1, 2], vec![5]],
        sources: Vec::new(),
        targets: Vec::new(),
        quotient_left: vec![1, 2],
        quotient_right: vec![3, 4],
    };
    let doc = generate_dot(&g);
    // 4 preamble + 6 nodes + 2 records + 6 wires + 2 quotient connections.
    assert_eq!(doc.stmts.len(), 20);
    for i in 12..18 {
        match &doc.stmts[i] {
            Stmt::Edge { attrs, .. } => assert_eq!(attrs.len(), 0),
            other => panic!("expected wiring at {}, found {:?}", i, other),
        }
    }
    let quotient_attrs = vec![
        attr("style", "dotted"),
        attr("dir", "none"),
        attr("constraint", "false"),
    ];
    assert_eq!(
        doc.stmts[18],
        Stmt::Edge {
            from: plain_end("n_1"),
            to: plain_end("n_3"),
            attrs: quotient_attrs.clone(),
        }
    );
    assert_eq!(
        doc.stmts[19],
        Stmt::Edge {
            from: plain_end("n_2"),
            to: plain_end("n_4"),
            attrs: quotient_attrs,
        }
    );
}

#[test]
fn repeated_slots_emit_one_wire_per_slot() {
    let g = Hypergraph {
        node_labels: strings(&["A"]),
        edge_labels: strings(&["Dup"]),
        edge_sources: vec![vec![0, 0]],
        edge_targets: vec![vec![]],
        sources: Vec::new(),
        targets: Vec::new(),
        quotient_left: Vec::new(),
        quotient_right: Vec::new(),
    };
    let doc = generate_dot(&g);
    assert_eq!(doc.stmts.len(), 8);
    assert_eq!(
        doc.stmts[6],
        Stmt::Edge { from: plain_end("n_0"), to: port_end("e_0", "s_0"), attrs: Vec::new() }
    );
    assert_eq!(
        doc.stmts[7],
        Stmt::Edge { from: plain_end("n_0"), to: port_end("e_0", "s_1"), attrs: Vec::new() }
    );
}
