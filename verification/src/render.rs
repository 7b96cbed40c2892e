//! The translation core: five pure passes that turn a hypergraph snapshot and
//! a configuration into one DOT document. The passes run in a fixed order —
//! preamble, node vertices, hyperedge records, wiring, interface and quotient
//! — and compose only by appending to one statement list. Each pass is
//! specified exactly: the produced document equals [`spec_render`] of the
//! inputs' values, so rendering the same snapshot and configuration twice
//! yields identical documents.

use crate::document::{
    attr_views, lemma_stmt_views_concat, lemma_stmt_views_push, stmt_views, Attr, AttrV, Document,
    Endpoint, EndpointV, Stmt, StmtV,
};
use crate::escape::{escape_dot_label, escape_seq};
use crate::hypergraph::{Hypergraph, HypergraphV};
use crate::names::{
    edge_name, edge_name_str, indexed_name, indexed_name_str, node_name, node_name_str, push_char,
};
use crate::options::{default_options_v, Options, OptionsV};
use vstd::prelude::*;
use vstd::string::StringExecFns;

verus! {

/// An attribute value, as a pair of key and value text.
pub open spec fn attr_v(k: Seq<char>, v: Seq<char>) -> AttrV {
    AttrV { key: k, value: v }
}

/// Text wrapped in double quotes, as DOT wants string-valued attributes.
pub open spec fn quote(s: Seq<char>) -> Seq<char> {
    seq!['"'] + s + seq!['"']
}

/// An attribute whose key and value are both fixed text.
fn attr_lit(k: &str, v: &str) -> (a: Attr)
    ensures
        a@ == attr_v(k@, v@),
{
    Attr { key: String::from_str(k), value: String::from_str(v) }
}

/// An attribute with a fixed key and a computed value.
fn attr_string(k: &str, v: String) -> (a: Attr)
    ensures
        a@ == attr_v(k@, v@),
{
    Attr { key: String::from_str(k), value: v }
}

/// Wraps text in double quotes.
fn quoted(s: &str) -> (r: String)
    ensures
        r@ == quote(s@),
{
    let mut r = String::new();
    push_char(&mut r, '"');
    r.append(s);
    push_char(&mut r, '"');
    proof {
        assert(r@ =~= quote(s@));
    }
    r
}

/// The preamble: layout direction, background color, and the default
/// attributes of every following vertex and connection. Vertices default to
/// rounded records in the theme's colors; connections default to the theme's
/// colors with the arrowhead suppressed, since the diagram shows dataflow.
pub open spec fn preamble(o: OptionsV) -> Seq<StmtV> {
    seq![
        StmtV::GraphAttr(attr_v("rankdir"@, o.orientation.text())),
        StmtV::GraphAttr(attr_v("bgcolor"@, quote(o.theme.bgcolor))),
        StmtV::Vertex {
            name: "node"@,
            attrs: seq![
                attr_v("shape"@, "record"@),
                attr_v("style"@, "rounded"@),
                attr_v("fontcolor"@, quote(o.theme.fontcolor)),
                attr_v("color"@, quote(o.theme.color)),
            ],
        },
        StmtV::Vertex {
            name: "edge"@,
            attrs: seq![
                attr_v("fontcolor"@, quote(o.theme.fontcolor)),
                attr_v("color"@, quote(o.theme.color)),
                attr_v("arrowhead"@, "none"@),
            ],
        },
    ]
}

/// Emits the preamble statements.
fn generate_preamble(opts: &Options) -> (v: Vec<Stmt>)
    ensures
        stmt_views(v@) == preamble(opts@),
{
    let mut v: Vec<Stmt> = Vec::new();

    let s1 = Stmt::GraphAttr(attr_string("rankdir", opts.orientation.rankdir_value()));
    let s2 = Stmt::GraphAttr(attr_string("bgcolor", quoted(opts.theme.bgcolor.as_str())));

    let mut node_attrs: Vec<Attr> = Vec::new();
    node_attrs.push(attr_lit("shape", "record"));
    node_attrs.push(attr_lit("style", "rounded"));
    node_attrs.push(attr_string("fontcolor", quoted(opts.theme.fontcolor.as_str())));
    node_attrs.push(attr_string("color", quoted(opts.theme.color.as_str())));
    let s3 = Stmt::Vertex { name: String::from_str("node"), attrs: node_attrs };

    let mut edge_attrs: Vec<Attr> = Vec::new();
    edge_attrs.push(attr_string("fontcolor", quoted(opts.theme.fontcolor.as_str())));
    edge_attrs.push(attr_string("color", quoted(opts.theme.color.as_str())));
    edge_attrs.push(attr_lit("arrowhead", "none"));
    let s4 = Stmt::Vertex { name: String::from_str("edge"), attrs: edge_attrs };

    proof {
        assert(s3@ == preamble(opts@)[2]) by {
            assert(attr_views(s3->Vertex_attrs@) =~= preamble(opts@)[2]->Vertex_attrs);
        }
        assert(s4@ == preamble(opts@)[3]) by {
            assert(attr_views(s4->Vertex_attrs@) =~= preamble(opts@)[3]->Vertex_attrs);
        }
    }
    v.push(s1);
    v.push(s2);
    v.push(s3);
    v.push(s4);
    proof {
        assert(stmt_views(v@) =~= preamble(opts@));
    }
    v
}

/// The vertex drawn for one node: a zero-size point whose escaped label
/// hangs beside it as an external caption.
pub open spec fn node_stmt(label: Seq<char>, i: nat) -> StmtV {
    StmtV::Vertex {
        name: node_name(i),
        attrs: seq![attr_v("shape"@, "point"@), attr_v("xlabel"@, quote(escape_seq(label)))],
    }
}

/// The node vertices for the first `n` nodes, in index order.
pub open spec fn node_stmts_up_to(g: HypergraphV, n: nat) -> Seq<StmtV>
    decreases n,
{
    if n == 0 {
        Seq::empty()
    } else {
        node_stmts_up_to(g, (n - 1) as nat).push(node_stmt(g.node_labels[n - 1], (n - 1) as nat))
    }
}

/// The node-statement pass: one point vertex per node.
pub open spec fn node_stmts(g: HypergraphV) -> Seq<StmtV> {
    node_stmts_up_to(g, g.node_count())
}

/// Emits one point vertex per hypergraph node, in index order.
fn generate_node_stmts(g: &Hypergraph) -> (v: Vec<Stmt>)
    ensures
        stmt_views(v@) == node_stmts(g@),
{
    let mut v: Vec<Stmt> = Vec::new();
    let n = g.node_labels.len();
    let mut i: usize = 0;
    while i < n
        invariant
            i <= n,
            n == g.node_labels.len(),
            stmt_views(v@) == node_stmts_up_to(g@, i as nat),
        decreases n - i,
    {
        let esc = escape_dot_label(g.node_labels[i].as_str());
        let mut attrs: Vec<Attr> = Vec::new();
        attrs.push(attr_lit("shape", "point"));
        attrs.push(attr_string("xlabel", quoted(esc.as_str())));
        let st = Stmt::Vertex { name: node_name_str(i), attrs };
        proof {
            assert(st@ == node_stmt(g@.node_labels[i as int], i as nat)) by {
                assert(attr_views(st->Vertex_attrs@) =~= node_stmt(
                    g@.node_labels[i as int],
                    i as nat,
                )->Vertex_attrs);
            }
            lemma_stmt_views_push(v@, st);
        }
        v.push(st);
        i = i + 1;
    }
    v
}

/// One named port inside a record label: `<s_3>`.
pub open spec fn port_ref(p: char, k: nat) -> Seq<char> {
    seq!['<'] + indexed_name(p, k) + seq!['>']
}

/// The ports for slots `0 .. n` behind prefix `p`, separated by field
/// dividers: `<s_0> | <s_1> | <s_2>`.
pub open spec fn port_list(p: char, n: nat) -> Seq<char>
    decreases n,
{
    if n == 0 {
        Seq::empty()
    } else if n == 1 {
        port_ref(p, 0)
    } else {
        port_list(p, (n - 1) as nat) + seq![' ', '|', ' '] + port_ref(p, (n - 1) as nat)
    }
}

/// Writes the ports for slots `0 .. n` behind prefix `p`.
fn port_list_str(p: char, n: usize) -> (r: String)
    ensures
        r@ == port_list(p, n as nat),
{
    let mut r = String::new();
    let mut k: usize = 0;
    while k < n
        invariant
            k <= n,
            r@ == port_list(p, k as nat),
        decreases n - k,
    {
        if k > 0 {
            push_char(&mut r, ' ');
            push_char(&mut r, '|');
            push_char(&mut r, ' ');
        }
        push_char(&mut r, '<');
        let nm = indexed_name_str(p, k);
        r.append(nm.as_str());
        push_char(&mut r, '>');
        proof {
            if k == 0 {
                assert(r@ =~= port_ref(p, 0));
            } else {
                assert(r@ =~= port_list(p, k as nat) + seq![' ', '|', ' '] + port_ref(
                    p,
                    k as nat,
                ));
            }
            assert(r@ == port_list(p, (k + 1) as nat));
        }
        k = k + 1;
    }
    r
}

/// The quoted label of one hyperedge record, composed of a left cell of
/// source ports, a center cell holding the escaped operation label, and a
/// right cell of target ports. A side with no slots loses its cell entirely;
/// with no slots on either side the record degenerates to the bare quoted
/// label. Emitting empty bracketed cells would malform the layout, so the
/// three degenerate shapes are distinguished.
pub open spec fn record_label(label: Seq<char>, ns: nat, nt: nat) -> Seq<char> {
    if ns == 0 && nt == 0 {
        quote(label)
    } else if ns == 0 {
        quote(
            seq!['{', ' '] + label + seq![' ', '|', ' ', '{', ' '] + port_list('t', nt)
                + seq![' ', '}', ' ', '}'],
        )
    } else if nt == 0 {
        quote(
            seq!['{', ' ', '{', ' '] + port_list('s', ns) + seq![' ', '}', ' ', '|', ' '] + label
                + seq![' ', '}'],
        )
    } else {
        quote(
            seq!['{', ' ', '{', ' '] + port_list('s', ns) + seq![' ', '}', ' ', '|', ' '] + label
                + seq![' ', '|', ' ', '{', ' '] + port_list('t', nt) + seq![' ', '}', ' ', '}'],
        )
    }
}

/// Writes the quoted record label for an escaped operation label and the
/// given source and target arities.
fn record_label_str(label: &str, ns: usize, nt: usize) -> (r: String)
    ensures
        r@ == record_label(label@, ns as nat, nt as nat),
{
    if ns == 0 && nt == 0 {
        quoted(label)
    } else if ns == 0 {
        let tp = port_list_str('t', nt);
        let mut inner = String::new();
        push_char(&mut inner, '{');
        push_char(&mut inner, ' ');
        inner.append(label);
        push_char(&mut inner, ' ');
        push_char(&mut inner, '|');
        push_char(&mut inner, ' ');
        push_char(&mut inner, '{');
        push_char(&mut inner, ' ');
        inner.append(tp.as_str());
        push_char(&mut inner, ' ');
        push_char(&mut inner, '}');
        push_char(&mut inner, ' ');
        push_char(&mut inner, '}');
        proof {
            assert(inner@ =~= seq!['{', ' '] + label@ + seq![' ', '|', ' ', '{', ' '] + port_list(
                't',
                nt as nat,
            ) + seq![' ', '}', ' ', '}']);
        }
        quoted(inner.as_str())
    } else if nt == 0 {
        let sp = port_list_str('s', ns);
        let mut inner = String::new();
        push_char(&mut inner, '{');
        push_char(&mut inner, ' ');
        push_char(&mut inner, '{');
        push_char(&mut inner, ' ');
        inner.append(sp.as_str());
        push_char(&mut inner, ' ');
        push_char(&mut inner, '}');
        push_char(&mut inner, ' ');
        push_char(&mut inner, '|');
        push_char(&mut inner, ' ');
        inner.append(label);
        push_char(&mut inner, ' ');
        push_char(&mut inner, '}');
        proof {
            assert(inner@ =~= seq!['{', ' ', '{', ' '] + port_list('s', ns as nat) + seq![
                ' ',
                '}',
                ' ',
                '|',
                ' ',
            ] + label@ + seq![' ', '}']);
        }
        quoted(inner.as_str())
    } else {
        let sp = port_list_str('s', ns);
        let tp = port_list_str('t', nt);
        let mut inner = String::new();
        push_char(&mut inner, '{');
        push_char(&mut inner, ' ');
        push_char(&mut inner, '{');
        push_char(&mut inner, ' ');
        inner.append(sp.as_str());
        push_char(&mut inner, ' ');
        push_char(&mut inner, '}');
        push_char(&mut inner, ' ');
        push_char(&mut inner, '|');
        push_char(&mut inner, ' ');
        inner.append(label);
        push_char(&mut inner, ' ');
        push_char(&mut inner, '|');
        push_char(&mut inner, ' ');
        push_char(&mut inner, '{');
        push_char(&mut inner, ' ');
        inner.append(tp.as_str());
        push_char(&mut inner, ' ');
        push_char(&mut inner, '}');
        push_char(&mut inner, ' ');
        push_char(&mut inner, '}');
        proof {
            assert(inner@ =~= seq!['{', ' ', '{', ' '] + port_list('s', ns as nat) + seq![
                ' ',
                '}',
                ' ',
                '|',
                ' ',
            ] + label@ + seq![' ', '|', ' ', '{', ' '] + port_list('t', nt as nat) + seq![
                ' ',
                '}',
                ' ',
                '}',
            ]);
        }
        quoted(inner.as_str())
    }
}

/// The record vertex drawn for one hyperedge.
pub open spec fn record_stmt(g: HypergraphV, j: nat) -> StmtV {
    StmtV::Vertex {
        name: edge_name(j),
        attrs: seq![
            attr_v(
                "label"@,
                record_label(
                    escape_seq(g.edge_labels[j as int]),
                    g.edge_sources[j as int].len(),
                    g.edge_targets[j as int].len(),
                ),
            ),
            attr_v("shape"@, "record"@),
        ],
    }
}

/// The record vertices for the first `n` hyperedges, in index order.
pub open spec fn record_stmts_up_to(g: HypergraphV, n: nat) -> Seq<StmtV>
    decreases n,
{
    if n == 0 {
        Seq::empty()
    } else {
        record_stmts_up_to(g, (n - 1) as nat).push(record_stmt(g, (n - 1) as nat))
    }
}

/// The hyperedge-statement pass: one record vertex per hyperedge.
pub open spec fn record_stmts(g: HypergraphV) -> Seq<StmtV> {
    record_stmts_up_to(g, g.edge_count())
}

/// Emits one record vertex per hyperedge, in index order, with one named
/// port per source and per target slot.
fn generate_edge_stmts(g: &Hypergraph) -> (v: Vec<Stmt>)
    requires
        g@.wf(),
    ensures
        stmt_views(v@) == record_stmts(g@),
{
    let mut v: Vec<Stmt> = Vec::new();
    let n = g.edge_labels.len();
    let mut j: usize = 0;
    while j < n
        invariant
            j <= n,
            n == g.edge_labels.len(),
            g@.wf(),
            g.edge_sources.len() == n,
            g.edge_targets.len() == n,
            stmt_views(v@) == record_stmts_up_to(g@, j as nat),
        decreases n - j,
    {
        let esc = escape_dot_label(g.edge_labels[j].as_str());
        let ns = g.edge_sources[j].len();
        let nt = g.edge_targets[j].len();
        let rl = record_label_str(esc.as_str(), ns, nt);
        let mut attrs: Vec<Attr> = Vec::new();
        attrs.push(attr_string("label", rl));
        attrs.push(attr_lit("shape", "record"));
        let st = Stmt::Vertex { name: edge_name_str(j), attrs };
        proof {
            assert(st@ == record_stmt(g@, j as nat)) by {
                assert(attr_views(st->Vertex_attrs@) =~= record_stmt(g@, j as nat)->Vertex_attrs);
            }
            lemma_stmt_views_push(v@, st);
        }
        v.push(st);
        j = j + 1;
    }
    v
}

/// The directed connection from a node into a source port of a hyperedge:
/// `n_<n> -> e_<j>:s_<k>`.
pub open spec fn wire_source(j: nat, k: nat, n: nat) -> StmtV {
    StmtV::Edge {
        from: EndpointV { vertex: node_name(n), port: Option::None },
        to: EndpointV { vertex: edge_name(j), port: Option::Some(indexed_name('s', k)) },
        attrs: Seq::empty(),
    }
}

/// The directed connection from a target port of a hyperedge to a node:
/// `e_<j>:t_<k> -> n_<n>`.
pub open spec fn wire_target(j: nat, k: nat, n: nat) -> StmtV {
    StmtV::Edge {
        from: EndpointV { vertex: edge_name(j), port: Option::Some(indexed_name('t', k)) },
        to: EndpointV { vertex: node_name(n), port: Option::None },
        attrs: Seq::empty(),
    }
}

/// The source-side wires of hyperedge `j` for slots `0 .. k`, in slot order.
pub open spec fn source_wires_up_to(g: HypergraphV, j: nat, k: nat) -> Seq<StmtV>
    decreases k,
{
    if k == 0 {
        Seq::empty()
    } else {
        source_wires_up_to(g, j, (k - 1) as nat).push(
            wire_source(j, (k - 1) as nat, g.edge_sources[j as int][k - 1] as nat),
        )
    }
}

/// The target-side wires of hyperedge `j` for slots `0 .. k`, in slot order.
pub open spec fn target_wires_up_to(g: HypergraphV, j: nat, k: nat) -> Seq<StmtV>
    decreases k,
{
    if k == 0 {
        Seq::empty()
    } else {
        target_wires_up_to(g, j, (k - 1) as nat).push(
            wire_target(j, (k - 1) as nat, g.edge_targets[j as int][k - 1] as nat),
        )
    }
}

/// All wires of hyperedge `j`: its source slots, then its target slots. A
/// node appearing in two slots of the same hyperedge gets two separate
/// wires, one per slot — nothing is deduplicated here.
pub open spec fn edge_wires(g: HypergraphV, j: nat) -> Seq<StmtV> {
    source_wires_up_to(g, j, g.edge_sources[j as int].len()) + target_wires_up_to(
        g,
        j,
        g.edge_targets[j as int].len(),
    )
}

/// The wires of the first `n` hyperedges, in index order.
pub open spec fn wiring_up_to(g: HypergraphV, n: nat) -> Seq<StmtV>
    decreases n,
{
    if n == 0 {
        Seq::empty()
    } else {
        wiring_up_to(g, (n - 1) as nat) + edge_wires(g, (n - 1) as nat)
    }
}

/// The wiring pass: every node-to-port and port-to-node connection.
pub open spec fn wiring(g: HypergraphV) -> Seq<StmtV> {
    wiring_up_to(g, g.edge_count())
}

/// Emits the wiring: for each hyperedge in index order, a directed
/// connection from each source node into the matching source port, then one
/// from each target port to the matching target node, in slot order.
fn generate_connection_stmts(g: &Hypergraph) -> (v: Vec<Stmt>)
    requires
        g@.wf(),
    ensures
        stmt_views(v@) == wiring(g@),
{
    let mut v: Vec<Stmt> = Vec::new();
    let n = g.edge_labels.len();
    let mut j: usize = 0;
    while j < n
        invariant
            j <= n,
            n == g.edge_labels.len(),
            g@.wf(),
            g.edge_sources.len() == n,
            g.edge_targets.len() == n,
            stmt_views(v@) == wiring_up_to(g@, j as nat),
        decreases n - j,
    {
        let ns = g.edge_sources[j].len();
        let mut k: usize = 0;
        while k < ns
            invariant
                k <= ns,
                j < n,
                n == g.edge_labels.len(),
                g.edge_sources.len() == n,
                ns == g.edge_sources[j as int]@.len(),
                stmt_views(v@) == wiring_up_to(g@, j as nat) + source_wires_up_to(
                    g@,
                    j as nat,
                    k as nat,
                ),
            decreases ns - k,
        {
            let node_idx = g.edge_sources[j][k];
            let st = Stmt::Edge {
                from: Endpoint { vertex: node_name_str(node_idx), port: None },
                to: Endpoint {
                    vertex: edge_name_str(j),
                    port: Some(indexed_name_str('s', k)),
                },
                attrs: Vec::new(),
            };
            proof {
                assert(st@ == wire_source(
                    j as nat,
                    k as nat,
                    g@.edge_sources[j as int][k as int] as nat,
                )) by {
                    assert(attr_views(st->Edge_attrs@) =~= Seq::<AttrV>::empty());
                }
                lemma_stmt_views_push(v@, st);
                assert(stmt_views(v@).push(st@) =~= wiring_up_to(g@, j as nat)
                    + source_wires_up_to(g@, j as nat, (k + 1) as nat));
            }
            v.push(st);
            k = k + 1;
        }
        let nt = g.edge_targets[j].len();
        let mut k2: usize = 0;
        while k2 < nt
            invariant
                k2 <= nt,
                j < n,
                n == g.edge_labels.len(),
                g.edge_sources.len() == n,
                g.edge_targets.len() == n,
                ns == g.edge_sources[j as int]@.len(),
                nt == g.edge_targets[j as int]@.len(),
                stmt_views(v@) == wiring_up_to(g@, j as nat) + source_wires_up_to(
                    g@,
                    j as nat,
                    ns as nat,
                ) + target_wires_up_to(g@, j as nat, k2 as nat),
            decreases nt - k2,
        {
            let node_idx = g.edge_targets[j][k2];
            let st = Stmt::Edge {
                from: Endpoint {
                    vertex: edge_name_str(j),
                    port: Some(indexed_name_str('t', k2)),
                },
                to: Endpoint { vertex: node_name_str(node_idx), port: None },
                attrs: Vec::new(),
            };
            proof {
                assert(st@ == wire_target(
                    j as nat,
                    k2 as nat,
                    g@.edge_targets[j as int][k2 as int] as nat,
                )) by {
                    assert(attr_views(st->Edge_attrs@) =~= Seq::<AttrV>::empty());
                }
                lemma_stmt_views_push(v@, st);
                assert(stmt_views(v@).push(st@) =~= wiring_up_to(g@, j as nat)
                    + source_wires_up_to(g@, j as nat, ns as nat) + target_wires_up_to(
                    g@,
                    j as nat,
                    (k2 + 1) as nat,
                ));
            }
            v.push(st);
            k2 = k2 + 1;
        }
        proof {
            assert(stmt_views(v@) =~= wiring_up_to(g@, (j + 1) as nat));
        }
        j = j + 1;
    }
    v
}

/// The invisible record vertex named `sources` that pins the hypergraph's
/// open source ports to the layout's source extremity: an empty left cell
/// and one named port per interface source slot.
pub open spec fn sources_vertex_stmt(n: nat) -> StmtV {
    StmtV::Vertex {
        name: "sources"@,
        attrs: seq![
            attr_v(
                "label"@,
                quote(
                    seq!['{', ' ', '{', '}', ' ', '|', ' ', '{', ' '] + port_list('p', n)
                        + seq![' ', '}', ' ', '}'],
                ),
            ),
            attr_v("shape"@, "record"@),
            attr_v("style"@, "invisible"@),
            attr_v("rank"@, "source"@),
        ],
    }
}

/// The invisible record vertex named `targets`, ranked to the sink
/// extremity, with one named port per interface target slot.
pub open spec fn targets_vertex_stmt(n: nat) -> StmtV {
    StmtV::Vertex {
        name: "targets"@,
        attrs: seq![
            attr_v(
                "label"@,
                quote(
                    seq!['{', ' ', '{', ' '] + port_list('p', n)
                        + seq![' ', '}', ' ', '|', ' ', '{', '}', ' ', '}'],
                ),
            ),
            attr_v("shape"@, "record"@),
            attr_v("style"@, "invisible"@),
            attr_v("rank"@, "sink"@),
        ],
    }
}

/// The dashed connection from interface source port `i` to node `n`.
pub open spec fn source_iface_edge(i: nat, n: nat) -> StmtV {
    StmtV::Edge {
        from: EndpointV { vertex: "sources"@, port: Option::Some(indexed_name('p', i)) },
        to: EndpointV { vertex: node_name(n), port: Option::None },
        attrs: seq![attr_v("style"@, "dashed"@)],
    }
}

/// The dashed connection from node `n` to interface target port `i`.
pub open spec fn target_iface_edge(i: nat, n: nat) -> StmtV {
    StmtV::Edge {
        from: EndpointV { vertex: node_name(n), port: Option::None },
        to: EndpointV { vertex: "targets"@, port: Option::Some(indexed_name('p', i)) },
        attrs: seq![attr_v("style"@, "dashed"@)],
    }
}

/// The source-interface connections for slots `0 .. i`, in interface order.
pub open spec fn source_iface_edges_up_to(g: HypergraphV, i: nat) -> Seq<StmtV>
    decreases i,
{
    if i == 0 {
        Seq::empty()
    } else {
        source_iface_edges_up_to(g, (i - 1) as nat).push(
            source_iface_edge((i - 1) as nat, g.sources[i - 1] as nat),
        )
    }
}

/// The target-interface connections for slots `0 .. i`, in interface order.
pub open spec fn target_iface_edges_up_to(g: HypergraphV, i: nat) -> Seq<StmtV>
    decreases i,
{
    if i == 0 {
        Seq::empty()
    } else {
        target_iface_edges_up_to(g, (i - 1) as nat).push(
            target_iface_edge((i - 1) as nat, g.targets[i - 1] as nat),
        )
    }
}

/// The interface pass: for a non-empty source interface, the `sources`
/// pseudo-vertex and its dashed connections in interface order; then the
/// same for the target interface. An empty side emits nothing.
pub open spec fn interface_stmts(g: HypergraphV) -> Seq<StmtV> {
    (if g.sources.len() == 0 {
        Seq::empty()
    } else {
        seq![sources_vertex_stmt(g.sources.len())] + source_iface_edges_up_to(g, g.sources.len())
    }) + (if g.targets.len() == 0 {
        Seq::empty()
    } else {
        seq![targets_vertex_stmt(g.targets.len())] + target_iface_edges_up_to(g, g.targets.len())
    })
}

/// Emits the interface pseudo-vertices and their dashed connections. These
/// carry no semantic label; they only pin the open ports to the diagram's
/// visual boundary.
fn generate_interface_stmts(g: &Hypergraph) -> (v: Vec<Stmt>)
    ensures
        stmt_views(v@) == interface_stmts(g@),
{
    let mut v: Vec<Stmt> = Vec::new();
    let ns = g.sources.len();
    if ns > 0 {
        let ports = port_list_str('p', ns);
        let mut inner = String::new();
        push_char(&mut inner, '{');
        push_char(&mut inner, ' ');
        push_char(&mut inner, '{');
        push_char(&mut inner, '}');
        push_char(&mut inner, ' ');
        push_char(&mut inner, '|');
        push_char(&mut inner, ' ');
        push_char(&mut inner, '{');
        push_char(&mut inner, ' ');
        inner.append(ports.as_str());
        push_char(&mut inner, ' ');
        push_char(&mut inner, '}');
        push_char(&mut inner, ' ');
        push_char(&mut inner, '}');
        proof {
            assert(inner@ =~= seq!['{', ' ', '{', '}', ' ', '|', ' ', '{', ' '] + port_list(
                'p',
                ns as nat,
            ) + seq![' ', '}', ' ', '}']);
        }
        let mut attrs: Vec<Attr> = Vec::new();
        attrs.push(attr_string("label", quoted(inner.as_str())));
        attrs.push(attr_lit("shape", "record"));
        attrs.push(attr_lit("style", "invisible"));
        attrs.push(attr_lit("rank", "source"));
        let st = Stmt::Vertex { name: String::from_str("sources"), attrs };
        proof {
            assert(st@ == sources_vertex_stmt(ns as nat)) by {
                assert(attr_views(st->Vertex_attrs@) =~= sources_vertex_stmt(
                    ns as nat,
                )->Vertex_attrs);
            }
            lemma_stmt_views_push(v@, st);
        }
        v.push(st);
        let mut i: usize = 0;
        while i < ns
            invariant
                i <= ns,
                ns == g.sources@.len(),
                stmt_views(v@) == seq![sources_vertex_stmt(ns as nat)] + source_iface_edges_up_to(
                    g@,
                    i as nat,
                ),
            decreases ns - i,
        {
            let node_idx = g.sources[i];
            let st = Stmt::Edge {
                from: Endpoint {
                    vertex: String::from_str("sources"),
                    port: Some(indexed_name_str('p', i)),
                },
                to: Endpoint { vertex: node_name_str(node_idx), port: None },
                attrs: vec![attr_lit("style", "dashed")],
            };
            proof {
                assert(st@ == source_iface_edge(i as nat, g@.sources[i as int] as nat)) by {
                    assert(attr_views(st->Edge_attrs@) =~= source_iface_edge(
                        i as nat,
                        g@.sources[i as int] as nat,
                    )->Edge_attrs);
                }
                lemma_stmt_views_push(v@, st);
                assert(stmt_views(v@).push(st@) =~= seq![sources_vertex_stmt(ns as nat)]
                    + source_iface_edges_up_to(g@, (i + 1) as nat));
            }
            v.push(st);
            i = i + 1;
        }
    }
    let head_len = v.len();
    let ghost head = stmt_views(v@);
    proof {
        assert(head == (if g@.sources.len() == 0 {
            Seq::<StmtV>::empty()
        } else {
            seq![sources_vertex_stmt(g@.sources.len())] + source_iface_edges_up_to(
                g@,
                g@.sources.len(),
            )
        }));
    }
    let nt = g.targets.len();
    if nt > 0 {
        let ports = port_list_str('p', nt);
        let mut inner = String::new();
        push_char(&mut inner, '{');
        push_char(&mut inner, ' ');
        push_char(&mut inner, '{');
        push_char(&mut inner, ' ');
        inner.append(ports.as_str());
        push_char(&mut inner, ' ');
        push_char(&mut inner, '}');
        push_char(&mut inner, ' ');
        push_char(&mut inner, '|');
        push_char(&mut inner, ' ');
        push_char(&mut inner, '{');
        push_char(&mut inner, '}');
        push_char(&mut inner, ' ');
        push_char(&mut inner, '}');
        proof {
            assert(inner@ =~= seq!['{', ' ', '{', ' '] + port_list('p', nt as nat) + seq![
                ' ',
                '}',
                ' ',
                '|',
                ' ',
                '{',
                '}',
                ' ',
                '}',
            ]);
        }
        let mut attrs: Vec<Attr> = Vec::new();
        attrs.push(attr_string("label", quoted(inner.as_str())));
        attrs.push(attr_lit("shape", "record"));
        attrs.push(attr_lit("style", "invisible"));
        attrs.push(attr_lit("rank", "sink"));
        let st = Stmt::Vertex { name: String::from_str("targets"), attrs };
        proof {
            assert(st@ == targets_vertex_stmt(nt as nat)) by {
                assert(attr_views(st->Vertex_attrs@) =~= targets_vertex_stmt(
                    nt as nat,
                )->Vertex_attrs);
            }
            lemma_stmt_views_push(v@, st);
            assert(stmt_views(v@).push(st@) =~= head + (seq![targets_vertex_stmt(nt as nat)]
                + target_iface_edges_up_to(g@, 0)));
        }
        v.push(st);
        let mut i: usize = 0;
        while i < nt
            invariant
                i <= nt,
                nt == g.targets@.len(),
                stmt_views(v@) == head + (seq![targets_vertex_stmt(nt as nat)]
                    + target_iface_edges_up_to(g@, i as nat)),
            decreases nt - i,
        {
            let node_idx = g.targets[i];
            let st = Stmt::Edge {
                from: Endpoint { vertex: node_name_str(node_idx), port: None },
                to: Endpoint {
                    vertex: String::from_str("targets"),
                    port: Some(indexed_name_str('p', i)),
                },
                attrs: vec![attr_lit("style", "dashed")],
            };
            proof {
                assert(st@ == target_iface_edge(i as nat, g@.targets[i as int] as nat)) by {
                    assert(attr_views(st->Edge_attrs@) =~= target_iface_edge(
                        i as nat,
                        g@.targets[i as int] as nat,
                    )->Edge_attrs);
                }
                lemma_stmt_views_push(v@, st);
                assert(stmt_views(v@).push(st@) =~= head + (seq![targets_vertex_stmt(nt as nat)]
                    + target_iface_edges_up_to(g@, (i + 1) as nat)));
            }
            v.push(st);
            i = i + 1;
        }
    }
    proof {
        assert(stmt_views(v@) =~= interface_stmts(g@));
    }
    v
}

/// Interface order is preserved on the source side: the dashed connection at
/// position `i` runs from port `p_<i>` of the `sources` pseudo-vertex to the
/// node at interface slot `i` — slots are never reordered by node index.
pub proof fn lemma_source_interface_order(g: HypergraphV, n: nat)
    requires
        n <= g.sources.len(),
    ensures
        source_iface_edges_up_to(g, n).len() == n,
        forall|i: int|
            0 <= i < n ==> source_iface_edges_up_to(g, n)[i] == source_iface_edge(
                i as nat,
                g.sources[i] as nat,
            ),
    decreases n,
{
    if n > 0 {
        lemma_source_interface_order(g, (n - 1) as nat);
    }
}

/// Interface order is preserved on the target side, symmetrically.
pub proof fn lemma_target_interface_order(g: HypergraphV, n: nat)
    requires
        n <= g.targets.len(),
    ensures
        target_iface_edges_up_to(g, n).len() == n,
        forall|i: int|
            0 <= i < n ==> target_iface_edges_up_to(g, n)[i] == target_iface_edge(
                i as nat,
                g.targets[i] as nat,
            ),
    decreases n,
{
    if n > 0 {
        lemma_target_interface_order(g, (n - 1) as nat);
    }
}

/// A quotient pair in canonical order: the smaller node index first, so that
/// a pair and its reverse orientation count as the same unordered pair.
pub open spec fn canon_pair(a: usize, b: usize) -> (usize, usize) {
    if a <= b {
        (a, b)
    } else {
        (b, a)
    }
}

/// Canonicalizing forgets the orientation of a pair.
pub proof fn lemma_canon_pair_symmetric(a: usize, b: usize)
    ensures
        canon_pair(a, b) == canon_pair(b, a),
{
}

/// Whether the pair at position `i` of the quotient is the first occurrence
/// of its unordered pair.
pub open spec fn pair_fresh(l: Seq<usize>, r: Seq<usize>, i: int) -> bool {
    forall|k: int| 0 <= k < i ==> canon_pair(l[k], r[k]) != canon_pair(l[i], r[i])
}

/// The undirected connection drawn for one distinct unordered quotient pair:
/// styled by the theme, arrowless, and excluded from rank ordering, since
/// unification is a semantic fact and not a dataflow edge.
pub open spec fn quotient_stmt(p: (usize, usize), style: Seq<char>) -> StmtV {
    StmtV::Edge {
        from: EndpointV { vertex: node_name(p.0 as nat), port: Option::None },
        to: EndpointV { vertex: node_name(p.1 as nat), port: Option::None },
        attrs: seq![
            attr_v("style"@, style),
            attr_v("dir"@, "none"@),
            attr_v("constraint"@, "false"@),
        ],
    }
}

/// The quotient connections for pairs `0 .. i`: one per first occurrence of
/// an unordered pair, in order of first occurrence.
pub open spec fn quotient_stmts_up_to(l: Seq<usize>, r: Seq<usize>, style: Seq<char>, i: nat) -> Seq<
    StmtV,
>
    decreases i,
{
    if i == 0 {
        Seq::empty()
    } else {
        let prev = quotient_stmts_up_to(l, r, style, (i - 1) as nat);
        if pair_fresh(l, r, i - 1) {
            prev.push(quotient_stmt(canon_pair(l[i - 1], r[i - 1]), style))
        } else {
            prev
        }
    }
}

/// The quotient pass: one undirected connection per distinct unordered pair
/// of the quotient relation, duplicates and reversed orientations collapsed,
/// without transitive closure.
pub open spec fn quotient_stmts(l: Seq<usize>, r: Seq<usize>, style: Seq<char>) -> Seq<StmtV> {
    quotient_stmts_up_to(l, r, style, l.len())
}

/// Distinct canonical pairs are drawn as distinct connections: the endpoint
/// names already differ.
proof fn lemma_quotient_stmt_injective(p: (usize, usize), q: (usize, usize), style: Seq<char>)
    requires
        p != q,
    ensures
        quotient_stmt(p, style) != quotient_stmt(q, style),
{
    if p.0 != q.0 {
        crate::names::lemma_node_names_injective(p.0 as nat, q.0 as nat);
    } else {
        assert(p.1 != q.1);
        crate::names::lemma_node_names_injective(p.1 as nat, q.1 as nat);
    }
}

proof fn lemma_quotient_stmts_up_to_props(l: Seq<usize>, r: Seq<usize>, style: Seq<char>, i: nat)
    requires
        i <= l.len(),
        l.len() == r.len(),
    ensures
        quotient_stmts_up_to(l, r, style, i).no_duplicates(),
        forall|k: int|
            0 <= k < i ==> quotient_stmts_up_to(l, r, style, i).contains(
                quotient_stmt(canon_pair(l[k], r[k]), style),
            ),
        forall|st: StmtV|
            quotient_stmts_up_to(l, r, style, i).contains(st) ==> exists|k: int|
                0 <= k < i && st == quotient_stmt(canon_pair(l[k], r[k]), style),
    decreases i,
{
    if i > 0 {
        lemma_quotient_stmts_up_to_props(l, r, style, (i - 1) as nat);
        let prev = quotient_stmts_up_to(l, r, style, (i - 1) as nat);
        let cur = quotient_stmts_up_to(l, r, style, i);
        let newest = quotient_stmt(canon_pair(l[i - 1], r[i - 1]), style);
        if pair_fresh(l, r, i - 1) {
            assert(cur == prev.push(newest));
            assert(!prev.contains(newest)) by {
                if prev.contains(newest) {
                    let k = choose|k: int|
                        0 <= k < i - 1 && newest == quotient_stmt(canon_pair(l[k], r[k]), style);
                    assert(canon_pair(l[k], r[k]) != canon_pair(l[i - 1], r[i - 1]));
                    lemma_quotient_stmt_injective(
                        canon_pair(l[k], r[k]),
                        canon_pair(l[i - 1], r[i - 1]),
                        style,
                    );
                }
            }
            assert(cur.no_duplicates()) by {
                assert(forall|a: int, b: int|
                    0 <= a < b < cur.len() ==> cur[a] != cur[b]) by {
                    assert(forall|a: int| 0 <= a < prev.len() ==> cur[a] == prev[a]);
                    assert(cur[cur.len() - 1] == newest);
                    assert(forall|a: int| 0 <= a < prev.len() ==> prev.contains(prev[a]));
                }
            }
            assert(forall|k: int|
                0 <= k < i ==> cur.contains(quotient_stmt(canon_pair(l[k], r[k]), style))) by {
                assert(forall|a: int| 0 <= a < prev.len() ==> cur[a] == prev[a]);
                assert(forall|st: StmtV| prev.contains(st) ==> cur.contains(st));
                assert(cur[cur.len() - 1] == newest);
                assert(cur.contains(newest));
            }
            assert(forall|st: StmtV|
                cur.contains(st) ==> exists|k: int|
                    0 <= k < i && st == quotient_stmt(canon_pair(l[k], r[k]), style)) by {
                assert(forall|a: int| 0 <= a < cur.len() - 1 ==> cur[a] == prev[a]);
                assert(forall|a: int| 0 <= a < prev.len() ==> prev.contains(prev[a]));
            }
        } else {
            assert(cur == prev);
            assert(!pair_fresh(l, r, i - 1));
            let k0 = choose|k: int|
                0 <= k < i - 1 && #[trigger] canon_pair(l[k], r[k]) == canon_pair(
                    l[i - 1],
                    r[i - 1],
                );
            assert(cur.contains(quotient_stmt(canon_pair(l[k0], r[k0]), style)));
            assert(forall|k: int|
                0 <= k < i ==> cur.contains(quotient_stmt(canon_pair(l[k], r[k]), style)));
        }
    }
}

/// Quotient deduplication: the emitted quotient connections are pairwise
/// distinct — exactly one connection per distinct unordered pair — and every
/// pair of the input quotient, in either orientation, is represented by the
/// connection of its canonical form.
pub proof fn lemma_quotient_dedup(l: Seq<usize>, r: Seq<usize>, style: Seq<char>)
    requires
        l.len() == r.len(),
    ensures
        quotient_stmts(l, r, style).no_duplicates(),
        forall|i: int|
            0 <= i < l.len() ==> quotient_stmts(l, r, style).contains(
                quotient_stmt(canon_pair(l[i], r[i]), style),
            ),
{
    lemma_quotient_stmts_up_to_props(l, r, style, l.len());
}

/// Emits one undirected, non-constraining connection per distinct unordered
/// quotient pair, in order of first occurrence, between the canonical pair's
/// two node vertices.
fn generate_quotient_stmts(g: &Hypergraph, style: &str) -> (v: Vec<Stmt>)
    requires
        g@.quotient_left.len() == g@.quotient_right.len(),
    ensures
        stmt_views(v@) == quotient_stmts(g@.quotient_left, g@.quotient_right, style@),
{
    let mut v: Vec<Stmt> = Vec::new();
    let n = g.quotient_left.len();
    let ghost lseq = g@.quotient_left;
    let ghost rseq = g@.quotient_right;
    let mut i: usize = 0;
    while i < n
        invariant
            i <= n,
            n == g.quotient_left@.len(),
            n == g.quotient_right@.len(),
            lseq == g@.quotient_left,
            rseq == g@.quotient_right,
            stmt_views(v@) == quotient_stmts_up_to(lseq, rseq, style@, i as nat),
        decreases n - i,
    {
        let li = g.quotient_left[i];
        let ri = g.quotient_right[i];
        let (lo, hi) = if li <= ri {
            (li, ri)
        } else {
            (ri, li)
        };
        proof {
            assert((lo, hi) == canon_pair(lseq[i as int], rseq[i as int]));
        }
        let mut fresh = true;
        let mut k: usize = 0;
        while k < i
            invariant
                k <= i,
                i < n,
                n == g.quotient_left@.len(),
                n == g.quotient_right@.len(),
                lseq == g@.quotient_left,
                rseq == g@.quotient_right,
                (lo, hi) == canon_pair(lseq[i as int], rseq[i as int]),
                fresh == (forall|k2: int|
                    0 <= k2 < k ==> canon_pair(lseq[k2], rseq[k2]) != canon_pair(
                        lseq[i as int],
                        rseq[i as int],
                    )),
            decreases i - k,
        {
            let lk = g.quotient_left[k];
            let rk = g.quotient_right[k];
            let (lok, hik) = if lk <= rk {
                (lk, rk)
            } else {
                (rk, lk)
            };
            proof {
                assert((lok, hik) == canon_pair(lseq[k as int], rseq[k as int]));
            }
            if lok == lo && hik == hi {
                fresh = false;
            }
            k = k + 1;
        }
        if fresh {
            let mut attrs: Vec<Attr> = Vec::new();
            attrs.push(attr_string("style", String::from_str(style)));
            attrs.push(attr_lit("dir", "none"));
            attrs.push(attr_lit("constraint", "false"));
            let st = Stmt::Edge {
                from: Endpoint { vertex: node_name_str(lo), port: None },
                to: Endpoint { vertex: node_name_str(hi), port: None },
                attrs,
            };
            proof {
                assert(st@ == quotient_stmt(
                    canon_pair(lseq[i as int], rseq[i as int]),
                    style@,
                )) by {
                    assert(attr_views(st->Edge_attrs@) =~= quotient_stmt(
                        canon_pair(lseq[i as int], rseq[i as int]),
                        style@,
                    )->Edge_attrs);
                }
                assert(pair_fresh(lseq, rseq, i as int));
                lemma_stmt_views_push(v@, st);
            }
            v.push(st);
        } else {
            proof {
                assert(!pair_fresh(lseq, rseq, i as int));
            }
        }
        i = i + 1;
    }
    v
}

/// All passes over one snapshot, in their fixed order: the preamble, the
/// node vertices, the hyperedge records, the wiring, the interface, and the
/// quotient connections.
pub open spec fn spec_render(g: HypergraphV, o: OptionsV) -> Seq<StmtV> {
    preamble(o) + node_stmts(g) + record_stmts(g) + wiring(g) + interface_stmts(g)
        + quotient_stmts(g.quotient_left, g.quotient_right, o.theme.quotient_style)
}

/// Renders a hypergraph snapshot into a DOT document under the given
/// configuration. The result is pinned exactly: it equals [`spec_render`] of
/// the inputs' values, so rendering the same snapshot and configuration
/// twice produces identical documents.
pub fn generate_dot_with(g: &Hypergraph, opts: &Options) -> (doc: Document)
    requires
        g@.wf(),
    ensures
        doc@ == spec_render(g@, opts@),
{
    let mut stmts = generate_preamble(opts);
    let mut pass = generate_node_stmts(g);
    proof {
        lemma_stmt_views_concat(stmts@, pass@);
    }
    stmts.append(&mut pass);
    let mut pass = generate_edge_stmts(g);
    proof {
        lemma_stmt_views_concat(stmts@, pass@);
    }
    stmts.append(&mut pass);
    let mut pass = generate_connection_stmts(g);
    proof {
        lemma_stmt_views_concat(stmts@, pass@);
    }
    stmts.append(&mut pass);
    let mut pass = generate_interface_stmts(g);
    proof {
        lemma_stmt_views_concat(stmts@, pass@);
    }
    stmts.append(&mut pass);
    let mut pass = generate_quotient_stmts(g, opts.theme.quotient_style.as_str());
    proof {
        lemma_stmt_views_concat(stmts@, pass@);
    }
    stmts.append(&mut pass);
    Document { stmts }
}

proof fn lemma_node_stmts_up_to_index(g: HypergraphV, n: nat)
    ensures
        node_stmts_up_to(g, n).len() == n,
        forall|i: int|
            0 <= i < n ==> node_stmts_up_to(g, n)[i] == node_stmt(g.node_labels[i], i as nat),
    decreases n,
{
    if n > 0 {
        lemma_node_stmts_up_to_index(g, (n - 1) as nat);
    }
}

proof fn lemma_record_stmts_up_to_index(g: HypergraphV, n: nat)
    ensures
        record_stmts_up_to(g, n).len() == n,
        forall|j: int| 0 <= j < n ==> record_stmts_up_to(g, n)[j] == record_stmt(g, j as nat),
    decreases n,
{
    if n > 0 {
        lemma_record_stmts_up_to_index(g, (n - 1) as nat);
    }
}

/// Where each node's vertex stands in the document: right after the
/// four-statement preamble, in index order. Together with
/// [`crate::names::lemma_node_names_injective`], distinct nodes are drawn as
/// distinctly named vertices.
pub proof fn lemma_node_vertex_positions(g: HypergraphV, o: OptionsV)
    ensures
        forall|i: int|
            0 <= i < g.node_count() ==> spec_render(g, o)[4 + i] == node_stmt(
                g.node_labels[i],
                i as nat,
            ),
{
    lemma_node_stmts_up_to_index(g, g.node_count());
    assert(preamble(o).len() == 4);
    assert forall|i: int| 0 <= i < g.node_count() implies spec_render(g, o)[4 + i] == node_stmt(
        g.node_labels[i],
        i as nat,
    ) by {
        assert((preamble(o) + node_stmts(g))[4 + i] == node_stmts(g)[i]);
    }
}

/// Where each hyperedge's record vertex stands in the document: right after
/// the preamble and the node vertices, in index order. Together with
/// [`crate::names::lemma_edge_names_injective`], distinct hyperedges are
/// drawn as distinctly named records.
pub proof fn lemma_record_vertex_positions(g: HypergraphV, o: OptionsV)
    ensures
        forall|j: int|
            0 <= j < g.edge_count() ==> spec_render(g, o)[4 + g.node_count() + j]
                == #[trigger] record_stmt(g, j as nat),
{
    lemma_node_stmts_up_to_index(g, g.node_count());
    lemma_record_stmts_up_to_index(g, g.edge_count());
    assert(preamble(o).len() == 4);
    assert forall|j: int| 0 <= j < g.edge_count() implies spec_render(g, o)[4 + g.node_count()
        + j] == #[trigger] record_stmt(g, j as nat) by {
        assert((preamble(o) + node_stmts(g) + record_stmts(g))[4 + g.node_count() + j]
            == record_stmts(g)[j]);
    }
}

/// Renders a hypergraph snapshot under the default configuration:
/// top-to-bottom layout with the dark theme.
pub fn generate_dot(g: &Hypergraph) -> (doc: Document)
    requires
        g@.wf(),
    ensures
        doc@ == spec_render(g@, default_options_v()),
{
    let opts = Options::default();
    generate_dot_with(g, &opts)
}

} // verus!
