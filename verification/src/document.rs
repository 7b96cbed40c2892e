//! The produced graph-description document: an ordered, append-only list of
//! DOT statements. A statement sets a graph-level attribute, declares a named
//! vertex with its attributes, or declares a connection between two vertices,
//! each end optionally addressing a named port.

use vstd::prelude::*;

verus! {

/// One `key = value` attribute of a vertex, a connection, or the graph.
#[derive(Clone, Debug, PartialEq)]
pub struct Attr {
    pub key: String,
    pub value: String,
}

/// The mathematical value of an [`Attr`].
pub struct AttrV {
    pub key: Seq<char>,
    pub value: Seq<char>,
}

impl View for Attr {
    type V = AttrV;

    open spec fn view(&self) -> AttrV {
        AttrV { key: self.key@, value: self.value@ }
    }
}

/// One end of a connection: a vertex name, and optionally a port of it.
#[derive(Clone, Debug, PartialEq)]
pub struct Endpoint {
    pub vertex: String,
    pub port: Option<String>,
}

/// The mathematical value of an [`Endpoint`].
pub struct EndpointV {
    pub vertex: Seq<char>,
    pub port: Option<Seq<char>>,
}

impl View for Endpoint {
    type V = EndpointV;

    open spec fn view(&self) -> EndpointV {
        EndpointV {
            vertex: self.vertex@,
            port: match self.port {
                Option::Some(p) => Option::Some(p@),
                Option::None => Option::None,
            },
        }
    }
}

/// One statement of the document.
#[derive(Clone, Debug, PartialEq)]
pub enum Stmt {
    /// A graph-level `key = value` setting.
    GraphAttr(Attr),
    /// A vertex declaration. Declaring the reserved names `node` or `edge`
    /// sets default attributes for the vertices or connections that follow.
    Vertex { name: String, attrs: Vec<Attr> },
    /// A directed connection between two endpoints.
    Edge { from: Endpoint, to: Endpoint, attrs: Vec<Attr> },
}

/// The mathematical value of a [`Stmt`].
pub enum StmtV {
    GraphAttr(AttrV),
    Vertex { name: Seq<char>, attrs: Seq<AttrV> },
    Edge { from: EndpointV, to: EndpointV, attrs: Seq<AttrV> },
}

/// The mathematical values of a list of attributes.
pub open spec fn attr_views(s: Seq<Attr>) -> Seq<AttrV> {
    s.map_values(|a: Attr| a@)
}

impl View for Stmt {
    type V = StmtV;

    open spec fn view(&self) -> StmtV {
        match self {
            Stmt::GraphAttr(a) => StmtV::GraphAttr(a@),
            Stmt::Vertex { name, attrs } => StmtV::Vertex {
                name: name@,
                attrs: attr_views(attrs@),
            },
            Stmt::Edge { from, to, attrs } => StmtV::Edge {
                from: from@,
                to: to@,
                attrs: attr_views(attrs@),
            },
        }
    }
}

/// The mathematical values of a list of statements.
pub open spec fn stmt_views(s: Seq<Stmt>) -> Seq<StmtV> {
    s.map_values(|st: Stmt| st@)
}

/// A complete document: the statement list of one directed graph.
#[derive(Clone, Debug, PartialEq)]
pub struct Document {
    pub stmts: Vec<Stmt>,
}

impl View for Document {
    type V = Seq<StmtV>;

    open spec fn view(&self) -> Seq<StmtV> {
        stmt_views(self.stmts@)
    }
}

/// Statement values follow a pushed statement.
pub proof fn lemma_stmt_views_push(s: Seq<Stmt>, x: Stmt)
    ensures
        stmt_views(s.push(x)) == stmt_views(s).push(x@),
{
    assert(stmt_views(s.push(x)) =~= stmt_views(s).push(x@));
}

/// Statement values distribute over concatenation.
pub proof fn lemma_stmt_views_concat(a: Seq<Stmt>, b: Seq<Stmt>)
    ensures
        stmt_views(a + b) == stmt_views(a) + stmt_views(b),
{
    assert(stmt_views(a + b) =~= stmt_views(a) + stmt_views(b));
}

} // verus!
