//! The syntax-tree data model.
//!
//! The parser populates these types; they carry no behaviour of their own.
//! Every identifier holds the exact raw bytes of the source substring that
//! produced it (outer quotes and angle brackets stripped, escape sequences
//! untouched). Statement and attribute order is preserved exactly as
//! written.
//!
//! Each executable type has a mathematical model (`...View`) over `Seq<u8>`
//! and `Seq`, used by every contract of the lexer and the parser.

use vstd::prelude::*;

verus! {

/// An identifier: one of the four lexical value forms of DOT.
///
/// Identifiers are the universal value type: names, attribute keys and
/// values, and ports are all identifiers.
#[derive(Clone, Debug, PartialEq, Eq)]
pub enum Id {
    HtmlString(Vec<u8>),
    Ident(Vec<u8>),
    Number(Vec<u8>),
    Quoted(Vec<u8>),
}

/// The model of an [`Id`].
pub enum IdView {
    HtmlString(Seq<u8>),
    Ident(Seq<u8>),
    Number(Seq<u8>),
    Quoted(Seq<u8>),
}

impl View for Id {
    type V = IdView;

    open spec fn view(&self) -> IdView {
        match self {
            Id::HtmlString(s) => IdView::HtmlString(s@),
            Id::Ident(s) => IdView::Ident(s@),
            Id::Number(s) => IdView::Number(s@),
            Id::Quoted(s) => IdView::Quoted(s@),
        }
    }
}

/// The model of an optional [`Id`].
pub open spec fn opt_id_view(o: Option<Id>) -> Option<IdView> {
    match o {
        Option::Some(id) => Option::Some(id@),
        Option::None => Option::None,
    }
}

/// A port: an identifier, optionally followed by a compass-point
/// identifier, anchoring an edge to one side of a node.
#[derive(Clone, Debug, PartialEq, Eq)]
pub struct Port {
    pub compass: Option<Id>,
    pub id: Id,
}

/// The model of a [`Port`].
pub struct PortView {
    pub compass: Option<IdView>,
    pub id: IdView,
}

impl View for Port {
    type V = PortView;

    open spec fn view(&self) -> PortView {
        PortView { compass: opt_id_view(self.compass), id: self.id@ }
    }
}

/// A node reference: an identifier plus an optional port.
#[derive(Clone, Debug, PartialEq, Eq)]
pub struct NodeId {
    pub id: Id,
    pub port: Option<Port>,
}

/// The model of a [`NodeId`].
pub struct NodeIdView {
    pub id: IdView,
    pub port: Option<PortView>,
}

impl View for NodeId {
    type V = NodeIdView;

    open spec fn view(&self) -> NodeIdView {
        NodeIdView {
            id: self.id@,
            port: match self.port {
                Option::Some(p) => Option::Some(p@),
                Option::None => Option::None,
            },
        }
    }
}

/// One `key[=value]` pair of a bracketed attribute list.
#[derive(Clone, Debug, PartialEq, Eq)]
pub struct Attribute {
    pub key: Id,
    pub value: Option<Id>,
}

/// The model of an [`Attribute`].
pub struct AttributeView {
    pub key: IdView,
    pub value: Option<IdView>,
}

impl View for Attribute {
    type V = AttributeView;

    open spec fn view(&self) -> AttributeView {
        AttributeView { key: self.key@, value: opt_id_view(self.value) }
    }
}

/// The model of an attribute list, in source order.
pub open spec fn attrs_view(attrs: Seq<Attribute>) -> Seq<AttributeView> {
    attrs.map_values(|a: Attribute| a@)
}

/// What an attribute statement configures: the graph itself, the default
/// node attributes, or the default edge attributes.
#[derive(Clone, Copy, Debug, PartialEq, Eq)]
pub enum AttributeTarget {
    Edge,
    Graph,
    Node,
}

/// An edge operator: `->` (directed) or `--` (undirected).
#[derive(Clone, Copy, Debug, PartialEq, Eq)]
pub enum EdgeOperation {
    Arrow,
    DashDash,
}

/// Whether the graph was introduced by `graph` or by `digraph`.
#[derive(Clone, Copy, Debug, PartialEq, Eq)]
pub enum GraphKind {
    Digraph,
    Graph,
}

/// An attribute statement: `graph [..]`, `node [..]` or `edge [..]`.
#[derive(Clone, Debug, PartialEq, Eq)]
pub struct AttributeStatement {
    pub attributes: Vec<Attribute>,
    pub target: AttributeTarget,
}

/// The model of an [`AttributeStatement`].
pub struct AttributeStatementView {
    pub attributes: Seq<AttributeView>,
    pub target: AttributeTarget,
}

impl View for AttributeStatement {
    type V = AttributeStatementView;

    open spec fn view(&self) -> AttributeStatementView {
        AttributeStatementView {
            attributes: attrs_view(self.attributes@),
            target: self.target,
        }
    }
}

/// An edge statement: a leading target, a non-empty chain of
/// `(operator, target)` hops, and the attributes of the whole chain.
#[derive(Debug, PartialEq, Eq)]
pub struct EdgeStatement {
    pub attributes: Vec<Attribute>,
    pub edges: Vec<(EdgeOperation, EdgeTarget)>,
    pub from: EdgeTarget,
}

/// One endpoint of an edge chain: a node reference or a nested subgraph.
#[derive(Debug, PartialEq, Eq)]
pub enum EdgeTarget {
    NodeId(NodeId),
    Subgraph(Subgraph),
}

/// A node statement: a node reference with its attributes.
#[derive(Clone, Debug, PartialEq, Eq)]
pub struct NodeStatement {
    pub attributes: Vec<Attribute>,
    pub id: NodeId,
}

/// One statement of a statement list, in its five forms.
#[derive(Debug, PartialEq, Eq)]
pub enum Statement {
    Assign(Id, Id),
    Attr(AttributeStatement),
    Edge(EdgeStatement),
    Node(NodeStatement),
    Subgraph(Subgraph),
}

/// A subgraph: an optional name and a recursively parsed statement list.
#[derive(Debug, PartialEq, Eq)]
pub struct Subgraph {
    pub id: Option<Id>,
    pub statements: Vec<Statement>,
}

/// The tree root: the graph's name, kind, strictness, and statements.
#[derive(Debug, PartialEq, Eq)]
pub struct Graph {
    pub id: Option<Id>,
    pub kind: GraphKind,
    pub statements: Vec<Statement>,
    pub strict: bool,
}

/// The model of an [`EdgeStatement`].
pub struct EdgeStatementView {
    pub attributes: Seq<AttributeView>,
    pub edges: Seq<(EdgeOperation, EdgeTargetView)>,
    pub from: EdgeTargetView,
}

/// The model of an [`EdgeTarget`].
pub enum EdgeTargetView {
    NodeId(NodeIdView),
    Subgraph(SubgraphView),
}

/// The model of a [`NodeStatement`].
pub struct NodeStatementView {
    pub attributes: Seq<AttributeView>,
    pub id: NodeIdView,
}

/// The model of a [`Statement`].
pub enum StatementView {
    Assign(IdView, IdView),
    Attr(AttributeStatementView),
    Edge(EdgeStatementView),
    Node(NodeStatementView),
    Subgraph(SubgraphView),
}

/// The model of a [`Subgraph`].
pub struct SubgraphView {
    pub id: Option<IdView>,
    pub statements: Seq<StatementView>,
}

/// The model of a [`Graph`].
pub struct GraphView {
    pub id: Option<IdView>,
    pub kind: GraphKind,
    pub statements: Seq<StatementView>,
    pub strict: bool,
}

/// The model of a [`Statement`].
pub open spec fn stmt_view(s: Statement) -> StatementView
    decreases s,
{
    match s {
        Statement::Assign(k, v) => StatementView::Assign(k@, v@),
        Statement::Attr(a) => StatementView::Attr(a@),
        Statement::Edge(e) => StatementView::Edge(
            EdgeStatementView {
                attributes: attrs_view(e.attributes@),
                edges: edges_view(e.edges@),
                from: edge_target_view(e.from),
            },
        ),
        Statement::Node(n) => StatementView::Node(
            NodeStatementView { attributes: attrs_view(n.attributes@), id: n.id@ },
        ),
        Statement::Subgraph(g) => StatementView::Subgraph(subgraph_view(g)),
    }
}

/// The model of a statement list, in source order.
pub open spec fn stmts_view(ss: Seq<Statement>) -> Seq<StatementView>
    decreases ss,
{
    if ss.len() == 0 {
        Seq::empty()
    } else {
        seq![stmt_view(ss[0])] + stmts_view(ss.drop_first())
    }
}

/// The model of a [`Subgraph`].
pub open spec fn subgraph_view(g: Subgraph) -> SubgraphView
    decreases g,
{
    SubgraphView { id: opt_id_view(g.id), statements: stmts_view(g.statements@) }
}

/// The model of an [`EdgeTarget`].
pub open spec fn edge_target_view(t: EdgeTarget) -> EdgeTargetView
    decreases t,
{
    match t {
        EdgeTarget::NodeId(n) => EdgeTargetView::NodeId(n@),
        EdgeTarget::Subgraph(g) => EdgeTargetView::Subgraph(subgraph_view(g)),
    }
}

/// The model of an edge chain, in source order.
pub open spec fn edges_view(es: Seq<(EdgeOperation, EdgeTarget)>) -> Seq<
    (EdgeOperation, EdgeTargetView),
>
    decreases es,
{
    if es.len() == 0 {
        Seq::empty()
    } else {
        seq![(es[0].0, edge_target_view(es[0].1))] + edges_view(es.drop_first())
    }
}

/// The model of a [`Graph`].
pub open spec fn graph_view(g: Graph) -> GraphView {
    GraphView {
        id: opt_id_view(g.id),
        kind: g.kind,
        statements: stmts_view(g.statements@),
        strict: g.strict,
    }
}

} // verus!
