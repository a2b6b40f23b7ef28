//! The grammar engine.
//!
//! [`parse`] builds a [`Graph`] syntax tree from the token sequence, or
//! reports a grammatical diagnostic. Statements are resolved by trying
//! five forms in fixed priority order — attribute statement, edge
//! statement, assignment, subgraph, node statement — with full
//! backtracking on a failed alternative.
//!
//! The grammar is specified by the `sp_*` spec functions below, one per
//! production, and by [`spec_parse`] for the whole pipeline; the
//! executable parser is proved to return exactly their value.

use vstd::prelude::*;

use crate::ast::{
    Attribute, AttributeStatement, AttributeStatementView, AttributeTarget, AttributeView,
    EdgeOperation, EdgeStatement, EdgeStatementView, EdgeTarget, EdgeTargetView, Graph, GraphKind,
    GraphView, Id, IdView, NodeId, NodeIdView, NodeStatement, NodeStatementView, Port, PortView,
    Statement, StatementView, Subgraph, SubgraphView, attrs_view, edge_target_view, edges_view,
    graph_view, stmt_view, stmts_view, subgraph_view,
};
use crate::lexer::{lex, lex_error_msg, spec_lex};
use crate::token::{Spanned, SpannedView, Token, TokenView, tokens_view};

verus! {

/// A diagnostic of either phase: a message and the half-open byte span
/// `[start, end)` of the source text it points at.
#[derive(Debug)]
pub struct ParseError {
    pub message: String,
    pub span: core::ops::Range<usize>,
}

/// The kinds of grammatical diagnostics.
#[derive(Clone, Copy, Debug, PartialEq, Eq)]
pub enum SyntaxErrorKind {
    /// Neither `graph` nor `digraph` stands where the header needs one.
    ExpectedGraph,
    /// The `{` opening the top-level statement list is missing.
    ExpectedOpenBrace,
    /// The `}` closing the statement list is missing, or a statement
    /// could not be read at this point.
    ExpectedCloseBrace,
    /// Tokens follow the structurally complete graph.
    TrailingInput,
}

/// The diagnostic message for each kind of grammatical error.
pub open spec fn syntax_error_msg(k: SyntaxErrorKind) -> Seq<char> {
    match k {
        SyntaxErrorKind::ExpectedGraph => "expected 'graph' or 'digraph'"@,
        SyntaxErrorKind::ExpectedOpenBrace => "expected '{'"@,
        SyntaxErrorKind::ExpectedCloseBrace => "expected '}'"@,
        SyntaxErrorKind::TrailingInput => "unexpected input after the closing '}'"@,
    }
}

/// The model of a diagnostic: what [`parse`] reports on failure.
pub struct DiagnosticView {
    pub msg: Seq<char>,
    pub start: int,
    pub end: int,
}

/// An identifier token at `i` becomes an identifier value.
pub open spec fn sp_id(t: Seq<SpannedView>, i: int) -> Option<(IdView, int)> {
    if 0 <= i < t.len() {
        match t[i].token {
            TokenView::Ident(w) => Option::Some((IdView::Ident(w), i + 1)),
            TokenView::Quoted(w) => Option::Some((IdView::Quoted(w), i + 1)),
            TokenView::HtmlString(w) => Option::Some((IdView::HtmlString(w), i + 1)),
            TokenView::Number(w) => Option::Some((IdView::Number(w), i + 1)),
            _ => Option::None,
        }
    } else {
        Option::None
    }
}

/// A port at `i`: `:identifier`, optionally `:identifier` again for the
/// compass point. A second colon not followed by an identifier is left
/// unconsumed.
pub open spec fn sp_port(t: Seq<SpannedView>, i: int) -> Option<(PortView, int)> {
    if 0 <= i < t.len() && t[i].token is Colon {
        match sp_id(t, i + 1) {
            Option::None => Option::None,
            Option::Some((pid, j)) => {
                if j < t.len() && t[j].token is Colon {
                    match sp_id(t, j + 1) {
                        Option::Some((c, k)) => Option::Some(
                            (PortView { compass: Option::Some(c), id: pid }, k),
                        ),
                        Option::None => Option::Some(
                            (PortView { compass: Option::None, id: pid }, j),
                        ),
                    }
                } else {
                    Option::Some((PortView { compass: Option::None, id: pid }, j))
                }
            },
        }
    } else {
        Option::None
    }
}

/// A node reference at `i`: an identifier with an optional port.
pub open spec fn sp_node_id(t: Seq<SpannedView>, i: int) -> Option<(NodeIdView, int)> {
    match sp_id(t, i) {
        Option::None => Option::None,
        Option::Some((id, j)) => match sp_port(t, j) {
            Option::Some((p, k)) => Option::Some(
                (NodeIdView { id, port: Option::Some(p) }, k),
            ),
            Option::None => Option::Some((NodeIdView { id, port: Option::None }, j)),
        },
    }
}

/// One attribute at `i`: `key`, optionally `= value`, optionally closed
/// by a single `;` or `,` separator.
pub open spec fn sp_attribute(t: Seq<SpannedView>, i: int) -> Option<(AttributeView, int)> {
    match sp_id(t, i) {
        Option::None => Option::None,
        Option::Some((key, j)) => {
            let (value, j2): (Option<IdView>, int) = if j < t.len() && t[j].token is Equals {
                match sp_id(t, j + 1) {
                    Option::Some((v, k)) => (Option::Some(v), k),
                    Option::None => (Option::None, j),
                }
            } else {
                (Option::None, j)
            };
            let j3: int = if j2 < t.len() && (t[j2].token is Semicolon || t[j2].token is Comma) {
                j2 + 1
            } else {
                j2
            };
            Option::Some((AttributeView { key, value }, j3))
        },
    }
}

/// The attributes inside one bracket group: zero or more.
pub open spec fn sp_attrs(t: Seq<SpannedView>, i: int) -> (Seq<AttributeView>, int)
    decreases t.len() - i,
{
    match sp_attribute(t, i) {
        Option::None => (Seq::empty(), i),
        Option::Some((a, j)) => {
            // an attribute always consumes at least its key token; the
            // test keeps the recursion well-founded
            if i < j <= t.len() {
                let (rest, k) = sp_attrs(t, j);
                (seq![a] + rest, k)
            } else {
                (seq![a], j)
            }
        },
    }
}

/// One bracket group `[ attribute* ]` at `i`.
pub open spec fn sp_attr_group(t: Seq<SpannedView>, i: int) -> Option<(Seq<AttributeView>, int)> {
    if 0 <= i < t.len() && t[i].token is OpenBracket {
        let (attrs, j) = sp_attrs(t, i + 1);
        if j < t.len() && t[j].token is CloseBracket {
            Option::Some((attrs, j + 1))
        } else {
            Option::None
        }
    } else {
        Option::None
    }
}

/// One or more consecutive bracket groups, concatenated in source order.
pub open spec fn sp_attr_list(t: Seq<SpannedView>, i: int) -> Option<(Seq<AttributeView>, int)>
    decreases t.len() - i,
{
    match sp_attr_group(t, i) {
        Option::None => Option::None,
        Option::Some((g, j)) => {
            // a group always consumes its brackets; the test keeps the
            // recursion well-founded
            if i < j <= t.len() {
                match sp_attr_list(t, j) {
                    Option::None => Option::Some((g, j)),
                    Option::Some((rest, k)) => Option::Some((g + rest, k)),
                }
            } else {
                Option::Some((g, j))
            }
        },
    }
}

/// A subgraph at `i`: an optional `subgraph` keyword with an optional
/// name, then a braced, recursively parsed statement list.
pub open spec fn sp_subgraph(t: Seq<SpannedView>, i: int) -> Option<(SubgraphView, int)>
    decreases t.len() - i, 1int,
{
    let (sid, j): (Option<IdView>, int) = if 0 <= i < t.len() && t[i].token is Subgraph {
        match sp_id(t, i + 1) {
            Option::Some((d, k)) => (Option::Some(d), k),
            Option::None => (Option::None, i + 1),
        }
    } else {
        (Option::None, i)
    };
    if i <= j < t.len() && t[j].token is OpenBrace {
        let (ss, k) = sp_stmts(t, j + 1);
        if k < t.len() && t[k].token is CloseBrace {
            Option::Some((SubgraphView { id: sid, statements: ss }, k + 1))
        } else {
            Option::None
        }
    } else {
        Option::None
    }
}

/// An edge endpoint at `i`: a node reference, or else a subgraph.
pub open spec fn sp_edge_target(t: Seq<SpannedView>, i: int) -> Option<(EdgeTargetView, int)>
    decreases t.len() - i, 2int,
{
    match sp_node_id(t, i) {
        Option::Some((n, j)) => Option::Some((EdgeTargetView::NodeId(n), j)),
        Option::None => match sp_subgraph(t, i) {
            Option::Some((g, j)) => Option::Some((EdgeTargetView::Subgraph(g), j)),
            Option::None => Option::None,
        },
    }
}

/// The tail of an edge chain at `i`: one or more `(operator, target)`
/// hops.
pub open spec fn sp_edge_rhs(t: Seq<SpannedView>, i: int) -> Option<
    (Seq<(EdgeOperation, EdgeTargetView)>, int),
>
    decreases t.len() - i, 3int,
{
    if 0 <= i < t.len() && (t[i].token is Arrow || t[i].token is DashDash) {
        let op = if t[i].token is Arrow {
            EdgeOperation::Arrow
        } else {
            EdgeOperation::DashDash
        };
        match sp_edge_target(t, i + 1) {
            Option::None => Option::None,
            Option::Some((tg, j)) => {
                // a target always consumes a token; the test keeps the
                // recursion well-founded
                if i < j <= t.len() {
                    match sp_edge_rhs(t, j) {
                        Option::None => Option::Some((seq![(op, tg)], j)),
                        Option::Some((rest, k)) => Option::Some((seq![(op, tg)] + rest, k)),
                    }
                } else {
                    Option::Some((seq![(op, tg)], j))
                }
            },
        }
    } else {
        Option::None
    }
}

/// An edge statement at `i`: a target, a non-empty chain of hops, and
/// optional trailing attribute groups for the whole chain.
pub open spec fn sp_edge_stmt(t: Seq<SpannedView>, i: int) -> Option<(StatementView, int)>
    decreases t.len() - i, 4int,
{
    match sp_edge_target(t, i) {
        Option::None => Option::None,
        Option::Some((from, j)) => {
            // a target always consumes a token; the test keeps the
            // recursion well-founded
            if i < j <= t.len() {
                match sp_edge_rhs(t, j) {
                    Option::None => Option::None,
                    Option::Some((hops, k)) => {
                        let (attrs, k2): (Seq<AttributeView>, int) = match sp_attr_list(t, k) {
                            Option::Some((a, m)) => (a, m),
                            Option::None => (Seq::empty(), k),
                        };
                        Option::Some(
                            (
                                StatementView::Edge(
                                    EdgeStatementView { attributes: attrs, edges: hops, from },
                                ),
                                k2,
                            ),
                        )
                    },
                }
            } else {
                Option::None
            }
        },
    }
}

/// An assignment at `i`: `identifier = identifier`.
pub open spec fn sp_assign(t: Seq<SpannedView>, i: int) -> Option<(StatementView, int)> {
    match sp_id(t, i) {
        Option::None => Option::None,
        Option::Some((k, j)) => {
            if j < t.len() && t[j].token is Equals {
                match sp_id(t, j + 1) {
                    Option::Some((v, e)) => Option::Some((StatementView::Assign(k, v), e)),
                    Option::None => Option::None,
                }
            } else {
                Option::None
            }
        },
    }
}

/// A node statement at `i`: a node reference with optional attribute
/// groups — the fallback form of a bare identifier.
pub open spec fn sp_node_stmt(t: Seq<SpannedView>, i: int) -> Option<(StatementView, int)> {
    match sp_node_id(t, i) {
        Option::None => Option::None,
        Option::Some((nid, j)) => {
            let (attrs, k): (Seq<AttributeView>, int) = match sp_attr_list(t, j) {
                Option::Some((a, m)) => (a, m),
                Option::None => (Seq::empty(), j),
            };
            Option::Some(
                (StatementView::Node(NodeStatementView { attributes: attrs, id: nid }), k),
            )
        },
    }
}

/// One statement at `i`, resolved by trying the five forms in fixed
/// priority order: attribute statement, edge statement, assignment,
/// subgraph, node statement.
pub open spec fn sp_stmt(t: Seq<SpannedView>, i: int) -> Option<(StatementView, int)>
    decreases t.len() - i, 5int,
{
    if 0 <= i < t.len() && (t[i].token is Graph || t[i].token is Node || t[i].token is Edge) {
        let target = if t[i].token is Graph {
            AttributeTarget::Graph
        } else if t[i].token is Node {
            AttributeTarget::Node
        } else {
            AttributeTarget::Edge
        };
        match sp_attr_list(t, i + 1) {
            Option::Some((attrs, j)) => Option::Some(
                (StatementView::Attr(AttributeStatementView { attributes: attrs, target }), j),
            ),
            Option::None => Option::None,
        }
    } else {
        match sp_edge_stmt(t, i) {
            Option::Some(r) => Option::Some(r),
            Option::None => match sp_assign(t, i) {
                Option::Some(r) => Option::Some(r),
                Option::None => match sp_subgraph(t, i) {
                    Option::Some((g, j)) => Option::Some((StatementView::Subgraph(g), j)),
                    Option::None => sp_node_stmt(t, i),
                },
            },
        }
    }
}

/// A statement list at `i`: zero or more statements, each followed by an
/// optional decorative `;`.
pub open spec fn sp_stmts(t: Seq<SpannedView>, i: int) -> (Seq<StatementView>, int)
    decreases t.len() - i, 6int,
{
    match sp_stmt(t, i) {
        Option::None => (Seq::empty(), i),
        Option::Some((s, j)) => {
            let j2: int = if j < t.len() && t[j].token is Semicolon {
                j + 1
            } else {
                j
            };
            // a statement always consumes a token; the test keeps the
            // recursion well-founded
            if i < j2 <= t.len() {
                let (rest, k) = sp_stmts(t, j2);
                (seq![s] + rest, k)
            } else {
                (seq![s], j2)
            }
        },
    }
}

/// The whole token sequence as one graph: optional `strict`, the
/// `graph`/`digraph` keyword, an optional name, a braced statement list,
/// and nothing after it. `Err` carries the kind of failure and the index
/// of the offending token (the sequence length for end of input).
pub open spec fn sp_graph(t: Seq<SpannedView>) -> Result<GraphView, (SyntaxErrorKind, int)> {
    let (strict, i): (bool, int) = if 0 < t.len() && t[0].token is Strict {
        (true, 1)
    } else {
        (false, 0)
    };
    if !(i < t.len() && (t[i].token is Graph || t[i].token is Digraph)) {
        Result::Err((SyntaxErrorKind::ExpectedGraph, i))
    } else {
        let kind = if t[i].token is Digraph {
            GraphKind::Digraph
        } else {
            GraphKind::Graph
        };
        let (gid, j): (Option<IdView>, int) = match sp_id(t, i + 1) {
            Option::Some((d, k)) => (Option::Some(d), k),
            Option::None => (Option::None, i + 1),
        };
        if !(j < t.len() && t[j].token is OpenBrace) {
            Result::Err((SyntaxErrorKind::ExpectedOpenBrace, j))
        } else {
            let (ss, k) = sp_stmts(t, j + 1);
            if !(k < t.len() && t[k].token is CloseBrace) {
                Result::Err((SyntaxErrorKind::ExpectedCloseBrace, k))
            } else if k + 1 != t.len() {
                Result::Err((SyntaxErrorKind::TrailingInput, k + 1))
            } else {
                Result::Ok(GraphView { id: gid, kind, statements: ss, strict })
            }
        }
    }
}

/// The whole front end on source bytes: tokenize, then parse. This is
/// the function [`parse`] is proved to implement.
pub open spec fn spec_parse(s: Seq<u8>) -> Result<GraphView, DiagnosticView> {
    match spec_lex(s) {
        Result::Err(e) => Result::Err(
            DiagnosticView { msg: lex_error_msg(e.kind), start: e.start, end: e.end },
        ),
        Result::Ok(toks) => match sp_graph(toks) {
            Result::Ok(g) => Result::Ok(g),
            Result::Err((k, p)) => {
                let (st, en): (int, int) = if 0 <= p < toks.len() {
                    (toks[p].start, toks[p].end)
                } else {
                    (s.len() as int, s.len() as int)
                };
                Result::Err(DiagnosticView { msg: syntax_error_msg(k), start: st, end: en })
            },
        },
    }
}

/// What [`parse`] guarantees of its result: success exactly when
/// [`spec_parse`] succeeds, with the very tree it describes; otherwise a
/// single diagnostic with the message and span it describes.
pub open spec fn parse_post(s: Seq<u8>, r: Result<Graph, Vec<ParseError>>) -> bool {
    match spec_parse(s) {
        Result::Ok(gv) => r matches Ok(g) && graph_view(g) == gv,
        Result::Err(d) => r matches Err(es) && es@.len() == 1 && es@[0].message@ == d.msg
            && es@[0].span.start == d.start && es@[0].span.end == d.end,
    }
}

/// Parsing is deterministic: any two results that [`parse`] may return
/// for the same source are structurally equal — the same tree, or the
/// same diagnostic.
pub proof fn lemma_parse_deterministic(
    s: Seq<u8>,
    r1: Result<Graph, Vec<ParseError>>,
    r2: Result<Graph, Vec<ParseError>>,
)
    requires
        parse_post(s, r1),
        parse_post(s, r2),
    ensures
        r1 is Ok <==> r2 is Ok,
        r1 matches Ok(g1) ==> r2 matches Ok(g2) && graph_view(g1) == graph_view(g2),
        r1 matches Err(e1) ==> r2 matches Err(e2) && e1@.len() == e2@.len() && e1@[0].message@
            == e2@[0].message@ && e1@[0].span.start == e2@[0].span.start && e1@[0].span.end
            == e2@[0].span.end,
{
}

/// Appending a statement on the right of a list appends its model.
proof fn lemma_stmts_view_push(ss: Seq<Statement>, s: Statement)
    ensures
        stmts_view(ss.push(s)) == stmts_view(ss) + seq![stmt_view(s)],
    decreases ss.len(),
{
    if ss.len() == 0 {
        assert(ss.push(s)[0] == s);
        assert(ss.push(s).drop_first() =~= Seq::<Statement>::empty());
        assert(ss =~= Seq::<Statement>::empty());
        assert(stmts_view(Seq::<Statement>::empty()) == Seq::<StatementView>::empty());
        assert(stmts_view(ss.push(s)) =~= stmts_view(ss) + seq![stmt_view(s)]);
    } else {
        lemma_stmts_view_push(ss.drop_first(), s);
        assert(ss.push(s)[0] == ss[0]);
        assert(ss.push(s).drop_first() =~= ss.drop_first().push(s));
        assert(stmts_view(ss.push(s)) =~= stmts_view(ss) + seq![stmt_view(s)]);
    }
}

/// Appending a hop on the right of an edge chain appends its model.
proof fn lemma_edges_view_push(es: Seq<(EdgeOperation, EdgeTarget)>, e: (EdgeOperation, EdgeTarget))
    ensures
        edges_view(es.push(e)) == edges_view(es) + seq![(e.0, edge_target_view(e.1))],
    decreases es.len(),
{
    if es.len() == 0 {
        assert(es.push(e)[0] == e);
        assert(es.push(e).drop_first() =~= Seq::<(EdgeOperation, EdgeTarget)>::empty());
        assert(es =~= Seq::<(EdgeOperation, EdgeTarget)>::empty());
        assert(edges_view(Seq::<(EdgeOperation, EdgeTarget)>::empty()) == Seq::<
            (EdgeOperation, EdgeTargetView),
        >::empty());
        assert(edges_view(es.push(e)) =~= edges_view(es) + seq![(e.0, edge_target_view(e.1))]);
    } else {
        lemma_edges_view_push(es.drop_first(), e);
        assert(es.push(e)[0] == es[0]);
        assert(es.push(e).drop_first() =~= es.drop_first().push(e));
        assert(edges_view(es.push(e)) =~= edges_view(es) + seq![(e.0, edge_target_view(e.1))]);
    }
}

/// Copies a byte word.
fn clone_bytes(w: &Vec<u8>) -> (r: Vec<u8>)
    ensures
        r@ == w@,
{
    let r = w.clone();
    proof {
        assert(r@ =~= w@);
    }
    r
}

/// Reads an identifier token at `i`.
fn parse_id(toks: &Vec<Spanned>, i: usize) -> (r: Option<(Id, usize)>)
    requires
        i <= toks.len(),
    ensures
        match r {
            Option::Some((id, j)) => sp_id(tokens_view(toks@), i as int) == Option::Some(
                (id@, j as int),
            ) && i < j <= toks.len(),
            Option::None => sp_id(tokens_view(toks@), i as int) is None,
        },
{
    if i < toks.len() {
        match &toks[i].token {
            Token::Ident(w) => Option::Some((Id::Ident(clone_bytes(w)), i + 1)),
            Token::Quoted(w) => Option::Some((Id::Quoted(clone_bytes(w)), i + 1)),
            Token::HtmlString(w) => Option::Some((Id::HtmlString(clone_bytes(w)), i + 1)),
            Token::Number(w) => Option::Some((Id::Number(clone_bytes(w)), i + 1)),
            _ => Option::None,
        }
    } else {
        Option::None
    }
}

/// Reads a port at `i`.
fn parse_port(toks: &Vec<Spanned>, i: usize) -> (r: Option<(Port, usize)>)
    requires
        i <= toks.len(),
    ensures
        match r {
            Option::Some((p, j)) => sp_port(tokens_view(toks@), i as int) == Option::Some(
                (p@, j as int),
            ) && i < j <= toks.len(),
            Option::None => sp_port(tokens_view(toks@), i as int) is None,
        },
{
    if i < toks.len() && matches!(&toks[i].token, Token::Colon) {
        match parse_id(toks, i + 1) {
            Option::None => Option::None,
            Option::Some((pid, j)) => {
                if j < toks.len() && matches!(&toks[j].token, Token::Colon) {
                    match parse_id(toks, j + 1) {
                        Option::Some((c, k)) => Option::Some(
                            (Port { compass: Option::Some(c), id: pid }, k),
                        ),
                        Option::None => Option::Some(
                            (Port { compass: Option::None, id: pid }, j),
                        ),
                    }
                } else {
                    Option::Some((Port { compass: Option::None, id: pid }, j))
                }
            },
        }
    } else {
        Option::None
    }
}

/// Reads a node reference at `i`.
fn parse_node_id(toks: &Vec<Spanned>, i: usize) -> (r: Option<(NodeId, usize)>)
    requires
        i <= toks.len(),
    ensures
        match r {
            Option::Some((n, j)) => sp_node_id(tokens_view(toks@), i as int) == Option::Some(
                (n@, j as int),
            ) && i < j <= toks.len(),
            Option::None => sp_node_id(tokens_view(toks@), i as int) is None,
        },
{
    match parse_id(toks, i) {
        Option::None => Option::None,
        Option::Some((id, j)) => match parse_port(toks, j) {
            Option::Some((p, k)) => Option::Some(
                (NodeId { id, port: Option::Some(p) }, k),
            ),
            Option::None => Option::Some((NodeId { id, port: Option::None }, j)),
        },
    }
}

/// Reads one attribute at `i`.
fn parse_attribute(toks: &Vec<Spanned>, i: usize) -> (r: Option<(Attribute, usize)>)
    requires
        i <= toks.len(),
    ensures
        match r {
            Option::Some((a, j)) => sp_attribute(tokens_view(toks@), i as int) == Option::Some(
                (a@, j as int),
            ) && i < j <= toks.len(),
            Option::None => sp_attribute(tokens_view(toks@), i as int) is None,
        },
{
    match parse_id(toks, i) {
        Option::None => Option::None,
        Option::Some((key, j)) => {
            let (value, j2): (Option<Id>, usize) = if j < toks.len() && matches!(
                &toks[j].token,
                Token::Equals,
            ) {
                match parse_id(toks, j + 1) {
                    Option::Some((v, k)) => (Option::Some(v), k),
                    Option::None => (Option::None, j),
                }
            } else {
                (Option::None, j)
            };
            let j3: usize = if j2 < toks.len() && matches!(
                &toks[j2].token,
                Token::Semicolon | Token::Comma,
            ) {
                j2 + 1
            } else {
                j2
            };
            Option::Some((Attribute { key, value }, j3))
        },
    }
}

/// Reads the attributes inside one bracket group.
fn parse_attrs(toks: &Vec<Spanned>, i: usize) -> (r: (Vec<Attribute>, usize))
    requires
        i <= toks.len(),
    ensures
        sp_attrs(tokens_view(toks@), i as int).0 == attrs_view(r.0@),
        sp_attrs(tokens_view(toks@), i as int).1 == r.1 as int,
        i <= r.1 <= toks.len(),
{
    let ghost t = tokens_view(toks@);
    let mut acc: Vec<Attribute> = Vec::new();
    let mut cur = i;
    proof {
        assert(attrs_view(acc@) =~= Seq::<AttributeView>::empty());
    }
    loop
        invariant
            i <= cur <= toks.len(),
            t == tokens_view(toks@),
            sp_attrs(t, i as int).0 == attrs_view(acc@) + sp_attrs(t, cur as int).0,
            sp_attrs(t, i as int).1 == sp_attrs(t, cur as int).1,
        decreases toks.len() - cur,
    {
        match parse_attribute(toks, cur) {
            Option::None => {
                proof {
                    assert(attrs_view(acc@) + Seq::<AttributeView>::empty() =~= attrs_view(acc@));
                }
                return (acc, cur);
            },
            Option::Some((a, j)) => {
                let ghost old_acc = acc@;
                let ghost av = a@;
                acc.push(a);
                proof {
                    assert(attrs_view(acc@) =~= attrs_view(old_acc) + seq![av]);
                    assert((attrs_view(old_acc) + seq![av]) + sp_attrs(t, j as int).0
                        =~= attrs_view(old_acc) + (seq![av] + sp_attrs(t, j as int).0));
                }
                cur = j;
            },
        }
    }
}

/// Reads one or more consecutive bracket groups.
fn parse_attr_list(toks: &Vec<Spanned>, i: usize) -> (r: Option<(Vec<Attribute>, usize)>)
    requires
        i <= toks.len(),
    ensures
        match r {
            Option::Some((attrs, j)) => sp_attr_list(tokens_view(toks@), i as int) == Option::Some(
                (attrs_view(attrs@), j as int),
            ) && i < j <= toks.len(),
            Option::None => sp_attr_list(tokens_view(toks@), i as int) is None,
        },
{
    let ghost t = tokens_view(toks@);
    match parse_attr_group(toks, i) {
        Option::None => Option::None,
        Option::Some((first, j0)) => {
            let mut acc = first;
            let mut cur = j0;
            loop
                invariant
                    i < cur <= toks.len(),
                    t == tokens_view(toks@),
                    sp_attr_list(t, i as int) == (match sp_attr_list(t, cur as int) {
                        Option::None => Option::Some((attrs_view(acc@), cur as int)),
                        Option::Some((rest, k)) => Option::Some((attrs_view(acc@) + rest, k)),
                    }),
                decreases toks.len() - cur,
            {
                match parse_attr_group(toks, cur) {
                    Option::None => {
                        return Option::Some((acc, cur));
                    },
                    Option::Some((mut g, j)) => {
                        let ghost old_acc = acc@;
                        let ghost gv = attrs_view(g@);
                        acc.append(&mut g);
                        proof {
                            assert(attrs_view(acc@) =~= attrs_view(old_acc) + gv);
                            match sp_attr_list(t, j as int) {
                                Option::Some((rest, k)) => {
                                    assert(attrs_view(old_acc) + (gv + rest) =~= attrs_view(acc@)
                                        + rest);
                                },
                                Option::None => {},
                            }
                        }
                        cur = j;
                    },
                }
            }
        },
    }
}

/// Reads one bracket group `[ attribute* ]` at `i`.
fn parse_attr_group(toks: &Vec<Spanned>, i: usize) -> (r: Option<(Vec<Attribute>, usize)>)
    requires
        i <= toks.len(),
    ensures
        match r {
            Option::Some((attrs, j)) => sp_attr_group(tokens_view(toks@), i as int)
                == Option::Some((attrs_view(attrs@), j as int)) && i < j <= toks.len(),
            Option::None => sp_attr_group(tokens_view(toks@), i as int) is None,
        },
{
    if i < toks.len() && matches!(&toks[i].token, Token::OpenBracket) {
        let (attrs, j) = parse_attrs(toks, i + 1);
        if j < toks.len() && matches!(&toks[j].token, Token::CloseBracket) {
            Option::Some((attrs, j + 1))
        } else {
            Option::None
        }
    } else {
        Option::None
    }
}

/// Reads a subgraph at `i`.
fn parse_subgraph(toks: &Vec<Spanned>, i: usize) -> (r: Option<(Subgraph, usize)>)
    requires
        i <= toks.len(),
    ensures
        match r {
            Option::Some((g, j)) => sp_subgraph(tokens_view(toks@), i as int) == Option::Some(
                (subgraph_view(g), j as int),
            ) && i < j <= toks.len(),
            Option::None => sp_subgraph(tokens_view(toks@), i as int) is None,
        },
    decreases toks.len() - i, 1int,
{
    let mut sid: Option<Id> = Option::None;
    let mut j = i;
    if i < toks.len() && matches!(&toks[i].token, Token::Subgraph) {
        match parse_id(toks, i + 1) {
            Option::Some((d, k)) => {
                sid = Option::Some(d);
                j = k;
            },
            Option::None => {
                j = i + 1;
            },
        }
    }
    if j < toks.len() && matches!(&toks[j].token, Token::OpenBrace) {
        let (ss, k) = parse_stmts(toks, j + 1);
        if k < toks.len() && matches!(&toks[k].token, Token::CloseBrace) {
            Option::Some((Subgraph { id: sid, statements: ss }, k + 1))
        } else {
            Option::None
        }
    } else {
        Option::None
    }
}

/// Reads an edge endpoint at `i`.
fn parse_edge_target(toks: &Vec<Spanned>, i: usize) -> (r: Option<(EdgeTarget, usize)>)
    requires
        i <= toks.len(),
    ensures
        match r {
            Option::Some((tg, j)) => sp_edge_target(tokens_view(toks@), i as int) == Option::Some(
                (edge_target_view(tg), j as int),
            ) && i < j <= toks.len(),
            Option::None => sp_edge_target(tokens_view(toks@), i as int) is None,
        },
    decreases toks.len() - i, 2int,
{
    match parse_node_id(toks, i) {
        Option::Some((n, j)) => Option::Some((EdgeTarget::NodeId(n), j)),
        Option::None => match parse_subgraph(toks, i) {
            Option::Some((g, j)) => Option::Some((EdgeTarget::Subgraph(g), j)),
            Option::None => Option::None,
        },
    }
}

/// Reads the tail of an edge chain at `i`: one or more hops.
fn parse_edge_rhs(toks: &Vec<Spanned>, i: usize) -> (r: Option<
    (Vec<(EdgeOperation, EdgeTarget)>, usize),
>)
    requires
        i <= toks.len(),
    ensures
        match r {
            Option::Some((hops, j)) => sp_edge_rhs(tokens_view(toks@), i as int) == Option::Some(
                (edges_view(hops@), j as int),
            ) && i < j <= toks.len(),
            Option::None => sp_edge_rhs(tokens_view(toks@), i as int) is None,
        },
    decreases toks.len() - i, 3int,
{
    let ghost t = tokens_view(toks@);
    if !(i < toks.len() && matches!(&toks[i].token, Token::Arrow | Token::DashDash)) {
        return Option::None;
    }
    let op = if matches!(&toks[i].token, Token::Arrow) {
        EdgeOperation::Arrow
    } else {
        EdgeOperation::DashDash
    };
    match parse_edge_target(toks, i + 1) {
        Option::None => Option::None,
        Option::Some((tg, j0)) => {
            let mut acc: Vec<(EdgeOperation, EdgeTarget)> = Vec::new();
            proof {
                assert(edges_view(acc@) =~= Seq::<(EdgeOperation, EdgeTargetView)>::empty());
                lemma_edges_view_push(acc@, (op, tg));
            }
            acc.push((op, tg));
            proof {
                assert(edges_view(acc@) =~= seq![(op, edge_target_view(tg))]);
            }
            let mut cur = j0;
            loop
                invariant
                    i < cur <= toks.len(),
                    t == tokens_view(toks@),
                    sp_edge_rhs(t, i as int) == (match sp_edge_rhs(t, cur as int) {
                        Option::None => Option::Some((edges_view(acc@), cur as int)),
                        Option::Some((rest, k)) => Option::Some((edges_view(acc@) + rest, k)),
                    }),
                decreases toks.len() - cur,
            {
                if !(cur < toks.len() && matches!(
                    &toks[cur].token,
                    Token::Arrow | Token::DashDash,
                )) {
                    proof {
                        assert(edges_view(acc@) + Seq::<
                            (EdgeOperation, EdgeTargetView),
                        >::empty() =~= edges_view(acc@));
                    }
                    return Option::Some((acc, cur));
                }
                let op2 = if matches!(&toks[cur].token, Token::Arrow) {
                    EdgeOperation::Arrow
                } else {
                    EdgeOperation::DashDash
                };
                match parse_edge_target(toks, cur + 1) {
                    Option::None => {
                        return Option::Some((acc, cur));
                    },
                    Option::Some((tg2, j2)) => {
                        let ghost old_acc = acc@;
                        let ghost hv = (op2, edge_target_view(tg2));
                        proof {
                            lemma_edges_view_push(acc@, (op2, tg2));
                        }
                        acc.push((op2, tg2));
                        proof {
                            match sp_edge_rhs(t, j2 as int) {
                                Option::Some((rest, k)) => {
                                    assert(edges_view(old_acc) + (seq![hv] + rest) =~= edges_view(
                                        acc@,
                                    ) + rest);
                                },
                                Option::None => {},
                            }
                        }
                        cur = j2;
                    },
                }
            }
        },
    }
}

/// Reads an edge statement at `i`.
fn parse_edge_stmt(toks: &Vec<Spanned>, i: usize) -> (r: Option<(Statement, usize)>)
    requires
        i <= toks.len(),
    ensures
        match r {
            Option::Some((st, j)) => sp_edge_stmt(tokens_view(toks@), i as int) == Option::Some(
                (stmt_view(st), j as int),
            ) && i < j <= toks.len(),
            Option::None => sp_edge_stmt(tokens_view(toks@), i as int) is None,
        },
    decreases toks.len() - i, 4int,
{
    match parse_edge_target(toks, i) {
        Option::None => Option::None,
        Option::Some((from, j)) => match parse_edge_rhs(toks, j) {
            Option::None => Option::None,
            Option::Some((hops, k)) => {
                let (attrs, k2): (Vec<Attribute>, usize) = match parse_attr_list(toks, k) {
                    Option::Some((a, m)) => (a, m),
                    Option::None => (Vec::new(), k),
                };
                proof {
                    assert(attrs_view(Seq::<Attribute>::empty()) =~= Seq::<
                        AttributeView,
                    >::empty());
                }
                Option::Some(
                    (
                        Statement::Edge(
                            EdgeStatement { attributes: attrs, edges: hops, from },
                        ),
                        k2,
                    ),
                )
            },
        },
    }
}

/// Reads an assignment at `i`.
fn parse_assign(toks: &Vec<Spanned>, i: usize) -> (r: Option<(Statement, usize)>)
    requires
        i <= toks.len(),
    ensures
        match r {
            Option::Some((st, j)) => sp_assign(tokens_view(toks@), i as int) == Option::Some(
                (stmt_view(st), j as int),
            ) && i < j <= toks.len(),
            Option::None => sp_assign(tokens_view(toks@), i as int) is None,
        },
{
    match parse_id(toks, i) {
        Option::None => Option::None,
        Option::Some((key, j)) => {
            if j < toks.len() && matches!(&toks[j].token, Token::Equals) {
                match parse_id(toks, j + 1) {
                    Option::Some((v, e)) => Option::Some((Statement::Assign(key, v), e)),
                    Option::None => Option::None,
                }
            } else {
                Option::None
            }
        },
    }
}

/// Reads a node statement at `i`.
fn parse_node_stmt(toks: &Vec<Spanned>, i: usize) -> (r: Option<(Statement, usize)>)
    requires
        i <= toks.len(),
    ensures
        match r {
            Option::Some((st, j)) => sp_node_stmt(tokens_view(toks@), i as int) == Option::Some(
                (stmt_view(st), j as int),
            ) && i < j <= toks.len(),
            Option::None => sp_node_stmt(tokens_view(toks@), i as int) is None,
        },
{
    match parse_node_id(toks, i) {
        Option::None => Option::None,
        Option::Some((nid, j)) => {
            let (attrs, k): (Vec<Attribute>, usize) = match parse_attr_list(toks, j) {
                Option::Some((a, m)) => (a, m),
                Option::None => (Vec::new(), j),
            };
            proof {
                assert(attrs_view(Seq::<Attribute>::empty()) =~= Seq::<AttributeView>::empty());
            }
            Option::Some(
                (Statement::Node(NodeStatement { attributes: attrs, id: nid }), k),
            )
        },
    }
}

/// Reads one statement at `i`, trying the five forms in priority order.
fn parse_stmt(toks: &Vec<Spanned>, i: usize) -> (r: Option<(Statement, usize)>)
    requires
        i <= toks.len(),
    ensures
        match r {
            Option::Some((st, j)) => sp_stmt(tokens_view(toks@), i as int) == Option::Some(
                (stmt_view(st), j as int),
            ) && i < j <= toks.len(),
            Option::None => sp_stmt(tokens_view(toks@), i as int) is None,
        },
    decreases toks.len() - i, 5int,
{
    if i < toks.len() && matches!(&toks[i].token, Token::Graph | Token::Node | Token::Edge) {
        let target = if matches!(&toks[i].token, Token::Graph) {
            AttributeTarget::Graph
        } else if matches!(&toks[i].token, Token::Node) {
            AttributeTarget::Node
        } else {
            AttributeTarget::Edge
        };
        match parse_attr_list(toks, i + 1) {
            Option::Some((attrs, j)) => Option::Some(
                (
                    Statement::Attr(AttributeStatement { attributes: attrs, target }),
                    j,
                ),
            ),
            Option::None => Option::None,
        }
    } else {
        match parse_edge_stmt(toks, i) {
            Option::Some(r) => Option::Some(r),
            Option::None => match parse_assign(toks, i) {
                Option::Some(r) => Option::Some(r),
                Option::None => match parse_subgraph(toks, i) {
                    Option::Some((g, j)) => Option::Some((Statement::Subgraph(g), j)),
                    Option::None => parse_node_stmt(toks, i),
                },
            },
        }
    }
}

/// Reads a statement list at `i`.
fn parse_stmts(toks: &Vec<Spanned>, i: usize) -> (r: (Vec<Statement>, usize))
    requires
        i <= toks.len(),
    ensures
        sp_stmts(tokens_view(toks@), i as int).0 == stmts_view(r.0@),
        sp_stmts(tokens_view(toks@), i as int).1 == r.1 as int,
        i <= r.1 <= toks.len(),
    decreases toks.len() - i, 6int,
{
    let ghost t = tokens_view(toks@);
    let mut acc: Vec<Statement> = Vec::new();
    let mut cur = i;
    proof {
        assert(stmts_view(acc@) =~= Seq::<StatementView>::empty());
    }
    loop
        invariant
            i <= cur <= toks.len(),
            t == tokens_view(toks@),
            sp_stmts(t, i as int).0 == stmts_view(acc@) + sp_stmts(t, cur as int).0,
            sp_stmts(t, i as int).1 == sp_stmts(t, cur as int).1,
        decreases toks.len() - cur,
    {
        match parse_stmt(toks, cur) {
            Option::None => {
                proof {
                    assert(stmts_view(acc@) + Seq::<StatementView>::empty() =~= stmts_view(acc@));
                }
                return (acc, cur);
            },
            Option::Some((s, j)) => {
                let j2: usize = if j < toks.len() && matches!(&toks[j].token, Token::Semicolon) {
                    j + 1
                } else {
                    j
                };
                let ghost old_acc = acc@;
                let ghost sv = stmt_view(s);
                proof {
                    lemma_stmts_view_push(acc@, s);
                }
                acc.push(s);
                proof {
                    assert((stmts_view(old_acc) + seq![sv]) + sp_stmts(t, j2 as int).0
                        =~= stmts_view(old_acc) + (seq![sv] + sp_stmts(t, j2 as int).0));
                }
                cur = j2;
            },
        }
    }
}

/// Reads the whole token sequence as one graph, or reports which of the
/// top-level expectations failed and at which token index.
fn parse_graph(toks: &Vec<Spanned>) -> (r: Result<Graph, (SyntaxErrorKind, usize)>)
    ensures
        match r {
            Result::Ok(g) => sp_graph(tokens_view(toks@)) == Result::<
                GraphView,
                (SyntaxErrorKind, int),
            >::Ok(graph_view(g)),
            Result::Err((k, p)) => sp_graph(tokens_view(toks@)) == Result::<
                GraphView,
                (SyntaxErrorKind, int),
            >::Err((k, p as int)) && p <= toks.len(),
        },
{
    let (strict, i): (bool, usize) = if toks.len() > 0 && matches!(&toks[0].token, Token::Strict) {
        (true, 1)
    } else {
        (false, 0)
    };
    if !(i < toks.len() && matches!(&toks[i].token, Token::Graph | Token::Digraph)) {
        return Result::Err((SyntaxErrorKind::ExpectedGraph, i));
    }
    let kind = if matches!(&toks[i].token, Token::Digraph) {
        GraphKind::Digraph
    } else {
        GraphKind::Graph
    };
    let (gid, j): (Option<Id>, usize) = match parse_id(toks, i + 1) {
        Option::Some((d, k)) => (Option::Some(d), k),
        Option::None => (Option::None, i + 1),
    };
    if !(j < toks.len() && matches!(&toks[j].token, Token::OpenBrace)) {
        return Result::Err((SyntaxErrorKind::ExpectedOpenBrace, j));
    }
    let (ss, k) = parse_stmts(toks, j + 1);
    if !(k < toks.len() && matches!(&toks[k].token, Token::CloseBrace)) {
        return Result::Err((SyntaxErrorKind::ExpectedCloseBrace, k));
    }
    if k + 1 != toks.len() {
        return Result::Err((SyntaxErrorKind::TrailingInput, k + 1));
    }
    Result::Ok(Graph { id: gid, kind, statements: ss, strict })
}

/// The diagnostic message for a grammatical error.
fn syntax_error_message(k: SyntaxErrorKind) -> (m: String)
    ensures
        m@ == syntax_error_msg(k),
{
    match k {
        SyntaxErrorKind::ExpectedGraph => "expected 'graph' or 'digraph'".to_owned(),
        SyntaxErrorKind::ExpectedOpenBrace => "expected '{'".to_owned(),
        SyntaxErrorKind::ExpectedCloseBrace => "expected '}'".to_owned(),
        SyntaxErrorKind::TrailingInput => "unexpected input after the closing '}'".to_owned(),
    }
}

/// Parses DOT source text into a syntax tree.
///
/// The input is tokenized and then parsed as a single graph. On success
/// the result is the tree that [`spec_parse`] describes for these bytes;
/// on failure it is a non-empty list of diagnostics, each with a message
/// and the byte span in the source where the problem lies. Lexical
/// diagnostics are reported without attempting to parse.
pub fn parse(src: &Vec<u8>) -> (r: Result<Graph, Vec<ParseError>>)
    ensures
        parse_post(src@, r),
{
    let toks = match lex(src) {
        Result::Err(es) => {
            return Result::Err(es);
        },
        Result::Ok(v) => v,
    };
    match parse_graph(&toks) {
        Result::Ok(g) => Result::Ok(g),
        Result::Err((k, p)) => {
            let (st, en): (usize, usize) = if p < toks.len() {
                (toks[p].start, toks[p].end)
            } else {
                (src.len(), src.len())
            };
            let message = syntax_error_message(k);
            let mut es: Vec<ParseError> = Vec::new();
            es.push(ParseError { message, span: st..en });
            Result::Err(es)
        },
    }
}

} // verus!
