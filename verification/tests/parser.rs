use network::{
    Attribute, AttributeStatement, AttributeTarget, EdgeOperation, EdgeStatement, EdgeTarget,
    Graph, GraphKind, Id, NodeId, NodeStatement, Port, Statement, Subgraph,
};

fn parse(input: &str) -> Graph {
    network::parse(&input.as_bytes().to_vec()).expect("parsing failed")
}

fn ident(name: &[u8]) -> Id {
    Id::Ident(name.to_vec())
}

#[test]
fn anonymous_subgraph() {
    let ast = parse("digraph { { a } }");

    assert!(matches!(
        &ast.statements[..],
        [Statement::Subgraph(Subgraph { id: None, statements })] if statements.len() == 1,
    ));
}

#[test]
fn assign_statement() {
    let ast = parse("digraph { label = \"hello\" }");

    assert_eq!(
        ast.statements,
        vec![Statement::Assign(ident(b"label"), Id::Quoted(b"hello".to_vec()))],
    );
}

#[test]
fn attr_statement() {
    let ast = parse("digraph { node [shape=circle] }");

    assert_eq!(
        ast.statements,
        vec![Statement::Attr(AttributeStatement {
            attributes: vec![Attribute {
                key: ident(b"shape"),
                value: Some(ident(b"circle")),
            }],
            target: AttributeTarget::Node,
        })],
    );
}

#[test]
fn edge_chain() {
    let ast = parse("digraph { a -> b -> c }");

    assert!(matches!(
        &ast.statements[..],
        [Statement::Edge(EdgeStatement { edges, .. })] if edges.len() == 2,
    ));
}

#[test]
fn edge_statement() {
    let ast = parse("digraph { a -> b }");

    assert_eq!(
        ast.statements,
        vec![Statement::Edge(EdgeStatement {
            attributes: vec![],
            edges: vec![(
                EdgeOperation::Arrow,
                EdgeTarget::NodeId(NodeId {
                    id: ident(b"b"),
                    port: None,
                }),
            )],
            from: EdgeTarget::NodeId(NodeId {
                id: ident(b"a"),
                port: None,
            }),
        })],
    );
}

#[test]
fn empty_digraph() {
    let ast = parse("digraph {}");

    assert_eq!(
        ast,
        Graph {
            id: None,
            kind: GraphKind::Digraph,
            statements: vec![],
            strict: false,
        },
    );
}

#[test]
fn empty_graph() {
    let ast = parse("graph {}");

    assert_eq!(
        ast,
        Graph {
            id: None,
            kind: GraphKind::Graph,
            statements: vec![],
            strict: false,
        },
    );
}

#[test]
fn named_graph() {
    let ast = parse("digraph G {}");

    assert_eq!(ast.id, Some(ident(b"G")));
}

#[test]
fn node_statement() {
    let ast = parse("digraph { a }");

    assert_eq!(
        ast.statements,
        vec![Statement::Node(NodeStatement {
            attributes: vec![],
            id: NodeId {
                id: ident(b"a"),
                port: None,
            },
        })],
    );
}

#[test]
fn node_with_attrs() {
    let ast = parse("digraph { a [color=red, shape=circle] }");

    assert_eq!(
        ast.statements,
        vec![Statement::Node(NodeStatement {
            attributes: vec![
                Attribute {
                    key: ident(b"color"),
                    value: Some(ident(b"red")),
                },
                Attribute {
                    key: ident(b"shape"),
                    value: Some(ident(b"circle")),
                },
            ],
            id: NodeId {
                id: ident(b"a"),
                port: None,
            },
        })],
    );
}

#[test]
fn port() {
    let ast = parse("digraph { a:p1 -> b:p2 }");

    assert!(matches!(
        &ast.statements[..],
        [Statement::Edge(EdgeStatement {
            from: EdgeTarget::NodeId(NodeId {
                port: Some(Port {
                    compass: None,
                    id: Id::Ident(p),
                }),
                ..
            }),
            ..
        })] if p.as_slice() == b"p1",
    ));
}

#[test]
fn port_with_compass() {
    let ast = parse("digraph { a:p1:n -> b }");

    assert!(matches!(
        &ast.statements[..],
        [Statement::Edge(EdgeStatement {
            from: EdgeTarget::NodeId(NodeId {
                port: Some(Port {
                    compass: Some(Id::Ident(c)),
                    id: Id::Ident(p),
                }),
                ..
            }),
            ..
        })] if p.as_slice() == b"p1" && c.as_slice() == b"n",
    ));
}

#[test]
fn semicolons() {
    let ast = parse("digraph { a; b; c; }");

    assert_eq!(ast.statements.len(), 3);
}

#[test]
fn strict_graph() {
    let ast = parse("strict digraph {}");

    assert!(ast.strict);
}

#[test]
fn subgraph() {
    let ast = parse("digraph { subgraph cluster_0 { a } }");

    assert!(matches!(
        &ast.statements[..],
        [Statement::Subgraph(Subgraph { id: Some(Id::Ident(n)), statements })]
            if n.as_slice() == b"cluster_0" && statements.len() == 1,
    ));
}

#[test]
fn undirected_edge() {
    let ast = parse("graph { a -- b }");

    assert!(matches!(
        &ast.statements[..],
        [Statement::Edge(EdgeStatement { edges, .. })] if edges[0].0 == EdgeOperation::DashDash,
    ));
}

#[test]
fn unterminated_graph() {
    let errors = network::parse(&b"digraph {".to_vec()).unwrap_err();
    assert!(!errors.is_empty());
    assert_eq!(errors[0].message, "expected '}'");
    assert_eq!(errors[0].span, 9..9);
}

#[test]
fn missing_graph_keyword() {
    let errors = network::parse(&b"strict {}".to_vec()).unwrap_err();
    assert_eq!(errors.len(), 1);
    assert_eq!(errors[0].message, "expected 'graph' or 'digraph'");
    assert_eq!(errors[0].span, 7..8);
}

#[test]
fn missing_open_brace() {
    let errors = network::parse(&b"digraph".to_vec()).unwrap_err();
    assert_eq!(errors[0].message, "expected '{'");
    assert_eq!(errors[0].span, 7..7);
}

#[test]
fn trailing_input() {
    let errors = network::parse(&b"digraph {} x".to_vec()).unwrap_err();
    assert_eq!(errors[0].message, "unexpected input after the closing '}'");
    assert_eq!(errors[0].span, 11..12);
}

#[test]
fn empty_input() {
    let errors = network::parse(&b"".to_vec()).unwrap_err();
    assert_eq!(errors[0].message, "expected 'graph' or 'digraph'");
    assert_eq!(errors[0].span, 0..0);
}

#[test]
fn lexical_error_reported_without_parsing() {
    let errors = network::parse(&b"digraph { @ }".to_vec()).unwrap_err();
    assert_eq!(errors.len(), 1);
    assert_eq!(errors[0].message, "illegal character");
    assert_eq!(errors[0].span, 10..11);
}

#[test]
fn parse_deterministic_on_success() {
    let first = parse("digraph G { a:p:n -> { b } [x=y]; graph [z] }");
    let second = parse("digraph G { a:p:n -> { b } [x=y]; graph [z] }");
    assert_eq!(first, second);
}

#[test]
fn parse_deterministic_on_failure() {
    let first = network::parse(&b"digraph { [".to_vec()).unwrap_err();
    let second = network::parse(&b"digraph { [".to_vec()).unwrap_err();
    let first: Vec<(String, std::ops::Range<usize>)> =
        first.into_iter().map(|e| (e.message, e.span)).collect();
    let second: Vec<(String, std::ops::Range<usize>)> =
        second.into_iter().map(|e| (e.message, e.span)).collect();
    assert_eq!(first, second);
}

#[test]
fn edge_with_subgraph_target() {
    let ast = parse("digraph { a -> { b } }");

    assert!(matches!(
        &ast.statements[..],
        [Statement::Edge(EdgeStatement { edges, .. })]
            if matches!(&edges[0].1, EdgeTarget::Subgraph(s) if s.statements.len() == 1),
    ));
}

#[test]
fn multiple_attribute_groups_concatenated() {
    let ast = parse("digraph { a [color=red][shape=circle] }");

    assert!(matches!(
        &ast.statements[..],
        [Statement::Node(NodeStatement { attributes, .. })] if attributes.len() == 2,
    ));
}

#[test]
fn attribute_separators() {
    let ast = parse("digraph { a [color=red; shape=circle,] }");

    assert!(matches!(
        &ast.statements[..],
        [Statement::Node(NodeStatement { attributes, .. })] if attributes.len() == 2,
    ));
}

#[test]
fn attribute_without_value() {
    let ast = parse("digraph { a [peripheries] }");

    assert_eq!(
        ast.statements,
        vec![Statement::Node(NodeStatement {
            attributes: vec![Attribute {
                key: ident(b"peripheries"),
                value: None,
            }],
            id: NodeId {
                id: ident(b"a"),
                port: None,
            },
        })],
    );
}

#[test]
fn edge_statement_attributes() {
    let ast = parse("digraph { a -> b [color=red] }");

    assert!(matches!(
        &ast.statements[..],
        [Statement::Edge(EdgeStatement { attributes, .. })] if attributes.len() == 1,
    ));
}

#[test]
fn graph_and_edge_attribute_targets() {
    let ast = parse("digraph { graph [x=y] edge [z] }");

    assert!(matches!(
        &ast.statements[..],
        [
            Statement::Attr(AttributeStatement { target: AttributeTarget::Graph, .. }),
            Statement::Attr(AttributeStatement { target: AttributeTarget::Edge, .. }),
        ],
    ));
}

#[test]
fn strict_keyword_case_insensitive() {
    let ast = parse("STRICT GRAPH {}");

    assert!(ast.strict);
    assert_eq!(ast.kind, GraphKind::Graph);
}

#[test]
fn quoted_and_html_identifiers() {
    let ast = parse("digraph { \"a b\" -> <x<y>z> }");

    assert!(matches!(
        &ast.statements[..],
        [Statement::Edge(EdgeStatement {
            from: EdgeTarget::NodeId(NodeId { id: Id::Quoted(q), .. }),
            edges,
            ..
        })] if q.as_slice() == b"a b"
            && matches!(
                &edges[0].1,
                EdgeTarget::NodeId(NodeId { id: Id::HtmlString(h), .. })
                    if h.as_slice() == b"x<y>z",
            ),
    ));
}

#[test]
fn number_identifier() {
    let ast = parse("digraph { 3.14 }");

    assert_eq!(
        ast.statements,
        vec![Statement::Node(NodeStatement {
            attributes: vec![],
            id: NodeId {
                id: Id::Number(b"3.14".to_vec()),
                port: None,
            },
        })],
    );
}
