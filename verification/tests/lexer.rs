use network::{lex, Token};

fn lex_tokens(input: &str) -> Vec<Token> {
    lex(&input.as_bytes().to_vec())
        .expect("lexing failed")
        .into_iter()
        .map(|spanned| spanned.token)
        .collect()
}

fn lex_one(input: &str) -> Token {
    let tokens = lex_tokens(input);
    assert_eq!(tokens.len(), 1);
    tokens.into_iter().next().unwrap()
}

#[test]
fn comments() {
    assert_eq!(lex_tokens("// foo\nbar"), vec![Token::Ident(b"bar".to_vec())]);
    assert_eq!(lex_tokens("/* foo */ bar"), vec![Token::Ident(b"bar".to_vec())]);
    assert_eq!(lex_tokens("/* foo\nbar */ baz"), vec![Token::Ident(b"baz".to_vec())]);
}

#[test]
fn edge_operators() {
    assert_eq!(lex_one("->"), Token::Arrow);
    assert_eq!(lex_one("--"), Token::DashDash);
}

#[test]
fn empty() {
    assert_eq!(lex_tokens(""), Vec::<Token>::new());
}

#[test]
fn error_on_invalid() {
    assert!(lex(&b"@".to_vec()).is_err());
}

#[test]
fn graph() {
    assert_eq!(
        lex_tokens("digraph { a -> b }"),
        vec![
            Token::Digraph,
            Token::OpenBrace,
            Token::Ident(b"a".to_vec()),
            Token::Arrow,
            Token::Ident(b"b".to_vec()),
            Token::CloseBrace,
        ],
    );
}

#[test]
fn html_strings() {
    fn case(input: &str, expected: &[u8]) {
        assert_eq!(lex_one(input), Token::HtmlString(expected.to_vec()));
    }

    case("<>", b"");
    case("<foo>", b"foo");
    case("<<b>foo</b>>", b"<b>foo</b>");
    case(
        "<<table><tr><td>foo</td></tr></table>>",
        b"<table><tr><td>foo</td></tr></table>",
    );
}

#[test]
fn identifiers() {
    fn case(input: &str, expected: &[u8]) {
        assert_eq!(lex_one(input), Token::Ident(expected.to_vec()));
    }

    case("foo", b"foo");
    case("_bar", b"_bar");
    case("a1", b"a1");
    case("node_name", b"node_name");
}

#[test]
fn keywords() {
    fn case(input: &str, expected: Token) {
        assert_eq!(lex_one(input), expected);
    }

    case("strict", Token::Strict);
    case("graph", Token::Graph);
    case("digraph", Token::Digraph);
    case("node", Token::Node);
    case("edge", Token::Edge);
    case("subgraph", Token::Subgraph);
}

#[test]
fn keywords_case_insensitive() {
    fn case(input: &str, expected: Token) {
        assert_eq!(lex_one(input), expected);
    }

    case("STRICT", Token::Strict);
    case("Graph", Token::Graph);
    case("DIGRAPH", Token::Digraph);
    case("NODE", Token::Node);
    case("Edge", Token::Edge);
    case("SUBGRAPH", Token::Subgraph);
}

#[test]
fn numbers() {
    fn case(input: &str, expected: &[u8]) {
        assert_eq!(lex_one(input), Token::Number(expected.to_vec()));
    }

    case("0", b"0");
    case("42", b"42");
    case("3.14", b"3.14");
    case(".5", b".5");
    case("-1", b"-1");
    case("-3.14", b"-3.14");
    case("-.5", b"-.5");
    case("1.", b"1.");
}

#[test]
fn punctuation() {
    assert_eq!(
        lex_tokens("{ } [ ] ; , = :"),
        vec![
            Token::OpenBrace,
            Token::CloseBrace,
            Token::OpenBracket,
            Token::CloseBracket,
            Token::Semicolon,
            Token::Comma,
            Token::Equals,
            Token::Colon,
        ],
    );
}

#[test]
fn strings() {
    fn case(input: &str, expected: &[u8]) {
        assert_eq!(lex_one(input), Token::Quoted(expected.to_vec()));
    }

    case(r#""""#, b"");
    case(r#""foo""#, b"foo");
    case(r#""foo bar""#, b"foo bar");
    case(r#""foo\"bar""#, br#"foo\"bar"#);
    case(r#""foo\\bar""#, br"foo\\bar");
}

#[test]
fn spans() {
    let spanned = lex(&b"a -> b".to_vec()).expect("lexing failed");
    let spans: Vec<(usize, usize)> = spanned.iter().map(|s| (s.start, s.end)).collect();
    assert_eq!(spans, vec![(0, 1), (2, 4), (5, 6)]);
}

#[test]
fn illegal_character_diagnostic() {
    let errors = lex(&b"a @ b".to_vec()).unwrap_err();
    assert_eq!(errors.len(), 1);
    assert_eq!(errors[0].message, "illegal character");
    assert_eq!(errors[0].span, 2..3);
}

#[test]
fn unterminated_string() {
    let errors = lex(&br#""abc"#.to_vec()).unwrap_err();
    assert_eq!(errors.len(), 1);
    assert_eq!(errors[0].message, "unterminated quoted string");
    assert_eq!(errors[0].span, 0..4);
}

#[test]
fn escape_consuming_end_of_input() {
    let errors = lex(&br#""abc\"#.to_vec()).unwrap_err();
    assert_eq!(errors[0].message, "unterminated quoted string");
}

#[test]
fn unclosed_html_string() {
    let errors = lex(&b"<a<b>".to_vec()).unwrap_err();
    assert_eq!(errors.len(), 1);
    assert_eq!(errors[0].message, "unclosed HTML string");
    assert_eq!(errors[0].span, 0..5);
}

#[test]
fn unterminated_block_comment() {
    let errors = lex(&b"/* foo".to_vec()).unwrap_err();
    assert_eq!(errors.len(), 1);
    assert_eq!(errors[0].message, "illegal character");
    assert_eq!(errors[0].span, 0..1);
}

#[test]
fn lone_minus_is_illegal() {
    let errors = lex(&b"-".to_vec()).unwrap_err();
    assert_eq!(errors[0].message, "illegal character");
    assert_eq!(errors[0].span, 0..1);
}

#[test]
fn lone_dot_is_illegal() {
    let errors = lex(&b".".to_vec()).unwrap_err();
    assert_eq!(errors[0].message, "illegal character");
}

#[test]
fn line_comment_at_end_of_input() {
    assert_eq!(lex_tokens("bar // foo"), vec![Token::Ident(b"bar".to_vec())]);
}
