//! Lexical tokens and their mathematical models.
//!
//! A token either is pure punctuation, a keyword, or carries the raw bytes
//! of the source substring that produced it (with the outer delimiters of
//! quoted and HTML-like strings stripped, and nothing unescaped).

use vstd::prelude::*;

verus! {

/// One lexical token of the DOT language.
///
/// `Quoted` holds the raw content between the two `"` delimiters;
/// `HtmlString` holds the raw content between the outermost `<` `>` pair;
/// `Ident` and `Number` hold the exact source text of the word.
#[derive(Clone, Debug, PartialEq, Eq)]
pub enum Token {
    Arrow,
    CloseBrace,
    CloseBracket,
    Colon,
    Comma,
    DashDash,
    Digraph,
    Edge,
    Equals,
    Graph,
    HtmlString(Vec<u8>),
    Ident(Vec<u8>),
    Node,
    Number(Vec<u8>),
    OpenBrace,
    OpenBracket,
    Quoted(Vec<u8>),
    Semicolon,
    Strict,
    Subgraph,
}

/// The model of a [`Token`]: the same shape over `Seq<u8>`.
pub enum TokenView {
    Arrow,
    CloseBrace,
    CloseBracket,
    Colon,
    Comma,
    DashDash,
    Digraph,
    Edge,
    Equals,
    Graph,
    HtmlString(Seq<u8>),
    Ident(Seq<u8>),
    Node,
    Number(Seq<u8>),
    OpenBrace,
    OpenBracket,
    Quoted(Seq<u8>),
    Semicolon,
    Strict,
    Subgraph,
}

impl View for Token {
    type V = TokenView;

    open spec fn view(&self) -> TokenView {
        match self {
            Token::Arrow => TokenView::Arrow,
            Token::CloseBrace => TokenView::CloseBrace,
            Token::CloseBracket => TokenView::CloseBracket,
            Token::Colon => TokenView::Colon,
            Token::Comma => TokenView::Comma,
            Token::DashDash => TokenView::DashDash,
            Token::Digraph => TokenView::Digraph,
            Token::Edge => TokenView::Edge,
            Token::Equals => TokenView::Equals,
            Token::Graph => TokenView::Graph,
            Token::HtmlString(s) => TokenView::HtmlString(s@),
            Token::Ident(s) => TokenView::Ident(s@),
            Token::Node => TokenView::Node,
            Token::Number(s) => TokenView::Number(s@),
            Token::OpenBrace => TokenView::OpenBrace,
            Token::OpenBracket => TokenView::OpenBracket,
            Token::Quoted(s) => TokenView::Quoted(s@),
            Token::Semicolon => TokenView::Semicolon,
            Token::Strict => TokenView::Strict,
            Token::Subgraph => TokenView::Subgraph,
        }
    }
}

/// A token together with the half-open byte range `[start, end)` of the
/// source text it was read from.
#[derive(Clone, Debug, PartialEq, Eq)]
pub struct Spanned {
    pub token: Token,
    pub start: usize,
    pub end: usize,
}

/// The model of a [`Spanned`] token.
pub struct SpannedView {
    pub token: TokenView,
    pub start: int,
    pub end: int,
}

impl View for Spanned {
    type V = SpannedView;

    open spec fn view(&self) -> SpannedView {
        SpannedView { token: self.token@, start: self.start as int, end: self.end as int }
    }
}

/// The model of a token sequence: each token with its span.
pub open spec fn tokens_view(tokens: Seq<Spanned>) -> Seq<SpannedView> {
    tokens.map_values(|t: Spanned| t@)
}

} // verus!
