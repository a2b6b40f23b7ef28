//! The tokenizer.
//!
//! [`lex`] turns raw source bytes into an ordered sequence of spanned
//! tokens, or a lexical diagnostic. Whitespace and the two comment forms
//! are skipped; every other byte must begin a token.
//!
//! The whole phase is specified by [`spec_lex`], a recursive function over
//! the byte sequence: the executable scanner is proved to return exactly
//! its value.

use vstd::prelude::*;

use crate::token::{Spanned, SpannedView, Token, TokenView, tokens_view};
use crate::ParseError;

verus! {

/// The kinds of lexical diagnostics.
#[derive(Clone, Copy, Debug, PartialEq, Eq)]
pub enum LexErrorKind {
    /// A byte that begins no token, comment or whitespace.
    IllegalCharacter,
    /// A quoted string whose closing `"` is missing.
    UnterminatedString,
    /// An HTML-like string whose angle brackets never balance.
    UnclosedHtml,
}

/// A lexical diagnostic: a kind and the byte span it points at.
#[derive(Clone, Copy, Debug, PartialEq, Eq)]
pub struct LexError {
    pub kind: LexErrorKind,
    pub start: usize,
    pub end: usize,
}

/// The model of a [`LexError`].
pub struct LexErrorView {
    pub kind: LexErrorKind,
    pub start: int,
    pub end: int,
}

impl View for LexError {
    type V = LexErrorView;

    open spec fn view(&self) -> LexErrorView {
        LexErrorView { kind: self.kind, start: self.start as int, end: self.end as int }
    }
}

/// The diagnostic message for each kind of lexical error.
pub open spec fn lex_error_msg(kind: LexErrorKind) -> Seq<char> {
    match kind {
        LexErrorKind::IllegalCharacter => "illegal character"@,
        LexErrorKind::UnterminatedString => "unterminated quoted string"@,
        LexErrorKind::UnclosedHtml => "unclosed HTML string"@,
    }
}

/// Whitespace: the ASCII blank characters, which separate tokens.
pub open spec fn is_ws(b: u8) -> bool {
    b == ' ' as u8 || 9 <= b && b <= 13
}

pub open spec fn is_digit(b: u8) -> bool {
    '0' as u8 <= b && b <= '9' as u8
}

pub open spec fn is_alpha(b: u8) -> bool {
    'a' as u8 <= b && b <= 'z' as u8 || 'A' as u8 <= b && b <= 'Z' as u8
}

/// A byte that may begin a bare identifier.
pub open spec fn is_ident_start(b: u8) -> bool {
    is_alpha(b) || b == '_' as u8
}

/// A byte that may continue a bare identifier.
pub open spec fn is_ident_cont(b: u8) -> bool {
    is_ident_start(b) || is_digit(b)
}

/// ASCII lower-casing of one byte.
pub open spec fn to_lower(b: u8) -> u8 {
    if 'A' as u8 <= b && b <= 'Z' as u8 {
        (b + 32) as u8
    } else {
        b
    }
}

/// ASCII lower-casing of a byte sequence.
pub open spec fn lower_seq(w: Seq<u8>) -> Seq<u8> {
    w.map_values(|b: u8| to_lower(b))
}

pub open spec fn kw_strict() -> Seq<u8> {
    seq!['s' as u8, 't' as u8, 'r' as u8, 'i' as u8, 'c' as u8, 't' as u8]
}

pub open spec fn kw_graph() -> Seq<u8> {
    seq!['g' as u8, 'r' as u8, 'a' as u8, 'p' as u8, 'h' as u8]
}

pub open spec fn kw_digraph() -> Seq<u8> {
    seq!['d' as u8, 'i' as u8, 'g' as u8, 'r' as u8, 'a' as u8, 'p' as u8, 'h' as u8]
}

pub open spec fn kw_node() -> Seq<u8> {
    seq!['n' as u8, 'o' as u8, 'd' as u8, 'e' as u8]
}

pub open spec fn kw_edge() -> Seq<u8> {
    seq!['e' as u8, 'd' as u8, 'g' as u8, 'e' as u8]
}

pub open spec fn kw_subgraph() -> Seq<u8> {
    seq!['s' as u8, 'u' as u8, 'b' as u8, 'g' as u8, 'r' as u8, 'a' as u8, 'p' as u8, 'h' as u8]
}

/// The token an identifier word becomes: one of the six reserved words,
/// compared case-insensitively, or a generic identifier that keeps its
/// original casing.
pub open spec fn classify_spec(w: Seq<u8>) -> TokenView {
    let l = lower_seq(w);
    if l == kw_strict() {
        TokenView::Strict
    } else if l == kw_graph() {
        TokenView::Graph
    } else if l == kw_digraph() {
        TokenView::Digraph
    } else if l == kw_node() {
        TokenView::Node
    } else if l == kw_edge() {
        TokenView::Edge
    } else if l == kw_subgraph() {
        TokenView::Subgraph
    } else {
        TokenView::Ident(w)
    }
}

/// The position just after the next newline at or after `i` (the end of a
/// line comment's text), or the end of input.
pub open spec fn line_end(s: Seq<u8>, i: int) -> int
    decreases s.len() - i,
{
    if i >= s.len() {
        s.len() as int
    } else if s[i] == '\n' as u8 {
        i + 1
    } else {
        line_end(s, i + 1)
    }
}

/// The position just after the next `*/` at or after `i` (the end of a
/// block comment), or `None` if the comment never closes.
pub open spec fn block_end(s: Seq<u8>, i: int) -> Option<int>
    decreases s.len() - i,
{
    if i + 2 > s.len() {
        Option::None
    } else if s[i] == '*' as u8 && s[i + 1] == '/' as u8 {
        Option::Some(i + 2)
    } else {
        block_end(s, i + 1)
    }
}

/// Skips whitespace and comments starting at `i`. `Ok` carries the first
/// significant position; `Err` carries the position of the `/` opening a
/// block comment that never closes.
pub open spec fn skip_trivia(s: Seq<u8>, i: int) -> Result<int, int>
    decreases s.len() - i,
{
    if i >= s.len() {
        Result::Ok(i)
    } else if is_ws(s[i]) {
        skip_trivia(s, i + 1)
    } else if s[i] == '/' as u8 && i + 1 < s.len() && s[i + 1] == '/' as u8 {
        let j = line_end(s, i + 2);
        // a line comment's end never lies before its start; the test keeps
        // the recursion well-founded
        if i + 2 <= j && j <= s.len() {
            skip_trivia(s, j)
        } else {
            Result::Ok(j)
        }
    } else if s[i] == '/' as u8 && i + 1 < s.len() && s[i + 1] == '*' as u8 {
        match block_end(s, i + 2) {
            Option::None => Result::Err(i),
            Option::Some(j) => {
                if i + 2 <= j && j <= s.len() {
                    skip_trivia(s, j)
                } else {
                    Result::Ok(j)
                }
            },
        }
    } else {
        Result::Ok(i)
    }
}

/// The end of the run of identifier bytes starting at `i`.
pub open spec fn ident_end(s: Seq<u8>, i: int) -> int
    decreases s.len() - i,
{
    if i < s.len() && is_ident_cont(s[i]) {
        ident_end(s, i + 1)
    } else {
        i
    }
}

/// The end of the run of digits starting at `i`.
pub open spec fn digits_end(s: Seq<u8>, i: int) -> int
    decreases s.len() - i,
{
    if i < s.len() && is_digit(s[i]) {
        digits_end(s, i + 1)
    } else {
        i
    }
}

/// Scans the body of a quoted string opened at `q`, from position `j`.
/// A backslash escapes the byte after it; no unescaping is performed.
pub open spec fn str_scan(s: Seq<u8>, q: int, j: int) -> Result<(TokenView, int), LexErrorView>
    decreases s.len() - j,
{
    if j >= s.len() {
        Result::Err(
            LexErrorView {
                kind: LexErrorKind::UnterminatedString,
                start: q,
                end: s.len() as int,
            },
        )
    } else if s[j] == '"' as u8 {
        Result::Ok((TokenView::Quoted(s.subrange(q + 1, j)), j + 1))
    } else if s[j] == '\\' as u8 {
        if j + 2 > s.len() {
            Result::Err(
                LexErrorView {
                    kind: LexErrorKind::UnterminatedString,
                    start: q,
                    end: s.len() as int,
                },
            )
        } else {
            str_scan(s, q, j + 2)
        }
    } else {
        str_scan(s, q, j + 1)
    }
}

/// Scans the body of an HTML-like string opened at `h`, from position `j`
/// with `depth` angle brackets currently open. The literal ends when the
/// depth returns to zero.
pub open spec fn html_scan(s: Seq<u8>, h: int, j: int, depth: int) -> Result<
    (TokenView, int),
    LexErrorView,
>
    decreases s.len() - j,
{
    if j >= s.len() {
        Result::Err(
            LexErrorView { kind: LexErrorKind::UnclosedHtml, start: h, end: s.len() as int },
        )
    } else if s[j] == '<' as u8 {
        html_scan(s, h, j + 1, depth + 1)
    } else if s[j] == '>' as u8 {
        if depth <= 1 {
            Result::Ok((TokenView::HtmlString(s.subrange(h + 1, j)), j + 1))
        } else {
            html_scan(s, h, j + 1, depth - 1)
        }
    } else {
        html_scan(s, h, j + 1, depth)
    }
}

/// Scans a numeric literal at `i`: an optional minus, then either a dot
/// followed by digits, or digits with an optional dot and further optional
/// digits. The text is kept verbatim.
pub open spec fn number_token(s: Seq<u8>, i: int) -> Result<(TokenView, int), LexErrorView> {
    let j = if s[i] == '-' as u8 {
        i + 1
    } else {
        i
    };
    if j < s.len() && s[j] == '.' as u8 {
        if j + 1 < s.len() && is_digit(s[j + 1]) {
            let e = digits_end(s, j + 1);
            Result::Ok((TokenView::Number(s.subrange(i, e)), e))
        } else {
            Result::Err(
                LexErrorView { kind: LexErrorKind::IllegalCharacter, start: i, end: i + 1 },
            )
        }
    } else if j < s.len() && is_digit(s[j]) {
        let e = digits_end(s, j);
        if e < s.len() && s[e] == '.' as u8 {
            let e2 = digits_end(s, e + 1);
            Result::Ok((TokenView::Number(s.subrange(i, e2)), e2))
        } else {
            Result::Ok((TokenView::Number(s.subrange(i, e)), e))
        }
    } else {
        Result::Err(LexErrorView { kind: LexErrorKind::IllegalCharacter, start: i, end: i + 1 })
    }
}

/// The token beginning at the significant position `i`, or a lexical
/// error. The two-byte edge operators are matched before numbers, so
/// `--` and `->` never begin a numeric literal.
pub open spec fn next_token(s: Seq<u8>, i: int) -> Result<(TokenView, int), LexErrorView> {
    let b = s[i];
    if b == '-' as u8 {
        if i + 1 < s.len() && s[i + 1] == '>' as u8 {
            Result::Ok((TokenView::Arrow, i + 2))
        } else if i + 1 < s.len() && s[i + 1] == '-' as u8 {
            Result::Ok((TokenView::DashDash, i + 2))
        } else {
            number_token(s, i)
        }
    } else if is_digit(b) || b == '.' as u8 {
        number_token(s, i)
    } else if b == '"' as u8 {
        str_scan(s, i, i + 1)
    } else if b == '<' as u8 {
        html_scan(s, i, i + 1, 1)
    } else if is_ident_start(b) {
        let e = ident_end(s, i + 1);
        Result::Ok((classify_spec(s.subrange(i, e)), e))
    } else if b == '{' as u8 {
        Result::Ok((TokenView::OpenBrace, i + 1))
    } else if b == '}' as u8 {
        Result::Ok((TokenView::CloseBrace, i + 1))
    } else if b == '[' as u8 {
        Result::Ok((TokenView::OpenBracket, i + 1))
    } else if b == ']' as u8 {
        Result::Ok((TokenView::CloseBracket, i + 1))
    } else if b == ';' as u8 {
        Result::Ok((TokenView::Semicolon, i + 1))
    } else if b == ',' as u8 {
        Result::Ok((TokenView::Comma, i + 1))
    } else if b == '=' as u8 {
        Result::Ok((TokenView::Equals, i + 1))
    } else if b == ':' as u8 {
        Result::Ok((TokenView::Colon, i + 1))
    } else {
        Result::Err(LexErrorView { kind: LexErrorKind::IllegalCharacter, start: i, end: i + 1 })
    }
}

/// The token sequence of `s` from position `i` on, or the first lexical
/// error.
pub open spec fn lex_from(s: Seq<u8>, i: int) -> Result<Seq<SpannedView>, LexErrorView>
    decreases s.len() - i,
{
    match skip_trivia(s, i) {
        Result::Err(p) => Result::Err(
            LexErrorView { kind: LexErrorKind::IllegalCharacter, start: p, end: p + 1 },
        ),
        Result::Ok(j) => {
            if j >= s.len() {
                Result::Ok(Seq::empty())
            } else {
                match next_token(s, j) {
                    Result::Err(e) => Result::Err(e),
                    Result::Ok((t, e)) => {
                        // a token always ends past the position the scan
                        // started from; the test keeps the recursion
                        // well-founded
                        if i < e && e <= s.len() {
                            match lex_from(s, e) {
                                Result::Err(err) => Result::Err(err),
                                Result::Ok(rest) => Result::Ok(
                                    seq![SpannedView { token: t, start: j, end: e }] + rest,
                                ),
                            }
                        } else {
                            Result::Ok(Seq::empty())
                        }
                    },
                }
            }
        },
    }
}

/// The full tokenization of `s`: what [`lex`] returns.
pub open spec fn spec_lex(s: Seq<u8>) -> Result<Seq<SpannedView>, LexErrorView> {
    lex_from(s, 0)
}

/// Every byte of `s[i..j]` is a decimal digit.
pub open spec fn all_digits(s: Seq<u8>, i: int, j: int) -> bool {
    forall|k: int| i <= k < j ==> is_digit(#[trigger] s[k])
}

/// `s` is one of the accepted numeric literal forms: an optional leading
/// minus, then either a dot followed by digits, or digits with an
/// optional dot and optional further digits.
pub open spec fn is_number_lit(s: Seq<u8>) -> bool {
    let b: int = if s.len() > 0 && s[0] == '-' as u8 {
        1
    } else {
        0
    };
    ||| (b < s.len() && s[b] == '.' as u8 && b + 1 < s.len() && all_digits(s, b + 1, s.len() as int))
    ||| (b < s.len() && all_digits(s, b, s.len() as int))
    ||| (exists|d: int|
        b < d < s.len() && s[d] == '.' as u8 && all_digits(s, b, d) && all_digits(
            s,
            d + 1,
            s.len() as int,
        ))
}

/// A run of digits ends exactly where the digits end.
proof fn lemma_digits_run(s: Seq<u8>, i: int, j: int)
    requires
        0 <= i <= j <= s.len(),
        all_digits(s, i, j),
        j == s.len() || !is_digit(s[j]),
    ensures
        digits_end(s, i) == j,
    decreases j - i,
{
    if i < j {
        lemma_digits_run(s, i + 1, j);
    }
}

/// Every accepted numeric literal lexes to exactly one number token
/// whose text is the input itself, spanning the whole input.
pub proof fn lemma_number_literal_lexes(s: Seq<u8>)
    requires
        is_number_lit(s),
    ensures
        spec_lex(s) == Result::<Seq<SpannedView>, LexErrorView>::Ok(
            seq![
                SpannedView { token: TokenView::Number(s), start: 0, end: s.len() as int },
            ],
        ),
{
    let n = s.len() as int;
    let b: int = if s.len() > 0 && s[0] == '-' as u8 {
        1
    } else {
        0
    };
    assert(s.len() > 0);
    assert(!is_ws(s[0]) && s[0] != '/' as u8);
    assert(skip_trivia(s, 0) == Result::<int, int>::Ok(0));
    // the literal scans as one number token covering all of s
    if b < n && s[b] == '.' as u8 && b + 1 < n && all_digits(s, b + 1, n) {
        lemma_digits_run(s, b + 1, n);
        assert(digits_end(s, b + 1) == n);
    } else if b < n && all_digits(s, b, n) {
        lemma_digits_run(s, b, n);
        assert(digits_end(s, b) == n);
    } else {
        let d = choose|d: int|
            b < d < n && s[d] == '.' as u8 && all_digits(s, b, d) && all_digits(s, d + 1, n);
        lemma_digits_run(s, b, d);
        lemma_digits_run(s, d + 1, n);
        assert(digits_end(s, b) == d);
        assert(digits_end(s, d + 1) == n);
    }
    assert(s.subrange(0, n) =~= s);
    assert(number_token(s, 0) == Result::<(TokenView, int), LexErrorView>::Ok(
        (TokenView::Number(s), n),
    ));
    assert(next_token(s, 0) == Result::<(TokenView, int), LexErrorView>::Ok(
        (TokenView::Number(s), n),
    ));
    // nothing follows the token
    assert(skip_trivia(s, n) == Result::<int, int>::Ok(n));
    assert(lex_from(s, n) == Result::<Seq<SpannedView>, LexErrorView>::Ok(
        Seq::<SpannedView>::empty(),
    ));
    assert(seq![SpannedView { token: TokenView::Number(s), start: 0, end: n }]
        + Seq::<SpannedView>::empty() =~= seq![
        SpannedView { token: TokenView::Number(s), start: 0, end: n },
    ]);
}

/// Every byte of `s[i..j]` may continue a bare identifier.
pub open spec fn all_ident_cont(s: Seq<u8>, i: int, j: int) -> bool {
    forall|k: int| i <= k < j ==> is_ident_cont(#[trigger] s[k])
}

/// A run of identifier bytes ends exactly where it stops.
proof fn lemma_ident_run(s: Seq<u8>, i: int, j: int)
    requires
        0 <= i <= j <= s.len(),
        all_ident_cont(s, i, j),
        j == s.len() || !is_ident_cont(s[j]),
    ensures
        ident_end(s, i) == j,
    decreases j - i,
{
    if i < j {
        lemma_ident_run(s, i + 1, j);
    }
}

/// An identifier-shaped word lexes to exactly one token spanning the
/// whole input: the token that [`classify_spec`] assigns to the word.
pub proof fn lemma_identifier_word_lexes(s: Seq<u8>)
    requires
        s.len() > 0,
        is_ident_start(s[0]),
        all_ident_cont(s, 1, s.len() as int),
    ensures
        spec_lex(s) == Result::<Seq<SpannedView>, LexErrorView>::Ok(
            seq![
                SpannedView { token: classify_spec(s), start: 0, end: s.len() as int },
            ],
        ),
{
    let n = s.len() as int;
    assert(!is_ws(s[0]) && s[0] != '/' as u8);
    assert(skip_trivia(s, 0) == Result::<int, int>::Ok(0));
    lemma_ident_run(s, 1, n);
    assert(ident_end(s, 1) == n);
    assert(s.subrange(0, n) =~= s);
    assert(!is_digit(s[0]) && s[0] != '.' as u8 && s[0] != '-' as u8 && s[0] != '"' as u8 && s[0]
        != '<' as u8);
    assert(next_token(s, 0) == Result::<(TokenView, int), LexErrorView>::Ok(
        (classify_spec(s), n),
    ));
    assert(skip_trivia(s, n) == Result::<int, int>::Ok(n));
    assert(lex_from(s, n) == Result::<Seq<SpannedView>, LexErrorView>::Ok(
        Seq::<SpannedView>::empty(),
    ));
    assert(seq![SpannedView { token: classify_spec(s), start: 0, end: n }]
        + Seq::<SpannedView>::empty() =~= seq![
        SpannedView { token: classify_spec(s), start: 0, end: n },
    ]);
}

/// Keyword recognition is case-insensitive: a word becomes one of the
/// six keyword tokens exactly when its ASCII lower-casing is that
/// reserved word; every other word stays a generic identifier that keeps
/// its original casing.
pub proof fn lemma_keyword_case_insensitive(w: Seq<u8>)
    ensures
        classify_spec(w) is Strict <==> lower_seq(w) == kw_strict(),
        classify_spec(w) is Graph <==> lower_seq(w) == kw_graph(),
        classify_spec(w) is Digraph <==> lower_seq(w) == kw_digraph(),
        classify_spec(w) is Node <==> lower_seq(w) == kw_node(),
        classify_spec(w) is Edge <==> lower_seq(w) == kw_edge(),
        classify_spec(w) is Subgraph <==> lower_seq(w) == kw_subgraph(),
        lower_seq(w) != kw_strict() && lower_seq(w) != kw_graph() && lower_seq(w) != kw_digraph()
            && lower_seq(w) != kw_node() && lower_seq(w) != kw_edge() && lower_seq(w)
            != kw_subgraph() ==> classify_spec(w) == TokenView::Ident(w),
{
    assert(kw_node()[0] == 'n' as u8 && kw_edge()[0] == 'e' as u8);
    assert(kw_strict().len() == 6 && kw_graph().len() == 5 && kw_digraph().len() == 7
        && kw_node().len() == 4 && kw_edge().len() == 4 && kw_subgraph().len() == 8);
}

/// Copies the bytes `src[i..j]` into a fresh vector.
fn copy_range(src: &Vec<u8>, i: usize, j: usize) -> (out: Vec<u8>)
    requires
        i <= j && j <= src.len(),
    ensures
        out@ == src@.subrange(i as int, j as int),
{
    let mut out: Vec<u8> = Vec::new();
    let mut k = i;
    while k < j
        invariant
            i <= k && k <= j && j <= src.len(),
            out@ == src@.subrange(i as int, k as int),
        decreases j - k,
    {
        out.push(src[k]);
        proof {
            assert(src@.subrange(i as int, k + 1) =~= src@.subrange(i as int, k as int).push(
                src@[k as int],
            ));
        }
        k = k + 1;
    }
    proof {
        assert(out@ =~= src@.subrange(i as int, j as int));
    }
    out
}

/// ASCII lower-casing of one byte.
fn to_lower_byte(b: u8) -> (r: u8)
    ensures
        r == to_lower(b),
{
    if 'A' as u8 <= b && b <= 'Z' as u8 {
        b + 32
    } else {
        b
    }
}

/// ASCII lower-casing of a word.
fn lower_bytes(w: &Vec<u8>) -> (out: Vec<u8>)
    ensures
        out@ == lower_seq(w@),
{
    let mut out: Vec<u8> = Vec::new();
    let mut k: usize = 0;
    while k < w.len()
        invariant
            k <= w.len(),
            out@.len() == k as int,
            forall|m: int| 0 <= m < k ==> out@[m] == to_lower(w@[m]),
        decreases w.len() - k,
    {
        out.push(to_lower_byte(w[k]));
        k = k + 1;
    }
    proof {
        assert(out@ =~= lower_seq(w@));
    }
    out
}

/// Turns an identifier word into its token: a keyword, matched
/// case-insensitively, or a generic identifier keeping its casing.
fn classify_word(w: Vec<u8>) -> (t: Token)
    ensures
        t@ == classify_spec(w@),
{
    let l = lower_bytes(&w);
    let n = l.len();
    if n == 6 && l[0] == 's' as u8 && l[1] == 't' as u8 && l[2] == 'r' as u8 && l[3] == 'i' as u8
        && l[4] == 'c' as u8 && l[5] == 't' as u8 {
        proof {
            assert(lower_seq(w@) =~= kw_strict());
        }
        Token::Strict
    } else if n == 5 && l[0] == 'g' as u8 && l[1] == 'r' as u8 && l[2] == 'a' as u8 && l[3]
        == 'p' as u8 && l[4] == 'h' as u8 {
        proof {
            assert(lower_seq(w@) =~= kw_graph());
        }
        Token::Graph
    } else if n == 7 && l[0] == 'd' as u8 && l[1] == 'i' as u8 && l[2] == 'g' as u8 && l[3]
        == 'r' as u8 && l[4] == 'a' as u8 && l[5] == 'p' as u8 && l[6] == 'h' as u8 {
        proof {
            assert(lower_seq(w@) =~= kw_digraph());
        }
        Token::Digraph
    } else if n == 4 && l[0] == 'n' as u8 && l[1] == 'o' as u8 && l[2] == 'd' as u8 && l[3]
        == 'e' as u8 {
        proof {
            assert(lower_seq(w@) =~= kw_node());
        }
        Token::Node
    } else if n == 4 && l[0] == 'e' as u8 && l[1] == 'd' as u8 && l[2] == 'g' as u8 && l[3]
        == 'e' as u8 {
        proof {
            assert(lower_seq(w@) =~= kw_edge());
        }
        Token::Edge
    } else if n == 8 && l[0] == 's' as u8 && l[1] == 'u' as u8 && l[2] == 'b' as u8 && l[3]
        == 'g' as u8 && l[4] == 'r' as u8 && l[5] == 'a' as u8 && l[6] == 'p' as u8 && l[7]
        == 'h' as u8 {
        proof {
            assert(lower_seq(w@) =~= kw_subgraph());
        }
        Token::Subgraph
    } else {
        proof {
            let lw = lower_seq(w@);
            assert(lw.len() == w@.len());
            assert(lw != kw_strict() && lw != kw_graph() && lw != kw_digraph() && lw != kw_node()
                && lw != kw_edge() && lw != kw_subgraph());
        }
        Token::Ident(w)
    }
}

/// Finds [`line_end`]: the position just after the next newline.
fn scan_line_end(src: &Vec<u8>, i: usize) -> (r: usize)
    requires
        i <= src.len(),
    ensures
        r as int == line_end(src@, i as int),
        i <= r && r <= src.len(),
{
    let mut k = i;
    while k < src.len() && src[k] != '\n' as u8
        invariant
            i <= k && k <= src.len(),
            line_end(src@, i as int) == line_end(src@, k as int),
        decreases src.len() - k,
    {
        k = k + 1;
    }
    if k < src.len() {
        k + 1
    } else {
        k
    }
}

/// Finds [`block_end`]: the position just after the next `*/`.
fn scan_block_end(src: &Vec<u8>, i: usize) -> (r: Option<usize>)
    requires
        i <= src.len(),
    ensures
        match r {
            Option::Some(j) => block_end(src@, i as int) == Option::Some(j as int) && i + 2 <= j
                && j <= src.len(),
            Option::None => block_end(src@, i as int) is None,
        },
{
    let mut k = i;
    loop
        invariant
            i <= k && k <= src.len(),
            block_end(src@, i as int) == block_end(src@, k as int),
        decreases src.len() - k,
    {
        if src.len() - k < 2 {
            return Option::None;
        }
        if src[k] == '*' as u8 && src[k + 1] == '/' as u8 {
            return Option::Some(k + 2);
        }
        k = k + 1;
    }
}

/// Skips whitespace and comments: the executable form of [`skip_trivia`].
fn scan_trivia(src: &Vec<u8>, i: usize) -> (r: Result<usize, usize>)
    requires
        i <= src.len(),
    ensures
        match r {
            Result::Ok(j) => skip_trivia(src@, i as int) == Result::<int, int>::Ok(j as int) && i
                <= j && j <= src.len(),
            Result::Err(p) => skip_trivia(src@, i as int) == Result::<int, int>::Err(p as int) && i
                <= p && p < src.len(),
        },
{
    let mut k = i;
    loop
        invariant
            i <= k && k <= src.len(),
            skip_trivia(src@, i as int) == skip_trivia(src@, k as int),
        decreases src.len() - k,
    {
        if k >= src.len() {
            return Result::Ok(k);
        }
        let b = src[k];
        if b == ' ' as u8 || 9 <= b && b <= 13 {
            k = k + 1;
        } else if b == '/' as u8 && k + 1 < src.len() && src[k + 1] == '/' as u8 {
            k = scan_line_end(src, k + 2);
        } else if b == '/' as u8 && k + 1 < src.len() && src[k + 1] == '*' as u8 {
            match scan_block_end(src, k + 2) {
                Option::None => {
                    return Result::Err(k);
                },
                Option::Some(j) => {
                    k = j;
                },
            }
        } else {
            return Result::Ok(k);
        }
    }
}

/// Finds [`ident_end`]: the end of the identifier run starting at `i`.
fn scan_ident_end(src: &Vec<u8>, i: usize) -> (r: usize)
    requires
        i <= src.len(),
    ensures
        r as int == ident_end(src@, i as int),
        i <= r && r <= src.len(),
{
    let mut k = i;
    while k < src.len() && (is_ident_cont_x(src[k]))
        invariant
            i <= k && k <= src.len(),
            ident_end(src@, i as int) == ident_end(src@, k as int),
        decreases src.len() - k,
    {
        k = k + 1;
    }
    k
}

/// Whether `b` may continue a bare identifier.
fn is_ident_cont_x(b: u8) -> (r: bool)
    ensures
        r == is_ident_cont(b),
{
    'a' as u8 <= b && b <= 'z' as u8 || 'A' as u8 <= b && b <= 'Z' as u8 || b == '_' as u8 || '0' as u8
        <= b && b <= '9' as u8
}

/// Finds [`digits_end`]: the end of the digit run starting at `i`.
fn scan_digits_end(src: &Vec<u8>, i: usize) -> (r: usize)
    requires
        i <= src.len(),
    ensures
        r as int == digits_end(src@, i as int),
        i <= r && r <= src.len(),
{
    let mut k = i;
    while k < src.len() && '0' as u8 <= src[k] && src[k] <= '9' as u8
        invariant
            i <= k && k <= src.len(),
            digits_end(src@, i as int) == digits_end(src@, k as int),
        decreases src.len() - k,
    {
        k = k + 1;
    }
    k
}

/// Scans a quoted string literal whose opening `"` stands at `q`.
fn scan_quoted(src: &Vec<u8>, q: usize) -> (r: Result<(Token, usize), LexError>)
    requires
        q < src.len(),
    ensures
        match r {
            Result::Ok((t, e)) => str_scan(src@, q as int, q + 1) == Result::<
                (TokenView, int),
                LexErrorView,
            >::Ok((t@, e as int)) && q < e && e <= src.len(),
            Result::Err(err) => str_scan(src@, q as int, q + 1) == Result::<
                (TokenView, int),
                LexErrorView,
            >::Err(err@),
        },
{
    let mut j = q + 1;
    loop
        invariant
            q + 1 <= j && j <= src.len(),
            str_scan(src@, q as int, q + 1) == str_scan(src@, q as int, j as int),
        decreases src.len() - j,
    {
        if j >= src.len() {
            return Result::Err(
                LexError { kind: LexErrorKind::UnterminatedString, start: q, end: src.len() },
            );
        }
        let b = src[j];
        if b == '"' as u8 {
            let content = copy_range(src, q + 1, j);
            return Result::Ok((Token::Quoted(content), j + 1));
        } else if b == '\\' as u8 {
            if src.len() - j < 2 {
                return Result::Err(
                    LexError { kind: LexErrorKind::UnterminatedString, start: q, end: src.len() },
                );
            }
            j = j + 2;
        } else {
            j = j + 1;
        }
    }
}

/// Scans an HTML-like string literal whose opening `<` stands at `h`.
fn scan_html(src: &Vec<u8>, h: usize) -> (r: Result<(Token, usize), LexError>)
    requires
        h < src.len(),
    ensures
        match r {
            Result::Ok((t, e)) => html_scan(src@, h as int, h + 1, 1) == Result::<
                (TokenView, int),
                LexErrorView,
            >::Ok((t@, e as int)) && h < e && e <= src.len(),
            Result::Err(err) => html_scan(src@, h as int, h + 1, 1) == Result::<
                (TokenView, int),
                LexErrorView,
            >::Err(err@),
        },
{
    let mut j = h + 1;
    let mut depth: usize = 1;
    loop
        invariant
            h + 1 <= j && j <= src.len(),
            1 <= depth && depth <= j,
            html_scan(src@, h as int, h + 1, 1) == html_scan(
                src@,
                h as int,
                j as int,
                depth as int,
            ),
        decreases src.len() - j,
    {
        if j >= src.len() {
            return Result::Err(
                LexError { kind: LexErrorKind::UnclosedHtml, start: h, end: src.len() },
            );
        }
        let b = src[j];
        if b == '<' as u8 {
            j = j + 1;
            depth = depth + 1;
        } else if b == '>' as u8 {
            if depth <= 1 {
                let content = copy_range(src, h + 1, j);
                return Result::Ok((Token::HtmlString(content), j + 1));
            }
            j = j + 1;
            depth = depth - 1;
        } else {
            j = j + 1;
        }
    }
}

/// Scans a numeric literal beginning at `i`.
fn scan_number(src: &Vec<u8>, i: usize) -> (r: Result<(Token, usize), LexError>)
    requires
        i < src.len(),
    ensures
        match r {
            Result::Ok((t, e)) => number_token(src@, i as int) == Result::<
                (TokenView, int),
                LexErrorView,
            >::Ok((t@, e as int)) && i < e && e <= src.len(),
            Result::Err(err) => number_token(src@, i as int) == Result::<
                (TokenView, int),
                LexErrorView,
            >::Err(err@),
        },
{
    let j = if src[i] == '-' as u8 {
        i + 1
    } else {
        i
    };
    if j < src.len() && src[j] == '.' as u8 {
        if j + 1 < src.len() && '0' as u8 <= src[j + 1] && src[j + 1] <= '9' as u8 {
            let e = scan_digits_end(src, j + 2);
            proof {
                assert(digits_end(src@, j + 1) == digits_end(src@, j + 2));
            }
            let text = copy_range(src, i, e);
            Result::Ok((Token::Number(text), e))
        } else {
            Result::Err(LexError { kind: LexErrorKind::IllegalCharacter, start: i, end: i + 1 })
        }
    } else if j < src.len() && '0' as u8 <= src[j] && src[j] <= '9' as u8 {
        let e = scan_digits_end(src, j + 1);
        proof {
            assert(digits_end(src@, j as int) == digits_end(src@, j + 1));
        }
        if e < src.len() && src[e] == '.' as u8 {
            let e2 = scan_digits_end(src, e + 1);
            let text = copy_range(src, i, e2);
            Result::Ok((Token::Number(text), e2))
        } else {
            let text = copy_range(src, i, e);
            Result::Ok((Token::Number(text), e))
        }
    } else {
        Result::Err(LexError { kind: LexErrorKind::IllegalCharacter, start: i, end: i + 1 })
    }
}

/// Scans the token beginning at the significant position `i`.
fn scan_token(src: &Vec<u8>, i: usize) -> (r: Result<(Token, usize), LexError>)
    requires
        i < src.len(),
    ensures
        match r {
            Result::Ok((t, e)) => next_token(src@, i as int) == Result::<
                (TokenView, int),
                LexErrorView,
            >::Ok((t@, e as int)) && i < e && e <= src.len(),
            Result::Err(err) => next_token(src@, i as int) == Result::<
                (TokenView, int),
                LexErrorView,
            >::Err(err@),
        },
{
    let b = src[i];
    if b == '-' as u8 {
        if i + 1 < src.len() && src[i + 1] == '>' as u8 {
            Result::Ok((Token::Arrow, i + 2))
        } else if i + 1 < src.len() && src[i + 1] == '-' as u8 {
            Result::Ok((Token::DashDash, i + 2))
        } else {
            scan_number(src, i)
        }
    } else if '0' as u8 <= b && b <= '9' as u8 || b == '.' as u8 {
        scan_number(src, i)
    } else if b == '"' as u8 {
        scan_quoted(src, i)
    } else if b == '<' as u8 {
        scan_html(src, i)
    } else if 'a' as u8 <= b && b <= 'z' as u8 || 'A' as u8 <= b && b <= 'Z' as u8 || b
        == '_' as u8 {
        let e = scan_ident_end(src, i + 1);
        let word = copy_range(src, i, e);
        Result::Ok((classify_word(word), e))
    } else if b == '{' as u8 {
        Result::Ok((Token::OpenBrace, i + 1))
    } else if b == '}' as u8 {
        Result::Ok((Token::CloseBrace, i + 1))
    } else if b == '[' as u8 {
        Result::Ok((Token::OpenBracket, i + 1))
    } else if b == ']' as u8 {
        Result::Ok((Token::CloseBracket, i + 1))
    } else if b == ';' as u8 {
        Result::Ok((Token::Semicolon, i + 1))
    } else if b == ',' as u8 {
        Result::Ok((Token::Comma, i + 1))
    } else if b == '=' as u8 {
        Result::Ok((Token::Equals, i + 1))
    } else if b == ':' as u8 {
        Result::Ok((Token::Colon, i + 1))
    } else {
        Result::Err(LexError { kind: LexErrorKind::IllegalCharacter, start: i, end: i + 1 })
    }
}

/// Turns a lexical error into the uniform diagnostic form.
fn lex_error_to_parse_error(e: LexError) -> (r: ParseError)
    ensures
        r.message@ == lex_error_msg(e.kind),
        r.span.start == e.start,
        r.span.end == e.end,
{
    let message = match e.kind {
        LexErrorKind::IllegalCharacter => "illegal character".to_owned(),
        LexErrorKind::UnterminatedString => "unterminated quoted string".to_owned(),
        LexErrorKind::UnclosedHtml => "unclosed HTML string".to_owned(),
    };
    ParseError { message, span: e.start..e.end }
}

/// Tokenizes DOT source text.
///
/// On success the result holds every token with its half-open byte span,
/// in source order, exactly as [`spec_lex`] describes. On failure it
/// holds a single lexical diagnostic.
pub fn lex(src: &Vec<u8>) -> (r: Result<Vec<Spanned>, Vec<ParseError>>)
    ensures
        match spec_lex(src@) {
            Result::Ok(ts) => r matches Ok(v) && tokens_view(v@) == ts,
            Result::Err(e) => r matches Err(es) && es@.len() == 1 && es@[0].message@
                == lex_error_msg(e.kind) && es@[0].span.start == e.start && es@[0].span.end
                == e.end,
        },
{
    let mut acc: Vec<Spanned> = Vec::new();
    let mut cur: usize = 0;
    proof {
        assert(tokens_view(acc@) =~= Seq::<SpannedView>::empty());
    }
    loop
        invariant
            cur <= src.len(),
            match lex_from(src@, cur as int) {
                Result::Ok(rest) => lex_from(src@, 0) == Result::<
                    Seq<SpannedView>,
                    LexErrorView,
                >::Ok(tokens_view(acc@) + rest),
                Result::Err(e) => lex_from(src@, 0) == Result::<
                    Seq<SpannedView>,
                    LexErrorView,
                >::Err(e),
            },
        decreases src.len() - cur,
    {
        match scan_trivia(src, cur) {
            Result::Err(p) => {
                let e = LexError { kind: LexErrorKind::IllegalCharacter, start: p, end: p + 1 };
                let mut es: Vec<ParseError> = Vec::new();
                es.push(lex_error_to_parse_error(e));
                return Result::Err(es);
            },
            Result::Ok(j) => {
                if j >= src.len() {
                    proof {
                        assert(tokens_view(acc@) + Seq::<SpannedView>::empty() =~= tokens_view(
                            acc@,
                        ));
                    }
                    return Result::Ok(acc);
                }
                match scan_token(src, j) {
                    Result::Err(e) => {
                        let mut es: Vec<ParseError> = Vec::new();
                        es.push(lex_error_to_parse_error(e));
                        return Result::Err(es);
                    },
                    Result::Ok((t, e)) => {
                        let ghost old_acc = acc@;
                        let sp = Spanned { token: t, start: j, end: e };
                        acc.push(sp);
                        proof {
                            assert(tokens_view(acc@) =~= tokens_view(old_acc) + seq![sp@]);
                            match lex_from(src@, e as int) {
                                Result::Ok(rest) => {
                                    assert(tokens_view(old_acc) + (seq![sp@] + rest)
                                        =~= tokens_view(acc@) + rest);
                                },
                                Result::Err(_) => {},
                            }
                        }
                        cur = e;
                    },
                }
            },
        }
    }
}

} // verus!
