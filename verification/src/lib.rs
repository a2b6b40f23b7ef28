//! A parser for the Graphviz DOT graph-description language.
//!
//! Source bytes are tokenized by [`lex`] into a spanned token sequence,
//! then parsed by [`parse`] with a recursive-descent grammar into a
//! [`Graph`] syntax tree. Either phase reports failure as a non-empty
//! list of [`ParseError`] diagnostics, each carrying a message and a
//! half-open byte span into the original source.
//!
//! Both phases are specified by spec functions over the input bytes —
//! [`lexer::spec_lex`] and [`parser::spec_parse`] — and the executable
//! code is proved to return exactly their value, so parsing is total and
//! deterministic: the same input always yields the same tree or the same
//! diagnostic.

pub mod ast;
pub mod lexer;
pub mod parser;
pub mod token;

pub use ast::{
    Attribute, AttributeStatement, AttributeTarget, EdgeOperation, EdgeStatement, EdgeTarget,
    Graph, GraphKind, Id, NodeId, NodeStatement, Port, Statement, Subgraph,
};
pub use lexer::lex;
pub use parser::{parse, ParseError};
pub use token::{Spanned, Token};
