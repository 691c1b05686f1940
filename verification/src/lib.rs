//! A source-to-source transformer for a method-chain grammar: a function
//! declaration whose name and parameter list are split into successive dotted
//! segments, optionally branching into named alternatives, is rewritten into a
//! set of ordinary declarations: one callable per chain segment, each
//! returning an intermediate carrier type that accumulates the parameters seen
//! so far, terminating in the original body.

pub mod asserts;
pub mod cumulative;
pub mod doc;
pub mod flatten;
pub mod laws;
pub mod lexer;
pub mod model;
pub mod parser;
pub mod render;
pub mod tokens;
pub mod transformation;

pub use tokens::Delim;
pub use tokens::Tok;
pub use tokens::Token;
