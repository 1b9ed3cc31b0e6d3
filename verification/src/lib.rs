//! An interpreter for a small imperative Pascal-like language: lexer,
//! recursive-descent parser, semantic analyzer and tree-walking evaluator
//! with an explicit call stack of activation records.
//!
//! Verus has no floating-point support, so runtime real numbers are carried
//! as IEEE-754 double-precision bit patterns (`u64`) and the actual real
//! arithmetic is supplied by the host through the [`literal::RealOps`]
//! trait.  Everything else — scanning, parsing, scope analysis, the value
//! model's text/integer/boolean arithmetic, frame and trace discipline — is
//! verified.
//!
//! One deliberate asymmetry, stated rather than hidden: the semantic
//! analyzer resolves a variable reference lexically, walking outward
//! through the enclosing scopes, while the evaluator reads and writes the
//! top-of-stack frame alone and never walks to enclosing frames.  A
//! reference to an outer scope's variable therefore passes analysis yet
//! fails evaluation with an undefined-variable error; both behaviours are
//! pinned by the contracts ([`semantic_analyzer::chain_lookup`] against
//! [`interpreter::expr_eval`]).

pub mod ast;
pub mod error;
pub mod helper;
pub mod interpreter;
pub mod lexer;
pub mod literal;
pub mod parser;
pub mod record;
pub mod semantic_analyzer;
pub mod symbols;
pub mod table;
pub mod text;
pub mod token;
