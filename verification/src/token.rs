use vstd::prelude::*;
use crate::literal::{Literal, Val};

verus! {

/// The kind of a token.
#[derive(PartialEq, Eq, Structural, Debug, Copy, Clone)]
pub enum TokenType {
    IntegerConst,
    FloatConst,
    Plus,
    Minus,
    Multiply,
    Division,
    Modulus,
    Lparen,
    Rparen,
    Identifier,
    Assignment,
    Semi,
    Begin,
    End,
    Program,
    Dot,
    Var,
    IntegerDivision,
    Colon,
    Comma,
    IntegerType,
    FloatType,
    Procedure,
    EOF,
}

/// One token: its kind, an attached value, and the line and column where it
/// started.  The kind and the value are kept mutually consistent by the
/// lexer ([`token_wf`]): an integer constant carries its integer value, and
/// every other token carries text — an identifier or keyword its spelling,
/// a real constant its decimal spelling (turned into a machine real only at
/// evaluation time, where the host arithmetic is available), a punctuation
/// token the empty text.
#[derive(Debug)]
pub struct Token {
    pub token_type: TokenType,
    pub literal: Literal,
    pub line: u32,
    pub col: u32,
}

/// A [`Token`] as the specifications see it, with the attached value
/// abstracted by [`Val`].
pub ghost struct TokA {
    pub token_type: TokenType,
    pub value: Val,
    pub line: u32,
    pub col: u32,
}

/// The kind and the attached value agree; see [`Token`].
pub open spec fn token_wf(t: Token) -> bool {
    match t.token_type {
        TokenType::IntegerConst => t.literal is Int,
        _ => t.literal is Text,
    }
}

impl Token {
    /// The abstraction of this token; see [`TokA`].
    pub open spec fn abs(self) -> TokA {
        TokA {
            token_type: self.token_type,
            value: self.literal.abs(),
            line: self.line,
            col: self.col,
        }
    }

    pub fn new(token_type: TokenType, literal: Literal, line: u32, col: u32) -> (r: Token)
        ensures
            r == (Token { token_type, literal, line, col }),
    {
        Token { token_type, literal, line, col }
    }

    pub fn token_type(&self) -> (r: TokenType)
        ensures
            r == self.token_type,
    {
        self.token_type
    }

    pub fn literal(&self) -> (r: &Literal)
        ensures
            r == &self.literal,
    {
        &self.literal
    }
}

impl Clone for Token {
    fn clone(&self) -> (r: Self)
        ensures
            r == *self,
    {
        Token {
            token_type: self.token_type,
            literal: self.literal.clone(),
            line: self.line,
            col: self.col,
        }
    }
}

/// Field-wise equality of tokens, text compared by its characters.
pub open spec fn spec_token_eq(a: Token, b: Token) -> bool {
    &&& a.token_type == b.token_type
    &&& spec_literal_eq(a.literal, b.literal)
    &&& a.line == b.line
    &&& a.col == b.col
}

/// Equality of values, text compared by its characters, reals by their bit
/// patterns.
pub open spec fn spec_literal_eq(a: Literal, b: Literal) -> bool {
    match (a, b) {
        (Literal::Text(x), Literal::Text(y)) => x@ == y@,
        (Literal::Int(x), Literal::Int(y)) => x == y,
        (Literal::Float(x), Literal::Float(y)) => x == y,
        (Literal::Bool(x), Literal::Bool(y)) => x == y,
        _ => false,
    }
}

impl PartialEq for Token {
    fn eq(&self, other: &Token) -> (r: bool)
    {
        self.token_type == other.token_type && self.literal == other.literal && self.line
            == other.line && self.col == other.col
    }
}

impl vstd::std_specs::cmp::PartialEqSpecImpl for Token {
    open spec fn obeys_eq_spec() -> bool {
        true
    }

    open spec fn eq_spec(&self, other: &Token) -> bool {
        spec_token_eq(*self, *other)
    }
}

} // verus!
