use vstd::prelude::*;
use crate::token::{Token, TokenType, TokA, spec_token_eq};

verus! {

/// Every way a run can fail, one variant per diagnosed condition; the stage
/// that raises each is fixed: lexing raises `UnexpectedChar`; parsing
/// raises `UnexpectedToken` and `UnknownType`; analysis raises
/// `UndefinedVariable`, `VariableRedefinition`, `UnknownType` and
/// `IllformedVarExpr`; evaluation raises the rest.
#[derive(Debug)]
pub enum RuntimeError {
    /// The parser saw this token where it expected that kind.
    UnexpectedToken(Token, TokenType),
    /// A procedure call supplied fewer or more actual parameters than the
    /// procedure declares, or an operand produced no value.
    MissingArgument,
    /// The lexer met a character that can start no token.
    UnexpectedChar(char),
    /// The named variable is not declared (analysis) or not present in the
    /// active frame (evaluation); carries the name as written.
    UndefinedVariable(String),
    /// A binary operator token of a kind the evaluator has no rule for.
    UnhandledBinaryOp(Token),
    /// A unary operator token of a kind the evaluator has no rule for.
    UnhandledUnaryOp(Token),
    /// A division or remainder with an integer zero divisor.
    DivisionByZero,
    /// A variable position held a token with no text attached.
    IllformedVarExpr,
    /// A declaration used a type name that names no type.
    UnknownType(String),
    /// The same name declared twice in one scope; carries the lower-cased
    /// name.
    VariableRedefinition(String),
    /// A variable was read or written with no active frame.
    StackUnderflow,
    /// An operator applied to a combination of operand types it is not
    /// defined for.
    UnsupportedArgumentTypeByOp(Token),
    /// A call site that analysis left without a resolved procedure.
    MissingProcedure,
}

/// A [`RuntimeError`] as the specifications see it, with text payloads as
/// character sequences and tokens abstracted by [`TokA`].
pub ghost enum ErrA {
    UnexpectedToken(TokA, TokenType),
    MissingArgument,
    UnexpectedChar(char),
    UndefinedVariable(Seq<char>),
    UnhandledBinaryOp(TokA),
    UnhandledUnaryOp(TokA),
    DivisionByZero,
    IllformedVarExpr,
    UnknownType(Seq<char>),
    VariableRedefinition(Seq<char>),
    StackUnderflow,
    UnsupportedArgumentTypeByOp(TokA),
    MissingProcedure,
}

impl RuntimeError {
    /// The abstraction of this error; see [`ErrA`].
    pub open spec fn abs(self) -> ErrA {
        match self {
            RuntimeError::UnexpectedToken(t, k) => ErrA::UnexpectedToken(t.abs(), k),
            RuntimeError::MissingArgument => ErrA::MissingArgument,
            RuntimeError::UnexpectedChar(c) => ErrA::UnexpectedChar(c),
            RuntimeError::UndefinedVariable(s) => ErrA::UndefinedVariable(s@),
            RuntimeError::UnhandledBinaryOp(t) => ErrA::UnhandledBinaryOp(t.abs()),
            RuntimeError::UnhandledUnaryOp(t) => ErrA::UnhandledUnaryOp(t.abs()),
            RuntimeError::DivisionByZero => ErrA::DivisionByZero,
            RuntimeError::IllformedVarExpr => ErrA::IllformedVarExpr,
            RuntimeError::UnknownType(s) => ErrA::UnknownType(s@),
            RuntimeError::VariableRedefinition(s) => ErrA::VariableRedefinition(s@),
            RuntimeError::StackUnderflow => ErrA::StackUnderflow,
            RuntimeError::UnsupportedArgumentTypeByOp(t) => ErrA::UnsupportedArgumentTypeByOp(
                t.abs(),
            ),
            RuntimeError::MissingProcedure => ErrA::MissingProcedure,
        }
    }
}

/// Variant-wise equality of errors, text compared by its characters.
pub open spec fn spec_error_eq(a: RuntimeError, b: RuntimeError) -> bool {
    match (a, b) {
        (RuntimeError::UnexpectedToken(t1, k1), RuntimeError::UnexpectedToken(t2, k2)) => {
            spec_token_eq(t1, t2) && k1 == k2
        },
        (RuntimeError::MissingArgument, RuntimeError::MissingArgument) => true,
        (RuntimeError::UnexpectedChar(c1), RuntimeError::UnexpectedChar(c2)) => c1 == c2,
        (RuntimeError::UndefinedVariable(s1), RuntimeError::UndefinedVariable(s2)) => s1@ == s2@,
        (RuntimeError::UnhandledBinaryOp(t1), RuntimeError::UnhandledBinaryOp(t2)) => {
            spec_token_eq(t1, t2)
        },
        (RuntimeError::UnhandledUnaryOp(t1), RuntimeError::UnhandledUnaryOp(t2)) => {
            spec_token_eq(t1, t2)
        },
        (RuntimeError::DivisionByZero, RuntimeError::DivisionByZero) => true,
        (RuntimeError::IllformedVarExpr, RuntimeError::IllformedVarExpr) => true,
        (RuntimeError::UnknownType(s1), RuntimeError::UnknownType(s2)) => s1@ == s2@,
        (
            RuntimeError::VariableRedefinition(s1),
            RuntimeError::VariableRedefinition(s2),
        ) => s1@ == s2@,
        (RuntimeError::StackUnderflow, RuntimeError::StackUnderflow) => true,
        (
            RuntimeError::UnsupportedArgumentTypeByOp(t1),
            RuntimeError::UnsupportedArgumentTypeByOp(t2),
        ) => spec_token_eq(t1, t2),
        (RuntimeError::MissingProcedure, RuntimeError::MissingProcedure) => true,
        _ => false,
    }
}

impl PartialEq for RuntimeError {
    fn eq(&self, other: &RuntimeError) -> (r: bool)
    {
        match (self, other) {
            (RuntimeError::UnexpectedToken(t1, k1), RuntimeError::UnexpectedToken(t2, k2)) => {
                *t1 == *t2 && *k1 == *k2
            },
            (RuntimeError::MissingArgument, RuntimeError::MissingArgument) => true,
            (RuntimeError::UnexpectedChar(c1), RuntimeError::UnexpectedChar(c2)) => *c1 == *c2,
            (RuntimeError::UndefinedVariable(s1), RuntimeError::UndefinedVariable(s2)) => {
                *s1 == *s2
            },
            (RuntimeError::UnhandledBinaryOp(t1), RuntimeError::UnhandledBinaryOp(t2)) => {
                *t1 == *t2
            },
            (RuntimeError::UnhandledUnaryOp(t1), RuntimeError::UnhandledUnaryOp(t2)) => *t1 == *t2,
            (RuntimeError::DivisionByZero, RuntimeError::DivisionByZero) => true,
            (RuntimeError::IllformedVarExpr, RuntimeError::IllformedVarExpr) => true,
            (RuntimeError::UnknownType(s1), RuntimeError::UnknownType(s2)) => *s1 == *s2,
            (
                RuntimeError::VariableRedefinition(s1),
                RuntimeError::VariableRedefinition(s2),
            ) => *s1 == *s2,
            (RuntimeError::StackUnderflow, RuntimeError::StackUnderflow) => true,
            (
                RuntimeError::UnsupportedArgumentTypeByOp(t1),
                RuntimeError::UnsupportedArgumentTypeByOp(t2),
            ) => *t1 == *t2,
            (RuntimeError::MissingProcedure, RuntimeError::MissingProcedure) => true,
            _ => false,
        }
    }
}

impl vstd::std_specs::cmp::PartialEqSpecImpl for RuntimeError {
    open spec fn obeys_eq_spec() -> bool {
        true
    }

    open spec fn eq_spec(&self, other: &RuntimeError) -> bool {
        spec_error_eq(*self, *other)
    }
}

impl Clone for RuntimeError {
    fn clone(&self) -> (r: Self)
        ensures
            r == *self,
    {
        match self {
            RuntimeError::UnexpectedToken(t, k) => RuntimeError::UnexpectedToken(t.clone(), *k),
            RuntimeError::MissingArgument => RuntimeError::MissingArgument,
            RuntimeError::UnexpectedChar(c) => RuntimeError::UnexpectedChar(*c),
            RuntimeError::UndefinedVariable(s) => RuntimeError::UndefinedVariable(s.clone()),
            RuntimeError::UnhandledBinaryOp(t) => RuntimeError::UnhandledBinaryOp(t.clone()),
            RuntimeError::UnhandledUnaryOp(t) => RuntimeError::UnhandledUnaryOp(t.clone()),
            RuntimeError::DivisionByZero => RuntimeError::DivisionByZero,
            RuntimeError::IllformedVarExpr => RuntimeError::IllformedVarExpr,
            RuntimeError::UnknownType(s) => RuntimeError::UnknownType(s.clone()),
            RuntimeError::VariableRedefinition(s) => RuntimeError::VariableRedefinition(s.clone()),
            RuntimeError::StackUnderflow => RuntimeError::StackUnderflow,
            RuntimeError::UnsupportedArgumentTypeByOp(t) => {
                RuntimeError::UnsupportedArgumentTypeByOp(t.clone())
            },
            RuntimeError::MissingProcedure => RuntimeError::MissingProcedure,
        }
    }
}

} // verus!
