use vstd::prelude::*;
use crate::ast::{
    AssignmentNode, BinaryOpNode, BlockA, BlockNode, CallA, CompoundStatementNode, DeclA,
    Declaration, Expr, ExprA, NoOpNode, NumNode, ParamNode, ProcedureCallNode, ProcedureDeclNode,
    ProgramA, ProgramNode, Statement, StmtA, TypeNode, UnaryOpNode, VarDeclNode, VarNode,
};
use crate::error::{ErrA, RuntimeError};
use crate::lexer::{
    lemma_next_token_pos_monotone, spec_next_token, LexSt, Lexer,
};
use crate::literal::Literal;
use crate::literal::Val;
use crate::token::{token_wf, TokA, Token, TokenType};

verus! {

/// An error a parsing step can stop with: the parser's own diagnosis of an
/// unexpected token or unknown type name, or a character the lexer refused
/// while the parser pulled the next token.
pub open spec fn parse_err(e: RuntimeError) -> bool {
    e is UnexpectedToken || e is UnexpectedChar || e is UnknownType
}

/// An error an expression-grammar step can stop with: an unexpected token,
/// or a refused character from the lexer underneath.
pub open spec fn expr_err(e: RuntimeError) -> bool {
    e is UnexpectedToken || e is UnexpectedChar
}

/// The parser's state as the specifications see it: the lexer's cursor
/// and the one retained lookahead token.
#[verifier::ext_equal]
pub ghost struct PState {
    pub lexer: LexSt,
    pub tok: TokA,
}

/// How much input a parsing state has left; every successful `eat`
/// shrinks it, which bounds the descent.  The guards written into the
/// looping productions below re-check this bound before each further
/// step, which makes the grammar functions total; on states that an
/// actual run produces the bound always holds and no guard ever fails.
pub open spec fn pmeasure(st: PState) -> int {
    2 * (if st.lexer.pos <= st.lexer.text.len() {
        st.lexer.text.len() - st.lexer.pos
    } else {
        0int
    }) + if st.tok.token_type == TokenType::EOF {
        0int
    } else {
        1int
    }
}

/// What consuming one token of the expected kind yields: on a kind match
/// the next token is pulled ([`spec_next_token`]); on a mismatch the
/// unexpected-token error carrying the actual token and the expected
/// kind, with nothing consumed; a refused character while pulling
/// surfaces as that lexing error, the lookahead kept.
pub open spec fn spec_eat(st: PState, k: TokenType) -> (Result<(), ErrA>, PState) {
    if st.tok.token_type == k {
        let (r, l2) = spec_next_token(st.lexer);
        match r {
            Ok(ta) => (Ok(()), PState { lexer: l2, tok: ta }),
            Err(e) => (Err(e), PState { lexer: l2, tok: st.tok }),
        }
    } else {
        (Err(ErrA::UnexpectedToken(st.tok, k)), st)
    }
}

/// Eating never grows the remaining input, and shrinks it strictly on
/// success.
pub proof fn lemma_eat_measure(st: PState, k: TokenType)
    requires
        k != TokenType::EOF,
    ensures
        ({
            let (r, st2) = spec_eat(st, k);
            &&& st2.lexer.text == st.lexer.text
            &&& pmeasure(st2) <= pmeasure(st)
            &&& (r is Ok ==> pmeasure(st2) < pmeasure(st))
        }),
{
    if st.tok.token_type == k {
        lemma_next_token_pos_monotone(st.lexer);
    }
}

/// `variable -> ID`: the identifier token itself.
pub open spec fn spec_variable(st: PState) -> (Result<TokA, ErrA>, PState) {
    let name = st.tok;
    let (r, st1) = spec_eat(st, TokenType::Identifier);
    match r {
        Ok(_) => (Ok(name), st1),
        Err(e) => (Err(e), st1),
    }
}

/// `type_spec -> INTEGER | REAL`: the type keyword token; any other token
/// is an unknown type name, nothing consumed.
pub open spec fn spec_type_spec(st: PState) -> (Result<TokA, ErrA>, PState) {
    if st.tok.token_type == TokenType::IntegerType || st.tok.token_type == TokenType::FloatType {
        let t = st.tok;
        let (r, st1) = spec_eat(st, t.token_type);
        match r {
            Ok(_) => (Ok(t), st1),
            Err(e) => (Err(e), st1),
        }
    } else {
        let name = match st.tok.value {
            Val::Text(s) => s,
            _ => Seq::empty(),
        };
        (Err(ErrA::UnknownType(name)), st)
    }
}

/// `factor -> INTEGER_CONST | REAL_CONST | ( expr ) | (+|-) factor
/// | variable`; a token that can start no factor is reported against the
/// end-of-input kind.
pub open spec fn spec_factor(st: PState) -> (Result<ExprA, ErrA>, PState)
    decreases pmeasure(st), 1int
    via spec_factor_dec
{
    match st.tok.token_type {
        TokenType::IntegerConst | TokenType::FloatConst => {
            let token = st.tok;
            let (r, st1) = spec_eat(st, token.token_type);
            match r {
                Ok(_) => (Ok(ExprA::Num(token)), st1),
                Err(e) => (Err(e), st1),
            }
        },
        TokenType::Lparen => {
            let (r1, st1) = spec_eat(st, TokenType::Lparen);
            match r1 {
                Err(e) => (Err(e), st1),
                Ok(_) => {
                    let (r2, st2) = spec_expr(st1);
                    match r2 {
                        Err(e) => (Err(e), st2),
                        Ok(inner) => {
                            let (r3, st3) = spec_eat(st2, TokenType::Rparen);
                            match r3 {
                                Ok(_) => (Ok(inner), st3),
                                Err(e) => (Err(e), st3),
                            }
                        },
                    }
                },
            }
        },
        TokenType::Plus | TokenType::Minus => {
            let token = st.tok;
            let (r1, st1) = spec_eat(st, token.token_type);
            match r1 {
                Err(e) => (Err(e), st1),
                Ok(_) => {
                    let (r2, st2) = spec_factor(st1);
                    match r2 {
                        Ok(arg) => (Ok(ExprA::UnaryOp(token, Box::new(arg))), st2),
                        Err(e) => (Err(e), st2),
                    }
                },
            }
        },
        TokenType::Identifier => {
            let (r, st1) = spec_variable(st);
            match r {
                Ok(name) => (Ok(ExprA::Var(name)), st1),
                Err(e) => (Err(e), st1),
            }
        },
        _ => (Err(ErrA::UnexpectedToken(st.tok, TokenType::EOF)), st),
    }
}

#[via_fn]
proof fn spec_factor_dec(st: PState) {
    if st.tok.token_type == TokenType::Lparen {
        lemma_eat_measure(st, TokenType::Lparen);
    }
    if st.tok.token_type == TokenType::Plus || st.tok.token_type == TokenType::Minus {
        lemma_eat_measure(st, st.tok.token_type);
    }
}

/// The `((*|/|DIV) factor)*` tail of a term, folded left onto `acc`.
pub open spec fn spec_term_rest(acc: ExprA, st: PState) -> (Result<ExprA, ErrA>, PState)
    decreases pmeasure(st), 2int
    via spec_term_rest_dec
{
    if st.tok.token_type == TokenType::Multiply || st.tok.token_type == TokenType::Division
        || st.tok.token_type == TokenType::IntegerDivision {
        let token = st.tok;
        let (r1, st1) = spec_eat(st, token.token_type);
        match r1 {
            Err(e) => (Err(e), st1),
            Ok(_) => {
                let (r2, st2) = spec_factor(st1);
                match r2 {
                    Err(e) => (Err(e), st2),
                    Ok(rhs) => {
                        let acc2 = ExprA::BinaryOp(Box::new(acc), token, Box::new(rhs));
                        if pmeasure(st2) < pmeasure(st) {
                            spec_term_rest(acc2, st2)
                        } else {
                            (Ok(acc2), st2)
                        }
                    },
                }
            },
        }
    } else {
        (Ok(acc), st)
    }
}

#[via_fn]
proof fn spec_term_rest_dec(acc: ExprA, st: PState) {
    if st.tok.token_type == TokenType::Multiply || st.tok.token_type == TokenType::Division
        || st.tok.token_type == TokenType::IntegerDivision {
        lemma_eat_measure(st, st.tok.token_type);
    }
}

/// `term -> factor ((*|/|DIV) factor)*`.
pub open spec fn spec_term(st: PState) -> (Result<ExprA, ErrA>, PState)
    decreases pmeasure(st), 3int
{
    let (r, st1) = spec_factor(st);
    match r {
        Err(e) => (Err(e), st1),
        Ok(first) => if pmeasure(st1) <= pmeasure(st) {
            spec_term_rest(first, st1)
        } else {
            (Ok(first), st1)
        },
    }
}

/// The `((+|-) term)*` tail of an expression, folded left onto `acc`.
pub open spec fn spec_expr_rest(acc: ExprA, st: PState) -> (Result<ExprA, ErrA>, PState)
    decreases pmeasure(st), 4int
    via spec_expr_rest_dec
{
    if st.tok.token_type == TokenType::Plus || st.tok.token_type == TokenType::Minus {
        let token = st.tok;
        let (r1, st1) = spec_eat(st, token.token_type);
        match r1 {
            Err(e) => (Err(e), st1),
            Ok(_) => {
                let (r2, st2) = spec_term(st1);
                match r2 {
                    Err(e) => (Err(e), st2),
                    Ok(rhs) => {
                        let acc2 = ExprA::BinaryOp(Box::new(acc), token, Box::new(rhs));
                        if pmeasure(st2) < pmeasure(st) {
                            spec_expr_rest(acc2, st2)
                        } else {
                            (Ok(acc2), st2)
                        }
                    },
                }
            },
        }
    } else {
        (Ok(acc), st)
    }
}

#[via_fn]
proof fn spec_expr_rest_dec(acc: ExprA, st: PState) {
    if st.tok.token_type == TokenType::Plus || st.tok.token_type == TokenType::Minus {
        lemma_eat_measure(st, st.tok.token_type);
    }
}

/// `expr -> term ((+|-) term)*`.
pub open spec fn spec_expr(st: PState) -> (Result<ExprA, ErrA>, PState)
    decreases pmeasure(st), 5int
{
    let (r, st1) = spec_term(st);
    match r {
        Err(e) => (Err(e), st1),
        Ok(first) => if pmeasure(st1) <= pmeasure(st) {
            spec_expr_rest(first, st1)
        } else {
            (Ok(first), st1)
        },
    }
}

/// The `(, expr)*` tail of an actual-parameter list.
pub open spec fn spec_args_rest(acc: Seq<ExprA>, st: PState) -> (Result<Seq<ExprA>, ErrA>, PState)
    decreases pmeasure(st),
{
    if st.tok.token_type == TokenType::Comma {
        let (r1, st1) = spec_eat(st, TokenType::Comma);
        match r1 {
            Err(e) => (Err(e), st1),
            Ok(_) => {
                let (r2, st2) = spec_expr(st1);
                match r2 {
                    Err(e) => (Err(e), st2),
                    Ok(arg) => if pmeasure(st2) < pmeasure(st) {
                        spec_args_rest(acc.push(arg), st2)
                    } else {
                        (Ok(acc.push(arg)), st2)
                    },
                }
            },
        }
    } else {
        (Ok(acc), st)
    }
}

/// `proccall_statement -> ID ( (expr (, expr)*)? )`; the call site is
/// born unresolved.
pub open spec fn spec_proccall(st: PState) -> (Result<CallA, ErrA>, PState) {
    let name = st.tok.value;
    let (r1, st1) = spec_eat(st, TokenType::Identifier);
    match r1 {
        Err(e) => (Err(e), st1),
        Ok(_) => {
            let (r2, st2) = spec_eat(st1, TokenType::Lparen);
            match r2 {
                Err(e) => (Err(e), st2),
                Ok(_) => {
                    let first = if st2.tok.token_type != TokenType::Rparen {
                        let (ra, sta) = spec_expr(st2);
                        match ra {
                            Err(e) => (Err(e), sta),
                            Ok(arg) => (Ok(seq![arg]), sta),
                        }
                    } else {
                        (Ok(Seq::empty()), st2)
                    };
                    match first.0 {
                        Err(e) => (Err(e), first.1),
                        Ok(args0) => {
                            let (r3, st3) = spec_args_rest(args0, first.1);
                            match r3 {
                                Err(e) => (Err(e), st3),
                                Ok(args) => {
                                    let (r4, st4) = spec_eat(st3, TokenType::Rparen);
                                    match r4 {
                                        Ok(_) => (
                                            Ok(
                                                CallA {
                                                    name: name,
                                                    actual_params: args,
                                                    proc_symbol: None,
                                                },
                                            ),
                                            st4,
                                        ),
                                        Err(e) => (Err(e), st4),
                                    }
                                },
                            }
                        },
                    }
                },
            }
        },
    }
}

/// `assignment_statement -> variable : = expr`.
pub open spec fn spec_assignment(st: PState) -> (Result<StmtA, ErrA>, PState) {
    let (r1, st1) = spec_variable(st);
    match r1 {
        Err(e) => (Err(e), st1),
        Ok(name) => {
            let (r2, st2) = spec_eat(st1, TokenType::Colon);
            match r2 {
                Err(e) => (Err(e), st2),
                Ok(_) => {
                    let (r3, st3) = spec_eat(st2, TokenType::Assignment);
                    match r3 {
                        Err(e) => (Err(e), st3),
                        Ok(_) => {
                            let (r4, st4) = spec_expr(st3);
                            match r4 {
                                Ok(rhs) => (Ok(StmtA::Assignment(name, rhs)), st4),
                                Err(e) => (Err(e), st4),
                            }
                        },
                    }
                },
            }
        },
    }
}

/// `statement -> compound_statement | proccall_statement
/// | assignment_statement | empty`; after an identifier, a call exactly
/// when the lexer's next raw character is `(`.
pub open spec fn spec_statement(st: PState) -> (Result<StmtA, ErrA>, PState)
    decreases pmeasure(st), 1int
{
    match st.tok.token_type {
        TokenType::Begin => {
            let (r, st1) = spec_compound(st, TokenType::Begin, TokenType::End);
            match r {
                Ok(ss) => (Ok(StmtA::Compound(ss)), st1),
                Err(e) => (Err(e), st1),
            }
        },
        TokenType::Identifier => {
            if st.lexer.pos < st.lexer.text.len() && st.lexer.text[st.lexer.pos] == '(' {
                let (r, st1) = spec_proccall(st);
                match r {
                    Ok(call) => (Ok(StmtA::ProcedureCall(call)), st1),
                    Err(e) => (Err(e), st1),
                }
            } else {
                spec_assignment(st)
            }
        },
        _ => (Ok(StmtA::NoOp), st),
    }
}

/// `compound_statement -> BEGIN statement (; statement)* END`.
pub open spec fn spec_compound(st: PState, begin: TokenType, end: TokenType) -> (Result<
    Seq<StmtA>,
    ErrA,
>, PState)
    decreases pmeasure(st), 0int
{
    let (r1, st1) = spec_eat(st, begin);
    match r1 {
        Err(e) => (Err(e), st1),
        Ok(_) => {
            if begin != TokenType::EOF && pmeasure(st1) < pmeasure(st) {
                let (r2, st2) = spec_statement_list(st1);
                match r2 {
                    Err(e) => (Err(e), st2),
                    Ok(ss) => {
                        let (r3, st3) = spec_eat(st2, end);
                        match r3 {
                            Ok(_) => (Ok(ss), st3),
                            Err(e) => (Err(e), st3),
                        }
                    },
                }
            } else {
                (Ok(Seq::empty()), st1)
            }
        },
    }
}

/// The `(; statement)*` tail of a statement list.
pub open spec fn spec_stmt_list_rest(acc: Seq<StmtA>, st: PState) -> (Result<
    Seq<StmtA>,
    ErrA,
>, PState)
    decreases pmeasure(st), 2int
    via spec_stmt_list_rest_dec
{
    if st.tok.token_type == TokenType::Semi {
        let (r1, st1) = spec_eat(st, TokenType::Semi);
        match r1 {
            Err(e) => (Err(e), st1),
            Ok(_) => {
                let (r2, st2) = spec_statement(st1);
                match r2 {
                    Err(e) => (Err(e), st2),
                    Ok(stmt) => if pmeasure(st2) < pmeasure(st) {
                        spec_stmt_list_rest(acc.push(stmt), st2)
                    } else {
                        (Ok(acc.push(stmt)), st2)
                    },
                }
            },
        }
    } else {
        (Ok(acc), st)
    }
}

#[via_fn]
proof fn spec_stmt_list_rest_dec(acc: Seq<StmtA>, st: PState) {
    if st.tok.token_type == TokenType::Semi {
        lemma_eat_measure(st, TokenType::Semi);
    }
}

/// `statement_list -> statement (; statement)*`.
pub open spec fn spec_statement_list(st: PState) -> (Result<Seq<StmtA>, ErrA>, PState)
    decreases pmeasure(st), 3int
{
    let (r, st1) = spec_statement(st);
    match r {
        Err(e) => (Err(e), st1),
        Ok(first) => if pmeasure(st1) <= pmeasure(st) {
            spec_stmt_list_rest(seq![first], st1)
        } else {
            (Ok(seq![first]), st1)
        },
    }
}

/// The `(, ID)*` tail of a declared-name list.
pub open spec fn spec_name_list_rest(acc: Seq<TokA>, st: PState) -> (Result<
    Seq<TokA>,
    ErrA,
>, PState)
    decreases pmeasure(st),
{
    if st.tok.token_type == TokenType::Comma {
        let (r1, st1) = spec_eat(st, TokenType::Comma);
        match r1 {
            Err(e) => (Err(e), st1),
            Ok(_) => {
                let name = st1.tok;
                let (r2, st2) = spec_eat(st1, TokenType::Identifier);
                match r2 {
                    Err(e) => (Err(e), st2),
                    Ok(_) => if pmeasure(st2) < pmeasure(st) {
                        spec_name_list_rest(acc.push(name), st2)
                    } else {
                        (Ok(acc.push(name)), st2)
                    },
                }
            },
        }
    } else {
        (Ok(acc), st)
    }
}

/// `ID (, ID)* : type_spec`: the declared name tokens and the type token
/// — the common body of a variable declaration group and of one formal
/// parameter group.
pub open spec fn spec_name_group(st: PState) -> (Result<(Seq<TokA>, TokA), ErrA>, PState) {
    let first = st.tok;
    let (r1, st1) = spec_eat(st, TokenType::Identifier);
    match r1 {
        Err(e) => (Err(e), st1),
        Ok(_) => {
            let (r2, st2) = spec_name_list_rest(seq![first], st1);
            match r2 {
                Err(e) => (Err(e), st2),
                Ok(names) => {
                    let (r3, st3) = spec_eat(st2, TokenType::Colon);
                    match r3 {
                        Err(e) => (Err(e), st3),
                        Ok(_) => {
                            let (r4, st4) = spec_type_spec(st3);
                            match r4 {
                                Ok(ty) => (Ok((names, ty)), st4),
                                Err(e) => (Err(e), st4),
                            }
                        },
                    }
                },
            }
        },
    }
}

/// `variable_declarations -> ID (, ID)* : type_spec`, one declaration per
/// declared name.
pub open spec fn spec_variable_declarations(st: PState) -> (Result<Seq<DeclA>, ErrA>, PState) {
    let (r, st1) = spec_name_group(st);
    match r {
        Err(e) => (Err(e), st1),
        Ok(group) => (
            Ok(group.0.map_values(|n: TokA| DeclA::VarDecl(n, group.1))),
            st1,
        ),
    }
}

/// `formal_parameters -> ID (, ID)* : type_spec`, one (name, type) pair
/// per declared name.
pub open spec fn spec_formal_parameters(st: PState) -> (Result<Seq<(TokA, TokA)>, ErrA>, PState) {
    let (r, st1) = spec_name_group(st);
    match r {
        Err(e) => (Err(e), st1),
        Ok(group) => (Ok(group.0.map_values(|n: TokA| (n, group.1))), st1),
    }
}

/// The `(; formal_parameters)*` tail of a formal parameter list.
pub open spec fn spec_fpl_rest(acc: Seq<(TokA, TokA)>, st: PState) -> (Result<
    Seq<(TokA, TokA)>,
    ErrA,
>, PState)
    decreases pmeasure(st),
{
    if st.tok.token_type == TokenType::Semi {
        let (r1, st1) = spec_eat(st, TokenType::Semi);
        match r1 {
            Err(e) => (Err(e), st1),
            Ok(_) => {
                let (r2, st2) = spec_formal_parameters(st1);
                match r2 {
                    Err(e) => (Err(e), st2),
                    Ok(params) => if pmeasure(st2) < pmeasure(st) {
                        spec_fpl_rest(acc + params, st2)
                    } else {
                        (Ok(acc + params), st2)
                    },
                }
            },
        }
    } else {
        (Ok(acc), st)
    }
}

/// `formal_parameter_list -> (formal_parameters (; formal_parameters)*)?`.
pub open spec fn spec_formal_parameter_list(st: PState) -> (Result<
    Seq<(TokA, TokA)>,
    ErrA,
>, PState) {
    if st.tok.token_type != TokenType::Identifier {
        (Ok(Seq::empty()), st)
    } else {
        let (r, st1) = spec_formal_parameters(st);
        match r {
            Err(e) => (Err(e), st1),
            Ok(params) => spec_fpl_rest(params, st1),
        }
    }
}

/// The `(variable_declarations ;)*` runs of a VAR section.
pub open spec fn spec_var_decl_loop(acc: Seq<DeclA>, st: PState) -> (Result<
    Seq<DeclA>,
    ErrA,
>, PState)
    decreases pmeasure(st),
{
    if st.tok.token_type == TokenType::Identifier {
        let (r1, st1) = spec_variable_declarations(st);
        match r1 {
            Err(e) => (Err(e), st1),
            Ok(ds) => {
                let (r2, st2) = spec_eat(st1, TokenType::Semi);
                match r2 {
                    Err(e) => (Err(e), st2),
                    Ok(_) => if pmeasure(st2) < pmeasure(st) {
                        spec_var_decl_loop(acc + ds, st2)
                    } else {
                        (Ok(acc + ds), st2)
                    },
                }
            },
        }
    } else {
        (Ok(acc), st)
    }
}

/// `procedure_declaration -> PROCEDURE ID (( formal_parameter_list ))? ;
/// block ;`.
pub open spec fn spec_procedure_declaration(st: PState) -> (Result<DeclA, ErrA>, PState)
    decreases pmeasure(st), 0int
{
    let (r1, st1) = spec_eat(st, TokenType::Procedure);
    match r1 {
        Err(e) => (Err(e), st1),
        Ok(_) => {
            let name = st1.tok.value;
            let (r2, st2) = spec_eat(st1, TokenType::Identifier);
            match r2 {
                Err(e) => (Err(e), st2),
                Ok(_) => {
                    let params_part = if st2.tok.token_type == TokenType::Lparen {
                        let (rl, stl) = spec_eat(st2, TokenType::Lparen);
                        match rl {
                            Err(e) => (Err(e), stl),
                            Ok(_) => {
                                let (rp, stp) = spec_formal_parameter_list(stl);
                                match rp {
                                    Err(e) => (Err(e), stp),
                                    Ok(params) => {
                                        let (rr, str2) = spec_eat(stp, TokenType::Rparen);
                                        match rr {
                                            Ok(_) => (Ok(params), str2),
                                            Err(e) => (Err(e), str2),
                                        }
                                    },
                                }
                            },
                        }
                    } else {
                        (Ok(Seq::empty()), st2)
                    };
                    match params_part.0 {
                        Err(e) => (Err(e), params_part.1),
                        Ok(params) => {
                            let (r3, st3) = spec_eat(params_part.1, TokenType::Semi);
                            match r3 {
                                Err(e) => (Err(e), st3),
                                Ok(_) => {
                                    if pmeasure(st3) < pmeasure(st) {
                                        let (r4, st4) = spec_block(st3);
                                        match r4 {
                                            Err(e) => (Err(e), st4),
                                            Ok(body) => {
                                                let (r5, st5) = spec_eat(st4, TokenType::Semi);
                                                match r5 {
                                                    Ok(_) => (
                                                        Ok(DeclA::ProcDecl(name, params, body)),
                                                        st5,
                                                    ),
                                                    Err(e) => (Err(e), st5),
                                                }
                                            },
                                        }
                                    } else {
                                        (Ok(DeclA::ProcDecl(name, params, BlockA {
                                            declarations: Seq::empty(),
                                            compound: Seq::empty(),
                                        })), st3)
                                    }
                                },
                            }
                        },
                    }
                },
            }
        },
    }
}

/// The `procedure_declaration*` runs after a VAR section.
pub open spec fn spec_proc_decl_loop(acc: Seq<DeclA>, st: PState) -> (Result<
    Seq<DeclA>,
    ErrA,
>, PState)
    decreases pmeasure(st), 1int
{
    if st.tok.token_type == TokenType::Procedure {
        let (r1, st1) = spec_procedure_declaration(st);
        match r1 {
            Err(e) => (Err(e), st1),
            Ok(d) => if pmeasure(st1) < pmeasure(st) {
                spec_proc_decl_loop(acc.push(d), st1)
            } else {
                (Ok(acc.push(d)), st1)
            },
        }
    } else {
        (Ok(acc), st)
    }
}

/// `declarations -> (VAR (variable_declarations ;)+)?
/// procedure_declaration*`.
pub open spec fn spec_declarations(st: PState) -> (Result<Seq<DeclA>, ErrA>, PState)
    decreases pmeasure(st), 2int
{
    let vars_part = if st.tok.token_type == TokenType::Var {
        let (r1, st1) = spec_eat(st, TokenType::Var);
        match r1 {
            Err(e) => (Err(e), st1),
            Ok(_) => spec_var_decl_loop(Seq::empty(), st1),
        }
    } else {
        (Ok(Seq::empty()), st)
    };
    match vars_part.0 {
        Err(e) => (Err(e), vars_part.1),
        Ok(ds) => if pmeasure(vars_part.1) <= pmeasure(st) {
            spec_proc_decl_loop(ds, vars_part.1)
        } else {
            (Ok(ds), vars_part.1)
        },
    }
}

/// `block -> declarations compound_statement`.
pub open spec fn spec_block(st: PState) -> (Result<BlockA, ErrA>, PState)
    decreases pmeasure(st), 3int
{
    let (r1, st1) = spec_declarations(st);
    match r1 {
        Err(e) => (Err(e), st1),
        Ok(ds) => {
            let (r2, st2) = spec_compound(st1, TokenType::Begin, TokenType::End);
            match r2 {
                Ok(ss) => (Ok(BlockA { declarations: ds, compound: ss }), st2),
                Err(e) => (Err(e), st2),
            }
        },
    }
}

/// `program -> PROGRAM ID ; block .`.
pub open spec fn spec_program(st: PState) -> (Result<ProgramA, ErrA>, PState) {
    let (r1, st1) = spec_eat(st, TokenType::Program);
    match r1 {
        Err(e) => (Err(e), st1),
        Ok(_) => {
            let name = st1.tok.value;
            let (r2, st2) = spec_eat(st1, TokenType::Identifier);
            match r2 {
                Err(e) => (Err(e), st2),
                Ok(_) => {
                    let (r3, st3) = spec_eat(st2, TokenType::Semi);
                    match r3 {
                        Err(e) => (Err(e), st3),
                        Ok(_) => {
                            let (r4, st4) = spec_block(st3);
                            match r4 {
                                Err(e) => (Err(e), st4),
                                Ok(body) => {
                                    let (r5, st5) = spec_eat(st4, TokenType::Dot);
                                    match r5 {
                                        Ok(_) => (
                                            Ok(ProgramA { name: name, block: body }),
                                            st5,
                                        ),
                                        Err(e) => (Err(e), st5),
                                    }
                                },
                            }
                        },
                    }
                },
            }
        },
    }
}

/// The parsing state a parser over `text` starts from: the cursor at the
/// first character and the first token pulled — or that pull's refused
/// character.
pub open spec fn spec_parser_init(text: Seq<char>) -> Result<PState, ErrA> {
    let l0 = LexSt { text: text, pos: 0, line: 1, col: 1 };
    let (r, l1) = spec_next_token(l0);
    match r {
        Ok(ta) => Ok(PState { lexer: l1, tok: ta }),
        Err(e) => Err(e),
    }
}

/// Recursive descent over the token stream, with one token of lookahead
/// retained in `current_token`.
pub struct Parser {
    pub lexer: Lexer,
    pub current_token: Token,
}

impl Parser {
    pub open spec fn wf(self) -> bool {
        self.lexer.wf()
    }

    /// The abstraction of this parser; see [`PState`].
    pub open spec fn absp(self) -> PState {
        PState { lexer: self.lexer.abs(), tok: self.current_token.abs() }
    }

    /// How much input is left to consume: every successful `eat` shrinks
    /// it, which bounds the descent.
    pub open spec fn measure(self) -> int {
        2 * (self.lexer.text@.len() - self.lexer.pos) + if self.current_token.token_type
            == TokenType::EOF {
            0int
        } else {
            1int
        }
    }

    /// A parser over the given source text, with the first token already
    /// pulled; the first refused character surfaces here.
    pub fn from(text: &str) -> (r: Result<Parser, RuntimeError>)
        requires
            text@.len() > 0,
        ensures
            match r {
                Ok(p) => p.wf(),
                Err(e) => e is UnexpectedChar,
            },
            match (r, spec_parser_init(text@)) {
                (Ok(p), Ok(sta)) => p.absp() == sta,
                (Err(e), Err(ea)) => e.abs() == ea,
                _ => false,
            },
    {
        let mut lexer = Lexer::from(text);
        let token = match lexer.get_next_token() {
            Ok(t) => t,
            Err(e) => {
                return Err(e);
            },
        };
        Ok(Parser { lexer, current_token: token })
    }

    /// The token-consumption primitive: when the current token has the
    /// expected kind, advance past it; otherwise stop with an
    /// unexpected-token error carrying the actual token and the expected
    /// kind.  This is the parser's sole syntax-error channel.
    fn eat(&mut self, token_type: TokenType) -> (r: Result<(), RuntimeError>)
        requires
            old(self).wf(),
            token_type != TokenType::EOF,
        ensures
            final(self).wf(),
            final(self).measure() <= old(self).measure(),
            match r {
                Ok(_) => old(self).current_token.token_type == token_type
                    && final(self).measure() < old(self).measure(),
                Err(e) => expr_err(e) && (e is UnexpectedToken ==> e.abs()
                    == ErrA::UnexpectedToken(old(self).current_token.abs(), token_type)
                    && old(self).current_token.token_type != token_type),
            },
            ({
                let (res, st2) = spec_eat(old(self).absp(), token_type);
                final(self).absp() == st2 && match (r, res) {
                    (Ok(_), Ok(_)) => true,
                    (Err(e), Err(ea)) => e.abs() == ea,
                    _ => false,
                }
            }),
    {
        if self.current_token.token_type() == token_type {
            let next = self.lexer.get_next_token()?;
            self.current_token = next;
            return Ok(());
        }
        Err(RuntimeError::UnexpectedToken(self.current_token.clone(), token_type))
    }

    /// `factor -> INTEGER_CONST | REAL_CONST | ( expr ) | (+|-) factor
    /// | variable`.
    fn factor(&mut self) -> (r: Result<Expr, RuntimeError>)
        requires
            old(self).wf(),
        ensures
            final(self).wf(),
            final(self).measure() <= old(self).measure(),
            match r {
                Ok(_) => true,
                Err(e) => expr_err(e),
            },
            ({
                let (res, st2) = spec_factor(old(self).absp());
                final(self).absp() == st2 && match (r, res) {
                    (Ok(node), Ok(a)) => crate::ast::abs_expr(node) == a,
                    (Err(e), Err(ea)) => e.abs() == ea,
                    _ => false,
                }
            }),
        decreases old(self).measure(), 1int,
    {
        match self.current_token.token_type() {
            TokenType::IntegerConst | TokenType::FloatConst => {
                let token = self.current_token.clone();
                self.eat(token.token_type())?;
                Ok(Expr::Num(NumNode { token }))
            },
            TokenType::Lparen => {
                self.eat(TokenType::Lparen)?;
                let result = self.expr()?;
                self.eat(TokenType::Rparen)?;
                Ok(result)
            },
            TokenType::Plus | TokenType::Minus => {
                let token = self.current_token.clone();
                self.eat(token.token_type())?;
                let arg = self.factor()?;
                Ok(Expr::UnaryOp(Box::new(UnaryOpNode { op: token, node: arg })))
            },
            TokenType::Identifier => {
                let variable = self.variable()?;
                Ok(Expr::Var(variable))
            },
            // A token that can start no factor is reported against the
            // end-of-input kind, there being no single expected kind.
            _ => Err(
                RuntimeError::UnexpectedToken(self.current_token.clone(), TokenType::EOF),
            ),
        }
    }

    /// `term -> factor ((*|/|DIV) factor)*`.
    fn term(&mut self) -> (r: Result<Expr, RuntimeError>)
        requires
            old(self).wf(),
        ensures
            final(self).wf(),
            final(self).measure() <= old(self).measure(),
            match r {
                Ok(_) => true,
                Err(e) => expr_err(e),
            },
            ({
                let (res, st2) = spec_term(old(self).absp());
                final(self).absp() == st2 && match (r, res) {
                    (Ok(node), Ok(a)) => crate::ast::abs_expr(node) == a,
                    (Err(e), Err(ea)) => e.abs() == ea,
                    _ => false,
                }
            }),
        decreases old(self).measure(), 2int,
    {
        let mut node = self.factor()?;
        while self.current_token.token_type() == TokenType::Multiply
            || self.current_token.token_type() == TokenType::Division
            || self.current_token.token_type() == TokenType::IntegerDivision
            invariant
                self.wf(),
                self.measure() <= old(self).measure(),
                spec_term(old(self).absp()) == spec_term_rest(
                    crate::ast::abs_expr(node),
                    self.absp(),
                ),
            decreases self.measure(),
        {
            let token = self.current_token.clone();
            self.eat(token.token_type())?;
            let rhs = self.factor()?;
            node = Expr::BinaryOp(Box::new(BinaryOpNode { left_side: node, op: token, right_side: rhs }));
        }
        Ok(node)
    }

    /// `expr -> term ((+|-) term)*`.
    fn expr(&mut self) -> (r: Result<Expr, RuntimeError>)
        requires
            old(self).wf(),
        ensures
            final(self).wf(),
            final(self).measure() <= old(self).measure(),
            match r {
                Ok(_) => true,
                Err(e) => expr_err(e),
            },
            ({
                let (res, st2) = spec_expr(old(self).absp());
                final(self).absp() == st2 && match (r, res) {
                    (Ok(node), Ok(a)) => crate::ast::abs_expr(node) == a,
                    (Err(e), Err(ea)) => e.abs() == ea,
                    _ => false,
                }
            }),
        decreases old(self).measure(), 3int,
    {
        let mut node = self.term()?;
        while self.current_token.token_type() == TokenType::Plus
            || self.current_token.token_type() == TokenType::Minus
            invariant
                self.wf(),
                self.measure() <= old(self).measure(),
                spec_expr(old(self).absp()) == spec_expr_rest(
                    crate::ast::abs_expr(node),
                    self.absp(),
                ),
            decreases self.measure(),
        {
            let token = self.current_token.clone();
            self.eat(token.token_type())?;
            let rhs = self.term()?;
            node = Expr::BinaryOp(Box::new(BinaryOpNode { left_side: node, op: token, right_side: rhs }));
        }
        Ok(node)
    }

    /// `variable -> ID`.
    fn variable(&mut self) -> (r: Result<VarNode, RuntimeError>)
        requires
            old(self).wf(),
        ensures
            final(self).wf(),
            final(self).measure() <= old(self).measure(),
            match r {
                Ok(v) => v.name == old(self).current_token && old(self).current_token.token_type
                    == TokenType::Identifier,
                Err(e) => expr_err(e),
            },
            ({
                let (res, st2) = spec_variable(old(self).absp());
                final(self).absp() == st2 && match (r, res) {
                    (Ok(v), Ok(a)) => v.name.abs() == a,
                    (Err(e), Err(ea)) => e.abs() == ea,
                    _ => false,
                }
            }),
        decreases old(self).measure(), 0int,
    {
        let name = self.current_token.clone();
        self.eat(TokenType::Identifier)?;
        Ok(VarNode { name })
    }

    /// `assignment_statement -> variable : = expr`.
    fn assignment_statement(&mut self) -> (r: Result<AssignmentNode, RuntimeError>)
        requires
            old(self).wf(),
        ensures
            final(self).wf(),
            final(self).measure() <= old(self).measure(),
            match r {
                Ok(_) => true,
                Err(e) => expr_err(e),
            },
            ({
                let (res, st2) = spec_assignment(old(self).absp());
                final(self).absp() == st2 && match (r, res) {
                    (Ok(node), Ok(a)) => StmtA::Assignment(
                        node.left.name.abs(),
                        crate::ast::abs_expr(node.right),
                    ) == a,
                    (Err(e), Err(ea)) => e.abs() == ea,
                    _ => false,
                }
            }),
        decreases old(self).measure(), 4int,
    {
        let left = self.variable()?;
        self.eat(TokenType::Colon)?;
        self.eat(TokenType::Assignment)?;
        let right = self.expr()?;
        Ok(AssignmentNode { left, right })
    }

    /// `proccall_statement -> ID ( (expr (, expr)*)? )`; the call site is
    /// born unresolved — analysis fills the binding in later.
    fn proccall_statement(&mut self) -> (r: Result<ProcedureCallNode, RuntimeError>)
        requires
            old(self).wf(),
        ensures
            final(self).wf(),
            final(self).measure() <= old(self).measure(),
            match r {
                Ok(p) => p.proc_symbol is None,
                Err(e) => expr_err(e),
            },
            ({
                let (res, st2) = spec_proccall(old(self).absp());
                final(self).absp() == st2 && match (r, res) {
                    (Ok(node), Ok(a)) => crate::ast::abs_call(node) == a,
                    (Err(e), Err(ea)) => e.abs() == ea,
                    _ => false,
                }
            }),
        decreases old(self).measure(), 4int,
    {
        let ghost orig = *self;
        let proc_name = self.current_token.literal().clone();
        self.eat(TokenType::Identifier)?;
        self.eat(TokenType::Lparen)?;
        let mut actual_params: Vec<Expr> = Vec::new();
        if self.current_token.token_type() != TokenType::Rparen {
            let node = self.expr()?;
            actual_params.push(node);
            proof {
                crate::ast::lemma_abs_exprs_push(Seq::empty(), node);
                assert(crate::ast::abs_exprs(Seq::<Expr>::empty()) =~= Seq::<ExprA>::empty());
                assert(crate::ast::abs_exprs(actual_params@) =~= seq![crate::ast::abs_expr(node)]);
            }
        } else {
            proof {
                assert(crate::ast::abs_exprs(actual_params@) =~= Seq::<ExprA>::empty());
            }
        }
        while self.current_token.token_type() == TokenType::Comma
            invariant
                orig == *old(self),
                self.wf(),
                self.measure() <= old(self).measure(),
                ({
                    let rest = spec_args_rest(
                        crate::ast::abs_exprs(actual_params@),
                        self.absp(),
                    );
                    spec_proccall(orig.absp()) == match rest.0 {
                        Err(e) => (Err::<CallA, ErrA>(e), rest.1),
                        Ok(args) => {
                            let (r4, st4) = spec_eat(rest.1, TokenType::Rparen);
                            match r4 {
                                Ok(_) => (
                                    Ok::<CallA, ErrA>(
                                        CallA {
                                            name: orig.absp().tok.value,
                                            actual_params: args,
                                            proc_symbol: None,
                                        },
                                    ),
                                    st4,
                                ),
                                Err(e) => (Err::<CallA, ErrA>(e), st4),
                            }
                        },
                    }
                }),
            decreases self.measure(),
        {
            let ghost entry = *self;
            self.eat(TokenType::Comma)?;
            let node = self.expr()?;
            proof {
                crate::ast::lemma_abs_exprs_push(actual_params@, node);
            }
            actual_params.push(node);
        }
        self.eat(TokenType::Rparen)?;
        Ok(ProcedureCallNode { name: proc_name, actual_params, proc_symbol: None })
    }

    /// The empty statement.
    fn empty(&self) -> (r: NoOpNode)
    {
        NoOpNode {  }
    }

    /// `statement -> compound_statement | proccall_statement
    /// | assignment_statement | empty`; a statement that begins with an
    /// identifier is a procedure call exactly when the lexer reports `(`
    /// as the next raw character after the identifier.
    fn statement(&mut self) -> (r: Result<Statement, RuntimeError>)
        requires
            old(self).wf(),
        ensures
            final(self).wf(),
            final(self).measure() <= old(self).measure(),
            match r {
                Ok(_) => true,
                Err(e) => expr_err(e),
            },
            ({
                let (res, st2) = spec_statement(old(self).absp());
                final(self).absp() == st2 && match (r, res) {
                    (Ok(node), Ok(a)) => crate::ast::abs_stmt(node) == a,
                    (Err(e), Err(ea)) => e.abs() == ea,
                    _ => false,
                }
            }),
        decreases old(self).measure(), 5int,
    {
        match self.current_token.token_type() {
            TokenType::Begin => {
                let compound = self.compound_statement(TokenType::Begin, TokenType::End)?;
                Ok(Statement::Compound(compound))
            },
            TokenType::Identifier => {
                match self.lexer.get_current_char() {
                    Some(c) if c == '(' => {
                        let call = self.proccall_statement()?;
                        Ok(Statement::ProcedureCall(call))
                    },
                    _ => {
                        let assignment = self.assignment_statement()?;
                        Ok(Statement::Assignment(assignment))
                    },
                }
            },
            _ => Ok(Statement::NoOp(self.empty())),
        }
    }

    /// `compound_statement -> BEGIN statement (; statement)* END`.
    fn compound_statement(&mut self, begin: TokenType, end: TokenType) -> (r: Result<
        CompoundStatementNode,
        RuntimeError,
    >)
        requires
            old(self).wf(),
            begin != TokenType::EOF,
            end != TokenType::EOF,
        ensures
            final(self).wf(),
            final(self).measure() <= old(self).measure(),
            match r {
                Ok(_) => true,
                Err(e) => expr_err(e),
            },
            ({
                let (res, st2) = spec_compound(old(self).absp(), begin, end);
                final(self).absp() == st2 && match (r, res) {
                    (Ok(node), Ok(a)) => crate::ast::abs_stmts(node.child_statements@) == a,
                    (Err(e), Err(ea)) => e.abs() == ea,
                    _ => false,
                }
            }),
        decreases old(self).measure(), 4int,
    {
        self.eat(begin)?;
        let statements = self.statement_list()?;
        self.eat(end)?;
        Ok(CompoundStatementNode { child_statements: statements })
    }

    /// `statement_list -> statement (; statement)*`.
    fn statement_list(&mut self) -> (r: Result<Vec<Statement>, RuntimeError>)
        requires
            old(self).wf(),
        ensures
            final(self).wf(),
            final(self).measure() <= old(self).measure(),
            match r {
                Ok(_) => true,
                Err(e) => expr_err(e),
            },
            ({
                let (res, st2) = spec_statement_list(old(self).absp());
                final(self).absp() == st2 && match (r, res) {
                    (Ok(node), Ok(a)) => crate::ast::abs_stmts(node@) == a,
                    (Err(e), Err(ea)) => e.abs() == ea,
                    _ => false,
                }
            }),
        decreases old(self).measure(), 6int,
    {
        let node = self.statement()?;
        let mut statements: Vec<Statement> = Vec::new();
        statements.push(node);
        proof {
            crate::ast::lemma_abs_stmts_push(Seq::empty(), node);
            assert(crate::ast::abs_stmts(Seq::<Statement>::empty()) =~= Seq::<StmtA>::empty());
            assert(crate::ast::abs_stmts(statements@) =~= seq![crate::ast::abs_stmt(node)]);
        }
        while self.current_token.token_type() == TokenType::Semi
            invariant
                self.wf(),
                self.measure() <= old(self).measure(),
                spec_statement_list(old(self).absp()) == spec_stmt_list_rest(
                    crate::ast::abs_stmts(statements@),
                    self.absp(),
                ),
            decreases self.measure(),
        {
            self.eat(TokenType::Semi)?;
            let next = self.statement()?;
            proof {
                crate::ast::lemma_abs_stmts_push(statements@, next);
            }
            statements.push(next);
        }
        Ok(statements)
    }

    /// `type_spec -> INTEGER | REAL`; any other token is an unknown type
    /// name.
    fn type_spec(&mut self) -> (r: Result<TypeNode, RuntimeError>)
        requires
            old(self).wf(),
        ensures
            final(self).wf(),
            final(self).measure() <= old(self).measure(),
            match r {
                Ok(t) => t.token.token_type == TokenType::IntegerType || t.token.token_type
                    == TokenType::FloatType,
                Err(e) => parse_err(e),
            },
            ({
                let (res, st2) = spec_type_spec(old(self).absp());
                final(self).absp() == st2 && match (r, res) {
                    (Ok(t), Ok(a)) => t.token.abs() == a,
                    (Err(e), Err(ea)) => e.abs() == ea,
                    _ => false,
                }
            }),
        decreases old(self).measure(), 1int,
    {
        match self.current_token.token_type() {
            TokenType::IntegerType | TokenType::FloatType => {
                let token = self.current_token.clone();
                self.eat(token.token_type())?;
                Ok(TypeNode { token })
            },
            _ => {
                let name = match self.current_token.literal() {
                    Literal::Text(s) => s.clone(),
                    _ => String::new(),
                };
                Err(RuntimeError::UnknownType(name))
            },
        }
    }

    /// `variable_declarations -> ID (, ID)* : type_spec`, one declaration
    /// node per declared name.
    fn variable_declarations(&mut self) -> (r: Result<Vec<Declaration>, RuntimeError>)
        requires
            old(self).wf(),
        ensures
            final(self).wf(),
            final(self).measure() <= old(self).measure(),
            match r {
                Ok(_) => old(self).current_token.token_type == TokenType::Identifier
                    && final(self).measure() < old(self).measure(),
                Err(e) => parse_err(e),
            },
            ({
                let (res, st2) = spec_variable_declarations(old(self).absp());
                final(self).absp() == st2 && match (r, res) {
                    (Ok(node), Ok(a)) => crate::ast::abs_decls(node@) == a,
                    (Err(e), Err(ea)) => e.abs() == ea,
                    _ => false,
                }
            }),
        decreases old(self).measure(), 4int,
    {
        let ghost orig = *self;
        let mut variables: Vec<VarNode> = Vec::new();
        variables.push(VarNode { name: self.current_token.clone() });
        self.eat(TokenType::Identifier)?;
        proof {
            assert(variables@.map_values(|v: VarNode| v.name.abs()) =~= seq![
                orig.absp().tok,
            ]);
        }
        while self.current_token.token_type() == TokenType::Comma
            invariant
                orig == *old(self),
                self.wf(),
                self.measure() < old(self).measure(),
                ({
                    let rest = spec_name_list_rest(
                        variables@.map_values(|v: VarNode| v.name.abs()),
                        self.absp(),
                    );
                    spec_name_group(orig.absp()) == match rest.0 {
                        Err(e) => (Err::<(Seq<TokA>, TokA), ErrA>(e), rest.1),
                        Ok(names) => {
                            let (r3, st3) = spec_eat(rest.1, TokenType::Colon);
                            match r3 {
                                Err(e) => (Err::<(Seq<TokA>, TokA), ErrA>(e), st3),
                                Ok(_) => {
                                    let (r4, st4) = spec_type_spec(st3);
                                    match r4 {
                                        Ok(ty) => (
                                            Ok::<(Seq<TokA>, TokA), ErrA>((names, ty)),
                                            st4,
                                        ),
                                        Err(e) => (Err::<(Seq<TokA>, TokA), ErrA>(e), st4),
                                    }
                                },
                            }
                        },
                    }
                }),
            decreases self.measure(),
        {
            self.eat(TokenType::Comma)?;
            let ghost before = variables@;
            variables.push(VarNode { name: self.current_token.clone() });
            self.eat(TokenType::Identifier)?;
            proof {
                assert(variables@.map_values(|v: VarNode| v.name.abs()) =~= before.map_values(
                    |v: VarNode| v.name.abs(),
                ).push(variables@.last().name.abs()));
            }
        }
        self.eat(TokenType::Colon)?;
        let type_spec = self.type_spec()?;
        let ghost group = (
            variables@.map_values(|v: VarNode| v.name.abs()),
            type_spec.token.abs(),
        );
        let mut variable_declarations: Vec<Declaration> = Vec::new();
        let n = variables.len();
        let mut i: usize = 0;
        proof {
            assert(crate::ast::abs_decls(variable_declarations@) =~= group.0.map_values(
                |na: TokA| DeclA::VarDecl(na, group.1),
            ).take(0));
        }
        while i < n
            invariant
                i <= n,
                n == variables@.len(),
                type_spec.token.token_type == TokenType::IntegerType || type_spec.token.token_type
                    == TokenType::FloatType,
                group == (
                    variables@.map_values(|v: VarNode| v.name.abs()),
                    type_spec.token.abs(),
                ),
                crate::ast::abs_decls(variable_declarations@) == group.0.map_values(
                    |na: TokA| DeclA::VarDecl(na, group.1),
                ).take(i as int),
            decreases n - i,
        {
            let ghost before = variable_declarations@;
            let d = Declaration::VarDecl(
                VarDeclNode {
                    var: VarNode { name: variables[i].name.clone() },
                    type_spec: TypeNode { token: type_spec.token.clone() },
                },
            );
            proof {
                crate::ast::lemma_abs_decls_push(before, d);
            }
            variable_declarations.push(d);
            i = i + 1;
            proof {
                assert(crate::ast::abs_decls(variable_declarations@) =~= group.0.map_values(
                    |na: TokA| DeclA::VarDecl(na, group.1),
                ).take(i as int));
            }
        }
        proof {
            assert(group.0.map_values(|na: TokA| DeclA::VarDecl(na, group.1)).take(n as int)
                =~= group.0.map_values(|na: TokA| DeclA::VarDecl(na, group.1)));
        }
        Ok(variable_declarations)
    }

    /// `formal_parameters -> ID (, ID)* : type_spec`, one parameter node
    /// per declared name.
    fn formal_parameters(&mut self) -> (r: Result<Vec<ParamNode>, RuntimeError>)
        requires
            old(self).wf(),
        ensures
            final(self).wf(),
            final(self).measure() <= old(self).measure(),
            match r {
                Ok(_) => final(self).measure() < old(self).measure(),
                Err(e) => parse_err(e),
            },
            ({
                let (res, st2) = spec_formal_parameters(old(self).absp());
                final(self).absp() == st2 && match (r, res) {
                    (Ok(node), Ok(a)) => node@.map_values(
                        |p: ParamNode| (p.var.name.abs(), p.param_type.token.abs()),
                    ) == a,
                    (Err(e), Err(ea)) => e.abs() == ea,
                    _ => false,
                }
            }),
        decreases old(self).measure(), 2int,
    {
        let ghost orig = *self;
        let mut param_tokens: Vec<Token> = Vec::new();
        param_tokens.push(self.current_token.clone());
        self.eat(TokenType::Identifier)?;
        proof {
            assert(param_tokens@.map_values(|t: Token| t.abs()) =~= seq![orig.absp().tok]);
        }
        while self.current_token.token_type() == TokenType::Comma
            invariant
                orig == *old(self),
                self.wf(),
                self.measure() < old(self).measure(),
                ({
                    let rest = spec_name_list_rest(
                        param_tokens@.map_values(|t: Token| t.abs()),
                        self.absp(),
                    );
                    spec_name_group(orig.absp()) == match rest.0 {
                        Err(e) => (Err::<(Seq<TokA>, TokA), ErrA>(e), rest.1),
                        Ok(names) => {
                            let (r3, st3) = spec_eat(rest.1, TokenType::Colon);
                            match r3 {
                                Err(e) => (Err::<(Seq<TokA>, TokA), ErrA>(e), st3),
                                Ok(_) => {
                                    let (r4, st4) = spec_type_spec(st3);
                                    match r4 {
                                        Ok(ty) => (
                                            Ok::<(Seq<TokA>, TokA), ErrA>((names, ty)),
                                            st4,
                                        ),
                                        Err(e) => (Err::<(Seq<TokA>, TokA), ErrA>(e), st4),
                                    }
                                },
                            }
                        },
                    }
                }),
            decreases self.measure(),
        {
            self.eat(TokenType::Comma)?;
            let ghost before = param_tokens@;
            param_tokens.push(self.current_token.clone());
            self.eat(TokenType::Identifier)?;
            proof {
                assert(param_tokens@.map_values(|t: Token| t.abs()) =~= before.map_values(
                    |t: Token| t.abs(),
                ).push(param_tokens@.last().abs()));
            }
        }
        self.eat(TokenType::Colon)?;
        let type_node = self.type_spec()?;
        let ghost group = (param_tokens@.map_values(|t: Token| t.abs()), type_node.token.abs());
        let mut param_nodes: Vec<ParamNode> = Vec::new();
        let n = param_tokens.len();
        let mut i: usize = 0;
        while i < n
            invariant
                i <= n,
                n == param_tokens@.len(),
                group == (param_tokens@.map_values(|t: Token| t.abs()), type_node.token.abs()),
                param_nodes@.len() == i as int,
                param_nodes@.map_values(
                    |p: ParamNode| (p.var.name.abs(), p.param_type.token.abs()),
                ) == group.0.map_values(|na: TokA| (na, group.1)).take(i as int),
            decreases n - i,
        {
            let ghost before = param_nodes@;
            param_nodes.push(
                ParamNode {
                    var: VarNode { name: param_tokens[i].clone() },
                    param_type: TypeNode { token: type_node.token.clone() },
                },
            );
            i = i + 1;
            proof {
                assert(param_nodes@.map_values(
                    |p: ParamNode| (p.var.name.abs(), p.param_type.token.abs()),
                ) =~= group.0.map_values(|na: TokA| (na, group.1)).take(i as int));
            }
        }
        proof {
            assert(group.0.map_values(|na: TokA| (na, group.1)).take(n as int) =~= group.0.map_values(
                |na: TokA| (na, group.1),
            ));
        }
        Ok(param_nodes)
    }

    /// `formal_parameter_list -> (formal_parameters (; formal_parameters)*)?`.
    fn formal_parameter_list(&mut self) -> (r: Result<Vec<ParamNode>, RuntimeError>)
        requires
            old(self).wf(),
        ensures
            final(self).wf(),
            final(self).measure() <= old(self).measure(),
            match r {
                Ok(_) => true,
                Err(e) => parse_err(e),
            },
            ({
                let (res, st2) = spec_formal_parameter_list(old(self).absp());
                final(self).absp() == st2 && match (r, res) {
                    (Ok(node), Ok(a)) => node@.map_values(
                        |p: ParamNode| (p.var.name.abs(), p.param_type.token.abs()),
                    ) == a,
                    (Err(e), Err(ea)) => e.abs() == ea,
                    _ => false,
                }
            }),
        decreases old(self).measure(), 3int,
    {
        let ghost orig = *self;
        if self.current_token.token_type() != TokenType::Identifier {
            let empty: Vec<ParamNode> = Vec::new();
            proof {
                assert(empty@.map_values(
                    |p: ParamNode| (p.var.name.abs(), p.param_type.token.abs()),
                ) =~= Seq::<(TokA, TokA)>::empty());
            }
            return Ok(empty);
        }
        let mut param_nodes = self.formal_parameters()?;
        while self.current_token.token_type() == TokenType::Semi
            invariant
                orig == *old(self),
                self.wf(),
                self.measure() < old(self).measure(),
                spec_formal_parameter_list(orig.absp()) == spec_fpl_rest(
                    param_nodes@.map_values(
                        |p: ParamNode| (p.var.name.abs(), p.param_type.token.abs()),
                    ),
                    self.absp(),
                ),
            decreases self.measure(),
        {
            self.eat(TokenType::Semi)?;
            let mut params = self.formal_parameters()?;
            let ghost before = param_nodes@;
            let ghost added = params@;
            param_nodes.append(&mut params);
            proof {
                assert(param_nodes@.map_values(
                    |p: ParamNode| (p.var.name.abs(), p.param_type.token.abs()),
                ) =~= before.map_values(
                    |p: ParamNode| (p.var.name.abs(), p.param_type.token.abs()),
                ) + added.map_values(
                    |p: ParamNode| (p.var.name.abs(), p.param_type.token.abs()),
                ));
            }
        }
        Ok(param_nodes)
    }

    /// `procedure_declaration -> PROCEDURE ID (( formal_parameter_list ))?
    /// ; block ;`.
    fn procedure_declaration(&mut self) -> (r: Result<ProcedureDeclNode, RuntimeError>)
        requires
            old(self).wf(),
            old(self).current_token.token_type == TokenType::Procedure,
        ensures
            final(self).wf(),
            final(self).measure() <= old(self).measure(),
            match r {
                Ok(_) => final(self).measure() < old(self).measure(),
                Err(e) => parse_err(e),
            },
            ({
                let (res, st2) = spec_procedure_declaration(old(self).absp());
                final(self).absp() == st2 && match (r, res) {
                    (Ok(node), Ok(a)) => crate::ast::abs_decl(Declaration::ProcDecl(node)) == a,
                    (Err(e), Err(ea)) => e.abs() == ea,
                    _ => false,
                }
            }),
        decreases old(self).measure(), 5int,
    {
        self.eat(TokenType::Procedure)?;
        let proc_name = self.current_token.literal().clone();
        self.eat(TokenType::Identifier)?;
        let mut params: Vec<ParamNode> = Vec::new();
        if self.current_token.token_type() == TokenType::Lparen {
            self.eat(TokenType::Lparen)?;
            params = self.formal_parameter_list()?;
            self.eat(TokenType::Rparen)?;
        } else {
            proof {
                assert(params@.map_values(
                    |p: ParamNode| (p.var.name.abs(), p.param_type.token.abs()),
                ) =~= Seq::<(TokA, TokA)>::empty());
            }
        }
        self.eat(TokenType::Semi)?;
        let block_node = self.block()?;
        let proc_decl = ProcedureDeclNode { name: proc_name, params, block: block_node };
        self.eat(TokenType::Semi)?;
        Ok(proc_decl)
    }

    /// `declarations -> (VAR (variable_declarations ;)+)?
    /// procedure_declaration*`.
    fn declarations(&mut self) -> (r: Result<Vec<Declaration>, RuntimeError>)
        requires
            old(self).wf(),
        ensures
            final(self).wf(),
            final(self).measure() <= old(self).measure(),
            match r {
                Ok(_) => true,
                Err(e) => parse_err(e),
            },
            ({
                let (res, st2) = spec_declarations(old(self).absp());
                final(self).absp() == st2 && match (r, res) {
                    (Ok(node), Ok(a)) => crate::ast::abs_decls(node@) == a,
                    (Err(e), Err(ea)) => e.abs() == ea,
                    _ => false,
                }
            }),
        decreases old(self).measure(), 6int,
    {
        let ghost orig = *self;
        let mut declarations: Vec<Declaration> = Vec::new();
        proof {
            assert(crate::ast::abs_decls(declarations@) =~= Seq::<DeclA>::empty());
        }
        if self.current_token.token_type() == TokenType::Var {
            self.eat(TokenType::Var)?;
            while self.current_token.token_type() == TokenType::Identifier
                invariant
                    orig == *old(self),
                    self.wf(),
                    self.measure() < old(self).measure(),
                    ({
                        let vars_rest = spec_var_decl_loop(
                            crate::ast::abs_decls(declarations@),
                            self.absp(),
                        );
                        spec_declarations(orig.absp()) == match vars_rest.0 {
                            Err(e) => (Err::<Seq<DeclA>, ErrA>(e), vars_rest.1),
                            Ok(ds) => if pmeasure(vars_rest.1) <= pmeasure(orig.absp()) {
                                spec_proc_decl_loop(ds, vars_rest.1)
                            } else {
                                (Ok::<Seq<DeclA>, ErrA>(ds), vars_rest.1)
                            },
                        }
                    }),
                decreases self.measure(),
            {
                let mut var_declarations = self.variable_declarations()?;
                let ghost before = declarations@;
                let ghost added = var_declarations@;
                declarations.append(&mut var_declarations);
                proof {
                    crate::ast::lemma_abs_decls_concat(before, added);
                }
                self.eat(TokenType::Semi)?;
            }
        }
        while self.current_token.token_type() == TokenType::Procedure
            invariant
                orig == *old(self),
                self.wf(),
                self.measure() <= old(self).measure(),
                spec_declarations(orig.absp()) == spec_proc_decl_loop(
                    crate::ast::abs_decls(declarations@),
                    self.absp(),
                ),
            decreases self.measure(),
        {
            let proc_decl = self.procedure_declaration()?;
            let ghost before = declarations@;
            let d = Declaration::ProcDecl(proc_decl);
            proof {
                crate::ast::lemma_abs_decls_push(before, d);
            }
            declarations.push(d);
        }
        Ok(declarations)
    }

    /// `block -> declarations compound_statement`.
    fn block(&mut self) -> (r: Result<BlockNode, RuntimeError>)
        requires
            old(self).wf(),
        ensures
            final(self).wf(),
            final(self).measure() <= old(self).measure(),
            match r {
                Ok(_) => true,
                Err(e) => parse_err(e),
            },
            ({
                let (res, st2) = spec_block(old(self).absp());
                final(self).absp() == st2 && match (r, res) {
                    (Ok(node), Ok(a)) => crate::ast::abs_block(node) == a,
                    (Err(e), Err(ea)) => e.abs() == ea,
                    _ => false,
                }
            }),
        decreases old(self).measure(), 7int,
    {
        let declarations = self.declarations()?;
        let compound = self.compound_statement(TokenType::Begin, TokenType::End)?;
        Ok(BlockNode { declarations, compound_statement: compound })
    }

    /// `program -> PROGRAM ID ; block .`.
    fn program(&mut self) -> (r: Result<ProgramNode, RuntimeError>)
        requires
            old(self).wf(),
        ensures
            final(self).wf(),
            match r {
                Ok(_) => true,
                Err(e) => parse_err(e),
            },
            ({
                let (res, st2) = spec_program(old(self).absp());
                final(self).absp() == st2 && match (r, res) {
                    (Ok(node), Ok(a)) => crate::ast::abs_program(node) == a,
                    (Err(e), Err(ea)) => e.abs() == ea,
                    _ => false,
                }
            }),
        decreases old(self).measure(), 8int,
    {
        self.eat(TokenType::Program)?;
        let prog_name = self.current_token.literal().clone();
        self.eat(TokenType::Identifier)?;
        self.eat(TokenType::Semi)?;
        let block_node = self.block()?;
        self.eat(TokenType::Dot)?;
        Ok(ProgramNode { name: prog_name, block: block_node })
    }

    /// Parses the whole source into a program tree.  Any failure is one
    /// error value — an unexpected token, an unknown type name, or a
    /// refused character — and no partial tree is returned.
    pub fn parse(&mut self) -> (r: Result<ProgramNode, RuntimeError>)
        requires
            old(self).wf(),
        ensures
            final(self).wf(),
            match r {
                Ok(_) => true,
                Err(e) => parse_err(e),
            },
            ({
                let (res, st2) = spec_program(old(self).absp());
                final(self).absp() == st2 && match (r, res) {
                    (Ok(node), Ok(a)) => crate::ast::abs_program(node) == a,
                    (Err(e), Err(ea)) => e.abs() == ea,
                    _ => false,
                }
            }),
    {
        self.program()
    }
}

} // verus!
