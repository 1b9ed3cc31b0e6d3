use vstd::prelude::*;
use crate::ast::{
    AssignmentNode, BlockNode, CompoundStatementNode, Expr, ProcedureCallNode, ProgramNode,
    Statement,
};
use crate::error::{ErrA, RuntimeError};
use crate::literal::{spec_add, spec_div, spec_mul, spec_rem, spec_sub, Literal, RealOps, Val};
use crate::record::{abs_members, abs_stack, ARCallStack, ARType, ActivationRecord, FrameA};
use crate::symbols::{Symbol, Type};
use crate::text::lower_seq;
use crate::token::{Token, TokenType};

verus! {

broadcast use
    vstd::std_specs::vec::group_vec_axioms,
    vstd::seq::axiom_seq_index_decreases,
    vstd::seq::axiom_seq_subrange_decreases;

/// The evaluator's state as the specifications see it: the call stack and
/// the trace of returned frames, both abstracted frame-wise.
#[verifier::ext_equal]
pub ghost struct EvalState {
    pub stack: Seq<FrameA>,
    pub trace: Seq<FrameA>,
}

/// The member mapping of the active frame, or `None` when no frame is
/// active.
pub open spec fn top_members(st: EvalState) -> Option<Map<Seq<char>, Val>> {
    if st.stack.len() > 0 {
        Some(st.stack.last().members)
    } else {
        None
    }
}

/// What a binary operator token yields on two evaluated operands: the
/// value-model operation of its kind, a division-by-zero failure exactly
/// when the divisor of `/`, `DIV` or `%` is the integer zero, an
/// unsupported-operand failure when the value model defines no result,
/// and an unhandled-operator failure for any other token kind.
pub open spec fn binop_eval(op: Token, l: Val, r: Val) -> Result<Val, ErrA> {
    match op.token_type {
        TokenType::Plus => match spec_add(l, r) {
            Some(v) => Ok(v),
            None => Err(ErrA::UnsupportedArgumentTypeByOp(op.abs())),
        },
        TokenType::Minus => match spec_sub(l, r) {
            Some(v) => Ok(v),
            None => Err(ErrA::UnsupportedArgumentTypeByOp(op.abs())),
        },
        TokenType::Multiply => match spec_mul(l, r) {
            Some(v) => Ok(v),
            None => Err(ErrA::UnsupportedArgumentTypeByOp(op.abs())),
        },
        TokenType::Division | TokenType::IntegerDivision => if r == Val::Int(0) {
            Err(ErrA::DivisionByZero)
        } else {
            match spec_div(l, r) {
                Some(v) => Ok(v),
                None => Err(ErrA::UnsupportedArgumentTypeByOp(op.abs())),
            }
        },
        TokenType::Modulus => if r == Val::Int(0) {
            Err(ErrA::DivisionByZero)
        } else {
            match spec_rem(l, r) {
                Some(v) => Ok(v),
                None => Err(ErrA::UnsupportedArgumentTypeByOp(op.abs())),
            }
        },
        _ => Err(ErrA::UnhandledBinaryOp(op.abs())),
    }
}

/// What a unary operator token yields: `+` and `-` combine the operand
/// with an integer zero on the left, exactly as the binary operators do.
pub open spec fn unop_eval(op: Token, v: Val) -> Result<Val, ErrA> {
    match op.token_type {
        TokenType::Plus => match spec_add(Val::Int(0), v) {
            Some(w) => Ok(w),
            None => Err(ErrA::UnsupportedArgumentTypeByOp(op.abs())),
        },
        TokenType::Minus => match spec_sub(Val::Int(0), v) {
            Some(w) => Ok(w),
            None => Err(ErrA::UnsupportedArgumentTypeByOp(op.abs())),
        },
        _ => Err(ErrA::UnhandledUnaryOp(op.abs())),
    }
}

/// What evaluating an expression against the active frame's members
/// yields.  A literal yields its value (a real constant its host-supplied
/// real); a variable yields the member bound to its lower-cased name in
/// the active frame alone — never an enclosing frame — or fails naming
/// the variable as written; operands are evaluated left before right,
/// errors propagating from the leftmost failing operand.
pub open spec fn expr_eval(e: Expr, m: Option<Map<Seq<char>, Val>>) -> Result<Val, ErrA>
    decreases e,
{
    match e {
        Expr::Num(n) => match n.token.token_type {
            TokenType::FloatConst => match n.token.literal {
                Literal::Text(_) => Ok(Val::Real),
                _ => Err(ErrA::IllformedVarExpr),
            },
            _ => Ok(n.token.literal.abs()),
        },
        Expr::Var(v) => match v.name.literal {
            Literal::Text(s) => match m {
                None => Err(ErrA::StackUnderflow),
                Some(members) => if members.contains_key(lower_seq(s@)) {
                    Ok(members[lower_seq(s@)])
                } else {
                    Err(ErrA::UndefinedVariable(s@))
                },
            },
            _ => Err(ErrA::IllformedVarExpr),
        },
        Expr::BinaryOp(b) => match expr_eval(b.left_side, m) {
            Err(e) => Err(e),
            Ok(l) => match expr_eval(b.right_side, m) {
                Err(e) => Err(e),
                Ok(r) => binop_eval(b.op, l, r),
            },
        },
        Expr::UnaryOp(u) => match expr_eval(u.node, m) {
            Err(e) => Err(e),
            Ok(v) => unop_eval(u.op, v),
        },
    }
}

/// What evaluating a sequence of expressions left to right yields: the
/// values in order, or the first error.
pub open spec fn exprs_eval(es: Seq<Expr>, m: Option<Map<Seq<char>, Val>>) -> Result<
    Seq<Val>,
    ErrA,
>
    decreases es.len(),
{
    if es.len() == 0 {
        Ok(Seq::empty())
    } else {
        match expr_eval(es[0], m) {
            Err(e) => Err(e),
            Ok(v) => match exprs_eval(es.subrange(1, es.len() as int), m) {
                Err(e) => Err(e),
                Ok(vs) => Ok(seq![v] + vs),
            },
        }
    }
}

/// A result abstracted value-wise; see [`Val`] and [`ErrA`].
pub open spec fn res_abs(r: Result<Literal, RuntimeError>) -> Result<Val, ErrA> {
    match r {
        Ok(v) => Ok(v.abs()),
        Err(e) => Err(e.abs()),
    }
}

/// The members of an optional frame, abstracted.
pub open spec fn frame_members(f: Option<&ActivationRecord>) -> Option<Map<Seq<char>, Val>> {
    match f {
        Some(fr) => Some(abs_members(fr.members@)),
        None => None,
    }
}

/// Applies a binary operator token to two evaluated operands; see
/// [`binop_eval`].
fn eval_binop<R: RealOps>(op: &Token, lhs: &Literal, rhs: &Literal, host: &R) -> (r: Result<
    Literal,
    RuntimeError,
>)
    ensures
        res_abs(r) == binop_eval(*op, lhs.abs(), rhs.abs()),
{
    match op.token_type {
        TokenType::Plus => match lhs.add(rhs, host) {
            Some(v) => Ok(v),
            None => Err(RuntimeError::UnsupportedArgumentTypeByOp(op.clone())),
        },
        TokenType::Minus => match lhs.sub(rhs, host) {
            Some(v) => Ok(v),
            None => Err(RuntimeError::UnsupportedArgumentTypeByOp(op.clone())),
        },
        TokenType::Multiply => match lhs.mul(rhs, host) {
            Some(v) => Ok(v),
            None => Err(RuntimeError::UnsupportedArgumentTypeByOp(op.clone())),
        },
        TokenType::Division | TokenType::IntegerDivision => {
            if rhs.is_int_zero() {
                return Err(RuntimeError::DivisionByZero);
            }
            match lhs.div(rhs, host) {
                Some(v) => Ok(v),
                None => Err(RuntimeError::UnsupportedArgumentTypeByOp(op.clone())),
            }
        },
        TokenType::Modulus => {
            if rhs.is_int_zero() {
                return Err(RuntimeError::DivisionByZero);
            }
            match lhs.rem(rhs) {
                Some(v) => Ok(v),
                None => Err(RuntimeError::UnsupportedArgumentTypeByOp(op.clone())),
            }
        },
        _ => Err(RuntimeError::UnhandledBinaryOp(op.clone())),
    }
}

/// Applies a unary operator token to an evaluated operand; see
/// [`unop_eval`].
fn eval_unop<R: RealOps>(op: &Token, arg: &Literal, host: &R) -> (r: Result<
    Literal,
    RuntimeError,
>)
    ensures
        res_abs(r) == unop_eval(*op, arg.abs()),
{
    let zero = Literal::Int(0);
    match op.token_type {
        TokenType::Plus => match zero.add(arg, host) {
            Some(v) => Ok(v),
            None => Err(RuntimeError::UnsupportedArgumentTypeByOp(op.clone())),
        },
        TokenType::Minus => match zero.sub(arg, host) {
            Some(v) => Ok(v),
            None => Err(RuntimeError::UnsupportedArgumentTypeByOp(op.clone())),
        },
        _ => Err(RuntimeError::UnhandledUnaryOp(op.clone())),
    }
}

/// Evaluates an expression against the active frame, if any; see
/// [`expr_eval`] for the exact result, up to real bit patterns.
pub fn visit_expr<R: RealOps>(
    e: &Expr,
    frame: Option<&ActivationRecord>,
    host: &R,
) -> (r: Result<Literal, RuntimeError>)
    ensures
        res_abs(r) == expr_eval(*e, frame_members(frame)),
    decreases *e,
{
    match e {
        Expr::Num(n) => match n.token.token_type {
            TokenType::FloatConst => match &n.token.literal {
                Literal::Text(s) => Ok(Literal::Float(host.real_from_literal(s.as_str()))),
                _ => Err(RuntimeError::IllformedVarExpr),
            },
            _ => Ok(n.token.literal.clone()),
        },
        Expr::Var(v) => match &v.name.literal {
            Literal::Text(s) => match frame {
                None => Err(RuntimeError::StackUnderflow),
                Some(fr) => match fr.get_item(s.as_str()) {
                    Some(value) => Ok(value.clone()),
                    None => Err(RuntimeError::UndefinedVariable(s.clone())),
                },
            },
            _ => Err(RuntimeError::IllformedVarExpr),
        },
        Expr::BinaryOp(b) => {
            let l = visit_expr(&b.left_side, frame, host)?;
            let r = visit_expr(&b.right_side, frame, host)?;
            eval_binop(&b.op, &l, &r, host)
        },
        Expr::UnaryOp(u) => {
            let v = visit_expr(&u.node, frame, host)?;
            eval_unop(&u.op, &v, host)
        },
    }
}

proof fn lemma_exprs_eval_len(es: Seq<Expr>, m: Option<Map<Seq<char>, Val>>)
    ensures
        exprs_eval(es, m) matches Ok(vs) ==> vs.len() == es.len(),
    decreases es.len(),
{
    if es.len() > 0 {
        lemma_exprs_eval_len(es.subrange(1, es.len() as int), m);
    }
}

/// A sequence of values abstracted element-wise.
pub open spec fn abs_vals(s: Seq<Literal>) -> Seq<Val> {
    s.map_values(|v: Literal| v.abs())
}

/// The member mapping a parameter binding produces: each formal name,
/// lower-cased, bound to the matching value; with duplicate formal names
/// the later binding wins, as the bindings are made in order.
pub open spec fn bind_params(names: Seq<(String, Type)>, vals: Seq<Val>) -> Map<Seq<char>, Val>
    decreases names.len(),
{
    if names.len() == 0 {
        Map::empty()
    } else {
        bind_params(names.drop_last(), vals.drop_last()).insert(
            lower_seq(names.last().0@),
            vals.last(),
        )
    }
}

/// As [`bind_params`], over concrete values.
pub open spec fn bind_params_lit(names: Seq<(String, Type)>, vals: Seq<Literal>) -> Map<
    Seq<char>,
    Literal,
>
    decreases names.len(),
{
    if names.len() == 0 {
        Map::empty()
    } else {
        bind_params_lit(names.drop_last(), vals.drop_last()).insert(
            lower_seq(names.last().0@),
            vals.last(),
        )
    }
}

/// Moves the top frame, if any, from the stack to the end of the trace:
/// how a program or procedure body's return is recorded.
pub open spec fn spec_pop_to_trace(st: EvalState) -> EvalState {
    if st.stack.len() > 0 {
        EvalState { stack: st.stack.drop_last(), trace: st.trace.push(st.stack.last()) }
    } else {
        st
    }
}

/// What executing one statement does to the evaluator's state, and the
/// error it stops with, if any.  A compound statement runs its children in
/// order; an assignment evaluates its expression against the active frame
/// and writes the value into the active frame under the target's
/// lower-cased name; a procedure call is [`call_exec`]; the empty
/// statement does nothing.
pub open spec fn stmt_exec(s: Statement, st: EvalState) -> (EvalState, Option<ErrA>)
    decreases s,
{
    match s {
        Statement::Compound(c) => stmts_exec(c.child_statements@, st),
        Statement::Assignment(a) => match a.left.name.literal {
            Literal::Text(nm) => match expr_eval(a.right, top_members(st)) {
                Err(e) => (st, Some(e)),
                Ok(v) => if st.stack.len() == 0 {
                    (st, Some(ErrA::StackUnderflow))
                } else {
                    (
                        EvalState {
                            stack: st.stack.update(
                                st.stack.len() - 1,
                                FrameA {
                                    members: st.stack.last().members.insert(
                                        lower_seq(nm@),
                                        v,
                                    ),
                                    ..st.stack.last()
                                },
                            ),
                            trace: st.trace,
                        },
                        None,
                    )
                },
            },
            _ => (st, Some(ErrA::IllformedVarExpr)),
        },
        Statement::ProcedureCall(p) => call_exec(p, st),
        Statement::NoOp(_) => (st, None),
    }
}

/// Statements in order, stopping at the first error.
pub open spec fn stmts_exec(ss: Seq<Statement>, st: EvalState) -> (EvalState, Option<ErrA>)
    decreases ss,
{
    if ss.len() == 0 {
        (st, None)
    } else {
        let first = stmt_exec(ss[0], st);
        if first.1 is Some {
            first
        } else {
            stmts_exec(ss.subrange(1, ss.len() as int), first.0)
        }
    }
}

/// What executing a block does: declarations take no effect at run time —
/// analysis consumed them — so a block is its compound statement.
pub open spec fn block_exec(b: BlockNode, st: EvalState) -> (EvalState, Option<ErrA>)
    decreases b,
{
    stmts_exec(b.compound_statement.child_statements@, st)
}

/// What a procedure call does.  The call site must carry a procedure
/// symbol with a body; its actual parameters are evaluated in the calling
/// frame — the top of stack at call time — their count must match the
/// formals, a fresh frame at the procedure's declared nesting level is
/// pre-populated with the bound parameters and pushed, the body runs, and
/// the frame is popped onto the trace.  A body that stops with an error
/// leaves its frame on the stack and the trace unextended by it.  A call
/// site whose cached symbol carries no body — one resolved while the
/// procedure's own body was still under analysis, as a call of a
/// procedure by itself is — fails with the missing-procedure error; with
/// no conditional statement in the language, such a call could never
/// return anyway.
pub open spec fn call_exec(p: ProcedureCallNode, st: EvalState) -> (EvalState, Option<ErrA>)
    decreases p,
{
    match p.proc_symbol {
        Some(Symbol::Procedure(params, level, Some(body))) => if params@.len()
            != p.actual_params@.len() {
            (st, Some(ErrA::MissingArgument))
        } else {
            match exprs_eval(p.actual_params@, top_members(st)) {
                Err(e) => (st, Some(e)),
                Ok(vals) => {
                    let frame = FrameA {
                        name: p.name.abs(),
                        kind: ARType::Procedure,
                        level: level,
                        members: bind_params(params@, vals),
                    };
                    let run = block_exec(
                        body,
                        EvalState { stack: st.stack.push(frame), trace: st.trace },
                    );
                    if run.1 is Some {
                        run
                    } else {
                        (spec_pop_to_trace(run.0), None)
                    }
                },
            }
        },
        _ => (st, Some(ErrA::MissingProcedure)),
    }
}

/// What running a whole program does: a fresh frame named after the
/// program, of program kind at nesting level 1, is pushed, the program's
/// block runs, and the frame is popped onto the trace — so the program's
/// own frame stands after every procedure frame in the trace.
pub open spec fn program_exec(prog: ProgramNode, st: EvalState) -> (EvalState, Option<ErrA>) {
    let frame = FrameA {
        name: prog.name.abs(),
        kind: ARType::Program,
        level: 1u32,
        members: Map::empty(),
    };
    let run = block_exec(
        prog.block,
        EvalState { stack: st.stack.push(frame), trace: st.trace },
    );
    if run.1 is Some {
        run
    } else {
        (spec_pop_to_trace(run.0), None)
    }
}

proof fn lemma_abs_push(s: Seq<ActivationRecord>, r: ActivationRecord)
    ensures
        abs_stack(s.push(r)) == abs_stack(s).push(r.abs()),
{
    assert(abs_stack(s.push(r)) =~= abs_stack(s).push(r.abs()));
}

proof fn lemma_abs_update(s: Seq<ActivationRecord>, i: int, r: ActivationRecord)
    requires
        0 <= i < s.len(),
    ensures
        abs_stack(s.update(i, r)) == abs_stack(s).update(i, r.abs()),
{
    assert(abs_stack(s.update(i, r)) =~= abs_stack(s).update(i, r.abs()));
}

proof fn lemma_abs_drop_last(s: Seq<ActivationRecord>)
    requires
        s.len() > 0,
    ensures
        abs_stack(s.drop_last()) == abs_stack(s).drop_last(),
        abs_stack(s).last() == s.last().abs(),
        abs_stack(s).len() == s.len(),
{
    assert(abs_stack(s.drop_last()) =~= abs_stack(s).drop_last());
}

proof fn lemma_abs_members_insert(m: Map<Seq<char>, Literal>, k: Seq<char>, v: Literal)
    ensures
        abs_members(m.insert(k, v)) == abs_members(m).insert(k, v.abs()),
{
    assert(abs_members(m.insert(k, v)) =~= abs_members(m).insert(k, v.abs()));
}

proof fn lemma_abs_bind(names: Seq<(String, Type)>, vals: Seq<Literal>)
    requires
        names.len() == vals.len(),
    ensures
        abs_members(bind_params_lit(names, vals)) == bind_params(names, abs_vals(vals)),
    decreases names.len(),
{
    if names.len() == 0 {
        assert(abs_members(bind_params_lit(names, vals)) =~= bind_params(names, abs_vals(vals)));
    } else {
        lemma_abs_bind(names.drop_last(), vals.drop_last());
        lemma_abs_members_insert(
            bind_params_lit(names.drop_last(), vals.drop_last()),
            lower_seq(names.last().0@),
            vals.last(),
        );
        assert(abs_vals(vals.drop_last()) =~= abs_vals(vals).drop_last());
        assert(abs_vals(vals).last() == vals.last().abs());
        assert(abs_members(bind_params_lit(names, vals)) =~= bind_params(names, abs_vals(vals)));
    }
}

/// Evaluates the actual parameters from position `i` on, left to right,
/// in the given frame; see [`exprs_eval`].
fn eval_actuals<R: RealOps>(
    es: &Vec<Expr>,
    i: usize,
    frame: Option<&ActivationRecord>,
    host: &R,
) -> (r: Result<Vec<Literal>, RuntimeError>)
    requires
        i <= es@.len(),
    ensures
        match r {
            Ok(vs) => exprs_eval(es@.subrange(i as int, es@.len() as int), frame_members(frame))
                == Ok::<Seq<Val>, ErrA>(abs_vals(vs@)),
            Err(e) => exprs_eval(es@.subrange(i as int, es@.len() as int), frame_members(frame))
                == Err::<Seq<Val>, ErrA>(e.abs()),
        },
    decreases es@.len() - i,
{
    if i >= es.len() {
        let empty: Vec<Literal> = Vec::new();
        proof {
            assert(es@.subrange(i as int, es@.len() as int) =~= Seq::<Expr>::empty());
            assert(abs_vals(empty@) =~= Seq::<Val>::empty());
        }
        Ok(empty)
    } else {
        let ghost sub = es@.subrange(i as int, es@.len() as int);
        proof {
            assert(sub[0] == es@[i as int]);
            assert(sub.subrange(1, sub.len() as int) =~= es@.subrange(
                i as int + 1,
                es@.len() as int,
            ));
        }
        let v = visit_expr(&es[i], frame, host)?;
        let mut rest = eval_actuals(es, i + 1, frame, host)?;
        let ghost rest0 = rest@;
        let mut out: Vec<Literal> = Vec::new();
        out.push(v);
        out.append(&mut rest);
        proof {
            assert(abs_vals(out@) =~= seq![v.abs()] + abs_vals(rest0));
        }
        Ok(out)
    }
}

/// A fresh frame for a called procedure: of procedure kind, at the
/// procedure's declared nesting level, holding exactly the formal
/// parameter names — lower-cased — bound in order to the given values,
/// and nothing else.  The binding neither reads nor depends on the call
/// stack, so it is the same at any call depth.
pub fn bind_parameters(
    name: Literal,
    nesting_level: u32,
    params: &Vec<(String, Type)>,
    vals: &Vec<Literal>,
) -> (r: ActivationRecord)
    requires
        params@.len() == vals@.len(),
    ensures
        r.name == name,
        r.record_type == ARType::Procedure,
        r.nesting_level == nesting_level,
        r.members@ == bind_params_lit(params@, vals@),
        abs_members(r.members@) == bind_params(params@, abs_vals(vals@)),
{
    let mut ar = ActivationRecord::from(name, ARType::Procedure, nesting_level);
    let n = params.len();
    let mut i: usize = 0;
    proof {
        assert(ar.members@ =~= bind_params_lit(
            params@.subrange(0, 0),
            vals@.subrange(0, 0),
        ));
    }
    while i < n
        invariant
            i <= n,
            n == params@.len(),
            n == vals@.len(),
            ar.name == name,
            ar.record_type == ARType::Procedure,
            ar.nesting_level == nesting_level,
            ar.members@ == bind_params_lit(
                params@.subrange(0, i as int),
                vals@.subrange(0, i as int),
            ),
        decreases n - i,
    {
        ar.set_item(params[i].0.as_str(), vals[i].clone());
        proof {
            let ps = params@.subrange(0, i as int + 1);
            let vs = vals@.subrange(0, i as int + 1);
            assert(ps.drop_last() =~= params@.subrange(0, i as int));
            assert(vs.drop_last() =~= vals@.subrange(0, i as int));
            assert(ps.last() == params@[i as int]);
            assert(vs.last() == vals@[i as int]);
        }
        i = i + 1;
    }
    proof {
        assert(params@.subrange(0, n as int) =~= params@);
        assert(vals@.subrange(0, n as int) =~= vals@);
        lemma_abs_bind(params@, vals@);
    }
    ar
}

/// The tree-walking evaluator: it owns the call stack while a run is in
/// progress and appends every returned frame to `memory_tester`, the
/// run's observable trace.
pub struct Interpreter {
    pub callstack: ARCallStack,
    pub memory_tester: Vec<ActivationRecord>,
}

/// An error result abstracted; see [`ErrA`].
pub open spec fn res_err(r: Result<(), RuntimeError>) -> Option<ErrA> {
    match r {
        Ok(_) => None,
        Err(e) => Some(e.abs()),
    }
}

impl Interpreter {
    /// This evaluator's state as the specifications see it.
    pub open spec fn st(self) -> EvalState {
        EvalState {
            stack: abs_stack(self.callstack.records@),
            trace: abs_stack(self.memory_tester@),
        }
    }

    /// An evaluator with an empty stack and an empty trace.
    pub fn new() -> (r: Interpreter)
        ensures
            r.callstack.records@ == Seq::<ActivationRecord>::empty(),
            r.memory_tester@ == Seq::<ActivationRecord>::empty(),
    {
        Interpreter { callstack: ARCallStack::new(), memory_tester: Vec::new() }
    }

    /// Moves the top frame, if any, to the trace; see
    /// [`spec_pop_to_trace`].
    fn pop_to_trace(&mut self)
        ensures
            final(self).st() == spec_pop_to_trace(old(self).st()),
    {
        let popped = self.callstack.pop();
        match popped {
            Some(f) => {
                proof {
                    lemma_abs_drop_last(old(self).callstack.records@);
                }
                let ghost pre_trace = self.memory_tester@;
                self.memory_tester.push(f);
                proof {
                    lemma_abs_push(pre_trace, f);
                }
            },
            None => {},
        }
    }

    /// Executes one statement; see [`stmt_exec`].
    fn visit_statement<R: RealOps>(&mut self, s: &Statement, host: &R) -> (r: Result<
        (),
        RuntimeError,
    >)
        ensures
            ({
                let run = stmt_exec(*s, old(self).st());
                final(self).st() == run.0 && res_err(r) == run.1
            }),
        decreases *s,
    {
        match s {
            Statement::Compound(c) => {
                proof {
                    assert(decreases_to!(*s => *c));
                }
                self.visit_compound(c, host)
            },
            Statement::Assignment(a) => self.visit_assignment(a, host),
            Statement::ProcedureCall(p) => {
                proof {
                    assert(decreases_to!(*s => *p));
                }
                self.visit_procedure_call(p, host)
            },
            Statement::NoOp(_) => Ok(()),
        }
    }

    /// Executes a compound statement's children strictly in order; see
    /// [`stmts_exec`].
    fn visit_compound<R: RealOps>(&mut self, c: &CompoundStatementNode, host: &R) -> (r: Result<
        (),
        RuntimeError,
    >)
        ensures
            ({
                let run = stmts_exec(c.child_statements@, old(self).st());
                final(self).st() == run.0 && res_err(r) == run.1
            }),
        decreases *c,
    {
        let n = c.child_statements.len();
        let mut i: usize = 0;
        proof {
            assert(c.child_statements@.subrange(0, n as int) =~= c.child_statements@);
        }
        while i < n
            invariant
                i <= n,
                n == c.child_statements@.len(),
                stmts_exec(c.child_statements@.subrange(i as int, n as int), self.st())
                    == stmts_exec(c.child_statements@, old(self).st()),
            decreases n - i,
        {
            let ghost sub = c.child_statements@.subrange(i as int, n as int);
            proof {
                assert(sub[0] == c.child_statements@[i as int]);
                assert(sub.subrange(1, sub.len() as int) =~= c.child_statements@.subrange(
                    i as int + 1,
                    n as int,
                ));
                assert(decreases_to!(*c => c.child_statements));
                assert(decreases_to!(c.child_statements => c.child_statements@));
                assert(decreases_to!(c.child_statements@ => c.child_statements@[i as int]));
            }
            self.visit_statement(&c.child_statements[i], host)?;
            i = i + 1;
        }
        proof {
            assert(c.child_statements@.subrange(n as int, n as int) =~= Seq::<Statement>::empty());
        }
        Ok(())
    }

    /// Executes an assignment: the target must name a variable, the
    /// expression is evaluated against the active frame, and the value is
    /// written into the active frame; see [`stmt_exec`].
    fn visit_assignment<R: RealOps>(&mut self, a: &AssignmentNode, host: &R) -> (r: Result<
        (),
        RuntimeError,
    >)
        ensures
            ({
                let run = stmt_exec(Statement::Assignment(*a), old(self).st());
                final(self).st() == run.0 && res_err(r) == run.1
            }),
    {
        let name = match &a.left.name.literal {
            Literal::Text(s) => s.clone(),
            _ => {
                return Err(RuntimeError::IllformedVarExpr);
            },
        };
        let value = visit_expr(&a.right, self.callstack.peek(), host)?;
        let n = self.callstack.records.len();
        if n == 0 {
            return Err(RuntimeError::StackUnderflow);
        }
        let ghost pre = self.callstack.records@;
        self.callstack.records[n - 1].set_item(name.as_str(), value);
        proof {
            lemma_abs_update(pre, n - 1, self.callstack.records@[n - 1]);
            lemma_abs_members_insert(
                pre[n - 1].members@,
                lower_seq(name@),
                value,
            );
            lemma_abs_drop_last(pre);
            assert(final(self).st().stack =~= old(self).st().stack.update(
                n - 1,
                FrameA {
                    members: old(self).st().stack.last().members.insert(
                        lower_seq(a.left.name.literal->Text_0@),
                        value.abs(),
                    ),
                    ..old(self).st().stack.last()
                },
            ));
        }
        Ok(())
    }

    /// Executes a procedure call; see [`call_exec`] — the actual
    /// parameters are evaluated in the calling frame, bound by
    /// [`bind_parameters`], and the fresh frame runs the body and returns
    /// onto the trace.
    fn visit_procedure_call<R: RealOps>(&mut self, p: &ProcedureCallNode, host: &R) -> (r: Result<
        (),
        RuntimeError,
    >)
        ensures
            ({
                let run = call_exec(*p, old(self).st());
                final(self).st() == run.0 && res_err(r) == run.1
            }),
        decreases *p,
    {
        match &p.proc_symbol {
            Some(Symbol::Procedure(params, level, body_opt)) => match body_opt {
                Some(body) => {
                    if params.len() != p.actual_params.len() {
                        return Err(RuntimeError::MissingArgument);
                    }
                    proof {
                        assert(p.actual_params@.subrange(0, p.actual_params@.len() as int)
                            =~= p.actual_params@);
                    }
                    let top = self.callstack.peek();
                    proof {
                        if old(self).callstack.records@.len() > 0 {
                            lemma_abs_drop_last(old(self).callstack.records@);
                        }
                        assert(frame_members(top) == top_members(old(self).st()));
                    }
                    let vals = eval_actuals(&p.actual_params, 0, top, host)?;
                    proof {
                        lemma_exprs_eval_len(p.actual_params@, top_members(old(self).st()));
                    }
                    let frame = bind_parameters(p.name.clone(), *level, params, &vals);
                    let ghost pre = self.callstack.records@;
                    self.callstack.push(frame);
                    proof {
                        lemma_abs_push(pre, frame);
                    }
                    proof {
                        assert(decreases_to!(*p => p.proc_symbol));
                        assert(decreases_to!(p.proc_symbol => p.proc_symbol->0));
                        assert(decreases_to!(p.proc_symbol->0 => p.proc_symbol->0->Procedure_2));
                        assert(decreases_to!(p.proc_symbol->0->Procedure_2 =>
                            p.proc_symbol->0->Procedure_2->0));
                    }
                    self.visit_block(body, host)?;
                    self.pop_to_trace();
                    Ok(())
                },
                None => Err(RuntimeError::MissingProcedure),
            },
            _ => Err(RuntimeError::MissingProcedure),
        }
    }

    /// Executes a block: declarations take no effect at run time, so the
    /// block's compound statement runs; see [`block_exec`].
    fn visit_block<R: RealOps>(&mut self, b: &BlockNode, host: &R) -> (r: Result<
        (),
        RuntimeError,
    >)
        ensures
            ({
                let run = block_exec(*b, old(self).st());
                final(self).st() == run.0 && res_err(r) == run.1
            }),
        decreases *b,
    {
        self.visit_compound(&b.compound_statement, host)
    }

    /// Runs a program: its frame is pushed, its block runs, and its frame
    /// returns onto the trace last of all; see [`program_exec`].
    fn visit_program<R: RealOps>(&mut self, program: &ProgramNode, host: &R) -> (r: Result<
        (),
        RuntimeError,
    >)
        ensures
            ({
                let run = program_exec(*program, old(self).st());
                final(self).st() == run.0 && res_err(r) == run.1
            }),
    {
        let frame = ActivationRecord::from(program.name.clone(), ARType::Program, 1);
        let ghost pre = self.callstack.records@;
        self.callstack.push(frame);
        proof {
            lemma_abs_push(pre, frame);
            assert(abs_members(frame.members@) =~= Map::<Seq<char>, Val>::empty());
        }
        self.visit_block(&program.block, host)?;
        self.pop_to_trace();
        Ok(())
    }

    /// Runs a validated program from an empty call stack, appending every
    /// returned frame to the trace; see [`program_exec`] for exactly what
    /// the trace and any error are, up to real bit patterns.
    pub fn interpret<R: RealOps>(&mut self, program: &ProgramNode, host: &R) -> (r: Result<
        (),
        RuntimeError,
    >)
        ensures
            ({
                let run = program_exec(
                    *program,
                    EvalState {
                        stack: Seq::empty(),
                        trace: abs_stack(old(self).memory_tester@),
                    },
                );
                final(self).st() == run.0 && res_err(r) == run.1
            }),
    {
        self.callstack = ARCallStack::new();
        proof {
            assert(abs_stack(Seq::<ActivationRecord>::empty()) =~= Seq::<FrameA>::empty());
        }
        self.visit_program(program, host)
    }
}

/// An expression built only of integer constants, `+`, `-`, `*`, unary
/// sign, and grouping — the parenthesised arithmetic fragment.
pub open spec fn is_int_expr(e: Expr) -> bool
    decreases e,
{
    match e {
        Expr::Num(n) => n.token.token_type == TokenType::IntegerConst && n.token.literal is Int,
        Expr::BinaryOp(b) => (b.op.token_type == TokenType::Plus || b.op.token_type
            == TokenType::Minus || b.op.token_type == TokenType::Multiply) && is_int_expr(
            b.left_side,
        ) && is_int_expr(b.right_side),
        Expr::UnaryOp(u) => (u.op.token_type == TokenType::Plus || u.op.token_type
            == TokenType::Minus) && is_int_expr(u.node),
        Expr::Var(_) => false,
    }
}

/// The value of such an expression under standard, precedence-respecting
/// integer arithmetic, unbounded.
pub open spec fn int_expr_val(e: Expr) -> int
    decreases e,
{
    match e {
        Expr::Num(n) => n.token.literal->Int_0 as int,
        Expr::BinaryOp(b) => if b.op.token_type == TokenType::Plus {
            int_expr_val(b.left_side) + int_expr_val(b.right_side)
        } else if b.op.token_type == TokenType::Minus {
            int_expr_val(b.left_side) - int_expr_val(b.right_side)
        } else {
            int_expr_val(b.left_side) * int_expr_val(b.right_side)
        },
        Expr::UnaryOp(u) => if u.op.token_type == TokenType::Plus {
            int_expr_val(u.node)
        } else {
            0 - int_expr_val(u.node)
        },
        Expr::Var(_) => 0,
    }
}

/// Every subexpression's value stays within the 64-bit integer range.
pub open spec fn int_expr_fits(e: Expr) -> bool
    decreases e,
{
    &&& i64::MIN <= int_expr_val(e) <= i64::MAX
    &&& match e {
        Expr::BinaryOp(b) => int_expr_fits(b.left_side) && int_expr_fits(b.right_side),
        Expr::UnaryOp(u) => int_expr_fits(u.node),
        _ => true,
    }
}

/// LAW — pure integer arithmetic is evaluated exactly.  An expression
/// composed only of `+`, `-`, `*`, sign, grouping and integer constants,
/// all of whose subexpression values fit in 64 bits, evaluates — in any
/// frame, or none — to precisely its value under standard left-to-right,
/// precedence-respecting arithmetic.
pub proof fn lemma_int_expr_eval(e: Expr, m: Option<Map<Seq<char>, Val>>)
    requires
        is_int_expr(e),
        int_expr_fits(e),
    ensures
        expr_eval(e, m) == Ok::<Val, ErrA>(Val::Int(int_expr_val(e) as i64)),
    decreases e,
{
    match e {
        Expr::Num(n) => {
            assert(expr_eval(e, m) == Ok::<Val, ErrA>(n.token.literal.abs()));
        },
        Expr::BinaryOp(b) => {
            lemma_int_expr_eval(b.left_side, m);
            lemma_int_expr_eval(b.right_side, m);
            let lv = int_expr_val(b.left_side);
            let rv = int_expr_val(b.right_side);
            assert(expr_eval(b.left_side, m) == Ok::<Val, ErrA>(Val::Int(lv as i64)));
            assert(expr_eval(b.right_side, m) == Ok::<Val, ErrA>(Val::Int(rv as i64)));
            reveal_with_fuel(int_expr_fits, 3);
            assert(int_expr_fits(b.left_side));
            assert(int_expr_fits(b.right_side));
            assert(i64::MIN <= lv && lv <= i64::MAX);
            assert(i64::MIN <= rv && rv <= i64::MAX);
            if b.op.token_type == TokenType::Plus {
                assert(i64::MIN <= lv + rv && lv + rv <= i64::MAX);
                assert(vstd::wrapping::i64_specs::wrapping_add(lv as i64, rv as i64) == (lv
                    + rv) as i64);
            } else if b.op.token_type == TokenType::Minus {
                assert(vstd::wrapping::i64_specs::wrapping_sub(lv as i64, rv as i64) == (lv
                    - rv) as i64);
            } else {
                assert(vstd::wrapping::i64_specs::wrapping_mul(lv as i64, rv as i64) == (lv
                    * rv) as i64);
            }
        },
        Expr::UnaryOp(u) => {
            lemma_int_expr_eval(u.node, m);
            let v = int_expr_val(u.node);
            reveal_with_fuel(int_expr_fits, 3);
            assert(int_expr_fits(u.node));
            assert(i64::MIN <= v && v <= i64::MAX);
            if u.op.token_type == TokenType::Plus {
                assert(vstd::wrapping::i64_specs::wrapping_add(0i64, v as i64) == v as i64);
            } else {
                assert(vstd::wrapping::i64_specs::wrapping_sub(0i64, v as i64) == (0 - v) as i64);
            }
        },
        Expr::Var(_) => {},
    }
}

/// LAW — division follows true-division semantics: on any two numeric
/// operands (integer or real, in any mix) whose divisor is not the
/// integer zero, `/` and `DIV` yield a real value.
pub proof fn lemma_division_yields_real(op: Token, l: Val, r: Val)
    requires
        op.token_type == TokenType::Division || op.token_type == TokenType::IntegerDivision,
        l is Int || l is Real,
        r is Int || r is Real,
        r != Val::Int(0),
    ensures
        binop_eval(op, l, r) == Ok::<Val, ErrA>(Val::Real),
{
}

/// LAW — a division or remainder fails with division-by-zero exactly when
/// its right operand is the integer zero, whatever the left operand; a
/// real zero divisor is not checked.
pub proof fn lemma_division_by_zero(op: Token, l: Val, r: Val)
    requires
        op.token_type == TokenType::Division || op.token_type == TokenType::IntegerDivision
            || op.token_type == TokenType::Modulus,
    ensures
        binop_eval(op, l, r) == Err::<Val, ErrA>(ErrA::DivisionByZero) <==> r == Val::Int(0),
{
}

/// LAW — frame discipline.  Executing any statement only appends to the
/// trace, never rewrites it; and on success the call stack comes back at
/// its old depth, every frame below the top byte-for-byte unchanged and
/// the top frame still owned by the same name, kind and nesting level —
/// only the active frame's members can change.  Every nested call's frame
/// lives and dies above the caller's.
pub proof fn lemma_stmt_frame_discipline(s: Statement, st: EvalState)
    ensures
        ({
            let run = stmt_exec(s, st);
            &&& run.0.trace.len() >= st.trace.len()
            &&& run.0.trace.subrange(0, st.trace.len() as int) == st.trace
            &&& (run.1 is None ==> run.0.stack.len() == st.stack.len() && (forall|i: int|
                0 <= i < st.stack.len() - 1 ==> run.0.stack[i] == st.stack[i]) && (st.stack.len()
                > 0 ==> run.0.stack.last().name == st.stack.last().name
                && run.0.stack.last().kind == st.stack.last().kind
                && run.0.stack.last().level == st.stack.last().level))
        }),
    decreases s,
{
    match s {
        Statement::Compound(c) => {
            lemma_stmts_frame_discipline(c.child_statements@, st);
        },
        Statement::Assignment(_) => {
            let run = stmt_exec(s, st);
            assert(run.0.trace.subrange(0, st.trace.len() as int) =~= st.trace);
        },
        Statement::ProcedureCall(p) => {
            lemma_call_frame_discipline(p, st);
        },
        Statement::NoOp(_) => {
            let run = stmt_exec(s, st);
            assert(run.0.trace.subrange(0, st.trace.len() as int) =~= st.trace);
        },
    }
}

/// As [`lemma_stmt_frame_discipline`], for a statement sequence.
pub proof fn lemma_stmts_frame_discipline(ss: Seq<Statement>, st: EvalState)
    ensures
        ({
            let run = stmts_exec(ss, st);
            &&& run.0.trace.len() >= st.trace.len()
            &&& run.0.trace.subrange(0, st.trace.len() as int) == st.trace
            &&& (run.1 is None ==> run.0.stack.len() == st.stack.len() && (forall|i: int|
                0 <= i < st.stack.len() - 1 ==> run.0.stack[i] == st.stack[i]) && (st.stack.len()
                > 0 ==> run.0.stack.last().name == st.stack.last().name
                && run.0.stack.last().kind == st.stack.last().kind
                && run.0.stack.last().level == st.stack.last().level))
        }),
    decreases ss,
{
    if ss.len() == 0 {
        let run = stmts_exec(ss, st);
        assert(run.0.trace.subrange(0, st.trace.len() as int) =~= st.trace);
    } else {
        lemma_stmt_frame_discipline(ss[0], st);
        let first = stmt_exec(ss[0], st);
        if first.1 is Some {
        } else {
            lemma_stmts_frame_discipline(ss.subrange(1, ss.len() as int), first.0);
            let run = stmts_exec(ss.subrange(1, ss.len() as int), first.0);
            assert(run.0.trace.subrange(0, st.trace.len() as int) =~= st.trace);
        }
    }
}

/// As [`lemma_stmt_frame_discipline`], for one procedure call.
pub proof fn lemma_call_frame_discipline(p: ProcedureCallNode, st: EvalState)
    ensures
        ({
            let run = call_exec(p, st);
            &&& run.0.trace.len() >= st.trace.len()
            &&& run.0.trace.subrange(0, st.trace.len() as int) == st.trace
            &&& (run.1 is None ==> run.0.stack.len() == st.stack.len() && (forall|i: int|
                0 <= i < st.stack.len() - 1 ==> run.0.stack[i] == st.stack[i]) && (st.stack.len()
                > 0 ==> run.0.stack.last().name == st.stack.last().name
                && run.0.stack.last().kind == st.stack.last().kind
                && run.0.stack.last().level == st.stack.last().level))
        }),
    decreases p,
{
    let run = call_exec(p, st);
    match p.proc_symbol {
        Some(Symbol::Procedure(params, level, body_opt)) => match body_opt {
            Some(body) => {
                if params@.len() != p.actual_params@.len() {
                    assert(run.0.trace.subrange(0, st.trace.len() as int) =~= st.trace);
                } else {
                    match exprs_eval(p.actual_params@, top_members(st)) {
                        Err(_) => {
                            assert(run.0.trace.subrange(0, st.trace.len() as int) =~= st.trace);
                        },
                        Ok(vals) => {
                            let frame = FrameA {
                                name: p.name.abs(),
                                kind: ARType::Procedure,
                                level: level,
                                members: bind_params(params@, vals),
                            };
                            let pushed = EvalState {
                                stack: st.stack.push(frame),
                                trace: st.trace,
                            };
                            lemma_stmts_frame_discipline(
                                body.compound_statement.child_statements@,
                                pushed,
                            );
                            let inner = block_exec(body, pushed);
                            if inner.1 is Some {
                                assert(run.0.trace.subrange(0, st.trace.len() as int)
                                    =~= st.trace);
                            } else {
                                assert(inner.0.stack.len() == st.stack.len() + 1);
                                assert(forall|i: int|
                                    0 <= i < st.stack.len() ==> inner.0.stack[i]
                                        == pushed.stack[i]);
                                assert(forall|i: int|
                                    0 <= i < st.stack.len() ==> pushed.stack[i] == st.stack[i]);
                                assert(run.0.stack =~= st.stack);
                                assert(run.0.trace.subrange(0, st.trace.len() as int)
                                    =~= st.trace);
                            }
                        },
                    }
                }
            },
            None => {
                assert(run.0.trace.subrange(0, st.trace.len() as int) =~= st.trace);
            },
        },
        _ => {
            assert(run.0.trace.subrange(0, st.trace.len() as int) =~= st.trace);
        },
    }
}

/// LAW — nested procedure calls leave independent frames in the trace,
/// innermost first.  A call that returns appends its own frame after
/// every frame that the nested calls inside its body appended, and after
/// everything already on the trace; the appended frame is the callee's:
/// its name is the call site's, its kind is procedure, and its nesting
/// level is the one declared for the procedure, not the caller's dynamic
/// depth.
pub proof fn lemma_call_trace_order(p: ProcedureCallNode, st: EvalState)
    requires
        call_exec(p, st).1 is None,
    ensures
        ({
            let run = call_exec(p, st);
            &&& run.0.trace.len() > st.trace.len()
            &&& run.0.trace.subrange(0, st.trace.len() as int) == st.trace
            &&& run.0.trace.last().name == p.name.abs()
            &&& run.0.trace.last().kind == ARType::Procedure
            &&& (p.proc_symbol matches Some(Symbol::Procedure(_, level, _))
                ==> run.0.trace.last().level == level)
        }),
{
    let run = call_exec(p, st);
    match p.proc_symbol {
        Some(Symbol::Procedure(params, level, body_opt)) => match body_opt {
            Some(body) => {
                match exprs_eval(p.actual_params@, top_members(st)) {
                    Err(_) => {},
                    Ok(vals) => {
                        let frame = FrameA {
                            name: p.name.abs(),
                            kind: ARType::Procedure,
                            level: level,
                            members: bind_params(params@, vals),
                        };
                        let pushed = EvalState { stack: st.stack.push(frame), trace: st.trace };
                        lemma_stmts_frame_discipline(
                            body.compound_statement.child_statements@,
                            pushed,
                        );
                        let inner = block_exec(body, pushed);
                        assert(inner.0.stack.len() == st.stack.len() + 1);
                        assert(inner.0.stack.last().name == frame.name);
                        assert(run.0.trace == inner.0.trace.push(inner.0.stack.last()));
                        assert(run.0.trace.subrange(0, st.trace.len() as int) =~= st.trace);
                    },
                }
            },
            None => {},
        },
        _ => {},
    }
}

/// An error evaluation itself can stop with — never a lexing or parsing
/// diagnosis.
pub open spec fn eval_erra(e: ErrA) -> bool {
    ||| e is MissingArgument
    ||| e is UndefinedVariable
    ||| e is UnhandledBinaryOp
    ||| e is UnhandledUnaryOp
    ||| e is DivisionByZero
    ||| e is IllformedVarExpr
    ||| e is StackUnderflow
    ||| e is UnsupportedArgumentTypeByOp
    ||| e is MissingProcedure
}

proof fn lemma_expr_eval_err_class(e: Expr, m: Option<Map<Seq<char>, Val>>)
    ensures
        expr_eval(e, m) matches Err(err) ==> eval_erra(err),
    decreases e,
{
    match e {
        Expr::Num(_) => {},
        Expr::Var(_) => {},
        Expr::BinaryOp(b) => {
            lemma_expr_eval_err_class(b.left_side, m);
            lemma_expr_eval_err_class(b.right_side, m);
        },
        Expr::UnaryOp(u) => {
            lemma_expr_eval_err_class(u.node, m);
        },
    }
}

proof fn lemma_exprs_eval_err_class(es: Seq<Expr>, m: Option<Map<Seq<char>, Val>>)
    ensures
        exprs_eval(es, m) matches Err(err) ==> eval_erra(err),
    decreases es.len(),
{
    if es.len() > 0 {
        lemma_expr_eval_err_class(es[0], m);
        lemma_exprs_eval_err_class(es.subrange(1, es.len() as int), m);
    }
}

proof fn lemma_stmt_exec_err_class(s: Statement, st: EvalState)
    ensures
        stmt_exec(s, st).1 matches Some(err) ==> eval_erra(err),
    decreases s,
{
    match s {
        Statement::Compound(c) => {
            lemma_stmts_exec_err_class(c.child_statements@, st);
        },
        Statement::Assignment(a) => {
            lemma_expr_eval_err_class(a.right, top_members(st));
        },
        Statement::ProcedureCall(p) => {
            lemma_call_exec_err_class(p, st);
        },
        Statement::NoOp(_) => {},
    }
}

proof fn lemma_stmts_exec_err_class(ss: Seq<Statement>, st: EvalState)
    ensures
        stmts_exec(ss, st).1 matches Some(err) ==> eval_erra(err),
    decreases ss,
{
    if ss.len() > 0 {
        lemma_stmt_exec_err_class(ss[0], st);
        let first = stmt_exec(ss[0], st);
        if first.1 is None {
            lemma_stmts_exec_err_class(ss.subrange(1, ss.len() as int), first.0);
        }
    }
}

proof fn lemma_call_exec_err_class(p: ProcedureCallNode, st: EvalState)
    ensures
        call_exec(p, st).1 matches Some(err) ==> eval_erra(err),
    decreases p,
{
    match p.proc_symbol {
        Some(Symbol::Procedure(params, level, body_opt)) => match body_opt {
            Some(body) => {
                if params@.len() == p.actual_params@.len() {
                    lemma_exprs_eval_err_class(p.actual_params@, top_members(st));
                    match exprs_eval(p.actual_params@, top_members(st)) {
                        Err(_) => {},
                        Ok(vals) => {
                            let frame = FrameA {
                                name: p.name.abs(),
                                kind: ARType::Procedure,
                                level: level,
                                members: bind_params(params@, vals),
                            };
                            lemma_stmts_exec_err_class(
                                body.compound_statement.child_statements@,
                                EvalState { stack: st.stack.push(frame), trace: st.trace },
                            );
                        },
                    }
                }
            },
            None => {},
        },
        _ => {},
    }
}

/// LAW — evaluation diagnoses only runtime conditions: whatever error a
/// program run stops with is an evaluation error, never a lexing or
/// parsing diagnosis.
pub proof fn lemma_program_exec_err_class(prog: ProgramNode, st: EvalState)
    ensures
        program_exec(prog, st).1 matches Some(err) ==> eval_erra(err),
{
    let frame = FrameA {
        name: prog.name.abs(),
        kind: ARType::Program,
        level: 1u32,
        members: Map::empty(),
    };
    lemma_stmts_exec_err_class(
        prog.block.compound_statement.child_statements@,
        EvalState { stack: st.stack.push(frame), trace: st.trace },
    );
}

/// LAW — the program's frame returns last.  A program run that succeeds
/// appends at least one frame to the trace, keeps everything already
/// there, and the frame appended last of all is the program's own: named
/// after the program, of program kind, at nesting level 1.  Every frame a
/// procedure call appended stands before it.
pub proof fn lemma_program_trace(prog: ProgramNode, st: EvalState)
    requires
        program_exec(prog, st).1 is None,
    ensures
        ({
            let run = program_exec(prog, st);
            &&& run.0.trace.len() > st.trace.len()
            &&& run.0.trace.subrange(0, st.trace.len() as int) == st.trace
            &&& run.0.trace.last().name == prog.name.abs()
            &&& run.0.trace.last().kind == ARType::Program
            &&& run.0.trace.last().level == 1
        }),
{
    let run = program_exec(prog, st);
    let frame = FrameA {
        name: prog.name.abs(),
        kind: ARType::Program,
        level: 1u32,
        members: Map::empty(),
    };
    let pushed = EvalState { stack: st.stack.push(frame), trace: st.trace };
    lemma_stmts_frame_discipline(prog.block.compound_statement.child_statements@, pushed);
    let inner = block_exec(prog.block, pushed);
    assert(inner.0.stack.len() == st.stack.len() + 1);
    assert(inner.0.stack.last().name == frame.name);
    assert(run.0.trace == inner.0.trace.push(inner.0.stack.last()));
    assert(run.0.trace.subrange(0, st.trace.len() as int) =~= st.trace);
}

} // verus!
