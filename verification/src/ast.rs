use vstd::prelude::*;
use crate::literal::Literal;
use crate::symbols::{Symbol, Type};
use crate::literal::Val;
use crate::token::{spec_literal_eq, spec_token_eq, TokA, Token, TokenType};

verus! {

/// A literal constant: the token that spelled it.
pub struct NumNode {
    pub token: Token,
}

/// A binary operation: left operand, operator token, right operand.
pub struct BinaryOpNode {
    pub left_side: Expr,
    pub op: Token,
    pub right_side: Expr,
}

/// A unary operation: operator token and its single operand.
pub struct UnaryOpNode {
    pub op: Token,
    pub node: Expr,
}

/// A variable reference: the identifier token that names it.
pub struct VarNode {
    pub name: Token,
}

/// An expression.
pub enum Expr {
    Num(NumNode),
    BinaryOp(Box<BinaryOpNode>),
    UnaryOp(Box<UnaryOpNode>),
    Var(VarNode),
}

/// A sequence of statements between `BEGIN` and `END`.
pub struct CompoundStatementNode {
    pub child_statements: Vec<Statement>,
}

/// An assignment: target variable and the expression assigned.
pub struct AssignmentNode {
    pub left: VarNode,
    pub right: Expr,
}

/// The empty statement.
pub struct NoOpNode {}

/// A procedure call: the callee's name, the actual parameters, and the
/// procedure symbol the semantic analyzer resolves the call to — written
/// exactly once, by analysis; evaluation only reads it.
pub struct ProcedureCallNode {
    pub name: Literal,
    pub actual_params: Vec<Expr>,
    pub proc_symbol: Option<Symbol>,
}

/// A statement.
pub enum Statement {
    Compound(CompoundStatementNode),
    Assignment(AssignmentNode),
    ProcedureCall(ProcedureCallNode),
    NoOp(NoOpNode),
}

/// A declared type name: the keyword token that spelled it.
pub struct TypeNode {
    pub token: Token,
}

/// One variable declaration: the variable and its declared type.
pub struct VarDeclNode {
    pub var: VarNode,
    pub type_spec: TypeNode,
}

/// One formal parameter: the parameter's name and its declared type.
pub struct ParamNode {
    pub var: VarNode,
    pub param_type: TypeNode,
}

/// A procedure declaration: name, formal parameters, body.
pub struct ProcedureDeclNode {
    pub name: Literal,
    pub params: Vec<ParamNode>,
    pub block: BlockNode,
}

/// A declaration.
pub enum Declaration {
    VarDecl(VarDeclNode),
    ProcDecl(ProcedureDeclNode),
}

/// A block: declarations followed by a compound statement.
pub struct BlockNode {
    pub declarations: Vec<Declaration>,
    pub compound_statement: CompoundStatementNode,
}

/// A whole program: its name and its block.
pub struct ProgramNode {
    pub name: Literal,
    pub block: BlockNode,
}

impl TypeNode {
    /// The builtin type this node names, or `None` where the token is no
    /// type keyword.
    pub fn get_type(&self) -> (r: Option<Type>)
        ensures
            r == match self.token.token_type {
                TokenType::IntegerType => Some(Type::Integer),
                TokenType::FloatType => Some(Type::Float),
                _ => None::<Type>,
            },
    {
        match self.token.token_type {
            TokenType::IntegerType => Some(Type::Integer),
            TokenType::FloatType => Some(Type::Float),
            _ => None,
        }
    }
}

/// Structural equivalence of expressions: the same shape, with every token
/// equal field by field.  A copy of a node is equivalent to the original;
/// the vectors inside the two need not be the same allocation.
pub open spec fn expr_like(a: Expr, b: Expr) -> bool
    decreases a,
{
    match (a, b) {
        (Expr::Num(x), Expr::Num(y)) => spec_token_eq(x.token, y.token),
        (Expr::BinaryOp(x), Expr::BinaryOp(y)) => {
            &&& spec_token_eq(x.op, y.op)
            &&& expr_like(x.left_side, y.left_side)
            &&& expr_like(x.right_side, y.right_side)
        },
        (Expr::UnaryOp(x), Expr::UnaryOp(y)) => {
            &&& spec_token_eq(x.op, y.op)
            &&& expr_like(x.node, y.node)
        },
        (Expr::Var(x), Expr::Var(y)) => spec_token_eq(x.name, y.name),
        _ => false,
    }
}

/// Structural equivalence of statements; see [`expr_like`].
pub open spec fn stmt_like(a: Statement, b: Statement) -> bool
    decreases a,
{
    match (a, b) {
        (Statement::Compound(x), Statement::Compound(y)) => {
            &&& x.child_statements@.len() == y.child_statements@.len()
            &&& forall|i: int|
                0 <= i < x.child_statements@.len() ==> stmt_like(
                    #[trigger] x.child_statements@[i],
                    y.child_statements@[i],
                )
        },
        (Statement::Assignment(x), Statement::Assignment(y)) => {
            &&& spec_token_eq(x.left.name, y.left.name)
            &&& expr_like(x.right, y.right)
        },
        (Statement::ProcedureCall(x), Statement::ProcedureCall(y)) => proc_call_like(x, y),
        (Statement::NoOp(_), Statement::NoOp(_)) => true,
        _ => false,
    }
}

/// Structural equivalence of procedure call nodes; see [`expr_like`].
pub open spec fn proc_call_like(a: ProcedureCallNode, b: ProcedureCallNode) -> bool
    decreases a,
{
    &&& spec_literal_eq(a.name, b.name)
    &&& a.actual_params@.len() == b.actual_params@.len()
    &&& forall|i: int|
        0 <= i < a.actual_params@.len() ==> expr_like(
            #[trigger] a.actual_params@[i],
            b.actual_params@[i],
        )
    &&& match (a.proc_symbol, b.proc_symbol) {
        (Some(x), Some(y)) => symbol_like(x, y),
        (None, None) => true,
        _ => false,
    }
}

/// Structural equivalence of symbols; see [`expr_like`].
pub open spec fn symbol_like(a: Symbol, b: Symbol) -> bool
    decreases a,
{
    match (a, b) {
        (Symbol::Builtin(t1, l1), Symbol::Builtin(t2, l2)) => t1 == t2 && l1 == l2,
        (Symbol::Var(t1, l1), Symbol::Var(t2, l2)) => t1 == t2 && l1 == l2,
        (Symbol::Procedure(p1, l1, b1), Symbol::Procedure(p2, l2, b2)) => {
            &&& params_sig_like(p1@, p2@)
            &&& l1 == l2
            &&& match (b1, b2) {
                (Some(x), Some(y)) => block_like(x, y),
                (None, None) => true,
                _ => false,
            }
        },
        _ => false,
    }
}

/// Equivalence of formal-parameter signatures: the same names (by their
/// characters) with the same types, in the same order.
pub open spec fn params_sig_like(a: Seq<(String, Type)>, b: Seq<(String, Type)>) -> bool {
    &&& a.len() == b.len()
    &&& forall|i: int|
        0 <= i < a.len() ==> (#[trigger] a[i]).0@ == b[i].0@ && a[i].1 == b[i].1
}

/// Structural equivalence of declarations; see [`expr_like`].
pub open spec fn decl_like(a: Declaration, b: Declaration) -> bool
    decreases a,
{
    match (a, b) {
        (Declaration::VarDecl(x), Declaration::VarDecl(y)) => {
            &&& spec_token_eq(x.var.name, y.var.name)
            &&& spec_token_eq(x.type_spec.token, y.type_spec.token)
        },
        (Declaration::ProcDecl(x), Declaration::ProcDecl(y)) => {
            &&& spec_literal_eq(x.name, y.name)
            &&& x.params@.len() == y.params@.len()
            &&& forall|i: int|
                0 <= i < x.params@.len() ==> spec_token_eq(
                    (#[trigger] x.params@[i]).var.name,
                    y.params@[i].var.name,
                ) && spec_token_eq(x.params@[i].param_type.token, y.params@[i].param_type.token)
            &&& block_like(x.block, y.block)
        },
        _ => false,
    }
}

/// Structural equivalence of blocks; see [`expr_like`].
pub open spec fn block_like(a: BlockNode, b: BlockNode) -> bool
    decreases a,
{
    &&& a.declarations@.len() == b.declarations@.len()
    &&& forall|i: int|
        0 <= i < a.declarations@.len() ==> decl_like(
            #[trigger] a.declarations@[i],
            b.declarations@[i],
        )
    &&& a.compound_statement.child_statements@.len()
        == b.compound_statement.child_statements@.len()
    &&& forall|i: int|
        0 <= i < a.compound_statement.child_statements@.len() ==> stmt_like(
            #[trigger] a.compound_statement.child_statements@[i],
            b.compound_statement.child_statements@[i],
        )
}

/// A copy of an expression, equivalent to the original.
pub fn clone_expr(e: &Expr) -> (r: Expr)
    ensures
        expr_like(r, *e),
        expr_like(*e, r),
    decreases *e,
{
    match e {
        Expr::Num(n) => Expr::Num(NumNode { token: n.token.clone() }),
        Expr::BinaryOp(b) => Expr::BinaryOp(
            Box::new(
                BinaryOpNode {
                    left_side: clone_expr(&b.left_side),
                    op: b.op.clone(),
                    right_side: clone_expr(&b.right_side),
                },
            ),
        ),
        Expr::UnaryOp(u) => Expr::UnaryOp(
            Box::new(UnaryOpNode { op: u.op.clone(), node: clone_expr(&u.node) }),
        ),
        Expr::Var(v) => Expr::Var(VarNode { name: v.name.clone() }),
    }
}

/// A copy of a statement, equivalent to the original.
pub fn clone_statement(s: &Statement) -> (r: Statement)
    ensures
        stmt_like(r, *s),
        stmt_like(*s, r),
    decreases *s,
{
    match s {
        Statement::Compound(c) => Statement::Compound(clone_compound(c)),
        Statement::Assignment(a) => Statement::Assignment(
            AssignmentNode {
                left: VarNode { name: a.left.name.clone() },
                right: clone_expr(&a.right),
            },
        ),
        Statement::ProcedureCall(p) => Statement::ProcedureCall(clone_proc_call(p)),
        Statement::NoOp(_) => Statement::NoOp(NoOpNode {}),
    }
}

/// A copy of a compound statement, equivalent to the original.
pub fn clone_compound(c: &CompoundStatementNode) -> (r: CompoundStatementNode)
    ensures
        r.child_statements@.len() == c.child_statements@.len(),
        forall|i: int|
            0 <= i < c.child_statements@.len() ==> stmt_like(
                #[trigger] r.child_statements@[i],
                c.child_statements@[i],
            ) && stmt_like(c.child_statements@[i], r.child_statements@[i]),
    decreases *c,
{
    let mut child_statements: Vec<Statement> = Vec::new();
    let n = c.child_statements.len();
    let mut i: usize = 0;
    while i < n
        invariant
            i <= n,
            n == c.child_statements@.len(),
            child_statements@.len() == i as int,
            forall|j: int|
                0 <= j < i ==> stmt_like(
                    #[trigger] child_statements@[j],
                    c.child_statements@[j],
                ) && stmt_like(c.child_statements@[j], child_statements@[j]),
        decreases n - i,
    {
        child_statements.push(clone_statement(&c.child_statements[i]));
        i = i + 1;
    }
    CompoundStatementNode { child_statements }
}

/// A copy of a procedure call node, equivalent to the original.
pub fn clone_proc_call(p: &ProcedureCallNode) -> (r: ProcedureCallNode)
    ensures
        proc_call_like(r, *p),
        proc_call_like(*p, r),
    decreases *p,
{
    let mut actual_params: Vec<Expr> = Vec::new();
    let n = p.actual_params.len();
    let mut i: usize = 0;
    while i < n
        invariant
            i <= n,
            n == p.actual_params@.len(),
            actual_params@.len() == i as int,
            forall|j: int|
                0 <= j < i ==> expr_like(#[trigger] actual_params@[j], p.actual_params@[j])
                    && expr_like(p.actual_params@[j], actual_params@[j]),
        decreases n - i,
    {
        actual_params.push(clone_expr(&p.actual_params[i]));
        i = i + 1;
    }
    let proc_symbol = match &p.proc_symbol {
        Some(s) => Some(clone_symbol(s)),
        None => None,
    };
    ProcedureCallNode { name: p.name.clone(), actual_params, proc_symbol }
}

/// A copy of a symbol, equivalent to the original.
pub fn clone_symbol(s: &Symbol) -> (r: Symbol)
    ensures
        symbol_like(r, *s),
        symbol_like(*s, r),
    decreases *s,
{
    match s {
        Symbol::Builtin(t, level) => Symbol::Builtin(clone_type(t), *level),
        Symbol::Var(t, level) => Symbol::Var(clone_type(t), *level),
        Symbol::Procedure(params, level, body) => {
            let mut ps: Vec<(String, Type)> = Vec::new();
            let n = params.len();
            let mut i: usize = 0;
            while i < n
                invariant
                    i <= n,
                    n == params@.len(),
                    ps@.len() == i as int,
                    forall|j: int|
                        0 <= j < i ==> (#[trigger] ps@[j]).0@ == params@[j].0@ && ps@[j].1
                            == params@[j].1,
                decreases n - i,
            {
                ps.push((params[i].0.clone(), clone_type(&params[i].1)));
                i = i + 1;
            }
            let b = match body {
                Some(block) => Some(clone_block(block)),
                None => None,
            };
            Symbol::Procedure(ps, *level, b)
        },
    }
}

/// A copy of a builtin type tag, equal to the original.
pub fn clone_type(t: &Type) -> (r: Type)
    ensures
        r == *t,
{
    match t {
        Type::Integer => Type::Integer,
        Type::Float => Type::Float,
    }
}

/// A copy of a declaration, equivalent to the original.
pub fn clone_declaration(d: &Declaration) -> (r: Declaration)
    ensures
        decl_like(r, *d),
        decl_like(*d, r),
    decreases *d,
{
    match d {
        Declaration::VarDecl(v) => Declaration::VarDecl(
            VarDeclNode {
                var: VarNode { name: v.var.name.clone() },
                type_spec: TypeNode { token: v.type_spec.token.clone() },
            },
        ),
        Declaration::ProcDecl(p) => {
            let mut params: Vec<ParamNode> = Vec::new();
            let n = p.params.len();
            let mut i: usize = 0;
            while i < n
                invariant
                    i <= n,
                    n == p.params@.len(),
                    params@.len() == i as int,
                    forall|j: int|
                        0 <= j < i ==> spec_token_eq(
                            (#[trigger] params@[j]).var.name,
                            p.params@[j].var.name,
                        ) && spec_token_eq(params@[j].param_type.token, p.params@[j].param_type.token),
                decreases n - i,
            {
                params.push(
                    ParamNode {
                        var: VarNode { name: p.params[i].var.name.clone() },
                        param_type: TypeNode { token: p.params[i].param_type.token.clone() },
                    },
                );
                i = i + 1;
            }
            Declaration::ProcDecl(
                ProcedureDeclNode { name: p.name.clone(), params, block: clone_block(&p.block) },
            )
        },
    }
}

/// A copy of a block, equivalent to the original.
pub fn clone_block(b: &BlockNode) -> (r: BlockNode)
    ensures
        block_like(r, *b),
        block_like(*b, r),
    decreases *b,
{
    let mut declarations: Vec<Declaration> = Vec::new();
    let n = b.declarations.len();
    let mut i: usize = 0;
    while i < n
        invariant
            i <= n,
            n == b.declarations@.len(),
            declarations@.len() == i as int,
            forall|j: int|
                0 <= j < i ==> decl_like(#[trigger] declarations@[j], b.declarations@[j])
                    && decl_like(b.declarations@[j], declarations@[j]),
        decreases n - i,
    {
        declarations.push(clone_declaration(&b.declarations[i]));
        i = i + 1;
    }
    BlockNode { declarations, compound_statement: clone_compound(&b.compound_statement) }
}

/// An expression as the specifications see it: the same shape with every
/// token abstracted by [`TokA`].
#[verifier::ext_equal]
pub ghost enum ExprA {
    Num(TokA),
    BinaryOp(Box<ExprA>, TokA, Box<ExprA>),
    UnaryOp(TokA, Box<ExprA>),
    Var(TokA),
}

/// A procedure call as the specifications see it.
#[verifier::ext_equal]
pub ghost struct CallA {
    pub name: Val,
    pub actual_params: Seq<ExprA>,
    pub proc_symbol: Option<SymA>,
}

/// A symbol as the specifications see it; a procedure's formals are
/// (lower-case-insensitive name, type) pairs and its body a block.
#[verifier::ext_equal]
pub ghost enum SymA {
    Builtin(Type, u32),
    Var(Type, u32),
    Procedure(Seq<(Seq<char>, Type)>, u32, Option<BlockA>),
}

/// A statement as the specifications see it.
#[verifier::ext_equal]
pub ghost enum StmtA {
    Compound(Seq<StmtA>),
    Assignment(TokA, ExprA),
    ProcedureCall(CallA),
    NoOp,
}

/// A declaration as the specifications see it: a variable declaration's
/// name and type tokens, or a procedure's name, parameter (name, type)
/// token pairs, and body.
#[verifier::ext_equal]
pub ghost enum DeclA {
    VarDecl(TokA, TokA),
    ProcDecl(Val, Seq<(TokA, TokA)>, BlockA),
}

/// A block as the specifications see it.
#[verifier::ext_equal]
pub ghost struct BlockA {
    pub declarations: Seq<DeclA>,
    pub compound: Seq<StmtA>,
}

/// A program as the specifications see it.
#[verifier::ext_equal]
pub ghost struct ProgramA {
    pub name: Val,
    pub block: BlockA,
}

/// The abstraction of an expression.
pub open spec fn abs_expr(e: Expr) -> ExprA
    decreases e,
{
    match e {
        Expr::Num(n) => ExprA::Num(n.token.abs()),
        Expr::BinaryOp(b) => ExprA::BinaryOp(
            Box::new(abs_expr(b.left_side)),
            b.op.abs(),
            Box::new(abs_expr(b.right_side)),
        ),
        Expr::UnaryOp(u) => ExprA::UnaryOp(u.op.abs(), Box::new(abs_expr(u.node))),
        Expr::Var(v) => ExprA::Var(v.name.abs()),
    }
}

/// The abstraction of a sequence of expressions, in order.
pub open spec fn abs_exprs(es: Seq<Expr>) -> Seq<ExprA>
    decreases es,
{
    if es.len() == 0 {
        Seq::empty()
    } else {
        seq![abs_expr(es[0])] + abs_exprs(es.subrange(1, es.len() as int))
    }
}

/// The abstraction of a statement.
pub open spec fn abs_stmt(s: Statement) -> StmtA
    decreases s,
{
    match s {
        Statement::Compound(c) => StmtA::Compound(abs_stmts(c.child_statements@)),
        Statement::Assignment(a) => StmtA::Assignment(a.left.name.abs(), abs_expr(a.right)),
        Statement::ProcedureCall(p) => StmtA::ProcedureCall(abs_call(p)),
        Statement::NoOp(_) => StmtA::NoOp,
    }
}

/// The abstraction of a sequence of statements, in order.
pub open spec fn abs_stmts(ss: Seq<Statement>) -> Seq<StmtA>
    decreases ss,
{
    if ss.len() == 0 {
        Seq::empty()
    } else {
        seq![abs_stmt(ss[0])] + abs_stmts(ss.subrange(1, ss.len() as int))
    }
}

/// The abstraction of a procedure call node.
pub open spec fn abs_call(p: ProcedureCallNode) -> CallA
    decreases p,
{
    CallA {
        name: p.name.abs(),
        actual_params: abs_exprs(p.actual_params@),
        proc_symbol: match p.proc_symbol {
            Some(s) => Some(abs_sym(s)),
            None => None,
        },
    }
}

/// The abstraction of a symbol.
pub open spec fn abs_sym(s: Symbol) -> SymA
    decreases s,
{
    match s {
        Symbol::Builtin(t, level) => SymA::Builtin(t, level),
        Symbol::Var(t, level) => SymA::Var(t, level),
        Symbol::Procedure(params, level, body) => SymA::Procedure(
            params@.map_values(|p: (String, Type)| (p.0@, p.1)),
            level,
            match body {
                Some(b) => Some(abs_block(b)),
                None => None,
            },
        ),
    }
}

/// The abstraction of a declaration.
pub open spec fn abs_decl(d: Declaration) -> DeclA
    decreases d,
{
    match d {
        Declaration::VarDecl(v) => DeclA::VarDecl(v.var.name.abs(), v.type_spec.token.abs()),
        Declaration::ProcDecl(p) => DeclA::ProcDecl(
            p.name.abs(),
            p.params@.map_values(
                |pn: ParamNode| (pn.var.name.abs(), pn.param_type.token.abs()),
            ),
            abs_block(p.block),
        ),
    }
}

/// The abstraction of a sequence of declarations, in order.
pub open spec fn abs_decls(ds: Seq<Declaration>) -> Seq<DeclA>
    decreases ds,
{
    if ds.len() == 0 {
        Seq::empty()
    } else {
        seq![abs_decl(ds[0])] + abs_decls(ds.subrange(1, ds.len() as int))
    }
}

/// The abstraction of a block.
pub open spec fn abs_block(b: BlockNode) -> BlockA
    decreases b,
{
    BlockA {
        declarations: abs_decls(b.declarations@),
        compound: abs_stmts(b.compound_statement.child_statements@),
    }
}

/// The abstraction of a program.
pub open spec fn abs_program(p: ProgramNode) -> ProgramA {
    ProgramA { name: p.name.abs(), block: abs_block(p.block) }
}

/// The same call site up to its cached binding: the callee name and the
/// actual parameters agree; the resolved symbol — the one thing analysis
/// writes — is left free.
pub open spec fn same_site_call(a: CallA, b: CallA) -> bool {
    a.name == b.name && a.actual_params == b.actual_params
}

/// Statement sequences of the same shape, element-wise.
pub open spec fn same_shape_stmts(a: Seq<StmtA>, b: Seq<StmtA>) -> bool {
    a.len() == b.len() && forall|i: int|
        0 <= i < a.len() ==> same_shape_stmt(#[trigger] a[i], b[i])
}

/// The same statement up to the call sites' cached bindings.
pub open spec fn same_shape_stmt(a: StmtA, b: StmtA) -> bool
    decreases a,
{
    match (a, b) {
        (StmtA::Compound(x), StmtA::Compound(y)) => x.len() == y.len() && forall|i: int|
            0 <= i < x.len() ==> same_shape_stmt(#[trigger] x[i], y[i]),
        (StmtA::Assignment(_, _), StmtA::Assignment(_, _)) => a == b,
        (StmtA::ProcedureCall(x), StmtA::ProcedureCall(y)) => same_site_call(x, y),
        (StmtA::NoOp, StmtA::NoOp) => true,
        _ => false,
    }
}

/// The same declaration up to the call sites' cached bindings.
pub open spec fn same_shape_decl(a: DeclA, b: DeclA) -> bool
    decreases a,
{
    match (a, b) {
        (DeclA::VarDecl(_, _), DeclA::VarDecl(_, _)) => a == b,
        (DeclA::ProcDecl(n1, p1, b1), DeclA::ProcDecl(n2, p2, b2)) => n1 == n2 && p1 == p2
            && same_shape_block(b1, b2),
        _ => false,
    }
}

/// The same block up to the call sites' cached bindings.
pub open spec fn same_shape_block(a: BlockA, b: BlockA) -> bool
    decreases a,
{
    &&& a.declarations.len() == b.declarations.len()
    &&& (forall|i: int|
        0 <= i < a.declarations.len() ==> same_shape_decl(
            #[trigger] a.declarations[i],
            b.declarations[i],
        ))
    &&& same_shape_stmts(a.compound, b.compound)
}

/// The same program up to the call sites' cached bindings.
pub open spec fn same_shape_program(a: ProgramA, b: ProgramA) -> bool {
    a.name == b.name && same_shape_block(a.block, b.block)
}

/// Abstraction is element-wise on statement sequences.
pub proof fn lemma_abs_stmts_index(s: Seq<Statement>)
    ensures
        abs_stmts(s).len() == s.len(),
        forall|i: int| 0 <= i < s.len() ==> #[trigger] abs_stmts(s)[i] == abs_stmt(s[i]),
    decreases s.len(),
{
    if s.len() > 0 {
        lemma_abs_stmts_index(s.subrange(1, s.len() as int));
    }
}

/// Abstraction is element-wise on declaration sequences.
pub proof fn lemma_abs_decls_index(s: Seq<Declaration>)
    ensures
        abs_decls(s).len() == s.len(),
        forall|i: int| 0 <= i < s.len() ==> #[trigger] abs_decls(s)[i] == abs_decl(s[i]),
    decreases s.len(),
{
    if s.len() > 0 {
        lemma_abs_decls_index(s.subrange(1, s.len() as int));
    }
}

/// Abstraction distributes over appending one expression.
pub proof fn lemma_abs_exprs_push(s: Seq<Expr>, e: Expr)
    ensures
        abs_exprs(s.push(e)) == abs_exprs(s).push(abs_expr(e)),
    decreases s.len(),
{
    if s.len() == 0 {
        assert(s.push(e).subrange(1, 1) =~= s);
        assert(abs_exprs(s) =~= Seq::<ExprA>::empty());
        assert(s.push(e)[0] == e);
        assert(abs_exprs(s.push(e)) =~= abs_exprs(s).push(abs_expr(e)));
    } else {
        assert(s.push(e).subrange(1, s.len() as int + 1) =~= s.subrange(1, s.len() as int).push(e));
        lemma_abs_exprs_push(s.subrange(1, s.len() as int), e);
        assert(abs_exprs(s.push(e)) =~= abs_exprs(s).push(abs_expr(e)));
    }
}

/// Abstraction distributes over appending one statement.
pub proof fn lemma_abs_stmts_push(s: Seq<Statement>, x: Statement)
    ensures
        abs_stmts(s.push(x)) == abs_stmts(s).push(abs_stmt(x)),
    decreases s.len(),
{
    if s.len() == 0 {
        assert(s.push(x).subrange(1, 1) =~= s);
        assert(abs_stmts(s) =~= Seq::<StmtA>::empty());
        assert(s.push(x)[0] == x);
        assert(abs_stmts(s.push(x)) =~= abs_stmts(s).push(abs_stmt(x)));
    } else {
        assert(s.push(x).subrange(1, s.len() as int + 1) =~= s.subrange(1, s.len() as int).push(x));
        lemma_abs_stmts_push(s.subrange(1, s.len() as int), x);
        assert(abs_stmts(s.push(x)) =~= abs_stmts(s).push(abs_stmt(x)));
    }
}

/// Abstraction distributes over appending one declaration.
pub proof fn lemma_abs_decls_push(s: Seq<Declaration>, d: Declaration)
    ensures
        abs_decls(s.push(d)) == abs_decls(s).push(abs_decl(d)),
{
    assert(s.push(d) =~= s + seq![d]);
    assert(seq![d].subrange(1, 1) =~= Seq::<Declaration>::empty());
    assert(abs_decls(Seq::<Declaration>::empty()) =~= Seq::<DeclA>::empty());
    assert(abs_decls(seq![d]) =~= seq![abs_decl(d)]);
    lemma_abs_decls_concat(s, seq![d]);
    assert(abs_decls(s) + seq![abs_decl(d)] =~= abs_decls(s).push(abs_decl(d)));
}

/// Abstraction distributes over declaration concatenation.
pub proof fn lemma_abs_decls_concat(a: Seq<Declaration>, b: Seq<Declaration>)
    ensures
        abs_decls(a + b) == abs_decls(a) + abs_decls(b),
    decreases a.len(),
{
    if a.len() == 0 {
        assert(a + b =~= b);
        assert(abs_decls(a + b) =~= abs_decls(a) + abs_decls(b));
    } else {
        assert((a + b)[0] == a[0]);
        assert((a + b).subrange(1, (a + b).len() as int) =~= a.subrange(1, a.len() as int) + b);
        lemma_abs_decls_concat(a.subrange(1, a.len() as int), b);
        assert(abs_decls(a + b) =~= abs_decls(a) + abs_decls(b));
    }
}

} // verus!
