use vstd::prelude::*;
use crate::ast::{
    block_like, clone_block, AssignmentNode, BlockNode, CompoundStatementNode, Declaration, Expr,
    NoOpNode, ProcedureCallNode, ProcedureDeclNode, ProgramNode, Statement, VarDeclNode, VarNode,
};
use crate::error::{ErrA, RuntimeError};
use crate::literal::Literal;
use crate::symbols::{ScopedSymbolTable, Symbol, Type};
use crate::text::{lower_seq, to_lower};

verus! {

/// An error the analysis pass can stop with.
pub open spec fn analysis_err(e: RuntimeError) -> bool {
    e is UndefinedVariable || e is VariableRedefinition || e is UnknownType
        || e is IllformedVarExpr
}

/// The symbol a name resolves to from the scope at `cur` outward through
/// the enclosing chain, or `None` when no scope on the chain binds it.
/// Lookup never walks downward or sideways; a chain that leaves the arena
/// or fails to shrink resolves nothing.
pub open spec fn chain_lookup(
    scopes: Seq<ScopedSymbolTable>,
    cur: Option<usize>,
    key: Seq<char>,
) -> Option<Symbol>
    decreases
            (match cur {
                Some(i) => i as int + 1,
                None => 0int,
            }),
{
    match cur {
        None => None,
        Some(i) => if i < scopes.len() {
            if scopes[i as int].symbols@.contains_key(key) {
                Some(scopes[i as int].symbols@[key])
            } else {
                match scopes[i as int].enclosing_scope {
                    Some(p) => if p < i {
                        chain_lookup(scopes, Some(p), key)
                    } else {
                        None
                    },
                    None => None,
                }
            }
        } else {
            None
        },
    }
}

/// Every scope's enclosing reference points strictly earlier into the
/// arena, so the chain from any scope walks outward and ends.
pub open spec fn arena_wf(scopes: Seq<ScopedSymbolTable>) -> bool {
    forall|i: int|
        0 <= i < scopes.len() ==> match (#[trigger] scopes[i]).enclosing_scope {
            Some(p) => p < i,
            None => true,
        }
}

/// What checking a variable declaration yields, in the order the checks
/// run: the declared type name must be text naming a builtin type on the
/// enclosing chain, and the variable name must be text not yet bound in
/// the current scope alone — shadowing an outer scope is allowed.
pub open spec fn var_decl_err(
    v: VarDeclNode,
    scopes: Seq<ScopedSymbolTable>,
    cur: Option<usize>,
) -> Option<ErrA> {
    match v.type_spec.token.literal {
        Literal::Text(ts) => match chain_lookup(scopes, cur, lower_seq(ts@)) {
            None => Some(ErrA::UnknownType(ts@)),
            Some(Symbol::Builtin(_, _)) => match v.var.name.literal {
                Literal::Text(vn) => match cur {
                    Some(i) => if i < scopes.len() && scopes[i as int].symbols@.contains_key(
                        lower_seq(vn@),
                    ) {
                        Some(ErrA::VariableRedefinition(lower_seq(vn@)))
                    } else {
                        None
                    },
                    None => None,
                },
                _ => Some(ErrA::IllformedVarExpr),
            },
            Some(_) => Some(ErrA::IllformedVarExpr),
        },
        _ => Some(ErrA::IllformedVarExpr),
    }
}

/// What checking an expression yields: every variable reference must be
/// text resolvable through the enclosing chain; literals pass, the two
/// sides of a binary operation are checked left before right, and a unary
/// operation is passed through unchecked, as evaluation will diagnose its
/// operand.
pub open spec fn expr_check(
    e: Expr,
    scopes: Seq<ScopedSymbolTable>,
    cur: Option<usize>,
) -> Option<ErrA>
    decreases e,
{
    match e {
        Expr::Num(_) => None,
        Expr::UnaryOp(_) => None,
        Expr::BinaryOp(b) => match expr_check(b.left_side, scopes, cur) {
            Some(err) => Some(err),
            None => expr_check(b.right_side, scopes, cur),
        },
        Expr::Var(v) => match v.name.literal {
            Literal::Text(s) => match chain_lookup(scopes, cur, lower_seq(s@)) {
                Some(_) => None,
                None => Some(ErrA::UndefinedVariable(s@)),
            },
            _ => Some(ErrA::IllformedVarExpr),
        },
    }
}

/// The static pass over a parsed program: it maintains a tree of lexical
/// scopes in an arena, checks declarations and variable references, and
/// caches a resolved procedure symbol on every call site it can resolve.
pub struct SemanticAnalyzer {
    pub scopes: Vec<ScopedSymbolTable>,
    pub current_scope: Option<usize>,
}

impl SemanticAnalyzer {
    /// The arena chains outward and the cursor points into it.
    pub open spec fn wf(self) -> bool {
        &&& arena_wf(self.scopes@)
        &&& match self.current_scope {
            Some(i) => i < self.scopes@.len(),
            None => true,
        }
    }

    /// An analyzer with no scope yet.
    pub fn new() -> (r: SemanticAnalyzer)
        ensures
            r.scopes@ == Seq::<ScopedSymbolTable>::empty(),
            r.current_scope is None,
            r.wf(),
    {
        SemanticAnalyzer { scopes: Vec::new(), current_scope: None }
    }

    /// The nesting level of the current scope, or 0 before any scope
    /// exists.
    pub fn get_current_scope_level(&self) -> (r: u32)
        requires
            self.wf(),
        ensures
            r == match self.current_scope {
                Some(i) => self.scopes@[i as int].nesting_level,
                None => 0u32,
            },
    {
        match self.current_scope {
            Some(i) => self.scopes[i].nesting_level,
            None => 0,
        }
    }

    /// Binds `name` in the current scope; see
    /// [`ScopedSymbolTable::define_symbol`].
    pub fn define_symbol(&mut self, name: &str, value: Symbol)
        requires
            old(self).wf(),
            old(self).current_scope is Some,
        ensures
            final(self).wf(),
            final(self).current_scope == old(self).current_scope,
            final(self).scopes@.len() == old(self).scopes@.len(),
            ({
                let i = old(self).current_scope->0 as int;
                final(self).scopes@ == old(self).scopes@.update(
                    i,
                    ScopedSymbolTable {
                        symbols: final(self).scopes@[i].symbols,
                        ..old(self).scopes@[i]
                    },
                ) && final(self).scopes@[i].symbols@ == old(self).scopes@[i].symbols@.insert(
                    lower_seq(name@),
                    value,
                )
            }),
    {
        let i = match self.current_scope {
            Some(i) => i,
            None => {
                proof {
                    assert(false);
                }
                0
            },
        };
        let ghost before = self.scopes@;
        self.scopes[i].define_symbol(name, value);
        proof {
            assert(final(self).scopes@ =~= before.update(
                i as int,
                ScopedSymbolTable {
                    symbols: final(self).scopes@[i as int].symbols,
                    ..before[i as int]
                },
            ));
        }
    }

    /// Resolves `name` through the enclosing chain; see [`chain_lookup`].
    pub fn lookup_symbol(&self, name: &str) -> (r: Option<&Symbol>)
        requires
            self.wf(),
        ensures
            match r {
                Some(s) => chain_lookup(self.scopes@, self.current_scope, lower_seq(name@))
                    == Some(*s),
                None => chain_lookup(self.scopes@, self.current_scope, lower_seq(name@))
                    is None,
            },
    {
        let key = to_lower(name);
        let mut cur: Option<usize> = self.current_scope;
        loop
            invariant
                self.wf(),
                match cur {
                    Some(i) => i < self.scopes@.len(),
                    None => true,
                },
                chain_lookup(self.scopes@, cur, key@) == chain_lookup(
                    self.scopes@,
                    self.current_scope,
                    lower_seq(name@),
                ),
            decreases
                    (match cur {
                        Some(i) => i as int + 1,
                        None => 0int,
                    }),
        {
            match cur {
                None => {
                    return None;
                },
                Some(i) => {
                    match self.scopes[i].symbols.get(&key) {
                        Some(s) => {
                            return Some(s);
                        },
                        None => {
                            cur = self.scopes[i].enclosing_scope;
                        },
                    }
                },
            }
        }
    }

    /// Looks `name` up in the current scope alone, without walking the
    /// chain.
    pub fn lookup_symbol_current_scope_only(&self, name: &str) -> (r: Option<&Symbol>)
        requires
            self.wf(),
        ensures
            match self.current_scope {
                Some(i) => match r {
                    Some(s) => self.scopes@[i as int].symbols@.contains_key(lower_seq(name@))
                        && *s == self.scopes@[i as int].symbols@[lower_seq(name@)],
                    None => !self.scopes@[i as int].symbols@.contains_key(lower_seq(name@)),
                },
                None => r is None,
            },
    {
        match self.current_scope {
            Some(i) => self.scopes[i].lookup_symbol(name),
            None => None,
        }
    }

    /// Checks one variable reference; see [`expr_check`].
    fn visit_var(&self, v: &VarNode) -> (r: Result<(), RuntimeError>)
        requires
            self.wf(),
        ensures
            match r {
                Ok(_) => expr_check(Expr::Var(*v), self.scopes@, self.current_scope) is None,
                Err(e) => analysis_err(e) && expr_check(Expr::Var(*v), self.scopes@, self.current_scope)
                    == Some(e.abs()),
            },
    {
        let name = match &v.name.literal {
            Literal::Text(s) => s,
            _ => {
                return Err(RuntimeError::IllformedVarExpr);
            },
        };
        match self.lookup_symbol(name.as_str()) {
            Some(_) => Ok(()),
            None => Err(RuntimeError::UndefinedVariable(name.clone())),
        }
    }

    /// Checks one expression; see [`expr_check`].
    fn visit_expr(&self, e: &Expr) -> (r: Result<(), RuntimeError>)
        requires
            self.wf(),
        ensures
            match r {
                Ok(_) => expr_check(*e, self.scopes@, self.current_scope) is None,
                Err(err) => analysis_err(err) && expr_check(*e, self.scopes@, self.current_scope)
                    == Some(err.abs()),
            },
        decreases *e,
    {
        match e {
            Expr::Num(_) => Ok(()),
            Expr::UnaryOp(_) => Ok(()),
            Expr::BinaryOp(b) => {
                self.visit_expr(&b.left_side)?;
                self.visit_expr(&b.right_side)
            },
            Expr::Var(v) => self.visit_var(v),
        }
    }

    /// Checks an assignment: its expression first, then its target.
    fn visit_assignment(&self, a: &AssignmentNode) -> (r: Result<(), RuntimeError>)
        requires
            self.wf(),
        ensures
            match r {
                Ok(_) => expr_check(a.right, self.scopes@, self.current_scope) is None
                    && expr_check(
                    Expr::Var(a.left),
                    self.scopes@,
                    self.current_scope,
                ) is None,
                Err(e) => analysis_err(e),
            },
    {
        self.visit_expr(&a.right)?;
        self.visit_var(&a.left)
    }

    /// Checks and registers one variable declaration; see
    /// [`var_decl_err`] for exactly when each error comes and what is
    /// registered on success.
    fn visit_var_decl(&mut self, v: &VarDeclNode) -> (r: Result<(), RuntimeError>)
        requires
            old(self).wf(),
            old(self).current_scope is Some,
        ensures
            final(self).wf(),
            final(self).current_scope == old(self).current_scope,
            match r {
                Ok(_) => var_decl_err(*v, old(self).scopes@, old(self).current_scope) is None
                    && final(self).scopes@.len() == old(self).scopes@.len() && ({
                    let i = old(self).current_scope->0 as int;
                    final(self).scopes@ == old(self).scopes@.update(
                        i,
                        ScopedSymbolTable {
                            symbols: final(self).scopes@[i].symbols,
                            ..old(self).scopes@[i]
                        },
                    )
                }) && ({
                    let i = old(self).current_scope->0 as int;
                    let vn = match v.var.name.literal {
                        Literal::Text(s) => s@,
                        _ => Seq::empty(),
                    };
                    let ty = match chain_lookup(
                        old(self).scopes@,
                        old(self).current_scope,
                        match v.type_spec.token.literal {
                            Literal::Text(ts) => lower_seq(ts@),
                            _ => Seq::empty(),
                        },
                    ) {
                        Some(Symbol::Builtin(t, _)) => t,
                        _ => Type::Integer,
                    };
                    final(self).scopes@[i].symbols@ == old(self).scopes@[i].symbols@.insert(
                        lower_seq(vn),
                        Symbol::Var(ty, old(self).scopes@[i].nesting_level),
                    )
                }),
                Err(e) => analysis_err(e) && var_decl_err(
                    *v,
                    old(self).scopes@,
                    old(self).current_scope,
                ) == Some(e.abs()) && *final(self) == *old(self),
            },
    {
        let tyname = match &v.type_spec.token.literal {
            Literal::Text(s) => s.clone(),
            _ => {
                return Err(RuntimeError::IllformedVarExpr);
            },
        };
        let ty = match self.lookup_symbol(tyname.as_str()) {
            None => {
                return Err(RuntimeError::UnknownType(tyname));
            },
            Some(Symbol::Builtin(t, _)) => crate::ast::clone_type(t),
            Some(_) => {
                return Err(RuntimeError::IllformedVarExpr);
            },
        };
        let variable_name = match &v.var.name.literal {
            Literal::Text(s) => s.clone(),
            _ => {
                return Err(RuntimeError::IllformedVarExpr);
            },
        };
        if self.lookup_symbol_current_scope_only(variable_name.as_str()).is_some() {
            return Err(RuntimeError::VariableRedefinition(to_lower(variable_name.as_str())));
        }
        let level = self.get_current_scope_level();
        self.define_symbol(variable_name.as_str(), Symbol::Var(ty, level));
        Ok(())
    }

    /// Analyzes the actual parameters of a call in the caller's scope,
    /// then resolves the callee through the enclosing chain and caches the
    /// resolved symbol on the call site — the one-time static binding
    /// evaluation later consumes.  An unresolvable callee is left uncached
    /// for evaluation to diagnose.
    fn visit_procedure_call(&mut self, p: &mut ProcedureCallNode) -> (r: Result<
        (),
        RuntimeError,
    >)
        requires
            old(self).wf(),
        ensures
            final(self).wf(),
            *final(self) == *old(self),
            final(p).name == old(p).name,
            final(p).actual_params == old(p).actual_params,
            match r {
                Ok(_) => match old(p).name {
                    Literal::Text(s) => match (
                        chain_lookup(
                            final(self).scopes@,
                            final(self).current_scope,
                            lower_seq(s@),
                        ),
                        final(p).proc_symbol,
                    ) {
                        (Some(sym), Some(cached)) => crate::ast::symbol_like(cached, sym),
                        (None, None) => true,
                        _ => false,
                    },
                    _ => true,
                },
                Err(e) => analysis_err(e),
            },
    {
        let n = p.actual_params.len();
        let mut i: usize = 0;
        while i < n
            invariant
                self.wf(),
                *self == *old(self),
                i <= n,
                n == p.actual_params@.len(),
            decreases n - i,
        {
            self.visit_expr(&p.actual_params[i])?;
            i = i + 1;
        }
        let name = match &p.name {
            Literal::Text(s) => s.clone(),
            _ => {
                return Err(RuntimeError::IllformedVarExpr);
            },
        };
        let resolved = match self.lookup_symbol(name.as_str()) {
            Some(s) => Some(crate::ast::clone_symbol(s)),
            None => None,
        };
        p.proc_symbol = resolved;
        Ok(())
    }

    /// Checks one statement, yielding the statement with every call site
    /// inside it resolved where possible.
    fn visit_statement(&mut self, s: Statement) -> (r: Result<Statement, RuntimeError>)
        requires
            old(self).wf(),
        ensures
            final(self).wf(),
            final(self).current_scope == old(self).current_scope,
            final(self).scopes@.len() >= old(self).scopes@.len(),
            match r {
                Ok(s2) => crate::ast::same_shape_stmt(
                    crate::ast::abs_stmt(s2),
                    crate::ast::abs_stmt(s),
                ),
                Err(e) => analysis_err(e),
            },
        decreases s,
    {
        match s {
            Statement::Compound(mut c) => {
                self.visit_compound(&mut c)?;
                Ok(Statement::Compound(c))
            },
            Statement::Assignment(a) => {
                self.visit_assignment(&a)?;
                Ok(Statement::Assignment(a))
            },
            Statement::ProcedureCall(mut p) => {
                self.visit_procedure_call(&mut p)?;
                Ok(Statement::ProcedureCall(p))
            },
            Statement::NoOp(n) => Ok(Statement::NoOp(n)),
        }
    }

    /// Checks a compound statement's children strictly in order.
    fn visit_compound(&mut self, c: &mut CompoundStatementNode) -> (r: Result<(), RuntimeError>)
        requires
            old(self).wf(),
        ensures
            final(self).wf(),
            final(self).current_scope == old(self).current_scope,
            final(self).scopes@.len() >= old(self).scopes@.len(),
            match r {
                Ok(_) => crate::ast::same_shape_stmts(
                    crate::ast::abs_stmts(final(c).child_statements@),
                    crate::ast::abs_stmts(old(c).child_statements@),
                ),
                Err(e) => analysis_err(e),
            },
        decreases *c,
    {
        let n = c.child_statements.len();
        let mut i: usize = 0;
        while i < n
            invariant
                self.wf(),
                self.current_scope == old(self).current_scope,
                self.scopes@.len() >= old(self).scopes@.len(),
                i <= n,
                n == c.child_statements@.len(),
                n == old(c).child_statements@.len(),
                forall|j: int|
                    i <= j < n ==> c.child_statements@[j] == old(c).child_statements@[j],
                forall|j: int|
                    0 <= j < i ==> crate::ast::same_shape_stmt(
                        crate::ast::abs_stmt(#[trigger] c.child_statements@[j]),
                        crate::ast::abs_stmt(old(c).child_statements@[j]),
                    ),
            decreases n - i,
        {
            let mut stmt = Statement::NoOp(NoOpNode {  });
            core::mem::swap(&mut stmt, &mut c.child_statements[i]);
            proof {
                broadcast use vstd::std_specs::vec::group_vec_axioms;
                broadcast use vstd::seq::axiom_seq_index_decreases;

                assert(stmt == old(c).child_statements@[i as int]);
                assert(decreases_to!(*old(c) => old(c).child_statements));
                assert(decreases_to!(old(c).child_statements => old(c).child_statements@));
                assert(decreases_to!(old(c).child_statements@ => old(c).child_statements@[i as int]));
                assert(decreases_to!(*old(c) => stmt));
            }
            let new_stmt = self.visit_statement(stmt)?;
            let mut slot = new_stmt;
            core::mem::swap(&mut c.child_statements[i], &mut slot);
            i = i + 1;
        }
        proof {
            crate::ast::lemma_abs_stmts_index(c.child_statements@);
            crate::ast::lemma_abs_stmts_index(old(c).child_statements@);
        }
        Ok(())
    }

    /// Registers the procedure in the enclosing scope before its body is
    /// analyzed, so a call of the procedure by itself resolves; analyzes
    /// parameters and body inside a fresh nested scope one level deeper;
    /// and finally re-registers the procedure with a copy of the analyzed
    /// body, so sibling and outer call sites bind a body whose own call
    /// sites are resolved.
    fn visit_procedure_decl(&mut self, p: &mut ProcedureDeclNode) -> (r: Result<
        (),
        RuntimeError,
    >)
        requires
            old(self).wf(),
            old(self).current_scope is Some,
        ensures
            final(self).wf(),
            final(self).current_scope == old(self).current_scope,
            final(self).scopes@.len() >= old(self).scopes@.len(),
            match r {
                Ok(_) => (match old(p).name {
                    Literal::Text(s) => ({
                        let i = old(self).current_scope->0 as int;
                        let sym = final(self).scopes@[i].symbols@[lower_seq(s@)];
                        &&& final(self).scopes@[i].symbols@.contains_key(lower_seq(s@))
                        &&& (sym matches Symbol::Procedure(_, lvl, body) && lvl == old(
                            self,
                        ).scopes@[i].nesting_level && (body matches Some(b) && block_like(
                            b,
                            final(p).block,
                        )))
                    }),
                    _ => true,
                }) && final(p).name == old(p).name && final(p).params == old(p).params
                    && crate::ast::same_shape_block(
                    crate::ast::abs_block(final(p).block),
                    crate::ast::abs_block(old(p).block),
                ),
                Err(e) => analysis_err(e),
            },
        decreases *p,
    {
        let mut params: Vec<(String, Type)> = Vec::new();
        let np = p.params.len();
        let mut i: usize = 0;
        while i < np
            invariant
                self.wf(),
                *self == *old(self),
                i <= np,
                np == p.params@.len(),
            decreases np - i,
        {
            let param_name = match &p.params[i].var.name.literal {
                Literal::Text(s) => s.clone(),
                _ => {
                    return Err(RuntimeError::IllformedVarExpr);
                },
            };
            let param_type = match p.params[i].param_type.get_type() {
                Some(t) => t,
                None => {
                    let tn = match &p.params[i].param_type.token.literal {
                        Literal::Text(s) => s.clone(),
                        _ => String::new(),
                    };
                    return Err(RuntimeError::UnknownType(tn));
                },
            };
            params.push((param_name, param_type));
            i = i + 1;
        }
        let proc_name = match &p.name {
            Literal::Text(s) => s.clone(),
            _ => {
                return Err(RuntimeError::IllformedVarExpr);
            },
        };
        let outer_level = self.get_current_scope_level();
        let outer_cursor = self.current_scope;
        let mut params_for_symbol: Vec<(String, Type)> = Vec::new();
        let mut j: usize = 0;
        while j < params.len()
            invariant
                j <= params@.len(),
            decreases params@.len() - j,
        {
            params_for_symbol.push((params[j].0.clone(), crate::ast::clone_type(&params[j].1)));
            j = j + 1;
        }
        self.define_symbol(
            proc_name.as_str(),
            Symbol::Procedure(params_for_symbol, outer_level, None),
        );
        let scope_name = to_lower(proc_name.as_str());
        let inner_level = outer_level.saturating_add(1);
        let inner_scope = ScopedSymbolTable::from(scope_name, inner_level, self.current_scope);
        let inner_idx = self.scopes.len();
        self.scopes.push(inner_scope);
        self.current_scope = Some(inner_idx);
        let mut k: usize = 0;
        while k < params.len()
            invariant
                self.wf(),
                self.current_scope == Some(inner_idx),
                inner_idx < self.scopes@.len(),
                self.scopes@.len() >= old(self).scopes@.len(),
                k <= params@.len(),
            decreases params@.len() - k,
        {
            let var_symbol = Symbol::Var(crate::ast::clone_type(&params[k].1), inner_level);
            self.define_symbol(params[k].0.as_str(), var_symbol);
            k = k + 1;
        }
        let body_result = self.visit_block(&mut p.block);
        self.current_scope = outer_cursor;
        body_result?;
        let mut params_final: Vec<(String, Type)> = Vec::new();
        let mut m: usize = 0;
        while m < params.len()
            invariant
                m <= params@.len(),
            decreases params@.len() - m,
        {
            params_final.push((params[m].0.clone(), crate::ast::clone_type(&params[m].1)));
            m = m + 1;
        }
        let analyzed_body = clone_block(&p.block);
        self.define_symbol(
            proc_name.as_str(),
            Symbol::Procedure(params_final, outer_level, Some(analyzed_body)),
        );
        Ok(())
    }

    /// Checks a block: its declarations in order, then its compound
    /// statement.
    fn visit_block(&mut self, b: &mut BlockNode) -> (r: Result<(), RuntimeError>)
        requires
            old(self).wf(),
            old(self).current_scope is Some,
        ensures
            final(self).wf(),
            final(self).current_scope == old(self).current_scope,
            final(self).scopes@.len() >= old(self).scopes@.len(),
            match r {
                Ok(_) => crate::ast::same_shape_block(
                    crate::ast::abs_block(*final(b)),
                    crate::ast::abs_block(*old(b)),
                ),
                Err(e) => analysis_err(e),
            },
        decreases *b,
    {
        let n = b.declarations.len();
        let mut i: usize = 0;
        while i < n
            invariant
                self.wf(),
                self.current_scope == old(self).current_scope,
                old(self).current_scope is Some,
                self.scopes@.len() >= old(self).scopes@.len(),
                i <= n,
                n == b.declarations@.len(),
                n == old(b).declarations@.len(),
                b.compound_statement == old(b).compound_statement,
                forall|j: int| i <= j < n ==> b.declarations@[j] == old(b).declarations@[j],
                forall|j: int|
                    0 <= j < i ==> crate::ast::same_shape_decl(
                        crate::ast::abs_decl(#[trigger] b.declarations@[j]),
                        crate::ast::abs_decl(old(b).declarations@[j]),
                    ),
            decreases n - i,
        {
            match &mut b.declarations[i] {
                Declaration::VarDecl(v) => {
                    let vd: &VarDeclNode = v;
                    self.visit_var_decl(vd)?;
                },
                Declaration::ProcDecl(pd) => {
                    proof {
                        broadcast use vstd::std_specs::vec::group_vec_axioms;
                        broadcast use vstd::seq::axiom_seq_index_decreases;

                        assert(*pd == old(b).declarations@[i as int]->ProcDecl_0);
                        assert(decreases_to!(*old(b) => old(b).declarations));
                        assert(decreases_to!(old(b).declarations => old(b).declarations@));
                        assert(decreases_to!(old(b).declarations@ => old(b).declarations@[i as int]));
                        assert(decreases_to!(old(b).declarations@[i as int] => old(b).declarations@[i as int]->ProcDecl_0));
                        assert(decreases_to!(*old(b) => *pd));
                    }
                    self.visit_procedure_decl(pd)?;
                },
            }
            i = i + 1;
        }
        proof {
            crate::ast::lemma_abs_decls_index(b.declarations@);
            crate::ast::lemma_abs_decls_index(old(b).declarations@);
        }
        let r = self.visit_compound(&mut b.compound_statement);
        proof {
            crate::ast::lemma_abs_decls_index(b.declarations@);
        }
        r
    }

    /// Opens the global scope (nesting level 1), analyzes the program's
    /// block inside it, and closes it again.
    fn visit_program(&mut self, program: &mut ProgramNode) -> (r: Result<(), RuntimeError>)
        requires
            old(self).wf(),
        ensures
            final(self).wf(),
            final(program).name == old(program).name,
            match r {
                Ok(_) => crate::ast::same_shape_program(
                    crate::ast::abs_program(*final(program)),
                    crate::ast::abs_program(*old(program)),
                ),
                Err(e) => analysis_err(e),
            },
    {
        let level = self.get_current_scope_level().saturating_add(1);
        let scope_name = <String as vstd::string::StringExecFns>::from_str("global");
        let program_scope = ScopedSymbolTable::from(scope_name, level, None);
        let idx = self.scopes.len();
        self.scopes.push(program_scope);
        self.current_scope = Some(idx);
        let r = self.visit_block(&mut program.block);
        self.current_scope = None;
        r
    }

    /// Runs the whole pass over a parsed program: any failure is one
    /// analysis error, and a failed pass may leave the tree partially
    /// rewritten — nothing downstream consumes it then.  Success means
    /// every declaration and reference checked out and every resolvable
    /// call site now carries its procedure symbol.
    pub fn analyze(&mut self, program: &mut ProgramNode) -> (r: Result<(), RuntimeError>)
        ensures
            final(self).wf(),
            final(program).name == old(program).name,
            match r {
                Ok(_) => crate::ast::same_shape_program(
                    crate::ast::abs_program(*final(program)),
                    crate::ast::abs_program(*old(program)),
                ),
                Err(e) => analysis_err(e),
            },
    {
        self.scopes = Vec::new();
        self.current_scope = None;
        self.visit_program(program)
    }
}

/// LAW — declaring a name twice in one scope is a redefinition error.
/// Whenever the declared type resolves to a builtin type and the current
/// scope's own table already binds the variable's lower-cased name —
/// whether to an earlier variable or to anything else — checking the
/// declaration yields exactly a variable-redefinition error carrying that
/// lower-cased name; registering any variable makes a second declaration
/// of the same name in the same scope fail so.
pub proof fn lemma_same_scope_redefinition(
    v: VarDeclNode,
    scopes: Seq<ScopedSymbolTable>,
    i: usize,
)
    requires
        i < scopes.len(),
        v.type_spec.token.literal matches Literal::Text(ts) && chain_lookup(
            scopes,
            Some(i),
            lower_seq(ts@),
        ) matches Some(Symbol::Builtin(_, _)),
        v.var.name.literal matches Literal::Text(vn) && scopes[i as int].symbols@.contains_key(
            lower_seq(vn@),
        ),
    ensures
        var_decl_err(v, scopes, Some(i)) == Some(
            ErrA::VariableRedefinition(lower_seq(v.var.name.literal->Text_0@)),
        ),
{
}

/// LAW — shadowing an outer scope is allowed.  Whenever the declared type
/// resolves to a builtin type and the current scope's own table does not
/// bind the variable's lower-cased name, checking the declaration
/// succeeds — even when an enclosing scope binds the same name, since the
/// redefinition check consults the current scope alone.
pub proof fn lemma_shadowing_allowed(v: VarDeclNode, scopes: Seq<ScopedSymbolTable>, i: usize)
    requires
        i < scopes.len(),
        v.type_spec.token.literal matches Literal::Text(ts) && chain_lookup(
            scopes,
            Some(i),
            lower_seq(ts@),
        ) matches Some(Symbol::Builtin(_, _)),
        v.var.name.literal matches Literal::Text(vn) && !scopes[i as int].symbols@.contains_key(
            lower_seq(vn@),
        ),
    ensures
        var_decl_err(v, scopes, Some(i)) is None,
{
}

} // verus!
