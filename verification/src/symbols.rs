use vstd::prelude::*;
use crate::ast::BlockNode;
use crate::table::NameMap;
use crate::text::{lower_seq, to_lower};

verus! {

/// A builtin type of the interpreted language.
#[derive(PartialEq, Eq, Structural, Debug)]
pub enum Type {
    Integer,
    Float,
}

/// A statically known declared entity.  A variable or builtin-type symbol
/// carries the nesting level of the scope that declared it; a procedure
/// symbol carries its formal parameters (name and type, in order), its
/// declaring nesting level and — once its body has been analyzed — a copy
/// of that analyzed body.  A procedure symbol resolved before its own body
/// finished analysis (a call of a procedure by itself) carries no body.
pub enum Symbol {
    Builtin(Type, u32),
    Var(Type, u32),
    Procedure(Vec<(String, Type)>, u32, Option<BlockNode>),
}

/// The two builtin type names every scope starts with, registered at that
/// scope's own nesting level.
pub open spec fn builtin_symbols(level: u32) -> Map<Seq<char>, Symbol> {
    Map::empty().insert(
        seq!['i', 'n', 't', 'e', 'g', 'e', 'r'],
        Symbol::Builtin(Type::Integer, level),
    ).insert(seq!['r', 'e', 'a', 'l'], Symbol::Builtin(Type::Float, level))
}

/// One lexical scope: its name, its nesting level (the global scope is
/// level 1, each nested procedure scope one more), its own symbol mapping
/// keyed by lower-cased names, and the arena index of the enclosing scope,
/// `None` for the global scope.  Scopes live in the analyzer's arena; an
/// index in place of an owned reference keeps the tree simple to build and
/// drop.
pub struct ScopedSymbolTable {
    pub name: String,
    pub nesting_level: u32,
    pub symbols: NameMap<Symbol>,
    pub enclosing_scope: Option<usize>,
}

impl ScopedSymbolTable {
    /// A fresh scope holding only the two builtin type names.
    pub fn from(name: String, level: u32, enclosing_scope: Option<usize>) -> (r:
        ScopedSymbolTable)
        ensures
            r.name == name,
            r.nesting_level == level,
            r.enclosing_scope == enclosing_scope,
            r.symbols@ == builtin_symbols(level),
    {
        let mut symbols: NameMap<Symbol> = NameMap::new();
        let integer_name = <String as vstd::string::StringExecFns>::from_str("integer");
        let real_name = <String as vstd::string::StringExecFns>::from_str("real");
        proof {
            reveal_strlit("integer");
            reveal_strlit("real");
            assert(integer_name@ =~= seq!['i', 'n', 't', 'e', 'g', 'e', 'r']);
            assert(real_name@ =~= seq!['r', 'e', 'a', 'l']);
        }
        symbols.insert(integer_name, Symbol::Builtin(Type::Integer, level));
        symbols.insert(real_name, Symbol::Builtin(Type::Float, level));
        ScopedSymbolTable { name, nesting_level: level, symbols, enclosing_scope }
    }

    /// Binds `name`, folded to lower case, to the given symbol in this
    /// scope, shadowing any previous binding of the name here.
    pub fn define_symbol(&mut self, name: &str, value: Symbol)
        ensures
            final(self).symbols@ == old(self).symbols@.insert(lower_seq(name@), value),
            final(self).name == old(self).name,
            final(self).nesting_level == old(self).nesting_level,
            final(self).enclosing_scope == old(self).enclosing_scope,
    {
        let key = to_lower(name);
        self.symbols.insert(key, value);
    }

    /// The symbol bound to `name`, folded to lower case, in this scope
    /// alone; walking the enclosing chain is the analyzer's affair.
    pub fn lookup_symbol(&self, name: &str) -> (r: Option<&Symbol>)
        ensures
            match r {
                Some(v) => self.symbols@.contains_key(lower_seq(name@)) && *v
                    == self.symbols@[lower_seq(name@)],
                None => !self.symbols@.contains_key(lower_seq(name@)),
            },
    {
        let key = to_lower(name);
        self.symbols.get(&key)
    }
}

} // verus!
