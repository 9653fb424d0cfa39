//! A small embeddable scripting language: a parser from source text to a
//! syntax tree, and a tree-walking evaluator over a chain of lexical scopes.

pub mod ast;
pub mod grammar;
pub mod ieee;
pub mod interpreter;
pub mod laws;
pub mod ops;
pub mod parser;
pub mod runtime;
pub mod scope;
pub mod semantics;
pub mod table;
pub mod text;

use crate::ast::{ExecResult, ExecResultView};
use crate::interpreter::exec_block;
use crate::parser::{parse, parse_error};
use crate::scope::{ChainView, Scope, ScopeChain, ScopeView};
use vstd::prelude::*;

verus! {

/// What interpreting a source leaves: the outcome of its last statement
/// and the chain of scopes, for the host to inspect.
pub struct InterpretResult {
    pub exec_result: ExecResult,
    pub scope_chain: ScopeChain,
}

/// The chain that interpretation starts with: the given scope alone.
pub open spec fn root_chain(scope: ScopeView) -> ChainView {
    ChainView { frames: seq![scope.frame()], natives: seq![scope.natives] }
}

/// What interpreting a source under a global scope comes to. A source
/// that is no program leaves the chain as it was and reports the parse
/// error; a program is executed as a block.
pub open spec fn interpretation(source: Seq<char>, scope: ScopeView, fuel: nat) -> (
    ExecResultView,
    ChainView,
) {
    match grammar::program(source) {
        Some(b) => semantics::exec_block(b, root_chain(scope), fuel),
        None => (ExecResultView::Error(parse_error()), root_chain(scope)),
    }
}

/// Interprets `src` under `global_scope`, with a limit on how deep calls
/// may nest and how often a loop may repeat.
pub fn interpret_with_limit(src: &str, global_scope: Scope, fuel: u64) -> (r: InterpretResult)
    ensures
        (r.exec_result@, r.scope_chain@) == interpretation(src@, global_scope@, fuel as nat),
        r.scope_chain@.depth() == 1,
{
    let mut scopes = ScopeChain::from_scope(global_scope);
    let er = match parse(src) {
        Ok(stmts) => exec_block(&stmts, &mut scopes, fuel),
        Err(s) => ExecResult::Error(s),
    };
    InterpretResult { exec_result: er, scope_chain: scopes }
}

/// Interprets `src` under `global_scope`, with the greatest limit there
/// is. The result is a function of the source and the scope: the same
/// source under the same scope always gives the same result.
pub fn interpret(src: &str, global_scope: Scope) -> (r: InterpretResult)
    ensures
        (r.exec_result@, r.scope_chain@) == interpretation(src@, global_scope@, u64::MAX as nat),
        r.scope_chain@.depth() == 1,
{
    interpret_with_limit(src, global_scope, u64::MAX)
}

} // verus!
