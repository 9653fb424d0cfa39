//! The tree-walking evaluator: expressions are evaluated to values and
//! statements are executed against a chain of scopes.
//!
//! Every function here computes what `semantics` says, for the fuel it is
//! given, and leaves the chain with as many scopes as it found.

use crate::ast::{
    bindings_view, block_view, copy_block, copy_names, copy_value, expr_view, exprs_view,
    items_view, values_view, ExecResult, ExecResultView, Expr, ExprView, Function, Stmt,
    StmtBlock, Value, ValueView,
};
use crate::scope::{
    deep_values, lemma_bindings_deep, lemma_dict_item_depth, lemma_list_item_depth, ChainView,
};
pub use crate::scope::{Scope, ScopeChain};
use crate::semantics;
use crate::table::Table;
use vstd::prelude::*;

verus! {

/// Something that can be evaluated to a value.
pub trait Evaluatable {
    /// The value that evaluation gives and the chain that it leaves.
    spec fn value(&self, c: ChainView, fuel: nat) -> (ValueView, ChainView);

    /// Evaluates with all the fuel there is.
    fn eval(&self, scopes: &mut ScopeChain) -> (v: Value)
        ensures
            (v@, final(scopes)@) == self.value(old(scopes)@, u64::MAX as nat),
    ;
}

/// Something that can be executed.
pub trait Executable {
    /// The outcome of execution and the chain that it leaves.
    spec fn outcome(&self, c: ChainView, fuel: nat) -> (ExecResultView, ChainView);

    /// Executes with all the fuel there is.
    fn exec(&self, scopes: &mut ScopeChain) -> (r: ExecResult)
        ensures
            (r@, final(scopes)@) == self.outcome(old(scopes)@, u64::MAX as nat),
    ;
}

/// The view of a value that may be absent.
pub open spec fn option_view(v: Option<&Value>) -> Option<ValueView> {
    match v {
        Some(c) => Some(c@),
        None => None,
    }
}

/// The element of a collection at an index, copied out.
pub fn element_of(collection: Option<&Value>, index: &Value) -> (v: Value)
    ensures
        v@ == semantics::element(option_view(collection), index@),
{
    match collection {
        Some(Value::List(items)) => match index {
            Value::Int(i) => {
                if *i >= 0 && (*i as u64) < (items.len() as u64) {
                    assert(values_view(items@)[*i as int] == items@[*i as int]@);
                    copy_value(&items[*i as usize])
                } else {
                    assert(*i < 0 || *i >= values_view(items@).len());
                    Value::Null
                }
            },
            _ => Value::Null,
        },
        Some(Value::Dict(t)) => match index {
            Value::Str(k) => {
                proof {
                    lemma_bindings_deep(t.entries@);
                }
                match t.get(k.as_str()) {
                    Some(v) => copy_value(v),
                    None => Value::Null,
                }
            },
            _ => Value::Null,
        },
        _ => Value::Null,
    }
}

/// Evaluates the expressions of a list from left to right.
pub fn eval_args(es: &Vec<Box<Expr>>, scopes: &mut ScopeChain, fuel: u64) -> (vs: Vec<Value>)
    ensures
        (values_view(vs@), final(scopes)@) == semantics::eval_list(
            exprs_view(es@),
            old(scopes)@,
            fuel as nat,
        ),
        final(scopes)@.depth() == old(scopes)@.depth(),
    decreases fuel, 0nat, es, 0nat,
{
    let ghost c0 = scopes@;
    let ghost all = exprs_view(es@);
    let mut out: Vec<Value> = Vec::new();
    let mut i: usize = 0;
    assert(all.take(0) =~= Seq::<ExprView>::empty());
    assert(values_view(out@) =~= Seq::<ValueView>::empty());
    while i < es.len()
        invariant
            i <= es.len(),
            all == exprs_view(es@),
            (values_view(out@), scopes@) == semantics::eval_list(all.take(i as int), c0, fuel as nat),
            scopes@.depth() == c0.depth(),
        decreases es.len() - i,
    {
        let ghost before = values_view(out@);
        let v = eval_expr(&*es[i], scopes, fuel);
        out.push(v);
        proof {
            assert(all.take(i + 1).drop_last() =~= all.take(i as int));
            assert(all.take(i + 1).last() == expr_view(es@[i as int]));
            assert(values_view(out@) =~= before.push(v@));
        }
        i += 1;
    }
    assert(all.take(es.len() as int) =~= all);
    out
}

/// Evaluates the entries of a dict literal from left to right.
pub fn eval_dict(items: &Vec<(String, Box<Expr>)>, scopes: &mut ScopeChain, fuel: u64) -> (t: Table<
    Value,
>)
    ensures
        (bindings_view(t.entries@), final(scopes)@) == semantics::eval_items(
            items_view(items@),
            old(scopes)@,
            fuel as nat,
        ),
        final(scopes)@.depth() == old(scopes)@.depth(),
    decreases fuel, 0nat, items, 0nat,
{
    let ghost c0 = scopes@;
    let ghost all = items_view(items@);
    let mut out: Table<Value> = Table::new();
    let mut i: usize = 0;
    assert(all.take(0) =~= Seq::<(Seq<char>, ExprView)>::empty());
    assert(deep_values(out@) =~= Map::<Seq<char>, ValueView>::empty());
    while i < items.len()
        invariant
            i <= items.len(),
            all == items_view(items@),
            (deep_values(out@), scopes@) == semantics::eval_items(
                all.take(i as int),
                c0,
                fuel as nat,
            ),
            scopes@.depth() == c0.depth(),
        decreases items.len() - i,
    {
        let ghost before = deep_values(out@);
        let v = eval_expr(&*items[i].1, scopes, fuel);
        out.insert(items[i].0.as_str(), v);
        proof {
            assert(all.take(i + 1).drop_last() =~= all.take(i as int));
            assert(all.take(i + 1).last() == (items@[i as int].0@, expr_view(items@[i as int].1)));
            assert(deep_values(out@) =~= before.insert(items@[i as int].0@, v@));
        }
        i += 1;
    }
    proof {
        assert(all.take(items.len() as int) =~= all);
        lemma_bindings_deep(out.entries@);
    }
    out
}

/// Evaluates an expression.
pub fn eval_expr(e: &Expr, scopes: &mut ScopeChain, fuel: u64) -> (v: Value)
    ensures
        (v@, final(scopes)@) == semantics::eval_expr(e@, old(scopes)@, fuel as nat),
        final(scopes)@.depth() == old(scopes)@.depth(),
    decreases fuel, 0nat, e, 1nat,
{
    match e {
        Expr::BinOp(l, op, r) => {
            let lv = eval_expr(&**l, scopes, fuel);
            let rv = eval_expr(&**r, scopes, fuel);
            op.eval(lv, rv)
        },
        Expr::Bool(b) => Value::Bool(*b),
        Expr::Dict(items) => Value::Dict(eval_dict(items, scopes, fuel)),
        Expr::FuncCall(name, args) => {
            let vs = eval_args(args, scopes, fuel);
            match scopes.resolve_func(name.as_str()) {
                Some(f) => {
                    if fuel == 0 {
                        Value::Null
                    } else {
                        f.execute(scopes, &vs, fuel - 1)
                    }
                },
                None => match scopes.resolve_native_func(name.as_str()) {
                    Some(n) => scopes.call_native(&n, &vs),
                    None => Value::Null,
                },
            }
        },
        Expr::Id(name) => match scopes.resolve_var(name.as_str()) {
            Some(v) => copy_value(v),
            None => Value::Null,
        },
        Expr::Int(i) => Value::Int(*i),
        Expr::ListElement(name, index) => {
            let i = eval_expr(&**index, scopes, fuel);
            element_of(scopes.resolve_var(name.as_str()), &i)
        },
        Expr::List(items) => Value::List(eval_args(items, scopes, fuel)),
        Expr::Null => Value::Null,
        Expr::Real(x) => Value::Real(*x),
        Expr::Str(s) => Value::Str(s.clone()),
        Expr::UnaryOp(op, x) => {
            let v = eval_expr(&**x, scopes, fuel);
            op.eval_unary(v)
        },
    }
}

impl Function {
    /// Calls the function: runs its body in a new scope that holds the
    /// arguments, drops that scope again, and hands out what the body
    /// returned, or `Null` where it returned nothing.
    pub fn execute(&self, scopes: &mut ScopeChain, args: &Vec<Value>, fuel: u64) -> (v: Value)
        ensures
            (v@, final(scopes)@) == semantics::call_function(
                self@,
                values_view(args@),
                old(scopes)@,
                fuel as nat,
            ),
            final(scopes)@.depth() == old(scopes)@.depth(),
        decreases fuel, 1nat, self.stmts, 1nat,
    {
        let scope = Scope::from_args(&self.args, args);
        assert(scope@ == semantics::call_scope(self@.params, values_view(args@)));
        scopes.push(scope);
        let r = exec_block(&self.stmts, scopes, fuel);
        scopes.pop();
        match r {
            ExecResult::Return(v) => v,
            _ => Value::Null,
        }
    }
}

/// Executes a statement.
pub fn exec_stmt(s: &Stmt, scopes: &mut ScopeChain, fuel: u64) -> (r: ExecResult)
    ensures
        (r@, final(scopes)@) == semantics::exec_stmt(s@, old(scopes)@, fuel as nat),
        final(scopes)@.depth() == old(scopes)@.depth(),
    decreases fuel, 1nat, s, 1nat,
{
    match s {
        Stmt::Break => ExecResult::Break,
        Stmt::Expr(e) => {
            eval_expr(e, scopes, fuel);
            ExecResult::Normal
        },
        Stmt::FnDef(name, params, body) => {
            scopes.insert_func(
                name.as_str(),
                Function { args: copy_names(params), stmts: copy_block(body) },
            );
            ExecResult::Normal
        },
        Stmt::If(cond, body) => match eval_expr(cond, scopes, fuel) {
            Value::Bool(true) => exec_block(body, scopes, fuel),
            _ => ExecResult::Normal,
        },
        Stmt::IfElse(cond, yes, no) => match eval_expr(cond, scopes, fuel) {
            Value::Bool(true) => exec_block(yes, scopes, fuel),
            _ => exec_block(no, scopes, fuel),
        },
        Stmt::Let(name, e) => {
            let v = eval_expr(e, scopes, fuel);
            scopes.insert_var(name.as_str(), v);
            ExecResult::Normal
        },
        Stmt::ListItemAssignment(name, index, e) => {
            let i = eval_expr(index, scopes, fuel);
            let v = eval_expr(e, scopes, fuel);
            let ghost c2 = scopes@;
            match i {
                Value::Int(x) => {
                    if x >= 0 && (x as u64) < (usize::MAX as u64) {
                        proof {
                            lemma_list_item_depth(c2.frames, name@, x as nat, v@);
                        }
                        scopes.insert_list_item(name.as_str(), x as usize, v);
                    }
                },
                Value::Str(k) => {
                    proof {
                        lemma_dict_item_depth(c2.frames, name@, k@, v@);
                    }
                    scopes.insert_dict_item(name.as_str(), k.as_str(), v);
                },
                _ => {},
            }
            ExecResult::Normal
        },
        Stmt::Loop(body) => exec_loop(body, scopes, fuel),
        Stmt::Return(e) => ExecResult::Return(eval_expr(e, scopes, fuel)),
    }
}

/// Executes a loop: repeats the body until it breaks or returns.
pub fn exec_loop(body: &StmtBlock, scopes: &mut ScopeChain, fuel: u64) -> (r: ExecResult)
    ensures
        (r@, final(scopes)@) == semantics::exec_loop(block_view(body@), old(scopes)@, fuel as nat),
        final(scopes)@.depth() == old(scopes)@.depth(),
    decreases fuel, 1nat, body, 1nat,
{
    let ghost c0 = scopes@;
    let mut left: u64 = fuel;
    loop
        invariant
            left <= fuel,
            c0 == old(scopes)@,
            semantics::exec_loop(block_view(body@), scopes@, left as nat) == semantics::exec_loop(
                block_view(body@),
                c0,
                fuel as nat,
            ),
            scopes@.depth() == c0.depth(),
        decreases left,
    {
        if left == 0 {
            return ExecResult::Error("Reached the limit on loop iterations");
        }
        left = left - 1;
        let r = exec_block(body, scopes, left);
        match r {
            ExecResult::Normal => {},
            ExecResult::Break => {
                return ExecResult::Normal;
            },
            other => {
                return other;
            },
        }
    }
}

/// Executes a block: its statements in order, until one does not complete
/// normally.
pub fn exec_block(b: &StmtBlock, scopes: &mut ScopeChain, fuel: u64) -> (r: ExecResult)
    ensures
        (r@, final(scopes)@) == semantics::exec_block(block_view(b@), old(scopes)@, fuel as nat),
        final(scopes)@.depth() == old(scopes)@.depth(),
    decreases fuel, 1nat, b, 0nat,
{
    let ghost c0 = scopes@;
    let ghost all = block_view(b@);
    let mut i: usize = 0;
    assert(all.skip(0) =~= all);
    while i < b.len()
        invariant
            i <= b.len(),
            all == block_view(b@),
            c0 == old(scopes)@,
            semantics::exec_block(all.skip(i as int), scopes@, fuel as nat)
                == semantics::exec_block(all, c0, fuel as nat),
            scopes@.depth() == c0.depth(),
        decreases b.len() - i,
    {
        proof {
            assert(all.skip(i as int)[0] == b@[i as int]@);
            assert(all.skip(i as int).drop_first() =~= all.skip(i + 1));
        }
        let r = exec_stmt(&b[i], scopes, fuel);
        match r {
            ExecResult::Normal => {},
            other => {
                return other;
            },
        }
        i += 1;
    }
    ExecResult::Normal
}

impl Evaluatable for Expr {
    open spec fn value(&self, c: ChainView, fuel: nat) -> (ValueView, ChainView) {
        semantics::eval_expr(self@, c, fuel)
    }

    fn eval(&self, scopes: &mut ScopeChain) -> (v: Value)
        ensures
            final(scopes)@.depth() == old(scopes)@.depth(),
    {
        eval_expr(self, scopes, u64::MAX)
    }
}

impl Executable for Stmt {
    open spec fn outcome(&self, c: ChainView, fuel: nat) -> (ExecResultView, ChainView) {
        semantics::exec_stmt(self@, c, fuel)
    }

    fn exec(&self, scopes: &mut ScopeChain) -> (r: ExecResult)
        ensures
            final(scopes)@.depth() == old(scopes)@.depth(),
    {
        exec_stmt(self, scopes, u64::MAX)
    }
}

impl Executable for StmtBlock {
    open spec fn outcome(&self, c: ChainView, fuel: nat) -> (ExecResultView, ChainView) {
        semantics::exec_block(block_view(self@), c, fuel)
    }

    fn exec(&self, scopes: &mut ScopeChain) -> (r: ExecResult)
        ensures
            final(scopes)@.depth() == old(scopes)@.depth(),
    {
        exec_block(self, scopes, u64::MAX)
    }
}

} // verus!
