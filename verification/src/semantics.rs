//! The meaning of expressions and statements, as functions on views.
//!
//! Evaluation is total: an unknown name, an operand of the wrong kind or an
//! index out of range gives `Null`. It is also bounded: `fuel` limits how
//! deep calls of script functions may nest and how often a loop may repeat.
//! A call beyond the limit gives `Null`, a loop beyond it stops with an
//! error. Below the limit the fuel does not change what is computed.

use crate::ast::{ExecResultView, ExprView, FunctionView, StmtView, ValueView};
use crate::ops::{binary_value, unary_value};
use crate::scope::{
    args_map, fit, with_dict_item, with_func, with_list_item, with_var, ChainView, Native,
    ScopeView,
};
use vstd::prelude::*;

verus! {

/// The message of the error with which a loop stops at the limit.
pub open spec fn limit_message() -> Seq<char> {
    "Reached the limit on loop iterations"@
}

/// The element of a collection at an index: a place of a list for an
/// integer, the binding of a key of a dict for a text, else `Null`.
pub open spec fn element(collection: Option<ValueView>, index: ValueView) -> ValueView {
    match (collection, index) {
        (Some(ValueView::List(items)), ValueView::Int(i)) => if 0 <= i < items.len() {
            items[i as int]
        } else {
            ValueView::Null
        },
        (Some(ValueView::Dict(m)), ValueView::Str(k)) => if m.contains_key(k) {
            m[k]
        } else {
            ValueView::Null
        },
        _ => ValueView::Null,
    }
}

/// The scope that a call starts in: the parameters bound to the
/// arguments, and nothing else.
pub open spec fn call_scope(params: Seq<Seq<char>>, args: Seq<ValueView>) -> ScopeView {
    ScopeView { funcs: Map::empty(), natives: Map::empty(), vars: args_map(params, args) }
}

/// The chain after an indexed assignment: an integer index from zero up
/// assigns to a list, a text index to a dict, and any other index to
/// nothing.
pub open spec fn assign_item(c: ChainView, name: Seq<char>, index: ValueView, v: ValueView) -> ChainView {
    match index {
        ValueView::Int(i) => if 0 <= i < usize::MAX {
            c.with_frames(with_list_item(c.frames, name, i as nat, v))
        } else {
            c
        },
        ValueView::Str(k) => c.with_frames(with_dict_item(c.frames, name, k, v)),
        _ => c,
    }
}

/// The value of an expression and the chain that its evaluation leaves.
///
/// Operands and arguments are evaluated from left to right. A call looks
/// for a script function of its name in every scope, from the innermost
/// outward, before it looks for a native function in the same way: a
/// script function of an outer scope comes before a native function of an
/// inner one.
pub open spec fn eval_expr(e: ExprView, c: ChainView, fuel: nat) -> (ValueView, ChainView)
    decreases fuel, 0nat, e, 1nat,
{
    match e {
        ExprView::BinOp(l, op, r) => {
            let (lv, c1) = eval_expr(*l, c, fuel);
            let (rv, c2) = eval_expr(*r, c1, fuel);
            (binary_value(op, lv, rv), c2)
        },
        ExprView::Bool(b) => (ValueView::Bool(b), c),
        ExprView::Dict(items) => {
            let (m, c1) = eval_items(items, c, fuel);
            (ValueView::Dict(m), c1)
        },
        ExprView::FuncCall(name, args) => {
            let (vs, c1) = eval_list(args, c, fuel);
            match c1.resolve_func(name) {
                Some(f) => if fuel == 0 {
                    (ValueView::Null, c1)
                } else {
                    call_function(f, vs, c1, (fuel - 1) as nat)
                },
                None => match c1.resolve_native_func(name) {
                    Some(n) => call_native(n, vs, c1),
                    None => (ValueView::Null, c1),
                },
            }
        },
        ExprView::Id(name) => (
            match c.resolve_var(name) {
                Some(v) => v,
                None => ValueView::Null,
            },
            c,
        ),
        ExprView::Int(i) => (ValueView::Int(i), c),
        ExprView::ListElement(name, index) => {
            let (i, c1) = eval_expr(*index, c, fuel);
            (element(c1.resolve_var(name), i), c1)
        },
        ExprView::List(items) => {
            let (vs, c1) = eval_list(items, c, fuel);
            (ValueView::List(vs), c1)
        },
        ExprView::Null => (ValueView::Null, c),
        ExprView::Real(r) => (ValueView::Real(r), c),
        ExprView::Str(s) => (ValueView::Str(s), c),
        ExprView::UnaryOp(op, x) => {
            let (v, c1) = eval_expr(*x, c, fuel);
            (unary_value(op, v), c1)
        },
    }
}

/// The values of a list of expressions, evaluated from left to right.
pub open spec fn eval_list(es: Seq<ExprView>, c: ChainView, fuel: nat) -> (Seq<ValueView>, ChainView)
    decreases fuel, 0nat, es, 0nat,
{
    if es.len() == 0 {
        (Seq::empty(), c)
    } else {
        let (vs, c1) = eval_list(es.drop_last(), c, fuel);
        let (v, c2) = eval_expr(es.last(), c1, fuel);
        (vs.push(v), c2)
    }
}

/// The dict of a dict literal: its values are evaluated from left to
/// right, and of two entries with one key the later one stays.
pub open spec fn eval_items(items: Seq<(Seq<char>, ExprView)>, c: ChainView, fuel: nat) -> (
    Map<Seq<char>, ValueView>,
    ChainView,
)
    decreases fuel, 0nat, items, 0nat,
{
    if items.len() == 0 {
        (Map::empty(), c)
    } else {
        let (m, c1) = eval_items(items.drop_last(), c, fuel);
        let (v, c2) = eval_expr(items.last().1, c1, fuel);
        (m.insert(items.last().0, v), c2)
    }
}

/// A call of a native function: it sees and may change the frames, but
/// not their number.
pub open spec fn call_native(n: Native, args: Seq<ValueView>, c: ChainView) -> (
    ValueView,
    ChainView,
) {
    let (v, frames) = n.outcome(c.frames, args);
    (v, c.with_frames(fit(frames, c.depth())))
}

/// A call of a script function: the body runs in a new scope that holds
/// the arguments, the scope is dropped again, and the call's value is the
/// value that the body returned, or `Null` where it returned none.
pub open spec fn call_function(f: FunctionView, args: Seq<ValueView>, c: ChainView, fuel: nat) -> (
    ValueView,
    ChainView,
)
    decreases fuel, 1nat, f.body, 1nat,
{
    let (r, c1) = exec_block(f.body, c.push(call_scope(f.params, args)), fuel);
    (
        match r {
            ExecResultView::Return(v) => v,
            _ => ValueView::Null,
        },
        c1.pop(),
    )
}

/// The outcome of a statement and the chain that it leaves.
pub open spec fn exec_stmt(s: StmtView, c: ChainView, fuel: nat) -> (ExecResultView, ChainView)
    decreases fuel, 1nat, s, 1nat,
{
    match s {
        StmtView::Break => (ExecResultView::Break, c),
        StmtView::Expr(e) => (ExecResultView::Normal, eval_expr(e, c, fuel).1),
        StmtView::FnDef(name, params, body) => (
            ExecResultView::Normal,
            c.with_frames(with_func(c.frames, name, FunctionView { params, body })),
        ),
        StmtView::If(cond, body) => {
            let (v, c1) = eval_expr(cond, c, fuel);
            if v == ValueView::Bool(true) {
                exec_block(body, c1, fuel)
            } else {
                (ExecResultView::Normal, c1)
            }
        },
        StmtView::IfElse(cond, yes, no) => {
            let (v, c1) = eval_expr(cond, c, fuel);
            if v == ValueView::Bool(true) {
                exec_block(yes, c1, fuel)
            } else {
                exec_block(no, c1, fuel)
            }
        },
        StmtView::Let(name, e) => {
            let (v, c1) = eval_expr(e, c, fuel);
            (ExecResultView::Normal, c1.with_frames(with_var(c1.frames, name, v)))
        },
        StmtView::ListItemAssignment(name, index, e) => {
            let (i, c1) = eval_expr(index, c, fuel);
            let (v, c2) = eval_expr(e, c1, fuel);
            (ExecResultView::Normal, assign_item(c2, name, i, v))
        },
        StmtView::Loop(body) => exec_loop(body, c, fuel),
        StmtView::Return(e) => {
            let (v, c1) = eval_expr(e, c, fuel);
            (ExecResultView::Return(v), c1)
        },
    }
}

/// The outcome of a loop: the body is repeated until it breaks, which
/// ends the loop normally, or returns, which the loop hands on.
pub open spec fn exec_loop(body: Seq<StmtView>, c: ChainView, fuel: nat) -> (
    ExecResultView,
    ChainView,
)
    decreases fuel, 1nat, body, 1nat,
{
    if fuel == 0 {
        (ExecResultView::Error(limit_message()), c)
    } else {
        let (r, c1) = exec_block(body, c, (fuel - 1) as nat);
        match r {
            ExecResultView::Normal => exec_loop(body, c1, (fuel - 1) as nat),
            ExecResultView::Break => (ExecResultView::Normal, c1),
            _ => (r, c1),
        }
    }
}

/// The outcome of a block: its statements run in order until one does not
/// complete normally, whose outcome is then the block's.
pub open spec fn exec_block(b: Seq<StmtView>, c: ChainView, fuel: nat) -> (
    ExecResultView,
    ChainView,
)
    decreases fuel, 1nat, b, 0nat,
{
    if b.len() == 0 {
        (ExecResultView::Normal, c)
    } else {
        let (r, c1) = exec_stmt(b[0], c, fuel);
        match r {
            ExecResultView::Normal => exec_block(b.drop_first(), c1, fuel),
            _ => (r, c1),
        }
    }
}

} // verus!
