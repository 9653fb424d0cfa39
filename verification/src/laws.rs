//! What holds of the language as a whole: laws that relate the parts of
//! the semantics to each other.

use crate::ast::{ExecResultView, ExprView, FunctionView, Opcode, StmtView, ValueView};
use crate::ops::binary_value;
use crate::scope::{
    lemma_dict_item_depth, lemma_list_item_depth, lookup_var, with_var, ChainView, ScopeView,
};
use crate::semantics::{
    call_function, call_scope, eval_expr, eval_items, eval_list, exec_block, exec_loop, exec_stmt,
};
use crate::{interpretation, root_chain, InterpretResult};
use vstd::prelude::*;

verus! {

/// The value is a number.
pub open spec fn is_number(v: ValueView) -> bool {
    v is Int || v is Real
}

/// The operator is `+`, `-` or `*`.
pub open spec fn is_additive_or_product(op: Opcode) -> bool {
    op == Opcode::Add || op == Opcode::Sub || op == Opcode::Mul
}

/// Interpretation is deterministic: two results for one source, one
/// global scope and one limit are the same outcome and the same chain.
pub proof fn law_determinism(
    a: InterpretResult,
    b: InterpretResult,
    source: Seq<char>,
    scope: ScopeView,
    fuel: nat,
)
    requires
        (a.exec_result@, a.scope_chain@) == interpretation(source, scope, fuel),
        (b.exec_result@, b.scope_chain@) == interpretation(source, scope, fuel),
    ensures
        a.exec_result@ == b.exec_result@,
        a.scope_chain@ == b.scope_chain@,
{
}

/// Two chains have equally many scopes and the same native functions.
pub open spec fn same_shape(a: ChainView, b: ChainView) -> bool {
    a.frames.len() == b.frames.len() && a.natives == b.natives
}

/// Evaluating an expression leaves the chain with the scopes that it
/// had: every call pushes one scope and pops it again.
pub proof fn law_eval_keeps_shape(e: ExprView, c: ChainView, fuel: nat)
    ensures
        same_shape(eval_expr(e, c, fuel).1, c),
    decreases fuel, 0nat, e, 1nat,
{
    match e {
        ExprView::BinOp(l, op, r) => {
            law_eval_keeps_shape(*l, c, fuel);
            law_eval_keeps_shape(*r, eval_expr(*l, c, fuel).1, fuel);
        },
        ExprView::Dict(items) => {
            law_items_keep_shape(items, c, fuel);
        },
        ExprView::FuncCall(name, args) => {
            law_list_keeps_shape(args, c, fuel);
            let (vs, c1) = eval_list(args, c, fuel);
            match c1.resolve_func(name) {
                Some(f) => {
                    if fuel > 0 {
                        law_call_keeps_shape(f, vs, c1, (fuel - 1) as nat);
                    }
                },
                None => {},
            }
        },
        ExprView::ListElement(name, index) => {
            law_eval_keeps_shape(*index, c, fuel);
        },
        ExprView::List(items) => {
            law_list_keeps_shape(items, c, fuel);
        },
        ExprView::UnaryOp(op, x) => {
            law_eval_keeps_shape(*x, c, fuel);
        },
        _ => {},
    }
}

/// Evaluating a list of expressions leaves the chain with the scopes
/// that it had.
pub proof fn law_list_keeps_shape(es: Seq<ExprView>, c: ChainView, fuel: nat)
    ensures
        same_shape(eval_list(es, c, fuel).1, c),
    decreases fuel, 0nat, es, 0nat,
{
    if es.len() > 0 {
        law_list_keeps_shape(es.drop_last(), c, fuel);
        law_eval_keeps_shape(es.last(), eval_list(es.drop_last(), c, fuel).1, fuel);
    }
}

/// Evaluating the entries of a dict literal leaves the chain with the
/// scopes that it had.
pub proof fn law_items_keep_shape(items: Seq<(Seq<char>, ExprView)>, c: ChainView, fuel: nat)
    ensures
        same_shape(eval_items(items, c, fuel).1, c),
    decreases fuel, 0nat, items, 0nat,
{
    if items.len() > 0 {
        law_items_keep_shape(items.drop_last(), c, fuel);
        law_eval_keeps_shape(items.last().1, eval_items(items.drop_last(), c, fuel).1, fuel);
    }
}

/// A call of a script function leaves the chain with the scopes that it
/// had, however the body ends.
pub proof fn law_call_keeps_shape(f: FunctionView, args: Seq<ValueView>, c: ChainView, fuel: nat)
    ensures
        same_shape(call_function(f, args, c, fuel).1, c),
    decreases fuel, 1nat, f.body, 1nat,
{
    let pushed = c.push(call_scope(f.params, args));
    law_block_keeps_shape(f.body, pushed, fuel);
    let c1 = exec_block(f.body, pushed, fuel).1;
    assert(c1.natives.drop_last() =~= c.natives);
}

/// Executing a statement leaves the chain with the scopes that it had.
pub proof fn law_stmt_keeps_shape(s: StmtView, c: ChainView, fuel: nat)
    ensures
        same_shape(exec_stmt(s, c, fuel).1, c),
    decreases fuel, 1nat, s, 1nat,
{
    match s {
        StmtView::Break => {},
        StmtView::Expr(e) => {
            law_eval_keeps_shape(e, c, fuel);
        },
        StmtView::FnDef(name, params, body) => {},
        StmtView::If(cond, body) => {
            law_eval_keeps_shape(cond, c, fuel);
            law_block_keeps_shape(body, eval_expr(cond, c, fuel).1, fuel);
        },
        StmtView::IfElse(cond, yes, no) => {
            law_eval_keeps_shape(cond, c, fuel);
            law_block_keeps_shape(yes, eval_expr(cond, c, fuel).1, fuel);
            law_block_keeps_shape(no, eval_expr(cond, c, fuel).1, fuel);
        },
        StmtView::Let(name, e) => {
            law_eval_keeps_shape(e, c, fuel);
        },
        StmtView::ListItemAssignment(name, index, e) => {
            law_eval_keeps_shape(index, c, fuel);
            let (i, c1) = eval_expr(index, c, fuel);
            law_eval_keeps_shape(e, c1, fuel);
            let (v, c2) = eval_expr(e, c1, fuel);
            match i {
                ValueView::Int(x) => {
                    if 0 <= x < usize::MAX {
                        lemma_list_item_depth(c2.frames, name, x as nat, v);
                    }
                },
                ValueView::Str(k) => {
                    lemma_dict_item_depth(c2.frames, name, k, v);
                },
                _ => {},
            }
        },
        StmtView::Loop(body) => {
            law_loop_keeps_shape(body, c, fuel);
        },
        StmtView::Return(e) => {
            law_eval_keeps_shape(e, c, fuel);
        },
    }
}

/// Executing a loop leaves the chain with the scopes that it had.
pub proof fn law_loop_keeps_shape(body: Seq<StmtView>, c: ChainView, fuel: nat)
    ensures
        same_shape(exec_loop(body, c, fuel).1, c),
    decreases fuel, 1nat, body, 1nat,
{
    if fuel > 0 {
        law_block_keeps_shape(body, c, (fuel - 1) as nat);
        let (r, c1) = exec_block(body, c, (fuel - 1) as nat);
        if r is Normal {
            law_loop_keeps_shape(body, c1, (fuel - 1) as nat);
        }
    }
}

/// Executing a block leaves the chain with the scopes that it had.
pub proof fn law_block_keeps_shape(b: Seq<StmtView>, c: ChainView, fuel: nat)
    ensures
        same_shape(exec_block(b, c, fuel).1, c),
    decreases fuel, 1nat, b, 0nat,
{
    if b.len() > 0 {
        law_stmt_keeps_shape(b[0], c, fuel);
        let (r, c1) = exec_stmt(b[0], c, fuel);
        if r is Normal {
            law_block_keeps_shape(b.drop_first(), c1, fuel);
        }
    }
}

/// Scope discipline: interpretation ends with the one scope that the
/// host supplied, whatever the source holds and however it ends.
pub proof fn law_scope_discipline(source: Seq<char>, scope: ScopeView, fuel: nat)
    ensures
        interpretation(source, scope, fuel).1.depth() == 1,
        interpretation(source, scope, fuel).1.natives == root_chain(scope).natives,
{
    match crate::grammar::program(source) {
        Some(b) => {
            law_block_keeps_shape(b, root_chain(scope), fuel);
        },
        None => {},
    }
}

/// Numeric widening: of two numbers, `+`, `-` and `*` make an integer
/// where both are integers and a real where one is a real, and `/` makes
/// a real in every case.
pub proof fn law_numeric_widening(op: Opcode, a: ValueView, b: ValueView)
    requires
        is_number(a),
        is_number(b),
    ensures
        is_additive_or_product(op) && a is Int && b is Int ==> binary_value(op, a, b) is Int,
        is_additive_or_product(op) && (a is Real || b is Real) ==> binary_value(op, a, b) is Real,
        op == Opcode::Div ==> binary_value(op, a, b) is Real,
{
}

/// The expression is a numeric literal.
pub open spec fn is_numeric_literal(e: ExprView) -> bool {
    e is Int || e is Real
}

/// Numeric widening, of literals: an operation on two numeric literals
/// evaluates to an integer or a real as `law_numeric_widening` says of
/// their values, under every chain.
pub proof fn law_numeric_widening_of_literals(
    op: Opcode,
    a: ExprView,
    b: ExprView,
    c: ChainView,
    fuel: nat,
)
    requires
        is_numeric_literal(a),
        is_numeric_literal(b),
    ensures
        ({
            let v = eval_expr(ExprView::BinOp(Box::new(a), op, Box::new(b)), c, fuel).0;
            &&& is_additive_or_product(op) && a is Int && b is Int ==> v is Int
            &&& is_additive_or_product(op) && (a is Real || b is Real) ==> v is Real
            &&& op == Opcode::Div ==> v is Real
        }),
{
    let av = eval_expr(a, c, fuel).0;
    assert(eval_expr(a, c, fuel).1 == c);
    let bv = eval_expr(b, c, fuel).0;
    law_numeric_widening(op, av, bv);
}

/// Resolution order: a binding made in an inner scope shadows every
/// outer binding of the name while the inner scope is on top, and when
/// the inner scope is popped the chain is what it was before the push, so
/// that the outer binding is visible again.
pub proof fn law_shadowing(c: ChainView, inner: ScopeView, k: Seq<char>, v: ValueView)
    ensures
        ({
            let pushed = c.push(inner);
            let bound = pushed.with_frames(with_var(pushed.frames, k, v));
            &&& bound.resolve_var(k) == Some(v)
            &&& bound.pop() == c
            &&& bound.pop().resolve_var(k) == c.resolve_var(k)
        }),
{
    let pushed = c.push(inner);
    let bound = pushed.with_frames(with_var(pushed.frames, k, v));
    assert(bound.frames.last().vars.contains_key(k));
    assert(bound.pop().frames =~= c.frames);
    assert(bound.pop().natives =~= c.natives);
}

/// `let` writes into the innermost scope only: the scopes below the top
/// are after the statement what they are after evaluating its expression,
/// so that popping the top scope makes every outer binding visible as it
/// was.
pub proof fn law_let_binds_innermost_only(k: Seq<char>, e: ExprView, c: ChainView, fuel: nat)
    ensures
        exec_stmt(StmtView::Let(k, e), c, fuel).1.pop() == eval_expr(e, c, fuel).1.pop(),
{
    let (v, c1) = eval_expr(e, c, fuel);
    let after = exec_stmt(StmtView::Let(k, e), c, fuel).1;
    assert(after.frames == with_var(c1.frames, k, v));
    assert(after.frames.drop_last() =~= c1.frames.drop_last());
}

/// Resolution order, of statements: after `let k = e` a reference to `k`
/// evaluates to the value of `e`, whatever outer scopes bind `k` to.
pub proof fn law_let_then_reference(k: Seq<char>, e: ExprView, c: ChainView, fuel: nat)
    requires
        c.depth() > 0,
    ensures
        ({
            let after = exec_stmt(StmtView::Let(k, e), c, fuel).1;
            eval_expr(ExprView::Id(k), after, fuel).0 == eval_expr(e, c, fuel).0
        }),
{
    law_eval_keeps_shape(e, c, fuel);
    let (v, c1) = eval_expr(e, c, fuel);
    let after = exec_stmt(StmtView::Let(k, e), c, fuel).1;
    assert(after.frames == with_var(c1.frames, k, v));
    assert(after.frames.last().vars.contains_key(k));
    assert(lookup_var(after.frames, k) == Some(v));
}

/// A block made of two parts runs the second part after the first where
/// the first completes normally, and stops with the first otherwise.
pub proof fn law_block_concat(a: Seq<StmtView>, b: Seq<StmtView>, c: ChainView, fuel: nat)
    ensures
        exec_block(a + b, c, fuel) == (if exec_block(a, c, fuel).0 is Normal {
            exec_block(b, exec_block(a, c, fuel).1, fuel)
        } else {
            exec_block(a, c, fuel)
        }),
    decreases a.len(),
{
    if a.len() == 0 {
        assert(a + b =~= b);
    } else {
        assert((a + b)[0] == a[0]);
        assert((a + b).drop_first() =~= a.drop_first() + b);
        let (r, c1) = exec_stmt(a[0], c, fuel);
        if r is Normal {
            law_block_concat(a.drop_first(), b, c1, fuel);
        }
    }
}

/// `return` ends the block: where the statements before it complete
/// normally, the block's outcome is the return of the value of the
/// expression, and the statements behind it are not executed.
pub proof fn law_return_ends_block(
    before: Seq<StmtView>,
    e: ExprView,
    behind: Seq<StmtView>,
    c: ChainView,
    fuel: nat,
)
    requires
        exec_block(before, c, fuel).0 is Normal,
    ensures
        ({
            let c1 = exec_block(before, c, fuel).1;
            let (v, c2) = eval_expr(e, c1, fuel);
            exec_block(before + seq![StmtView::Return(e)] + behind, c, fuel) == (
                ExecResultView::Return(v),
                c2,
            )
        }),
{
    let c1 = exec_block(before, c, fuel).1;
    let rest = seq![StmtView::Return(e)] + behind;
    assert(before + seq![StmtView::Return(e)] + behind =~= before + rest);
    law_block_concat(before, rest, c, fuel);
    assert(rest[0] == StmtView::Return(e));
    let (v, c2) = eval_expr(e, c1, fuel);
    assert(exec_stmt(rest[0], c1, fuel) == (ExecResultView::Return(v), c2));
    assert(exec_block(rest, c1, fuel) == (ExecResultView::Return(v), c2));
}

/// `return` gives the call its value: a call of a function in whose body
/// a `return` is reached is the value of the returned expression, and the
/// chain has afterwards lost the scope of the call again.
pub proof fn law_return_is_call_value(
    f: FunctionView,
    before: Seq<StmtView>,
    e: ExprView,
    behind: Seq<StmtView>,
    args: Seq<ValueView>,
    c: ChainView,
    fuel: nat,
)
    requires
        f.body == before + seq![StmtView::Return(e)] + behind,
        exec_block(before, c.push(call_scope(f.params, args)), fuel).0 is Normal,
    ensures
        ({
            let c1 = exec_block(before, c.push(call_scope(f.params, args)), fuel).1;
            let (v, c2) = eval_expr(e, c1, fuel);
            call_function(f, args, c, fuel) == (v, c2.pop())
        }),
{
    law_return_ends_block(before, e, behind, c.push(call_scope(f.params, args)), fuel);
}

/// `break` ends the block that it stands in: where the statements before
/// it complete normally, the block's outcome is the break.
pub proof fn law_break_ends_block(
    before: Seq<StmtView>,
    behind: Seq<StmtView>,
    c: ChainView,
    fuel: nat,
)
    requires
        exec_block(before, c, fuel).0 is Normal,
    ensures
        exec_block(before + seq![StmtView::Break] + behind, c, fuel) == (
            ExecResultView::Break,
            exec_block(before, c, fuel).1,
        ),
{
    let rest = seq![StmtView::Break] + behind;
    assert(before + seq![StmtView::Break] + behind =~= before + rest);
    law_block_concat(before, rest, c, fuel);
    assert(rest[0] == StmtView::Break);
    let c1 = exec_block(before, c, fuel).1;
    assert(exec_stmt(rest[0], c1, fuel) == (ExecResultView::Break, c1));
    assert(exec_block(rest, c1, fuel) == (ExecResultView::Break, c1));
}

/// No loop hands a break on: whatever its body does, the outcome of a
/// loop is never a break.
pub proof fn law_loop_consumes_break(body: Seq<StmtView>, c: ChainView, fuel: nat)
    ensures
        !(exec_loop(body, c, fuel).0 is Break),
    decreases fuel,
{
    if fuel > 0 {
        let (r, c1) = exec_block(body, c, (fuel - 1) as nat);
        if r is Normal {
            law_loop_consumes_break(body, c1, (fuel - 1) as nat);
        }
    }
}

/// `break` ends only the innermost loop: where the body of a loop breaks,
/// the loop completes normally, and the sequence that the loop stands in,
/// which may be the body of an outer loop, goes on with the statement
/// behind it.
pub proof fn law_break_ends_innermost_loop(
    body: Seq<StmtView>,
    behind: Seq<StmtView>,
    c: ChainView,
    fuel: nat,
)
    requires
        fuel > 0,
        exec_block(body, c, (fuel - 1) as nat).0 is Break,
    ensures
        exec_stmt(StmtView::Loop(body), c, fuel) == (
            ExecResultView::Normal,
            exec_block(body, c, (fuel - 1) as nat).1,
        ),
        exec_block(seq![StmtView::Loop(body)] + behind, c, fuel) == exec_block(
            behind,
            exec_block(body, c, (fuel - 1) as nat).1,
            fuel,
        ),
{
    let block = seq![StmtView::Loop(body)] + behind;
    assert(block[0] == StmtView::Loop(body));
    assert(block.drop_first() =~= behind);
}

} // verus!
