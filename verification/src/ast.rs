//! The data that the parser and the evaluator share: values, operators,
//! expressions, statements and the outcome of executing a statement. Each
//! type has a mathematical view, over which the contracts are stated.

pub use crate::interpreter::{Evaluatable, Executable};
pub use crate::scope::NativeFunction;
use crate::table::{first_index, lemma_first_index, lemma_first_index_same, Table};
use vstd::prelude::*;

verus! {

/// Operation codes: arithmetic, relational, logical and the unary `Not`.
#[derive(Clone, Copy, Debug, PartialEq, Eq)]
pub enum Opcode {
    Add,
    Div,
    Equal,
    GreaterThan,
    GreaterThanOrEqual,
    LessThan,
    LessThanOrEqual,
    LogicalAnd,
    LogicalOr,
    LogicalXor,
    Mod,
    Mul,
    Not,
    NotEqual,
    Sub,
}

/// The result of evaluating an expression. A `Real` holds the bit pattern
/// of an IEEE-754 double.
#[derive(Debug, PartialEq)]
pub enum Value {
    Bool(bool),
    Dict(Table<Value>),
    Int(i64),
    List(Vec<Value>),
    Null,
    Real(u64),
    Str(String),
}

/// A value as mathematics: a list is a sequence, a dict a finite map.
pub enum ValueView {
    Bool(bool),
    Dict(Map<Seq<char>, ValueView>),
    Int(i64),
    List(Seq<ValueView>),
    Null,
    Real(u64),
    Str(Seq<char>),
}

/// Anything that can be evaluated to a value.
#[derive(Debug, PartialEq)]
pub enum Expr {
    BinOp(Box<Expr>, Opcode, Box<Expr>),
    Bool(bool),
    Dict(Vec<(String, Box<Expr>)>),
    FuncCall(String, Vec<Box<Expr>>),
    Id(String),
    Int(i64),
    ListElement(String, Box<Expr>),
    List(Vec<Box<Expr>>),
    Null,
    Real(u64),
    Str(String),
    UnaryOp(Opcode, Box<Expr>),
}

/// An expression as mathematics.
pub enum ExprView {
    BinOp(Box<ExprView>, Opcode, Box<ExprView>),
    Bool(bool),
    Dict(Seq<(Seq<char>, ExprView)>),
    FuncCall(Seq<char>, Seq<ExprView>),
    Id(Seq<char>),
    Int(i64),
    ListElement(Seq<char>, Box<ExprView>),
    List(Seq<ExprView>),
    Null,
    Real(u64),
    Str(Seq<char>),
    UnaryOp(Opcode, Box<ExprView>),
}

/// A single program instruction.
#[derive(Debug, PartialEq)]
pub enum Stmt {
    Break,
    Expr(Expr),
    FnDef(String, Vec<String>, StmtBlock),
    If(Expr, StmtBlock),
    IfElse(Expr, StmtBlock, StmtBlock),
    Let(String, Expr),
    ListItemAssignment(String, Expr, Expr),
    Loop(StmtBlock),
    Return(Expr),
}

/// A block of statements, executed in order.
pub type StmtBlock = Vec<Stmt>;

/// A statement as mathematics.
pub enum StmtView {
    Break,
    Expr(ExprView),
    FnDef(Seq<char>, Seq<Seq<char>>, Seq<StmtView>),
    If(ExprView, Seq<StmtView>),
    IfElse(ExprView, Seq<StmtView>, Seq<StmtView>),
    Let(Seq<char>, ExprView),
    ListItemAssignment(Seq<char>, ExprView, ExprView),
    Loop(Seq<StmtView>),
    Return(ExprView),
}

/// A function defined by a script: the names of its parameters and the
/// statements of its body.
#[derive(Debug, PartialEq)]
pub struct Function {
    pub args: Vec<String>,
    pub stmts: StmtBlock,
}

/// A script function as mathematics.
pub struct FunctionView {
    pub params: Seq<Seq<char>>,
    pub body: Seq<StmtView>,
}

/// The outcome of executing a statement or a block.
#[derive(Debug, PartialEq)]
pub enum ExecResult {
    Break,
    Error(&'static str),
    Normal,
    Return(Value),
}

/// The outcome of executing a statement, as mathematics.
pub enum ExecResultView {
    Break,
    Error(Seq<char>),
    Normal,
    Return(ValueView),
}

/// The views of a sequence of values.
pub open spec fn values_view(vs: Seq<Value>) -> Seq<ValueView>
    decreases vs, 0nat,
{
    Seq::new(
        vs.len(),
        |i: int|
            if 0 <= i < vs.len() {
                vs[i].view()
            } else {
                ValueView::Null
            },
    )
}

/// The map from names to value views that a list of entries stands for:
/// each name goes to the view of its first entry.
pub open spec fn bindings_view(es: Seq<(String, Value)>) -> Map<Seq<char>, ValueView>
    decreases es, 0nat,
{
    Map::new(
        |k: Seq<char>| first_index(es, k) < es.len(),
        |k: Seq<char>|
            {
                let i = first_index(es, k);
                if 0 <= i < es.len() {
                    es[i].1.view()
                } else {
                    ValueView::Null
                }
            },
    )
}

impl View for Value {
    type V = ValueView;

    open spec fn view(&self) -> ValueView
        decreases self, 1nat,
    {
        match self {
            Value::Bool(b) => ValueView::Bool(*b),
            Value::Dict(t) => ValueView::Dict(bindings_view(t.entries@)),
            Value::Int(i) => ValueView::Int(*i),
            Value::List(v) => ValueView::List(values_view(v@)),
            Value::Null => ValueView::Null,
            Value::Real(r) => ValueView::Real(*r),
            Value::Str(s) => ValueView::Str(s@),
        }
    }
}

/// The views of a sequence of names.
pub open spec fn names_view(ns: Seq<String>) -> Seq<Seq<char>> {
    Seq::new(ns.len(), |i: int| ns[i]@)
}

/// The view of a boxed expression.
pub open spec fn expr_view(e: Box<Expr>) -> ExprView
    decreases e, 2nat,
{
    (*e).view()
}

/// The views of a sequence of boxed expressions.
pub open spec fn exprs_view(es: Seq<Box<Expr>>) -> Seq<ExprView>
    decreases es, 0nat,
{
    Seq::new(
        es.len(),
        |i: int|
            if 0 <= i < es.len() {
                expr_view(es[i])
            } else {
                ExprView::Null
            },
    )
}

/// The views of the entries of a dict literal.
pub open spec fn items_view(es: Seq<(String, Box<Expr>)>) -> Seq<(Seq<char>, ExprView)>
    decreases es, 0nat,
{
    Seq::new(
        es.len(),
        |i: int|
            if 0 <= i < es.len() {
                (es[i].0@, expr_view(es[i].1))
            } else {
                (Seq::empty(), ExprView::Null)
            },
    )
}

impl View for Expr {
    type V = ExprView;

    open spec fn view(&self) -> ExprView
        decreases self, 1nat,
    {
        match self {
            Expr::BinOp(l, op, r) => ExprView::BinOp(
                Box::new((**l).view()),
                *op,
                Box::new((**r).view()),
            ),
            Expr::Bool(b) => ExprView::Bool(*b),
            Expr::Dict(items) => ExprView::Dict(items_view(items@)),
            Expr::FuncCall(name, args) => ExprView::FuncCall(name@, exprs_view(args@)),
            Expr::Id(name) => ExprView::Id(name@),
            Expr::Int(i) => ExprView::Int(*i),
            Expr::ListElement(name, index) => ExprView::ListElement(
                name@,
                Box::new((**index).view()),
            ),
            Expr::List(items) => ExprView::List(exprs_view(items@)),
            Expr::Null => ExprView::Null,
            Expr::Real(r) => ExprView::Real(*r),
            Expr::Str(s) => ExprView::Str(s@),
            Expr::UnaryOp(op, x) => ExprView::UnaryOp(*op, Box::new((**x).view())),
        }
    }
}

/// The views of a sequence of statements.
pub open spec fn block_view(ss: Seq<Stmt>) -> Seq<StmtView>
    decreases ss, 0nat,
{
    Seq::new(
        ss.len(),
        |i: int|
            if 0 <= i < ss.len() {
                ss[i].view()
            } else {
                StmtView::Break
            },
    )
}

impl View for Stmt {
    type V = StmtView;

    open spec fn view(&self) -> StmtView
        decreases self, 1nat,
    {
        match self {
            Stmt::Break => StmtView::Break,
            Stmt::Expr(e) => StmtView::Expr(e@),
            Stmt::FnDef(name, params, body) => StmtView::FnDef(
                name@,
                names_view(params@),
                block_view(body@),
            ),
            Stmt::If(c, body) => StmtView::If(c@, block_view(body@)),
            Stmt::IfElse(c, yes, no) => StmtView::IfElse(c@, block_view(yes@), block_view(no@)),
            Stmt::Let(name, e) => StmtView::Let(name@, e@),
            Stmt::ListItemAssignment(name, index, e) => StmtView::ListItemAssignment(
                name@,
                index@,
                e@,
            ),
            Stmt::Loop(body) => StmtView::Loop(block_view(body@)),
            Stmt::Return(e) => StmtView::Return(e@),
        }
    }
}

impl View for Function {
    type V = FunctionView;

    open spec fn view(&self) -> FunctionView {
        FunctionView { params: names_view(self.args@), body: block_view(self.stmts@) }
    }
}

impl View for ExecResult {
    type V = ExecResultView;

    open spec fn view(&self) -> ExecResultView {
        match self {
            ExecResult::Break => ExecResultView::Break,
            ExecResult::Error(m) => ExecResultView::Error(m@),
            ExecResult::Normal => ExecResultView::Normal,
            ExecResult::Return(v) => ExecResultView::Return(v@),
        }
    }
}

/// Lists of entries with the same names and the same value views, place
/// by place, stand for the same map.
pub proof fn lemma_bindings_same(a: Seq<(String, Value)>, b: Seq<(String, Value)>)
    requires
        a.len() == b.len(),
        forall|i: int| 0 <= i < a.len() ==> (#[trigger] a[i]).0@ == b[i].0@,
        forall|i: int| 0 <= i < a.len() ==> (#[trigger] a[i]).1@ == b[i].1@,
    ensures
        bindings_view(a) == bindings_view(b),
{
    assert forall|k: Seq<char>| first_index(a, k) == first_index(b, k) by {
        lemma_first_index_same(a, b, k);
    }
    assert forall|k: Seq<char>| #[trigger]
        bindings_view(a).contains_key(k) implies bindings_view(a)[k] == bindings_view(b)[k] by {
        lemma_first_index(a, k);
        let f = first_index(a, k);
        assert(first_index(b, k) == f);
        assert(a[f].1@ == b[f].1@);
    }
    assert(bindings_view(a) =~= bindings_view(b));
}

/// A copy of a list of values.
#[verifier::loop_isolation(false)]
pub fn copy_values(vs: &Vec<Value>) -> (r: Vec<Value>)
    ensures
        values_view(r@) == values_view(vs@),
    decreases vs, 0nat,
{
    let mut out: Vec<Value> = Vec::new();
    let mut i: usize = 0;
    while i < vs.len()
        invariant
            i <= vs.len(),
            out@.len() == i,
            forall|j: int| 0 <= j < i ==> (#[trigger] out@[j])@ == vs@[j]@,
        decreases vs.len() - i,
    {
        let v = copy_value(&vs[i]);
        out.push(v);
        i += 1;
    }
    assert(values_view(out@) =~= values_view(vs@));
    out
}

/// A copy of a value.
#[verifier::loop_isolation(false)]
pub fn copy_value(v: &Value) -> (r: Value)
    ensures
        r@ == v@,
    decreases v, 1nat,
{
    match v {
        Value::Bool(b) => Value::Bool(*b),
        Value::Dict(t) => {
            let mut entries: Vec<(String, Value)> = Vec::new();
            let mut i: usize = 0;
            while i < t.entries.len()
                invariant
                    i <= t.entries.len(),
                    entries@.len() == i,
                    forall|j: int| 0 <= j < i ==> (#[trigger] entries@[j]).0@ == t.entries@[j].0@,
                    forall|j: int| 0 <= j < i ==> (#[trigger] entries@[j]).1@ == t.entries@[j].1@,
                decreases t.entries.len() - i,
            {
                let name = t.entries[i].0.clone();
                let value = copy_value(&t.entries[i].1);
                entries.push((name, value));
                i += 1;
            }
            proof {
                lemma_bindings_same(entries@, t.entries@);
            }
            Value::Dict(Table { entries })
        },
        Value::Int(i) => Value::Int(*i),
        Value::List(vs) => Value::List(copy_values(vs)),
        Value::Null => Value::Null,
        Value::Real(x) => Value::Real(*x),
        Value::Str(s) => Value::Str(s.clone()),
    }
}

impl Clone for Value {
    fn clone(&self) -> (r: Self)
        ensures
            r@ == self@,
    {
        copy_value(self)
    }
}

/// A copy of a list of names.
pub fn copy_names(ns: &Vec<String>) -> (r: Vec<String>)
    ensures
        names_view(r@) == names_view(ns@),
{
    let mut out: Vec<String> = Vec::new();
    let mut i: usize = 0;
    while i < ns.len()
        invariant
            i <= ns.len(),
            out@.len() == i,
            forall|j: int| 0 <= j < i ==> (#[trigger] out@[j])@ == ns@[j]@,
        decreases ns.len() - i,
    {
        out.push(ns[i].clone());
        i += 1;
    }
    assert(names_view(out@) =~= names_view(ns@));
    out
}

/// A copy of a list of boxed expressions.
#[verifier::loop_isolation(false)]
pub fn copy_exprs(es: &Vec<Box<Expr>>) -> (r: Vec<Box<Expr>>)
    ensures
        exprs_view(r@) == exprs_view(es@),
    decreases es, 0nat,
{
    let mut out: Vec<Box<Expr>> = Vec::new();
    let mut i: usize = 0;
    while i < es.len()
        invariant
            i <= es.len(),
            out@.len() == i,
            forall|j: int| 0 <= j < i ==> (*#[trigger] out@[j])@ == (*es@[j])@,
        decreases es.len() - i,
    {
        let e = copy_expr(&*es[i]);
        out.push(Box::new(e));
        i += 1;
    }
    assert forall|j: int| 0 <= j < es@.len() implies exprs_view(out@)[j] == exprs_view(es@)[j] by {
        assert((*out@[j])@ == (*es@[j])@);
    }
    assert(exprs_view(out@) =~= exprs_view(es@));
    out
}

/// A copy of an expression.
#[verifier::loop_isolation(false)]
pub fn copy_expr(e: &Expr) -> (r: Expr)
    ensures
        r@ == e@,
    decreases e, 1nat,
{
    match e {
        Expr::BinOp(l, op, r) => Expr::BinOp(
            Box::new(copy_expr(&**l)),
            *op,
            Box::new(copy_expr(&**r)),
        ),
        Expr::Bool(b) => Expr::Bool(*b),
        Expr::Dict(items) => {
            let mut out: Vec<(String, Box<Expr>)> = Vec::new();
            let mut i: usize = 0;
            while i < items.len()
                invariant
                    i <= items.len(),
                    out@.len() == i,
                    forall|j: int|
                        0 <= j < i ==> (#[trigger] out@[j]).0@ == items@[j].0@ && (*out@[j].1)@ == (
                        *items@[j].1)@,
                decreases items.len() - i,
            {
                let name = items[i].0.clone();
                let value = copy_expr(&*items[i].1);
                out.push((name, Box::new(value)));
                i += 1;
            }
            assert forall|j: int| 0 <= j < items@.len() implies items_view(out@)[j]
                == items_view(items@)[j] by {
                assert(out@[j].0@ == items@[j].0@ && (*out@[j].1)@ == (*items@[j].1)@);
            }
            assert(items_view(out@) =~= items_view(items@));
            Expr::Dict(out)
        },
        Expr::FuncCall(name, args) => Expr::FuncCall(name.clone(), copy_exprs(args)),
        Expr::Id(name) => Expr::Id(name.clone()),
        Expr::Int(i) => Expr::Int(*i),
        Expr::ListElement(name, index) => Expr::ListElement(
            name.clone(),
            Box::new(copy_expr(&**index)),
        ),
        Expr::List(items) => Expr::List(copy_exprs(items)),
        Expr::Null => Expr::Null,
        Expr::Real(x) => Expr::Real(*x),
        Expr::Str(s) => Expr::Str(s.clone()),
        Expr::UnaryOp(op, x) => Expr::UnaryOp(*op, Box::new(copy_expr(&**x))),
    }
}

impl Clone for Expr {
    fn clone(&self) -> (r: Self)
        ensures
            r@ == self@,
    {
        copy_expr(self)
    }
}

/// A copy of a block of statements.
#[verifier::loop_isolation(false)]
pub fn copy_block(ss: &Vec<Stmt>) -> (r: Vec<Stmt>)
    ensures
        block_view(r@) == block_view(ss@),
    decreases ss, 0nat,
{
    let mut out: Vec<Stmt> = Vec::new();
    let mut i: usize = 0;
    while i < ss.len()
        invariant
            i <= ss.len(),
            out@.len() == i,
            forall|j: int| 0 <= j < i ==> (#[trigger] out@[j])@ == ss@[j]@,
        decreases ss.len() - i,
    {
        let s = copy_stmt(&ss[i]);
        out.push(s);
        i += 1;
    }
    assert(block_view(out@) =~= block_view(ss@));
    out
}

/// A copy of a statement.
pub fn copy_stmt(s: &Stmt) -> (r: Stmt)
    ensures
        r@ == s@,
    decreases s, 1nat,
{
    match s {
        Stmt::Break => Stmt::Break,
        Stmt::Expr(e) => Stmt::Expr(copy_expr(e)),
        Stmt::FnDef(name, params, body) => Stmt::FnDef(
            name.clone(),
            copy_names(params),
            copy_block(body),
        ),
        Stmt::If(c, body) => Stmt::If(copy_expr(c), copy_block(body)),
        Stmt::IfElse(c, yes, no) => Stmt::IfElse(copy_expr(c), copy_block(yes), copy_block(no)),
        Stmt::Let(name, e) => Stmt::Let(name.clone(), copy_expr(e)),
        Stmt::ListItemAssignment(name, index, e) => Stmt::ListItemAssignment(
            name.clone(),
            copy_expr(index),
            copy_expr(e),
        ),
        Stmt::Loop(body) => Stmt::Loop(copy_block(body)),
        Stmt::Return(e) => Stmt::Return(copy_expr(e)),
    }
}

impl Clone for Stmt {
    fn clone(&self) -> (r: Self)
        ensures
            r@ == self@,
    {
        copy_stmt(self)
    }
}

impl Clone for ExecResult {
    fn clone(&self) -> (r: Self)
        ensures
            r@ == self@,
    {
        match self {
            ExecResult::Break => ExecResult::Break,
            ExecResult::Error(m) => ExecResult::Error(*m),
            ExecResult::Normal => ExecResult::Normal,
            ExecResult::Return(v) => ExecResult::Return(copy_value(v)),
        }
    }
}

} // verus!
