use std::rc::Rc;

use p64lang::ast::{ExecResult, Expr, Function, Opcode, Stmt, Value, ValueView};
use p64lang::ieee;
use p64lang::interpreter::Evaluatable;
use p64lang::parser::{parse, signed_number, ExprParser, ProgramParser};
use p64lang::runtime::{int_to_text, plain};
use p64lang::scope::{
    Frames, FramesView, Native, NativeFunction, Scope, ScopeChain, ValuesView,
};
use p64lang::table::Table;
use p64lang::text;
use p64lang::{interpret, interpret_with_limit};

const PARSE_ERROR: &str = "Unable to parse program source";
const LIMIT_ERROR: &str = "Reached the limit on loop iterations";

fn run(src: &str) -> ExecResult {
    interpret(src, Scope::new()).exec_result
}

fn returned(v: Value) -> ExecResult {
    ExecResult::Return(v)
}

fn double(x: f64) -> Value {
    Value::Real(x.to_bits())
}

fn text_value(s: &str) -> Value {
    Value::Str(s.to_string())
}

#[test]
fn parse_failure_reports_the_one_error() {
    let res = interpret("!&*", Scope::new());
    assert_eq!(ExecResult::Error(PARSE_ERROR), res.exec_result);
    assert_eq!(1, res.scope_chain.depth());
    assert_eq!(None, res.scope_chain.resolve_var("a"));
    assert_eq!(Err(PARSE_ERROR), parse("!&*"));
}

#[test]
fn sources_that_are_no_programs() {
    for src in [
        "",
        "   ",
        "let = 5",
        "let a 5",
        "return 1;;",
        "return 1.;",
        "return (1 + 2",
        "return [1, 2",
        "return {}",
        "return {\"a\" 1}",
        "return {a: 1}",
        "if true { }",
        "fn f( { return 1; }",
        "return 1 +",
        "return \"open",
        "loop { break; ",
        "return 9223372036854775808;",
        "a[1] = ",
        "1 2",
    ] {
        assert_eq!(ExecResult::Error(PARSE_ERROR), run(src), "source: {:?}", src);
    }
}

#[test]
fn programs_with_unusual_spacing() {
    assert_eq!(returned(Value::Int(3)), run("\n\treturn\r\n 1\t+\n2 ;\n"));
    assert_eq!(returned(Value::Int(3)), run("return 1+2"));
    assert_eq!(returned(Value::Int(7)), run("fn f (a) {return a ;} ; return f ( 7 )"));
    assert_eq!(returned(Value::Int(2)), run("let a = [1, 2]; return a [1];"));
}

#[test]
fn words_are_read_as_far_as_they_go() {
    assert_eq!(returned(Value::Int(1)), run("let letter = 1; return letter;"));
    assert_eq!(returned(Value::Int(2)), run("let iffy = 2; return iffy;"));
    assert_eq!(returned(Value::Int(3)), run("let nullable = 3; return nullable;"));
    assert_eq!(returned(Value::Int(4)), run("let truely = 4; return truely;"));
    assert_eq!(returned(Value::Int(5)), run("let breaks = 5; return breaks;"));
    assert_eq!(ExecResult::Error(PARSE_ERROR), run("let let = 1;"));
    assert_eq!(ExecResult::Error(PARSE_ERROR), run("return else;"));
}

#[test]
fn integer_literals_at_the_limits() {
    assert_eq!(returned(Value::Int(i64::MAX)), run("return 9223372036854775807;"));
    assert_eq!(returned(Value::Int(-i64::MAX)), run("return -9223372036854775807;"));
    assert_eq!(returned(Value::Int(5)), run("return +5;"));
    assert_eq!(returned(Value::Int(7)), run("return 007;"));
}

#[test]
fn real_literals() {
    assert_eq!(returned(double(0.5)), run("return .5;"));
    assert_eq!(returned(double(-1.5)), run("return -1.5;"));
    assert_eq!(returned(double(1e22)), run("return 10000000000000000000000.0;"));
    assert_eq!(returned(double(0.1)), run("return 0.1;"));
    assert_eq!(returned(double(123456789.125)), run("return 123456789.125;"));
}

#[test]
fn operators_of_one_level_associate_to_the_left() {
    assert_eq!(returned(Value::Int(-4)), run("return 1 - 2 - 3;"));
    assert_eq!(returned(Value::Int(2)), run("return 2 * 3 % 4;"));
    assert_eq!(returned(double(2.0)), run("return 8 / 2 / 2;"));
    assert_eq!(returned(Value::Int(9)), run("return 10 - 2 + 1;"));
}

#[test]
fn levels_of_precedence() {
    // Products bind tighter than sums.
    assert_eq!(returned(Value::Int(7)), run("return 1 + 2 * 3;"));
    assert_eq!(returned(Value::Int(9)), run("return (1 + 2) * 3;"));
    // Relations bind tighter than products, logical operators tighter
    // than relations.
    assert_eq!(returned(Value::Null), run("return 2 * 3 == 6;"));
    assert_eq!(returned(Value::Null), run("return 1 == 1 ^ 2 == 2;"));
    assert_eq!(returned(Value::Bool(false)), run("return (1 == 1) ^ (2 == 2);"));
    // Negation binds tighter than the logical operators.
    assert_eq!(returned(Value::Bool(true)), run("return !true || true;"));
    assert_eq!(returned(Value::Bool(false)), run("return !(true || true);"));
    assert_eq!(returned(Value::Bool(true)), run("return !!true;"));
}

#[test]
fn a_sign_belongs_to_the_literal_behind_it() {
    assert_eq!(returned(Value::Int(0)), run("let a = 1; return a + -1;"));
    assert_eq!(returned(Value::Int(0)), run("let a = 1; return a -1;"));
    assert_eq!(returned(Value::Int(2)), run("return 1 - -1;"));
    assert_eq!(ExecResult::Error(PARSE_ERROR), run("let a = 1; return -a;"));
    assert_eq!(ExecResult::Error(PARSE_ERROR), run("return - 1;"));
}

#[test]
fn numeric_widening() {
    assert_eq!(returned(Value::Int(5)), run("return 2 + 3;"));
    assert_eq!(returned(Value::Int(-1)), run("return 2 - 3;"));
    assert_eq!(returned(Value::Int(6)), run("return 2 * 3;"));
    assert_eq!(returned(double(5.0)), run("return 2.0 + 3;"));
    assert_eq!(returned(double(5.0)), run("return 2 + 3.0;"));
    assert_eq!(returned(double(-1.0)), run("return 2.0 - 3.0;"));
    assert_eq!(returned(double(6.0)), run("return 2 * 3.0;"));
    assert_eq!(returned(double(2.0)), run("return 6 / 3;"));
    assert_eq!(returned(double(0.75)), run("return 3 / 4;"));
    assert_eq!(returned(double(9007199254740992.0)), run("return 9007199254740993 + 0.0;"));
}

#[test]
fn integer_arithmetic_wraps() {
    assert_eq!(returned(Value::Int(i64::MIN)), run("return 9223372036854775807 + 1;"));
    assert_eq!(returned(Value::Int(i64::MAX)), run("return -9223372036854775807 - 2;"));
    assert_eq!(returned(Value::Int(-2)), run("return 9223372036854775807 * 2;"));
    assert_eq!(i64::MIN, Opcode::Add.calc_i(i64::MAX, 1));
    assert_eq!(i64::MIN, Opcode::Div.calc_i(i64::MIN, -1));
    assert_eq!(-3, Opcode::Div.calc_i(-7, 2));
    assert_eq!(0, Opcode::Mod.calc_i(i64::MIN, -1));
    assert_eq!(0, Opcode::Equal.calc_i(3, 4));
}

#[test]
fn remainders() {
    assert_eq!(returned(Value::Int(1)), run("return 7 % 2;"));
    assert_eq!(returned(Value::Int(-1)), run("return -7 % 2;"));
    assert_eq!(returned(Value::Int(1)), run("return 7 % -2;"));
    assert_eq!(returned(Value::Int(-1)), run("return -7 % -2;"));
    assert_eq!(returned(Value::Null), run("return 7 % 0;"));
    assert_eq!(returned(Value::Null), run("return 7 % \"a\";"));
}

#[test]
fn division_by_zero_follows_the_standard() {
    assert_eq!(returned(double(f64::INFINITY)), run("return 1 / 0;"));
    assert_eq!(returned(double(f64::NEG_INFINITY)), run("return -1 / 0;"));
    match run("return 0 / 0;") {
        ExecResult::Return(Value::Real(bits)) => assert!(f64::from_bits(bits).is_nan()),
        other => panic!("not a real: {:?}", other),
    }
    assert_eq!(returned(Value::Bool(false)), run("return (0 / 0) == (0 / 0);"));
    assert_eq!(returned(Value::Bool(true)), run("return (0 / 0) != (0 / 0);"));
    assert_eq!(returned(Value::Bool(false)), run("return (0 / 0) < 1;"));
    assert_eq!(returned(Value::Bool(false)), run("return (0 / 0) >= 1;"));
}

#[test]
fn operands_of_the_wrong_kind_give_null() {
    assert_eq!(returned(Value::Null), run("return 1 + \"a\";"));
    assert_eq!(returned(Value::Null), run("return \"a\" + \"b\";"));
    assert_eq!(returned(Value::Null), run("return true * 2;"));
    assert_eq!(returned(Value::Null), run("return null / 2;"));
    assert_eq!(returned(Value::Null), run("return 1 && true;"));
    assert_eq!(returned(Value::Null), run("return 1 || 0;"));
    assert_eq!(returned(Value::Null), run("return true == true;"));
    assert_eq!(returned(Value::Null), run("return 1 == \"1\";"));
    assert_eq!(returned(Value::Null), run("return null == null;"));
    assert_eq!(returned(Value::Null), run("return [1] == [1];"));
    assert_eq!(returned(Value::Null), run("return unknown;"));
    assert_eq!(returned(Value::Null), run("return unknown(1, 2);"));
    assert_eq!(Value::Null, Opcode::Not.eval(Value::Int(1), Value::Int(2)));
    assert_eq!(Value::Null, Opcode::Add.eval_unary(Value::Bool(true)));
    assert_eq!(Value::Null, Opcode::Add.logical(Value::Int(1), Value::Int(2)));
}

#[test]
fn relations_between_numbers_of_both_kinds() {
    assert_eq!(returned(Value::Bool(true)), run("return 1 == 1.0;"));
    assert_eq!(returned(Value::Bool(true)), run("return 1.5 > 1;"));
    assert_eq!(returned(Value::Bool(true)), run("return -2 < -1.5;"));
    assert_eq!(returned(Value::Bool(true)), run("return 2.5 >= 2.5;"));
    assert_eq!(returned(Value::Bool(false)), run("return 2.5 != 2.5;"));
    assert_eq!(returned(Value::Bool(true)), run("return 0.0 == -0.0;"));
    assert_eq!(returned(Value::Bool(true)), run("return -0.5 <= 0;"));
}

#[test]
fn texts_compare_by_code_point() {
    assert_eq!(returned(Value::Bool(true)), run("return \"abc\" < \"abd\";"));
    assert_eq!(returned(Value::Bool(true)), run("return \"b\" > \"abc\";"));
    assert_eq!(returned(Value::Bool(true)), run("return \"ab\" < \"abc\";"));
    assert_eq!(returned(Value::Bool(true)), run("return \"a\" <= \"a\";"));
    assert_eq!(returned(Value::Bool(false)), run("return \"a\" < \"a\";"));
    assert_eq!(returned(Value::Bool(true)), run("return \"Z\" < \"a\";"));
    assert_eq!(returned(Value::Bool(true)), run("return \"a\" != \"b\";"));
    assert_eq!(returned(Value::Bool(true)), run("return \"\" < \"a\";"));
    assert!(text::less("zebra", "\u{e9}t\u{e9}"));
    assert!(!text::less("b", "a"));
    assert!(text::same("caf\u{e9}", "caf\u{e9}"));
    assert!(!text::same("a", "b"));
    assert_eq!(vec!['h', '\u{e9}'], text::to_chars("h\u{e9}"));
    assert_eq!("bc", text::from_chars(&vec!['a', 'b', 'c', 'd'], 1, 3));
}

#[test]
fn negation() {
    assert_eq!(returned(Value::Bool(false)), run("return !true;"));
    assert_eq!(returned(Value::Bool(true)), run("return !false;"));
    assert_eq!(returned(Value::Bool(true)), run("return !null;"));
    assert_eq!(returned(Value::Bool(true)), run("return !unknown;"));
    assert_eq!(returned(Value::Bool(false)), run("return !5;"));
    assert_eq!(returned(Value::Bool(false)), run("return !\"\";"));
    assert_eq!(returned(Value::Bool(false)), run("return ![];"));
}

#[test]
fn logical_operators_evaluate_both_sides() {
    let scopes = interpret(
        "fn mark() { flag[0] = 1; return true; }; let flag = [0]; let a = false && mark(); let b = true || mark();",
        Scope::new(),
    )
    .scope_chain;
    assert_eq!(Some(&Value::Bool(false)), scopes.resolve_var("a"));
    assert_eq!(Some(&Value::Bool(true)), scopes.resolve_var("b"));
    assert_eq!(Some(&Value::List(vec![Value::Int(1)])), scopes.resolve_var("flag"));
}

#[test]
fn conditions_that_are_no_truth_values() {
    assert_eq!(returned(Value::Int(1)), run("let a = 1; if 5 { let a = 2; }; return a;"));
    assert_eq!(returned(Value::Int(1)), run("let a = 1; if null { let a = 2; }; return a;"));
    assert_eq!(returned(Value::Int(2)), run("if 5 { return 1; } else { return 2; }"));
    assert_eq!(returned(Value::Int(2)), run("if false { return 1; } else { return 2; }"));
    assert_eq!(returned(Value::Int(1)), run("if true { return 1; } else { return 2; }"));
    assert_eq!(ExecResult::Normal, run("if false { return 1; }"));
}

#[test]
fn the_chain_keeps_its_depth() {
    let res = interpret(
        "fn f(n) { if n <= 0 { return 0; }; return f(n - 1); }; let a = f(10); return a;",
        Scope::new(),
    );
    assert_eq!(returned(Value::Int(0)), res.exec_result);
    assert_eq!(1, res.scope_chain.depth());

    let mut scopes = ScopeChain::from_scope(Scope::new());
    scopes.push(Scope::new());
    let stmts = parse("fn g() { loop { return 1; }; }; let x = g();").unwrap();
    assert_eq!(
        ExecResult::Normal,
        p64lang::interpreter::exec_block(&stmts, &mut scopes, 100)
    );
    assert_eq!(2, scopes.depth());
}

#[test]
fn inner_bindings_shadow_outer_ones() {
    let res = interpret(
        "let a = 1; fn f() { let a = 2; return a; }; let b = f(); return a;",
        Scope::new(),
    );
    assert_eq!(returned(Value::Int(1)), res.exec_result);
    assert_eq!(Some(&Value::Int(2)), res.scope_chain.resolve_var("b"));

    let mut scopes = ScopeChain::from_scope(Scope::new());
    scopes.insert_var("a", Value::Int(1));
    scopes.push(Scope::new());
    assert_eq!(Some(&Value::Int(1)), scopes.resolve_var("a"));
    scopes.insert_var("a", Value::Int(2));
    assert_eq!(Some(&Value::Int(2)), scopes.resolve_var("a"));
    let inner = scopes.pop().unwrap();
    assert_eq!(Some(&Value::Int(2)), inner.vars.get("a"));
    assert_eq!(Some(&Value::Int(1)), scopes.resolve_var("a"));
}

#[test]
fn functions_see_their_parameters_and_outer_scopes_only() {
    assert_eq!(
        returned(Value::Null),
        run("fn f() { let hidden = 1; return 0; }; fn g() { return hidden; }; f(); return g();")
    );
    assert_eq!(
        returned(Value::Int(3)),
        run("let seen = 3; fn g() { return seen; }; return g();")
    );
    assert_eq!(
        returned(Value::Int(5)),
        run("fn outer() { fn inner() { return 5; }; return inner(); }; return outer();")
    );
    assert_eq!(
        returned(Value::Null),
        run("fn outer() { fn inner() { return 5; }; return 0; }; outer(); return inner();")
    );
}

#[test]
fn return_ends_the_function() {
    let res = interpret(
        "let hit = [0]; fn f() { return 1; hit[0] = 1; }; let a = f();",
        Scope::new(),
    );
    assert_eq!(ExecResult::Normal, res.exec_result);
    assert_eq!(Some(&Value::Int(1)), res.scope_chain.resolve_var("a"));
    assert_eq!(
        Some(&Value::List(vec![Value::Int(0)])),
        res.scope_chain.resolve_var("hit")
    );
    assert_eq!(
        returned(Value::Int(5)),
        run("fn f() { loop { if true { return 5; }; }; return 6; }; return f();")
    );
    assert_eq!(returned(Value::Null), run("fn f() { 1; }; return f();"));
    assert_eq!(returned(Value::Null), run("fn f() { break; }; return f();"));
}

#[test]
fn break_ends_the_innermost_loop_only() {
    let res = interpret(
        "let n = 0; let inner = 0; loop { loop { let inner = inner + 1; break; let inner = 100; }; let n = n + 1; if n >= 3 { break; }; }; return n;",
        Scope::new(),
    );
    assert_eq!(returned(Value::Int(3)), res.exec_result);
    assert_eq!(Some(&Value::Int(3)), res.scope_chain.resolve_var("inner"));
    assert_eq!(ExecResult::Break, run("break; return 1;"));
    assert_eq!(ExecResult::Normal, run("loop { break; }"));
}

#[test]
fn arguments_and_parameters_that_do_not_match() {
    assert_eq!(returned(Value::Null), run("fn f(a, b) { return b; }; return f(1);"));
    assert_eq!(returned(Value::Int(1)), run("fn f(a) { return a; }; return f(1, 2);"));
    assert_eq!(returned(Value::Int(2)), run("fn f(a, a) { return a; }; return f(1, 2);"));

    let params = vec!["a".to_string(), "b".to_string(), "c".to_string()];
    let values = vec![Value::Int(1), text_value("x")];
    let scope = Scope::from_args(&params, &values);
    assert_eq!(Some(&Value::Int(1)), scope.vars.get("a"));
    assert_eq!(Some(&text_value("x")), scope.vars.get("b"));
    assert_eq!(None, scope.vars.get("c"));
    assert_eq!(2, scope.vars.len());
    assert_eq!(0, scope.funcs.len());
    assert_eq!(0, scope.native_funcs.len());
}

#[test]
fn the_limit_stops_loops_and_calls() {
    let res = interpret_with_limit("let n = 0; loop { let n = n + 1; }", Scope::new(), 10);
    assert_eq!(ExecResult::Error(LIMIT_ERROR), res.exec_result);
    assert_eq!(Some(&Value::Int(10)), res.scope_chain.resolve_var("n"));
    assert_eq!(1, res.scope_chain.depth());

    let res = interpret_with_limit(
        "let depth = [0]; fn f() { depth[0] = depth[0] + 1; return f(); }; return f();",
        Scope::new(),
        5,
    );
    assert_eq!(returned(Value::Null), res.exec_result);
    assert_eq!(
        Some(&Value::List(vec![Value::Int(5)])),
        res.scope_chain.resolve_var("depth")
    );

    let res = interpret_with_limit("fn f() { return 1; }; return f();", Scope::new(), 0);
    assert_eq!(returned(Value::Null), res.exec_result);
    let res = interpret_with_limit("fn f() { return 1; }; return f();", Scope::new(), 1);
    assert_eq!(returned(Value::Int(1)), res.exec_result);
    let res = interpret_with_limit("loop { break; }; return 2;", Scope::new(), 1);
    assert_eq!(returned(Value::Int(2)), res.exec_result);
}

#[test]
fn an_error_ends_every_block_up_to_the_call() {
    let res = interpret_with_limit(
        "fn f() { loop { 1; }; return 7; }; let a = f(); return 8;",
        Scope::new(),
        3,
    );
    assert_eq!(returned(Value::Int(8)), res.exec_result);
    assert_eq!(Some(&Value::Null), res.scope_chain.resolve_var("a"));
    let res = interpret_with_limit("if true { loop { 1; }; }; return 8;", Scope::new(), 3);
    assert_eq!(ExecResult::Error(LIMIT_ERROR), res.exec_result);
}

#[test]
fn list_places() {
    assert_eq!(returned(Value::Null), run("let a = [1]; return a[-1];"));
    assert_eq!(returned(Value::Null), run("let a = [1]; return a[1];"));
    assert_eq!(returned(Value::Null), run("let a = [1]; return a[\"0\"];"));
    assert_eq!(returned(Value::Null), run("let a = [1]; return a[0.0];"));
    assert_eq!(returned(Value::Null), run("let a = 5; return a[0];"));
    assert_eq!(returned(Value::Null), run("return missing[0];"));
    assert_eq!(returned(Value::List(vec![])), run("return [];"));
    assert_eq!(
        returned(Value::List(vec![Value::List(vec![Value::Int(1)]), Value::Null])),
        run("return [[1], null];")
    );
    assert_eq!(
        returned(Value::List(vec![Value::Int(1)])),
        run("let a = [1]; a[-1] = 5; return a;")
    );
    assert_eq!(
        returned(Value::List(vec![Value::Int(1), Value::Null, Value::Int(5)])),
        run("let a = [1]; a[2] = 5; return a;")
    );
    assert_eq!(
        returned(Value::List(vec![Value::Int(1)])),
        run("let a = [1]; a[true] = 5; return a;")
    );
    assert_eq!(
        returned(Value::List(vec![Value::Int(1)])),
        run("let a = [1]; a[\"k\"] = 5; return a;")
    );
    assert_eq!(returned(Value::Int(1)), run("let a = 1; a[0] = 5; return a;"));
    assert_eq!(returned(Value::Null), run("b[0] = 1; return b;"));
}

#[test]
fn an_assignment_finds_the_innermost_collection_of_its_kind() {
    assert_eq!(
        returned(Value::Int(9)),
        run("let a = [1]; fn f() { let a = 5; a[0] = 9; return a; }; f(); return a[0];")
    );
    assert_eq!(
        returned(Value::Int(1)),
        run("let a = [1]; fn f() { let a = [2]; a[0] = 9; return a[0]; }; f(); return a[0];")
    );
    assert_eq!(
        returned(Value::Int(9)),
        run("let a = {\"k\": 1}; fn f() { let a = [2]; a[\"k\"] = 9; return 0; }; f(); return a[\"k\"];")
    );

    let mut scopes = ScopeChain::from_scope(Scope::new());
    scopes.insert_var("a", Value::List(vec![Value::Int(1)]));
    scopes.push(Scope::new());
    scopes.insert_var("a", Value::Int(7));
    scopes.insert_list_item("a", 1, Value::Int(2));
    assert_eq!(Some(&Value::Int(7)), scopes.resolve_var("a"));
    scopes.pop();
    assert_eq!(
        Some(&Value::List(vec![Value::Int(1), Value::Int(2)])),
        scopes.resolve_var("a")
    );
    scopes.insert_dict_item("a", "k", Value::Int(3));
    assert_eq!(
        Some(&Value::List(vec![Value::Int(1), Value::Int(2)])),
        scopes.resolve_var("a")
    );
}

#[test]
fn dict_keys() {
    assert_eq!(returned(Value::Int(2)), run("let a = {\"k\": 1, \"k\": 2}; return a[\"k\"];"));
    assert_eq!(returned(Value::Null), run("let a = {\"k\": 1}; return a[\"j\"];"));
    assert_eq!(returned(Value::Null), run("let a = {\"k\": 1}; return a[0];"));
    assert_eq!(returned(Value::Int(1)), run("let a = {\"\": 1}; return a[\"\"];"));
    assert_eq!(
        returned(Value::Int(3)),
        run("let a = {\"in\": {\"k\": 3}}; let b = a[\"in\"]; return b[\"k\"];")
    );
    let mut expected = Table::<Value>::new();
    expected.insert("k", Value::Int(2));
    assert_eq!(returned(Value::Dict(expected)), run("return {\"k\": 1, \"k\": 2};"));
}

#[test]
fn values_are_copied_out_of_scopes() {
    assert_eq!(
        returned(Value::List(vec![Value::Int(1)])),
        run("let a = [1]; let b = a; b[0] = 2; return a;")
    );
    assert_eq!(
        returned(Value::List(vec![Value::Int(2)])),
        run("let a = [1]; let b = a; b[0] = 2; return b;")
    );
    let v = Value::List(vec![double(1.5), text_value("x"), Value::Dict(Table::new())]);
    assert_eq!(v, v.clone());
    let e = Expr::BinOp(
        Box::new(Expr::Id("a".to_string())),
        Opcode::Add,
        Box::new(Expr::List(vec![Box::new(Expr::Null)])),
    );
    assert_eq!(e, e.clone());
    let s = Stmt::FnDef("f".to_string(), vec!["a".to_string()], vec![Stmt::Return(e.clone())]);
    assert_eq!(s, s.clone());
    assert_eq!(returned(Value::Int(1)), returned(Value::Int(1)).clone());
}

#[test]
fn tables() {
    let mut t = Table::<i64>::new();
    assert_eq!(0, t.len());
    assert_eq!(None, t.get("a"));
    assert_eq!(None, t.find("a"));
    t.insert("a", 1);
    t.insert("b", 2);
    t.insert("a", 3);
    assert_eq!(2, t.len());
    assert_eq!(Some(&3), t.get("a"));
    assert_eq!(Some(&2), t.get("b"));
    assert_eq!(Some(0), t.find("a"));
    assert_eq!(Some(1), t.find("b"));
    assert_eq!("b", t.name_at(1));
    assert_eq!(&2, t.value_at(1));
    assert_eq!(2, t.replace_at(1, 5));
    assert_eq!(Some(&5), t.get("b"));
}

#[test]
fn chains_without_a_scope() {
    let mut scopes = ScopeChain::new();
    assert_eq!(0, scopes.depth());
    scopes.insert_var("a", Value::Int(1));
    scopes.insert_func("f", Function { args: vec![], stmts: vec![Stmt::Break] });
    scopes.insert_list_item("a", 0, Value::Int(1));
    scopes.insert_dict_item("a", "k", Value::Int(1));
    assert_eq!(None, scopes.resolve_var("a"));
    assert!(scopes.resolve_func("f").is_none());
    assert!(scopes.resolve_native_func("f").is_none());
    assert!(scopes.pop().is_none());
    assert_eq!(
        Value::Null,
        Expr::Id("a".to_string()).eval(&mut scopes)
    );
}

#[test]
fn definitions_replace_earlier_ones_in_their_scope() {
    assert_eq!(
        returned(Value::Int(2)),
        run("fn f() { return 1; }; fn f() { return 2; }; return f();")
    );
    assert_eq!(returned(Value::Int(2)), run("let a = 1; let a = 2; return a;"));
    let mut scopes = ScopeChain::from_scope(Scope::new());
    scopes.insert_func(
        "f",
        Function { args: vec!["a".to_string()], stmts: vec![Stmt::Return(Expr::Id("a".to_string()))] },
    );
    let f = scopes.resolve_func("f").unwrap();
    assert_eq!(vec!["a".to_string()], f.args);
    assert_eq!(Value::Int(4), f.execute(&mut scopes, &vec![Value::Int(4)], 10));
    assert_eq!(1, scopes.depth());
}

struct Fixed {
    value: i64,
}

impl NativeFunction for Fixed {
    // Stands for the function from arguments to result that `execute`
    // computes; it is never called.
    fn outcome(&self, _frames: FramesView, _args: ValuesView) -> (ValueView, FramesView) {
        unreachable!()
    }

    fn execute(&self, _scopes: &mut Frames, _args: &Vec<Value>) -> Value {
        Value::Int(self.value)
    }
}

struct Remember {}

impl NativeFunction for Remember {
    // Stands for the function from frames and arguments to result and
    // frames that `execute` computes; it is never called.
    fn outcome(&self, _frames: FramesView, _args: ValuesView) -> (ValueView, FramesView) {
        unreachable!()
    }

    fn execute(&self, scopes: &mut Frames, args: &Vec<Value>) -> Value {
        let seen = match scopes.resolve_var("seen") {
            Some(Value::Int(n)) => *n,
            _ => 0,
        };
        scopes.insert_var("seen", Value::Int(seen + args.len() as i64));
        Value::Null
    }
}

#[test]
fn script_functions_come_before_native_ones() {
    let native: Native = Rc::new(Box::new(Fixed { value: 1 }));
    let mut scope = Scope::new();
    scope.native_funcs.insert("f", native.clone());
    scope.native_funcs.insert("g", native);
    let res = interpret("fn f() { return 2; }; let a = f(); let b = g();", scope);
    assert_eq!(Some(&Value::Int(2)), res.scope_chain.resolve_var("a"));
    assert_eq!(Some(&Value::Int(1)), res.scope_chain.resolve_var("b"));
}

#[test]
fn native_functions_of_outer_scopes_resolve_from_inner_ones() {
    let outer: Native = Rc::new(Box::new(Fixed { value: 1 }));
    let inner: Native = Rc::new(Box::new(Fixed { value: 2 }));
    let mut root = Scope::new();
    root.native_funcs.insert("f", outer.clone());
    root.native_funcs.insert("g", outer);
    let mut top = Scope::new();
    top.native_funcs.insert("f", inner);
    let mut scopes = ScopeChain::from_scope(root);
    scopes.push(top);
    let fuel = u64::MAX;
    let call = |name: &str| Expr::FuncCall(name.to_string(), vec![]);
    assert_eq!(Value::Int(2), p64lang::interpreter::eval_expr(&call("f"), &mut scopes, fuel));
    assert_eq!(Value::Int(1), p64lang::interpreter::eval_expr(&call("g"), &mut scopes, fuel));
    scopes.pop();
    assert_eq!(Value::Int(1), p64lang::interpreter::eval_expr(&call("f"), &mut scopes, fuel));
}

#[test]
fn native_functions_may_bind_variables() {
    let native: Native = Rc::new(Box::new(Remember {}));
    let mut scope = Scope::new();
    scope.native_funcs.insert("remember", native);
    let res = interpret("remember(1, 2); remember(3); return seen;", scope);
    assert_eq!(returned(Value::Int(3)), res.exec_result);
    assert_eq!(1, res.scope_chain.depth());
}

#[test]
fn the_same_source_gives_the_same_result() {
    let src = "let a = [1, 2.5, \"x\"]; fn f(n) { if n <= 0 { return a; }; return f(n - 1); }; let b = f(3); return b[1] * 2;";
    let first = interpret(src, Scope::new());
    let second = interpret(src, Scope::new());
    assert_eq!(returned(double(5.0)), first.exec_result);
    assert_eq!(first.exec_result, second.exec_result);
    assert_eq!(
        first.scope_chain.resolve_var("b"),
        second.scope_chain.resolve_var("b")
    );
}

#[test]
fn whole_expressions_and_programs() {
    assert_eq!(
        Ok(Expr::BinOp(Box::new(Expr::Int(1)), Opcode::Add, Box::new(Expr::Int(2)))),
        ExprParser::new().parse(" 1 + 2 ")
    );
    assert_eq!(Err(PARSE_ERROR), ExprParser::new().parse("1 +"));
    assert_eq!(Err(PARSE_ERROR), ExprParser::new().parse("1; 2"));
    assert_eq!(Err(PARSE_ERROR), ExprParser::new().parse("let a = 1"));
    assert_eq!(
        Ok(vec![Stmt::Expr(Expr::Int(1)), Stmt::Break]),
        ProgramParser::new().parse("1; break;")
    );
    assert_eq!(Err(PARSE_ERROR), ProgramParser::new().parse("1; break;;"));
}

#[test]
fn doubles_compare_as_the_standard_says() {
    let b = |x: f64| x.to_bits();
    assert!(ieee::eq(b(0.0), b(-0.0)));
    assert!(!ieee::lt(b(-0.0), b(0.0)));
    assert!(ieee::lt(b(-1.5), b(1.0)));
    assert!(ieee::lt(b(-2.0), b(-1.0)));
    assert!(!ieee::lt(b(-1.0), b(-2.0)));
    assert!(ieee::lt(b(1.0), b(f64::INFINITY)));
    assert!(ieee::lt(b(f64::NEG_INFINITY), b(f64::MIN)));
    assert!(ieee::lt(b(f64::MIN_POSITIVE / 2.0), b(f64::MIN_POSITIVE)));
    assert!(!ieee::eq(b(f64::NAN), b(f64::NAN)));
    assert!(!ieee::lt(b(f64::NAN), b(1.0)));
    assert!(!ieee::lt(b(1.0), b(f64::NAN)));
    assert!(ieee::nan(b(f64::NAN)));
    assert!(ieee::nan(b(-f64::NAN)));
    assert!(!ieee::nan(b(f64::INFINITY)));
    assert_eq!(b(-2.5), ieee::neg(b(2.5)));
    assert_eq!(b(0.0), ieee::neg(b(-0.0)));
}

#[test]
fn doubles_are_computed_as_the_machine_computes_them() {
    let b = |x: f64| x.to_bits();
    for (x, y) in [
        (0.1f64, 0.2f64),
        (1e308, 1e308),
        (-1e-320, 3.5),
        (1.0, 3.0),
        (-7.25, 0.0),
        (123456789.0, -0.000001),
    ] {
        assert_eq!(b(x + y), Opcode::Add.calc_f(b(x), b(y)));
        assert_eq!(b(x - y), Opcode::Sub.calc_f(b(x), b(y)));
        assert_eq!(b(x * y), Opcode::Mul.calc_f(b(x), b(y)));
        assert_eq!(b(x / y), Opcode::Div.calc_f(b(x), b(y)));
        assert_eq!(0, Opcode::Mod.calc_f(b(x), b(y)));
    }
    for i in [0i64, 1, -1, 9007199254740993, i64::MAX, i64::MIN, -123456789] {
        assert_eq!(
            Value::Real(b(i as f64 + 0.0)),
            Opcode::Add.eval(Value::Int(i), Value::Real(b(0.0)))
        );
    }
}

#[test]
fn signs() {
    assert_eq!(-5, signed_number(Some('-'), 5));
    assert_eq!(5, signed_number(Some('+'), 5));
    assert_eq!(5, signed_number(None, 5));
    assert_eq!(5, signed_number(Some('-'), -5));
}

#[test]
fn integers_in_decimal() {
    assert_eq!("0", int_to_text(0));
    assert_eq!("7", int_to_text(7));
    assert_eq!("10", int_to_text(10));
    assert_eq!("-1", int_to_text(-1));
    assert_eq!("1234567890", int_to_text(1234567890));
    assert_eq!("9223372036854775807", int_to_text(i64::MAX));
    assert_eq!("-9223372036854775808", int_to_text(i64::MIN));
    assert_eq!(Some("-42".to_string()), plain(&Value::Int(-42)));
    assert_eq!(Some("a \"b\"".to_string()), plain(&text_value("a \"b\"")));
    assert_eq!(None, plain(&double(1.5)));
    assert_eq!(None, plain(&Value::Null));
    assert_eq!(None, plain(&Value::Bool(true)));
    assert_eq!(None, plain(&Value::List(vec![])));
    for i in [0i64, 5, 12, 909, i64::MAX] {
        assert_eq!(returned(Value::Int(i)), run(&format!("return {};", int_to_text(i))));
    }
}
