use std::cell::Cell;
use std::rc::Rc;

use p64lang::ast::{
    ExecResult, Executable, Expr, NativeFunction, Opcode, Stmt, Value, ValueView,
};
use p64lang::interpret;
use p64lang::interpreter::{Scope, ScopeChain};
use p64lang::parser::parse;
use p64lang::scope::{Frames, FramesView, Native, ValuesView};
use p64lang::table::Table;

fn double(x: f64) -> Value {
    Value::Real(x.to_bits())
}

fn text(s: &str) -> Value {
    Value::Str(s.to_string())
}

struct TestPrint {
    calls: Rc<Cell<usize>>,
}

impl NativeFunction for TestPrint {
    fn execute(&self, _scopes: &mut Frames, _args: &Vec<Value>) -> Value {
        self.calls.set(self.calls.get() + 1);
        Value::Null
    }
}

struct TestPrintLn {
    calls: Rc<Cell<usize>>,
}

impl NativeFunction for TestPrintLn {
    fn execute(&self, _scopes: &mut Frames, _args: &Vec<Value>) -> Value {
        self.calls.set(self.calls.get() + 1);
        Value::Null
    }
}

fn insert_test_functions(scope: &mut Scope) -> (Rc<Cell<usize>>, Rc<Cell<usize>>) {
    let print_calls = Rc::new(Cell::new(0));
    let println_calls = Rc::new(Cell::new(0));
    let test_print: Native = Rc::new(Box::new(TestPrint { calls: print_calls.clone() }));
    let test_println: Native = Rc::new(Box::new(TestPrintLn { calls: println_calls.clone() }));
    scope.native_funcs.insert("print", test_print);
    scope.native_funcs.insert("println", test_println);
    (print_calls, println_calls)
}

#[test]
fn let_stmt() {
    assert_eq!(
        Ok(vec![Stmt::Let(
            "a".to_string(),
            Expr::BinOp(Box::new(Expr::Int(1)), Opcode::Add, Box::new(Expr::Int(2)))
        )]),
        parse("let a = 1 + 2;")
    );

    let mut scopes = ScopeChain::from_scope(Scope::new());

    assert_eq!(
        ExecResult::Return(Value::Null),
        parse("return a + 1").unwrap().exec(&mut scopes)
    );

    assert_eq!(None, scopes.resolve_var("a"));
    assert_eq!(
        ExecResult::Return(Value::Int(3)),
        parse("let a = 1 + 2; return a;").unwrap().exec(&mut scopes)
    );
    assert_eq!(Some(&Value::Int(3)), scopes.resolve_var("a"));

    assert_eq!(
        ExecResult::Return(Value::Int(4)),
        parse("let b = a + 1; return b;").unwrap().exec(&mut scopes)
    );
    assert_eq!(
        ExecResult::Return(Value::Int(9)),
        parse("let b = a * a; return b;").unwrap().exec(&mut scopes)
    );
    assert_eq!(
        ExecResult::Return(double(1.5f64)),
        parse("let b = a / 2; return b;").unwrap().exec(&mut scopes)
    );
}

#[test]
fn literals() {
    assert_eq!(
        ExecResult::Return(Value::Bool(true)),
        interpret("return true;", Scope::new()).exec_result
    );
    assert_eq!(
        ExecResult::Return(Value::Bool(false)),
        interpret("return false;", Scope::new()).exec_result
    );

    assert_eq!(
        ExecResult::Return(Value::Int(42)),
        interpret("return 42;", Scope::new()).exec_result
    );
    assert_eq!(
        ExecResult::Return(Value::Int(-42)),
        interpret("return -42;", Scope::new()).exec_result
    );

    assert_eq!(
        ExecResult::Return(double(1.618f64)),
        interpret("return 1.618;", Scope::new()).exec_result
    );
    assert_eq!(
        ExecResult::Return(double(-1.618f64)),
        interpret("return -1.618;", Scope::new()).exec_result
    );
    assert_eq!(
        ExecResult::Return(double(0.618f64)),
        interpret("return .618;", Scope::new()).exec_result
    );
    assert_eq!(
        ExecResult::Return(double(-0.618f64)),
        interpret("return -.618;", Scope::new()).exec_result
    );

    assert_eq!(
        ExecResult::Return(text("Hello")),
        interpret(r#"return "Hello";"#, Scope::new()).exec_result
    );
    assert_eq!(
        ExecResult::Return(text("Hello world!")),
        interpret(r#"return "Hello world!";"#, Scope::new()).exec_result
    );
    assert_eq!(
        ExecResult::Return(text("Hello'world!")),
        interpret(r#"return "Hello'world!";"#, Scope::new()).exec_result
    );

    assert_eq!(Ok(vec![Stmt::Expr(Expr::Id("a".to_string()))]), parse("a"));
    assert_eq!(Ok(vec![Stmt::Expr(Expr::Id("_a".to_string()))]), parse("_a"));
    assert_eq!(Ok(vec![Stmt::Expr(Expr::Id("a123".to_string()))]), parse("a123"));
    assert_eq!(
        Ok(vec![Stmt::Expr(Expr::Id("a123_45".to_string()))]),
        parse("a123_45")
    );
}

#[test]
fn operator_precedence() {
    let scopes = interpret(
        "fn test(b) { return b; }; let a = 1 + 2 * 3 / 4 + test(42);",
        Scope::new(),
    )
    .scope_chain;
    assert_eq!(Some(&double(44.5)), scopes.resolve_var("a"));
}

#[test]
fn scope_inheritance() {
    let scopes = interpret(
        "let a = 1; fn test(z) { return a + z; }; let b = test(2); let c = a;",
        Scope::new(),
    )
    .scope_chain;
    assert_eq!(Some(&Value::Int(1)), scopes.resolve_var("a"));
    assert_eq!(Some(&Value::Int(3)), scopes.resolve_var("b"));
    assert_eq!(Some(&Value::Int(1)), scopes.resolve_var("c"));
}

#[test]
fn lib_interpret() {
    let mut scope = Scope::new();
    let (print_calls, println_calls) = insert_test_functions(&mut scope);
    let res = interpret("return 42", scope);
    match res.exec_result {
        ExecResult::Normal => panic!("interpret() should not have returned None"),
        ExecResult::Break => panic!("interpret() should not have returned Break"),
        ExecResult::Return(x) => assert_eq!(Value::Int(42), x),
        ExecResult::Error(e) => panic!("{}", e),
    };
    assert!(res.scope_chain.resolve_native_func("print").is_some());
    assert!(res.scope_chain.resolve_native_func("println").is_some());
    assert_eq!(0, print_calls.get());
    assert_eq!(0, println_calls.get());

    let src = r#"
        fn fib(n) {
            if n <= 0 { return 0; };
            let count = n;
            let prev  = 0;
            let res   = 1;
            loop {
                let temp = res;
                let res = res + prev;
                let prev = temp;
                print(res);
                print(", ");
                let count = count - 1;
                if count <= 1 {
                    break;
                };
            };
            println("");
            return res;
        };

        return fib(8);
    "#;
    let mut scope = Scope::new();
    let (print_calls, println_calls) = insert_test_functions(&mut scope);
    let res = interpret(src, scope);
    match res.exec_result {
        ExecResult::Normal => panic!("interpret() should not have returned None"),
        ExecResult::Break => panic!("interpret() should not have returned Break"),
        ExecResult::Return(x) => assert_eq!(Value::Int(21), x),
        ExecResult::Error(e) => panic!("{}", e),
    };
    assert_eq!(14, print_calls.get());
    assert_eq!(1, println_calls.get());

    let src = r#"
        fn fact(n) {
            if n <= 0 {
                return 0;
            };
            if n == 1 {
                return 1;
            } else {
                return n * fact(n - 1);
            };
        };

        return fact(4);
    "#;
    let mut scope = Scope::new();
    let (print_calls, println_calls) = insert_test_functions(&mut scope);
    let res = interpret(src, scope);
    match res.exec_result {
        ExecResult::Normal => panic!("interpret() should not have returned None"),
        ExecResult::Break => panic!("interpret() should not have returned Break"),
        ExecResult::Return(x) => assert_eq!(Value::Int(24), x),
        ExecResult::Error(e) => panic!("{}", e),
    };
    assert_eq!(0, print_calls.get());
    assert_eq!(0, println_calls.get());
}

#[test]
fn bin_ops() {
    let run = |src: &str| interpret(src, Scope::new()).exec_result;

    assert_eq!(ExecResult::Return(Value::Bool(true)), run("return 1 == 1;"));
    assert_eq!(ExecResult::Return(Value::Bool(false)), run("return 1 != 1;"));
    assert_eq!(ExecResult::Return(Value::Bool(false)), run("return 1 == 2;"));
    assert_eq!(ExecResult::Return(Value::Bool(false)), run("return 1  > 2;"));
    assert_eq!(ExecResult::Return(Value::Bool(true)), run("return 2  > 1;"));
    assert_eq!(ExecResult::Return(Value::Bool(true)), run("return 1  < 2;"));
    assert_eq!(ExecResult::Return(Value::Bool(false)), run("return 2  < 1;"));
    assert_eq!(ExecResult::Return(Value::Bool(true)), run("return 2 >= 2;"));
    assert_eq!(ExecResult::Return(Value::Bool(false)), run("return 2 >= 3;"));
    assert_eq!(ExecResult::Return(Value::Bool(true)), run("return 2 <= 2;"));
    assert_eq!(ExecResult::Return(Value::Bool(true)), run("return 2 <= 3;"));
    assert_eq!(ExecResult::Return(Value::Bool(true)), run(r#"return "a" == "a";"#));
    assert_eq!(ExecResult::Return(Value::Bool(false)), run(r#"return "a" == "b";"#));
    assert_eq!(ExecResult::Return(Value::Bool(true)), run("return (1 + 3) > 3"));

    assert_eq!(ExecResult::Return(Value::Int(3)), run("return 1   + 2;"));
    assert_eq!(ExecResult::Return(double(3.3f64)), run("return 1   + 2.3;"));
    assert_eq!(ExecResult::Return(double(3.2f64)), run("return 1.2 + 2;"));
    assert_eq!(ExecResult::Return(double(3.5f64)), run("return 1.2 + 2.3;"));

    assert_eq!(ExecResult::Return(Value::Int(-1)), run("return 1   - 2;"));
    assert_eq!(ExecResult::Return(double(-1.5f64)), run("return 1   - 2.5;"));
    assert_eq!(ExecResult::Return(double(-0.8f64)), run("return 1.2 - 2;"));
    assert_eq!(ExecResult::Return(double(-1.3f64)), run("return 1.2 - 2.5;"));

    assert_eq!(ExecResult::Return(Value::Int(6)), run("return 2   * 3;"));
    assert_eq!(ExecResult::Return(double(6.8f64)), run("return 2   * 3.4;"));
    assert_eq!(ExecResult::Return(double(7.5f64)), run("return 2.5 * 3;"));
    assert_eq!(ExecResult::Return(double(3.75f64)), run("return 2.5 * 1.5;"));

    assert_eq!(ExecResult::Return(double(3f64)), run("return 6   / 2;"));
    assert_eq!(ExecResult::Return(double(3.35f64)), run("return 6.7 / 2;"));
    assert_eq!(ExecResult::Return(double(2.4f64)), run("return 6   / 2.5;"));
    assert_eq!(ExecResult::Return(double(2.68f64)), run("return 6.7 / 2.5;"));

    assert_eq!(ExecResult::Return(Value::Int(4)), run("return 16   % 6;"));
    assert_eq!(ExecResult::Return(Value::Null), run("return 16   % 12.1;"));
    assert_eq!(ExecResult::Return(Value::Null), run("return 16.1 % 12;"));
    assert_eq!(ExecResult::Return(Value::Null), run("return 16.1 % 12.1;"));
}

#[test]
fn logical_truth_tables() {
    let run = |src: &str| interpret(src, Scope::new()).exec_result;

    assert_eq!(ExecResult::Return(Value::Bool(true)), run("return true  && true;"));
    assert_eq!(ExecResult::Return(Value::Bool(false)), run("return true  && false;"));
    assert_eq!(ExecResult::Return(Value::Bool(false)), run("return false && true;"));
    assert_eq!(ExecResult::Return(Value::Bool(false)), run("return false && false;"));

    assert_eq!(ExecResult::Return(Value::Bool(true)), run("return true  || true;"));
    assert_eq!(ExecResult::Return(Value::Bool(true)), run("return true  || false;"));
    assert_eq!(ExecResult::Return(Value::Bool(true)), run("return false || true;"));
    assert_eq!(ExecResult::Return(Value::Bool(false)), run("return false || false;"));

    assert_eq!(ExecResult::Return(Value::Bool(false)), run("return true  ^ true;"));
    assert_eq!(ExecResult::Return(Value::Bool(true)), run("return true  ^ false;"));
    assert_eq!(ExecResult::Return(Value::Bool(true)), run("return false ^ true;"));
    assert_eq!(ExecResult::Return(Value::Bool(false)), run("return false ^ false;"));
}

#[test]
fn stmt_block() {
    let scopes = interpret(
        "let abc = 1 + 2; let bcd = 3 + 4; let cde = abc * bcd;",
        Scope::new(),
    )
    .scope_chain;
    assert_eq!(Some(&Value::Int(3)), scopes.resolve_var("abc"));
    assert_eq!(Some(&Value::Int(7)), scopes.resolve_var("bcd"));
    assert_eq!(Some(&Value::Int(21)), scopes.resolve_var("cde"));
}

#[test]
fn functions() {
    let scopes = interpret(
        "fn add(a, b) { let c = a + b; return c; let c = 123; }; let res = add(1, 2 + 3);",
        Scope::new(),
    )
    .scope_chain;
    assert_eq!(Some(&Value::Int(6)), scopes.resolve_var("res"));

    let scopes = interpret("fn test() { return 42; }; let res = test();", Scope::new()).scope_chain;
    assert_eq!(Some(&Value::Int(42)), scopes.resolve_var("res"));
}

#[test]
fn conditionals() {
    let mut scopes = interpret(
        "let a = 1; if 1 == 1 { let a = 2; } else { let a = 3; }; if 1 != 2 { let a = 4; }",
        Scope::new(),
    )
    .scope_chain;
    assert_eq!(Some(&Value::Int(4)), scopes.resolve_var("a"));
    let mut scopes =
        interpret("if (1 == 2) || (1 == 1) { let a = 5; };", scopes.pop().unwrap()).scope_chain;
    assert_eq!(Some(&Value::Int(5)), scopes.resolve_var("a"));
    let mut scopes =
        interpret("if (1 == 1) && (2 == 2) { let a = 6; };", scopes.pop().unwrap()).scope_chain;
    assert_eq!(Some(&Value::Int(6)), scopes.resolve_var("a"));
    let mut scopes =
        interpret("if (1 == 1) ^ (2 == 2) { let a = 7; };", scopes.pop().unwrap()).scope_chain;
    assert_eq!(Some(&Value::Int(6)), scopes.resolve_var("a"));
    let scopes = interpret("if 1 == 1 ^ 2 == 2 { let a = 8; };", scopes.pop().unwrap()).scope_chain;
    assert_eq!(Some(&Value::Int(6)), scopes.resolve_var("a"));
}

#[test]
fn loops() {
    let scopes = interpret(
        "let a = 0; let b = 1; loop { let a = a + 1; let b = b * 2; if a > 5 { break; }; };",
        Scope::new(),
    )
    .scope_chain;
    assert_eq!(Some(&Value::Int(6)), scopes.resolve_var("a"));
    assert_eq!(Some(&Value::Int(64)), scopes.resolve_var("b"));
}

#[test]
fn unary_ops() {
    let scopes = interpret("let a = !(1 == 1); let b = !(2 < 1);", Scope::new()).scope_chain;
    assert_eq!(Some(&Value::Bool(false)), scopes.resolve_var("a"));
    assert_eq!(Some(&Value::Bool(true)), scopes.resolve_var("b"));

    let scopes = interpret(
        "let a = true; let b = false; let c = !a; let d = !a && !b;",
        Scope::new(),
    )
    .scope_chain;
    assert_eq!(Some(&Value::Bool(true)), scopes.resolve_var("a"));
    assert_eq!(Some(&Value::Bool(false)), scopes.resolve_var("b"));
    assert_eq!(Some(&Value::Bool(false)), scopes.resolve_var("c"));
    assert_eq!(Some(&Value::Bool(false)), scopes.resolve_var("d"));
}

#[test]
fn native_functions() {
    struct TestFunc {}
    impl NativeFunction for TestFunc {
        // Stands for the function from arguments to result that `execute`
        // computes; it is never called.
        fn outcome(&self, _frames: FramesView, _args: ValuesView) -> (ValueView, FramesView) {
            unreachable!()
        }

        fn execute(&self, _scopes: &mut Frames, args: &Vec<Value>) -> Value {
            match args[0] {
                Value::Int(x) => Value::Int(x + 40),
                _ => Value::Null,
            }
        }
    }
    let test_func: Native = Rc::new(Box::new(TestFunc {}));
    let mut scope = Scope::new();
    scope.native_funcs.insert("test_func", test_func);

    let scopes = interpret("let a = test_func(1) + 1; let b = test_func(12) * 3;", scope).scope_chain;
    assert_eq!(Some(&Value::Int(42)), scopes.resolve_var("a"));
    assert_eq!(Some(&Value::Int(156)), scopes.resolve_var("b"));
}

#[test]
fn lists() {
    let scopes = interpret("let a = [1, \"test\", 2]; let b = a[1];", Scope::new()).scope_chain;
    assert_eq!(
        Some(&Value::List(vec![Value::Int(1), text("test"), Value::Int(2)])),
        scopes.resolve_var("a")
    );
    assert_eq!(Some(&text("test")), scopes.resolve_var("b"));

    let scopes = interpret(
        "let a = [1, \"test\", 2]; a[0] = 40 + 2; a[4] = \"test2\"; let b = a[0]; let c = a[3]; let d = a[4];",
        Scope::new(),
    )
    .scope_chain;
    assert_eq!(
        Some(&Value::List(vec![
            Value::Int(42),
            text("test"),
            Value::Int(2),
            Value::Null,
            text("test2"),
        ])),
        scopes.resolve_var("a")
    );
    assert_eq!(Some(&Value::Int(42)), scopes.resolve_var("b"));
    assert_eq!(Some(&Value::Null), scopes.resolve_var("c"));
    assert_eq!(Some(&text("test2")), scopes.resolve_var("d"));
}

#[test]
fn dicts() {
    let scopes = interpret(
        "let a = {\"d1\": 1 + 2, \"d2\": \"second\"}; let b = a[\"d1\"]; a[\"d2\"] = \"third\"; a[\"d3\"] = \"fourth\";",
        Scope::new(),
    )
    .scope_chain;
    let mut expected = Table::<Value>::new();
    expected.insert("d1", Value::Int(3));
    expected.insert("d2", text("third"));
    expected.insert("d3", text("fourth"));
    assert_eq!(&Value::Dict(expected), scopes.resolve_var("a").unwrap());
    assert_eq!(Some(&Value::Int(3)), scopes.resolve_var("b"));
}
