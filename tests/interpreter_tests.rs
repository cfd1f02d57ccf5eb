use rlox::{run_source, ErrorKind, Interpreter, SourceError};

fn lines(source: &str) -> Vec<String> {
    run_source(source).expect("program should run")
}

fn runtime_error(source: &str) -> ErrorKind {
    match run_source(source) {
        Err(SourceError::Runtime(e)) => e.kind(),
        other => panic!("expected a runtime error, got {:?}", other),
    }
}

#[test]
fn block_shadowing_prints_inner_then_outer() {
    assert_eq!(vec!["2", "1"], lines("var a = 1; { var a = 2; print a; } print a;"));
}

#[test]
fn function_call_returns_sum() {
    assert_eq!(vec!["5"], lines("fun add(a,b) { return a+b; } print add(2,3);"));
}

#[test]
fn for_loop_prints_each_value() {
    assert_eq!(vec!["0", "1", "2"], lines("for (var i=0; i<3; i=i+1) print i;"));
}

#[test]
fn equality_across_types() {
    assert_eq!(vec!["true"], lines("print \"x\" == \"x\";"));
    assert_eq!(vec!["false"], lines("print 1 == \"1\";"));
    assert_eq!(vec!["true", "false", "true"], lines("print nil == nil; print true != true; print 1 != nil;"));
}

#[test]
fn divide_by_zero_is_runtime_error() {
    assert_eq!(ErrorKind::DivideByZero, runtime_error("print 1 / 0;"));
}

#[test]
fn adding_number_and_string_is_type_error() {
    assert_eq!(ErrorKind::TypeMismatch, runtime_error("print 1 + \"x\";"));
}

#[test]
fn adding_strings_concatenates() {
    assert_eq!(vec!["ab"], lines("print \"a\" + \"b\";"));
}

#[test]
fn arithmetic_and_number_display() {
    assert_eq!(
        vec!["7", "-1.5", "0.333333333", "2.5", "6.25", "true", "false"],
        lines("print 1 + 2 * 3; print -1.5; print 1 / 3; print 5 / 2; print 2.5 * 2.5; print 2 >= 2; print 3 < 1;")
    );
}

#[test]
fn truthiness_and_short_circuit() {
    assert_eq!(
        vec!["false", "true", "0", "nil", "yes", "1"],
        lines("print !0; print !nil; print 0 and 0; print nil and undefined_name; print nil or \"yes\"; print 1 or undefined_name;")
    );
}

#[test]
fn closure_in_loop_sees_later_value() {
    let src = "var f; for (var i = 0; i < 3; i = i + 1) { fun g() { return i; } if (i == 0) f = g; } print f();";
    assert_eq!(vec!["3"], lines(src));
}

#[test]
fn closures_share_outer_variable() {
    let src = "fun counter() { var n = 0; fun inc() { n = n + 1; return n; } return inc; } var c = counter(); c(); print c();";
    assert_eq!(vec!["2"], lines(src));
}

#[test]
fn recursion_works() {
    let src = "fun fib(n) { if (n < 2) return n; return fib(n - 1) + fib(n - 2); } print fib(10);";
    assert_eq!(vec!["55"], lines(src));
}

#[test]
fn while_and_if_else() {
    let src = "var i = 0; while (i < 3) { if (i == 1) print \"one\"; else print i; i = i + 1; }";
    assert_eq!(vec!["0", "one", "2"], lines(src));
}

#[test]
fn function_without_return_gives_nil() {
    assert_eq!(vec!["nil", "<fn f>"], lines("fun f() { } print f(); print f;"));
}

#[test]
fn undefined_variable_is_runtime_error() {
    assert_eq!(ErrorKind::UndefinedVariable, runtime_error("print x;"));
    assert_eq!(ErrorKind::UndefinedVariable, runtime_error("x = 1;"));
}

#[test]
fn redeclaration_in_one_scope_is_runtime_error() {
    assert_eq!(ErrorKind::AlreadyDeclared, runtime_error("var a = 1; var a = 2;"));
}

#[test]
fn arity_mismatch_is_runtime_error() {
    assert_eq!(ErrorKind::ArityMismatch, runtime_error("fun f(a) { } f(1, 2);"));
}

#[test]
fn calling_a_number_is_runtime_error() {
    assert_eq!(ErrorKind::NotCallable, runtime_error("var a = 1; a();"));
}

#[test]
fn call_at_depth_zero_is_runtime_error() {
    let mut interp = Interpreter::default();
    let mut out = Vec::new();
    interp.execute_source("fun f() { return 1; }", &mut out).unwrap();
    let stmts = rlox::parse(rlox::scan("f();").unwrap()).unwrap();
    match interp.eval(&stmts[0], 0, &mut out) {
        Err(e) => assert_eq!(ErrorKind::CallDepthExceeded, e.kind()),
        other => panic!("expected a depth error, got {:?}", other),
    }
    assert!(matches!(interp.eval(&stmts[0], 1, &mut out), Ok(_)));
}

#[test]
fn moderately_deep_recursion_works() {
    let src = "fun down(n) { if (n == 0) return 0; return down(n - 1); } print down(60);";
    assert_eq!(vec!["0"], lines(src));
}

#[test]
fn negating_a_string_is_type_error() {
    assert_eq!(ErrorKind::TypeMismatch, runtime_error("print -\"a\";"));
}

#[test]
fn comparison_needs_numbers() {
    assert_eq!(ErrorKind::TypeMismatch, runtime_error("print 1 < \"2\";"));
}

#[test]
fn output_before_runtime_error_is_kept() {
    let mut interp = Interpreter::default();
    let mut out = Vec::new();
    let r = interp.execute_source("print 1; print 1 / 0; print 2;", &mut out);
    assert!(matches!(r, Err(SourceError::Runtime(_))));
    assert_eq!(vec!["1".to_string()], out);
}

#[test]
fn state_persists_between_runs() {
    let mut interp = Interpreter::default();
    let mut out = Vec::new();
    interp.execute_source("var a = 40;", &mut out).unwrap();
    let echo = interp.execute_source("a + 2;", &mut out).unwrap();
    assert_eq!(vec!["42".to_string()], echo);
    assert!(out.is_empty());
}

#[test]
fn lexical_error_stops_before_running() {
    match run_source("print 1; @") {
        Err(SourceError::Lexical(e)) => assert_eq!("@", e.error_lexeme()),
        other => panic!("expected a lexical error, got {:?}", other),
    }
}

#[test]
fn number_overflow_is_runtime_error() {
    let src = "var x = 10000000000000000000; print x * x * x;";
    assert_eq!(ErrorKind::NumberOverflow, runtime_error(src));
}

#[test]
fn parse_errors_are_reported_before_running() {
    match run_source("print 1; var = 1; print 2;") {
        Err(SourceError::Parse(errors)) => {
            assert_eq!(1, errors.len());
            assert_eq!("expected variable name", errors[0].message());
        }
        other => panic!("expected parse errors, got {:?}", other),
    }
}

#[test]
fn logical_operators_return_operands() {
    assert_eq!(vec!["2", "nil", "false"], lines("print 1 and 2; print nil and 1; print false or false;"));
}

#[test]
fn assignment_yields_assigned_value() {
    assert_eq!(vec!["3", "3"], lines("var a; print a = 3; print a;"));
}

#[test]
fn uninitialized_variable_is_nil() {
    assert_eq!(vec!["nil"], lines("var a; print a;"));
}
