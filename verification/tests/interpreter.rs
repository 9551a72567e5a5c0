use rlox::fragment::Fragment;
use rlox::interpreter::{Interpreter, ObjectCaller};
use rlox::machine::Action;
use rlox::operators::{ArithOp, Request};
use rlox::object::Object;
use rlox::parser::Parser;
use rlox::scanner::Scanner;
use rlox::statement::Stmt;

fn answer(request: &Request) -> f64 {
    match request {
        Request::Numeral(numeral) => numeral.parse().unwrap_or_default(),
        Request::Arithmetic { operator, left, right } => {
            let a = f64::from_bits(*left);
            let b = f64::from_bits(*right);
            match operator {
                ArithOp::Add => a + b,
                ArithOp::Subtract => a - b,
                ArithOp::Multiply => a * b,
                ArithOp::Divide => a / b,
            }
        }
        Request::Clock => 1234.0,
    }
}

fn show(value: &Object) -> String {
    match value.interp_to_string() {
        Fragment::Text(text) => text,
        Fragment::Numeral(numeral) => numeral,
        Fragment::Number(bits) => format!("{}", f64::from_bits(bits)),
    }
}

struct Outcome {
    printed: Vec<String>,
    error: Option<String>,
    syntax_errors: Vec<String>,
    steps: usize,
}

fn parse(source: &str) -> (Vec<Stmt>, Vec<String>, bool) {
    let mut scanner = Scanner::new(String::from(source));
    scanner.scan_tokens();
    let mut lines = Vec::new();
    for i in 0..scanner.errors().len() {
        lines.push(scanner.errors().line(i).clone());
    }
    let mut parser = Parser::new(scanner.into_tokens());
    let stmts = parser.parse_stmt();
    for i in 0..parser.errors().len() {
        lines.push(parser.errors().line(i).clone());
    }
    (stmts, lines, parser.is_expression())
}

fn run(source: &str) -> Outcome {
    let (stmts, syntax_errors, _) = parse(source);
    let mut outcome = Outcome { printed: Vec::new(), error: None, syntax_errors, steps: 0 };
    if !outcome.syntax_errors.is_empty() {
        return outcome;
    }
    let mut interpreter = Interpreter::new();
    for stmt in stmts.iter() {
        interpreter.evaluate_stmt(stmt);
        loop {
            outcome.steps += 1;
            assert!(outcome.steps < 10_000_000);
            match interpreter.step() {
                Action::Continue => {}
                Action::Request(request) => interpreter.supply(answer(&request).to_bits()),
                Action::Print(value) => outcome.printed.push(show(&value)),
                Action::Complete(_) => break,
                Action::Failed(error) => {
                    outcome.error = Some(error.report());
                    return outcome;
                }
            }
        }
    }
    outcome
}

fn evaluate(source: &str) -> Result<String, String> {
    let (stmts, syntax_errors, is_expression) = parse(source);
    assert!(syntax_errors.is_empty(), "{:?}", syntax_errors);
    assert!(is_expression);
    let expression = match &stmts[0] {
        Stmt::Expression { expression } => expression,
        _ => panic!("no expression"),
    };
    let mut interpreter = Interpreter::new();
    interpreter.evaluate_expr(expression);
    loop {
        match interpreter.step() {
            Action::Continue => {}
            Action::Request(request) => interpreter.supply(answer(&request).to_bits()),
            Action::Print(_) => panic!("an expression prints nothing"),
            Action::Complete(value) => return Ok(show(&value)),
            Action::Failed(error) => return Err(error.report()),
        }
    }
}

fn printed(source: &str) -> Vec<String> {
    let outcome = run(source);
    assert_eq!(outcome.syntax_errors, Vec::<String>::new());
    assert_eq!(outcome.error, None);
    outcome.printed
}

fn failure(source: &str) -> String {
    let outcome = run(source);
    assert_eq!(outcome.syntax_errors, Vec::<String>::new());
    outcome.error.expect("a runtime error")
}

#[test]
fn prints_a_sum() {
    assert_eq!(printed("print 1 + 2;"), vec!["3"]);
}

#[test]
fn concatenates_strings() {
    assert_eq!(evaluate("\"foo\" + \"bar\""), Ok(String::from("foobar")));
}

#[test]
fn divides_by_zero_without_error() {
    assert_eq!(printed("print 1 / 0;"), vec!["inf"]);
    assert_eq!(printed("print -1 / 0;"), vec!["-inf"]);
    assert_eq!(printed("print 0 / 0 == 0 / 0;"), vec!["false"]);
}

#[test]
fn block_shadows_and_restores() {
    assert_eq!(printed("var a = 1; { var a = 2; print a; } print a;"), vec!["2", "1"]);
}

#[test]
fn recursive_function() {
    assert_eq!(
        printed("fun f(n){ if (n<=1) return n; return f(n-1)+f(n-2);} print f(10);"),
        vec!["55"]
    );
}

#[test]
fn adding_number_and_string_fails() {
    assert_eq!(
        failure("1 + \"x\";"),
        "[line 1] Runtime Error: Operands must be two numbers or two strings."
    );
}

#[test]
fn or_short_circuits() {
    assert_eq!(
        printed("var n = 0; fun bump() { n = n + 1; return true; } print 1 or bump(); print n;"),
        vec!["1", "0"]
    );
    assert_eq!(
        printed("var n = 0; fun bump() { n = n + 1; return true; } print nil or bump(); print n;"),
        vec!["true", "1"]
    );
}

#[test]
fn and_short_circuits() {
    assert_eq!(
        printed("var n = 0; fun bump() { n = n + 1; return true; } print false and bump(); print n;"),
        vec!["false", "0"]
    );
    assert_eq!(
        printed("var n = 0; fun bump() { n = n + 1; return 7; } print 1 and bump(); print n;"),
        vec!["7", "1"]
    );
}

#[test]
fn logical_operators_yield_operands() {
    assert_eq!(printed("print nil or \"yes\";"), vec!["yes"]);
    assert_eq!(printed("print 0 and \"zero is truthy\";"), vec!["zero is truthy"]);
    assert_eq!(printed("print \"\" and 2;"), vec!["2"]);
    assert_eq!(printed("print nil and 2;"), vec!["nil"]);
}

#[test]
fn block_variable_is_gone_after_the_block() {
    assert_eq!(
        failure("{ var inner = 1; print inner; }\nprint inner;"),
        "[line 2] Runtime Error: Undefined variable 'inner'."
    );
}

#[test]
fn closure_counts() {
    assert_eq!(
        printed(
            "fun make() { var i = 0; fun inc() { i = i + 1; return i; } return inc; } \
             var c = make(); print c(); print c(); print c();"
        ),
        vec!["1", "2", "3"]
    );
}

#[test]
fn closures_do_not_share_counters() {
    assert_eq!(
        printed(
            "fun make() { var i = 0; fun inc() { i = i + 1; return i; } return inc; } \
             var a = make(); var b = make(); print a(); print a(); print b();"
        ),
        vec!["1", "2", "1"]
    );
}

#[test]
fn arithmetic() {
    assert_eq!(printed("print 7 - 2 * 3;"), vec!["1"]);
    assert_eq!(printed("print (7 - 2) * 3;"), vec!["15"]);
    assert_eq!(printed("print 1 / 4;"), vec!["0.25"]);
    assert_eq!(printed("print -3 + 1;"), vec!["-2"]);
    assert_eq!(printed("print 0.1 + 0.2;"), vec!["0.30000000000000004"]);
    assert_eq!(printed("print --3;"), vec!["3"]);
}

#[test]
fn comparison() {
    assert_eq!(printed("print 1 < 2; print 2 < 1; print 2 <= 2; print 3 > 2; print 2 >= 3;"),
        vec!["true", "false", "true", "true", "false"]);
    assert_eq!(printed("print -1 < 0; print -2 < -1; print -1 < -2; print 0 < -0;"),
        vec!["true", "true", "false", "false"]);
}

#[test]
fn equality() {
    assert_eq!(
        printed("print 1 == 1; print 1 == 2; print \"a\" == \"a\"; print \"a\" != \"b\"; print nil == nil;"),
        vec!["true", "false", "true", "true", "true"]
    );
    assert_eq!(
        printed("print nil == false; print 1 == \"1\"; print true == true; print 1 != 1; print 0 == -0;"),
        vec!["false", "false", "true", "false", "true"]
    );
}

#[test]
fn truthiness_of_double_negation() {
    assert_eq!(
        printed("print !!nil; print !!false; print !!true; print !!0; print !!\"\"; print !!\"x\";"),
        vec!["false", "false", "true", "true", "true", "true"]
    );
}

#[test]
fn negating_a_string_fails() {
    assert_eq!(failure("print -\"x\";"), "[line 1] Runtime Error: Operand must be a number.");
}

#[test]
fn ordering_strings_fails() {
    assert_eq!(failure("print \"a\" < \"b\";"), "[line 1] Runtime Error: Operands must be numbers.");
    assert_eq!(failure("print \"a\" - \"b\";"), "[line 1] Runtime Error: Operands must be numbers.");
    assert_eq!(failure("print 1 * nil;"), "[line 1] Runtime Error: Operands must be numbers.");
    assert_eq!(failure("print true > 1;"), "[line 1] Runtime Error: Operands must be numbers.");
}

#[test]
fn undefined_variable() {
    assert_eq!(failure("print\n  missing;"), "[line 2] Runtime Error: Undefined variable 'missing'.");
    assert_eq!(failure("missing = 1;"), "[line 1] Runtime Error: Undefined variable 'missing'.");
}

#[test]
fn uninitialized_variable() {
    assert_eq!(
        failure("var x; print x;"),
        "[line 1] Runtime Error: Variable 'x' has not been initialized or assigned to."
    );
    assert_eq!(printed("var x; x = 3; print x;"), vec!["3"]);
}

#[test]
fn redefinition() {
    assert_eq!(printed("var a = 1; var a = 2; print a;"), vec!["2"]);
    assert_eq!(
        failure("{ var a = 1;\n var a = 2; }"),
        "[line 2] Runtime Error: Variable 'a' already defined."
    );
}

#[test]
fn assignment_yields_the_value() {
    assert_eq!(printed("var a = 1; var b = 2; a = b = 5; print a; print b; print a = 7;"),
        vec!["5", "5", "7"]);
}

#[test]
fn assignment_reaches_the_enclosing_scope() {
    assert_eq!(printed("var a = 1; { a = 2; { a = a + 1; } } print a;"), vec!["3"]);
}

#[test]
fn while_loop() {
    assert_eq!(printed("var i = 0; while (i < 3) { print i; i = i + 1; }"), vec!["0", "1", "2"]);
}

#[test]
fn for_loop() {
    assert_eq!(printed("for (var i = 0; i < 3; i = i + 1) print i;"), vec!["0", "1", "2"]);
    assert_eq!(
        printed("var i = 5; for (; i < 7;) { print i; i = i + 1; } print i;"),
        vec!["5", "6", "7"]
    );
    assert_eq!(
        printed("fun f() { for (;;) { return 9; } } print f();"),
        vec!["9"]
    );
}

#[test]
fn if_else() {
    assert_eq!(printed("if (1 < 2) print \"y\"; else print \"n\";"), vec!["y"]);
    assert_eq!(printed("if (nil) print \"y\"; else print \"n\";"), vec!["n"]);
    assert_eq!(printed("if (false) print \"y\"; print \"after\";"), vec!["after"]);
}

#[test]
fn function_without_return_yields_nil() {
    assert_eq!(printed("fun f() { 1; } print f();"), vec!["nil"]);
    assert_eq!(printed("fun f() { return; } print f();"), vec!["nil"]);
}

#[test]
fn return_unwinds_blocks_and_loops() {
    assert_eq!(
        printed(
            "var a = \"outer\"; \
             fun f() { var a = 1; while (true) { { var a = 2; if (a == 2) return a; } } } \
             print f(); print a;"
        ),
        vec!["2", "outer"]
    );
}

#[test]
fn nested_calls_keep_their_values() {
    assert_eq!(
        printed("fun g() { return 2; } fun f(x) { return x + 1; } print f(g()) + f(g());"),
        vec!["6"]
    );
}

#[test]
fn arguments_are_evaluated_left_to_right() {
    assert_eq!(
        printed(
            "fun show(x) { print x; return x; } fun pair(a, b) { return a - b; } \
             print pair(show(1), show(2));"
        ),
        vec!["1", "2", "-1"]
    );
}

#[test]
fn calling_a_value_that_is_no_function_fails() {
    assert_eq!(
        failure("var a = 1;\na();"),
        "[line 2] Runtime Error: Can only call functions and classes."
    );
    assert_eq!(
        failure("\"text\"(1);"),
        "[line 1] Runtime Error: Can only call functions and classes."
    );
}

#[test]
fn wrong_number_of_arguments_fails() {
    assert_eq!(
        failure("fun f(a, b) { return a; } f(1);"),
        "[line 1] Runtime Error: Expected 2 arguments but got 1."
    );
    assert_eq!(
        failure("fun f() { return 1; } f(1, 2, 3);"),
        "[line 1] Runtime Error: Expected 0 arguments but got 3."
    );
    assert_eq!(failure("clock(1);"), "[line 1] Runtime Error: Expected 0 arguments but got 1.");
}

#[test]
fn arguments_are_evaluated_before_the_callee_is_checked() {
    let outcome = run("fun show(x) { print x; return x; } var a = 1; a(show(5));");
    assert_eq!(outcome.printed, vec!["5"]);
    assert_eq!(
        outcome.error,
        Some(String::from("[line 1] Runtime Error: Can only call functions and classes."))
    );
}

#[test]
fn duplicate_parameter_fails_at_the_call() {
    assert_eq!(
        failure("fun f(a, a) { return a; } f(1, 2);"),
        "[line 1] Runtime Error: Variable 'a' already defined."
    );
}

#[test]
fn calling_does_not_touch_the_callers_variables() {
    assert_eq!(
        printed("var a = 1; var b = 2; fun f(a, b) { a = 10; b = 20; return a + b; } print f(3, 4); print a; print b;"),
        vec!["30", "1", "2"]
    );
}

#[test]
fn clock_asks_the_host() {
    assert_eq!(printed("print clock();"), vec!["1234"]);
    assert_eq!(printed("print clock;"), vec!["clock"]);
}

#[test]
fn functions_print_their_signature() {
    assert_eq!(printed("fun f(a, b) { } print f;"), vec!["fn f(a, b)"]);
    assert_eq!(printed("fun g() { } print g;"), vec!["fn g()"]);
}

#[test]
fn functions_see_later_globals() {
    assert_eq!(printed("fun f() { return later; } var later = 4; print f();"), vec!["4"]);
}

#[test]
fn return_at_top_level_ends_the_statement() {
    assert_eq!(printed("print 1; return 2; print 3;"), vec!["1", "3"]);
}

#[test]
fn string_values() {
    assert_eq!(printed("print \"a\" + \"b\" + \"c\";"), vec!["abc"]);
    assert_eq!(printed("var s = \"x\"; s = s + s; print s;"), vec!["xx"]);
    assert_eq!(printed("print \"multi\nline\";"), vec!["multi\nline"]);
}

#[test]
fn bare_expression_results() {
    assert_eq!(evaluate("(1 + 2) * -3"), Ok(String::from("-9")));
    assert_eq!(evaluate("nil"), Ok(String::from("nil")));
    assert_eq!(evaluate("!true"), Ok(String::from("false")));
    assert_eq!(evaluate("10.5"), Ok(String::from("10.5")));
    assert_eq!(evaluate("\"quoted\""), Ok(String::from("quoted")));
    assert_eq!(
        evaluate("1 + nil"),
        Err(String::from("[line 1] Runtime Error: Operands must be two numbers or two strings."))
    );
}

#[test]
fn failure_leaves_the_interpreter_idle_in_the_global_scope() {
    let (stmts, errors, _) = parse("var a = 1; { var b = 2; print b + nil; } print a;");
    assert!(errors.is_empty());
    let mut interpreter = Interpreter::new();
    let mut printed = Vec::new();
    let mut failures = 0;
    for stmt in stmts.iter() {
        interpreter.evaluate_stmt(stmt);
        loop {
            match interpreter.step() {
                Action::Continue => {}
                Action::Request(request) => interpreter.supply(answer(&request).to_bits()),
                Action::Print(value) => printed.push(show(&value)),
                Action::Complete(_) => break,
                Action::Failed(_) => {
                    failures += 1;
                    break;
                }
            }
        }
    }
    assert_eq!(failures, 1);
    assert_eq!(printed, vec!["1"]);
}

#[test]
fn stepping_an_idle_interpreter_completes_with_nil() {
    let mut interpreter = Interpreter::new();
    assert!(matches!(interpreter.step(), Action::Complete(Object::Nil)));
    interpreter.supply(7);
    assert!(matches!(interpreter.step(), Action::Complete(Object::Nil)));
}

#[test]
fn a_request_is_repeated_until_it_is_answered() {
    let (stmts, _, _) = parse("1 + 2");
    let expression = match &stmts[0] {
        Stmt::Expression { expression } => expression,
        _ => panic!("no expression"),
    };
    let mut interpreter = Interpreter::new();
    interpreter.evaluate_expr(expression);
    let mut action = interpreter.step();
    while matches!(action, Action::Continue) {
        action = interpreter.step();
    }
    assert!(matches!(action, Action::Request(Request::Numeral(_))));
    assert!(matches!(interpreter.step(), Action::Request(Request::Numeral(_))));
    interpreter.supply(1.0f64.to_bits());
    assert!(matches!(interpreter.step(), Action::Continue));
}

#[test]
fn deep_recursion_needs_no_native_stack() {
    assert_eq!(
        printed("fun count(n) { if (n == 0) return 0; return 1 + count(n - 1); } print count(20000);"),
        vec!["20000"]
    );
}

#[test]
fn long_loop() {
    assert_eq!(
        printed("var i = 0; var sum = 0; while (i < 50000) { sum = sum + i; i = i + 1; } print sum;"),
        vec!["1249975000"]
    );
}

#[test]
fn functions_are_values() {
    assert_eq!(
        printed(
            "fun twice(f, x) { return f(f(x)); } fun inc(n) { return n + 1; } \
             fun adder(n) { fun add(x) { return x + n; } return add; } \
             var g = inc; print twice(g, 5); print adder(2)(3); print twice(adder(10), 1);"
        ),
        vec!["7", "5", "21"]
    );
}

#[test]
fn mutual_recursion() {
    assert_eq!(
        printed(
            "fun even(n) { if (n == 0) return true; return odd(n - 1); } \
             fun odd(n) { if (n == 0) return false; return even(n - 1); } \
             print even(10); print odd(7); print even(3);"
        ),
        vec!["true", "true", "false"]
    );
}

#[test]
fn closure_captures_the_scope_of_its_declaration() {
    assert_eq!(
        printed(
            "var a = \"global\"; \
             { fun show() { print a; } show(); var a = \"block\"; show(); print a; }"
        ),
        vec!["global", "block", "block"]
    );
    assert_eq!(
        printed(
            "var f; { var local = 1; fun get() { return local; } f = get; } \
             { var local = 2; print f(); }"
        ),
        vec!["1"]
    );
}

#[test]
fn each_loop_round_has_its_own_scope() {
    assert_eq!(
        printed(
            "var f; var g; var i = 0; \
             while (i < 2) { var j = i * 10; fun get() { return j; } if (i == 0) f = get; else g = get; i = i + 1; } \
             print f(); print g();"
        ),
        vec!["0", "10"]
    );
}

#[test]
fn parameters_shadow_outer_variables() {
    assert_eq!(
        printed("var n = 1; fun f(n) { n = n + 1; return n; } print f(10); print n;"),
        vec!["11", "1"]
    );
}

#[test]
fn a_function_can_be_declared_anew_in_the_global_scope() {
    assert_eq!(
        printed("fun f() { return 1; } print f(); fun f() { return 2; } print f();"),
        vec!["1", "2"]
    );
    assert_eq!(
        failure("{ fun f() { return 1; } fun f() { return 2; } }"),
        "[line 1] Runtime Error: Variable 'f' already defined."
    );
}

#[test]
fn runtime_error_is_reported_at_the_line_of_the_operator() {
    assert_eq!(
        failure("var a = 1;\nvar b = \"x\";\nprint a\n  *\n  b;"),
        "[line 4] Runtime Error: Operands must be numbers."
    );
    assert_eq!(
        failure("fun f() {}\nf(\n1\n);"),
        "[line 4] Runtime Error: Expected 0 arguments but got 1."
    );
}

#[test]
fn runtime_error_stops_the_run() {
    let outcome = run("print 1; print nil + 1; print 2;");
    assert_eq!(outcome.printed, vec!["1"]);
    assert!(outcome.error.is_some());
}

#[test]
fn condition_follows_truthiness() {
    assert_eq!(printed("if (0) print \"zero\"; if (\"\") print \"empty\"; if (nil) print \"nil\";"),
        vec!["zero", "empty"]);
    assert_eq!(printed("var i = 3; while (i) { print i; i = i - 1; if (i == 0) i = nil; }"),
        vec!["3", "2", "1"]);
}

#[test]
fn numbers_print_without_a_needless_fraction() {
    assert_eq!(printed("print 3.0; print 2.50; print 100; print 1 / 3;"),
        vec!["3", "2.5", "100", "0.3333333333333333"]);
}

#[test]
fn printing_and_parsing_again_gives_the_same_value() {
    for source in ["true", "false", "nil", "1", "12.5", "0.1"] {
        let (stmts, errors, _) = parse(source);
        assert!(errors.is_empty());
        let expression = match &stmts[0] {
            Stmt::Expression { expression } => expression,
            _ => panic!("no expression"),
        };
        let mut again = String::new();
        for fragment in rlox::ast_printer::AstPrinter::new().print(expression) {
            match fragment {
                Fragment::Text(text) => again.push_str(&text),
                Fragment::Numeral(numeral) => {
                    again.push_str(&format!("{:?}", numeral.parse::<f64>().unwrap()))
                }
                Fragment::Number(bits) => again.push_str(&format!("{:?}", f64::from_bits(bits))),
            }
        }
        assert_eq!(evaluate(source), evaluate(&again), "{:?} and {:?}", source, again);
    }
}

#[test]
fn steps_of_a_small_expression() {
    let (stmts, _, _) = parse("!nil");
    let expression = match &stmts[0] {
        Stmt::Expression { expression } => expression,
        _ => panic!("no expression"),
    };
    let mut interpreter = Interpreter::new();
    interpreter.evaluate_expr(expression);
    assert!(matches!(interpreter.step(), Action::Continue));
    assert!(matches!(interpreter.step(), Action::Continue));
    assert!(matches!(interpreter.step(), Action::Continue));
    assert!(matches!(interpreter.step(), Action::Complete(Object::Boolean(true))));
    assert!(matches!(interpreter.step(), Action::Complete(Object::Nil)));
}

#[test]
fn execute_block_runs_in_the_given_scope_and_comes_back() {
    let (stmts, errors, _) = parse("var inside = 1; print inside;");
    assert!(errors.is_empty());
    let mut interpreter = Interpreter::new();
    assert_eq!(interpreter.globals(), 0);
    assert_eq!(interpreter.environment().len(), 1);
    interpreter.execute_block(&stmts, 0);
    let mut printed = Vec::new();
    loop {
        match interpreter.step() {
            Action::Continue => {}
            Action::Request(request) => interpreter.supply(answer(&request).to_bits()),
            Action::Print(value) => printed.push(show(&value)),
            Action::Complete(_) => break,
            Action::Failed(error) => panic!("{}", error.report()),
        }
    }
    assert_eq!(printed, vec!["1"]);
    assert_eq!(interpreter.environment().len(), 1);
}

#[test]
fn calling_a_function_that_closes_over_no_scope_fails() {
    let (stmts, _, _) = parse("fun f(a) { return a; }\nf(1);");
    let (name, params, body) = match &stmts[0] {
        Stmt::Function { name, params, body } => (name, params, body),
        _ => panic!("no function"),
    };
    let mut interpreter = Interpreter::new();
    let stray = Object::Function { name, params, body, closure: 99 };
    let action = stray.call(&mut interpreter, name, vec![Object::Nil]);
    match action {
        Action::Failed(error) => {
            assert_eq!(error.report(), "[line 1] Runtime Error: Can only call functions and classes.")
        }
        other => panic!("{:?}", other),
    }
    let sound = Object::Function { name, params, body, closure: 0 };
    assert!(matches!(sound.call(&mut interpreter, name, vec![Object::Boolean(true)]), Action::Continue));
    let mut result = None;
    for _ in 0..100 {
        match interpreter.step() {
            Action::Complete(value) => {
                result = Some(show(&value));
                break;
            }
            Action::Continue => {}
            other => panic!("{:?}", other),
        }
    }
    assert_eq!(result, Some(String::from("true")));
}

#[test]
fn visitors_are_accepted() {
    let (stmts, _, _) = parse("print !nil;");
    let mut interpreter = Interpreter::new();
    stmts[0].accept(&mut interpreter);
    assert!(matches!(interpreter.step(), Action::Continue));
    let expression = match &stmts[0] {
        Stmt::Print { expression } => expression,
        _ => panic!("no print"),
    };
    expression.accept(&mut interpreter);
    let mut value = None;
    for _ in 0..10 {
        if let Action::Complete(found) = interpreter.step() {
            value = Some(show(&found));
            break;
        }
    }
    assert_eq!(value, Some(String::from("true")));
    let fragments: Vec<Fragment> = expression.accept(&mut rlox::ast_printer::AstPrinter::new());
    assert!(matches!(&fragments[0], Fragment::Text(text) if text == "(!"));
}
