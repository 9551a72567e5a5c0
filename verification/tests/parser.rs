use rlox::ast_printer::AstPrinter;
use rlox::expression::Expr;
use rlox::fragment::Fragment;
use rlox::parser::Parser;
use rlox::scanner::Scanner;
use rlox::statement::Stmt;
use rlox::token::TokenType;
use rlox::value::Value;

fn parser(source: &str) -> Parser {
    let mut scanner = Scanner::new(String::from(source));
    scanner.scan_tokens();
    assert!(!scanner.errors().had_error());
    Parser::new(scanner.into_tokens())
}

fn errors(parser: &Parser) -> Vec<String> {
    (0..parser.errors().len()).map(|i| parser.errors().line(i).clone()).collect()
}

fn text(fragments: Vec<Fragment>) -> String {
    let mut line = String::new();
    for fragment in fragments {
        match fragment {
            Fragment::Text(text) => line.push_str(&text),
            Fragment::Numeral(numeral) => {
                line.push_str(&format!("{:?}", numeral.parse::<f64>().unwrap_or_default()))
            }
            Fragment::Number(bits) => line.push_str(&format!("{:?}", f64::from_bits(bits))),
        }
    }
    line
}

fn print(source: &str) -> String {
    let mut parser = parser(source);
    let expr = parser.parse_expr().expect("an expression");
    assert_eq!(errors(&parser), Vec::<String>::new());
    text(AstPrinter::new().print(&expr))
}

fn program(source: &str) -> (Vec<Stmt>, Vec<String>, bool) {
    let mut parser = parser(source);
    let stmts = parser.parse_stmt();
    let lines = errors(&parser);
    assert_eq!(parser.errors().had_error(), !lines.is_empty());
    (stmts, lines, parser.is_expression())
}

fn shape(stmt: &Stmt) -> String {
    match stmt {
        Stmt::Block { statements } => {
            format!("{{{}}}", statements.iter().map(shape).collect::<Vec<_>>().join(" "))
        }
        Stmt::Expression { expression } => format!("{};", text(AstPrinter::new().print(expression))),
        Stmt::Function { name, params, body } => format!(
            "fun {}({}) {{{}}}",
            name.lexeme,
            params.iter().map(|p| p.lexeme.clone()).collect::<Vec<_>>().join(","),
            body.iter().map(shape).collect::<Vec<_>>().join(" ")
        ),
        Stmt::If { condition, then_branch, else_branch } => match else_branch {
            Some(branch) => format!(
                "if {} {} else {}",
                text(AstPrinter::new().print(condition)),
                shape(then_branch),
                shape(branch)
            ),
            None => format!("if {} {}", text(AstPrinter::new().print(condition)), shape(then_branch)),
        },
        Stmt::Print { expression } => format!("print {};", text(AstPrinter::new().print(expression))),
        Stmt::Return { value, .. } => match value {
            Some(value) => format!("return {};", text(AstPrinter::new().print(value))),
            None => String::from("return;"),
        },
        Stmt::Var { name, initializer } => {
            format!("var {} = {};", name.lexeme, text(AstPrinter::new().print(initializer)))
        }
        Stmt::While { condition, body } => {
            format!("while {} {}", text(AstPrinter::new().print(condition)), shape(body))
        }
    }
}

fn shapes(source: &str) -> Vec<String> {
    let (stmts, lines, _) = program(source);
    assert_eq!(lines, Vec::<String>::new());
    stmts.iter().map(shape).collect()
}

#[test]
fn prints_grouping_and_unary() {
    assert_eq!(print("(1 + 2) * -3"), "(* (group (+ 1.0 2.0)) (- 3.0))");
}

#[test]
fn prints_literals() {
    assert_eq!(print("nil"), "nil");
    assert_eq!(print("true"), "true");
    assert_eq!(print("false"), "false");
    assert_eq!(print("12"), "12.0");
    assert_eq!(print("12.50"), "12.5");
    assert_eq!(print("\"text\""), "text");
}

#[test]
fn prints_other_nodes() {
    assert_eq!(print("a"), "a");
    assert_eq!(print("a = b = 1"), "(= a (= b 1.0))");
    assert_eq!(print("a or b and c"), "(or a (and b c))");
    assert_eq!(print("f()"), "(call f)");
    assert_eq!(print("f(1, x)(2)"), "(call (call f 1.0 x) 2.0)");
    assert_eq!(print("!!a"), "(! (! a))");
}

#[test]
fn precedence_and_associativity() {
    assert_eq!(print("1 + 2 * 3"), "(+ 1.0 (* 2.0 3.0))");
    assert_eq!(print("1 * 2 + 3"), "(+ (* 1.0 2.0) 3.0)");
    assert_eq!(print("1 - 2 - 3"), "(- (- 1.0 2.0) 3.0)");
    assert_eq!(print("8 / 4 / 2"), "(/ (/ 8.0 4.0) 2.0)");
    assert_eq!(print("1 < 2 == 3 >= 4"), "(== (< 1.0 2.0) (>= 3.0 4.0))");
    assert_eq!(print("1 + 2 < 3 * 4"), "(< (+ 1.0 2.0) (* 3.0 4.0))");
    assert_eq!(print("a == b != c"), "(!= (== a b) c)");
    assert_eq!(print("-a * b"), "(* (- a) b)");
    assert_eq!(print("!a == b"), "(== (! a) b)");
    assert_eq!(print("a or b or c"), "(or (or a b) c)");
    assert_eq!(print("a and b or c and d"), "(or (and a b) (and c d))");
    assert_eq!(print("a = b or c"), "(= a (or b c))");
    assert_eq!(print("-f(1)"), "(- (call f 1.0))");
}

#[test]
fn expression_nodes_keep_their_tokens() {
    let mut parser = parser("1 +\n 2");
    let expr = parser.parse_expr().expect("an expression");
    match *expr {
        Expr::Binary { left, operator, right } => {
            assert_eq!(operator.token_type, TokenType::Plus);
            assert_eq!(operator.line, 1);
            assert!(matches!(*left, Expr::Literal { value: Value::Number(ref n) } if n == "1"));
            assert!(matches!(*right, Expr::Literal { value: Value::Number(ref n) } if n == "2"));
        }
        other => panic!("{:?}", other),
    }
}

#[test]
fn call_keeps_its_closing_paren() {
    let mut parser = parser("f(a,\n b\n)");
    let expr = parser.parse_expr().expect("an expression");
    match *expr {
        Expr::Call { paren, arguments, .. } => {
            assert_eq!(paren.token_type, TokenType::RightParen);
            assert_eq!(paren.line, 3);
            assert_eq!(arguments.len(), 2);
        }
        other => panic!("{:?}", other),
    }
}

#[test]
fn missing_expression() {
    let mut parser = parser("+");
    assert!(parser.parse_expr().is_none());
    assert_eq!(errors(&parser), vec!["[line 1] Error at '+': Expect expression."]);
    assert!(parser.errors().had_error());
}

#[test]
fn missing_expression_at_the_end() {
    let mut parser = parser("1 +");
    assert!(parser.parse_expr().is_none());
    assert_eq!(errors(&parser), vec!["[line 1] Error at end: Expect expression."]);
}

#[test]
fn missing_closing_paren() {
    let mut parser = parser("(1 + 2");
    let expr = parser.parse_expr();
    assert_eq!(errors(&parser), vec!["[line 1] Error at end: Expect ')' after expression."]);
    assert!(expr.is_none());
}

#[test]
fn invalid_assignment_target_is_reported_at_the_equals_sign() {
    let mut parser = parser("1 + a\n = 3");
    let expr = parser.parse_expr().expect("the target");
    assert_eq!(errors(&parser), vec!["[line 2] Error at '=': Invalid assignment target."]);
    assert_eq!(text(AstPrinter::new().print(&expr)), "(+ 1.0 a)");
    assert!(!matches!(*expr, Expr::Assign { .. }));
}

#[test]
fn grouped_variable_is_no_assignment_target() {
    let mut parser = parser("(a) = 3");
    let _ = parser.parse_expr();
    assert_eq!(errors(&parser), vec!["[line 1] Error at '=': Invalid assignment target."]);
}

#[test]
fn missing_paren_after_arguments() {
    let mut parser = parser("f(1, 2");
    assert!(parser.parse_expr().is_none());
    assert_eq!(errors(&parser), vec!["[line 1] Error at end: Expect ')' after arguments."]);
}

#[test]
fn more_than_255_arguments_are_reported_and_parsed() {
    let mut source = String::from("f(");
    for i in 0..256 {
        if i > 0 {
            source.push_str(", ");
        }
        source.push_str("1");
    }
    source.push_str(")");
    let mut parser = parser(&source);
    let expr = parser.parse_expr().expect("the call");
    assert_eq!(errors(&parser), vec!["[line 1] Error at '1': Can't have more than 255 arguments."]);
    match *expr {
        Expr::Call { arguments, .. } => assert_eq!(arguments.len(), 256),
        other => panic!("{:?}", other),
    }
}

#[test]
fn exactly_255_arguments_are_fine() {
    let mut source = String::from("f(");
    for i in 0..255 {
        if i > 0 {
            source.push_str(", ");
        }
        source.push_str("1");
    }
    source.push_str(")");
    let mut parser = parser(&source);
    assert!(parser.parse_expr().is_some());
    assert_eq!(errors(&parser), Vec::<String>::new());
}

#[test]
fn more_than_255_parameters_are_reported_and_parsed() {
    let mut source = String::from("fun f(");
    for i in 0..256 {
        if i > 0 {
            source.push_str(", ");
        }
        source.push_str(&format!("p{}", i));
    }
    source.push_str(") { }");
    let (stmts, lines, _) = program(&source);
    assert_eq!(lines, vec!["[line 1] Error at 'p255': Can't have more than 255 parameters."]);
    match &stmts[0] {
        Stmt::Function { params, .. } => assert_eq!(params.len(), 256),
        other => panic!("{:?}", other),
    }
}

#[test]
fn statements() {
    assert_eq!(shapes("print 1 + 2;"), vec!["print (+ 1.0 2.0);"]);
    assert_eq!(shapes("var a = 1; var b;"), vec!["var a = 1.0;", "var b = unitialized;"]);
    assert_eq!(shapes("{ var a = 1; print a; } a;"), vec!["{var a = 1.0; print a;}", "a;"]);
    assert_eq!(shapes("{}"), vec!["{}"]);
    assert_eq!(shapes("if (a) print 1; else print 2;"), vec!["if a print 1.0; else print 2.0;"]);
    assert_eq!(shapes("if (a) if (b) print 1; else print 2;"), vec!["if a if b print 1.0; else print 2.0;"]);
    assert_eq!(shapes("while (a < 3) a = a + 1;"), vec!["while (< a 3.0) (= a (+ a 1.0));"]);
    assert_eq!(shapes("fun f(a, b) { return a + b; } fun g() { return; }"),
        vec!["fun f(a,b) {return (+ a b);}", "fun g() {return;}"]);
}

#[test]
fn for_is_lowered_to_while() {
    assert_eq!(
        shapes("for (var i = 0; i < 3; i = i + 1) print i;"),
        vec!["{var i = 0.0; while (< i 3.0) {print i; (= i (+ i 1.0));}}"]
    );
    assert_eq!(shapes("for (;;) print 1;"), vec!["while true print 1.0;"]);
    assert_eq!(shapes("for (i = 0; i < 3;) print i;"), vec!["{(= i 0.0); while (< i 3.0) print i;}"]);
    assert_eq!(shapes("for (;; i = i + 1) {}"), vec!["while true {{} (= i (+ i 1.0));}"]);
}

#[test]
fn bare_expression_is_classified() {
    assert_eq!(program("1 + 2").2, true);
    assert_eq!(program("\"foo\" + \"bar\"").2, true);
    assert_eq!(program("1 + 2;").2, false);
    assert_eq!(program("print 1;").2, false);
    assert_eq!(program("var a = 1;").2, false);
    assert_eq!(program("{ }").2, false);
    assert_eq!(program("fun f() { }").2, false);
    assert_eq!(program("").2, true);
}

#[test]
fn expression_statement_takes_its_semicolon() {
    let (stmts, lines, _) = program("1 + \"x\";");
    assert_eq!(lines, Vec::<String>::new());
    assert_eq!(stmts.len(), 1);
    let (stmts, lines, _) = program("a = 1; b = 2;");
    assert_eq!(lines, Vec::<String>::new());
    assert_eq!(stmts.len(), 2);
}

#[test]
fn missing_semicolon_after_a_statement_was_seen() {
    let (_, lines, _) = program("print 1; 2");
    assert_eq!(lines, vec!["[line 1] Error at end: Expect ';' after expression."]);
    let (_, lines, _) = program("print 1");
    assert_eq!(lines, vec!["[line 1] Error at end: Expect ';' after value."]);
    let (_, lines, _) = program("var a = 1");
    assert_eq!(lines, vec!["[line 1] Error at end: Expect ';' after variable declaration."]);
}

#[test]
fn recovery_reports_every_error() {
    let (stmts, lines, _) = program("print ;\nvar = 1;\nprint 3;\n) print 4;");
    assert_eq!(
        lines,
        vec![
            "[line 1] Error at ';': Expect expression.",
            "[line 2] Error at '=': Expect variable name.",
            "[line 4] Error at ')': Expect expression.",
        ]
    );
    assert_eq!(stmts.iter().map(shape).collect::<Vec<_>>(), vec!["print 3.0;", "print 4.0;"]);
}

#[test]
fn recovery_stops_before_a_statement_keyword() {
    let (stmts, lines, _) = program("var a = + 1 2 3 print 5;");
    assert_eq!(lines, vec!["[line 1] Error at '+': Expect expression."]);
    assert_eq!(stmts.iter().map(shape).collect::<Vec<_>>(), vec!["print 5.0;"]);
}

#[test]
fn errors_inside_a_block_do_not_end_it() {
    let (stmts, lines, _) = program("{ print 1; print ; print 2; } print 3;");
    assert_eq!(lines, vec!["[line 1] Error at ';': Expect expression."]);
    assert_eq!(
        stmts.iter().map(shape).collect::<Vec<_>>(),
        vec!["{print 1.0; print 2.0;}", "print 3.0;"]
    );
}

#[test]
fn unclosed_block() {
    let (_, lines, _) = program("{ print 1;");
    assert_eq!(lines, vec!["[line 1] Error at end: Expect '}' after block."]);
}

#[test]
fn function_declaration_errors() {
    assert_eq!(program("fun (a) { }").1[0], "[line 1] Error at '(': Expect function name.");
    assert_eq!(program("fun f a) { }").1[0], "[line 1] Error at 'a': Expect '(' after function name.");
    assert_eq!(program("fun f(1) { }").1[0], "[line 1] Error at '1': Expect parameter name.");
    assert_eq!(program("fun f(a { }").1[0], "[line 1] Error at '{': Expect ')' after parameters.");
    assert_eq!(program("fun f(a) print 1;").1[0], "[line 1] Error at 'print': Expect '{' before function body.");
}

#[test]
fn control_flow_errors() {
    assert_eq!(program("if a) print 1;").1[0], "[line 1] Error at 'a': Expect '(' after 'if'.");
    assert_eq!(program("if (a print 1;").1[0], "[line 1] Error at 'print': Expect ')' after condition.");
    assert_eq!(program("while a) print 1;").1[0], "[line 1] Error at 'a': Expect '(' after 'while'.");
    assert_eq!(program("for a;;) print 1;").1[0], "[line 1] Error at 'a': Expect '(' after 'for'.");
    assert_eq!(program("for (;a) print 1;").1[0], "[line 1] Error at ')': Expect ';' after loop condition.");
    assert_eq!(program("for (;;a print 1;").1[0], "[line 1] Error at 'print': Expect ')' after for clauses.");
    assert_eq!(program("return 1").1[0], "[line 1] Error at end: Expect ';' after return value.");
}

#[test]
fn wrap_boxes_the_node() {
    let wrapped = Expr::Literal { value: Value::Nil }.wrap();
    assert!(matches!(wrapped, Ok(ref boxed) if matches!(**boxed, Expr::Literal { value: Value::Nil })));
    let wrapped = Stmt::Block { statements: Vec::new() }.wrap();
    assert!(matches!(wrapped, Ok(ref boxed) if matches!(**boxed, Stmt::Block { .. })));
}

#[test]
fn parse_expr_reads_one_expression() {
    let mut parser = parser("1 2");
    let first = parser.parse_expr().expect("the first");
    let second = parser.parse_expr().expect("the second");
    assert!(matches!(*first, Expr::Literal { value: Value::Number(ref n) } if n == "1"));
    assert!(matches!(*second, Expr::Literal { value: Value::Number(ref n) } if n == "2"));
    assert!(parser.parse_expr().is_none());
}
