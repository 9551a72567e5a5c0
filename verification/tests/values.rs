use rlox::char_extensions::{is_digit, CharExtensions};
use rlox::environment::Environment;
use rlox::error::{ErrorHandler, ParserError, RuntimeError, RuntimeErrorKind};
use rlox::fragment::Fragment;
use rlox::interpreter::ObjectCaller;
use rlox::operators::{binary, unary, Applied, ArithOp, Request};
use rlox::object::{csv_str, negate, numbers_equal, numbers_less, numbers_less_equal, Builtin, Object};
use rlox::returner::Return;
use rlox::string_extensions::{characters, decimal_text, joined, StringExtensions};
use rlox::token::{Token, TokenType};
use rlox::value::Value;

fn samples() -> Vec<f64> {
    vec![
        0.0,
        -0.0,
        1.0,
        -1.0,
        0.5,
        -0.5,
        2.0,
        1e308,
        -1e308,
        5e-324,
        -5e-324,
        f64::MIN_POSITIVE,
        f64::MAX,
        f64::MIN,
        f64::INFINITY,
        f64::NEG_INFINITY,
        f64::NAN,
        -f64::NAN,
        f64::from_bits(0x7ff0_0000_0000_0001),
        f64::from_bits(0xffff_ffff_ffff_ffff),
        123.456,
        -123.456,
        1.0000000000000002,
    ]
}

fn name(lexeme: &str, line: usize) -> Token {
    Token {
        token_type: TokenType::Identifier,
        lexeme: String::from(lexeme),
        literal: Value::Nil,
        line,
    }
}

fn number(value: f64) -> Object<'static> {
    Object::Number(value.to_bits())
}

fn text(value: &str) -> Object<'static> {
    Object::String(String::from(value))
}

#[test]
fn number_order_agrees_with_the_hardware() {
    for a in samples() {
        for b in samples() {
            assert_eq!(numbers_less(a.to_bits(), b.to_bits()), a < b, "{:?} < {:?}", a, b);
            assert_eq!(numbers_less_equal(a.to_bits(), b.to_bits()), a <= b, "{:?} <= {:?}", a, b);
            assert_eq!(numbers_equal(a.to_bits(), b.to_bits()), a == b, "{:?} == {:?}", a, b);
        }
    }
}

#[test]
fn negation_agrees_with_the_hardware() {
    for a in samples() {
        assert_eq!(negate(a.to_bits()), (-a).to_bits(), "-{:?}", a);
    }
}

#[test]
fn nan_equals_nothing() {
    let nan = number(f64::NAN);
    assert!(!nan.is_equal(&nan));
    assert!(!nan.is_equal(&number(1.0)));
}

#[test]
fn truthiness() {
    assert!(!Object::Nil.is_thuthy());
    assert!(!Object::Unitialized.is_thuthy());
    assert!(!Object::Boolean(false).is_thuthy());
    assert!(Object::Boolean(true).is_thuthy());
    assert!(number(0.0).is_thuthy());
    assert!(number(f64::NAN).is_thuthy());
    assert!(text("").is_thuthy());
    assert!(Object::Builtin(Builtin::Clock).is_thuthy());
}

#[test]
fn double_negation_is_truthiness() {
    let values =
        vec![Object::Nil, Object::Unitialized, Object::Boolean(false), Object::Boolean(true), number(0.0), text("")];
    for value in values.iter() {
        let once = unary(TokenType::Bang, value).expect("a truth value");
        let twice = unary(TokenType::Bang, &once).expect("a truth value");
        assert!(matches!(twice, Object::Boolean(b) if b == value.is_thuthy()));
    }
}

#[test]
fn equality_of_values() {
    assert!(Object::Nil.is_equal(&Object::Nil));
    assert!(Object::Unitialized.is_equal(&Object::Unitialized));
    assert!(!Object::Nil.is_equal(&Object::Unitialized));
    assert!(!Object::Nil.is_equal(&Object::Boolean(false)));
    assert!(!Object::Boolean(false).is_equal(&Object::Nil));
    assert!(Object::Boolean(true).is_equal(&Object::Boolean(true)));
    assert!(!Object::Boolean(true).is_equal(&Object::Boolean(false)));
    assert!(number(1.5).is_equal(&number(1.5)));
    assert!(number(0.0).is_equal(&number(-0.0)));
    assert!(!number(1.0).is_equal(&text("1")));
    assert!(text("a").is_equal(&text("a")));
    assert!(!text("a").is_equal(&text("b")));
    assert!(!Object::Builtin(Builtin::Clock).is_equal(&Object::Builtin(Builtin::Clock)));
}

#[test]
fn callables() {
    assert!(Object::Builtin(Builtin::Clock).is_callable());
    assert_eq!(Object::Builtin(Builtin::Clock).arity(), 0);
    assert!(!Object::Nil.is_callable());
    assert!(!number(1.0).is_callable());
    assert_eq!(text("f").arity(), 0);
    assert_eq!(Builtin::Clock.name(), "clock");
}

#[test]
fn unary_operators() {
    assert!(matches!(unary(TokenType::Minus, &number(2.5)), Ok(Object::Number(b)) if b == (-2.5f64).to_bits()));
    assert!(matches!(unary(TokenType::Minus, &number(0.0)), Ok(Object::Number(b)) if b == (-0.0f64).to_bits()));
    assert!(matches!(unary(TokenType::Minus, &text("x")), Err(RuntimeErrorKind::OperandMustBeNumber)));
    assert!(matches!(unary(TokenType::Minus, &Object::Nil), Err(RuntimeErrorKind::OperandMustBeNumber)));
    assert!(matches!(unary(TokenType::Bang, &Object::Nil), Ok(Object::Boolean(true))));
    assert!(matches!(unary(TokenType::Bang, &number(0.0)), Ok(Object::Boolean(false))));
    assert!(matches!(unary(TokenType::Plus, &number(0.0)), Ok(Object::Nil)));
}

#[test]
fn binary_operators_ask_for_arithmetic() {
    let cases = vec![
        (TokenType::Plus, ArithOp::Add),
        (TokenType::Minus, ArithOp::Subtract),
        (TokenType::Star, ArithOp::Multiply),
        (TokenType::Slash, ArithOp::Divide),
    ];
    for (token_type, expected) in cases {
        match binary(token_type, &number(6.0), &number(3.0)) {
            Applied::Ask(Request::Arithmetic { operator, left, right }) => {
                assert_eq!(operator, expected);
                assert_eq!(left, 6.0f64.to_bits());
                assert_eq!(right, 3.0f64.to_bits());
            }
            other => panic!("{:?}", other),
        }
    }
}

#[test]
fn binary_operators_on_strings() {
    assert!(matches!(binary(TokenType::Plus, &text("foo"), &text("bar")), Applied::Value(Object::String(s)) if s == "foobar"));
    assert!(matches!(binary(TokenType::Plus, &text(""), &text("")), Applied::Value(Object::String(s)) if s.is_empty()));
    assert!(matches!(binary(TokenType::Minus, &text("a"), &text("b")), Applied::Error(RuntimeErrorKind::OperandsMustBeNumbers)));
    assert!(matches!(binary(TokenType::Less, &text("a"), &text("b")), Applied::Error(RuntimeErrorKind::OperandsMustBeNumbers)));
    assert!(matches!(binary(TokenType::EqualEqual, &text("a"), &text("a")), Applied::Value(Object::Boolean(true))));
    assert!(matches!(binary(TokenType::BangEqual, &text("a"), &text("a")), Applied::Value(Object::Boolean(false))));
}

#[test]
fn binary_operators_on_mixed_operands() {
    assert!(matches!(binary(TokenType::Plus, &number(1.0), &text("x")), Applied::Error(RuntimeErrorKind::OperandsMustBeNumbersOrStrings)));
    assert!(matches!(binary(TokenType::Plus, &Object::Nil, &Object::Nil), Applied::Error(RuntimeErrorKind::OperandsMustBeNumbersOrStrings)));
    assert!(matches!(binary(TokenType::Star, &number(1.0), &Object::Boolean(true)), Applied::Error(RuntimeErrorKind::OperandsMustBeNumbers)));
    assert!(matches!(binary(TokenType::GreaterEqual, &Object::Nil, &number(1.0)), Applied::Error(RuntimeErrorKind::OperandsMustBeNumbers)));
    assert!(matches!(binary(TokenType::EqualEqual, &number(1.0), &text("1")), Applied::Value(Object::Boolean(false))));
    assert!(matches!(binary(TokenType::BangEqual, &number(1.0), &Object::Nil), Applied::Value(Object::Boolean(true))));
}

#[test]
fn binary_comparisons() {
    assert!(matches!(binary(TokenType::Less, &number(1.0), &number(2.0)), Applied::Value(Object::Boolean(true))));
    assert!(matches!(binary(TokenType::LessEqual, &number(2.0), &number(2.0)), Applied::Value(Object::Boolean(true))));
    assert!(matches!(binary(TokenType::Greater, &number(1.0), &number(2.0)), Applied::Value(Object::Boolean(false))));
    assert!(matches!(binary(TokenType::GreaterEqual, &number(3.0), &number(2.0)), Applied::Value(Object::Boolean(true))));
    assert!(matches!(binary(TokenType::Less, &number(f64::NAN), &number(2.0)), Applied::Value(Object::Boolean(false))));
    assert!(matches!(binary(TokenType::GreaterEqual, &number(f64::NAN), &number(f64::NAN)), Applied::Value(Object::Boolean(false))));
    assert!(matches!(binary(TokenType::BangEqual, &number(f64::NAN), &number(f64::NAN)), Applied::Value(Object::Boolean(true))));
}

#[test]
fn values_render() {
    assert!(matches!(Object::Nil.interp_to_string(), Fragment::Text(s) if s == "nil"));
    assert!(matches!(Object::Boolean(true).interp_to_string(), Fragment::Text(s) if s == "true"));
    assert!(matches!(text("hi").interp_to_string(), Fragment::Text(s) if s == "hi"));
    assert!(matches!(number(2.0).interp_to_string(), Fragment::Number(b) if b == 2.0f64.to_bits()));
    assert!(matches!(Object::Builtin(Builtin::Clock).interp_to_string(), Fragment::Text(s) if s == "clock"));
    assert!(matches!(Value::Nil.to_string(), Fragment::Text(s) if s == "null"));
    assert!(matches!(Value::Nil.interp_to_string(), Fragment::Text(s) if s == "nil"));
    assert!(matches!(Value::Bool(false).to_string(), Fragment::Text(s) if s == "false"));
    assert!(matches!(Value::String(String::from("s")).to_string(), Fragment::Text(s) if s == "s"));
    assert!(matches!(Value::Number(String::from("1.50")).to_string(), Fragment::Numeral(s) if s == "1.50"));
    assert!(matches!(Value::Number(String::from("7")).interp_to_string(), Fragment::Numeral(s) if s == "7"));
}

#[test]
fn comma_separated_values() {
    assert_eq!(csv_str(&[]), "");
    assert_eq!(csv_str(&[String::from("a")]), "a");
    assert_eq!(csv_str(&[String::from("a"), String::from("b"), String::from("c")]), "a, b, c");
    assert_eq!(csv_str(&[String::new(), String::new()]), ", ");
}

#[test]
fn environment_starts_with_the_builtins() {
    let environment = Environment::new();
    assert_eq!(environment.len(), 1);
    assert!(matches!(environment.get(0, &name("clock", 1)), Ok(Object::Builtin(Builtin::Clock))));
}

#[test]
fn define_then_get() {
    let mut environment = Environment::new();
    assert!(environment.define(0, &name("a", 1), number(1.0)).is_ok());
    assert!(matches!(environment.get(0, &name("a", 1)), Ok(Object::Number(b)) if b == 1.0f64.to_bits()));
    assert!(environment.define(0, &name("n", 1), Object::Nil).is_ok());
    assert!(matches!(environment.get(0, &name("n", 1)), Ok(Object::Nil)));
}

#[test]
fn get_searches_outward() {
    let mut environment = Environment::new();
    let inner = environment.new_enclosing(0);
    let innermost = environment.new_enclosing(inner);
    assert_eq!((inner, innermost), (1, 2));
    environment.define(0, &name("a", 1), text("global")).unwrap();
    environment.define(inner, &name("b", 1), text("inner")).unwrap();
    assert!(matches!(environment.get(innermost, &name("a", 1)), Ok(Object::String(s)) if s == "global"));
    assert!(matches!(environment.get(innermost, &name("b", 1)), Ok(Object::String(s)) if s == "inner"));
    assert!(matches!(environment.get(0, &name("b", 3)), Err(RuntimeError { line: 3, kind: RuntimeErrorKind::UndefinedVariable(n) }) if n == "b"));
}

#[test]
fn shadowing() {
    let mut environment = Environment::new();
    let inner = environment.new_enclosing(0);
    environment.define(0, &name("a", 1), number(1.0)).unwrap();
    environment.define(inner, &name("a", 1), number(2.0)).unwrap();
    assert!(matches!(environment.get(inner, &name("a", 1)), Ok(Object::Number(b)) if b == 2.0f64.to_bits()));
    assert!(matches!(environment.get(0, &name("a", 1)), Ok(Object::Number(b)) if b == 1.0f64.to_bits()));
}

#[test]
fn redefinition_in_the_global_scope_rebinds() {
    let mut environment = Environment::new();
    environment.define(0, &name("a", 1), number(1.0)).unwrap();
    assert!(environment.define(0, &name("a", 2), number(2.0)).is_ok());
    assert!(matches!(environment.get(0, &name("a", 1)), Ok(Object::Number(b)) if b == 2.0f64.to_bits()));
}

#[test]
fn redefinition_in_a_block_is_an_error() {
    let mut environment = Environment::new();
    let inner = environment.new_enclosing(0);
    environment.define(inner, &name("a", 1), number(1.0)).unwrap();
    assert!(matches!(
        environment.define(inner, &name("a", 4), number(2.0)),
        Err(RuntimeError { line: 4, kind: RuntimeErrorKind::AlreadyDefined(n) }) if n == "a"
    ));
    assert!(matches!(environment.get(inner, &name("a", 1)), Ok(Object::Number(b)) if b == 1.0f64.to_bits()));
}

#[test]
fn assign_rebinds_the_nearest_binding() {
    let mut environment = Environment::new();
    let inner = environment.new_enclosing(0);
    environment.define(0, &name("a", 1), number(1.0)).unwrap();
    environment.define(0, &name("b", 1), number(1.0)).unwrap();
    environment.define(inner, &name("a", 1), number(2.0)).unwrap();
    assert!(environment.assign(inner, &name("a", 1), number(3.0)).is_ok());
    assert!(environment.assign(inner, &name("b", 1), number(4.0)).is_ok());
    assert!(matches!(environment.get(inner, &name("a", 1)), Ok(Object::Number(b)) if b == 3.0f64.to_bits()));
    assert!(matches!(environment.get(0, &name("a", 1)), Ok(Object::Number(b)) if b == 1.0f64.to_bits()));
    assert!(matches!(environment.get(0, &name("b", 1)), Ok(Object::Number(b)) if b == 4.0f64.to_bits()));
}

#[test]
fn assign_never_creates_a_binding() {
    let mut environment = Environment::new();
    let inner = environment.new_enclosing(0);
    assert!(matches!(
        environment.assign(inner, &name("a", 9), number(1.0)),
        Err(RuntimeError { line: 9, kind: RuntimeErrorKind::UndefinedVariable(n) }) if n == "a"
    ));
    assert!(environment.get(inner, &name("a", 1)).is_err());
    assert!(environment.get(0, &name("a", 1)).is_err());
    assert_eq!(environment.len(), 2);
}

#[test]
fn reading_an_uninitialized_variable_is_an_error() {
    let mut environment = Environment::new();
    environment.define(0, &name("a", 1), Object::Unitialized).unwrap();
    assert!(matches!(
        environment.get(0, &name("a", 5)),
        Err(RuntimeError { line: 5, kind: RuntimeErrorKind::UninitializedVariable(n) }) if n == "a"
    ));
    environment.assign(0, &name("a", 1), Object::Nil).unwrap();
    assert!(matches!(environment.get(0, &name("a", 1)), Ok(Object::Nil)));
}

#[test]
fn a_scope_that_does_not_exist_binds_nothing() {
    let mut environment = Environment::new();
    assert!(environment.get(7, &name("clock", 1)).is_err());
    assert!(environment.assign(7, &name("clock", 1), Object::Nil).is_err());
    assert!(matches!(environment.get(0, &name("clock", 1)), Ok(Object::Builtin(Builtin::Clock))));
}

#[test]
fn runtime_error_messages() {
    let message = |kind| RuntimeError { line: 1, kind }.message();
    assert_eq!(message(RuntimeErrorKind::UndefinedVariable(String::from("x"))), "Undefined variable 'x'.");
    assert_eq!(
        message(RuntimeErrorKind::UninitializedVariable(String::from("x"))),
        "Variable 'x' has not been initialized or assigned to."
    );
    assert_eq!(message(RuntimeErrorKind::AlreadyDefined(String::from("x"))), "Variable 'x' already defined.");
    assert_eq!(message(RuntimeErrorKind::OperandMustBeNumber), "Operand must be a number.");
    assert_eq!(message(RuntimeErrorKind::OperandsMustBeNumbers), "Operands must be numbers.");
    assert_eq!(
        message(RuntimeErrorKind::OperandsMustBeNumbersOrStrings),
        "Operands must be two numbers or two strings."
    );
    assert_eq!(message(RuntimeErrorKind::NotCallable), "Can only call functions and classes.");
    assert_eq!(
        message(RuntimeErrorKind::WrongArity { expected: 2, got: 10 }),
        "Expected 2 arguments but got 10."
    );
    assert_eq!(
        RuntimeError { line: 12, kind: RuntimeErrorKind::NotCallable }.report(),
        "[line 12] Runtime Error: Can only call functions and classes."
    );
}

#[test]
fn error_handler_collects_lines() {
    let mut handler = ErrorHandler::new();
    assert!(!handler.had_error());
    assert_eq!(handler.len(), 0);
    handler.error(3, String::from("Unterminated string."));
    assert!(handler.had_error());
    handler.error_token(&name("x", 4), String::from("Expect expression."));
    handler.error_token(&Token::eof(5), String::from("Expect expression."));
    handler.runtime_error(&name("y", 6), String::from("Operands must be numbers."));
    assert_eq!(handler.len(), 4);
    assert_eq!(handler.line(0), "[line 3] Error: Unterminated string.");
    assert_eq!(handler.line(1), "[line 4] Error at 'x': Expect expression.");
    assert_eq!(handler.line(2), "[line 5] Error at end: Expect expression.");
    assert_eq!(handler.line(3), "[line 6] Runtime Error: Operands must be numbers.");
    handler.reset();
    assert!(!handler.had_error());
    assert_eq!(handler.len(), 4);
}

#[test]
fn parser_error_marker() {
    assert_eq!(ParserError::new(), ParserError {});
}

#[test]
fn return_holder() {
    let mut holder = Return::new();
    assert!(matches!(holder.get(), Object::Nil));
    holder.add(number(1.0));
    holder.add(number(2.0));
    assert!(matches!(holder.get(), Object::Number(b) if b == 2.0f64.to_bits()));
    assert!(matches!(holder.get(), Object::Nil));
}

#[test]
fn character_classes() {
    for c in ['a', 'z', 'A', 'Z', '_', 'm'] {
        assert!(c.is_alpha());
        assert!(c.is_alpha_numeric());
        assert!(!is_digit(c));
    }
    for c in ['0', '5', '9'] {
        assert!(!c.is_alpha());
        assert!(c.is_alpha_numeric());
        assert!(is_digit(c));
    }
    for c in [' ', '-', '\0', 'é', '`', '{', '@', '[', '/', ':', '٣'] {
        assert!(!c.is_alpha());
        assert!(!c.is_alpha_numeric());
        assert!(!is_digit(c));
    }
}

#[test]
fn substring_by_characters() {
    let text = String::from("héllo wörld");
    assert_eq!(text.substring(0, 5), "héllo");
    assert_eq!(text.substring(6, 11), "wörld");
    assert_eq!(text.substring(6, 100), "wörld");
    assert_eq!(text.substring(3, 3), "");
    assert_eq!(text.substring(50, 60), "");
    assert_eq!(text.char_at(1), 'é');
    assert_eq!(text.char_at(10), 'd');
    assert_eq!(text.char_at(11), '\0');
    assert_eq!(String::new().char_at(0), '\0');
}

#[test]
fn text_helpers() {
    assert_eq!(characters("aé\n"), vec!['a', 'é', '\n']);
    assert_eq!(characters(""), Vec::<char>::new());
    assert_eq!(joined("foo", "bar"), "foobar");
    assert_eq!(decimal_text(0), "0");
    assert_eq!(decimal_text(7), "7");
    assert_eq!(decimal_text(10), "10");
    assert_eq!(decimal_text(1234567890), "1234567890");
    assert_eq!(decimal_text(usize::MAX), usize::MAX.to_string());
}
