use rlox::fragment::Fragment;
use rlox::scanner::Scanner;
use rlox::token::{Token, TokenType};
use rlox::value::Value;

fn scan(source: &str) -> (Vec<Token>, Vec<String>, bool) {
    let mut scanner = Scanner::new(String::from(source));
    scanner.scan_tokens();
    let mut lines = Vec::new();
    for i in 0..scanner.errors().len() {
        lines.push(scanner.errors().line(i).clone());
    }
    let had_error = scanner.errors().had_error();
    (scanner.into_tokens(), lines, had_error)
}

fn kinds(source: &str) -> Vec<TokenType> {
    scan(source).0.iter().map(|token| token.token_type).collect()
}

fn lexemes(source: &str) -> Vec<String> {
    scan(source).0.iter().map(|token| token.lexeme.clone()).collect()
}

fn dump(token: &Token) -> String {
    let mut line = String::new();
    for fragment in token.to_string() {
        match fragment {
            Fragment::Text(text) => line.push_str(&text),
            Fragment::Numeral(numeral) => {
                line.push_str(&format!("{:?}", numeral.parse::<f64>().unwrap_or_default()))
            }
            Fragment::Number(bits) => line.push_str(&format!("{:?}", f64::from_bits(bits))),
        }
    }
    line
}

#[test]
fn empty_source_is_one_eof_on_line_one() {
    let (tokens, errors, had_error) = scan("");
    assert_eq!(tokens.len(), 1);
    assert_eq!(tokens[0].token_type, TokenType::Eof);
    assert_eq!(tokens[0].lexeme, "");
    assert_eq!(tokens[0].literal, Value::Nil);
    assert_eq!(tokens[0].line, 1);
    assert!(errors.is_empty());
    assert!(!had_error);
}

#[test]
fn every_scan_ends_with_exactly_one_eof() {
    for source in ["", "1", "var a = 1;", "@", "\"open", "// only a comment", "\n\n", "a.b(c)"] {
        let found = kinds(source);
        assert_eq!(found.last(), Some(&TokenType::Eof), "{:?}", source);
        assert_eq!(found.iter().filter(|kind| **kind == TokenType::Eof).count(), 1);
    }
}

#[test]
fn single_character_tokens() {
    assert_eq!(
        kinds("(){},.-+;*/"),
        vec![
            TokenType::LeftParen,
            TokenType::RightParen,
            TokenType::LeftBrace,
            TokenType::RightBrace,
            TokenType::Comma,
            TokenType::Dot,
            TokenType::Minus,
            TokenType::Plus,
            TokenType::Semicolon,
            TokenType::Star,
            TokenType::Slash,
            TokenType::Eof,
        ]
    );
}

#[test]
fn longest_match_of_operators() {
    assert_eq!(
        kinds("! != = == < <= > >="),
        vec![
            TokenType::Bang,
            TokenType::BangEqual,
            TokenType::Equal,
            TokenType::EqualEqual,
            TokenType::Less,
            TokenType::LessEqual,
            TokenType::Greater,
            TokenType::GreaterEqual,
            TokenType::Eof,
        ]
    );
    assert_eq!(
        kinds("==="),
        vec![TokenType::EqualEqual, TokenType::Equal, TokenType::Eof]
    );
    assert_eq!(kinds("!=="), vec![TokenType::BangEqual, TokenType::Equal, TokenType::Eof]);
    assert_eq!(lexemes("<=>"), vec!["<=", ">", ""]);
}

#[test]
fn whitespace_is_dropped_and_newlines_count_lines() {
    let (tokens, _, _) = scan(" \t\r\na\n\n b");
    assert_eq!(tokens.len(), 3);
    assert_eq!(tokens[0].line, 2);
    assert_eq!(tokens[1].line, 4);
    assert_eq!(tokens[2].line, 4);
}

#[test]
fn eof_is_on_the_last_line() {
    assert_eq!(scan("a\nb\n").0.last().map(|token| token.line), Some(3));
    assert_eq!(scan("a\nb").0.last().map(|token| token.line), Some(2));
}

#[test]
fn comments_run_to_the_end_of_the_line() {
    assert_eq!(kinds("a // b c d\ne"), vec![TokenType::Identifier, TokenType::Identifier, TokenType::Eof]);
    assert_eq!(scan("// x\ny").0[0].line, 2);
    assert_eq!(kinds("a / b"), vec![TokenType::Identifier, TokenType::Slash, TokenType::Identifier, TokenType::Eof]);
    assert_eq!(kinds("//"), vec![TokenType::Eof]);
}

#[test]
fn string_literal() {
    let (tokens, errors, _) = scan("\"hello world\"");
    assert!(errors.is_empty());
    assert_eq!(tokens[0].token_type, TokenType::String);
    assert_eq!(tokens[0].lexeme, "\"hello world\"");
    assert_eq!(tokens[0].literal, Value::String(String::from("hello world")));
    assert_eq!(dump(&tokens[0]), "STRING \"hello world\" hello world");
}

#[test]
fn empty_string_literal() {
    let (tokens, errors, _) = scan("\"\"");
    assert!(errors.is_empty());
    assert_eq!(tokens[0].token_type, TokenType::String);
    assert_eq!(tokens[0].literal, Value::String(String::new()));
}

#[test]
fn string_keeps_escapes_raw() {
    let (tokens, _, _) = scan("\"a\\nb\"");
    assert_eq!(tokens[0].literal, Value::String(String::from("a\\nb")));
}

#[test]
fn multi_line_string_counts_lines() {
    let (tokens, errors, _) = scan("\"a\nb\"\nc");
    assert!(errors.is_empty());
    assert_eq!(tokens[0].literal, Value::String(String::from("a\nb")));
    assert_eq!(tokens[0].line, 2);
    assert_eq!(tokens[1].line, 3);
}

#[test]
fn unterminated_string_is_reported_at_its_first_line() {
    let (tokens, errors, had_error) = scan("a\n\"open\nstill open\n");
    assert_eq!(errors, vec!["[line 2] Error: Unterminated string."]);
    assert!(had_error);
    assert_eq!(tokens.len(), 2);
    assert_eq!(tokens[1].token_type, TokenType::Eof);
    assert_eq!(tokens[1].line, 4);
}

#[test]
fn number_literals() {
    let (tokens, errors, _) = scan("123 123.45 0.5");
    assert!(errors.is_empty());
    assert_eq!(tokens[0].token_type, TokenType::Number);
    assert_eq!(tokens[0].lexeme, "123");
    assert_eq!(tokens[0].literal, Value::Number(String::from("123")));
    assert_eq!(tokens[1].lexeme, "123.45");
    assert_eq!(tokens[2].lexeme, "0.5");
    assert_eq!(dump(&tokens[0]), "NUMBER 123 123.0");
    assert_eq!(dump(&tokens[1]), "NUMBER 123.45 123.45");
}

#[test]
fn dots_at_the_edge_are_no_part_of_a_number() {
    assert_eq!(kinds("123."), vec![TokenType::Number, TokenType::Dot, TokenType::Eof]);
    assert_eq!(lexemes("123."), vec!["123", ".", ""]);
    assert_eq!(kinds(".5"), vec![TokenType::Dot, TokenType::Number, TokenType::Eof]);
    assert_eq!(kinds("1.2.3"), vec![TokenType::Number, TokenType::Dot, TokenType::Number, TokenType::Eof]);
    assert_eq!(lexemes("1.2.3"), vec!["1.2", ".", "3", ""]);
    assert_eq!(kinds("1.a"), vec![TokenType::Number, TokenType::Dot, TokenType::Identifier, TokenType::Eof]);
}

#[test]
fn identifiers_and_keywords() {
    assert_eq!(
        kinds("and class else false for fun if nil or print return super this true var while"),
        vec![
            TokenType::And,
            TokenType::Class,
            TokenType::Else,
            TokenType::False,
            TokenType::For,
            TokenType::Fun,
            TokenType::If,
            TokenType::Nil,
            TokenType::Or,
            TokenType::Print,
            TokenType::Return,
            TokenType::Super,
            TokenType::This,
            TokenType::True,
            TokenType::Var,
            TokenType::While,
            TokenType::Eof,
        ]
    );
    assert_eq!(
        kinds("andy _and and_ And f0r nil2 _ x1y2"),
        vec![TokenType::Identifier; 8].into_iter().chain([TokenType::Eof]).collect::<Vec<_>>()
    );
    assert_eq!(lexemes("foo_bar9 baz"), vec!["foo_bar9", "baz", ""]);
}

#[test]
fn keywords_carry_no_literal() {
    let (tokens, _, _) = scan("true nil");
    assert_eq!(tokens[0].literal, Value::Nil);
    assert_eq!(tokens[1].literal, Value::Nil);
    assert_eq!(dump(&tokens[0]), "TRUE true null");
}

#[test]
fn unexpected_character_is_reported_and_scanning_goes_on() {
    let (tokens, errors, had_error) = scan("@");
    assert_eq!(errors, vec!["[line 1] Error: Unexpected character: @"]);
    assert!(had_error);
    assert_eq!(tokens.len(), 1);
    assert_eq!(dump(&tokens[0]), "EOF  null");
}

#[test]
fn every_error_is_reported_in_one_pass() {
    let (tokens, errors, _) = scan("a # b\n$ c \"open");
    assert_eq!(
        errors,
        vec![
            "[line 1] Error: Unexpected character: #",
            "[line 2] Error: Unexpected character: $",
            "[line 2] Error: Unterminated string.",
        ]
    );
    assert_eq!(
        tokens.iter().map(|token| token.token_type).collect::<Vec<_>>(),
        vec![TokenType::Identifier, TokenType::Identifier, TokenType::Identifier, TokenType::Eof]
    );
}

#[test]
fn characters_outside_ascii_are_unexpected() {
    let (tokens, errors, _) = scan("é1");
    assert_eq!(errors, vec!["[line 1] Error: Unexpected character: é"]);
    assert_eq!(tokens[0].token_type, TokenType::Number);
    let (tokens, errors, _) = scan("\"é\" x");
    assert!(errors.is_empty());
    assert_eq!(tokens[0].literal, Value::String(String::from("é")));
    assert_eq!(tokens[1].lexeme, "x");
}

#[test]
fn add_token_takes_the_current_lexeme() {
    let mut scanner = Scanner::new(String::from("abc"));
    scanner.add_token(TokenType::Identifier);
    assert_eq!(scanner.tokens().len(), 1);
    assert_eq!(scanner.tokens()[0].lexeme, "");
    assert_eq!(scanner.tokens()[0].line, 1);
    scanner.scan_tokens();
    assert_eq!(scanner.tokens().len(), 3);
    assert_eq!(scanner.tokens()[1].lexeme, "abc");
}

#[test]
fn token_kind_names() {
    assert_eq!(TokenType::LeftParen.as_str(), "LEFT_PAREN");
    assert_eq!(TokenType::BangEqual.as_str(), "BANG_EQUAL");
    assert_eq!(TokenType::GreaterEqual.as_str(), "GREATER_EQUAL");
    assert_eq!(TokenType::Identifier.as_str(), "IDENTIFIER");
    assert_eq!(TokenType::While.as_str(), "WHILE");
    assert_eq!(TokenType::Eof.as_str(), "EOF");
}

#[test]
fn eof_token() {
    let token = Token::eof(7);
    assert_eq!(token.token_type, TokenType::Eof);
    assert_eq!(token.lexeme, "");
    assert_eq!(token.literal, Value::Nil);
    assert_eq!(token.line, 7);
}

#[test]
fn dump_of_a_whole_line() {
    let (tokens, _, _) = scan("var x = 1.50;");
    let lines: Vec<String> = tokens.iter().map(dump).collect();
    assert_eq!(
        lines,
        vec![
            "VAR var null",
            "IDENTIFIER x null",
            "EQUAL = null",
            "NUMBER 1.50 1.5",
            "SEMICOLON ; null",
            "EOF  null",
        ]
    );
}
