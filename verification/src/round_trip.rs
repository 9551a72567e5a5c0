//! Printing an expression and parsing it again.

use vstd::prelude::*;
use crate::ast_printer::printed;
use crate::char_extensions::{alpha, alpha_numeric};
use crate::expression::{Expr, ExprModel};
use crate::fragment::Piece;
use crate::grammar::{
    assignment, call, call_rest, expression, infix, infix_rest, operand, primary, unary, Cursor,
    Level, Parsed,
};
use crate::lexing::{
    items, keyword, lemma_run_keeps_line, lex, line_at, member, newlines, plain, run, scan,
    scan_from, token_models, Class,
};
use crate::token::{Token, TokenModel, TokenType};
use crate::value::{Value, ValueModel};

verus! {

/// The text of printed output that holds no number.
pub open spec fn plain_text(pieces: Seq<Piece>) -> Seq<char>
    decreases pieces.len(),
{
    if pieces.len() == 0 {
        Seq::empty()
    } else {
        plain_text(pieces.drop_last()) + match pieces.last() {
            Piece::Text(text) => text,
            _ => Seq::empty(),
        }
    }
}

/// Where every parse of a whole token list starts.
pub open spec fn start() -> Cursor {
    Cursor { current: 0, is_expression: true, errors: Seq::empty() }
}

proof fn lemma_run_to_the_end(source: Seq<char>, from: int)
    requires
        0 <= from <= source.len(),
        forall|i: int| from <= i < source.len() ==> alpha_numeric(#[trigger] source[i]),
    ensures
        run(source, from, Class::AlphaNumeric) == source.len(),
    decreases source.len() - from,
{
    if from < source.len() {
        assert(member(Class::AlphaNumeric, source[from]));
        lemma_run_to_the_end(source, from + 1);
    }
}

proof fn lemma_scan_of_a_word(word: Seq<char>, token_type: TokenType)
    requires
        word.len() > 0,
        alpha(word[0]),
        forall|i: int| 0 <= i < word.len() ==> alpha_numeric(#[trigger] word[i]),
        keyword(word) == Some(token_type),
    ensures
        scan(word).tokens == seq![
            TokenModel { token_type, lexeme: word, literal: ValueModel::Nil, line: 1 },
            Token::eof_model(1),
        ],
{
    lemma_run_to_the_end(word, 0);
    lemma_run_keeps_line(word, 0, Class::AlphaNumeric);
    assert(newlines(word, 0) == 0);
    assert(line_at(word, word.len() as int) == 1);
    assert(word.subrange(0, word.len() as int) =~= word);
    let lexed = lex(word, 0);
    assert(lexed == plain(word, 0, word.len() as int, token_type));
    assert(scan_from(word, word.len() as int).tokens == seq![Token::eof_model(1)]);
    assert(scan(word).tokens == items(lexed.token) + scan_from(word, word.len() as int).tokens);
    assert(scan(word).tokens =~= seq![
        TokenModel { token_type, lexeme: word, literal: ValueModel::Nil, line: 1 },
        Token::eof_model(1),
    ]);
}

proof fn lemma_keyword_texts()
    ensures
        keyword("true"@) == Some(TokenType::True),
        keyword("false"@) == Some(TokenType::False),
        keyword("nil"@) == Some(TokenType::Nil),
        "true"@.len() == 4,
        "false"@.len() == 5,
        "nil"@.len() == 3,
        forall|i: int| 0 <= i < 4 ==> alpha(#[trigger] "true"@[i]),
        forall|i: int| 0 <= i < 5 ==> alpha(#[trigger] "false"@[i]),
        forall|i: int| 0 <= i < 3 ==> alpha(#[trigger] "nil"@[i]),
{
    reveal_strlit("and");
    reveal_strlit("class");
    reveal_strlit("else");
    reveal_strlit("false");
    reveal_strlit("for");
    reveal_strlit("fun");
    reveal_strlit("if");
    reveal_strlit("nil");
    reveal_strlit("or");
    reveal_strlit("print");
    reveal_strlit("return");
    reveal_strlit("super");
    reveal_strlit("this");
    reveal_strlit("true");
    assert("and"@.len() == 3);
    assert("class"@.len() == 5);
    assert("else"@.len() == 4);
    assert("false"@.len() == 5);
    assert("for"@.len() == 3);
    assert("fun"@.len() == 3);
    assert("if"@.len() == 2);
    assert("nil"@.len() == 3);
    assert("or"@.len() == 2);
    assert("print"@.len() == 5);
    assert("return"@.len() == 6);
    assert("super"@.len() == 5);
    assert("this"@.len() == 4);
    assert("true"@.len() == 4);
    assert("false"@ != "and"@);
    assert("false"@ != "class"@) by {
        assert("false"@[0] != "class"@[0]);
    }
    assert("false"@ != "else"@);
    assert("nil"@ != "and"@) by {
        assert("nil"@[0] != "and"@[0]);
    }
    assert("nil"@ != "class"@);
    assert("nil"@ != "else"@);
    assert("nil"@ != "false"@);
    assert("nil"@ != "for"@) by {
        assert("nil"@[0] != "for"@[0]);
    }
    assert("nil"@ != "fun"@) by {
        assert("nil"@[0] != "fun"@[0]);
    }
    assert("nil"@ != "if"@);
    assert("true"@ != "and"@);
    assert("true"@ != "class"@);
    assert("true"@ != "else"@) by {
        assert("true"@[0] != "else"@[0]);
    }
    assert("true"@ != "false"@);
    assert("true"@ != "for"@);
    assert("true"@ != "fun"@);
    assert("true"@ != "if"@);
    assert("true"@ != "nil"@);
    assert("true"@ != "or"@);
    assert("true"@ != "print"@);
    assert("true"@ != "return"@);
    assert("true"@ != "super"@);
    assert("true"@ != "this"@) by {
        assert("true"@[1] != "this"@[1]);
    }
}

proof fn lemma_parse_of_a_literal(tokens: Seq<Token>, node: ExprModel)
    requires
        tokens.len() == 2,
        tokens[1].token_type == TokenType::Eof,
        primary(tokens, start()) == (Parsed { cursor: Cursor { current: 1, ..start() }, node: Some(node) }),
    ensures
        expression(tokens, start()).node == Some(node),
{
    let c = start();
    let after = Cursor { current: 1, ..c };
    assert(call_rest(tokens, after, node).node == Some(node));
    assert(call(tokens, c).node == Some(node));
    assert(call(tokens, c).cursor == after);
    assert(unary(tokens, c) == call(tokens, c));
    assert(operand(tokens, c, Level::Factor) == unary(tokens, c));
    assert(infix_rest(tokens, after, Level::Factor, node).node == Some(node));
    assert(infix(tokens, c, Level::Factor).node == Some(node));
    assert(infix(tokens, c, Level::Factor).cursor == after);
    assert(operand(tokens, c, Level::Term) == infix(tokens, c, Level::Factor));
    assert(infix_rest(tokens, after, Level::Term, node).node == Some(node));
    assert(infix(tokens, c, Level::Term).node == Some(node));
    assert(infix(tokens, c, Level::Term).cursor == after);
    assert(operand(tokens, c, Level::Comparison) == infix(tokens, c, Level::Term));
    assert(infix_rest(tokens, after, Level::Comparison, node).node == Some(node));
    assert(infix(tokens, c, Level::Comparison).node == Some(node));
    assert(infix(tokens, c, Level::Comparison).cursor == after);
    assert(operand(tokens, c, Level::Equality) == infix(tokens, c, Level::Comparison));
    assert(infix_rest(tokens, after, Level::Equality, node).node == Some(node));
    assert(infix(tokens, c, Level::Equality).node == Some(node));
    assert(infix(tokens, c, Level::Equality).cursor == after);
    assert(operand(tokens, c, Level::And) == infix(tokens, c, Level::Equality));
    assert(infix_rest(tokens, after, Level::And, node).node == Some(node));
    assert(infix(tokens, c, Level::And).node == Some(node));
    assert(infix(tokens, c, Level::And).cursor == after);
    assert(operand(tokens, c, Level::Or) == infix(tokens, c, Level::And));
    assert(infix_rest(tokens, after, Level::Or, node).node == Some(node));
    assert(infix(tokens, c, Level::Or).node == Some(node));
    assert(infix(tokens, c, Level::Or).cursor == after);
    assert(assignment(tokens, c).node == Some(node));
}

/// The literal that a keyword stands for.
pub open spec fn literal_of(token_type: TokenType) -> Value {
    match token_type {
        TokenType::True => Value::Bool(true),
        TokenType::False => Value::Bool(false),
        _ => Value::Nil,
    }
}

proof fn lemma_parse_of_a_word(word: Seq<char>, token_type: TokenType, again: Seq<Token>)
    requires
        token_type == TokenType::True || token_type == TokenType::False || token_type
            == TokenType::Nil,
        word.len() > 0,
        forall|i: int| 0 <= i < word.len() ==> alpha(#[trigger] word[i]),
        keyword(word) == Some(token_type),
        token_models(again) == scan(word).tokens,
    ensures
        expression(again, start()).node == Some(
            ExprModel::Literal { value: literal_of(token_type) },
        ),
{
    assert forall|i: int| 0 <= i < word.len() implies alpha_numeric(#[trigger] word[i]) by {
        assert(alpha(word[i]));
    }
    lemma_scan_of_a_word(word, token_type);
    let models = token_models(again);
    assert(models.len() == 2);
    assert(again.len() == 2);
    assert(models[0] == again[0]@);
    assert(models[1] == again[1]@);
    assert(again[0].token_type == token_type);
    assert(again[1].token_type == TokenType::Eof);
    let node = ExprModel::Literal { value: literal_of(token_type) };
    assert(primary(again, start()) == (Parsed {
        cursor: Cursor { current: 1, ..start() },
        node: Some(node),
    }));
    lemma_parse_of_a_literal(again, node);
}

/// Printing and parsing again gives the same tree, and so the same value,
/// for every expression that is `true`, `false` or `nil`: where the
/// tokens `first` parse to such a literal, the tokens `again` of its
/// printed form parse to the same literal.
pub proof fn lemma_print_parse_round_trip(first: Seq<Token>, again: Seq<Token>, value: Value)
    requires
        value is Bool || value is Nil,
        expression(first, start()).node == Some(ExprModel::Literal { value }),
        token_models(again) == scan(plain_text(printed(Expr::Literal { value }))).tokens,
    ensures
        expression(again, start()).node == expression(first, start()).node,
{
    let pieces = printed(Expr::Literal { value });
    let text = plain_text(pieces);
    assert(pieces.len() == 1);
    assert(pieces.drop_last().len() == 0);
    assert(plain_text(pieces.drop_last()) =~= Seq::empty());
    lemma_keyword_texts();
    match value {
        Value::Bool(b) => {
            if b {
                assert(text =~= "true"@);
                lemma_parse_of_a_word("true"@, TokenType::True, again);
            } else {
                assert(text =~= "false"@);
                lemma_parse_of_a_word("false"@, TokenType::False, again);
            }
        },
        _ => {
            assert(text =~= "nil"@);
            lemma_parse_of_a_word("nil"@, TokenType::Nil, again);
        },
    }
}

} // verus!
