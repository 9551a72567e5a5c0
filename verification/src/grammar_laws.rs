//! What holds of every parse: it never goes back, it ends within the
//! tokens, and it takes a token wherever it yields a tree.

use vstd::prelude::*;
use crate::expression::ExprModel;
use crate::grammar::{
    advance, arguments_rest, assignment, at_end, call, call_rest, check, complain, declaration,
    declarations, expression, expression_statement, finish_call, function, infix, infix_rest,
    kind, left, onward, operand, parameters, primary, print_statement, program, return_statement,
    settled, signature, skipped, starts_statement, statement, unary, var_declaration,
    while_statement, if_statement, for_statement, block, Cursor, Level, Parsed,
};
use crate::statement::StmtModel;
use crate::token::{Token, TokenType};

verus! {

/// Whether the parse stands within the tokens or right after them.
pub open spec fn within(tokens: Seq<Token>, c: Cursor) -> bool {
    0 <= c.current <= tokens.len()
}

/// Whether the parse `to` is not before `from` and not past the end.
pub open spec fn reaches(tokens: Seq<Token>, from: Cursor, to: Cursor) -> bool {
    from.current <= to.current <= tokens.len()
}

/// Whether an outcome is one of a parsing function that was started at
/// `from`: it is not before `from` and not past the end, and where it
/// holds a node at least one token has been taken.
pub open spec fn advances<T>(tokens: Seq<Token>, from: Cursor, outcome: Parsed<T>) -> bool {
    &&& reaches(tokens, from, outcome.cursor)
    &&& outcome.node is Some ==> from.current < outcome.cursor.current
}

proof fn lemma_primary(tokens: Seq<Token>, c: Cursor)
    requires
        within(tokens, c),
    ensures
        advances(tokens, c, primary(tokens, c)),
{
}

proof fn lemma_arguments_rest(tokens: Seq<Token>, c: Cursor, list: Seq<ExprModel>)
    requires
        within(tokens, c),
    ensures
        reaches(tokens, c, arguments_rest(tokens, c, list).cursor),
    decreases left(tokens, c),
{
    if check(tokens, c, TokenType::Comma) {
        let past = advance(tokens, c);
        let start = if list.len() >= 255 {
            complain(tokens, past, "Can't have more than 255 arguments."@)
        } else {
            past
        };
        let argument = expression(tokens, start);
        let after = onward(tokens, start, argument.cursor);
        if argument.node is Some {
            lemma_arguments_rest(tokens, after, list.push(argument.node->0));
        }
    }
}

proof fn lemma_finish_call(tokens: Seq<Token>, c: Cursor, callee: ExprModel)
    requires
        within(tokens, c),
    ensures
        reaches(tokens, c, finish_call(tokens, c, callee).cursor),
{
}

proof fn lemma_call_rest(tokens: Seq<Token>, c: Cursor, callee: ExprModel)
    requires
        within(tokens, c),
    ensures
        reaches(tokens, c, call_rest(tokens, c, callee).cursor),
    decreases left(tokens, c),
{
    if check(tokens, c, TokenType::LeftParen) {
        let past = advance(tokens, c);
        let called = finish_call(tokens, past, callee);
        let after = onward(tokens, past, called.cursor);
        if called.node is Some {
            lemma_call_rest(tokens, after, called.node->0);
        }
    }
}

proof fn lemma_call(tokens: Seq<Token>, c: Cursor)
    requires
        within(tokens, c),
    ensures
        advances(tokens, c, call(tokens, c)),
{
    lemma_primary(tokens, c);
    let callee = primary(tokens, c);
    if callee.node is Some {
        lemma_call_rest(tokens, onward(tokens, c, callee.cursor), callee.node->0);
    }
}

proof fn lemma_unary(tokens: Seq<Token>, c: Cursor)
    requires
        within(tokens, c),
    ensures
        advances(tokens, c, unary(tokens, c)),
{
    if !(check(tokens, c, TokenType::Bang) || check(tokens, c, TokenType::Minus)) {
        lemma_call(tokens, c);
    }
}

proof fn lemma_operand(tokens: Seq<Token>, c: Cursor, level: Level)
    requires
        within(tokens, c),
    ensures
        advances(tokens, c, operand(tokens, c, level)),
    decreases left(tokens, c), level.rank() - 1,
{
    match level {
        Level::Or => lemma_infix(tokens, c, Level::And),
        Level::And => lemma_infix(tokens, c, Level::Equality),
        Level::Equality => lemma_infix(tokens, c, Level::Comparison),
        Level::Comparison => lemma_infix(tokens, c, Level::Term),
        Level::Term => lemma_infix(tokens, c, Level::Factor),
        Level::Factor => lemma_unary(tokens, c),
    }
}

proof fn lemma_infix_rest(tokens: Seq<Token>, c: Cursor, level: Level, node: ExprModel)
    requires
        within(tokens, c),
    ensures
        reaches(tokens, c, infix_rest(tokens, c, level, node).cursor),
    decreases left(tokens, c), level.rank() - 1,
{
    if level.has(kind(tokens, c)) {
        let past = advance(tokens, c);
        let right = operand(tokens, past, level);
        let after = onward(tokens, past, right.cursor);
        if right.node is Some {
            lemma_infix_rest(
                tokens,
                after,
                level,
                level.join(node, tokens[c.current], right.node->0),
            );
        }
    }
}

proof fn lemma_infix(tokens: Seq<Token>, c: Cursor, level: Level)
    requires
        within(tokens, c),
    ensures
        advances(tokens, c, infix(tokens, c, level)),
    decreases left(tokens, c), level.rank(),
{
    lemma_operand(tokens, c, level);
    let first = operand(tokens, c, level);
    if first.node is Some {
        lemma_infix_rest(tokens, onward(tokens, c, first.cursor), level, first.node->0);
    }
}

proof fn lemma_assignment(tokens: Seq<Token>, c: Cursor)
    requires
        within(tokens, c),
    ensures
        advances(tokens, c, assignment(tokens, c)),
{
    lemma_infix(tokens, c, Level::Or);
}

/// An expression ends at or after its start and within the tokens, and
/// where it is parsed at least one token has been taken.
pub proof fn lemma_expression(tokens: Seq<Token>, c: Cursor)
    requires
        within(tokens, c),
    ensures
        advances(tokens, c, expression(tokens, c)),
{
    lemma_assignment(tokens, c);
}

proof fn lemma_expression_statement(tokens: Seq<Token>, c: Cursor)
    requires
        within(tokens, c),
    ensures
        advances(tokens, c, expression_statement(tokens, c)),
{
    lemma_expression(tokens, c);
}

proof fn lemma_parameters(tokens: Seq<Token>, c: Cursor, list: Seq<Token>)
    requires
        within(tokens, c),
    ensures
        reaches(tokens, c, parameters(tokens, c, list).cursor),
    decreases left(tokens, c),
{
    let start = if list.len() >= 255 {
        complain(tokens, c, "Can't have more than 255 parameters."@)
    } else {
        c
    };
    if check(tokens, start, TokenType::Identifier) {
        let named = advance(tokens, start);
        if check(tokens, named, TokenType::Comma) {
            lemma_parameters(tokens, advance(tokens, named), list.push(tokens[start.current]));
        }
    }
}

proof fn lemma_signature(tokens: Seq<Token>, c: Cursor)
    requires
        within(tokens, c),
    ensures
        reaches(tokens, c, signature(tokens, c).cursor),
{
    if check(tokens, c, TokenType::LeftParen) {
        lemma_parameters(tokens, advance(tokens, c), Seq::empty());
    }
}

proof fn lemma_skipped(tokens: Seq<Token>, c: Cursor)
    requires
        within(tokens, c),
    ensures
        reaches(tokens, c, skipped(tokens, c)),
    decreases left(tokens, c),
{
    if !(at_end(tokens, c) || tokens[c.current - 1].token_type == TokenType::Semicolon
        || starts_statement(tokens[c.current].token_type)) {
        lemma_skipped(tokens, advance(tokens, c));
    }
}

proof fn lemma_print_statement(tokens: Seq<Token>, c: Cursor)
    requires
        within(tokens, c),
    ensures
        reaches(tokens, c, print_statement(tokens, c).cursor),
{
}

proof fn lemma_return_statement(tokens: Seq<Token>, c: Cursor, keyword: Token)
    requires
        within(tokens, c),
    ensures
        reaches(tokens, c, return_statement(tokens, c, keyword).cursor),
{
}

proof fn lemma_while_statement(tokens: Seq<Token>, c: Cursor)
    requires
        within(tokens, c),
    ensures
        reaches(tokens, c, while_statement(tokens, c).cursor),
{
}

proof fn lemma_if_statement(tokens: Seq<Token>, c: Cursor)
    requires
        within(tokens, c),
    ensures
        reaches(tokens, c, if_statement(tokens, c).cursor),
{
}

proof fn lemma_for_statement(tokens: Seq<Token>, c: Cursor)
    requires
        within(tokens, c),
    ensures
        reaches(tokens, c, for_statement(tokens, c).cursor),
{
}

proof fn lemma_block(tokens: Seq<Token>, c: Cursor)
    requires
        within(tokens, c),
    ensures
        reaches(tokens, c, block(tokens, c).cursor),
{
}

/// A statement ends at or after its start and within the tokens, and
/// where it is parsed at least one token has been taken.
pub proof fn lemma_statement(tokens: Seq<Token>, c: Cursor)
    requires
        within(tokens, c),
    ensures
        advances(tokens, c, statement(tokens, c)),
{
    let past = settled(advance(tokens, c));
    match kind(tokens, c) {
        TokenType::For => lemma_for_statement(tokens, past),
        TokenType::If => lemma_if_statement(tokens, past),
        TokenType::Print => lemma_print_statement(tokens, past),
        TokenType::Return => lemma_return_statement(tokens, past, tokens[c.current]),
        TokenType::While => lemma_while_statement(tokens, past),
        TokenType::LeftBrace => lemma_block(tokens, past),
        _ => lemma_expression_statement(tokens, c),
    }
}

/// A declaration that starts before the end takes at least one token,
/// whether it is parsed or recovered from: so the list of declarations
/// never stops before the end of the tokens or of its block.
pub proof fn lemma_declaration(tokens: Seq<Token>, c: Cursor)
    requires
        within(tokens, c),
    ensures
        reaches(tokens, c, declaration(tokens, c).cursor),
        !at_end(tokens, c) ==> c.current < declaration(tokens, c).cursor.current,
{
    lemma_statement(tokens, c);
    let past = advance(tokens, c);
    let declared = if check(tokens, c, TokenType::Fun) {
        let declared = function(tokens, past);
        Parsed { cursor: onward(tokens, past, declared.cursor), node: declared.node }
    } else if check(tokens, c, TokenType::Var) {
        let declared = var_declaration(tokens, past);
        Parsed { cursor: onward(tokens, past, declared.cursor), node: declared.node }
    } else {
        let declared = statement(tokens, c);
        Parsed { cursor: onward(tokens, c, declared.cursor), node: declared.node }
    };
    lemma_skipped(tokens, advance(tokens, declared.cursor));
}

proof fn lemma_declarations(tokens: Seq<Token>, c: Cursor, inside: bool, list: Seq<StmtModel>)
    requires
        within(tokens, c),
    ensures
        reaches(tokens, c, declarations(tokens, c, inside, list).cursor),
        at_end(tokens, declarations(tokens, c, inside, list).cursor) || (inside && check(
            tokens,
            declarations(tokens, c, inside, list).cursor,
            TokenType::RightBrace,
        )),
    decreases left(tokens, c),
{
    if !(at_end(tokens, c) || (inside && check(tokens, c, TokenType::RightBrace))) {
        lemma_declaration(tokens, c);
        let declared = declaration(tokens, c);
        let after = onward(tokens, c, declared.cursor);
        let list = match declared.node {
            Some(statement) => list.push(statement),
            None => list,
        };
        lemma_declarations(tokens, after, inside, list);
    }
}

/// A program is parsed up to the end of its tokens.
pub proof fn lemma_program(tokens: Seq<Token>, c: Cursor)
    requires
        within(tokens, c),
    ensures
        reaches(tokens, c, program(tokens, c).cursor),
        at_end(tokens, program(tokens, c).cursor),
{
    lemma_declarations(tokens, c, false, Seq::empty());
}

} // verus!
