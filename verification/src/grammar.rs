//! What the parser makes of a token list: the grammar, as functions from
//! a position in the tokens to a tree and the position after it.

use vstd::prelude::*;
use crate::error::token_diagnostic;
use crate::expression::ExprModel;
use crate::statement::StmtModel;
use crate::token::{Token, TokenType};
use crate::value::Value;

verus! {

/// Where a parse stands: the index of the next token, whether the input
/// still looks like a bare expression, and the diagnostics reported so
/// far.
pub ghost struct Cursor {
    pub current: int,
    pub is_expression: bool,
    pub errors: Seq<Seq<char>>,
}

/// The outcome of a parsing function: where the parse stands afterwards,
/// and the node, unless a syntax error was reported instead.
pub ghost struct Parsed<T> {
    pub cursor: Cursor,
    pub node: Option<T>,
}

/// The outcome of a parsing function that always yields its list.
pub ghost struct Listed<T> {
    pub cursor: Cursor,
    pub list: Seq<T>,
}

/// The binary operators by precedence, lowest first.
#[derive(Debug, Clone, Copy, PartialEq, Eq, Structural)]
pub enum Level {
    Or,
    And,
    Equality,
    Comparison,
    Term,
    Factor,
}

impl Level {
    /// The place of the level among the parsing functions: what binds
    /// tighter has a smaller rank.
    pub open spec fn rank(self) -> int {
        match self {
            Level::Or => 20,
            Level::And => 18,
            Level::Equality => 16,
            Level::Comparison => 14,
            Level::Term => 12,
            Level::Factor => 10,
        }
    }

    /// Whether a token of the kind `token_type` is an operator of the
    /// level.
    pub open spec fn has(self, token_type: TokenType) -> bool {
        match self {
            Level::Or => token_type == TokenType::Or,
            Level::And => token_type == TokenType::And,
            Level::Equality => token_type == TokenType::BangEqual || token_type
                == TokenType::EqualEqual,
            Level::Comparison => token_type == TokenType::Greater || token_type
                == TokenType::GreaterEqual || token_type == TokenType::Less || token_type
                == TokenType::LessEqual,
            Level::Term => token_type == TokenType::Minus || token_type == TokenType::Plus,
            Level::Factor => token_type == TokenType::Slash || token_type == TokenType::Star,
        }
    }

    /// The node of an operator of the level.
    pub open spec fn join(self, left: ExprModel, operator: Token, right: ExprModel) -> ExprModel {
        if self == Level::Or || self == Level::And {
            ExprModel::Logical { left: Box::new(left), operator, right: Box::new(right) }
        } else {
            ExprModel::Binary { left: Box::new(left), operator, right: Box::new(right) }
        }
    }
}

/// Whether the parse stands at the end of the tokens.
pub open spec fn at_end(tokens: Seq<Token>, c: Cursor) -> bool {
    !(0 <= c.current < tokens.len()) || tokens[c.current].token_type == TokenType::Eof
}

/// The kind of the next token; `Eof` at the end.
pub open spec fn kind(tokens: Seq<Token>, c: Cursor) -> TokenType {
    if at_end(tokens, c) {
        TokenType::Eof
    } else {
        tokens[c.current].token_type
    }
}

/// Whether the next token is of the kind `token_type`. Nothing is at the
/// end.
pub open spec fn check(tokens: Seq<Token>, c: Cursor, token_type: TokenType) -> bool {
    !at_end(tokens, c) && tokens[c.current].token_type == token_type
}

/// The parse after the next token, which the end-of-input token never is.
pub open spec fn advance(tokens: Seq<Token>, c: Cursor) -> Cursor {
    if at_end(tokens, c) {
        c
    } else {
        Cursor { current: c.current + 1, ..c }
    }
}

/// The parse with one more diagnostic, which points at the token at `at`.
pub open spec fn report(tokens: Seq<Token>, c: Cursor, at: int, message: Seq<char>) -> Cursor {
    Cursor { errors: c.errors.push(token_diagnostic(tokens[at], message)), ..c }
}

/// The parse with one more diagnostic, which points at the next token.
pub open spec fn complain(tokens: Seq<Token>, c: Cursor, message: Seq<char>) -> Cursor {
    report(tokens, c, c.current, message)
}

/// The parse after a token that has to be of the kind `token_type`: past
/// it, or with a diagnostic where another token stands there.
pub open spec fn consume(tokens: Seq<Token>, c: Cursor, token_type: TokenType, message: Seq<char>) -> Cursor {
    if check(tokens, c, token_type) {
        advance(tokens, c)
    } else {
        complain(tokens, c, message)
    }
}

/// The parse once the input is known to be no bare expression.
pub open spec fn settled(c: Cursor) -> Cursor {
    Cursor { is_expression: false, ..c }
}

/// How many tokens are left.
pub open spec fn left(tokens: Seq<Token>, c: Cursor) -> int {
    tokens.len() - c.current
}

/// The parse `to` that a parsing function has come to from `from`. No
/// parsing function goes back or past the end, so this is `to`; it says
/// so where the definition of another parsing function depends on it.
pub open spec fn onward(tokens: Seq<Token>, from: Cursor, to: Cursor) -> Cursor {
    if from.current <= to.current <= tokens.len() {
        to
    } else {
        Cursor { current: from.current, ..to }
    }
}

/// The outcome of a parsing function that reports `message` at the next
/// token and yields nothing.
pub open spec fn failed<T>(tokens: Seq<Token>, c: Cursor, message: Seq<char>) -> Parsed<T> {
    Parsed { cursor: complain(tokens, c, message), node: None }
}

/// `primary := "true" | "false" | "nil" | NUMBER | STRING | IDENT | "(" expression ")"`
pub open spec fn primary(tokens: Seq<Token>, c: Cursor) -> Parsed<ExprModel>
    decreases left(tokens, c), 3int,
{
    let token = tokens[c.current];
    let past = advance(tokens, c);
    match kind(tokens, c) {
        TokenType::False => Parsed {
            cursor: past,
            node: Some(ExprModel::Literal { value: Value::Bool(false) }),
        },
        TokenType::True => Parsed {
            cursor: past,
            node: Some(ExprModel::Literal { value: Value::Bool(true) }),
        },
        TokenType::Nil => Parsed { cursor: past, node: Some(ExprModel::Literal { value: Value::Nil }) },
        TokenType::Number => Parsed {
            cursor: past,
            node: Some(ExprModel::Literal { value: token.literal }),
        },
        TokenType::String => Parsed {
            cursor: past,
            node: Some(ExprModel::Literal { value: token.literal }),
        },
        TokenType::Identifier => Parsed {
            cursor: past,
            node: Some(ExprModel::Variable { name: token }),
        },
        TokenType::LeftParen => {
            let inner = expression(tokens, past);
            let at = onward(tokens, past, inner.cursor);
            match inner.node {
                Some(expression) => if check(tokens, at, TokenType::RightParen) {
                    Parsed {
                        cursor: advance(tokens, at),
                        node: Some(ExprModel::Grouping { expression: Box::new(expression) }),
                    }
                } else {
                    failed(tokens, at, "Expect ')' after expression."@)
                },
                None => Parsed { cursor: at, node: None },
            }
        },
        _ => failed(tokens, c, "Expect expression."@),
    }
}

/// The arguments after the first: `( "," expression )*`. More than 255
/// arguments are reported and parsed all the same.
pub open spec fn arguments_rest(tokens: Seq<Token>, c: Cursor, list: Seq<ExprModel>) -> Parsed<
    Seq<ExprModel>,
>
    decreases left(tokens, c), 39int,
{
    if check(tokens, c, TokenType::Comma) {
        let past = advance(tokens, c);
        let start = if list.len() >= 255 {
            complain(tokens, past, "Can't have more than 255 arguments."@)
        } else {
            past
        };
        let argument = expression(tokens, start);
        let after = onward(tokens, start, argument.cursor);
        match argument.node {
            Some(argument) => arguments_rest(tokens, after, list.push(argument)),
            None => Parsed { cursor: after, node: None },
        }
    } else {
        Parsed { cursor: c, node: Some(list) }
    }
}

/// The rest of a call, after its opening parenthesis:
/// `arguments? ")"`.
pub open spec fn finish_call(tokens: Seq<Token>, c: Cursor, callee: ExprModel) -> Parsed<ExprModel>
    decreases left(tokens, c), 40int,
{
    let arguments = if check(tokens, c, TokenType::RightParen) {
        Parsed { cursor: c, node: Some(Seq::empty()) }
    } else {
        let first = expression(tokens, c);
        let after = onward(tokens, c, first.cursor);
        match first.node {
            Some(first) => {
                let rest = arguments_rest(tokens, after, seq![first]);
                Parsed { cursor: onward(tokens, after, rest.cursor), node: rest.node }
            },
            None => Parsed { cursor: after, node: None },
        }
    };
    match arguments.node {
        Some(list) => {
            if check(tokens, arguments.cursor, TokenType::RightParen) {
                Parsed {
                    cursor: advance(tokens, arguments.cursor),
                    node: Some(
                        ExprModel::Call {
                            callee: Box::new(callee),
                            paren: tokens[arguments.cursor.current],
                            arguments: list,
                        },
                    ),
                }
            } else {
                failed(tokens, arguments.cursor, "Expect ')' after arguments."@)
            }
        },
        None => Parsed { cursor: arguments.cursor, node: None },
    }
}

/// The calls that follow a callee: `( "(" arguments? ")" )*`.
pub open spec fn call_rest(tokens: Seq<Token>, c: Cursor, callee: ExprModel) -> Parsed<ExprModel>
    decreases left(tokens, c), 2int,
{
    if check(tokens, c, TokenType::LeftParen) {
        let past = advance(tokens, c);
        let called = finish_call(tokens, past, callee);
        let after = onward(tokens, past, called.cursor);
        match called.node {
            Some(called) => call_rest(tokens, after, called),
            None => Parsed { cursor: after, node: None },
        }
    } else {
        Parsed { cursor: c, node: Some(callee) }
    }
}

/// `call := primary ( "(" arguments? ")" )*`
pub open spec fn call(tokens: Seq<Token>, c: Cursor) -> Parsed<ExprModel>
    decreases left(tokens, c), 4int,
{
    let callee = primary(tokens, c);
    let after = onward(tokens, c, callee.cursor);
    match callee.node {
        Some(callee) => call_rest(tokens, after, callee),
        None => Parsed { cursor: after, node: None },
    }
}

/// `unary := ("!" | "-") unary | call`
pub open spec fn unary(tokens: Seq<Token>, c: Cursor) -> Parsed<ExprModel>
    decreases left(tokens, c), 5int,
{
    if check(tokens, c, TokenType::Bang) || check(tokens, c, TokenType::Minus) {
        let past = advance(tokens, c);
        let right = unary(tokens, past);
        Parsed {
            cursor: onward(tokens, past, right.cursor),
            node: match right.node {
                Some(right) => Some(
                    ExprModel::Unary { operator: tokens[c.current], right: Box::new(right) },
                ),
                None => None,
            },
        }
    } else {
        call(tokens, c)
    }
}

/// An operand of an operator of `level`: an expression that binds
/// tighter.
pub open spec fn operand(tokens: Seq<Token>, c: Cursor, level: Level) -> Parsed<ExprModel>
    decreases left(tokens, c), level.rank() - 1,
{
    match level {
        Level::Or => infix(tokens, c, Level::And),
        Level::And => infix(tokens, c, Level::Equality),
        Level::Equality => infix(tokens, c, Level::Comparison),
        Level::Comparison => infix(tokens, c, Level::Term),
        Level::Term => infix(tokens, c, Level::Factor),
        Level::Factor => unary(tokens, c),
    }
}

/// The operators of `level` that follow a left operand, and their right
/// operands; the operators associate to the left.
pub open spec fn infix_rest(tokens: Seq<Token>, c: Cursor, level: Level, node: ExprModel) -> Parsed<
    ExprModel,
>
    decreases left(tokens, c), level.rank() - 1,
{
    if level.has(kind(tokens, c)) {
        let past = advance(tokens, c);
        let right = operand(tokens, past, level);
        let after = onward(tokens, past, right.cursor);
        match right.node {
            Some(right) => infix_rest(
                tokens,
                after,
                level,
                level.join(node, tokens[c.current], right),
            ),
            None => Parsed { cursor: after, node: None },
        }
    } else {
        Parsed { cursor: c, node: Some(node) }
    }
}

/// The expressions of one level of binary operators, from
/// `logic_or := logic_and ( "or" logic_and )*` down to
/// `factor := unary ( ("*" | "/") unary )*`.
pub open spec fn infix(tokens: Seq<Token>, c: Cursor, level: Level) -> Parsed<ExprModel>
    decreases left(tokens, c), level.rank(),
{
    let first = operand(tokens, c, level);
    let after = onward(tokens, c, first.cursor);
    match first.node {
        Some(first) => infix_rest(tokens, after, level, first),
        None => Parsed { cursor: after, node: None },
    }
}

/// `assignment := ( IDENT "=" assignment ) | logic_or`. A target that is
/// no variable is reported at the `=`; the parse goes on, and the target
/// stands for the whole.
pub open spec fn assignment(tokens: Seq<Token>, c: Cursor) -> Parsed<ExprModel>
    decreases left(tokens, c), 30int,
{
    let target = infix(tokens, c, Level::Or);
    let at = onward(tokens, c, target.cursor);
    match target.node {
        Some(target) => if check(tokens, at, TokenType::Equal) {
            let past = advance(tokens, at);
            let value = assignment(tokens, past);
            let after = onward(tokens, past, value.cursor);
            match value.node {
                Some(value) => match target {
                    ExprModel::Variable { name } => Parsed {
                        cursor: after,
                        node: Some(ExprModel::Assign { name, value: Box::new(value) }),
                    },
                    _ => Parsed {
                        cursor: report(tokens, after, at.current, "Invalid assignment target."@),
                        node: Some(target),
                    },
                },
                None => Parsed { cursor: after, node: None },
            }
        } else {
            Parsed { cursor: at, node: Some(target) }
        },
        None => Parsed { cursor: at, node: None },
    }
}

/// `expression := assignment`
pub open spec fn expression(tokens: Seq<Token>, c: Cursor) -> Parsed<ExprModel>
    decreases left(tokens, c), 31int,
{
    assignment(tokens, c)
}

/// The outcome of a statement that ends with a semicolon: the statement
/// past the semicolon, or `message` where none stands there.
pub open spec fn terminated(tokens: Seq<Token>, c: Cursor, node: StmtModel, message: Seq<char>) -> Parsed<
    StmtModel,
> {
    if check(tokens, c, TokenType::Semicolon) {
        Parsed { cursor: advance(tokens, c), node: Some(node) }
    } else {
        failed(tokens, c, message)
    }
}

/// `exprStmt := expression ";"`. The semicolon may be missing as long as
/// the input looks like a bare expression; a semicolon ends that.
pub open spec fn expression_statement(tokens: Seq<Token>, c: Cursor) -> Parsed<StmtModel>
    decreases left(tokens, c), 45int,
{
    let value = expression(tokens, c);
    let at = onward(tokens, c, value.cursor);
    match value.node {
        Some(expression) => if check(tokens, at, TokenType::Semicolon) {
            Parsed {
                cursor: settled(advance(tokens, at)),
                node: Some(StmtModel::Expression { expression }),
            }
        } else if at.is_expression {
            Parsed { cursor: at, node: Some(StmtModel::Expression { expression }) }
        } else {
            failed(tokens, at, "Expect ';' after expression."@)
        },
        None => Parsed { cursor: at, node: None },
    }
}

/// `printStmt := "print" expression ";"`, after the keyword.
pub open spec fn print_statement(tokens: Seq<Token>, c: Cursor) -> Parsed<StmtModel>
    decreases left(tokens, c), 80int,
{
    let value = expression(tokens, c);
    let at = onward(tokens, c, value.cursor);
    match value.node {
        Some(expression) => terminated(
            tokens,
            at,
            StmtModel::Print { expression },
            "Expect ';' after value."@,
        ),
        None => Parsed { cursor: at, node: None },
    }
}

/// `returnStmt := "return" expression? ";"`, after the keyword.
pub open spec fn return_statement(tokens: Seq<Token>, c: Cursor, keyword: Token) -> Parsed<StmtModel>
    decreases left(tokens, c), 80int,
{
    if check(tokens, c, TokenType::Semicolon) {
        Parsed {
            cursor: advance(tokens, c),
            node: Some(StmtModel::Return { keyword, value: None }),
        }
    } else {
        let value = expression(tokens, c);
        let at = onward(tokens, c, value.cursor);
        match value.node {
            Some(value) => terminated(
                tokens,
                at,
                StmtModel::Return { keyword, value: Some(value) },
                "Expect ';' after return value."@,
            ),
            None => Parsed { cursor: at, node: None },
        }
    }
}

/// A condition in parentheses: `"(" expression ")"`. `opening` is
/// reported where the opening parenthesis is missing.
pub open spec fn condition(tokens: Seq<Token>, c: Cursor, opening: Seq<char>) -> Parsed<ExprModel>
    decreases left(tokens, c), 79int,
{
    if check(tokens, c, TokenType::LeftParen) {
        let past = advance(tokens, c);
        let inner = expression(tokens, past);
        let at = onward(tokens, past, inner.cursor);
        match inner.node {
            Some(inner) => if check(tokens, at, TokenType::RightParen) {
                Parsed { cursor: advance(tokens, at), node: Some(inner) }
            } else {
                failed(tokens, at, "Expect ')' after condition."@)
            },
            None => Parsed { cursor: at, node: None },
        }
    } else {
        failed(tokens, c, opening)
    }
}

/// `whileStmt := "while" "(" expression ")" statement`, after the keyword.
pub open spec fn while_statement(tokens: Seq<Token>, c: Cursor) -> Parsed<StmtModel>
    decreases left(tokens, c), 80int,
{
    let tested = condition(tokens, c, "Expect '(' after 'while'."@);
    let at = onward(tokens, c, tested.cursor);
    match tested.node {
        Some(condition) => {
            let body = statement(tokens, at);
            Parsed {
                cursor: onward(tokens, at, body.cursor),
                node: match body.node {
                    Some(body) => Some(StmtModel::While { condition, body: Box::new(body) }),
                    None => None,
                },
            }
        },
        None => Parsed { cursor: at, node: None },
    }
}

/// `ifStmt := "if" "(" expression ")" statement ( "else" statement )?`,
/// after the keyword. An `else` belongs to the nearest `if`.
pub open spec fn if_statement(tokens: Seq<Token>, c: Cursor) -> Parsed<StmtModel>
    decreases left(tokens, c), 80int,
{
    let tested = condition(tokens, c, "Expect '(' after 'if'."@);
    let at = onward(tokens, c, tested.cursor);
    match tested.node {
        Some(condition) => {
            let then_branch = statement(tokens, at);
            let after = onward(tokens, at, then_branch.cursor);
            match then_branch.node {
                Some(then_branch) => if check(tokens, after, TokenType::Else) {
                    let past = advance(tokens, after);
                    let else_branch = statement(tokens, past);
                    Parsed {
                        cursor: onward(tokens, past, else_branch.cursor),
                        node: match else_branch.node {
                            Some(else_branch) => Some(
                                StmtModel::If {
                                    condition,
                                    then_branch: Box::new(then_branch),
                                    else_branch: Some(Box::new(else_branch)),
                                },
                            ),
                            None => None,
                        },
                    }
                } else {
                    Parsed {
                        cursor: after,
                        node: Some(
                            StmtModel::If {
                                condition,
                                then_branch: Box::new(then_branch),
                                else_branch: None,
                            },
                        ),
                    }
                },
                None => Parsed { cursor: after, node: None },
            }
        },
        None => Parsed { cursor: at, node: None },
    }
}

/// What a `for` statement stands for: the initializer, then a `while`
/// over the condition, or over `true` where there is none, whose body is
/// followed by the increment.
pub open spec fn lowered(
    initializer: Option<StmtModel>,
    condition: Option<ExprModel>,
    increment: Option<ExprModel>,
    body: StmtModel,
) -> StmtModel {
    let stepped = match increment {
        Some(expression) => StmtModel::Block {
            statements: seq![body, StmtModel::Expression { expression }],
        },
        None => body,
    };
    let repeated = StmtModel::While {
        condition: match condition {
            Some(condition) => condition,
            None => ExprModel::Literal { value: Value::Bool(true) },
        },
        body: Box::new(stepped),
    };
    match initializer {
        Some(initializer) => StmtModel::Block { statements: seq![initializer, repeated] },
        None => repeated,
    }
}

/// The first clause of a `for`: `varDecl | exprStmt | ";"`.
pub open spec fn for_initializer(tokens: Seq<Token>, c: Cursor) -> Parsed<Option<StmtModel>>
    decreases left(tokens, c), 79int,
{
    if check(tokens, c, TokenType::Semicolon) {
        Parsed { cursor: advance(tokens, c), node: Some(None) }
    } else if check(tokens, c, TokenType::Var) {
        let declared = var_declaration(tokens, advance(tokens, c));
        Parsed {
            cursor: onward(tokens, advance(tokens, c), declared.cursor),
            node: match declared.node {
                Some(statement) => Some(Some(statement)),
                None => None,
            },
        }
    } else {
        let stated = expression_statement(tokens, c);
        Parsed {
            cursor: onward(tokens, c, stated.cursor),
            node: match stated.node {
                Some(statement) => Some(Some(statement)),
                None => None,
            },
        }
    }
}

/// A clause of a `for` that may be empty, with the token that ends it: an
/// expression, unless a token of the kind `closing` stands there, then
/// that token, or `message` where it is missing.
pub open spec fn for_clause(tokens: Seq<Token>, c: Cursor, closing: TokenType, message: Seq<char>) -> Parsed<
    Option<ExprModel>,
>
    decreases left(tokens, c), 79int,
{
    if check(tokens, c, closing) {
        Parsed { cursor: advance(tokens, c), node: Some(None) }
    } else {
        let clause = expression(tokens, c);
        let at = onward(tokens, c, clause.cursor);
        match clause.node {
            Some(expression) => if check(tokens, at, closing) {
                Parsed { cursor: advance(tokens, at), node: Some(Some(expression)) }
            } else {
                failed(tokens, at, message)
            },
            None => Parsed { cursor: at, node: None },
        }
    }
}

/// `forStmt := "for" "(" ( varDecl | exprStmt | ";" ) expression? ";" expression? ")" statement`,
/// after the keyword.
pub open spec fn for_statement(tokens: Seq<Token>, c: Cursor) -> Parsed<StmtModel>
    decreases left(tokens, c), 80int,
{
    if check(tokens, c, TokenType::LeftParen) {
        let opened = advance(tokens, c);
        let initializer = for_initializer(tokens, opened);
        let first = onward(tokens, opened, initializer.cursor);
        match initializer.node {
            None => Parsed { cursor: first, node: None },
            Some(initializer) => {
                let condition = for_clause(
                    tokens,
                    first,
                    TokenType::Semicolon,
                    "Expect ';' after loop condition."@,
                );
                let second = onward(tokens, first, condition.cursor);
                match condition.node {
                    None => Parsed { cursor: second, node: None },
                    Some(condition) => {
                        let increment = for_clause(
                            tokens,
                            second,
                            TokenType::RightParen,
                            "Expect ')' after for clauses."@,
                        );
                        let third = onward(tokens, second, increment.cursor);
                        match increment.node {
                            None => Parsed { cursor: third, node: None },
                            Some(increment) => {
                                let body = statement(tokens, third);
                                Parsed {
                                    cursor: onward(tokens, third, body.cursor),
                                    node: match body.node {
                                        Some(body) => Some(
                                            lowered(initializer, condition, increment, body),
                                        ),
                                        None => None,
                                    },
                                }
                            },
                        }
                    },
                }
            },
        }
    } else {
        failed(tokens, c, "Expect '(' after 'for'."@)
    }
}

/// `varDecl := "var" IDENT ( "=" expression )? ";"`, after the keyword. A
/// variable without an initializer starts out uninitialized.
pub open spec fn var_declaration(tokens: Seq<Token>, c: Cursor) -> Parsed<StmtModel>
    decreases left(tokens, c), 46int,
{
    let c = settled(c);
    if check(tokens, c, TokenType::Identifier) {
        let name = tokens[c.current];
        let named = advance(tokens, c);
        if check(tokens, named, TokenType::Equal) {
            let past = advance(tokens, named);
            let value = expression(tokens, past);
            let at = onward(tokens, past, value.cursor);
            match value.node {
                Some(initializer) => terminated(
                    tokens,
                    at,
                    StmtModel::Var { name, initializer },
                    "Expect ';' after variable declaration."@,
                ),
                None => Parsed { cursor: at, node: None },
            }
        } else {
            terminated(
                tokens,
                named,
                StmtModel::Var {
                    name,
                    initializer: ExprModel::Literal { value: Value::Unitialized },
                },
                "Expect ';' after variable declaration."@,
            )
        }
    } else {
        failed(tokens, c, "Expect variable name."@)
    }
}

/// `params := IDENT ( "," IDENT )*`. More than 255 parameters are
/// reported and parsed all the same.
pub open spec fn parameters(tokens: Seq<Token>, c: Cursor, list: Seq<Token>) -> Parsed<Seq<Token>>
    decreases left(tokens, c),
{
    let start = if list.len() >= 255 {
        complain(tokens, c, "Can't have more than 255 parameters."@)
    } else {
        c
    };
    if check(tokens, start, TokenType::Identifier) {
        let named = advance(tokens, start);
        let list = list.push(tokens[start.current]);
        if check(tokens, named, TokenType::Comma) {
            parameters(tokens, advance(tokens, named), list)
        } else {
            Parsed { cursor: named, node: Some(list) }
        }
    } else {
        failed(tokens, start, "Expect parameter name."@)
    }
}

/// The parameter list of a function and the brace that opens its body:
/// `"(" params? ")" "{"`.
pub open spec fn signature(tokens: Seq<Token>, c: Cursor) -> Parsed<Seq<Token>> {
    if check(tokens, c, TokenType::LeftParen) {
        let opened = advance(tokens, c);
        let params = if check(tokens, opened, TokenType::RightParen) {
            Parsed { cursor: opened, node: Some(Seq::empty()) }
        } else {
            parameters(tokens, opened, Seq::empty())
        };
        match params.node {
            Some(list) => if check(tokens, params.cursor, TokenType::RightParen) {
                let closed = advance(tokens, params.cursor);
                if check(tokens, closed, TokenType::LeftBrace) {
                    Parsed { cursor: advance(tokens, closed), node: Some(list) }
                } else {
                    failed(tokens, closed, "Expect '{' before function body."@)
                }
            } else {
                failed(tokens, params.cursor, "Expect ')' after parameters."@)
            },
            None => params,
        }
    } else {
        failed(tokens, c, "Expect '(' after function name."@)
    }
}

/// `funDecl := "fun" IDENT "(" params? ")" block`, after the keyword.
pub open spec fn function(tokens: Seq<Token>, c: Cursor) -> Parsed<StmtModel>
    decreases left(tokens, c), 80int,
{
    let c = settled(c);
    if check(tokens, c, TokenType::Identifier) {
        let name = tokens[c.current];
        let named = advance(tokens, c);
        let signed = signature(tokens, named);
        let at = onward(tokens, named, signed.cursor);
        match signed.node {
            Some(params) => {
                let body = block(tokens, at);
                Parsed {
                    cursor: onward(tokens, at, body.cursor),
                    node: match body.node {
                        Some(body) => Some(StmtModel::Function { name, params, body }),
                        None => None,
                    },
                }
            },
            None => Parsed { cursor: at, node: None },
        }
    } else {
        failed(tokens, c, "Expect function name."@)
    }
}

/// The declarations up to the end of the tokens or, `inside` a block, up
/// to its closing brace. A declaration that fails leaves nothing in the
/// list. The list would end where a declaration took no token; every
/// declaration takes one.
pub open spec fn declarations(tokens: Seq<Token>, c: Cursor, inside: bool, list: Seq<StmtModel>) -> Listed<
    StmtModel,
>
    decreases left(tokens, c), 70int,
{
    if at_end(tokens, c) || (inside && check(tokens, c, TokenType::RightBrace)) {
        Listed { cursor: c, list }
    } else {
        let declared = declaration(tokens, c);
        let after = onward(tokens, c, declared.cursor);
        let list = match declared.node {
            Some(statement) => list.push(statement),
            None => list,
        };
        if after.current > c.current {
            declarations(tokens, after, inside, list)
        } else {
            Listed { cursor: after, list }
        }
    }
}

/// `block := "{" declaration* "}"`, after the opening brace.
pub open spec fn block(tokens: Seq<Token>, c: Cursor) -> Parsed<Seq<StmtModel>>
    decreases left(tokens, c), 75int,
{
    let body = declarations(tokens, c, true, Seq::empty());
    let at = onward(tokens, c, body.cursor);
    if check(tokens, at, TokenType::RightBrace) {
        Parsed { cursor: advance(tokens, at), node: Some(body.list) }
    } else {
        failed(tokens, at, "Expect '}' after block."@)
    }
}

/// `statement := exprStmt | printStmt | block | ifStmt | whileStmt | forStmt | returnStmt`.
/// A keyword or a brace settles that the input is no bare expression.
pub open spec fn statement(tokens: Seq<Token>, c: Cursor) -> Parsed<StmtModel>
    decreases left(tokens, c), 50int,
{
    let past = settled(advance(tokens, c));
    match kind(tokens, c) {
        TokenType::For => for_statement(tokens, past),
        TokenType::If => if_statement(tokens, past),
        TokenType::Print => print_statement(tokens, past),
        TokenType::Return => return_statement(tokens, past, tokens[c.current]),
        TokenType::While => while_statement(tokens, past),
        TokenType::LeftBrace => {
            let body = block(tokens, past);
            Parsed {
                cursor: body.cursor,
                node: match body.node {
                    Some(statements) => Some(StmtModel::Block { statements }),
                    None => None,
                },
            }
        },
        _ => expression_statement(tokens, c),
    }
}

/// Whether a statement starts with a token of the kind `token_type`.
pub open spec fn starts_statement(token_type: TokenType) -> bool {
    token_type == TokenType::Class || token_type == TokenType::Fun || token_type == TokenType::For
        || token_type == TokenType::If || token_type == TokenType::Print || token_type
        == TokenType::Return || token_type == TokenType::Var || token_type == TokenType::While
}

/// The parse after the tokens that recovery drops: those up to the end,
/// up to and with a semicolon, or up to the start of a statement.
pub open spec fn skipped(tokens: Seq<Token>, c: Cursor) -> Cursor
    decreases left(tokens, c),
{
    if at_end(tokens, c) || tokens[c.current - 1].token_type == TokenType::Semicolon
        || starts_statement(tokens[c.current].token_type) {
        c
    } else {
        skipped(tokens, advance(tokens, c))
    }
}

/// The parse after recovery from a syntax error: one token is dropped,
/// then those that [`skipped`] drops.
pub open spec fn synchronize(tokens: Seq<Token>, c: Cursor) -> Cursor {
    skipped(tokens, advance(tokens, c))
}

/// `declaration := funDecl | varDecl | statement`. After a syntax error
/// the parse recovers.
pub open spec fn declaration(tokens: Seq<Token>, c: Cursor) -> Parsed<StmtModel>
    decreases left(tokens, c), 60int,
{
    let past = advance(tokens, c);
    let declared = if check(tokens, c, TokenType::Fun) {
        let declared = function(tokens, past);
        Parsed { cursor: onward(tokens, past, declared.cursor), node: declared.node }
    } else if check(tokens, c, TokenType::Var) {
        let declared = var_declaration(tokens, past);
        Parsed { cursor: onward(tokens, past, declared.cursor), node: declared.node }
    } else {
        let declared = statement(tokens, c);
        Parsed { cursor: onward(tokens, c, declared.cursor), node: declared.node }
    };
    match declared.node {
        Some(_) => declared,
        None => Parsed { cursor: synchronize(tokens, declared.cursor), node: None },
    }
}

/// `program := declaration* EOF`
pub open spec fn program(tokens: Seq<Token>, c: Cursor) -> Listed<StmtModel> {
    declarations(tokens, c, false, Seq::empty())
}

} // verus!
