//! The recursive-descent parser.

use vstd::prelude::*;
use vstd::string::*;
use crate::error::{ErrorHandler, ParserError};
use crate::grammar_laws::lemma_declaration;
use crate::grammar::{
    advance, arguments_rest, assignment, at_end, block, call, call_rest, check, complain,
    condition, consume, declaration, declarations, expression, expression_statement,
    finish_call, for_clause, for_initializer, for_statement, function, if_statement, infix,
    infix_rest, kind, left, lowered, operand, parameters, primary, print_statement, program,
    report, return_statement, signature, skipped, starts_statement, statement, synchronize,
    unary, var_declaration, while_statement, Cursor, Level, Listed, Parsed,
};
use crate::expression::{expr_models, lemma_call_model, Expr, ExprModel};
use crate::statement::{lemma_block_model, lemma_function_model, stmt_models, Stmt, StmtModel};
use crate::token::{Token, TokenType};
use crate::value::Value;

verus! {

/// The node of an outcome.
pub open spec fn expr_node(r: Result<Expr, ParserError>) -> Option<ExprModel> {
    match r {
        Ok(expr) => Some(expr@),
        Err(_) => None,
    }
}

/// The node of an outcome.
pub open spec fn stmt_node(r: Result<Stmt, ParserError>) -> Option<StmtModel> {
    match r {
        Ok(stmt) => Some(stmt@),
        Err(_) => None,
    }
}

/// The node of an outcome that may be empty.
pub open spec fn optional_expr_node(r: Result<Option<Expr>, ParserError>) -> Option<
    Option<ExprModel>,
> {
    match r {
        Ok(Some(expr)) => Some(Some(expr@)),
        Ok(None) => Some(None),
        Err(_) => None,
    }
}

/// The node of an outcome that may be empty.
pub open spec fn optional_stmt_node(r: Result<Option<Stmt>, ParserError>) -> Option<
    Option<StmtModel>,
> {
    match r {
        Ok(Some(stmt)) => Some(Some(stmt@)),
        Ok(None) => Some(None),
        Err(_) => None,
    }
}

/// A recursive-descent parser over a token list that ends with the
/// end-of-input token. Syntax errors are collected; after one the parser
/// drops tokens up to the next statement and goes on.
pub struct Parser {
    tokens: Vec<Token>,
    current: usize,
    is_expression: bool,
    errors: ErrorHandler,
}

impl Parser {
    /// The tokens.
    pub closed spec fn tokens(&self) -> Seq<Token> {
        self.tokens@
    }

    /// Where the parse stands.
    pub closed spec fn cursor(&self) -> Cursor {
        Cursor {
            current: self.current as int,
            is_expression: self.is_expression,
            errors: self.errors@.lines,
        }
    }

    /// Whether the parser is one that [`Parser::new`] and the methods
    /// below can have made: its tokens end with the end-of-input token,
    /// and it stands at one of them.
    pub closed spec fn wf(&self) -> bool {
        &&& 0 < self.tokens@.len() <= usize::MAX
        &&& self.tokens@.last().token_type == TokenType::Eof
        &&& self.current < self.tokens@.len()
        &&& self.errors@.had_error == (self.errors@.lines.len() > 0)
    }

    /// Whether the parser has come here from `before`: over the same
    /// tokens, and not backwards.
    pub open spec fn follows(&self, before: &Parser) -> bool {
        &&& self.wf()
        &&& self.tokens() == before.tokens()
        &&& before.cursor().current <= self.cursor().current < self.tokens().len()
    }

    /// A parser at the start of `tokens`.
    pub fn new(tokens: Vec<Token>) -> (r: Self)
        requires
            tokens@.len() > 0,
            tokens@.last().token_type == TokenType::Eof,
        ensures
            r.wf(),
            r.tokens() == tokens@,
            r.cursor() == (Cursor { current: 0, is_expression: true, errors: Seq::empty() }),
    {
        assert(tokens@.len() == tokens.len());
        Self { tokens, current: 0, is_expression: true, errors: ErrorHandler::new() }
    }

    /// Whether the input still looks like a bare expression: no semicolon
    /// and no statement keyword has been met.
    pub fn is_expression(&self) -> (r: bool)
        ensures
            r == self.cursor().is_expression,
    {
        self.is_expression
    }

    /// The diagnostics reported so far.
    pub fn errors(&self) -> (r: &ErrorHandler)
        requires
            self.wf(),
        ensures
            r@.lines == self.cursor().errors,
            r@.had_error == (self.cursor().errors.len() > 0),
    {
        &self.errors
    }

    fn peek(&self) -> (r: &Token)
        requires
            self.wf(),
        ensures
            *r == self.tokens()[self.cursor().current],
    {
        &self.tokens[self.current]
    }

    fn kind(&self) -> (r: TokenType)
        requires
            self.wf(),
        ensures
            r == kind(self.tokens(), self.cursor()),
            r == self.tokens()[self.cursor().current].token_type,
    {
        self.tokens[self.current].token_type
    }

    fn is_end(&self) -> (r: bool)
        requires
            self.wf(),
        ensures
            r == at_end(self.tokens(), self.cursor()),
    {
        self.tokens[self.current].token_type == TokenType::Eof
    }

    fn check(&self, token_type: TokenType) -> (r: bool)
        requires
            self.wf(),
        ensures
            r == check(self.tokens(), self.cursor(), token_type),
    {
        if self.is_end() {
            return false;
        }
        self.tokens[self.current].token_type == token_type
    }

    fn advance(&mut self)
        requires
            old(self).wf(),
        ensures
            final(self).follows(old(self)),
            final(self).cursor() == advance(old(self).tokens(), old(self).cursor()),
    {
        if !self.is_end() {
            self.current += 1;
        }
    }

    fn error(&mut self, at: usize, message: &str) -> (r: ParserError)
        requires
            old(self).wf(),
            at < old(self).tokens().len(),
        ensures
            final(self).follows(old(self)),
            final(self).cursor() == report(
                old(self).tokens(),
                old(self).cursor(),
                at as int,
                message@,
            ),
    {
        self.errors.error_token(&self.tokens[at], String::from_str(message));
        ParserError::new()
    }

    fn complain(&mut self, message: &str) -> (r: ParserError)
        requires
            old(self).wf(),
        ensures
            final(self).follows(old(self)),
            final(self).cursor() == complain(old(self).tokens(), old(self).cursor(), message@),
    {
        self.error(self.current, message)
    }

    fn consume(&mut self, token_type: TokenType, message: &str) -> (r: Result<(), ParserError>)
        requires
            old(self).wf(),
        ensures
            final(self).follows(old(self)),
            r is Ok == check(old(self).tokens(), old(self).cursor(), token_type),
            final(self).cursor() == consume(
                old(self).tokens(),
                old(self).cursor(),
                token_type,
                message@,
            ),
    {
        if self.check(token_type) {
            self.advance();
            Ok(())
        } else {
            Err(self.complain(message))
        }
    }

    fn expression(&mut self) -> (r: Result<Expr, ParserError>)
        requires
            old(self).wf(),
        ensures
            final(self).follows(old(self)),
            (Parsed { cursor: final(self).cursor(), node: expr_node(r) }) == expression(
                old(self).tokens(),
                old(self).cursor(),
            ),
        decreases left(old(self).tokens(), old(self).cursor()), 31int,
    {
        self.assignment()
    }

    #[verifier::rlimit(50)]
    fn assignment(&mut self) -> (r: Result<Expr, ParserError>)
        requires
            old(self).wf(),
        ensures
            final(self).follows(old(self)),
            (Parsed { cursor: final(self).cursor(), node: expr_node(r) }) == assignment(
                old(self).tokens(),
                old(self).cursor(),
            ),
        decreases left(old(self).tokens(), old(self).cursor()), 30int,
    {
        let target = self.infix(Level::Or)?;
        if self.check(TokenType::Equal) {
            let equals = self.current;
            self.advance();
            let value = self.assignment()?;
            match target {
                Expr::Variable { name } => Ok(Expr::Assign { name, value: Box::new(value) }),
                other => {
                    self.error(equals, "Invalid assignment target.");
                    Ok(other)
                },
            }
        } else {
            Ok(target)
        }
    }

    fn operand(&mut self, level: Level) -> (r: Result<Expr, ParserError>)
        requires
            old(self).wf(),
        ensures
            final(self).follows(old(self)),
            (Parsed { cursor: final(self).cursor(), node: expr_node(r) }) == operand(
                old(self).tokens(),
                old(self).cursor(),
                level,
            ),
        decreases left(old(self).tokens(), old(self).cursor()), level.rank() - 1,
    {
        match level {
            Level::Or => self.infix(Level::And),
            Level::And => self.infix(Level::Equality),
            Level::Equality => self.infix(Level::Comparison),
            Level::Comparison => self.infix(Level::Term),
            Level::Term => self.infix(Level::Factor),
            Level::Factor => self.unary(),
        }
    }

    fn infix(&mut self, level: Level) -> (r: Result<Expr, ParserError>)
        requires
            old(self).wf(),
        ensures
            final(self).follows(old(self)),
            (Parsed { cursor: final(self).cursor(), node: expr_node(r) }) == infix(
                old(self).tokens(),
                old(self).cursor(),
                level,
            ),
        decreases left(old(self).tokens(), old(self).cursor()), level.rank(),
    {
        let mut node = self.operand(level)?;
        while has_operator(level, self.kind())
            invariant
                self.follows(old(self)),
                infix_rest(self.tokens(), self.cursor(), level, node@) == infix(
                    old(self).tokens(),
                    old(self).cursor(),
                    level,
                ),
            decreases left(self.tokens(), self.cursor()),
        {
            let operator = self.peek().clone();
            self.advance();
            let right = self.operand(level)?;
            node = join(level, node, operator, right);
        }
        Ok(node)
    }

    fn unary(&mut self) -> (r: Result<Expr, ParserError>)
        requires
            old(self).wf(),
        ensures
            final(self).follows(old(self)),
            (Parsed { cursor: final(self).cursor(), node: expr_node(r) }) == unary(
                old(self).tokens(),
                old(self).cursor(),
            ),
        decreases left(old(self).tokens(), old(self).cursor()), 5int,
    {
        if self.check(TokenType::Bang) || self.check(TokenType::Minus) {
            let operator = self.peek().clone();
            self.advance();
            let right = self.unary()?;
            Ok(Expr::Unary { operator, right: Box::new(right) })
        } else {
            self.call()
        }
    }

    fn call(&mut self) -> (r: Result<Expr, ParserError>)
        requires
            old(self).wf(),
        ensures
            final(self).follows(old(self)),
            (Parsed { cursor: final(self).cursor(), node: expr_node(r) }) == call(
                old(self).tokens(),
                old(self).cursor(),
            ),
        decreases left(old(self).tokens(), old(self).cursor()), 4int,
    {
        let mut node = self.primary()?;
        while self.check(TokenType::LeftParen)
            invariant
                self.follows(old(self)),
                call_rest(self.tokens(), self.cursor(), node@) == call(
                    old(self).tokens(),
                    old(self).cursor(),
                ),
            decreases left(self.tokens(), self.cursor()),
        {
            self.advance();
            node = self.finish_call(node)?;
        }
        Ok(node)
    }

    fn arguments_rest(&mut self, first: Expr) -> (r: Result<Vec<Expr>, ParserError>)
        requires
            old(self).wf(),
        ensures
            final(self).follows(old(self)),
            (Parsed {
                cursor: final(self).cursor(),
                node: match r {
                    Ok(list) => Some(expr_models(list@)),
                    Err(_) => None,
                },
            }) == arguments_rest(old(self).tokens(), old(self).cursor(), seq![first@]),
        decreases left(old(self).tokens(), old(self).cursor()), 39int,
    {
        let mut arguments: Vec<Expr> = Vec::new();
        arguments.push(first);
        assert(expr_models(arguments@) =~= seq![first@]);
        while self.check(TokenType::Comma)
            invariant
                self.follows(old(self)),
                arguments_rest(self.tokens(), self.cursor(), expr_models(arguments@))
                    == arguments_rest(old(self).tokens(), old(self).cursor(), seq![first@]),
            decreases left(self.tokens(), self.cursor()),
        {
            self.advance();
            if arguments.len() >= 255 {
                self.complain("Can't have more than 255 arguments.");
            }
            let ghost before = expr_models(arguments@);
            assert(before.len() == arguments@.len());
            let argument = self.expression()?;
            arguments.push(argument);
            assert(expr_models(arguments@) =~= before.push(argument@));
        }
        Ok(arguments)
    }

    #[verifier::rlimit(50)]
    fn finish_call(&mut self, callee: Expr) -> (r: Result<Expr, ParserError>)
        requires
            old(self).wf(),
        ensures
            final(self).follows(old(self)),
            (Parsed { cursor: final(self).cursor(), node: expr_node(r) }) == finish_call(
                old(self).tokens(),
                old(self).cursor(),
                callee@,
            ),
        decreases left(old(self).tokens(), old(self).cursor()), 40int,
    {
        let arguments = if self.check(TokenType::RightParen) {
            let none: Vec<Expr> = Vec::new();
            assert(expr_models(none@) =~= Seq::empty());
            none
        } else {
            let first = self.expression()?;
            self.arguments_rest(first)?
        };
        if self.check(TokenType::RightParen) {
            let paren = self.peek().clone();
            self.advance();
            let callee = Box::new(callee);
            proof {
                lemma_call_model(callee, paren, arguments);
            }
            Ok(Expr::Call { callee, paren, arguments })
        } else {
            Err(self.complain("Expect ')' after arguments."))
        }
    }

    #[verifier::rlimit(50)]
    fn primary(&mut self) -> (r: Result<Expr, ParserError>)
        requires
            old(self).wf(),
        ensures
            final(self).follows(old(self)),
            (Parsed { cursor: final(self).cursor(), node: expr_node(r) }) == primary(
                old(self).tokens(),
                old(self).cursor(),
            ),
        decreases left(old(self).tokens(), old(self).cursor()), 3int,
    {
        match self.kind() {
            TokenType::False => {
                self.advance();
                Ok(Expr::Literal { value: Value::Bool(false) })
            },
            TokenType::True => {
                self.advance();
                Ok(Expr::Literal { value: Value::Bool(true) })
            },
            TokenType::Nil => {
                self.advance();
                Ok(Expr::Literal { value: Value::Nil })
            },
            TokenType::Number | TokenType::String => {
                let value = self.peek().literal.clone();
                self.advance();
                Ok(Expr::Literal { value })
            },
            TokenType::Identifier => {
                let name = self.peek().clone();
                self.advance();
                Ok(Expr::Variable { name })
            },
            TokenType::LeftParen => {
                self.advance();
                let expression = self.expression()?;
                self.consume(TokenType::RightParen, "Expect ')' after expression.")?;
                Ok(Expr::Grouping { expression: Box::new(expression) })
            },
            _ => Err(self.complain("Expect expression.")),
        }
    }

    fn expression_statement(&mut self) -> (r: Result<Stmt, ParserError>)
        requires
            old(self).wf(),
        ensures
            final(self).follows(old(self)),
            (Parsed { cursor: final(self).cursor(), node: stmt_node(r) }) == expression_statement(
                old(self).tokens(),
                old(self).cursor(),
            ),
        decreases left(old(self).tokens(), old(self).cursor()), 45int,
    {
        let expression = self.expression()?;
        if self.check(TokenType::Semicolon) {
            self.advance();
            self.is_expression = false;
        } else if !self.is_expression {
            return Err(self.complain("Expect ';' after expression."));
        }
        Ok(Stmt::Expression { expression })
    }

    fn print_statement(&mut self) -> (r: Result<Stmt, ParserError>)
        requires
            old(self).wf(),
        ensures
            final(self).follows(old(self)),
            (Parsed { cursor: final(self).cursor(), node: stmt_node(r) }) == print_statement(
                old(self).tokens(),
                old(self).cursor(),
            ),
        decreases left(old(self).tokens(), old(self).cursor()), 80int,
    {
        let expression = self.expression()?;
        self.consume(TokenType::Semicolon, "Expect ';' after value.")?;
        Ok(Stmt::Print { expression })
    }

    fn return_statement(&mut self, keyword: Token) -> (r: Result<Stmt, ParserError>)
        requires
            old(self).wf(),
        ensures
            final(self).follows(old(self)),
            (Parsed { cursor: final(self).cursor(), node: stmt_node(r) }) == return_statement(
                old(self).tokens(),
                old(self).cursor(),
                keyword,
            ),
        decreases left(old(self).tokens(), old(self).cursor()), 80int,
    {
        if self.check(TokenType::Semicolon) {
            self.advance();
            Ok(Stmt::Return { keyword, value: None })
        } else {
            let value = self.expression()?;
            self.consume(TokenType::Semicolon, "Expect ';' after return value.")?;
            Ok(Stmt::Return { keyword, value: Some(value) })
        }
    }

    fn condition(&mut self, opening: &str) -> (r: Result<Expr, ParserError>)
        requires
            old(self).wf(),
        ensures
            final(self).follows(old(self)),
            (Parsed { cursor: final(self).cursor(), node: expr_node(r) }) == condition(
                old(self).tokens(),
                old(self).cursor(),
                opening@,
            ),
        decreases left(old(self).tokens(), old(self).cursor()), 79int,
    {
        self.consume(TokenType::LeftParen, opening)?;
        let inner = self.expression()?;
        self.consume(TokenType::RightParen, "Expect ')' after condition.")?;
        Ok(inner)
    }

    fn while_statement(&mut self) -> (r: Result<Stmt, ParserError>)
        requires
            old(self).wf(),
        ensures
            final(self).follows(old(self)),
            (Parsed { cursor: final(self).cursor(), node: stmt_node(r) }) == while_statement(
                old(self).tokens(),
                old(self).cursor(),
            ),
        decreases left(old(self).tokens(), old(self).cursor()), 80int,
    {
        let condition = self.condition("Expect '(' after 'while'.")?;
        let body = self.statement()?;
        Ok(Stmt::While { condition, body: Box::new(body) })
    }

    fn if_statement(&mut self) -> (r: Result<Stmt, ParserError>)
        requires
            old(self).wf(),
        ensures
            final(self).follows(old(self)),
            (Parsed { cursor: final(self).cursor(), node: stmt_node(r) }) == if_statement(
                old(self).tokens(),
                old(self).cursor(),
            ),
        decreases left(old(self).tokens(), old(self).cursor()), 80int,
    {
        let condition = self.condition("Expect '(' after 'if'.")?;
        let then_branch = self.statement()?;
        if self.check(TokenType::Else) {
            self.advance();
            let else_branch = self.statement()?;
            Ok(
                Stmt::If {
                    condition,
                    then_branch: Box::new(then_branch),
                    else_branch: Some(Box::new(else_branch)),
                },
            )
        } else {
            Ok(Stmt::If { condition, then_branch: Box::new(then_branch), else_branch: None })
        }
    }

    fn for_initializer(&mut self) -> (r: Result<Option<Stmt>, ParserError>)
        requires
            old(self).wf(),
        ensures
            final(self).follows(old(self)),
            (Parsed { cursor: final(self).cursor(), node: optional_stmt_node(r) })
                == for_initializer(old(self).tokens(), old(self).cursor()),
        decreases left(old(self).tokens(), old(self).cursor()), 79int,
    {
        if self.check(TokenType::Semicolon) {
            self.advance();
            Ok(None)
        } else if self.check(TokenType::Var) {
            self.advance();
            let statement = self.var_declaration()?;
            Ok(Some(statement))
        } else {
            let statement = self.expression_statement()?;
            Ok(Some(statement))
        }
    }

    fn for_clause(&mut self, closing: TokenType, message: &str) -> (r: Result<
        Option<Expr>,
        ParserError,
    >)
        requires
            old(self).wf(),
        ensures
            final(self).follows(old(self)),
            (Parsed { cursor: final(self).cursor(), node: optional_expr_node(r) }) == for_clause(
                old(self).tokens(),
                old(self).cursor(),
                closing,
                message@,
            ),
        decreases left(old(self).tokens(), old(self).cursor()), 79int,
    {
        if self.check(closing) {
            self.advance();
            Ok(None)
        } else {
            let expression = self.expression()?;
            self.consume(closing, message)?;
            Ok(Some(expression))
        }
    }

    #[verifier::rlimit(50)]
    fn for_statement(&mut self) -> (r: Result<Stmt, ParserError>)
        requires
            old(self).wf(),
        ensures
            final(self).follows(old(self)),
            (Parsed { cursor: final(self).cursor(), node: stmt_node(r) }) == for_statement(
                old(self).tokens(),
                old(self).cursor(),
            ),
        decreases left(old(self).tokens(), old(self).cursor()), 80int,
    {
        self.consume(TokenType::LeftParen, "Expect '(' after 'for'.")?;
        let initializer = self.for_initializer()?;
        let condition = self.for_clause(TokenType::Semicolon, "Expect ';' after loop condition.")?;
        let increment = self.for_clause(TokenType::RightParen, "Expect ')' after for clauses.")?;
        let body = self.statement()?;
        Ok(lower(initializer, condition, increment, body))
    }

    #[verifier::rlimit(50)]
    fn var_declaration(&mut self) -> (r: Result<Stmt, ParserError>)
        requires
            old(self).wf(),
        ensures
            final(self).follows(old(self)),
            (Parsed { cursor: final(self).cursor(), node: stmt_node(r) }) == var_declaration(
                old(self).tokens(),
                old(self).cursor(),
            ),
        decreases left(old(self).tokens(), old(self).cursor()), 46int,
    {
        self.is_expression = false;
        if !self.check(TokenType::Identifier) {
            return Err(self.complain("Expect variable name."));
        }
        let name = self.peek().clone();
        self.advance();
        let initializer = if self.check(TokenType::Equal) {
            self.advance();
            self.expression()?
        } else {
            Expr::Literal { value: Value::Unitialized }
        };
        self.consume(TokenType::Semicolon, "Expect ';' after variable declaration.")?;
        Ok(Stmt::Var { name, initializer })
    }

    fn parameters(&mut self) -> (r: Result<Vec<Token>, ParserError>)
        requires
            old(self).wf(),
        ensures
            final(self).follows(old(self)),
            (Parsed {
                cursor: final(self).cursor(),
                node: match r {
                    Ok(list) => Some(list@),
                    Err(_) => None,
                },
            }) == parameters(old(self).tokens(), old(self).cursor(), Seq::empty()),
    {
        let mut params: Vec<Token> = Vec::new();
        loop
            invariant
                self.follows(old(self)),
                parameters(self.tokens(), self.cursor(), params@) == parameters(
                    old(self).tokens(),
                    old(self).cursor(),
                    Seq::empty(),
                ),
            decreases left(self.tokens(), self.cursor()),
        {
            if params.len() >= 255 {
                self.complain("Can't have more than 255 parameters.");
            }
            if !self.check(TokenType::Identifier) {
                return Err(self.complain("Expect parameter name."));
            }
            params.push(self.peek().clone());
            self.advance();
            if !self.check(TokenType::Comma) {
                return Ok(params);
            }
            self.advance();
        }
    }

    fn signature(&mut self) -> (r: Result<Vec<Token>, ParserError>)
        requires
            old(self).wf(),
        ensures
            final(self).follows(old(self)),
            (Parsed {
                cursor: final(self).cursor(),
                node: match r {
                    Ok(list) => Some(list@),
                    Err(_) => None,
                },
            }) == signature(old(self).tokens(), old(self).cursor()),
    {
        self.consume(TokenType::LeftParen, "Expect '(' after function name.")?;
        let params = if self.check(TokenType::RightParen) {
            Vec::new()
        } else {
            self.parameters()?
        };
        self.consume(TokenType::RightParen, "Expect ')' after parameters.")?;
        self.consume(TokenType::LeftBrace, "Expect '{' before function body.")?;
        Ok(params)
    }

    #[verifier::rlimit(50)]
    fn function(&mut self) -> (r: Result<Stmt, ParserError>)
        requires
            old(self).wf(),
        ensures
            final(self).follows(old(self)),
            (Parsed { cursor: final(self).cursor(), node: stmt_node(r) }) == function(
                old(self).tokens(),
                old(self).cursor(),
            ),
        decreases left(old(self).tokens(), old(self).cursor()), 80int,
    {
        self.is_expression = false;
        if !self.check(TokenType::Identifier) {
            return Err(self.complain("Expect function name."));
        }
        let name = self.peek().clone();
        self.advance();
        let params = self.signature()?;
        let body = self.block()?;
        proof {
            lemma_function_model(name, params, body);
        }
        Ok(Stmt::Function { name, params, body })
    }

    fn declarations(&mut self, inside: bool) -> (r: Vec<Stmt>)
        requires
            old(self).wf(),
        ensures
            final(self).follows(old(self)),
            (Listed { cursor: final(self).cursor(), list: stmt_models(r@) }) == declarations(
                old(self).tokens(),
                old(self).cursor(),
                inside,
                Seq::empty(),
            ),
        decreases left(old(self).tokens(), old(self).cursor()), 70int,
    {
        let mut list: Vec<Stmt> = Vec::new();
        assert(stmt_models(list@) =~= Seq::empty());
        while !(self.is_end() || (inside && self.check(TokenType::RightBrace)))
            invariant
                self.follows(old(self)),
                declarations(self.tokens(), self.cursor(), inside, stmt_models(list@))
                    == declarations(old(self).tokens(), old(self).cursor(), inside, Seq::empty()),
            decreases left(self.tokens(), self.cursor()),
        {
            let ghost before = self.cursor();
            let ghost models = stmt_models(list@);
            proof {
                lemma_declaration(self.tokens(), before);
            }
            match self.declaration() {
                Ok(statement) => {
                    list.push(statement);
                    assert(stmt_models(list@) =~= models.push(statement@));
                },
                Err(_) => {},
            }
        }
        list
    }

    fn block(&mut self) -> (r: Result<Vec<Stmt>, ParserError>)
        requires
            old(self).wf(),
        ensures
            final(self).follows(old(self)),
            (Parsed {
                cursor: final(self).cursor(),
                node: match r {
                    Ok(list) => Some(stmt_models(list@)),
                    Err(_) => None,
                },
            }) == block(old(self).tokens(), old(self).cursor()),
        decreases left(old(self).tokens(), old(self).cursor()), 75int,
    {
        let body = self.declarations(true);
        self.consume(TokenType::RightBrace, "Expect '}' after block.")?;
        Ok(body)
    }

    #[verifier::rlimit(50)]
    fn statement(&mut self) -> (r: Result<Stmt, ParserError>)
        requires
            old(self).wf(),
        ensures
            final(self).follows(old(self)),
            (Parsed { cursor: final(self).cursor(), node: stmt_node(r) }) == statement(
                old(self).tokens(),
                old(self).cursor(),
            ),
        decreases left(old(self).tokens(), old(self).cursor()), 50int,
    {
        match self.kind() {
            TokenType::For => {
                self.advance();
                self.is_expression = false;
                self.for_statement()
            },
            TokenType::If => {
                self.advance();
                self.is_expression = false;
                self.if_statement()
            },
            TokenType::Print => {
                self.advance();
                self.is_expression = false;
                self.print_statement()
            },
            TokenType::Return => {
                let keyword = self.peek().clone();
                self.advance();
                self.is_expression = false;
                self.return_statement(keyword)
            },
            TokenType::While => {
                self.advance();
                self.is_expression = false;
                self.while_statement()
            },
            TokenType::LeftBrace => {
                self.advance();
                self.is_expression = false;
                let statements = self.block()?;
                proof {
                    lemma_block_model(statements);
                }
                Ok(Stmt::Block { statements })
            },
            _ => self.expression_statement(),
        }
    }

    fn synchronize(&mut self)
        requires
            old(self).wf(),
        ensures
            final(self).follows(old(self)),
            final(self).cursor() == synchronize(old(self).tokens(), old(self).cursor()),
    {
        self.advance();
        while !self.is_end()
            invariant
                self.follows(old(self)),
                at_end(self.tokens(), self.cursor()) || self.cursor().current >= 1,
                skipped(self.tokens(), self.cursor()) == synchronize(
                    old(self).tokens(),
                    old(self).cursor(),
                ),
            decreases left(self.tokens(), self.cursor()),
        {
            if self.tokens[self.current - 1].token_type == TokenType::Semicolon {
                return ;
            }
            if is_statement_start(self.kind()) {
                return ;
            }
            self.advance();
        }
    }

    #[verifier::rlimit(50)]
    fn declaration(&mut self) -> (r: Result<Stmt, ParserError>)
        requires
            old(self).wf(),
        ensures
            final(self).follows(old(self)),
            (Parsed { cursor: final(self).cursor(), node: stmt_node(r) }) == declaration(
                old(self).tokens(),
                old(self).cursor(),
            ),
        decreases left(old(self).tokens(), old(self).cursor()), 60int,
    {
        let declared = if self.check(TokenType::Fun) {
            self.advance();
            self.function()
        } else if self.check(TokenType::Var) {
            self.advance();
            self.var_declaration()
        } else {
            self.statement()
        };
        match declared {
            Ok(statement) => Ok(statement),
            Err(error) => {
                self.synchronize();
                Err(error)
            },
        }
    }

    /// Parses one expression.
    pub fn parse_expr(&mut self) -> (r: Option<Box<Expr>>)
        requires
            old(self).wf(),
        ensures
            final(self).follows(old(self)),
            (Parsed {
                cursor: final(self).cursor(),
                node: match r {
                    Some(expr) => Some(expr@),
                    None => None,
                },
            }) == expression(old(self).tokens(), old(self).cursor()),
    {
        match self.expression() {
            Ok(expr) => Some(Box::new(expr)),
            Err(_) => None,
        }
    }

    /// Parses a program: the declarations up to the end of the tokens.
    /// Those that fail are left out.
    pub fn parse_stmt(&mut self) -> (r: Vec<Stmt>)
        requires
            old(self).wf(),
        ensures
            final(self).follows(old(self)),
            (Listed { cursor: final(self).cursor(), list: stmt_models(r@) }) == program(
                old(self).tokens(),
                old(self).cursor(),
            ),
    {
        self.declarations(false)
    }
}

fn has_operator(level: Level, token_type: TokenType) -> (r: bool)
    ensures
        r == level.has(token_type),
{
    match level {
        Level::Or => token_type == TokenType::Or,
        Level::And => token_type == TokenType::And,
        Level::Equality => token_type == TokenType::BangEqual || token_type == TokenType::EqualEqual,
        Level::Comparison => token_type == TokenType::Greater || token_type
            == TokenType::GreaterEqual || token_type == TokenType::Less || token_type
            == TokenType::LessEqual,
        Level::Term => token_type == TokenType::Minus || token_type == TokenType::Plus,
        Level::Factor => token_type == TokenType::Slash || token_type == TokenType::Star,
    }
}

fn join(level: Level, left: Expr, operator: Token, right: Expr) -> (r: Expr)
    ensures
        r@ == level.join(left@, operator, right@),
{
    match level {
        Level::Or | Level::And => Expr::Logical {
            left: Box::new(left),
            operator,
            right: Box::new(right),
        },
        _ => Expr::Binary { left: Box::new(left), operator, right: Box::new(right) },
    }
}

fn is_statement_start(token_type: TokenType) -> (r: bool)
    ensures
        r == starts_statement(token_type),
{
    match token_type {
        TokenType::Class
        | TokenType::Fun
        | TokenType::For
        | TokenType::If
        | TokenType::Print
        | TokenType::Return
        | TokenType::Var
        | TokenType::While => true,
        _ => false,
    }
}

fn lower(initializer: Option<Stmt>, condition: Option<Expr>, increment: Option<Expr>, body: Stmt) -> (r:
    Stmt)
    ensures
        r@ == lowered(
            match initializer {
                Some(statement) => Some(statement@),
                None => None,
            },
            match condition {
                Some(expression) => Some(expression@),
                None => None,
            },
            match increment {
                Some(expression) => Some(expression@),
                None => None,
            },
            body@,
        ),
{
    let stepped = match increment {
        Some(expression) => {
            let mut statements: Vec<Stmt> = Vec::new();
            statements.push(body);
            statements.push(Stmt::Expression { expression });
            proof {
                lemma_block_model(statements);
                assert(stmt_models(statements@) =~= seq![
                    body@,
                    StmtModel::Expression { expression: expression@ },
                ]);
            }
            Stmt::Block { statements }
        },
        None => body,
    };
    let condition = match condition {
        Some(condition) => condition,
        None => Expr::Literal { value: Value::Bool(true) },
    };
    let repeated = Stmt::While { condition, body: Box::new(stepped) };
    match initializer {
        Some(initializer) => {
            let mut statements: Vec<Stmt> = Vec::new();
            statements.push(initializer);
            statements.push(repeated);
            proof {
                lemma_block_model(statements);
                assert(stmt_models(statements@) =~= seq![initializer@, repeated@]);
            }
            Stmt::Block { statements }
        },
        None => repeated,
    }
}

} // verus!
