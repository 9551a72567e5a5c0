//! Diagnostics: the lines that report compile-time and runtime errors.

use vstd::prelude::*;
use vstd::string::*;
use crate::string_extensions::{decimal, decimal_text};
use crate::token::{Token, TokenType};

verus! {

/// One line of a compile-time diagnostic: `[line N] Error<where>: <message>`.
pub open spec fn diagnostic(line: nat, place: Seq<char>, message: Seq<char>) -> Seq<char> {
    "[line "@ + decimal(line) + "] Error"@ + place + ": "@ + message
}

/// Where a token-level diagnostic points: the end of input, or the
/// offending lexeme in single quotes.
pub open spec fn place_of(token_type: TokenType, lexeme: Seq<char>) -> Seq<char> {
    if token_type == TokenType::Eof {
        " at end"@
    } else {
        " at '"@ + lexeme + "'"@
    }
}

/// The diagnostic that points at a token.
pub open spec fn token_diagnostic(token: Token, message: Seq<char>) -> Seq<char> {
    diagnostic(token.line as nat, place_of(token.token_type, token.lexeme@), message)
}

/// One line of a runtime diagnostic: `[line N] Runtime Error: <message>`.
pub open spec fn runtime_diagnostic(line: nat, message: Seq<char>) -> Seq<char> {
    "[line "@ + decimal(line) + "] Runtime Error: "@ + message
}

/// What an [`ErrorHandler`] has recorded.
pub ghost struct Diagnostics {
    pub had_error: bool,
    pub lines: Seq<Seq<char>>,
}

/// Collects diagnostics in the order in which they are reported. Nothing is
/// written anywhere: the caller prints the lines and picks the exit status.
pub struct ErrorHandler {
    had_error: bool,
    lines: Vec<String>,
}

impl View for ErrorHandler {
    type V = Diagnostics;

    closed spec fn view(&self) -> Diagnostics {
        Diagnostics {
            had_error: self.had_error,
            lines: Seq::new(self.lines@.len(), |i: int| self.lines@[i]@),
        }
    }
}

impl ErrorHandler {
    /// A handler that has recorded nothing.
    pub fn new() -> (r: ErrorHandler)
        ensures
            r@ == (Diagnostics { had_error: false, lines: Seq::empty() }),
    {
        let r = ErrorHandler { had_error: false, lines: Vec::new() };
        assert(r@.lines =~= Seq::empty());
        r
    }

    /// Records a runtime diagnostic at the line of `operator`.
    pub fn runtime_error(&mut self, operator: &Token, message: String)
        ensures
            final(self)@ == (Diagnostics {
                had_error: true,
                lines: old(self)@.lines.push(runtime_diagnostic(operator.line as nat, message@)),
            }),
    {
        let mut text = String::from_str("[line ");
        text.append(decimal_text(operator.line).as_str());
        text.append("] Runtime Error: ");
        text.append(message.as_str());
        self.lines.push(text);
        self.had_error = true;
        assert(self@.lines =~= old(self)@.lines.push(
            runtime_diagnostic(operator.line as nat, message@),
        ));
    }

    /// Records a diagnostic that points at a line only.
    pub fn error(&mut self, line: usize, message: String)
        ensures
            final(self)@ == (Diagnostics {
                had_error: true,
                lines: old(self)@.lines.push(diagnostic(line as nat, Seq::empty(), message@)),
            }),
    {
        let place = String::new();
        assert(place@ =~= Seq::empty());
        self.report(line, place, message)
    }

    /// Records a diagnostic that points at a token.
    pub fn error_token(&mut self, token: &Token, message: String)
        ensures
            final(self)@ == (Diagnostics {
                had_error: true,
                lines: old(self)@.lines.push(token_diagnostic(*token, message@)),
            }),
    {
        if token.token_type == TokenType::Eof {
            self.report(token.line, String::from_str(" at end"), message)
        } else {
            let mut place = String::from_str(" at '");
            place.append(token.lexeme.as_str());
            place.append("'");
            self.report(token.line, place, message)
        }
    }

    fn report(&mut self, line: usize, place: String, message: String)
        ensures
            final(self)@ == (Diagnostics {
                had_error: true,
                lines: old(self)@.lines.push(diagnostic(line as nat, place@, message@)),
            }),
    {
        let mut text = String::from_str("[line ");
        text.append(decimal_text(line).as_str());
        text.append("] Error");
        text.append(place.as_str());
        text.append(": ");
        text.append(message.as_str());
        self.lines.push(text);
        self.had_error = true;
        assert(self@.lines =~= old(self)@.lines.push(diagnostic(line as nat, place@, message@)));
    }

    /// Whether a diagnostic has been recorded since the last reset.
    pub fn had_error(&self) -> (r: bool)
        ensures
            r == self@.had_error,
    {
        self.had_error
    }

    /// Forgets that anything was reported; the recorded lines stay.
    pub fn reset(&mut self)
        ensures
            final(self)@ == (Diagnostics { had_error: false, lines: old(self)@.lines }),
    {
        self.had_error = false;
        assert(self@.lines =~= old(self)@.lines);
    }

    /// The number of lines recorded so far.
    pub fn len(&self) -> (r: usize)
        ensures
            r == self@.lines.len(),
    {
        self.lines.len()
    }

    /// The `index`-th recorded line.
    pub fn line(&self, index: usize) -> (r: &String)
        requires
            index < self@.lines.len(),
        ensures
            r@ == self@.lines[index as int],
    {
        &self.lines[index]
    }
}

/// Why an evaluation was aborted.
#[derive(Debug)]
pub enum RuntimeErrorKind {
    /// No enclosing environment binds the name.
    UndefinedVariable(String),
    /// The name is bound, but no value was ever given to it.
    UninitializedVariable(String),
    /// The name is already bound in the same block.
    AlreadyDefined(String),
    /// `-` was applied to something that is no number.
    OperandMustBeNumber,
    /// An arithmetic or ordering operator met an operand that is no number.
    OperandsMustBeNumbers,
    /// `+` met operands that are neither two numbers nor two strings.
    OperandsMustBeNumbersOrStrings,
    /// The callee is neither a function nor a builtin.
    NotCallable,
    /// The callee takes `expected` arguments and was given `got`.
    WrongArity { expected: usize, got: usize },
}

impl RuntimeErrorKind {
    /// The message of the diagnostic.
    pub open spec fn text(self) -> Seq<char> {
        match self {
            RuntimeErrorKind::UndefinedVariable(name) => "Undefined variable '"@ + name@ + "'."@,
            RuntimeErrorKind::UninitializedVariable(name) => "Variable '"@ + name@
                + "' has not been initialized or assigned to."@,
            RuntimeErrorKind::AlreadyDefined(name) => "Variable '"@ + name@ + "' already defined."@,
            RuntimeErrorKind::OperandMustBeNumber => "Operand must be a number."@,
            RuntimeErrorKind::OperandsMustBeNumbers => "Operands must be numbers."@,
            RuntimeErrorKind::OperandsMustBeNumbersOrStrings =>
                "Operands must be two numbers or two strings."@,
            RuntimeErrorKind::NotCallable => "Can only call functions and classes."@,
            RuntimeErrorKind::WrongArity { expected, got } => "Expected "@ + decimal(
                expected as nat,
            ) + " arguments but got "@ + decimal(got as nat) + "."@,
        }
    }
}

/// A runtime error: the line of the operator or call site, and the reason.
#[derive(Debug)]
pub struct RuntimeError {
    pub line: usize,
    pub kind: RuntimeErrorKind,
}

impl RuntimeError {
    /// The message of the diagnostic.
    pub fn message(&self) -> (r: String)
        ensures
            r@ == self.kind.text(),
    {
        match &self.kind {
            RuntimeErrorKind::UndefinedVariable(name) => {
                let mut r = String::from_str("Undefined variable '");
                r.append(name.as_str());
                r.append("'.");
                r
            },
            RuntimeErrorKind::UninitializedVariable(name) => {
                let mut r = String::from_str("Variable '");
                r.append(name.as_str());
                r.append("' has not been initialized or assigned to.");
                r
            },
            RuntimeErrorKind::AlreadyDefined(name) => {
                let mut r = String::from_str("Variable '");
                r.append(name.as_str());
                r.append("' already defined.");
                r
            },
            RuntimeErrorKind::OperandMustBeNumber => String::from_str("Operand must be a number."),
            RuntimeErrorKind::OperandsMustBeNumbers => String::from_str("Operands must be numbers."),
            RuntimeErrorKind::OperandsMustBeNumbersOrStrings => String::from_str(
                "Operands must be two numbers or two strings.",
            ),
            RuntimeErrorKind::NotCallable => String::from_str(
                "Can only call functions and classes.",
            ),
            RuntimeErrorKind::WrongArity { expected, got } => {
                let mut r = String::from_str("Expected ");
                r.append(decimal_text(*expected).as_str());
                r.append(" arguments but got ");
                r.append(decimal_text(*got).as_str());
                r.append(".");
                r
            },
        }
    }

    /// The line under which the error is reported to the user.
    pub fn report(&self) -> (r: String)
        ensures
            r@ == runtime_diagnostic(self.line as nat, self.kind.text()),
    {
        let mut r = String::from_str("[line ");
        r.append(decimal_text(self.line).as_str());
        r.append("] Runtime Error: ");
        r.append(self.message().as_str());
        r
    }
}

/// The marker a parsing function returns after it has reported a syntax
/// error.
#[derive(Debug, Clone, Copy, PartialEq, Eq, Structural)]
pub struct ParserError {}

impl ParserError {
    /// The marker.
    pub fn new() -> (r: Self)
        ensures
            r == (ParserError {  }),
    {
        Self {  }
    }
}

} // verus!
