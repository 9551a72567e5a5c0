//! The scanner.

use vstd::prelude::*;
use vstd::string::*;
use crate::char_extensions::{alpha, alpha_numeric, digit, is_digit, CharExtensions};
use crate::error::{diagnostic, Diagnostics, ErrorHandler};
use crate::lexing::{
    ends_with_one_eof, items, keyword, lemma_line_step, lemma_newlines_bound, lemma_run_end,
    lemma_run_keeps_line, lemma_scan_ends_with_one_eof, lex, line_at, member, paired, plain,
    run, scan, scan_from, single, token_models, Class,
};
use crate::string_extensions::{characters, joined};
use crate::token::{Token, TokenModel, TokenType};
use crate::value::{Value, ValueModel};

verus! {

/// Turns source text into tokens. Errors are collected and never stop the
/// scan.
pub struct Scanner {
    source: String,
    chars: Vec<char>,
    start: usize,
    current: usize,
    line: usize,
    tokens: Vec<Token>,
    errors: ErrorHandler,
}

fn single_kind(c: char) -> (r: Option<TokenType>)
    ensures
        r == single(c),
{
    if c == '(' {
        Some(TokenType::LeftParen)
    } else if c == ')' {
        Some(TokenType::RightParen)
    } else if c == '{' {
        Some(TokenType::LeftBrace)
    } else if c == '}' {
        Some(TokenType::RightBrace)
    } else if c == ',' {
        Some(TokenType::Comma)
    } else if c == '.' {
        Some(TokenType::Dot)
    } else if c == '-' {
        Some(TokenType::Minus)
    } else if c == '+' {
        Some(TokenType::Plus)
    } else if c == ';' {
        Some(TokenType::Semicolon)
    } else if c == '*' {
        Some(TokenType::Star)
    } else {
        None
    }
}

fn paired_kinds(c: char) -> (r: Option<(TokenType, TokenType)>)
    ensures
        r == paired(c),
{
    if c == '!' {
        Some((TokenType::Bang, TokenType::BangEqual))
    } else if c == '=' {
        Some((TokenType::Equal, TokenType::EqualEqual))
    } else if c == '<' {
        Some((TokenType::Less, TokenType::LessEqual))
    } else if c == '>' {
        Some((TokenType::Greater, TokenType::GreaterEqual))
    } else {
        None
    }
}

fn is_member(class: Class, c: char) -> (r: bool)
    ensures
        r == member(class, c),
{
    match class {
        Class::Digit => is_digit(c),
        Class::AlphaNumeric => c.is_alpha_numeric(),
        Class::Comment => c != '\n',
        Class::Quoted => c != '"',
    }
}

fn is_word(chars: &Vec<char>, start: usize, end: usize, word: &str) -> (r: bool)
    requires
        start <= end <= chars@.len(),
    ensures
        r == (chars@.subrange(start as int, end as int) == word@),
{
    let n = word.unicode_len();
    if end - start != n {
        return false;
    }
    let mut i: usize = 0;
    while i < n
        invariant
            start <= end <= chars@.len(),
            end - start == n,
            n == word@.len(),
            i <= n,
            forall|j: int| 0 <= j < i ==> chars@[start + j] == word@[j],
        decreases n - i,
    {
        if chars[start + i] != word.get_char(i) {
            assert(chars@.subrange(start as int, end as int)[i as int] != word@[i as int]);
            return false;
        }
        i = i + 1;
    }
    assert(chars@.subrange(start as int, end as int) =~= word@);
    true
}

fn keyword_kind(chars: &Vec<char>, start: usize, end: usize) -> (r: Option<TokenType>)
    requires
        start <= end <= chars@.len(),
    ensures
        r == keyword(chars@.subrange(start as int, end as int)),
{
    if is_word(chars, start, end, "and") {
        Some(TokenType::And)
    } else if is_word(chars, start, end, "class") {
        Some(TokenType::Class)
    } else if is_word(chars, start, end, "else") {
        Some(TokenType::Else)
    } else if is_word(chars, start, end, "false") {
        Some(TokenType::False)
    } else if is_word(chars, start, end, "for") {
        Some(TokenType::For)
    } else if is_word(chars, start, end, "fun") {
        Some(TokenType::Fun)
    } else if is_word(chars, start, end, "if") {
        Some(TokenType::If)
    } else if is_word(chars, start, end, "nil") {
        Some(TokenType::Nil)
    } else if is_word(chars, start, end, "or") {
        Some(TokenType::Or)
    } else if is_word(chars, start, end, "print") {
        Some(TokenType::Print)
    } else if is_word(chars, start, end, "return") {
        Some(TokenType::Return)
    } else if is_word(chars, start, end, "super") {
        Some(TokenType::Super)
    } else if is_word(chars, start, end, "this") {
        Some(TokenType::This)
    } else if is_word(chars, start, end, "true") {
        Some(TokenType::True)
    } else if is_word(chars, start, end, "var") {
        Some(TokenType::Var)
    } else if is_word(chars, start, end, "while") {
        Some(TokenType::While)
    } else {
        None
    }
}

impl Scanner {
    /// The source text.
    pub closed spec fn source(&self) -> Seq<char> {
        self.source@
    }

    /// Where the token that is being scanned starts.
    pub closed spec fn start(&self) -> int {
        self.start as int
    }

    /// How far the scan has come.
    pub closed spec fn position(&self) -> int {
        self.current as int
    }

    /// The line of the position.
    pub closed spec fn line(&self) -> nat {
        self.line as nat
    }

    /// The tokens scanned so far.
    pub closed spec fn scanned(&self) -> Seq<Token> {
        self.tokens@
    }

    /// The diagnostics reported so far.
    pub closed spec fn diagnostics(&self) -> Diagnostics {
        self.errors@
    }

    /// Whether the scanner is one that [`Scanner::new`] and the methods
    /// below can have made.
    pub closed spec fn wf(&self) -> bool {
        &&& self.chars@ == self.source@
        &&& self.source@.len() < usize::MAX
        &&& self.start <= self.current <= self.source@.len()
        &&& self.line == line_at(self.source@, self.current as int)
    }

    /// What [`Scanner::wf`] says of the position.
    pub proof fn lemma_wf(&self)
        requires
            self.wf(),
        ensures
            0 <= self.start() <= self.position() <= self.source().len(),
            self.line() == line_at(self.source(), self.position()),
    {
    }

    /// A scanner at the start of `source`.
    pub fn new(source: String) -> (r: Scanner)
        requires
            source@.len() < usize::MAX,
        ensures
            r.wf(),
            r.source() == source@,
            r.start() == 0,
            r.position() == 0,
            r.scanned().len() == 0,
            r.diagnostics() == (Diagnostics { had_error: false, lines: Seq::empty() }),
    {
        let chars = characters(source.as_str());
        Scanner {
            source,
            chars,
            current: 0,
            line: 1,
            start: 0,
            tokens: Vec::new(),
            errors: ErrorHandler::new(),
        }
    }

    /// The tokens scanned so far.
    pub fn tokens(&self) -> (r: &Vec<Token>)
        ensures
            r@ == self.scanned(),
    {
        &self.tokens
    }

    /// The tokens scanned so far, without the scanner.
    pub fn into_tokens(self) -> (r: Vec<Token>)
        ensures
            r@ == self.scanned(),
    {
        self.tokens
    }

    /// The diagnostics reported so far.
    pub fn errors(&self) -> (r: &ErrorHandler)
        ensures
            r@ == self.diagnostics(),
    {
        &self.errors
    }

    fn is_end(&self) -> (r: bool)
        requires
            self.wf(),
        ensures
            r == (self.position() >= self.source().len()),
    {
        self.current >= self.chars.len()
    }

    fn check_next(&mut self, expected: char) -> (r: bool)
        requires
            old(self).wf(),
            expected != '\n',
        ensures
            final(self).wf(),
            r == (old(self).position() < old(self).source().len() && old(self).source()[old(
                self,
            ).position()] == expected),
            final(self).position() == old(self).position() + if r { 1int } else { 0int },
            final(self).source() == old(self).source(),
            final(self).start() == old(self).start(),
            final(self).scanned() == old(self).scanned(),
            final(self).diagnostics() == old(self).diagnostics(),
    {
        if self.current >= self.chars.len() {
            return false;
        }
        if self.chars[self.current] != expected {
            return false;
        }
        self.current += 1;
        true
    }

    fn advance_while(&mut self, class: Class)
        requires
            old(self).wf(),
        ensures
            final(self).wf(),
            final(self).position() == run(old(self).source(), old(self).position(), class),
            final(self).position() >= old(self).position(),
            final(self).source() == old(self).source(),
            final(self).start() == old(self).start(),
            final(self).scanned() == old(self).scanned(),
            final(self).diagnostics() == old(self).diagnostics(),
    {
        while self.current < self.chars.len() && is_member(class, self.chars[self.current])
            invariant
                self.wf(),
                self.current >= old(self).current,
                run(old(self).source@, old(self).current as int, class) == run(
                    self.source@,
                    self.current as int,
                    class,
                ),
                self.source@ == old(self).source@,
                self.start == old(self).start,
                self.tokens == old(self).tokens,
                self.errors == old(self).errors,
            decreases self.chars@.len() - self.current,
        {
            proof {
                lemma_newlines_bound(self.source@, self.current as int);
            }
            if self.chars[self.current] == '\n' {
                self.line += 1;
            }
            self.current += 1;
        }
    }

    fn get_value(&self) -> (r: String)
        requires
            self.wf(),
        ensures
            r@ == self.source().subrange(self.start(), self.position()),
    {
        self.source.as_str().substring_char(self.start, self.current).to_owned()
    }

    /// Adds a token of the kind `token_type` whose lexeme is the source
    /// from the start of the token up to the position, without a literal.
    pub fn add_token(&mut self, token_type: TokenType)
        requires
            old(self).wf(),
        ensures
            final(self).wf(),
            final(self).source() == old(self).source(),
            final(self).start() == old(self).start(),
            final(self).position() == old(self).position(),
            final(self).diagnostics() == old(self).diagnostics(),
            token_models(final(self).scanned()) == token_models(old(self).scanned()).push(
                TokenModel {
                    token_type,
                    lexeme: old(self).source().subrange(old(self).start(), old(self).position()),
                    literal: ValueModel::Nil,
                    line: old(self).line(),
                },
            ),
    {
        self.add_token_with_value(token_type, Value::Nil)
    }

    fn add_token_with_value(&mut self, token_type: TokenType, literal: Value)
        requires
            old(self).wf(),
        ensures
            final(self).wf(),
            final(self).source() == old(self).source(),
            final(self).start() == old(self).start(),
            final(self).position() == old(self).position(),
            final(self).diagnostics() == old(self).diagnostics(),
            token_models(final(self).scanned()) == token_models(old(self).scanned()).push(
                TokenModel {
                    token_type,
                    lexeme: old(self).source().subrange(old(self).start(), old(self).position()),
                    literal: literal@,
                    line: old(self).line(),
                },
            ),
    {
        let text: String = self.get_value();
        let token = Token { token_type, lexeme: text, literal, line: self.line };
        self.tokens.push(token);
        assert(token_models(self.tokens@) =~= token_models(old(self).tokens@).push(token@));
    }

    /// Scans from the position to the end of the source and adds the
    /// end-of-input token.
    pub fn scan_tokens(&mut self)
        requires
            old(self).wf(),
        ensures
            final(self).wf(),
            final(self).source() == old(self).source(),
            final(self).position() == final(self).source().len(),
            token_models(final(self).scanned()) == token_models(old(self).scanned()) + scan_from(
                old(self).source(),
                old(self).position(),
            ).tokens,
            final(self).diagnostics().lines == old(self).diagnostics().lines + scan_from(
                old(self).source(),
                old(self).position(),
            ).errors,
            final(self).diagnostics().had_error == (old(self).diagnostics().had_error || scan_from(
                old(self).source(),
                old(self).position(),
            ).errors.len() > 0),
            old(self).scanned().len() == 0 ==> ends_with_one_eof(token_models(final(self).scanned())),
            final(self).scanned().len() > 0,
            final(self).scanned().last().token_type == TokenType::Eof,
    {
        proof {
            lemma_scan_ends_with_one_eof(self.source@, self.current as int);
            assert(self.tokens@.len() == 0 ==> token_models(self.tokens@) + scan_from(
                self.source@,
                self.current as int,
            ).tokens =~= scan_from(self.source@, self.current as int).tokens);
        }
        while !self.is_end()
            invariant
                self.wf(),
                self.source@ == old(self).source@,
                token_models(self.tokens@) + scan_from(self.source@, self.current as int).tokens
                    == token_models(old(self).scanned()) + scan_from(
                    old(self).source@,
                    old(self).current as int,
                ).tokens,
                self.errors@.lines + scan_from(self.source@, self.current as int).errors == old(
                    self,
                ).diagnostics().lines + scan_from(
                    old(self).source@,
                    old(self).current as int,
                ).errors,
                (self.errors@.had_error || scan_from(self.source@, self.current as int).errors.len()
                    > 0) == (old(self).diagnostics().had_error || scan_from(
                    old(self).source@,
                    old(self).current as int,
                ).errors.len() > 0),
            decreases self.source@.len() - self.current,
        {
            self.start = self.current;
            let ghost before = *self;
            self.scan_token();
            proof {
                let lexed = lex(self.source@, before.current as int);
                let rest = scan_from(self.source@, self.current as int);
                assert(token_models(self.tokens@) =~= token_models(before.tokens@) + items(
                    lexed.token,
                ));
                assert(token_models(before.tokens@) + (items(lexed.token) + rest.tokens) =~= (
                token_models(before.tokens@) + items(lexed.token)) + rest.tokens);
                assert(before.errors@.lines + (items(lexed.error) + rest.errors) =~= (
                before.errors@.lines + items(lexed.error)) + rest.errors);
            }
        }
        let ghost before = *self;
        self.tokens.push(Token::eof(self.line));
        proof {
            let rest = scan_from(self.source@, self.current as int);
            assert(token_models(self.tokens@) =~= token_models(before.tokens@) + rest.tokens);
            assert(rest.errors.len() == 0);
            assert(self.errors@.lines + rest.errors =~= self.errors@.lines);
        }
    }

    fn scan_token(&mut self)
        requires
            old(self).wf(),
            old(self).start() == old(self).position(),
            old(self).position() < old(self).source().len(),
        ensures
            final(self).wf(),
            final(self).source() == old(self).source(),
            final(self).position() == lex(old(self).source(), old(self).position()).next,
            final(self).position() > old(self).position(),
            token_models(final(self).scanned()) == token_models(old(self).scanned()) + items(
                lex(old(self).source(), old(self).position()).token,
            ),
            final(self).diagnostics().lines == old(self).diagnostics().lines + items(
                lex(old(self).source(), old(self).position()).error,
            ),
            final(self).diagnostics().had_error == (old(self).diagnostics().had_error || lex(
                old(self).source(),
                old(self).position(),
            ).error is Some),
    {
        let ghost source = self.source@;
        let ghost pos = self.current as int;
        let ghost lexed = lex(source, pos);
        let ghost before = token_models(self.tokens@);
        let c = self.chars[self.current];
        let line = self.line;
        proof {
            lemma_newlines_bound(self.source@, self.current as int);
            lemma_line_step(source, pos);
            if pos + 1 < source.len() {
                lemma_line_step(source, pos + 1);
            }
        }
        if c == '\n' {
            self.line += 1;
        }
        self.current += 1;
        assert(self.line == line_at(source, pos + 1));
        assert(c != '\n' ==> line_at(source, pos + 1) == line_at(source, pos));
        if let Some(token_type) = single_kind(c) {
            self.add_token(token_type);
            assert(lexed == plain(source, pos, pos + 1, token_type));
            assert(before.push(lexed.token->0) =~= before + items(lexed.token));
        } else if let Some((alone, with_equal)) = paired_kinds(c) {
            if self.check_next('=') {
                assert(self.line == line_at(source, pos));
                self.add_token(with_equal);
                assert(lexed == plain(source, pos, pos + 2, with_equal));
            } else {
                self.add_token(alone);
                assert(lexed == plain(source, pos, pos + 1, alone));
            }
            assert(before.push(lexed.token->0) =~= before + items(lexed.token));
        } else if c == '/' {
            if self.check_next('/') {
                self.advance_while(Class::Comment);
                assert(lexed.token is None);
                assert(before =~= before + items(lexed.token));
            } else {
                self.add_token(TokenType::Slash);
                assert(lexed == plain(source, pos, pos + 1, TokenType::Slash));
                assert(before.push(lexed.token->0) =~= before + items(lexed.token));
            }
        } else if c == ' ' || c == '\r' || c == '\t' || c == '\n' {
            assert(lexed.token is None);
            assert(before =~= before + items(lexed.token));
        } else if c == '"' {
            self.string(line);
            return ;
        } else if is_digit(c) {
            self.number();
            assert(before.push(lexed.token->0) =~= before + items(lexed.token));
        } else if c.is_alpha() {
            self.identifier();
            assert(before.push(lexed.token->0) =~= before + items(lexed.token));
        } else {
            let message = joined(
                "Unexpected character: ",
                self.source.as_str().substring_char(self.start, self.current),
            );
            self.errors.error(self.line, message);
            assert(lexed.token is None);
            assert(lexed.error == Some(
                diagnostic(
                    line_at(source, pos),
                    Seq::empty(),
                    "Unexpected character: "@ + source.subrange(pos, pos + 1),
                ),
            ));
            assert(before =~= before + items(lexed.token));
            assert(self.errors@.lines =~= old(self).errors@.lines + items(lexed.error));
            return ;
        }
        assert(lexed.error is None);
        assert(self.errors@.lines =~= old(self).errors@.lines + items(lexed.error));
    }

    fn identifier(&mut self)
        requires
            old(self).wf(),
            old(self).start() + 1 == old(self).position(),
            alpha(old(self).source()[old(self).start()]),
        ensures
            final(self).wf(),
            final(self).source() == old(self).source(),
            final(self).position() == lex(old(self).source(), old(self).start()).next,
            final(self).position() > old(self).start(),
            final(self).diagnostics() == old(self).diagnostics(),
            lex(old(self).source(), old(self).start()).token is Some,
            token_models(final(self).scanned()) == token_models(old(self).scanned()).push(
                lex(old(self).source(), old(self).start()).token->0,
            ),
    {
        self.advance_while(Class::AlphaNumeric);
        proof {
            lemma_run_keeps_line(self.source@, old(self).current as int, Class::AlphaNumeric);
        }
        match keyword_kind(&self.chars, self.start, self.current) {
            Some(token_type) => self.add_token(token_type),
            None => self.add_token(TokenType::Identifier),
        }
    }

    fn number(&mut self)
        requires
            old(self).wf(),
            old(self).start() + 1 == old(self).position(),
            digit(old(self).source()[old(self).start()]),
        ensures
            final(self).wf(),
            final(self).source() == old(self).source(),
            final(self).position() == lex(old(self).source(), old(self).start()).next,
            final(self).position() > old(self).start(),
            final(self).diagnostics() == old(self).diagnostics(),
            lex(old(self).source(), old(self).start()).token is Some,
            token_models(final(self).scanned()) == token_models(old(self).scanned()).push(
                lex(old(self).source(), old(self).start()).token->0,
            ),
    {
        self.advance_while(Class::Digit);
        proof {
            lemma_run_keeps_line(self.source@, old(self).current as int, Class::Digit);
        }
        if self.current + 1 < self.chars.len() && self.chars[self.current] == '.' && is_digit(
            self.chars[self.current + 1],
        ) {
            let ghost whole = self.current as int;
            self.current += 1;
            self.advance_while(Class::Digit);
            proof {
                lemma_run_keeps_line(self.source@, whole + 1, Class::Digit);
            }
        }
        let value = self.get_value();
        self.add_token_with_value(TokenType::Number, Value::Number(value));
    }

    fn string(&mut self, line: usize)
        requires
            old(self).wf(),
            old(self).start() + 1 == old(self).position(),
            old(self).source()[old(self).start()] == '"',
            line == line_at(old(self).source(), old(self).start()),
        ensures
            final(self).wf(),
            final(self).source() == old(self).source(),
            final(self).position() == lex(old(self).source(), old(self).start()).next,
            final(self).position() > old(self).start(),
            token_models(final(self).scanned()) == token_models(old(self).scanned()) + items(
                lex(old(self).source(), old(self).start()).token,
            ),
            final(self).diagnostics().lines == old(self).diagnostics().lines + items(
                lex(old(self).source(), old(self).start()).error,
            ),
            final(self).diagnostics().had_error == (old(self).diagnostics().had_error || lex(
                old(self).source(),
                old(self).start(),
            ).error is Some),
    {
        self.advance_while(Class::Quoted);
        proof {
            lemma_run_end(self.source@, old(self).current as int, Class::Quoted);
        }
        if self.is_end() {
            self.errors.error(line, String::from_str("Unterminated string."));
            assert(token_models(self.tokens@) =~= token_models(old(self).scanned()) + items(
                lex(old(self).source(), old(self).start()).token,
            ));
            return ;
        }
        self.current += 1;
        let value = self.source.as_str().substring_char(self.start + 1, self.current - 1).to_owned();
        self.add_token_with_value(TokenType::String, Value::String(value));
        proof {
            let before = token_models(old(self).tokens@);
            let lexed = lex(old(self).source@, old(self).start as int);
            assert(before.push(lexed.token->0) =~= before + items(lexed.token));
        }
    }
}

} // verus!
