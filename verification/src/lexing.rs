//! What the scanner makes of a source text: the tokens and diagnostics,
//! as functions of the text.

use vstd::prelude::*;
use crate::char_extensions::{alpha, alpha_numeric, digit};
use crate::error::diagnostic;
use crate::token::{Token, TokenModel, TokenType};
use crate::value::ValueModel;

verus! {

/// The runs of characters that the scanner consumes greedily.
#[derive(Debug, Clone, Copy, PartialEq, Eq, Structural)]
pub enum Class {
    /// Decimal digits.
    Digit,
    /// What continues an identifier.
    AlphaNumeric,
    /// What continues a line comment: everything but a newline.
    Comment,
    /// What continues a string literal: everything but a double quote.
    Quoted,
}

/// Whether `c` continues a run of `class`.
pub open spec fn member(class: Class, c: char) -> bool {
    match class {
        Class::Digit => digit(c),
        Class::AlphaNumeric => alpha_numeric(c),
        Class::Comment => c != '\n',
        Class::Quoted => c != '"',
    }
}

/// Where the longest run of `class` that starts at `from` ends.
pub open spec fn run(source: Seq<char>, from: int, class: Class) -> int
    decreases source.len() - from,
{
    if 0 <= from < source.len() && member(class, source[from]) {
        run(source, from + 1, class)
    } else {
        from
    }
}

/// The number of newlines among the first `upto` characters.
pub open spec fn newlines(source: Seq<char>, upto: int) -> nat
    decreases upto,
{
    if upto <= 0 || upto > source.len() {
        0
    } else if source[upto - 1] == '\n' {
        newlines(source, upto - 1) + 1
    } else {
        newlines(source, upto - 1)
    }
}

/// The one-based line of the character at `pos`.
pub open spec fn line_at(source: Seq<char>, pos: int) -> nat {
    newlines(source, pos) + 1
}

/// The kind of a token that is one character and never more.
pub open spec fn single(c: char) -> Option<TokenType> {
    if c == '(' {
        Some(TokenType::LeftParen)
    } else if c == ')' {
        Some(TokenType::RightParen)
    } else if c == '{' {
        Some(TokenType::LeftBrace)
    } else if c == '}' {
        Some(TokenType::RightBrace)
    } else if c == ',' {
        Some(TokenType::Comma)
    } else if c == '.' {
        Some(TokenType::Dot)
    } else if c == '-' {
        Some(TokenType::Minus)
    } else if c == '+' {
        Some(TokenType::Plus)
    } else if c == ';' {
        Some(TokenType::Semicolon)
    } else if c == '*' {
        Some(TokenType::Star)
    } else {
        None
    }
}

/// The kinds of a token that may be followed by `=`: alone, and with it.
pub open spec fn paired(c: char) -> Option<(TokenType, TokenType)> {
    if c == '!' {
        Some((TokenType::Bang, TokenType::BangEqual))
    } else if c == '=' {
        Some((TokenType::Equal, TokenType::EqualEqual))
    } else if c == '<' {
        Some((TokenType::Less, TokenType::LessEqual))
    } else if c == '>' {
        Some((TokenType::Greater, TokenType::GreaterEqual))
    } else {
        None
    }
}

/// The kind of a reserved word.
pub open spec fn keyword(word: Seq<char>) -> Option<TokenType> {
    if word == "and"@ {
        Some(TokenType::And)
    } else if word == "class"@ {
        Some(TokenType::Class)
    } else if word == "else"@ {
        Some(TokenType::Else)
    } else if word == "false"@ {
        Some(TokenType::False)
    } else if word == "for"@ {
        Some(TokenType::For)
    } else if word == "fun"@ {
        Some(TokenType::Fun)
    } else if word == "if"@ {
        Some(TokenType::If)
    } else if word == "nil"@ {
        Some(TokenType::Nil)
    } else if word == "or"@ {
        Some(TokenType::Or)
    } else if word == "print"@ {
        Some(TokenType::Print)
    } else if word == "return"@ {
        Some(TokenType::Return)
    } else if word == "super"@ {
        Some(TokenType::Super)
    } else if word == "this"@ {
        Some(TokenType::This)
    } else if word == "true"@ {
        Some(TokenType::True)
    } else if word == "var"@ {
        Some(TokenType::Var)
    } else if word == "while"@ {
        Some(TokenType::While)
    } else {
        None
    }
}

/// What the scanner makes of the source at one position: where it goes
/// on, and the token or the diagnostic that it adds, if any.
pub ghost struct Lexed {
    pub next: int,
    pub token: Option<TokenModel>,
    pub error: Option<Seq<char>>,
}

/// A token without a literal: the source from `pos` up to `end`, on the
/// line of `pos`.
pub open spec fn plain(source: Seq<char>, pos: int, end: int, token_type: TokenType) -> Lexed {
    Lexed {
        next: end,
        token: Some(
            TokenModel {
                token_type,
                lexeme: source.subrange(pos, end),
                literal: ValueModel::Nil,
                line: line_at(source, pos),
            },
        ),
        error: None,
    }
}

/// Where a number literal that starts at `pos` ends: after its digits,
/// and after a fraction where a dot and a digit follow them.
pub open spec fn number_end(source: Seq<char>, pos: int) -> int {
    let whole = run(source, pos, Class::Digit);
    if whole + 1 < source.len() && source[whole] == '.' && digit(source[whole + 1]) {
        run(source, whole + 1, Class::Digit)
    } else {
        whole
    }
}

/// What the scanner makes of the source at `pos`, a position before the
/// end: the longest token that starts there.
pub open spec fn lex(source: Seq<char>, pos: int) -> Lexed {
    let c = source[pos];
    let equals = pos + 1 < source.len() && source[pos + 1] == '=';
    if single(c) is Some {
        plain(source, pos, pos + 1, single(c)->0)
    } else if let Some((alone, with_equal)) = paired(c) {
        if equals {
            plain(source, pos, pos + 2, with_equal)
        } else {
            plain(source, pos, pos + 1, alone)
        }
    } else if c == '/' {
        if pos + 1 < source.len() && source[pos + 1] == '/' {
            Lexed { next: run(source, pos + 2, Class::Comment), token: None, error: None }
        } else {
            plain(source, pos, pos + 1, TokenType::Slash)
        }
    } else if c == ' ' || c == '\r' || c == '\t' || c == '\n' {
        Lexed { next: pos + 1, token: None, error: None }
    } else if c == '"' {
        let end = run(source, pos + 1, Class::Quoted);
        if end >= source.len() {
            Lexed {
                next: end,
                token: None,
                error: Some(
                    diagnostic(line_at(source, pos), Seq::empty(), "Unterminated string."@),
                ),
            }
        } else {
            Lexed {
                next: end + 1,
                token: Some(
                    TokenModel {
                        token_type: TokenType::String,
                        lexeme: source.subrange(pos, end + 1),
                        literal: ValueModel::String(source.subrange(pos + 1, end)),
                        line: line_at(source, end),
                    },
                ),
                error: None,
            }
        }
    } else if digit(c) {
        let end = number_end(source, pos);
        Lexed {
            next: end,
            token: Some(
                TokenModel {
                    token_type: TokenType::Number,
                    lexeme: source.subrange(pos, end),
                    literal: ValueModel::Number(source.subrange(pos, end)),
                    line: line_at(source, pos),
                },
            ),
            error: None,
        }
    } else if alpha(c) {
        let end = run(source, pos, Class::AlphaNumeric);
        match keyword(source.subrange(pos, end)) {
            Some(token_type) => plain(source, pos, end, token_type),
            None => plain(source, pos, end, TokenType::Identifier),
        }
    } else {
        Lexed {
            next: pos + 1,
            token: None,
            error: Some(
                diagnostic(
                    line_at(source, pos),
                    Seq::empty(),
                    "Unexpected character: "@ + source.subrange(pos, pos + 1),
                ),
            ),
        }
    }
}

/// The zero or one items of an option, as a sequence.
pub open spec fn items<T>(item: Option<T>) -> Seq<T> {
    match item {
        Some(item) => seq![item],
        None => Seq::empty(),
    }
}

/// The tokens and the diagnostics of a scan.
pub ghost struct Scanned {
    pub tokens: Seq<TokenModel>,
    pub errors: Seq<Seq<char>>,
}

/// The scan of `source` from `pos` on: token after token up to the end,
/// then the end-of-input token on the last line.
pub open spec fn scan_from(source: Seq<char>, pos: int) -> Scanned
    decreases source.len() - pos,
{
    if pos < 0 || pos >= source.len() {
        Scanned {
            tokens: seq![Token::eof_model(line_at(source, source.len() as int))],
            errors: Seq::empty(),
        }
    } else {
        let lexed = lex(source, pos);
        let rest = scan_from(
            source,
            if pos < lexed.next <= source.len() {
                lexed.next
            } else {
                pos + 1
            },
        );
        Scanned {
            tokens: items(lexed.token) + rest.tokens,
            errors: items(lexed.error) + rest.errors,
        }
    }
}

/// The scan of a whole source.
pub open spec fn scan(source: Seq<char>) -> Scanned {
    scan_from(source, 0)
}

/// The tokens as mathematical values.
pub open spec fn token_models(tokens: Seq<Token>) -> Seq<TokenModel> {
    Seq::new(tokens.len(), |i: int| tokens[i]@)
}

/// Whether `tokens` ends with an end-of-input token and holds no other.
pub open spec fn ends_with_one_eof(tokens: Seq<TokenModel>) -> bool {
    &&& tokens.len() >= 1
    &&& tokens.last().token_type == TokenType::Eof
    &&& forall|i: int| 0 <= i < tokens.len() - 1 ==> (#[trigger] tokens[i]).token_type != TokenType::Eof
}

/// Every scan ends with exactly one end-of-input token.
pub proof fn lemma_scan_ends_with_one_eof(source: Seq<char>, pos: int)
    ensures
        ends_with_one_eof(scan_from(source, pos).tokens),
    decreases source.len() - pos,
{
    if 0 <= pos < source.len() {
        let lexed = lex(source, pos);
        let next = if pos < lexed.next <= source.len() {
            lexed.next
        } else {
            pos + 1
        };
        lemma_scan_ends_with_one_eof(source, next);
        let rest = scan_from(source, next).tokens;
        let all = scan_from(source, pos).tokens;
        assert(all == items(lexed.token) + rest);
        assert(lexed.token is Some ==> lexed.token->0.token_type != TokenType::Eof);
        assert forall|i: int| 0 <= i < all.len() - 1 implies (#[trigger] all[i]).token_type
            != TokenType::Eof by {
            if lexed.token is Some {
                if i > 0 {
                    assert(all[i] == rest[i - 1]);
                }
            } else {
                assert(all[i] == rest[i]);
            }
        }
    }
}

/// A newline begins a line; no other character does.
pub proof fn lemma_line_step(source: Seq<char>, pos: int)
    requires
        0 <= pos < source.len(),
    ensures
        newlines(source, pos + 1) == newlines(source, pos) + if source[pos] == '\n' {
            1nat
        } else {
            0nat
        },
{
}

/// No more newlines than characters.
pub proof fn lemma_newlines_bound(source: Seq<char>, upto: int)
    requires
        0 <= upto,
    ensures
        newlines(source, upto) <= upto,
    decreases upto,
{
    if 0 < upto <= source.len() {
        lemma_newlines_bound(source, upto - 1);
    }
}

/// A run ends within the source, at its end or before a character that
/// does not continue it.
pub proof fn lemma_run_end(source: Seq<char>, from: int, class: Class)
    requires
        0 <= from <= source.len(),
    ensures
        from <= run(source, from, class) <= source.len(),
        run(source, from, class) < source.len() ==> !member(
            class,
            source[run(source, from, class)],
        ),
    decreases source.len() - from,
{
    if from < source.len() && member(class, source[from]) {
        lemma_run_end(source, from + 1, class);
    }
}

/// A run of digits or of identifier characters stays on its line.
pub proof fn lemma_run_keeps_line(source: Seq<char>, from: int, class: Class)
    requires
        class == Class::Digit || class == Class::AlphaNumeric,
        0 <= from <= source.len(),
    ensures
        from <= run(source, from, class) <= source.len(),
        newlines(source, run(source, from, class)) == newlines(source, from),
    decreases source.len() - from,
{
    if from < source.len() && member(class, source[from]) {
        lemma_run_keeps_line(source, from + 1, class);
    }
}

} // verus!
