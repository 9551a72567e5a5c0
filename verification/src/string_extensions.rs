//! Strings by character index, and the texts that diagnostics are made
//! of.

use vstd::prelude::*;
use vstd::string::*;

verus! {

/// `text` cut to the characters from `start` up to `end`, both clipped to
/// the length of `text`.
pub open spec fn clipped(text: Seq<char>, start: int, end: int) -> Seq<char> {
    let from = if start < text.len() { start } else { text.len() as int };
    let to = if end < text.len() { end } else { text.len() as int };
    text.subrange(from, to)
}

/// The character at `index`, or NUL past the end.
pub open spec fn char_or_nul(text: Seq<char>, index: int) -> char {
    if index < text.len() {
        text[index]
    } else {
        '\0'
    }
}

/// Character-indexed access to a string.
pub trait StringExtensions {
    fn substring(&self, start: usize, end: usize) -> String
        requires
            start <= end,
    ;

    fn char_at(&self, index: usize) -> char;
}

impl StringExtensions for String {
    fn substring(&self, start: usize, end: usize) -> (r: String)
        ensures
            r@ == clipped(self@, start as int, end as int),
    {
        let text = self.as_str();
        let len = text.unicode_len();
        let from = if start < len { start } else { len };
        let to = if end < len { end } else { len };
        text.substring_char(from, to).to_owned()
    }

    fn char_at(&self, index: usize) -> (c: char)
        ensures
            c == char_or_nul(self@, index as int),
    {
        let text = self.as_str();
        if index < text.unicode_len() {
            text.get_char(index)
        } else {
            '\0'
        }
    }
}

/// The characters of `text`, in order.
pub fn characters(text: &str) -> (r: Vec<char>)
    ensures
        r@ == text@,
{
    let mut r: Vec<char> = Vec::new();
    for c in it: text.chars()
        invariant
            r@ == it.seq().subrange(0, it.index() as int),
            it.seq() == text@,
    {
        r.push(c);
    }
    assert(r@ =~= text@);
    r
}

/// The character that writes the digit `d`.
pub open spec fn digit_char(d: nat) -> char {
    if d == 0 {
        '0'
    } else if d == 1 {
        '1'
    } else if d == 2 {
        '2'
    } else if d == 3 {
        '3'
    } else if d == 4 {
        '4'
    } else if d == 5 {
        '5'
    } else if d == 6 {
        '6'
    } else if d == 7 {
        '7'
    } else if d == 8 {
        '8'
    } else {
        '9'
    }
}

/// The decimal numeral of `n`, without leading zeros.
pub open spec fn decimal(n: nat) -> Seq<char>
    decreases n,
{
    if n < 10 {
        seq![digit_char(n)]
    } else {
        decimal(n / 10).push(digit_char(n % 10))
    }
}

fn digit_text(d: usize) -> (r: &'static str)
    requires
        d < 10,
    ensures
        r@ == seq![digit_char(d as nat)],
{
    proof {
        reveal_strlit("0");
        reveal_strlit("1");
        reveal_strlit("2");
        reveal_strlit("3");
        reveal_strlit("4");
        reveal_strlit("5");
        reveal_strlit("6");
        reveal_strlit("7");
        reveal_strlit("8");
        reveal_strlit("9");
    }
    let r = if d == 0 {
        "0"
    } else if d == 1 {
        "1"
    } else if d == 2 {
        "2"
    } else if d == 3 {
        "3"
    } else if d == 4 {
        "4"
    } else if d == 5 {
        "5"
    } else if d == 6 {
        "6"
    } else if d == 7 {
        "7"
    } else if d == 8 {
        "8"
    } else {
        "9"
    };
    assert(r@ =~= seq![digit_char(d as nat)]);
    r
}

/// Writes `n` in decimal.
pub fn decimal_text(n: usize) -> (r: String)
    ensures
        r@ == decimal(n as nat),
    decreases n,
{
    if n < 10 {
        String::from_str(digit_text(n))
    } else {
        let mut r = decimal_text(n / 10);
        r.append(digit_text(n % 10));
        assert(r@ =~= decimal(n as nat));
        r
    }
}

/// `a` followed by `b`.
pub fn joined(a: &str, b: &str) -> (r: String)
    ensures
        r@ == a@ + b@,
{
    let mut r = String::from_str(a);
    r.append(b);
    r
}

} // verus!
