//! Printing expressions in a parenthesized prefix form.

use vstd::prelude::*;
use vstd::string::*;
use crate::expression::{Expr, ExprVisitor};
use crate::fragment::{pieces, Fragment, Piece};
use crate::string_extensions::joined;
use crate::value::Value;

verus! {

/// How a literal prints: a string without its quotes, `nil` as `nil`.
pub open spec fn printed_literal(value: Value) -> Piece {
    match value {
        Value::Number(numeral) => Piece::Numeral(numeral@),
        Value::Bool(b) => if b {
            Piece::Text("true"@)
        } else {
            Piece::Text("false"@)
        },
        Value::String(text) => Piece::Text(text@),
        Value::Nil => Piece::Text("nil"@),
        Value::Unitialized => Piece::Text("unitialized"@),
    }
}

/// `(name first)` or `(name first second)`.
pub open spec fn parenthesized(name: Seq<char>, first: Seq<Piece>, second: Option<Seq<Piece>>) -> Seq<
    Piece,
> {
    seq![Piece::Text("("@ + name), Piece::Text(" "@)] + first + match second {
        Some(second) => seq![Piece::Text(" "@)] + second,
        None => Seq::empty(),
    } + seq![Piece::Text(")"@)]
}

/// The expressions of `list` from `from` on, each after a space.
pub open spec fn printed_each(list: Seq<Expr>, from: int) -> Seq<Piece>
    decreases list, list.len() - from,
{
    if 0 <= from < list.len() {
        seq![Piece::Text(" "@)] + printed(list[from]) + printed_each(list, from + 1)
    } else {
        Seq::empty()
    }
}

/// An expression as a parenthesized prefix form: `(op left right)`,
/// `(op right)`, `(group expr)`, `(= name value)`,
/// `(call callee argument ...)`; a variable prints as its name.
pub open spec fn printed(expr: Expr) -> Seq<Piece>
    decreases expr,
{
    match expr {
        Expr::Binary { left, operator, right } => parenthesized(
            operator.lexeme@,
            printed(*left),
            Some(printed(*right)),
        ),
        Expr::Logical { left, operator, right } => parenthesized(
            operator.lexeme@,
            printed(*left),
            Some(printed(*right)),
        ),
        Expr::Grouping { expression } => parenthesized("group"@, printed(*expression), None),
        Expr::Literal { value } => seq![printed_literal(value)],
        Expr::Unary { operator, right } => parenthesized(operator.lexeme@, printed(*right), None),
        Expr::Variable { name } => seq![Piece::Text(name.lexeme@)],
        Expr::Assign { name, value } => parenthesized(
            "="@,
            seq![Piece::Text(name.lexeme@)],
            Some(printed(*value)),
        ),
        Expr::Call { callee, paren, arguments } => seq![
            Piece::Text("("@ + "call"@),
            Piece::Text(" "@),
        ] + printed(*callee) + printed_each(arguments@, 0) + seq![Piece::Text(")"@)],
    }
}

/// Prints expressions in a parenthesized prefix form.
#[derive(Debug)]
pub struct AstPrinter {}

fn emit(out: &mut Vec<Fragment>, fragment: Fragment)
    ensures
        pieces(final(out)@) == pieces(old(out)@).push(fragment@),
{
    out.push(fragment);
    assert(pieces(out@) =~= pieces(old(out)@).push(fragment@));
}

impl AstPrinter {
    /// A printer.
    pub fn new() -> (r: Self)
        ensures
            r == (AstPrinter {  }),
    {
        Self {  }
    }

    /// The printed form of `expr`, piece by piece.
    pub fn print(&mut self, expr: &Expr) -> (r: Vec<Fragment>)
        ensures
            pieces(r@) == printed(*expr),
    {
        expr.accept(self)
    }

    fn parenthesize(&mut self, name: &str, expr: &Expr, out: &mut Vec<Fragment>)
        requires
            *expr is Binary || *expr is Logical || *expr is Grouping || *expr is Unary,
        ensures
            pieces(final(out)@) == pieces(old(out)@) + match *expr {
                Expr::Binary { left, operator, right } => parenthesized(
                    name@,
                    printed(*left),
                    Some(printed(*right)),
                ),
                Expr::Logical { left, operator, right } => parenthesized(
                    name@,
                    printed(*left),
                    Some(printed(*right)),
                ),
                Expr::Grouping { expression } => parenthesized(name@, printed(*expression), None),
                Expr::Unary { operator, right } => parenthesized(name@, printed(*right), None),
                _ => Seq::empty(),
            },
        decreases *expr, 0int,
    {
        emit(out, Fragment::Text(joined("(", name)));
        emit(out, Fragment::Text(String::from_str(" ")));
        match expr {
            Expr::Binary { left, operator, right } => {
                self.emit_all(left, out);
                emit(out, Fragment::Text(String::from_str(" ")));
                self.emit_all(right, out);
                emit(out, Fragment::Text(String::from_str(")")));
                assert(pieces(out@) =~= pieces(old(out)@) + parenthesized(
                    name@,
                    printed(**left),
                    Some(printed(**right)),
                ));
            },
            Expr::Logical { left, operator, right } => {
                self.emit_all(left, out);
                emit(out, Fragment::Text(String::from_str(" ")));
                self.emit_all(right, out);
                emit(out, Fragment::Text(String::from_str(")")));
                assert(pieces(out@) =~= pieces(old(out)@) + parenthesized(
                    name@,
                    printed(**left),
                    Some(printed(**right)),
                ));
            },
            Expr::Grouping { expression } => {
                self.emit_all(expression, out);
                emit(out, Fragment::Text(String::from_str(")")));
                assert(pieces(out@) =~= pieces(old(out)@) + parenthesized(
                    name@,
                    printed(**expression),
                    None,
                ));
            },
            Expr::Unary { operator, right } => {
                self.emit_all(right, out);
                emit(out, Fragment::Text(String::from_str(")")));
                assert(pieces(out@) =~= pieces(old(out)@) + parenthesized(
                    name@,
                    printed(**right),
                    None,
                ));
            },
            _ => {},
        }
    }

    fn visit_each(&mut self, list: &Vec<Expr>, out: &mut Vec<Fragment>)
        ensures
            pieces(final(out)@) == pieces(old(out)@) + printed_each(list@, 0),
        decreases *list, 0int,
    {
        let mut i: usize = 0;
        while i < list.len()
            invariant
                i <= list@.len(),
                pieces(out@) + printed_each(list@, i as int) == pieces(old(out)@) + printed_each(
                    list@,
                    0,
                ),
            decreases list@.len() - i,
        {
            let ghost before = pieces(out@);
            emit(out, Fragment::Text(String::from_str(" ")));
            self.emit_all(&list[i], out);
            assert(pieces(out@) + printed_each(list@, i + 1) =~= before + printed_each(
                list@,
                i as int,
            ));
            i = i + 1;
        }
        assert(pieces(out@) =~= pieces(old(out)@) + printed_each(list@, 0));
    }

    fn emit_all(&mut self, expr: &Expr, out: &mut Vec<Fragment>)
        ensures
            pieces(final(out)@) == pieces(old(out)@) + printed(*expr),
        decreases *expr, 1int,
    {
        match expr {
            Expr::Binary { left, operator, right } => {
                self.parenthesize(operator.lexeme.as_str(), expr, out);
            },
            Expr::Logical { left, operator, right } => {
                self.parenthesize(operator.lexeme.as_str(), expr, out);
            },
            Expr::Grouping { expression } => {
                self.parenthesize("group", expr, out);
            },
            Expr::Literal { value } => {
                let fragment = match value {
                    Value::Number(numeral) => Fragment::Numeral(numeral.clone()),
                    Value::Bool(b) => Fragment::Text(
                        String::from_str(
                            if *b {
                                "true"
                            } else {
                                "false"
                            },
                        ),
                    ),
                    Value::String(text) => Fragment::Text(text.clone()),
                    Value::Nil => Fragment::Text(String::from_str("nil")),
                    Value::Unitialized => Fragment::Text(String::from_str("unitialized")),
                };
                emit(out, fragment);
                assert(pieces(out@) =~= pieces(old(out)@) + printed(*expr));
            },
            Expr::Unary { operator, right } => {
                self.parenthesize(operator.lexeme.as_str(), expr, out);
            },
            Expr::Variable { name } => {
                emit(out, Fragment::Text(name.lexeme.clone()));
                assert(pieces(out@) =~= pieces(old(out)@) + printed(*expr));
            },
            Expr::Assign { name, value } => {
                emit(out, Fragment::Text(joined("(", "=")));
                emit(out, Fragment::Text(String::from_str(" ")));
                emit(out, Fragment::Text(name.lexeme.clone()));
                emit(out, Fragment::Text(String::from_str(" ")));
                self.emit_all(value, out);
                emit(out, Fragment::Text(String::from_str(")")));
                assert(pieces(out@) =~= pieces(old(out)@) + printed(*expr));
            },
            Expr::Call { callee, paren, arguments } => {
                emit(out, Fragment::Text(joined("(", "call")));
                emit(out, Fragment::Text(String::from_str(" ")));
                self.emit_all(callee, out);
                self.visit_each(arguments, out);
                emit(out, Fragment::Text(String::from_str(")")));
                assert(pieces(out@) =~= pieces(old(out)@) + printed(*expr));
            },
        }
    }
}

impl<'a> ExprVisitor<'a, Vec<Fragment>> for AstPrinter {
    open spec fn prepared(&self) -> bool {
        true
    }

    open spec fn visits(&self, a: &'a Expr, after: &Self, r: Vec<Fragment>) -> bool {
        pieces(r@) == printed(*a)
    }

    fn visit(&mut self, a: &'a Expr) -> (r: Vec<Fragment>) {
        let mut out: Vec<Fragment> = Vec::new();
        assert(pieces(out@) =~= Seq::empty());
        self.emit_all(a, &mut out);
        assert(Seq::<Piece>::empty() + printed(*a) =~= printed(*a));
        out
    }
}

} // verus!
