//! What the evaluator computes: the value of an expression, told in one
//! piece, and the proof that the machine arrives at it step by step.
//!
//! This covers the expressions that need nothing from the host and enter
//! no function: literals but numbers, variables, groupings, `!` and `-`,
//! `and` and `or`, `==` `!=` `<` `<=` `>` `>=`, and assignments.

use vstd::prelude::*;
use crate::environment::{read, written, Scope};
use crate::error::RuntimeError;
use crate::expression::Expr;
use crate::machine::{
    deliver, evaluate, joins, literal_object, next, Action, Control, Machine, PendingModel, Step,
};
use crate::object::Object;
use crate::operators::{arithmetic, binary_rule, unary_rule, Rule};
use crate::token::TokenType;
use crate::value::Value;

verus! {

/// Whether an expression needs nothing from the host and enters no
/// function.
pub open spec fn simple(e: &Expr) -> bool
    decreases e,
{
    match e {
        Expr::Literal { value } => !(value is Number),
        Expr::Variable { name } => true,
        Expr::Grouping { expression } => simple(&**expression),
        Expr::Unary { operator, right } => simple(&**right),
        Expr::Logical { left, operator, right } => simple(&**left) && simple(&**right),
        Expr::Binary { left, operator, right } => arithmetic(operator.token_type) is None && simple(
            &**left,
        ) && simple(&**right),
        Expr::Assign { name, value } => simple(&**value),
        Expr::Call { callee, paren, arguments } => false,
    }
}

/// What an evaluation comes to: the scopes afterwards, and the value or
/// the error.
pub ghost struct Outcome<'a> {
    pub scopes: Seq<Scope<'a>>,
    pub value: Result<Object<'a>, RuntimeError>,
}

/// The value of a simple expression in the scope `scope`. Operands are
/// evaluated from left to right, and an error ends the evaluation. `or`
/// yields its left operand where that is truthy, `and` where it is
/// falsey, and the right operand is evaluated only where it is needed. An
/// assignment yields the value that it assigns.
pub open spec fn value_of<'a>(e: &'a Expr, scopes: Seq<Scope<'a>>, scope: usize) -> Outcome<'a>
    decreases e,
{
    match e {
        Expr::Literal { value } => Outcome { scopes, value: Ok(literal_object(*value)) },
        Expr::Variable { name } => Outcome { scopes, value: read(scopes, scope as int, *name) },
        Expr::Grouping { expression } => value_of(&**expression, scopes, scope),
        Expr::Unary { operator, right } => {
            let operand = value_of(&**right, scopes, scope);
            match operand.value {
                Ok(value) => match unary_rule(operator.token_type, value) {
                    Ok(result) => Outcome { scopes: operand.scopes, value: Ok(result) },
                    Err(kind) => Outcome {
                        scopes: operand.scopes,
                        value: Err(RuntimeError { line: operator.line, kind }),
                    },
                },
                Err(_) => operand,
            }
        },
        Expr::Logical { left, operator, right } => {
            let first = value_of(&**left, scopes, scope);
            match first.value {
                Ok(value) => if (operator.token_type == TokenType::Or) == value.truthy() {
                    first
                } else {
                    value_of(&**right, first.scopes, scope)
                },
                Err(_) => first,
            }
        },
        Expr::Binary { left, operator, right } => {
            let first = value_of(&**left, scopes, scope);
            match first.value {
                Ok(a) => {
                    let second = value_of(&**right, first.scopes, scope);
                    match second.value {
                        Ok(b) => match binary_rule(operator.token_type, a, b) {
                            Rule::Value(result) => Outcome {
                                scopes: second.scopes,
                                value: Ok(result),
                            },
                            Rule::Error(kind) => Outcome {
                                scopes: second.scopes,
                                value: Err(RuntimeError { line: operator.line, kind }),
                            },
                            _ => Outcome { scopes: second.scopes, value: Ok(Object::Nil) },
                        },
                        Err(_) => second,
                    }
                },
                Err(_) => first,
            }
        },
        Expr::Assign { name, value } => {
            let assigned = value_of(&**value, scopes, scope);
            match assigned.value {
                Ok(value) => match written(assigned.scopes, scope as int, *name, value) {
                    Ok(scopes) => Outcome { scopes, value: Ok(value) },
                    Err(error) => Outcome { scopes: assigned.scopes, value: Err(error) },
                },
                Err(_) => assigned,
            }
        },
        Expr::Call { callee, paren, arguments } => Outcome { scopes, value: Ok(Object::Nil) },
    }
}

/// The number of steps that the evaluation of a simple expression takes,
/// where it comes to a value.
pub open spec fn cost<'a>(e: &'a Expr, scopes: Seq<Scope<'a>>, scope: usize) -> nat
    decreases e,
{
    match e {
        Expr::Literal { value } => 1,
        Expr::Variable { name } => 1,
        Expr::Grouping { expression } => 1 + cost(&**expression, scopes, scope),
        Expr::Unary { operator, right } => 2 + cost(&**right, scopes, scope),
        Expr::Logical { left, operator, right } => {
            let first = value_of(&**left, scopes, scope);
            2 + cost(&**left, scopes, scope) + if first.value is Ok && (operator.token_type
                == TokenType::Or) != first.value->Ok_0.truthy() {
                cost(&**right, first.scopes, scope)
            } else {
                0
            }
        },
        Expr::Binary { left, operator, right } => 3 + cost(&**left, scopes, scope) + cost(
            &**right,
            value_of(&**left, scopes, scope).scopes,
            scope,
        ),
        Expr::Assign { name, value } => 2 + cost(&**value, scopes, scope),
        Expr::Call { callee, paren, arguments } => 0,
    }
}

/// The machine after `n` steps, where none of them asks anything of the
/// host or joins two strings.
pub open spec fn after<'a>(m: Machine<'a>, n: nat) -> Option<Machine<'a>>
    decreases n,
{
    if n == 0 {
        Some(m)
    } else if joins(m) is None && next(m).action == Action::<'a>::Continue {
        after(next(m).machine, (n - 1) as nat)
    } else {
        None
    }
}

/// Steps add up.
pub proof fn lemma_after_adds<'a>(m: Machine<'a>, a: nat, b: nat)
    ensures
        after(m, a + b) == match after(m, a) {
            Some(middle) => after(middle, b),
            None => None,
        },
    decreases a,
{
    if a > 0 && joins(m) is None && next(m).action == Action::<'a>::Continue {
        lemma_after_adds(next(m).machine, (a - 1) as nat, b);
        assert((a + b - 1) as nat == (a - 1) as nat + b);
    }
}

proof fn lemma_one_step<'a>(m: Machine<'a>)
    requires
        joins(m) is None,
        next(m).action == Action::<'a>::Continue,
    ensures
        after(m, 1) == Some(next(m).machine),
{
    assert(after(next(m).machine, 0) == Some(next(m).machine));
}

proof fn lemma_first_step<'a>(m: Machine<'a>, n: nat)
    requires
        joins(m) is None,
        next(m).action == Action::<'a>::Continue,
    ensures
        after(m, 1 + n) == after(next(m).machine, n),
{
    assert((1 + n - 1) as nat == n);
}

/// The machine that has the value `value` for what waited for the
/// expression that `m` was to evaluate.
pub open spec fn produced<'a>(m: Machine<'a>, scopes: Seq<Scope<'a>>, value: Object<'a>) -> Machine<'a> {
    Machine { scopes, control: Control::Produce(value), ..m }
}

/// Whether the machine `m`, which is to evaluate `e`, arrives at the value
/// of `e`.
pub open spec fn arrives<'a>(m: Machine<'a>, e: &'a Expr) -> bool {
    after(m, cost(e, m.scopes, m.scope)) == Some(
        produced(
            m,
            value_of(e, m.scopes, m.scope).scopes,
            value_of(e, m.scopes, m.scope).value->Ok_0,
        ),
    )
}

proof fn lemma_unary_arrives<'a>(m: Machine<'a>, e: &'a Expr)
    requires
        simple(e),
        *e is Unary,
        m.control == Control::Expression(e),
        value_of(e, m.scopes, m.scope).value is Ok,
    ensures
        arrives(m, e),
    decreases e, 0int,
{
    if let Expr::Unary { operator, right } = e {
        let first = next(m).machine;
        let inner = cost(&**right, m.scopes, m.scope);
        lemma_machine_evaluates(first, &**right);
        let operand = value_of(&**right, m.scopes, m.scope);
        let ready = produced(first, operand.scopes, operand.value->Ok_0);
        assert(ready.pop().stack =~= m.stack);
        lemma_one_step(ready);
        lemma_after_adds(first, inner, 1);
        lemma_first_step(m, inner + 1);
    }
}

proof fn lemma_logical_arrives<'a>(m: Machine<'a>, e: &'a Expr)
    requires
        simple(e),
        *e is Logical,
        m.control == Control::Expression(e),
        value_of(e, m.scopes, m.scope).value is Ok,
    ensures
        arrives(m, e),
    decreases e, 0int,
{
    if let Expr::Logical { left, operator, right } = e {
        let first = next(m).machine;
        let inner = cost(&**left, m.scopes, m.scope);
        lemma_machine_evaluates(first, &**left);
        let operand = value_of(&**left, m.scopes, m.scope);
        let ready = produced(first, operand.scopes, operand.value->Ok_0);
        assert(ready.pop().stack =~= m.stack);
        let chosen = next(ready).machine;
        if (operator.token_type == TokenType::Or) == operand.value->Ok_0.truthy() {
            lemma_one_step(ready);
            lemma_after_adds(first, inner, 1);
            lemma_first_step(m, inner + 1);
        } else {
            let rest = cost(&**right, operand.scopes, m.scope);
            lemma_machine_evaluates(chosen, &**right);
            lemma_first_step(ready, rest);
            lemma_after_adds(first, inner, 1 + rest);
            lemma_first_step(m, inner + (1 + rest));
        }
    }
}

proof fn lemma_binary_arrives<'a>(m: Machine<'a>, e: &'a Expr)
    requires
        simple(e),
        *e is Binary,
        m.control == Control::Expression(e),
        value_of(e, m.scopes, m.scope).value is Ok,
    ensures
        arrives(m, e),
    decreases e, 0int,
{
    if let Expr::Binary { left, operator, right } = e {
        let first = next(m).machine;
        let inner = cost(&**left, m.scopes, m.scope);
        lemma_machine_evaluates(first, &**left);
        let a = value_of(&**left, m.scopes, m.scope);
        let held = produced(first, a.scopes, a.value->Ok_0);
        assert(held.pop().stack =~= m.stack);
        let second = next(held).machine;
        let rest = cost(&**right, a.scopes, m.scope);
        lemma_machine_evaluates(second, &**right);
        let b = value_of(&**right, a.scopes, m.scope);
        let ready = produced(second, b.scopes, b.value->Ok_0);
        assert(ready.pop().stack =~= m.stack);
        lemma_one_step(ready);
        lemma_after_adds(second, rest, 1);
        lemma_first_step(held, rest + 1);
        lemma_after_adds(first, inner, 1 + (rest + 1));
        lemma_first_step(m, inner + (1 + (rest + 1)));
    }
}

proof fn lemma_assign_arrives<'a>(m: Machine<'a>, e: &'a Expr)
    requires
        simple(e),
        *e is Assign,
        m.control == Control::Expression(e),
        value_of(e, m.scopes, m.scope).value is Ok,
    ensures
        arrives(m, e),
    decreases e, 0int,
{
    if let Expr::Assign { name, value } = e {
        let first = next(m).machine;
        let inner = cost(&**value, m.scopes, m.scope);
        lemma_machine_evaluates(first, &**value);
        let assigned = value_of(&**value, m.scopes, m.scope);
        let ready = produced(first, assigned.scopes, assigned.value->Ok_0);
        assert(ready.pop().stack =~= m.stack);
        lemma_one_step(ready);
        lemma_after_adds(first, inner, 1);
        lemma_first_step(m, inner + 1);
    }
}

/// The machine arrives at the value of every simple expression that has
/// one: after [`cost`] steps the value is handed to what waited for the
/// expression, the scopes are those that [`value_of`] gives, and nothing
/// else has changed.
pub proof fn lemma_machine_evaluates<'a>(m: Machine<'a>, e: &'a Expr)
    requires
        simple(e),
        m.control == Control::Expression(e),
        value_of(e, m.scopes, m.scope).value is Ok,
    ensures
        arrives(m, e),
    decreases e, 1int,
{
    match e {
        Expr::Literal { value } => {
            lemma_one_step(m);
        },
        Expr::Variable { name } => {
            lemma_one_step(m);
        },
        Expr::Grouping { expression } => {
            lemma_machine_evaluates(next(m).machine, &**expression);
            lemma_first_step(m, cost(&**expression, m.scopes, m.scope));
        },
        Expr::Unary { operator, right } => {
            lemma_unary_arrives(m, e);
        },
        Expr::Logical { left, operator, right } => {
            lemma_logical_arrives(m, e);
        },
        Expr::Binary { left, operator, right } => {
            lemma_binary_arrives(m, e);
        },
        Expr::Assign { name, value } => {
            lemma_assign_arrives(m, e);
        },
        Expr::Call { callee, paren, arguments } => {},
    }
}

/// The number of steps that the evaluation of a simple expression takes
/// before the step that fails, where it comes to an error.
pub open spec fn toll<'a>(e: &'a Expr, scopes: Seq<Scope<'a>>, scope: usize) -> nat
    decreases e,
{
    match e {
        Expr::Grouping { expression } => 1 + toll(&**expression, scopes, scope),
        Expr::Unary { operator, right } => 1 + if value_of(&**right, scopes, scope).value is Ok {
            cost(&**right, scopes, scope)
        } else {
            toll(&**right, scopes, scope)
        },
        Expr::Logical { left, operator, right } => {
            let first = value_of(&**left, scopes, scope);
            1 + if first.value is Ok {
                cost(&**left, scopes, scope) + 1 + toll(&**right, first.scopes, scope)
            } else {
                toll(&**left, scopes, scope)
            }
        },
        Expr::Binary { left, operator, right } => {
            let first = value_of(&**left, scopes, scope);
            1 + if first.value is Ok {
                cost(&**left, scopes, scope) + 1 + if value_of(
                    &**right,
                    first.scopes,
                    scope,
                ).value is Ok {
                    cost(&**right, first.scopes, scope)
                } else {
                    toll(&**right, first.scopes, scope)
                }
            } else {
                toll(&**left, scopes, scope)
            }
        },
        Expr::Assign { name, value } => 1 + if value_of(&**value, scopes, scope).value is Ok {
            cost(&**value, scopes, scope)
        } else {
            toll(&**value, scopes, scope)
        },
        _ => 0,
    }
}

/// Whether the machine `m`, which is to evaluate `e`, arrives at the error
/// of `e`: after [`toll`] steps it takes the step that aborts the
/// evaluation with that error, in the scopes that [`value_of`] gives.
pub open spec fn aborts<'a>(m: Machine<'a>, e: &'a Expr) -> bool {
    match after(m, toll(e, m.scopes, m.scope)) {
        Some(last) => joins(last) is None && next(last) == m.over(
            value_of(e, m.scopes, m.scope).scopes,
        ).fail(value_of(e, m.scopes, m.scope).value->Err_0),
        None => false,
    }
}

proof fn lemma_unary_aborts<'a>(m: Machine<'a>, e: &'a Expr)
    requires
        simple(e),
        *e is Unary,
        m.control == Control::Expression(e),
        value_of(e, m.scopes, m.scope).value is Err,
    ensures
        aborts(m, e),
    decreases e, 0int,
{
    if let Expr::Unary { operator, right } = e {
        let first = next(m).machine;
        let operand = value_of(&**right, m.scopes, m.scope);
        if operand.value is Ok {
            let inner = cost(&**right, m.scopes, m.scope);
            lemma_machine_evaluates(first, &**right);
            let ready = produced(first, operand.scopes, operand.value->Ok_0);
            assert(ready.pop().stack =~= m.stack);
            lemma_first_step(m, inner);
        } else {
            lemma_machine_fails(first, &**right);
            lemma_first_step(m, toll(&**right, m.scopes, m.scope));
        }
    }
}

proof fn lemma_logical_aborts<'a>(m: Machine<'a>, e: &'a Expr)
    requires
        simple(e),
        *e is Logical,
        m.control == Control::Expression(e),
        value_of(e, m.scopes, m.scope).value is Err,
    ensures
        aborts(m, e),
    decreases e, 0int,
{
    if let Expr::Logical { left, operator, right } = e {
        let first = next(m).machine;
        let operand = value_of(&**left, m.scopes, m.scope);
        if operand.value is Ok {
            let inner = cost(&**left, m.scopes, m.scope);
            lemma_machine_evaluates(first, &**left);
            let ready = produced(first, operand.scopes, operand.value->Ok_0);
            assert(ready.pop().stack =~= m.stack);
            let chosen = next(ready).machine;
            let rest = toll(&**right, operand.scopes, m.scope);
            lemma_machine_fails(chosen, &**right);
            lemma_first_step(ready, rest);
            lemma_after_adds(first, inner, 1 + rest);
            lemma_first_step(m, inner + (1 + rest));
            assert(inner + (1 + rest) == inner + 1 + rest);
        } else {
            lemma_machine_fails(first, &**left);
            lemma_first_step(m, toll(&**left, m.scopes, m.scope));
        }
    }
}

proof fn lemma_binary_aborts<'a>(m: Machine<'a>, e: &'a Expr)
    requires
        simple(e),
        *e is Binary,
        m.control == Control::Expression(e),
        value_of(e, m.scopes, m.scope).value is Err,
    ensures
        aborts(m, e),
    decreases e, 0int,
{
    if let Expr::Binary { left, operator, right } = e {
        let first = next(m).machine;
        let a = value_of(&**left, m.scopes, m.scope);
        if a.value is Ok {
            let inner = cost(&**left, m.scopes, m.scope);
            lemma_machine_evaluates(first, &**left);
            let held = produced(first, a.scopes, a.value->Ok_0);
            assert(held.pop().stack =~= m.stack);
            let second = next(held).machine;
            let b = value_of(&**right, a.scopes, m.scope);
            if b.value is Ok {
                let rest = cost(&**right, a.scopes, m.scope);
                lemma_machine_evaluates(second, &**right);
                let ready = produced(second, b.scopes, b.value->Ok_0);
                assert(ready.pop().stack =~= m.stack);
                lemma_first_step(held, rest);
                lemma_after_adds(first, inner, 1 + rest);
                lemma_first_step(m, inner + (1 + rest));
                assert(inner + (1 + rest) == inner + 1 + rest);
            } else {
                let rest = toll(&**right, a.scopes, m.scope);
                lemma_machine_fails(second, &**right);
                lemma_first_step(held, rest);
                lemma_after_adds(first, inner, 1 + rest);
                lemma_first_step(m, inner + (1 + rest));
                assert(inner + (1 + rest) == inner + 1 + rest);
            }
        } else {
            lemma_machine_fails(first, &**left);
            lemma_first_step(m, toll(&**left, m.scopes, m.scope));
        }
    }
}

proof fn lemma_assign_aborts<'a>(m: Machine<'a>, e: &'a Expr)
    requires
        simple(e),
        *e is Assign,
        m.control == Control::Expression(e),
        value_of(e, m.scopes, m.scope).value is Err,
    ensures
        aborts(m, e),
    decreases e, 0int,
{
    if let Expr::Assign { name, value } = e {
        let first = next(m).machine;
        let assigned = value_of(&**value, m.scopes, m.scope);
        if assigned.value is Ok {
            let inner = cost(&**value, m.scopes, m.scope);
            lemma_machine_evaluates(first, &**value);
            let ready = produced(first, assigned.scopes, assigned.value->Ok_0);
            assert(ready.pop().stack =~= m.stack);
            lemma_first_step(m, inner);
        } else {
            lemma_machine_fails(first, &**value);
            lemma_first_step(m, toll(&**value, m.scopes, m.scope));
        }
    }
}

/// The machine arrives at the error of every simple expression that has
/// one: the error of the operand that fails first, from left to right.
pub proof fn lemma_machine_fails<'a>(m: Machine<'a>, e: &'a Expr)
    requires
        simple(e),
        m.control == Control::Expression(e),
        value_of(e, m.scopes, m.scope).value is Err,
    ensures
        aborts(m, e),
    decreases e, 1int,
{
    match e {
        Expr::Literal { value } => {},
        Expr::Variable { name } => {
            assert(after(m, 0) == Some(m));
        },
        Expr::Grouping { expression } => {
            lemma_machine_fails(next(m).machine, &**expression);
            lemma_first_step(m, toll(&**expression, m.scopes, m.scope));
        },
        Expr::Unary { operator, right } => {
            lemma_unary_aborts(m, e);
        },
        Expr::Logical { left, operator, right } => {
            lemma_logical_aborts(m, e);
        },
        Expr::Binary { left, operator, right } => {
            lemma_binary_aborts(m, e);
        },
        Expr::Assign { name, value } => {
            lemma_assign_aborts(m, e);
        },
        Expr::Call { callee, paren, arguments } => {},
    }
}

/// Short circuit, in whole evaluations: where the left operand of `or` is
/// truthy, or that of `and` is falsey, the whole takes one step more than
/// the left operand and one to begin with, whatever the right operand is:
/// the right operand is not evaluated.
pub proof fn lemma_short_circuit_skips<'a>(e: &'a Expr, scopes: Seq<Scope<'a>>, scope: usize)
    requires
        e matches Expr::Logical { left, operator, right } && ({
            let first = value_of(&**left, scopes, scope);
            first.value is Ok && (operator.token_type == TokenType::Or)
                == first.value->Ok_0.truthy()
        }),
    ensures
        e matches Expr::Logical { left, operator, right } && value_of(e, scopes, scope)
            == value_of(&**left, scopes, scope) && cost(e, scopes, scope) == 2 + cost(
            &**left,
            scopes,
            scope,
        ),
{
}

} // verus!
