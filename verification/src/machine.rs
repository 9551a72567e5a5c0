//! What one step of the evaluator does: the interpreter as a machine
//! with a control, a stack of what waits for values, and scopes.

use vstd::prelude::*;
use crate::environment::{
    defined, keeps, lemma_defined_keeps, lemma_written_keeps, names_of, read, well_formed, written,
    Scope,
};
use crate::error::{RuntimeError, RuntimeErrorKind};
use crate::expression::Expr;
use crate::object::Object;
use crate::operators::{binary_rule, unary_rule, Request, Rule};
use crate::returner::landed;
use crate::statement::Stmt;
use crate::token::{Token, TokenType};
use crate::value::Value;

verus! {

/// What the host is to do after a step.
#[derive(Debug)]
pub enum Action<'a> {
    /// Nothing: step again.
    Continue,
    /// Compute the number and hand it over with [`Interpreter::supply`].
    Request(Request<'a>),
    /// Write the value and a newline to standard output.
    Print(Object<'a>),
    /// The expression or statement is done; this is its value.
    Complete(Object<'a>),
    /// The evaluation was aborted.
    Failed(RuntimeError),
}

/// What the interpreter does next.
#[derive(Debug)]
pub enum Control<'a> {
    /// Nothing is being evaluated.
    Idle,
    /// A number is awaited from the host.
    Await(Request<'a>),
    /// Evaluate an expression.
    Expression(&'a Expr),
    /// Execute a statement.
    Statement(&'a Stmt),
    /// Hand a value to what waits for it. A statement that is done hands
    /// over `Nil`.
    Produce(Object<'a>),
    /// A `return` is unwinding to the call that it ends.
    Unwind,
}

/// What waits for a value: one entry of the interpreter's stack.
#[derive(Debug)]
#[allow(inconsistent_fields)]
pub enum Pending<'a> {
    /// Apply a unary operator to the value.
    Unary { operator: &'a Token },
    /// The value is the left operand: evaluate the right one.
    BinaryRight { operator: &'a Token, right: &'a Expr },
    /// The value is the right operand: apply the operator.
    BinaryApply { operator: &'a Token, left: Object<'a> },
    /// The value is the left operand of `and` or `or`.
    LogicalRight { operator: &'a Token, right: &'a Expr },
    /// Assign the value to a variable.
    AssignTo { name: &'a Token },
    /// The value is the callee: evaluate the arguments.
    Callee { paren: &'a Token, arguments: &'a Vec<Expr> },
    /// The value is the next argument.
    Arguments {
        paren: &'a Token,
        arguments: &'a Vec<Expr>,
        callee: Object<'a>,
        values: Vec<Object<'a>>,
    },
    /// Drop the value of an expression statement.
    Discard,
    /// Print the value.
    Print,
    /// Bind the value to a new variable.
    Define { name: &'a Token },
    /// The value is the condition of an `if`.
    Branch { then_branch: &'a Stmt, else_branch: Option<&'a Stmt> },
    /// The value is the condition of a `while`.
    WhileTest { condition: &'a Expr, body: &'a Stmt },
    /// The body of a `while` is done: test again.
    WhileBody { condition: &'a Expr, body: &'a Stmt },
    /// Go on with the statement at `next`.
    Sequence { statements: &'a Vec<Stmt>, next: usize },
    /// A block ends here: go back to the scope around it.
    Scope { scope: usize },
    /// A function body ends here: go back to the caller's scope.
    Call { scope: usize },
    /// The value is the operand of a `return`.
    ReturnValue,
}

/// A stack entry with the arguments evaluated so far as a sequence.
#[allow(inconsistent_fields)]
pub ghost enum PendingModel<'a> {
    Unary { operator: &'a Token },
    BinaryRight { operator: &'a Token, right: &'a Expr },
    BinaryApply { operator: &'a Token, left: Object<'a> },
    LogicalRight { operator: &'a Token, right: &'a Expr },
    AssignTo { name: &'a Token },
    Callee { paren: &'a Token, arguments: &'a Vec<Expr> },
    Arguments {
        paren: &'a Token,
        arguments: &'a Vec<Expr>,
        callee: Object<'a>,
        values: Seq<Object<'a>>,
    },
    Discard,
    Print,
    Define { name: &'a Token },
    Branch { then_branch: &'a Stmt, else_branch: Option<&'a Stmt> },
    WhileTest { condition: &'a Expr, body: &'a Stmt },
    WhileBody { condition: &'a Expr, body: &'a Stmt },
    Sequence { statements: &'a Vec<Stmt>, next: usize },
    Scope { scope: usize },
    Call { scope: usize },
    ReturnValue,
}

impl<'a> View for Pending<'a> {
    type V = PendingModel<'a>;

    open spec fn view(&self) -> PendingModel<'a> {
        match *self {
            Pending::Unary { operator } => PendingModel::Unary { operator },
            Pending::BinaryRight { operator, right } => PendingModel::BinaryRight { operator, right },
            Pending::BinaryApply { operator, left } => PendingModel::BinaryApply { operator, left },
            Pending::LogicalRight { operator, right } => PendingModel::LogicalRight { operator, right },
            Pending::AssignTo { name } => PendingModel::AssignTo { name },
            Pending::Callee { paren, arguments } => PendingModel::Callee { paren, arguments },
            Pending::Arguments { paren, arguments, callee, values } => PendingModel::Arguments {
                paren,
                arguments,
                callee,
                values: values@,
            },
            Pending::Discard => PendingModel::Discard,
            Pending::Print => PendingModel::Print,
            Pending::Define { name } => PendingModel::Define { name },
            Pending::Branch { then_branch, else_branch } => PendingModel::Branch {
                then_branch,
                else_branch,
            },
            Pending::WhileTest { condition, body } => PendingModel::WhileTest { condition, body },
            Pending::WhileBody { condition, body } => PendingModel::WhileBody { condition, body },
            Pending::Sequence { statements, next } => PendingModel::Sequence { statements, next },
            Pending::Scope { scope } => PendingModel::Scope { scope },
            Pending::Call { scope } => PendingModel::Call { scope },
            Pending::ReturnValue => PendingModel::ReturnValue,
        }
    }
}

/// The interpreter as a mathematical value.
pub ghost struct Machine<'a> {
    /// Every scope made so far.
    pub scopes: Seq<Scope<'a>>,
    /// The current scope.
    pub scope: usize,
    pub control: Control<'a>,
    /// What waits for values, innermost last.
    pub stack: Seq<PendingModel<'a>>,
    /// The value of a `return` in flight.
    pub returning: Option<Object<'a>>,
}

/// A machine after a step, and what the step asks of the host.
pub ghost struct Step<'a> {
    pub machine: Machine<'a>,
    pub action: Action<'a>,
}

impl<'a> Machine<'a> {
    /// The machine with another control.
    pub open spec fn go(self, control: Control<'a>) -> Machine<'a> {
        Machine { control, ..self }
    }

    /// The machine with one more entry on its stack.
    pub open spec fn push(self, pending: PendingModel<'a>) -> Machine<'a> {
        Machine { stack: self.stack.push(pending), ..self }
    }

    /// The machine without the innermost entry of its stack.
    pub open spec fn pop(self) -> Machine<'a> {
        Machine { stack: self.stack.drop_last(), ..self }
    }

    /// The machine with other scopes.
    pub open spec fn over(self, scopes: Seq<Scope<'a>>) -> Machine<'a> {
        Machine { scopes, ..self }
    }

    /// The machine in another scope: `scope` where there is such a scope,
    /// else the global scope.
    pub open spec fn within(self, scope: usize) -> Machine<'a> {
        Machine { scope: if scope < self.scopes.len() { scope } else { 0 }, ..self }
    }

    /// The machine after an aborted evaluation: idle in the global scope,
    /// with an empty stack. The scopes keep what was bound.
    pub open spec fn halted(self) -> Machine<'a> {
        Machine {
            scopes: self.scopes,
            scope: 0,
            control: Control::Idle,
            stack: Seq::empty(),
            returning: None,
        }
    }

    /// A step without anything for the host to do.
    pub open spec fn on(self) -> Step<'a> {
        Step { machine: self, action: Action::Continue }
    }

    /// The step that asks the host for a number.
    pub open spec fn ask(self, request: Request<'a>) -> Step<'a> {
        Step { machine: self.go(Control::Await(request)), action: Action::Request(request) }
    }

    /// The step that aborts the evaluation.
    pub open spec fn fail(self, error: RuntimeError) -> Step<'a> {
        Step { machine: self.halted(), action: Action::Failed(error) }
    }

    /// The step that executes `statements` in `scope` and comes back to
    /// the current scope afterwards.
    pub open spec fn enter(self, statements: &'a Vec<Stmt>, scope: usize) -> Machine<'a> {
        Machine {
            scope,
            control: Control::Produce(Object::Nil),
            stack: self.stack.push(PendingModel::Scope { scope: self.scope }).push(
                PendingModel::Sequence { statements, next: 0 },
            ),
            ..self
        }
    }
}

/// The value of a literal that needs no host.
pub open spec fn literal_object<'a>(value: Value) -> Object<'a> {
    match value {
        Value::Bool(b) => Object::Boolean(b),
        Value::String(text) => Object::String(text),
        Value::Unitialized => Object::Unitialized,
        _ => Object::Nil,
    }
}

/// The first step of the evaluation of an expression.
pub open spec fn evaluate<'a>(m: Machine<'a>, expr: &'a Expr) -> Step<'a> {
    match expr {
        Expr::Literal { value } => match value {
            Value::Number(numeral) => m.ask(Request::Numeral(numeral)),
            _ => m.go(Control::Produce(literal_object(*value))).on(),
        },
        Expr::Variable { name } => match read(m.scopes, m.scope as int, *name) {
            Ok(value) => m.go(Control::Produce(value)).on(),
            Err(error) => m.fail(error),
        },
        Expr::Grouping { expression } => m.go(Control::Expression(&**expression)).on(),
        Expr::Unary { operator, right } => m.push(PendingModel::Unary { operator }).go(
            Control::Expression(&**right),
        ).on(),
        Expr::Binary { left, operator, right } => m.push(
            PendingModel::BinaryRight { operator, right: &**right },
        ).go(Control::Expression(&**left)).on(),
        Expr::Logical { left, operator, right } => m.push(
            PendingModel::LogicalRight { operator, right: &**right },
        ).go(Control::Expression(&**left)).on(),
        Expr::Assign { name, value } => m.push(PendingModel::AssignTo { name }).go(
            Control::Expression(&**value),
        ).on(),
        Expr::Call { callee, paren, arguments } => m.push(
            PendingModel::Callee { paren, arguments },
        ).go(Control::Expression(&**callee)).on(),
    }
}

/// The first step of the execution of a statement.
pub open spec fn execute<'a>(m: Machine<'a>, stmt: &'a Stmt) -> Step<'a> {
    match stmt {
        Stmt::Expression { expression } => m.push(PendingModel::Discard).go(
            Control::Expression(expression),
        ).on(),
        Stmt::Print { expression } => m.push(PendingModel::Print).go(
            Control::Expression(expression),
        ).on(),
        Stmt::Var { name, initializer } => m.push(PendingModel::Define { name }).go(
            Control::Expression(initializer),
        ).on(),
        Stmt::Block { statements } => m.over(
            m.scopes.push(Scope { bindings: Seq::empty(), enclosing: Some(m.scope) }),
        ).enter(statements, m.scopes.len() as usize).on(),
        Stmt::If { condition, then_branch, else_branch } => m.push(
            PendingModel::Branch {
                then_branch: &**then_branch,
                else_branch: match else_branch {
                    Some(branch) => Some(&**branch),
                    None => None,
                },
            },
        ).go(Control::Expression(condition)).on(),
        Stmt::While { condition, body } => m.push(
            PendingModel::WhileTest { condition, body: &**body },
        ).go(Control::Expression(condition)).on(),
        Stmt::Function { name, params, body } => match defined(
            m.scopes,
            m.scope as int,
            *name,
            Object::Function { name, params, body, closure: m.scope },
        ) {
            Ok(scopes) => m.over(scopes).go(Control::Produce(Object::Nil)).on(),
            Err(error) => m.fail(error),
        },
        Stmt::Return { keyword, value } => match value {
            Some(expression) => m.push(PendingModel::ReturnValue).go(
                Control::Expression(expression),
            ).on(),
            None => Machine { returning: Some(Object::Nil), ..m }.go(Control::Unwind).on(),
        },
    }
}

/// The scopes after the parameters from `from` on are bound to their
/// arguments in `scope`, and the error that stopped the binding.
pub open spec fn bound<'a>(
    scopes: Seq<Scope<'a>>,
    scope: int,
    params: Seq<Token>,
    values: Seq<Object<'a>>,
    from: int,
) -> (Seq<Scope<'a>>, Option<RuntimeError>)
    decreases params.len() - from,
{
    if from < 0 || from >= params.len() {
        (scopes, None)
    } else {
        match defined(scopes, scope, params[from], values[from]) {
            Ok(next) => bound(next, scope, params, values, from + 1),
            Err(error) => (scopes, Some(error)),
        }
    }
}

/// The step that calls `callee` with `values`: what cannot be called and
/// what is called with another number of arguments than it takes is an
/// error. A function runs its body in a new scope, enclosed by the scope it
/// closes over, with its parameters bound there; a builtin asks the host.
pub open spec fn invoke<'a>(
    m: Machine<'a>,
    paren: &'a Token,
    callee: Object<'a>,
    values: Seq<Object<'a>>,
) -> Step<'a> {
    if !callee.callable() {
        m.fail(RuntimeError { line: paren.line, kind: RuntimeErrorKind::NotCallable })
    } else if values.len() != callee.parameters() {
        m.fail(
            RuntimeError {
                line: paren.line,
                kind: RuntimeErrorKind::WrongArity {
                    expected: callee.parameters() as usize,
                    got: values.len() as usize,
                },
            },
        )
    } else {
        match callee {
            Object::Function { name, params, body, closure } => {
                if closure >= m.scopes.len() {
                    m.fail(RuntimeError { line: paren.line, kind: RuntimeErrorKind::NotCallable })
                } else {
                    let scope = m.scopes.len() as usize;
                    let fresh = m.scopes.push(
                        Scope { bindings: Seq::empty(), enclosing: Some(closure) },
                    );
                    let (scopes, error) = bound(fresh, scope as int, params@, values, 0);
                    match error {
                        Some(error) => m.over(scopes).fail(error),
                        None => m.over(scopes).push(PendingModel::Call { scope: m.scope }).enter(
                            body,
                            scope,
                        ).on(),
                    }
                }
            },
            _ => m.ask(Request::Clock),
        }
    }
}

/// The step that hands `value` to `pending`, which has been taken off the
/// stack of `m`. Where a binary operator joins two strings the step is
/// told by [`joins`] instead.
pub open spec fn deliver<'a>(m: Machine<'a>, pending: PendingModel<'a>, value: Object<'a>) -> Step<'a> {
    match pending {
        PendingModel::Unary { operator } => match unary_rule(operator.token_type, value) {
            Ok(result) => m.go(Control::Produce(result)).on(),
            Err(kind) => m.fail(RuntimeError { line: operator.line, kind }),
        },
        PendingModel::BinaryRight { operator, right } => m.push(
            PendingModel::BinaryApply { operator, left: value },
        ).go(Control::Expression(right)).on(),
        PendingModel::BinaryApply { operator, left } => match binary_rule(
            operator.token_type,
            left,
            value,
        ) {
            Rule::Value(result) => m.go(Control::Produce(result)).on(),
            Rule::Text(_) => m.on(),
            Rule::Ask(request) => m.ask(request),
            Rule::Error(kind) => m.fail(RuntimeError { line: operator.line, kind }),
        },
        PendingModel::LogicalRight { operator, right } => {
            if (operator.token_type == TokenType::Or) == value.truthy() {
                m.go(Control::Produce(value)).on()
            } else {
                m.go(Control::Expression(right)).on()
            }
        },
        PendingModel::AssignTo { name } => match written(m.scopes, m.scope as int, *name, value) {
            Ok(scopes) => m.over(scopes).go(Control::Produce(value)).on(),
            Err(error) => m.fail(error),
        },
        PendingModel::Callee { paren, arguments } => {
            if arguments@.len() == 0 {
                invoke(m, paren, value, Seq::empty())
            } else {
                m.push(
                    PendingModel::Arguments { paren, arguments, callee: value, values: Seq::empty() },
                ).go(Control::Expression(&arguments[0])).on()
            }
        },
        PendingModel::Arguments { paren, arguments, callee, values } => {
            if values.len() + 1 < arguments@.len() {
                m.push(
                    PendingModel::Arguments { paren, arguments, callee, values: values.push(value) },
                ).go(Control::Expression(&arguments[values.len() + 1 as int])).on()
            } else {
                invoke(m, paren, callee, values.push(value))
            }
        },
        PendingModel::Discard => m.go(Control::Produce(Object::Nil)).on(),
        PendingModel::Print => Step {
            machine: m.go(Control::Produce(Object::Nil)),
            action: Action::Print(value),
        },
        PendingModel::Define { name } => match defined(m.scopes, m.scope as int, *name, value) {
            Ok(scopes) => m.over(scopes).go(Control::Produce(Object::Nil)).on(),
            Err(error) => m.fail(error),
        },
        PendingModel::Branch { then_branch, else_branch } => {
            if value.truthy() {
                m.go(Control::Statement(then_branch)).on()
            } else {
                match else_branch {
                    Some(branch) => m.go(Control::Statement(branch)).on(),
                    None => m.go(Control::Produce(Object::Nil)).on(),
                }
            }
        },
        PendingModel::WhileTest { condition, body } => {
            if value.truthy() {
                m.push(PendingModel::WhileBody { condition, body }).go(Control::Statement(body)).on()
            } else {
                m.go(Control::Produce(Object::Nil)).on()
            }
        },
        PendingModel::WhileBody { condition, body } => m.push(
            PendingModel::WhileTest { condition, body },
        ).go(Control::Expression(condition)).on(),
        PendingModel::Sequence { statements, next } => {
            if next < statements@.len() {
                m.push(PendingModel::Sequence { statements, next: (next + 1) as usize }).go(
                    Control::Statement(&statements[next as int]),
                ).on()
            } else {
                m.go(Control::Produce(Object::Nil)).on()
            }
        },
        PendingModel::Scope { scope } => m.within(scope).go(Control::Produce(value)).on(),
        PendingModel::Call { scope } => m.within(scope).go(Control::Produce(Object::Nil)).on(),
        PendingModel::ReturnValue => Machine { returning: Some(value), ..m }.go(Control::Unwind).on(),
    }
}

/// The step that takes a `return` in flight past `pending`, which has been
/// taken off the stack of `m`: a call takes the value, a block goes back
/// to the scope around it, everything else is dropped.
pub open spec fn unwind<'a>(m: Machine<'a>, pending: PendingModel<'a>) -> Step<'a> {
    match pending {
        PendingModel::Call { scope } => Machine { returning: None, ..m }.within(scope).go(
            Control::Produce(landed(m.returning)),
        ).on(),
        PendingModel::Scope { scope } => m.within(scope).go(Control::Unwind).on(),
        _ => m.go(Control::Unwind).on(),
    }
}

/// The text of the string that the next step makes, where the next step
/// joins two strings with `+`.
pub open spec fn joins<'a>(m: Machine<'a>) -> Option<Seq<char>> {
    match m.control {
        Control::Produce(value) => if m.stack.len() > 0 {
            match m.stack.last() {
                PendingModel::BinaryApply { operator, left } => match binary_rule(
                    operator.token_type,
                    left,
                    value,
                ) {
                    Rule::Text(text) => Some(text),
                    _ => None,
                },
                _ => None,
            }
        } else {
            None
        },
        _ => None,
    }
}

/// The next step of a machine that does not join two strings.
pub open spec fn next<'a>(m: Machine<'a>) -> Step<'a> {
    match m.control {
        Control::Idle => Step { machine: m, action: Action::Complete(Object::Nil) },
        Control::Await(request) => Step { machine: m, action: Action::Request(request) },
        Control::Expression(expr) => evaluate(m, expr),
        Control::Statement(stmt) => execute(m, stmt),
        Control::Produce(value) => if m.stack.len() == 0 {
            Step { machine: m.go(Control::Idle), action: Action::Complete(value) }
        } else {
            deliver(m.pop(), m.stack.last(), value)
        },
        Control::Unwind => if m.stack.len() == 0 {
            Step {
                machine: Machine { returning: None, ..m }.go(Control::Idle),
                action: Action::Complete(landed(m.returning)),
            }
        } else {
            unwind(m.pop(), m.stack.last())
        },
    }
}

/// Whether one step takes `before` to `after` and asks `action` of the
/// host.
pub open spec fn steps<'a>(before: Machine<'a>, after: Machine<'a>, action: Action<'a>) -> bool {
    match joins(before) {
        Some(text) => {
            &&& after.control matches Control::Produce(Object::String(s)) && s@ == text
            &&& after == before.pop().go(after.control)
            &&& action == Action::<'a>::Continue
        },
        None => (Step { machine: after, action }) == next(before),
    }
}

/// Short circuit: where the left operand of `or` is truthy, or that of
/// `and` is falsey, it is the value of the whole, and the right operand is
/// never evaluated.
pub proof fn lemma_short_circuit<'a>(
    m: Machine<'a>,
    operator: &'a Token,
    right: &'a Expr,
    value: Object<'a>,
)
    requires
        operator.token_type == TokenType::Or || operator.token_type == TokenType::And,
        value.truthy() == (operator.token_type == TokenType::Or),
    ensures
        deliver(m, PendingModel::LogicalRight { operator, right }, value) == m.go(
            Control::Produce(value),
        ).on(),
{
}

/// A block runs in a scope of its own, which the scope around it
/// encloses; every scope that existed before is left as it was.
pub proof fn lemma_block_opens_a_scope<'a>(m: Machine<'a>, stmt: &'a Stmt)
    requires
        *stmt is Block,
        m.scopes.len() < usize::MAX,
    ensures
        ({
            let after = execute(m, stmt).machine;
            &&& after.scopes.len() == m.scopes.len() + 1
            &&& after.scope == m.scopes.len()
            &&& after.scopes[after.scope as int] == (Scope {
                bindings: Seq::empty(),
                enclosing: Some(m.scope),
            })
            &&& forall|i: int| 0 <= i < m.scopes.len() ==> after.scopes[i] == m.scopes[i]
        }),
{
}

/// Binding parameters in a scope that is not the global one changes no
/// other scope.
pub proof fn lemma_bound_keeps_others<'a>(
    scopes: Seq<Scope<'a>>,
    scope: int,
    params: Seq<Token>,
    values: Seq<Object<'a>>,
    from: int,
)
    requires
        0 < scope < scopes.len(),
    ensures
        bound(scopes, scope, params, values, from).0.len() == scopes.len(),
        forall|i: int|
            0 <= i < scopes.len() && i != scope ==> bound(scopes, scope, params, values, from).0[i]
                == scopes[i],
    decreases params.len() - from,
{
    let after = bound(scopes, scope, params, values, from).0;
    if 0 <= from < params.len() {
        match defined(scopes, scope, params[from], values[from]) {
            Ok(next) => {
                lemma_bound_keeps_others(next, scope, params, values, from + 1);
                assert(after == bound(next, scope, params, values, from + 1).0);
                assert forall|i: int| 0 <= i < scopes.len() && i != scope implies after[i]
                    == scopes[i] by {
                    assert(next[i] == scopes[i]);
                }
            },
            Err(_) => {
                assert(after == scopes);
            },
        }
    } else {
        assert(after == scopes);
    }
}

/// A call never modifies the caller's environment: calling a function
/// with as many arguments as it has parameters leaves every scope that
/// existed before the call as it was. The parameters are bound in a scope
/// of their own.
pub proof fn lemma_call_keeps_scopes<'a>(
    m: Machine<'a>,
    paren: &'a Token,
    callee: Object<'a>,
    values: Seq<Object<'a>>,
)
    requires
        well_formed(m.scopes),
        m.scopes.len() <= usize::MAX,
        callee.callable(),
        values.len() == callee.parameters(),
    ensures
        invoke(m, paren, callee, values).machine.scopes.len() >= m.scopes.len(),
        forall|i: int|
            0 <= i < m.scopes.len() ==> invoke(m, paren, callee, values).machine.scopes[i]
                == m.scopes[i],
{
    match callee {
        Object::Function { name, params, body, closure } => {
            if closure < m.scopes.len() {
                let scope = m.scopes.len() as int;
                let fresh = m.scopes.push(Scope { bindings: Seq::empty(), enclosing: Some(closure) });
                lemma_bound_keeps_others(fresh, scope, params@, values, 0);
                let after = bound(fresh, scope, params@, values, 0).0;
                assert(invoke(m, paren, callee, values).machine.scopes == after);
                assert forall|i: int| 0 <= i < m.scopes.len() implies after[i] == m.scopes[i] by {
                    assert(fresh[i] == m.scopes[i]);
                }
            }
        },
        _ => {},
    }
}

/// What holds of the machine of every interpreter: its scopes are well
/// formed, and its current scope is one of them.
pub open spec fn sound(m: Machine) -> bool {
    &&& well_formed(m.scopes)
    &&& m.scope < m.scopes.len()
}

proof fn lemma_keeps_in_turn(first: Seq<Scope>, second: Seq<Scope>, third: Seq<Scope>)
    requires
        keeps(first, second),
        keeps(second, third),
    ensures
        keeps(first, third),
{
    assert forall|i: int| 0 <= i < first.len() implies (#[trigger] third[i]).enclosing
        == first[i].enclosing && names_of(first[i].bindings).subset_of(
        names_of(third[i].bindings),
    ) by {
        assert(second[i].enclosing == first[i].enclosing);
    }
}

proof fn lemma_bound_keeps<'a>(
    scopes: Seq<Scope<'a>>,
    scope: int,
    params: Seq<Token>,
    values: Seq<Object<'a>>,
    from: int,
)
    requires
        well_formed(scopes),
        0 <= scope < scopes.len(),
    ensures
        well_formed(bound(scopes, scope, params, values, from).0),
        keeps(scopes, bound(scopes, scope, params, values, from).0),
    decreases params.len() - from,
{
    if 0 <= from < params.len() {
        match defined(scopes, scope, params[from], values[from]) {
            Ok(next) => {
                lemma_defined_keeps(scopes, scope, params[from], values[from]);
                lemma_bound_keeps(next, scope, params, values, from + 1);
                lemma_keeps_in_turn(
                    scopes,
                    next,
                    bound(next, scope, params, values, from + 1).0,
                );
            },
            Err(_) => {},
        }
    }
}

proof fn lemma_invoke_keeps<'a>(
    m: Machine<'a>,
    paren: &'a Token,
    callee: Object<'a>,
    values: Seq<Object<'a>>,
)
    requires
        sound(m),
        m.scopes.len() < usize::MAX,
    ensures
        sound(invoke(m, paren, callee, values).machine),
        keeps(m.scopes, invoke(m, paren, callee, values).machine.scopes),
{
    match callee {
        Object::Function { name, params, body, closure } => {
            if values.len() == params@.len() && closure < m.scopes.len() {
                let scope = m.scopes.len() as int;
                let fresh = m.scopes.push(Scope { bindings: Seq::empty(), enclosing: Some(closure) });
                assert(well_formed(fresh));
                assert(keeps(m.scopes, fresh));
                lemma_bound_keeps(fresh, scope, params@, values, 0);
                lemma_keeps_in_turn(m.scopes, fresh, bound(fresh, scope, params@, values, 0).0);
            }
        },
        _ => {},
    }
}

proof fn lemma_evaluate_keeps<'a>(m: Machine<'a>, expr: &'a Expr)
    requires
        sound(m),
    ensures
        sound(evaluate(m, expr).machine),
        keeps(m.scopes, evaluate(m, expr).machine.scopes),
{
}

proof fn lemma_execute_keeps<'a>(m: Machine<'a>, stmt: &'a Stmt)
    requires
        sound(m),
        m.scopes.len() < usize::MAX,
    ensures
        sound(execute(m, stmt).machine),
        keeps(m.scopes, execute(m, stmt).machine.scopes),
{
    match stmt {
        Stmt::Function { name, params, body } => {
            let function = Object::Function { name, params, body, closure: m.scope };
            if defined(m.scopes, m.scope as int, *name, function) is Ok {
                lemma_defined_keeps(m.scopes, m.scope as int, *name, function);
            }
        },
        Stmt::Block { statements } => {
            let fresh = m.scopes.push(Scope { bindings: Seq::empty(), enclosing: Some(m.scope) });
            assert(well_formed(fresh));
            assert(keeps(m.scopes, fresh));
        },
        _ => {},
    }
}

proof fn lemma_deliver_keeps<'a>(m: Machine<'a>, pending: PendingModel<'a>, value: Object<'a>)
    requires
        sound(m),
        m.scopes.len() < usize::MAX,
    ensures
        sound(deliver(m, pending, value).machine),
        keeps(m.scopes, deliver(m, pending, value).machine.scopes),
{
    match pending {
        PendingModel::AssignTo { name } => {
            if written(m.scopes, m.scope as int, *name, value) is Ok {
                lemma_written_keeps(m.scopes, m.scope as int, *name, value);
            }
        },
        PendingModel::Define { name } => {
            if defined(m.scopes, m.scope as int, *name, value) is Ok {
                lemma_defined_keeps(m.scopes, m.scope as int, *name, value);
            }
        },
        PendingModel::Callee { paren, arguments } => {
            lemma_invoke_keeps(m, paren, value, Seq::empty());
        },
        PendingModel::Arguments { paren, arguments, callee, values } => {
            lemma_invoke_keeps(m, paren, callee, values.push(value));
        },
        _ => {},
    }
}

/// Every step keeps the machine sound, and keeps every scope with the
/// scope that encloses it and with every name bound in it: a variable is
/// never removed, it is only bound anew.
pub proof fn lemma_step_keeps_scopes<'a>(before: Machine<'a>, after: Machine<'a>, action: Action<'a>)
    requires
        sound(before),
        before.scopes.len() < usize::MAX,
        steps(before, after, action),
    ensures
        sound(after),
        keeps(before.scopes, after.scopes),
{
    match before.control {
        Control::Expression(expr) => {
            lemma_evaluate_keeps(before, expr);
        },
        Control::Statement(stmt) => {
            lemma_execute_keeps(before, stmt);
        },
        Control::Produce(value) => {
            if before.stack.len() > 0 {
                lemma_deliver_keeps(before.pop(), before.stack.last(), value);
            }
        },
        _ => {},
    }
}

} // verus!
