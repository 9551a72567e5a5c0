//! The evaluator, stepped by its host.

use vstd::prelude::*;
use crate::environment::Environment;
use crate::error::{RuntimeError, RuntimeErrorKind};
use crate::expression::{Expr, ExprVisitor};
use crate::machine::{
    bound, deliver, evaluate, execute, invoke, sound, steps, unwind, Action, Control, Pending,
    PendingModel, Machine, Step,
};
use crate::object::{Builtin, Object};
use crate::operators::{binary, binary_rule, unary, Applied, Request, Rule};
use crate::returner::Return;
use crate::statement::{Stmt, StmtVisitor};
use crate::token::{Token, TokenType};
use crate::value::Value;
use crate::environment::Scope;

verus! {

/// The evaluator: a machine that is stepped by its host. The host loads an
/// expression or a statement, calls [`Interpreter::step`] until the step
/// says `Complete` or `Failed`, and in between prints what it is told to
/// print and supplies the numbers it is asked for.
#[derive(Debug)]
pub struct Interpreter<'a> {
    environment: Environment<'a>,
    scope: usize,
    control: Control<'a>,
    stack: Vec<Pending<'a>>,
    returner: Return<'a>,
}

impl<'a> View for Interpreter<'a> {
    type V = Machine<'a>;

    closed spec fn view(&self) -> Machine<'a> {
        Machine {
            scopes: self.environment@,
            scope: self.scope,
            control: self.control,
            stack: Seq::new(self.stack@.len(), |i: int| self.stack@[i]@),
            returning: self.returner@,
        }
    }
}

impl<'a> Interpreter<'a> {
    /// Whether the interpreter is one that [`Interpreter::new`] and the
    /// methods below can have made: its scopes are well formed and its
    /// current scope is one of them.
    pub closed spec fn wf(&self) -> bool {
        &&& self.environment.wf()
        &&& self.scope < self.environment@.len()
    }

    /// What [`Interpreter::wf`] says of the machine.
    pub proof fn lemma_wf(&self)
        requires
            self.wf(),
        ensures
            sound(self@),
    {
    }

    /// An idle interpreter in the global scope, where the builtins are
    /// bound.
    pub fn new() -> (r: Self)
        ensures
            r.wf(),
            r@.scope == 0,
            r@.control is Idle,
            r@.stack.len() == 0,
            r@.returning is None,
            r@.scopes.len() == 1,
            r@.scopes[0].enclosing is None,
            r@.scopes[0].bindings.len() == 1,
            r@.scopes[0].bindings[0].name@ == Builtin::Clock.name_text(),
            r@.scopes[0].bindings[0].value == Object::<'a>::Builtin(Builtin::Clock),
    {
        Interpreter {
            environment: Environment::new(),
            scope: 0,
            control: Control::Idle,
            stack: Vec::new(),
            returner: Return::new(),
        }
    }

    /// The index of the global scope.
    pub fn globals(&self) -> (r: usize)
        ensures
            r == 0,
    {
        0
    }

    /// The scopes, for a host that binds or reads variables itself.
    pub fn environment(&self) -> (r: &Environment<'a>)
        ensures
            r@ == self@.scopes,
    {
        &self.environment
    }

    /// Loads `expr`: the steps that follow evaluate it in the current
    /// scope. What was being evaluated is dropped.
    pub fn evaluate_expr(&mut self, expr: &'a Expr)
        requires
            old(self).wf(),
        ensures
            final(self).wf(),
            final(self)@ == (Machine {
                control: Control::Expression(expr),
                stack: Seq::empty(),
                returning: None,
                ..old(self)@
            }),
    {
        expr.accept(self)
    }

    /// Loads `stmt`: the steps that follow execute it in the current
    /// scope. What was being evaluated is dropped.
    pub fn evaluate_stmt(&mut self, stmt: &'a Stmt)
        requires
            old(self).wf(),
        ensures
            final(self).wf(),
            final(self)@ == (Machine {
                control: Control::Statement(stmt),
                stack: Seq::empty(),
                returning: None,
                ..old(self)@
            }),
    {
        stmt.accept(self)
    }

    /// Makes the steps that follow execute `statements` in the scope
    /// `environment` and then come back to the current scope, also where a
    /// `return` cuts the statements short.
    pub fn execute_block(&mut self, statements: &'a Vec<Stmt>, environment: usize)
        requires
            old(self).wf(),
            environment < old(self)@.scopes.len(),
        ensures
            final(self).wf(),
            final(self)@ == old(self)@.enter(statements, environment),
    {
        self.stack.push(Pending::Scope { scope: self.scope });
        self.stack.push(Pending::Sequence { statements, next: 0 });
        self.scope = environment;
        self.control = Control::Produce(Object::Nil);
        assert(self@.stack =~= old(self)@.stack.push(PendingModel::Scope { scope: old(self).scope }).push(
            PendingModel::Sequence { statements, next: 0 },
        ));
    }

    /// Hands the host's number to the evaluation that awaits it. An
    /// interpreter that awaits nothing is left as it is.
    pub fn supply(&mut self, number: u64)
        requires
            old(self).wf(),
        ensures
            final(self).wf(),
            final(self)@ == if old(self)@.control is Await {
                old(self)@.go(Control::Produce(Object::Number(number)))
            } else {
                old(self)@
            },
    {
        match self.control {
            Control::Await(_) => {
                self.control = Control::Produce(Object::Number(number));
            },
            _ => {},
        }
    }

    fn push(&mut self, pending: Pending<'a>)
        requires
            old(self).wf(),
        ensures
            final(self).wf(),
            final(self)@ == old(self)@.push(pending@),
    {
        self.stack.push(pending);
        assert(self@.stack =~= old(self)@.stack.push(pending@));
    }

    fn pop(&mut self) -> (r: Option<Pending<'a>>)
        requires
            old(self).wf(),
        ensures
            final(self).wf(),
            match r {
                Some(pending) => old(self)@.stack.len() > 0 && pending@ == old(self)@.stack.last()
                    && final(self)@ == old(self)@.pop(),
                None => old(self)@.stack.len() == 0 && final(self)@ == old(self)@,
            },
    {
        let r = self.stack.pop();
        proof {
            if r is Some {
                assert(self@.stack =~= old(self)@.stack.drop_last());
            } else {
                assert(self@.stack =~= old(self)@.stack);
            }
        }
        r
    }

    fn take(&mut self) -> (r: Control<'a>)
        requires
            old(self).wf(),
        ensures
            final(self).wf(),
            r == old(self)@.control,
            final(self)@ == old(self)@.go(Control::Idle),
    {
        let mut control = Control::Idle;
        core::mem::swap(&mut self.control, &mut control);
        control
    }

    fn go(&mut self, control: Control<'a>) -> (r: Action<'a>)
        requires
            old(self).wf(),
        ensures
            final(self).wf(),
            (Step { machine: final(self)@, action: r }) == old(self)@.go(control).on(),
    {
        self.control = control;
        Action::Continue
    }

    fn ask(&mut self, request: Request<'a>) -> (r: Action<'a>)
        requires
            old(self).wf(),
        ensures
            final(self).wf(),
            (Step { machine: final(self)@, action: r }) == old(self)@.ask(request),
    {
        self.control = Control::Await(request);
        Action::Request(request)
    }

    fn fail(&mut self, error: RuntimeError) -> (r: Action<'a>)
        requires
            old(self).wf(),
        ensures
            final(self).wf(),
            (Step { machine: final(self)@, action: r }) == old(self)@.fail(error),
    {
        self.control = Control::Idle;
        self.stack = Vec::new();
        self.scope = 0;
        self.returner = Return::new();
        assert(self@.stack =~= Seq::empty());
        Action::Failed(error)
    }

    fn restore(&mut self, scope: usize)
        requires
            old(self).wf(),
        ensures
            final(self).wf(),
            final(self)@ == old(self)@.within(scope),
    {
        if scope < self.environment.len() {
            self.scope = scope;
        } else {
            self.scope = 0;
        }
    }

    fn start(&mut self, expr: &'a Expr) -> (r: Action<'a>)
        requires
            old(self).wf(),
        ensures
            final(self).wf(),
            (Step { machine: final(self)@, action: r }) == evaluate(old(self)@, expr),
    {
        match expr {
            Expr::Literal { value } => match value {
                Value::Number(numeral) => self.ask(Request::Numeral(numeral)),
                Value::Bool(b) => self.go(Control::Produce(Object::Boolean(*b))),
                Value::String(text) => self.go(Control::Produce(Object::String(text.clone()))),
                Value::Unitialized => self.go(Control::Produce(Object::Unitialized)),
                Value::Nil => self.go(Control::Produce(Object::Nil)),
            },
            Expr::Variable { name } => match self.environment.get(self.scope, name) {
                Ok(value) => self.go(Control::Produce(value)),
                Err(error) => self.fail(error),
            },
            Expr::Grouping { expression } => self.go(Control::Expression(&**expression)),
            Expr::Unary { operator, right } => {
                self.push(Pending::Unary { operator });
                self.go(Control::Expression(&**right))
            },
            Expr::Binary { left, operator, right } => {
                self.push(Pending::BinaryRight { operator, right: &**right });
                self.go(Control::Expression(&**left))
            },
            Expr::Logical { left, operator, right } => {
                self.push(Pending::LogicalRight { operator, right: &**right });
                self.go(Control::Expression(&**left))
            },
            Expr::Assign { name, value } => {
                self.push(Pending::AssignTo { name });
                self.go(Control::Expression(&**value))
            },
            Expr::Call { callee, paren, arguments } => {
                self.push(Pending::Callee { paren, arguments });
                self.go(Control::Expression(&**callee))
            },
        }
    }

    fn run(&mut self, stmt: &'a Stmt) -> (r: Action<'a>)
        requires
            old(self).wf(),
        ensures
            final(self).wf(),
            (Step { machine: final(self)@, action: r }) == execute(old(self)@, stmt),
    {
        match stmt {
            Stmt::Expression { expression } => {
                self.push(Pending::Discard);
                self.go(Control::Expression(expression))
            },
            Stmt::Print { expression } => {
                self.push(Pending::Print);
                self.go(Control::Expression(expression))
            },
            Stmt::Var { name, initializer } => {
                self.push(Pending::Define { name });
                self.go(Control::Expression(initializer))
            },
            Stmt::Block { statements } => {
                let scope = self.environment.new_enclosing(self.scope);
                self.execute_block(statements, scope);
                Action::Continue
            },
            Stmt::If { condition, then_branch, else_branch } => {
                let otherwise: Option<&'a Stmt> = match else_branch {
                    Some(branch) => Some(&**branch),
                    None => None,
                };
                self.push(Pending::Branch { then_branch: &**then_branch, else_branch: otherwise });
                self.go(Control::Expression(condition))
            },
            Stmt::While { condition, body } => {
                self.push(Pending::WhileTest { condition, body: &**body });
                self.go(Control::Expression(condition))
            },
            Stmt::Function { name, params, body } => {
                let function = Object::Function { name, params, body, closure: self.scope };
                match self.environment.define(self.scope, name, function) {
                    Ok(()) => self.go(Control::Produce(Object::Nil)),
                    Err(error) => self.fail(error),
                }
            },
            Stmt::Return { keyword, value } => match value {
                Some(expression) => {
                    self.push(Pending::ReturnValue);
                    self.go(Control::Expression(expression))
                },
                None => {
                    self.returner.add(Object::Nil);
                    self.go(Control::Unwind)
                },
            },
        }
    }

    fn hand(&mut self, pending: Pending<'a>, value: Object<'a>) -> (r: Action<'a>)
        requires
            old(self).wf(),
        ensures
            final(self).wf(),
            match pending@ {
                PendingModel::BinaryApply { operator, left } => match binary_rule(
                    operator.token_type,
                    left,
                    value,
                ) {
                    Rule::Text(text) => {
                        &&& final(self)@.control matches Control::Produce(Object::String(s)) && s@
                            == text
                        &&& final(self)@ == old(self)@.go(final(self)@.control)
                        &&& r == Action::<'a>::Continue
                    },
                    _ => (Step { machine: final(self)@, action: r }) == deliver(
                        old(self)@,
                        pending@,
                        value,
                    ),
                },
                _ => (Step { machine: final(self)@, action: r }) == deliver(old(self)@, pending@, value),
            },
    {
        match pending {
            Pending::Unary { operator } => match unary(operator.token_type, &value) {
                Ok(result) => self.go(Control::Produce(result)),
                Err(kind) => self.fail(RuntimeError { line: operator.line, kind }),
            },
            Pending::BinaryRight { operator, right } => {
                self.push(Pending::BinaryApply { operator, left: value });
                self.go(Control::Expression(right))
            },
            Pending::BinaryApply { operator, left } => match binary(operator.token_type, &left, &value) {
                Applied::Value(result) => self.go(Control::Produce(result)),
                Applied::Ask(request) => self.ask(request),
                Applied::Error(kind) => self.fail(RuntimeError { line: operator.line, kind }),
            },
            Pending::LogicalRight { operator, right } => {
                if (operator.token_type == TokenType::Or) == value.is_thuthy() {
                    self.go(Control::Produce(value))
                } else {
                    self.go(Control::Expression(right))
                }
            },
            Pending::AssignTo { name } => match self.environment.assign(self.scope, name, value.clone()) {
                Ok(()) => self.go(Control::Produce(value)),
                Err(error) => self.fail(error),
            },
            Pending::Callee { paren, arguments } => {
                if arguments.len() == 0 {
                    value.call(self, paren, Vec::new())
                } else {
                    self.push(
                        Pending::Arguments { paren, arguments, callee: value, values: Vec::new() },
                    );
                    self.go(Control::Expression(&arguments[0]))
                }
            },
            Pending::Arguments { paren, arguments, callee, values } => {
                let mut values = values;
                let ghost before = values@;
                values.push(value);
                if values.len() < arguments.len() {
                    let at = values.len();
                    self.push(Pending::Arguments { paren, arguments, callee, values });
                    self.go(Control::Expression(&arguments[at]))
                } else {
                    callee.call(self, paren, values)
                }
            },
            Pending::Discard => self.go(Control::Produce(Object::Nil)),
            Pending::Print => {
                self.control = Control::Produce(Object::Nil);
                Action::Print(value)
            },
            Pending::Define { name } => match self.environment.define(self.scope, name, value) {
                Ok(()) => self.go(Control::Produce(Object::Nil)),
                Err(error) => self.fail(error),
            },
            Pending::Branch { then_branch, else_branch } => {
                if value.is_thuthy() {
                    self.go(Control::Statement(then_branch))
                } else {
                    match else_branch {
                        Some(branch) => self.go(Control::Statement(branch)),
                        None => self.go(Control::Produce(Object::Nil)),
                    }
                }
            },
            Pending::WhileTest { condition, body } => {
                if value.is_thuthy() {
                    self.push(Pending::WhileBody { condition, body });
                    self.go(Control::Statement(body))
                } else {
                    self.go(Control::Produce(Object::Nil))
                }
            },
            Pending::WhileBody { condition, body } => {
                self.push(Pending::WhileTest { condition, body });
                self.go(Control::Expression(condition))
            },
            Pending::Sequence { statements, next } => {
                if next < statements.len() {
                    self.push(Pending::Sequence { statements, next: next + 1 });
                    self.go(Control::Statement(&statements[next]))
                } else {
                    self.go(Control::Produce(Object::Nil))
                }
            },
            Pending::Scope { scope } => {
                self.restore(scope);
                self.go(Control::Produce(value))
            },
            Pending::Call { scope } => {
                self.restore(scope);
                self.go(Control::Produce(Object::Nil))
            },
            Pending::ReturnValue => {
                self.returner.add(value);
                self.go(Control::Unwind)
            },
        }
    }

    fn pass(&mut self, pending: Pending<'a>) -> (r: Action<'a>)
        requires
            old(self).wf(),
        ensures
            final(self).wf(),
            (Step { machine: final(self)@, action: r }) == unwind(old(self)@, pending@),
    {
        match pending {
            Pending::Call { scope } => {
                let value = self.returner.get();
                self.restore(scope);
                self.go(Control::Produce(value))
            },
            Pending::Scope { scope } => {
                self.restore(scope);
                self.go(Control::Unwind)
            },
            _ => self.go(Control::Unwind),
        }
    }

    /// Takes one step.
    pub fn step(&mut self) -> (r: Action<'a>)
        requires
            old(self).wf(),
        ensures
            final(self).wf(),
            steps(old(self)@, final(self)@, r),
    {
        let control = self.take();
        match control {
            Control::Idle => Action::Complete(Object::Nil),
            Control::Await(request) => {
                self.control = Control::Await(request);
                Action::Request(request)
            },
            Control::Expression(expr) => {
                self.start(expr)
            },
            Control::Statement(stmt) => self.run(stmt),
            Control::Produce(value) => match self.pop() {
                Some(pending) => self.hand(pending, value),
                None => Action::Complete(value),
            },
            Control::Unwind => match self.pop() {
                Some(pending) => self.pass(pending),
                None => {
                    let value = self.returner.get();
                    Action::Complete(value)
                },
            },
        }
    }
}

impl<'a> ExprVisitor<'a, ()> for Interpreter<'a> {
    open spec fn prepared(&self) -> bool {
        self.wf()
    }

    open spec fn visits(&self, a: &'a Expr, after: &Self, r: ()) -> bool {
        &&& after.wf()
        &&& after@ == (Machine {
            control: Control::Expression(a),
            stack: Seq::empty(),
            returning: None,
            ..self@
        })
    }

    fn visit(&mut self, a: &'a Expr) {
        self.control = Control::Expression(a);
        self.stack = Vec::new();
        self.returner = Return::new();
        assert(self@.stack =~= Seq::empty());
    }
}

impl<'a> StmtVisitor<'a, ()> for Interpreter<'a> {
    open spec fn prepared(&self) -> bool {
        self.wf()
    }

    open spec fn visits(&self, stmt: &'a Stmt, after: &Self) -> bool {
        &&& after.wf()
        &&& after@ == (Machine {
            control: Control::Statement(stmt),
            stack: Seq::empty(),
            returning: None,
            ..self@
        })
    }

    fn visit(&mut self, stmt: &'a Stmt) {
        self.control = Control::Statement(stmt);
        self.stack = Vec::new();
        self.returner = Return::new();
        assert(self@.stack =~= Seq::empty());
    }
}

/// The builtin `clock`: the milliseconds since the epoch, as a number.
/// Reading the clock and making a number of it are left to the host.
pub fn clock<'a>(interpreter: &mut Interpreter<'a>) -> (r: Action<'a>)
    requires
        old(interpreter).wf(),
    ensures
        final(interpreter).wf(),
        (Step { machine: final(interpreter)@, action: r }) == old(interpreter)@.ask(Request::Clock),
{
    interpreter.ask(Request::Clock)
}

/// What a value offers to a call.
pub trait ObjectCaller<'a, R>: Sized {
    fn is_callable(&self) -> bool;

    fn call(self, interpreter: &mut Interpreter<'a>, paren: &'a Token, arguments: Vec<Object<'a>>) -> R
        requires
            old(interpreter).wf(),
    ;

    fn arity(&self) -> usize;
}

impl<'a> ObjectCaller<'a, Action<'a>> for Object<'a> {
    /// Whether the value can be called.
    fn is_callable(&self) -> (r: bool)
        ensures
            r == self.callable(),
    {
        match self {
            Object::Function { .. } => true,
            Object::Builtin(_) => true,
            _ => false,
        }
    }

    /// Calls the value with `arguments`, at the call whose closing
    /// parenthesis is `paren`.
    fn call(self, interpreter: &mut Interpreter<'a>, paren: &'a Token, arguments: Vec<Object<'a>>) -> (r:
        Action<'a>)
        ensures
            final(interpreter).wf(),
            (Step { machine: final(interpreter)@, action: r }) == invoke(
                old(interpreter)@,
                paren,
                self,
                arguments@,
            ),
    {
        if !self.is_callable() {
            return interpreter.fail(
                RuntimeError { line: paren.line, kind: RuntimeErrorKind::NotCallable },
            );
        }
        if arguments.len() != self.arity() {
            return interpreter.fail(
                RuntimeError {
                    line: paren.line,
                    kind: RuntimeErrorKind::WrongArity {
                        expected: self.arity(),
                        got: arguments.len(),
                    },
                },
            );
        }
        match self {
            Object::Function { name, params, body, closure } => {
                if closure >= interpreter.environment.len() {
                    return interpreter.fail(
                        RuntimeError { line: paren.line, kind: RuntimeErrorKind::NotCallable },
                    );
                }
                let scope = interpreter.environment.new_enclosing(closure);
                let ghost fresh = interpreter.environment@;
                let mut i: usize = 0;
                while i < params.len()
                    invariant
                        interpreter.environment.wf(),
                        interpreter.scope == old(interpreter).scope,
                        interpreter.stack == old(interpreter).stack,
                        interpreter.control == old(interpreter).control,
                        interpreter.returner == old(interpreter).returner,
                        interpreter.scope < interpreter.environment@.len(),
                        scope < interpreter.environment@.len(),
                        scope == old(interpreter)@.scopes.len(),
                        closure < old(interpreter)@.scopes.len(),
                        self == (Object::Function { name, params, body, closure }),
                        fresh == old(interpreter)@.scopes.push(
                            Scope { bindings: Seq::empty(), enclosing: Some(closure) },
                        ),
                        arguments@.len() == params@.len(),
                        i <= params@.len(),
                        bound(fresh, scope as int, params@, arguments@, 0) == bound(
                            interpreter.environment@,
                            scope as int,
                            params@,
                            arguments@,
                            i as int,
                        ),
                    decreases params@.len() - i,
                {
                    let ghost before = interpreter.environment@;
                    match interpreter.environment.define(scope, &params[i], arguments[i].clone()) {
                        Ok(()) => {},
                        Err(error) => {
                            assert(bound(before, scope as int, params@, arguments@, i as int) == (
                                before,
                                Some(error),
                            ));
                            return interpreter.fail(error);
                        },
                    }
                    i = i + 1;
                }
                interpreter.push(Pending::Call { scope: interpreter.scope });
                interpreter.execute_block(body, scope);
                Action::Continue
            },
            _ => clock(interpreter),
        }
    }

    /// The number of arguments a callable takes; 0 for everything else.
    fn arity(&self) -> (r: usize)
        ensures
            r == self.parameters(),
    {
        match self {
            Object::Function { params, .. } => params.len(),
            _ => 0,
        }
    }
}

} // verus!
