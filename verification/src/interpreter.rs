//! The tree walker: it runs the statements of a syntax tree.
//!
//! The walker works in steps, like the virtual machine, and for the same
//! reason: what it needs from the host, it asks for. What is left to do is
//! kept as a stack of frames, so a program that calls deeply or loops long
//! uses no more of the host's stack than a short one.
use vstd::prelude::*;
use crate::environment::{assign, assign_at, get, get_at, nested, with_value, Environment, EnvironmentView, Environments, Scopes};
use crate::error::{ErrorView, RuntimeError};
use crate::expr::{Expr, ExprAssign, ExprBinary, ExprCall, ExprLogical, ExprUnary};
use crate::lox_function::{Callable, LoxFunction};
use crate::number::{Number, NumberRequest, NumberRequestView};
use crate::object::{equal, truthy, Object, ObjectView};
use crate::stmt::{Stmt, StmtIf, StmtWhile};
use crate::text::{decimal, push_decimal, push_text};
use crate::token::{Literal, Token, TokenType};
use crate::value::{Shown, ShownView};

verus! {

/// What a step hands to the host.
#[derive(Debug)]
pub enum Event {
    /// Nothing: the walker can take its next step.
    Continue,
    /// Text or a number to write to the output, followed by a line break.
    Print(Shown),
    /// Work on numbers; the walker waits for the answer.
    Number(NumberRequest),
    /// Nothing is left to do.
    Done,
}

pub enum EventView {
    Continue,
    Print(ShownView),
    Number(NumberRequestView),
    Done,
}

impl View for Event {
    type V = EventView;

    open spec fn view(&self) -> EventView {
        match self {
            Event::Continue => EventView::Continue,
            Event::Print(shown) => EventView::Print(shown@),
            Event::Number(request) => EventView::Number(request@),
            Event::Done => EventView::Done,
        }
    }
}

/// What applying an operator gives: a value, work for the host whose answer
/// is the value, or a runtime error with its message.
pub enum Applied {
    Value(ObjectView),
    Ask(NumberRequestView),
    Fail(Seq<char>),
}

/// A binary operator applied to two values. `+` adds two numbers or joins
/// two strings; `-`, `/`, `*` and the comparisons take two numbers; `==`
/// and `!=` take anything.
pub open spec fn binary(op: TokenType, left: ObjectView, right: ObjectView) -> Applied {
    match op {
        TokenType::Plus => match (left, right) {
            (ObjectView::Number(l), ObjectView::Number(r)) => Applied::Ask(
                NumberRequestView::Add(l, r),
            ),
            (ObjectView::String(l), ObjectView::String(r)) => Applied::Value(
                ObjectView::String(l + r),
            ),
            _ => Applied::Fail("Operands must be two numbers or two strings."@),
        },
        TokenType::BangEqual => Applied::Value(ObjectView::Bool(!equal(left, right))),
        TokenType::EqualEqual => Applied::Value(ObjectView::Bool(equal(left, right))),
        TokenType::Minus | TokenType::Slash | TokenType::Star | TokenType::Greater
        | TokenType::GreaterEqual | TokenType::Less | TokenType::LessEqual => match (left, right) {
            (ObjectView::Number(l), ObjectView::Number(r)) => match op {
                TokenType::Minus => Applied::Ask(NumberRequestView::Subtract(l, r)),
                TokenType::Slash => Applied::Ask(NumberRequestView::Divide(l, r)),
                TokenType::Star => Applied::Ask(NumberRequestView::Multiply(l, r)),
                TokenType::Greater => Applied::Value(ObjectView::Bool(r.below(l))),
                TokenType::GreaterEqual => Applied::Value(
                    ObjectView::Bool(r.below(l) || l.same(r)),
                ),
                TokenType::Less => Applied::Value(ObjectView::Bool(l.below(r))),
                _ => Applied::Value(ObjectView::Bool(l.below(r) || l.same(r))),
            },
            _ => Applied::Fail("Operands must be numbers."@),
        },
        _ => Applied::Value(ObjectView::Nil),
    }
}

/// A unary operator applied to a value: `!` gives the opposite of the
/// value's truth, `-` takes a number.
pub open spec fn unary(op: TokenType, right: ObjectView) -> Applied {
    match op {
        TokenType::Bang => Applied::Value(ObjectView::Bool(!truthy(right))),
        TokenType::Minus => match right {
            ObjectView::Number(n) => Applied::Value(ObjectView::Number(n.negated())),
            _ => Applied::Fail("Operand must be a number."@),
        },
        _ => Applied::Value(ObjectView::Nil),
    }
}

/// Whether the left operand of `or` or `and` decides the result, so that
/// the right operand is not evaluated: a true one for `or`, a false one for
/// `and`.
pub open spec fn decides(op: TokenType, left: ObjectView) -> bool {
    if op == TokenType::Or {
        truthy(left)
    } else {
        !truthy(left)
    }
}

/// The text `Expected <arity> arguments but got <count>.`
pub open spec fn arity_message(arity: nat, count: nat) -> Seq<char> {
    "Expected "@ + decimal(arity) + " arguments but got "@ + decimal(count) + "."@
}

/// What is left to do. The frame on top of the stack is done next.
pub enum Frame<'a> {
    /// The statements of a list, from the given place on.
    Sequence(&'a Vec<Stmt>, usize),
    Execute(&'a Stmt),
    /// Evaluate an expression and push its value.
    Evaluate(&'a Expr),
    /// Leave a block: go back to the scope at the given place.
    Restore(usize),
    /// Drop the value of an expression statement.
    Discard,
    /// Print the value on top.
    Print,
    /// Define the variable with the value on top.
    Define(&'a Token),
    /// Choose the branch by the condition on top.
    Branch(&'a StmtIf),
    /// Evaluate the condition of a loop, then test it.
    Repeat(&'a StmtWhile),
    /// Run the body of a loop again if the condition on top holds.
    Test(&'a StmtWhile),
    /// Return the value on top from the function being called.
    Unwind,
    /// The end of a call: go back to the caller's scope. Reached when the
    /// body ends without `return`; the call then gives `nil`.
    Return(usize),
    ApplyUnary(&'a ExprUnary),
    ApplyBinary(&'a ExprBinary),
    /// Keep the left operand on top or evaluate the right one.
    Decide(&'a ExprLogical),
    Store(&'a ExprAssign),
    /// Call the callee with the arguments; all are on the value stack.
    Invoke(&'a ExprCall),
}

/// The frames that evaluate the first `count` expressions of a list, the
/// first one on top.
pub open spec fn evaluations<'a>(list: &'a Vec<Expr>, count: nat) -> Seq<Frame<'a>> {
    Seq::new(count, |i: int| Frame::Evaluate(&list@[count - 1 - i]))
}

/// How a value is written: a function as `<fn name>`, the clock as
/// `<native fn>`.
pub open spec fn shown<'a>(v: ObjectView, callables: Seq<Callable<'a>>) -> ShownView {
    match v {
        ObjectView::String(text) => ShownView::Text(text),
        ObjectView::Number(n) => ShownView::Number(n),
        ObjectView::Bool(b) => ShownView::Text(
            if b {
                "true"@
            } else {
                "false"@
            },
        ),
        ObjectView::Nil => ShownView::Text("nil"@),
        ObjectView::Callable(handle) => if handle < callables.len() {
            match callables[handle as int] {
                Callable::Clock => ShownView::Text("<native fn>"@),
                Callable::Function(function) => ShownView::Text(
                    "<fn "@ + function.declaration.name.lexeme@ + ">"@,
                ),
            }
        } else {
            ShownView::Text("<fn>"@)
        },
    }
}

/// The state of a walk.
pub struct Walk<'a> {
    /// What is left to do; the last frame is done next.
    pub control: Seq<Frame<'a>>,
    /// The values of the expressions under evaluation; the last is on top.
    pub values: Seq<ObjectView>,
    pub scopes: Scopes,
    /// The place of the current scope. The globals are at place 0.
    pub environment: usize,
    pub callables: Seq<Callable<'a>>,
    /// For each reference to a local variable, by its number, how many
    /// scopes outward its variable is.
    pub locals: Map<usize, usize>,
    /// The request that the host has not answered yet.
    pub pending: Option<NumberRequestView>,
}

/// A step: the state after it, and what it hands out.
pub struct Moved<'a> {
    pub next: Walk<'a>,
    pub outcome: Result<EventView, ErrorView>,
}

impl<'a> Walk<'a> {
    /// A walker with nothing to do: the globals hold the clock.
    pub open spec fn start() -> Walk<'a> {
        Walk {
            control: Seq::empty(),
            values: Seq::empty(),
            scopes: seq![
                EnvironmentView {
                    enclosing: None,
                    values: Map::empty().insert("clock"@, ObjectView::Callable(0)),
                },
            ],
            environment: 0,
            callables: seq![Callable::Clock],
            locals: Map::empty(),
            pending: None,
        }
    }

    pub open spec fn go(self) -> Moved<'a> {
        Moved { next: self, outcome: Ok(EventView::Continue) }
    }

    /// The state after a runtime error: nothing is left to do, and the
    /// globals are the current scope again. The variables stay as they are.
    pub open spec fn aborted(self) -> Walk<'a> {
        Walk { control: Seq::empty(), values: Seq::empty(), environment: 0, pending: None, ..self }
    }

    pub open spec fn fail(self, line: usize, message: Seq<char>) -> Moved<'a> {
        Moved { next: self.aborted(), outcome: Err(ErrorView { line, message }) }
    }

    pub open spec fn raise(self, error: ErrorView) -> Moved<'a> {
        Moved { next: self.aborted(), outcome: Err(error) }
    }

    /// An error of the walker itself: a value or a scope that should be
    /// there is not.
    pub open spec fn broken(self) -> Moved<'a> {
        self.fail(0, "The interpreter lost track of its state."@)
    }

    pub open spec fn ask(self, request: NumberRequestView) -> Moved<'a> {
        Moved {
            next: Walk { pending: Some(request), ..self },
            outcome: Ok(EventView::Number(request)),
        }
    }

    /// The state after the host has answered: the number is pushed. A
    /// walker that asked nothing stays as it is.
    pub open spec fn supply(self, n: Number) -> Walk<'a> {
        if self.pending is Some {
            Walk { pending: None, values: self.values.push(ObjectView::Number(n)), ..self }
        } else {
            self
        }
    }

    pub open spec fn push(self, frame: Frame<'a>) -> Walk<'a> {
        Walk { control: self.control.push(frame), ..self }
    }

    pub open spec fn push_value(self, v: ObjectView) -> Walk<'a> {
        Walk { values: self.values.push(v), ..self }
    }

    /// The walker without the `count` topmost values.
    pub open spec fn drop(self, count: int) -> Walk<'a> {
        Walk { values: self.values.take(self.values.len() - count), ..self }
    }

    /// The value `depth` places below the top.
    pub open spec fn top(self, depth: int) -> ObjectView {
        self.values[self.values.len() - 1 - depth]
    }

    /// What applying an operator gave becomes a value, a request or an
    /// error at the operator's line.
    pub open spec fn settle(self, applied: Applied, line: usize) -> Moved<'a> {
        match applied {
            Applied::Value(v) => self.push_value(v).go(),
            Applied::Ask(request) => self.ask(request),
            Applied::Fail(message) => self.fail(line, message),
        }
    }

    /// Defines a variable in the current scope.
    pub open spec fn define(self, name: Seq<char>, value: ObjectView) -> Moved<'a> {
        if self.environment < self.scopes.len() {
            Walk {
                scopes: with_value(self.scopes, self.environment as int, name, value),
                ..self
            }.go()
        } else {
            self.broken()
        }
    }

    /// The value of a variable: where the resolver found it, that many
    /// scopes outward; else among the globals.
    pub open spec fn look_up(self, id: usize, name: &Token) -> Result<ObjectView, ErrorView> {
        if self.locals.contains_key(id) {
            get_at(
                self.scopes,
                self.environment as int,
                self.locals[id] as nat,
                name.lexeme@,
                name.line,
            )
        } else {
            get(self.scopes, 0, name.lexeme@, name.line)
        }
    }

    /// The scopes after an assignment: where the resolver found the
    /// variable, that many scopes outward; else among the globals, where it
    /// must exist.
    pub open spec fn stored(self, id: usize, name: &Token, value: ObjectView) -> Result<
        Scopes,
        ErrorView,
    > {
        if self.locals.contains_key(id) {
            assign_at(
                self.scopes,
                self.environment as int,
                self.locals[id] as nat,
                name.lexeme@,
                value,
                name.line,
            )
        } else {
            assign(self.scopes, 0, name.lexeme@, value, name.line)
        }
    }

    /// Enters a new scope inside the current one, to go back to the current
    /// one afterwards.
    pub open spec fn enter(self) -> Walk<'a> {
        Walk {
            control: self.control.push(Frame::Restore(self.environment)),
            scopes: self.scopes.push(
                EnvironmentView { enclosing: Some(self.environment), values: Map::empty() },
            ),
            environment: self.scopes.len() as usize,
            ..self
        }
    }

    /// Leaves the function being called: the frames down to the end of the
    /// call are dropped, and the caller's scope is current again. The value
    /// on top is the result.
    pub open spec fn unwind(self) -> Moved<'a>
        decreases self.control.len(),
    {
        if self.control.len() == 0 {
            self.fail(0, "Can't return from top-level code."@)
        } else {
            match self.control.last() {
                Frame::Return(scope) => Walk {
                    control: self.control.drop_last(),
                    environment: scope,
                    ..self
                }.go(),
                _ => Walk { control: self.control.drop_last(), ..self }.unwind(),
            }
        }
    }

    pub open spec fn execute(self, statement: &'a Stmt) -> Moved<'a> {
        match statement {
            Stmt::Expression(s) => self.push(Frame::Discard).push(
                Frame::Evaluate(&s.expression),
            ).go(),
            Stmt::Print(s) => self.push(Frame::Print).push(Frame::Evaluate(&s.expression)).go(),
            Stmt::Var(s) => match &s.initializer {
                Some(e) => self.push(Frame::Define(&s.name)).push(Frame::Evaluate(e)).go(),
                None => self.define(s.name.lexeme@, ObjectView::Nil),
            },
            Stmt::Block(s) => if self.environment < self.scopes.len() && self.scopes.len()
                < usize::MAX {
                self.enter().push(Frame::Sequence(&s.statements, 0)).go()
            } else {
                self.broken()
            },
            Stmt::If(s) => self.push(Frame::Branch(s)).push(Frame::Evaluate(&s.condition)).go(),
            Stmt::While(s) => self.push(Frame::Test(s)).push(Frame::Evaluate(&s.condition)).go(),
            Stmt::Function(s) => if self.callables.len() < usize::MAX {
                Walk {
                    callables: self.callables.push(
                        Callable::Function(
                            LoxFunction { declaration: s, closure: self.environment },
                        ),
                    ),
                    ..self
                }.define(s.name.lexeme@, ObjectView::Callable(self.callables.len() as usize))
            } else {
                self.broken()
            },
            Stmt::Return(s) => match &s.value {
                Some(e) => self.push(Frame::Unwind).push(Frame::Evaluate(e)).go(),
                None => self.push_value(ObjectView::Nil).unwind(),
            },
        }
    }

    pub open spec fn evaluate(self, expression: &'a Expr) -> Moved<'a> {
        match expression {
            Expr::Literal(e) => match e.value {
                Literal::Nil => self.push_value(ObjectView::Nil).go(),
                Literal::Bool(b) => self.push_value(ObjectView::Bool(b)).go(),
                Literal::Number(digits) => self.ask(NumberRequestView::Parse(digits@)),
                Literal::String(text) => self.push_value(ObjectView::String(text@)).go(),
            },
            Expr::Grouping(e) => self.push(Frame::Evaluate(&e.expression)).go(),
            Expr::Unary(e) => self.push(Frame::ApplyUnary(e)).push(Frame::Evaluate(&e.right)).go(),
            Expr::Binary(e) => self.push(Frame::ApplyBinary(e)).push(
                Frame::Evaluate(&e.right),
            ).push(Frame::Evaluate(&e.left)).go(),
            Expr::Logical(e) => self.push(Frame::Decide(e)).push(Frame::Evaluate(&e.left)).go(),
            Expr::Variable(e) => match self.look_up(e.id, &e.name) {
                Ok(value) => self.push_value(value).go(),
                Err(error) => self.raise(error),
            },
            Expr::Assign(e) => self.push(Frame::Store(e)).push(Frame::Evaluate(&e.value)).go(),
            Expr::Call(e) => Walk {
                control: self.control.push(Frame::Invoke(e)) + evaluations(
                    &e.arguments,
                    e.arguments@.len(),
                ),
                ..self
            }.push(Frame::Evaluate(&e.callee)).go(),
        }
    }

    /// What calling does, once the callee and the arguments are off the value
    /// stack. The clock asks the host for the time. A function runs its body
    /// in a new scope, which holds the parameters and lies inside the scope
    /// of the function's declaration; the end of the call leads back to the
    /// scope of the caller.
    pub open spec fn call(self, callee: Callable<'a>, arguments: Seq<ObjectView>) -> Moved<'a> {
        match callee {
            Callable::Clock => self.ask(NumberRequestView::Clock),
            Callable::Function(function) => if function.closure < self.scopes.len()
                && self.scopes.len() < usize::MAX {
                Walk {
                    control: self.control.push(Frame::Return(self.environment)).push(
                        Frame::Sequence(&function.declaration.body, 0),
                    ),
                    scopes: self.scopes.push(function.call_scope(arguments)),
                    environment: self.scopes.len() as usize,
                    ..self
                }.go()
            } else {
                self.broken()
            },
        }
    }

    /// A call: the callee lies under its arguments on the value stack. The
    /// callee must be callable and take as many arguments as there are. A
    /// function then runs its body in a new scope, which holds the
    /// parameters and lies inside the scope of the function's declaration.
    pub open spec fn invoke(self, call: &'a ExprCall) -> Moved<'a> {
        let count = call.arguments@.len();
        if self.values.len() < count + 1 {
            self.broken()
        } else {
            let arguments = self.values.subrange(
                self.values.len() - count,
                self.values.len() as int,
            );
            let rest = self.drop(count as int + 1);
            match self.top(count as int) {
                ObjectView::Callable(handle) => if handle < self.callables.len() {
                    let callee = self.callables[handle as int];
                    if callee.spec_arity() != count {
                        self.fail(call.paren.line, arity_message(callee.spec_arity(), count))
                    } else {
                        rest.call(callee, arguments)
                    }
                } else {
                    self.fail(call.paren.line, "Can only call functions and classes."@)
                },
                _ => self.fail(call.paren.line, "Can only call functions and classes."@),
            }
        }
    }

    /// A frame that works on the value on top of the stack.
    pub open spec fn consume(self, frame: Frame<'a>) -> Moved<'a> {
        if self.values.len() == 0 {
            self.broken()
        } else {
            let value = self.top(0);
            let rest = self.drop(1);
            match frame {
                Frame::Discard => rest.go(),
                Frame::Print => Moved {
                    next: rest,
                    outcome: Ok(EventView::Print(shown(value, self.callables))),
                },
                Frame::Define(name) => rest.define(name.lexeme@, value),
                Frame::Branch(s) => if truthy(value) {
                    rest.push(Frame::Execute(&*s.then_branch)).go()
                } else {
                    match &s.else_branch {
                        Some(other) => rest.push(Frame::Execute(&**other)).go(),
                        None => rest.go(),
                    }
                },
                Frame::Test(s) => if truthy(value) {
                    rest.push(Frame::Repeat(s)).push(Frame::Execute(&*s.body)).go()
                } else {
                    rest.go()
                },
                Frame::Unwind => self.unwind(),
                Frame::ApplyUnary(e) => rest.settle(
                    unary(e.operator.token_type, value),
                    e.operator.line,
                ),
                Frame::ApplyBinary(e) => if self.values.len() < 2 {
                    self.broken()
                } else {
                    self.drop(2).settle(
                        binary(e.operator.token_type, self.top(1), value),
                        e.operator.line,
                    )
                },
                Frame::Decide(e) => if decides(e.operator.token_type, value) {
                    self.go()
                } else {
                    rest.push(Frame::Evaluate(&*e.right)).go()
                },
                Frame::Store(e) => match self.stored(e.id, &e.name, value) {
                    Ok(scopes) => Walk { scopes, ..self }.go(),
                    Err(error) => self.raise(error),
                },
                _ => self.go(),
            }
        }
    }

    /// One step: the frame on top of the stack is taken off and done. A
    /// walker that waits for the host repeats its request.
    pub open spec fn step(self) -> Moved<'a> {
        if self.pending is Some {
            Moved { next: self, outcome: Ok(EventView::Number(self.pending->0)) }
        } else if self.control.len() == 0 {
            Moved { next: self, outcome: Ok(EventView::Done) }
        } else {
            let rest = Walk { control: self.control.drop_last(), ..self };
            match self.control.last() {
                Frame::Sequence(list, next) => if next < list@.len() {
                    rest.push(Frame::Sequence(list, (next + 1) as usize)).push(
                        Frame::Execute(&list@[next as int]),
                    ).go()
                } else {
                    rest.go()
                },
                Frame::Execute(statement) => rest.execute(statement),
                Frame::Evaluate(expression) => rest.evaluate(expression),
                Frame::Restore(scope) => Walk { environment: scope, ..rest }.go(),
                Frame::Repeat(s) => rest.push(Frame::Test(s)).push(
                    Frame::Evaluate(&s.condition),
                ).go(),
                Frame::Return(scope) => Walk { environment: scope, ..rest }.push_value(
                    ObjectView::Nil,
                ).go(),
                Frame::Invoke(call) => rest.invoke(call),
                frame => rest.consume(frame),
            }
        }
    }

    /// The state with a program to run: its statements are what is to do,
    /// in the scope of the globals.
    pub open spec fn load(self, statements: &'a Vec<Stmt>) -> Walk<'a> {
        Walk {
            control: seq![Frame::Sequence(statements, 0)],
            values: Seq::empty(),
            environment: 0,
            pending: None,
            ..self
        }
    }
}

} // verus!

verus! {

/// What an operator gave, with its value or request in hand.
pub enum Outcome {
    Value(Object),
    Ask(NumberRequest),
    Fail(String),
}

impl View for Outcome {
    type V = Applied;

    open spec fn view(&self) -> Applied {
        match self {
            Outcome::Value(v) => Applied::Value(v@),
            Outcome::Ask(request) => Applied::Ask(request@),
            Outcome::Fail(message) => Applied::Fail(message@),
        }
    }
}

/// What a step returned, as the model sees it.
pub open spec fn event_view(r: Result<Event, RuntimeError>) -> Result<EventView, ErrorView> {
    match r {
        Ok(event) => Ok(event@),
        Err(error) => Err(error@),
    }
}

/// Whether what a step returned and left behind is what the model
/// gives.
pub open spec fn moved<'a>(r: Result<Event, RuntimeError>, after: Walk<'a>, expected: Moved<'a>) -> bool {
    after == expected.next && event_view(r) == expected.outcome
}

/// For each reference to a local variable, by its number, how many scopes
/// outward its variable is.
pub struct Locals {
    depths: std::collections::HashMap<usize, usize>,
}

impl View for Locals {
    type V = Map<usize, usize>;

    closed spec fn view(&self) -> Map<usize, usize> {
        self.depths@
    }
}

impl Locals {
    pub fn new() -> (locals: Locals)
        ensures
            locals@ == Map::<usize, usize>::empty(),
    {
        Locals { depths: std::collections::HashMap::new() }
    }

    pub fn get(&self, id: usize) -> (depth: Option<usize>)
        ensures
            depth == if self@.contains_key(id) {
                Some(self@[id])
            } else {
                None
            },
    {
        broadcast use vstd::std_specs::hash::group_hash_axioms;

        match self.depths.get(&id) {
            Some(depth) => Some(*depth),
            None => None,
        }
    }

    pub fn insert(&mut self, id: usize, depth: usize)
        ensures
            final(self)@ == old(self)@.insert(id, depth),
    {
        broadcast use vstd::std_specs::hash::group_hash_axioms;

        self.depths.insert(id, depth);
    }
}

/// The tree walker.
pub struct Interpreter<'a> {
    scopes: Environments,
    environment: usize,
    callables: Vec<Callable<'a>>,
    locals: Locals,
    control: Vec<Frame<'a>>,
    values: Vec<Object>,
    pending: Option<NumberRequest>,
}

impl<'a> Interpreter<'a> {
    /// The state of the walk.
    pub closed spec fn model(&self) -> Walk<'a> {
        Walk {
            control: self.control@,
            values: self.values.deep_view(),
            scopes: self.scopes@,
            environment: self.environment,
            callables: self.callables@,
            locals: self.locals@,
            pending: match self.pending {
                Some(request) => Some(request@),
                None => None,
            },
        }
    }

    /// A walker with nothing to do: the globals hold the clock.
    pub fn new() -> (interpreter: Interpreter<'a>)
        ensures
            interpreter.model() == Walk::<'a>::start(),
    {
        let mut globals = Environment::default();
        globals.define("clock", Object::Callable(0));
        let mut scopes = Environments::new();
        scopes.add(globals);
        let mut callables = Vec::new();
        callables.push(Callable::Clock);
        let interpreter = Interpreter {
            scopes,
            environment: 0,
            callables,
            locals: Locals::new(),
            control: Vec::new(),
            values: Vec::new(),
            pending: None,
        };
        proof {
            assert(interpreter.model().values =~= Seq::empty());
            assert(interpreter.model().control =~= Seq::empty());
            assert(interpreter.model().callables =~= seq![Callable::Clock]);
            assert(interpreter.model().scopes =~= Walk::<'a>::start().scopes);
        }
        interpreter
    }

    /// Takes a program to run from its first statement, in the scope of
    /// the globals. What was left to do before is dropped.
    pub fn interpret(&mut self, statements: &'a Vec<Stmt>)
        ensures
            final(self).model() == old(self).model().load(statements),
    {
        self.control.clear();
        self.values.clear();
        self.environment = 0;
        self.pending = None;
        self.control.push(Frame::Sequence(statements, 0));
        proof {
            assert(self.model().control =~= seq![Frame::Sequence(statements, 0)]);
            assert(self.model().values =~= Seq::empty());
        }
    }

    /// Records where the resolver found the variable that a reference
    /// means. An expression that refers to no variable is passed over.
    pub fn resolve(&mut self, expr: &Expr, depth: usize)
        ensures
            final(self).model() == (Walk {
                locals: match expr {
                    Expr::Variable(e) => old(self).model().locals.insert(e.id, depth),
                    Expr::Assign(e) => old(self).model().locals.insert(e.id, depth),
                    _ => old(self).model().locals,
                },
                ..old(self).model()
            }),
    {
        match expr {
            Expr::Variable(e) => self.locals.insert(e.id, depth),
            Expr::Assign(e) => self.locals.insert(e.id, depth),
            _ => {},
        }
    }

    /// Takes every entry of the resolver's findings.
    pub fn adopt(&mut self, locals: Locals)
        ensures
            final(self).model() == (Walk { locals: locals@, ..old(self).model() }),
    {
        self.locals = locals;
    }

    /// Hands out the resolver's findings, for a resolver to add to; the
    /// walker keeps none.
    pub fn release_locals(&mut self) -> (locals: Locals)
        ensures
            locals@ == old(self).model().locals,
            final(self).model() == (Walk { locals: Map::empty(), ..old(self).model() }),
    {
        let mut locals = Locals::new();
        std::mem::swap(&mut locals, &mut self.locals);
        locals
    }

    /// The place of the current scope.
    pub fn current_scope(&self) -> (at: usize)
        ensures
            at == self.model().environment,
    {
        self.environment
    }

    /// All the scopes.
    pub fn scopes(&self) -> (scopes: &Environments)
        ensures
            scopes@ == self.model().scopes,
    {
        &self.scopes
    }

    /// The number of values of expressions under evaluation.
    pub fn value_count(&self) -> (n: usize)
        ensures
            n == self.model().values.len(),
    {
        self.values.len()
    }

    /// The number of frames that are left to do.
    pub fn frame_count(&self) -> (n: usize)
        ensures
            n == self.model().control.len(),
    {
        self.control.len()
    }

    /// Whether nothing is left to do.
    pub fn is_done(&self) -> (done: bool)
        ensures
            done == (self.model().control.len() == 0 && self.model().pending is None),
    {
        self.control.len() == 0 && self.pending.is_none()
    }

    fn abort(&mut self)
        ensures
            final(self).model() == old(self).model().aborted(),
    {
        self.control.clear();
        self.values.clear();
        self.environment = 0;
        self.pending = None;
        proof {
            assert(self.model().control =~= Seq::empty());
            assert(self.model().values =~= Seq::empty());
        }
    }

    fn raise(&mut self, error: RuntimeError) -> (r: Result<Event, RuntimeError>)
        ensures
            moved(r, final(self).model(), old(self).model().raise(error@)),
    {
        self.abort();
        Err(error)
    }

    fn fail(&mut self, line: usize, message: &str) -> (r: Result<Event, RuntimeError>)
        ensures
            moved(r, final(self).model(), old(self).model().fail(line, message@)),
    {
        self.abort();
        Err(RuntimeError::new(line, message))
    }

    fn broken(&mut self) -> (r: Result<Event, RuntimeError>)
        ensures
            moved(r, final(self).model(), old(self).model().broken()),
    {
        self.fail(0, "The interpreter lost track of its state.")
    }

    fn ask(&mut self, request: NumberRequest) -> (r: Result<Event, RuntimeError>)
        ensures
            moved(r, final(self).model(), old(self).model().ask(request@)),
    {
        self.pending = Some(request.clone());
        Ok(Event::Number(request))
    }

    /// Hands the walker the number that it asked for. A walker that asked
    /// nothing stays as it is.
    pub fn supply(&mut self, n: Number)
        ensures
            final(self).model() == old(self).model().supply(n),
    {
        if self.pending.is_some() {
            self.pending = None;
            self.push_value(Object::Number(n));
        }
    }

    fn push(&mut self, frame: Frame<'a>)
        ensures
            final(self).model() == old(self).model().push(frame),
    {
        self.control.push(frame);
    }

    fn push_value(&mut self, v: Object)
        ensures
            final(self).model() == old(self).model().push_value(v@),
    {
        self.values.push(v);
        assert(self.model().values =~= old(self).model().values.push(v@));
    }

    fn pop_value(&mut self) -> (v: Object)
        requires
            old(self).model().values.len() > 0,
        ensures
            v@ == old(self).model().top(0),
            final(self).model() == old(self).model().drop(1),
    {
        let v = self.values.pop().unwrap();
        assert(self.model().values =~= old(self).model().drop(1).values);
        v
    }

    fn settle(&mut self, applied: Outcome, line: usize) -> (r: Result<Event, RuntimeError>)
        ensures
            moved(r, final(self).model(), old(self).model().settle(applied@, line)),
    {
        match applied {
            Outcome::Value(v) => {
                self.push_value(v);
                Ok(Event::Continue)
            },
            Outcome::Ask(request) => self.ask(request),
            Outcome::Fail(message) => self.fail(line, message.as_str()),
        }
    }

    fn define(&mut self, name: &str, value: Object) -> (r: Result<Event, RuntimeError>)
        ensures
            moved(r, final(self).model(), old(self).model().define(name@, value@)),
    {
        if self.environment < self.scopes.len() {
            self.scopes.set(self.environment, name, value);
            Ok(Event::Continue)
        } else {
            self.broken()
        }
    }

    /// How a value is written.
    pub fn stringify(&self, object: &Object) -> (text: Shown)
        ensures
            text@ == shown(object@, self.model().callables),
    {
        match object {
            Object::String(text) => Shown::Text(text.clone()),
            Object::Number(n) => Shown::Number(*n),
            Object::Bool(b) => if *b {
                Shown::Text("true".to_owned())
            } else {
                Shown::Text("false".to_owned())
            },
            Object::Nil => Shown::Text("nil".to_owned()),
            Object::Callable(handle) => if *handle < self.callables.len() {
                match &self.callables[*handle] {
                    Callable::Clock => Shown::Text("<native fn>".to_owned()),
                    Callable::Function(function) => {
                        let mut text = "<fn ".to_owned();
                        push_text(&mut text, function.declaration.name.lexeme.as_str());
                        push_text(&mut text, ">");
                        Shown::Text(text)
                    },
                }
            } else {
                Shown::Text("<fn>".to_owned())
            },
        }
    }

    /// The value of a variable.
    pub fn look_up_variable(&self, name: &Token, id: usize) -> (r: Result<Object, RuntimeError>)
        ensures
            match r {
                Ok(value) => Ok::<ObjectView, ErrorView>(value@),
                Err(error) => Err(error@),
            } == self.model().look_up(id, name),
    {
        match self.locals.get(id) {
            Some(distance) => Environment::get_at(&self.scopes, self.environment, distance, name),
            None => Environment::get(&self.scopes, 0, name),
        }
    }

    /// A unary operator applied to a value.
    pub fn unary_operation(op: TokenType, right: &Object) -> (applied: Outcome)
        ensures
            applied@ == unary(op, right@),
    {
        match op {
            TokenType::Bang => Outcome::Value(Object::Bool(!right.is_truthy())),
            TokenType::Minus => match right {
                Object::Number(n) => Outcome::Value(Object::Number(n.negate())),
                _ => Outcome::Fail("Operand must be a number.".to_owned()),
            },
            _ => Outcome::Value(Object::Nil),
        }
    }

    /// A binary operator applied to two values.
    pub fn binary_operation(op: TokenType, left: &Object, right: &Object) -> (applied: Outcome)
        ensures
            applied@ == binary(op, left@, right@),
    {
        match op {
            TokenType::Plus => match (left, right) {
                (Object::Number(l), Object::Number(r)) => Outcome::Ask(NumberRequest::Add(*l, *r)),
                (Object::String(l), Object::String(r)) => {
                    let mut text = l.clone();
                    push_text(&mut text, r.as_str());
                    Outcome::Value(Object::String(text))
                },
                _ => Outcome::Fail("Operands must be two numbers or two strings.".to_owned()),
            },
            TokenType::BangEqual => Outcome::Value(Object::Bool(!left.is_equal(right))),
            TokenType::EqualEqual => Outcome::Value(Object::Bool(left.is_equal(right))),
            TokenType::Minus
            | TokenType::Slash
            | TokenType::Star
            | TokenType::Greater
            | TokenType::GreaterEqual
            | TokenType::Less
            | TokenType::LessEqual => match (left, right) {
                (Object::Number(l), Object::Number(r)) => match op {
                    TokenType::Minus => Outcome::Ask(NumberRequest::Subtract(*l, *r)),
                    TokenType::Slash => Outcome::Ask(NumberRequest::Divide(*l, *r)),
                    TokenType::Star => Outcome::Ask(NumberRequest::Multiply(*l, *r)),
                    TokenType::Greater => Outcome::Value(Object::Bool(l.greater(r))),
                    TokenType::GreaterEqual => Outcome::Value(Object::Bool(l.greater_equal(r))),
                    TokenType::Less => Outcome::Value(Object::Bool(l.less(r))),
                    _ => Outcome::Value(Object::Bool(l.less_equal(r))),
                },
                _ => Outcome::Fail("Operands must be numbers.".to_owned()),
            },
            _ => Outcome::Value(Object::Nil),
        }
    }

    /// Whether the left operand of `or` or `and` decides the result.
    pub fn short_circuits(op: TokenType, left: &Object) -> (r: bool)
        ensures
            r == decides(op, left@),
    {
        if op == TokenType::Or {
            left.is_truthy()
        } else {
            !left.is_truthy()
        }
    }

    /// Runs the statements in the scope at `environment` and goes back to
    /// the current scope afterwards.
    pub fn execute_block(&mut self, statements: &'a Vec<Stmt>, environment: usize)
        ensures
            final(self).model() == (Walk {
                control: old(self).model().control.push(
                    Frame::Restore(old(self).model().environment),
                ).push(Frame::Sequence(statements, 0)),
                environment,
                ..old(self).model()
            }),
    {
        self.control.push(Frame::Restore(self.environment));
        self.control.push(Frame::Sequence(statements, 0));
        self.environment = environment;
    }

    fn unwind(&mut self) -> (r: Result<Event, RuntimeError>)
        ensures
            moved(r, final(self).model(), old(self).model().unwind()),
    {
        loop
            invariant
                self.model().unwind() == old(self).model().unwind(),
            decreases self.control.len(),
        {
            match self.control.pop() {
                Some(Frame::Return(scope)) => {
                    self.environment = scope;
                    return Ok(Event::Continue);
                },
                Some(_) => {},
                None => {
                    return self.fail(0, "Can't return from top-level code.");
                },
            }
        }
    }

    fn execute(&mut self, statement: &'a Stmt) -> (r: Result<Event, RuntimeError>)
        ensures
            moved(r, final(self).model(), old(self).model().execute(statement)),
    {
        match statement {
            Stmt::Expression(s) => {
                self.push(Frame::Discard);
                self.push(Frame::Evaluate(&s.expression));
                Ok(Event::Continue)
            },
            Stmt::Print(s) => {
                self.push(Frame::Print);
                self.push(Frame::Evaluate(&s.expression));
                Ok(Event::Continue)
            },
            Stmt::Var(s) => match &s.initializer {
                Some(e) => {
                    self.push(Frame::Define(&s.name));
                    self.push(Frame::Evaluate(e));
                    Ok(Event::Continue)
                },
                None => self.define(s.name.lexeme.as_str(), Object::Nil),
            },
            Stmt::Block(s) => {
                if self.environment < self.scopes.len() && self.scopes.len() < usize::MAX {
                    let inner = self.scopes.add(Environment::new(self.environment));
                    self.control.push(Frame::Restore(self.environment));
                    self.environment = inner.unwrap();
                    self.push(Frame::Sequence(&s.statements, 0));
                    Ok(Event::Continue)
                } else {
                    self.broken()
                }
            },
            Stmt::If(s) => {
                self.push(Frame::Branch(s));
                self.push(Frame::Evaluate(&s.condition));
                Ok(Event::Continue)
            },
            Stmt::While(s) => {
                self.push(Frame::Test(s));
                self.push(Frame::Evaluate(&s.condition));
                Ok(Event::Continue)
            },
            Stmt::Function(s) => {
                if self.callables.len() < usize::MAX {
                    let handle = self.callables.len();
                    self.callables.push(Callable::Function(LoxFunction::new(s, self.environment)));
                    self.define(s.name.lexeme.as_str(), Object::Callable(handle))
                } else {
                    self.broken()
                }
            },
            Stmt::Return(s) => match &s.value {
                Some(e) => {
                    self.push(Frame::Unwind);
                    self.push(Frame::Evaluate(e));
                    Ok(Event::Continue)
                },
                None => {
                    self.push_value(Object::Nil);
                    self.unwind()
                },
            },
        }
    }

    fn evaluate(&mut self, expression: &'a Expr) -> (r: Result<Event, RuntimeError>)
        ensures
            moved(r, final(self).model(), old(self).model().evaluate(expression)),
    {
        match expression {
            Expr::Literal(e) => match &e.value {
                Literal::Nil => {
                    self.push_value(Object::Nil);
                    Ok(Event::Continue)
                },
                Literal::Bool(b) => {
                    self.push_value(Object::Bool(*b));
                    Ok(Event::Continue)
                },
                Literal::Number(digits) => self.ask(NumberRequest::Parse(digits.clone())),
                Literal::String(text) => {
                    self.push_value(Object::String(text.clone()));
                    Ok(Event::Continue)
                },
            },
            Expr::Grouping(e) => {
                self.push(Frame::Evaluate(&e.expression));
                Ok(Event::Continue)
            },
            Expr::Unary(e) => {
                self.push(Frame::ApplyUnary(e));
                self.push(Frame::Evaluate(&e.right));
                Ok(Event::Continue)
            },
            Expr::Binary(e) => {
                self.push(Frame::ApplyBinary(e));
                self.push(Frame::Evaluate(&e.right));
                self.push(Frame::Evaluate(&e.left));
                Ok(Event::Continue)
            },
            Expr::Logical(e) => {
                self.push(Frame::Decide(e));
                self.push(Frame::Evaluate(&e.left));
                Ok(Event::Continue)
            },
            Expr::Variable(e) => match self.look_up_variable(&e.name, e.id) {
                Ok(value) => {
                    self.push_value(value);
                    Ok(Event::Continue)
                },
                Err(error) => self.raise(error),
            },
            Expr::Assign(e) => {
                self.push(Frame::Store(e));
                self.push(Frame::Evaluate(&e.value));
                Ok(Event::Continue)
            },
            Expr::Call(e) => {
                self.push(Frame::Invoke(e));
                let ghost base = self.model().control;
                let count = e.arguments.len();
                let mut pushed: usize = 0;
                while pushed < count
                    invariant
                        pushed <= count,
                        count == e.arguments@.len(),
                        self.model() == (Walk {
                            control: base + evaluations(&e.arguments, count as nat).take(
                                pushed as int,
                            ),
                            ..old(self).model()
                        }),
                    decreases count - pushed,
                {
                    self.control.push(Frame::Evaluate(&e.arguments[count - 1 - pushed]));
                    pushed += 1;
                    proof {
                        assert(self.model().control =~= base + evaluations(
                            &e.arguments,
                            count as nat,
                        ).take(pushed as int));
                    }
                }
                proof {
                    assert(evaluations(&e.arguments, count as nat).take(count as int)
                        =~= evaluations(&e.arguments, count as nat));
                }
                self.push(Frame::Evaluate(&e.callee));
                Ok(Event::Continue)
            },
        }
    }

    fn arity_error(&mut self, line: usize, arity: usize, count: usize) -> (r: Result<
        Event,
        RuntimeError,
    >)
        ensures
            moved(
                r,
                final(self).model(),
                old(self).model().fail(line, arity_message(arity as nat, count as nat)),
            ),
    {
        let mut message = "Expected ".to_owned();
        push_decimal(&mut message, arity);
        push_text(&mut message, " arguments but got ");
        push_decimal(&mut message, count);
        push_text(&mut message, ".");
        self.fail(line, message.as_str())
    }

    fn invoke(&mut self, call: &'a ExprCall) -> (r: Result<Event, RuntimeError>)
        ensures
            moved(r, final(self).model(), old(self).model().invoke(call)),
    {
        let count = call.arguments.len();
        if self.values.len() < count || self.values.len() - count < 1 {
            return self.broken();
        }
        let handle = match &self.values[self.values.len() - 1 - count] {
            Object::Callable(handle) => if *handle < self.callables.len() {
                Some(*handle)
            } else {
                None
            },
            _ => None,
        };
        let handle = match handle {
            Some(handle) => handle,
            None => {
                return self.fail(call.paren.line, "Can only call functions and classes.");
            },
        };
        let arity = self.callables[handle].arity();
        if arity != count {
            return self.arity_error(call.paren.line, arity, count);
        }
        let ghost before = self.model();
        let arguments = self.values.split_off(self.values.len() - count);
        self.values.pop();
        proof {
            assert(self.model().values =~= before.drop(count as int + 1).values);
            assert(arguments.deep_view() =~= before.values.subrange(
                before.values.len() - count,
                before.values.len() as int,
            ));
        }
        let callee = self.callables[handle];
        callee.call(self, &arguments)
    }

    fn consume(&mut self, frame: Frame<'a>) -> (r: Result<Event, RuntimeError>)
        ensures
            moved(r, final(self).model(), old(self).model().consume(frame)),
    {
        if self.values.len() == 0 {
            return self.broken();
        }
        match frame {
            Frame::Discard => {
                self.pop_value();
                Ok(Event::Continue)
            },
            Frame::Print => {
                let value = self.pop_value();
                Ok(Event::Print(self.stringify(&value)))
            },
            Frame::Define(name) => {
                let value = self.pop_value();
                self.define(name.lexeme.as_str(), value)
            },
            Frame::Branch(s) => {
                let value = self.pop_value();
                if value.is_truthy() {
                    self.push(Frame::Execute(&*s.then_branch));
                } else {
                    match &s.else_branch {
                        Some(other) => {
                            self.push(Frame::Execute(&**other));
                        },
                        None => {},
                    }
                }
                Ok(Event::Continue)
            },
            Frame::Test(s) => {
                let value = self.pop_value();
                if value.is_truthy() {
                    self.push(Frame::Repeat(s));
                    self.push(Frame::Execute(&*s.body));
                }
                Ok(Event::Continue)
            },
            Frame::Unwind => self.unwind(),
            Frame::ApplyUnary(e) => {
                let value = self.pop_value();
                let applied = Self::unary_operation(e.operator.token_type, &value);
                self.settle(applied, e.operator.line)
            },
            Frame::ApplyBinary(e) => {
                if self.values.len() < 2 {
                    return self.broken();
                }
                let right = self.pop_value();
                let left = self.pop_value();
                proof {
                    assert(old(self).model().drop(1).drop(1).values =~= old(self).model().drop(
                        2,
                    ).values);
                }
                let applied = Self::binary_operation(e.operator.token_type, &left, &right);
                self.settle(applied, e.operator.line)
            },
            Frame::Decide(e) => {
                if !Self::short_circuits(e.operator.token_type, &self.values[self.values.len() - 1]) {
                    self.pop_value();
                    self.push(Frame::Evaluate(&*e.right));
                }
                Ok(Event::Continue)
            },
            Frame::Store(e) => {
                let value = self.values[self.values.len() - 1].clone();
                let stored = match self.locals.get(e.id) {
                    Some(distance) => Environment::assign_at(
                        &mut self.scopes,
                        self.environment,
                        distance,
                        &e.name,
                        &value,
                    ),
                    None => Environment::assign(&mut self.scopes, 0, &e.name, &value),
                };
                match stored {
                    Ok(()) => Ok(Event::Continue),
                    Err(error) => self.raise(error),
                }
            },
            _ => Ok(Event::Continue),
        }
    }

    /// Takes one step.
    pub fn step(&mut self) -> (r: Result<Event, RuntimeError>)
        ensures
            moved(r, final(self).model(), old(self).model().step()),
    {
        match &self.pending {
            Some(request) => {
                return Ok(Event::Number(request.clone()));
            },
            None => {},
        }
        let frame = match self.control.pop() {
            Some(frame) => frame,
            None => {
                return Ok(Event::Done);
            },
        };
        match frame {
            Frame::Sequence(list, next) => {
                if next < list.len() {
                    self.push(Frame::Sequence(list, next + 1));
                    self.push(Frame::Execute(&list[next]));
                }
                Ok(Event::Continue)
            },
            Frame::Execute(statement) => self.execute(statement),
            Frame::Evaluate(expression) => self.evaluate(expression),
            Frame::Restore(scope) => {
                self.environment = scope;
                Ok(Event::Continue)
            },
            Frame::Repeat(s) => {
                self.push(Frame::Test(s));
                self.push(Frame::Evaluate(&s.condition));
                Ok(Event::Continue)
            },
            Frame::Return(scope) => {
                self.environment = scope;
                self.push_value(Object::Nil);
                Ok(Event::Continue)
            },
            Frame::Invoke(call) => self.invoke(call),
            frame => self.consume(frame),
        }
    }
}

} // verus!

verus! {

/// The value of `left or right` and of `left and right`, from the values
/// of the operands: that of the left operand where it decides, else that of
/// the right one.
pub open spec fn logical(op: TokenType, left: ObjectView, right: ObjectView) -> ObjectView {
    if decides(op, left) {
        left
    } else {
        right
    }
}

/// Negating a value twice gives its truth: `!!v` is `true` exactly if `v`
/// is neither `nil` nor `false`.
pub proof fn double_negation_is_truth(v: ObjectView)
    ensures
        unary(TokenType::Bang, v) == Applied::Value(ObjectView::Bool(!truthy(v))),
        unary(TokenType::Bang, ObjectView::Bool(!truthy(v))) == Applied::Value(
            ObjectView::Bool(truthy(v)),
        ),
{
}

/// A value joined with itself by `or` or by `and` is that value.
pub proof fn logical_is_idempotent(op: TokenType, v: ObjectView)
    ensures
        logical(op, v, v) == v,
{
}

/// Where the left operand of `or` or `and` decides, the step after its
/// evaluation keeps its value as the result and drops the operator: the
/// right operand is never evaluated. Where it does not decide, its value
/// is dropped and the right operand alone is left to evaluate.
pub proof fn logical_short_circuits<'a>(w: Walk<'a>, e: &'a ExprLogical)
    requires
        w.pending is None,
        w.control.len() > 0,
        w.control.last() == Frame::Decide(e),
        w.values.len() > 0,
    ensures
        decides(e.operator.token_type, w.values.last()) ==> w.step() == (Walk {
            control: w.control.drop_last(),
            ..w
        }).go(),
        !decides(e.operator.token_type, w.values.last()) ==> w.step() == (Walk {
            control: w.control.drop_last().push(Frame::Evaluate(&*e.right)),
            values: w.values.drop_last(),
            ..w
        }).go(),
        decides(e.operator.token_type, w.values.last()) ==> forall|right: ObjectView|
            w.step().next.values.last() == #[trigger] logical(
                e.operator.token_type,
                w.values.last(),
                right,
            ),
        e.operator.token_type == TokenType::Or && truthy(w.values.last()) ==> w.step().next.values
            == w.values && w.step().next.control == w.control.drop_last(),
        e.operator.token_type == TokenType::And && !truthy(w.values.last())
            ==> w.step().next.values == w.values && w.step().next.control
            == w.control.drop_last(),
{
    let rest = Walk { control: w.control.drop_last(), ..w };
    assert(rest.drop(1).values =~= w.values.drop_last());
    assert(rest.consume(Frame::Decide(e)) == w.step());
}

/// A call with a number of arguments other than the number that the callee
/// takes is a runtime error at the line of the closing parenthesis, and its
/// message is `Expected N arguments but got M.`
pub proof fn wrong_arity_is_an_error<'a>(w: Walk<'a>, call: &'a ExprCall, handle: usize)
    requires
        w.values.len() > call.arguments@.len(),
        w.top(call.arguments@.len() as int) == ObjectView::Callable(handle),
        handle < w.callables.len(),
        w.callables[handle as int].spec_arity() != call.arguments@.len(),
    ensures
        w.invoke(call).outcome == Err::<EventView, ErrorView>(
            ErrorView {
                line: call.paren.line,
                message: arity_message(
                    w.callables[handle as int].spec_arity(),
                    call.arguments@.len(),
                ),
            },
        ),
        w.invoke(call).next == w.aborted(),
{
}

/// Scopes that were there before others were added have the same
/// ancestors afterwards.
pub proof fn ancestors_stay(scopes: Scopes, more: Scopes, at: int, distance: nat)
    requires
        nested(scopes),
        0 <= at < scopes.len(),
    ensures
        crate::environment::ancestor(scopes + more, at, distance) == crate::environment::ancestor(
            scopes,
            at,
            distance,
        ),
    decreases distance,
{
    assert((scopes + more)[at] == scopes[at]);
    if distance > 0 {
        match scopes[at].enclosing {
            Some(outer) => {
                ancestors_stay(scopes, more, outer as int, (distance - 1) as nat);
            },
            None => {},
        }
    }
}

/// The body of a function runs in a scope that lies inside the scope of
/// the function's declaration, wherever the call is made: one step outward
/// from the parameters is the scope of the declaration, and every further
/// step is a step outward from there. The scopes after the call, and so
/// every variable that the body can reach, are the same for every scope
/// that the call could be made from.
pub proof fn call_sees_the_scope_of_the_declaration<'a>(
    w: Walk<'a>,
    call: &'a ExprCall,
    handle: usize,
    elsewhere: usize,
    distance: nat,
)
    requires
        nested(w.scopes),
        w.scopes.len() < usize::MAX,
        w.values.len() > call.arguments@.len(),
        w.top(call.arguments@.len() as int) == ObjectView::Callable(handle),
        handle < w.callables.len(),
        w.callables[handle as int] is Function,
        w.callables[handle as int].spec_arity() == call.arguments@.len(),
        w.callables[handle as int]->Function_0.closure < w.scopes.len(),
    ensures
        ({
            let function = w.callables[handle as int]->Function_0;
            let after = w.invoke(call).next;
            let other = (Walk { environment: elsewhere, ..w }).invoke(call).next;
            &&& w.invoke(call).outcome == Ok::<EventView, ErrorView>(EventView::Continue)
            &&& after.environment == w.scopes.len()
            &&& after.scopes == w.scopes.push(
                function.call_scope(
                    w.values.subrange(
                        w.values.len() - call.arguments@.len(),
                        w.values.len() as int,
                    ),
                ),
            )
            &&& after.scopes[after.environment as int].enclosing == Some(function.closure)
            &&& crate::environment::ancestor(
                after.scopes,
                after.environment as int,
                distance + 1,
            ) == crate::environment::ancestor(w.scopes, function.closure as int, distance)
            &&& other.scopes == after.scopes
            &&& other.environment == after.environment
            &&& other.values == after.values
            &&& nested(after.scopes)
        }),
{
    let function = w.callables[handle as int]->Function_0;
    let arguments = w.values.subrange(
        w.values.len() - call.arguments@.len(),
        w.values.len() as int,
    );
    let added = seq![function.call_scope(arguments)];
    assert(w.scopes.push(function.call_scope(arguments)) =~= w.scopes + added);
    ancestors_stay(w.scopes, added, function.closure as int, distance);
}

} // verus!

verus! {

impl<'a> LoxFunction<'a> {
    /// Starts a call of the function: the walker then has the body to run,
    /// in a new scope that holds the parameters and lies inside the scope
    /// of the declaration.
    pub fn call(&self, interpreter: &mut Interpreter<'a>, arguments: &Vec<Object>) -> (r: Result<
        Event,
        RuntimeError,
    >)
        ensures
            moved(
                r,
                final(interpreter).model(),
                old(interpreter).model().call(Callable::Function(*self), arguments.deep_view()),
            ),
    {
        if interpreter.scopes.len() >= usize::MAX {
            return interpreter.broken();
        }
        match self.bind(&mut interpreter.scopes, arguments) {
            Some(scope) => {
                interpreter.control.push(Frame::Return(interpreter.environment));
                interpreter.control.push(Frame::Sequence(&self.declaration.body, 0));
                interpreter.environment = scope;
                Ok(Event::Continue)
            },
            None => interpreter.broken(),
        }
    }
}

impl<'a> Callable<'a> {
    /// Starts a call: of the clock, by asking the host for the time; of a
    /// function, by giving the walker its body to run.
    pub fn call(&self, interpreter: &mut Interpreter<'a>, arguments: &Vec<Object>) -> (r: Result<
        Event,
        RuntimeError,
    >)
        ensures
            moved(
                r,
                final(interpreter).model(),
                old(interpreter).model().call(*self, arguments.deep_view()),
            ),
    {
        match self {
            Callable::Clock => interpreter.ask(NumberRequest::Clock),
            Callable::Function(function) => function.call(interpreter, arguments),
        }
    }
}

} // verus!
