//! The virtual machine: a stack machine that runs the bytecode of a chunk.
//!
//! The machine works in steps. A step that needs the host hands out a
//! signal: a value to print, or work on numbers whose answer the host
//! supplies before the machine goes on.
use vstd::prelude::*;
use crate::chunk::{Chunk, ChunkView, OpCode};
use crate::compiler::{Compilation, Compiler, Diagnostic};
use crate::error::{ErrorView, RLoxError, RLoxErrorView, RuntimeError};
use crate::number::{Number, NumberRequest, NumberRequestView};
use crate::table::Table;
use crate::text::push_text;
use crate::token::{Literal, LiteralView};
use crate::value::{falsey, values_equal, Obj, ObjView, Value, ValueView};

verus! {

/// What a step hands to the host.
#[derive(Debug)]
pub enum Signal {
    /// Nothing: the machine can take its next step.
    Continue,
    /// A value to write to the output, followed by a line break.
    Print(Value),
    /// Work on numbers; the machine waits for the answer.
    Number(NumberRequest),
    /// The program has ended.
    Halt,
}

pub enum SignalView {
    Continue,
    Print(ValueView),
    Number(NumberRequestView),
    Halt,
}

impl View for Signal {
    type V = SignalView;

    open spec fn view(&self) -> SignalView {
        match self {
            Signal::Continue => SignalView::Continue,
            Signal::Print(v) => SignalView::Print(v@),
            Signal::Number(r) => SignalView::Number(r@),
            Signal::Halt => SignalView::Halt,
        }
    }
}

/// The text `Undefined variable '<name>'.`
pub open spec fn undefined_variable(name: Seq<char>) -> Seq<char> {
    "Undefined variable '"@ + name + "'."@
}

/// The state of a machine.
pub struct Machine {
    pub chunk: ChunkView,
    /// The offset of the next byte to read.
    pub ip: nat,
    /// The value stack; its top is its last element.
    pub stack: Seq<ValueView>,
    /// The source line of the instruction last fetched.
    pub line: usize,
    pub globals: Map<Seq<char>, ValueView>,
    /// The request that the host has not answered yet.
    pub pending: Option<NumberRequestView>,
}

/// A step: the state after it, and what it hands out.
pub struct Transition {
    pub next: Machine,
    pub outcome: Result<SignalView, ErrorView>,
}

impl Machine {
    /// A machine about to run a chunk from its first byte.
    pub open spec fn start(chunk: ChunkView) -> Machine {
        Machine {
            chunk,
            ip: 0,
            stack: Seq::empty(),
            line: 0,
            globals: Map::empty(),
            pending: None,
        }
    }

    /// The value `depth` places below the top of the stack.
    pub open spec fn top(self, depth: int) -> ValueView {
        self.stack[self.stack.len() - 1 - depth]
    }

    pub open spec fn push(self, v: ValueView) -> Machine {
        Machine { stack: self.stack.push(v), ..self }
    }

    /// The machine without the `count` topmost values.
    pub open spec fn drop(self, count: int) -> Machine {
        Machine { stack: self.stack.take(self.stack.len() - count), ..self }
    }

    pub open spec fn go(self) -> Transition {
        Transition { next: self, outcome: Ok(SignalView::Continue) }
    }

    /// A runtime error at the line of the current instruction.
    pub open spec fn fail(self, message: Seq<char>) -> Transition {
        Transition { next: self, outcome: Err(ErrorView { line: self.line, message }) }
    }

    /// Hands a request to the host and waits.
    pub open spec fn ask(self, request: NumberRequestView) -> Transition {
        Transition {
            next: Machine { pending: Some(request), ..self },
            outcome: Ok(SignalView::Number(request)),
        }
    }

    /// The machine after the host has answered: the number is pushed. A
    /// machine that asked nothing stays as it is.
    pub open spec fn supply(self, n: Number) -> Machine {
        if self.pending is Some {
            Machine { pending: None, stack: self.stack.push(ValueView::Number(n)), ..self }
        } else {
            self
        }
    }

    /// Pushes a constant; a numeral is first handed to the host.
    pub open spec fn load(self, constant: LiteralView) -> Transition {
        match constant {
            LiteralView::Nil => self.push(ValueView::Nil).go(),
            LiteralView::Bool(b) => self.push(ValueView::Bool(b)).go(),
            LiteralView::Number(digits) => self.ask(NumberRequestView::Parse(digits)),
            LiteralView::String(text) => self.push(ValueView::Obj(ObjView::String(text))).go(),
        }
    }

    /// An instruction on two numbers.
    pub open spec fn numeric(self, op: OpCode) -> Transition {
        if self.stack.len() < 2 {
            self.fail("No value on stack"@)
        } else {
            match (self.top(1), self.top(0)) {
                (ValueView::Number(a), ValueView::Number(b)) => match op {
                    OpCode::OpGreater => self.drop(2).push(ValueView::Bool(b.below(a))).go(),
                    OpCode::OpLess => self.drop(2).push(ValueView::Bool(a.below(b))).go(),
                    OpCode::OpSubtract => self.drop(2).ask(NumberRequestView::Subtract(a, b)),
                    OpCode::OpMultiply => self.drop(2).ask(NumberRequestView::Multiply(a, b)),
                    _ => self.drop(2).ask(NumberRequestView::Divide(a, b)),
                },
                _ => self.fail("Operands must be numbers."@),
            }
        }
    }

    /// Addition: of two numbers, or of two strings.
    pub open spec fn add(self) -> Transition {
        if self.stack.len() < 2 {
            self.fail("No value on stack"@)
        } else {
            match (self.top(1), self.top(0)) {
                (ValueView::Number(a), ValueView::Number(b)) => self.drop(2).ask(
                    NumberRequestView::Add(a, b),
                ),
                (ValueView::Obj(ObjView::String(x)), ValueView::Obj(ObjView::String(y))) => self.drop(
                    2,
                ).push(ValueView::Obj(ObjView::String(x + y))).go(),
                _ => self.fail("Operands must be two numbers or two strings."@),
            }
        }
    }

    /// An instruction on a global variable, whose name is the constant that
    /// the operand byte selects. `self` has fetched the instruction.
    pub open spec fn global(self, op: OpCode) -> Transition {
        if self.ip >= self.chunk.code.len() {
            self.fail("End of Stream"@)
        } else {
            let index = self.chunk.code[self.ip as int];
            let m = Machine { ip: self.ip + 1, ..self };
            if index >= self.chunk.constants.len() {
                m.fail("Failed to get constant"@)
            } else {
                match self.chunk.constants[index as int] {
                    LiteralView::String(name) => match op {
                        OpCode::OpDefineGlobal => if m.stack.len() < 1 {
                            m.fail("No value on stack"@)
                        } else {
                            Machine { globals: m.globals.insert(name, m.top(0)), ..m.drop(1) }.go()
                        },
                        OpCode::OpGetGlobal => if m.globals.contains_key(name) {
                            m.push(m.globals[name]).go()
                        } else {
                            m.fail(undefined_variable(name))
                        },
                        _ => if !m.globals.contains_key(name) {
                            m.fail(undefined_variable(name))
                        } else if m.stack.len() < 1 {
                            m.fail("No value on stack"@)
                        } else {
                            Machine { globals: m.globals.insert(name, m.top(0)), ..m }.go()
                        },
                    },
                    _ => m.fail("Failed to get constant"@),
                }
            }
        }
    }

    /// The effect of an instruction other than `OpReturn`, on a machine that
    /// has fetched it.
    pub open spec fn execute(self, op: OpCode) -> Transition {
        match op {
            OpCode::OpConstant => if self.ip >= self.chunk.code.len() {
                self.fail("End of Stream"@)
            } else {
                let index = self.chunk.code[self.ip as int];
                let m = Machine { ip: self.ip + 1, ..self };
                if index >= self.chunk.constants.len() {
                    m.fail("Failed to get constant"@)
                } else {
                    m.load(self.chunk.constants[index as int])
                }
            },
            OpCode::OpNil => self.push(ValueView::Nil).go(),
            OpCode::OpTrue => self.push(ValueView::Bool(true)).go(),
            OpCode::OpFalse => self.push(ValueView::Bool(false)).go(),
            OpCode::OpPop => if self.stack.len() < 1 {
                self.fail("No value on stack"@)
            } else {
                self.drop(1).go()
            },
            OpCode::OpDefineGlobal | OpCode::OpGetGlobal | OpCode::OpSetGlobal => self.global(op),
            OpCode::OpEqual => if self.stack.len() < 2 {
                self.fail("No value on stack"@)
            } else {
                self.drop(2).push(ValueView::Bool(values_equal(self.top(1), self.top(0)))).go()
            },
            OpCode::OpGreater | OpCode::OpLess | OpCode::OpSubtract | OpCode::OpMultiply
            | OpCode::OpDivide => self.numeric(op),
            OpCode::OpAdd => self.add(),
            OpCode::OpNot => if self.stack.len() < 1 {
                self.fail("No value on stack"@)
            } else {
                self.drop(1).push(ValueView::Bool(falsey(self.top(0)))).go()
            },
            OpCode::OpNegate => if self.stack.len() < 1 {
                self.fail("No value on stack"@)
            } else {
                match self.top(0) {
                    ValueView::Number(n) => self.drop(1).push(ValueView::Number(n.negated())).go(),
                    _ => self.fail("Operand must be a number."@),
                }
            },
            OpCode::OpPrint => if self.stack.len() < 1 {
                self.fail("No value on stack"@)
            } else {
                Transition { next: self.drop(1), outcome: Ok(SignalView::Print(self.top(0))) }
            },
            OpCode::OpReturn => self.go(),
        }
    }

    /// One step. A machine that waits for the host repeats its request; a
    /// machine at `OpReturn` halts and stays there; a byte that encodes no
    /// instruction is passed over.
    pub open spec fn step(self) -> Transition {
        if self.pending is Some {
            Transition { next: self, outcome: Ok(SignalView::Number(self.pending->0)) }
        } else if self.ip >= self.chunk.code.len() || self.ip >= self.chunk.lines.len() {
            Transition {
                next: self,
                outcome: Err(ErrorView { line: 0, message: "End of Stream"@ }),
            }
        } else {
            let at = Machine { line: self.chunk.lines[self.ip as int], ..self };
            let fetched = Machine { ip: self.ip + 1, ..at };
            match OpCode::decode(self.chunk.code[self.ip as int]) {
                None => fetched.go(),
                Some(OpCode::OpReturn) => Transition { next: at, outcome: Ok(SignalView::Halt) },
                Some(op) => fetched.execute(op),
            }
        }
    }

    /// Steps until one hands something other than `Continue` to the host.
    pub open spec fn run(self) -> Transition
        decreases self.chunk.code.len() - self.ip,
    {
        let t = self.step();
        if t.outcome == Ok::<SignalView, ErrorView>(SignalView::Continue) && t.next.chunk
            == self.chunk && t.next.ip > self.ip && self.ip < self.chunk.code.len() {
            t.next.run()
        } else {
            t
        }
    }
}

/// A step that hands out `Continue` has read at least one byte of the same
/// chunk, so a run ends.
pub proof fn continue_advances(m: Machine)
    requires
        m.step().outcome == Ok::<SignalView, ErrorView>(SignalView::Continue),
    ensures
        m.step().next.chunk == m.chunk,
        m.step().next.ip > m.ip,
        m.ip < m.chunk.code.len(),
{
}

} // verus!

verus! {

/// What a step returned, as the model sees it.
pub open spec fn outcome_view(r: Result<Signal, RuntimeError>) -> Result<SignalView, ErrorView> {
    match r {
        Ok(signal) => Ok(signal@),
        Err(error) => Err(error@),
    }
}

/// What compiling a source text gave: a machine ready to run, unless errors
/// were reported, and the messages of those errors.
pub struct Loaded {
    pub machine: Option<VM>,
    pub diagnostics: Vec<Diagnostic>,
}

/// The virtual machine.
pub struct VM {
    chunk: Chunk,
    ip: usize,
    stack: Vec<Value>,
    instruction_line: usize,
    globals: Table<Value>,
    pending: Option<NumberRequest>,
}

impl VM {
    /// The state of the machine.
    pub closed spec fn model(&self) -> Machine {
        Machine {
            chunk: self.chunk@,
            ip: self.ip as nat,
            stack: self.stack.deep_view(),
            line: self.instruction_line,
            globals: self.globals@.map_values(|v: Value| v@),
            pending: match self.pending {
                Some(request) => Some(request@),
                None => None,
            },
        }
    }

    /// A machine about to run the chunk.
    pub fn new(chunk: Chunk) -> (vm: VM)
        ensures
            vm.model() == Machine::start(chunk@),
    {
        let vm = VM {
            chunk,
            ip: 0,
            stack: Vec::with_capacity(256),
            instruction_line: 0,
            globals: Table::new(),
            pending: None,
        };
        assert(vm.model().stack =~= Seq::empty());
        assert(vm.model().globals =~= Map::empty());
        vm
    }

    /// Compiles a source text and loads the machine with its chunk. The
    /// machine is there if the compiler reported no error; the messages are
    /// there if it did. A lexical error ends the compilation with `Err`.
    /// The machine is on course: no step of it stops for an error that is
    /// not the program's.
    pub fn interpret(source: &str) -> (r: Result<Loaded, RLoxError>)
        ensures
            match r {
                Ok(loaded) => {
                    &&& Compilation::begin(source@).compile() is Ok
                    &&& loaded.diagnostics.deep_view() == Compilation::begin(
                        source@,
                    ).compile()->Ok_0.diagnostics
                    &&& match loaded.machine {
                        Some(vm) => !Compilation::begin(source@).compile()->Ok_0.had_error
                            && vm.model() == Machine::start(
                            Compilation::begin(source@).compile()->Ok_0.chunk,
                        ) && crate::layout::on_course(vm.model()),
                        None => Compilation::begin(source@).compile()->Ok_0.had_error,
                    }
                },
                Err(error) => Compilation::begin(source@).compile() == Err::<
                    Compilation,
                    RLoxErrorView,
                >(error@),
            },
    {
        proof {
            crate::emission::compiled_code_runs(source@);
        }
        let mut compiler = Compiler::new(source);
        let clean = compiler.compile()?;
        let (chunk, diagnostics) = compiler.finish();
        if clean {
            Ok(Loaded { machine: Some(VM::new(chunk)), diagnostics })
        } else {
            Ok(Loaded { machine: None, diagnostics })
        }
    }

    /// The number of values on the stack.
    pub fn depth(&self) -> (n: usize)
        ensures
            n == self.model().stack.len(),
    {
        self.stack.len()
    }

    /// The value `depth` places below the top of the stack.
    pub fn peek(&self, depth: usize) -> (v: Option<&Value>)
        ensures
            match v {
                Some(value) => depth < self.model().stack.len() && value@ == self.model().top(
                    depth as int,
                ),
                None => depth >= self.model().stack.len(),
            },
    {
        if depth < self.stack.len() {
            Some(&self.stack[self.stack.len() - 1 - depth])
        } else {
            None
        }
    }

    /// The value of a global variable, if it is defined.
    pub fn global(&self, name: &str) -> (v: Option<&Value>)
        ensures
            match v {
                Some(value) => self.model().globals.contains_key(name@) && value@
                    == self.model().globals[name@],
                None => !self.model().globals.contains_key(name@),
            },
    {
        self.globals.get(name)
    }

    /// The offset of the next byte to read.
    pub fn offset(&self) -> (ip: usize)
        ensures
            ip == self.model().ip,
    {
        self.ip
    }

    /// The source line of the instruction last fetched.
    pub fn line(&self) -> (line: usize)
        ensures
            line == self.model().line,
    {
        self.instruction_line
    }

    /// The request that waits for the host's answer, if there is one.
    pub fn waiting_for(&self) -> (request: Option<&NumberRequest>)
        ensures
            match request {
                Some(r) => self.model().pending == Some(r@),
                None => self.model().pending is None,
            },
    {
        self.pending.as_ref()
    }

    fn push(&mut self, v: Value)
        ensures
            final(self).model() == old(self).model().push(v@),
    {
        self.stack.push(v);
        assert(self.model().stack =~= old(self).model().stack.push(v@));
    }

    fn pop(&mut self) -> (v: Value)
        requires
            old(self).model().stack.len() > 0,
        ensures
            v@ == old(self).model().top(0),
            final(self).model() == old(self).model().drop(1),
    {
        let v = self.stack.pop().unwrap();
        assert(self.model().stack =~= old(self).model().drop(1).stack);
        v
    }

    fn fail(&self, message: &str) -> (r: Result<Signal, RuntimeError>)
        ensures
            outcome_view(r) == self.model().fail(message@).outcome,
    {
        Err(RuntimeError::new(self.instruction_line, message))
    }

    fn ask(&mut self, request: NumberRequest) -> (r: Result<Signal, RuntimeError>)
        ensures
            final(self).model() == old(self).model().ask(request@).next,
            outcome_view(r) == old(self).model().ask(request@).outcome,
    {
        self.pending = Some(request.clone());
        Ok(Signal::Number(request))
    }

    /// Hands the machine the number that it asked for. A machine that asked
    /// nothing stays as it is.
    pub fn supply(&mut self, n: Number)
        ensures
            final(self).model() == old(self).model().supply(n),
            crate::layout::on_course(old(self).model()) ==> crate::layout::on_course(
                final(self).model(),
            ),
    {
        if self.pending.is_some() {
            self.pending = None;
            self.push(Value::Number(n));
        }
    }

    fn load(&mut self, index: usize) -> (r: Result<Signal, RuntimeError>)
        requires
            index < old(self).model().chunk.constants.len(),
        ensures
            final(self).model() == old(self).model().load(
                old(self).model().chunk.constants[index as int],
            ).next,
            outcome_view(r) == old(self).model().load(
                old(self).model().chunk.constants[index as int],
            ).outcome,
    {
        let constant = self.chunk.constant_at(index).unwrap().clone();
        match constant {
            Literal::Nil => {
                self.push(Value::Nil);
                Ok(Signal::Continue)
            },
            Literal::Bool(b) => {
                self.push(Value::Bool(b));
                Ok(Signal::Continue)
            },
            Literal::Number(digits) => self.ask(NumberRequest::Parse(digits)),
            Literal::String(text) => {
                self.push(Value::obj(Obj::String(text)));
                Ok(Signal::Continue)
            },
        }
    }

    fn numeric(&mut self, op: OpCode) -> (r: Result<Signal, RuntimeError>)
        ensures
            final(self).model() == old(self).model().numeric(op).next,
            outcome_view(r) == old(self).model().numeric(op).outcome,
    {
        if self.stack.len() < 2 {
            return self.fail("No value on stack");
        }
        let operands = match (self.peek(1), self.peek(0)) {
            (Some(Value::Number(a)), Some(Value::Number(b))) => Some((*a, *b)),
            _ => None,
        };
        match operands {
            Some((a, b)) => {
                self.pop();
                self.pop();
                assert(old(self).model().drop(1).drop(1).stack =~= old(self).model().drop(2).stack);
                match op {
                    OpCode::OpGreater => {
                        self.push(Value::Bool(a.greater(&b)));
                        Ok(Signal::Continue)
                    },
                    OpCode::OpLess => {
                        self.push(Value::Bool(a.less(&b)));
                        Ok(Signal::Continue)
                    },
                    OpCode::OpSubtract => self.ask(NumberRequest::Subtract(a, b)),
                    OpCode::OpMultiply => self.ask(NumberRequest::Multiply(a, b)),
                    _ => self.ask(NumberRequest::Divide(a, b)),
                }
            },
            None => self.fail("Operands must be numbers."),
        }
    }

    fn add_values(&mut self) -> (r: Result<Signal, RuntimeError>)
        ensures
            final(self).model() == old(self).model().add().next,
            outcome_view(r) == old(self).model().add().outcome,
    {
        if self.stack.len() < 2 {
            return self.fail("No value on stack");
        }
        let numbers = match (self.peek(1), self.peek(0)) {
            (Some(Value::Number(a)), Some(Value::Number(b))) => Some((*a, *b)),
            _ => None,
        };
        let joined = match (self.peek(1), self.peek(0)) {
            (Some(Value::Obj(x)), Some(Value::Obj(y))) => Obj::concat_strings(x, y),
            _ => None,
        };
        match (numbers, joined) {
            (Some((a, b)), _) => {
                self.pop();
                self.pop();
                assert(old(self).model().drop(1).drop(1).stack =~= old(self).model().drop(2).stack);
                self.ask(NumberRequest::Add(a, b))
            },
            (None, Some(text)) => {
                self.pop();
                self.pop();
                assert(old(self).model().drop(1).drop(1).stack =~= old(self).model().drop(2).stack);
                self.push(text);
                Ok(Signal::Continue)
            },
            (None, None) => self.fail("Operands must be two numbers or two strings."),
        }
    }

    fn undefined(&self, name: &str) -> (r: Result<Signal, RuntimeError>)
        ensures
            outcome_view(r) == self.model().fail(undefined_variable(name@)).outcome,
    {
        let mut message = "Undefined variable '".to_owned();
        push_text(&mut message, name);
        push_text(&mut message, "'.");
        Err(RuntimeError::new(self.instruction_line, message.as_str()))
    }

    fn global_instruction(&mut self, op: OpCode) -> (r: Result<Signal, RuntimeError>)
        ensures
            final(self).model() == old(self).model().global(op).next,
            outcome_view(r) == old(self).model().global(op).outcome,
    {
        let index = match self.chunk.byte_at(self.ip) {
            Some(byte) => byte,
            None => {
                return self.fail("End of Stream");
            },
        };
        self.ip += 1;
        let name = match self.chunk.constant_at(index as usize) {
            Some(Literal::String(name)) => name.clone(),
            _ => {
                return self.fail("Failed to get constant");
            },
        };
        match op {
            OpCode::OpDefineGlobal => {
                if self.stack.len() < 1 {
                    return self.fail("No value on stack");
                }
                let ghost before = self.model();
                let value = self.pop();
                self.globals.insert(name.as_str(), value);
                assert(self.model().globals =~= before.globals.insert(name@, before.top(0)));
                Ok(Signal::Continue)
            },
            OpCode::OpGetGlobal => {
                let found = match self.globals.get(name.as_str()) {
                    Some(value) => Some(value.clone()),
                    None => None,
                };
                match found {
                    Some(value) => {
                        self.push(value);
                        Ok(Signal::Continue)
                    },
                    None => self.undefined(name.as_str()),
                }
            },
            _ => {
                if !self.globals.contains(name.as_str()) {
                    return self.undefined(name.as_str());
                }
                let value = match self.peek(0) {
                    Some(value) => value.clone(),
                    None => {
                        return self.fail("No value on stack");
                    },
                };
                let ghost before = self.model();
                self.globals.insert(name.as_str(), value);
                assert(self.model().globals =~= before.globals.insert(name@, before.top(0)));
                Ok(Signal::Continue)
            },
        }
    }

    fn execute(&mut self, op: OpCode) -> (r: Result<Signal, RuntimeError>)
        ensures
            final(self).model() == old(self).model().execute(op).next,
            outcome_view(r) == old(self).model().execute(op).outcome,
    {
        match op {
            OpCode::OpConstant => {
                let index = match self.chunk.byte_at(self.ip) {
                    Some(byte) => byte,
                    None => {
                        return self.fail("End of Stream");
                    },
                };
                self.ip += 1;
                if index as usize >= self.chunk.constant_count() {
                    return self.fail("Failed to get constant");
                }
                self.load(index as usize)
            },
            OpCode::OpNil => {
                self.push(Value::Nil);
                Ok(Signal::Continue)
            },
            OpCode::OpTrue => {
                self.push(Value::Bool(true));
                Ok(Signal::Continue)
            },
            OpCode::OpFalse => {
                self.push(Value::Bool(false));
                Ok(Signal::Continue)
            },
            OpCode::OpPop => {
                if self.stack.len() < 1 {
                    return self.fail("No value on stack");
                }
                self.pop();
                Ok(Signal::Continue)
            },
            OpCode::OpDefineGlobal | OpCode::OpGetGlobal | OpCode::OpSetGlobal => {
                self.global_instruction(op)
            },
            OpCode::OpEqual => {
                if self.stack.len() < 2 {
                    return self.fail("No value on stack");
                }
                let b = self.pop();
                let a = self.pop();
                assert(old(self).model().drop(1).drop(1).stack =~= old(self).model().drop(2).stack);
                self.push(Value::Bool(a.equals(&b)));
                Ok(Signal::Continue)
            },
            OpCode::OpGreater | OpCode::OpLess | OpCode::OpSubtract | OpCode::OpMultiply
            | OpCode::OpDivide => self.numeric(op),
            OpCode::OpAdd => self.add_values(),
            OpCode::OpNot => {
                if self.stack.len() < 1 {
                    return self.fail("No value on stack");
                }
                let v = self.pop();
                self.push(Value::Bool(v.is_falsey()));
                Ok(Signal::Continue)
            },
            OpCode::OpNegate => {
                let n = match self.peek(0) {
                    Some(Value::Number(n)) => *n,
                    Some(_) => {
                        return self.fail("Operand must be a number.");
                    },
                    None => {
                        return self.fail("No value on stack");
                    },
                };
                self.pop();
                self.push(Value::Number(n.negate()));
                Ok(Signal::Continue)
            },
            OpCode::OpPrint => {
                if self.stack.len() < 1 {
                    return self.fail("No value on stack");
                }
                let v = self.pop();
                Ok(Signal::Print(v))
            },
            OpCode::OpReturn => Ok(Signal::Continue),
        }
    }

    /// Takes one step. A machine on course stays on course, and stops for
    /// no error but one of the program.
    pub fn step(&mut self) -> (r: Result<Signal, RuntimeError>)
        ensures
            final(self).model() == old(self).model().step().next,
            outcome_view(r) == old(self).model().step().outcome,
            crate::layout::on_course(old(self).model()) ==> match r {
                Ok(_) => crate::layout::on_course(final(self).model()),
                Err(error) => crate::layout::program_error(error.message@),
            },
    {
        proof {
            if crate::layout::on_course(self.model()) {
                crate::layout::step_stays_on_course(self.model());
            }
        }
        match &self.pending {
            Some(request) => {
                return Ok(Signal::Number(request.clone()));
            },
            None => {},
        }
        proof {
            self.chunk.lines_match_code();
        }
        let (byte, line) = match (self.chunk.byte_at(self.ip), self.chunk.line_at(self.ip)) {
            (Some(byte), Some(line)) => (byte, line),
            _ => {
                return Err(RuntimeError::new(0, "End of Stream"));
            },
        };
        self.instruction_line = line;
        match OpCode::from_u8(byte) {
            None => {
                self.ip += 1;
                Ok(Signal::Continue)
            },
            Some(OpCode::OpReturn) => Ok(Signal::Halt),
            Some(op) => {
                self.ip += 1;
                self.execute(op)
            },
        }
    }

    /// Steps until the machine has something for the host: a value to print,
    /// a request, the end of the program, or a runtime error.
    pub fn run(&mut self) -> (r: Result<Signal, RuntimeError>)
        ensures
            final(self).model() == old(self).model().run().next,
            outcome_view(r) == old(self).model().run().outcome,
            crate::layout::on_course(old(self).model()) ==> match r {
                Ok(_) => crate::layout::on_course(final(self).model()),
                Err(error) => crate::layout::program_error(error.message@),
            },
    {
        loop
            invariant
                self.model().run() == old(self).model().run(),
                crate::layout::on_course(old(self).model()) ==> crate::layout::on_course(
                    self.model(),
                ),
            decreases self.model().chunk.code.len() - self.model().ip,
        {
            let ghost before = self.model();
            let r = self.step();
            match r {
                Ok(Signal::Continue) => {
                    proof {
                        continue_advances(before);
                    }
                },
                _ => {
                    return r;
                },
            }
        }
    }
}

} // verus!

verus! {

/// Two `OpNot` in a row leave the truth of the value on top of the stack:
/// `true` exactly if that value is neither `nil` nor `false`.
pub proof fn double_not_is_truth(m: Machine)
    requires
        m.pending is None,
        m.chunk.lines.len() == m.chunk.code.len(),
        m.ip + 1 < m.chunk.code.len(),
        m.chunk.code[m.ip as int] == OpCode::OpNot.byte(),
        m.chunk.code[m.ip as int + 1] == OpCode::OpNot.byte(),
        m.stack.len() > 0,
    ensures
        m.step().outcome == Ok::<SignalView, ErrorView>(SignalView::Continue),
        m.step().next.step().outcome == Ok::<SignalView, ErrorView>(SignalView::Continue),
        m.step().next.step().next.stack == m.stack.drop_last().push(
            ValueView::Bool(!falsey(m.stack.last())),
        ),
        m.step().next.step().next.ip == m.ip + 2,
{
    let once = m.step().next;
    assert(once.stack =~= m.stack.drop_last().push(ValueView::Bool(falsey(m.stack.last()))));
    assert(once.step().next.stack =~= m.stack.drop_last().push(
        ValueView::Bool(!falsey(m.stack.last())),
    ));
}

} // verus!

verus! {

/// By how much an instruction changes the number of values on the stack,
/// once the host has answered where the instruction asks it something.
pub open spec fn stack_effect(op: OpCode) -> int {
    match op {
        OpCode::OpConstant | OpCode::OpNil | OpCode::OpTrue | OpCode::OpFalse
        | OpCode::OpGetGlobal => 1,
        OpCode::OpSetGlobal | OpCode::OpNot | OpCode::OpNegate | OpCode::OpReturn => 0,
        _ => -1,
    }
}

/// An instruction that is no error changes the number of values on the
/// stack by its stack effect; where it asks the host, it does so once the
/// answer has been supplied.
pub proof fn step_has_its_stack_effect(m: Machine, op: OpCode, answer: Number)
    requires
        m.pending is None,
        m.ip < m.chunk.code.len(),
        m.chunk.lines.len() == m.chunk.code.len(),
        OpCode::decode(m.chunk.code[m.ip as int]) == Some(op),
        m.step().outcome is Ok,
    ensures
        m.step().next.supply(answer).stack.len() == m.stack.len() + stack_effect(op),
        m.step().next.supply(answer).pending is None,
{
}

/// Equality of values does not depend on the order of the two.
pub proof fn equality_is_symmetric(a: ValueView, b: ValueView)
    ensures
        values_equal(a, b) == values_equal(b, a),
{
}

} // verus!
