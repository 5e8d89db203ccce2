//! The resolver: before a program runs, it finds for each reference to a
//! local variable how many scopes outward the variable is declared.
use vstd::prelude::*;
use crate::compiler::{Diagnostic, DiagnosticView};
use crate::expr::Expr;
use crate::interpreter::Locals;
use crate::stmt::{Stmt, StmtFunction};
use crate::table::Table;
use crate::token::Token;

verus! {

/// Whether the code being resolved lies in a function.
#[derive(Debug, Clone, Copy, PartialEq, Eq, Hash, Structural)]
pub enum FunctionType {
    Script,
    Function,
}

/// The state of a resolution.
pub struct Resolution {
    /// The scopes of the blocks and functions around the code being
    /// resolved, the innermost last. A name maps to whether its variable is
    /// ready: it is not while its own initializer is resolved.
    pub scopes: Seq<Map<Seq<char>, bool>>,
    /// What has been found so far: for a reference, by its number, how many
    /// scopes outward its variable is.
    pub locals: Map<usize, usize>,
    pub current_function: FunctionType,
}

pub type Resolved = Result<Resolution, DiagnosticView>;

/// The message about a name, placed at its token.
pub open spec fn complaint(name: &Token, message: Seq<char>) -> DiagnosticView {
    DiagnosticView { line: name.line, location: Some(name.lexeme@), message }
}

/// The innermost of the first `upto` scopes that has the name.
pub open spec fn found_at(scopes: Seq<Map<Seq<char>, bool>>, name: Seq<char>, upto: int) -> Option<
    int,
>
    decreases upto,
{
    if upto <= 0 {
        None
    } else if scopes[upto - 1].contains_key(name) {
        Some(upto - 1)
    } else {
        found_at(scopes, name, upto - 1)
    }
}

impl Resolution {
    /// The state before anything is resolved: no scope, nothing found, not
    /// in a function.
    pub open spec fn start() -> Resolution {
        Resolution {
            scopes: Seq::empty(),
            locals: Map::empty(),
            current_function: FunctionType::Script,
        }
    }

    pub open spec fn begin_scope(self) -> Resolution {
        Resolution { scopes: self.scopes.push(Map::empty()), ..self }
    }

    pub open spec fn end_scope(self) -> Resolution {
        if self.scopes.len() == 0 {
            self
        } else {
            Resolution { scopes: self.scopes.drop_last(), ..self }
        }
    }

    /// Sets a name in the innermost scope.
    pub open spec fn mark(self, name: Seq<char>, ready: bool) -> Resolution {
        Resolution {
            scopes: self.scopes.update(
                self.scopes.len() - 1,
                self.scopes.last().insert(name, ready),
            ),
            ..self
        }
    }

    /// Declares a variable in the innermost scope; it is not ready yet.
    /// Outside every scope nothing is declared: the variable is global.
    /// A name can be declared once in a scope.
    pub open spec fn declare(self, name: &Token) -> Resolved {
        if self.scopes.len() == 0 {
            Ok(self)
        } else if self.scopes.last().contains_key(name.lexeme@) {
            Err(complaint(name, "Already a variable with this name in this scope."@))
        } else {
            Ok(self.mark(name.lexeme@, false))
        }
    }

    /// Makes a declared variable ready.
    pub open spec fn define(self, name: &Token) -> Resolution {
        if self.scopes.len() == 0 {
            self
        } else {
            self.mark(name.lexeme@, true)
        }
    }

    /// Records how far outward the variable of a reference is: the number
    /// of scopes between the innermost scope and the innermost one that has
    /// the name. A name that no scope has is global, and nothing is
    /// recorded.
    pub open spec fn resolve_local(self, id: usize, name: &Token) -> Resolution {
        match found_at(self.scopes, name.lexeme@, self.scopes.len() as int) {
            Some(i) => Resolution {
                locals: self.locals.insert(id, (self.scopes.len() - 1 - i) as usize),
                ..self
            },
            None => self,
        }
    }

    pub open spec fn expression(self, expression: &Expr) -> Resolved
        decreases expression,
    {
        match expression {
            Expr::Literal(_) => Ok(self),
            Expr::Grouping(e) => self.expression(&*e.expression),
            Expr::Unary(e) => self.expression(&*e.right),
            Expr::Binary(e) => match self.expression(&*e.left) {
                Ok(next) => next.expression(&*e.right),
                Err(error) => Err(error),
            },
            Expr::Logical(e) => match self.expression(&*e.left) {
                Ok(next) => next.expression(&*e.right),
                Err(error) => Err(error),
            },
            Expr::Variable(e) => if self.scopes.len() > 0 && self.scopes.last().contains_key(
                e.name.lexeme@,
            ) && !self.scopes.last()[e.name.lexeme@] {
                Err(complaint(&e.name, "Can't read local variable in its own initializer."@))
            } else {
                Ok(self.resolve_local(e.id, &e.name))
            },
            Expr::Assign(e) => match self.expression(&*e.value) {
                Ok(next) => Ok(next.resolve_local(e.id, &e.name)),
                Err(error) => Err(error),
            },
            Expr::Call(e) => match self.expression(&*e.callee) {
                Ok(next) => next.expressions(e.arguments@, 0),
                Err(error) => Err(error),
            },
        }
    }

    /// The expressions of a list, from a place on, in order.
    pub open spec fn expressions(self, list: Seq<Expr>, from: int) -> Resolved
        decreases list, list.len() - from,
    {
        if 0 <= from < list.len() {
            match self.expression(&list[from]) {
                Ok(next) => next.expressions(list, from + 1),
                Err(error) => Err(error),
            }
        } else {
            Ok(self)
        }
    }

    /// The parameters of a function, from a place on: each is declared and
    /// ready at once.
    pub open spec fn parameters(self, params: Seq<Token>, from: int) -> Resolved
        decreases params.len() - from,
    {
        if 0 <= from < params.len() {
            match self.declare(&params[from]) {
                Ok(next) => next.define(&params[from]).parameters(params, from + 1),
                Err(error) => Err(error),
            }
        } else {
            Ok(self)
        }
    }

    /// The parameters and the body of a function, in one new scope.
    pub open spec fn function(self, declaration: &StmtFunction) -> Resolved
        decreases declaration, 0nat,
    {
        let inside = Resolution { current_function: FunctionType::Function, ..self }.begin_scope();
        match inside.parameters(declaration.params@, 0) {
            Ok(bound) => match bound.statements(declaration.body@, 0) {
                Ok(done) => Ok(
                    Resolution { current_function: self.current_function, ..done.end_scope() },
                ),
                Err(error) => Err(error),
            },
            Err(error) => Err(error),
        }
    }

    pub open spec fn statement(self, statement: &Stmt) -> Resolved
        decreases statement, 0nat,
    {
        match statement {
            Stmt::Expression(s) => self.expression(&s.expression),
            Stmt::Print(s) => self.expression(&s.expression),
            Stmt::Var(s) => match self.declare(&s.name) {
                Ok(declared) => match &s.initializer {
                    Some(e) => match declared.expression(e) {
                        Ok(next) => Ok(next.define(&s.name)),
                        Err(error) => Err(error),
                    },
                    None => Ok(declared.define(&s.name)),
                },
                Err(error) => Err(error),
            },
            Stmt::Block(s) => match self.begin_scope().statements(s.statements@, 0) {
                Ok(next) => Ok(next.end_scope()),
                Err(error) => Err(error),
            },
            Stmt::If(s) => match self.expression(&s.condition) {
                Ok(c1) => match c1.statement(&*s.then_branch) {
                    Ok(c2) => match &s.else_branch {
                        Some(other) => c2.statement(&**other),
                        None => Ok(c2),
                    },
                    Err(error) => Err(error),
                },
                Err(error) => Err(error),
            },
            Stmt::While(s) => match self.expression(&s.condition) {
                Ok(next) => next.statement(&*s.body),
                Err(error) => Err(error),
            },
            Stmt::Function(s) => match self.declare(&s.name) {
                Ok(declared) => declared.define(&s.name).function(s),
                Err(error) => Err(error),
            },
            Stmt::Return(s) => if self.current_function == FunctionType::Script {
                Err(complaint(&s.keyword, "Can't return from top-level code."@))
            } else {
                match &s.value {
                    Some(e) => self.expression(e),
                    None => Ok(self),
                }
            },
        }
    }

    /// The statements of a list, from a place on, in order.
    pub open spec fn statements(self, list: Seq<Stmt>, from: int) -> Resolved
        decreases list, list.len() - from,
    {
        if 0 <= from < list.len() {
            match self.statement(&list[from]) {
                Ok(next) => next.statements(list, from + 1),
                Err(error) => Err(error),
            }
        } else {
            Ok(self)
        }
    }
}

} // verus!

verus! {

/// Whether what a step of the resolver returned and left behind is what
/// the model gives.
pub open spec fn resolved(r: Result<(), Diagnostic>, after: Resolution, expected: Resolved) -> bool {
    match r {
        Ok(_) => expected == Ok::<Resolution, DiagnosticView>(after),
        Err(error) => expected == Err::<Resolution, DiagnosticView>(error@),
    }
}

fn complain(name: &Token, message: &str) -> (diagnostic: Diagnostic)
    ensures
        diagnostic@ == complaint(name, message@),
{
    Diagnostic { line: name.line, location: Some(name.lexeme.clone()), message: message.to_owned() }
}

/// The resolver.
pub struct Resolver {
    locals: Locals,
    scopes: Vec<Table<bool>>,
    current_function: FunctionType,
}

impl Resolver {
    /// The state of the resolution.
    pub closed spec fn model(&self) -> Resolution {
        Resolution {
            scopes: Seq::new(self.scopes@.len(), |i: int| self.scopes@[i]@),
            locals: self.locals@,
            current_function: self.current_function,
        }
    }

    pub fn new() -> (resolver: Resolver)
        ensures
            resolver.model() == Resolution::start(),
    {
        let resolver = Resolver {
            locals: Locals::new(),
            scopes: Vec::new(),
            current_function: FunctionType::Script,
        };
        assert(resolver.model().scopes =~= Seq::empty());
        resolver
    }

    /// A resolver that adds to what was found before.
    pub fn resume(locals: Locals) -> (resolver: Resolver)
        ensures
            resolver.model() == (Resolution { locals: locals@, ..Resolution::start() }),
    {
        let resolver = Resolver {
            locals,
            scopes: Vec::new(),
            current_function: FunctionType::Script,
        };
        assert(resolver.model().scopes =~= Seq::empty());
        resolver
    }

    /// What was found.
    pub fn into_locals(self) -> (locals: Locals)
        ensures
            locals@ == self.model().locals,
    {
        self.locals
    }

    /// Where the variable of a reference was found, if it was.
    pub fn depth(&self, id: usize) -> (depth: Option<usize>)
        ensures
            depth == if self.model().locals.contains_key(id) {
                Some(self.model().locals[id])
            } else {
                None
            },
    {
        self.locals.get(id)
    }

    /// Resolves the statements in order. The first error ends the
    /// resolution.
    pub fn resolve_statements(&mut self, statements: &Vec<Stmt>) -> (r: Result<(), Diagnostic>)
        ensures
            resolved(r, final(self).model(), old(self).model().statements(statements@, 0)),
        decreases statements@, statements@.len(),
    {
        let mut i: usize = 0;
        while i < statements.len()
            invariant
                i <= statements@.len(),
                self.model().statements(statements@, i as int) == old(self).model().statements(
                    statements@,
                    0,
                ),
            decreases statements@.len() - i,
        {
            self.resolve_statement(&statements[i])?;
            i += 1;
        }
        Ok(())
    }

    fn resolve_expressions(&mut self, list: &Vec<Expr>) -> (r: Result<(), Diagnostic>)
        ensures
            resolved(r, final(self).model(), old(self).model().expressions(list@, 0)),
        decreases list@, list@.len(),
    {
        let mut i: usize = 0;
        while i < list.len()
            invariant
                i <= list@.len(),
                self.model().expressions(list@, i as int) == old(self).model().expressions(
                    list@,
                    0,
                ),
            decreases list@.len() - i,
        {
            self.resolve_expression(&list[i])?;
            i += 1;
        }
        Ok(())
    }

    fn resolve_statement(&mut self, statement: &Stmt) -> (r: Result<(), Diagnostic>)
        ensures
            resolved(r, final(self).model(), old(self).model().statement(statement)),
        decreases statement, 0nat,
    {
        match statement {
            Stmt::Expression(s) => self.resolve_expression(&s.expression),
            Stmt::Print(s) => self.resolve_expression(&s.expression),
            Stmt::Var(s) => {
                self.declare(&s.name)?;
                match &s.initializer {
                    Some(e) => {
                        self.resolve_expression(e)?;
                    },
                    None => {},
                }
                self.define(&s.name);
                Ok(())
            },
            Stmt::Block(s) => {
                self.begin_scope();
                self.resolve_statements(&s.statements)?;
                self.end_scope();
                Ok(())
            },
            Stmt::If(s) => {
                self.resolve_expression(&s.condition)?;
                self.resolve_statement(&*s.then_branch)?;
                match &s.else_branch {
                    Some(other) => self.resolve_statement(&**other),
                    None => Ok(()),
                }
            },
            Stmt::While(s) => {
                self.resolve_expression(&s.condition)?;
                self.resolve_statement(&*s.body)
            },
            Stmt::Function(s) => {
                self.declare(&s.name)?;
                self.define(&s.name);
                self.resolve_function(s, FunctionType::Function)
            },
            Stmt::Return(s) => {
                if self.current_function == FunctionType::Script {
                    return Err(complain(&s.keyword, "Can't return from top-level code."));
                }
                match &s.value {
                    Some(e) => self.resolve_expression(e),
                    None => Ok(()),
                }
            },
        }
    }

    fn resolve_expression(&mut self, expression: &Expr) -> (r: Result<(), Diagnostic>)
        ensures
            resolved(r, final(self).model(), old(self).model().expression(expression)),
        decreases expression,
    {
        match expression {
            Expr::Literal(_) => Ok(()),
            Expr::Grouping(e) => self.resolve_expression(&*e.expression),
            Expr::Unary(e) => self.resolve_expression(&*e.right),
            Expr::Binary(e) => {
                self.resolve_expression(&*e.left)?;
                self.resolve_expression(&*e.right)
            },
            Expr::Logical(e) => {
                self.resolve_expression(&*e.left)?;
                self.resolve_expression(&*e.right)
            },
            Expr::Variable(e) => {
                let pending = match self.scopes.last() {
                    Some(scope) => match scope.get(e.name.lexeme.as_str()) {
                        Some(ready) => !*ready,
                        None => false,
                    },
                    None => false,
                };
                if pending {
                    return Err(
                        complain(&e.name, "Can't read local variable in its own initializer."),
                    );
                }
                self.resolve_local(e.id, &e.name);
                Ok(())
            },
            Expr::Assign(e) => {
                self.resolve_expression(&*e.value)?;
                self.resolve_local(e.id, &e.name);
                Ok(())
            },
            Expr::Call(e) => {
                self.resolve_expression(&*e.callee)?;
                self.resolve_expressions(&e.arguments)
            },
        }
    }

    fn resolve_function(&mut self, declaration: &StmtFunction, function_type: FunctionType) -> (r:
        Result<(), Diagnostic>)
        requires
            function_type == FunctionType::Function,
        ensures
            resolved(r, final(self).model(), old(self).model().function(declaration)),
        decreases declaration, 0nat,
    {
        let enclosing_function = self.current_function;
        self.current_function = function_type;
        self.begin_scope();
        let ghost inside = self.model();
        let mut i: usize = 0;
        while i < declaration.params.len()
            invariant
                i <= declaration.params@.len(),
                inside == (Resolution {
                    current_function: FunctionType::Function,
                    ..old(self).model()
                }).begin_scope(),
                self.model().parameters(declaration.params@, i as int) == inside.parameters(
                    declaration.params@,
                    0,
                ),
            decreases declaration.params@.len() - i,
        {
            self.declare(&declaration.params[i])?;
            self.define(&declaration.params[i]);
            i += 1;
        }
        self.resolve_statements(&declaration.body)?;
        self.end_scope();
        self.current_function = enclosing_function;
        Ok(())
    }

    fn resolve_local(&mut self, id: usize, name: &Token)
        ensures
            final(self).model() == old(self).model().resolve_local(id, name),
    {
        let mut i: usize = self.scopes.len();
        while i > 0
            invariant
                i <= self.scopes@.len(),
                self.model() == old(self).model(),
                found_at(self.model().scopes, name.lexeme@, i as int) == found_at(
                    self.model().scopes,
                    name.lexeme@,
                    self.scopes@.len() as int,
                ),
            decreases i,
        {
            i -= 1;
            if self.scopes[i].contains(name.lexeme.as_str()) {
                self.locals.insert(id, self.scopes.len() - 1 - i);
                return ;
            }
        }
    }

    fn begin_scope(&mut self)
        ensures
            final(self).model() == old(self).model().begin_scope(),
    {
        self.scopes.push(Table::new());
        assert(self.model().scopes =~= old(self).model().scopes.push(Map::empty()));
    }

    fn end_scope(&mut self)
        ensures
            final(self).model() == old(self).model().end_scope(),
    {
        self.scopes.pop();
        assert(self.model().scopes =~= old(self).model().end_scope().scopes);
    }

    fn mark(&mut self, name: &str, ready: bool)
        requires
            old(self).model().scopes.len() > 0,
        ensures
            final(self).model() == old(self).model().mark(name@, ready),
    {
        let last = self.scopes.len() - 1;
        self.scopes[last].insert(name, ready);
        assert(self.model().scopes =~= old(self).model().mark(name@, ready).scopes);
    }

    fn declare(&mut self, name: &Token) -> (r: Result<(), Diagnostic>)
        ensures
            resolved(r, final(self).model(), old(self).model().declare(name)),
    {
        match self.scopes.last() {
            Some(scope) => {
                if scope.contains(name.lexeme.as_str()) {
                    return Err(
                        complain(name, "Already a variable with this name in this scope."),
                    );
                }
            },
            None => {
                return Ok(());
            },
        }
        self.mark(name.lexeme.as_str(), false);
        Ok(())
    }

    fn define(&mut self, name: &Token)
        ensures
            final(self).model() == old(self).model().define(name),
    {
        if self.scopes.len() > 0 {
            self.mark(name.lexeme.as_str(), true);
        }
    }
}

} // verus!

verus! {

/// The scope that the resolver finds for a name is the innermost one that
/// has the name: no scope further in has it.
pub proof fn found_is_innermost(scopes: Seq<Map<Seq<char>, bool>>, name: Seq<char>, upto: int)
    requires
        0 <= upto <= scopes.len(),
    ensures
        match found_at(scopes, name, upto) {
            Some(i) => 0 <= i < upto && scopes[i].contains_key(name) && forall|j: int|
                i < j < upto ==> !(#[trigger] scopes[j]).contains_key(name),
            None => forall|j: int| 0 <= j < upto ==> !(#[trigger] scopes[j]).contains_key(name),
        },
    decreases upto,
{
    if upto > 0 && !scopes[upto - 1].contains_key(name) {
        found_is_innermost(scopes, name, upto - 1);
    }
}

} // verus!
