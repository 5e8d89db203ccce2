//! Functions that a program declares, and what can be called at all.
use vstd::prelude::*;
use crate::environment::{Environment, EnvironmentView, Environments};
use crate::object::{Object, ObjectView};
use crate::stmt::StmtFunction;
use crate::token::Token;

verus! {

/// A declared function together with the scope it was declared in, which
/// is the scope its body sees around the parameters.
#[derive(Clone, Copy)]
pub struct LoxFunction<'a> {
    pub declaration: &'a StmtFunction,
    pub closure: usize,
}

/// What can be called: the built-in clock, or a declared function.
#[derive(Clone, Copy)]
pub enum Callable<'a> {
    Clock,
    Function(LoxFunction<'a>),
}

/// The variables that the first `count` parameters make of the arguments:
/// each parameter gets the argument at its place, or `nil` where there is
/// none.
pub open spec fn parameters(params: Seq<Token>, arguments: Seq<ObjectView>, count: nat) -> Map<
    Seq<char>,
    ObjectView,
>
    decreases count,
{
    if count == 0 {
        Map::empty()
    } else {
        parameters(params, arguments, (count - 1) as nat).insert(
            params[count - 1].lexeme@,
            if count - 1 < arguments.len() {
                arguments[count - 1]
            } else {
                ObjectView::Nil
            },
        )
    }
}

impl<'a> LoxFunction<'a> {
    pub fn new(declaration: &'a StmtFunction, closure: usize) -> (function: LoxFunction<'a>)
        ensures
            function.declaration == declaration,
            function.closure == closure,
    {
        LoxFunction { declaration, closure }
    }

    /// The scope of one call: the parameters bound to the arguments, inside
    /// the scope that the function was declared in.
    pub open spec fn call_scope(self, arguments: Seq<ObjectView>) -> EnvironmentView {
        EnvironmentView {
            enclosing: Some(self.closure),
            values: parameters(
                self.declaration.params@,
                arguments,
                self.declaration.params@.len(),
            ),
        }
    }

    pub fn arity(&self) -> (n: usize)
        ensures
            n == self.declaration.params@.len(),
    {
        self.declaration.params.len()
    }

    /// Makes the scope of one call and gives its place. Where the scope of
    /// the declaration is not there, nothing is made.
    pub fn bind(&self, scopes: &mut Environments, arguments: &Vec<Object>) -> (at: Option<usize>)
        ensures
            match at {
                Some(i) => self.closure < old(scopes)@.len() && i == old(scopes)@.len() && final(scopes)@ == old(scopes)@.push(self.call_scope(arguments.deep_view())),
                None => self.closure >= old(scopes)@.len() && final(scopes)@ == old(scopes)@,
            },
    {
        let mut environment = Environment::new(self.closure);
        let params = &self.declaration.params;
        let mut i: usize = 0;
        while i < params.len()
            invariant
                i <= params.len(),
                params == &self.declaration.params,
                environment@ == (EnvironmentView {
                    enclosing: Some(self.closure),
                    values: parameters(params@, arguments.deep_view(), i as nat),
                }),
            decreases params.len() - i,
        {
            let value = if i < arguments.len() {
                arguments[i].clone()
            } else {
                Object::Nil
            };
            environment.define(params[i].lexeme.as_str(), value);
            i += 1;
        }
        scopes.add(environment)
    }
}

impl<'a> Callable<'a> {
    /// The number of arguments that a call must give.
    pub open spec fn spec_arity(self) -> nat {
        match self {
            Callable::Clock => 0,
            Callable::Function(function) => function.declaration.params@.len(),
        }
    }

    pub fn arity(&self) -> (n: usize)
        ensures
            n == self.spec_arity(),
    {
        match self {
            Callable::Clock => 0,
            Callable::Function(function) => function.arity(),
        }
    }
}

} // verus!
