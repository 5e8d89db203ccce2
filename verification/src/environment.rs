//! Environments: the scopes that hold the variables of a running program.
//!
//! Scopes nest: each but the outermost has an enclosing scope. They are
//! shared, by closures, and changed, by assignments, so they are kept in
//! one list and referred to by their place in it.
use vstd::prelude::*;
use crate::error::{ErrorView, RuntimeError};
use crate::object::{Object, ObjectView};
use crate::table::Table;
use crate::text::push_text;
use crate::token::Token;

verus! {

/// One scope: its variables, and the place of the scope around it.
pub struct Environment {
    pub enclosing: Option<usize>,
    pub values: Table<Object>,
}

pub struct EnvironmentView {
    pub enclosing: Option<usize>,
    pub values: Map<Seq<char>, ObjectView>,
}

impl View for Environment {
    type V = EnvironmentView;

    open spec fn view(&self) -> EnvironmentView {
        EnvironmentView {
            enclosing: self.enclosing,
            values: self.values@.map_values(|o: Object| o@),
        }
    }
}

impl DeepView for Environment {
    type V = EnvironmentView;

    open spec fn deep_view(&self) -> EnvironmentView {
        self@
    }
}

/// The text `Undefined variable '<name>'.`
pub open spec fn undefined(name: Seq<char>) -> Seq<char> {
    "Undefined variable '"@ + name + "'."@
}

/// The scopes of a program, each with its view.
pub type Scopes = Seq<EnvironmentView>;

/// Every enclosing scope was made before the scope it encloses.
pub open spec fn nested(scopes: Scopes) -> bool {
    forall|i: int|
        0 <= i < scopes.len() && (#[trigger] scopes[i]).enclosing is Some
            ==> scopes[i].enclosing->0 < i
}

/// The scope `distance` steps outward from the scope `at`, if the chain of
/// enclosing scopes is that long.
pub open spec fn ancestor(scopes: Scopes, at: int, distance: nat) -> Option<int>
    decreases distance,
{
    if !(0 <= at < scopes.len()) {
        None
    } else if distance == 0 {
        Some(at)
    } else {
        match scopes[at].enclosing {
            Some(outer) => ancestor(scopes, outer as int, (distance - 1) as nat),
            None => None,
        }
    }
}

/// The nearest scope, from `at` outward, that has the variable.
pub open spec fn holder(scopes: Scopes, at: int, name: Seq<char>) -> Option<int>
    decreases at,
{
    if !(0 <= at < scopes.len()) {
        None
    } else if scopes[at].values.contains_key(name) {
        Some(at)
    } else {
        match scopes[at].enclosing {
            Some(outer) => if outer < at {
                holder(scopes, outer as int, name)
            } else {
                None
            },
            None => None,
        }
    }
}

/// The scopes after the variable got the value in the scope `at`.
pub open spec fn with_value(scopes: Scopes, at: int, name: Seq<char>, value: ObjectView) -> Scopes {
    scopes.update(
        at,
        EnvironmentView { values: scopes[at].values.insert(name, value), ..scopes[at] },
    )
}

/// The value of a variable, looked for from the scope `at` outward.
pub open spec fn get(scopes: Scopes, at: int, name: Seq<char>, line: usize) -> Result<
    ObjectView,
    ErrorView,
> {
    match holder(scopes, at, name) {
        Some(found) => Ok(scopes[found].values[name]),
        None => Err(ErrorView { line, message: undefined(name) }),
    }
}

/// The value of a variable in the scope `distance` steps outward.
pub open spec fn get_at(scopes: Scopes, at: int, distance: nat, name: Seq<char>, line: usize) -> Result<
    ObjectView,
    ErrorView,
> {
    match ancestor(scopes, at, distance) {
        Some(found) => if scopes[found].values.contains_key(name) {
            Ok(scopes[found].values[name])
        } else {
            Err(ErrorView { line, message: undefined(name) })
        },
        None => Err(ErrorView { line, message: "No enclosing environment."@ }),
    }
}

/// Assignment to a variable that exists, in the nearest scope that has it.
pub open spec fn assign(scopes: Scopes, at: int, name: Seq<char>, value: ObjectView, line: usize) -> Result<
    Scopes,
    ErrorView,
> {
    match holder(scopes, at, name) {
        Some(found) => Ok(with_value(scopes, found, name, value)),
        None => Err(ErrorView { line, message: undefined(name) }),
    }
}

/// Assignment in the scope `distance` steps outward.
pub open spec fn assign_at(
    scopes: Scopes,
    at: int,
    distance: nat,
    name: Seq<char>,
    value: ObjectView,
    line: usize,
) -> Result<Scopes, ErrorView> {
    match ancestor(scopes, at, distance) {
        Some(found) => Ok(with_value(scopes, found, name, value)),
        None => Err(ErrorView { line, message: "No enclosing environment."@ }),
    }
}

fn undefined_variable(name: &Token) -> (error: RuntimeError)
    ensures
        error@ == (ErrorView { line: name.line, message: undefined(name.lexeme@) }),
{
    let mut message = "Undefined variable '".to_owned();
    push_text(&mut message, name.lexeme.as_str());
    push_text(&mut message, "'.");
    RuntimeError::new(name.line, message.as_str())
}

impl Environment {
    /// A scope with no scope around it.
    pub fn default() -> (environment: Environment)
        ensures
            environment@ == (EnvironmentView { enclosing: None, values: Map::empty() }),
    {
        let environment = Environment { enclosing: None, values: Table::new() };
        assert(environment@.values =~= Map::empty());
        environment
    }

    /// An empty scope inside the scope `enclosing`.
    pub fn new(enclosing: usize) -> (environment: Environment)
        ensures
            environment@ == (EnvironmentView { enclosing: Some(enclosing), values: Map::empty() }),
    {
        let environment = Environment { enclosing: Some(enclosing), values: Table::new() };
        assert(environment@.values =~= Map::empty());
        environment
    }

    /// Gives the variable the value in this scope, whether or not it is
    /// there already.
    pub fn define(&mut self, name: &str, value: Object)
        ensures
            final(self)@ == (EnvironmentView {
                values: old(self)@.values.insert(name@, value@),
                ..old(self)@
            }),
    {
        self.values.insert(name, value);
        assert(self@.values =~= old(self)@.values.insert(name@, value@));
    }

    /// The value of the variable in the scope `distance` steps outward
    /// from the scope `at`.
    pub fn get_at(scopes: &Environments, at: usize, distance: usize, name: &Token) -> (r: Result<
        Object,
        RuntimeError,
    >)
        ensures
            match r {
                Ok(value) => Ok::<ObjectView, ErrorView>(value@),
                Err(error) => Err(error@),
            } == get_at(scopes@, at as int, distance as nat, name.lexeme@, name.line),
    {
        match Environment::ancestor(scopes, at, distance) {
            Some(found) => match scopes.scope(found).values.get(name.lexeme.as_str()) {
                Some(value) => Ok(value.clone()),
                None => Err(undefined_variable(name)),
            },
            None => Err(RuntimeError::new(name.line, "No enclosing environment.")),
        }
    }

    /// The scope `distance` steps outward from the scope `at`.
    pub fn ancestor(scopes: &Environments, at: usize, distance: usize) -> (found: Option<usize>)
        ensures
            match found {
                Some(i) => ancestor(scopes@, at as int, distance as nat) == Some(i as int) && i
                    < scopes@.len(),
                None => ancestor(scopes@, at as int, distance as nat) is None,
            },
    {
        if at >= scopes.len() {
            return None;
        }
        let mut environment = at;
        let mut left = distance;
        while left > 0
            invariant
                environment < scopes@.len(),
                ancestor(scopes@, environment as int, left as nat) == ancestor(
                    scopes@,
                    at as int,
                    distance as nat,
                ),
            decreases left,
        {
            match scopes.scope(environment).enclosing {
                Some(outer) => {
                    if outer >= scopes.len() {
                        assert(ancestor(scopes@, outer as int, (left - 1) as nat) is None);
                        return None;
                    }
                    environment = outer;
                    left -= 1;
                },
                None => {
                    return None;
                },
            }
        }
        Some(environment)
    }

    /// The nearest scope, from `at` outward, that has the variable.
    pub fn holder(scopes: &Environments, at: usize, name: &str) -> (found: Option<usize>)
        ensures
            match found {
                Some(i) => holder(scopes@, at as int, name@) == Some(i as int) && i < scopes@.len()
                    && scopes@[i as int].values.contains_key(name@),
                None => holder(scopes@, at as int, name@) is None,
            },
    {
        if at >= scopes.len() {
            return None;
        }
        let mut environment = at;
        loop
            invariant
                environment < scopes@.len(),
                holder(scopes@, environment as int, name@) == holder(scopes@, at as int, name@),
            decreases environment,
        {
            let scope = scopes.scope(environment);
            if scope.values.contains(name) {
                return Some(environment);
            }
            match scope.enclosing {
                Some(outer) => {
                    if outer >= environment {
                        return None;
                    }
                    environment = outer;
                },
                None => {
                    return None;
                },
            }
        }
    }

    /// Assigns to a variable that exists, in the nearest scope that has it.
    pub fn assign(scopes: &mut Environments, at: usize, name: &Token, value: &Object) -> (r: Result<
        (),
        RuntimeError,
    >)
        ensures
            match r {
                Ok(_) => Ok::<Scopes, ErrorView>(final(scopes)@),
                Err(error) => Err(error@),
            } == assign(old(scopes)@, at as int, name.lexeme@, value@, name.line),
            r is Err ==> final(scopes)@ == old(scopes)@,
    {
        match Environment::holder(scopes, at, name.lexeme.as_str()) {
            Some(found) => {
                scopes.set(found, name.lexeme.as_str(), value.clone());
                Ok(())
            },
            None => Err(undefined_variable(name)),
        }
    }

    /// Assigns in the scope `distance` steps outward from the scope `at`.
    pub fn assign_at(
        scopes: &mut Environments,
        at: usize,
        distance: usize,
        name: &Token,
        value: &Object,
    ) -> (r: Result<(), RuntimeError>)
        ensures
            match r {
                Ok(_) => Ok::<Scopes, ErrorView>(final(scopes)@),
                Err(error) => Err(error@),
            } == assign_at(
                old(scopes)@,
                at as int,
                distance as nat,
                name.lexeme@,
                value@,
                name.line,
            ),
            r is Err ==> final(scopes)@ == old(scopes)@,
    {
        match Environment::ancestor(scopes, at, distance) {
            Some(found) => {
                scopes.set(found, name.lexeme.as_str(), value.clone());
                Ok(())
            },
            None => Err(RuntimeError::new(name.line, "No enclosing environment.")),
        }
    }

    /// The value of a variable, looked for from the scope `at` outward.
    pub fn get(scopes: &Environments, at: usize, name: &Token) -> (r: Result<Object, RuntimeError>)
        ensures
            match r {
                Ok(value) => Ok::<ObjectView, ErrorView>(value@),
                Err(error) => Err(error@),
            } == get(scopes@, at as int, name.lexeme@, name.line),
    {
        match Environment::holder(scopes, at, name.lexeme.as_str()) {
            Some(found) => match scopes.scope(found).values.get(name.lexeme.as_str()) {
                Some(value) => Ok(value.clone()),
                None => Err(undefined_variable(name)),
            },
            None => Err(undefined_variable(name)),
        }
    }
}

/// All the scopes of a program. A scope can only be added inside a scope
/// that is there already.
pub struct Environments {
    scopes: Vec<Environment>,
}

impl View for Environments {
    type V = Scopes;

    closed spec fn view(&self) -> Scopes {
        self.scopes.deep_view()
    }
}

impl Environments {
    pub fn new() -> (scopes: Environments)
        ensures
            scopes@.len() == 0,
    {
        let scopes = Environments { scopes: Vec::new() };
        assert(scopes.scopes.deep_view() =~= Seq::empty());
        scopes
    }

    /// The number of scopes.
    pub fn len(&self) -> (n: usize)
        ensures
            n == self@.len(),
    {
        self.scopes.len()
    }

    /// The scope at a place.
    pub fn scope(&self, at: usize) -> (environment: &Environment)
        requires
            at < self@.len(),
        ensures
            environment@ == self@[at as int],
    {
        &self.scopes[at]
    }

    /// Adds a scope and gives its place. A scope whose enclosing scope is
    /// not there is not added.
    pub fn add(&mut self, environment: Environment) -> (at: Option<usize>)
        ensures
            match at {
                Some(i) => i == old(self)@.len() && final(self)@ == old(self)@.push(environment@)
                    && (environment.enclosing is Some ==> environment.enclosing->0 < i),
                None => final(self)@ == old(self)@ && environment.enclosing is Some
                    && environment.enclosing->0 >= old(self)@.len(),
            },
            nested(old(self)@) ==> nested(final(self)@),
    {
        match environment.enclosing {
            Some(outer) => {
                if outer >= self.scopes.len() {
                    return None;
                }
            },
            None => {},
        }
        let at = self.scopes.len();
        let ghost added = environment@;
        self.scopes.push(environment);
        proof {
            assert(self.scopes.deep_view() =~= old(self).scopes.deep_view().push(added));
        }
        Some(at)
    }

    /// Gives a variable a value in the scope at a place.
    pub fn set(&mut self, at: usize, name: &str, value: Object)
        requires
            at < old(self)@.len(),
        ensures
            final(self)@ == with_value(old(self)@, at as int, name@, value@),
            nested(old(self)@) ==> nested(final(self)@),
    {
        let ghost before = self.scopes.deep_view();
        self.scopes[at].define(name, value);
        proof {
            assert(self.scopes.deep_view() =~= with_value(before, at as int, name@, value@));
        }
    }
}

} // verus!
