//! The resolver and the tree walker agree. The resolver counts, for a
//! reference to a local variable, the scopes between the reference and the
//! declaration; the walker, when it comes to the reference, goes that many
//! scopes outward from the current one. This file says when the findings
//! of a resolution fit a program, and shows that the walker then finds
//! every variable where the findings say it is.
use vstd::prelude::*;
use crate::environment::{ancestor, nested, EnvironmentView, Scopes};
use crate::expr::Expr;
use crate::interpreter::{Frame, Walk};
use crate::lox_function::Callable;
use crate::resolver::found_at;
use crate::stmt::Stmt;
use crate::token::Token;

verus! {

/// The scopes around a place of a program, as the resolver keeps them: the
/// innermost last; a name maps to whether its variable is ready.
pub type Static = Seq<Map<Seq<char>, bool>>;

/// The scopes with a name set in the innermost one. Outside every scope
/// nothing is set: the variable is global.
pub open spec fn marked(g: Static, name: Seq<char>, ready: bool) -> Static {
    if g.len() == 0 {
        g
    } else {
        g.update(g.len() - 1, g.last().insert(name, ready))
    }
}

/// Whether the findings fit a reference: where a scope has the name, they
/// hold the number of scopes between the innermost scope and the innermost
/// one that has the name, and a variable that is read is ready; where no
/// scope has the name, they hold nothing, and the variable is global.
pub open spec fn ref_ok(g: Static, id: usize, name: Seq<char>, l: Map<usize, usize>, read: bool) -> bool {
    match found_at(g, name, g.len() as int) {
        Some(i) => l.contains_key(id) && l[id] == (g.len() - 1 - i) as usize && (read ==> g[i][name]),
        None => !l.contains_key(id),
    }
}

/// Whether the findings fit every reference of an expression that stands
/// in the scopes.
pub open spec fn expr_ok(g: Static, e: &Expr, l: Map<usize, usize>) -> bool
    decreases e,
{
    match e {
        Expr::Literal(_) => true,
        Expr::Grouping(x) => expr_ok(g, &*x.expression, l),
        Expr::Unary(x) => expr_ok(g, &*x.right, l),
        Expr::Binary(x) => expr_ok(g, &*x.left, l) && expr_ok(g, &*x.right, l),
        Expr::Logical(x) => expr_ok(g, &*x.left, l) && expr_ok(g, &*x.right, l),
        Expr::Variable(x) => ref_ok(g, x.id, x.name.lexeme@, l, true),
        Expr::Assign(x) => expr_ok(g, &*x.value, l) && ref_ok(g, x.id, x.name.lexeme@, l, false),
        Expr::Call(x) => expr_ok(g, &*x.callee, l) && exprs_ok(g, x.arguments@, 0, l),
    }
}

/// The same for the expressions of a list, from a place on.
pub open spec fn exprs_ok(g: Static, list: Seq<Expr>, from: int, l: Map<usize, usize>) -> bool
    decreases list, list.len() - from,
{
    if 0 <= from < list.len() {
        expr_ok(g, &list[from], l) && exprs_ok(g, list, from + 1, l)
    } else {
        true
    }
}

/// Whether a statement declares nothing in the scope that it stands in.
pub open spec fn plain(s: &Stmt) -> bool {
    !(s is Var) && !(s is Function)
}

/// The scopes after a statement: a declaration adds its name, ready, to
/// the innermost scope.
pub open spec fn scopes_after(g: Static, s: &Stmt) -> Static {
    match s {
        Stmt::Var(x) => marked(g, x.name.lexeme@, true),
        Stmt::Function(x) => marked(g, x.name.lexeme@, true),
        _ => g,
    }
}

/// The scopes after the statements of a list, from a place on.
pub open spec fn scopes_after_all(g: Static, list: Seq<Stmt>, from: int) -> Static
    decreases list.len() - from,
{
    if 0 <= from < list.len() {
        scopes_after_all(scopes_after(g, &list[from]), list, from + 1)
    } else {
        g
    }
}

/// The scope of the first `count` parameters of a function: each is ready.
pub open spec fn params_scope(params: Seq<Token>, count: nat) -> Map<Seq<char>, bool>
    decreases count,
{
    if count == 0 || count > params.len() {
        Map::empty()
    } else {
        params_scope(params, (count - 1) as nat).insert(params[count - 1].lexeme@, true)
    }
}

/// Whether the findings fit every reference of a statement that stands in
/// the scopes. The branches of an `if` and the body of a loop declare
/// nothing in the scope of the statement.
pub open spec fn stmt_ok(g: Static, s: &Stmt, l: Map<usize, usize>) -> bool
    decreases s, 0nat,
{
    match s {
        Stmt::Expression(x) => expr_ok(g, &x.expression, l),
        Stmt::Print(x) => expr_ok(g, &x.expression, l),
        Stmt::Var(x) => match &x.initializer {
            Some(e) => expr_ok(marked(g, x.name.lexeme@, false), e, l),
            None => true,
        },
        Stmt::Block(x) => stmts_ok(g.push(Map::empty()), x.statements@, 0, l),
        Stmt::If(x) => expr_ok(g, &x.condition, l) && plain(&*x.then_branch) && stmt_ok(
            g,
            &*x.then_branch,
            l,
        ) && match &x.else_branch {
            Some(other) => plain(&**other) && stmt_ok(g, &**other, l),
            None => true,
        },
        Stmt::While(x) => expr_ok(g, &x.condition, l) && plain(&*x.body) && stmt_ok(
            g,
            &*x.body,
            l,
        ),
        Stmt::Function(x) => stmts_ok(
            marked(g, x.name.lexeme@, true).push(params_scope(x.params@, x.params@.len())),
            x.body@,
            0,
            l,
        ),
        Stmt::Return(x) => match &x.value {
            Some(e) => expr_ok(g, e, l),
            None => true,
        },
    }
}

/// The same for the statements of a list, from a place on: each stands in
/// the scopes that the statements before it leave.
pub open spec fn stmts_ok(g: Static, list: Seq<Stmt>, from: int, l: Map<usize, usize>) -> bool
    decreases list, list.len() - from,
{
    if 0 <= from < list.len() {
        stmt_ok(g, &list[from], l) && stmts_ok(scopes_after(g, &list[from]), list, from + 1, l)
    } else {
        true
    }
}

/// Whether the environment `distance` steps outward from `env` is there
/// and has every variable that is ready in the scope that many steps
/// outward from the innermost.
pub open spec fn level_ok(g: Static, env: int, scopes: Scopes, distance: int) -> bool {
    let found = ancestor(scopes, env, distance as nat);
    &&& found is Some
    &&& forall|name: Seq<char>|
        g[g.len() - 1 - distance].contains_key(name) && g[g.len() - 1 - distance][name]
            ==> #[trigger] scopes[found->0].values.contains_key(name)
}

/// Whether the environments from `env` outward match the scopes: there is
/// one for each scope, and it has the variables that are ready there.
pub open spec fn mirrors(g: Static, env: int, scopes: Scopes) -> bool {
    forall|distance: int| 0 <= distance < g.len() ==> #[trigger] level_ok(g, env, scopes, distance)
}

/// Whether environments have grown: those that were there are there, each
/// inside the same environment as before, and with the variables it had.
pub open spec fn grows(before: Scopes, after: Scopes) -> bool {
    &&& before.len() <= after.len()
    &&& forall|i: int|
        0 <= i < before.len() ==> (#[trigger] after[i]).enclosing == before[i].enclosing
    &&& forall|i: int, name: Seq<char>|
        0 <= i < before.len() && before[i].values.contains_key(name) ==> #[trigger] after[i].values.contains_key(name)
}

/// Whether the findings fit what a frame has left to do in the scopes.
pub open spec fn frame_ok<'a>(f: Frame<'a>, g: Static, l: Map<usize, usize>) -> bool {
    match f {
        Frame::Sequence(list, next) => stmts_ok(g, list@, next as int, l),
        Frame::Execute(s) => stmt_ok(g, s, l),
        Frame::Evaluate(e) => expr_ok(g, e, l),
        Frame::Branch(s) => plain(&*s.then_branch) && stmt_ok(g, &*s.then_branch, l) && match &s.else_branch {
            Some(other) => plain(&**other) && stmt_ok(g, &**other, l),
            None => true,
        },
        Frame::Repeat(s) => expr_ok(g, &s.condition, l) && plain(&*s.body) && stmt_ok(
            g,
            &*s.body,
            l,
        ),
        Frame::Test(s) => expr_ok(g, &s.condition, l) && plain(&*s.body) && stmt_ok(g, &*s.body, l),
        Frame::Decide(e) => expr_ok(g, &*e.right, l),
        Frame::Store(e) => ref_ok(g, e.id, e.name.lexeme@, l, false),
        _ => true,
    }
}

/// The scopes after a frame has been done.
pub open spec fn after<'a>(f: Frame<'a>, g: Static) -> Static {
    match f {
        Frame::Sequence(list, next) => scopes_after_all(g, list@, next as int),
        Frame::Execute(s) => scopes_after(g, s),
        Frame::Define(name) => marked(g, name.lexeme@, true),
        _ => g,
    }
}

/// Whether the findings fit everything that is left to do. The frames are
/// gone through from the top: each is done in the scopes that the frames
/// above it leave; the end of a block leads to the environment around the
/// block's and to the scopes without the block's; the end of a call leads
/// to the environment and the scopes of the caller, which match.
pub open spec fn chain<'a>(
    control: Seq<Frame<'a>>,
    g: Static,
    env: usize,
    callers: Seq<Static>,
    scopes: Scopes,
    l: Map<usize, usize>,
) -> bool
    decreases control.len(),
{
    if control.len() == 0 {
        true
    } else {
        let f = control.last();
        let rest = control.drop_last();
        frame_ok(f, g, l) && match f {
            Frame::Restore(outer) => g.len() > 0 && env < scopes.len() && scopes[env as int].enclosing
                == Some(outer) && chain(rest, g.drop_last(), outer, callers, scopes, l),
            Frame::Return(back) => callers.len() > 0 && back < scopes.len() && mirrors(
                callers.last(),
                back as int,
                scopes,
            ) && chain(rest, callers.last(), back, callers.drop_last(), scopes, l),
            _ => chain(rest, after(f, g), env, callers, scopes, l),
        }
    }
}

/// Whether the findings fit the functions that can be called: the body of
/// each fits the scopes of its declaration, with the scope of the
/// parameters innermost, and the environment of its declaration matches
/// those scopes.
pub open spec fn callables_ok<'a>(
    callables: Seq<Callable<'a>>,
    closures: Seq<Static>,
    scopes: Scopes,
    l: Map<usize, usize>,
) -> bool {
    &&& closures.len() == callables.len()
    &&& forall|h: int|
        0 <= h < callables.len() && (#[trigger] callables[h]) is Function ==> {
            let f = callables[h]->Function_0;
            &&& f.closure < scopes.len()
            &&& mirrors(closures[h], f.closure as int, scopes)
            &&& stmts_ok(
                closures[h].push(params_scope(f.declaration.params@, f.declaration.params@.len())),
                f.declaration.body@,
                0,
                l,
            )
        }
}

/// Whether a walk is sound: the environments nest, the current one is
/// there and matches the scopes of what is done next, and the findings fit
/// everything that is left to do and every function that can be called.
pub open spec fn sound<'a>(w: Walk<'a>, g: Static, callers: Seq<Static>, closures: Seq<Static>) -> bool {
    &&& nested(w.scopes)
    &&& w.environment < w.scopes.len()
    &&& w.scopes.len() > 0
    &&& mirrors(g, w.environment as int, w.scopes)
    &&& chain(w.control, g, w.environment, callers, w.scopes, w.locals)
    &&& callables_ok(w.callables, closures, w.scopes, w.locals)
}

/// Environments that were there keep their ancestors when environments
/// grow.
pub proof fn ancestor_grows(before: Scopes, after: Scopes, at: int, distance: nat)
    requires
        nested(before),
        grows(before, after),
        0 <= at < before.len(),
    ensures
        ancestor(after, at, distance) == ancestor(before, at, distance),
    decreases distance,
{
    assert(after[at].enclosing == before[at].enclosing);
    if distance > 0 {
        match before[at].enclosing {
            Some(outer) => {
                ancestor_grows(before, after, outer as int, (distance - 1) as nat);
            },
            None => {},
        }
    }
}

/// An ancestor is one of the environments.
pub proof fn ancestor_is_there(scopes: Scopes, at: int, distance: nat)
    requires
        nested(scopes),
    ensures
        ancestor(scopes, at, distance) is Some ==> 0 <= ancestor(scopes, at, distance)->0
            < scopes.len() && 0 <= at < scopes.len(),
    decreases distance,
{
    if 0 <= at < scopes.len() && distance > 0 {
        match scopes[at].enclosing {
            Some(outer) => {
                ancestor_is_there(scopes, outer as int, (distance - 1) as nat);
            },
            None => {},
        }
    }
}

/// Environments that match scopes still match them when environments
/// grow.
pub proof fn mirrors_grows(g: Static, env: int, before: Scopes, after: Scopes)
    requires
        nested(before),
        grows(before, after),
        0 <= env < before.len(),
        mirrors(g, env, before),
    ensures
        mirrors(g, env, after),
{
    assert forall|distance: int| 0 <= distance < g.len() implies #[trigger] level_ok(
        g,
        env,
        after,
        distance,
    ) by {
        assert(level_ok(g, env, before, distance));
        ancestor_grows(before, after, env, distance as nat);
        ancestor_is_there(before, env, distance as nat);
    }
}

/// What is left to do still fits when environments grow.
pub proof fn chain_grows<'a>(
    control: Seq<Frame<'a>>,
    g: Static,
    env: usize,
    callers: Seq<Static>,
    before: Scopes,
    after: Scopes,
    l: Map<usize, usize>,
)
    requires
        nested(before),
        grows(before, after),
        chain(control, g, env, callers, before, l),
    ensures
        chain(control, g, env, callers, after, l),
    decreases control.len(),
{
    if control.len() > 0 {
        let f = control.last();
        let rest = control.drop_last();
        match f {
            Frame::Restore(outer) => {
                chain_grows(rest, g.drop_last(), outer, callers, before, after, l);
            },
            Frame::Return(back) => {
                mirrors_grows(callers.last(), back as int, before, after);
                chain_grows(rest, callers.last(), back, callers.drop_last(), before, after, l);
            },
            _ => {
                chain_grows(rest, crate::scoping::after(f, g), env, callers, before, after, l);
            },
        }
    }
}

/// The functions still fit when environments grow.
pub proof fn callables_grow<'a>(
    callables: Seq<Callable<'a>>,
    closures: Seq<Static>,
    before: Scopes,
    after: Scopes,
    l: Map<usize, usize>,
)
    requires
        nested(before),
        grows(before, after),
        callables_ok(callables, closures, before, l),
    ensures
        callables_ok(callables, closures, after, l),
{
    assert forall|h: int|
        0 <= h < callables.len() && (#[trigger] callables[h]) is Function implies {
        let f = callables[h]->Function_0;
        &&& f.closure < after.len()
        &&& mirrors(closures[h], f.closure as int, after)
    } by {
        let f = callables[h]->Function_0;
        mirrors_grows(closures[h], f.closure as int, before, after);
    }
}

} // verus!

verus! {

/// Whether a frame ends a block or a call.
pub open spec fn is_boundary<'a>(f: Frame<'a>) -> bool {
    f is Restore || f is Return
}

/// A frame that ends neither a block nor a call can be put on top of what
/// is left to do, if the findings fit it and what is below it in the scopes
/// that it leaves.
pub proof fn chain_push<'a>(
    control: Seq<Frame<'a>>,
    f: Frame<'a>,
    g: Static,
    env: usize,
    callers: Seq<Static>,
    scopes: Scopes,
    l: Map<usize, usize>,
)
    requires
        !is_boundary(f),
        frame_ok(f, g, l),
        chain(control, after(f, g), env, callers, scopes, l),
    ensures
        chain(control.push(f), g, env, callers, scopes, l),
{
    assert(control.push(f).drop_last() =~= control);
    assert(control.push(f).last() == f);
}

/// What is below the top frame, where that ends neither a block nor a
/// call.
pub proof fn chain_pop<'a>(
    control: Seq<Frame<'a>>,
    g: Static,
    env: usize,
    callers: Seq<Static>,
    scopes: Scopes,
    l: Map<usize, usize>,
)
    requires
        control.len() > 0,
        !is_boundary(control.last()),
        chain(control, g, env, callers, scopes, l),
    ensures
        frame_ok(control.last(), g, l),
        chain(control.drop_last(), after(control.last(), g), env, callers, scopes, l),
{
}

/// The scopes after statements differ from the scopes before them in the
/// innermost scope only.
pub proof fn after_all_keeps_outer(g: Static, list: Seq<Stmt>, from: int)
    requires
        0 <= from,
    ensures
        scopes_after_all(g, list, from).len() == g.len(),
        g.len() > 0 ==> scopes_after_all(g, list, from).drop_last() == g.drop_last(),
    decreases list.len() - from,
{
    if from < list.len() {
        let next = scopes_after(g, &list[from]);
        assert(next.len() == g.len());
        if g.len() > 0 {
            assert(next.drop_last() =~= g.drop_last());
        }
        after_all_keeps_outer(next, list, from + 1);
    }
}

/// Giving a variable a value makes environments grow, and they still
/// nest.
pub proof fn with_value_grows(scopes: Scopes, at: int, name: Seq<char>, value: crate::object::ObjectView)
    requires
        0 <= at < scopes.len(),
        nested(scopes),
    ensures
        grows(scopes, crate::environment::with_value(scopes, at, name, value)),
        nested(crate::environment::with_value(scopes, at, name, value)),
        crate::environment::with_value(scopes, at, name, value).len() == scopes.len(),
{
    let after = crate::environment::with_value(scopes, at, name, value);
    assert forall|i: int|
        0 <= i < after.len() && (#[trigger] after[i]).enclosing is Some implies after[i].enclosing->0
        < i by {
        assert(after[i].enclosing == scopes[i].enclosing);
    }
}

/// A new environment makes environments grow, and they still nest if it
/// lies inside one that is there.
pub proof fn push_grows(scopes: Scopes, inner: EnvironmentView)
    requires
        nested(scopes),
        inner.enclosing is Some ==> inner.enclosing->0 < scopes.len(),
    ensures
        grows(scopes, scopes.push(inner)),
        nested(scopes.push(inner)),
{
    let after = scopes.push(inner);
    assert forall|i: int|
        0 <= i < after.len() && (#[trigger] after[i]).enclosing is Some implies after[i].enclosing->0
        < i by {
        if i < scopes.len() {
            assert(after[i] == scopes[i]);
        }
    }
}

/// After a variable is defined in the current environment, the
/// environments match the scopes in which the variable is ready.
pub proof fn mirrors_after_define(
    g: Static,
    env: int,
    scopes: Scopes,
    name: Seq<char>,
    value: crate::object::ObjectView,
)
    requires
        nested(scopes),
        0 <= env < scopes.len(),
        mirrors(g, env, scopes),
    ensures
        mirrors(marked(g, name, true), env, crate::environment::with_value(scopes, env, name, value)),
{
    let g2 = marked(g, name, true);
    let after = crate::environment::with_value(scopes, env, name, value);
    with_value_grows(scopes, env, name, value);
    assert forall|distance: int| 0 <= distance < g2.len() implies #[trigger] level_ok(
        g2,
        env,
        after,
        distance,
    ) by {
        assert(level_ok(g, env, scopes, distance));
        ancestor_grows(scopes, after, env, distance as nat);
        ancestor_is_there(scopes, env, distance as nat);
        let found = ancestor(after, env, distance as nat)->0;
        if distance == 0 {
            assert(found == env);
            assert(after[env].values.contains_key(name));
        }
    }
}

/// While a variable is declared and not ready, the environments match the
/// scopes as they did before.
pub proof fn mirrors_declared(g: Static, env: int, scopes: Scopes, name: Seq<char>)
    requires
        mirrors(g, env, scopes),
    ensures
        mirrors(marked(g, name, false), env, scopes),
{
    let g2 = marked(g, name, false);
    assert forall|distance: int| 0 <= distance < g2.len() implies #[trigger] level_ok(
        g2,
        env,
        scopes,
        distance,
    ) by {
        assert(level_ok(g, env, scopes, distance));
    }
}

/// A new environment inside an environment that matches scopes matches
/// those scopes with one more scope innermost, if it has every variable
/// that is ready in that scope.
pub proof fn mirrors_inside(
    g: Static,
    outer: int,
    scopes: Scopes,
    innermost: Map<Seq<char>, bool>,
    inner: EnvironmentView,
)
    requires
        nested(scopes),
        0 <= outer < scopes.len(),
        mirrors(g, outer, scopes),
        inner.enclosing == Some(outer as usize),
        outer <= usize::MAX,
        forall|name: Seq<char>|
            innermost.contains_key(name) && innermost[name] ==> #[trigger] inner.values.contains_key(
                name,
            ),
    ensures
        mirrors(g.push(innermost), scopes.len() as int, scopes.push(inner)),
{
    let g2 = g.push(innermost);
    let after = scopes.push(inner);
    let env = scopes.len() as int;
    push_grows(scopes, inner);
    assert forall|distance: int| 0 <= distance < g2.len() implies #[trigger] level_ok(
        g2,
        env,
        after,
        distance,
    ) by {
        if distance == 0 {
            assert(ancestor(after, env, 0) == Some(env));
            assert(g2[g2.len() - 1] == innermost);
        } else {
            assert(level_ok(g, outer, scopes, distance - 1));
            ancestor_grows(scopes, after, outer, (distance - 1) as nat);
            ancestor_is_there(scopes, outer, (distance - 1) as nat);
            assert(after[env].enclosing == Some(outer as usize));
            assert(ancestor(after, env, distance as nat) == ancestor(
                after,
                outer,
                (distance - 1) as nat,
            ));
            assert(g2[g2.len() - 1 - distance] == g[g.len() - 1 - (distance - 1)]);
            let found = ancestor(scopes, outer, (distance - 1) as nat)->0;
            assert(after[found] == scopes[found]);
        }
    }
}

/// The environment around a block's matches the scopes without the
/// block's.
pub proof fn mirrors_outside(g: Static, env: int, scopes: Scopes, outer: usize)
    requires
        g.len() > 0,
        0 <= env < scopes.len(),
        scopes[env].enclosing == Some(outer),
        mirrors(g, env, scopes),
    ensures
        mirrors(g.drop_last(), outer as int, scopes),
{
    let g2 = g.drop_last();
    assert forall|distance: int| 0 <= distance < g2.len() implies #[trigger] level_ok(
        g2,
        outer as int,
        scopes,
        distance,
    ) by {
        assert(level_ok(g, env, scopes, distance + 1));
        assert(ancestor(scopes, env, (distance + 1) as nat) == ancestor(
            scopes,
            outer as int,
            distance as nat,
        ));
        assert(g2[g2.len() - 1 - distance] == g[g.len() - 1 - (distance + 1)]);
    }
}

} // verus!
