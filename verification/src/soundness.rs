//! Every step of the tree walker keeps a sound walk sound, and in a sound
//! walk every reference that the resolver has found a variable for finds
//! that variable.
use vstd::prelude::*;
use crate::environment::{ancestor, nested, with_value, EnvironmentView, Scopes};
use crate::expr::{Expr, ExprCall};
use crate::interpreter::{evaluations, Frame, Walk};
use crate::lox_function::{parameters, Callable, LoxFunction};
use crate::object::ObjectView;
use crate::resolver::found_at;
use crate::scoping::{after, after_all_keeps_outer, callables_grow, callables_ok, chain, chain_grows, chain_pop, chain_push, expr_ok, exprs_ok, frame_ok, level_ok, marked, mirrors, mirrors_after_define, mirrors_declared, mirrors_grows, mirrors_inside, mirrors_outside, params_scope, push_grows, scopes_after, scopes_after_all, sound, stmt_ok, stmts_ok, with_value_grows, Static};
use crate::stmt::Stmt;
use crate::token::Token;

verus! {

/// What a walk is sound in: the scopes of what is done next, those of the
/// callers, outermost first, and those of the declarations of the
/// functions that can be called.
pub struct Context {
    pub scopes: Static,
    pub callers: Seq<Static>,
    pub closures: Seq<Static>,
}

pub open spec fn sound_in<'a>(w: Walk<'a>, c: Context) -> bool {
    sound(w, c.scopes, c.callers, c.closures)
}

/// A walk whose top frame has been taken off: it was sound in the context,
/// and what is below the frame is done in the scopes `leaves`, which the
/// frame leaves.
pub open spec fn below<'a>(r: Walk<'a>, c: Context, leaves: Static) -> bool {
    &&& nested(r.scopes)
    &&& r.scopes.len() > 0
    &&& r.environment < r.scopes.len()
    &&& mirrors(c.scopes, r.environment as int, r.scopes)
    &&& chain(r.control, leaves, r.environment, c.callers, r.scopes, r.locals)
    &&& callables_ok(r.callables, c.closures, r.scopes, r.locals)
}

/// The context of a walk that has nothing to do.
pub open spec fn idle(c: Context) -> Context {
    Context { scopes: Seq::empty(), callers: Seq::empty(), closures: c.closures }
}

/// After a runtime error the walk is sound: nothing is left to do.
pub proof fn aborted_is_sound<'a>(r: Walk<'a>, c: Context)
    requires
        nested(r.scopes),
        r.scopes.len() > 0,
        callables_ok(r.callables, c.closures, r.scopes, r.locals),
    ensures
        sound_in(r.aborted(), idle(c)),
{
}

/// Every expression of a list on is fit where the list is.
pub proof fn exprs_ok_at(g: Static, list: Seq<Expr>, from: int, at: int, l: Map<usize, usize>)
    requires
        0 <= from <= at < list.len(),
        exprs_ok(g, list, from, l),
    ensures
        expr_ok(g, &list[at], l),
    decreases at - from,
{
    if from < at {
        exprs_ok_at(g, list, from + 1, at, l);
    }
}

/// Frames that evaluate fit expressions can be put on top of what is left
/// to do.
pub proof fn chain_evaluates<'a>(
    control: Seq<Frame<'a>>,
    frames: Seq<Frame<'a>>,
    g: Static,
    env: usize,
    callers: Seq<Static>,
    scopes: Scopes,
    l: Map<usize, usize>,
)
    requires
        chain(control, g, env, callers, scopes, l),
        forall|i: int|
            0 <= i < frames.len() ==> (#[trigger] frames[i]) is Evaluate && expr_ok(
                g,
                frames[i]->Evaluate_0,
                l,
            ),
    ensures
        chain(control + frames, g, env, callers, scopes, l),
    decreases frames.len(),
{
    if frames.len() == 0 {
        assert(control + frames =~= control);
    } else {
        let f = frames.last();
        assert(frames[frames.len() - 1] == f);
        chain_evaluates(control, frames.drop_last(), g, env, callers, scopes, l);
        chain_push(control + frames.drop_last(), f, g, env, callers, scopes, l);
        assert((control + frames.drop_last()).push(f) =~= control + frames);
    }
}

pub proof fn evaluate_step<'a>(r: Walk<'a>, e: &'a Expr, c: Context) -> (n: Context)
    requires
        below(r, c, c.scopes),
        expr_ok(c.scopes, e, r.locals),
    ensures
        sound_in(r.evaluate(e).next, n),
{
    let g = c.scopes;
    let env = r.environment;
    let l = r.locals;
    match e {
        Expr::Literal(_) => c,
        Expr::Grouping(x) => {
            chain_push(r.control, Frame::Evaluate(&x.expression), g, env, c.callers, r.scopes, l);
            c
        },
        Expr::Unary(x) => {
            chain_push(r.control, Frame::ApplyUnary(x), g, env, c.callers, r.scopes, l);
            chain_push(
                r.control.push(Frame::ApplyUnary(x)),
                Frame::Evaluate(&x.right),
                g,
                env,
                c.callers,
                r.scopes,
                l,
            );
            c
        },
        Expr::Binary(x) => {
            let c1 = r.control.push(Frame::ApplyBinary(x));
            chain_push(r.control, Frame::ApplyBinary(x), g, env, c.callers, r.scopes, l);
            chain_push(c1, Frame::Evaluate(&x.right), g, env, c.callers, r.scopes, l);
            chain_push(
                c1.push(Frame::Evaluate(&x.right)),
                Frame::Evaluate(&x.left),
                g,
                env,
                c.callers,
                r.scopes,
                l,
            );
            c
        },
        Expr::Logical(x) => {
            chain_push(r.control, Frame::Decide(x), g, env, c.callers, r.scopes, l);
            chain_push(
                r.control.push(Frame::Decide(x)),
                Frame::Evaluate(&x.left),
                g,
                env,
                c.callers,
                r.scopes,
                l,
            );
            c
        },
        Expr::Variable(x) => {
            match r.look_up(x.id, &x.name) {
                Ok(_) => c,
                Err(_) => {
                    aborted_is_sound(r, c);
                    idle(c)
                },
            }
        },
        Expr::Assign(x) => {
            chain_push(r.control, Frame::Store(x), g, env, c.callers, r.scopes, l);
            chain_push(
                r.control.push(Frame::Store(x)),
                Frame::Evaluate(&x.value),
                g,
                env,
                c.callers,
                r.scopes,
                l,
            );
            c
        },
        Expr::Call(x) => {
            let base = r.control.push(Frame::Invoke(x));
            let frames = evaluations(&x.arguments, x.arguments@.len());
            chain_push(r.control, Frame::Invoke(x), g, env, c.callers, r.scopes, l);
            assert forall|i: int| 0 <= i < frames.len() implies (#[trigger] frames[i]) is Evaluate
                && expr_ok(g, frames[i]->Evaluate_0, l) by {
                exprs_ok_at(g, x.arguments@, 0, x.arguments@.len() - 1 - i, l);
            }
            chain_evaluates(base, frames, g, env, c.callers, r.scopes, l);
            chain_push(base + frames, Frame::Evaluate(&x.callee), g, env, c.callers, r.scopes, l);
            c
        },
    }
}

/// Leaving a function keeps the walk sound: the caller's scopes and
/// environment are the current ones again.
pub proof fn unwind_step<'a>(r: Walk<'a>, g: Static, env: usize, c: Context) -> (n: Context)
    requires
        nested(r.scopes),
        r.scopes.len() > 0,
        callables_ok(r.callables, c.closures, r.scopes, r.locals),
        chain(r.control, g, env, c.callers, r.scopes, r.locals),
    ensures
        sound_in(r.unwind().next, n),
    decreases r.control.len(),
{
    if r.control.len() == 0 {
        aborted_is_sound(r, c);
        idle(c)
    } else {
        let rest = Walk { control: r.control.drop_last(), ..r };
        match r.control.last() {
            Frame::Return(back) => Context {
                scopes: c.callers.last(),
                callers: c.callers.drop_last(),
                closures: c.closures,
            },
            Frame::Restore(outer) => unwind_step(rest, g.drop_last(), outer, c),
            f => unwind_step(rest, after(f, g), env, c),
        }
    }
}

/// Defining a variable in the current environment keeps the walk sound, in
/// the scopes in which the variable is ready.
pub proof fn define_step<'a>(r: Walk<'a>, name: Seq<char>, value: ObjectView, c: Context) -> (n:
    Context)
    requires
        below(r, c, marked(c.scopes, name, true)),
    ensures
        sound_in(r.define(name, value).next, n),
{
    let after = with_value(r.scopes, r.environment as int, name, value);
    with_value_grows(r.scopes, r.environment as int, name, value);
    mirrors_after_define(c.scopes, r.environment as int, r.scopes, name, value);
    chain_grows(
        r.control,
        marked(c.scopes, name, true),
        r.environment,
        c.callers,
        r.scopes,
        after,
        r.locals,
    );
    callables_grow(r.callables, c.closures, r.scopes, after, r.locals);
    Context { scopes: marked(c.scopes, name, true), ..c }
}

pub proof fn execute_step<'a>(r: Walk<'a>, s: &'a Stmt, c: Context) -> (n: Context)
    requires
        below(r, c, scopes_after(c.scopes, s)),
        stmt_ok(c.scopes, s, r.locals),
    ensures
        sound_in(r.execute(s).next, n),
{
    let g = c.scopes;
    let env = r.environment;
    let l = r.locals;
    match s {
        Stmt::Expression(x) => {
            chain_push(r.control, Frame::Discard, g, env, c.callers, r.scopes, l);
            chain_push(
                r.control.push(Frame::Discard),
                Frame::Evaluate(&x.expression),
                g,
                env,
                c.callers,
                r.scopes,
                l,
            );
            c
        },
        Stmt::Print(x) => {
            chain_push(r.control, Frame::Print, g, env, c.callers, r.scopes, l);
            chain_push(
                r.control.push(Frame::Print),
                Frame::Evaluate(&x.expression),
                g,
                env,
                c.callers,
                r.scopes,
                l,
            );
            c
        },
        Stmt::Var(x) => match &x.initializer {
            Some(e) => {
                let g1 = marked(g, x.name.lexeme@, false);
                if g.len() > 0 {
                    assert(g.last().insert(x.name.lexeme@, false).insert(x.name.lexeme@, true)
                        =~= g.last().insert(x.name.lexeme@, true));
                }
                assert(marked(g1, x.name.lexeme@, true) =~= marked(g, x.name.lexeme@, true));
                mirrors_declared(g, env as int, r.scopes, x.name.lexeme@);
                chain_push(r.control, Frame::Define(&x.name), g1, env, c.callers, r.scopes, l);
                chain_push(
                    r.control.push(Frame::Define(&x.name)),
                    Frame::Evaluate(e),
                    g1,
                    env,
                    c.callers,
                    r.scopes,
                    l,
                );
                Context { scopes: g1, ..c }
            },
            None => define_step(r, x.name.lexeme@, ObjectView::Nil, c),
        },
        Stmt::Block(x) => {
            if r.environment < r.scopes.len() && r.scopes.len() < usize::MAX {
                let inner = EnvironmentView { enclosing: Some(env), values: Map::empty() };
                let scopes = r.scopes.push(inner);
                let g1 = g.push(Map::empty());
                push_grows(r.scopes, inner);
                mirrors_inside(g, env as int, r.scopes, Map::empty(), inner);
                chain_grows(r.control, g, env, c.callers, r.scopes, scopes, l);
                callables_grow(r.callables, c.closures, r.scopes, scopes, l);
                let inside = r.scopes.len() as usize;
                let leaves = scopes_after_all(g1, x.statements@, 0);
                after_all_keeps_outer(g1, x.statements@, 0);
                assert(g1.drop_last() =~= g);
                // The end of the block, below its statements.
                let c1 = r.control.push(Frame::Restore(env));
                assert(c1.drop_last() =~= r.control);
                assert(c1.last() == Frame::Restore(env));
                assert(scopes[inside as int] == inner);
                assert(chain(c1, leaves, inside, c.callers, scopes, l));
                chain_push(
                    c1,
                    Frame::Sequence(&x.statements, 0),
                    g1,
                    inside,
                    c.callers,
                    scopes,
                    l,
                );
                Context { scopes: g1, ..c }
            } else {
                aborted_is_sound(r, c);
                idle(c)
            }
        },
        Stmt::If(x) => {
            chain_push(r.control, Frame::Branch(x), g, env, c.callers, r.scopes, l);
            chain_push(
                r.control.push(Frame::Branch(x)),
                Frame::Evaluate(&x.condition),
                g,
                env,
                c.callers,
                r.scopes,
                l,
            );
            c
        },
        Stmt::While(x) => {
            chain_push(r.control, Frame::Test(x), g, env, c.callers, r.scopes, l);
            chain_push(
                r.control.push(Frame::Test(x)),
                Frame::Evaluate(&x.condition),
                g,
                env,
                c.callers,
                r.scopes,
                l,
            );
            c
        },
        Stmt::Function(x) => {
            if r.callables.len() < usize::MAX {
                let g1 = marked(g, x.name.lexeme@, true);
                let function = LoxFunction { declaration: x, closure: env };
                let with = Walk { callables: r.callables.push(Callable::Function(function)), ..r };
                let closures = c.closures.push(g1);
                let value = ObjectView::Callable(r.callables.len() as usize);
                let scopes = with_value(r.scopes, env as int, x.name.lexeme@, value);
                with_value_grows(r.scopes, env as int, x.name.lexeme@, value);
                mirrors_after_define(g, env as int, r.scopes, x.name.lexeme@, value);
                chain_grows(r.control, g1, env, c.callers, r.scopes, scopes, l);
                callables_grow(r.callables, c.closures, r.scopes, scopes, l);
                assert(callables_ok(with.callables, closures, scopes, l)) by {
                    assert forall|h: int|
                        0 <= h < with.callables.len() && (
                        #[trigger] with.callables[h]) is Function implies {
                        let f = with.callables[h]->Function_0;
                        &&& f.closure < scopes.len()
                        &&& mirrors(closures[h], f.closure as int, scopes)
                        &&& stmts_ok(
                            closures[h].push(
                                params_scope(f.declaration.params@, f.declaration.params@.len()),
                            ),
                            f.declaration.body@,
                            0,
                            l,
                        )
                    } by {
                        if h < r.callables.len() {
                            assert(with.callables[h] == r.callables[h]);
                            assert(closures[h] == c.closures[h]);
                        } else {
                            assert(closures[h] == g1);
                        }
                    }
                }
                Context { scopes: g1, callers: c.callers, closures }
            } else {
                aborted_is_sound(r, c);
                idle(c)
            }
        },
        Stmt::Return(x) => match &x.value {
            Some(e) => {
                chain_push(r.control, Frame::Unwind, g, env, c.callers, r.scopes, l);
                chain_push(
                    r.control.push(Frame::Unwind),
                    Frame::Evaluate(e),
                    g,
                    env,
                    c.callers,
                    r.scopes,
                    l,
                );
                c
            },
            None => unwind_step(r.push_value(ObjectView::Nil), g, env, c),
        },
    }
}

} // verus!

verus! {

/// The scope that holds a variable is one of the environments.
pub proof fn holder_is_there(scopes: Scopes, at: int, name: Seq<char>)
    ensures
        crate::environment::holder(scopes, at, name) is Some ==> 0 <= crate::environment::holder(
            scopes,
            at,
            name,
        )->0 < scopes.len(),
    decreases at,
{
    if 0 <= at < scopes.len() && !scopes[at].values.contains_key(name) {
        match scopes[at].enclosing {
            Some(outer) => {
                if outer < at {
                    holder_is_there(scopes, outer as int, name);
                }
            },
            None => {},
        }
    }
}

/// An assignment makes environments grow, and they still nest.
pub proof fn stored_grows<'a>(r: Walk<'a>, id: usize, name: &Token, value: ObjectView)
    requires
        nested(r.scopes),
        r.stored(id, name, value) is Ok,
    ensures
        crate::scoping::grows(r.scopes, r.stored(id, name, value)->Ok_0),
        nested(r.stored(id, name, value)->Ok_0),
        r.stored(id, name, value)->Ok_0.len() == r.scopes.len(),
{
    if r.locals.contains_key(id) {
        let found = ancestor(r.scopes, r.environment as int, r.locals[id] as nat);
        crate::scoping::ancestor_is_there(r.scopes, r.environment as int, r.locals[id] as nat);
        with_value_grows(r.scopes, found->0, name.lexeme@, value);
    } else {
        holder_is_there(r.scopes, 0, name.lexeme@);
        let found = crate::environment::holder(r.scopes, 0, name.lexeme@);
        with_value_grows(r.scopes, found->0, name.lexeme@, value);
    }
}

/// Whether a frame works on the value on top of the stack.
pub open spec fn works_on_a_value<'a>(f: Frame<'a>) -> bool {
    f is Discard || f is Print || f is Define || f is Branch || f is Test || f is Unwind
        || f is ApplyUnary || f is ApplyBinary || f is Decide || f is Store
}

pub proof fn consume_step<'a>(r: Walk<'a>, f: Frame<'a>, c: Context) -> (n: Context)
    requires
        works_on_a_value(f),
        below(r, c, after(f, c.scopes)),
        frame_ok(f, c.scopes, r.locals),
    ensures
        sound_in(r.consume(f).next, n),
{
    let g = c.scopes;
    let env = r.environment;
    let l = r.locals;
    if r.values.len() == 0 {
        aborted_is_sound(r, c);
        idle(c)
    } else {
        let value = r.top(0);
        let rest = r.drop(1);
        match f {
            Frame::Define(name) => define_step(rest, name.lexeme@, value, c),
            Frame::Branch(s) => {
                chain_push(
                    r.control,
                    Frame::Execute(&*s.then_branch),
                    g,
                    env,
                    c.callers,
                    r.scopes,
                    l,
                );
                match &s.else_branch {
                    Some(other) => {
                        chain_push(
                            r.control,
                            Frame::Execute(&**other),
                            g,
                            env,
                            c.callers,
                            r.scopes,
                            l,
                        );
                    },
                    None => {},
                }
                c
            },
            Frame::Test(s) => {
                chain_push(r.control, Frame::Repeat(s), g, env, c.callers, r.scopes, l);
                chain_push(
                    r.control.push(Frame::Repeat(s)),
                    Frame::Execute(&*s.body),
                    g,
                    env,
                    c.callers,
                    r.scopes,
                    l,
                );
                c
            },
            Frame::Unwind => unwind_step(r, g, env, c),
            Frame::ApplyUnary(e) => {
                aborted_is_sound(rest, c);
                match crate::interpreter::unary(e.operator.token_type, value) {
                    crate::interpreter::Applied::Fail(_) => idle(c),
                    _ => c,
                }
            },
            Frame::ApplyBinary(e) => {
                aborted_is_sound(r, c);
                if r.values.len() < 2 {
                    idle(c)
                } else {
                    match crate::interpreter::binary(e.operator.token_type, r.top(1), value) {
                        crate::interpreter::Applied::Fail(_) => idle(c),
                        _ => c,
                    }
                }
            },
            Frame::Decide(e) => {
                chain_push(r.control, Frame::Evaluate(&*e.right), g, env, c.callers, r.scopes, l);
                c
            },
            Frame::Store(e) => {
                match r.stored(e.id, &e.name, value) {
                    Ok(scopes) => {
                        stored_grows(r, e.id, &e.name, value);
                        mirrors_grows(g, env as int, r.scopes, scopes);
                        chain_grows(r.control, g, env, c.callers, r.scopes, scopes, l);
                        callables_grow(r.callables, c.closures, r.scopes, scopes, l);
                        c
                    },
                    Err(_) => {
                        aborted_is_sound(r, c);
                        idle(c)
                    },
                }
            },
            _ => c,
        }
    }
}

/// The environment of a call has every parameter of the function.
pub proof fn parameters_are_bound(params: Seq<Token>, arguments: Seq<ObjectView>, count: nat, name: Seq<char>)
    requires
        count <= params.len(),
    ensures
        params_scope(params, count).contains_key(name) ==> parameters(
            params,
            arguments,
            count,
        ).contains_key(name),
    decreases count,
{
    if count > 0 {
        parameters_are_bound(params, arguments, (count - 1) as nat, name);
    }
}

pub proof fn call_step<'a>(r: Walk<'a>, handle: int, arguments: Seq<ObjectView>, c: Context) -> (n:
    Context)
    requires
        below(r, c, c.scopes),
        0 <= handle < r.callables.len(),
    ensures
        sound_in(r.call(r.callables[handle], arguments).next, n),
{
    let g = c.scopes;
    let env = r.environment;
    let l = r.locals;
    match r.callables[handle] {
        Callable::Clock => c,
        Callable::Function(function) => {
            if function.closure < r.scopes.len() && r.scopes.len() < usize::MAX {
                let inner = function.call_scope(arguments);
                let params = function.declaration.params@;
                let innermost = params_scope(params, params.len());
                let scopes = r.scopes.push(inner);
                let inside = r.scopes.len() as usize;
                let declared = c.closures[handle];
                let g1 = declared.push(innermost);
                push_grows(r.scopes, inner);
                assert forall|name: Seq<char>|
                    innermost.contains_key(name) && innermost[name] implies #[trigger] inner.values.contains_key(
                    name,
                ) by {
                    parameters_are_bound(params, arguments, params.len(), name);
                }
                mirrors_inside(declared, function.closure as int, r.scopes, innermost, inner);
                mirrors_grows(g, env as int, r.scopes, scopes);
                chain_grows(r.control, g, env, c.callers, r.scopes, scopes, l);
                callables_grow(r.callables, c.closures, r.scopes, scopes, l);
                let callers = c.callers.push(g);
                let body = &function.declaration.body;
                let leaves = scopes_after_all(g1, body@, 0);
                let c1 = r.control.push(Frame::Return(env));
                assert(c1.drop_last() =~= r.control);
                assert(c1.last() == Frame::Return(env));
                assert(callers.drop_last() =~= c.callers);
                assert(callers.last() == g);
                assert(chain(c1, leaves, inside, callers, scopes, l));
                chain_push(c1, Frame::Sequence(body, 0), g1, inside, callers, scopes, l);
                Context { scopes: g1, callers, closures: c.closures }
            } else {
                aborted_is_sound(r, c);
                idle(c)
            }
        },
    }
}

pub proof fn invoke_step<'a>(r: Walk<'a>, call: &'a ExprCall, c: Context) -> (n: Context)
    requires
        below(r, c, c.scopes),
    ensures
        sound_in(r.invoke(call).next, n),
{
    let count = call.arguments@.len();
    aborted_is_sound(r, c);
    if r.values.len() < count + 1 {
        idle(c)
    } else {
        let arguments = r.values.subrange(r.values.len() - count, r.values.len() as int);
        let rest = r.drop(count as int + 1);
        match r.top(count as int) {
            ObjectView::Callable(handle) => {
                if handle < r.callables.len() {
                    let callee = r.callables[handle as int];
                    if callee.spec_arity() != count {
                        idle(c)
                    } else {
                        call_step(rest, handle as int, arguments, c)
                    }
                } else {
                    idle(c)
                }
            },
            _ => idle(c),
        }
    }
}

/// Every step keeps a sound walk sound.
pub proof fn step_is_sound<'a>(w: Walk<'a>, c: Context) -> (n: Context)
    requires
        sound_in(w, c),
    ensures
        sound_in(w.step().next, n),
{
    let g = c.scopes;
    let env = w.environment;
    let l = w.locals;
    if w.pending is Some || w.control.len() == 0 {
        c
    } else {
        let rest = Walk { control: w.control.drop_last(), ..w };
        let f = w.control.last();
        match f {
            Frame::Restore(outer) => {
                mirrors_outside(g, env as int, w.scopes, outer);
                Context { scopes: g.drop_last(), ..c }
            },
            Frame::Return(back) => Context {
                scopes: c.callers.last(),
                callers: c.callers.drop_last(),
                closures: c.closures,
            },
            Frame::Sequence(list, next) => {
                chain_pop(w.control, g, env, c.callers, w.scopes, l);
                if next < list@.len() {
                    assert(list.len() == list@.len());
                    assert((next + 1) as usize == next + 1);
                    let s = &list@[next as int];
                    let then = Frame::Sequence(list, (next + 1) as usize);
                    chain_push(
                        rest.control,
                        then,
                        scopes_after(g, s),
                        env,
                        c.callers,
                        w.scopes,
                        l,
                    );
                    chain_push(
                        rest.control.push(then),
                        Frame::Execute(s),
                        g,
                        env,
                        c.callers,
                        w.scopes,
                        l,
                    );
                    c
                } else {
                    c
                }
            },
            Frame::Execute(s) => {
                chain_pop(w.control, g, env, c.callers, w.scopes, l);
                execute_step(rest, s, c)
            },
            Frame::Evaluate(e) => {
                chain_pop(w.control, g, env, c.callers, w.scopes, l);
                evaluate_step(rest, e, c)
            },
            Frame::Repeat(s) => {
                chain_pop(w.control, g, env, c.callers, w.scopes, l);
                chain_push(rest.control, Frame::Test(s), g, env, c.callers, w.scopes, l);
                chain_push(
                    rest.control.push(Frame::Test(s)),
                    Frame::Evaluate(&s.condition),
                    g,
                    env,
                    c.callers,
                    w.scopes,
                    l,
                );
                c
            },
            Frame::Invoke(call) => {
                chain_pop(w.control, g, env, c.callers, w.scopes, l);
                invoke_step(rest, call, c)
            },
            _ => {
                chain_pop(w.control, g, env, c.callers, w.scopes, l);
                consume_step(rest, f, c)
            },
        }
    }
}

/// The answer of the host keeps a sound walk sound.
pub proof fn supply_is_sound<'a>(w: Walk<'a>, c: Context, n: crate::number::Number)
    requires
        sound_in(w, c),
    ensures
        sound_in(w.supply(n), c),
{
}

/// An environment has no more ancestors than environments were made
/// before it.
pub proof fn ancestor_bound(scopes: Scopes, at: int, distance: nat)
    requires
        nested(scopes),
        ancestor(scopes, at, distance) is Some,
    ensures
        distance <= at,
    decreases distance,
{
    if distance > 0 {
        match scopes[at].enclosing {
            Some(outer) => {
                ancestor_bound(scopes, outer as int, (distance - 1) as nat);
            },
            None => {},
        }
    }
}

/// In a sound walk, a reference that the resolver has found a variable
/// for finds it: the environment that many steps outward is there and has
/// the variable, so reading it gives its value, and assigning to it does
/// not fail.
pub proof fn found_variables_are_there<'a>(w: Walk<'a>, c: Context)
    requires
        sound_in(w, c),
        w.control.len() > 0,
    ensures
        match w.control.last() {
            Frame::Evaluate(Expr::Variable(e)) => w.locals.contains_key(e.id) ==> w.look_up(
                e.id,
                &e.name,
            ) is Ok,
            Frame::Store(e) => w.locals.contains_key(e.id) ==> forall|value: ObjectView|
                #![auto]
                w.stored(e.id, &e.name, value) is Ok,
            _ => true,
        },
{
    let g = c.scopes;
    let l = w.locals;
    match w.control.last() {
        Frame::Evaluate(Expr::Variable(e)) => {
            if l.contains_key(e.id) {
                crate::resolver::found_is_innermost(g, e.name.lexeme@, g.len() as int);
                let i = found_at(g, e.name.lexeme@, g.len() as int)->0;
                assert(level_ok(g, w.environment as int, w.scopes, g.len() - 1 - i));
                ancestor_bound(w.scopes, w.environment as int, (g.len() - 1 - i) as nat);
            }
        },
        Frame::Store(e) => {
            if l.contains_key(e.id) {
                crate::resolver::found_is_innermost(g, e.name.lexeme@, g.len() as int);
                let i = found_at(g, e.name.lexeme@, g.len() as int)->0;
                assert(level_ok(g, w.environment as int, w.scopes, g.len() - 1 - i));
                ancestor_bound(w.scopes, w.environment as int, (g.len() - 1 - i) as nat);
            }
        },
        _ => {},
    }
}

/// A walk that takes a program to run is sound, if it was sound and had
/// nothing to do, and if the findings fit the program.
pub proof fn load_is_sound<'a>(w: Walk<'a>, c: Context, statements: &'a Vec<Stmt>)
    requires
        sound_in(w, c),
        stmts_ok(Seq::empty(), statements@, 0, w.locals),
    ensures
        sound_in(w.load(statements), idle(c)),
{
    let control = seq![Frame::Sequence(statements, 0)];
    let none = Seq::<Static>::empty();
    let leaves = scopes_after_all(Seq::empty(), statements@, 0);
    assert(control.drop_last() =~= Seq::<Frame<'a>>::empty());
    assert(control.last() == Frame::Sequence(statements, 0));
    assert(chain(Seq::<Frame<'a>>::empty(), leaves, 0, none, w.scopes, w.locals));
    chain_push(
        Seq::<Frame<'a>>::empty(),
        Frame::Sequence(statements, 0),
        Seq::empty(),
        0,
        none,
        w.scopes,
        w.locals,
    );
    assert(Seq::<Frame<'a>>::empty().push(Frame::Sequence(statements, 0)) =~= control);
}

/// A new walk is sound, whatever the findings are.
pub proof fn start_is_sound<'a>(w: Walk<'a>)
    requires
        w == (Walk { locals: w.locals, ..Walk::<'a>::start() }),
    ensures
        sound_in(
            w,
            Context { scopes: Seq::empty(), callers: Seq::empty(), closures: seq![Seq::empty()] },
        ),
{
}

} // verus!

verus! {

/// A program that the parser gives and the resolver accepts runs sound: a
/// new walk that has the resolver's findings and takes the program to run
/// is sound. As every step keeps a sound walk sound, the walk is sound all
/// the way, and so every reference that the resolver has found a variable
/// for finds it when the program comes to it.
pub proof fn resolved_program_is_sound<'a>(tokens: Seq<crate::token::TokenView>, program: &'a Vec<Stmt>)
    requires
        crate::stmt::stmt_views(program@, program@.len() as int)
            == crate::ast_parser::Parsing::begin(tokens).parse().1,
        crate::ast_parser::Parsing::begin(tokens).parse().0.next_id < usize::MAX,
        crate::resolver::Resolution::start().statements(program@, 0) is Ok,
    ensures
        sound_in(
            (Walk {
                locals: crate::resolver::Resolution::start().statements(program@, 0)->Ok_0.locals,
                ..Walk::<'a>::start()
            }).load(program),
            Context { scopes: Seq::empty(), callers: Seq::empty(), closures: seq![Seq::empty()] },
        ),
{
    let p = crate::ast_parser::Parsing::begin(tokens);
    let locals = crate::resolver::Resolution::start().statements(program@, 0)->Ok_0.locals;
    crate::tidy::parse_is_tidy(p);
    crate::tidy::tidy_list_is_neat(program@, 0);
    assert forall|id: usize| crate::resolution::stmt_uses_from(program@, 0, id) <= 1 by {
        crate::numbering::each_reference_has_its_own_number(p, id);
        crate::resolution::stmt_uses_of_list(program@, id);
    }
    crate::resolution::findings_fit_the_program(program@);
    let w = Walk { locals, ..Walk::<'a>::start() };
    start_is_sound(w);
    let c = Context { scopes: Seq::empty(), callers: Seq::empty(), closures: seq![Seq::empty()] };
    load_is_sound(w, c, program);
}

} // verus!
