//! What the resolver finds fits the program that it resolves.
use vstd::prelude::*;
use crate::expr::{expr_view, Expr};
use crate::numbering::{stmt_uses, uses};
use crate::resolver::{found_is_innermost, FunctionType, Resolution};
use crate::scoping::{after_all_keeps_outer, expr_ok, exprs_ok, marked, params_scope, plain, scopes_after, scopes_after_all, stmt_ok, stmts_ok, Static};
use crate::stmt::{stmt_view, Stmt, StmtFunction};
use crate::token::Token;

verus! {

/// Whether two findings say the same of a reference.
pub open spec fn same_at(a: Map<usize, usize>, b: Map<usize, usize>, id: usize) -> bool {
    a.contains_key(id) == b.contains_key(id) && (a.contains_key(id) ==> a[id] == b[id])
}

/// How many references in the expressions of a list, from a place on, have
/// the number.
pub open spec fn uses_from(list: Seq<Expr>, from: int, id: usize) -> nat
    decreases list.len() - from,
{
    if 0 <= from < list.len() {
        uses(expr_view(&list[from]), id) + uses_from(list, from + 1, id)
    } else {
        0
    }
}

/// The same for the statements of a list.
pub open spec fn stmt_uses_from(list: Seq<Stmt>, from: int, id: usize) -> nat
    decreases list.len() - from,
{
    if 0 <= from < list.len() {
        stmt_uses(stmt_view(&list[from]), id) + stmt_uses_from(list, from + 1, id)
    } else {
        0
    }
}

/// Whether every variable in the scopes but the innermost is ready.
pub open spec fn outer_ready(g: Static) -> bool {
    forall|i: int, name: Seq<char>|
        0 <= i < g.len() - 1 && (#[trigger] g[i].contains_key(name)) ==> g[i][name]
}

/// Whether every variable in the scopes is ready.
pub open spec fn all_ready(g: Static) -> bool {
    forall|i: int, name: Seq<char>| 0 <= i < g.len() && (#[trigger] g[i].contains_key(name)) ==> g[i][name]
}

/// The uses of the expressions of a list are those of its views.
pub proof fn uses_from_is_uses_all(list: Seq<Expr>, from: int, id: usize)
    requires
        0 <= from <= list.len(),
    ensures
        crate::numbering::uses_all(
            crate::expr::expr_views(list, list.len() as int),
            list.len(),
            id,
        ) == crate::numbering::uses_all(
            crate::expr::expr_views(list, list.len() as int),
            from as nat,
            id,
        ) + uses_from(list, from, id),
    decreases list.len() - from,
{
    let views = crate::expr::expr_views(list, list.len() as int);
    crate::ast_parser::expr_views_length(list, list.len() as int);
    if from < list.len() {
        uses_from_is_uses_all(list, from + 1, id);
        crate::ast_printer::views_at(list, list.len() as int, from);
        assert(crate::numbering::uses_all(views, (from + 1) as nat, id)
            == crate::numbering::uses_all(views, from as nat, id) + uses(views[from], id));
    }
}

/// Findings that say the same of the references of an expression fit it
/// alike.
pub proof fn expr_ok_agrees(g: Static, e: &Expr, a: Map<usize, usize>, b: Map<usize, usize>)
    requires
        expr_ok(g, e, a),
        forall|id: usize| uses(expr_view(e), id) > 0 ==> same_at(a, b, id),
    ensures
        expr_ok(g, e, b),
    decreases e,
{
    match e {
        Expr::Literal(_) => {},
        Expr::Grouping(x) => {
            assert forall|id: usize| uses(expr_view(&*x.expression), id) > 0 implies same_at(
                a,
                b,
                id,
            ) by {
                assert(uses(expr_view(e), id) > 0);
            }
            expr_ok_agrees(g, &*x.expression, a, b);
        },
        Expr::Unary(x) => {
            assert forall|id: usize| uses(expr_view(&*x.right), id) > 0 implies same_at(
                a,
                b,
                id,
            ) by {
                assert(uses(expr_view(e), id) > 0);
            }
            expr_ok_agrees(g, &*x.right, a, b);
        },
        Expr::Binary(x) => {
            assert forall|id: usize| uses(expr_view(&*x.left), id) > 0 implies same_at(
                a,
                b,
                id,
            ) by {
                assert(uses(expr_view(e), id) > 0);
            }
            assert forall|id: usize| uses(expr_view(&*x.right), id) > 0 implies same_at(
                a,
                b,
                id,
            ) by {
                assert(uses(expr_view(e), id) > 0);
            }
            expr_ok_agrees(g, &*x.left, a, b);
            expr_ok_agrees(g, &*x.right, a, b);
        },
        Expr::Logical(x) => {
            assert forall|id: usize| uses(expr_view(&*x.left), id) > 0 implies same_at(
                a,
                b,
                id,
            ) by {
                assert(uses(expr_view(e), id) > 0);
            }
            assert forall|id: usize| uses(expr_view(&*x.right), id) > 0 implies same_at(
                a,
                b,
                id,
            ) by {
                assert(uses(expr_view(e), id) > 0);
            }
            expr_ok_agrees(g, &*x.left, a, b);
            expr_ok_agrees(g, &*x.right, a, b);
        },
        Expr::Variable(x) => {
            assert(uses(expr_view(e), x.id) > 0);
            assert(same_at(a, b, x.id));
        },
        Expr::Assign(x) => {
            assert(uses(expr_view(e), x.id) > 0);
            assert(same_at(a, b, x.id));
            assert forall|id: usize| uses(expr_view(&*x.value), id) > 0 implies same_at(
                a,
                b,
                id,
            ) by {
                assert(uses(expr_view(e), id) > 0);
            }
            expr_ok_agrees(g, &*x.value, a, b);
        },
        Expr::Call(x) => {
            crate::ast_parser::expr_views_length(x.arguments@, x.arguments@.len() as int);
            assert forall|id: usize| uses(expr_view(&*x.callee), id) > 0 implies same_at(
                a,
                b,
                id,
            ) by {
                assert(uses(expr_view(e), id) > 0);
            }
            expr_ok_agrees(g, &*x.callee, a, b);
            assert forall|id: usize| uses_from(x.arguments@, 0, id) > 0 implies same_at(
                a,
                b,
                id,
            ) by {
                uses_from_is_uses_all(x.arguments@, 0, id);
                assert(uses(expr_view(e), id) > 0);
            }
            exprs_ok_agree(g, x.arguments@, 0, a, b);
        },
    }
}

pub proof fn exprs_ok_agree(g: Static, list: Seq<Expr>, from: int, a: Map<usize, usize>, b: Map<usize, usize>)
    requires
        0 <= from,
        exprs_ok(g, list, from, a),
        forall|id: usize| uses_from(list, from, id) > 0 ==> same_at(a, b, id),
    ensures
        exprs_ok(g, list, from, b),
    decreases list, list.len() - from,
{
    if from < list.len() {
        let next = from + 1;
        assert forall|id: usize| uses(expr_view(&list[from]), id) > 0 implies same_at(
            a,
            b,
            id,
        ) by {
            assert(uses_from(list, from, id) > 0);
        }
        assert forall|id: usize| uses_from(list, next, id) > 0 implies same_at(a, b, id) by {
            assert(uses_from(list, from, id) > 0);
        }
        expr_ok_agrees(g, &list[from], a, b);
        exprs_ok_agree(g, list, next, a, b);
    }
}

/// What resolving leaves as it was: the scopes and whether the code lies
/// in a function.
pub open spec fn stays(r: Resolution, after: Resolution) -> bool {
    after.scopes == r.scopes && after.current_function == r.current_function
}

/// Whether findings can take references that are counted by `count`:
/// there is one at most, and the findings do not hold its number.
pub open spec fn takes(count: nat, l: Map<usize, usize>, id: usize) -> bool {
    count <= 1 && (count > 0 ==> !l.contains_key(id))
}

/// Resolving an expression leaves the scopes, and the findings for every
/// number that no reference of the expression has.
pub proof fn expression_keeps(r: Resolution, e: &Expr, id: usize)
    requires
        r.expression(e) is Ok,
    ensures
        stays(r, r.expression(e)->Ok_0),
        uses(expr_view(e), id) == 0 ==> same_at(r.expression(e)->Ok_0.locals, r.locals, id),
    decreases e,
{
    match e {
        Expr::Literal(_) => {},
        Expr::Grouping(x) => {
            expression_keeps(r, &*x.expression, id);
        },
        Expr::Unary(x) => {
            expression_keeps(r, &*x.right, id);
        },
        Expr::Binary(x) => {
            expression_keeps(r, &*x.left, id);
            expression_keeps(r.expression(&*x.left)->Ok_0, &*x.right, id);
        },
        Expr::Logical(x) => {
            expression_keeps(r, &*x.left, id);
            expression_keeps(r.expression(&*x.left)->Ok_0, &*x.right, id);
        },
        Expr::Variable(x) => {},
        Expr::Assign(x) => {
            expression_keeps(r, &*x.value, id);
        },
        Expr::Call(x) => {
            crate::ast_parser::expr_views_length(x.arguments@, x.arguments@.len() as int);
            uses_from_is_uses_all(x.arguments@, 0, id);
            expression_keeps(r, &*x.callee, id);
            expressions_keep(r.expression(&*x.callee)->Ok_0, x.arguments@, 0, id);
        },
    }
}

pub proof fn expressions_keep(r: Resolution, list: Seq<Expr>, from: int, id: usize)
    requires
        0 <= from,
        r.expressions(list, from) is Ok,
    ensures
        stays(r, r.expressions(list, from)->Ok_0),
        uses_from(list, from, id) == 0 ==> same_at(
            r.expressions(list, from)->Ok_0.locals,
            r.locals,
            id,
        ),
    decreases list, list.len() - from,
{
    if from < list.len() {
        expression_keeps(r, &list[from], id);
        expressions_keep(r.expression(&list[from])->Ok_0, list, from + 1, id);
    }
}

/// The findings of resolving an expression fit it, if they could take its
/// references and every variable outside the innermost scope is ready.
pub proof fn expression_fits(r: Resolution, e: &Expr)
    requires
        r.expression(e) is Ok,
        outer_ready(r.scopes),
        forall|id: usize| takes(uses(expr_view(e), id), r.locals, id),
    ensures
        expr_ok(r.scopes, e, r.expression(e)->Ok_0.locals),
    decreases e,
{
    let after = r.expression(e)->Ok_0;
    match e {
        Expr::Literal(_) => {},
        Expr::Grouping(x) => {
            assert forall|id: usize| takes(uses(expr_view(&*x.expression), id), r.locals, id) by {
                assert(takes(uses(expr_view(e), id), r.locals, id));
            }
            expression_fits(r, &*x.expression);
        },
        Expr::Unary(x) => {
            assert forall|id: usize| takes(uses(expr_view(&*x.right), id), r.locals, id) by {
                assert(takes(uses(expr_view(e), id), r.locals, id));
            }
            expression_fits(r, &*x.right);
        },
        Expr::Binary(x) => {
            assert forall|id: usize|
                takes(
                    uses(expr_view(&*x.left), id) + uses(expr_view(&*x.right), id),
                    r.locals,
                    id,
                ) by {
                assert(takes(uses(expr_view(e), id), r.locals, id));
            }
            two_fit(r, &*x.left, &*x.right, e);
        },
        Expr::Logical(x) => {
            assert forall|id: usize|
                takes(
                    uses(expr_view(&*x.left), id) + uses(expr_view(&*x.right), id),
                    r.locals,
                    id,
                ) by {
                assert(takes(uses(expr_view(e), id), r.locals, id));
            }
            two_fit(r, &*x.left, &*x.right, e);
        },
        Expr::Variable(x) => {
            found_is_innermost(r.scopes, x.name.lexeme@, r.scopes.len() as int);
            assert(takes(uses(expr_view(e), x.id), r.locals, x.id));
        },
        Expr::Assign(x) => {
            let mid = r.expression(&*x.value)->Ok_0;
            assert(takes(uses(expr_view(e), x.id), r.locals, x.id));
            assert forall|id: usize| takes(uses(expr_view(&*x.value), id), r.locals, id) by {
                assert(takes(uses(expr_view(e), id), r.locals, id));
            }
            expression_fits(r, &*x.value);
            expression_keeps(r, &*x.value, x.id);
            assert forall|id: usize| uses(expr_view(&*x.value), id) > 0 implies same_at(
                mid.locals,
                after.locals,
                id,
            ) by {
                assert(takes(uses(expr_view(e), id), r.locals, id));
            }
            expr_ok_agrees(r.scopes, &*x.value, mid.locals, after.locals);
        },
        Expr::Call(x) => {
            let mid = r.expression(&*x.callee)->Ok_0;
            crate::ast_parser::expr_views_length(x.arguments@, x.arguments@.len() as int);
            assert forall|id: usize|
                uses(expr_view(e), id) == uses(expr_view(&*x.callee), id) + uses_from(
                    x.arguments@,
                    0,
                    id,
                ) by {
                uses_from_is_uses_all(x.arguments@, 0, id);
            }
            assert forall|id: usize| takes(uses(expr_view(&*x.callee), id), r.locals, id) by {
                assert(takes(uses(expr_view(e), id), r.locals, id));
            }
            expression_fits(r, &*x.callee);
            assert forall|id: usize| takes(uses_from(x.arguments@, 0, id), mid.locals, id) by {
                assert(takes(uses(expr_view(e), id), r.locals, id));
                expression_keeps(r, &*x.callee, id);
            }
            expression_keeps(r, &*x.callee, 0);
            expressions_fit(mid, x.arguments@, 0);
            assert forall|id: usize| uses(expr_view(&*x.callee), id) > 0 implies same_at(
                mid.locals,
                after.locals,
                id,
            ) by {
                assert(takes(uses(expr_view(e), id), r.locals, id));
                expressions_keep(mid, x.arguments@, 0, id);
            }
            expr_ok_agrees(r.scopes, &*x.callee, mid.locals, after.locals);
        },
    }
}

/// The two operands of an operator, resolved one after the other.
pub proof fn two_fit(r: Resolution, first: &Expr, second: &Expr, whole: &Expr)
    requires
        r.expression(first) is Ok,
        r.expression(first)->Ok_0.expression(second) is Ok,
        outer_ready(r.scopes),
        forall|id: usize|
            takes(uses(expr_view(first), id) + uses(expr_view(second), id), r.locals, id),
        decreases_to!(whole => first),
        decreases_to!(whole => second),
    ensures
        expr_ok(r.scopes, first, r.expression(first)->Ok_0.expression(second)->Ok_0.locals),
        expr_ok(r.scopes, second, r.expression(first)->Ok_0.expression(second)->Ok_0.locals),
    decreases whole, 0nat,
{
    let mid = r.expression(first)->Ok_0;
    let after = mid.expression(second)->Ok_0;
    assert forall|id: usize| takes(uses(expr_view(first), id), r.locals, id) by {
        assert(takes(uses(expr_view(first), id) + uses(expr_view(second), id), r.locals, id));
    }
    expression_fits(r, first);
    expression_keeps(r, first, 0);
    assert forall|id: usize| takes(uses(expr_view(second), id), mid.locals, id) by {
        assert(takes(uses(expr_view(first), id) + uses(expr_view(second), id), r.locals, id));
        expression_keeps(r, first, id);
    }
    expression_fits(mid, second);
    assert forall|id: usize| uses(expr_view(first), id) > 0 implies same_at(
        mid.locals,
        after.locals,
        id,
    ) by {
        assert(takes(uses(expr_view(first), id) + uses(expr_view(second), id), r.locals, id));
        expression_keeps(mid, second, id);
    }
    expr_ok_agrees(r.scopes, first, mid.locals, after.locals);
}

pub proof fn expressions_fit(r: Resolution, list: Seq<Expr>, from: int)
    requires
        0 <= from,
        r.expressions(list, from) is Ok,
        outer_ready(r.scopes),
        forall|id: usize| takes(uses_from(list, from, id), r.locals, id),
    ensures
        exprs_ok(r.scopes, list, from, r.expressions(list, from)->Ok_0.locals),
    decreases list, list.len() - from,
{
    if from < list.len() {
        let mid = r.expression(&list[from])->Ok_0;
        let after = r.expressions(list, from)->Ok_0;
        let next = from + 1;
        assert forall|id: usize| takes(uses(expr_view(&list[from]), id), r.locals, id) by {
            assert(takes(uses_from(list, from, id), r.locals, id));
        }
        expression_fits(r, &list[from]);
        expression_keeps(r, &list[from], 0);
        assert forall|id: usize| takes(uses_from(list, next, id), mid.locals, id) by {
            assert(takes(uses_from(list, from, id), r.locals, id));
            expression_keeps(r, &list[from], id);
        }
        expressions_fit(mid, list, next);
        assert forall|id: usize| uses(expr_view(&list[from]), id) > 0 implies same_at(
            mid.locals,
            after.locals,
            id,
        ) by {
            assert(takes(uses_from(list, from, id), r.locals, id));
            expressions_keep(mid, list, next, id);
        }
        expr_ok_agrees(r.scopes, &list[from], mid.locals, after.locals);
    }
}

} // verus!

verus! {

/// Whether no branch of an `if` and no body of a loop in a statement is a
/// declaration.
pub open spec fn neat(s: &Stmt) -> bool
    decreases s, 0nat,
{
    match s {
        Stmt::Block(x) => neat_from(x.statements@, 0),
        Stmt::If(x) => plain(&*x.then_branch) && neat(&*x.then_branch) && match &x.else_branch {
            Some(other) => plain(&**other) && neat(&**other),
            None => true,
        },
        Stmt::While(x) => plain(&*x.body) && neat(&*x.body),
        Stmt::Function(x) => neat_from(x.body@, 0),
        _ => true,
    }
}

/// The same for the statements of a list, from a place on.
pub open spec fn neat_from(list: Seq<Stmt>, from: int) -> bool
    decreases list, list.len() - from,
{
    if 0 <= from < list.len() {
        neat(&list[from]) && neat_from(list, from + 1)
    } else {
        true
    }
}

/// A list has as many views as it has statements.
pub proof fn stmt_views_length(list: Seq<Stmt>, upto: int)
    requires
        0 <= upto <= list.len(),
    ensures
        crate::stmt::stmt_views(list, upto).len() == upto,
    decreases upto,
{
    if upto > 0 {
        stmt_views_length(list, upto - 1);
    }
}

/// The view at a place of a list is the view of the statement there.
pub proof fn stmt_views_at(list: Seq<Stmt>, upto: int, i: int)
    requires
        0 <= i < upto <= list.len(),
    ensures
        crate::stmt::stmt_views(list, upto)[i] == stmt_view(&list[i]),
    decreases upto,
{
    stmt_views_length(list, upto - 1);
    if i < upto - 1 {
        stmt_views_at(list, upto - 1, i);
    }
}

/// The uses of the statements of a list are those of its views.
pub proof fn stmt_uses_from_is_all(list: Seq<Stmt>, from: int, id: usize)
    requires
        0 <= from <= list.len(),
    ensures
        crate::numbering::stmt_uses_all(
            crate::stmt::stmt_views(list, list.len() as int),
            list.len(),
            id,
        ) == crate::numbering::stmt_uses_all(
            crate::stmt::stmt_views(list, list.len() as int),
            from as nat,
            id,
        ) + stmt_uses_from(list, from, id),
    decreases list.len() - from,
{
    let views = crate::stmt::stmt_views(list, list.len() as int);
    stmt_views_length(list, list.len() as int);
    if from < list.len() {
        stmt_uses_from_is_all(list, from + 1, id);
        stmt_views_at(list, list.len() as int, from);
        assert(crate::numbering::stmt_uses_all(views, (from + 1) as nat, id)
            == crate::numbering::stmt_uses_all(views, from as nat, id) + stmt_uses(
            views[from],
            id,
        ));
    }
}

/// The uses of a block, a function or a whole program are those of its
/// statements.
pub proof fn stmt_uses_of_list(list: Seq<Stmt>, id: usize)
    ensures
        crate::numbering::stmt_uses_all(
            crate::stmt::stmt_views(list, list.len() as int),
            crate::stmt::stmt_views(list, list.len() as int).len(),
            id,
        ) == stmt_uses_from(list, 0, id),
{
    stmt_views_length(list, list.len() as int);
    stmt_uses_from_is_all(list, 0, id);
}

/// A variable that is declared and then made ready is ready.
pub proof fn remark(g: Static, name: Seq<char>)
    ensures
        marked(marked(g, name, false), name, true) == marked(g, name, true),
{
    if g.len() > 0 {
        assert(g.last().insert(name, false).insert(name, true) =~= g.last().insert(name, true));
    }
    assert(marked(marked(g, name, false), name, true) =~= marked(g, name, true));
}

/// Findings that say the same of the references of a statement fit it
/// alike.
pub proof fn stmt_ok_agrees(g: Static, s: &Stmt, a: Map<usize, usize>, b: Map<usize, usize>)
    requires
        stmt_ok(g, s, a),
        forall|id: usize| stmt_uses(stmt_view(s), id) > 0 ==> same_at(a, b, id),
    ensures
        stmt_ok(g, s, b),
    decreases s, 0nat,
{
    match s {
        Stmt::Expression(x) => {
            assert forall|id: usize| uses(expr_view(&x.expression), id) > 0 implies same_at(
                a,
                b,
                id,
            ) by {
                assert(stmt_uses(stmt_view(s), id) > 0);
            }
            expr_ok_agrees(g, &x.expression, a, b);
        },
        Stmt::Print(x) => {
            assert forall|id: usize| uses(expr_view(&x.expression), id) > 0 implies same_at(
                a,
                b,
                id,
            ) by {
                assert(stmt_uses(stmt_view(s), id) > 0);
            }
            expr_ok_agrees(g, &x.expression, a, b);
        },
        Stmt::Var(x) => match &x.initializer {
            Some(e) => {
                assert forall|id: usize| uses(expr_view(e), id) > 0 implies same_at(a, b, id) by {
                    assert(stmt_uses(stmt_view(s), id) > 0);
                }
                expr_ok_agrees(marked(g, x.name.lexeme@, false), e, a, b);
            },
            None => {},
        },
        Stmt::Block(x) => {
            assert forall|id: usize| stmt_uses_from(x.statements@, 0, id) > 0 implies same_at(
                a,
                b,
                id,
            ) by {
                stmt_uses_of_list(x.statements@, id);
                assert(stmt_uses(stmt_view(s), id) > 0);
            }
            stmts_ok_agree(g.push(Map::empty()), x.statements@, 0, a, b);
        },
        Stmt::If(x) => {
            assert forall|id: usize| uses(expr_view(&x.condition), id) > 0 implies same_at(
                a,
                b,
                id,
            ) by {
                assert(stmt_uses(stmt_view(s), id) > 0);
            }
            expr_ok_agrees(g, &x.condition, a, b);
            assert forall|id: usize| stmt_uses(stmt_view(&*x.then_branch), id) > 0 implies same_at(
                a,
                b,
                id,
            ) by {
                assert(stmt_uses(stmt_view(s), id) > 0);
            }
            stmt_ok_agrees(g, &*x.then_branch, a, b);
            match &x.else_branch {
                Some(other) => {
                    assert forall|id: usize| stmt_uses(stmt_view(&**other), id) > 0 implies same_at(
                        a,
                        b,
                        id,
                    ) by {
                        assert(stmt_uses(stmt_view(s), id) > 0);
                    }
                    stmt_ok_agrees(g, &**other, a, b);
                },
                None => {},
            }
        },
        Stmt::While(x) => {
            assert forall|id: usize| uses(expr_view(&x.condition), id) > 0 implies same_at(
                a,
                b,
                id,
            ) by {
                assert(stmt_uses(stmt_view(s), id) > 0);
            }
            expr_ok_agrees(g, &x.condition, a, b);
            assert forall|id: usize| stmt_uses(stmt_view(&*x.body), id) > 0 implies same_at(
                a,
                b,
                id,
            ) by {
                assert(stmt_uses(stmt_view(s), id) > 0);
            }
            stmt_ok_agrees(g, &*x.body, a, b);
        },
        Stmt::Function(x) => {
            assert forall|id: usize| stmt_uses_from(x.body@, 0, id) > 0 implies same_at(
                a,
                b,
                id,
            ) by {
                stmt_uses_of_list(x.body@, id);
                assert(stmt_uses(stmt_view(s), id) > 0);
            }
            stmts_ok_agree(
                marked(g, x.name.lexeme@, true).push(params_scope(x.params@, x.params@.len())),
                x.body@,
                0,
                a,
                b,
            );
        },
        Stmt::Return(x) => match &x.value {
            Some(e) => {
                assert forall|id: usize| uses(expr_view(e), id) > 0 implies same_at(a, b, id) by {
                    assert(stmt_uses(stmt_view(s), id) > 0);
                }
                expr_ok_agrees(g, e, a, b);
            },
            None => {},
        },
    }
}

pub proof fn stmts_ok_agree(g: Static, list: Seq<Stmt>, from: int, a: Map<usize, usize>, b: Map<usize, usize>)
    requires
        0 <= from,
        stmts_ok(g, list, from, a),
        forall|id: usize| stmt_uses_from(list, from, id) > 0 ==> same_at(a, b, id),
    ensures
        stmts_ok(g, list, from, b),
    decreases list, list.len() - from,
{
    if from < list.len() {
        let next = from + 1;
        assert forall|id: usize| stmt_uses(stmt_view(&list[from]), id) > 0 implies same_at(
            a,
            b,
            id,
        ) by {
            assert(stmt_uses_from(list, from, id) > 0);
        }
        assert forall|id: usize| stmt_uses_from(list, next, id) > 0 implies same_at(a, b, id) by {
            assert(stmt_uses_from(list, from, id) > 0);
        }
        stmt_ok_agrees(g, &list[from], a, b);
        stmts_ok_agree(scopes_after(g, &list[from]), list, next, a, b);
    }
}

/// Resolving the parameters of a function adds them, ready, to the
/// innermost scope, and changes nothing else.
pub proof fn parameters_keep(r: Resolution, params: Seq<Token>, from: int)
    requires
        0 <= from <= params.len(),
        r.scopes.len() > 0,
        r.scopes.last() == params_scope(params, from as nat),
        r.parameters(params, from) is Ok,
    ensures
        r.parameters(params, from)->Ok_0.scopes == r.scopes.drop_last().push(
            params_scope(params, params.len()),
        ),
        r.parameters(params, from)->Ok_0.locals == r.locals,
        r.parameters(params, from)->Ok_0.current_function == r.current_function,
    decreases params.len() - from,
{
    if from < params.len() {
        let name = params[from].lexeme@;
        let declared = r.declare(&params[from])->Ok_0;
        let defined = declared.define(&params[from]);
        assert(r.scopes.last().insert(name, false).insert(name, true) =~= r.scopes.last().insert(
            name,
            true,
        ));
        assert(defined.scopes.last() == params_scope(params, (from + 1) as nat));
        assert(defined.scopes.drop_last() =~= r.scopes.drop_last());
        parameters_keep(defined, params, from + 1);
    } else {
        assert(r.scopes.drop_last().push(r.scopes.last()) =~= r.scopes);
    }
}

/// Every parameter is ready.
pub proof fn parameters_are_ready(params: Seq<Token>, count: nat, name: Seq<char>)
    requires
        count <= params.len(),
    ensures
        params_scope(params, count).contains_key(name) ==> params_scope(params, count)[name],
    decreases count,
{
    if count > 0 {
        parameters_are_ready(params, (count - 1) as nat, name);
    }
}

/// What resolving a statement without an error keeps: it leaves the scopes
/// that the statement leaves, in which every variable is ready if it was
/// before, and the findings for every number that no reference of the
/// statement has.
pub open spec fn kept(r: Resolution, leaves: Static, count: nat, after: Resolution, id: usize) -> bool {
    &&& after.scopes == leaves
    &&& after.current_function == r.current_function
    &&& (count == 0 ==> same_at(after.locals, r.locals, id))
    &&& (all_ready(r.scopes) ==> all_ready(after.scopes))
}

pub proof fn statement_keeps(r: Resolution, s: &Stmt, id: usize)
    requires
        r.statement(s) is Ok,
        neat(s),
    ensures
        kept(
            r,
            scopes_after(r.scopes, s),
            stmt_uses(stmt_view(s), id),
            r.statement(s)->Ok_0,
            id,
        ),
    decreases s, 0nat,
{
    let g = r.scopes;
    match s {
        Stmt::Expression(x) => {
            expression_keeps(r, &x.expression, id);
        },
        Stmt::Print(x) => {
            expression_keeps(r, &x.expression, id);
        },
        Stmt::Var(x) => {
            let declared = r.declare(&x.name)->Ok_0;
            remark(g, x.name.lexeme@);
            match &x.initializer {
                Some(e) => {
                    expression_keeps(declared, e, id);
                },
                None => {},
            }
        },
        Stmt::Block(x) => {
            let inside = r.begin_scope();
            stmt_uses_of_list(x.statements@, id);
            statements_keep(inside, x.statements@, 0, id);
            after_all_keeps_outer(inside.scopes, x.statements@, 0);
            assert(inside.scopes.drop_last() =~= g);
            let done = inside.statements(x.statements@, 0)->Ok_0;
            if all_ready(g) {
                assert(all_ready(inside.scopes));
                assert(all_ready(done.scopes.drop_last()));
            }
        },
        Stmt::If(x) => {
            expression_keeps(r, &x.condition, id);
            let c1 = r.expression(&x.condition)->Ok_0;
            statement_keeps(c1, &*x.then_branch, id);
            let c2 = c1.statement(&*x.then_branch)->Ok_0;
            match &x.else_branch {
                Some(other) => {
                    statement_keeps(c2, &**other, id);
                },
                None => {},
            }
        },
        Stmt::While(x) => {
            expression_keeps(r, &x.condition, id);
            statement_keeps(r.expression(&x.condition)->Ok_0, &*x.body, id);
        },
        Stmt::Function(x) => {
            let declared = r.declare(&x.name)->Ok_0;
            let defined = declared.define(&x.name);
            remark(g, x.name.lexeme@);
            assert(defined.scopes == marked(g, x.name.lexeme@, true));
            function_keeps(defined, x, id);
            stmt_uses_of_list(x.body@, id);
        },
        Stmt::Return(x) => match &x.value {
            Some(e) => {
                expression_keeps(r, e, id);
            },
            None => {},
        },
    }
}

/// Resolving a function leaves the scopes, and the findings for every
/// number that no reference of its body has.
pub proof fn function_keeps(r: Resolution, declaration: &StmtFunction, id: usize)
    requires
        r.function(declaration) is Ok,
        neat_from(declaration.body@, 0),
    ensures
        kept(r, r.scopes, stmt_uses_from(declaration.body@, 0, id), r.function(declaration)->Ok_0, id),
    decreases declaration, 0nat,
{
    let inside = Resolution { current_function: FunctionType::Function, ..r }.begin_scope();
    let params = declaration.params@;
    parameters_keep(inside, params, 0);
    let bound = inside.parameters(params, 0)->Ok_0;
    assert(inside.scopes.drop_last() =~= r.scopes);
    statements_keep(bound, declaration.body@, 0, id);
    after_all_keeps_outer(bound.scopes, declaration.body@, 0);
    assert(bound.scopes.drop_last() =~= r.scopes);
}

pub proof fn statements_keep(r: Resolution, list: Seq<Stmt>, from: int, id: usize)
    requires
        0 <= from,
        r.statements(list, from) is Ok,
        neat_from(list, from),
    ensures
        kept(
            r,
            scopes_after_all(r.scopes, list, from),
            stmt_uses_from(list, from, id),
            r.statements(list, from)->Ok_0,
            id,
        ),
    decreases list, list.len() - from,
{
    if from < list.len() {
        statement_keeps(r, &list[from], id);
        statements_keep(r.statement(&list[from])->Ok_0, list, from + 1, id);
    }
}

} // verus!

verus! {

/// The findings of resolving a statement fit it, if they could take its
/// references, every variable in the scopes is ready, and no branch or
/// body in it is a declaration.
pub proof fn statement_fits(r: Resolution, s: &Stmt)
    requires
        r.statement(s) is Ok,
        neat(s),
        all_ready(r.scopes),
        forall|id: usize| takes(stmt_uses(stmt_view(s), id), r.locals, id),
    ensures
        stmt_ok(r.scopes, s, r.statement(s)->Ok_0.locals),
    decreases s, 0nat,
{
    let g = r.scopes;
    let after = r.statement(s)->Ok_0;
    match s {
        Stmt::Expression(x) => {
            assert forall|id: usize| takes(uses(expr_view(&x.expression), id), r.locals, id) by {
                assert(takes(stmt_uses(stmt_view(s), id), r.locals, id));
            }
            expression_fits(r, &x.expression);
        },
        Stmt::Print(x) => {
            assert forall|id: usize| takes(uses(expr_view(&x.expression), id), r.locals, id) by {
                assert(takes(stmt_uses(stmt_view(s), id), r.locals, id));
            }
            expression_fits(r, &x.expression);
        },
        Stmt::Var(x) => {
            let declared = r.declare(&x.name)->Ok_0;
            match &x.initializer {
                Some(e) => {
                    assert forall|id: usize| takes(uses(expr_view(e), id), declared.locals, id) by {
                        assert(takes(stmt_uses(stmt_view(s), id), r.locals, id));
                    }
                    assert(declared.scopes == marked(g, x.name.lexeme@, false));
                    expression_fits(declared, e);
                },
                None => {},
            }
        },
        Stmt::Block(x) => {
            let inside = r.begin_scope();
            assert forall|id: usize| takes(
                stmt_uses_from(x.statements@, 0, id),
                inside.locals,
                id,
            ) by {
                stmt_uses_of_list(x.statements@, id);
                assert(takes(stmt_uses(stmt_view(s), id), r.locals, id));
            }
            assert(all_ready(inside.scopes));
            statements_fit(inside, x.statements@, 0);
        },
        Stmt::If(x) => {
            let c1 = r.expression(&x.condition)->Ok_0;
            let c2 = c1.statement(&*x.then_branch)->Ok_0;
            assert forall|id: usize| takes(uses(expr_view(&x.condition), id), r.locals, id) by {
                assert(takes(stmt_uses(stmt_view(s), id), r.locals, id));
            }
            expression_fits(r, &x.condition);
            expression_keeps(r, &x.condition, 0);
            assert forall|id: usize| takes(
                stmt_uses(stmt_view(&*x.then_branch), id),
                c1.locals,
                id,
            ) by {
                assert(takes(stmt_uses(stmt_view(s), id), r.locals, id));
                expression_keeps(r, &x.condition, id);
            }
            statement_fits(c1, &*x.then_branch);
            statement_keeps(c1, &*x.then_branch, 0);
            match &x.else_branch {
                Some(other) => {
                    assert forall|id: usize| takes(
                        stmt_uses(stmt_view(&**other), id),
                        c2.locals,
                        id,
                    ) by {
                        assert(takes(stmt_uses(stmt_view(s), id), r.locals, id));
                        expression_keeps(r, &x.condition, id);
                        statement_keeps(c1, &*x.then_branch, id);
                    }
                    statement_fits(c2, &**other);
                    assert forall|id: usize|
                        stmt_uses(stmt_view(&*x.then_branch), id) > 0 implies same_at(
                        c2.locals,
                        after.locals,
                        id,
                    ) by {
                        assert(takes(stmt_uses(stmt_view(s), id), r.locals, id));
                        statement_keeps(c2, &**other, id);
                    }
                    stmt_ok_agrees(g, &*x.then_branch, c2.locals, after.locals);
                },
                None => {},
            }
            assert forall|id: usize| uses(expr_view(&x.condition), id) > 0 implies same_at(
                c1.locals,
                after.locals,
                id,
            ) by {
                assert(takes(stmt_uses(stmt_view(s), id), r.locals, id));
                statement_keeps(c1, &*x.then_branch, id);
                match &x.else_branch {
                    Some(other) => {
                        statement_keeps(c2, &**other, id);
                    },
                    None => {},
                }
            }
            expr_ok_agrees(g, &x.condition, c1.locals, after.locals);
        },
        Stmt::While(x) => {
            let c1 = r.expression(&x.condition)->Ok_0;
            assert forall|id: usize| takes(uses(expr_view(&x.condition), id), r.locals, id) by {
                assert(takes(stmt_uses(stmt_view(s), id), r.locals, id));
            }
            expression_fits(r, &x.condition);
            expression_keeps(r, &x.condition, 0);
            assert forall|id: usize| takes(stmt_uses(stmt_view(&*x.body), id), c1.locals, id) by {
                assert(takes(stmt_uses(stmt_view(s), id), r.locals, id));
                expression_keeps(r, &x.condition, id);
            }
            statement_fits(c1, &*x.body);
            assert forall|id: usize| uses(expr_view(&x.condition), id) > 0 implies same_at(
                c1.locals,
                after.locals,
                id,
            ) by {
                assert(takes(stmt_uses(stmt_view(s), id), r.locals, id));
                statement_keeps(c1, &*x.body, id);
            }
            expr_ok_agrees(g, &x.condition, c1.locals, after.locals);
        },
        Stmt::Function(x) => {
            let declared = r.declare(&x.name)->Ok_0;
            let defined = declared.define(&x.name);
            remark(g, x.name.lexeme@);
            assert(defined.scopes == marked(g, x.name.lexeme@, true));
            let inside = Resolution {
                current_function: FunctionType::Function,
                ..defined
            }.begin_scope();
            let params = x.params@;
            assert(r.statement(s) == defined.function(x));
            assert(defined.function(x) is Ok);
            assert(inside.parameters(params, 0) is Ok);
            parameters_keep(inside, params, 0);
            let bound = inside.parameters(params, 0)->Ok_0;
            assert(bound.statements(x.body@, 0) is Ok);
            assert(after.locals == bound.statements(x.body@, 0)->Ok_0.locals);
            assert(inside.scopes.drop_last() =~= defined.scopes);
            assert(all_ready(bound.scopes)) by {
                assert forall|i: int, name: Seq<char>|
                    0 <= i < bound.scopes.len() && (#[trigger] bound.scopes[i].contains_key(
                        name,
                    )) implies bound.scopes[i][name] by {
                    if i == bound.scopes.len() - 1 {
                        parameters_are_ready(params, params.len(), name);
                    } else {
                        assert(bound.scopes[i] == defined.scopes[i]);
                    }
                }
            }
            assert forall|id: usize| takes(stmt_uses_from(x.body@, 0, id), bound.locals, id) by {
                stmt_uses_of_list(x.body@, id);
                assert(takes(stmt_uses(stmt_view(s), id), r.locals, id));
            }
            statements_fit(bound, x.body@, 0);
        },
        Stmt::Return(x) => match &x.value {
            Some(e) => {
                assert forall|id: usize| takes(uses(expr_view(e), id), r.locals, id) by {
                    assert(takes(stmt_uses(stmt_view(s), id), r.locals, id));
                }
                expression_fits(r, e);
            },
            None => {},
        },
    }
}

pub proof fn statements_fit(r: Resolution, list: Seq<Stmt>, from: int)
    requires
        0 <= from,
        r.statements(list, from) is Ok,
        neat_from(list, from),
        all_ready(r.scopes),
        forall|id: usize| takes(stmt_uses_from(list, from, id), r.locals, id),
    ensures
        stmts_ok(r.scopes, list, from, r.statements(list, from)->Ok_0.locals),
    decreases list, list.len() - from,
{
    if from < list.len() {
        let mid = r.statement(&list[from])->Ok_0;
        let after = r.statements(list, from)->Ok_0;
        let next = from + 1;
        assert forall|id: usize| takes(stmt_uses(stmt_view(&list[from]), id), r.locals, id) by {
            assert(takes(stmt_uses_from(list, from, id), r.locals, id));
        }
        statement_fits(r, &list[from]);
        statement_keeps(r, &list[from], 0);
        assert forall|id: usize| takes(stmt_uses_from(list, next, id), mid.locals, id) by {
            assert(takes(stmt_uses_from(list, from, id), r.locals, id));
            statement_keeps(r, &list[from], id);
        }
        statements_fit(mid, list, next);
        assert forall|id: usize| stmt_uses(stmt_view(&list[from]), id) > 0 implies same_at(
            mid.locals,
            after.locals,
            id,
        ) by {
            assert(takes(stmt_uses_from(list, from, id), r.locals, id));
            statements_keep(mid, list, next, id);
        }
        stmt_ok_agrees(r.scopes, &list[from], mid.locals, after.locals);
    }
}

/// What the resolver finds fits the program: where a program in which no
/// two references have the same number, and no branch or body is a
/// declaration, resolves without an error, the findings fit it.
pub proof fn findings_fit_the_program(program: Seq<Stmt>)
    requires
        Resolution::start().statements(program, 0) is Ok,
        neat_from(program, 0),
        forall|id: usize| stmt_uses_from(program, 0, id) <= 1,
    ensures
        stmts_ok(
            Seq::empty(),
            program,
            0,
            Resolution::start().statements(program, 0)->Ok_0.locals,
        ),
{
    let r = Resolution::start();
    assert forall|id: usize| takes(stmt_uses_from(program, 0, id), r.locals, id) by {
        assert(stmt_uses_from(program, 0, id) <= 1);
    }
    statements_fit(r, program, 0);
}

} // verus!
