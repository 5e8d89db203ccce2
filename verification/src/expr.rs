//! The expressions of the syntax tree.
use vstd::prelude::*;
use crate::token::{Literal, Token};

verus! {

pub struct ExprLiteral {
    pub value: Literal,
}

pub struct ExprGrouping {
    pub expression: Box<Expr>,
}

pub struct ExprUnary {
    pub operator: Token,
    pub right: Box<Expr>,
}

pub struct ExprBinary {
    pub left: Box<Expr>,
    pub operator: Token,
    pub right: Box<Expr>,
}

pub struct ExprLogical {
    pub left: Box<Expr>,
    pub operator: Token,
    pub right: Box<Expr>,
}

/// A variable that is read. The number tells this occurrence from every
/// other reference to a variable in the program.
pub struct ExprVariable {
    pub id: usize,
    pub name: Token,
}

/// A variable that is assigned to; numbered like a variable that is read.
pub struct ExprAssign {
    pub id: usize,
    pub name: Token,
    pub value: Box<Expr>,
}

pub struct ExprCall {
    pub callee: Box<Expr>,
    /// The closing parenthesis, which places errors of the call.
    pub paren: Token,
    pub arguments: Vec<Expr>,
}

pub enum Expr {
    Literal(ExprLiteral),
    Grouping(ExprGrouping),
    Unary(ExprUnary),
    Binary(ExprBinary),
    Logical(ExprLogical),
    Variable(ExprVariable),
    Assign(ExprAssign),
    Call(ExprCall),
}

} // verus!

verus! {

/// What an expression says: the tree, with the text of its tokens.
pub enum ExprView {
    Literal(crate::token::LiteralView),
    Grouping(Box<ExprView>),
    Unary(crate::token::TokenView, Box<ExprView>),
    Binary(Box<ExprView>, crate::token::TokenView, Box<ExprView>),
    Logical(Box<ExprView>, crate::token::TokenView, Box<ExprView>),
    Variable(usize, crate::token::TokenView),
    Assign(usize, crate::token::TokenView, Box<ExprView>),
    Call(Box<ExprView>, crate::token::TokenView, Seq<ExprView>),
}

/// The view of an expression.
pub open spec fn expr_view(expression: &Expr) -> ExprView
    decreases expression,
{
    match expression {
        Expr::Literal(e) => ExprView::Literal(e.value@),
        Expr::Grouping(e) => ExprView::Grouping(Box::new(expr_view(&*e.expression))),
        Expr::Unary(e) => ExprView::Unary(e.operator@, Box::new(expr_view(&*e.right))),
        Expr::Binary(e) => ExprView::Binary(
            Box::new(expr_view(&*e.left)),
            e.operator@,
            Box::new(expr_view(&*e.right)),
        ),
        Expr::Logical(e) => ExprView::Logical(
            Box::new(expr_view(&*e.left)),
            e.operator@,
            Box::new(expr_view(&*e.right)),
        ),
        Expr::Variable(e) => ExprView::Variable(e.id, e.name@),
        Expr::Assign(e) => ExprView::Assign(e.id, e.name@, Box::new(expr_view(&*e.value))),
        Expr::Call(e) => ExprView::Call(
            Box::new(expr_view(&*e.callee)),
            e.paren@,
            expr_views(e.arguments@, e.arguments@.len() as int),
        ),
    }
}

/// The views of the first `upto` expressions of a list.
pub open spec fn expr_views(list: Seq<Expr>, upto: int) -> Seq<ExprView>
    decreases list, upto,
{
    if upto <= 0 || upto > list.len() {
        Seq::empty()
    } else {
        expr_views(list, upto - 1).push(expr_view(&list[upto - 1]))
    }
}

impl View for Expr {
    type V = ExprView;

    open spec fn view(&self) -> ExprView {
        expr_view(self)
    }
}

/// The views of a list do not depend on what follows the list.
pub proof fn expr_views_of_prefix(list: Seq<Expr>, longer: Seq<Expr>, upto: int)
    requires
        0 <= upto <= list.len() <= longer.len(),
        forall|i: int| 0 <= i < list.len() ==> list[i] == longer[i],
    ensures
        expr_views(longer, upto) == expr_views(list, upto),
    decreases upto,
{
    if upto > 0 {
        expr_views_of_prefix(list, longer, upto - 1);
    }
}

/// Adding an expression to a list adds its view to the views.
pub proof fn expr_views_push(list: Seq<Expr>, last: Expr)
    ensures
        expr_views(list.push(last), list.len() as int + 1) == expr_views(list, list.len() as int).push(
            expr_view(&last),
        ),
{
    expr_views_of_prefix(list, list.push(last), list.len() as int);
}

} // verus!
