//! The statements of the syntax tree.
use vstd::prelude::*;
use crate::expr::Expr;
use crate::token::Token;

verus! {

pub struct StmtExpression {
    pub expression: Expr,
}

pub struct StmtPrint {
    pub expression: Expr,
}

pub struct StmtVar {
    pub name: Token,
    pub initializer: Option<Expr>,
}

pub struct StmtBlock {
    pub statements: Vec<Stmt>,
}

pub struct StmtIf {
    pub condition: Expr,
    pub then_branch: Box<Stmt>,
    pub else_branch: Option<Box<Stmt>>,
}

pub struct StmtWhile {
    pub condition: Expr,
    pub body: Box<Stmt>,
}

pub struct StmtFunction {
    pub name: Token,
    pub params: Vec<Token>,
    pub body: Vec<Stmt>,
}

pub struct StmtReturn {
    pub keyword: Token,
    pub value: Option<Expr>,
}

pub enum Stmt {
    Expression(StmtExpression),
    Print(StmtPrint),
    Var(StmtVar),
    Block(StmtBlock),
    If(StmtIf),
    While(StmtWhile),
    Function(StmtFunction),
    Return(StmtReturn),
}

} // verus!

verus! {

/// What a statement says: the tree, with the text of its tokens.
pub enum StmtView {
    Expression(crate::expr::ExprView),
    Print(crate::expr::ExprView),
    Var(crate::token::TokenView, Option<crate::expr::ExprView>),
    Block(Seq<StmtView>),
    If(crate::expr::ExprView, Box<StmtView>, Option<Box<StmtView>>),
    While(crate::expr::ExprView, Box<StmtView>),
    Function(crate::token::TokenView, Seq<crate::token::TokenView>, Seq<StmtView>),
    Return(crate::token::TokenView, Option<crate::expr::ExprView>),
}

/// The view of a statement.
pub open spec fn stmt_view(statement: &Stmt) -> StmtView
    decreases statement,
{
    match statement {
        Stmt::Expression(s) => StmtView::Expression(s.expression@),
        Stmt::Print(s) => StmtView::Print(s.expression@),
        Stmt::Var(s) => StmtView::Var(
            s.name@,
            match s.initializer {
                Some(e) => Some(e@),
                None => None,
            },
        ),
        Stmt::Block(s) => StmtView::Block(stmt_views(s.statements@, s.statements@.len() as int)),
        Stmt::If(s) => StmtView::If(
            s.condition@,
            Box::new(stmt_view(&*s.then_branch)),
            match &s.else_branch {
                Some(other) => Some(Box::new(stmt_view(&**other))),
                None => None,
            },
        ),
        Stmt::While(s) => StmtView::While(s.condition@, Box::new(stmt_view(&*s.body))),
        Stmt::Function(s) => StmtView::Function(
            s.name@,
            s.params.deep_view(),
            stmt_views(s.body@, s.body@.len() as int),
        ),
        Stmt::Return(s) => StmtView::Return(
            s.keyword@,
            match s.value {
                Some(e) => Some(e@),
                None => None,
            },
        ),
    }
}

/// The views of the first `upto` statements of a list.
pub open spec fn stmt_views(list: Seq<Stmt>, upto: int) -> Seq<StmtView>
    decreases list, upto,
{
    if upto <= 0 || upto > list.len() {
        Seq::empty()
    } else {
        stmt_views(list, upto - 1).push(stmt_view(&list[upto - 1]))
    }
}

impl View for Stmt {
    type V = StmtView;

    open spec fn view(&self) -> StmtView {
        stmt_view(self)
    }
}

/// The views of a list do not depend on what follows the list.
pub proof fn stmt_views_of_prefix(list: Seq<Stmt>, longer: Seq<Stmt>, upto: int)
    requires
        0 <= upto <= list.len() <= longer.len(),
        forall|i: int| 0 <= i < list.len() ==> list[i] == longer[i],
    ensures
        stmt_views(longer, upto) == stmt_views(list, upto),
    decreases upto,
{
    if upto > 0 {
        stmt_views_of_prefix(list, longer, upto - 1);
    }
}

/// Adding a statement to a list adds its view to the views.
pub proof fn stmt_views_push(list: Seq<Stmt>, last: Stmt)
    ensures
        stmt_views(list.push(last), list.len() as int + 1) == stmt_views(list, list.len() as int).push(
            stmt_view(&last),
        ),
{
    stmt_views_of_prefix(list, list.push(last), list.len() as int);
}

} // verus!
