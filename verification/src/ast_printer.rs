//! A printer of expressions: every operator in front of its operands, every
//! operation in parentheses.
use vstd::prelude::*;
use crate::expr::{expr_view, expr_views, Expr, ExprView};
use crate::text::push_text;
use crate::token::{Literal, LiteralView};

verus! {

/// A literal as the printer writes it: a string in double quotes, a number
/// by its digits.
pub open spec fn printed_literal(literal: LiteralView) -> Seq<char> {
    match literal {
        LiteralView::Nil => "nil"@,
        LiteralView::Bool(b) => if b {
            "true"@
        } else {
            "false"@
        },
        LiteralView::Number(digits) => digits,
        LiteralView::String(text) => "\""@ + text + "\""@,
    }
}

/// An expression as the printer writes it.
pub open spec fn printed(expression: ExprView) -> Seq<char>
    decreases expression,
{
    match expression {
        ExprView::Literal(literal) => printed_literal(literal),
        ExprView::Grouping(inner) => "(group "@ + printed(*inner) + ")"@,
        ExprView::Unary(operator, right) => "("@ + operator.lexeme + " "@ + printed(*right) + ")"@,
        ExprView::Binary(left, operator, right) => "("@ + operator.lexeme + " "@ + printed(*left)
            + " "@ + printed(*right) + ")"@,
        ExprView::Logical(left, operator, right) => "("@ + operator.lexeme + " "@ + printed(*left)
            + " "@ + printed(*right) + ")"@,
        ExprView::Variable(_, name) => name.lexeme,
        ExprView::Assign(_, name, value) => "(assign "@ + name.lexeme + " "@ + printed(*value)
            + ")"@,
        ExprView::Call(callee, _, arguments) => "(call "@ + printed(*callee) + printed_all(
            arguments,
            arguments.len(),
        ) + ")"@,
    }
}

/// An expression as the source writes it, with one space between each two
/// tokens.
pub open spec fn source(expression: ExprView) -> Seq<char>
    decreases expression,
{
    match expression {
        ExprView::Literal(literal) => printed_literal(literal),
        ExprView::Grouping(inner) => "( "@ + source(*inner) + " )"@,
        ExprView::Unary(operator, right) => operator.lexeme + " "@ + source(*right),
        ExprView::Binary(left, operator, right) => source(*left) + " "@ + operator.lexeme + " "@
            + source(*right),
        ExprView::Logical(left, operator, right) => source(*left) + " "@ + operator.lexeme + " "@
            + source(*right),
        ExprView::Variable(_, name) => name.lexeme,
        ExprView::Assign(_, name, value) => name.lexeme + " = "@ + source(*value),
        ExprView::Call(callee, _, arguments) => if arguments.len() == 0 {
            source(*callee) + " ( )"@
        } else {
            source(*callee) + " ( "@ + listed(arguments, arguments.len()) + " )"@
        },
    }
}

/// The first `count` expressions of a list as the source writes them, with
/// a comma between each two.
pub open spec fn listed(list: Seq<ExprView>, count: nat) -> Seq<char>
    decreases list, count,
{
    if count == 0 || count > list.len() {
        Seq::empty()
    } else if count == 1 {
        source(list[0])
    } else {
        listed(list, (count - 1) as nat) + " , "@ + source(list[count - 1])
    }
}

/// The first `count` expressions of a list, each after a space.
pub open spec fn printed_all(list: Seq<ExprView>, count: nat) -> Seq<char>
    decreases list, count,
{
    if count == 0 || count > list.len() {
        Seq::empty()
    } else {
        printed_all(list, (count - 1) as nat) + " "@ + printed(list[count - 1])
    }
}

pub struct AstPrinter;

impl AstPrinter {
    pub fn new() -> (printer: AstPrinter) {
        AstPrinter
    }

    /// Writes an expression.
    pub fn print(&mut self, expr: &Expr) -> (text: String)
        ensures
            text@ == printed(expr@),
        decreases expr,
    {
        match expr {
            Expr::Literal(e) => match &e.value {
                Literal::Nil => "nil".to_owned(),
                Literal::Bool(b) => if *b {
                    "true".to_owned()
                } else {
                    "false".to_owned()
                },
                Literal::Number(digits) => digits.clone(),
                Literal::String(value) => {
                    let mut text = "\"".to_owned();
                    push_text(&mut text, value.as_str());
                    push_text(&mut text, "\"");
                    text
                },
            },
            Expr::Grouping(e) => {
                let inner = self.print(&*e.expression);
                let mut text = "(group ".to_owned();
                push_text(&mut text, inner.as_str());
                push_text(&mut text, ")");
                text
            },
            Expr::Unary(e) => {
                let right = self.print(&*e.right);
                let mut text = "(".to_owned();
                push_text(&mut text, e.operator.lexeme.as_str());
                push_text(&mut text, " ");
                push_text(&mut text, right.as_str());
                push_text(&mut text, ")");
                text
            },
            Expr::Binary(e) => {
                let left = self.print(&*e.left);
                let right = self.print(&*e.right);
                Self::parenthesize(e.operator.lexeme.as_str(), left.as_str(), right.as_str())
            },
            Expr::Logical(e) => {
                let left = self.print(&*e.left);
                let right = self.print(&*e.right);
                Self::parenthesize(e.operator.lexeme.as_str(), left.as_str(), right.as_str())
            },
            Expr::Variable(e) => e.name.lexeme.clone(),
            Expr::Assign(e) => {
                let value = self.print(&*e.value);
                let mut text = "(assign ".to_owned();
                push_text(&mut text, e.name.lexeme.as_str());
                push_text(&mut text, " ");
                push_text(&mut text, value.as_str());
                push_text(&mut text, ")");
                text
            },
            Expr::Call(e) => {
                let callee = self.print(&*e.callee);
                let arguments = self.print_all(&e.arguments);
                let mut text = "(call ".to_owned();
                push_text(&mut text, callee.as_str());
                push_text(&mut text, arguments.as_str());
                push_text(&mut text, ")");
                proof {
                    crate::ast_parser::expr_views_length(e.arguments@, e.arguments@.len() as int);
                }
                text
            },
        }
    }

    /// Writes an expression as the source writes it, with one space between
    /// each two tokens.
    pub fn source(&mut self, expr: &Expr) -> (text: String)
        ensures
            text@ == source(expr@),
        decreases expr,
    {
        match expr {
            Expr::Literal(e) => match &e.value {
                Literal::Nil => "nil".to_owned(),
                Literal::Bool(b) => if *b {
                    "true".to_owned()
                } else {
                    "false".to_owned()
                },
                Literal::Number(digits) => digits.clone(),
                Literal::String(value) => {
                    let mut text = "\"".to_owned();
                    push_text(&mut text, value.as_str());
                    push_text(&mut text, "\"");
                    text
                },
            },
            Expr::Grouping(e) => {
                let inner = self.source(&*e.expression);
                let mut text = "( ".to_owned();
                push_text(&mut text, inner.as_str());
                push_text(&mut text, " )");
                text
            },
            Expr::Unary(e) => {
                let right = self.source(&*e.right);
                let mut text = e.operator.lexeme.clone();
                push_text(&mut text, " ");
                push_text(&mut text, right.as_str());
                text
            },
            Expr::Binary(e) => {
                let left = self.source(&*e.left);
                let right = self.source(&*e.right);
                Self::infix(left, e.operator.lexeme.as_str(), right.as_str())
            },
            Expr::Logical(e) => {
                let left = self.source(&*e.left);
                let right = self.source(&*e.right);
                Self::infix(left, e.operator.lexeme.as_str(), right.as_str())
            },
            Expr::Variable(e) => e.name.lexeme.clone(),
            Expr::Assign(e) => {
                let value = self.source(&*e.value);
                let mut text = e.name.lexeme.clone();
                push_text(&mut text, " = ");
                push_text(&mut text, value.as_str());
                text
            },
            Expr::Call(e) => {
                let mut text = self.source(&*e.callee);
                proof {
                    crate::ast_parser::expr_views_length(e.arguments@, e.arguments@.len() as int);
                }
                if e.arguments.len() == 0 {
                    push_text(&mut text, " ( )");
                } else {
                    let arguments = self.source_all(&e.arguments);
                    push_text(&mut text, " ( ");
                    push_text(&mut text, arguments.as_str());
                    push_text(&mut text, " )");
                }
                text
            },
        }
    }

    /// Writes the expressions of a list as the source writes them, with a
    /// comma between each two.
    fn source_all(&mut self, list: &Vec<Expr>) -> (text: String)
        ensures
            text@ == listed(expr_views(list@, list@.len() as int), list@.len()),
        decreases list@, list@.len(),
    {
        let mut text = String::new();
        let ghost views = expr_views(list@, list@.len() as int);
        let mut i: usize = 0;
        while i < list.len()
            invariant
                i <= list@.len(),
                views == expr_views(list@, list@.len() as int),
                text@ == listed(views, i as nat),
            decreases list@.len() - i,
        {
            let argument = self.source(&list[i]);
            proof {
                crate::ast_parser::expr_views_length(list@, list@.len() as int);
                views_at(list@, list@.len() as int, i as int);
            }
            if i > 0 {
                push_text(&mut text, " , ");
            }
            push_text(&mut text, argument.as_str());
            i += 1;
            proof {
                assert(text@ =~= listed(views, i as nat));
            }
        }
        text
    }

    /// Two operands, already written, with their operator between them.
    fn infix(left: String, operator: &str, right: &str) -> (text: String)
        ensures
            text@ == left@ + " "@ + operator@ + " "@ + right@,
    {
        let mut text = left;
        push_text(&mut text, " ");
        push_text(&mut text, operator);
        push_text(&mut text, " ");
        push_text(&mut text, right);
        text
    }

    /// Writes the expressions of a list, each after a space.
    fn print_all(&mut self, list: &Vec<Expr>) -> (text: String)
        ensures
            text@ == printed_all(expr_views(list@, list@.len() as int), list@.len()),
        decreases list@, list@.len(),
    {
        let mut text = String::new();
        let ghost views = expr_views(list@, list@.len() as int);
        let mut i: usize = 0;
        while i < list.len()
            invariant
                i <= list@.len(),
                views == expr_views(list@, list@.len() as int),
                text@ == printed_all(views, i as nat),
            decreases list@.len() - i,
        {
            let argument = self.print(&list[i]);
            proof {
                crate::ast_parser::expr_views_length(list@, list@.len() as int);
                views_at(list@, list@.len() as int, i as int);
            }
            push_text(&mut text, " ");
            push_text(&mut text, argument.as_str());
            i += 1;
            proof {
                assert(text@ =~= printed_all(views, i as nat));
            }
        }
        text
    }

    /// An operator and its two operands, already written, in parentheses.
    fn parenthesize(name: &str, left: &str, right: &str) -> (text: String)
        ensures
            text@ == "("@ + name@ + " "@ + left@ + " "@ + right@ + ")"@,
    {
        let mut text = "(".to_owned();
        push_text(&mut text, name);
        push_text(&mut text, " ");
        push_text(&mut text, left);
        push_text(&mut text, " ");
        push_text(&mut text, right);
        push_text(&mut text, ")");
        text
    }
}

/// The view at a place of a list is the view of the expression there.
pub proof fn views_at(list: Seq<Expr>, upto: int, i: int)
    requires
        0 <= i < upto <= list.len(),
    ensures
        expr_views(list, upto)[i] == expr_view(&list[i]),
    decreases upto,
{
    crate::ast_parser::expr_views_length(list, upto - 1);
    if i < upto - 1 {
        views_at(list, upto - 1, i);
    }
}

} // verus!
