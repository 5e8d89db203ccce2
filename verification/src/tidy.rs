//! The parser gives tidy programs: a declaration is a statement of a
//! block, a function or the program, never the branch of an `if` or the
//! body of a loop.
use vstd::prelude::*;
use crate::ast_parser::{desugared, Parsed, Parsing};
use crate::resolution::{neat, neat_from, stmt_views_at, stmt_views_length};
use crate::scoping::plain;
use crate::stmt::{stmt_view, stmt_views, Stmt, StmtView};
use crate::token::TokenType;

verus! {

/// Whether a statement is a declaration.
pub open spec fn declares(s: StmtView) -> bool {
    s is Var || s is Function
}

/// Whether no branch of an `if` and no body of a loop in a statement is a
/// declaration.
pub open spec fn tidy(s: StmtView) -> bool
    decreases s,
{
    match s {
        StmtView::Block(list) => tidy_all(list, list.len()),
        StmtView::If(_, then_branch, else_branch) => !declares(*then_branch) && tidy(*then_branch)
            && match else_branch {
            Some(other) => !declares(*other) && tidy(*other),
            None => true,
        },
        StmtView::While(_, body) => !declares(*body) && tidy(*body),
        StmtView::Function(_, _, body) => tidy_all(body, body.len()),
        _ => true,
    }
}

/// The same for the first `count` statements of a list.
pub open spec fn tidy_all(list: Seq<StmtView>, count: nat) -> bool
    decreases list, count,
{
    if count == 0 || count > list.len() {
        true
    } else {
        tidy_all(list, (count - 1) as nat) && tidy(list[count - 1])
    }
}

/// Every statement of a tidy list is tidy.
pub proof fn tidy_at(list: Seq<StmtView>, count: nat, i: int)
    requires
        0 <= i < count <= list.len(),
        tidy_all(list, count),
    ensures
        tidy(list[i]),
    decreases count,
{
    if i < count - 1 {
        tidy_at(list, (count - 1) as nat, i);
    }
}

/// The first statements of a list are tidy or not whatever follows them.
pub proof fn tidy_of_prefix(list: Seq<StmtView>, longer: Seq<StmtView>, count: nat)
    requires
        count <= list.len() <= longer.len(),
        forall|i: int| 0 <= i < list.len() ==> list[i] == longer[i],
    ensures
        tidy_all(longer, count) == tidy_all(list, count),
    decreases count,
{
    if count > 0 {
        tidy_of_prefix(list, longer, (count - 1) as nat);
    }
}

/// A statement whose view is tidy has no declaration as a branch or a
/// body.
pub proof fn tidy_is_neat(s: &Stmt)
    requires
        tidy(stmt_view(s)),
    ensures
        neat(s),
        plain(s) == !declares(stmt_view(s)),
    decreases s, 0nat,
{
    match s {
        Stmt::Block(x) => {
            tidy_list_is_neat(x.statements@, 0);
        },
        Stmt::If(x) => {
            tidy_is_neat(&*x.then_branch);
            match &x.else_branch {
                Some(other) => {
                    tidy_is_neat(&**other);
                },
                None => {},
            }
        },
        Stmt::While(x) => {
            tidy_is_neat(&*x.body);
        },
        Stmt::Function(x) => {
            tidy_list_is_neat(x.body@, 0);
        },
        _ => {},
    }
}

pub proof fn tidy_list_is_neat(list: Seq<Stmt>, from: int)
    requires
        0 <= from,
        tidy_all(stmt_views(list, list.len() as int), stmt_views(list, list.len() as int).len()),
    ensures
        neat_from(list, from),
    decreases list, list.len() - from,
{
    if from < list.len() {
        stmt_views_length(list, list.len() as int);
        stmt_views_at(list, list.len() as int, from);
        tidy_at(stmt_views(list, list.len() as int), list.len(), from);
        tidy_is_neat(&list[from]);
        tidy_list_is_neat(list, from + 1);
    }
}

/// What the lemmas below say of parsing a statement: it is tidy.
pub open spec fn gives_tidy(r: Parsed<StmtView>) -> bool {
    match r {
        Parsed::Done(_, s) => tidy(s),
        Parsed::Failed(_) => true,
    }
}

pub proof fn function_is_tidy(p: Parsing)
    ensures
        gives_tidy(p.function()),
    decreases p.measure(), 59nat,
{
    match p.consume(TokenType::Identifier, "Expect function name."@) {
        Parsed::Failed(_) => {},
        Parsed::Done(p1, name) => match p1.consume(
            TokenType::LeftParen,
            "Expect '(' after function name."@,
        ) {
            Parsed::Failed(_) => {},
            Parsed::Done(p2, _) => {
                let none = Seq::<crate::token::TokenView>::empty();
                let parsed = if p2.check(TokenType::RightParen) {
                    Parsed::Done(p2, none)
                } else {
                    p2.parameters(none)
                };
                match parsed {
                    Parsed::Failed(_) => {},
                    Parsed::Done(p3, params) => match p3.consume(
                        TokenType::RightParen,
                        "Expect ')' after parameters."@,
                    ) {
                        Parsed::Failed(_) => {},
                        Parsed::Done(p4, _) => match p4.consume(
                            TokenType::LeftBrace,
                            "Expect '{' before function body."@,
                        ) {
                            Parsed::Failed(_) => {},
                            Parsed::Done(p5, _) => {
                                if p5.measure() <= p.measure() {
                                    block_is_tidy(p5);
                                }
                            },
                        },
                    },
                }
            },
        },
    }
}

pub proof fn block_is_tidy(p: Parsing)
    ensures
        match p.block() {
            Parsed::Done(_, items) => tidy_all(items, items.len()),
            Parsed::Failed(_) => true,
        },
    decreases p.measure(), 58nat,
{
    items_are_tidy(p, Seq::empty(), true);
}

pub proof fn items_are_tidy(p: Parsing, before: Seq<StmtView>, in_block: bool)
    requires
        tidy_all(before, before.len()),
    ensures
        tidy_all(p.items(before, in_block).1, p.items(before, in_block).1.len()),
    decreases p.measure(), 57nat,
{
    if !(p.at_end() || (in_block && p.check(TokenType::RightBrace))) {
        declaration_is_tidy(p);
        let (p1, item) = p.declaration();
        let after = match item {
            Some(statement) => before.push(statement),
            None => before,
        };
        match item {
            Some(statement) => {
                tidy_of_prefix(before, after, before.len());
            },
            None => {},
        }
        if p1.measure() < p.measure() {
            items_are_tidy(p1, after, in_block);
        }
    }
}

pub proof fn declaration_is_tidy(p: Parsing)
    ensures
        match p.declaration().1 {
            Some(s) => tidy(s),
            None => true,
        },
    decreases p.measure(), 56nat,
{
    let p1 = p.advance();
    if p.check(TokenType::Fun) {
        if p1.measure() < p.measure() {
            function_is_tidy(p1);
        }
    } else if p.check(TokenType::Var) {
    } else {
        statement_is_tidy(p);
    }
}

/// A statement is tidy, and no declaration.
pub proof fn statement_is_tidy(p: Parsing)
    ensures
        gives_tidy(p.statement()),
        match p.statement() {
            Parsed::Done(_, s) => !declares(s),
            Parsed::Failed(_) => true,
        },
    decreases p.measure(), 50nat,
{
    let p1 = p.advance();
    if p1.measure() < p.measure() {
        match p.peek().token_type {
            TokenType::For => {
                for_statement_is_tidy(p1);
            },
            TokenType::If => {
                if_statement_is_tidy(p1);
            },
            TokenType::While => {
                while_statement_is_tidy(p1);
            },
            TokenType::LeftBrace => {
                block_is_tidy(p1);
            },
            _ => {},
        }
    }
}

pub proof fn if_statement_is_tidy(p: Parsing)
    ensures
        gives_tidy(p.if_statement()),
        match p.if_statement() {
            Parsed::Done(_, s) => !declares(s),
            Parsed::Failed(_) => true,
        },
    decreases p.measure(), 52nat,
{
    match p.condition("Expect '(' after 'if'."@, "Expect ')' after if condition."@) {
        Parsed::Failed(_) => {},
        Parsed::Done(p1, condition) => {
            if p1.measure() <= p.measure() {
                statement_is_tidy(p1);
                match p1.statement() {
                    Parsed::Failed(_) => {},
                    Parsed::Done(p2, then_branch) => {
                        if p2.check(TokenType::Else) {
                            if p2.advance().measure() <= p.measure() {
                                statement_is_tidy(p2.advance());
                            }
                        }
                    },
                }
            }
        },
    }
}

pub proof fn while_statement_is_tidy(p: Parsing)
    ensures
        gives_tidy(p.while_statement()),
        match p.while_statement() {
            Parsed::Done(_, s) => !declares(s),
            Parsed::Failed(_) => true,
        },
    decreases p.measure(), 52nat,
{
    match p.condition("Expect '(' after 'while'."@, "Expect ')' after condition."@) {
        Parsed::Failed(_) => {},
        Parsed::Done(p1, condition) => {
            if p1.measure() <= p.measure() {
                statement_is_tidy(p1);
            }
        },
    }
}

/// A `for` loop written with `while` is tidy and no declaration, if its
/// body is.
pub proof fn desugared_is_tidy(
    initializer: Option<StmtView>,
    condition: Option<crate::expr::ExprView>,
    increment: Option<crate::expr::ExprView>,
    body: StmtView,
)
    requires
        tidy(body),
        !declares(body),
        initializer is Some ==> tidy(initializer->0),
    ensures
        tidy(desugared(initializer, condition, increment, body)),
        !declares(desugared(initializer, condition, increment, body)),
{
    reveal_with_fuel(tidy_all, 4);
    reveal_with_fuel(tidy, 4);
    let stepped = match increment {
        Some(e) => StmtView::Block(seq![body, StmtView::Expression(e)]),
        None => body,
    };
    match increment {
        Some(e) => {
            let pair = seq![body, StmtView::Expression(e)];
            assert(pair[0] == body);
            assert(pair[1] == StmtView::Expression(e));
            assert(tidy_all(pair, 2));
        },
        None => {},
    }
    assert(tidy(stepped));
    let looped = StmtView::While(
        match condition {
            Some(e) => e,
            None => crate::expr::ExprView::Literal(crate::token::LiteralView::Bool(true)),
        },
        Box::new(stepped),
    );
    assert(tidy(looped));
    match initializer {
        Some(first) => {
            let pair = seq![first, looped];
            assert(pair[0] == first);
            assert(pair[1] == looped);
            assert(tidy_all(pair, 2));
        },
        None => {},
    }
}

pub proof fn for_statement_is_tidy(p: Parsing)
    ensures
        gives_tidy(p.for_statement()),
        match p.for_statement() {
            Parsed::Done(_, s) => !declares(s),
            Parsed::Failed(_) => true,
        },
    decreases p.measure(), 55nat,
{
    match p.consume(TokenType::LeftParen, "Expect '(' after 'for'."@) {
        Parsed::Failed(_) => {},
        Parsed::Done(p1, _) => {
            if p1.measure() <= p.measure() {
                match p1.for_initializer() {
                    Parsed::Failed(_) => {},
                    Parsed::Done(p2, initializer) => {
                        if p2.measure() <= p.measure() {
                            match p2.optional(TokenType::SemiColon) {
                                Parsed::Failed(_) => {},
                                Parsed::Done(p3, condition) => match p3.consume(
                                    TokenType::SemiColon,
                                    "Expect ';' after loop condition."@,
                                ) {
                                    Parsed::Failed(_) => {},
                                    Parsed::Done(p4, _) => {
                                        if p4.measure() <= p.measure() {
                                            match p4.optional(TokenType::RightParen) {
                                                Parsed::Failed(_) => {},
                                                Parsed::Done(p5, increment) => match p5.consume(
                                                    TokenType::RightParen,
                                                    "Expect ')' after for clauses."@,
                                                ) {
                                                    Parsed::Failed(_) => {},
                                                    Parsed::Done(p6, _) => {
                                                        if p6.measure() <= p.measure() {
                                                            statement_is_tidy(p6);
                                                            match p6.statement() {
                                                                Parsed::Failed(_) => {},
                                                                Parsed::Done(p7, body) => {
                                                                    first_clause_is_tidy(p1);
                                                                    desugared_is_tidy(
                                                                        initializer,
                                                                        condition,
                                                                        increment,
                                                                        body,
                                                                    );
                                                                },
                                                            }
                                                        }
                                                    },
                                                },
                                            }
                                        }
                                    },
                                },
                            }
                        }
                    },
                }
            }
        },
    }
}

/// The first clause of a `for` is tidy.
pub proof fn first_clause_is_tidy(p: Parsing)
    ensures
        match p.for_initializer() {
            Parsed::Done(_, Some(first)) => tidy(first),
            _ => true,
        },
{
}

/// The parser gives tidy programs.
pub proof fn parse_is_tidy(p: Parsing)
    ensures
        tidy_all(p.parse().1, p.parse().1.len()),
{
    items_are_tidy(p, Seq::empty(), false);
}

} // verus!
