//! The parser numbers the references to variables: each reference in a
//! program gets a number of its own, which tells it from every other.
use vstd::prelude::*;
use crate::ast_parser::{combine, desugared, operator_of, Parsed, Parsing};
use crate::expr::ExprView;
use crate::stmt::StmtView;
use crate::token::TokenType;

verus! {

/// How many references in an expression have the number.
pub open spec fn uses(e: ExprView, id: usize) -> nat
    decreases e,
{
    match e {
        ExprView::Literal(_) => 0,
        ExprView::Grouping(inner) => uses(*inner, id),
        ExprView::Unary(_, right) => uses(*right, id),
        ExprView::Binary(left, _, right) => uses(*left, id) + uses(*right, id),
        ExprView::Logical(left, _, right) => uses(*left, id) + uses(*right, id),
        ExprView::Variable(own, _) => if own == id {
            1
        } else {
            0
        },
        ExprView::Assign(own, _, value) => uses(*value, id) + if own == id {
            1nat
        } else {
            0nat
        },
        ExprView::Call(callee, _, arguments) => uses(*callee, id) + uses_all(
            arguments,
            arguments.len(),
            id,
        ),
    }
}

/// How many references in the first `count` expressions of a list have the
/// number.
pub open spec fn uses_all(list: Seq<ExprView>, count: nat, id: usize) -> nat
    decreases list, count,
{
    if count == 0 || count > list.len() {
        0
    } else {
        uses_all(list, (count - 1) as nat, id) + uses(list[count - 1], id)
    }
}

/// How many references in an expression that may be absent have the
/// number.
pub open spec fn uses_if(e: Option<ExprView>, id: usize) -> nat {
    match e {
        Some(e) => uses(e, id),
        None => 0,
    }
}

/// How many references in a statement have the number.
pub open spec fn stmt_uses(s: StmtView, id: usize) -> nat
    decreases s,
{
    match s {
        StmtView::Expression(e) => uses(e, id),
        StmtView::Print(e) => uses(e, id),
        StmtView::Var(_, initializer) => uses_if(initializer, id),
        StmtView::Block(statements) => stmt_uses_all(statements, statements.len(), id),
        StmtView::If(condition, then_branch, else_branch) => uses(condition, id) + stmt_uses(
            *then_branch,
            id,
        ) + match else_branch {
            Some(other) => stmt_uses(*other, id),
            None => 0,
        },
        StmtView::While(condition, body) => uses(condition, id) + stmt_uses(*body, id),
        StmtView::Function(_, _, body) => stmt_uses_all(body, body.len(), id),
        StmtView::Return(_, value) => uses_if(value, id),
    }
}

/// How many references in the first `count` statements of a list have the
/// number.
pub open spec fn stmt_uses_all(list: Seq<StmtView>, count: nat, id: usize) -> nat
    decreases list, count,
{
    if count == 0 || count > list.len() {
        0
    } else {
        stmt_uses_all(list, (count - 1) as nat, id) + stmt_uses(list[count - 1], id)
    }
}

/// Parsing goes on: the tokens stay, the place does not go back, and the
/// numbers that were given out stay given out.
pub open spec fn goes_on(p: Parsing, q: Parsing) -> bool {
    q.tokens == p.tokens && q.current >= p.current && q.next_id >= p.next_id
}

/// Whether at most `count` references have the number, and none unless
/// the number lies from `lower` up to, but not at, `upper`.
pub open spec fn within(count: nat, id: usize, lower: usize, upper: usize) -> bool {
    count <= 1 && (count > 0 ==> lower <= id < upper)
}

/// What the lemmas below say of parsing an expression from the state `p`:
/// parsing goes on, and, unless the numbers have run out, at most one
/// reference of the expression has a given number, which then lies between
/// `lower` and the next number to give out.
pub open spec fn numbers(p: Parsing, lower: usize, r: Parsed<ExprView>, id: usize) -> bool {
    &&& goes_on(p, r.state())
    &&& match r {
        Parsed::Done(q, e) => q.next_id < usize::MAX ==> within(uses(e, id), id, lower, q.next_id),
        Parsed::Failed(_) => true,
    }
}

pub proof fn expression_numbers(p: Parsing, id: usize)
    ensures
        numbers(p, p.next_id, p.expression(), id),
    decreases p.measure(), 46nat,
{
    assignment_numbers(p, id);
}

pub proof fn assignment_numbers(p: Parsing, id: usize)
    ensures
        numbers(p, p.next_id, p.assignment(), id),
    decreases p.measure(), 45nat,
{
    binary_numbers(p, 0, id);
    match p.binary(0) {
        Parsed::Failed(_) => {},
        Parsed::Done(p1, target) => {
            if p1.check(TokenType::Equal) {
                let p2 = p1.advance();
                if p2.measure() < p.measure() {
                    assignment_numbers(p2, id);
                }
            }
        },
    }
}

pub proof fn operand_numbers(p: Parsing, level: nat, id: usize)
    requires
        level <= 5,
    ensures
        numbers(p, p.next_id, p.operand(level), id),
    decreases p.measure(), (39 - 2 * level) as nat,
{
    if level < 5 {
        binary_numbers(p, level + 1, id);
    } else {
        unary_numbers(p, id);
    }
}

pub proof fn binary_numbers(p: Parsing, level: nat, id: usize)
    requires
        level <= 5,
    ensures
        numbers(p, p.next_id, p.binary(level), id),
    decreases p.measure(), (40 - 2 * level) as nat,
{
    operand_numbers(p, level, id);
    match p.operand(level) {
        Parsed::Failed(_) => {},
        Parsed::Done(p1, left) => {
            binary_tail_numbers(p1, level, left, p.next_id, id);
        },
    }
}

pub proof fn binary_tail_numbers(p: Parsing, level: nat, left: ExprView, lower: usize, id: usize)
    requires
        level <= 5,
        lower <= p.next_id,
        p.next_id < usize::MAX ==> within(uses(left, id), id, lower, p.next_id),
    ensures
        numbers(p, lower, p.binary_tail(level, left), id),
    decreases p.measure(), 10nat,
{
    if operator_of(level, p.peek().token_type) {
        let p1 = p.advance();
        if p1.measure() < p.measure() {
            operand_numbers(p1, level, id);
            match p1.operand(level) {
                Parsed::Failed(_) => {},
                Parsed::Done(p2, right) => {
                    if p2.measure() < p.measure() {
                        binary_tail_numbers(
                            p2,
                            level,
                            combine(level, left, p.peek(), right),
                            lower,
                            id,
                        );
                    }
                },
            }
        }
    }
}

pub proof fn unary_numbers(p: Parsing, id: usize)
    ensures
        numbers(p, p.next_id, p.unary(), id),
    decreases p.measure(), 20nat,
{
    if p.check(TokenType::Bang) || p.check(TokenType::Minus) {
        let p1 = p.advance();
        if p1.measure() < p.measure() {
            unary_numbers(p1, id);
        }
    } else {
        call_numbers(p, id);
    }
}

pub proof fn call_numbers(p: Parsing, id: usize)
    ensures
        numbers(p, p.next_id, p.call(), id),
    decreases p.measure(), 19nat,
{
    primary_numbers(p, id);
    match p.primary() {
        Parsed::Failed(_) => {},
        Parsed::Done(p1, callee) => {
            call_tail_numbers(p1, callee, p.next_id, id);
        },
    }
}

pub proof fn call_tail_numbers(p: Parsing, callee: ExprView, lower: usize, id: usize)
    requires
        lower <= p.next_id,
        p.next_id < usize::MAX ==> within(uses(callee, id), id, lower, p.next_id),
    ensures
        numbers(p, lower, p.call_tail(callee), id),
    decreases p.measure(), 9nat,
{
    if p.check(TokenType::LeftParen) {
        let p1 = p.advance();
        if p1.measure() < p.measure() {
            let none = Seq::<ExprView>::empty();
            if !p1.check(TokenType::RightParen) {
                arguments_number(p1, none, p1.next_id, id);
            }
            let parsed = if p1.check(TokenType::RightParen) {
                Parsed::Done(p1, none)
            } else {
                p1.arguments(none)
            };
            match parsed {
                Parsed::Failed(_) => {},
                Parsed::Done(p2, arguments) => {
                    match p2.consume(TokenType::RightParen, "Expect ')' after arguments."@) {
                        Parsed::Failed(_) => {},
                        Parsed::Done(p3, paren) => {
                            let call = ExprView::Call(Box::new(callee), paren, arguments);
                            assert(uses(call, id) == uses(callee, id) + uses_all(
                                arguments,
                                arguments.len(),
                                id,
                            ));
                            assert(p3.next_id == p2.next_id);
                            assert(p1.next_id == p.next_id);
                            assert(p2.next_id >= p1.next_id);
                            if p3.next_id < usize::MAX {
                                assert(within(uses(callee, id), id, lower, p.next_id));
                                assert(within(
                                    uses_all(arguments, arguments.len(), id),
                                    id,
                                    p1.next_id,
                                    p2.next_id,
                                ));
                            }
                            if p3.measure() < p.measure() {
                                call_tail_numbers(
                                    p3,
                                    ExprView::Call(Box::new(callee), paren, arguments),
                                    lower,
                                    id,
                                );
                            }
                        },
                    }
                },
            }
        }
    }
}

/// The first expressions of a list use a number as often whatever follows
/// them in the list.
pub proof fn uses_of_prefix(list: Seq<ExprView>, longer: Seq<ExprView>, count: nat, id: usize)
    requires
        count <= list.len() <= longer.len(),
        forall|i: int| 0 <= i < list.len() ==> list[i] == longer[i],
    ensures
        uses_all(longer, count, id) == uses_all(list, count, id),
    decreases count,
{
    if count > 0 {
        uses_of_prefix(list, longer, (count - 1) as nat, id);
    }
}

pub proof fn arguments_number(p: Parsing, before: Seq<ExprView>, lower: usize, id: usize)
    requires
        lower <= p.next_id,
        p.next_id < usize::MAX ==> within(uses_all(before, before.len(), id), id, lower, p.next_id),
    ensures
        goes_on(p, p.arguments(before).state()),
        match p.arguments(before) {
            Parsed::Done(q, all) => q.next_id < usize::MAX ==> within(
                uses_all(all, all.len(), id),
                id,
                lower,
                q.next_id,
            ),
            Parsed::Failed(_) => true,
        },
    decreases p.measure(), 47nat,
{
    let p0 = if before.len() >= 255 {
        p.report(p.peek(), "Can't have more than 255 arguments."@)
    } else {
        p
    };
    expression_numbers(p0, id);
    match p0.expression() {
        Parsed::Failed(_) => {},
        Parsed::Done(p1, argument) => {
            let all = before.push(argument);
            uses_of_prefix(before, all, before.len(), id);
            if p1.check(TokenType::Comma) {
                let p2 = p1.advance();
                if p2.measure() < p.measure() {
                    arguments_number(p2, all, lower, id);
                }
            }
        },
    }
}

pub proof fn primary_numbers(p: Parsing, id: usize)
    ensures
        numbers(p, p.next_id, p.primary(), id),
    decreases p.measure(), 18nat,
{
    if p.peek().token_type == TokenType::LeftParen {
        let p1 = p.advance();
        if p1.measure() < p.measure() {
            expression_numbers(p1, id);
        }
    }
}

} // verus!

verus! {

/// How many references in a statement that may be absent have the number.
pub open spec fn stmt_uses_if(s: Option<StmtView>, id: usize) -> nat {
    match s {
        Some(s) => stmt_uses(s, id),
        None => 0,
    }
}

/// The same as `numbers`, for a statement.
pub open spec fn stmt_numbers(p: Parsing, lower: usize, r: Parsed<StmtView>, id: usize) -> bool {
    &&& goes_on(p, r.state())
    &&& match r {
        Parsed::Done(q, s) => q.next_id < usize::MAX ==> within(
            stmt_uses(s, id),
            id,
            lower,
            q.next_id,
        ),
        Parsed::Failed(_) => true,
    }
}

pub proof fn terminated_numbers(p: Parsing, message: Seq<char>, id: usize)
    ensures
        numbers(p, p.next_id, p.terminated(message), id),
    decreases p.measure(), 48nat,
{
    expression_numbers(p, id);
}

pub proof fn optional_numbers(p: Parsing, unless: TokenType, id: usize)
    ensures
        goes_on(p, p.optional(unless).state()),
        match p.optional(unless) {
            Parsed::Done(q, value) => q.next_id < usize::MAX ==> within(
                uses_if(value, id),
                id,
                p.next_id,
                q.next_id,
            ),
            Parsed::Failed(_) => true,
        },
    decreases p.measure(), 48nat,
{
    if !p.check(unless) {
        expression_numbers(p, id);
    }
}

pub proof fn condition_numbers(p: Parsing, open: Seq<char>, close: Seq<char>, id: usize)
    ensures
        numbers(p, p.next_id, p.condition(open, close), id),
    decreases p.measure(), 48nat,
{
    match p.consume(TokenType::LeftParen, open) {
        Parsed::Failed(_) => {},
        Parsed::Done(p1, _) => {
            if p1.measure() <= p.measure() {
                expression_numbers(p1, id);
            }
        },
    }
}

pub proof fn var_declaration_numbers(p: Parsing, id: usize)
    ensures
        stmt_numbers(p, p.next_id, p.var_declaration(), id),
    decreases p.measure(), 53nat,
{
    match p.consume(TokenType::Identifier, "Expect variable name."@) {
        Parsed::Failed(_) => {},
        Parsed::Done(p1, name) => {
            if p1.check(TokenType::Equal) {
                if p1.advance().measure() <= p.measure() {
                    terminated_numbers(
                        p1.advance(),
                        "Expect ';' after variable declaration."@,
                        id,
                    );
                }
            }
        },
    }
}

/// The parameters of a function go on, and take no number.
pub proof fn parameters_go_on(p: Parsing, before: Seq<crate::token::TokenView>)
    ensures
        goes_on(p, p.parameters(before).state()),
        p.parameters(before).state().next_id == p.next_id,
    decreases p.measure(),
{
    let p0 = if before.len() >= 255 {
        p.report(p.peek(), "Can't have more than 255 parameters."@)
    } else {
        p
    };
    match p0.consume(TokenType::Identifier, "Expect parameter name."@) {
        Parsed::Failed(_) => {},
        Parsed::Done(p1, name) => {
            if p1.check(TokenType::Comma) {
                let p2 = p1.advance();
                if p2.measure() < p.measure() {
                    parameters_go_on(p2, before.push(name));
                }
            }
        },
    }
}

pub proof fn function_numbers(p: Parsing, id: usize)
    ensures
        stmt_numbers(p, p.next_id, p.function(), id),
    decreases p.measure(), 59nat,
{
    match p.consume(TokenType::Identifier, "Expect function name."@) {
        Parsed::Failed(_) => {},
        Parsed::Done(p1, name) => match p1.consume(
            TokenType::LeftParen,
            "Expect '(' after function name."@,
        ) {
            Parsed::Failed(_) => {},
            Parsed::Done(p2, _) => {
                let none = Seq::<crate::token::TokenView>::empty();
                if !p2.check(TokenType::RightParen) {
                    parameters_go_on(p2, none);
                }
                let parsed = if p2.check(TokenType::RightParen) {
                    Parsed::Done(p2, none)
                } else {
                    p2.parameters(none)
                };
                match parsed {
                    Parsed::Failed(_) => {},
                    Parsed::Done(p3, params) => match p3.consume(
                        TokenType::RightParen,
                        "Expect ')' after parameters."@,
                    ) {
                        Parsed::Failed(_) => {},
                        Parsed::Done(p4, _) => match p4.consume(
                            TokenType::LeftBrace,
                            "Expect '{' before function body."@,
                        ) {
                            Parsed::Failed(_) => {},
                            Parsed::Done(p5, _) => {
                                if p5.measure() <= p.measure() {
                                    block_numbers(p5, id);
                                }
                            },
                        },
                    },
                }
            },
        },
    }
}

pub proof fn block_numbers(p: Parsing, id: usize)
    ensures
        goes_on(p, p.block().state()),
        match p.block() {
            Parsed::Done(q, items) => q.next_id < usize::MAX ==> within(
                stmt_uses_all(items, items.len(), id),
                id,
                p.next_id,
                q.next_id,
            ),
            Parsed::Failed(_) => true,
        },
    decreases p.measure(), 58nat,
{
    items_number(p, Seq::empty(), true, p.next_id, id);
}

/// The first statements of a list use a number as often whatever follows
/// them in the list.
pub proof fn stmt_uses_of_prefix(list: Seq<StmtView>, longer: Seq<StmtView>, count: nat, id: usize)
    requires
        count <= list.len() <= longer.len(),
        forall|i: int| 0 <= i < list.len() ==> list[i] == longer[i],
    ensures
        stmt_uses_all(longer, count, id) == stmt_uses_all(list, count, id),
    decreases count,
{
    if count > 0 {
        stmt_uses_of_prefix(list, longer, (count - 1) as nat, id);
    }
}

pub proof fn items_number(p: Parsing, before: Seq<StmtView>, in_block: bool, lower: usize, id: usize)
    requires
        lower <= p.next_id,
        p.next_id < usize::MAX ==> within(
            stmt_uses_all(before, before.len(), id),
            id,
            lower,
            p.next_id,
        ),
    ensures
        goes_on(p, p.items(before, in_block).0),
        p.items(before, in_block).0.next_id < usize::MAX ==> within(
            stmt_uses_all(p.items(before, in_block).1, p.items(before, in_block).1.len(), id),
            id,
            lower,
            p.items(before, in_block).0.next_id,
        ),
    decreases p.measure(), 57nat,
{
    if !(p.at_end() || (in_block && p.check(TokenType::RightBrace))) {
        declaration_numbers(p, id);
        let (p1, item) = p.declaration();
        let after = match item {
            Some(statement) => before.push(statement),
            None => before,
        };
        match item {
            Some(statement) => {
                stmt_uses_of_prefix(before, after, before.len(), id);
            },
            None => {},
        }
        if p1.measure() < p.measure() {
            items_number(p1, after, in_block, lower, id);
        }
    }
}

/// Passing tokens after a syntax error goes on, and takes no number.
pub proof fn skip_goes_on(p: Parsing)
    ensures
        goes_on(p, p.skip()),
        p.skip().next_id == p.next_id,
    decreases p.measure(),
{
    if !(p.at_end() || p.previous().token_type == TokenType::SemiColon
        || crate::compiler::starts_statement(p.peek().token_type)) {
        if p.advance().measure() < p.measure() {
            skip_goes_on(p.advance());
        }
    }
}

pub proof fn declaration_numbers(p: Parsing, id: usize)
    ensures
        goes_on(p, p.declaration().0),
        p.declaration().0.next_id < usize::MAX ==> within(
            stmt_uses_if(p.declaration().1, id),
            id,
            p.next_id,
            p.declaration().0.next_id,
        ),
    decreases p.measure(), 56nat,
{
    let p1 = p.advance();
    let parsed = if p.check(TokenType::Fun) {
        if p1.measure() < p.measure() {
            function_numbers(p1, id);
            p1.function()
        } else {
            Parsed::Failed(p1)
        }
    } else if p.check(TokenType::Var) {
        if p1.measure() < p.measure() {
            var_declaration_numbers(p1, id);
            p1.var_declaration()
        } else {
            Parsed::Failed(p1)
        }
    } else {
        statement_numbers(p, id);
        p.statement()
    };
    match parsed {
        Parsed::Done(_, _) => {},
        Parsed::Failed(p2) => {
            skip_goes_on(p2.advance());
        },
    }
}

pub proof fn statement_numbers(p: Parsing, id: usize)
    ensures
        stmt_numbers(p, p.next_id, p.statement(), id),
    decreases p.measure(), 50nat,
{
    let p1 = p.advance();
    if p1.measure() < p.measure() {
        match p.peek().token_type {
            TokenType::For => {
                for_statement_numbers(p1, id);
            },
            TokenType::If => {
                if_statement_numbers(p1, id);
            },
            TokenType::Print => {
                terminated_numbers(p1, "Expect ';' after value."@, id);
            },
            TokenType::Return => {
                optional_numbers(p1, TokenType::SemiColon, id);
            },
            TokenType::While => {
                while_statement_numbers(p1, id);
            },
            TokenType::LeftBrace => {
                block_numbers(p1, id);
            },
            _ => {
                expression_statement_numbers(p, id);
            },
        }
    } else {
        expression_statement_numbers(p, id);
    }
}

pub proof fn expression_statement_numbers(p: Parsing, id: usize)
    ensures
        stmt_numbers(p, p.next_id, p.expression_statement(), id),
    decreases p.measure(), 49nat,
{
    terminated_numbers(p, "Expect ';' after expression."@, id);
}

pub proof fn if_statement_numbers(p: Parsing, id: usize)
    ensures
        stmt_numbers(p, p.next_id, p.if_statement(), id),
    decreases p.measure(), 52nat,
{
    condition_numbers(p, "Expect '(' after 'if'."@, "Expect ')' after if condition."@, id);
    match p.condition("Expect '(' after 'if'."@, "Expect ')' after if condition."@) {
        Parsed::Failed(_) => {},
        Parsed::Done(p1, condition) => {
            if p1.measure() <= p.measure() {
                statement_numbers(p1, id);
                match p1.statement() {
                    Parsed::Failed(_) => {},
                    Parsed::Done(p2, then_branch) => {
                        if p2.check(TokenType::Else) {
                            if p2.advance().measure() <= p.measure() {
                                statement_numbers(p2.advance(), id);
                            }
                        }
                    },
                }
            }
        },
    }
}

pub proof fn while_statement_numbers(p: Parsing, id: usize)
    ensures
        stmt_numbers(p, p.next_id, p.while_statement(), id),
    decreases p.measure(), 52nat,
{
    condition_numbers(p, "Expect '(' after 'while'."@, "Expect ')' after condition."@, id);
    match p.condition("Expect '(' after 'while'."@, "Expect ')' after condition."@) {
        Parsed::Failed(_) => {},
        Parsed::Done(p1, condition) => {
            if p1.measure() <= p.measure() {
                statement_numbers(p1, id);
            }
        },
    }
}

pub proof fn for_initializer_numbers(p: Parsing, id: usize)
    ensures
        goes_on(p, p.for_initializer().state()),
        match p.for_initializer() {
            Parsed::Done(q, first) => q.next_id < usize::MAX ==> within(
                stmt_uses_if(first, id),
                id,
                p.next_id,
                q.next_id,
            ),
            Parsed::Failed(_) => true,
        },
    decreases p.measure(), 54nat,
{
    if p.check(TokenType::SemiColon) {
    } else if p.check(TokenType::Var) {
        if p.advance().measure() <= p.measure() {
            var_declaration_numbers(p.advance(), id);
        }
    } else {
        expression_statement_numbers(p, id);
    }
}

/// A `for` loop written with `while` uses a number as often as its parts
/// do together.
pub proof fn desugared_uses(
    initializer: Option<StmtView>,
    condition: Option<ExprView>,
    increment: Option<ExprView>,
    body: StmtView,
    id: usize,
)
    ensures
        stmt_uses(desugared(initializer, condition, increment, body), id) == stmt_uses_if(
            initializer,
            id,
        ) + uses_if(condition, id) + uses_if(increment, id) + stmt_uses(body, id),
{
    reveal_with_fuel(stmt_uses_all, 4);
    reveal_with_fuel(stmt_uses, 4);
    let stepped = match increment {
        Some(e) => StmtView::Block(seq![body, StmtView::Expression(e)]),
        None => body,
    };
    match increment {
        Some(e) => {
            let pair = seq![body, StmtView::Expression(e)];
            assert(stmt_uses_all(pair, 0, id) == 0);
            assert(stmt_uses_all(pair, 1, id) == stmt_uses(body, id));
            assert(pair[1] == StmtView::Expression(e));
            assert(stmt_uses(pair[1], id) == uses(e, id));
            assert(stmt_uses_all(pair, 2, id) == stmt_uses(body, id) + uses(e, id));
            assert(stmt_uses(stepped, id) == stmt_uses_all(pair, 2, id));
        },
        None => {},
    }
    let looped = StmtView::While(
        match condition {
            Some(e) => e,
            None => ExprView::Literal(crate::token::LiteralView::Bool(true)),
        },
        Box::new(stepped),
    );
    assert(stmt_uses(looped, id) == uses_if(condition, id) + uses_if(increment, id) + stmt_uses(
        body,
        id,
    ));
    match initializer {
        Some(first) => {
            let pair = seq![first, looped];
            assert(stmt_uses_all(pair, 0, id) == 0);
            assert(stmt_uses_all(pair, 1, id) == stmt_uses(first, id));
            assert(stmt_uses_all(pair, 2, id) == stmt_uses(first, id) + stmt_uses(looped, id));
        },
        None => {},
    }
}

pub proof fn for_statement_numbers(p: Parsing, id: usize)
    ensures
        stmt_numbers(p, p.next_id, p.for_statement(), id),
    decreases p.measure(), 55nat,
{
    match p.consume(TokenType::LeftParen, "Expect '(' after 'for'."@) {
        Parsed::Failed(_) => {},
        Parsed::Done(p1, _) => {
            if p1.measure() <= p.measure() {
                for_initializer_numbers(p1, id);
                match p1.for_initializer() {
                    Parsed::Failed(_) => {},
                    Parsed::Done(p2, initializer) => {
                        if p2.measure() <= p.measure() {
                            optional_numbers(p2, TokenType::SemiColon, id);
                            match p2.optional(TokenType::SemiColon) {
                                Parsed::Failed(_) => {},
                                Parsed::Done(p3, condition) => match p3.consume(
                                    TokenType::SemiColon,
                                    "Expect ';' after loop condition."@,
                                ) {
                                    Parsed::Failed(_) => {},
                                    Parsed::Done(p4, _) => {
                                        if p4.measure() <= p.measure() {
                                            optional_numbers(p4, TokenType::RightParen, id);
                                            match p4.optional(TokenType::RightParen) {
                                                Parsed::Failed(_) => {},
                                                Parsed::Done(p5, increment) => match p5.consume(
                                                    TokenType::RightParen,
                                                    "Expect ')' after for clauses."@,
                                                ) {
                                                    Parsed::Failed(_) => {},
                                                    Parsed::Done(p6, _) => {
                                                        if p6.measure() <= p.measure() {
                                                            statement_numbers(p6, id);
                                                            match p6.statement() {
                                                                Parsed::Failed(_) => {},
                                                                Parsed::Done(p7, body) => {
                                                                    desugared_uses(
                                                                        initializer,
                                                                        condition,
                                                                        increment,
                                                                        body,
                                                                        id,
                                                                    );
                                                                },
                                                            }
                                                        }
                                                    },
                                                },
                                            }
                                        }
                                    },
                                },
                            }
                        }
                    },
                }
            }
        },
    }
}

/// Every reference to a variable in a program gets a number of its own:
/// unless the numbers have run out, no two references in the statements
/// that the parser gives have the same number, and all their numbers lie
/// from the first number given out up to the next one to give out.
pub proof fn each_reference_has_its_own_number(p: Parsing, id: usize)
    ensures
        p.parse().0.next_id < usize::MAX ==> within(
            stmt_uses_all(p.parse().1, p.parse().1.len(), id),
            id,
            p.next_id,
            p.parse().0.next_id,
        ),
{
    items_number(p, Seq::empty(), false, p.next_id, id);
}

} // verus!
