//! Parsing does not look at the lines of tokens: tokens that differ in
//! their lines only parse to expressions that differ in the lines of their
//! tokens only. With that, an expression written in source form reads back
//! as the same expression.
use vstd::prelude::*;
use crate::ast_parser::{combine, operator_of, Parsed, Parsing};
use crate::ast_printer::source;
use crate::expr::ExprView;
use crate::round_trip::{same_but_line, scanned_is_well_made, spaced, spaced_scans_back, well_made};
use crate::scanner::{scan, scan_all, scan_bounds};
use crate::source_form::{advance_passes, arguments_go_on, binary_writes, consume_passes, expression_writes, operand_writes, primary_writes, ready, written};
use crate::token::{TokenType, TokenView};

verus! {

/// A token without its line.
pub open spec fn unlined_token(t: TokenView) -> TokenView {
    TokenView { line: 0, ..t }
}

/// An expression without the lines of its tokens.
pub open spec fn unlined(e: ExprView) -> ExprView
    decreases e,
{
    match e {
        ExprView::Literal(literal) => ExprView::Literal(literal),
        ExprView::Grouping(inner) => ExprView::Grouping(Box::new(unlined(*inner))),
        ExprView::Unary(operator, right) => ExprView::Unary(
            unlined_token(operator),
            Box::new(unlined(*right)),
        ),
        ExprView::Binary(left, operator, right) => ExprView::Binary(
            Box::new(unlined(*left)),
            unlined_token(operator),
            Box::new(unlined(*right)),
        ),
        ExprView::Logical(left, operator, right) => ExprView::Logical(
            Box::new(unlined(*left)),
            unlined_token(operator),
            Box::new(unlined(*right)),
        ),
        ExprView::Variable(id, name) => ExprView::Variable(id, unlined_token(name)),
        ExprView::Assign(id, name, value) => ExprView::Assign(
            id,
            unlined_token(name),
            Box::new(unlined(*value)),
        ),
        ExprView::Call(callee, paren, arguments) => ExprView::Call(
            Box::new(unlined(*callee)),
            unlined_token(paren),
            unlined_all(arguments, arguments.len()),
        ),
    }
}

/// The first `count` expressions of a list without the lines of their
/// tokens.
pub open spec fn unlined_all(list: Seq<ExprView>, count: nat) -> Seq<ExprView>
    decreases list, count,
{
    if count == 0 || count > list.len() {
        Seq::empty()
    } else {
        unlined_all(list, (count - 1) as nat).push(unlined(list[count - 1]))
    }
}

/// Whether two states of a parse differ in the lines of their tokens and
/// in the words of their messages only.
pub open spec fn alike(p: Parsing, q: Parsing) -> bool {
    &&& p.tokens.len() == q.tokens.len()
    &&& forall|i: int|
        0 <= i < p.tokens.len() ==> same_but_line(#[trigger] p.tokens[i], q.tokens[i])
    &&& p.current == q.current
    &&& p.next_id == q.next_id
    &&& p.diagnostics.len() == q.diagnostics.len()
}

/// Whether two parses ended alike: both with an expression or both with an
/// error, in states that are alike, and with expressions that differ in
/// the lines of their tokens only.
pub open spec fn ended_alike(r: Parsed<ExprView>, s: Parsed<ExprView>) -> bool {
    match (r, s) {
        (Parsed::Done(p, e), Parsed::Done(q, f)) => alike(p, q) && unlined(e) == unlined(f),
        (Parsed::Failed(p), Parsed::Failed(q)) => alike(p, q),
        _ => false,
    }
}

/// What is looked at in states that are alike is alike.
pub proof fn peeks_alike(p: Parsing, q: Parsing)
    requires
        alike(p, q),
    ensures
        same_but_line(p.peek(), q.peek()),
        unlined_token(p.peek()) == unlined_token(q.peek()),
        alike(p.advance(), q.advance()),
        alike(p.fresh(), q.fresh()),
        forall|message: Seq<char>| #![auto] alike(
            p.report(p.peek(), message),
            q.report(q.peek(), message),
        ),
{
    if p.current < p.tokens.len() {
        assert(same_but_line(p.tokens[p.current as int], q.tokens[p.current as int]));
    }
}

/// The first expressions of a list lose their lines the same whatever
/// follows them in the list.
pub proof fn unlined_of_prefix(list: Seq<ExprView>, longer: Seq<ExprView>, count: nat)
    requires
        count <= list.len() <= longer.len(),
        forall|i: int| 0 <= i < list.len() ==> list[i] == longer[i],
    ensures
        unlined_all(longer, count) == unlined_all(list, count),
    decreases count,
{
    if count > 0 {
        unlined_of_prefix(list, longer, (count - 1) as nat);
    }
}

pub proof fn expression_alike(p: Parsing, q: Parsing)
    requires
        ready(p),
        ready(q),
        alike(p, q),
    ensures
        ended_alike(p.expression(), q.expression()),
    decreases p.measure(), 46nat,
{
    assignment_alike(p, q);
}

pub proof fn assignment_alike(p: Parsing, q: Parsing)
    requires
        ready(p),
        ready(q),
        alike(p, q),
    ensures
        ended_alike(p.assignment(), q.assignment()),
    decreases p.measure(), 45nat,
{
    binary_alike(p, q, 0);
    binary_writes(p, 0);
    binary_writes(q, 0);
    match (p.binary(0), q.binary(0)) {
        (Parsed::Done(p1, target), Parsed::Done(q1, goal)) => {
            peeks_alike(p1, q1);
            if p1.check(TokenType::Equal) {
                advance_passes(p1);
                advance_passes(q1);
                let p2 = p1.advance();
                let q2 = q1.advance();
                assignment_alike(p2, q2);
                match (p2.assignment(), q2.assignment()) {
                    (Parsed::Done(p3, value), Parsed::Done(q3, worth)) => {
                        peeks_alike(p3, q3);
                        assert(alike(
                            p3.report(p1.peek(), "Invalid assignment target."@),
                            q3.report(q1.peek(), "Invalid assignment target."@),
                        ));
                    },
                    _ => {},
                }
            }
        },
        _ => {},
    }
}

pub proof fn operand_alike(p: Parsing, q: Parsing, level: nat)
    requires
        ready(p),
        ready(q),
        alike(p, q),
        level <= 5,
    ensures
        ended_alike(p.operand(level), q.operand(level)),
    decreases p.measure(), (39 - 2 * level) as nat,
{
    if level < 5 {
        binary_alike(p, q, level + 1);
    } else {
        unary_alike(p, q);
    }
}

pub proof fn binary_alike(p: Parsing, q: Parsing, level: nat)
    requires
        ready(p),
        ready(q),
        alike(p, q),
        level <= 5,
    ensures
        ended_alike(p.binary(level), q.binary(level)),
    decreases p.measure(), (40 - 2 * level) as nat,
{
    operand_alike(p, q, level);
    operand_writes(p, level);
    operand_writes(q, level);
    match (p.operand(level), q.operand(level)) {
        (Parsed::Done(p1, left), Parsed::Done(q1, other)) => {
            binary_tail_alike(p1, q1, level, left, other);
        },
        _ => {},
    }
}

pub proof fn binary_tail_alike(p: Parsing, q: Parsing, level: nat, left: ExprView, other: ExprView)
    requires
        ready(p),
        ready(q),
        alike(p, q),
        level <= 5,
        unlined(left) == unlined(other),
    ensures
        ended_alike(p.binary_tail(level, left), q.binary_tail(level, other)),
    decreases p.measure(), 10nat,
{
    peeks_alike(p, q);
    if operator_of(level, p.peek().token_type) {
        advance_passes(p);
        advance_passes(q);
        let p1 = p.advance();
        let q1 = q.advance();
        operand_alike(p1, q1, level);
        operand_writes(p1, level);
        operand_writes(q1, level);
        match (p1.operand(level), q1.operand(level)) {
            (Parsed::Done(p2, right), Parsed::Done(q2, wrong)) => {
                binary_tail_alike(
                    p2,
                    q2,
                    level,
                    combine(level, left, p.peek(), right),
                    combine(level, other, q.peek(), wrong),
                );
            },
            _ => {},
        }
    }
}

pub proof fn unary_alike(p: Parsing, q: Parsing)
    requires
        ready(p),
        ready(q),
        alike(p, q),
    ensures
        ended_alike(p.unary(), q.unary()),
    decreases p.measure(), 20nat,
{
    peeks_alike(p, q);
    if p.check(TokenType::Bang) || p.check(TokenType::Minus) {
        advance_passes(p);
        advance_passes(q);
        unary_alike(p.advance(), q.advance());
    } else {
        call_alike(p, q);
    }
}

pub proof fn call_alike(p: Parsing, q: Parsing)
    requires
        ready(p),
        ready(q),
        alike(p, q),
    ensures
        ended_alike(p.call(), q.call()),
    decreases p.measure(), 19nat,
{
    primary_alike(p, q);
    primary_writes(p);
    primary_writes(q);
    match (p.primary(), q.primary()) {
        (Parsed::Done(p1, callee), Parsed::Done(q1, other)) => {
            call_tail_alike(p1, q1, callee, other);
        },
        _ => {},
    }
}

pub proof fn call_tail_alike(p: Parsing, q: Parsing, callee: ExprView, other: ExprView)
    requires
        ready(p),
        ready(q),
        alike(p, q),
        unlined(callee) == unlined(other),
    ensures
        ended_alike(p.call_tail(callee), q.call_tail(other)),
    decreases p.measure(), 9nat,
{
    peeks_alike(p, q);
    if p.check(TokenType::LeftParen) {
        advance_passes(p);
        advance_passes(q);
        let p1 = p.advance();
        let q1 = q.advance();
        peeks_alike(p1, q1);
        let none = Seq::<ExprView>::empty();
        if !p1.check(TokenType::RightParen) {
            arguments_alike(p1, q1, none, none);
            arguments_go_on(p1, none);
            arguments_go_on(q1, none);
        }
        let left = if p1.check(TokenType::RightParen) {
            Parsed::Done(p1, none)
        } else {
            p1.arguments(none)
        };
        let right = if q1.check(TokenType::RightParen) {
            Parsed::Done(q1, none)
        } else {
            q1.arguments(none)
        };
        match (left, right) {
            (Parsed::Done(p2, arguments), Parsed::Done(q2, others)) => {
                peeks_alike(p2, q2);
                consume_passes(p2, TokenType::RightParen, "Expect ')' after arguments."@);
                consume_passes(q2, TokenType::RightParen, "Expect ')' after arguments."@);
                match (
                    p2.consume(TokenType::RightParen, "Expect ')' after arguments."@),
                    q2.consume(TokenType::RightParen, "Expect ')' after arguments."@),
                ) {
                    (Parsed::Done(p3, paren), Parsed::Done(q3, closing)) => {
                        call_tail_alike(
                            p3,
                            q3,
                            ExprView::Call(Box::new(callee), paren, arguments),
                            ExprView::Call(Box::new(other), closing, others),
                        );
                    },
                    _ => {},
                }
            },
            _ => {},
        }
    }
}

/// The arguments of two calls that are alike are alike: as many, and they
/// differ in the lines of their tokens only.
pub proof fn arguments_alike(p: Parsing, q: Parsing, before: Seq<ExprView>, others: Seq<ExprView>)
    requires
        ready(p),
        ready(q),
        alike(p, q),
        before.len() == others.len(),
        unlined_all(before, before.len()) == unlined_all(others, others.len()),
    ensures
        match (p.arguments(before), q.arguments(others)) {
            (Parsed::Done(p1, all), Parsed::Done(q1, every)) => alike(p1, q1) && all.len()
                == every.len() && unlined_all(all, all.len()) == unlined_all(every, every.len()),
            (Parsed::Failed(p1), Parsed::Failed(q1)) => alike(p1, q1),
            _ => false,
        },
    decreases p.measure(), 47nat,
{
    peeks_alike(p, q);
    let p0 = if before.len() >= 255 {
        p.report(p.peek(), "Can't have more than 255 arguments."@)
    } else {
        p
    };
    let q0 = if others.len() >= 255 {
        q.report(q.peek(), "Can't have more than 255 arguments."@)
    } else {
        q
    };
    assert(alike(p0, q0));
    expression_alike(p0, q0);
    expression_writes(p0);
    expression_writes(q0);
    match (p0.expression(), q0.expression()) {
        (Parsed::Done(p1, argument), Parsed::Done(q1, item)) => {
            let all = before.push(argument);
            let every = others.push(item);
            unlined_of_prefix(before, all, before.len());
            unlined_of_prefix(others, every, others.len());
            assert(unlined_all(all, all.len()) == unlined_all(every, every.len()));
            peeks_alike(p1, q1);
            if p1.check(TokenType::Comma) {
                advance_passes(p1);
                advance_passes(q1);
                arguments_alike(p1.advance(), q1.advance(), all, every);
            }
        },
        _ => {},
    }
}

pub proof fn primary_alike(p: Parsing, q: Parsing)
    requires
        ready(p),
        ready(q),
        alike(p, q),
    ensures
        ended_alike(p.primary(), q.primary()),
    decreases p.measure(), 18nat,
{
    peeks_alike(p, q);
    if p.peek().token_type == TokenType::LeftParen {
        advance_passes(p);
        advance_passes(q);
        let p1 = p.advance();
        let q1 = q.advance();
        expression_alike(p1, q1);
        expression_writes(p1);
        expression_writes(q1);
        match (p1.expression(), q1.expression()) {
            (Parsed::Done(p2, inner), Parsed::Done(q2, core)) => {
                peeks_alike(p2, q2);
            },
            _ => {},
        }
    } else {
        let after = p.advance();
        let other = q.advance();
        peeks_alike(after, other);
    }
}

} // verus!

verus! {

/// The tokens of a source without a lexical error: the last is `EOF`, and
/// every other is well made and no `EOF`.
pub proof fn scanned_tokens_are_well_made(src: Seq<char>, pos: int, line: usize)
    requires
        0 <= pos <= src.len(),
        scan_all(src, pos, line).1.len() == 0,
    ensures
        scan_all(src, pos, line).0.len() > 0,
        same_but_line(scan_all(src, pos, line).0.last(), crate::round_trip::end_token(0)),
        forall|i: int|
            0 <= i < scan_all(src, pos, line).0.len() - 1 ==> well_made(
                #[trigger] scan_all(src, pos, line).0[i],
            ) && scan_all(src, pos, line).0[i].token_type != TokenType::EOF,
    decreases src.len() - pos,
{
    let s = scan(src, pos, line);
    scan_bounds(src, pos, line);
    let tokens = scan_all(src, pos, line).0;
    match s.outcome {
        Ok(token) => {
            if token.token_type == TokenType::EOF {
                assert(tokens =~= seq![token]);
            } else {
                let rest = scan_all(src, s.position, s.line);
                assert(tokens =~= seq![token] + rest.0);
                assert(rest.1 =~= scan_all(src, pos, line).1);
                scanned_is_well_made(src, pos, line);
                scanned_tokens_are_well_made(src, s.position, s.line);
                assert(tokens.last() == rest.0.last());
                assert forall|i: int| 0 <= i < tokens.len() - 1 implies well_made(
                    #[trigger] tokens[i],
                ) && tokens[i].token_type != TokenType::EOF by {
                    if i > 0 {
                        assert(tokens[i] == rest.0[i - 1]);
                    }
                }
            }
        },
        Err(error) => {
            assert(scan_all(src, pos, line).1[0] == error);
        },
    }
}

/// The expression of a parse that ended with one.
pub open spec fn parsed_expression(r: Parsed<ExprView>) -> ExprView {
    match r {
        Parsed::Done(_, e) => e,
        Parsed::Failed(_) => ExprView::Literal(crate::token::LiteralView::Nil),
    }
}

/// An expression reads back from its source form. Where a source scans
/// without an error and is, as a whole, one expression that parses
/// without an error, the source form of that expression scans, without an
/// error, to the same tokens but for their lines, and these parse, without
/// an error, to the same expression but for the lines of its tokens.
pub proof fn source_form_parses_back(src: Seq<char>)
    requires
        scan_all(src, 0, 1).1.len() == 0,
        Parsing::begin(scan_all(src, 0, 1).0).expression() is Done,
        Parsing::begin(scan_all(src, 0, 1).0).expression().state().diagnostics.len() == 0,
        Parsing::begin(scan_all(src, 0, 1).0).expression().state().current + 1 == scan_all(
            src,
            0,
            1,
        ).0.len(),
    ensures
        ({
            let tokens = scan_all(src, 0, 1).0;
            let first = Parsing::begin(tokens).expression();
            let text = source(parsed_expression(first));
            let again = scan_all(text, 0, 1);
            let second = Parsing::begin(again.0).expression();
            &&& text == spaced(tokens.drop_last())
            &&& again.1.len() == 0
            &&& again.0.len() == tokens.len()
            &&& forall|i: int|
                0 <= i < tokens.len() ==> same_but_line(#[trigger] again.0[i], tokens[i])
            &&& second is Done
            &&& second.state().diagnostics.len() == 0
            &&& second.state().current == first.state().current
            &&& unlined(parsed_expression(second)) == unlined(parsed_expression(first))
        }),
{
    let tokens = scan_all(src, 0, 1).0;
    scanned_tokens_are_well_made(src, 0, 1);
    let p = Parsing::begin(tokens);
    assert(ready(p));
    expression_writes(p);
    let first = p.expression();
    let e = parsed_expression(first);
    let k = first.state().current as int;
    let made = tokens.subrange(0, k);
    assert(made =~= tokens.drop_last());
    let text = source(e);
    assert(text == spaced(made));
    assert(text.subrange(0, text.len() as int) =~= text);
    assert forall|i: int| 0 <= i < made.len() implies well_made(#[trigger] made[i]) by {
        assert(made[i] == tokens[i]);
    }
    spaced_scans_back(made, text, 0, 1, 0);
    let again = scan_all(text, 0, 1);
    assert(again.1.len() == 0);
    assert forall|i: int| 0 <= i < tokens.len() implies same_but_line(
        #[trigger] again.0[i],
        tokens[i],
    ) by {
        if i < k {
            assert(made[i] == tokens[i]);
        } else {
            assert(again.0[i] == again.0.last());
            assert(tokens[i] == tokens.last());
        }
    }
    let q = Parsing::begin(again.0);
    assert(ready(q)) by {
        assert forall|i: int|
            0 <= i < q.tokens.len() && (#[trigger] q.tokens[i]).token_type
                != TokenType::EOF implies well_made(q.tokens[i]) by {
            assert(same_but_line(again.0[i], tokens[i]));
            assert(i < k);
            assert(well_made(tokens[i]));
        }
    }
    assert(alike(p, q)) by {
        assert forall|i: int| 0 <= i < p.tokens.len() implies same_but_line(
            #[trigger] p.tokens[i],
            q.tokens[i],
        ) by {
            assert(same_but_line(again.0[i], tokens[i]));
        }
    }
    expression_alike(p, q);
}

} // verus!
