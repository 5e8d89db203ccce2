//! What the parser makes of tokens, written out again, is those tokens:
//! the source form of an expression is the text of the tokens that it was
//! parsed from, with one space between each two.
use vstd::prelude::*;
use crate::ast_parser::{combine, operator_of, Parsed, Parsing};
use crate::ast_printer::{listed, printed_literal, source};
use crate::expr::ExprView;
use crate::round_trip::{spaced, well_made};
use crate::scanner::quote_at_bounds;
use crate::token::{TokenType, TokenView};

verus! {

/// The letters of the texts that the source form is made of.
pub proof fn punctuation()
    ensures
        " "@ == seq![' '],
        "("@ == seq!['('],
        ")"@ == seq![')'],
        ","@ == seq![','],
        "="@ == seq!['='],
        "\""@ == seq!['"'],
        "( "@ == seq!['(', ' '],
        " )"@ == seq![' ', ')'],
        " = "@ == seq![' ', '=', ' '],
        " ( )"@ == seq![' ', '(', ' ', ')'],
        " ( "@ == seq![' ', '(', ' '],
        " , "@ == seq![' ', ',', ' '],
        "true"@ == seq!['t', 'r', 'u', 'e'],
        "false"@ == seq!['f', 'a', 'l', 's', 'e'],
        "nil"@ == seq!['n', 'i', 'l'],
{
    reveal_strlit(" ");
    reveal_strlit("(");
    reveal_strlit(")");
    reveal_strlit(",");
    reveal_strlit("=");
    reveal_strlit("\"");
    reveal_strlit("( ");
    reveal_strlit(" )");
    reveal_strlit(" = ");
    reveal_strlit(" ( )");
    reveal_strlit(" ( ");
    reveal_strlit(" , ");
    reveal_strlit("true");
    reveal_strlit("false");
    reveal_strlit("nil");
    assert(" "@ =~= seq![' ']);
    assert("("@ =~= seq!['(']);
    assert(")"@ =~= seq![')']);
    assert(","@ =~= seq![',']);
    assert("="@ =~= seq!['=']);
    assert("\""@ =~= seq!['"']);
    assert("( "@ =~= seq!['(', ' ']);
    assert(" )"@ =~= seq![' ', ')']);
    assert(" = "@ =~= seq![' ', '=', ' ']);
    assert(" ( )"@ =~= seq![' ', '(', ' ', ')']);
    assert(" ( "@ =~= seq![' ', '(', ' ']);
    assert(" , "@ =~= seq![' ', ',', ' ']);
    assert("true"@ =~= seq!['t', 'r', 'u', 'e']);
    assert("false"@ =~= seq!['f', 'a', 'l', 's', 'e']);
    assert("nil"@ =~= seq!['n', 'i', 'l']);
}

/// The text of a well-made token of a kind that has one text only, and of
/// a literal: the text that the source form writes for it.
pub proof fn token_text(t: TokenView)
    requires
        well_made(t),
    ensures
        t.token_type != TokenType::EOF,
        t.token_type == TokenType::LeftParen ==> t.lexeme == "("@,
        t.token_type == TokenType::RightParen ==> t.lexeme == ")"@,
        t.token_type == TokenType::Comma ==> t.lexeme == ","@,
        t.token_type == TokenType::Equal ==> t.lexeme == "="@,
        t.token_type == TokenType::True ==> t.lexeme == "true"@,
        t.token_type == TokenType::False ==> t.lexeme == "false"@,
        t.token_type == TokenType::Nil ==> t.lexeme == "nil"@,
        t.token_type == TokenType::Number || t.token_type == TokenType::String
            ==> printed_literal(t.literal) == t.lexeme,
{
    punctuation();
    crate::scanner::reserved_words();
    let text = t.lexeme;
    let len = text.len() as int;
    assert(text.subrange(0, len) =~= text);
    if t.token_type == TokenType::LeftParen {
        assert(text =~= seq!['(']);
    }
    if t.token_type == TokenType::RightParen {
        assert(text =~= seq![')']);
    }
    if t.token_type == TokenType::Comma {
        assert(text =~= seq![',']);
    }
    if t.token_type == TokenType::Equal {
        assert(text =~= seq!['=']);
    }
    if t.token_type == TokenType::String {
        quote_at_bounds(text, 1);
        crate::round_trip::quote_at_is_a_quote(text, 1);
        assert("\""@ + text.subrange(1, len - 1) + "\""@ =~= text);
    }
}

/// The text of one token.
pub proof fn spaced_one(tokens: Seq<TokenView>, at: int)
    requires
        0 <= at < tokens.len(),
    ensures
        spaced(tokens.subrange(at, at + 1)) == tokens[at].lexeme,
{
    assert(tokens.subrange(at, at + 1)[0] == tokens[at]);
}

/// The text of tokens is the text of the first of them, a space, and the
/// text of the others.
pub proof fn spaced_split(tokens: Seq<TokenView>, from: int, mid: int, to: int)
    requires
        0 <= from < mid < to <= tokens.len(),
    ensures
        spaced(tokens.subrange(from, to)) == spaced(tokens.subrange(from, mid)) + " "@ + spaced(
            tokens.subrange(mid, to),
        ),
    decreases mid - from,
{
    let whole = tokens.subrange(from, to);
    let head = tokens.subrange(from, mid);
    assert(whole[0] == tokens[from]);
    assert(head[0] == tokens[from]);
    assert(whole.drop_first() =~= tokens.subrange(from + 1, to));
    assert(head.drop_first() =~= tokens.subrange(from + 1, mid));
    if mid == from + 1 {
        assert(spaced(head) == tokens[from].lexeme);
    } else {
        spaced_split(tokens, from + 1, mid, to);
        assert(spaced(whole) =~= spaced(head) + " "@ + spaced(tokens.subrange(mid, to)));
    }
}

/// The text of tokens and of one more token.
pub proof fn spaced_with_one(tokens: Seq<TokenView>, from: int, to: int)
    requires
        0 <= from < to < tokens.len(),
    ensures
        spaced(tokens.subrange(from, to + 1)) == spaced(tokens.subrange(from, to)) + " "@
            + tokens[to].lexeme,
{
    spaced_split(tokens, from, to, to + 1);
    spaced_one(tokens, to);
}

/// One token and the text of tokens after it.
pub proof fn spaced_after_one(tokens: Seq<TokenView>, from: int, to: int)
    requires
        0 <= from,
        from + 1 < to <= tokens.len(),
    ensures
        spaced(tokens.subrange(from, to)) == tokens[from].lexeme + " "@ + spaced(
            tokens.subrange(from + 1, to),
        ),
{
    spaced_split(tokens, from, from + 1, to);
    spaced_one(tokens, from);
}

/// Whether a parse can start: every token but `EOF` is well made, and the
/// place is among the tokens or at their end.
pub open spec fn ready(p: Parsing) -> bool {
    &&& forall|i: int|
        0 <= i < p.tokens.len() && (#[trigger] p.tokens[i]).token_type != TokenType::EOF
            ==> well_made(p.tokens[i])
    &&& p.current <= p.tokens.len()
}

/// Parsing goes onward: the tokens stay, the place does not go back nor
/// past the end, and no message is taken back.
pub open spec fn onward(p: Parsing, q: Parsing) -> bool {
    &&& q.tokens == p.tokens
    &&& p.current <= q.current <= p.tokens.len()
    &&& q.diagnostics.len() >= p.diagnostics.len()
}

/// Whether no error was reported between two states.
pub open spec fn clean(p: Parsing, q: Parsing) -> bool {
    q.diagnostics.len() == p.diagnostics.len()
}

/// What the lemmas below say of parsing an expression from the state `p`,
/// where the expression starts at the token `from`: parsing goes onward,
/// and an expression parsed without an error is, in source form, the text
/// of the tokens from `from` to where the parse ended.
pub open spec fn written(p: Parsing, from: int, r: Parsed<ExprView>) -> bool {
    &&& onward(p, r.state())
    &&& match r {
        Parsed::Done(q, e) => clean(p, q) ==> from < q.current && source(e) == spaced(
            p.tokens.subrange(from, q.current as int),
        ),
        Parsed::Failed(_) => true,
    }
}

/// What consuming a token does: onward, by one token of the kind asked for
/// where it succeeds without an error.
pub proof fn consume_passes(p: Parsing, kind: TokenType, message: Seq<char>)
    requires
        ready(p),
        kind != TokenType::EOF,
    ensures
        onward(p, p.consume(kind, message).state()),
        match p.consume(kind, message) {
            Parsed::Done(q, t) => p.current < p.tokens.len() && q.current == p.current + 1
                && clean(p, q) && t == p.tokens[p.current as int] && t.token_type == kind,
            Parsed::Failed(q) => !clean(p, q),
        },
{
    if p.current < p.tokens.len() && p.tokens[p.current as int].token_type != TokenType::EOF {
        token_text(p.tokens[p.current as int]);
    }
}

/// What passing a token that is not the end does.
pub proof fn advance_passes(p: Parsing)
    requires
        ready(p),
        !p.at_end(),
    ensures
        p.current < p.tokens.len(),
        p.advance().current == p.current + 1,
        p.advance().measure() < p.measure(),
        onward(p, p.advance()),
        clean(p, p.advance()),
        ready(p.advance()),
{
}

pub proof fn expression_writes(p: Parsing)
    requires
        ready(p),
    ensures
        written(p, p.current as int, p.expression()),
    decreases p.measure(), 46nat,
{
    assignment_writes(p);
}

pub proof fn assignment_writes(p: Parsing)
    requires
        ready(p),
    ensures
        written(p, p.current as int, p.assignment()),
    decreases p.measure(), 45nat,
{
    punctuation();
    binary_writes(p, 0);
    match p.binary(0) {
        Parsed::Failed(_) => {},
        Parsed::Done(p1, target) => {
            if p1.check(TokenType::Equal) {
                advance_passes(p1);
                let p2 = p1.advance();
                token_text(p1.tokens[p1.current as int]);
                assignment_writes(p2);
                match p2.assignment() {
                    Parsed::Failed(_) => {},
                    Parsed::Done(p3, value) => {
                        match target {
                            ExprView::Variable(_, name) => {
                                let q = p3.fresh();
                                if clean(p, q) {
                                    let a = p.current as int;
                                    spaced_split(p.tokens, a, p1.current as int, p3.current as int);
                                    spaced_after_one(
                                        p.tokens,
                                        p1.current as int,
                                        p3.current as int,
                                    );
                                    assert(source(
                                        ExprView::Assign(p3.next_id, name, Box::new(value)),
                                    ) =~= spaced(p.tokens.subrange(a, p3.current as int)));
                                }
                            },
                            _ => {},
                        }
                    },
                }
            }
        },
    }
}

pub proof fn operand_writes(p: Parsing, level: nat)
    requires
        ready(p),
        level <= 5,
    ensures
        written(p, p.current as int, p.operand(level)),
    decreases p.measure(), (39 - 2 * level) as nat,
{
    if level < 5 {
        binary_writes(p, level + 1);
    } else {
        unary_writes(p);
    }
}

pub proof fn binary_writes(p: Parsing, level: nat)
    requires
        ready(p),
        level <= 5,
    ensures
        written(p, p.current as int, p.binary(level)),
    decreases p.measure(), (40 - 2 * level) as nat,
{
    operand_writes(p, level);
    match p.operand(level) {
        Parsed::Failed(_) => {},
        Parsed::Done(p1, left) => {
            if clean(p, p1) {
                binary_tail_writes(p1, level, left, p.current as int);
            } else {
                binary_tail_goes_on(p1, level, left);
            }
        },
    }
}

/// The operators and operands after a left operand go onward.
pub proof fn binary_tail_goes_on(p: Parsing, level: nat, left: ExprView)
    requires
        ready(p),
        level <= 5,
    ensures
        onward(p, p.binary_tail(level, left).state()),
    decreases p.measure(), 10nat,
{
    if operator_of(level, p.peek().token_type) {
        advance_passes(p);
        let p1 = p.advance();
        operand_writes(p1, level);
        match p1.operand(level) {
            Parsed::Failed(_) => {},
            Parsed::Done(p2, right) => {
                binary_tail_goes_on(p2, level, combine(level, left, p.peek(), right));
            },
        }
    }
}

pub proof fn binary_tail_writes(p: Parsing, level: nat, left: ExprView, from: int)
    requires
        ready(p),
        level <= 5,
        0 <= from < p.current,
        source(left) == spaced(p.tokens.subrange(from, p.current as int)),
    ensures
        written(p, from, p.binary_tail(level, left)),
    decreases p.measure(), 10nat,
{
    punctuation();
    if operator_of(level, p.peek().token_type) {
        advance_passes(p);
        let p1 = p.advance();
        operand_writes(p1, level);
        match p1.operand(level) {
            Parsed::Failed(_) => {},
            Parsed::Done(p2, right) => {
                let joined = combine(level, left, p.peek(), right);
                if clean(p, p2) {
                    spaced_split(p.tokens, from, p.current as int, p2.current as int);
                    spaced_after_one(p.tokens, p.current as int, p2.current as int);
                    assert(source(joined) =~= spaced(p.tokens.subrange(from, p2.current as int)));
                    binary_tail_writes(p2, level, joined, from);
                } else {
                    binary_tail_goes_on(p2, level, joined);
                }
            },
        }
    }
}

pub proof fn unary_writes(p: Parsing)
    requires
        ready(p),
    ensures
        written(p, p.current as int, p.unary()),
    decreases p.measure(), 20nat,
{
    punctuation();
    if p.check(TokenType::Bang) || p.check(TokenType::Minus) {
        advance_passes(p);
        let p1 = p.advance();
        unary_writes(p1);
        match p1.unary() {
            Parsed::Failed(_) => {},
            Parsed::Done(p2, right) => {
                if clean(p, p2) {
                    spaced_after_one(p.tokens, p.current as int, p2.current as int);
                }
            },
        }
    } else {
        call_writes(p);
    }
}

pub proof fn call_writes(p: Parsing)
    requires
        ready(p),
    ensures
        written(p, p.current as int, p.call()),
    decreases p.measure(), 19nat,
{
    primary_writes(p);
    match p.primary() {
        Parsed::Failed(_) => {},
        Parsed::Done(p1, callee) => {
            if clean(p, p1) {
                call_tail_writes(p1, callee, p.current as int);
            } else {
                call_tail_goes_on(p1, callee);
            }
        },
    }
}

/// The calls after a callee go onward.
pub proof fn call_tail_goes_on(p: Parsing, callee: ExprView)
    requires
        ready(p),
    ensures
        onward(p, p.call_tail(callee).state()),
    decreases p.measure(), 9nat,
{
    if p.check(TokenType::LeftParen) {
        advance_passes(p);
        let p1 = p.advance();
        let listed = if p1.check(TokenType::RightParen) {
            Parsed::Done(p1, Seq::empty())
        } else {
            p1.arguments(Seq::empty())
        };
        if !p1.check(TokenType::RightParen) {
            arguments_write(p1, Seq::empty(), p1.current as int);
        }
        match listed {
            Parsed::Failed(_) => {},
            Parsed::Done(p2, arguments) => {
                consume_passes(p2, TokenType::RightParen, "Expect ')' after arguments."@);
                match p2.consume(TokenType::RightParen, "Expect ')' after arguments."@) {
                    Parsed::Failed(_) => {},
                    Parsed::Done(p3, paren) => {
                        call_tail_goes_on(p3, ExprView::Call(Box::new(callee), paren, arguments));
                    },
                }
            },
        }
    }
}

pub proof fn call_tail_writes(p: Parsing, callee: ExprView, from: int)
    requires
        ready(p),
        0 <= from < p.current,
        source(callee) == spaced(p.tokens.subrange(from, p.current as int)),
    ensures
        written(p, from, p.call_tail(callee)),
    decreases p.measure(), 9nat,
{
    punctuation();
    if p.check(TokenType::LeftParen) {
        advance_passes(p);
        let p1 = p.advance();
        token_text(p.tokens[p.current as int]);
        let parsed = if p1.check(TokenType::RightParen) {
            Parsed::Done(p1, Seq::empty())
        } else {
            p1.arguments(Seq::empty())
        };
        if !p1.check(TokenType::RightParen) {
            arguments_write(p1, Seq::empty(), p1.current as int);
        }
        match parsed {
            Parsed::Failed(_) => {},
            Parsed::Done(p2, arguments) => {
                consume_passes(p2, TokenType::RightParen, "Expect ')' after arguments."@);
                match p2.consume(TokenType::RightParen, "Expect ')' after arguments."@) {
                    Parsed::Failed(_) => {},
                    Parsed::Done(p3, paren) => {
                        let call = ExprView::Call(Box::new(callee), paren, arguments);
                        if clean(p, p3) {
                            token_text(paren);
                            let a = p.current as int;
                            let b = p1.current as int;
                            let c = p2.current as int;
                            let d = p3.current as int;
                            // callee, "(", the arguments, ")"
                            spaced_with_one(p.tokens, from, a);
                            if arguments.len() == 0 {
                                assert(c == b);
                                spaced_with_one(p.tokens, from, c);
                                assert(source(call) =~= spaced(p.tokens.subrange(from, d)));
                            } else {
                                spaced_split(p.tokens, from, b, c);
                                spaced_with_one(p.tokens, from, c);
                                assert(source(call) =~= spaced(p.tokens.subrange(from, d)));
                            }
                            call_tail_writes(p3, call, from);
                        } else {
                            call_tail_goes_on(p3, call);
                        }
                    },
                }
            },
        }
    }
}

/// The first expressions of a list are written the same whatever follows
/// them in the list.
pub proof fn listed_of_prefix(list: Seq<ExprView>, longer: Seq<ExprView>, count: nat)
    requires
        count <= list.len() <= longer.len(),
        forall|i: int| 0 <= i < list.len() ==> list[i] == longer[i],
    ensures
        listed(longer, count) == listed(list, count),
    decreases count,
{
    if count > 1 {
        listed_of_prefix(list, longer, (count - 1) as nat);
    }
}

/// The arguments of a call, where `before` are those already parsed, which
/// start at the token `from` and end with a comma.
pub proof fn arguments_write(p: Parsing, before: Seq<ExprView>, from: int)
    requires
        ready(p),
        0 <= from <= p.current,
        before.len() == 0 ==> from == p.current,
        before.len() > 0 ==> from < p.current && spaced(p.tokens.subrange(from, p.current as int))
            == listed(before, before.len()) + " ,"@,
    ensures
        onward(p, p.arguments(before).state()),
        match p.arguments(before) {
            Parsed::Done(q, all) => clean(p, q) ==> all.len() > 0 && from < q.current && spaced(
                p.tokens.subrange(from, q.current as int),
            ) == listed(all, all.len()),
            Parsed::Failed(_) => true,
        },
    decreases p.measure(), 47nat,
{
    punctuation();
    reveal_strlit(" ,");
    let p0 = if before.len() >= 255 {
        p.report(p.peek(), "Can't have more than 255 arguments."@)
    } else {
        p
    };
    expression_writes(p0);
    match p0.expression() {
        Parsed::Failed(_) => {},
        Parsed::Done(p1, argument) => {
            let all = before.push(argument);
            let a = p.current as int;
            let b = p1.current as int;
            let so_far = clean(p, p1);
            if so_far {
                listed_of_prefix(before, all, before.len());
                if before.len() > 0 {
                    spaced_split(p.tokens, from, a, b);
                    assert(listed(before, before.len()) + " ,"@ + " "@ + source(argument)
                        =~= listed(before, before.len()) + " , "@ + source(argument));
                    assert(spaced(p.tokens.subrange(from, b)) =~= listed(all, all.len()));
                } else {
                    assert(spaced(p.tokens.subrange(from, b)) == listed(all, all.len()));
                }
            }
            if p1.check(TokenType::Comma) {
                advance_passes(p1);
                let p2 = p1.advance();
                token_text(p1.tokens[p1.current as int]);
                if so_far {
                    spaced_with_one(p.tokens, from, b);
                    assert(spaced(p.tokens.subrange(from, p2.current as int)) =~= listed(
                        all,
                        all.len(),
                    ) + " ,"@);
                    arguments_write(p2, all, from);
                } else {
                    arguments_go_on(p2, all);
                }
            }
        },
    }
}

/// The arguments of a call go onward.
pub proof fn arguments_go_on(p: Parsing, before: Seq<ExprView>)
    requires
        ready(p),
    ensures
        onward(p, p.arguments(before).state()),
    decreases p.measure(), 47nat,
{
    let p0 = if before.len() >= 255 {
        p.report(p.peek(), "Can't have more than 255 arguments."@)
    } else {
        p
    };
    expression_writes(p0);
    match p0.expression() {
        Parsed::Failed(_) => {},
        Parsed::Done(p1, argument) => {
            if p1.check(TokenType::Comma) {
                advance_passes(p1);
                arguments_go_on(p1.advance(), before.push(argument));
            }
        },
    }
}

pub proof fn primary_writes(p: Parsing)
    requires
        ready(p),
    ensures
        written(p, p.current as int, p.primary()),
    decreases p.measure(), 18nat,
{
    if p.peek().token_type == TokenType::LeftParen {
        advance_passes(p);
        expression_writes(p.advance());
        grouping_writes(p);
    } else {
        atom_writes(p);
    }
}

/// A literal or a variable is written as its token.
proof fn atom_writes(p: Parsing)
    requires
        ready(p),
        p.peek().token_type != TokenType::LeftParen,
    ensures
        written(p, p.current as int, p.primary()),
{
    let token = p.peek();
    if p.current < p.tokens.len() && token.token_type != TokenType::EOF {
        assert(well_made(token));
        token_text(token);
        spaced_one(p.tokens, p.current as int);
        let kind = token.token_type;
        if kind == TokenType::False || kind == TokenType::True || kind == TokenType::Nil || kind
            == TokenType::Number || kind == TokenType::String || kind == TokenType::Identifier {
            assert(!p.at_end());
            assert(p.advance().current == p.current + 1);
        }
    }
}

/// An expression in parentheses is written between `(` and `)`.
proof fn grouping_writes(p: Parsing)
    requires
        ready(p),
        p.peek().token_type == TokenType::LeftParen,
        written(p.advance(), p.advance().current as int, p.advance().expression()),
    ensures
        written(p, p.current as int, p.primary()),
{
    advance_passes(p);
    let p1 = p.advance();
    token_text(p.tokens[p.current as int]);
    match p1.expression() {
        Parsed::Failed(_) => {},
        Parsed::Done(p2, inner) => {
            consume_passes(p2, TokenType::RightParen, "Expect ')' after expression."@);
            match p2.consume(TokenType::RightParen, "Expect ')' after expression."@) {
                Parsed::Failed(_) => {},
                Parsed::Done(p3, closing) => {
                    if clean(p, p3) {
                        token_text(closing);
                        let a = p.current as int;
                        let b = p2.current as int;
                        spaced_after_one(p.tokens, a, b);
                        spaced_with_one(p.tokens, a, b);
                        group_text(
                            p.tokens[a].lexeme,
                            spaced(p.tokens.subrange(a + 1, b)),
                            closing.lexeme,
                        );
                        assert(source(ExprView::Grouping(Box::new(inner))) == spaced(
                            p.tokens.subrange(a, p3.current as int),
                        ));
                    }
                },
            }
        },
    }
}

/// The text of an expression in parentheses, put together in two ways.
proof fn group_text(open: Seq<char>, inner: Seq<char>, close: Seq<char>)
    requires
        open == "("@,
        close == ")"@,
    ensures
        "( "@ + inner + " )"@ == open + " "@ + inner + " "@ + close,
{
    punctuation();
    assert("( "@ + inner + " )"@ =~= open + " "@ + inner + " "@ + close);
}

} // verus!
