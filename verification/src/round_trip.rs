//! Printing and parsing again. The printer writes an operation in
//! parentheses with the operator in front, which the language does not
//! read as that operation; what it writes for a literal or a variable is
//! what the source wrote, and reads back as the same expression.
use vstd::prelude::*;
use crate::ast_parser::{Parsed, Parsing};
use crate::ast_printer::printed;
use crate::expr::ExprView;
use crate::scanner::{digits_end, digits_end_bounds, is_alpha, is_alpha_numeric, is_blank, is_digit, lex, line_after, literal_of, number_end, quote_at, quote_at_bounds, scan, scan_all, trivia_end, word_end, word_end_bounds, Lexed};
use crate::token::{LiteralView, TokenType, TokenView};

verus! {

/// Whether a token is an expression by itself.
pub open spec fn is_atom(kind: TokenType) -> bool {
    kind == TokenType::Identifier || kind == TokenType::Number || kind == TokenType::String
        || kind == TokenType::True || kind == TokenType::False || kind == TokenType::Nil
}

/// The expression that a token is by itself; `id` numbers the reference if
/// it is a variable.
pub open spec fn atom(token: TokenView, id: usize) -> ExprView {
    match token.token_type {
        TokenType::Identifier => ExprView::Variable(id, token),
        TokenType::True => ExprView::Literal(LiteralView::Bool(true)),
        TokenType::False => ExprView::Literal(LiteralView::Bool(false)),
        TokenType::Nil => ExprView::Literal(LiteralView::Nil),
        _ => ExprView::Literal(token.literal),
    }
}

/// The token `EOF` that ends the tokens of a text of one line.
pub open spec fn end_token(line: usize) -> TokenView {
    TokenView {
        token_type: TokenType::EOF,
        lexeme: Seq::empty(),
        line,
        literal: LiteralView::Nil,
    }
}

/// Digits end in a part of a text where they end in the text, or where
/// the part ends.
proof fn digits_end_in_part(src: Seq<char>, start: int, end: int, k: int)
    requires
        0 <= start <= start + k <= end <= src.len(),
    ensures
        digits_end(src.subrange(start, end), k) == if digits_end(src, start + k) >= end {
            end - start
        } else {
            digits_end(src, start + k) - start
        },
    decreases end - start - k,
{
    let part = src.subrange(start, end);
    digits_end_bounds(src, start + k);
    if start + k < end {
        assert(part[k] == src[start + k]);
        if is_digit(src[start + k]) {
            digits_end_in_part(src, start, end, k + 1);
        }
    }
}

proof fn word_end_in_part(src: Seq<char>, start: int, end: int, k: int)
    requires
        0 <= start <= start + k <= end <= src.len(),
    ensures
        word_end(src.subrange(start, end), k) == if word_end(src, start + k) >= end {
            end - start
        } else {
            word_end(src, start + k) - start
        },
    decreases end - start - k,
{
    let part = src.subrange(start, end);
    word_end_bounds(src, start + k);
    if start + k < end {
        assert(part[k] == src[start + k]);
        if is_alpha_numeric(src[start + k]) {
            word_end_in_part(src, start, end, k + 1);
        }
    }
}

proof fn quote_at_in_part(src: Seq<char>, start: int, end: int, k: int)
    requires
        0 <= start <= start + k <= end <= src.len(),
    ensures
        quote_at(src.subrange(start, end), k) == if quote_at(src, start + k) >= end {
            end - start
        } else {
            quote_at(src, start + k) - start
        },
    decreases end - start - k,
{
    let part = src.subrange(start, end);
    quote_at_bounds(src, start + k);
    if start + k < end {
        assert(part[k] == src[start + k]);
        if src[start + k] != '"' {
            quote_at_in_part(src, start, end, k + 1);
        }
    }
}

/// Where a double quote is found, there is one.
pub proof fn quote_at_is_a_quote(src: Seq<char>, pos: int)
    requires
        0 <= pos <= src.len(),
        quote_at(src, pos) < src.len(),
    ensures
        src[quote_at(src, pos)] == '"',
    decreases src.len() - pos,
{
    if pos < src.len() && src[pos] != '"' {
        quote_at_is_a_quote(src, pos + 1);
    }
}

/// The text of a token that is an expression by itself, scanned alone,
/// is that token again.
pub proof fn atom_scans_alone(src: Seq<char>, start: int)
    requires
        0 <= start < src.len(),
        lex(src, start) is Token,
        is_atom(lex(src, start)->Token_kind),
    ensures
        ({
            let kind = lex(src, start)->Token_kind;
            let end = lex(src, start).end();
            let text = src.subrange(start, end);
            &&& start < end <= src.len()
            &&& trivia_end(text, 0) == 0
            &&& lex(text, 0) == (Lexed::Token { kind, end: text.len() as int })
            &&& literal_of(kind, text, 0, text.len() as int) == literal_of(kind, src, start, end)
        }),
{
    crate::scanner::lex_bounds(src, start);
    crate::scanner::reserved_words();
    let kind = lex(src, start)->Token_kind;
    let end = lex(src, start).end();
    let text = src.subrange(start, end);
    let c = src[start];
    assert(text[0] == c);
    assert(text.subrange(0, text.len() as int) =~= text);
    if is_digit(c) {
        let whole = digits_end(src, start + 1);
        digits_end_bounds(src, start + 1);
        digits_end_in_part(src, start, end, 1);
        if whole + 1 < src.len() && src[whole] == '.' && is_digit(src[whole + 1]) {
            digits_end_bounds(src, whole + 2);
            digits_end_in_part(src, start, end, whole + 2 - start);
            assert(text[whole - start] == src[whole]);
            assert(text[whole - start + 1] == src[whole + 1]);
        }
        assert(number_end(text, 0) == text.len());
        assert(text.subrange(0, text.len() as int) =~= src.subrange(start, end));
    } else if is_alpha(c) {
        word_end_bounds(src, start + 1);
        word_end_in_part(src, start, end, 1);
        assert(word_end(text, 1) == text.len());
    } else {
        assert(c == '"');
        quote_at_bounds(src, start + 1);
        quote_at_in_part(src, start, end, 1);
        assert(quote_at(text, 1) == text.len() - 1);
        assert(text.subrange(1, text.len() - 1) =~= src.subrange(start + 1, end - 1));
    }
}

/// What the printer writes for a literal or a variable is the text of its
/// token; that text, scanned and parsed again, is the same expression: the
/// tokens are the token and `EOF`, and they parse, without an error, to the
/// expression that the token is by itself.
pub proof fn printed_atom_parses_back(src: Seq<char>, pos: int, line: usize)
    requires
        0 <= pos <= src.len(),
        scan(src, pos, line).outcome is Ok,
        is_atom(scan(src, pos, line).outcome->Ok_0.token_type),
    ensures
        ({
            let token = scan(src, pos, line).outcome->Ok_0;
            let text = printed(atom(token, 0));
            let last = line_after(text, 0, text.len() as int, 1);
            let again = TokenView { line: last, ..token };
            let tokens = seq![again, end_token(last)];
            &&& text == token.lexeme
            &&& scan_all(text, 0, 1) == (tokens, Seq::<crate::error::ErrorView>::empty())
            &&& Parsing::begin(tokens).expression() == Parsed::Done(
                Parsing {
                    current: 1,
                    next_id: if token.token_type == TokenType::Identifier {
                        1
                    } else {
                        0
                    },
                    ..Parsing::begin(tokens)
                },
                atom(again, 0),
            )
        }),
{
    let start = trivia_end(src, pos);
    crate::scanner::trivia_end_bounds(src, pos);
    let token = scan(src, pos, line).outcome->Ok_0;
    assert(start < src.len());
    atom_scans_alone(src, start);
    crate::scanner::reserved_words();
    reveal_strlit("\"");
    let end = lex(src, start).end();
    let text = src.subrange(start, end);
    assert(token.lexeme == text);
    // What the printer writes.
    assert(printed(atom(token, 0)) =~= text) by {
        if token.token_type == TokenType::String {
            quote_at_is_a_quote(src, start + 1);
            quote_at_bounds(src, start + 1);
            assert(text[0] == '"');
            assert(src[end - 1] == '"');
            assert(text[text.len() - 1] == src[end - 1]);
            assert("\""@ + src.subrange(start + 1, end - 1) + "\""@ =~= text);
        }
    }
    // The tokens of that text.
    let last = line_after(text, 0, text.len() as int, 1);
    let again = TokenView { line: last, ..token };
    let first = scan(text, 0, 1);
    assert(first.outcome == Ok::<TokenView, crate::error::ErrorView>(again)) by {
        assert(text.subrange(0, text.len() as int) =~= text);
    }
    assert(first.position == text.len());
    let second = scan(text, text.len() as int, last);
    assert(trivia_end(text, text.len() as int) == text.len());
    assert(line_after(text, text.len() as int, text.len() as int, last) == last);
    assert(second.outcome == Ok::<TokenView, crate::error::ErrorView>(end_token(last)));
    let tokens = seq![again, end_token(last)];
    assert(scan_all(text, text.len() as int, last) == (
        seq![end_token(last)],
        Seq::<crate::error::ErrorView>::empty(),
    ));
    assert(scan_all(text, 0, 1).0 =~= tokens);
    assert(scan_all(text, 0, 1).1 =~= Seq::<crate::error::ErrorView>::empty());
    // The expression that they parse to.
    let p = Parsing::begin(tokens);
    let after = Parsing {
        current: 1,
        next_id: if token.token_type == TokenType::Identifier {
            1
        } else {
            0
        },
        ..p
    };
    assert(p.peek() == again);
    assert(after.peek() == end_token(last));
    assert(p.primary() == Parsed::Done(after, atom(again, 0)));
    reveal_with_fuel(Parsing::binary, 8);
    reveal_with_fuel(Parsing::operand, 8);
    reveal_with_fuel(Parsing::binary_tail, 2);
    reveal_with_fuel(Parsing::call_tail, 2);
    assert(p.call() == Parsed::Done(after, atom(again, 0)));
    assert(p.unary() == Parsed::Done(after, atom(again, 0)));
    assert(p.operand(5) == Parsed::Done(after, atom(again, 0)));
    assert(p.binary(5) == Parsed::Done(after, atom(again, 0)));
    assert(p.binary(4) == Parsed::Done(after, atom(again, 0)));
    assert(p.binary(3) == Parsed::Done(after, atom(again, 0)));
    assert(p.binary(2) == Parsed::Done(after, atom(again, 0)));
    assert(p.binary(1) == Parsed::Done(after, atom(again, 0)));
    assert(p.binary(0) == Parsed::Done(after, atom(again, 0)));
    assert(p.assignment() == Parsed::Done(after, atom(again, 0)));
}

} // verus!

verus! {

/// Whether a token can come from the scanner: its text is not empty, does
/// not start with whitespace, scans as one token of its kind, and carries
/// the literal of that text.
pub open spec fn well_made(t: TokenView) -> bool {
    &&& t.lexeme.len() > 0
    &&& !is_blank(t.lexeme[0])
    &&& lex(t.lexeme, 0) == (Lexed::Token { kind: t.token_type, end: t.lexeme.len() as int })
    &&& t.literal == literal_of(t.token_type, t.lexeme, 0, t.lexeme.len() as int)
}

/// Whether two tokens differ in nothing but the line.
pub open spec fn same_but_line(a: TokenView, b: TokenView) -> bool {
    a.token_type == b.token_type && a.lexeme == b.lexeme && a.literal == b.literal
}

/// The texts of tokens, with one space between each two.
pub open spec fn spaced(tokens: Seq<TokenView>) -> Seq<char>
    decreases tokens.len(),
{
    if tokens.len() == 0 {
        Seq::empty()
    } else if tokens.len() == 1 {
        tokens[0].lexeme
    } else {
        tokens[0].lexeme + " "@ + spaced(tokens.drop_first())
    }
}

/// Where whitespace and comments end inside the text, something else
/// starts: neither whitespace nor a comment.
pub proof fn trivia_end_stops(src: Seq<char>, pos: int)
    requires
        0 <= pos <= src.len(),
        trivia_end(src, pos) < src.len(),
    ensures
        !is_blank(src[trivia_end(src, pos)]),
        !(src[trivia_end(src, pos)] == '/' && trivia_end(src, pos) + 1 < src.len() && src[trivia_end(
            src,
            pos,
        ) + 1] == '/'),
    decreases src.len() - pos,
{
    if pos < src.len() {
        if is_blank(src[pos]) {
            trivia_end_stops(src, pos + 1);
        } else if src[pos] == '/' && pos + 1 < src.len() && src[pos + 1] == '/' {
            crate::scanner::line_end_bounds(src, pos + 2);
            trivia_end_stops(src, crate::scanner::line_end(src, pos + 2));
        }
    }
}

/// A token that the scanner makes is well made.
pub proof fn scanned_is_well_made(src: Seq<char>, pos: int, line: usize)
    requires
        0 <= pos <= src.len(),
        scan(src, pos, line).outcome is Ok,
        scan(src, pos, line).outcome->Ok_0.token_type != TokenType::EOF,
    ensures
        well_made(scan(src, pos, line).outcome->Ok_0),
{
    let start = trivia_end(src, pos);
    crate::scanner::trivia_end_bounds(src, pos);
    trivia_end_stops(src, pos);
    crate::scanner::lex_bounds(src, start);
    crate::scanner::reserved_words();
    let kind = lex(src, start)->Token_kind;
    let end = lex(src, start).end();
    let text = src.subrange(start, end);
    let c = src[start];
    assert(text[0] == c);
    assert(text.subrange(0, text.len() as int) =~= text);
    if is_digit(c) {
        let whole = digits_end(src, start + 1);
        digits_end_bounds(src, start + 1);
        digits_end_in_part(src, start, end, 1);
        if whole + 1 < src.len() && src[whole] == '.' && is_digit(src[whole + 1]) {
            digits_end_bounds(src, whole + 2);
            digits_end_in_part(src, start, end, whole + 2 - start);
            assert(text[whole - start] == src[whole]);
            assert(text[whole - start + 1] == src[whole + 1]);
        }
        assert(number_end(text, 0) == text.len());
    } else if is_alpha(c) {
        word_end_bounds(src, start + 1);
        word_end_in_part(src, start, end, 1);
        assert(word_end(text, 1) == text.len());
    } else if c == '"' {
        quote_at_bounds(src, start + 1);
        quote_at_in_part(src, start, end, 1);
        assert(quote_at(text, 1) == text.len() - 1);
        assert(text.subrange(1, text.len() - 1) =~= src.subrange(start + 1, end - 1));
    } else if c == '!' || c == '=' || c == '<' || c == '>' {
        if start + 1 < src.len() && src[start + 1] == '=' {
            assert(text[1] == '=');
        }
    }
}

/// Digits end at the latest where the text has no digit or ends.
proof fn digits_end_stops(src: Seq<char>, pos: int, limit: int)
    requires
        0 <= pos <= limit <= src.len(),
        limit == src.len() || !is_digit(src[limit]),
    ensures
        digits_end(src, pos) <= limit,
    decreases limit - pos,
{
    if pos < limit && is_digit(src[pos]) {
        digits_end_stops(src, pos + 1, limit);
    }
}

proof fn word_end_stops(src: Seq<char>, pos: int, limit: int)
    requires
        0 <= pos <= limit <= src.len(),
        limit == src.len() || !is_alpha_numeric(src[limit]),
    ensures
        word_end(src, pos) <= limit,
    decreases limit - pos,
{
    if pos < limit && is_alpha_numeric(src[pos]) {
        word_end_stops(src, pos + 1, limit);
    }
}

/// A well-made token stands in a text where its text stands, if a space
/// or the end of the text follows: the scanner finds it there.
pub proof fn well_made_scans_in_place(t: TokenView, text: Seq<char>, pos: int)
    requires
        well_made(t),
        0 <= pos,
        pos + t.lexeme.len() <= text.len(),
        text.subrange(pos, pos + t.lexeme.len()) == t.lexeme,
        pos + t.lexeme.len() == text.len() || text[pos + t.lexeme.len()] == ' ',
    ensures
        trivia_end(text, pos) == pos,
        lex(text, pos) == (Lexed::Token { kind: t.token_type, end: pos + t.lexeme.len() }),
        literal_of(t.token_type, text, pos, pos + t.lexeme.len()) == t.literal,
{
    let part = t.lexeme;
    let len = part.len() as int;
    let end = pos + len;
    let c = part[0];
    assert(text[pos] == part[0]);
    assert(part.subrange(0, len) =~= part);
    if is_digit(c) {
        let whole = digits_end(part, 1);
        digits_end_bounds(part, 1);
        digits_end_stops(text, pos + 1, end);
        digits_end_in_part(text, pos, end, 1);
        digits_end_bounds(text, pos + 1);
        assert(digits_end(text, pos + 1) == pos + whole);
        if whole + 1 < len && part[whole] == '.' && is_digit(part[whole + 1]) {
            assert(text[pos + whole] == part[whole]);
            assert(text[pos + whole + 1] == part[whole + 1]);
            digits_end_stops(text, pos + whole + 2, end);
            digits_end_in_part(text, pos, end, whole + 2);
            digits_end_bounds(text, pos + whole + 2);
        } else {
            assert(whole == len);
        }
        assert(number_end(text, pos) == end);
        assert(text.subrange(pos, end) =~= part.subrange(0, len));
    } else if is_alpha(c) {
        word_end_bounds(part, 1);
        word_end_stops(text, pos + 1, end);
        word_end_in_part(text, pos, end, 1);
        word_end_bounds(text, pos + 1);
        assert(word_end(text, pos + 1) == end);
    } else if c == '"' {
        quote_at_bounds(part, 1);
        quote_at_in_part(text, pos, end, 1);
        quote_at_bounds(text, pos + 1);
        assert(quote_at(text, pos + 1) == end - 1);
        assert(text.subrange(pos + 1, end - 1) =~= part.subrange(1, len - 1));
    } else if c == '!' || c == '=' || c == '<' || c == '>' {
        if len > 1 {
            assert(text[pos + 1] == part[1]);
        }
    }
}

/// The text that `spaced` makes of well-made tokens scans, without an
/// error, to as many tokens and `EOF`, and each token is the one it was
/// made of, but for the line. This holds from any place of a text where
/// the rest of the text is that text, after a space or not.
pub proof fn spaced_scans_back(
    tokens: Seq<TokenView>,
    text: Seq<char>,
    pos: int,
    line: usize,
    gap: int,
)
    requires
        forall|i: int| 0 <= i < tokens.len() ==> well_made(#[trigger] tokens[i]),
        0 <= pos,
        gap == 0 || gap == 1,
        pos + gap <= text.len(),
        gap == 1 ==> text[pos] == ' ' && tokens.len() > 0,
        text.subrange(pos + gap, text.len() as int) == spaced(tokens),
    ensures
        scan_all(text, pos, line).1 == Seq::<crate::error::ErrorView>::empty(),
        scan_all(text, pos, line).0.len() == tokens.len() + 1,
        forall|i: int|
            0 <= i < tokens.len() ==> same_but_line(
                #[trigger] scan_all(text, pos, line).0[i],
                tokens[i],
            ),
        same_but_line(scan_all(text, pos, line).0.last(), end_token(0)),
    decreases tokens.len(),
{
    let from = pos + gap;
    let rest_text = text.subrange(from, text.len() as int);
    if tokens.len() == 0 {
        assert(rest_text.len() == 0);
        assert(trivia_end(text, pos) == pos);
        assert(scan_all(text, pos, line).0 =~= seq![scan(text, pos, line).outcome->Ok_0]);
    } else {
        let t = tokens[0];
        let len = t.lexeme.len() as int;
        assert(well_made(t));
        if tokens.len() == 1 {
            assert(rest_text == t.lexeme);
            assert(from + len == text.len());
            assert(text.subrange(from, from + len) =~= t.lexeme);
        } else {
            assert(rest_text == t.lexeme + " "@ + spaced(tokens.drop_first()));
            reveal_strlit(" ");
            assert(rest_text.len() >= len + 1);
            assert(text.subrange(from, from + len) =~= t.lexeme) by {
                assert forall|i: int| 0 <= i < len implies text[from + i] == t.lexeme[i] by {
                    assert(rest_text[i] == t.lexeme[i]);
                }
            }
            assert(text[from + len] == ' ') by {
                assert(rest_text[len] == ' ');
            }
            assert(text.subrange(from + len + 1, text.len() as int) =~= spaced(
                tokens.drop_first(),
            )) by {
                let tail = spaced(tokens.drop_first());
                assert forall|i: int| 0 <= i < tail.len() implies text[from + len + 1 + i]
                    == tail[i] by {
                    assert(rest_text[len + 1 + i] == tail[i]);
                }
            }
        }
        well_made_scans_in_place(t, text, from);
        assert(trivia_end(text, pos) == from);
        let s = scan(text, pos, line);
        assert(s.start == from);
        assert(s.position == from + len);
        let found = s.outcome->Ok_0;
        assert(s.outcome is Ok);
        assert(found.token_type == t.token_type);
        assert(found.lexeme =~= t.lexeme);
        assert(found.literal == t.literal);
        assert(t.token_type != TokenType::EOF) by {
            // The scanner makes `EOF` of no text.
        }
        let more = tokens.drop_first();
        assert forall|i: int| 0 <= i < more.len() implies well_made(#[trigger] more[i]) by {
            assert(more[i] == tokens[i + 1]);
        }
        if tokens.len() == 1 {
            assert(spaced(more) =~= Seq::<char>::empty());
            assert(text.subrange(from + len, text.len() as int) =~= spaced(more));
            spaced_scans_back(more, text, from + len, s.line, 0);
        } else {
            spaced_scans_back(more, text, from + len, s.line, 1);
        }
        let rest = scan_all(text, from + len, s.line);
        assert(scan_all(text, pos, line).0 =~= seq![found] + rest.0);
        assert(scan_all(text, pos, line).1 =~= rest.1);
        assert forall|i: int| 0 <= i < tokens.len() implies same_but_line(
            #[trigger] scan_all(text, pos, line).0[i],
            tokens[i],
        ) by {
            if i > 0 {
                assert(scan_all(text, pos, line).0[i] == rest.0[i - 1]);
                assert(more[i - 1] == tokens[i]);
            }
        }
    }
}

} // verus!
