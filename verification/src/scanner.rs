//! The scanner: from the characters of a source text to its tokens.
use vstd::prelude::*;
use crate::error::{ErrorView, TokenError};
use crate::text::{chars_of, string_of};
use crate::token::{Literal, LiteralView, Token, TokenType, TokenView};

verus! {

pub open spec fn is_digit(c: char) -> bool {
    '0' <= c && c <= '9'
}

pub open spec fn is_alpha(c: char) -> bool {
    ('a' <= c && c <= 'z') || ('A' <= c && c <= 'Z') || c == '_'
}

pub open spec fn is_alpha_numeric(c: char) -> bool {
    is_alpha(c) || is_digit(c)
}

/// Whitespace between tokens: space, carriage return, tab and line feed.
pub open spec fn is_blank(c: char) -> bool {
    c == ' ' || c == '\r' || c == '\t' || c == '\n'
}

/// The line number one higher, as far as line numbers go.
pub open spec fn next_line(line: usize) -> usize {
    if line < usize::MAX {
        (line + 1) as usize
    } else {
        line
    }
}

/// The line number after the characters `src[from..to]`, when it was `line`
/// before them: each line feed adds one.
pub open spec fn line_after(src: Seq<char>, from: int, to: int, line: usize) -> usize
    decreases to - from,
{
    if from >= to {
        line
    } else if src[to - 1] == '\n' {
        next_line(line_after(src, from, to - 1, line))
    } else {
        line_after(src, from, to - 1, line)
    }
}

/// The first place from `pos` on that holds a line feed, or the end.
pub open spec fn line_end(src: Seq<char>, pos: int) -> int
    decreases src.len() - pos,
{
    if pos >= src.len() || src[pos] == '\n' {
        pos
    } else {
        line_end(src, pos + 1)
    }
}

/// The first place from `pos` on that holds no digit, or the end.
pub open spec fn digits_end(src: Seq<char>, pos: int) -> int
    decreases src.len() - pos,
{
    if pos >= src.len() || !is_digit(src[pos]) {
        pos
    } else {
        digits_end(src, pos + 1)
    }
}

/// The first place from `pos` on that holds neither a letter, an underscore
/// nor a digit, or the end.
pub open spec fn word_end(src: Seq<char>, pos: int) -> int
    decreases src.len() - pos,
{
    if pos >= src.len() || !is_alpha_numeric(src[pos]) {
        pos
    } else {
        word_end(src, pos + 1)
    }
}

/// The first place from `pos` on that holds a double quote, or the end.
pub open spec fn quote_at(src: Seq<char>, pos: int) -> int
    decreases src.len() - pos,
{
    if pos >= src.len() || src[pos] == '"' {
        pos
    } else {
        quote_at(src, pos + 1)
    }
}

/// Where the whitespace and the line comments that start at `pos` end: the
/// place of the next token, or the end of the source.
pub open spec fn trivia_end(src: Seq<char>, pos: int) -> int
    decreases src.len() - pos,
{
    if pos < 0 || pos >= src.len() {
        pos
    } else if is_blank(src[pos]) {
        trivia_end(src, pos + 1)
    } else if src[pos] == '/' && pos + 1 < src.len() && src[pos + 1] == '/' {
        let end = line_end(src, pos + 2);
        if pos < end <= src.len() {
            trivia_end(src, end)
        } else {
            pos
        }
    } else {
        pos
    }
}

/// Where the number that starts at `start` ends: digits, and a point with
/// more digits if at least one digit follows the point.
pub open spec fn number_end(src: Seq<char>, start: int) -> int {
    let whole = digits_end(src, start + 1);
    if whole + 1 < src.len() && src[whole] == '.' && is_digit(src[whole + 1]) {
        digits_end(src, whole + 2)
    } else {
        whole
    }
}

/// The kind of a word: that of the reserved word it is, else an identifier.
pub open spec fn word_kind(word: Seq<char>) -> TokenType {
    if word == "and"@ {
        TokenType::And
    } else if word == "class"@ {
        TokenType::Class
    } else if word == "else"@ {
        TokenType::Else
    } else if word == "false"@ {
        TokenType::False
    } else if word == "for"@ {
        TokenType::For
    } else if word == "fun"@ {
        TokenType::Fun
    } else if word == "if"@ {
        TokenType::If
    } else if word == "nil"@ {
        TokenType::Nil
    } else if word == "or"@ {
        TokenType::Or
    } else if word == "print"@ {
        TokenType::Print
    } else if word == "return"@ {
        TokenType::Return
    } else if word == "super"@ {
        TokenType::Super
    } else if word == "this"@ {
        TokenType::This
    } else if word == "true"@ {
        TokenType::True
    } else if word == "var"@ {
        TokenType::Var
    } else if word == "while"@ {
        TokenType::While
    } else {
        TokenType::Identifier
    }
}

/// What stands at a place of the source: a token of a kind, or an error,
/// and where it ends.
pub enum Lexed {
    Token { kind: TokenType, end: int },
    Error { message: Seq<char>, end: int },
}

impl Lexed {
    pub open spec fn end(self) -> int {
        match self {
            Lexed::Token { end, .. } => end,
            Lexed::Error { end, .. } => end,
        }
    }
}

/// A token of one character, or of two if `=` follows.
pub open spec fn with_equal(src: Seq<char>, start: int, alone: TokenType, paired: TokenType) -> Lexed {
    if start + 1 < src.len() && src[start + 1] == '=' {
        Lexed::Token { kind: paired, end: start + 2 }
    } else {
        Lexed::Token { kind: alone, end: start + 1 }
    }
}

/// The token that starts at `start`, a place inside the source that holds
/// neither whitespace nor the start of a comment.
pub open spec fn lex(src: Seq<char>, start: int) -> Lexed {
    let c = src[start];
    if is_digit(c) {
        Lexed::Token { kind: TokenType::Number, end: number_end(src, start) }
    } else if is_alpha(c) {
        let end = word_end(src, start + 1);
        Lexed::Token { kind: word_kind(src.subrange(start, end)), end }
    } else if c == '"' {
        let quote = quote_at(src, start + 1);
        if quote >= src.len() {
            Lexed::Error { message: "Unterminated string."@, end: src.len() as int }
        } else {
            Lexed::Token { kind: TokenType::String, end: quote + 1 }
        }
    } else if c == '(' {
        Lexed::Token { kind: TokenType::LeftParen, end: start + 1 }
    } else if c == ')' {
        Lexed::Token { kind: TokenType::RightParen, end: start + 1 }
    } else if c == '{' {
        Lexed::Token { kind: TokenType::LeftBrace, end: start + 1 }
    } else if c == '}' {
        Lexed::Token { kind: TokenType::RightBrace, end: start + 1 }
    } else if c == ';' {
        Lexed::Token { kind: TokenType::SemiColon, end: start + 1 }
    } else if c == ',' {
        Lexed::Token { kind: TokenType::Comma, end: start + 1 }
    } else if c == '.' {
        Lexed::Token { kind: TokenType::Dot, end: start + 1 }
    } else if c == '-' {
        Lexed::Token { kind: TokenType::Minus, end: start + 1 }
    } else if c == '+' {
        Lexed::Token { kind: TokenType::Plus, end: start + 1 }
    } else if c == '/' {
        Lexed::Token { kind: TokenType::Slash, end: start + 1 }
    } else if c == '*' {
        Lexed::Token { kind: TokenType::Star, end: start + 1 }
    } else if c == '!' {
        with_equal(src, start, TokenType::Bang, TokenType::BangEqual)
    } else if c == '=' {
        with_equal(src, start, TokenType::Equal, TokenType::EqualEqual)
    } else if c == '<' {
        with_equal(src, start, TokenType::Less, TokenType::LessEqual)
    } else if c == '>' {
        with_equal(src, start, TokenType::Greater, TokenType::GreaterEqual)
    } else {
        Lexed::Error { message: "Unexpected character."@, end: start + 1 }
    }
}

/// The literal of a token of the given kind that spans `src[start..end]`: a
/// string without its quotes, a number as its digits, else none.
pub open spec fn literal_of(kind: TokenType, src: Seq<char>, start: int, end: int) -> LiteralView {
    match kind {
        TokenType::String => LiteralView::String(src.subrange(start + 1, end - 1)),
        TokenType::Number => LiteralView::Number(src.subrange(start, end)),
        _ => LiteralView::Nil,
    }
}

/// One scan: the token or the error, and where the scanner stands after it.
pub struct Scanned {
    pub outcome: Result<TokenView, ErrorView>,
    /// Where the token or the offending text starts.
    pub start: int,
    /// Where the next scan begins.
    pub position: int,
    pub line: usize,
}

/// The scan that starts at `pos` on line `line`: whitespace and comments
/// are passed over; at the end of the source stands the token `EOF`; else
/// the token there is taken, with its exact text and the line it ends on.
pub open spec fn scan(src: Seq<char>, pos: int, line: usize) -> Scanned {
    let start = trivia_end(src, pos);
    if start >= src.len() {
        Scanned {
            outcome: Ok(
                TokenView {
                    token_type: TokenType::EOF,
                    lexeme: Seq::empty(),
                    line: line_after(src, pos, start, line),
                    literal: LiteralView::Nil,
                },
            ),
            start,
            position: start,
            line: line_after(src, pos, start, line),
        }
    } else {
        let found = lex(src, start);
        let at = line_after(src, pos, found.end(), line);
        Scanned {
            outcome: match found {
                Lexed::Token { kind, end } => Ok(
                    TokenView {
                        token_type: kind,
                        lexeme: src.subrange(start, end),
                        line: at,
                        literal: literal_of(kind, src, start, end),
                    },
                ),
                Lexed::Error { message, end } => Err(ErrorView { line: at, message }),
            },
            start,
            position: found.end(),
            line: at,
        }
    }
}

} // verus!

verus! {

/// The end of a line lies between the place the search starts at and the
/// end of the source.
pub proof fn line_end_bounds(src: Seq<char>, pos: int)
    requires
        0 <= pos <= src.len(),
    ensures
        pos <= line_end(src, pos) <= src.len(),
    decreases src.len() - pos,
{
    if pos < src.len() && src[pos] != '\n' {
        line_end_bounds(src, pos + 1);
    }
}

/// The scanner: a place in a source text, and the line of that place.
#[derive(Debug)]
pub struct Scanner<'src> {
    source: &'src str,
    chars: Vec<char>,
    start: usize,
    current: usize,
    line: usize,
}

impl<'src> Scanner<'src> {
    #[verifier::type_invariant]
    spec fn valid(self) -> bool {
        self.chars@ == self.source@ && self.start <= self.current <= self.chars.len()
    }

    /// The characters of the source.
    pub closed spec fn text(&self) -> Seq<char> {
        self.source@
    }

    /// The place of the next character to read.
    pub closed spec fn position(&self) -> int {
        self.current as int
    }

    /// The place where the token being read starts.
    pub closed spec fn token_start(&self) -> int {
        self.start as int
    }

    /// The line of the next character to read, counted from 1.
    pub closed spec fn line_number(&self) -> usize {
        self.line
    }

    /// A scanner at the start of `source`, on line 1.
    pub fn new(source: &'src str) -> (scanner: Self)
        ensures
            scanner.text() == source@,
            scanner.position() == 0,
            scanner.token_start() == 0,
            scanner.line_number() == 1,
    {
        Scanner { source, chars: chars_of(source), start: 0, current: 0, line: 1 }
    }

    pub fn source(&self) -> (source: &'src str)
        ensures
            source@ == self.text(),
    {
        self.source
    }

    pub fn is_digit(&self, c: char) -> (r: bool)
        ensures
            r == is_digit(c),
    {
        c >= '0' && c <= '9'
    }

    pub fn is_alpha(&self, c: char) -> (r: bool)
        ensures
            r == is_alpha(c),
    {
        (c >= 'a' && c <= 'z') || (c >= 'A' && c <= 'Z') || c == '_'
    }

    pub fn is_alpha_numeric(&self, c: char) -> (r: bool)
        ensures
            r == is_alpha_numeric(c),
    {
        self.is_alpha(c) || self.is_digit(c)
    }

    pub fn is_at_end(&self) -> (r: bool)
        ensures
            r == (self.position() >= self.text().len()),
    {
        proof {
            use_type_invariant(self);
        }
        self.current >= self.chars.len()
    }

    /// The next character, if there is one.
    pub fn peek(&self) -> (c: Option<char>)
        ensures
            c == if self.position() < self.text().len() {
                Some(self.text()[self.position()])
            } else {
                None
            },
    {
        proof {
            use_type_invariant(self);
        }
        if self.current < self.chars.len() {
            Some(self.chars[self.current])
        } else {
            None
        }
    }

    /// The character after the next, if there is one.
    pub fn peek_next(&self) -> (c: Option<char>)
        ensures
            c == if self.position() + 1 < self.text().len() {
                Some(self.text()[self.position() + 1])
            } else {
                None
            },
    {
        proof {
            use_type_invariant(self);
        }
        if self.current < self.chars.len() && self.current + 1 < self.chars.len() {
            Some(self.chars[self.current + 1])
        } else {
            None
        }
    }

    /// The character `start_offset` places into the token being read, if the
    /// source reaches that far.
    pub fn from_start(&self, start_offset: usize) -> (c: Option<char>)
        ensures
            c == if self.token_start() + start_offset < self.text().len() {
                Some(self.text()[self.token_start() + start_offset])
            } else {
                None
            },
    {
        proof {
            use_type_invariant(self);
        }
        if start_offset < self.chars.len() - self.start {
            Some(self.chars[self.start + start_offset])
        } else {
            None
        }
    }

    /// Reads one character and counts a line feed. At the end of the source
    /// nothing is read and the result is the character with code 0.
    pub fn advance(&mut self) -> (c: char)
        ensures
            final(self).text() == old(self).text(),
            final(self).token_start() == old(self).token_start(),
            old(self).position() < old(self).text().len() ==> c == old(self).text()[old(self).position()] && final(self).position() == old(self).position() + 1
                && final(self).line_number() == if c == '\n' {
                next_line(old(self).line_number())
            } else {
                old(self).line_number()
            },
            old(self).position() >= old(self).text().len() ==> c == '\0' && final(self).position()
                == old(self).position() && final(self).line_number() == old(self).line_number(),
    {
        proof {
            use_type_invariant(&*self);
        }
        if self.current < self.chars.len() {
            let c = self.chars[self.current];
            self.current += 1;
            if c == '\n' && self.line < usize::MAX {
                self.line += 1;
            }
            c
        } else {
            '\0'
        }
    }

    /// Reads the next character if it is the expected one.
    pub fn match_str(&mut self, expected: char) -> (matched: bool)
        ensures
            final(self).text() == old(self).text(),
            final(self).token_start() == old(self).token_start(),
            final(self).line_number() == old(self).line_number(),
            matched == (old(self).position() < old(self).text().len() && old(self).text()[old(self).position()] == expected),
            final(self).position() == old(self).position() + if matched {
                1int
            } else {
                0int
            },
    {
        proof {
            use_type_invariant(&*self);
        }
        if self.is_at_end() {
            return false;
        }
        if self.chars[self.current] != expected {
            return false;
        }
        self.current += 1;
        true
    }

    /// Passes over whitespace and line comments.
    pub fn skip_whitespace(&mut self)
        ensures
            final(self).text() == old(self).text(),
            final(self).token_start() == old(self).token_start(),
            final(self).position() == trivia_end(old(self).text(), old(self).position()),
            final(self).line_number() == line_after(
                old(self).text(),
                old(self).position(),
                final(self).position(),
                old(self).line_number(),
            ),
            old(self).position() <= final(self).position() <= old(self).text().len(),
    {
        proof {
            use_type_invariant(&*self);
        }
        let ghost src = self.text();
        let ghost from = self.position();
        let ghost line = self.line_number();
        loop
            invariant
                src == old(self).text(),
                self.text() == src,
                self.token_start() == old(self).token_start(),
                from == old(self).position(),
                line == old(self).line_number(),
                0 <= from <= self.position() <= src.len(),
                trivia_end(src, self.position()) == trivia_end(src, from),
                self.line_number() == line_after(src, from, self.position(), line),
            decreases src.len() - self.position(),
        {
            match self.peek() {
                Some(' ') | Some('\r') | Some('\t') | Some('\n') => {
                    self.advance();
                },
                Some('/') => {
                    if self.peek_next() == Some('/') {
                        let ghost slash = self.position();
                        proof {
                            line_end_bounds(src, slash + 2);
                            assert(line_end(src, slash) == line_end(src, slash + 1));
                            assert(line_end(src, slash + 1) == line_end(src, slash + 2));
                        }
                        while self.peek() != Some('\n') && !self.is_at_end()
                            invariant
                                src == old(self).text(),
                                self.text() == src,
                                self.token_start() == old(self).token_start(),
                                0 <= from <= slash <= self.position() <= src.len(),
                                line_end(src, self.position()) == line_end(src, slash + 2),
                                self.line_number() == line_after(src, from, self.position(), line),
                            decreases src.len() - self.position(),
                        {
                            self.advance();
                        }
                    } else {
                        return ;
                    }
                },
                _ => {
                    return ;
                },
            }
        }
    }

    /// The token of the given kind that spans from the start of the token
    /// being read to the next character, on the current line.
    fn make_token(&self, token_type: TokenType) -> (token: Token)
        requires
            token_type == TokenType::String ==> self.token_start() + 2 <= self.position(),
        ensures
            token@ == (TokenView {
                token_type,
                lexeme: self.text().subrange(self.token_start(), self.position()),
                line: self.line_number(),
                literal: literal_of(token_type, self.text(), self.token_start(), self.position()),
            }),
    {
        proof {
            use_type_invariant(self);
        }
        let literal = match token_type {
            TokenType::String => Literal::String(
                string_of(&self.chars, self.start + 1, self.current - 1),
            ),
            TokenType::Number => Literal::Number(string_of(&self.chars, self.start, self.current)),
            _ => Literal::Nil,
        };
        Token {
            token_type,
            lexeme: string_of(&self.chars, self.start, self.current),
            line: self.line,
            literal,
        }
    }

    /// `token_type` if the token being read, from `start_offset` on, is
    /// `rest`; else `Identifier`.
    fn check_keyword(&self, start_offset: usize, rest: &str, token_type: TokenType) -> (kind:
        TokenType)
        requires
            self.token_start() + start_offset <= self.position(),
        ensures
            kind == if self.text().subrange(self.token_start() + start_offset, self.position())
                == rest@ {
                token_type
            } else {
                TokenType::Identifier
            },
    {
        proof {
            use_type_invariant(self);
        }
        let word = string_of(&self.chars, self.start + start_offset, self.current);
        if crate::text::same_text(word.as_str(), rest) {
            token_type
        } else {
            TokenType::Identifier
        }
    }

    /// The kind of the word being read, which is not empty. The first
    /// letter, and for `f` and `t` the second, picks the one reserved word
    /// that the word can be.
    fn identifier_type(&self) -> (kind: TokenType)
        requires
            self.token_start() < self.position(),
        ensures
            kind == word_kind(self.text().subrange(self.token_start(), self.position())),
    {
        proof {
            use_type_invariant(self);
            reserved_words();
        }
        let ghost word = self.text().subrange(self.token_start(), self.position());
        let long = self.current - self.start >= 2;
        assert(word[0] == self.text()[self.token_start()]);
        assert(long ==> word[1] == self.text()[self.token_start() + 1]);
        assert(self.text().subrange(self.token_start() + 1, self.position()) =~= word.subrange(
            1,
            word.len() as int,
        ));
        assert(long ==> self.text().subrange(self.token_start() + 2, self.position())
            =~= word.subrange(2, word.len() as int));
        match self.from_start(0) {
            Some('a') => {
                proof {
                    tail_decides(word, "and"@, 1, "nd"@);
                }
                self.check_keyword(1, "nd", TokenType::And)
            },
            Some('c') => {
                proof {
                    tail_decides(word, "class"@, 1, "lass"@);
                }
                self.check_keyword(1, "lass", TokenType::Class)
            },
            Some('e') => {
                proof {
                    tail_decides(word, "else"@, 1, "lse"@);
                }
                self.check_keyword(1, "lse", TokenType::Else)
            },
            Some('i') => {
                proof {
                    tail_decides(word, "if"@, 1, "f"@);
                }
                self.check_keyword(1, "f", TokenType::If)
            },
            Some('n') => {
                proof {
                    tail_decides(word, "nil"@, 1, "il"@);
                }
                self.check_keyword(1, "il", TokenType::Nil)
            },
            Some('o') => {
                proof {
                    tail_decides(word, "or"@, 1, "r"@);
                }
                self.check_keyword(1, "r", TokenType::Or)
            },
            Some('p') => {
                proof {
                    tail_decides(word, "print"@, 1, "rint"@);
                }
                self.check_keyword(1, "rint", TokenType::Print)
            },
            Some('r') => {
                proof {
                    tail_decides(word, "return"@, 1, "eturn"@);
                }
                self.check_keyword(1, "eturn", TokenType::Return)
            },
            Some('s') => {
                proof {
                    tail_decides(word, "super"@, 1, "uper"@);
                }
                self.check_keyword(1, "uper", TokenType::Super)
            },
            Some('v') => {
                proof {
                    tail_decides(word, "var"@, 1, "ar"@);
                }
                self.check_keyword(1, "ar", TokenType::Var)
            },
            Some('w') => {
                proof {
                    tail_decides(word, "while"@, 1, "hile"@);
                }
                self.check_keyword(1, "hile", TokenType::While)
            },
            Some('f') => {
                if !long {
                    return TokenType::Identifier;
                }
                match self.from_start(1) {
                    Some('a') => {
                        proof {
                            tail_decides(word, "false"@, 2, "lse"@);
                        }
                        self.check_keyword(2, "lse", TokenType::False)
                    },
                    Some('o') => {
                        proof {
                            tail_decides(word, "for"@, 2, "r"@);
                        }
                        self.check_keyword(2, "r", TokenType::For)
                    },
                    Some('u') => {
                        proof {
                            tail_decides(word, "fun"@, 2, "n"@);
                        }
                        self.check_keyword(2, "n", TokenType::Fun)
                    },
                    _ => TokenType::Identifier,
                }
            },
            Some('t') => {
                if !long {
                    return TokenType::Identifier;
                }
                match self.from_start(1) {
                    Some('h') => {
                        proof {
                            tail_decides(word, "this"@, 2, "is"@);
                        }
                        self.check_keyword(2, "is", TokenType::This)
                    },
                    Some('r') => {
                        proof {
                            tail_decides(word, "true"@, 2, "ue"@);
                        }
                        self.check_keyword(2, "ue", TokenType::True)
                    },
                    _ => TokenType::Identifier,
                }
            },
            _ => TokenType::Identifier,
        }
    }

    fn digits(&mut self)
        ensures
            final(self).text() == old(self).text(),
            final(self).token_start() == old(self).token_start(),
            final(self).line_number() == line_after(
                old(self).text(),
                old(self).position(),
                final(self).position(),
                old(self).line_number(),
            ),
            final(self).position() == digits_end(old(self).text(), old(self).position()),
            old(self).position() <= final(self).position(),
    {
        proof {
            use_type_invariant(&*self);
        }
        let ghost src = self.text();
        let ghost from = self.position();
        loop
            invariant
                src == old(self).text(),
                self.text() == src,
                self.token_start() == old(self).token_start(),
                self.line_number() == line_after(src, from, self.position(), old(self).line_number()),
                from == old(self).position(),
                0 <= from <= self.position() <= src.len(),
                digits_end(src, self.position()) == digits_end(src, from),
            decreases src.len() - self.position(),
        {
            match self.peek() {
                Some(c) => {
                    if !self.is_digit(c) {
                        return ;
                    }
                    self.advance();
                },
                None => {
                    return ;
                },
            }
        }
    }

    fn number(&mut self) -> (token: Token)
        requires
            old(self).position() == old(self).token_start() + 1,
        ensures
            final(self).text() == old(self).text(),
            final(self).token_start() == old(self).token_start(),
            final(self).line_number() == line_after(
                old(self).text(),
                old(self).position(),
                final(self).position(),
                old(self).line_number(),
            ),
            final(self).position() == number_end(old(self).text(), old(self).token_start()),
            old(self).position() <= final(self).position(),
            token@ == (TokenView {
                token_type: TokenType::Number,
                lexeme: final(self).text().subrange(final(self).token_start(), final(self).position()),
                line: final(self).line_number(),
                literal: literal_of(
                    TokenType::Number,
                    final(self).text(),
                    final(self).token_start(),
                    final(self).position(),
                ),
            }),
    {
        self.digits();
        let point = self.peek() == Some('.');
        let digit = match self.peek_next() {
            Some(c) => self.is_digit(c),
            None => false,
        };
        if point && digit {
            let ghost src = self.text();
            let ghost mid = self.position();
            self.advance();
            self.digits();
            proof {
                lemma_line_after_join(src, old(self).position(), mid, mid + 1, old(self).line_number());
                lemma_line_after_join(
                    src,
                    old(self).position(),
                    mid + 1,
                    self.position(),
                    old(self).line_number(),
                );
            }
        }
        self.make_token(TokenType::Number)
    }

    fn identifier(&mut self) -> (token: Token)
        requires
            old(self).position() == old(self).token_start() + 1,
        ensures
            final(self).text() == old(self).text(),
            final(self).token_start() == old(self).token_start(),
            final(self).line_number() == line_after(
                old(self).text(),
                old(self).position(),
                final(self).position(),
                old(self).line_number(),
            ),
            final(self).position() == word_end(old(self).text(), old(self).position()),
            old(self).position() <= final(self).position(),
            token@ == (TokenView {
                token_type: word_kind(
                    final(self).text().subrange(final(self).token_start(), final(self).position()),
                ),
                lexeme: final(self).text().subrange(final(self).token_start(), final(self).position()),
                line: final(self).line_number(),
                literal: LiteralView::Nil,
            }),
    {
        proof {
            use_type_invariant(&*self);
        }
        let ghost src = self.text();
        let ghost from = self.position();
        loop
            invariant
                src == old(self).text(),
                self.text() == src,
                self.token_start() == old(self).token_start(),
                self.line_number() == line_after(src, from, self.position(), old(self).line_number()),
                from == old(self).position(),
                0 <= from <= self.position() <= src.len(),
                word_end(src, self.position()) == word_end(src, from),
            ensures
                self.position() == word_end(src, from),
                from <= self.position(),
                self.line_number() == line_after(src, from, self.position(), old(self).line_number()),
            decreases src.len() - self.position(),
        {
            match self.peek() {
                Some(c) => {
                    if !self.is_alpha_numeric(c) {
                        break ;
                    }
                    self.advance();
                },
                None => {
                    break ;
                },
            }
        }
        let kind = self.identifier_type();
        self.make_token(kind)
    }

    fn string(&mut self) -> (r: Result<Token, TokenError>)
        requires
            old(self).position() == old(self).token_start() + 1,
        ensures
            final(self).text() == old(self).text(),
            final(self).token_start() == old(self).token_start(),
            final(self).position() == if quote_at(old(self).text(), old(self).position()) >= old(self).text().len() {
                old(self).text().len() as int
            } else {
                quote_at(old(self).text(), old(self).position()) + 1
            },
            final(self).line_number() == line_after(
                old(self).text(),
                old(self).position(),
                final(self).position(),
                old(self).line_number(),
            ),
            old(self).position() <= final(self).position(),
            match r {
                Ok(token) => quote_at(old(self).text(), old(self).position()) < old(self).text().len()
                    && token@ == (TokenView {
                    token_type: TokenType::String,
                    lexeme: final(self).text().subrange(
                        final(self).token_start(),
                        final(self).position(),
                    ),
                    line: final(self).line_number(),
                    literal: literal_of(
                        TokenType::String,
                        final(self).text(),
                        final(self).token_start(),
                        final(self).position(),
                    ),
                }),
                Err(error) => quote_at(old(self).text(), old(self).position()) >= old(self).text().len() && error@ == (ErrorView {
                    line: final(self).line_number(),
                    message: "Unterminated string."@,
                }),
            },
    {
        proof {
            use_type_invariant(&*self);
        }
        let ghost src = self.text();
        let ghost from = self.position();
        let ghost line = self.line_number();
        while self.peek() != Some('"') && !self.is_at_end()
            invariant
                src == old(self).text(),
                self.text() == src,
                self.token_start() == old(self).token_start(),
                from == old(self).position(),
                line == old(self).line_number(),
                0 <= from <= self.position() <= src.len(),
                quote_at(src, self.position()) == quote_at(src, from),
                self.line_number() == line_after(src, from, self.position(), line),
            decreases src.len() - self.position(),
        {
            self.advance();
        }
        if self.is_at_end() {
            return Err(TokenError::new(self.line, "Unterminated string."));
        }
        let ghost mid = self.position();
        self.advance();
        proof {
            lemma_line_after_join(src, from, mid, mid + 1, line);
        }
        Ok(self.make_token(TokenType::String))
    }

    fn single(&self, token_type: TokenType) -> (r: Result<Token, TokenError>)
        requires
            token_type != TokenType::String,
        ensures
            r is Ok,
            r->Ok_0@ == (TokenView {
                token_type,
                lexeme: self.text().subrange(self.token_start(), self.position()),
                line: self.line_number(),
                literal: literal_of(token_type, self.text(), self.token_start(), self.position()),
            }),
    {
        Ok(self.make_token(token_type))
    }

    fn paired(&mut self, alone: TokenType, paired: TokenType) -> (r: Result<Token, TokenError>)
        requires
            old(self).position() == old(self).token_start() + 1,
            alone != TokenType::String && alone != TokenType::Number,
            paired != TokenType::String && paired != TokenType::Number,
        ensures
            final(self).text() == old(self).text(),
            final(self).token_start() == old(self).token_start(),
            final(self).line_number() == old(self).line_number(),
            final(self).position() == with_equal(
                old(self).text(),
                old(self).token_start(),
                alone,
                paired,
            ).end(),
            r is Ok,
            r->Ok_0@ == (TokenView {
                token_type: with_equal(
                    old(self).text(),
                    old(self).token_start(),
                    alone,
                    paired,
                )->Token_kind,
                lexeme: final(self).text().subrange(final(self).token_start(), final(self).position()),
                line: final(self).line_number(),
                literal: LiteralView::Nil,
            }),
    {
        if self.match_str('=') {
            Ok(self.make_token(paired))
        } else {
            Ok(self.make_token(alone))
        }
    }

    /// Reads the next token: see `scan`.
    pub fn scan_token(&mut self) -> (r: Result<Token, TokenError>)
        ensures
            final(self).text() == old(self).text(),
            final(self).token_start() == scan(
                old(self).text(),
                old(self).position(),
                old(self).line_number(),
            ).start,
            final(self).position() == scan(
                old(self).text(),
                old(self).position(),
                old(self).line_number(),
            ).position,
            final(self).line_number() == scan(
                old(self).text(),
                old(self).position(),
                old(self).line_number(),
            ).line,
            match r {
                Ok(token) => Ok::<TokenView, ErrorView>(token@),
                Err(error) => Err(error@),
            } == scan(old(self).text(), old(self).position(), old(self).line_number()).outcome,
            old(self).position() <= final(self).token_start() <= final(self).position() <= final(self).text().len(),
            final(self).token_start() < final(self).text().len() ==> final(self).token_start()
                < final(self).position(),
    {
        proof {
            use_type_invariant(&*self);
        }
        let ghost src = self.text();
        let ghost from = self.position();
        let ghost line = self.line_number();
        self.skip_whitespace();
        proof {
            use_type_invariant(&*self);
        }
        self.start = self.current;
        if self.is_at_end() {
            proof {
                assert(src.subrange(self.token_start(), self.position()) =~= Seq::<char>::empty());
            }
            return Ok(self.make_token(TokenType::EOF));
        }
        let ghost start = self.position();
        let c = self.advance();
        proof {
            assert(line_after(src, from, start + 1, line) == self.line_number()) by {
                lemma_line_after_join(src, from, start, start + 1, line);
            }
        }
        if self.is_digit(c) {
            let token = self.number();
            proof {
                use_type_invariant(&*self);
                lemma_line_after_join(src, from, start + 1, self.position(), line);
            }
            return Ok(token);
        }
        if self.is_alpha(c) {
            let token = self.identifier();
            proof {
                use_type_invariant(&*self);
                lemma_line_after_join(src, from, start + 1, self.position(), line);
            }
            return Ok(token);
        }
        let r = match c {
            '"' => self.string(),
            '(' => self.single(TokenType::LeftParen),
            ')' => self.single(TokenType::RightParen),
            '{' => self.single(TokenType::LeftBrace),
            '}' => self.single(TokenType::RightBrace),
            ';' => self.single(TokenType::SemiColon),
            ',' => self.single(TokenType::Comma),
            '.' => self.single(TokenType::Dot),
            '-' => self.single(TokenType::Minus),
            '+' => self.single(TokenType::Plus),
            '/' => self.single(TokenType::Slash),
            '*' => self.single(TokenType::Star),
            '!' => self.paired(TokenType::Bang, TokenType::BangEqual),
            '=' => self.paired(TokenType::Equal, TokenType::EqualEqual),
            '<' => self.paired(TokenType::Less, TokenType::LessEqual),
            '>' => self.paired(TokenType::Greater, TokenType::GreaterEqual),
            _ => Err(TokenError::new(self.line, "Unexpected character.")),
        };
        proof {
            use_type_invariant(&*self);
            lemma_line_after_join(src, from, start + 1, self.position(), line);
        }
        r
    }
}

/// Counting the lines of two adjoining stretches, one after the other, is
/// counting the lines of both together.
pub proof fn lemma_line_after_join(src: Seq<char>, from: int, mid: int, to: int, line: usize)
    requires
        from <= mid <= to,
    ensures
        line_after(src, mid, to, line_after(src, from, mid, line)) == line_after(src, from, to, line),
    decreases to - mid,
{
    if mid < to {
        lemma_line_after_join(src, from, mid, to - 1, line);
    }
}

} // verus!

verus! {

/// All the tokens of the source from a place on, up to and with `EOF`, and
/// all the lexical errors met on the way. After an error the scan goes on
/// behind the text that caused it.
pub open spec fn scan_all(src: Seq<char>, pos: int, line: usize) -> (Seq<TokenView>, Seq<ErrorView>)
    decreases src.len() - pos,
{
    let s = scan(src, pos, line);
    let rest = if pos < s.position <= src.len() {
        scan_all(src, s.position, s.line)
    } else {
        (Seq::empty(), Seq::empty())
    };
    match s.outcome {
        Ok(token) => if token.token_type == TokenType::EOF {
            (seq![token], Seq::empty())
        } else {
            (seq![token] + rest.0, rest.1)
        },
        Err(error) => (rest.0, seq![error] + rest.1),
    }
}

/// What scanning a whole source gives.
pub struct Scan {
    pub tokens: Vec<Token>,
    pub errors: Vec<TokenError>,
}

impl<'src> Scanner<'src> {
    /// Reads all the tokens that are left, up to and with `EOF`.
    pub fn scan_tokens(&mut self) -> (all: Scan)
        ensures
            final(self).text() == old(self).text(),
            (all.tokens.deep_view(), errors_view(all.errors@)) == scan_all(
                old(self).text(),
                old(self).position(),
                old(self).line_number(),
            ),
    {
        let mut tokens: Vec<Token> = Vec::new();
        let mut errors: Vec<TokenError> = Vec::new();
        let ghost src = self.text();
        let ghost whole = scan_all(src, self.position(), self.line_number());
        proof {
            use_type_invariant(&*self);
        }
        loop
            invariant
                src == old(self).text(),
                self.text() == src,
                whole == scan_all(src, old(self).position(), old(self).line_number()),
                0 <= self.position() <= src.len(),
                tokens.deep_view() + scan_all(src, self.position(), self.line_number()).0
                    == whole.0,
                errors_view(errors@) + scan_all(src, self.position(), self.line_number()).1
                    == whole.1,
            decreases src.len() - self.position(),
        {
            let ghost before = tokens.deep_view();
            let ghost failed = errors_view(errors@);
            let ghost rest = scan_all(src, self.position(), self.line_number());
            let ghost from = self.position();
            match self.scan_token() {
                Ok(token) => {
                    let done = token.token_type == TokenType::EOF;
                    tokens.push(token);
                    proof {
                        assert(tokens.deep_view() =~= before.push(token@));
                        let after = scan_all(src, self.position(), self.line_number());
                        if done {
                            assert(before.push(token@) =~= before + rest.0);
                            assert(failed + rest.1 =~= failed);
                        } else {
                            assert(from < self.position());
                            assert(before.push(token@) + after.0 =~= before + rest.0);
                        }
                    }
                    if done {
                        return Scan { tokens, errors };
                    }
                },
                Err(error) => {
                    errors.push(error);
                    proof {
                        assert(errors_view(errors@) =~= failed.push(error@));
                        let after = scan_all(src, self.position(), self.line_number());
                        assert(from < self.position());
                        assert(failed.push(error@) + after.1 =~= failed + rest.1);
                    }
                },
            }
        }
    }
}

/// The views of a list of errors.
pub open spec fn errors_view(errors: Seq<TokenError>) -> Seq<ErrorView> {
    Seq::new(errors.len(), |i: int| errors[i]@)
}

} // verus!

verus! {

pub proof fn digits_end_bounds(src: Seq<char>, pos: int)
    requires
        0 <= pos <= src.len(),
    ensures
        pos <= digits_end(src, pos) <= src.len(),
    decreases src.len() - pos,
{
    if pos < src.len() && is_digit(src[pos]) {
        digits_end_bounds(src, pos + 1);
    }
}

pub proof fn word_end_bounds(src: Seq<char>, pos: int)
    requires
        0 <= pos <= src.len(),
    ensures
        pos <= word_end(src, pos) <= src.len(),
    decreases src.len() - pos,
{
    if pos < src.len() && is_alpha_numeric(src[pos]) {
        word_end_bounds(src, pos + 1);
    }
}

pub proof fn quote_at_bounds(src: Seq<char>, pos: int)
    requires
        0 <= pos <= src.len(),
    ensures
        pos <= quote_at(src, pos) <= src.len(),
    decreases src.len() - pos,
{
    if pos < src.len() && src[pos] != '"' {
        quote_at_bounds(src, pos + 1);
    }
}

/// Whitespace and comments end between the place they start at and the
/// end of the source.
pub proof fn trivia_end_bounds(src: Seq<char>, pos: int)
    requires
        0 <= pos <= src.len(),
    ensures
        pos <= trivia_end(src, pos) <= src.len(),
    decreases src.len() - pos,
{
    if pos < src.len() {
        if is_blank(src[pos]) {
            trivia_end_bounds(src, pos + 1);
        } else if src[pos] == '/' && pos + 1 < src.len() && src[pos + 1] == '/' {
            line_end_bounds(src, pos + 2);
            trivia_end_bounds(src, line_end(src, pos + 2));
        }
    }
}

/// A token, and the text of a lexical error, is not empty and ends inside
/// the source.
pub proof fn lex_bounds(src: Seq<char>, start: int)
    requires
        0 <= start < src.len(),
    ensures
        start < lex(src, start).end() <= src.len(),
{
    digits_end_bounds(src, start + 1);
    let whole = digits_end(src, start + 1);
    if whole + 2 <= src.len() {
        digits_end_bounds(src, whole + 2);
    }
    word_end_bounds(src, start + 1);
    quote_at_bounds(src, start + 1);
}

/// A scan never goes back, and it goes forward unless it stands at the
/// end of the source.
pub proof fn scan_bounds(src: Seq<char>, pos: int, line: usize)
    requires
        0 <= pos <= src.len(),
    ensures
        pos <= scan(src, pos, line).start <= scan(src, pos, line).position <= src.len(),
        scan(src, pos, line).start < src.len() ==> scan(src, pos, line).start < scan(
            src,
            pos,
            line,
        ).position,
{
    trivia_end_bounds(src, pos);
    if trivia_end(src, pos) < src.len() {
        lex_bounds(src, trivia_end(src, pos));
    }
}

/// The source from a place on, put together again from tokens: before the
/// text of each token stand the whitespace and the comments that the
/// source has at that place.
pub open spec fn rebuilt(src: Seq<char>, pos: int, tokens: Seq<TokenView>) -> Seq<char>
    decreases tokens.len(),
{
    if tokens.len() == 0 {
        Seq::empty()
    } else {
        let start = trivia_end(src, pos);
        src.subrange(pos, start) + tokens[0].lexeme + rebuilt(
            src,
            start + tokens[0].lexeme.len(),
            tokens.drop_first(),
        )
    }
}

/// Where a source scans without a lexical error, the texts of its tokens,
/// in order, are the source but for the whitespace and the comments
/// between them: with those put back, they are the source again.
pub proof fn lexemes_give_the_source(src: Seq<char>, pos: int, line: usize)
    requires
        0 <= pos <= src.len(),
        scan_all(src, pos, line).1.len() == 0,
    ensures
        rebuilt(src, pos, scan_all(src, pos, line).0) == src.subrange(pos, src.len() as int),
    decreases src.len() - pos,
{
    let s = scan(src, pos, line);
    let start = trivia_end(src, pos);
    scan_bounds(src, pos, line);
    let tokens = scan_all(src, pos, line).0;
    match s.outcome {
        Ok(token) => {
            if token.token_type == TokenType::EOF {
                assert(tokens =~= seq![token]);
                assert(start >= src.len());
                assert(tokens.drop_first() =~= Seq::<TokenView>::empty());
                assert(rebuilt(src, start + token.lexeme.len(), tokens.drop_first())
                    =~= Seq::<char>::empty());
                assert(token.lexeme =~= Seq::<char>::empty());
                assert(rebuilt(src, pos, tokens) =~= src.subrange(pos, src.len() as int));
            } else {
                let rest = scan_all(src, s.position, s.line);
                assert(tokens =~= seq![token] + rest.0);
                assert(tokens.drop_first() =~= rest.0);
                assert(tokens[0] == token);
                assert(rest.1 =~= scan_all(src, pos, line).1);
                lexemes_give_the_source(src, s.position, s.line);
                assert(token.lexeme == src.subrange(start, s.position));
                assert(rebuilt(src, pos, tokens) =~= src.subrange(pos, src.len() as int));
            }
        },
        Err(error) => {
            assert(scan_all(src, pos, line).1[0] == error);
        },
    }
}

} // verus!

verus! {

/// The letters of the reserved words, and of what follows their first
/// letters.
pub proof fn reserved_words()
    ensures
        "and"@ == seq!['a', 'n', 'd'],
        "class"@ == seq!['c', 'l', 'a', 's', 's'],
        "else"@ == seq!['e', 'l', 's', 'e'],
        "false"@ == seq!['f', 'a', 'l', 's', 'e'],
        "for"@ == seq!['f', 'o', 'r'],
        "fun"@ == seq!['f', 'u', 'n'],
        "if"@ == seq!['i', 'f'],
        "nil"@ == seq!['n', 'i', 'l'],
        "or"@ == seq!['o', 'r'],
        "print"@ == seq!['p', 'r', 'i', 'n', 't'],
        "return"@ == seq!['r', 'e', 't', 'u', 'r', 'n'],
        "super"@ == seq!['s', 'u', 'p', 'e', 'r'],
        "this"@ == seq!['t', 'h', 'i', 's'],
        "true"@ == seq!['t', 'r', 'u', 'e'],
        "var"@ == seq!['v', 'a', 'r'],
        "while"@ == seq!['w', 'h', 'i', 'l', 'e'],
        "nd"@ == seq!['n', 'd'],
        "lass"@ == seq!['l', 'a', 's', 's'],
        "lse"@ == seq!['l', 's', 'e'],
        "f"@ == seq!['f'],
        "il"@ == seq!['i', 'l'],
        "r"@ == seq!['r'],
        "rint"@ == seq!['r', 'i', 'n', 't'],
        "eturn"@ == seq!['e', 't', 'u', 'r', 'n'],
        "uper"@ == seq!['u', 'p', 'e', 'r'],
        "ar"@ == seq!['a', 'r'],
        "hile"@ == seq!['h', 'i', 'l', 'e'],
        "n"@ == seq!['n'],
        "is"@ == seq!['i', 's'],
        "ue"@ == seq!['u', 'e'],
{
    reveal_strlit("and");
    reveal_strlit("class");
    reveal_strlit("else");
    reveal_strlit("false");
    reveal_strlit("for");
    reveal_strlit("fun");
    reveal_strlit("if");
    reveal_strlit("nil");
    reveal_strlit("or");
    reveal_strlit("print");
    reveal_strlit("return");
    reveal_strlit("super");
    reveal_strlit("this");
    reveal_strlit("true");
    reveal_strlit("var");
    reveal_strlit("while");
    reveal_strlit("nd");
    reveal_strlit("lass");
    reveal_strlit("lse");
    reveal_strlit("f");
    reveal_strlit("il");
    reveal_strlit("r");
    reveal_strlit("rint");
    reveal_strlit("eturn");
    reveal_strlit("uper");
    reveal_strlit("ar");
    reveal_strlit("hile");
    reveal_strlit("n");
    reveal_strlit("is");
    reveal_strlit("ue");
    assert("and"@ =~= seq!['a', 'n', 'd']);
    assert("class"@ =~= seq!['c', 'l', 'a', 's', 's']);
    assert("else"@ =~= seq!['e', 'l', 's', 'e']);
    assert("false"@ =~= seq!['f', 'a', 'l', 's', 'e']);
    assert("for"@ =~= seq!['f', 'o', 'r']);
    assert("fun"@ =~= seq!['f', 'u', 'n']);
    assert("if"@ =~= seq!['i', 'f']);
    assert("nil"@ =~= seq!['n', 'i', 'l']);
    assert("or"@ =~= seq!['o', 'r']);
    assert("print"@ =~= seq!['p', 'r', 'i', 'n', 't']);
    assert("return"@ =~= seq!['r', 'e', 't', 'u', 'r', 'n']);
    assert("super"@ =~= seq!['s', 'u', 'p', 'e', 'r']);
    assert("this"@ =~= seq!['t', 'h', 'i', 's']);
    assert("true"@ =~= seq!['t', 'r', 'u', 'e']);
    assert("var"@ =~= seq!['v', 'a', 'r']);
    assert("while"@ =~= seq!['w', 'h', 'i', 'l', 'e']);
    assert("nd"@ =~= seq!['n', 'd']);
    assert("lass"@ =~= seq!['l', 'a', 's', 's']);
    assert("lse"@ =~= seq!['l', 's', 'e']);
    assert("f"@ =~= seq!['f']);
    assert("il"@ =~= seq!['i', 'l']);
    assert("r"@ =~= seq!['r']);
    assert("rint"@ =~= seq!['r', 'i', 'n', 't']);
    assert("eturn"@ =~= seq!['e', 't', 'u', 'r', 'n']);
    assert("uper"@ =~= seq!['u', 'p', 'e', 'r']);
    assert("ar"@ =~= seq!['a', 'r']);
    assert("hile"@ =~= seq!['h', 'i', 'l', 'e']);
    assert("n"@ =~= seq!['n']);
    assert("is"@ =~= seq!['i', 's']);
    assert("ue"@ =~= seq!['u', 'e']);
}

/// A word that starts like a reserved word is that word exactly if it
/// goes on like it.
pub proof fn tail_decides(word: Seq<char>, keyword: Seq<char>, offset: int, rest: Seq<char>)
    requires
        0 <= offset <= word.len(),
        offset <= keyword.len(),
        rest =~= keyword.subrange(offset, keyword.len() as int),
        forall|i: int| 0 <= i < offset ==> word[i] == keyword[i],
    ensures
        (word.subrange(offset, word.len() as int) == rest) <==> word == keyword,
{
    if word.subrange(offset, word.len() as int) == rest {
        assert(word.subrange(offset, word.len() as int).len() == word.len() - offset);
        assert(keyword.subrange(offset, keyword.len() as int).len() == keyword.len() - offset);
        assert(word.len() == keyword.len());
        assert forall|i: int| 0 <= i < word.len() implies word[i] == keyword[i] by {
            if i >= offset {
                assert(word[i] == word.subrange(offset, word.len() as int)[i - offset]);
                assert(keyword[i] == keyword.subrange(offset, keyword.len() as int)[i - offset]);
            }
        }
        assert(word =~= keyword);
    }
    if word == keyword {
        assert(word.subrange(offset, word.len() as int) =~= rest);
    }
}

} // verus!
