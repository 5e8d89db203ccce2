//! The single-pass compiler: it reads tokens from the scanner and writes
//! bytecode into a chunk, climbing operator precedence on the way.
use vstd::prelude::*;
use crate::chunk::{Chunk, ChunkView, OpCode};
use crate::error::{CompilerError, ErrorView, RLoxError, RLoxErrorView};
use crate::parser::{token_view, Parser};
use crate::scanner::{scan, Scanner};
use crate::text::{decimal, push_decimal, push_text};
use crate::token::{Literal, LiteralView, Token, TokenType, TokenView};

verus! {

/// The levels of precedence, from the loosest to the tightest.
#[derive(Debug, Clone, Copy, PartialEq, Eq, Structural)]
pub enum Precedence {
    Lowest,
    Assignment,
    Or,
    And,
    Equality,
    Comparison,
    Term,
    Factor,
    Unary,
    Call,
    Primary,
}

impl Precedence {
    /// The place of a level in the order, counted from 0.
    pub open spec fn level(self) -> u8 {
        match self {
            Precedence::Lowest => 0,
            Precedence::Assignment => 1,
            Precedence::Or => 2,
            Precedence::And => 3,
            Precedence::Equality => 4,
            Precedence::Comparison => 5,
            Precedence::Term => 6,
            Precedence::Factor => 7,
            Precedence::Unary => 8,
            Precedence::Call => 9,
            Precedence::Primary => 10,
        }
    }

    pub fn as_level(self) -> (level: u8)
        ensures
            level == self.level(),
    {
        match self {
            Precedence::Lowest => 0,
            Precedence::Assignment => 1,
            Precedence::Or => 2,
            Precedence::And => 3,
            Precedence::Equality => 4,
            Precedence::Comparison => 5,
            Precedence::Term => 6,
            Precedence::Factor => 7,
            Precedence::Unary => 8,
            Precedence::Call => 9,
            Precedence::Primary => 10,
        }
    }

    /// The level at a place in the order, if there is one.
    pub fn from_u8(level: u8) -> (precedence: Option<Precedence>)
        ensures
            match precedence {
                Some(p) => p.level() == level,
                None => level > 10,
            },
    {
        match level {
            0 => Some(Precedence::Lowest),
            1 => Some(Precedence::Assignment),
            2 => Some(Precedence::Or),
            3 => Some(Precedence::And),
            4 => Some(Precedence::Equality),
            5 => Some(Precedence::Comparison),
            6 => Some(Precedence::Term),
            7 => Some(Precedence::Factor),
            8 => Some(Precedence::Unary),
            9 => Some(Precedence::Call),
            10 => Some(Precedence::Primary),
            _ => None,
        }
    }
}

/// The ways to compile the token just read.
#[derive(Debug, Clone, Copy, PartialEq, Eq, Structural)]
pub enum ParseFn {
    Grouping,
    Number,
    Unary,
    Binary,
    Literal,
    String,
    Variable,
}

/// What a kind of token means to the parser: how to compile it at the start
/// of an expression, how to compile it after a left operand, and how
/// tightly it binds there.
#[derive(Debug, Clone, Copy, PartialEq, Eq, Structural)]
pub struct ParseRule {
    pub prefix: Option<ParseFn>,
    pub infix: Option<ParseFn>,
    pub precedence: Precedence,
}

/// The rule of each kind of token.
pub open spec fn rule(kind: TokenType) -> ParseRule {
    match kind {
        TokenType::LeftParen => ParseRule {
            prefix: Some(ParseFn::Grouping),
            infix: None,
            precedence: Precedence::Lowest,
        },
        TokenType::Minus => ParseRule {
            prefix: Some(ParseFn::Unary),
            infix: Some(ParseFn::Binary),
            precedence: Precedence::Term,
        },
        TokenType::Plus => ParseRule {
            prefix: None,
            infix: Some(ParseFn::Binary),
            precedence: Precedence::Term,
        },
        TokenType::Slash | TokenType::Star => ParseRule {
            prefix: None,
            infix: Some(ParseFn::Binary),
            precedence: Precedence::Factor,
        },
        TokenType::Bang => ParseRule {
            prefix: Some(ParseFn::Unary),
            infix: None,
            precedence: Precedence::Lowest,
        },
        TokenType::BangEqual | TokenType::EqualEqual => ParseRule {
            prefix: None,
            infix: Some(ParseFn::Binary),
            precedence: Precedence::Equality,
        },
        TokenType::Greater | TokenType::GreaterEqual | TokenType::Less | TokenType::LessEqual => ParseRule {
            prefix: None,
            infix: Some(ParseFn::Binary),
            precedence: Precedence::Comparison,
        },
        TokenType::Identifier => ParseRule {
            prefix: Some(ParseFn::Variable),
            infix: None,
            precedence: Precedence::Lowest,
        },
        TokenType::String => ParseRule {
            prefix: Some(ParseFn::String),
            infix: None,
            precedence: Precedence::Lowest,
        },
        TokenType::Number => ParseRule {
            prefix: Some(ParseFn::Number),
            infix: None,
            precedence: Precedence::Lowest,
        },
        TokenType::False | TokenType::Nil | TokenType::True => ParseRule {
            prefix: Some(ParseFn::Literal),
            infix: None,
            precedence: Precedence::Lowest,
        },
        _ => ParseRule { prefix: None, infix: None, precedence: Precedence::Lowest },
    }
}

/// One message of the compiler about the source.
#[derive(Debug)]
pub struct Diagnostic {
    pub line: usize,
    /// The text of the token the message is about; none at the end of the
    /// source.
    pub location: Option<String>,
    pub message: String,
}

pub struct DiagnosticView {
    pub line: usize,
    pub location: Option<Seq<char>>,
    pub message: Seq<char>,
}

impl View for Diagnostic {
    type V = DiagnosticView;

    open spec fn view(&self) -> DiagnosticView {
        DiagnosticView {
            line: self.line,
            location: match self.location {
                Some(text) => Some(text@),
                None => None,
            },
            message: self.message@,
        }
    }
}

impl DeepView for Diagnostic {
    type V = DiagnosticView;

    open spec fn deep_view(&self) -> DiagnosticView {
        self@
    }
}

impl DiagnosticView {
    /// The message as it is printed: `[line N] Error at '<text>': <message>`,
    /// with `at end` in place of the text at the end of the source.
    pub open spec fn text(self) -> Seq<char> {
        "[line "@ + decimal(self.line as nat) + "] Error"@ + match self.location {
            Some(text) => " at '"@ + text + "'"@,
            None => " at end"@,
        } + ": "@ + self.message
    }
}

impl Diagnostic {
    pub fn to_text(&self) -> (text: String)
        ensures
            text@ == self@.text(),
    {
        let mut text = "[line ".to_owned();
        push_decimal(&mut text, self.line);
        push_text(&mut text, "] Error");
        match &self.location {
            Some(lexeme) => {
                push_text(&mut text, " at '");
                push_text(&mut text, lexeme.as_str());
                push_text(&mut text, "'");
                assert(text@ =~= "[line "@ + decimal(self.line as nat) + "] Error"@ + (" at '"@
                    + lexeme@ + "'"@));
            },
            None => {
                push_text(&mut text, " at end");
            },
        }
        push_text(&mut text, ": ");
        push_text(&mut text, self.message.as_str());
        text
    }
}

/// The error raised where the parser has no token to look at.
pub open spec fn no_token() -> RLoxErrorView {
    RLoxErrorView::CompilerError(ErrorView { line: 0, message: "Current token is undefined"@ })
}

/// The token that stands for a missing one.
pub open spec fn dummy_token() -> TokenView {
    TokenView {
        token_type: TokenType::EOF,
        lexeme: Seq::empty(),
        line: 0,
        literal: LiteralView::Nil,
    }
}

/// Whether the kind starts a statement.
pub open spec fn starts_statement(kind: TokenType) -> bool {
    kind == TokenType::Class || kind == TokenType::Fun || kind == TokenType::Var || kind
        == TokenType::For || kind == TokenType::If || kind == TokenType::While || kind
        == TokenType::Print || kind == TokenType::Return
}

/// The one or two instructions that a binary operator compiles to, after
/// its operands.
pub open spec fn binary_code(kind: TokenType) -> Option<(OpCode, Option<OpCode>)> {
    match kind {
        TokenType::Plus => Some((OpCode::OpAdd, None)),
        TokenType::Minus => Some((OpCode::OpSubtract, None)),
        TokenType::Star => Some((OpCode::OpMultiply, None)),
        TokenType::Slash => Some((OpCode::OpDivide, None)),
        TokenType::BangEqual => Some((OpCode::OpEqual, Some(OpCode::OpNot))),
        TokenType::EqualEqual => Some((OpCode::OpEqual, None)),
        TokenType::Greater => Some((OpCode::OpGreater, None)),
        TokenType::GreaterEqual => Some((OpCode::OpLess, Some(OpCode::OpNot))),
        TokenType::Less => Some((OpCode::OpLess, None)),
        TokenType::LessEqual => Some((OpCode::OpGreater, Some(OpCode::OpNot))),
        _ => None,
    }
}

/// The state of a compilation.
pub struct Compilation {
    pub src: Seq<char>,
    /// Where the scanner stands, and on which line.
    pub position: int,
    pub line: usize,
    pub previous: Option<TokenView>,
    pub current: Option<TokenView>,
    pub panic_mode: bool,
    pub had_error: bool,
    pub chunk: ChunkView,
    pub diagnostics: Seq<DiagnosticView>,
}

pub type Compiled = Result<Compilation, RLoxErrorView>;

impl Compilation {
    /// The state before the first token of `src` is read.
    pub open spec fn begin(src: Seq<char>) -> Compilation {
        Compilation {
            src,
            position: 0,
            line: 1,
            previous: None,
            current: None,
            panic_mode: false,
            had_error: false,
            chunk: ChunkView { code: Seq::empty(), lines: Seq::empty(), constants: Seq::empty() },
            diagnostics: Seq::empty(),
        }
    }

    /// Whether the constants are few enough for a byte to index each.
    pub open spec fn fits(self) -> bool {
        self.chunk.constants.len() <= 256
    }

    /// How much is left to read: it never grows, and it shrinks whenever a
    /// token other than `EOF` is passed.
    pub open spec fn measure(self) -> nat {
        let ahead: nat = if self.current is Some && self.current->0.token_type != TokenType::EOF {
            1
        } else {
            0
        };
        if self.position <= self.src.len() {
            (2 * (self.src.len() - self.position) + ahead) as nat
        } else {
            ahead
        }
    }

    /// Reports an error at a token, unless the parser is in panic mode
    /// already; the parser then is.
    pub open spec fn report(self, token: Option<TokenView>, message: Seq<char>) -> Compilation {
        let at = match token {
            Some(t) => t,
            None => dummy_token(),
        };
        if self.panic_mode {
            self
        } else {
            Compilation {
                panic_mode: true,
                had_error: true,
                diagnostics: self.diagnostics.push(
                    DiagnosticView {
                        line: at.line,
                        location: if at.token_type == TokenType::EOF {
                            None
                        } else {
                            Some(at.lexeme)
                        },
                        message,
                    },
                ),
                ..self
            }
        }
    }

    /// Reads the next token: the current one becomes the previous one.
    pub open spec fn advance(self) -> Compiled {
        let s = scan(self.src, self.position, self.line);
        match s.outcome {
            Ok(token) => Ok(
                Compilation {
                    previous: self.current,
                    current: Some(token),
                    position: s.position,
                    line: s.line,
                    ..self
                },
            ),
            Err(error) => Err(RLoxErrorView::TokenError(error)),
        }
    }

    /// Passes the current token if it is of the given kind, and says
    /// whether it was.
    pub open spec fn accept(self, kind: TokenType) -> Result<(Compilation, bool), RLoxErrorView> {
        match self.current {
            None => Err(no_token()),
            Some(token) => if token.token_type == kind {
                match self.advance() {
                    Ok(next) => Ok((next, true)),
                    Err(error) => Err(error),
                }
            } else {
                Ok((self, false))
            },
        }
    }

    /// Passes the current token if it is of the given kind; else reports
    /// the message at it.
    pub open spec fn consume(self, kind: TokenType, message: Seq<char>) -> Compiled {
        match self.current {
            None => Err(no_token()),
            Some(token) => if token.token_type == kind {
                self.advance()
            } else {
                Ok(self.report(self.current, message))
            },
        }
    }

    /// Writes a byte, on the line of the previous token.
    pub open spec fn emit(self, byte: u8) -> Compiled {
        match self.previous {
            None => Err(no_token()),
            Some(token) => Ok(
                Compilation {
                    chunk: ChunkView {
                        code: self.chunk.code.push(byte),
                        lines: self.chunk.lines.push(token.line),
                        constants: self.chunk.constants,
                    },
                    ..self
                },
            ),
        }
    }

    /// Writes two bytes.
    pub open spec fn emit2(self, first: u8, second: u8) -> Compiled {
        match self.emit(first) {
            Ok(next) => next.emit(second),
            Err(error) => Err(error),
        }
    }

    /// Writes the instructions of a binary operator.
    pub open spec fn emit_code(self, code: Option<(OpCode, Option<OpCode>)>) -> Compiled {
        match code {
            Some((first, Some(second))) => self.emit2(first.byte(), second.byte()),
            Some((first, None)) => self.emit(first.byte()),
            None => Ok(self),
        }
    }

    /// Adds a constant and gives its index. A chunk holds 256 constants at
    /// most: one more is an error, and stands for the index 0.
    pub open spec fn constant(self, literal: LiteralView) -> (Compilation, u8) {
        if self.chunk.constants.len() >= 256 {
            (self.report(self.previous, "Too many constants in one chunk."@), 0)
        } else {
            (
                Compilation {
                    chunk: ChunkView {
                        constants: self.chunk.constants.push(literal),
                        ..self.chunk
                    },
                    ..self
                },
                self.chunk.constants.len() as u8,
            )
        }
    }

    /// Adds a constant and writes the instruction that loads it.
    pub open spec fn emit_constant(self, literal: LiteralView) -> Compiled {
        let (next, index) = self.constant(literal);
        next.emit2(OpCode::OpConstant.byte(), index)
    }

    /// An expression whose operators all bind at least as tightly as
    /// `level`, which is above 0.
    pub open spec fn parse_precedence(self, level: u8) -> Compiled
        decreases self.measure(), 0nat,
    {
        match self.advance() {
            Err(error) => Err(error),
            Ok(c1) => match c1.previous {
                None => Err(no_token()),
                Some(token) => match rule(token.token_type).prefix {
                    None => Ok(c1.report(c1.previous, "Expect expression."@)),
                    Some(parse) => if c1.measure() < self.measure() {
                        match c1.dispatch(parse, level <= 1) {
                            Err(error) => Err(error),
                            Ok(c2) => if c2.measure() < self.measure() {
                                match c2.infixes(level) {
                                    Err(error) => Err(error),
                                    Ok((c3, stopped)) => if stopped || level > 1 {
                                        Ok(c3)
                                    } else {
                                        match c3.accept(TokenType::Equal) {
                                            Err(error) => Err(error),
                                            Ok((c4, found)) => if found {
                                                Ok(
                                                    c4.report(
                                                        c4.previous,
                                                        "Invalid assignment target."@,
                                                    ),
                                                )
                                            } else {
                                                Ok(c4)
                                            },
                                        }
                                    },
                                }
                            } else {
                                Ok(c2)
                            },
                        }
                    } else {
                        Ok(c1)
                    },
                },
            },
        }
    }

    /// The operators that follow a left operand, as long as they bind at
    /// least as tightly as `level`, each with its right operand. The flag
    /// says that a token without an infix rule ended the expression.
    pub open spec fn infixes(self, level: u8) -> Result<(Compilation, bool), RLoxErrorView>
        decreases self.measure(), 1nat,
    {
        match self.current {
            None => Err(no_token()),
            Some(ahead) => if level <= rule(ahead.token_type).precedence.level() {
                match self.advance() {
                    Err(error) => Err(error),
                    Ok(c1) => match c1.previous {
                        None => Err(no_token()),
                        Some(token) => match rule(token.token_type).infix {
                            None => Ok((c1.report(c1.previous, "Expect expression."@), true)),
                            Some(parse) => if c1.measure() < self.measure() {
                                match c1.dispatch(parse, level <= 1) {
                                    Err(error) => Err(error),
                                    Ok(c2) => if c2.measure() < self.measure() {
                                        c2.infixes(level)
                                    } else {
                                        Ok((c2, false))
                                    },
                                }
                            } else {
                                Ok((c1, false))
                            },
                        },
                    },
                }
            } else {
                Ok((self, false))
            },
        }
    }

    /// Compiles the token just read in the given way.
    pub open spec fn dispatch(self, parse: ParseFn, can_assign: bool) -> Compiled
        decreases self.measure(), 3nat,
    {
        match parse {
            ParseFn::Grouping => self.grouping(),
            ParseFn::Number | ParseFn::String => match self.previous {
                None => Err(no_token()),
                Some(token) => self.emit_constant(token.literal),
            },
            ParseFn::Unary => self.unary(),
            ParseFn::Binary => self.binary(),
            ParseFn::Literal => match self.previous {
                None => Err(no_token()),
                Some(token) => self.emit(
                    match token.token_type {
                        TokenType::True => OpCode::OpTrue.byte(),
                        TokenType::False => OpCode::OpFalse.byte(),
                        _ => OpCode::OpNil.byte(),
                    },
                ),
            },
            ParseFn::Variable => self.variable(can_assign),
        }
    }

    /// An expression in parentheses, after `(`.
    pub open spec fn grouping(self) -> Compiled
        decreases self.measure(), 2nat,
    {
        match self.expression() {
            Err(error) => Err(error),
            Ok(next) => next.consume(TokenType::RightParen, "Expect ')' after expression."@),
        }
    }

    /// The operand of `!` or `-`, then the instruction of the operator.
    pub open spec fn unary(self) -> Compiled
        decreases self.measure(), 2nat,
    {
        match self.previous {
            None => Err(no_token()),
            Some(operator) => match self.parse_precedence(Precedence::Unary.level()) {
                Err(error) => Err(error),
                Ok(next) => next.emit(
                    if operator.token_type == TokenType::Bang {
                        OpCode::OpNot.byte()
                    } else {
                        OpCode::OpNegate.byte()
                    },
                ),
            },
        }
    }

    /// The right operand of a binary operator, which binds one level
    /// tighter than the operator, then the instructions of the operator.
    pub open spec fn binary(self) -> Compiled
        decreases self.measure(), 2nat,
    {
        match self.previous {
            None => Err(no_token()),
            Some(operator) => match self.parse_precedence(
                (rule(operator.token_type).precedence.level() + 1) as u8,
            ) {
                Err(error) => Err(error),
                Ok(next) => next.emit_code(binary_code(operator.token_type)),
            },
        }
    }

    /// A variable: its name becomes a constant; it is assigned to if an
    /// assignment may stand here and `=` follows, else it is read.
    pub open spec fn variable(self, can_assign: bool) -> Compiled
        decreases self.measure(), 2nat,
    {
        match self.previous {
            None => Err(no_token()),
            Some(name) => {
                let (c1, index) = self.constant(LiteralView::String(name.lexeme));
                if can_assign {
                    match c1.accept(TokenType::Equal) {
                        Err(error) => Err(error),
                        Ok((c2, found)) => if found {
                            if c2.measure() <= self.measure() {
                                match c2.expression() {
                                    Err(error) => Err(error),
                                    Ok(c3) => c3.emit2(OpCode::OpSetGlobal.byte(), index),
                                }
                            } else {
                                Ok(c2)
                            }
                        } else {
                            c2.emit2(OpCode::OpGetGlobal.byte(), index)
                        },
                    }
                } else {
                    c1.emit2(OpCode::OpGetGlobal.byte(), index)
                }
            },
        }
    }

    pub open spec fn expression(self) -> Compiled
        decreases self.measure(), 1nat,
    {
        self.parse_precedence(Precedence::Assignment.level())
    }

    /// An expression, a semicolon, and one instruction.
    pub open spec fn simple_statement(self, message: Seq<char>, op: OpCode) -> Compiled {
        match self.expression() {
            Err(error) => Err(error),
            Ok(c1) => match c1.consume(TokenType::SemiColon, message) {
                Err(error) => Err(error),
                Ok(c2) => c2.emit(op.byte()),
            },
        }
    }

    pub open spec fn print_statement(self) -> Compiled {
        self.simple_statement("Expect ';' after value."@, OpCode::OpPrint)
    }

    pub open spec fn expression_statement(self) -> Compiled {
        self.simple_statement("Expect ';' after expression."@, OpCode::OpPop)
    }

    pub open spec fn statement(self) -> Compiled {
        match self.accept(TokenType::Print) {
            Err(error) => Err(error),
            Ok((next, found)) => if found {
                next.print_statement()
            } else {
                next.expression_statement()
            },
        }
    }

    /// The name of a variable becomes a constant.
    pub open spec fn parse_variable(self, message: Seq<char>) -> Result<
        (Compilation, u8),
        RLoxErrorView,
    > {
        match self.consume(TokenType::Identifier, message) {
            Err(error) => Err(error),
            Ok(c1) => match c1.previous {
                None => Err(no_token()),
                Some(name) => Ok(c1.constant(LiteralView::String(name.lexeme))),
            },
        }
    }

    /// After `var`: a name, an initializer or `nil`, a semicolon, and the
    /// definition of the global.
    pub open spec fn var_declaration(self) -> Compiled {
        match self.parse_variable("Expect variable name."@) {
            Err(error) => Err(error),
            Ok((c1, global)) => match c1.accept(TokenType::Equal) {
                Err(error) => Err(error),
                Ok((c2, found)) => match if found {
                    c2.expression()
                } else {
                    c2.emit(OpCode::OpNil.byte())
                } {
                    Err(error) => Err(error),
                    Ok(c3) => match c3.consume(
                        TokenType::SemiColon,
                        "Expect ';' after variable declaration."@,
                    ) {
                        Err(error) => Err(error),
                        Ok(c4) => c4.emit2(OpCode::OpDefineGlobal.byte(), global),
                    },
                },
            },
        }
    }

    /// Leaves panic mode by passing tokens until one after a semicolon, one
    /// that starts a statement, or the end.
    pub open spec fn synchronize(self) -> Compiled {
        Compilation { panic_mode: false, ..self }.skip_to_statement()
    }

    pub open spec fn skip_to_statement(self) -> Compiled
        decreases self.measure(),
    {
        match self.current {
            None => Err(no_token()),
            Some(ahead) => if ahead.token_type == TokenType::EOF {
                Ok(self)
            } else {
                match self.previous {
                    None => Err(no_token()),
                    Some(token) => if token.token_type == TokenType::SemiColon || starts_statement(
                        ahead.token_type,
                    ) {
                        Ok(self)
                    } else {
                        match self.advance() {
                            Err(error) => Err(error),
                            Ok(next) => if next.measure() < self.measure() {
                                next.skip_to_statement()
                            } else {
                                Ok(next)
                            },
                        }
                    },
                }
            },
        }
    }

    #[verifier::opaque]
    pub open spec fn declaration(self) -> Compiled {
        match self.accept(TokenType::Var) {
            Err(error) => Err(error),
            Ok((c1, found)) => match if found {
                c1.var_declaration()
            } else {
                c1.statement()
            } {
                Err(error) => Err(error),
                Ok(c2) => if c2.panic_mode {
                    c2.synchronize()
                } else {
                    Ok(c2)
                },
            },
        }
    }

    /// Declarations up to the end of the source, then `OpReturn`.
    pub open spec fn declarations(self) -> Compiled
        decreases self.measure(),
    {
        match self.accept(TokenType::EOF) {
            Err(error) => Err(error),
            Ok((c1, found)) => if found {
                c1.emit(OpCode::OpReturn.byte())
            } else {
                match c1.declaration() {
                    Err(error) => Err(error),
                    Ok(c2) => if c2.measure() < self.measure() {
                        c2.declarations()
                    } else {
                        Ok(c2)
                    },
                }
            },
        }
    }

    /// The whole compilation: a lexical error ends it at once; any other
    /// error is reported, and the compilation goes on with the next
    /// statement.
    pub open spec fn compile(self) -> Compiled {
        match (Compilation { panic_mode: false, had_error: false, ..self }).advance() {
            Err(error) => Err(error),
            Ok(c1) => c1.declarations(),
        }
    }
}

} // verus!

verus! {

/// Whether what a step of the compiler returned and left behind is what
/// the model gives.
pub open spec fn agrees(r: Result<(), RLoxError>, after: Compilation, expected: Compiled) -> bool {
    match r {
        Ok(_) => expected == Ok::<Compilation, RLoxErrorView>(after),
        Err(error) => expected == Err::<Compilation, RLoxErrorView>(error@),
    }
}

/// The same, for a step that also returns a value.
pub open spec fn agrees_with<T>(
    r: Result<T, RLoxError>,
    after: Compilation,
    expected: Result<(Compilation, T), RLoxErrorView>,
) -> bool {
    match r {
        Ok(value) => expected == Ok::<(Compilation, T), RLoxErrorView>((after, value)),
        Err(error) => expected == Err::<(Compilation, T), RLoxErrorView>(error@),
    }
}

/// Whether a token other than `EOF` is ahead.
pub open spec fn token_ahead(c: Compilation) -> bool {
    c.current is Some && c.current->0.token_type != TokenType::EOF
}

/// The rule of a kind of token.
pub fn get_rule(kind: TokenType) -> (r: ParseRule)
    ensures
        r == rule(kind),
{
    match kind {
        TokenType::LeftParen => ParseRule {
            prefix: Some(ParseFn::Grouping),
            infix: None,
            precedence: Precedence::Lowest,
        },
        TokenType::Minus => ParseRule {
            prefix: Some(ParseFn::Unary),
            infix: Some(ParseFn::Binary),
            precedence: Precedence::Term,
        },
        TokenType::Plus => ParseRule {
            prefix: None,
            infix: Some(ParseFn::Binary),
            precedence: Precedence::Term,
        },
        TokenType::Slash | TokenType::Star => ParseRule {
            prefix: None,
            infix: Some(ParseFn::Binary),
            precedence: Precedence::Factor,
        },
        TokenType::Bang => ParseRule {
            prefix: Some(ParseFn::Unary),
            infix: None,
            precedence: Precedence::Lowest,
        },
        TokenType::BangEqual | TokenType::EqualEqual => ParseRule {
            prefix: None,
            infix: Some(ParseFn::Binary),
            precedence: Precedence::Equality,
        },
        TokenType::Greater | TokenType::GreaterEqual | TokenType::Less | TokenType::LessEqual => ParseRule {
            prefix: None,
            infix: Some(ParseFn::Binary),
            precedence: Precedence::Comparison,
        },
        TokenType::Identifier => ParseRule {
            prefix: Some(ParseFn::Variable),
            infix: None,
            precedence: Precedence::Lowest,
        },
        TokenType::String => ParseRule {
            prefix: Some(ParseFn::String),
            infix: None,
            precedence: Precedence::Lowest,
        },
        TokenType::Number => ParseRule {
            prefix: Some(ParseFn::Number),
            infix: None,
            precedence: Precedence::Lowest,
        },
        TokenType::False | TokenType::Nil | TokenType::True => ParseRule {
            prefix: Some(ParseFn::Literal),
            infix: None,
            precedence: Precedence::Lowest,
        },
        _ => ParseRule { prefix: None, infix: None, precedence: Precedence::Lowest },
    }
}

/// The compiler of one source text.
pub struct Compiler<'src> {
    pub current_chunk: Chunk,
    parser: Parser,
    scanner: Scanner<'src>,
    diagnostics: Vec<Diagnostic>,
}

impl<'src> Compiler<'src> {
    /// The state of the compilation.
    pub closed spec fn model(&self) -> Compilation {
        Compilation {
            src: self.scanner.text(),
            position: self.scanner.position(),
            line: self.scanner.line_number(),
            previous: token_view(self.parser.previous),
            current: token_view(self.parser.current),
            panic_mode: self.parser.panic_mode,
            had_error: self.parser.had_error,
            chunk: self.current_chunk@,
            diagnostics: self.diagnostics.deep_view(),
        }
    }

    /// A compiler at the start of `source`.
    pub fn new(source: &'src str) -> (compiler: Self)
        ensures
            compiler.model() == Compilation::begin(source@),
    {
        let compiler = Compiler {
            current_chunk: Chunk::new(),
            parser: Parser::new(),
            scanner: Scanner::new(source),
            diagnostics: Vec::new(),
        };
        assert(compiler.model().diagnostics =~= Seq::empty());
        assert(compiler.model().chunk.code =~= Seq::empty());
        assert(compiler.model().chunk.lines =~= Seq::empty());
        assert(compiler.model().chunk.constants =~= Seq::empty());
        compiler
    }

    /// The messages reported so far, in order.
    pub fn diagnostics(&self) -> (list: &Vec<Diagnostic>)
        ensures
            list.deep_view() == self.model().diagnostics,
    {
        &self.diagnostics
    }

    /// Whether an error has been reported.
    pub fn had_error(&self) -> (flag: bool)
        ensures
            flag == self.model().had_error,
    {
        self.parser.had_error
    }

    /// The chunk written so far.
    pub fn chunk(&self) -> (chunk: &Chunk)
        ensures
            chunk@ == self.model().chunk,
    {
        &self.current_chunk
    }

    /// Hands out the chunk written and the messages reported.
    pub fn finish(self) -> (parts: (Chunk, Vec<Diagnostic>))
        ensures
            parts.0@ == self.model().chunk,
            parts.1.deep_view() == self.model().diagnostics,
    {
        (self.current_chunk, self.diagnostics)
    }

    fn curr(&self) -> (r: Result<&Token, RLoxError>)
        ensures
            match r {
                Ok(token) => self.model().current == Some(token@),
                Err(error) => self.model().current is None && error@ == no_token(),
            },
    {
        match &self.parser.current {
            Some(token) => Ok(token),
            None => Err(
                RLoxError::CompilerError(CompilerError::new(0, "Current token is undefined")),
            ),
        }
    }

    fn prev(&self) -> (r: Result<&Token, RLoxError>)
        ensures
            match r {
                Ok(token) => self.model().previous == Some(token@),
                Err(error) => self.model().previous is None && error@ == no_token(),
            },
    {
        match &self.parser.previous {
            Some(token) => Ok(token),
            None => Err(
                RLoxError::CompilerError(CompilerError::new(0, "Current token is undefined")),
            ),
        }
    }

    fn error_at(&mut self, previous: bool, message: &str)
        ensures
            old(self).model().fits() ==> final(self).model().fits(),
            final(self).model() == old(self).model().report(
                if previous {
                    old(self).model().previous
                } else {
                    old(self).model().current
                },
                message@,
            ),
    {
        if self.parser.panic_mode {
            return ;
        }
        self.parser.panic_mode = true;
        let token = if previous {
            &self.parser.previous
        } else {
            &self.parser.current
        };
        let diagnostic = match token {
            Some(t) => Diagnostic {
                line: t.line,
                location: match t.token_type {
                    TokenType::EOF => None,
                    _ => Some(t.lexeme.clone()),
                },
                message: message.to_owned(),
            },
            None => Diagnostic { line: 0, location: None, message: message.to_owned() },
        };
        self.diagnostics.push(diagnostic);
        self.parser.had_error = true;
        assert(self.model().diagnostics =~= old(self).model().diagnostics.push(diagnostic@));
    }

    fn error_at_current(&mut self, message: &str)
        ensures
            old(self).model().fits() ==> final(self).model().fits(),
            final(self).model() == old(self).model().report(old(self).model().current, message@),
    {
        self.error_at(false, message)
    }

    fn error(&mut self, message: &str)
        ensures
            old(self).model().fits() ==> final(self).model().fits(),
            final(self).model() == old(self).model().report(old(self).model().previous, message@),
    {
        self.error_at(true, message)
    }

    fn advance(&mut self) -> (r: Result<(), RLoxError>)
        ensures
            old(self).model().fits() ==> final(self).model().fits(),
            agrees(r, final(self).model(), old(self).model().advance()),
            r is Ok ==> final(self).model().measure() <= old(self).model().measure(),
            r is Ok && token_ahead(old(self).model()) ==> final(self).model().measure() < old(self).model().measure(),
    {
        let token = match self.scanner.scan_token() {
            Ok(token) => token,
            Err(error) => {
                return Err(RLoxError::TokenError(error));
            },
        };
        self.parser.previous = self.parser.current.take();
        self.parser.current = Some(token);
        Ok(())
    }

    fn check(&self, kind: TokenType) -> (r: Result<bool, RLoxError>)
        ensures
            match r {
                Ok(same) => self.model().current is Some && same == (
                self.model().current->0.token_type == kind),
                Err(error) => self.model().current is None && error@ == no_token(),
            },
    {
        Ok(self.curr()?.token_type == kind)
    }

    fn match_token(&mut self, kind: TokenType) -> (r: Result<bool, RLoxError>)
        ensures
            old(self).model().fits() ==> final(self).model().fits(),
            agrees_with(r, final(self).model(), old(self).model().accept(kind)),
            r is Ok ==> final(self).model().measure() <= old(self).model().measure(),
            r == Ok::<bool, RLoxError>(true) && kind != TokenType::EOF ==> final(self).model().measure() < old(self).model().measure(),
    {
        if !self.check(kind)? {
            return Ok(false);
        }
        self.advance()?;
        Ok(true)
    }

    fn consume(&mut self, kind: TokenType, message: &str) -> (r: Result<(), RLoxError>)
        ensures
            old(self).model().fits() ==> final(self).model().fits(),
            agrees(r, final(self).model(), old(self).model().consume(kind, message@)),
            r is Ok ==> final(self).model().measure() <= old(self).model().measure(),
    {
        if self.check(kind)? {
            self.advance()?;
            return Ok(());
        }
        self.error_at_current(message);
        Ok(())
    }

    fn emit_byte(&mut self, byte: u8) -> (r: Result<(), RLoxError>)
        ensures
            old(self).model().fits() ==> final(self).model().fits(),
            agrees(r, final(self).model(), old(self).model().emit(byte)),
            r is Ok ==> final(self).model().measure() == old(self).model().measure(),
    {
        let line = self.prev()?.line;
        self.current_chunk.write(byte, line);
        Ok(())
    }

    fn emit_bytes(&mut self, byte1: u8, byte2: u8) -> (r: Result<(), RLoxError>)
        ensures
            old(self).model().fits() ==> final(self).model().fits(),
            agrees(r, final(self).model(), old(self).model().emit2(byte1, byte2)),
            r is Ok ==> final(self).model().measure() == old(self).model().measure(),
    {
        self.emit_byte(byte1)?;
        self.emit_byte(byte2)
    }

    fn emit_return(&mut self) -> (r: Result<(), RLoxError>)
        ensures
            old(self).model().fits() ==> final(self).model().fits(),
            agrees(r, final(self).model(), old(self).model().emit(OpCode::OpReturn.byte())),
    {
        self.emit_byte(OpCode::OpReturn.as_byte())
    }

    fn make_constant(&mut self, value: Literal) -> (index: u8)
        ensures
            old(self).model().fits() ==> final(self).model().fits(),
            (final(self).model(), index) == old(self).model().constant(value@),
            final(self).model().measure() == old(self).model().measure(),
    {
        if self.current_chunk.constant_count() >= 256 {
            self.error("Too many constants in one chunk.");
            return 0;
        }
        let index = self.current_chunk.add_constant(value);
        index as u8
    }

    fn emit_constant(&mut self, value: Literal) -> (r: Result<(), RLoxError>)
        ensures
            old(self).model().fits() ==> final(self).model().fits(),
            agrees(r, final(self).model(), old(self).model().emit_constant(value@)),
            r is Ok ==> final(self).model().measure() == old(self).model().measure(),
    {
        let index = self.make_constant(value);
        self.emit_bytes(OpCode::OpConstant.as_byte(), index)
    }

    fn identifier_constant(&mut self, name: &str) -> (index: u8)
        ensures
            old(self).model().fits() ==> final(self).model().fits(),
            (final(self).model(), index) == old(self).model().constant(LiteralView::String(name@)),
            final(self).model().measure() == old(self).model().measure(),
    {
        self.make_constant(Literal::String(name.to_owned()))
    }

    fn parse_precedence(&mut self, precedence: Precedence) -> (r: Result<(), RLoxError>)
        requires
            precedence.level() >= 1,
        ensures
            old(self).model().fits() ==> final(self).model().fits(),
            agrees(r, final(self).model(), old(self).model().parse_precedence(precedence.level())),
            r is Ok ==> final(self).model().measure() <= old(self).model().measure(),
            r is Ok && token_ahead(old(self).model()) ==> final(self).model().measure() < old(self).model().measure(),
        decreases old(self).model().measure(), 0nat,
    {
        self.advance()?;
        let kind = self.prev()?.token_type;
        let prefix_rule = match get_rule(kind).prefix {
            Some(prefix) => prefix,
            None => {
                self.error("Expect expression.");
                return Ok(());
            },
        };
        let level = precedence.as_level();
        let can_assign = level <= Precedence::Assignment.as_level();
        self.dispatch(prefix_rule, can_assign)?;
        let stopped = self.infixes(level)?;
        if stopped {
            return Ok(());
        }
        if can_assign && self.match_token(TokenType::Equal)? {
            self.error("Invalid assignment target.");
        }
        Ok(())
    }

    fn infixes(&mut self, level: u8) -> (r: Result<bool, RLoxError>)
        requires
            level >= 1,
        ensures
            old(self).model().fits() ==> final(self).model().fits(),
            agrees_with(r, final(self).model(), old(self).model().infixes(level)),
            r is Ok ==> final(self).model().measure() <= old(self).model().measure(),
        decreases old(self).model().measure(), 1nat,
    {
        let ahead = self.curr()?.token_type;
        if level > get_rule(ahead).precedence.as_level() {
            return Ok(false);
        }
        self.advance()?;
        let kind = self.prev()?.token_type;
        let infix_rule = match get_rule(kind).infix {
            Some(infix) => infix,
            None => {
                self.error("Expect expression.");
                return Ok(true);
            },
        };
        self.dispatch(infix_rule, level <= Precedence::Assignment.as_level())?;
        self.infixes(level)
    }

    fn dispatch(&mut self, parse: ParseFn, can_assign: bool) -> (r: Result<(), RLoxError>)
        ensures
            old(self).model().fits() ==> final(self).model().fits(),
            agrees(r, final(self).model(), old(self).model().dispatch(parse, can_assign)),
            r is Ok ==> final(self).model().measure() <= old(self).model().measure(),
        decreases old(self).model().measure(), 3nat,
    {
        match parse {
            ParseFn::Grouping => self.grouping(can_assign),
            ParseFn::Number => self.number(can_assign),
            ParseFn::Unary => self.unary(can_assign),
            ParseFn::Binary => self.binary(can_assign),
            ParseFn::Literal => self.literal(can_assign),
            ParseFn::String => self.string(can_assign),
            ParseFn::Variable => self.variable(can_assign),
        }
    }

    fn grouping(&mut self, _can_assign: bool) -> (r: Result<(), RLoxError>)
        ensures
            old(self).model().fits() ==> final(self).model().fits(),
            agrees(r, final(self).model(), old(self).model().grouping()),
            r is Ok ==> final(self).model().measure() <= old(self).model().measure(),
        decreases old(self).model().measure(), 2nat,
    {
        self.expression()?;
        self.consume(TokenType::RightParen, "Expect ')' after expression.")
    }

    fn number(&mut self, _can_assign: bool) -> (r: Result<(), RLoxError>)
        ensures
            old(self).model().fits() ==> final(self).model().fits(),
            agrees(
                r,
                final(self).model(),
                match old(self).model().previous {
                    None => Err(no_token()),
                    Some(token) => old(self).model().emit_constant(token.literal),
                },
            ),
            r is Ok ==> final(self).model().measure() == old(self).model().measure(),
    {
        let value = self.prev()?.literal.clone();
        self.emit_constant(value)
    }

    fn string(&mut self, _can_assign: bool) -> (r: Result<(), RLoxError>)
        ensures
            old(self).model().fits() ==> final(self).model().fits(),
            agrees(
                r,
                final(self).model(),
                match old(self).model().previous {
                    None => Err(no_token()),
                    Some(token) => old(self).model().emit_constant(token.literal),
                },
            ),
            r is Ok ==> final(self).model().measure() == old(self).model().measure(),
    {
        let value = self.prev()?.literal.clone();
        self.emit_constant(value)
    }

    fn literal(&mut self, _can_assign: bool) -> (r: Result<(), RLoxError>)
        ensures
            old(self).model().fits() ==> final(self).model().fits(),
            agrees(
                r,
                final(self).model(),
                old(self).model().dispatch(ParseFn::Literal, _can_assign),
            ),
            r is Ok ==> final(self).model().measure() == old(self).model().measure(),
    {
        match self.prev()?.token_type {
            TokenType::True => self.emit_byte(OpCode::OpTrue.as_byte()),
            TokenType::False => self.emit_byte(OpCode::OpFalse.as_byte()),
            _ => self.emit_byte(OpCode::OpNil.as_byte()),
        }
    }

    fn unary(&mut self, _can_assign: bool) -> (r: Result<(), RLoxError>)
        ensures
            old(self).model().fits() ==> final(self).model().fits(),
            agrees(r, final(self).model(), old(self).model().unary()),
            r is Ok ==> final(self).model().measure() <= old(self).model().measure(),
        decreases old(self).model().measure(), 2nat,
    {
        let operator_type = self.prev()?.token_type;
        self.parse_precedence(Precedence::Unary)?;
        match operator_type {
            TokenType::Bang => self.emit_byte(OpCode::OpNot.as_byte()),
            _ => self.emit_byte(OpCode::OpNegate.as_byte()),
        }
    }

    fn binary(&mut self, _can_assign: bool) -> (r: Result<(), RLoxError>)
        ensures
            old(self).model().fits() ==> final(self).model().fits(),
            agrees(r, final(self).model(), old(self).model().binary()),
            r is Ok ==> final(self).model().measure() <= old(self).model().measure(),
        decreases old(self).model().measure(), 2nat,
    {
        let operator_type = self.prev()?.token_type;
        let rule = get_rule(operator_type);
        let new_precedence = match Precedence::from_u8(rule.precedence.as_level() + 1) {
            Some(precedence) => precedence,
            None => Precedence::Primary,
        };
        self.parse_precedence(new_precedence)?;
        match operator_type {
            TokenType::Plus => self.emit_byte(OpCode::OpAdd.as_byte()),
            TokenType::Minus => self.emit_byte(OpCode::OpSubtract.as_byte()),
            TokenType::Star => self.emit_byte(OpCode::OpMultiply.as_byte()),
            TokenType::Slash => self.emit_byte(OpCode::OpDivide.as_byte()),
            TokenType::BangEqual => self.emit_bytes(
                OpCode::OpEqual.as_byte(),
                OpCode::OpNot.as_byte(),
            ),
            TokenType::EqualEqual => self.emit_byte(OpCode::OpEqual.as_byte()),
            TokenType::Greater => self.emit_byte(OpCode::OpGreater.as_byte()),
            TokenType::GreaterEqual => self.emit_bytes(
                OpCode::OpLess.as_byte(),
                OpCode::OpNot.as_byte(),
            ),
            TokenType::Less => self.emit_byte(OpCode::OpLess.as_byte()),
            TokenType::LessEqual => self.emit_bytes(
                OpCode::OpGreater.as_byte(),
                OpCode::OpNot.as_byte(),
            ),
            _ => Ok(()),
        }
    }

    fn variable(&mut self, can_assign: bool) -> (r: Result<(), RLoxError>)
        ensures
            old(self).model().fits() ==> final(self).model().fits(),
            agrees(r, final(self).model(), old(self).model().variable(can_assign)),
            r is Ok ==> final(self).model().measure() <= old(self).model().measure(),
        decreases old(self).model().measure(), 2nat,
    {
        let name = self.prev()?.lexeme.clone();
        self.named_variable(name.as_str(), can_assign)
    }

    fn named_variable(&mut self, name: &str, can_assign: bool) -> (r: Result<(), RLoxError>)
        requires
            old(self).model().previous is Some,
            old(self).model().previous->0.lexeme == name@,
        ensures
            old(self).model().fits() ==> final(self).model().fits(),
            agrees(r, final(self).model(), old(self).model().variable(can_assign)),
            r is Ok ==> final(self).model().measure() <= old(self).model().measure(),
        decreases old(self).model().measure(), 1nat,
    {
        let arg = self.identifier_constant(name);
        if can_assign && self.match_token(TokenType::Equal)? {
            self.expression()?;
            self.emit_bytes(OpCode::OpSetGlobal.as_byte(), arg)
        } else {
            self.emit_bytes(OpCode::OpGetGlobal.as_byte(), arg)
        }
    }

    fn expression(&mut self) -> (r: Result<(), RLoxError>)
        ensures
            old(self).model().fits() ==> final(self).model().fits(),
            agrees(r, final(self).model(), old(self).model().expression()),
            r is Ok ==> final(self).model().measure() <= old(self).model().measure(),
            r is Ok && token_ahead(old(self).model()) ==> final(self).model().measure() < old(self).model().measure(),
        decreases old(self).model().measure(), 1nat,
    {
        self.parse_precedence(Precedence::Assignment)
    }

    fn print_statement(&mut self) -> (r: Result<(), RLoxError>)
        ensures
            old(self).model().fits() ==> final(self).model().fits(),
            agrees(r, final(self).model(), old(self).model().print_statement()),
            r is Ok ==> final(self).model().measure() <= old(self).model().measure(),
            r is Ok && token_ahead(old(self).model()) ==> final(self).model().measure() < old(self).model().measure(),
    {
        self.expression()?;
        self.consume(TokenType::SemiColon, "Expect ';' after value.")?;
        self.emit_byte(OpCode::OpPrint.as_byte())
    }

    fn expression_statement(&mut self) -> (r: Result<(), RLoxError>)
        ensures
            old(self).model().fits() ==> final(self).model().fits(),
            agrees(r, final(self).model(), old(self).model().expression_statement()),
            r is Ok ==> final(self).model().measure() <= old(self).model().measure(),
            r is Ok && token_ahead(old(self).model()) ==> final(self).model().measure() < old(self).model().measure(),
    {
        self.expression()?;
        self.consume(TokenType::SemiColon, "Expect ';' after expression.")?;
        self.emit_byte(OpCode::OpPop.as_byte())
    }

    fn statement(&mut self) -> (r: Result<(), RLoxError>)
        ensures
            old(self).model().fits() ==> final(self).model().fits(),
            agrees(r, final(self).model(), old(self).model().statement()),
            r is Ok ==> final(self).model().measure() <= old(self).model().measure(),
            r is Ok && token_ahead(old(self).model()) ==> final(self).model().measure() < old(self).model().measure(),
    {
        if self.match_token(TokenType::Print)? {
            self.print_statement()?;
        } else {
            self.expression_statement()?;
        }
        Ok(())
    }

    fn parse_variable(&mut self, message: &str) -> (r: Result<u8, RLoxError>)
        ensures
            old(self).model().fits() ==> final(self).model().fits(),
            agrees_with(r, final(self).model(), old(self).model().parse_variable(message@)),
            r is Ok ==> final(self).model().measure() <= old(self).model().measure(),
    {
        self.consume(TokenType::Identifier, message)?;
        let name = self.prev()?.lexeme.clone();
        Ok(self.identifier_constant(name.as_str()))
    }

    fn define_variable(&mut self, global: u8) -> (r: Result<(), RLoxError>)
        ensures
            old(self).model().fits() ==> final(self).model().fits(),
            agrees(
                r,
                final(self).model(),
                old(self).model().emit2(OpCode::OpDefineGlobal.byte(), global),
            ),
            r is Ok ==> final(self).model().measure() == old(self).model().measure(),
    {
        self.emit_bytes(OpCode::OpDefineGlobal.as_byte(), global)
    }

    fn var_declaration(&mut self) -> (r: Result<(), RLoxError>)
        ensures
            old(self).model().fits() ==> final(self).model().fits(),
            agrees(r, final(self).model(), old(self).model().var_declaration()),
            r is Ok ==> final(self).model().measure() <= old(self).model().measure(),
    {
        let global = self.parse_variable("Expect variable name.")?;
        if self.match_token(TokenType::Equal)? {
            self.expression()?;
        } else {
            self.emit_byte(OpCode::OpNil.as_byte())?;
        }
        self.consume(TokenType::SemiColon, "Expect ';' after variable declaration.")?;
        self.define_variable(global)
    }

    fn synchronize(&mut self) -> (r: Result<(), RLoxError>)
        ensures
            old(self).model().fits() ==> final(self).model().fits(),
            agrees(r, final(self).model(), old(self).model().synchronize()),
            r is Ok ==> final(self).model().measure() <= old(self).model().measure(),
    {
        self.parser.panic_mode = false;
        let ghost begin = self.model();
        loop
            invariant
                old(self).model().fits() ==> self.model().fits(),
                self.model().skip_to_statement() == begin.skip_to_statement(),
                self.model().measure() <= begin.measure(),
                begin.measure() <= old(self).model().measure(),
                begin.skip_to_statement() == old(self).model().synchronize(),
            decreases self.model().measure(),
        {
            let ahead = self.curr()?.token_type;
            if ahead == TokenType::EOF {
                return Ok(());
            }
            if self.prev()?.token_type == TokenType::SemiColon {
                return Ok(());
            }
            match ahead {
                TokenType::Class
                | TokenType::Fun
                | TokenType::Var
                | TokenType::For
                | TokenType::If
                | TokenType::While
                | TokenType::Print
                | TokenType::Return => {
                    return Ok(());
                },
                _ => {},
            }
            self.advance()?;
        }
    }

    fn declaration(&mut self) -> (r: Result<(), RLoxError>)
        ensures
            old(self).model().fits() ==> final(self).model().fits(),
            agrees(r, final(self).model(), old(self).model().declaration()),
            r is Ok ==> final(self).model().measure() <= old(self).model().measure(),
            r is Ok && token_ahead(old(self).model()) ==> final(self).model().measure() < old(self).model().measure(),
    {
        reveal(Compilation::declaration);
        if self.match_token(TokenType::Var)? {
            self.var_declaration()?;
        } else {
            self.statement()?;
        }
        if self.parser.panic_mode {
            self.synchronize()?;
        }
        Ok(())
    }

    fn end(&mut self) -> (r: Result<(), RLoxError>)
        ensures
            old(self).model().fits() ==> final(self).model().fits(),
            agrees(r, final(self).model(), old(self).model().emit(OpCode::OpReturn.byte())),
    {
        self.emit_return()
    }

    fn declarations(&mut self) -> (r: Result<(), RLoxError>)
        ensures
            old(self).model().fits() ==> final(self).model().fits(),
            agrees(r, final(self).model(), old(self).model().declarations()),
    {
        loop
            invariant
                old(self).model().fits() ==> self.model().fits(),
                self.model().declarations() == old(self).model().declarations(),
            decreases self.model().measure(),
        {
            if self.match_token(TokenType::EOF)? {
                return self.end();
            }
            self.declaration()?;
        }
    }

    /// Compiles the source. `Ok(true)` says that the chunk is complete and
    /// no error was reported; `Ok(false)` that errors were reported; `Err`
    /// that the scanner met text that is no token.
    pub fn compile(&mut self) -> (r: Result<bool, RLoxError>)
        ensures
            old(self).model().fits() ==> final(self).model().fits(),
            match r {
                Ok(clean) => old(self).model().compile() == Ok::<Compilation, RLoxErrorView>(
                    final(self).model(),
                ) && clean == !final(self).model().had_error,
                Err(error) => old(self).model().compile() == Err::<Compilation, RLoxErrorView>(
                    error@,
                ),
            },
    {
        self.parser.panic_mode = false;
        self.parser.had_error = false;
        self.advance()?;
        self.declarations()?;
        Ok(!self.parser.had_error)
    }
}

} // verus!
