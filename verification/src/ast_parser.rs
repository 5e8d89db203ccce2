//! The parser of the tree walker: from the tokens of a program to its
//! syntax tree, by recursive descent with one token of lookahead.
use vstd::prelude::*;
use crate::compiler::{dummy_token, starts_statement, Diagnostic, DiagnosticView};
use crate::expr::{expr_views, expr_views_push, Expr, ExprAssign, ExprBinary, ExprCall, ExprGrouping, ExprLiteral, ExprLogical, ExprUnary, ExprVariable, ExprView};
use crate::stmt::{stmt_views, stmt_views_push, Stmt, StmtBlock, StmtExpression, StmtFunction, StmtIf, StmtPrint, StmtReturn, StmtVar, StmtView, StmtWhile};
use crate::token::{Literal, LiteralView, Token, TokenType, TokenView};

verus! {

/// The state of a parse.
pub struct Parsing {
    pub tokens: Seq<TokenView>,
    /// The place of the token that is looked at.
    pub current: nat,
    /// The number that the next reference to a variable gets.
    pub next_id: usize,
    pub diagnostics: Seq<DiagnosticView>,
}

/// What parsing a piece of syntax gives: the piece and the state after it,
/// or the state after the error that was reported.
pub enum Parsed<T> {
    Done(Parsing, T),
    Failed(Parsing),
}

impl<T> Parsed<T> {
    pub open spec fn state(self) -> Parsing {
        match self {
            Parsed::Done(p, _) => p,
            Parsed::Failed(p) => p,
        }
    }
}

/// The operators of each level of binary expressions, from the loosest:
/// `or`; `and`; `!=` and `==`; the comparisons; `-` and `+`; `/` and `*`.
pub open spec fn operator_of(level: nat, kind: TokenType) -> bool {
    if level == 0 {
        kind == TokenType::Or
    } else if level == 1 {
        kind == TokenType::And
    } else if level == 2 {
        kind == TokenType::BangEqual || kind == TokenType::EqualEqual
    } else if level == 3 {
        kind == TokenType::Greater || kind == TokenType::GreaterEqual || kind == TokenType::Less
            || kind == TokenType::LessEqual
    } else if level == 4 {
        kind == TokenType::Minus || kind == TokenType::Plus
    } else if level == 5 {
        kind == TokenType::Slash || kind == TokenType::Star
    } else {
        false
    }
}

/// The expression that an operator of a level makes of its operands.
pub open spec fn combine(level: nat, left: ExprView, operator: TokenView, right: ExprView) -> ExprView {
    if level < 2 {
        ExprView::Logical(Box::new(left), operator, Box::new(right))
    } else {
        ExprView::Binary(Box::new(left), operator, Box::new(right))
    }
}

/// A `for` loop written with `while`: the increment follows the body, the
/// condition is `true` if there is none, and the initializer comes first,
/// in a block of its own.
pub open spec fn desugared(
    initializer: Option<StmtView>,
    condition: Option<ExprView>,
    increment: Option<ExprView>,
    body: StmtView,
) -> StmtView {
    let stepped = match increment {
        Some(e) => StmtView::Block(seq![body, StmtView::Expression(e)]),
        None => body,
    };
    let looped = StmtView::While(
        match condition {
            Some(e) => e,
            None => ExprView::Literal(LiteralView::Bool(true)),
        },
        Box::new(stepped),
    );
    match initializer {
        Some(first) => StmtView::Block(seq![first, looped]),
        None => looped,
    }
}

impl Parsing {
    /// The state before the first token is looked at.
    pub open spec fn begin(tokens: Seq<TokenView>) -> Parsing {
        Parsing { tokens, current: 0, next_id: 0, diagnostics: Seq::empty() }
    }

    /// The token that is looked at; past the last token, the end.
    pub open spec fn peek(self) -> TokenView {
        if self.current < self.tokens.len() {
            self.tokens[self.current as int]
        } else {
            dummy_token()
        }
    }

    /// The token before the one that is looked at.
    pub open spec fn previous(self) -> TokenView {
        if 0 < self.current <= self.tokens.len() {
            self.tokens[self.current - 1]
        } else {
            dummy_token()
        }
    }

    pub open spec fn at_end(self) -> bool {
        self.peek().token_type == TokenType::EOF
    }

    pub open spec fn check(self, kind: TokenType) -> bool {
        self.peek().token_type == kind
    }

    /// How many tokens are left.
    pub open spec fn measure(self) -> nat {
        if self.current <= self.tokens.len() {
            (self.tokens.len() - self.current) as nat
        } else {
            0
        }
    }

    /// Passes the token that is looked at, unless it is the end.
    pub open spec fn advance(self) -> Parsing {
        if self.at_end() {
            self
        } else {
            Parsing { current: self.current + 1, ..self }
        }
    }

    pub open spec fn report(self, token: TokenView, message: Seq<char>) -> Parsing {
        Parsing {
            diagnostics: self.diagnostics.push(
                DiagnosticView {
                    line: token.line,
                    location: if token.token_type == TokenType::EOF {
                        None
                    } else {
                        Some(token.lexeme)
                    },
                    message,
                },
            ),
            ..self
        }
    }

    /// Passes a token of the given kind, or reports the message at the
    /// token that stands there instead.
    pub open spec fn consume(self, kind: TokenType, message: Seq<char>) -> Parsed<TokenView> {
        if self.check(kind) {
            Parsed::Done(self.advance(), self.peek())
        } else {
            Parsed::Failed(self.report(self.peek(), message))
        }
    }

    /// Takes the next number for a reference to a variable.
    pub open spec fn fresh(self) -> Parsing {
        Parsing {
            next_id: if self.next_id < usize::MAX {
                (self.next_id + 1) as usize
            } else {
                self.next_id
            },
            ..self
        }
    }

    pub open spec fn expression(self) -> Parsed<ExprView>
        decreases self.measure(), 46nat,
    {
        self.assignment()
    }

    /// `IDENT "=" assignment | logic_or`. What stands left of `=` is parsed
    /// as an expression first; it must turn out to be a variable.
    pub open spec fn assignment(self) -> Parsed<ExprView>
        decreases self.measure(), 45nat,
    {
        match self.binary(0) {
            Parsed::Failed(p) => Parsed::Failed(p),
            Parsed::Done(p1, target) => if p1.check(TokenType::Equal) {
                let p2 = p1.advance();
                if p2.measure() < self.measure() {
                    match p2.assignment() {
                        Parsed::Failed(p) => Parsed::Failed(p),
                        Parsed::Done(p3, value) => match target {
                            ExprView::Variable(_, name) => Parsed::Done(
                                p3.fresh(),
                                ExprView::Assign(p3.next_id, name, Box::new(value)),
                            ),
                            _ => Parsed::Done(
                                p3.report(p1.peek(), "Invalid assignment target."@),
                                target,
                            ),
                        },
                    }
                } else {
                    Parsed::Done(p2, target)
                }
            } else {
                Parsed::Done(p1, target)
            },
        }
    }

    /// An operand of an operator of a level: an expression of the next
    /// level, or a unary expression under the tightest level.
    pub open spec fn operand(self, level: nat) -> Parsed<ExprView>
        decreases self.measure(), (39 - 2 * level) as nat,
    {
        if level < 5 {
            self.binary(level + 1)
        } else if level == 5 {
            self.unary()
        } else {
            Parsed::Failed(self)
        }
    }

    /// Operands of a level, joined from the left by operators of the level.
    pub open spec fn binary(self, level: nat) -> Parsed<ExprView>
        decreases self.measure(), (40 - 2 * level) as nat,
    {
        if level > 5 {
            Parsed::Failed(self)
        } else {
            match self.operand(level) {
                Parsed::Failed(p) => Parsed::Failed(p),
                Parsed::Done(p1, left) => if p1.measure() <= self.measure() {
                    p1.binary_tail(level, left)
                } else {
                    Parsed::Done(p1, left)
                },
            }
        }
    }

    pub open spec fn binary_tail(self, level: nat, left: ExprView) -> Parsed<ExprView>
        decreases self.measure(), 10nat,
    {
        if level <= 5 && operator_of(level, self.peek().token_type) {
            let p1 = self.advance();
            if p1.measure() < self.measure() {
                match p1.operand(level) {
                    Parsed::Failed(p) => Parsed::Failed(p),
                    Parsed::Done(p2, right) => if p2.measure() < self.measure() {
                        p2.binary_tail(level, combine(level, left, self.peek(), right))
                    } else {
                        Parsed::Done(p2, left)
                    },
                }
            } else {
                Parsed::Done(p1, left)
            }
        } else {
            Parsed::Done(self, left)
        }
    }

    /// `("!" | "-") unary | call`
    pub open spec fn unary(self) -> Parsed<ExprView>
        decreases self.measure(), 20nat,
    {
        if self.check(TokenType::Bang) || self.check(TokenType::Minus) {
            let p1 = self.advance();
            if p1.measure() < self.measure() {
                match p1.unary() {
                    Parsed::Failed(p) => Parsed::Failed(p),
                    Parsed::Done(p2, right) => Parsed::Done(
                        p2,
                        ExprView::Unary(self.peek(), Box::new(right)),
                    ),
                }
            } else {
                Parsed::Failed(p1)
            }
        } else {
            self.call()
        }
    }

    /// `primary ( "(" arguments? ")" )*`
    pub open spec fn call(self) -> Parsed<ExprView>
        decreases self.measure(), 19nat,
    {
        match self.primary() {
            Parsed::Failed(p) => Parsed::Failed(p),
            Parsed::Done(p1, callee) => if p1.measure() <= self.measure() {
                p1.call_tail(callee)
            } else {
                Parsed::Done(p1, callee)
            },
        }
    }

    pub open spec fn call_tail(self, callee: ExprView) -> Parsed<ExprView>
        decreases self.measure(), 9nat,
    {
        if self.check(TokenType::LeftParen) {
            let p1 = self.advance();
            if p1.measure() < self.measure() {
                match if p1.check(TokenType::RightParen) {
                    Parsed::Done(p1, Seq::empty())
                } else {
                    p1.arguments(Seq::empty())
                } {
                    Parsed::Failed(p) => Parsed::Failed(p),
                    Parsed::Done(p2, arguments) => match p2.consume(
                        TokenType::RightParen,
                        "Expect ')' after arguments."@,
                    ) {
                        Parsed::Failed(p) => Parsed::Failed(p),
                        Parsed::Done(p3, paren) => if p3.measure() < self.measure() {
                            p3.call_tail(ExprView::Call(Box::new(callee), paren, arguments))
                        } else {
                            Parsed::Done(p3, callee)
                        },
                    },
                }
            } else {
                Parsed::Done(p1, callee)
            }
        } else {
            Parsed::Done(self, callee)
        }
    }

    /// The arguments of a call after those already parsed, separated by
    /// commas. More than 255 are reported, and parsed all the same.
    pub open spec fn arguments(self, before: Seq<ExprView>) -> Parsed<Seq<ExprView>>
        decreases self.measure(), 47nat,
    {
        let p0 = if before.len() >= 255 {
            self.report(self.peek(), "Can't have more than 255 arguments."@)
        } else {
            self
        };
        if p0.measure() <= self.measure() {
            match p0.expression() {
                Parsed::Failed(p) => Parsed::Failed(p),
                Parsed::Done(p1, argument) => if p1.check(TokenType::Comma) {
                    let p2 = p1.advance();
                    if p2.measure() < self.measure() {
                        p2.arguments(before.push(argument))
                    } else {
                        Parsed::Done(p2, before.push(argument))
                    }
                } else {
                    Parsed::Done(p1, before.push(argument))
                },
            }
        } else {
            Parsed::Failed(p0)
        }
    }

    /// A literal, a variable, or an expression in parentheses.
    pub open spec fn primary(self) -> Parsed<ExprView>
        decreases self.measure(), 18nat,
    {
        let token = self.peek();
        match token.token_type {
            TokenType::False => Parsed::Done(
                self.advance(),
                ExprView::Literal(LiteralView::Bool(false)),
            ),
            TokenType::True => Parsed::Done(
                self.advance(),
                ExprView::Literal(LiteralView::Bool(true)),
            ),
            TokenType::Nil => Parsed::Done(self.advance(), ExprView::Literal(LiteralView::Nil)),
            TokenType::Number | TokenType::String => Parsed::Done(
                self.advance(),
                ExprView::Literal(token.literal),
            ),
            TokenType::Identifier => Parsed::Done(
                self.advance().fresh(),
                ExprView::Variable(self.next_id, token),
            ),
            TokenType::LeftParen => {
                let p1 = self.advance();
                if p1.measure() < self.measure() {
                    match p1.expression() {
                        Parsed::Failed(p) => Parsed::Failed(p),
                        Parsed::Done(p2, inner) => match p2.consume(
                            TokenType::RightParen,
                            "Expect ')' after expression."@,
                        ) {
                            Parsed::Failed(p) => Parsed::Failed(p),
                            Parsed::Done(p3, _) => Parsed::Done(
                                p3,
                                ExprView::Grouping(Box::new(inner)),
                            ),
                        },
                    }
                } else {
                    Parsed::Failed(p1)
                }
            },
            _ => Parsed::Failed(self.report(token, "Expect expression."@)),
        }
    }

    /// An expression and the semicolon after it.
    pub open spec fn terminated(self, message: Seq<char>) -> Parsed<ExprView>
        decreases self.measure(), 48nat,
    {
        match self.expression() {
            Parsed::Failed(p) => Parsed::Failed(p),
            Parsed::Done(p1, value) => match p1.consume(TokenType::SemiColon, message) {
                Parsed::Failed(p) => Parsed::Failed(p),
                Parsed::Done(p2, _) => Parsed::Done(p2, value),
            },
        }
    }

    /// An expression, unless the given kind of token stands there.
    pub open spec fn optional(self, unless: TokenType) -> Parsed<Option<ExprView>>
        decreases self.measure(), 48nat,
    {
        if self.check(unless) {
            Parsed::Done(self, None)
        } else {
            match self.expression() {
                Parsed::Failed(p) => Parsed::Failed(p),
                Parsed::Done(p1, value) => Parsed::Done(p1, Some(value)),
            }
        }
    }

    /// After `var`: a name, an initializer if `=` follows, a semicolon.
    pub open spec fn var_declaration(self) -> Parsed<StmtView>
        decreases self.measure(), 53nat,
    {
        match self.consume(TokenType::Identifier, "Expect variable name."@) {
            Parsed::Failed(p) => Parsed::Failed(p),
            Parsed::Done(p1, name) => if p1.check(TokenType::Equal) {
                if p1.advance().measure() <= self.measure() {
                    match p1.advance().terminated("Expect ';' after variable declaration."@) {
                        Parsed::Failed(p) => Parsed::Failed(p),
                        Parsed::Done(p2, value) => Parsed::Done(
                            p2,
                            StmtView::Var(name, Some(value)),
                        ),
                    }
                } else {
                    Parsed::Failed(p1)
                }
            } else {
                match p1.consume(TokenType::SemiColon, "Expect ';' after variable declaration."@) {
                    Parsed::Failed(p) => Parsed::Failed(p),
                    Parsed::Done(p2, _) => Parsed::Done(p2, StmtView::Var(name, None)),
                }
            },
        }
    }

    /// The parameters of a function after those already parsed, separated
    /// by commas. More than 255 are reported, and parsed all the same.
    pub open spec fn parameters(self, before: Seq<TokenView>) -> Parsed<Seq<TokenView>>
        decreases self.measure(),
    {
        let p0 = if before.len() >= 255 {
            self.report(self.peek(), "Can't have more than 255 parameters."@)
        } else {
            self
        };
        match p0.consume(TokenType::Identifier, "Expect parameter name."@) {
            Parsed::Failed(p) => Parsed::Failed(p),
            Parsed::Done(p1, name) => if p1.check(TokenType::Comma) {
                let p2 = p1.advance();
                if p2.measure() < self.measure() {
                    p2.parameters(before.push(name))
                } else {
                    Parsed::Done(p2, before.push(name))
                }
            } else {
                Parsed::Done(p1, before.push(name))
            },
        }
    }

    /// After `fun`: a name, the parameters in parentheses, the body in
    /// braces.
    pub open spec fn function(self) -> Parsed<StmtView>
        decreases self.measure(), 59nat,
    {
        match self.consume(TokenType::Identifier, "Expect function name."@) {
            Parsed::Failed(p) => Parsed::Failed(p),
            Parsed::Done(p1, name) => match p1.consume(
                TokenType::LeftParen,
                "Expect '(' after function name."@,
            ) {
                Parsed::Failed(p) => Parsed::Failed(p),
                Parsed::Done(p2, _) => match if p2.check(TokenType::RightParen) {
                    Parsed::Done(p2, Seq::empty())
                } else {
                    p2.parameters(Seq::empty())
                } {
                    Parsed::Failed(p) => Parsed::Failed(p),
                    Parsed::Done(p3, params) => match p3.consume(
                        TokenType::RightParen,
                        "Expect ')' after parameters."@,
                    ) {
                        Parsed::Failed(p) => Parsed::Failed(p),
                        Parsed::Done(p4, _) => match p4.consume(
                            TokenType::LeftBrace,
                            "Expect '{' before function body."@,
                        ) {
                            Parsed::Failed(p) => Parsed::Failed(p),
                            Parsed::Done(p5, _) => if p5.measure() <= self.measure() {
                                match p5.block() {
                                    Parsed::Failed(p) => Parsed::Failed(p),
                                    Parsed::Done(p6, body) => Parsed::Done(
                                        p6,
                                        StmtView::Function(name, params, body),
                                    ),
                                }
                            } else {
                                Parsed::Failed(p5)
                            },
                        },
                    },
                },
            },
        }
    }

    /// After `{`: declarations up to the closing brace.
    pub open spec fn block(self) -> Parsed<Seq<StmtView>>
        decreases self.measure(), 58nat,
    {
        let (p1, items) = self.items(Seq::empty(), true);
        match p1.consume(TokenType::RightBrace, "Expect '}' after block."@) {
            Parsed::Failed(p) => Parsed::Failed(p),
            Parsed::Done(p2, _) => Parsed::Done(p2, items),
        }
    }

    /// Declarations up to the end of the source, or, in a block, up to a
    /// closing brace. A declaration with a syntax error is left out.
    pub open spec fn items(self, before: Seq<StmtView>, in_block: bool) -> (Parsing, Seq<StmtView>)
        decreases self.measure(), 57nat,
    {
        if self.at_end() || (in_block && self.check(TokenType::RightBrace)) {
            (self, before)
        } else {
            let (p1, item) = self.declaration();
            let after = match item {
                Some(statement) => before.push(statement),
                None => before,
            };
            if p1.measure() < self.measure() {
                p1.items(after, in_block)
            } else {
                (p1, after)
            }
        }
    }

    /// A declaration of a function or a variable, or a statement. After a
    /// syntax error the parser passes tokens until a statement can start,
    /// and gives no statement.
    pub open spec fn declaration(self) -> (Parsing, Option<StmtView>)
        decreases self.measure(), 56nat,
    {
        let p1 = self.advance();
        let parsed = if self.check(TokenType::Fun) {
            if p1.measure() < self.measure() {
                p1.function()
            } else {
                Parsed::Failed(p1)
            }
        } else if self.check(TokenType::Var) {
            if p1.measure() < self.measure() {
                p1.var_declaration()
            } else {
                Parsed::Failed(p1)
            }
        } else {
            self.statement()
        };
        match parsed {
            Parsed::Done(p2, statement) => (p2, Some(statement)),
            Parsed::Failed(p2) => (p2.synchronize(), None),
        }
    }

    pub open spec fn statement(self) -> Parsed<StmtView>
        decreases self.measure(), 50nat,
    {
        let p1 = self.advance();
        if p1.measure() < self.measure() {
            match self.peek().token_type {
                TokenType::For => p1.for_statement(),
                TokenType::If => p1.if_statement(),
                TokenType::Print => match p1.terminated("Expect ';' after value."@) {
                    Parsed::Failed(p) => Parsed::Failed(p),
                    Parsed::Done(p2, value) => Parsed::Done(p2, StmtView::Print(value)),
                },
                TokenType::Return => match p1.optional(TokenType::SemiColon) {
                    Parsed::Failed(p) => Parsed::Failed(p),
                    Parsed::Done(p2, value) => match p2.consume(
                        TokenType::SemiColon,
                        "Expect ';' after return value."@,
                    ) {
                        Parsed::Failed(p) => Parsed::Failed(p),
                        Parsed::Done(p3, _) => Parsed::Done(
                            p3,
                            StmtView::Return(self.peek(), value),
                        ),
                    },
                },
                TokenType::While => p1.while_statement(),
                TokenType::LeftBrace => match p1.block() {
                    Parsed::Failed(p) => Parsed::Failed(p),
                    Parsed::Done(p2, items) => Parsed::Done(p2, StmtView::Block(items)),
                },
                _ => self.expression_statement(),
            }
        } else {
            self.expression_statement()
        }
    }

    pub open spec fn expression_statement(self) -> Parsed<StmtView>
        decreases self.measure(), 49nat,
    {
        match self.terminated("Expect ';' after expression."@) {
            Parsed::Failed(p) => Parsed::Failed(p),
            Parsed::Done(p1, value) => Parsed::Done(p1, StmtView::Expression(value)),
        }
    }

    /// A condition in parentheses.
    pub open spec fn condition(self, open: Seq<char>, close: Seq<char>) -> Parsed<ExprView>
        decreases self.measure(), 48nat,
    {
        match self.consume(TokenType::LeftParen, open) {
            Parsed::Failed(p) => Parsed::Failed(p),
            Parsed::Done(p1, _) => if p1.measure() <= self.measure() {
                match p1.expression() {
                    Parsed::Failed(p) => Parsed::Failed(p),
                    Parsed::Done(p2, value) => match p2.consume(TokenType::RightParen, close) {
                        Parsed::Failed(p) => Parsed::Failed(p),
                        Parsed::Done(p3, _) => Parsed::Done(p3, value),
                    },
                }
            } else {
                Parsed::Failed(p1)
            },
        }
    }

    /// After `if`: a condition, a statement, and after `else` another.
    pub open spec fn if_statement(self) -> Parsed<StmtView>
        decreases self.measure(), 52nat,
    {
        match self.condition("Expect '(' after 'if'."@, "Expect ')' after if condition."@) {
            Parsed::Failed(p) => Parsed::Failed(p),
            Parsed::Done(p1, condition) => if p1.measure() <= self.measure() {
                match p1.statement() {
                    Parsed::Failed(p) => Parsed::Failed(p),
                    Parsed::Done(p2, then_branch) => if p2.check(TokenType::Else) {
                        if p2.advance().measure() <= self.measure() {
                            match p2.advance().statement() {
                                Parsed::Failed(p) => Parsed::Failed(p),
                                Parsed::Done(p3, other) => Parsed::Done(
                                    p3,
                                    StmtView::If(
                                        condition,
                                        Box::new(then_branch),
                                        Some(Box::new(other)),
                                    ),
                                ),
                            }
                        } else {
                            Parsed::Failed(p2)
                        }
                    } else {
                        Parsed::Done(p2, StmtView::If(condition, Box::new(then_branch), None))
                    },
                }
            } else {
                Parsed::Failed(p1)
            },
        }
    }

    /// After `while`: a condition and a statement.
    pub open spec fn while_statement(self) -> Parsed<StmtView>
        decreases self.measure(), 52nat,
    {
        match self.condition("Expect '(' after 'while'."@, "Expect ')' after condition."@) {
            Parsed::Failed(p) => Parsed::Failed(p),
            Parsed::Done(p1, condition) => if p1.measure() <= self.measure() {
                match p1.statement() {
                    Parsed::Failed(p) => Parsed::Failed(p),
                    Parsed::Done(p2, body) => Parsed::Done(
                        p2,
                        StmtView::While(condition, Box::new(body)),
                    ),
                }
            } else {
                Parsed::Failed(p1)
            },
        }
    }

    /// The first clause of a `for`: nothing but a semicolon, a variable
    /// declaration, or an expression statement.
    pub open spec fn for_initializer(self) -> Parsed<Option<StmtView>>
        decreases self.measure(), 54nat,
    {
        if self.check(TokenType::SemiColon) {
            Parsed::Done(self.advance(), None)
        } else if self.check(TokenType::Var) {
            if self.advance().measure() <= self.measure() {
                match self.advance().var_declaration() {
                    Parsed::Failed(p) => Parsed::Failed(p),
                    Parsed::Done(p1, first) => Parsed::Done(p1, Some(first)),
                }
            } else {
                Parsed::Failed(self)
            }
        } else {
            match self.expression_statement() {
                Parsed::Failed(p) => Parsed::Failed(p),
                Parsed::Done(p1, first) => Parsed::Done(p1, Some(first)),
            }
        }
    }

    /// After `for`: three clauses in parentheses and a statement, which
    /// together are written with `while`.
    pub open spec fn for_statement(self) -> Parsed<StmtView>
        decreases self.measure(), 55nat,
    {
        match self.consume(TokenType::LeftParen, "Expect '(' after 'for'."@) {
            Parsed::Failed(p) => Parsed::Failed(p),
            Parsed::Done(p1, _) => if p1.measure() <= self.measure() {
                match p1.for_initializer() {
                    Parsed::Failed(p) => Parsed::Failed(p),
                    Parsed::Done(p2, initializer) => if p2.measure() <= self.measure() {
                        match p2.optional(TokenType::SemiColon) {
                            Parsed::Failed(p) => Parsed::Failed(p),
                            Parsed::Done(p3, condition) => match p3.consume(
                                TokenType::SemiColon,
                                "Expect ';' after loop condition."@,
                            ) {
                                Parsed::Failed(p) => Parsed::Failed(p),
                                Parsed::Done(p4, _) => if p4.measure() <= self.measure() {
                                    match p4.optional(TokenType::RightParen) {
                                        Parsed::Failed(p) => Parsed::Failed(p),
                                        Parsed::Done(p5, increment) => match p5.consume(
                                            TokenType::RightParen,
                                            "Expect ')' after for clauses."@,
                                        ) {
                                            Parsed::Failed(p) => Parsed::Failed(p),
                                            Parsed::Done(p6, _) => if p6.measure()
                                                <= self.measure() {
                                                match p6.statement() {
                                                    Parsed::Failed(p) => Parsed::Failed(p),
                                                    Parsed::Done(p7, body) => Parsed::Done(
                                                        p7,
                                                        desugared(
                                                            initializer,
                                                            condition,
                                                            increment,
                                                            body,
                                                        ),
                                                    ),
                                                }
                                            } else {
                                                Parsed::Failed(p6)
                                            },
                                        },
                                    }
                                } else {
                                    Parsed::Failed(p4)
                                },
                            },
                        }
                    } else {
                        Parsed::Failed(p2)
                    },
                }
            } else {
                Parsed::Failed(p1)
            },
        }
    }

    /// After a syntax error: passes one token, then tokens until one after
    /// a semicolon, one that starts a statement, or the end.
    pub open spec fn synchronize(self) -> Parsing {
        self.advance().skip()
    }

    pub open spec fn skip(self) -> Parsing
        decreases self.measure(),
    {
        if self.at_end() || self.previous().token_type == TokenType::SemiColon || starts_statement(
            self.peek().token_type,
        ) {
            self
        } else if self.advance().measure() < self.measure() {
            self.advance().skip()
        } else {
            self
        }
    }

    /// The whole program.
    pub open spec fn parse(self) -> (Parsing, Seq<StmtView>) {
        self.items(Seq::empty(), false)
    }
}

} // verus!

verus! {

/// A syntax error; it has been reported when this is returned.
#[derive(Debug)]
pub struct ParseError;

/// The view of an expression that may be absent.
pub open spec fn optional_view(e: Option<Expr>) -> Option<ExprView> {
    match e {
        Some(e) => Some(e@),
        None => None,
    }
}

/// The view of a statement that may be absent.
pub open spec fn optional_stmt_view(s: Option<Stmt>) -> Option<StmtView> {
    match s {
        Some(s) => Some(s@),
        None => None,
    }
}

/// Parsing only ever passes tokens: the tokens stay, and no more are left
/// than before.
pub open spec fn passed(before: Parsing, after: Parsing) -> bool {
    after.tokens == before.tokens && after.measure() <= before.measure()
}

/// Whether what parsing an expression returned and left behind is what the
/// model gives.
pub open spec fn parsed_expr(r: Result<Expr, ParseError>, after: Parsing, expected: Parsed<ExprView>) -> bool {
    match r {
        Ok(e) => expected == Parsed::Done(after, e@),
        Err(_) => expected == Parsed::<ExprView>::Failed(after),
    }
}

/// The same for a statement.
pub open spec fn parsed_stmt(r: Result<Stmt, ParseError>, after: Parsing, expected: Parsed<StmtView>) -> bool {
    match r {
        Ok(s) => expected == Parsed::Done(after, s@),
        Err(_) => expected == Parsed::<StmtView>::Failed(after),
    }
}

fn pair_block(first: Stmt, second: Stmt) -> (block: Stmt)
    ensures
        block@ == StmtView::Block(seq![first@, second@]),
{
    let mut statements: Vec<Stmt> = Vec::new();
    statements.push(first);
    proof {
        stmt_views_push(Seq::<Stmt>::empty(), first);
        assert(Seq::<Stmt>::empty().push(first) =~= statements@);
    }
    let ghost one = statements@;
    statements.push(second);
    proof {
        stmt_views_push(one, second);
        assert(stmt_views(statements@, 2) =~= seq![first@, second@]);
    }
    Stmt::Block(StmtBlock { statements })
}

/// The parser of the tree walker.
pub struct AstParser {
    tokens: Vec<Token>,
    current: usize,
    next_id: usize,
    diagnostics: Vec<Diagnostic>,
}

impl AstParser {
    /// The state of the parse.
    pub closed spec fn model(&self) -> Parsing {
        Parsing {
            tokens: self.tokens.deep_view(),
            current: self.current as nat,
            next_id: self.next_id,
            diagnostics: self.diagnostics.deep_view(),
        }
    }

    /// A parser before the first of the tokens.
    pub fn new(tokens: Vec<Token>) -> (parser: AstParser)
        ensures
            parser.model() == Parsing::begin(tokens.deep_view()),
    {
        let parser = AstParser { tokens, current: 0, next_id: 0, diagnostics: Vec::new() };
        assert(parser.model().diagnostics =~= Seq::empty());
        parser
    }

    /// A parser before the first of the tokens, which numbers the
    /// references to variables from the given number on: the trees of
    /// programs that run one after the other then share no number.
    pub fn numbering_from(tokens: Vec<Token>, first_id: usize) -> (parser: AstParser)
        ensures
            parser.model() == (Parsing { next_id: first_id, ..Parsing::begin(tokens.deep_view()) }),
    {
        let parser = AstParser { tokens, current: 0, next_id: first_id, diagnostics: Vec::new() };
        assert(parser.model().diagnostics =~= Seq::empty());
        parser
    }

    /// The number that the next reference to a variable would get.
    pub fn next_id(&self) -> (id: usize)
        ensures
            id == self.model().next_id,
    {
        self.next_id
    }

    /// The messages reported so far, in order.
    pub fn diagnostics(&self) -> (list: &Vec<Diagnostic>)
        ensures
            list.deep_view() == self.model().diagnostics,
    {
        &self.diagnostics
    }

    /// Whether a syntax error has been reported.
    pub fn had_error(&self) -> (flag: bool)
        ensures
            flag == (self.model().diagnostics.len() > 0),
    {
        self.diagnostics.len() > 0
    }

    fn peek_kind(&self) -> (kind: TokenType)
        ensures
            kind == self.model().peek().token_type,
    {
        if self.current < self.tokens.len() {
            self.tokens[self.current].token_type
        } else {
            TokenType::EOF
        }
    }

    fn peek(&self) -> (token: Token)
        ensures
            token@ == self.model().peek(),
    {
        if self.current < self.tokens.len() {
            self.tokens[self.current].clone()
        } else {
            Token::dummy()
        }
    }

    fn previous_kind(&self) -> (kind: TokenType)
        ensures
            kind == self.model().previous().token_type,
    {
        if 0 < self.current && self.current <= self.tokens.len() {
            self.tokens[self.current - 1].token_type
        } else {
            TokenType::EOF
        }
    }

    fn is_at_end(&self) -> (r: bool)
        ensures
            r == self.model().at_end(),
    {
        self.peek_kind() == TokenType::EOF
    }

    fn check(&self, kind: TokenType) -> (r: bool)
        ensures
            r == self.model().check(kind),
    {
        self.peek_kind() == kind
    }

    fn advance(&mut self)
        ensures
            final(self).model() == old(self).model().advance(),
            passed(old(self).model(), final(self).model()),
            !old(self).model().at_end() ==> final(self).model().measure() < old(self).model().measure(),
    {
        if self.current < self.tokens.len() && self.tokens[self.current].token_type
            != TokenType::EOF {
            self.current += 1;
        }
    }

    fn report(&mut self, token: &Token, message: &str)
        ensures
            final(self).model() == old(self).model().report(token@, message@),
            passed(old(self).model(), final(self).model()),
    {
        let diagnostic = Diagnostic {
            line: token.line,
            location: match token.token_type {
                TokenType::EOF => None,
                _ => Some(token.lexeme.clone()),
            },
            message: message.to_owned(),
        };
        self.diagnostics.push(diagnostic);
        assert(self.model().diagnostics =~= old(self).model().diagnostics.push(diagnostic@));
    }

    fn consume(&mut self, kind: TokenType, message: &str) -> (r: Result<Token, ParseError>)
        ensures
            match r {
                Ok(token) => old(self).model().consume(kind, message@) == Parsed::Done(
                    final(self).model(),
                    token@,
                ),
                Err(_) => old(self).model().consume(kind, message@) == Parsed::<
                    TokenView,
                >::Failed(final(self).model()),
            },
            passed(old(self).model(), final(self).model()),
            r is Ok && kind != TokenType::EOF ==> final(self).model().measure() < old(self).model().measure(),
    {
        let token = self.peek();
        if self.check(kind) {
            self.advance();
            Ok(token)
        } else {
            self.report(&token, message);
            Err(ParseError)
        }
    }

    fn fresh(&mut self) -> (id: usize)
        ensures
            id == old(self).model().next_id,
            final(self).model() == old(self).model().fresh(),
            passed(old(self).model(), final(self).model()),
    {
        let id = self.next_id;
        if self.next_id < usize::MAX {
            self.next_id += 1;
        }
        id
    }

    fn expression(&mut self) -> (r: Result<Expr, ParseError>)
        ensures
            parsed_expr(r, final(self).model(), old(self).model().expression()),
            passed(old(self).model(), final(self).model()),
            r is Ok ==> final(self).model().measure() < old(self).model().measure(),
        decreases old(self).model().measure(), 46nat,
    {
        self.assignment()
    }

    fn assignment(&mut self) -> (r: Result<Expr, ParseError>)
        ensures
            parsed_expr(r, final(self).model(), old(self).model().assignment()),
            passed(old(self).model(), final(self).model()),
            r is Ok ==> final(self).model().measure() < old(self).model().measure(),
        decreases old(self).model().measure(), 45nat,
    {
        let target = self.binary(0)?;
        if self.check(TokenType::Equal) {
            let equals = self.peek();
            self.advance();
            let value = self.assignment()?;
            match target {
                Expr::Variable(variable) => {
                    let id = self.fresh();
                    Ok(Expr::Assign(ExprAssign { id, name: variable.name, value: Box::new(value) }))
                },
                other => {
                    self.report(&equals, "Invalid assignment target.");
                    Ok(other)
                },
            }
        } else {
            Ok(target)
        }
    }

    fn operand(&mut self, level: u8) -> (r: Result<Expr, ParseError>)
        requires
            level <= 5,
        ensures
            parsed_expr(r, final(self).model(), old(self).model().operand(level as nat)),
            passed(old(self).model(), final(self).model()),
            r is Ok ==> final(self).model().measure() < old(self).model().measure(),
        decreases old(self).model().measure(), (39 - 2 * level) as nat,
    {
        if level < 5 {
            self.binary(level + 1)
        } else {
            self.unary()
        }
    }

    fn binary(&mut self, level: u8) -> (r: Result<Expr, ParseError>)
        requires
            level <= 5,
        ensures
            parsed_expr(r, final(self).model(), old(self).model().binary(level as nat)),
            passed(old(self).model(), final(self).model()),
            r is Ok ==> final(self).model().measure() < old(self).model().measure(),
        decreases old(self).model().measure(), (40 - 2 * level) as nat,
    {
        let left = self.operand(level)?;
        self.binary_tail(level, left)
    }

    fn is_operator(level: u8, kind: TokenType) -> (r: bool)
        ensures
            r == operator_of(level as nat, kind),
    {
        match level {
            0 => kind == TokenType::Or,
            1 => kind == TokenType::And,
            2 => kind == TokenType::BangEqual || kind == TokenType::EqualEqual,
            3 => kind == TokenType::Greater || kind == TokenType::GreaterEqual || kind
                == TokenType::Less || kind == TokenType::LessEqual,
            4 => kind == TokenType::Minus || kind == TokenType::Plus,
            5 => kind == TokenType::Slash || kind == TokenType::Star,
            _ => false,
        }
    }

    fn binary_tail(&mut self, level: u8, left: Expr) -> (r: Result<Expr, ParseError>)
        requires
            level <= 5,
        ensures
            parsed_expr(r, final(self).model(), old(self).model().binary_tail(level as nat, left@)),
            passed(old(self).model(), final(self).model()),
        decreases old(self).model().measure(), 10nat,
    {
        if Self::is_operator(level, self.peek_kind()) {
            let operator = self.peek();
            self.advance();
            let right = self.operand(level)?;
            let joined = if level < 2 {
                Expr::Logical(
                    ExprLogical { left: Box::new(left), operator, right: Box::new(right) },
                )
            } else {
                Expr::Binary(ExprBinary { left: Box::new(left), operator, right: Box::new(right) })
            };
            self.binary_tail(level, joined)
        } else {
            Ok(left)
        }
    }

    fn unary(&mut self) -> (r: Result<Expr, ParseError>)
        ensures
            parsed_expr(r, final(self).model(), old(self).model().unary()),
            passed(old(self).model(), final(self).model()),
            r is Ok ==> final(self).model().measure() < old(self).model().measure(),
        decreases old(self).model().measure(), 20nat,
    {
        if self.check(TokenType::Bang) || self.check(TokenType::Minus) {
            let operator = self.peek();
            self.advance();
            let right = self.unary()?;
            Ok(Expr::Unary(ExprUnary { operator, right: Box::new(right) }))
        } else {
            self.call()
        }
    }

    fn call(&mut self) -> (r: Result<Expr, ParseError>)
        ensures
            parsed_expr(r, final(self).model(), old(self).model().call()),
            passed(old(self).model(), final(self).model()),
            r is Ok ==> final(self).model().measure() < old(self).model().measure(),
        decreases old(self).model().measure(), 19nat,
    {
        let callee = self.primary()?;
        self.call_tail(callee)
    }

    fn call_tail(&mut self, callee: Expr) -> (r: Result<Expr, ParseError>)
        ensures
            parsed_expr(r, final(self).model(), old(self).model().call_tail(callee@)),
            passed(old(self).model(), final(self).model()),
        decreases old(self).model().measure(), 9nat,
    {
        if self.check(TokenType::LeftParen) {
            self.advance();
            let none: Vec<Expr> = Vec::new();
            let arguments = if self.check(TokenType::RightParen) {
                none
            } else {
                self.arguments(none)?
            };
            let paren = self.consume(TokenType::RightParen, "Expect ')' after arguments.")?;
            let call = Expr::Call(ExprCall { callee: Box::new(callee), paren, arguments });
            assert(call@ == ExprView::Call(
                Box::new(callee@),
                paren@,
                expr_views(arguments@, arguments@.len() as int),
            ));
            self.call_tail(call)
        } else {
            Ok(callee)
        }
    }

    fn arguments(&mut self, before: Vec<Expr>) -> (r: Result<Vec<Expr>, ParseError>)
        ensures
            match r {
                Ok(list) => old(self).model().arguments(
                    expr_views(before@, before@.len() as int),
                ) == Parsed::Done(final(self).model(), expr_views(list@, list@.len() as int)),
                Err(_) => old(self).model().arguments(expr_views(before@, before@.len() as int))
                    == Parsed::<Seq<ExprView>>::Failed(final(self).model()),
            },
            passed(old(self).model(), final(self).model()),
        decreases old(self).model().measure(), 47nat,
    {
        proof {
            expr_views_length(before@, before@.len() as int);
        }
        if before.len() >= 255 {
            let token = self.peek();
            self.report(&token, "Can't have more than 255 arguments.");
        }
        let argument = self.expression()?;
        let mut list = before;
        proof {
            expr_views_push(list@, argument);
        }
        list.push(argument);
        if self.check(TokenType::Comma) {
            self.advance();
            self.arguments(list)
        } else {
            Ok(list)
        }
    }

    fn primary(&mut self) -> (r: Result<Expr, ParseError>)
        ensures
            parsed_expr(r, final(self).model(), old(self).model().primary()),
            passed(old(self).model(), final(self).model()),
            r is Ok ==> final(self).model().measure() < old(self).model().measure(),
        decreases old(self).model().measure(), 18nat,
    {
        let token = self.peek();
        match token.token_type {
            TokenType::False => {
                self.advance();
                Ok(Expr::Literal(ExprLiteral { value: Literal::Bool(false) }))
            },
            TokenType::True => {
                self.advance();
                Ok(Expr::Literal(ExprLiteral { value: Literal::Bool(true) }))
            },
            TokenType::Nil => {
                self.advance();
                Ok(Expr::Literal(ExprLiteral { value: Literal::Nil }))
            },
            TokenType::Number | TokenType::String => {
                self.advance();
                Ok(Expr::Literal(ExprLiteral { value: token.literal }))
            },
            TokenType::Identifier => {
                self.advance();
                let id = self.fresh();
                Ok(Expr::Variable(ExprVariable { id, name: token }))
            },
            TokenType::LeftParen => {
                self.advance();
                let inner = self.expression()?;
                self.consume(TokenType::RightParen, "Expect ')' after expression.")?;
                Ok(Expr::Grouping(ExprGrouping { expression: Box::new(inner) }))
            },
            _ => {
                self.report(&token, "Expect expression.");
                Err(ParseError)
            },
        }
    }

    fn terminated(&mut self, message: &str) -> (r: Result<Expr, ParseError>)
        ensures
            parsed_expr(r, final(self).model(), old(self).model().terminated(message@)),
            passed(old(self).model(), final(self).model()),
            r is Ok ==> final(self).model().measure() < old(self).model().measure(),
        decreases old(self).model().measure(), 48nat,
    {
        let value = self.expression()?;
        self.consume(TokenType::SemiColon, message)?;
        Ok(value)
    }

    fn optional(&mut self, unless: TokenType) -> (r: Result<Option<Expr>, ParseError>)
        ensures
            match r {
                Ok(e) => old(self).model().optional(unless) == Parsed::Done(
                    final(self).model(),
                    optional_view(e),
                ),
                Err(_) => old(self).model().optional(unless) == Parsed::<
                    Option<ExprView>,
                >::Failed(final(self).model()),
            },
            passed(old(self).model(), final(self).model()),
        decreases old(self).model().measure(), 48nat,
    {
        if self.check(unless) {
            Ok(None)
        } else {
            Ok(Some(self.expression()?))
        }
    }

    fn var_declaration(&mut self) -> (r: Result<Stmt, ParseError>)
        ensures
            parsed_stmt(r, final(self).model(), old(self).model().var_declaration()),
            passed(old(self).model(), final(self).model()),
            r is Ok ==> final(self).model().measure() < old(self).model().measure(),
        decreases old(self).model().measure(), 53nat,
    {
        let name = self.consume(TokenType::Identifier, "Expect variable name.")?;
        if self.check(TokenType::Equal) {
            self.advance();
            let value = self.terminated("Expect ';' after variable declaration.")?;
            Ok(Stmt::Var(StmtVar { name, initializer: Some(value) }))
        } else {
            self.consume(TokenType::SemiColon, "Expect ';' after variable declaration.")?;
            Ok(Stmt::Var(StmtVar { name, initializer: None }))
        }
    }

    fn parameters(&mut self, before: Vec<Token>) -> (r: Result<Vec<Token>, ParseError>)
        ensures
            match r {
                Ok(list) => old(self).model().parameters(before.deep_view()) == Parsed::Done(
                    final(self).model(),
                    list.deep_view(),
                ),
                Err(_) => old(self).model().parameters(before.deep_view()) == Parsed::<
                    Seq<TokenView>,
                >::Failed(final(self).model()),
            },
            passed(old(self).model(), final(self).model()),
        decreases old(self).model().measure(),
    {
        if before.len() >= 255 {
            let token = self.peek();
            self.report(&token, "Can't have more than 255 parameters.");
        }
        let name = self.consume(TokenType::Identifier, "Expect parameter name.")?;
        let mut list = before;
        list.push(name);
        proof {
            assert(list.deep_view() =~= before.deep_view().push(name@));
        }
        if self.check(TokenType::Comma) {
            self.advance();
            self.parameters(list)
        } else {
            Ok(list)
        }
    }

    fn function(&mut self) -> (r: Result<Stmt, ParseError>)
        ensures
            parsed_stmt(r, final(self).model(), old(self).model().function()),
            passed(old(self).model(), final(self).model()),
            r is Ok ==> final(self).model().measure() < old(self).model().measure(),
        decreases old(self).model().measure(), 59nat,
    {
        let name = self.consume(TokenType::Identifier, "Expect function name.")?;
        self.consume(TokenType::LeftParen, "Expect '(' after function name.")?;
        let params = if self.check(TokenType::RightParen) {
            let none: Vec<Token> = Vec::new();
            proof {
                assert(none.deep_view() =~= Seq::<TokenView>::empty());
            }
            none
        } else {
            let none: Vec<Token> = Vec::new();
            proof {
                assert(none.deep_view() =~= Seq::<TokenView>::empty());
            }
            self.parameters(none)?
        };
        self.consume(TokenType::RightParen, "Expect ')' after parameters.")?;
        self.consume(TokenType::LeftBrace, "Expect '{' before function body.")?;
        let body = self.block()?;
        Ok(Stmt::Function(StmtFunction { name, params, body }))
    }

    fn block(&mut self) -> (r: Result<Vec<Stmt>, ParseError>)
        ensures
            match r {
                Ok(list) => old(self).model().block() == Parsed::Done(
                    final(self).model(),
                    stmt_views(list@, list@.len() as int),
                ),
                Err(_) => old(self).model().block() == Parsed::<Seq<StmtView>>::Failed(
                    final(self).model(),
                ),
            },
            passed(old(self).model(), final(self).model()),
            r is Ok ==> final(self).model().measure() < old(self).model().measure(),
        decreases old(self).model().measure(), 58nat,
    {
        let items = self.items(true);
        self.consume(TokenType::RightBrace, "Expect '}' after block.")?;
        Ok(items)
    }

    fn items(&mut self, in_block: bool) -> (list: Vec<Stmt>)
        ensures
            old(self).model().items(Seq::empty(), in_block) == (
                final(self).model(),
                stmt_views(list@, list@.len() as int),
            ),
            passed(old(self).model(), final(self).model()),
        decreases old(self).model().measure(), 57nat,
    {
        let mut list: Vec<Stmt> = Vec::new();
        loop
            invariant
                self.model().items(stmt_views(list@, list@.len() as int), in_block) == old(self).model().items(Seq::empty(), in_block),
                passed(old(self).model(), self.model()),
            decreases self.model().measure(),
        {
            if self.is_at_end() || (in_block && self.check(TokenType::RightBrace)) {
                return list;
            }
            match self.declaration() {
                Some(statement) => {
                    proof {
                        stmt_views_push(list@, statement);
                    }
                    list.push(statement);
                },
                None => {},
            }
        }
    }

    fn declaration(&mut self) -> (r: Option<Stmt>)
        ensures
            old(self).model().declaration() == (final(self).model(), optional_stmt_view(r)),
            passed(old(self).model(), final(self).model()),
            !old(self).model().at_end() ==> final(self).model().measure() < old(self).model().measure(),
        decreases old(self).model().measure(), 56nat,
    {
        let parsed = if self.check(TokenType::Fun) {
            self.advance();
            self.function()
        } else if self.check(TokenType::Var) {
            self.advance();
            self.var_declaration()
        } else {
            self.statement()
        };
        match parsed {
            Ok(statement) => Some(statement),
            Err(_) => {
                self.synchronize();
                None
            },
        }
    }

    fn statement(&mut self) -> (r: Result<Stmt, ParseError>)
        ensures
            parsed_stmt(r, final(self).model(), old(self).model().statement()),
            passed(old(self).model(), final(self).model()),
            r is Ok ==> final(self).model().measure() < old(self).model().measure(),
        decreases old(self).model().measure(), 50nat,
    {
        match self.peek_kind() {
            TokenType::For => {
                self.advance();
                self.for_statement()
            },
            TokenType::If => {
                self.advance();
                self.if_statement()
            },
            TokenType::Print => {
                self.advance();
                let value = self.terminated("Expect ';' after value.")?;
                Ok(Stmt::Print(StmtPrint { expression: value }))
            },
            TokenType::Return => {
                let keyword = self.peek();
                self.advance();
                let value = self.optional(TokenType::SemiColon)?;
                self.consume(TokenType::SemiColon, "Expect ';' after return value.")?;
                Ok(Stmt::Return(StmtReturn { keyword, value }))
            },
            TokenType::While => {
                self.advance();
                self.while_statement()
            },
            TokenType::LeftBrace => {
                self.advance();
                let statements = self.block()?;
                Ok(Stmt::Block(StmtBlock { statements }))
            },
            _ => self.expression_statement(),
        }
    }

    fn expression_statement(&mut self) -> (r: Result<Stmt, ParseError>)
        ensures
            parsed_stmt(r, final(self).model(), old(self).model().expression_statement()),
            passed(old(self).model(), final(self).model()),
            r is Ok ==> final(self).model().measure() < old(self).model().measure(),
        decreases old(self).model().measure(), 49nat,
    {
        let value = self.terminated("Expect ';' after expression.")?;
        Ok(Stmt::Expression(StmtExpression { expression: value }))
    }

    fn condition(&mut self, open: &str, close: &str) -> (r: Result<Expr, ParseError>)
        ensures
            parsed_expr(r, final(self).model(), old(self).model().condition(open@, close@)),
            passed(old(self).model(), final(self).model()),
            r is Ok ==> final(self).model().measure() < old(self).model().measure(),
        decreases old(self).model().measure(), 48nat,
    {
        self.consume(TokenType::LeftParen, open)?;
        let value = self.expression()?;
        self.consume(TokenType::RightParen, close)?;
        Ok(value)
    }

    fn if_statement(&mut self) -> (r: Result<Stmt, ParseError>)
        ensures
            parsed_stmt(r, final(self).model(), old(self).model().if_statement()),
            passed(old(self).model(), final(self).model()),
            r is Ok ==> final(self).model().measure() < old(self).model().measure(),
        decreases old(self).model().measure(), 52nat,
    {
        let condition = self.condition("Expect '(' after 'if'.", "Expect ')' after if condition.")?;
        let then_branch = self.statement()?;
        if self.check(TokenType::Else) {
            self.advance();
            let other = self.statement()?;
            Ok(
                Stmt::If(
                    StmtIf {
                        condition,
                        then_branch: Box::new(then_branch),
                        else_branch: Some(Box::new(other)),
                    },
                ),
            )
        } else {
            Ok(
                Stmt::If(
                    StmtIf { condition, then_branch: Box::new(then_branch), else_branch: None },
                ),
            )
        }
    }

    fn while_statement(&mut self) -> (r: Result<Stmt, ParseError>)
        ensures
            parsed_stmt(r, final(self).model(), old(self).model().while_statement()),
            passed(old(self).model(), final(self).model()),
            r is Ok ==> final(self).model().measure() < old(self).model().measure(),
        decreases old(self).model().measure(), 52nat,
    {
        let condition = self.condition("Expect '(' after 'while'.", "Expect ')' after condition.")?;
        let body = self.statement()?;
        Ok(Stmt::While(StmtWhile { condition, body: Box::new(body) }))
    }

    fn for_initializer(&mut self) -> (r: Result<Option<Stmt>, ParseError>)
        ensures
            match r {
                Ok(s) => old(self).model().for_initializer() == Parsed::Done(
                    final(self).model(),
                    optional_stmt_view(s),
                ),
                Err(_) => old(self).model().for_initializer() == Parsed::<
                    Option<StmtView>,
                >::Failed(final(self).model()),
            },
            passed(old(self).model(), final(self).model()),
        decreases old(self).model().measure(), 54nat,
    {
        if self.check(TokenType::SemiColon) {
            self.advance();
            Ok(None)
        } else if self.check(TokenType::Var) {
            self.advance();
            Ok(Some(self.var_declaration()?))
        } else {
            Ok(Some(self.expression_statement()?))
        }
    }

    #[verifier::rlimit(60)]
    fn for_statement(&mut self) -> (r: Result<Stmt, ParseError>)
        ensures
            parsed_stmt(r, final(self).model(), old(self).model().for_statement()),
            passed(old(self).model(), final(self).model()),
            r is Ok ==> final(self).model().measure() < old(self).model().measure(),
        decreases old(self).model().measure(), 55nat,
    {
        self.consume(TokenType::LeftParen, "Expect '(' after 'for'.")?;
        let initializer = self.for_initializer()?;
        let condition = self.optional(TokenType::SemiColon)?;
        self.consume(TokenType::SemiColon, "Expect ';' after loop condition.")?;
        let increment = self.optional(TokenType::RightParen)?;
        self.consume(TokenType::RightParen, "Expect ')' after for clauses.")?;
        let body = self.statement()?;
        let stepped = match increment {
            Some(e) => pair_block(body, Stmt::Expression(StmtExpression { expression: e })),
            None => body,
        };
        let looped = Stmt::While(
            StmtWhile {
                condition: match condition {
                    Some(e) => e,
                    None => Expr::Literal(ExprLiteral { value: Literal::Bool(true) }),
                },
                body: Box::new(stepped),
            },
        );
        match initializer {
            Some(first) => Ok(pair_block(first, looped)),
            None => Ok(looped),
        }
    }

    fn synchronize(&mut self)
        ensures
            final(self).model() == old(self).model().synchronize(),
            passed(old(self).model(), final(self).model()),
            !old(self).model().at_end() ==> final(self).model().measure() < old(self).model().measure(),
    {
        self.advance();
        let ghost begin = self.model();
        loop
            invariant
                begin == old(self).model().advance(),
                passed(old(self).model(), begin),
                !old(self).model().at_end() ==> begin.measure() < old(self).model().measure(),
                self.model().skip() == begin.skip(),
                passed(begin, self.model()),
            decreases self.model().measure(),
        {
            if self.is_at_end() || self.previous_kind() == TokenType::SemiColon {
                return ;
            }
            match self.peek_kind() {
                TokenType::Class
                | TokenType::Fun
                | TokenType::Var
                | TokenType::For
                | TokenType::If
                | TokenType::While
                | TokenType::Print
                | TokenType::Return => {
                    return ;
                },
                _ => {},
            }
            self.advance();
        }
    }

    /// Parses one expression, from the token that is looked at on. A syntax
    /// error is reported, and no expression is given.
    pub fn parse_expression(&mut self) -> (r: Option<Expr>)
        ensures
            match r {
                Some(e) => old(self).model().expression() == Parsed::Done(final(self).model(), e@),
                None => old(self).model().expression() == Parsed::<ExprView>::Failed(
                    final(self).model(),
                ),
            },
    {
        match self.expression() {
            Ok(e) => Some(e),
            Err(_) => None,
        }
    }

    /// Whether every token has been passed: the end is looked at.
    pub fn at_end(&self) -> (r: bool)
        ensures
            r == self.model().at_end(),
    {
        self.is_at_end()
    }

    /// Parses the whole program: its statements, in order. A statement
    /// with a syntax error is reported and left out.
    pub fn parse(&mut self) -> (statements: Vec<Stmt>)
        ensures
            old(self).model().parse() == (
                final(self).model(),
                stmt_views(statements@, statements@.len() as int),
            ),
    {
        self.items(false)
    }
}

/// A list has as many views as it has expressions.
pub proof fn expr_views_length(list: Seq<Expr>, upto: int)
    requires
        0 <= upto <= list.len(),
    ensures
        expr_views(list, upto).len() == upto,
    decreases upto,
{
    if upto > 0 {
        expr_views_length(list, upto - 1);
    }
}

} // verus!
