//! The compiler lays out its code well: where it reports no error, the
//! chunk it has written can run on the virtual machine.
use vstd::prelude::*;
use crate::chunk::OpCode;
use crate::compiler::{binary_code, rule, token_ahead, Compilation, Compiled, ParseFn, Precedence};
use crate::debug::has_operand;
use crate::layout::{laid, laid_extends, laid_runs, operand_ok, runs, starts_with, takes_values};
use crate::scanner::scan_bounds;
use crate::token::{LiteralView, TokenType, TokenView};
use crate::vm::stack_effect;

verus! {

/// The number of values that the code written so far leaves on the stack,
/// if it is laid out well.
pub open spec fn tally(c: Compilation) -> Option<int> {
    laid(c.chunk.code, c.chunk.constants, 0, 0)
}

/// What holds of every state of a compilation: the scanner stands inside
/// the source, every byte has its line, and an error has been reported if
/// the parser is in panic mode.
pub open spec fn steady(c: Compilation) -> bool {
    &&& 0 <= c.position <= c.src.len()
    &&& c.chunk.lines.len() == c.chunk.code.len()
    &&& (c.panic_mode ==> c.had_error)
}

/// What every part of the compiler keeps: the source, a steady state, what
/// is left to read, which does not grow, an error once reported, and the
/// constants written.
pub open spec fn proceeds(c: Compilation, n: Compilation) -> bool {
    &&& n.src == c.src
    &&& steady(n)
    &&& n.measure() <= c.measure()
    &&& (c.had_error ==> n.had_error)
    &&& starts_with(n.chunk.constants, c.chunk.constants)
}

/// What the lemmas below say of a part of the compiler: it proceeds, and
/// where it ends without an error reported, on code that was laid out and
/// left at least `floor` values, its code is laid out and leaves `delta`
/// values more.
pub open spec fn emits(c: Compilation, r: Compiled, floor: int, delta: int) -> bool {
    match r {
        Ok(n) => proceeds(c, n) && (!n.had_error && tally(c) is Some && tally(c)->0 >= floor
            ==> tally(n) == Some(tally(c)->0 + delta)),
        Err(_) => true,
    }
}

/// Whether a part of the compiler has read something, where there was
/// something to read.
pub open spec fn reads(c: Compilation, r: Compiled) -> bool {
    match r {
        Ok(n) => token_ahead(c) ==> n.measure() < c.measure(),
        Err(_) => true,
    }
}

/// Code that is laid out leaves no fewer than no values.
pub proof fn laid_leaves(code: Seq<u8>, constants: Seq<LiteralView>, offset: int, depth: int)
    requires
        depth >= 0,
        laid(code, constants, offset, depth) is Some,
    ensures
        laid(code, constants, offset, depth)->0 >= 0,
    decreases code.len() - offset,
{
    if offset < code.len() {
        let op = OpCode::decode(code[offset])->0;
        if has_operand(op) {
            laid_leaves(code, constants, offset + 2, depth + stack_effect(op));
        } else {
            laid_leaves(code, constants, offset + 1, depth + stack_effect(op));
        }
    }
}

pub proof fn advance_proceeds(c: Compilation)
    requires
        steady(c),
    ensures
        match c.advance() {
            Ok(n) => proceeds(c, n) && n.chunk == c.chunk && n.had_error == c.had_error
                && n.panic_mode == c.panic_mode && n.previous == c.current && (token_ahead(c)
                ==> n.measure() < c.measure()),
            Err(_) => true,
        },
{
    scan_bounds(c.src, c.position, c.line);
}

pub proof fn report_proceeds(c: Compilation, token: Option<TokenView>, message: Seq<char>)
    requires
        steady(c),
    ensures
        proceeds(c, c.report(token, message)),
        c.report(token, message).had_error,
        c.report(token, message).chunk == c.chunk,
        c.report(token, message).measure() == c.measure(),
{
}

pub proof fn accept_proceeds(c: Compilation, kind: TokenType)
    requires
        steady(c),
    ensures
        match c.accept(kind) {
            Ok((n, found)) => proceeds(c, n) && n.chunk == c.chunk && n.had_error == c.had_error
                && n.panic_mode == c.panic_mode && (found && kind != TokenType::EOF ==> n.measure()
                < c.measure()) && (!found ==> n == c && c.current is Some
                && c.current->0.token_type != kind),
            Err(_) => true,
        },
{
    advance_proceeds(c);
}

pub proof fn consume_proceeds(c: Compilation, kind: TokenType, message: Seq<char>)
    requires
        steady(c),
    ensures
        match c.consume(kind, message) {
            Ok(n) => proceeds(c, n) && n.chunk == c.chunk,
            Err(_) => true,
        },
{
    advance_proceeds(c);
    report_proceeds(c, c.current, message);
}

/// One instruction without an operand, written behind code that is laid
/// out.
pub proof fn emit_one(c: Compilation, op: OpCode)
    requires
        steady(c),
        op != OpCode::OpReturn,
        !has_operand(op),
    ensures
        emits(c, c.emit(op.byte()), takes_values(op) as int, stack_effect(op)),
        match c.emit(op.byte()) {
            Ok(n) => n.measure() == c.measure() && n.had_error == c.had_error && n.panic_mode
                == c.panic_mode && n.current == c.current,
            Err(_) => true,
        },
{
    match c.emit(op.byte()) {
        Ok(n) => {
            if tally(c) is Some && tally(c)->0 >= takes_values(op) {
                let code = c.chunk.code;
                let more = seq![op.byte()];
                assert(code.push(op.byte()) =~= code + more);
                laid_extends(code, c.chunk.constants, more, c.chunk.constants, 0, 0);
                crate::chunk::decode_inverts_byte(op, 0);
                assert((code + more)[code.len() as int] == op.byte());
                assert(laid(code + more, c.chunk.constants, code.len() as int + 1, tally(c)->0
                    + stack_effect(op)) == Some(tally(c)->0 + stack_effect(op)));
            }
        },
        Err(_) => {},
    }
}

/// One instruction with its operand, written behind code that is laid
/// out.
pub proof fn emit_two(c: Compilation, op: OpCode, index: u8)
    requires
        steady(c),
        has_operand(op),
        operand_ok(op, index, c.chunk.constants),
    ensures
        emits(c, c.emit2(op.byte(), index), takes_values(op) as int, stack_effect(op)),
        match c.emit2(op.byte(), index) {
            Ok(n) => n.measure() == c.measure() && n.had_error == c.had_error && n.panic_mode
                == c.panic_mode && n.current == c.current,
            Err(_) => true,
        },
{
    match c.emit2(op.byte(), index) {
        Ok(n) => {
            if tally(c) is Some && tally(c)->0 >= takes_values(op) {
                let code = c.chunk.code;
                let more = seq![op.byte(), index];
                assert(code.push(op.byte()).push(index) =~= code + more);
                laid_extends(code, c.chunk.constants, more, c.chunk.constants, 0, 0);
                crate::chunk::decode_inverts_byte(op, 0);
                assert((code + more)[code.len() as int] == op.byte());
                assert((code + more)[code.len() as int + 1] == index);
                assert(laid(code + more, c.chunk.constants, code.len() as int + 2, tally(c)->0
                    + stack_effect(op)) == Some(tally(c)->0 + stack_effect(op)));
            }
        },
        Err(_) => {},
    }
}

/// A constant added to code that is laid out: the code stays laid out, and
/// the index names the constant.
pub proof fn constant_proceeds(c: Compilation, literal: LiteralView)
    requires
        steady(c),
    ensures
        proceeds(c, c.constant(literal).0),
        c.constant(literal).0.chunk.code == c.chunk.code,
        c.constant(literal).0.measure() == c.measure(),
        c.constant(literal).0.current == c.current,
        c.constant(literal).0.previous == c.previous,
        !c.constant(literal).0.had_error ==> c.constant(literal).1 < c.constant(
            literal,
        ).0.chunk.constants.len() && c.constant(literal).0.chunk.constants[c.constant(
            literal,
        ).1 as int] == literal && (tally(c) is Some ==> tally(c.constant(literal).0) == tally(c)),
{
    report_proceeds(c, c.previous, "Too many constants in one chunk."@);
    let n = c.constant(literal).0;
    if c.chunk.constants.len() < 256 {
        if tally(c) is Some {
            laid_extends(c.chunk.code, c.chunk.constants, Seq::empty(), n.chunk.constants, 0, 0);
            assert(c.chunk.code + Seq::<u8>::empty() =~= c.chunk.code);
        }
    }
}

} // verus!

verus! {

/// The instructions of a binary operator, written behind code that is
/// laid out and has left the two operands.
pub proof fn emit_code_emits(c: Compilation, kind: TokenType)
    requires
        steady(c),
        binary_code(kind) is Some,
    ensures
        emits(c, c.emit_code(binary_code(kind)), 2, -1),
        match c.emit_code(binary_code(kind)) {
            Ok(n) => n.measure() == c.measure() && n.current == c.current,
            Err(_) => true,
        },
{
    let (first, second) = binary_code(kind)->0;
    emit_one(c, first);
    match c.emit(first.byte()) {
        Ok(c1) => {
            match second {
                Some(then) => {
                    emit_one(c1, then);
                },
                None => {},
            }
        },
        Err(_) => {},
    }
}

pub proof fn parse_precedence_emits(c: Compilation, level: u8)
    requires
        steady(c),
        level >= 1,
    ensures
        emits(c, c.parse_precedence(level), 0, 1),
        reads(c, c.parse_precedence(level)),
    decreases c.measure(), 0nat,
{
    advance_proceeds(c);
    match c.advance() {
        Err(_) => {},
        Ok(c1) => match c1.previous {
            None => {},
            Some(token) => match rule(token.token_type).prefix {
                None => {
                    report_proceeds(c1, c1.previous, "Expect expression."@);
                },
                Some(parse) => {
                    assert(token_ahead(c));
                    dispatch_emits(c1, parse, level <= 1, false);
                    match c1.dispatch(parse, level <= 1) {
                        Err(_) => {},
                        Ok(c2) => {
                            infixes_emit(c2, level);
                            if tally(c) is Some {
                                laid_leaves(c.chunk.code, c.chunk.constants, 0, 0);
                            }
                            match c2.infixes(level) {
                                Err(_) => {},
                                Ok((c3, stopped)) => {
                                    if !(stopped || level > 1) {
                                        accept_proceeds(c3, TokenType::Equal);
                                        match c3.accept(TokenType::Equal) {
                                            Err(_) => {},
                                            Ok((c4, found)) => {
                                                report_proceeds(
                                                    c4,
                                                    c4.previous,
                                                    "Invalid assignment target."@,
                                                );
                                            },
                                        }
                                    }
                                },
                            }
                        },
                    }
                },
            },
        },
    }
}

pub proof fn infixes_emit(c: Compilation, level: u8)
    requires
        steady(c),
        level >= 1,
    ensures
        match c.infixes(level) {
            Ok((n, _)) => proceeds(c, n) && (!n.had_error && tally(c) is Some && tally(c)->0 >= 1
                ==> tally(n) == tally(c)),
            Err(_) => true,
        },
    decreases c.measure(), 1nat,
{
    match c.current {
        None => {},
        Some(ahead) => {
            if level <= rule(ahead.token_type).precedence.level() {
                assert(token_ahead(c));
                advance_proceeds(c);
                match c.advance() {
                    Err(_) => {},
                    Ok(c1) => match c1.previous {
                        None => {},
                        Some(token) => match rule(token.token_type).infix {
                            None => {
                                report_proceeds(c1, c1.previous, "Expect expression."@);
                            },
                            Some(parse) => {
                                dispatch_emits(c1, parse, level <= 1, true);
                                match c1.dispatch(parse, level <= 1) {
                                    Err(_) => {},
                                    Ok(c2) => {
                                        infixes_emit(c2, level);
                                    },
                                }
                            },
                        },
                    },
                }
            }
        },
    }
}

/// Whether the token just read has the rule to be compiled in the given
/// way, after a left operand or at the start of an expression.
pub open spec fn ruled(c: Compilation, parse: ParseFn, infix: bool) -> bool {
    c.previous is Some && if infix {
        rule(c.previous->0.token_type).infix == Some(parse)
    } else {
        rule(c.previous->0.token_type).prefix == Some(parse)
    }
}

pub proof fn dispatch_emits(c: Compilation, parse: ParseFn, can_assign: bool, infix: bool)
    requires
        steady(c),
        ruled(c, parse, infix),
    ensures
        emits(
            c,
            c.dispatch(parse, can_assign),
            if infix {
                1int
            } else {
                0int
            },
            if infix {
                0int
            } else {
                1int
            },
        ),
    decreases c.measure(), 3nat,
{
    match parse {
        ParseFn::Grouping => {
            grouping_emits(c);
        },
        ParseFn::Number | ParseFn::String => {
            match c.previous {
                None => {},
                Some(token) => {
                    constant_emits(c, token.literal);
                },
            }
        },
        ParseFn::Unary => {
            unary_emits(c);
        },
        ParseFn::Binary => {
            binary_emits(c);
        },
        ParseFn::Literal => {
            match c.previous {
                None => {},
                Some(token) => {
                    emit_one(c, OpCode::OpTrue);
                    emit_one(c, OpCode::OpFalse);
                    emit_one(c, OpCode::OpNil);
                },
            }
        },
        ParseFn::Variable => {
            variable_emits(c, can_assign);
        },
    }
}

/// A constant and the instruction that loads it.
pub proof fn constant_emits(c: Compilation, literal: LiteralView)
    requires
        steady(c),
    ensures
        emits(c, c.emit_constant(literal), 0, 1),
{
    constant_proceeds(c, literal);
    let (c1, index) = c.constant(literal);
    if !c1.had_error {
        emit_two(c1, OpCode::OpConstant, index);
    } else {
        match c1.emit2(OpCode::OpConstant.byte(), index) {
            Ok(n) => {
                emit_goes_on(c1, OpCode::OpConstant.byte());
                match c1.emit(OpCode::OpConstant.byte()) {
                    Ok(c2) => {
                        emit_goes_on(c2, index);
                    },
                    Err(_) => {},
                }
            },
            Err(_) => {},
        }
    }
}

/// Writing a byte proceeds.
pub proof fn emit_goes_on(c: Compilation, byte: u8)
    requires
        steady(c),
    ensures
        match c.emit(byte) {
            Ok(n) => proceeds(c, n) && n.had_error == c.had_error && n.measure() == c.measure(),
            Err(_) => true,
        },
{
}

/// Writing two bytes proceeds.
pub proof fn emit2_goes_on(c: Compilation, first: u8, second: u8)
    requires
        steady(c),
    ensures
        match c.emit2(first, second) {
            Ok(n) => proceeds(c, n) && n.had_error == c.had_error && n.measure() == c.measure(),
            Err(_) => true,
        },
{
    emit_goes_on(c, first);
    match c.emit(first) {
        Ok(c1) => {
            emit_goes_on(c1, second);
        },
        Err(_) => {},
    }
}

pub proof fn grouping_emits(c: Compilation)
    requires
        steady(c),
    ensures
        emits(c, c.grouping(), 0, 1),
    decreases c.measure(), 2nat,
{
    expression_emits(c);
    match c.expression() {
        Err(_) => {},
        Ok(next) => {
            consume_proceeds(next, TokenType::RightParen, "Expect ')' after expression."@);
        },
    }
}

pub proof fn unary_emits(c: Compilation)
    requires
        steady(c),
    ensures
        emits(c, c.unary(), 0, 1),
    decreases c.measure(), 2nat,
{
    match c.previous {
        None => {},
        Some(operator) => {
            parse_precedence_emits(c, Precedence::Unary.level());
            match c.parse_precedence(Precedence::Unary.level()) {
                Err(_) => {},
                Ok(next) => {
                    emit_one(next, OpCode::OpNot);
                    emit_one(next, OpCode::OpNegate);
                    if tally(c) is Some {
                        laid_leaves(c.chunk.code, c.chunk.constants, 0, 0);
                    }
                },
            }
        },
    }
}

pub proof fn binary_emits(c: Compilation)
    requires
        steady(c),
        ruled(c, ParseFn::Binary, true),
    ensures
        emits(c, c.binary(), 1, 0),
    decreases c.measure(), 2nat,
{
    match c.previous {
        None => {},
        Some(operator) => {
            let level = (rule(operator.token_type).precedence.level() + 1) as u8;
            parse_precedence_emits(c, level);
            match c.parse_precedence(level) {
                Err(_) => {},
                Ok(next) => {
                    emit_code_emits(next, operator.token_type);
                },
            }
        },
    }
}

pub proof fn variable_emits(c: Compilation, can_assign: bool)
    requires
        steady(c),
    ensures
        emits(c, c.variable(can_assign), 0, 1),
    decreases c.measure(), 2nat,
{
    match c.previous {
        None => {},
        Some(name) => {
            let literal = LiteralView::String(name.lexeme);
            constant_proceeds(c, literal);
            let (c1, index) = c.constant(literal);
            emit2_goes_on(c1, OpCode::OpGetGlobal.byte(), index);
            if !c1.had_error {
                emit_two(c1, OpCode::OpGetGlobal, index);
            }
            if can_assign {
                accept_proceeds(c1, TokenType::Equal);
                match c1.accept(TokenType::Equal) {
                    Err(_) => {},
                    Ok((c2, found)) => {
                        if found {
                            expression_emits(c2);
                            match c2.expression() {
                                Err(_) => {},
                                Ok(c3) => {
                                    emit2_goes_on(c3, OpCode::OpSetGlobal.byte(), index);
                                    if !c3.had_error {
                                        assert(operand_ok(
                                            OpCode::OpSetGlobal,
                                            index,
                                            c3.chunk.constants,
                                        ));
                                        emit_two(c3, OpCode::OpSetGlobal, index);
                                        if tally(c) is Some {
                                            laid_leaves(c.chunk.code, c.chunk.constants, 0, 0);
                                        }
                                    }
                                },
                            }
                        }
                    },
                }
            }
        },
    }
}

pub proof fn expression_emits(c: Compilation)
    requires
        steady(c),
    ensures
        emits(c, c.expression(), 0, 1),
        reads(c, c.expression()),
    decreases c.measure(), 1nat,
{
    parse_precedence_emits(c, Precedence::Assignment.level());
}

} // verus!

verus! {

/// An expression, a semicolon, and the instruction that takes the value.
pub proof fn simple_statement_emits(c: Compilation, message: Seq<char>, op: OpCode)
    requires
        steady(c),
        op == OpCode::OpPrint || op == OpCode::OpPop,
    ensures
        emits(c, c.simple_statement(message, op), 0, 0),
        reads(c, c.simple_statement(message, op)),
{
    expression_emits(c);
    match c.expression() {
        Err(_) => {},
        Ok(c1) => {
            consume_proceeds(c1, TokenType::SemiColon, message);
            match c1.consume(TokenType::SemiColon, message) {
                Err(_) => {},
                Ok(c2) => {
                    emit_one(c2, op);
                    if tally(c) is Some {
                        laid_leaves(c.chunk.code, c.chunk.constants, 0, 0);
                    }
                },
            }
        },
    }
}

pub proof fn statement_emits(c: Compilation)
    requires
        steady(c),
    ensures
        emits(c, c.statement(), 0, 0),
        reads(c, c.statement()),
{
    accept_proceeds(c, TokenType::Print);
    match c.accept(TokenType::Print) {
        Err(_) => {},
        Ok((next, found)) => {
            simple_statement_emits(next, "Expect ';' after value."@, OpCode::OpPrint);
            simple_statement_emits(next, "Expect ';' after expression."@, OpCode::OpPop);
        },
    }
}

pub proof fn var_declaration_emits(c: Compilation)
    requires
        steady(c),
    ensures
        emits(c, c.var_declaration(), 0, 0),
{
    let message = "Expect variable name."@;
    consume_proceeds(c, TokenType::Identifier, message);
    match c.consume(TokenType::Identifier, message) {
        Err(_) => {},
        Ok(c0) => match c0.previous {
            None => {},
            Some(name) => {
                let literal = LiteralView::String(name.lexeme);
                constant_proceeds(c0, literal);
                let (c1, global) = c0.constant(literal);
                accept_proceeds(c1, TokenType::Equal);
                match c1.accept(TokenType::Equal) {
                    Err(_) => {},
                    Ok((c2, found)) => {
                        expression_emits(c2);
                        emit_one(c2, OpCode::OpNil);
                        let valued = if found {
                            c2.expression()
                        } else {
                            c2.emit(OpCode::OpNil.byte())
                        };
                        match valued {
                            Err(_) => {},
                            Ok(c3) => {
                                let closing = "Expect ';' after variable declaration."@;
                                consume_proceeds(c3, TokenType::SemiColon, closing);
                                match c3.consume(TokenType::SemiColon, closing) {
                                    Err(_) => {},
                                    Ok(c4) => {
                                        emit2_goes_on(c4, OpCode::OpDefineGlobal.byte(), global);
                                        if !c4.had_error {
                                            assert(operand_ok(
                                                OpCode::OpDefineGlobal,
                                                global,
                                                c4.chunk.constants,
                                            ));
                                            emit_two(c4, OpCode::OpDefineGlobal, global);
                                            if tally(c) is Some {
                                                laid_leaves(
                                                    c.chunk.code,
                                                    c.chunk.constants,
                                                    0,
                                                    0,
                                                );
                                            }
                                        }
                                    },
                                }
                            },
                        }
                    },
                }
            },
        },
    }
}

/// Passing tokens after an error proceeds and writes nothing.
pub proof fn skip_proceeds(c: Compilation)
    requires
        steady(c),
    ensures
        match c.skip_to_statement() {
            Ok(n) => proceeds(c, n) && n.chunk == c.chunk,
            Err(_) => true,
        },
    decreases c.measure(),
{
    match c.current {
        None => {},
        Some(ahead) => {
            if ahead.token_type != TokenType::EOF {
                match c.previous {
                    None => {},
                    Some(token) => {
                        if !(token.token_type == TokenType::SemiColon
                            || crate::compiler::starts_statement(ahead.token_type)) {
                            advance_proceeds(c);
                            match c.advance() {
                                Err(_) => {},
                                Ok(next) => {
                                    skip_proceeds(next);
                                },
                            }
                        }
                    },
                }
            }
        },
    }
}

pub proof fn declaration_emits(c: Compilation)
    requires
        steady(c),
    ensures
        emits(c, c.declaration(), 0, 0),
        reads(c, c.declaration()),
{
    reveal(Compilation::declaration);
    accept_proceeds(c, TokenType::Var);
    match c.accept(TokenType::Var) {
        Err(_) => {},
        Ok((c1, found)) => {
            var_declaration_emits(c1);
            statement_emits(c1);
            let parsed = if found {
                c1.var_declaration()
            } else {
                c1.statement()
            };
            match parsed {
                Err(_) => {},
                Ok(c2) => {
                    if c2.panic_mode {
                        skip_proceeds(Compilation { panic_mode: false, ..c2 });
                    }
                },
            }
        },
    }
}

/// The declarations of a program and the `OpReturn` after them: where no
/// error is reported, the code can run.
pub proof fn declarations_run(c: Compilation)
    requires
        steady(c),
    ensures
        match c.declarations() {
            Ok(n) => proceeds(c, n) && (!n.had_error && tally(c) is Some ==> runs(
                n.chunk.code,
                n.chunk.constants,
                0,
                0,
            )),
            Err(_) => true,
        },
    decreases c.measure(),
{
    accept_proceeds(c, TokenType::EOF);
    match c.accept(TokenType::EOF) {
        Err(_) => {},
        Ok((c1, found)) => {
            if found {
                emit_goes_on(c1, OpCode::OpReturn.byte());
                if tally(c1) is Some {
                    laid_runs(c1.chunk.code, c1.chunk.constants, 0, 0);
                }
                match c1.emit(OpCode::OpReturn.byte()) {
                    Ok(n) => {
                        assert(n.chunk.code == c1.chunk.code.push(OpCode::OpReturn.byte()));
                        assert(n.chunk.constants == c1.chunk.constants);
                    },
                    Err(_) => {},
                }
            } else {
                assert(token_ahead(c1));
                declaration_emits(c1);
                if tally(c) is Some {
                    laid_leaves(c.chunk.code, c.chunk.constants, 0, 0);
                }
                match c1.declaration() {
                    Err(_) => {},
                    Ok(c2) => {
                        assert(c2.measure() < c.measure());
                        declarations_run(c2);
                        match c2.declarations() {
                            Ok(n) => {
                                if !n.had_error && tally(c) is Some {
                                    assert(!c2.had_error);
                                    assert(tally(c2) is Some);
                                }
                            },
                            Err(_) => {},
                        }
                    },
                }
            }
        },
    }
}

/// The code that the compiler writes without reporting an error can run:
/// every instruction finds its operand and the values it needs, up to the
/// `OpReturn` at the end. A virtual machine that starts on it is on
/// course, and so never stops for an error that is not the program's.
pub proof fn compiled_code_runs(src: Seq<char>)
    ensures
        match Compilation::begin(src).compile() {
            Ok(n) => !n.had_error ==> runs(n.chunk.code, n.chunk.constants, 0, 0)
                && crate::layout::on_course(crate::vm::Machine::start(n.chunk)),
            Err(_) => true,
        },
{
    let c = Compilation { panic_mode: false, had_error: false, ..Compilation::begin(src) };
    advance_proceeds(c);
    match c.advance() {
        Err(_) => {},
        Ok(c1) => {
            assert(tally(c1) == Some(0int));
            declarations_run(c1);
        },
    }
}

} // verus!
