//! A disassembler: the instructions of a chunk as text, one per line.
use vstd::prelude::*;
use crate::chunk::{Chunk, ChunkView, OpCode};
use crate::error::{ErrorView, RuntimeError};
use crate::text::{decimal, push_decimal, push_text};
use crate::token::{Literal, LiteralView};

verus! {

/// `count` times the character.
pub open spec fn repeated(c: char, count: nat) -> Seq<char> {
    Seq::new(count, |i: int| c)
}

/// A number in at least four digits, with zeros in front where it has
/// fewer.
pub open spec fn four_digits(n: nat) -> Seq<char> {
    if decimal(n).len() < 4 {
        repeated('0', (4 - decimal(n).len()) as nat) + decimal(n)
    } else {
        decimal(n)
    }
}

/// A name in at least sixteen characters, with spaces behind it where it
/// has fewer.
pub open spec fn sixteen_wide(name: Seq<char>) -> Seq<char> {
    if name.len() < 16 {
        name + repeated(' ', (16 - name.len()) as nat)
    } else {
        name
    }
}

/// The name of an instruction.
pub open spec fn mnemonic(op: OpCode) -> Seq<char> {
    match op {
        OpCode::OpConstant => "OpConstant"@,
        OpCode::OpNil => "OpNil"@,
        OpCode::OpTrue => "OpTrue"@,
        OpCode::OpFalse => "OpFalse"@,
        OpCode::OpPop => "OpPop"@,
        OpCode::OpDefineGlobal => "OpDefineGlobal"@,
        OpCode::OpGetGlobal => "OpGetGlobal"@,
        OpCode::OpSetGlobal => "OpSetGlobal"@,
        OpCode::OpEqual => "OpEqual"@,
        OpCode::OpGreater => "OpGreater"@,
        OpCode::OpLess => "OpLess"@,
        OpCode::OpAdd => "OpAdd"@,
        OpCode::OpSubtract => "OpSubtract"@,
        OpCode::OpMultiply => "OpMultiply"@,
        OpCode::OpDivide => "OpDivide"@,
        OpCode::OpNot => "OpNot"@,
        OpCode::OpNegate => "OpNegate"@,
        OpCode::OpPrint => "OpPrint"@,
        OpCode::OpReturn => "OpReturn"@,
    }
}

/// Whether an operand byte follows the instruction: the index of a
/// constant.
pub open spec fn has_operand(op: OpCode) -> bool {
    op == OpCode::OpConstant || op == OpCode::OpDefineGlobal || op == OpCode::OpGetGlobal || op
        == OpCode::OpSetGlobal
}

/// A constant as the listing shows it: as the source writes it, a string
/// without its quotes.
pub open spec fn constant_text(constant: LiteralView) -> Seq<char> {
    match constant {
        LiteralView::Nil => "nil"@,
        LiteralView::Bool(b) => if b {
            "true"@
        } else {
            "false"@
        },
        LiteralView::Number(digits) => digits,
        LiteralView::String(text) => text,
    }
}

/// The start of a line of the listing: the offset, then the source line,
/// or a bar where the line is that of the byte before.
pub open spec fn margin(chunk: ChunkView, offset: int) -> Seq<char> {
    four_digits(offset as nat) + " "@ + if offset > 0 && chunk.lines[offset] == chunk.lines[offset
        - 1] {
        "   | "@
    } else {
        four_digits(chunk.lines[offset] as nat) + " "@
    }
}

/// The line of the listing for the instruction at an offset, and the
/// offset of the instruction after it.
pub open spec fn listed(chunk: ChunkView, offset: int) -> Result<(Seq<char>, int), ErrorView> {
    if !(0 <= offset < chunk.code.len() && offset < chunk.lines.len()) {
        Err(ErrorView { line: 0, message: "Failed to get line for "@ + decimal(offset as nat) })
    } else {
        match OpCode::decode(chunk.code[offset]) {
            None => Ok(
                (
                    margin(chunk, offset) + "Unknown opcode "@ + decimal(chunk.code[offset] as nat),
                    offset + 1,
                ),
            ),
            Some(op) => if has_operand(op) {
                if offset + 1 < chunk.code.len() && chunk.code[offset + 1]
                    < chunk.constants.len() {
                    Ok(
                        (
                            margin(chunk, offset) + sixteen_wide(mnemonic(op)) + " "@ + four_digits(
                                chunk.code[offset + 1] as nat,
                            ) + " '"@ + constant_text(
                                chunk.constants[chunk.code[offset + 1] as int],
                            ) + "'"@,
                            offset + 2,
                        ),
                    )
                } else {
                    Err(
                        ErrorView {
                            line: chunk.lines[offset],
                            message: "Failed to get constant"@,
                        },
                    )
                }
            } else {
                Ok((margin(chunk, offset) + mnemonic(op), offset + 1))
            },
        }
    }
}

/// The first line of a listing: the name between `==`.
pub open spec fn heading(name: Seq<char>) -> Seq<char> {
    "== "@ + name + " =="@
}

/// The lines of the listing from an offset on.
pub open spec fn listing(chunk: ChunkView, offset: int) -> Result<Seq<Seq<char>>, ErrorView>
    decreases chunk.code.len() - offset,
{
    if offset < 0 || offset >= chunk.code.len() {
        Ok(Seq::empty())
    } else {
        match listed(chunk, offset) {
            Err(error) => Err(error),
            Ok((line, next)) => if offset < next <= chunk.code.len() {
                match listing(chunk, next) {
                    Err(error) => Err(error),
                    Ok(rest) => Ok(seq![line] + rest),
                }
            } else if next > chunk.code.len() {
                Ok(seq![line])
            } else {
                Err(ErrorView { line: 0, message: Seq::empty() })
            },
        }
    }
}

fn push_repeated(text: &mut String, c: char, count: usize)
    ensures
        final(text)@ == old(text)@ + repeated(c, count as nat),
{
    let mut i: usize = 0;
    while i < count
        invariant
            i <= count,
            text@ == old(text)@ + repeated(c, i as nat),
        decreases count - i,
    {
        text.push(c);
        i += 1;
        assert(text@ =~= old(text)@ + repeated(c, i as nat));
    }
}

fn push_four_digits(text: &mut String, n: usize)
    ensures
        final(text)@ == old(text)@ + four_digits(n as nat),
{
    let mut digits = String::new();
    push_decimal(&mut digits, n);
    assert(digits@ =~= decimal(n as nat));
    let width = crate::text::chars_of(digits.as_str()).len();
    if width < 4 {
        push_repeated(text, '0', 4 - width);
    }
    push_text(text, digits.as_str());
    assert(text@ =~= old(text)@ + four_digits(n as nat));
}

fn push_sixteen_wide(text: &mut String, name: &str)
    ensures
        final(text)@ == old(text)@ + sixteen_wide(name@),
{
    let width = crate::text::chars_of(name).len();
    push_text(text, name);
    if width < 16 {
        push_repeated(text, ' ', 16 - width);
    }
    assert(text@ =~= old(text)@ + sixteen_wide(name@));
}

fn name_of(op: OpCode) -> (name: &'static str)
    ensures
        name@ == mnemonic(op),
{
    match op {
        OpCode::OpConstant => "OpConstant",
        OpCode::OpNil => "OpNil",
        OpCode::OpTrue => "OpTrue",
        OpCode::OpFalse => "OpFalse",
        OpCode::OpPop => "OpPop",
        OpCode::OpDefineGlobal => "OpDefineGlobal",
        OpCode::OpGetGlobal => "OpGetGlobal",
        OpCode::OpSetGlobal => "OpSetGlobal",
        OpCode::OpEqual => "OpEqual",
        OpCode::OpGreater => "OpGreater",
        OpCode::OpLess => "OpLess",
        OpCode::OpAdd => "OpAdd",
        OpCode::OpSubtract => "OpSubtract",
        OpCode::OpMultiply => "OpMultiply",
        OpCode::OpDivide => "OpDivide",
        OpCode::OpNot => "OpNot",
        OpCode::OpNegate => "OpNegate",
        OpCode::OpPrint => "OpPrint",
        OpCode::OpReturn => "OpReturn",
    }
}

pub struct Disassemble {}

impl Disassemble {
    /// The listing of a chunk: a heading with the name, then a line for each
    /// instruction.
    pub fn chunk(chunk: &Chunk, name: &str) -> (r: Result<Vec<String>, RuntimeError>)
        ensures
            match r {
                Ok(lines) => listing(chunk@, 0) is Ok && lines.deep_view() == seq![
                    heading(name@),
                ] + listing(chunk@, 0)->Ok_0,
                Err(error) => listing(chunk@, 0) == Err::<Seq<Seq<char>>, ErrorView>(error@),
            },
    {
        let mut lines: Vec<String> = Vec::new();
        let mut offset: usize = 0;
        let mut title = "== ".to_owned();
        push_text(&mut title, name);
        push_text(&mut title, " ==");
        lines.push(title);
        assert(lines.deep_view() =~= seq![heading(name@)]);
        while offset < chunk.size()
            invariant
                match listing(chunk@, offset as int) {
                    Ok(rest) => listing(chunk@, 0) is Ok && seq![heading(name@)] + listing(
                        chunk@,
                        0,
                    )->Ok_0 == lines.deep_view() + rest,
                    Err(error) => listing(chunk@, 0) == Err::<Seq<Seq<char>>, ErrorView>(error),
                },
            decreases chunk@.code.len() - offset,
        {
            let ghost before = lines.deep_view();
            let (line, next) = Self::instruction(chunk, offset)?;
            lines.push(line);
            proof {
                assert(lines.deep_view() =~= before.push(line@));
                match listing(chunk@, next as int) {
                    Ok(rest) => {
                        assert(before.push(line@) + rest =~= before + (seq![line@] + rest));
                    },
                    Err(_) => {},
                }
                if next > chunk@.code.len() {
                    assert(before.push(line@) =~= before + seq![line@]);
                }
            }
            offset = next;
        }
        proof {
            assert(lines.deep_view() + Seq::<Seq<char>>::empty() =~= lines.deep_view());
        }
        Ok(lines)
    }

    /// The line of the listing for the instruction at an offset, and the
    /// offset of the instruction after it.
    pub fn instruction(chunk: &Chunk, offset: usize) -> (r: Result<(String, usize), RuntimeError>)
        ensures
            match r {
                Ok((line, next)) => listed(chunk@, offset as int) == Ok::<
                    (Seq<char>, int),
                    ErrorView,
                >((line@, next as int)) && next > offset,
                Err(error) => listed(chunk@, offset as int) == Err::<(Seq<char>, int), ErrorView>(
                    error@,
                ),
            },
    {
        let (byte, line) = match (chunk.byte_at(offset), chunk.line_at(offset)) {
            (Some(byte), Some(line)) => (byte, line),
            _ => {
                let mut message = "Failed to get line for ".to_owned();
                push_decimal(&mut message, offset);
                return Err(RuntimeError::new(0, message.as_str()));
            },
        };
        let mut text = String::new();
        push_four_digits(&mut text, offset);
        push_text(&mut text, " ");
        let same = offset > 0 && chunk.line_at(offset - 1) == Some(line);
        if same {
            push_text(&mut text, "   | ");
        } else {
            push_four_digits(&mut text, line);
            push_text(&mut text, " ");
        }
        assert(text@ =~= margin(chunk@, offset as int));
        match OpCode::from_u8(byte) {
            None => {
                push_text(&mut text, "Unknown opcode ");
                push_decimal(&mut text, byte as usize);
                Ok((text, offset + 1))
            },
            Some(op) => match op {
                OpCode::OpConstant
                | OpCode::OpDefineGlobal
                | OpCode::OpGetGlobal
                | OpCode::OpSetGlobal => Self::constant_instruction(
                    name_of(op),
                    chunk,
                    offset,
                    text,
                    line,
                ),
                _ => Ok(Self::simple_instruction(name_of(op), offset, text)),
            },
        }
    }

    fn constant_instruction(
        name: &str,
        chunk: &Chunk,
        offset: usize,
        margin: String,
        line: usize,
    ) -> (r: Result<(String, usize), RuntimeError>)
        requires
            offset < chunk@.code.len(),
        ensures
            match r {
                Ok((text, next)) => offset + 1 < chunk@.code.len() && chunk@.code[offset + 1]
                    < chunk@.constants.len() && text@ == margin@ + sixteen_wide(name@) + " "@
                    + four_digits(chunk@.code[offset + 1] as nat) + " '"@ + constant_text(
                    chunk@.constants[chunk@.code[offset + 1] as int],
                ) + "'"@ && next == offset + 2,
                Err(error) => !(offset + 1 < chunk@.code.len() && chunk@.code[offset + 1]
                    < chunk@.constants.len()) && error@ == (ErrorView {
                    line,
                    message: "Failed to get constant"@,
                }),
            },
    {
        let size = chunk.size();
        let found = match chunk.byte_at(offset + 1) {
            Some(index) => match chunk.constant_at(index as usize) {
                Some(constant) => Some((index, constant)),
                None => None,
            },
            None => None,
        };
        match found {
            Some((index, constant)) => {
                let mut text = margin;
                push_sixteen_wide(&mut text, name);
                push_text(&mut text, " ");
                push_four_digits(&mut text, index as usize);
                push_text(&mut text, " '");
                match constant {
                    Literal::Nil => push_text(&mut text, "nil"),
                    Literal::Bool(b) => if *b {
                        push_text(&mut text, "true")
                    } else {
                        push_text(&mut text, "false")
                    },
                    Literal::Number(digits) => push_text(&mut text, digits.as_str()),
                    Literal::String(value) => push_text(&mut text, value.as_str()),
                }
                push_text(&mut text, "'");
                Ok((text, offset + 2))
            },
            None => Err(RuntimeError::new(line, "Failed to get constant")),
        }
    }

    fn simple_instruction(name: &str, offset: usize, margin: String) -> (r: (String, usize))
        requires
            offset < usize::MAX,
        ensures
            r.0@ == margin@ + name@,
            r.1 == offset + 1,
    {
        let mut text = margin;
        push_text(&mut text, name);
        (text, offset + 1)
    }
}

} // verus!
