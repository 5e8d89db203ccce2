//! Bytecode: the instructions, and the chunk that holds them with their
//! constants and source lines.
use vstd::prelude::*;
use crate::token::{Literal, LiteralView};

verus! {

#[derive(Debug, Clone, Copy, PartialEq, Eq, Structural)]
pub enum OpCode {
    OpConstant,
    OpNil,
    OpTrue,
    OpFalse,
    OpPop,
    OpDefineGlobal,
    OpGetGlobal,
    OpSetGlobal,
    OpEqual,
    OpGreater,
    OpLess,
    OpAdd,
    OpSubtract,
    OpMultiply,
    OpDivide,
    OpNot,
    OpNegate,
    OpPrint,
    OpReturn,
}

impl OpCode {
    /// The byte that encodes the instruction: its place in the list above,
    /// counted from 0.
    pub open spec fn byte(self) -> u8 {
        match self {
            OpCode::OpConstant => 0,
            OpCode::OpNil => 1,
            OpCode::OpTrue => 2,
            OpCode::OpFalse => 3,
            OpCode::OpPop => 4,
            OpCode::OpDefineGlobal => 5,
            OpCode::OpGetGlobal => 6,
            OpCode::OpSetGlobal => 7,
            OpCode::OpEqual => 8,
            OpCode::OpGreater => 9,
            OpCode::OpLess => 10,
            OpCode::OpAdd => 11,
            OpCode::OpSubtract => 12,
            OpCode::OpMultiply => 13,
            OpCode::OpDivide => 14,
            OpCode::OpNot => 15,
            OpCode::OpNegate => 16,
            OpCode::OpPrint => 17,
            OpCode::OpReturn => 18,
        }
    }

    /// The instruction that a byte encodes, if it encodes one.
    pub open spec fn decode(byte: u8) -> Option<OpCode> {
        if byte == 0 {
            Some(OpCode::OpConstant)
        } else if byte == 1 {
            Some(OpCode::OpNil)
        } else if byte == 2 {
            Some(OpCode::OpTrue)
        } else if byte == 3 {
            Some(OpCode::OpFalse)
        } else if byte == 4 {
            Some(OpCode::OpPop)
        } else if byte == 5 {
            Some(OpCode::OpDefineGlobal)
        } else if byte == 6 {
            Some(OpCode::OpGetGlobal)
        } else if byte == 7 {
            Some(OpCode::OpSetGlobal)
        } else if byte == 8 {
            Some(OpCode::OpEqual)
        } else if byte == 9 {
            Some(OpCode::OpGreater)
        } else if byte == 10 {
            Some(OpCode::OpLess)
        } else if byte == 11 {
            Some(OpCode::OpAdd)
        } else if byte == 12 {
            Some(OpCode::OpSubtract)
        } else if byte == 13 {
            Some(OpCode::OpMultiply)
        } else if byte == 14 {
            Some(OpCode::OpDivide)
        } else if byte == 15 {
            Some(OpCode::OpNot)
        } else if byte == 16 {
            Some(OpCode::OpNegate)
        } else if byte == 17 {
            Some(OpCode::OpPrint)
        } else if byte == 18 {
            Some(OpCode::OpReturn)
        } else {
            None
        }
    }

    pub fn as_byte(self) -> (byte: u8)
        ensures
            byte == self.byte(),
    {
        match self {
            OpCode::OpConstant => 0,
            OpCode::OpNil => 1,
            OpCode::OpTrue => 2,
            OpCode::OpFalse => 3,
            OpCode::OpPop => 4,
            OpCode::OpDefineGlobal => 5,
            OpCode::OpGetGlobal => 6,
            OpCode::OpSetGlobal => 7,
            OpCode::OpEqual => 8,
            OpCode::OpGreater => 9,
            OpCode::OpLess => 10,
            OpCode::OpAdd => 11,
            OpCode::OpSubtract => 12,
            OpCode::OpMultiply => 13,
            OpCode::OpDivide => 14,
            OpCode::OpNot => 15,
            OpCode::OpNegate => 16,
            OpCode::OpPrint => 17,
            OpCode::OpReturn => 18,
        }
    }

    pub fn from_u8(byte: u8) -> (op: Option<OpCode>)
        ensures
            op == OpCode::decode(byte),
    {
        match byte {
            0 => Some(OpCode::OpConstant),
            1 => Some(OpCode::OpNil),
            2 => Some(OpCode::OpTrue),
            3 => Some(OpCode::OpFalse),
            4 => Some(OpCode::OpPop),
            5 => Some(OpCode::OpDefineGlobal),
            6 => Some(OpCode::OpGetGlobal),
            7 => Some(OpCode::OpSetGlobal),
            8 => Some(OpCode::OpEqual),
            9 => Some(OpCode::OpGreater),
            10 => Some(OpCode::OpLess),
            11 => Some(OpCode::OpAdd),
            12 => Some(OpCode::OpSubtract),
            13 => Some(OpCode::OpMultiply),
            14 => Some(OpCode::OpDivide),
            15 => Some(OpCode::OpNot),
            16 => Some(OpCode::OpNegate),
            17 => Some(OpCode::OpPrint),
            18 => Some(OpCode::OpReturn),
            _ => None,
        }
    }
}

/// Decoding undoes encoding, and a byte decodes to an instruction exactly if
/// it is below 19; that instruction then encodes to the byte.
pub proof fn decode_inverts_byte(op: OpCode, byte: u8)
    ensures
        OpCode::decode(op.byte()) == Some(op),
        OpCode::decode(byte) is Some <==> byte < 19,
        OpCode::decode(byte) is Some ==> OpCode::decode(byte)->0.byte() == byte,
{
}

/// What a chunk holds.
pub struct ChunkView {
    pub code: Seq<u8>,
    pub lines: Seq<usize>,
    pub constants: Seq<LiteralView>,
}

/// A sequence of bytecode with, for each byte, the source line it came
/// from, and the constants that the code refers to by index. Constants are
/// kept as the source writes them.
pub struct Chunk {
    entries: Vec<(u8, usize)>,
    constants: Vec<Literal>,
}

impl View for Chunk {
    type V = ChunkView;

    closed spec fn view(&self) -> ChunkView {
        ChunkView {
            code: Seq::new(self.entries@.len(), |i: int| self.entries@[i].0),
            lines: Seq::new(self.entries@.len(), |i: int| self.entries@[i].1),
            constants: self.constants.deep_view(),
        }
    }
}

impl Chunk {
    pub fn new() -> (chunk: Chunk)
        ensures
            chunk@.code.len() == 0,
            chunk@.lines.len() == 0,
            chunk@.constants.len() == 0,
    {
        Chunk { entries: Vec::new(), constants: Vec::new() }
    }

    /// Every byte has its line.
    pub proof fn lines_match_code(&self)
        ensures
            self@.code.len() == self@.lines.len(),
    {
    }

    /// Appends one byte, which came from the given line.
    pub fn write(&mut self, byte: u8, line: usize)
        ensures
            final(self)@.code == old(self)@.code.push(byte),
            final(self)@.lines == old(self)@.lines.push(line),
            final(self)@.constants == old(self)@.constants,
    {
        self.entries.push((byte, line));
        assert(self@.code =~= old(self)@.code.push(byte));
        assert(self@.lines =~= old(self)@.lines.push(line));
    }

    /// Appends a constant and returns its index.
    pub fn add_constant(&mut self, value: Literal) -> (index: usize)
        ensures
            index == old(self)@.constants.len(),
            final(self)@.constants == old(self)@.constants.push(value@),
            final(self)@.code == old(self)@.code,
            final(self)@.lines == old(self)@.lines,
    {
        self.constants.push(value);
        assert(self@.constants =~= old(self)@.constants.push(value@));
        self.constants.len() - 1
    }

    /// The number of bytes of code.
    pub fn size(&self) -> (n: usize)
        ensures
            n == self@.code.len(),
            n == self@.lines.len(),
    {
        self.entries.len()
    }

    /// The number of constants.
    pub fn constant_count(&self) -> (n: usize)
        ensures
            n == self@.constants.len(),
    {
        assert(self.constants.deep_view().len() == self.constants@.len());
        self.constants.len()
    }

    /// The byte at an offset, if the code is that long.
    pub fn byte_at(&self, offset: usize) -> (byte: Option<u8>)
        ensures
            byte == if offset < self@.code.len() {
                Some(self@.code[offset as int])
            } else {
                None
            },
            self@.code.len() <= usize::MAX,
    {
        if offset < self.entries.len() {
            Some(self.entries[offset].0)
        } else {
            None
        }
    }

    /// The source line of the byte at an offset, if the code is that long.
    pub fn line_at(&self, offset: usize) -> (line: Option<usize>)
        ensures
            line == if offset < self@.lines.len() {
                Some(self@.lines[offset as int])
            } else {
                None
            },
    {
        if offset < self.entries.len() {
            Some(self.entries[offset].1)
        } else {
            None
        }
    }

    /// The constant at an index, if there are that many.
    pub fn constant_at(&self, index: usize) -> (constant: Option<&Literal>)
        ensures
            match constant {
                Some(c) => index < self@.constants.len() && c@ == self@.constants[index as int],
                None => index >= self@.constants.len(),
            },
    {
        assert(self.constants.deep_view().len() == self.constants@.len());
        if index < self.constants.len() {
            assert(self.constants.deep_view()[index as int] == self.constants@[index as int]@);
            Some(&self.constants[index])
        } else {
            None
        }
    }
}

} // verus!
