//! How bytecode is laid out, and what that means for the virtual machine:
//! on code that is laid out well, the machine never reads past the code,
//! never misses a constant and never finds the stack too short. The only
//! errors left are those of the program: operands of the wrong kind, and
//! variables that are not defined.
use vstd::prelude::*;
use crate::chunk::OpCode;
use crate::debug::has_operand;
use crate::number::Number;
use crate::token::LiteralView;
use crate::vm::{stack_effect, undefined_variable, Machine};

verus! {

/// How many values an instruction needs on the stack.
pub open spec fn takes_values(op: OpCode) -> nat {
    match op {
        OpCode::OpPop | OpCode::OpDefineGlobal | OpCode::OpSetGlobal | OpCode::OpNot
        | OpCode::OpNegate | OpCode::OpPrint => 1,
        OpCode::OpEqual | OpCode::OpGreater | OpCode::OpLess | OpCode::OpAdd
        | OpCode::OpSubtract | OpCode::OpMultiply | OpCode::OpDivide => 2,
        _ => 0,
    }
}

/// Whether the operand of an instruction is the index of a constant, and,
/// for an instruction on a global variable, of a name.
pub open spec fn operand_ok(op: OpCode, operand: u8, constants: Seq<LiteralView>) -> bool {
    operand < constants.len() && (op != OpCode::OpConstant ==> constants[operand as int] is String)
}

/// How many bytes an instruction takes.
pub open spec fn width(op: OpCode) -> int {
    if has_operand(op) {
        2
    } else {
        1
    }
}

/// The number of values on the stack after the code from `offset` on, when
/// `depth` values are on it before: each instruction finds its operand and
/// the values it needs. Code that is not laid out so has no such number.
/// Code in the making holds no `OpReturn`.
pub open spec fn laid(code: Seq<u8>, constants: Seq<LiteralView>, offset: int, depth: int) -> Option<
    int,
>
    decreases code.len() - offset,
{
    if offset < 0 || offset > code.len() {
        None
    } else if offset == code.len() {
        Some(depth)
    } else {
        match OpCode::decode(code[offset]) {
            None => None,
            Some(op) => if op == OpCode::OpReturn || depth < takes_values(op) {
                None
            } else if has_operand(op) {
                if offset + 1 < code.len() && operand_ok(op, code[offset + 1], constants) {
                    laid(code, constants, offset + 2, depth + stack_effect(op))
                } else {
                    None
                }
            } else {
                laid(code, constants, offset + 1, depth + stack_effect(op))
            },
        }
    }
}

/// Whether the code from `offset` on can run with `depth` values on the
/// stack: each instruction finds its operand and the values it needs, up
/// to an `OpReturn`.
pub open spec fn runs(code: Seq<u8>, constants: Seq<LiteralView>, offset: int, depth: int) -> bool
    decreases code.len() - offset,
{
    0 <= offset < code.len() && match OpCode::decode(code[offset]) {
        None => false,
        Some(op) => op == OpCode::OpReturn || (depth >= takes_values(op) && if has_operand(op) {
            offset + 1 < code.len() && operand_ok(op, code[offset + 1], constants) && runs(
                code,
                constants,
                offset + 2,
                depth + stack_effect(op),
            )
        } else {
            runs(code, constants, offset + 1, depth + stack_effect(op))
        }),
    }
}

/// Whether a list of constants starts with another.
pub open spec fn starts_with(longer: Seq<LiteralView>, list: Seq<LiteralView>) -> bool {
    list.len() <= longer.len() && forall|i: int| 0 <= i < list.len() ==> longer[i] == list[i]
}

/// Code that is laid out stays laid out when more code and more constants
/// follow: laying out the longer code comes to where the code ended, with
/// as many values on the stack.
pub proof fn laid_extends(
    code: Seq<u8>,
    constants: Seq<LiteralView>,
    more: Seq<u8>,
    longer: Seq<LiteralView>,
    offset: int,
    depth: int,
)
    requires
        laid(code, constants, offset, depth) is Some,
        starts_with(longer, constants),
    ensures
        laid(code + more, longer, offset, depth) == laid(
            code + more,
            longer,
            code.len() as int,
            laid(code, constants, offset, depth)->0,
        ),
    decreases code.len() - offset,
{
    let all = code + more;
    if offset < code.len() {
        assert(all[offset] == code[offset]);
        let op = OpCode::decode(code[offset])->0;
        if has_operand(op) {
            assert(all[offset + 1] == code[offset + 1]);
            laid_extends(code, constants, more, longer, offset + 2, depth + stack_effect(op));
        } else {
            laid_extends(code, constants, more, longer, offset + 1, depth + stack_effect(op));
        }
    }
}

/// Code that is laid out and ends with `OpReturn` can run.
pub proof fn laid_runs(code: Seq<u8>, constants: Seq<LiteralView>, offset: int, depth: int)
    requires
        laid(code, constants, offset, depth) is Some,
    ensures
        runs(code.push(OpCode::OpReturn.byte()), constants, offset, depth),
    decreases code.len() - offset,
{
    let all = code.push(OpCode::OpReturn.byte());
    if offset < code.len() {
        assert(all[offset] == code[offset]);
        let op = OpCode::decode(code[offset])->0;
        if has_operand(op) {
            assert(all[offset + 1] == code[offset + 1]);
            laid_runs(code, constants, offset + 2, depth + stack_effect(op));
        } else {
            laid_runs(code, constants, offset + 1, depth + stack_effect(op));
        }
    } else {
        assert(all[offset] == OpCode::OpReturn.byte());
    }
}

/// Whether a machine is on course: its code can run from where it stands,
/// with the values that are on the stack, or will be once the host has
/// answered.
pub open spec fn on_course(m: Machine) -> bool {
    &&& m.chunk.lines.len() == m.chunk.code.len()
    &&& runs(
        m.chunk.code,
        m.chunk.constants,
        m.ip as int,
        m.stack.len() + if m.pending is Some {
            1int
        } else {
            0int
        },
    )
}

/// Whether a message is that of an error of the program.
pub open spec fn program_error(message: Seq<char>) -> bool {
    message == "Operands must be numbers."@ || message == "Operand must be a number."@ || message
        == "Operands must be two numbers or two strings."@ || exists|name: Seq<char>|
        message == undefined_variable(name)
}

/// A machine on course stays on course by every step that is no error,
/// and an error can only be one of the program.
pub proof fn step_stays_on_course(m: Machine)
    requires
        on_course(m),
    ensures
        m.step().outcome is Ok ==> on_course(m.step().next),
        m.step().outcome is Err ==> program_error(m.step().outcome->Err_0.message),
{
    if m.pending is None {
        let op = OpCode::decode(m.chunk.code[m.ip as int])->0;
        let fetched = Machine { line: m.chunk.lines[m.ip as int], ip: m.ip + 1, ..m };
        if has_operand(op) {
            let index = m.chunk.code[m.ip as int + 1];
            if op != OpCode::OpConstant {
                let name = m.chunk.constants[index as int]->String_0;
                assert(undefined_variable(name) == undefined_variable(name));
            }
        }
    }
}

/// The answer of the host keeps a machine on course.
pub proof fn supply_stays_on_course(m: Machine, n: Number)
    requires
        on_course(m),
    ensures
        on_course(m.supply(n)),
{
}

/// A machine that starts on code that can run is on course.
pub proof fn start_is_on_course(chunk: crate::chunk::ChunkView)
    requires
        chunk.lines.len() == chunk.code.len(),
        runs(chunk.code, chunk.constants, 0, 0),
    ensures
        on_course(Machine::start(chunk)),
{
}

} // verus!
