use rlox::chunk::{Chunk, OpCode};
use rlox::compiler::{get_rule, Compiler, ParseFn, Precedence};
use rlox::debug::Disassemble;
use rlox::error::{CompilerError, RLoxError, RuntimeError, TokenError};
use rlox::number::{Number, NumberRequest};
use rlox::token::{Literal, TokenType};
use rlox::value::{Obj, Shown, Value};
use rlox::vm::{Signal, VM};
use std::rc::Rc;

fn compiled(source: &str) -> (Vec<u8>, Vec<usize>, Vec<String>) {
    let mut compiler = Compiler::new(source);
    assert_eq!(compiler.compile().ok(), Some(true));
    let chunk = compiler.chunk();
    let mut code = Vec::new();
    let mut lines = Vec::new();
    for offset in 0..chunk.size() {
        code.push(chunk.byte_at(offset).unwrap());
        lines.push(chunk.line_at(offset).unwrap());
    }
    let mut constants = Vec::new();
    for index in 0..chunk.constant_count() {
        constants.push(match chunk.constant_at(index).unwrap() {
            Literal::Number(digits) => format!("number {}", digits),
            Literal::String(text) => format!("string {}", text),
            Literal::Bool(b) => format!("bool {}", b),
            Literal::Nil => "nil".to_string(),
        });
    }
    (code, lines, constants)
}

const CONSTANT: u8 = 0;
const NIL: u8 = 1;
const TRUE: u8 = 2;
const FALSE: u8 = 3;
const POP: u8 = 4;
const DEFINE_GLOBAL: u8 = 5;
const GET_GLOBAL: u8 = 6;
const SET_GLOBAL: u8 = 7;
const EQUAL: u8 = 8;
const GREATER: u8 = 9;
const LESS: u8 = 10;
const ADD: u8 = 11;
const SUBTRACT: u8 = 12;
const MULTIPLY: u8 = 13;
const DIVIDE: u8 = 14;
const NOT: u8 = 15;
const NEGATE: u8 = 16;
const PRINT: u8 = 17;
const RETURN: u8 = 18;

#[test]
fn opcodes_encode_by_their_place() {
    let all = [
        OpCode::OpConstant,
        OpCode::OpNil,
        OpCode::OpTrue,
        OpCode::OpFalse,
        OpCode::OpPop,
        OpCode::OpDefineGlobal,
        OpCode::OpGetGlobal,
        OpCode::OpSetGlobal,
        OpCode::OpEqual,
        OpCode::OpGreater,
        OpCode::OpLess,
        OpCode::OpAdd,
        OpCode::OpSubtract,
        OpCode::OpMultiply,
        OpCode::OpDivide,
        OpCode::OpNot,
        OpCode::OpNegate,
        OpCode::OpPrint,
        OpCode::OpReturn,
    ];
    for (place, op) in all.iter().enumerate() {
        assert_eq!(op.as_byte() as usize, place);
        assert_eq!(OpCode::from_u8(place as u8), Some(*op));
    }
    assert_eq!(OpCode::from_u8(19), None);
    assert_eq!(OpCode::from_u8(255), None);
}

#[test]
fn a_chunk_keeps_a_line_for_each_byte() {
    let mut chunk = Chunk::new();
    assert_eq!(chunk.size(), 0);
    chunk.write(RETURN, 3);
    chunk.write(NIL, 4);
    assert_eq!(chunk.size(), 2);
    assert_eq!(chunk.byte_at(0), Some(RETURN));
    assert_eq!(chunk.line_at(0), Some(3));
    assert_eq!(chunk.byte_at(1), Some(NIL));
    assert_eq!(chunk.line_at(1), Some(4));
    assert_eq!(chunk.byte_at(2), None);
    assert_eq!(chunk.line_at(2), None);
    assert_eq!(chunk.add_constant(Literal::Number("1".to_string())), 0);
    assert_eq!(chunk.add_constant(Literal::String("a".to_string())), 1);
    assert_eq!(chunk.constant_count(), 2);
    assert!(matches!(chunk.constant_at(1), Some(Literal::String(text)) if text == "a"));
    assert!(chunk.constant_at(2).is_none());
}

#[test]
fn compiles_a_print_of_a_sum() {
    assert_eq!(
        compiled("print 1 + 2;"),
        (
            vec![CONSTANT, 0, CONSTANT, 1, ADD, PRINT, RETURN],
            vec![1, 1, 1, 1, 1, 1, 1],
            vec!["number 1".to_string(), "number 2".to_string()]
        )
    );
}

#[test]
fn compiles_operators_by_precedence() {
    assert_eq!(
        compiled("1 + 2 * 3 - 4 / 5;").0,
        vec![
            CONSTANT, 0, CONSTANT, 1, CONSTANT, 2, MULTIPLY, ADD, CONSTANT, 3, CONSTANT, 4, DIVIDE,
            SUBTRACT, POP, RETURN
        ]
    );
    assert_eq!(
        compiled("(1 + 2) * 3;").0,
        vec![CONSTANT, 0, CONSTANT, 1, ADD, CONSTANT, 2, MULTIPLY, POP, RETURN]
    );
    assert_eq!(compiled("-1 - -2;").0, vec![
        CONSTANT, 0, NEGATE, CONSTANT, 1, NEGATE, SUBTRACT, POP, RETURN
    ]);
    assert_eq!(compiled("!true == false;").0, vec![TRUE, NOT, FALSE, EQUAL, POP, RETURN]);
}

#[test]
fn compiles_comparisons_with_their_opposites() {
    assert_eq!(compiled("1 != 2;").0, vec![CONSTANT, 0, CONSTANT, 1, EQUAL, NOT, POP, RETURN]);
    assert_eq!(compiled("1 >= 2;").0, vec![CONSTANT, 0, CONSTANT, 1, LESS, NOT, POP, RETURN]);
    assert_eq!(compiled("1 <= 2;").0, vec![CONSTANT, 0, CONSTANT, 1, GREATER, NOT, POP, RETURN]);
    assert_eq!(compiled("1 > 2;").0, vec![CONSTANT, 0, CONSTANT, 1, GREATER, POP, RETURN]);
    assert_eq!(compiled("1 < 2;").0, vec![CONSTANT, 0, CONSTANT, 1, LESS, POP, RETURN]);
    assert_eq!(compiled("nil == 1;").0, vec![NIL, CONSTANT, 0, EQUAL, POP, RETURN]);
}

#[test]
fn compiles_globals() {
    assert_eq!(
        compiled("var a = \"x\";\nvar b;\na = b;\nprint a;"),
        (
            vec![
                CONSTANT, 1, DEFINE_GLOBAL, 0, NIL, DEFINE_GLOBAL, 2, GET_GLOBAL, 4, SET_GLOBAL, 3,
                POP, GET_GLOBAL, 5, PRINT, RETURN
            ],
            vec![1, 1, 1, 1, 2, 2, 2, 3, 3, 3, 3, 3, 4, 4, 4, 4],
            vec![
                "string a".to_string(),
                "string x".to_string(),
                "string b".to_string(),
                "string a".to_string(),
                "string b".to_string(),
                "string a".to_string()
            ]
        )
    );
}

#[test]
fn an_empty_source_compiles_to_a_return() {
    assert_eq!(compiled(""), (vec![RETURN], vec![1], vec![]));
    assert_eq!(compiled("\n\n// nothing\n"), (vec![RETURN], vec![4], vec![]));
}

#[test]
fn too_many_constants_are_a_compile_error() {
    let mut source = String::new();
    for i in 0..256 {
        source.push_str(&format!("{};\n", i));
    }
    let mut fits = Compiler::new(&source);
    assert_eq!(fits.compile().ok(), Some(true));
    assert_eq!(fits.chunk().constant_count(), 256);
    source.push_str("256;\n");
    let mut compiler = Compiler::new(&source);
    assert_eq!(compiler.compile().ok(), Some(false));
    assert!(compiler.had_error());
    let messages: Vec<String> = compiler.diagnostics().iter().map(|d| d.to_text()).collect();
    assert_eq!(messages, vec!["[line 257] Error at '256': Too many constants in one chunk."]);
    assert_eq!(compiler.chunk().constant_count(), 256);
}

#[test]
fn panic_mode_reports_one_error_for_each_statement() {
    let mut compiler = Compiler::new("print (1 + ;\nprint );\nprint 3;");
    assert_eq!(compiler.compile().ok(), Some(false));
    let messages: Vec<String> = compiler.diagnostics().iter().map(|d| d.to_text()).collect();
    assert_eq!(
        messages,
        vec![
            "[line 1] Error at ';': Expect expression.",
            "[line 2] Error at ')': Expect expression.",
        ]
    );
}

#[test]
fn the_rules_give_prefix_infix_and_precedence() {
    let minus = get_rule(TokenType::Minus);
    assert_eq!(minus.prefix, Some(ParseFn::Unary));
    assert_eq!(minus.infix, Some(ParseFn::Binary));
    assert_eq!(minus.precedence, Precedence::Term);
    assert_eq!(get_rule(TokenType::Star).precedence, Precedence::Factor);
    assert_eq!(get_rule(TokenType::EqualEqual).precedence, Precedence::Equality);
    assert_eq!(get_rule(TokenType::Less).precedence, Precedence::Comparison);
    assert_eq!(get_rule(TokenType::LeftParen).prefix, Some(ParseFn::Grouping));
    assert_eq!(get_rule(TokenType::Identifier).prefix, Some(ParseFn::Variable));
    assert_eq!(get_rule(TokenType::String).prefix, Some(ParseFn::String));
    assert_eq!(get_rule(TokenType::Number).prefix, Some(ParseFn::Number));
    assert_eq!(get_rule(TokenType::Nil).prefix, Some(ParseFn::Literal));
    let none = get_rule(TokenType::And);
    assert_eq!((none.prefix, none.infix, none.precedence), (None, None, Precedence::Lowest));
    assert_eq!(Precedence::Lowest.as_level(), 0);
    assert_eq!(Precedence::Primary.as_level(), 10);
    assert_eq!(Precedence::from_u8(6), Some(Precedence::Term));
    assert_eq!(Precedence::from_u8(11), None);
}

#[test]
fn the_machine_steps_through_a_chunk_written_by_hand() {
    let mut chunk = Chunk::new();
    let one = chunk.add_constant(Literal::Number("1".to_string())) as u8;
    let name = chunk.add_constant(Literal::String("x".to_string())) as u8;
    for (byte, line) in [
        (CONSTANT, 1),
        (one, 1),
        (DEFINE_GLOBAL, 1),
        (name, 1),
        (200, 2),
        (GET_GLOBAL, 3),
        (name, 3),
        (NOT, 3),
        (PRINT, 3),
        (RETURN, 4),
    ] {
        chunk.write(byte, line);
    }
    let mut vm = VM::new(chunk);
    assert_eq!(vm.depth(), 0);
    match vm.step() {
        Ok(Signal::Number(NumberRequest::Parse(digits))) => assert_eq!(digits, "1"),
        _ => panic!("expected a request"),
    }
    assert!(vm.waiting_for().is_some());
    assert!(matches!(vm.step(), Ok(Signal::Number(NumberRequest::Parse(_)))));
    assert_eq!(vm.offset(), 2);
    vm.supply(Number::from_bits(1.0f64.to_bits()));
    assert!(vm.waiting_for().is_none());
    assert_eq!(vm.depth(), 1);
    vm.supply(Number::from_bits(2.0f64.to_bits()));
    assert_eq!(vm.depth(), 1);
    assert!(matches!(vm.step(), Ok(Signal::Continue)));
    assert_eq!(vm.depth(), 0);
    assert!(matches!(vm.global("x"), Some(Value::Number(n)) if n.to_bits() == 1.0f64.to_bits()));
    assert!(vm.global("y").is_none());
    assert!(matches!(vm.step(), Ok(Signal::Continue)));
    assert_eq!((vm.offset(), vm.line()), (5, 2));
    assert!(matches!(vm.step(), Ok(Signal::Continue)));
    assert!(matches!(vm.peek(0), Some(Value::Number(_))));
    assert!(vm.peek(1).is_none());
    assert!(matches!(vm.step(), Ok(Signal::Continue)));
    assert!(matches!(vm.peek(0), Some(Value::Bool(false))));
    assert!(matches!(vm.step(), Ok(Signal::Print(Value::Bool(false)))));
    assert!(matches!(vm.step(), Ok(Signal::Halt)));
    assert!(matches!(vm.step(), Ok(Signal::Halt)));
    assert_eq!((vm.offset(), vm.line()), (9, 4));
}

#[test]
fn the_machine_reports_broken_bytecode() {
    let mut vm = VM::new(Chunk::new());
    let error = vm.run().unwrap_err();
    assert_eq!((error.line, error.message.as_str()), (0, "End of Stream"));

    let mut chunk = Chunk::new();
    chunk.write(POP, 5);
    let error = VM::new(chunk).run().unwrap_err();
    assert_eq!((error.line, error.message.as_str()), (5, "No value on stack"));

    let mut chunk = Chunk::new();
    chunk.write(CONSTANT, 6);
    chunk.write(3, 6);
    let error = VM::new(chunk).run().unwrap_err();
    assert_eq!((error.line, error.message.as_str()), (6, "Failed to get constant"));

    let mut chunk = Chunk::new();
    chunk.write(CONSTANT, 7);
    let error = VM::new(chunk).run().unwrap_err();
    assert_eq!((error.line, error.message.as_str()), (7, "End of Stream"));

    let mut chunk = Chunk::new();
    chunk.write(TRUE, 1);
    chunk.write(SET_GLOBAL, 8);
    chunk.write(0, 8);
    chunk.add_constant(Literal::Bool(true));
    let error = VM::new(chunk).run().unwrap_err();
    assert_eq!((error.line, error.message.as_str()), (8, "Failed to get constant"));
}

#[test]
fn values_show_and_compare() {
    let text = Value::obj(Obj::String("hi".to_string()));
    assert!(matches!(text.show(), Shown::Text(t) if t == "hi"));
    assert!(matches!(Value::nil().show(), Shown::Text(t) if t == "nil"));
    assert!(matches!(Value::bool_val(true).show(), Shown::Text(t) if t == "true"));
    assert!(matches!(Value::bool_val(false).show(), Shown::Text(t) if t == "false"));
    let seven = Number::from_bits(7.0f64.to_bits());
    assert!(matches!(Value::number(seven).show(), Shown::Number(n) if n.to_bits() == seven.to_bits()));
    assert!(Value::nil().is_falsey());
    assert!(Value::bool_val(false).is_falsey());
    assert!(!Value::bool_val(true).is_falsey());
    assert!(!Value::number(Number::from_bits(0)).is_falsey());
    assert!(!Value::obj(Obj::String(String::new())).is_falsey());
    assert!(text.equals(&text.clone()));
    assert!(text.equals(&Value::obj(Obj::String("hi".to_string()))));
    assert!(!text.equals(&Value::obj(Obj::String("ho".to_string()))));
    assert!(!text.equals(&Value::nil()));
    assert!(Value::nil().equals(&Value::nil()));
    assert!(!Value::bool_val(true).equals(&Value::bool_val(false)));
}

#[test]
fn objects_are_strings() {
    let a = Rc::new(Obj::String("hi".to_string()));
    let b = Rc::new(Obj::String(" there".to_string()));
    assert!(a.is_string());
    assert_eq!(a.as_string(), Some("hi"));
    match Obj::concat_strings(&a, &b) {
        Some(Value::Obj(joined)) => assert_eq!(joined.as_string(), Some("hi there")),
        _ => panic!("expected a string"),
    }
    assert_eq!(a.as_string(), Some("hi"));
}

#[test]
fn errors_are_written_with_their_line_and_kind() {
    let token = TokenError::new(3, "Unexpected character.");
    assert_eq!((token.line, token.message.as_str()), (3, "Unexpected character."));
    assert_eq!(token.to_text(), "Line 3 - Token error: Unexpected character.");
    let runtime = RuntimeError::new(12, "Operands must be numbers.");
    assert_eq!(runtime.to_text(), "Line 12 - Runtime error: Operands must be numbers.");
    assert_eq!(runtime.diagnostic(), "Operands must be numbers.\n[line 12]");
    let compiler = CompilerError::new(0, "Current token is undefined");
    assert_eq!(compiler.to_text(), "Line 0 - Compiler error: Current token is undefined");
    let wrapped: RLoxError = TokenError::new(1000, "x").into();
    assert_eq!(wrapped.to_text(), "Line 1000 - Token error: x");
    let wrapped: RLoxError = RuntimeError::new(7, "y").into();
    assert!(matches!(&wrapped, RLoxError::RuntimeError(e) if e.line == 7));
    assert_eq!(wrapped.to_text(), "Line 7 - Runtime error: y");
    let wrapped = RLoxError::from(CompilerError::new(9, "z"));
    assert_eq!(wrapped.to_text(), "Line 9 - Compiler error: z");
}

#[test]
fn the_listing_shows_each_instruction() {
    let mut compiler = Compiler::new("var a = 1.5;\nprint a + \"x\";");
    assert_eq!(compiler.compile().ok(), Some(true));
    let lines = Disassemble::chunk(compiler.chunk(), "main").unwrap();
    assert_eq!(
        lines,
        vec![
            "== main ==",
            "0000 0001 OpConstant       0001 '1.5'",
            "0002    | OpDefineGlobal   0000 'a'",
            "0004 0002 OpGetGlobal      0002 'a'",
            "0006    | OpConstant       0003 'x'",
            "0008    | OpAdd",
            "0009    | OpPrint",
            "0010    | OpReturn",
        ]
    );
    let (line, next) = Disassemble::instruction(compiler.chunk(), 8).unwrap();
    assert_eq!((line.as_str(), next), ("0008    | OpAdd", 9));
    let error = Disassemble::instruction(compiler.chunk(), 11).unwrap_err();
    assert_eq!((error.line, error.message.as_str()), (0, "Failed to get line for 11"));
    let mut chunk = Chunk::new();
    chunk.write(77, 12345);
    chunk.write(0, 12345);
    let lines = Disassemble::chunk(&chunk, "odd");
    assert_eq!(lines.unwrap_err().message, "Failed to get constant");
    let (line, next) = Disassemble::instruction(&chunk, 0).unwrap();
    assert_eq!((line.as_str(), next), ("0000 12345 Unknown opcode 77", 1));
}
