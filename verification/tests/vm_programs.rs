use rlox::error::RLoxError;
use rlox::number::{Number, NumberRequest};
use rlox::value::Shown;
use rlox::vm::{Signal, VM};

fn answer(request: &NumberRequest) -> Number {
    let f = |n: &Number| f64::from_bits(n.to_bits());
    let value = match request {
        NumberRequest::Parse(text) => text.parse::<f64>().unwrap(),
        NumberRequest::Add(a, b) => f(a) + f(b),
        NumberRequest::Subtract(a, b) => f(a) - f(b),
        NumberRequest::Multiply(a, b) => f(a) * f(b),
        NumberRequest::Divide(a, b) => f(a) / f(b),
        NumberRequest::Clock => 0.0,
    };
    Number::from_bits(value.to_bits())
}

/// Runs a program on the virtual machine: what it printed, line by line,
/// and the runtime error that ended it, if one did.
fn run(source: &str) -> (Vec<String>, Option<String>) {
    let loaded = VM::interpret(source).expect("no lexical error");
    let mut vm = loaded.machine.expect("no compile error");
    let mut printed = Vec::new();
    loop {
        match vm.run() {
            Ok(Signal::Continue) => {}
            Ok(Signal::Print(value)) => printed.push(match value.show() {
                Shown::Text(text) => text,
                Shown::Number(n) => format!("{}", f64::from_bits(n.to_bits())),
            }),
            Ok(Signal::Number(request)) => vm.supply(answer(&request)),
            Ok(Signal::Halt) => return (printed, None),
            Err(error) => return (printed, Some(error.diagnostic())),
        }
    }
}

#[test]
fn prints_a_sum() {
    assert_eq!(run("print 1 + 2;"), (vec!["3".to_string()], None));
}

#[test]
fn concatenates_strings_through_a_global() {
    assert_eq!(
        run("var a = \"hi\"; print a + \" there\";"),
        (vec!["hi there".to_string()], None)
    );
}

#[test]
fn subtracting_from_a_string_is_a_runtime_error() {
    assert_eq!(
        run("print \"a\" - 1;"),
        (vec![], Some("Operands must be numbers.\n[line 1]".to_string()))
    );
}

#[test]
fn arithmetic_follows_precedence() {
    assert_eq!(run("print 1 + 2 * 3;"), (vec!["7".to_string()], None));
    assert_eq!(run("print (1 + 2) * 3;"), (vec!["9".to_string()], None));
    assert_eq!(run("print 10 - 4 - 3;"), (vec!["3".to_string()], None));
    assert_eq!(run("print 7 / 2;"), (vec!["3.5".to_string()], None));
    assert_eq!(run("print -3 + 1;"), (vec!["-2".to_string()], None));
    assert_eq!(run("print --3;"), (vec!["3".to_string()], None));
}

#[test]
fn comparisons_and_equality() {
    assert_eq!(run("print 1 < 2;"), (vec!["true".to_string()], None));
    assert_eq!(run("print 2 <= 2;"), (vec!["true".to_string()], None));
    assert_eq!(run("print 2 > 3;"), (vec!["false".to_string()], None));
    assert_eq!(run("print 3 >= 4;"), (vec!["false".to_string()], None));
    assert_eq!(run("print 1 == 1;"), (vec!["true".to_string()], None));
    assert_eq!(run("print 1 != 1;"), (vec!["false".to_string()], None));
    assert_eq!(run("print \"a\" == \"a\";"), (vec!["true".to_string()], None));
    assert_eq!(run("print \"a\" == \"b\";"), (vec!["false".to_string()], None));
    assert_eq!(run("print nil == nil;"), (vec!["true".to_string()], None));
    assert_eq!(run("print nil == false;"), (vec!["false".to_string()], None));
    assert_eq!(run("print 0 == -0;"), (vec!["true".to_string()], None));
    assert_eq!(run("print 0 / 0 == 0 / 0;"), (vec!["false".to_string()], None));
}

#[test]
fn not_follows_truthiness() {
    assert_eq!(run("print !nil;"), (vec!["true".to_string()], None));
    assert_eq!(run("print !false;"), (vec!["true".to_string()], None));
    assert_eq!(run("print !0;"), (vec!["false".to_string()], None));
    assert_eq!(run("print !\"\";"), (vec!["false".to_string()], None));
    assert_eq!(run("print !!nil;"), (vec!["false".to_string()], None));
    assert_eq!(run("print !!1;"), (vec!["true".to_string()], None));
}

#[test]
fn globals_are_defined_read_and_assigned() {
    assert_eq!(
        run("var a = 1; var b; print b; a = a + 1; print a; print a = 5; print a;"),
        (
            vec!["nil".to_string(), "2".to_string(), "5".to_string(), "5".to_string()],
            None
        )
    );
}

#[test]
fn reading_an_undefined_global_is_a_runtime_error() {
    assert_eq!(
        run("print 1;\nprint x;"),
        (vec!["1".to_string()], Some("Undefined variable 'x'.\n[line 2]".to_string()))
    );
}

#[test]
fn assigning_an_undefined_global_does_not_create_it() {
    assert_eq!(
        run("x = 1;"),
        (vec![], Some("Undefined variable 'x'.\n[line 1]".to_string()))
    );
}

#[test]
fn adding_a_number_and_a_string_is_a_runtime_error() {
    assert_eq!(
        run("print 1 + \"a\";"),
        (vec![], Some("Operands must be two numbers or two strings.\n[line 1]".to_string()))
    );
}

#[test]
fn negating_a_string_is_a_runtime_error() {
    assert_eq!(
        run("\n\nprint -\"a\";"),
        (vec![], Some("Operand must be a number.\n[line 3]".to_string()))
    );
}

#[test]
fn a_lexical_error_ends_the_compilation() {
    match VM::interpret("print 1;\n@") {
        Err(RLoxError::TokenError(error)) => {
            assert_eq!(error.line, 2);
            assert_eq!(error.message, "Unexpected character.");
            assert_eq!(error.to_text(), "Line 2 - Token error: Unexpected character.");
        }
        _ => panic!("expected a token error"),
    }
    match VM::interpret("print \"abc\n\n") {
        Err(RLoxError::TokenError(error)) => {
            assert_eq!(error.line, 3);
            assert_eq!(error.message, "Unterminated string.");
        }
        _ => panic!("expected a token error"),
    }
}

#[test]
fn a_syntax_error_is_reported_and_nothing_runs() {
    let loaded = VM::interpret("print 1 +;\nvar = 2;\nprint 3").unwrap();
    assert!(loaded.machine.is_none());
    let messages: Vec<String> = loaded.diagnostics.iter().map(|d| d.to_text()).collect();
    assert_eq!(
        messages,
        vec![
            "[line 1] Error at ';': Expect expression.".to_string(),
            "[line 2] Error at '=': Expect variable name.".to_string(),
            "[line 3] Error at end: Expect ';' after value.".to_string(),
        ]
    );
}

#[test]
fn an_invalid_assignment_target_is_reported() {
    let loaded = VM::interpret("var a; var b; a + b = 3;").unwrap();
    assert!(loaded.machine.is_none());
    let messages: Vec<String> = loaded.diagnostics.iter().map(|d| d.to_text()).collect();
    assert_eq!(messages, vec!["[line 1] Error at '=': Invalid assignment target.".to_string()]);
}
