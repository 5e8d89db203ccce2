use rlox::ast_parser::AstParser;
use rlox::interpreter::{Event, Interpreter};
use rlox::number::{Number, NumberRequest};
use rlox::resolver::Resolver;
use rlox::scanner::Scanner;
use rlox::value::Shown;

fn answer(request: &NumberRequest) -> Number {
    let f = |n: &Number| f64::from_bits(n.to_bits());
    let value = match request {
        NumberRequest::Parse(text) => text.parse::<f64>().unwrap(),
        NumberRequest::Add(a, b) => f(a) + f(b),
        NumberRequest::Subtract(a, b) => f(a) - f(b),
        NumberRequest::Multiply(a, b) => f(a) * f(b),
        NumberRequest::Divide(a, b) => f(a) / f(b),
        NumberRequest::Clock => 1234.5,
    };
    Number::from_bits(value.to_bits())
}

/// Runs a program on the tree walker: what it printed, line by line, and
/// the runtime error that ended it, if one did.
fn walk(source: &str) -> (Vec<String>, Option<String>) {
    let mut scanner = Scanner::new(source);
    let scan = scanner.scan_tokens();
    assert!(scan.errors.is_empty(), "lexical errors");
    let mut parser = AstParser::new(scan.tokens);
    let statements = parser.parse();
    let messages: Vec<String> = parser.diagnostics().iter().map(|d| d.to_text()).collect();
    assert_eq!(messages, Vec::<String>::new());
    let mut resolver = Resolver::new();
    if let Err(error) = resolver.resolve_statements(&statements) {
        panic!("{}", error.to_text());
    }
    let mut interpreter = Interpreter::new();
    interpreter.adopt(resolver.into_locals());
    interpreter.interpret(&statements);
    let mut printed = Vec::new();
    let mut steps = 0u64;
    loop {
        steps += 1;
        assert!(steps < 10_000_000, "the program does not end");
        match interpreter.step() {
            Ok(Event::Continue) => {}
            Ok(Event::Print(shown)) => printed.push(match shown {
                Shown::Text(text) => text,
                Shown::Number(n) => format!("{}", f64::from_bits(n.to_bits())),
            }),
            Ok(Event::Number(request)) => interpreter.supply(answer(&request)),
            Ok(Event::Done) => return (printed, None),
            Err(error) => return (printed, Some(error.diagnostic())),
        }
    }
}

fn lines(expected: &[&str]) -> Vec<String> {
    expected.iter().map(|s| s.to_string()).collect()
}

#[test]
fn walker_prints_a_sum() {
    assert_eq!(walk("print 1 + 2;"), (lines(&["3"]), None));
}

#[test]
fn walker_concatenates_strings() {
    assert_eq!(walk("var a = \"hi\"; print a + \" there\";"), (lines(&["hi there"]), None));
}

#[test]
fn walker_counts_in_a_while_loop() {
    assert_eq!(
        walk("var i = 0; while (i < 3) { print i; i = i + 1; }"),
        (lines(&["0", "1", "2"]), None)
    );
}

#[test]
fn walker_computes_fibonacci_by_recursion() {
    assert_eq!(
        walk("fun f(n) { if (n <= 1) return n; return f(n-1) + f(n-2); } print f(10);"),
        (lines(&["55"]), None)
    );
}

#[test]
fn walker_closure_keeps_its_variable() {
    assert_eq!(
        walk(
            "fun makeCounter() { var i = 0; fun c() { i = i + 1; return i; } return c; }\n\
             var c = makeCounter(); print c(); print c(); print c();"
        ),
        (lines(&["1", "2", "3"]), None)
    );
}

#[test]
fn walker_binds_a_closure_to_the_declaration_site() {
    assert_eq!(
        walk("var a = \"global\"; { fun show() { print a; } show(); var a = \"local\"; show(); }"),
        (lines(&["global", "global"]), None)
    );
}

#[test]
fn walker_reports_operands_that_are_no_numbers() {
    assert_eq!(
        walk("print \"a\" - 1;"),
        (vec![], Some("Operands must be numbers.\n[line 1]".to_string()))
    );
}

#[test]
fn walker_runs_a_for_loop() {
    assert_eq!(
        walk("for (var i = 0; i < 3; i = i + 1) print i * 2;"),
        (lines(&["0", "2", "4"]), None)
    );
    assert_eq!(
        walk("var i = 0; for (; i < 2;) { print i; i = i + 1; } print i;"),
        (lines(&["0", "1", "2"]), None)
    );
}

#[test]
fn walker_short_circuits_and_returns_the_deciding_operand() {
    assert_eq!(
        walk(
            "fun loud(x) { print \"evaluated\"; return x; }\n\
             print false and loud(1);\n\
             print true or loud(2);\n\
             print nil or \"yes\";\n\
             print 1 and 2;\n\
             print true and loud(3);\n\
             print false or loud(4);"
        ),
        (
            lines(&["false", "true", "yes", "2", "evaluated", "3", "evaluated", "4"]),
            None
        )
    );
}

#[test]
fn walker_truthiness() {
    assert_eq!(
        walk("print !!nil; print !!false; print !!0; print !!\"\"; print !!true; print !nil;"),
        (lines(&["false", "false", "true", "true", "true", "true"]), None)
    );
    assert_eq!(
        walk("if (0) print \"zero is true\"; else print \"zero is false\"; if (nil) print 1; else print 2;"),
        (lines(&["zero is true", "2"]), None)
    );
}

#[test]
fn walker_reports_wrong_arity() {
    assert_eq!(
        walk("fun f(a, b) { return a; }\nprint f(1);"),
        (vec![], Some("Expected 2 arguments but got 1.\n[line 2]".to_string()))
    );
    assert_eq!(
        walk("fun g() { return 1; } g(1, 2, 3);"),
        (vec![], Some("Expected 0 arguments but got 3.\n[line 1]".to_string()))
    );
    assert_eq!(
        walk("print clock(1);"),
        (vec![], Some("Expected 0 arguments but got 1.\n[line 1]".to_string()))
    );
}

#[test]
fn walker_reports_a_call_of_what_is_not_callable() {
    assert_eq!(
        walk("var a = 1;\n\na();"),
        (vec![], Some("Can only call functions and classes.\n[line 3]".to_string()))
    );
    assert_eq!(
        walk("\"text\"();"),
        (vec![], Some("Can only call functions and classes.\n[line 1]".to_string()))
    );
}

#[test]
fn walker_reports_undefined_variables() {
    assert_eq!(
        walk("print 1;\nprint missing;"),
        (lines(&["1"]), Some("Undefined variable 'missing'.\n[line 2]".to_string()))
    );
    assert_eq!(
        walk("missing = 1;"),
        (vec![], Some("Undefined variable 'missing'.\n[line 1]".to_string()))
    );
}

#[test]
fn walker_reports_operand_errors() {
    assert_eq!(
        walk("print -\"a\";"),
        (vec![], Some("Operand must be a number.\n[line 1]".to_string()))
    );
    assert_eq!(
        walk("print 1 + nil;"),
        (vec![], Some("Operands must be two numbers or two strings.\n[line 1]".to_string()))
    );
    assert_eq!(
        walk("print 1 < \"a\";"),
        (vec![], Some("Operands must be numbers.\n[line 1]".to_string()))
    );
}

#[test]
fn walker_blocks_shadow_and_restore() {
    assert_eq!(
        walk("var a = 1; { var a = 2; print a; { var a = 3; print a; } print a; } print a;"),
        (lines(&["2", "3", "2", "1"]), None)
    );
    assert_eq!(
        walk("var a = 1; { a = 2; var b = a + 1; print b; } print a;"),
        (lines(&["3", "2"]), None)
    );
}

#[test]
fn walker_function_without_return_gives_nil() {
    assert_eq!(
        walk("fun f() { print \"in\"; } print f(); print f;"),
        (lines(&["in", "nil", "<fn f>"]), None)
    );
    assert_eq!(walk("print clock;"), (lines(&["<native fn>"]), None));
    assert_eq!(walk("print clock();"), (lines(&["1234.5"]), None));
}

#[test]
fn walker_return_leaves_loops_and_blocks() {
    assert_eq!(
        walk(
            "fun find(limit) { var i = 0; while (true) { { if (i >= limit) return i; } i = i + 1; } }\n\
             print find(4); var after = 7; print after;"
        ),
        (lines(&["4", "7"]), None)
    );
}

#[test]
fn walker_evaluates_arguments_left_to_right() {
    assert_eq!(
        walk(
            "fun show(x) { print x; return x; }\n\
             fun three(a, b, c) { return a + b + c; }\n\
             print three(show(\"a\"), show(\"b\"), show(\"c\"));"
        ),
        (lines(&["a", "b", "c", "abc"]), None)
    );
}

#[test]
fn walker_equality_never_fails() {
    assert_eq!(
        walk("print 1 == \"1\"; print nil == nil; print nil != false; print \"a\" == \"a\"; fun f() {} print f == f; print f == clock;"),
        (lines(&["false", "true", "true", "true", "true", "false"]), None)
    );
}

#[test]
fn walker_goes_on_after_a_runtime_error() {
    let first_source = "var kept = 1; print kept + nil;";
    let second_source = "print kept;";
    let mut first_scanner = Scanner::new(first_source);
    let mut first_parser = AstParser::new(first_scanner.scan_tokens().tokens);
    let first = first_parser.parse();
    let mut second_scanner = Scanner::new(second_source);
    let mut second_parser = AstParser::new(second_scanner.scan_tokens().tokens);
    let second = second_parser.parse();
    let mut interpreter = Interpreter::new();
    interpreter.interpret(&first);
    let mut failed = false;
    while !interpreter.is_done() {
        match interpreter.step() {
            Ok(Event::Number(request)) => interpreter.supply(answer(&request)),
            Ok(_) => {}
            Err(error) => {
                failed = true;
                assert_eq!(error.message, "Operands must be two numbers or two strings.");
            }
        }
    }
    assert!(failed);
    interpreter.interpret(&second);
    let mut printed = Vec::new();
    while !interpreter.is_done() {
        match interpreter.step() {
            Ok(Event::Number(request)) => interpreter.supply(answer(&request)),
            Ok(Event::Print(Shown::Number(n))) => printed.push(f64::from_bits(n.to_bits())),
            Ok(_) => {}
            Err(_) => panic!("no error expected"),
        }
    }
    assert_eq!(printed, vec![1.0]);
}

#[test]
fn walker_calls_as_deep_as_the_program_asks() {
    assert_eq!(
        walk("fun count(n) { if (n == 0) return 0; return 1 + count(n - 1); } print count(20000);"),
        (lines(&["20000"]), None)
    );
}

#[test]
fn walker_nested_closures_share_one_variable() {
    assert_eq!(
        walk(
            "fun pair() { var n = 0; fun up() { n = n + 1; return n; } fun get() { return n; } \
             up(); up(); print get(); return up; }\n\
             var again = pair(); print again(); var other = pair(); print other();"
        ),
        (lines(&["2", "3", "2", "3"]), None)
    );
}

#[test]
fn walker_numbers_are_written_without_needless_digits() {
    assert_eq!(
        walk("print 3.0; print 0.5 + 0.25; print 10 / 4; print 1 / 0; print -0.0; print 100 * 100;"),
        (lines(&["3", "0.75", "2.5", "inf", "-0", "10000"]), None)
    );
}
