use rlox::ast_parser::AstParser;
use rlox::ast_printer::AstPrinter;
use rlox::environment::{Environment, Environments};
use rlox::expr::Expr;
use rlox::interpreter::{Event, Interpreter, Locals, Outcome};
use rlox::lox_function::{Callable, LoxFunction};
use rlox::number::{Number, NumberRequest};
use rlox::object::Object;
use rlox::resolver::{FunctionType, Resolver};
use rlox::scanner::Scanner;
use rlox::stmt::Stmt;
use rlox::token::{Literal, Token, TokenType};
use rlox::value::Shown;

fn parse(source: &str) -> (Vec<Stmt>, Vec<String>) {
    let mut scanner = Scanner::new(source);
    let mut parser = AstParser::new(scanner.scan_tokens().tokens);
    let statements = parser.parse();
    let messages = parser.diagnostics().iter().map(|d| d.to_text()).collect();
    (statements, messages)
}

/// The expression of a program that is one expression statement, printed.
fn printed(source: &str) -> String {
    let (statements, messages) = parse(source);
    assert_eq!(messages, Vec::<String>::new());
    assert_eq!(statements.len(), 1);
    match &statements[0] {
        Stmt::Expression(s) => AstPrinter::new().print(&s.expression),
        _ => panic!("expected an expression statement"),
    }
}

#[test]
fn operators_bind_by_precedence_and_from_the_left() {
    assert_eq!(printed("1 + 2 * 3;"), "(+ 1 (* 2 3))");
    assert_eq!(printed("1 * 2 + 3;"), "(+ (* 1 2) 3)");
    assert_eq!(printed("1 - 2 - 3;"), "(- (- 1 2) 3)");
    assert_eq!(printed("8 / 4 / 2;"), "(/ (/ 8 4) 2)");
    assert_eq!(printed("1 < 2 == 3 >= 4;"), "(== (< 1 2) (>= 3 4))");
    assert_eq!(printed("a or b and c;"), "(or a (and b c))");
    assert_eq!(printed("a and b or c and d;"), "(or (and a b) (and c d))");
    assert_eq!(printed("!a == -b;"), "(== (! a) (- b))");
    assert_eq!(printed("--1;"), "(- (- 1))");
    assert_eq!(printed("(1 + 2) * 3;"), "(* (group (+ 1 2)) 3)");
    assert_eq!(printed("a = b = c + 1;"), "(assign a (assign b (+ c 1)))");
    assert_eq!(printed("1 != 2 <= 3;"), "(!= 1 (<= 2 3))");
}

#[test]
fn literals_variables_and_calls_are_printed() {
    assert_eq!(printed("nil;"), "nil");
    assert_eq!(printed("true;"), "true");
    assert_eq!(printed("false;"), "false");
    assert_eq!(printed("12.50;"), "12.50");
    assert_eq!(printed("\"hi there\";"), "\"hi there\"");
    assert_eq!(printed("name;"), "name");
    assert_eq!(printed("f();"), "(call f)");
    assert_eq!(printed("f(1, a + 2)(\"x\");"), "(call (call f 1 (+ a 2)) \"x\")");
    assert_eq!(printed("-f(1);"), "(- (call f 1))");
}

#[test]
fn statements_are_parsed_into_their_kinds() {
    let (statements, messages) = parse(
        "var a; var b = 1; print b; { a = b; } if (a) print 1; else print 2; \
         while (a) a = nil; fun f(x, y) { return x; } b;",
    );
    assert_eq!(messages, Vec::<String>::new());
    assert_eq!(statements.len(), 8);
    assert!(matches!(&statements[0], Stmt::Var(s) if s.name.lexeme == "a" && s.initializer.is_none()));
    assert!(matches!(&statements[1], Stmt::Var(s) if s.name.lexeme == "b" && s.initializer.is_some()));
    assert!(matches!(&statements[2], Stmt::Print(_)));
    assert!(matches!(&statements[3], Stmt::Block(s) if s.statements.len() == 1));
    assert!(matches!(&statements[4], Stmt::If(s) if s.else_branch.is_some()));
    assert!(matches!(&statements[5], Stmt::While(_)));
    match &statements[6] {
        Stmt::Function(s) => {
            assert_eq!(s.name.lexeme, "f");
            let params: Vec<&str> = s.params.iter().map(|p| p.lexeme.as_str()).collect();
            assert_eq!(params, vec!["x", "y"]);
            assert!(matches!(&s.body[0], Stmt::Return(r) if r.keyword.lexeme == "return" && r.value.is_some()));
        }
        _ => panic!("expected a function"),
    }
    assert!(matches!(&statements[7], Stmt::Expression(_)));
}

#[test]
fn a_for_loop_is_written_with_while() {
    let (statements, messages) = parse("for (var i = 0; i < 3; i = i + 1) print i;");
    assert_eq!(messages, Vec::<String>::new());
    let mut printer = AstPrinter::new();
    match &statements[0] {
        Stmt::Block(outer) => {
            assert_eq!(outer.statements.len(), 2);
            assert!(matches!(&outer.statements[0], Stmt::Var(s) if s.name.lexeme == "i"));
            match &outer.statements[1] {
                Stmt::While(w) => {
                    assert_eq!(printer.print(&w.condition), "(< i 3)");
                    match &*w.body {
                        Stmt::Block(body) => {
                            assert!(matches!(&body.statements[0], Stmt::Print(_)));
                            match &body.statements[1] {
                                Stmt::Expression(s) => {
                                    assert_eq!(printer.print(&s.expression), "(assign i (+ i 1))")
                                }
                                _ => panic!("expected the increment"),
                            }
                        }
                        _ => panic!("expected a block"),
                    }
                }
                _ => panic!("expected a loop"),
            }
        }
        _ => panic!("expected a block"),
    }
    let (statements, _) = parse("for (;;) print 1;");
    match &statements[0] {
        Stmt::While(w) => {
            assert_eq!(printer.print(&w.condition), "true");
            assert!(matches!(&*w.body, Stmt::Print(_)));
        }
        _ => panic!("expected a loop"),
    }
}

#[test]
fn references_to_variables_are_numbered_apart() {
    let (statements, _) = parse("a; a = b;");
    let first = match &statements[0] {
        Stmt::Expression(s) => match &s.expression {
            Expr::Variable(v) => v.id,
            _ => panic!("expected a variable"),
        },
        _ => panic!("expected an expression"),
    };
    let (assigned, read) = match &statements[1] {
        Stmt::Expression(s) => match &s.expression {
            Expr::Assign(a) => match &*a.value {
                Expr::Variable(v) => (a.id, v.id),
                _ => panic!("expected a variable"),
            },
            _ => panic!("expected an assignment"),
        },
        _ => panic!("expected an expression"),
    };
    assert!(first != assigned && first != read && assigned != read);
    let mut scanner = Scanner::new("c;");
    let mut parser = AstParser::numbering_from(scanner.scan_tokens().tokens, 40);
    let later = parser.parse();
    assert!(matches!(&later[0], Stmt::Expression(s) if matches!(&s.expression, Expr::Variable(v) if v.id == 40)));
    assert_eq!(parser.next_id(), 41);
}

#[test]
fn syntax_errors_are_reported_and_parsing_goes_on() {
    let (statements, messages) = parse("print 1 +;\nvar = 2;\nprint 3;\n(4;\nprint 5");
    assert_eq!(
        messages,
        vec![
            "[line 1] Error at ';': Expect expression.",
            "[line 2] Error at '=': Expect variable name.",
            "[line 4] Error at ';': Expect ')' after expression.",
            "[line 5] Error at end: Expect ';' after value.",
        ]
    );
    assert_eq!(statements.len(), 1);
    assert!(matches!(&statements[0], Stmt::Print(_)));
}

#[test]
fn each_statement_asks_for_its_punctuation() {
    let cases = [
        ("1", "[line 1] Error at end: Expect ';' after expression."),
        ("var a = 1", "[line 1] Error at end: Expect ';' after variable declaration."),
        ("var a", "[line 1] Error at end: Expect ';' after variable declaration."),
        ("{ 1;", "[line 1] Error at end: Expect '}' after block."),
        ("if 1", "[line 1] Error at '1': Expect '(' after 'if'."),
        ("if (1 2", "[line 1] Error at '2': Expect ')' after if condition."),
        ("while 1", "[line 1] Error at '1': Expect '(' after 'while'."),
        ("while (1 2", "[line 1] Error at '2': Expect ')' after condition."),
        ("for 1", "[line 1] Error at '1': Expect '(' after 'for'."),
        ("for (;1 2", "[line 1] Error at '2': Expect ';' after loop condition."),
        ("for (;;1 2", "[line 1] Error at '2': Expect ')' after for clauses."),
        ("fun 1", "[line 1] Error at '1': Expect function name."),
        ("fun f 1", "[line 1] Error at '1': Expect '(' after function name."),
        ("fun f(1", "[line 1] Error at '1': Expect parameter name."),
        ("fun f(a 1", "[line 1] Error at '1': Expect ')' after parameters."),
        ("fun f(a) 1", "[line 1] Error at '1': Expect '{' before function body."),
        ("fun f() { return 1 }", "[line 1] Error at '}': Expect ';' after return value."),
        ("f(1 2);", "[line 1] Error at '2': Expect ')' after arguments."),
        ("1 = 2;", "[line 1] Error at '=': Invalid assignment target."),
        ("a + b = 2;", "[line 1] Error at '=': Invalid assignment target."),
    ];
    for (source, message) in cases {
        let (_, messages) = parse(source);
        assert_eq!(messages.first().map(|m| m.as_str()), Some(message), "{}", source);
    }
}

#[test]
fn more_than_255_arguments_or_parameters_are_reported() {
    let list = |count: usize| (0..count).map(|i| format!("a{}", i)).collect::<Vec<_>>().join(", ");
    let (statements, messages) = parse(&format!("f({});", list(255)));
    assert_eq!(messages, Vec::<String>::new());
    assert!(matches!(&statements[0], Stmt::Expression(s) if matches!(&s.expression, Expr::Call(c) if c.arguments.len() == 255)));
    let (statements, messages) = parse(&format!("f({});", list(256)));
    assert_eq!(messages, vec!["[line 1] Error at 'a255': Can't have more than 255 arguments."]);
    assert_eq!(statements.len(), 1);
    let (_, messages) = parse(&format!("fun f({}) {{}}", list(255)));
    assert_eq!(messages, Vec::<String>::new());
    let (_, messages) = parse(&format!("fun f({}) {{}}", list(256)));
    assert_eq!(messages, vec!["[line 1] Error at 'a255': Can't have more than 255 parameters."]);
}

fn resolve(source: &str) -> Result<Resolver, String> {
    let (statements, messages) = parse(source);
    assert_eq!(messages, Vec::<String>::new());
    let mut resolver = Resolver::new();
    match resolver.resolve_statements(&statements) {
        Ok(()) => Ok(resolver),
        Err(error) => Err(error.to_text()),
    }
}

#[test]
fn the_resolver_rejects_what_cannot_run() {
    assert_eq!(
        resolve("{ var a = 1; var a = 2; }").err(),
        Some("[line 1] Error at 'a': Already a variable with this name in this scope.".to_string())
    );
    assert_eq!(
        resolve("var a = 1;\n{ var a = a; }").err(),
        Some("[line 2] Error at 'a': Can't read local variable in its own initializer.".to_string())
    );
    assert_eq!(
        resolve("print 1;\nreturn 1;").err(),
        Some("[line 2] Error at 'return': Can't return from top-level code.".to_string())
    );
    assert_eq!(
        resolve("fun f(a, a) {}").err(),
        Some("[line 1] Error at 'a': Already a variable with this name in this scope.".to_string())
    );
    assert_eq!(
        resolve("fun f(a) { var a = 1; }").err(),
        Some("[line 1] Error at 'a': Already a variable with this name in this scope.".to_string())
    );
    assert!(resolve("var a = 1; var a = 2; var b = b;").is_ok());
    assert!(resolve("fun f() { return; } fun g() { { return 1; } }").is_ok());
    assert!(resolve("{ var a = 1; { var a = 2; } }").is_ok());
}

#[test]
fn the_resolver_counts_the_scopes_between_use_and_declaration() {
    // The references are numbered in the order in which the parser meets them.
    let resolver = resolve(
        "var g = 0; { var a = 1; { var b = a; print b; print g; { a = b; } } fun f(p) { print p; print a; } }",
    )
    .unwrap();
    // a (in the initializer of b), b, g, the target a (read as a variable
    // first, which is dropped), b (in a = b), the assignment to a, p, a (in f)
    assert_eq!(resolver.depth(0), Some(1));
    assert_eq!(resolver.depth(1), Some(0));
    assert_eq!(resolver.depth(2), None);
    assert_eq!(resolver.depth(3), None);
    assert_eq!(resolver.depth(4), Some(1));
    assert_eq!(resolver.depth(5), Some(2));
    assert_eq!(resolver.depth(6), Some(0));
    assert_eq!(resolver.depth(7), Some(1));
    assert_eq!(resolver.depth(8), None);
    let locals = resolver.into_locals();
    assert_eq!(locals.get(5), Some(2));
    let resumed = Resolver::resume(locals);
    assert_eq!(resumed.depth(0), Some(1));
    assert!(FunctionType::Script != FunctionType::Function);
}

fn num(value: f64) -> Number {
    Number::from_bits(value.to_bits())
}

#[test]
fn operators_apply_to_values() {
    let one = Object::Number(num(1.0));
    let two = Object::Number(num(2.0));
    let a = Object::String("a".to_string());
    let b = Object::String("b".to_string());
    assert!(matches!(
        Interpreter::binary_operation(TokenType::Plus, &one, &two),
        Outcome::Ask(NumberRequest::Add(x, y)) if x.to_bits() == 1.0f64.to_bits() && y.to_bits() == 2.0f64.to_bits()
    ));
    assert!(matches!(
        Interpreter::binary_operation(TokenType::Minus, &one, &two),
        Outcome::Ask(NumberRequest::Subtract(_, _))
    ));
    assert!(matches!(
        Interpreter::binary_operation(TokenType::Star, &one, &two),
        Outcome::Ask(NumberRequest::Multiply(_, _))
    ));
    assert!(matches!(
        Interpreter::binary_operation(TokenType::Slash, &two, &one),
        Outcome::Ask(NumberRequest::Divide(x, _)) if x.to_bits() == 2.0f64.to_bits()
    ));
    assert!(matches!(
        Interpreter::binary_operation(TokenType::Plus, &a, &b),
        Outcome::Value(Object::String(text)) if text == "ab"
    ));
    assert!(matches!(
        Interpreter::binary_operation(TokenType::Plus, &a, &one),
        Outcome::Fail(message) if message == "Operands must be two numbers or two strings."
    ));
    assert!(matches!(
        Interpreter::binary_operation(TokenType::Star, &a, &b),
        Outcome::Fail(message) if message == "Operands must be numbers."
    ));
    for (op, expected) in [
        (TokenType::Less, true),
        (TokenType::LessEqual, true),
        (TokenType::Greater, false),
        (TokenType::GreaterEqual, false),
        (TokenType::EqualEqual, false),
        (TokenType::BangEqual, true),
    ] {
        assert!(matches!(
            Interpreter::binary_operation(op, &one, &two),
            Outcome::Value(Object::Bool(r)) if r == expected
        ));
    }
    assert!(matches!(
        Interpreter::binary_operation(TokenType::EqualEqual, &a, &Object::Nil),
        Outcome::Value(Object::Bool(false))
    ));
    assert!(matches!(
        Interpreter::binary_operation(TokenType::Comma, &a, &b),
        Outcome::Value(Object::Nil)
    ));
    assert!(matches!(
        Interpreter::unary_operation(TokenType::Bang, &Object::Nil),
        Outcome::Value(Object::Bool(true))
    ));
    assert!(matches!(
        Interpreter::unary_operation(TokenType::Bang, &one),
        Outcome::Value(Object::Bool(false))
    ));
    assert!(matches!(
        Interpreter::unary_operation(TokenType::Minus, &two),
        Outcome::Value(Object::Number(n)) if n.to_bits() == (-2.0f64).to_bits()
    ));
    assert!(matches!(
        Interpreter::unary_operation(TokenType::Minus, &a),
        Outcome::Fail(message) if message == "Operand must be a number."
    ));
    assert!(Interpreter::short_circuits(TokenType::Or, &one));
    assert!(!Interpreter::short_circuits(TokenType::Or, &Object::Nil));
    assert!(Interpreter::short_circuits(TokenType::And, &Object::Bool(false)));
    assert!(!Interpreter::short_circuits(TokenType::And, &a));
}

#[test]
fn a_call_binds_the_parameters_inside_the_closure() {
    let (statements, _) = parse("fun f(a, b, a) { }");
    let declaration = match &statements[0] {
        Stmt::Function(declaration) => declaration,
        _ => panic!("expected a function"),
    };
    let mut scopes = Environments::new();
    scopes.add(Environment::default());
    scopes.add(Environment::new(0));
    scopes.add(Environment::new(1));
    let function = LoxFunction::new(declaration, 1);
    assert_eq!(function.arity(), 3);
    assert_eq!(Callable::Function(LoxFunction::new(declaration, 1)).arity(), 3);
    assert_eq!(Callable::Clock.arity(), 0);
    let arguments = vec![Object::Number(num(1.0)), Object::Bool(true)];
    assert_eq!(function.bind(&mut scopes, &arguments), Some(3));
    let scope = scopes.scope(3);
    assert_eq!(scope.enclosing, Some(1));
    assert!(matches!(scope.values.get("a"), Some(Object::Nil)));
    assert!(matches!(scope.values.get("b"), Some(Object::Bool(true))));
    assert_eq!(LoxFunction::new(declaration, 9).bind(&mut scopes, &arguments), None);
    assert_eq!(scopes.len(), 4);
}

#[test]
fn the_walker_keeps_its_state_between_steps() {
    let (statements, _) = parse("var a = 1; { var b = a; print b; }");
    let mut interpreter = Interpreter::new();
    assert!(interpreter.is_done());
    assert!(matches!(interpreter.step(), Ok(Event::Done)));
    let mut resolver = Resolver::new();
    assert!(resolver.resolve_statements(&statements).is_ok());
    interpreter.adopt(resolver.into_locals());
    interpreter.interpret(&statements);
    assert!(!interpreter.is_done());
    assert_eq!((interpreter.frame_count(), interpreter.value_count()), (1, 0));
    assert_eq!((interpreter.current_scope(), interpreter.scopes().len()), (0, 1));
    let mut deepest = 0;
    let mut printed = Vec::new();
    let mut asked = 0;
    while !interpreter.is_done() {
        match interpreter.step() {
            Ok(Event::Number(NumberRequest::Parse(digits))) => {
                assert_eq!(digits, "1");
                asked += 1;
                assert!(matches!(interpreter.step(), Ok(Event::Number(NumberRequest::Parse(_)))));
                interpreter.supply(num(1.0));
                interpreter.supply(num(99.0));
            }
            Ok(Event::Print(Shown::Number(n))) => printed.push(f64::from_bits(n.to_bits())),
            Ok(Event::Continue) => {}
            _ => panic!("unexpected"),
        }
        deepest = deepest.max(interpreter.current_scope());
    }
    assert_eq!((asked, printed, deepest), (1, vec![1.0], 1));
    assert_eq!((interpreter.current_scope(), interpreter.scopes().len()), (0, 2));
    assert_eq!(interpreter.value_count(), 0);
    assert!(matches!(
        interpreter.look_up_variable(&Token::new(TokenType::Identifier, "a", Literal::Nil, 1), 77),
        Ok(Object::Number(_))
    ));
    assert!(matches!(
        interpreter.stringify(&Object::Callable(0)),
        Shown::Text(text) if text == "<native fn>"
    ));
    assert!(matches!(interpreter.stringify(&Object::Callable(5)), Shown::Text(text) if text == "<fn>"));
    assert!(matches!(interpreter.stringify(&Object::String("s".to_string())), Shown::Text(text) if text == "s"));
}

#[test]
fn the_walker_takes_findings_one_by_one() {
    let (statements, _) = parse("print b;");
    let reference = match &statements[0] {
        Stmt::Print(s) => &s.expression,
        _ => panic!("expected a print"),
    };
    let mut interpreter = Interpreter::new();
    interpreter.resolve(reference, 0);
    let literal = Expr::Literal(rlox::expr::ExprLiteral { value: Literal::Nil });
    interpreter.resolve(&literal, 5);
    let mut locals = interpreter.release_locals();
    assert_eq!(locals.get(0), Some(0));
    assert_eq!(locals.get(1), None);
    assert_eq!(interpreter.release_locals().get(0), None);
    locals.insert(3, 2);
    assert_eq!(locals.get(3), Some(2));
    interpreter.adopt(locals);
    // The globals have no `b`, and the finding says that it is in the current scope.
    interpreter.interpret(&statements);
    let mut failed = None;
    while !interpreter.is_done() {
        if let Err(error) = interpreter.step() {
            failed = Some(error.diagnostic());
        }
    }
    assert_eq!(failed.as_deref(), Some("Undefined variable 'b'.\n[line 1]"));
    assert_eq!(Locals::new().get(0), None);
}

#[test]
fn the_walker_runs_a_block_in_a_scope_of_the_caller() {
    let (block, _) = parse("print hidden;");
    let mut resolver = Resolver::new();
    assert!(resolver.resolve_statements(&block).is_ok());
    let mut interpreter = Interpreter::new();
    assert_eq!((interpreter.frame_count(), interpreter.current_scope()), (0, 0));
    interpreter.execute_block(&block, 0);
    assert_eq!((interpreter.frame_count(), interpreter.current_scope()), (2, 0));
    let mut failed = None;
    while !interpreter.is_done() {
        if let Err(error) = interpreter.step() {
            failed = Some(error.message);
        }
    }
    assert_eq!(failed.as_deref(), Some("Undefined variable 'hidden'."));
}

fn expression(source: &str) -> Expr {
    let mut scanner = Scanner::new(source);
    let scan = scanner.scan_tokens();
    assert!(scan.errors.is_empty());
    let mut parser = AstParser::new(scan.tokens);
    let parsed = parser.parse_expression().expect("an expression");
    assert!(!parser.had_error());
    assert!(parser.at_end());
    parsed
}

#[test]
fn the_source_form_is_the_tokens_with_spaces_between() {
    let mut printer = AstPrinter::new();
    assert_eq!(printer.source(&expression("1+2*3")), "1 + 2 * 3");
    assert_eq!(printer.source(&expression("(1+2)*-x")), "( 1 + 2 ) * - x");
    assert_eq!(printer.source(&expression("a=b=!c  or  d and  nil")), "a = b = ! c or d and nil");
    assert_eq!(printer.source(&expression("f ( )")), "f ( )");
    assert_eq!(printer.source(&expression("f(1,\"two words\")(g(x)==true)")), "f ( 1 , \"two words\" ) ( g ( x ) == true )");
    assert_eq!(printer.source(&expression("1.50 <= 2 != false")), "1.50 <= 2 != false");
    assert_eq!(printer.source(&expression("// a comment\n  name  // another\n")), "name");
}

#[test]
fn an_expression_reads_back_from_its_source_form() {
    let mut printer = AstPrinter::new();
    for source in [
        "1",
        "\"text\nwith a line break\"",
        "name",
        "1 + 2 * 3 - 4 / 5",
        "(a or b) and !(c == d)",
        "x = y = f(1, g(2, 3), \"s\")(h)",
        "-(-1) <= --2 != (nil == false)",
        "a\n+\nb\n*\nc",
    ] {
        let first = expression(source);
        let text = printer.source(&first);
        let second = expression(&text);
        assert_eq!(printer.print(&second), printer.print(&first), "{}", source);
        assert_eq!(printer.source(&second), text, "{}", source);
    }
}

#[test]
fn an_expression_with_an_error_is_not_given() {
    let mut scanner = Scanner::new("1 + ;");
    let mut parser = AstParser::new(scanner.scan_tokens().tokens);
    assert!(parser.parse_expression().is_none());
    let messages: Vec<String> = parser.diagnostics().iter().map(|d| d.to_text()).collect();
    assert_eq!(messages, vec!["[line 1] Error at ';': Expect expression."]);
    let mut scanner = Scanner::new("1 2");
    let mut parser = AstParser::new(scanner.scan_tokens().tokens);
    assert!(parser.parse_expression().is_some());
    assert!(!parser.at_end());
}
