use rlox::environment::{Environment, Environments};
use rlox::number::{Number, NumberRequest};
use rlox::object::Object;
use rlox::table::Table;
use rlox::text::{chars_of, push_chars, push_decimal, push_text, same_text, string_of};
use rlox::token::{Literal, Token, TokenType};

fn num(value: f64) -> Number {
    Number::from_bits(value.to_bits())
}

fn samples() -> Vec<f64> {
    vec![
        0.0,
        -0.0,
        1.0,
        -1.0,
        0.5,
        -0.5,
        3.25,
        -3.25,
        1e300,
        -1e300,
        5e-324,
        -5e-324,
        f64::MIN_POSITIVE,
        f64::MAX,
        f64::MIN,
        f64::INFINITY,
        f64::NEG_INFINITY,
        f64::NAN,
        -f64::NAN,
        f64::from_bits(0x7FF0_0000_0000_0001),
        f64::from_bits(0xFFFF_FFFF_FFFF_FFFF),
    ]
}

#[test]
fn comparisons_are_those_of_binary64() {
    for a in samples() {
        for b in samples() {
            assert_eq!(num(a).equals(&num(b)), a == b, "{} == {}", a, b);
            assert_eq!(num(a).less(&num(b)), a < b, "{} < {}", a, b);
            assert_eq!(num(a).greater(&num(b)), a > b, "{} > {}", a, b);
            assert_eq!(num(a).less_equal(&num(b)), a <= b, "{} <= {}", a, b);
            assert_eq!(num(a).greater_equal(&num(b)), a >= b, "{} >= {}", a, b);
        }
    }
}

#[test]
fn negation_and_nan_are_those_of_binary64() {
    for a in samples() {
        assert_eq!(num(a).negate().to_bits(), (-a).to_bits(), "-{}", a);
        assert_eq!(num(a).is_nan(), a.is_nan(), "{}", a);
        assert_eq!(num(a).negate().negate().to_bits(), a.to_bits());
    }
    assert_eq!(num(2.5).negate().to_bits(), (-2.5f64).to_bits());
    assert_eq!(num(0.0).negate().to_bits(), 0x8000_0000_0000_0000);
}

#[test]
fn requests_are_copied_whole() {
    let request = NumberRequest::Parse("12.5".to_string());
    assert!(matches!(request.clone(), NumberRequest::Parse(text) if text == "12.5"));
    let request = NumberRequest::Divide(num(1.0), num(3.0));
    assert!(matches!(
        request.clone(),
        NumberRequest::Divide(a, b) if a.to_bits() == 1.0f64.to_bits() && b.to_bits() == 3.0f64.to_bits()
    ));
    assert!(matches!(NumberRequest::Clock.clone(), NumberRequest::Clock));
}

#[test]
fn text_is_built_from_characters_and_numbers() {
    let mut text = String::new();
    push_decimal(&mut text, 0);
    push_text(&mut text, ", ");
    push_decimal(&mut text, 7);
    push_text(&mut text, ", ");
    push_decimal(&mut text, 10);
    push_text(&mut text, ", ");
    push_decimal(&mut text, 1234567890);
    assert_eq!(text, "0, 7, 10, 1234567890");
    let mut big = String::new();
    push_decimal(&mut big, usize::MAX);
    assert_eq!(big, usize::MAX.to_string());
    let chars = chars_of("h\u{e9}llo");
    assert_eq!(chars, vec!['h', '\u{e9}', 'l', 'l', 'o']);
    assert_eq!(string_of(&chars, 1, 4), "\u{e9}ll");
    assert_eq!(string_of(&chars, 2, 2), "");
    let mut tail = "x".to_string();
    push_chars(&mut tail, &chars, 3, 5);
    assert_eq!(tail, "xlo");
    assert!(same_text("abc", "abc"));
    assert!(!same_text("abc", "abd"));
    assert!(!same_text("abc", "ab"));
    assert!(same_text("", ""));
}

#[test]
fn a_table_maps_names_to_their_last_values() {
    let mut table: Table<u64> = Table::new();
    assert!(!table.contains("a"));
    assert_eq!(table.get("a"), None);
    table.insert("a", 1);
    table.insert("b", 2);
    table.insert("a", 3);
    assert_eq!(table.get("a"), Some(&3));
    assert_eq!(table.get("b"), Some(&2));
    assert_eq!(table.get("c"), None);
    assert!(table.contains("b"));
    assert_eq!(table.find("a"), Some(0));
    assert_eq!(table.find("b"), Some(1));
    assert_eq!(table.entries.len(), 2);
    table.insert("", 9);
    assert_eq!(table.get(""), Some(&9));
}

fn name(text: &str, line: usize) -> Token {
    Token::new(TokenType::Identifier, text, Literal::Nil, line)
}

fn number_of(object: &Object) -> f64 {
    match object {
        Object::Number(n) => f64::from_bits(n.to_bits()),
        _ => panic!("expected a number"),
    }
}

#[test]
fn environments_find_variables_outward() {
    let mut scopes = Environments::new();
    let mut globals = Environment::default();
    globals.define("a", Object::Number(num(1.0)));
    globals.define("b", Object::Number(num(2.0)));
    assert_eq!(scopes.add(globals), Some(0));
    let mut middle = Environment::new(0);
    middle.define("b", Object::Number(num(20.0)));
    assert_eq!(scopes.add(middle), Some(1));
    assert_eq!(scopes.add(Environment::new(1)), Some(2));
    assert_eq!(scopes.add(Environment::new(7)), None);
    assert_eq!(scopes.len(), 3);

    assert_eq!(number_of(&Environment::get(&scopes, 2, &name("a", 1)).unwrap()), 1.0);
    assert_eq!(number_of(&Environment::get(&scopes, 2, &name("b", 1)).unwrap()), 20.0);
    assert_eq!(number_of(&Environment::get(&scopes, 0, &name("b", 1)).unwrap()), 2.0);
    let missing = Environment::get(&scopes, 2, &name("c", 9)).unwrap_err();
    assert_eq!((missing.line, missing.message.as_str()), (9, "Undefined variable 'c'."));

    assert_eq!(Environment::ancestor(&scopes, 2, 0), Some(2));
    assert_eq!(Environment::ancestor(&scopes, 2, 1), Some(1));
    assert_eq!(Environment::ancestor(&scopes, 2, 2), Some(0));
    assert_eq!(Environment::ancestor(&scopes, 2, 3), None);
    assert_eq!(Environment::ancestor(&scopes, 3, 0), None);
    assert_eq!(Environment::holder(&scopes, 2, "b"), Some(1));
    assert_eq!(Environment::holder(&scopes, 2, "a"), Some(0));
    assert_eq!(Environment::holder(&scopes, 2, "zz"), None);

    assert_eq!(number_of(&Environment::get_at(&scopes, 2, 1, &name("b", 1)).unwrap()), 20.0);
    assert_eq!(number_of(&Environment::get_at(&scopes, 2, 2, &name("b", 1)).unwrap()), 2.0);
    let here = Environment::get_at(&scopes, 2, 0, &name("b", 4)).unwrap_err();
    assert_eq!((here.line, here.message.as_str()), (4, "Undefined variable 'b'."));
    let far = Environment::get_at(&scopes, 2, 5, &name("b", 4)).unwrap_err();
    assert_eq!(far.message, "No enclosing environment.");
}

#[test]
fn environments_assign_in_the_scope_that_has_the_variable() {
    let mut scopes = Environments::new();
    let mut globals = Environment::default();
    globals.define("a", Object::Number(num(1.0)));
    scopes.add(globals);
    scopes.add(Environment::new(0));
    Environment::assign(&mut scopes, 1, &name("a", 1), &Object::Number(num(5.0))).unwrap();
    assert_eq!(number_of(&Environment::get(&scopes, 0, &name("a", 1)).unwrap()), 5.0);
    assert!(!scopes.scope(1).values.contains("a"));
    let missing =
        Environment::assign(&mut scopes, 1, &name("q", 3), &Object::Nil).unwrap_err();
    assert_eq!((missing.line, missing.message.as_str()), (3, "Undefined variable 'q'."));
    assert!(Environment::get(&scopes, 1, &name("q", 3)).is_err());
    Environment::assign_at(&mut scopes, 1, 0, &name("n", 1), &Object::Bool(true)).unwrap();
    assert!(matches!(scopes.scope(1).values.get("n"), Some(Object::Bool(true))));
    Environment::assign_at(&mut scopes, 1, 1, &name("a", 1), &Object::Nil).unwrap();
    assert!(matches!(Environment::get(&scopes, 1, &name("a", 1)), Ok(Object::Nil)));
    let far = Environment::assign_at(&mut scopes, 1, 2, &name("a", 8), &Object::Nil).unwrap_err();
    assert_eq!((far.line, far.message.as_str()), (8, "No enclosing environment."));
    scopes.set(1, "a", Object::Bool(false));
    assert!(matches!(Environment::get(&scopes, 1, &name("a", 1)), Ok(Object::Bool(false))));
    assert!(matches!(Environment::get(&scopes, 0, &name("a", 1)), Ok(Object::Nil)));
}

#[test]
fn objects_are_true_and_equal_by_the_rules() {
    let one = Object::Number(num(1.0));
    let text = Object::String("a".to_string());
    assert!(!Object::Nil.is_truthy());
    assert!(!Object::Bool(false).is_truthy());
    assert!(Object::Bool(true).is_truthy());
    assert!(Object::Number(num(0.0)).is_truthy());
    assert!(Object::String(String::new()).is_truthy());
    assert!(Object::Callable(0).is_truthy());
    assert!(Object::Nil.is_equal(&Object::Nil));
    assert!(!Object::Nil.is_equal(&Object::Bool(false)));
    assert!(!Object::Bool(false).is_equal(&Object::Nil));
    assert!(one.is_equal(&one.clone()));
    assert!(!one.is_equal(&Object::String("1".to_string())));
    assert!(text.is_equal(&Object::String("a".to_string())));
    assert!(!text.is_equal(&Object::String("b".to_string())));
    assert!(Object::Callable(3).is_equal(&Object::Callable(3)));
    assert!(!Object::Callable(3).is_equal(&Object::Callable(4)));
    assert!(Object::Number(num(0.0)).is_equal(&Object::Number(num(-0.0))));
    assert!(!Object::Number(num(f64::NAN)).is_equal(&Object::Number(num(f64::NAN))));
}
