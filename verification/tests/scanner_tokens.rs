use rlox::scanner::Scanner;
use rlox::token::{Literal, Token, TokenType};

fn kinds(source: &str) -> Vec<TokenType> {
    let mut scanner = Scanner::new(source);
    let scan = scanner.scan_tokens();
    assert!(scan.errors.is_empty());
    scan.tokens.iter().map(|t| t.token_type).collect()
}

fn lexemes(source: &str) -> Vec<String> {
    let mut scanner = Scanner::new(source);
    let scan = scanner.scan_tokens();
    scan.tokens.iter().map(|t| t.lexeme.clone()).collect()
}

#[test]
fn scans_punctuation_and_operators() {
    assert_eq!(
        kinds("(){},.-+;/* ! != = == > >= < <="),
        vec![
            TokenType::LeftParen,
            TokenType::RightParen,
            TokenType::LeftBrace,
            TokenType::RightBrace,
            TokenType::Comma,
            TokenType::Dot,
            TokenType::Minus,
            TokenType::Plus,
            TokenType::SemiColon,
            TokenType::Slash,
            TokenType::Star,
            TokenType::Bang,
            TokenType::BangEqual,
            TokenType::Equal,
            TokenType::EqualEqual,
            TokenType::Greater,
            TokenType::GreaterEqual,
            TokenType::Less,
            TokenType::LessEqual,
            TokenType::EOF,
        ]
    );
}

#[test]
fn scans_each_reserved_word() {
    assert_eq!(
        kinds("and class else false fun for if nil or print return super this true var while"),
        vec![
            TokenType::And,
            TokenType::Class,
            TokenType::Else,
            TokenType::False,
            TokenType::Fun,
            TokenType::For,
            TokenType::If,
            TokenType::Nil,
            TokenType::Or,
            TokenType::Print,
            TokenType::Return,
            TokenType::Super,
            TokenType::This,
            TokenType::True,
            TokenType::Var,
            TokenType::While,
            TokenType::EOF,
        ]
    );
}

#[test]
fn reserved_words_are_case_sensitive_and_whole() {
    assert_eq!(
        kinds("And PRINT classy _if fo f t tr thi superb nil0 o"),
        vec![
            TokenType::Identifier,
            TokenType::Identifier,
            TokenType::Identifier,
            TokenType::Identifier,
            TokenType::Identifier,
            TokenType::Identifier,
            TokenType::Identifier,
            TokenType::Identifier,
            TokenType::Identifier,
            TokenType::Identifier,
            TokenType::Identifier,
            TokenType::Identifier,
            TokenType::EOF,
        ]
    );
}

#[test]
fn lexemes_are_the_exact_text() {
    assert_eq!(
        lexemes("var answer_1 = 42.50 ; // the rest\n\"two words\" >= x9"),
        vec!["var", "answer_1", "=", "42.50", ";", "\"two words\"", ">=", "x9", ""]
    );
}

#[test]
fn numbers_take_a_point_only_before_a_digit() {
    assert_eq!(lexemes("1.5"), vec!["1.5", ""]);
    assert_eq!(lexemes("1."), vec!["1", ".", ""]);
    assert_eq!(lexemes(".5"), vec![".", "5", ""]);
    assert_eq!(lexemes("1.2.3"), vec!["1.2", ".", "3", ""]);
    assert_eq!(lexemes("12abc"), vec!["12", "abc", ""]);
    assert_eq!(
        kinds("1.5 1. 007"),
        vec![
            TokenType::Number,
            TokenType::Number,
            TokenType::Dot,
            TokenType::Number,
            TokenType::EOF
        ]
    );
}

#[test]
fn literals_of_strings_and_numbers() {
    let mut scanner = Scanner::new("\"hi there\" 3.25 name \"\"");
    let tokens = scanner.scan_tokens().tokens;
    assert!(matches!(&tokens[0].literal, Literal::String(text) if text == "hi there"));
    assert!(matches!(&tokens[1].literal, Literal::Number(digits) if digits == "3.25"));
    assert!(matches!(&tokens[2].literal, Literal::Nil));
    assert!(matches!(&tokens[3].literal, Literal::String(text) if text.is_empty()));
    assert_eq!(tokens[3].lexeme, "\"\"");
}

#[test]
fn lines_count_line_feeds() {
    let mut scanner = Scanner::new("a\n\nb // comment\nc \"x\ny\" d\r\n e");
    let tokens = scanner.scan_tokens().tokens;
    let lines: Vec<usize> = tokens.iter().map(|t| t.line).collect();
    assert_eq!(lines, vec![1, 3, 4, 5, 5, 6, 6]);
    assert_eq!(tokens[3].lexeme, "\"x\ny\"");
}

#[test]
fn comments_and_whitespace_are_passed_over() {
    assert_eq!(kinds("// only a comment"), vec![TokenType::EOF]);
    assert_eq!(kinds("  \t\r\n  "), vec![TokenType::EOF]);
    assert_eq!(kinds(""), vec![TokenType::EOF]);
    assert_eq!(
        kinds("a / b // c / d\n/ e"),
        vec![
            TokenType::Identifier,
            TokenType::Slash,
            TokenType::Identifier,
            TokenType::Slash,
            TokenType::Identifier,
            TokenType::EOF
        ]
    );
    assert_eq!(lexemes("\"// no comment\""), vec!["\"// no comment\"", ""]);
}

#[test]
fn scan_token_reads_one_token_at_a_time() {
    let mut scanner = Scanner::new("print  x;");
    let first = scanner.scan_token().unwrap();
    assert_eq!((first.token_type, first.lexeme.as_str(), first.line), (TokenType::Print, "print", 1));
    let second = scanner.scan_token().unwrap();
    assert_eq!((second.token_type, second.lexeme.as_str()), (TokenType::Identifier, "x"));
    let third = scanner.scan_token().unwrap();
    assert_eq!(third.token_type, TokenType::SemiColon);
    let end = scanner.scan_token().unwrap();
    assert_eq!((end.token_type, end.lexeme.as_str(), end.line), (TokenType::EOF, "", 1));
    let again = scanner.scan_token().unwrap();
    assert_eq!(again.token_type, TokenType::EOF);
    assert_eq!(scanner.source(), "print  x;");
}

#[test]
fn an_unexpected_character_is_an_error_with_its_line() {
    let mut scanner = Scanner::new("a\n  #");
    assert!(scanner.scan_token().is_ok());
    let error = scanner.scan_token().unwrap_err();
    assert_eq!(error.line, 2);
    assert_eq!(error.message, "Unexpected character.");
    assert_eq!(scanner.scan_token().unwrap().token_type, TokenType::EOF);
    let mut other = Scanner::new("caf\u{e9}");
    assert_eq!(other.scan_token().unwrap().lexeme, "caf");
    assert_eq!(other.scan_token().unwrap_err().message, "Unexpected character.");
}

#[test]
fn an_unterminated_string_is_an_error_at_the_last_line() {
    let mut scanner = Scanner::new("x \"abc\ndef\n");
    assert!(scanner.scan_token().is_ok());
    let error = scanner.scan_token().unwrap_err();
    assert_eq!(error.line, 3);
    assert_eq!(error.message, "Unterminated string.");
    assert_eq!(scanner.scan_token().unwrap().token_type, TokenType::EOF);
}

#[test]
fn eager_scanning_goes_on_after_an_error() {
    let mut scanner = Scanner::new("a @ b\n$ c");
    let scan = scanner.scan_tokens();
    let found: Vec<&str> = scan.tokens.iter().map(|t| t.lexeme.as_str()).collect();
    assert_eq!(found, vec!["a", "b", "c", ""]);
    let errors: Vec<(usize, &str)> =
        scan.errors.iter().map(|e| (e.line, e.message.as_str())).collect();
    assert_eq!(errors, vec![(1, "Unexpected character."), (2, "Unexpected character.")]);
}

#[test]
fn lexemes_in_order_are_the_source_without_whitespace_and_comments() {
    let source = "var a = 1; // one\n  print a + \"b c\";\n";
    assert_eq!(lexemes(source).concat(), "vara=1;printa+\"b c\";");
    let dense = "print(a+b)*\"x y\";";
    assert_eq!(lexemes(dense).concat(), dense);
}

#[test]
fn the_helpers_classify_characters() {
    let scanner = Scanner::new("ab");
    assert!(scanner.is_digit('0') && scanner.is_digit('9') && !scanner.is_digit('a'));
    assert!(scanner.is_alpha('a') && scanner.is_alpha('Z') && scanner.is_alpha('_'));
    assert!(!scanner.is_alpha('1') && !scanner.is_alpha('-'));
    assert!(scanner.is_alpha_numeric('7') && !scanner.is_alpha_numeric(' '));
    assert_eq!(scanner.peek(), Some('a'));
    assert_eq!(scanner.peek_next(), Some('b'));
    assert_eq!(scanner.from_start(1), Some('b'));
    assert_eq!(scanner.from_start(2), None);
    assert!(!scanner.is_at_end());
}

#[test]
fn advance_and_match_move_through_the_source() {
    let mut scanner = Scanner::new("=\n");
    assert!(!scanner.match_str('!'));
    assert!(scanner.match_str('='));
    assert_eq!(scanner.advance(), '\n');
    assert!(scanner.is_at_end());
    assert_eq!(scanner.advance(), '\0');
    assert_eq!(scanner.peek(), None);
    assert!(!scanner.match_str('='));
}

#[test]
fn a_token_is_made_of_its_parts() {
    let token = Token::new(TokenType::Plus, "+", Literal::Nil, 7);
    assert_eq!(token.token_type, TokenType::Plus);
    assert_eq!(token.lexeme, "+");
    assert_eq!(token.line, 7);
    assert!(matches!(token.literal, Literal::Nil));
    let copy = token.clone();
    assert_eq!(copy.lexeme, "+");
    let end = Token::dummy();
    assert_eq!((end.token_type, end.lexeme.as_str(), end.line), (TokenType::EOF, "", 0));
}
